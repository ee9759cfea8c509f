use craft_solver::crafting::affix_candidate::AffixCandidate;
use craft_solver::crafting::choosing::{
    are_tiers_rollable, check_candidates, has_unknown_candidate, has_unusable_candidate,
    is_on_item, resolve_affix, tier_weights_of,
};
use craft_solver::crafting::crafter::Crafter;
use craft_solver::crafting::dataset_error::DatasetError;
use craft_solver::crafting::slots::{current_affixes_of, is_slot_flipped, pick_outcome_affix};
use craft_solver::crafting::solver::Solver;
use craft_solver::crafting::validity::is_pending;
use craft_solver::datasets::affix::Affix;
use craft_solver::datasets::affix_tier::AffixTier;
use craft_solver::datasets::class_tier::ClassTier;
use craft_solver::datasets::class_tiers::{ClassTiers, find_table_anywhere};
use craft_solver::datasets::craft_action::CraftAction;
use craft_solver::datasets::craft_actions::CraftActions;
use craft_solver::datasets::craft_outcome::CraftOutcome;
use craft_solver::datasets::item::Item;
use craft_solver::datasets::items::Items;
use craft_solver::datasets::modifier_tier::ModifierTier;
use craft_solver::datasets::modifiers::Modifiers;
use craft_solver::items::item_state::ItemState;
use craft_solver::items::modifier::Modifier;

fn fixed_tier(value: u16, item_level: u8, weight: u16) -> ModifierTier {
    ModifierTier {
        range: None,
        min: None,
        max: None,
        value: Some(value),
        hybrid: None,
        item_level,
        weight,
    }
}

fn table(affix: &str, tiers: Vec<ModifierTier>) -> AffixTier {
    AffixTier { affix: String::from(affix), tiers }
}

fn affix(id: &str, name: &str) -> Affix {
    Affix { name: String::from(name), id: String::from(id), tags: None }
}

fn catalog() -> Modifiers {
    Modifiers {
        modifiers: vec![
            affix("max-life", "+# to maximum Life"),
            affix("armor", "+# to Armour"),
            affix("fire-res", "+#% to Fire Resistance"),
            affix("cold-res", "+#% to Cold Resistance"),
        ],
    }
}

fn chest_class() -> ClassTier {
    ClassTier {
        classes: vec![String::from("chest")],
        prefixes: vec![
            table("max-life", vec![fixed_tier(180, 80, 100), fixed_tier(100, 1, 900)]),
            table("armor", vec![fixed_tier(50, 90, 400)]),
        ],
        suffixes: vec![
            table("fire-res", vec![fixed_tier(40, 1, 200)]),
            table("cold-res", vec![fixed_tier(30, 1, 300), fixed_tier(20, 1, 0)]),
        ],
    }
}

fn items() -> Vec<Item> {
    vec![Item {
        name: String::from("Warlord Cuirass"),
        class: String::from("chest"),
        stats: None,
        character_level: None,
        implicits: None,
    }]
}

fn solver() -> Solver {
    Solver {
        modifiers: catalog(),
        items: Items { classes: vec![], items: items() },
        craft_actions: CraftActions { craft_actions: vec![] },
        class_tiers: ClassTiers { class_tiers: vec![chest_class()] },
    }
}

fn modifier(id: &str, tier: u8, value: u16) -> Modifier {
    Modifier { name: String::new(), id: String::from(id), tier, value, weight: 1 }
}

fn blank() -> ItemState {
    ItemState::new("Warlord Cuirass", "normal", 82, vec![], vec![])
}

fn outcome(action: &str, affix: &str) -> CraftOutcome {
    CraftOutcome { action: String::from(action), affix: String::from(affix), count: None, probability: 1 }
}

fn action(id: &str, outcomes: Vec<CraftOutcome>) -> CraftAction {
    CraftAction {
        name: String::from(id),
        id: String::from(id),
        cost: 1000,
        currency: None,
        rarity: None,
        outcomes,
    }
}

fn candidate(affix: &str, tiers: Vec<ModifierTier>, weight: u16) -> AffixCandidate {
    AffixCandidate { affix: String::from(affix), affix_tier: table(affix, tiers), weight }
}

#[test]
fn possible_affixes_give_one_candidate_for_each_row_of_an_unlocked_table() {
    let solver = solver();
    let classes = vec![chest_class()];
    let found = solver.get_possible_affixes(&classes, "chest", 82, "prefix");
    let summary: Vec<(String, u16)> = found.iter().map(|c| (c.affix.clone(), c.weight)).collect();
    assert_eq!(
        summary,
        vec![(String::from("max-life"), 100), (String::from("max-life"), 900)]
    );
    assert_eq!(found[0].affix_tier, classes[0].prefixes[0]);
    assert_eq!(found[1].affix_tier, classes[0].prefixes[0]);
    let found = solver.get_possible_affixes(&classes, "chest", 90, "prefix");
    let summary: Vec<(String, u16)> = found.iter().map(|c| (c.affix.clone(), c.weight)).collect();
    assert_eq!(
        summary,
        vec![
            (String::from("max-life"), 100),
            (String::from("max-life"), 900),
            (String::from("armor"), 400)
        ]
    );
}

#[test]
fn possible_affixes_keep_locked_rows_of_an_unlocked_table() {
    let solver = solver();
    let classes = vec![chest_class()];
    let found = solver.get_possible_affixes(&classes, "chest", 1, "prefix");
    assert_eq!(found.len(), 2);
    assert_eq!(found[0].weight, 100);
}

#[test]
fn possible_affixes_are_none_for_an_unknown_class_or_a_level_too_low() {
    let solver = solver();
    let classes = vec![chest_class()];
    assert!(solver.get_possible_affixes(&classes, "boots", 82, "prefix").is_empty());
    assert!(solver.get_possible_affixes(&classes, "chest", 0, "prefix").is_empty());
    assert!(solver.get_possible_affixes(&[], "chest", 82, "prefix").is_empty());
}

#[test]
fn possible_affixes_take_the_suffixes_for_any_other_slot() {
    let solver = solver();
    let classes = vec![chest_class()];
    let suffixes = solver.get_possible_affixes(&classes, "chest", 82, "suffix");
    let ids: Vec<&str> = suffixes.iter().map(|c| c.affix.as_str()).collect();
    assert_eq!(ids, vec!["fire-res", "cold-res", "cold-res"]);
    let other = solver.get_possible_affixes(&classes, "chest", 82, "random");
    assert_eq!(other, suffixes);
}

#[test]
fn possible_affixes_use_the_first_list_for_the_class() {
    let solver = solver();
    let mut second = chest_class();
    second.prefixes.clear();
    let classes = vec![chest_class(), second];
    assert_eq!(solver.get_possible_affixes(&classes, "chest", 82, "prefix").len(), 2);
}

#[test]
fn choose_gives_none_without_candidates() {
    let solver = solver();
    assert_eq!(solver.choose_random_affix(catalog(), &[], &[]), None);
}

#[test]
fn choose_gives_none_when_every_candidate_is_on_the_item() {
    let solver = solver();
    let candidates = vec![candidate("max-life", vec![fixed_tier(100, 1, 5)], 5)];
    let current = vec![modifier("max-life", 1, 1)];
    assert_eq!(solver.choose_random_affix(catalog(), &current, &candidates), None);
}

#[test]
fn choose_gives_none_when_nothing_weighs() {
    let solver = solver();
    let candidates = vec![candidate("max-life", vec![fixed_tier(100, 1, 5)], 0)];
    assert_eq!(solver.choose_random_affix(catalog(), &[], &candidates), None);
}

#[test]
fn choose_with_one_eligible_candidate_gives_its_affix() {
    let solver = solver();
    let candidates = vec![
        candidate("max-life", vec![fixed_tier(100, 1, 5)], 5),
        candidate("armor", vec![fixed_tier(7, 1, 9)], 9),
        candidate("fire-res", vec![fixed_tier(40, 1, 2)], 2),
    ];
    let current = vec![modifier("max-life", 1, 1), modifier("fire-res", 1, 1)];
    for _ in 0..50 {
        let chosen = solver.choose_random_affix(catalog(), &current, &candidates).unwrap();
        assert_eq!(
            chosen,
            Modifier {
                name: String::from("+7 to Armour"),
                id: String::from("armor"),
                tier: 1,
                value: 7,
                weight: 9,
            }
        );
    }
}

#[test]
fn choose_never_draws_a_candidate_or_a_row_without_weight() {
    let solver = solver();
    let candidates = vec![
        candidate("max-life", vec![fixed_tier(100, 1, 5)], 0),
        candidate(
            "cold-res",
            vec![fixed_tier(30, 1, 0), fixed_tier(20, 1, 300), fixed_tier(10, 1, 0)],
            300,
        ),
        candidate("armor", vec![fixed_tier(7, 1, 9)], 0),
    ];
    for _ in 0..100 {
        let chosen = solver.choose_random_affix(catalog(), &[], &candidates).unwrap();
        assert_eq!(
            chosen,
            Modifier {
                name: String::from("+20% to Cold Resistance"),
                id: String::from("cold-res"),
                tier: 2,
                value: 20,
                weight: 300,
            }
        );
    }
}

#[test]
fn choose_draws_the_row_from_all_rows_of_the_table() {
    let solver = solver();
    let classes = vec![chest_class()];
    let candidates = solver.get_possible_affixes(&classes, "chest", 1, "prefix");
    let mut tiers = Vec::new();
    for _ in 0..300 {
        let chosen = solver.choose_random_affix(catalog(), &[], &candidates).unwrap();
        assert_eq!(chosen.id, "max-life");
        if !tiers.contains(&chosen.tier) {
            tiers.push(chosen.tier);
        }
        if chosen.tier == 1 {
            assert_eq!((chosen.value, chosen.weight), (180, 100));
            assert_eq!(chosen.name, "+180 to maximum Life");
        } else {
            assert_eq!((chosen.tier, chosen.value, chosen.weight), (2, 100, 900));
        }
    }
    tiers.sort();
    assert_eq!(tiers, vec![1, 2]);
}

#[test]
fn resolve_affix_numbers_tiers_from_one() {
    let entry = affix("max-life", "+# to maximum Life");
    let one = candidate("max-life", vec![fixed_tier(1, 1, 5), fixed_tier(2, 1, 6)], 5);
    let made = resolve_affix(&entry, &one, 1, 33);
    assert_eq!(
        made,
        Modifier {
            name: String::from("+33 to maximum Life"),
            id: String::from("max-life"),
            tier: 2,
            value: 33,
            weight: 6,
        }
    );
}

#[test]
fn add_fails_on_a_full_slot_and_leaves_it_alone() {
    let solver = solver();
    let mut item = blank();
    for value in 0..3 {
        item.suffixes.push(modifier("other", 1, value));
    }
    let before = item.clone();
    let added = solver.add_random_affix(
        &items(),
        &[chest_class()],
        &catalog(),
        &mut item,
        "suffix",
        1,
    );
    assert!(!added);
    assert_eq!(item, before);
}

#[test]
fn add_fails_for_a_slot_that_is_none() {
    let solver = solver();
    let mut item = blank();
    assert!(!solver.add_random_affix(&items(), &[chest_class()], &catalog(), &mut item, "random", 1));
    assert!(!solver.add_random_affix(&items(), &[chest_class()], &catalog(), &mut item, "", 1));
    assert_eq!(item, blank());
}

#[test]
fn add_of_nothing_succeeds() {
    let solver = solver();
    let mut item = blank();
    assert!(solver.add_random_affix(&items(), &[chest_class()], &catalog(), &mut item, "prefix", 0));
    assert!(solver.add_random_affix(&items(), &[chest_class()], &catalog(), &mut item, "prefix", -3));
    assert_eq!(item, blank());
}

#[test]
fn add_fails_without_candidates() {
    let solver = solver();
    let mut item = blank();
    assert!(!solver.add_random_affix(&items(), &[], &catalog(), &mut item, "prefix", 1));
    item.item_level = 0;
    assert!(!solver.add_random_affix(&items(), &[chest_class()], &catalog(), &mut item, "prefix", 1));
    assert!(item.prefixes.is_empty());
}

#[test]
fn add_appends_what_was_chosen() {
    let solver = solver();
    let mut item = blank();
    item.suffixes.push(modifier("fire-res", 1, 40));
    let added = solver.add_random_affix(
        &items(),
        &[chest_class()],
        &catalog(),
        &mut item,
        "suffix",
        1,
    );
    assert!(added);
    assert_eq!(
        item.suffixes,
        vec![
            modifier("fire-res", 1, 40),
            Modifier {
                name: String::from("+30% to Cold Resistance"),
                id: String::from("cold-res"),
                tier: 1,
                value: 30,
                weight: 300,
            }
        ]
    );
    assert!(item.prefixes.is_empty());
}

#[test]
fn add_never_adds_an_affix_that_is_on_the_item() {
    let solver = solver();
    let mut item = blank();
    item.item_level = 1;
    assert!(!solver.add_random_affix(&items(), &[chest_class()], &catalog(), &mut item, "prefix", 2));
    assert_eq!(item.prefixes.len(), 1);
    assert_eq!(item.prefixes[0].id, "max-life");
    for _ in 0..50 {
        let mut item = blank();
        item.item_level = 90;
        assert!(solver.add_random_affix(
            &items(),
            &[chest_class()],
            &catalog(),
            &mut item,
            "prefix",
            2
        ));
        let mut ids: Vec<&str> = item.prefixes.iter().map(|m| m.id.as_str()).collect();
        ids.sort();
        assert_eq!(ids, vec!["armor", "max-life"]);
    }
}

#[test]
fn add_holds_candidates_against_both_slots() {
    let solver = solver();
    let mut item = blank();
    item.suffixes.push(modifier("max-life", 1, 1));
    let before = item.clone();
    assert!(!solver.add_random_affix(&items(), &[chest_class()], &catalog(), &mut item, "prefix", 1));
    assert_eq!(item, before);
}

fn wide_class() -> ClassTier {
    ClassTier {
        classes: vec![String::from("chest")],
        prefixes: vec![
            table("max-life", vec![fixed_tier(1, 1, 10)]),
            table("armor", vec![fixed_tier(2, 1, 10)]),
            table("fire-res", vec![fixed_tier(3, 1, 10)]),
            table("cold-res", vec![fixed_tier(4, 1, 10)]),
        ],
        suffixes: vec![],
    }
}

#[test]
fn add_stops_when_the_slot_is_full() {
    let solver = solver();
    let mut item = blank();
    assert!(!solver.add_random_affix(&items(), &[wide_class()], &catalog(), &mut item, "prefix", 5));
    assert_eq!(item.prefixes.len(), 3);
    let mut ids: Vec<&str> = item.prefixes.iter().map(|m| m.id.as_str()).collect();
    ids.sort();
    ids.dedup();
    assert_eq!(ids.len(), 3);
    let mut item = blank();
    assert!(solver.add_random_affix(&items(), &[wide_class()], &catalog(), &mut item, "prefix", 3));
    assert_eq!(item.prefixes.len(), 3);
    let mut item = blank();
    item.max_prefixes = 4;
    assert!(solver.add_random_affix(&items(), &[wide_class()], &catalog(), &mut item, "prefix", 4));
    assert_eq!(item.prefixes.len(), 4);
    assert!(!solver.add_random_affix(&items(), &[wide_class()], &catalog(), &mut item, "prefix", 1));
    item.max_prefixes = 5;
    assert!(!solver.add_random_affix(&items(), &[wide_class()], &catalog(), &mut item, "prefix", 1));
    assert_eq!(item.prefixes.len(), 4);
}

#[test]
fn add_fails_and_adds_nothing_when_every_candidate_is_on_the_item() {
    let solver = solver();
    let mut item = blank();
    item.item_level = 1;
    item.prefixes.push(modifier("max-life", 1, 100));
    let before = item.clone();
    assert!(!solver.add_random_affix(&items(), &[chest_class()], &catalog(), &mut item, "prefix", 2));
    assert_eq!(item, before);
    assert!(!solver.add_random_affix(&items(), &[chest_class()], &catalog(), &mut item, "prefix", 1));
    assert_eq!(item, before);
    assert!(solver.add_random_affix(&items(), &[chest_class()], &catalog(), &mut item, "prefix", 0));
}

#[test]
fn remove_takes_as_many_as_asked() {
    let solver = solver();
    let mut item = blank();
    item.prefixes = vec![modifier("a", 1, 1), modifier("b", 1, 2), modifier("c", 1, 3)];
    item.suffixes = vec![modifier("d", 1, 4)];
    assert!(solver.remove_random_affix(&mut item, "prefix", 2));
    assert_eq!(item.prefixes.len(), 1);
    assert!(["a", "b", "c"].contains(&item.prefixes[0].id.as_str()));
    assert_eq!(item.suffixes, vec![modifier("d", 1, 4)]);
    assert!(solver.remove_random_affix(&mut item, "prefix", 1));
    assert!(item.prefixes.is_empty());
}

#[test]
fn remove_fails_once_the_slot_is_empty() {
    let solver = solver();
    let mut item = blank();
    item.suffixes = vec![modifier("d", 1, 4), modifier("e", 1, 5)];
    assert!(!solver.remove_random_affix(&mut item, "suffix", 3));
    assert!(item.suffixes.is_empty());
    assert!(!solver.remove_random_affix(&mut item, "suffix", 1));
    assert!(solver.remove_random_affix(&mut item, "suffix", 0));
}

#[test]
fn remove_fails_for_a_slot_that_is_none() {
    let solver = solver();
    let mut item = blank();
    item.prefixes = vec![modifier("a", 1, 1)];
    let before = item.clone();
    assert!(!solver.remove_random_affix(&mut item, "random", 1));
    assert_eq!(item, before);
}

#[test]
fn remove_takes_any_of_the_affixes() {
    let solver = solver();
    let mut left = Vec::new();
    for _ in 0..200 {
        let mut item = blank();
        item.prefixes = vec![modifier("a", 1, 1), modifier("b", 1, 2)];
        assert!(solver.remove_random_affix(&mut item, "prefix", 1));
        let id = item.prefixes[0].id.clone();
        if !left.contains(&id) {
            left.push(id);
        }
    }
    assert_eq!(left.len(), 2);
}

#[test]
fn outcome_goes_to_suffix_when_prefixes_are_full() {
    let solver = solver();
    let mut item = blank();
    for value in 0..3 {
        item.prefixes.push(modifier("p", 1, value));
    }
    assert_eq!(item.max_prefixes, 3);
    assert_eq!(item.max_suffixes, 3);
    assert_eq!(solver.get_outcome_affix(&outcome("add", "random"), &item), "suffix");
}

#[test]
fn outcome_has_no_slot_on_a_full_item_for_a_random_add() {
    let solver = solver();
    let mut item = blank();
    for value in 0..3 {
        item.prefixes.push(modifier("p", 1, value));
        item.suffixes.push(modifier("s", 1, value));
    }
    assert_eq!(solver.get_outcome_affix(&outcome("add", "random"), &item), "");
    assert_eq!(solver.get_outcome_affix(&outcome("add", "prefix"), &item), "prefix");
    assert_eq!(solver.get_outcome_affix(&outcome("add", "suffix"), &item), "suffix");
    assert_ne!(solver.get_outcome_affix(&outcome("remove", "random"), &item), "");
    assert_ne!(solver.get_outcome_affix(&outcome("replace", "random"), &item), "");
}

#[test]
fn outcome_has_no_slot_on_a_bare_item_for_a_random_remove() {
    let solver = solver();
    let item = blank();
    assert_eq!(solver.get_outcome_affix(&outcome("remove", "random"), &item), "");
    assert_eq!(solver.get_outcome_affix(&outcome("remove", "prefix"), &item), "prefix");
    assert_ne!(solver.get_outcome_affix(&outcome("add", "random"), &item), "");
}

#[test]
fn outcome_goes_where_something_is_for_a_random_remove() {
    let solver = solver();
    let mut item = blank();
    item.suffixes.push(modifier("s", 1, 1));
    assert_eq!(solver.get_outcome_affix(&outcome("remove", "random"), &item), "suffix");
    let mut item = blank();
    item.prefixes.push(modifier("p", 1, 1));
    assert_eq!(solver.get_outcome_affix(&outcome("remove", "random"), &item), "prefix");
}

#[test]
fn outcome_follows_the_target() {
    let solver = solver();
    let mut item = blank();
    item.prefixes = vec![modifier("p", 1, 1), modifier("q", 1, 1)];
    item.suffixes = vec![modifier("s", 1, 1), modifier("t", 1, 1)];
    item.prefixes_targeted = true;
    assert_eq!(solver.get_outcome_affix(&outcome("add", "random"), &item), "prefix");
    assert_eq!(solver.get_outcome_affix(&outcome("remove", "random"), &item), "prefix");
    item.suffixes_targeted = true;
    assert_eq!(solver.get_outcome_affix(&outcome("add", "random"), &item), "suffix");
    assert_eq!(solver.get_outcome_affix(&outcome("remove", "random"), &item), "suffix");
}

#[test]
fn outcome_keeps_a_single_affix_in_balance() {
    let solver = solver();
    let mut item = blank();
    item.prefixes = vec![modifier("p", 1, 1)];
    assert_eq!(solver.get_outcome_affix(&outcome("add", "random"), &item), "suffix");
    let mut item = blank();
    item.suffixes = vec![modifier("s", 1, 1)];
    assert_eq!(solver.get_outcome_affix(&outcome("add", "random"), &item), "prefix");
}

#[test]
fn outcome_takes_its_own_slot_where_nothing_else_decides() {
    let solver = solver();
    let mut item = blank();
    item.prefixes = vec![modifier("p", 1, 1), modifier("q", 1, 1)];
    item.suffixes = vec![modifier("s", 1, 1)];
    assert_eq!(solver.get_outcome_affix(&outcome("add", "prefix"), &item), "prefix");
    assert_eq!(solver.get_outcome_affix(&outcome("add", "suffix"), &item), "suffix");
    assert_eq!(solver.get_outcome_affix(&outcome("add", "lowest"), &item), "suffix");
    assert_eq!(solver.get_outcome_affix(&outcome("replace", "prefix"), &item), "prefix");
}

#[test]
fn outcome_flips_a_coin_for_a_random_slot() {
    let solver = solver();
    let mut item = blank();
    item.prefixes = vec![modifier("p", 1, 1), modifier("q", 1, 1)];
    item.suffixes = vec![modifier("s", 1, 1), modifier("t", 1, 1)];
    let random_add = outcome("add", "random");
    assert!(is_slot_flipped(&random_add, &item));
    assert!(!is_slot_flipped(&outcome("add", "prefix"), &item));
    assert_eq!(pick_outcome_affix(&random_add, &item, true), "prefix");
    assert_eq!(pick_outcome_affix(&random_add, &item, false), "suffix");
    let mut prefix = false;
    let mut suffix = false;
    for _ in 0..200 {
        match solver.get_outcome_affix(&random_add, &item) {
            "prefix" => prefix = true,
            "suffix" => suffix = true,
            other => panic!("no slot: {other}"),
        }
    }
    assert!(prefix && suffix);
}

#[test]
fn a_decided_slot_is_not_flipped() {
    let mut item = blank();
    item.prefixes = vec![modifier("p", 1, 1)];
    let random_add = outcome("add", "random");
    assert!(!is_slot_flipped(&random_add, &item));
    assert_eq!(pick_outcome_affix(&random_add, &item, true), "suffix");
    assert!(!is_slot_flipped(&outcome("remove", "random"), &blank()));
    assert_eq!(pick_outcome_affix(&outcome("remove", "random"), &blank(), true), "");
}

#[test]
fn an_action_must_meet_the_rarity_it_asks_for() {
    let solver = solver();
    let mut transmute = action("transmute", vec![outcome("add", "random")]);
    transmute.rarity = Some(String::from("normal"));
    let mut item = blank();
    assert!(solver.is_valid_crafting_action(&transmute, &item));
    item.rarity = String::from("magic");
    assert!(!solver.is_valid_crafting_action(&transmute, &item));
    transmute.rarity = None;
    assert!(solver.is_valid_crafting_action(&transmute, &item));
}

#[test]
fn alteration_is_held_to_items_of_fewer_than_two_affixes() {
    let solver = solver();
    let alteration = action("alteration", vec![outcome("replace", "random")]);
    let other = action("chaos", vec![outcome("replace", "random")]);
    let mut item = blank();
    item.prefixes = vec![modifier("p", 1, 1)];
    assert!(solver.is_valid_crafting_action(&alteration, &item));
    item.suffixes = vec![modifier("s", 1, 1)];
    assert!(!solver.is_valid_crafting_action(&alteration, &item));
    assert!(solver.is_valid_crafting_action(&other, &item));
    item.suffixes.clear();
    item.prefixes.push(modifier("q", 1, 1));
    assert!(!solver.is_valid_crafting_action(&alteration, &item));
}

#[test]
fn a_pending_action_shuts_out_the_others() {
    let solver = solver();
    let chaos = action("chaos", vec![outcome("replace", "random")]);
    let annul = action("annul", vec![outcome("remove", "random")]);
    let omen = action("omen", vec![outcome("target", "prefix")]);
    let mut item = blank();
    item.prefixes = vec![modifier("p", 1, 1)];
    item.next_actions = Some(vec![String::from("chaos")]);
    assert!(solver.is_valid_crafting_action(&chaos, &item));
    assert!(!solver.is_valid_crafting_action(&annul, &item));
    assert!(solver.is_valid_crafting_action(&omen, &item));
    item.next_actions = Some(vec![]);
    assert!(solver.is_valid_crafting_action(&annul, &item));
    assert!(is_pending(&ItemState { next_actions: Some(vec![String::from("x")]), ..blank() }, &String::from("x")));
    assert!(!is_pending(&blank(), &String::from("x")));
}

#[test]
fn an_action_needs_a_capability() {
    let solver = solver();
    let add = action("add", vec![outcome("add", "random")]);
    let add_prefix = action("add-prefix", vec![outcome("add", "prefix")]);
    let remove = action("remove", vec![outcome("remove", "random")]);
    let remove_suffix = action("remove-suffix", vec![outcome("remove", "suffix")]);
    let replace = action("replace", vec![outcome("replace", "random")]);
    let target = action("target", vec![outcome("target", "prefix")]);
    let mixed = action("mixed", vec![outcome("add", "prefix"), outcome("remove", "prefix")]);
    let bare = blank();
    assert!(solver.is_valid_crafting_action(&add, &bare));
    assert!(solver.is_valid_crafting_action(&add_prefix, &bare));
    assert!(!solver.is_valid_crafting_action(&remove, &bare));
    assert!(!solver.is_valid_crafting_action(&remove_suffix, &bare));
    assert!(!solver.is_valid_crafting_action(&replace, &bare));
    assert!(!solver.is_valid_crafting_action(&target, &bare));
    assert!(!solver.is_valid_crafting_action(&mixed, &bare));
    let mut full = blank();
    for value in 0..3 {
        full.prefixes.push(modifier("p", 1, value));
        full.suffixes.push(modifier("s", 1, value));
    }
    assert!(!solver.is_valid_crafting_action(&add, &full));
    assert!(!solver.is_valid_crafting_action(&add_prefix, &full));
    assert!(solver.is_valid_crafting_action(&remove, &full));
    assert!(solver.is_valid_crafting_action(&remove_suffix, &full));
    assert!(solver.is_valid_crafting_action(&replace, &full));
    assert!(solver.is_valid_crafting_action(&target, &full));
    full.suffixes.clear();
    assert!(solver.is_valid_crafting_action(&add, &full));
    assert!(solver.is_valid_crafting_action(&add_prefix, &full));
    assert!(!solver.is_valid_crafting_action(&mixed, &full));
}

#[test]
fn a_slot_cannot_be_targeted_twice_but_any_affix_can() {
    let solver = solver();
    let target_suffix = action("target", vec![outcome("target", "suffix")]);
    let mut item = blank();
    item.suffixes = vec![modifier("s", 1, 1)];
    item.suffixes_targeted = true;
    assert!(solver.is_valid_crafting_action(&target_suffix, &item));
    item.suffixes.clear();
    assert!(!solver.is_valid_crafting_action(&target_suffix, &item));
}

#[test]
fn reset_takes_the_action_from_the_pending_ones() {
    let solver = solver();
    let mut item = blank();
    item.next_actions = Some(vec![String::from("chaos"), String::from("annul")]);
    solver.reset_item_target_action(&mut item, "chaos");
    assert_eq!(item.next_actions, Some(vec![String::from("annul")]));
    solver.reset_item_target_action(&mut item, "regal");
    assert_eq!(item.next_actions, Some(vec![String::from("annul")]));
    let mut none = blank();
    solver.reset_item_target_action(&mut none, "chaos");
    assert_eq!(none, blank());
}

#[test]
fn minimum_value_tier_and_weight_come_from_the_first_table_of_the_affix() {
    let solver = solver();
    let mut other = chest_class();
    other.classes = vec![String::from("helmet")];
    other.prefixes = vec![table("max-life", vec![fixed_tier(1, 1, 1)])];
    other.suffixes.push(table("chaos-res", vec![fixed_tier(9, 1, 77)]));
    let classes = vec![chest_class(), other];
    assert_eq!(solver.get_minimum_affix_value(&classes, String::from("max-life"), 0), 180);
    assert_eq!(solver.get_minimum_affix_value(&classes, String::from("max-life"), 1), 100);
    assert_eq!(solver.get_minimum_affix_value(&classes, String::from("max-life"), 2), 0);
    assert_eq!(solver.get_minimum_affix_value(&classes, String::from("chaos-res"), 0), 9);
    assert_eq!(solver.get_minimum_affix_value(&classes, String::from("none"), 0), 0);
    assert_eq!(solver.get_affix_tier(&classes, String::from("max-life"), 180), 0);
    assert_eq!(solver.get_affix_tier(&classes, String::from("max-life"), 150), 1);
    assert_eq!(solver.get_affix_tier(&classes, String::from("max-life"), 5), 0);
    assert_eq!(solver.get_affix_tier(&classes, String::from("none"), 5), 0);
    assert_eq!(solver.get_affix_tier_weight(&classes, String::from("max-life"), 1), 900);
    assert_eq!(solver.get_affix_tier_weight(&classes, String::from("chaos-res"), 0), 77);
    assert_eq!(solver.get_affix_tier_weight(&classes, String::from("chaos-res"), 1), 0);
    assert!(find_table_anywhere(&classes, &String::from("cold-res")).is_some());
    assert!(find_table_anywhere(&classes, &String::from("none")).is_none());
}

#[test]
fn modifiers_are_made_from_a_value_or_a_tier() {
    let solver = solver();
    assert_eq!(
        Modifier::from_value(&solver, "max-life", 150),
        Modifier { name: String::new(), id: String::from("max-life"), tier: 1, value: 150, weight: 900 }
    );
    assert_eq!(
        Modifier::from_tier(&solver, "cold-res", 0),
        Modifier { name: String::new(), id: String::from("cold-res"), tier: 0, value: 30, weight: 300 }
    );
    assert_eq!(
        Modifier::from_tier(&solver, "none", 3),
        Modifier { name: String::new(), id: String::from("none"), tier: 3, value: 0, weight: 0 }
    );
}

#[test]
fn helpers_tell_what_is_on_the_item_and_what_can_roll() {
    let mut item = blank();
    item.prefixes = vec![modifier("a", 1, 1)];
    item.suffixes = vec![modifier("b", 1, 2)];
    assert_eq!(current_affixes_of(&item), vec![modifier("a", 1, 1), modifier("b", 1, 2)]);
    assert!(is_on_item(&item.suffixes, &String::from("b")));
    assert!(!is_on_item(&item.suffixes, &String::from("a")));
    let class = chest_class();
    assert_eq!(tier_weights_of(&class.prefixes[0]), vec![100, 900]);
    assert!(are_tiers_rollable(&class.prefixes[0]));
    assert!(are_tiers_rollable(&table("unknown", vec![fixed_tier(1, 1, 1)])));
    assert!(!are_tiers_rollable(&table("armor", vec![])));
    assert!(!are_tiers_rollable(&table("armor", vec![fixed_tier(1, 1, 0)])));
    let mut broken = fixed_tier(1, 1, 1);
    broken.value = None;
    assert!(!are_tiers_rollable(&table("armor", vec![broken])));
    let mut idle = fixed_tier(1, 1, 0);
    idle.value = None;
    assert!(are_tiers_rollable(&table("armor", vec![idle, fixed_tier(1, 1, 1)])));
}

#[test]
fn candidates_are_checked_as_far_as_they_can_be_drawn() {
    let sound = candidate("armor", vec![fixed_tier(7, 1, 9)], 9);
    let unknown = candidate("unknown", vec![fixed_tier(7, 1, 9)], 9);
    let mut broken_tier = fixed_tier(7, 1, 9);
    broken_tier.value = None;
    let broken = candidate("max-life", vec![broken_tier], 9);
    let unknown_idle = candidate("unknown", vec![fixed_tier(7, 1, 9)], 0);
    let list = vec![sound, broken, unknown_idle];
    assert_eq!(check_candidates(&catalog(), &[], &list), Err(DatasetError::UnusableTier));
    assert_eq!(check_candidates(&catalog(), &[modifier("max-life", 1, 1)], &list), Ok(()));
    assert_eq!(check_candidates(&catalog(), &[], &[unknown]), Err(DatasetError::UnknownAffix));
    assert_eq!(check_candidates(&catalog(), &[], &[]), Ok(()));
}

#[test]
fn checked_choosing_names_what_is_wrong_with_the_candidates() {
    let solver = solver();
    let sound = candidate("armor", vec![fixed_tier(7, 1, 9)], 9);
    let unknown = candidate("unknown", vec![fixed_tier(7, 1, 9)], 9);
    let mut broken_tier = fixed_tier(7, 1, 9);
    broken_tier.value = None;
    let broken = candidate("max-life", vec![broken_tier], 9);
    let weightless = candidate("fire-res", vec![fixed_tier(7, 1, 0)], 9);

    let chosen = solver.try_choose_random_affix(catalog(), &[], &[sound.clone()]);
    assert_eq!(chosen.unwrap().unwrap().id, "armor");
    assert_eq!(solver.try_choose_random_affix(catalog(), &[], &[]), Ok(None));
    assert_eq!(
        solver.try_choose_random_affix(catalog(), &[], &[sound.clone(), unknown.clone()]),
        Err(DatasetError::UnknownAffix)
    );
    assert_eq!(
        solver.try_choose_random_affix(catalog(), &[], &[broken.clone(), sound.clone()]),
        Err(DatasetError::UnusableTier)
    );
    assert_eq!(
        solver.try_choose_random_affix(catalog(), &[], &[weightless.clone()]),
        Err(DatasetError::UnusableTier)
    );
    assert_eq!(
        solver.try_choose_random_affix(catalog(), &[], &[broken.clone(), unknown.clone()]),
        Err(DatasetError::UnknownAffix)
    );
    let on_item = vec![modifier("max-life", 1, 1), modifier("unknown", 1, 1)];
    let chosen = solver.try_choose_random_affix(catalog(), &on_item, &[broken.clone(), unknown.clone(), sound.clone()]);
    assert_eq!(chosen.unwrap().unwrap().id, "armor");

    assert!(has_unknown_candidate(&catalog(), &[], &[sound.clone(), unknown.clone()]));
    assert!(!has_unknown_candidate(&catalog(), &on_item, &[sound.clone(), unknown.clone()]));
    assert!(has_unusable_candidate(&[], &[broken.clone()]));
    assert!(!has_unusable_candidate(&on_item, &[broken.clone()]));
    assert_eq!(check_candidates(&catalog(), &[], &[sound]), Ok(()));
    assert_eq!(check_candidates(&catalog(), &[], &[broken]), Err(DatasetError::UnusableTier));
}

#[test]
fn checked_adding_names_what_is_wrong_and_leaves_the_item() {
    let solver = solver();
    let mut item = blank();
    item.item_level = 1;
    assert_eq!(
        solver.try_add_random_affix(&items(), &[chest_class()], &catalog(), &mut item, "prefix", 1),
        Ok(true)
    );
    assert_eq!(item.prefixes.len(), 1);

    let mut stranger = ItemState::new("Rusted Cuirass", "normal", 82, vec![], vec![]);
    assert_eq!(
        solver.try_add_random_affix(&items(), &[chest_class()], &catalog(), &mut stranger, "prefix", 1),
        Err(DatasetError::UnknownBase)
    );
    assert_eq!(
        solver.try_add_random_affix(&items(), &[chest_class()], &catalog(), &mut stranger, "random", 1),
        Ok(false)
    );
    assert!(stranger.has_no_affixes());

    let few = Modifiers { modifiers: vec![affix("fire-res", "+#% to Fire Resistance")] };
    let mut item = blank();
    assert_eq!(
        solver.try_add_random_affix(&items(), &[chest_class()], &few, &mut item, "prefix", 1),
        Err(DatasetError::UnknownAffix)
    );
    assert_eq!(item, blank());
    assert_eq!(
        solver.try_add_random_affix(&items(), &[chest_class()], &few, &mut item, "prefix", 0),
        Ok(true)
    );
    item.suffixes.push(modifier("cold-res", 1, 1));
    assert_eq!(
        solver.try_add_random_affix(&items(), &[chest_class()], &few, &mut item, "suffix", 1),
        Ok(true)
    );
    assert_eq!(item.suffixes.len(), 2);

    let mut broken = chest_class();
    broken.prefixes[0].tiers[1].value = None;
    let mut item = blank();
    assert_eq!(
        solver.try_add_random_affix(&items(), &[broken], &catalog(), &mut item, "prefix", 1),
        Err(DatasetError::UnusableTier)
    );
    let mut full = blank();
    for value in 0..3 {
        full.prefixes.push(modifier("p", 1, value));
    }
    assert_eq!(
        solver.try_add_random_affix(&items(), &[chest_class()], &few, &mut full, "prefix", 1),
        Ok(false)
    );
}
