use craft_solver::crafting::crafter::Crafter;
use craft_solver::crafting::dataset_error::DatasetError;
use craft_solver::crafting::outcomes::outcome_weights_of;
use craft_solver::crafting::recombiner::Chance;
use craft_solver::crafting::simulation::{BestResult, valid_ids_of};
use craft_solver::crafting::solver::{Solver, are_tables_known, are_tables_usable};
use craft_solver::datasets::affix::Affix;
use craft_solver::datasets::affix_tier::AffixTier;
use craft_solver::datasets::class_tier::ClassTier;
use craft_solver::datasets::class_tiers::ClassTiers;
use craft_solver::datasets::craft_action::CraftAction;
use craft_solver::datasets::craft_actions::CraftActions;
use craft_solver::datasets::craft_outcome::CraftOutcome;
use craft_solver::datasets::item::Item;
use craft_solver::datasets::items::Items;
use craft_solver::datasets::modifier_tier::ModifierTier;
use craft_solver::datasets::modifiers::Modifiers;
use craft_solver::items::item_state::ItemState;
use craft_solver::items::modifier::Modifier;

fn fixed_tier(value: u16, item_level: u8, weight: u16) -> ModifierTier {
    ModifierTier {
        range: None,
        min: None,
        max: None,
        value: Some(value),
        hybrid: None,
        item_level,
        weight,
    }
}

fn table(affix: &str, tiers: Vec<ModifierTier>) -> AffixTier {
    AffixTier { affix: String::from(affix), tiers }
}

fn affix(id: &str, name: &str) -> Affix {
    Affix { name: String::from(name), id: String::from(id), tags: None }
}

fn outcome(action: &str, affix: &str, probability: u32) -> CraftOutcome {
    CraftOutcome {
        action: String::from(action),
        affix: String::from(affix),
        count: None,
        probability,
    }
}

fn action(id: &str, cost: u32, rarity: Option<&str>, outcomes: Vec<CraftOutcome>) -> CraftAction {
    CraftAction {
        name: String::from(id),
        id: String::from(id),
        cost,
        currency: None,
        rarity: rarity.map(String::from),
        outcomes,
    }
}

fn solver_with(actions: Vec<CraftAction>) -> Solver {
    Solver::from_datasets(
        Modifiers {
            modifiers: vec![
                affix("max-life", "+# to maximum Life"),
                affix("fire-res", "+#% to Fire Resistance"),
            ],
        },
        Items {
            classes: vec![],
            items: vec![Item {
                name: String::from("Warlord Cuirass"),
                class: String::from("chest"),
                stats: None,
                character_level: None,
                implicits: None,
            }],
        },
        CraftActions { craft_actions: actions },
        ClassTiers {
            class_tiers: vec![ClassTier {
                classes: vec![String::from("chest")],
                prefixes: vec![table("max-life", vec![fixed_tier(100, 1, 10)])],
                suffixes: vec![table("fire-res", vec![fixed_tier(40, 1, 10)])],
            }],
        },
    )
}

fn modifier(id: &str, tier: u8, value: u16) -> Modifier {
    Modifier { name: String::new(), id: String::from(id), tier, value, weight: 10 }
}

fn life() -> Modifier {
    Modifier {
        name: String::from("+100 to maximum Life"),
        id: String::from("max-life"),
        tier: 1,
        value: 100,
        weight: 10,
    }
}

fn fire() -> Modifier {
    Modifier {
        name: String::from("+40% to Fire Resistance"),
        id: String::from("fire-res"),
        tier: 1,
        value: 40,
        weight: 10,
    }
}

fn blank() -> ItemState {
    ItemState::new("Warlord Cuirass", "normal", 82, vec![], vec![])
}

#[test]
fn datasets_that_hold_together_are_well_formed() {
    let solver = solver_with(vec![action("transmute", 1, None, vec![outcome("add", "random", 1)])]);
    assert!(solver.is_well_formed());
    assert!(solver.has_base("Warlord Cuirass"));
    assert!(!solver.has_base("Rusted Cuirass"));
    assert!(Solver::default().is_well_formed());
}

#[test]
fn an_action_without_a_drawable_outcome_is_not_well_formed() {
    assert!(!solver_with(vec![action("empty", 1, None, vec![])]).is_well_formed());
    assert!(!solver_with(vec![action("idle", 1, None, vec![outcome("add", "random", 0)])])
        .is_well_formed());
}

#[test]
fn a_table_that_cannot_roll_is_not_well_formed() {
    let mut solver = solver_with(vec![]);
    solver.class_tiers.class_tiers[0].suffixes.push(table("cold-res", vec![fixed_tier(1, 1, 1)]));
    assert!(!solver.is_well_formed());
    assert!(!are_tables_known(&solver.class_tiers.class_tiers[0].suffixes, &solver.modifiers));
    assert!(are_tables_known(&solver.class_tiers.class_tiers[0].prefixes, &solver.modifiers));
    assert!(are_tables_usable(&solver.class_tiers.class_tiers[0].suffixes));
    let mut solver = solver_with(vec![]);
    solver.class_tiers.class_tiers[0].prefixes[0].tiers[0].value = None;
    assert!(!solver.is_well_formed());
    assert!(!are_tables_usable(&solver.class_tiers.class_tiers[0].prefixes));
}

#[test]
fn validate_names_what_is_wrong() {
    let good = solver_with(vec![action("transmute", 1, None, vec![outcome("add", "random", 1)])]);
    assert_eq!(good.validate(), Ok(()));
    assert!(good.are_affixes_known() && good.are_tiers_usable() && good.are_actions_drawable());

    let mut unknown = solver_with(vec![]);
    unknown.class_tiers.class_tiers[0].suffixes.push(table("cold-res", vec![fixed_tier(1, 1, 1)]));
    assert_eq!(unknown.validate(), Err(DatasetError::UnknownAffix));

    let mut unusable = solver_with(vec![]);
    unusable.class_tiers.class_tiers[0].prefixes[0].tiers[0].value = None;
    assert_eq!(unusable.validate(), Err(DatasetError::UnusableTier));
    let mut weightless = solver_with(vec![]);
    weightless.class_tiers.class_tiers[0].prefixes[0].tiers[0].weight = 0;
    assert_eq!(weightless.validate(), Err(DatasetError::UnusableTier));
    let mut empty = solver_with(vec![]);
    empty.class_tiers.class_tiers[0].prefixes[0].tiers.clear();
    assert_eq!(empty.validate(), Err(DatasetError::UnusableTier));

    let idle = solver_with(vec![action("idle", 1, None, vec![])]);
    assert_eq!(idle.validate(), Err(DatasetError::NoOutcome));
}

#[test]
fn validate_names_an_unknown_affix_before_anything_else() {
    let mut solver = solver_with(vec![action("idle", 1, None, vec![])]);
    solver.class_tiers.class_tiers[0].prefixes[0].tiers[0].value = None;
    assert_eq!(solver.validate(), Err(DatasetError::UnusableTier));
    solver.class_tiers.class_tiers[0].suffixes.push(table("cold-res", vec![fixed_tier(1, 1, 1)]));
    assert_eq!(solver.validate(), Err(DatasetError::UnknownAffix));
}

#[test]
fn a_tier_that_is_never_drawn_needs_no_value() {
    let mut solver = solver_with(vec![]);
    let mut idle = fixed_tier(1, 1, 0);
    idle.value = None;
    solver.class_tiers.class_tiers[0].prefixes[0].tiers.push(idle);
    assert_eq!(solver.validate(), Ok(()));
}

#[test]
fn try_simulate_runs_on_sound_datasets_only() {
    let target = ItemState::new("Warlord Cuirass", "rare", 82, vec![modifier("max-life", 1, 90)], vec![]);
    let solver = solver_with(vec![action("transmute", 1500, None, vec![outcome("add", "prefix", 1)])]);
    let best = solver.try_simulate(&target, 2, 3).unwrap();
    assert_eq!(best, BestResult { cost: 1500, sequence: vec![String::from("transmute")] });
    assert!(!solver.try_simulate(&target, 1, 0).unwrap().found());

    let stranger = ItemState::new("Rusted Cuirass", "rare", 82, vec![], vec![]);
    assert_eq!(solver.try_simulate(&stranger, 2, 3), Err(DatasetError::UnknownBase));

    let idle = solver_with(vec![action("idle", 1, None, vec![])]);
    assert_eq!(idle.try_simulate(&target, 2, 3), Err(DatasetError::NoOutcome));
    assert_eq!(idle.try_simulate(&stranger, 2, 3), Err(DatasetError::NoOutcome));
}

#[test]
fn try_recombine_names_what_keeps_it_from_the_chances() {
    let solver = solver_with(vec![]);
    let left = ItemState::new("Warlord Cuirass", "rare", 82, vec![], vec![]);
    let stranger = ItemState::new("Rusted Cuirass", "rare", 82, vec![], vec![]);
    let heavy = vec![modifier("max-life", 0, 100)];
    let light = vec![Modifier { weight: 1, ..modifier("fire-res", 0, 40) }];
    let merged = solver.try_recombine(&left, &stranger, heavy.clone(), light.clone()).unwrap();
    assert_eq!(merged.base_item, left);
    assert_eq!(
        merged.chances,
        vec![Chance { numerator: 50, denominator: 20 }, Chance { numerator: 50, denominator: 20 }]
    );
    assert_eq!(
        solver.try_recombine(&left, &stranger, light.clone(), heavy.clone()),
        Err(DatasetError::UnknownBase)
    );
    let mut classless = solver_with(vec![]);
    classless.class_tiers.class_tiers[0].classes = vec![String::from("helmet")];
    assert_eq!(
        classless.try_recombine(&left, &stranger, heavy.clone(), light.clone()),
        Err(DatasetError::UnknownClass)
    );
    let mut overweight = solver_with(vec![]);
    let mut rows = Vec::new();
    for _ in 0..70000 {
        rows.push(fixed_tier(1, 1, u16::MAX));
    }
    overweight.class_tiers.class_tiers[0].suffixes.push(table("fire-res", rows));
    assert_eq!(
        overweight.try_recombine(&left, &stranger, heavy, light),
        Err(DatasetError::WeightOverflow)
    );
}

#[test]
fn every_error_says_what_it_is() {
    assert_eq!(
        DatasetError::UnknownAffix.message(),
        "a class tier list names an affix that is not among the modifiers"
    );
    assert_eq!(
        DatasetError::UnusableTier.message(),
        "an affix has no tier that can be drawn, or one without a usable value"
    );
    assert_eq!(
        DatasetError::NoOutcome.message(),
        "a crafting action has no outcome that can be drawn"
    );
    assert_eq!(DatasetError::UnknownBase.message(), "could not find matching item");
    assert_eq!(
        DatasetError::UnknownClass.message(),
        "cannot find class tiers for the selected item"
    );
    assert_eq!(
        DatasetError::WeightOverflow.message(),
        "the weights of a class do not fit in 32 bits"
    );
}

#[test]
fn rarity_follows_the_number_of_affixes() {
    let solver = solver_with(vec![]);
    let mut item = blank();
    solver.update_item_rarity(&mut item, "transmute");
    assert_eq!(item.rarity, "normal");
    item.prefixes.push(life());
    solver.update_item_rarity(&mut item, "transmute");
    assert_eq!(item.rarity, "magic");
    item.suffixes.push(fire());
    solver.update_item_rarity(&mut item, "augment");
    assert_eq!(item.rarity, "magic");
    item.suffixes.push(modifier("cold-res", 1, 1));
    solver.update_item_rarity(&mut item, "exalt");
    assert_eq!(item.rarity, "rare");
}

#[test]
fn regal_makes_an_item_with_affixes_rare() {
    let solver = solver_with(vec![]);
    let mut item = blank();
    item.prefixes.push(life());
    item.rarity = String::from("magic");
    solver.update_item_rarity(&mut item, "regal");
    assert_eq!(item.rarity, "rare");
    let mut bare_magic = blank();
    bare_magic.rarity = String::from("magic");
    solver.update_item_rarity(&mut bare_magic, "regal");
    assert_eq!(bare_magic.rarity, "rare");
    let mut bare = blank();
    solver.update_item_rarity(&mut bare, "regal");
    assert_eq!(bare.rarity, "normal");
}

#[test]
fn rarity_never_falls() {
    let solver = solver_with(vec![]);
    let mut item = blank();
    item.rarity = String::from("rare");
    solver.update_item_rarity(&mut item, "annul");
    assert_eq!(item.rarity, "rare");
    item.prefixes.push(life());
    solver.update_item_rarity(&mut item, "annul");
    assert_eq!(item.rarity, "rare");
    let mut magic = blank();
    magic.rarity = String::from("magic");
    solver.update_item_rarity(&mut magic, "annul");
    assert_eq!(magic.rarity, "magic");
}

#[test]
fn an_unknown_rarity_counts_as_the_lowest() {
    let solver = solver_with(vec![]);
    let mut item = blank();
    item.rarity = String::from("unique");
    solver.update_item_rarity(&mut item, "annul");
    assert_eq!(item.rarity, "normal");
}

#[test]
fn a_targeting_outcome_sets_the_target_and_the_follow_up() {
    let solver = solver_with(vec![]);
    let mut omen = action("omen", 1, None, vec![outcome("target", "prefix", 1)]);
    omen.currency = Some(String::from("chaos"));
    let mut item = blank();
    item.prefixes.push(life());
    let mut expected = item.clone();
    solver.apply_outcome_to_item(&omen, &omen.outcomes[0], &mut item);
    expected.prefixes_targeted = true;
    expected.next_actions = Some(vec![String::from("chaos")]);
    assert_eq!(item, expected);
}

#[test]
fn a_lowest_tier_targeting_sets_both_flags_of_its_kind() {
    let solver = solver_with(vec![]);
    let lowest = action("whittle", 1, None, vec![outcome("target", "lowest", 1)]);
    let mut item = blank();
    solver.apply_outcome_to_item(&lowest, &lowest.outcomes[0], &mut item);
    assert!(item.lowest_tier_targeted);
    assert!(!item.prefixes_targeted);
    assert_eq!(item.next_actions, None);
    let mixed = action(
        "mixed",
        1,
        None,
        vec![outcome("target", "suffix", 1), outcome("add", "prefix", 1)],
    );
    let mut item = blank();
    solver.apply_outcome_to_item(&mixed, &mixed.outcomes[0], &mut item);
    assert_eq!(item, blank());
}

#[test]
fn an_adding_outcome_adds_and_clears_the_target() {
    let solver = solver_with(vec![]);
    let add = action("add", 1, None, vec![outcome("add", "prefix", 1)]);
    let mut item = blank();
    item.prefixes_targeted = true;
    item.suffixes_targeted = true;
    solver.apply_outcome_to_item(&add, &add.outcomes[0], &mut item);
    assert_eq!(item.prefixes, vec![life()]);
    assert!(item.suffixes.is_empty());
    assert!(!item.prefixes_targeted);
    assert!(item.suffixes_targeted);
    assert_eq!(item.rarity, "normal");
}

#[test]
fn an_adding_outcome_that_cannot_add_leaves_the_target() {
    let solver = solver_with(vec![]);
    let add = action("add", 1, None, vec![outcome("add", "prefix", 1)]);
    let mut item = blank();
    item.prefixes = vec![life()];
    item.prefixes_targeted = true;
    let before = item.clone();
    solver.apply_outcome_to_item(&add, &add.outcomes[0], &mut item);
    assert_eq!(item, before);
}

#[test]
fn an_outcome_that_counts_twice_clears_the_target_all_the_same() {
    let solver = solver_with(vec![]);
    let mut twice = outcome("remove", "random", 1);
    twice.count = Some(2);
    let remove = action("annul", 1, None, vec![]);
    let mut item = blank();
    item.prefixes = vec![life(), modifier("armor", 1, 1)];
    item.suffixes = vec![fire(), modifier("cold-res", 1, 1)];
    item.prefixes_targeted = true;
    item.lowest_tier_targeted = true;
    item.next_actions = Some(vec![String::from("annul")]);
    solver.apply_outcome_to_item(&remove, &twice, &mut item);
    assert!(!item.prefixes_targeted);
    assert!(!item.suffixes_targeted);
    assert!(item.lowest_tier_targeted);
    assert_eq!(item.next_actions, Some(vec![String::from("annul")]));
    assert_eq!(item.get_affix_count(), 2);
    assert!(item.prefixes.len() <= 1);
}

#[test]
fn an_adding_outcome_is_applied_as_often_as_it_counts() {
    let solver = solver_with(vec![]);
    let mut twice = outcome("add", "random", 1);
    twice.count = Some(2);
    let add = action("add", 1, None, vec![]);
    let mut item = blank();
    solver.apply_outcome_to_item(&add, &twice, &mut item);
    assert_eq!(item.get_affix_count(), 2);
    assert_eq!(item.prefixes, vec![life()]);
    assert_eq!(item.suffixes, vec![fire()]);
    let mut never = outcome("add", "random", 1);
    never.count = Some(0);
    let mut item = blank();
    solver.apply_outcome_to_item(&add, &never, &mut item);
    assert_eq!(item, blank());
}

#[test]
fn a_removing_outcome_removes_and_stops_on_a_bare_item() {
    let solver = solver_with(vec![]);
    let mut thrice = outcome("remove", "random", 1);
    thrice.count = Some(3);
    let remove = action("remove", 1, None, vec![]);
    let mut item = blank();
    item.prefixes = vec![life()];
    item.suffixes = vec![fire()];
    solver.apply_outcome_to_item(&remove, &thrice, &mut item);
    assert!(item.has_no_affixes());
    let mut item = blank();
    item.prefixes = vec![life(), modifier("armor", 1, 1)];
    item.suffixes = vec![fire()];
    solver.apply_outcome_to_item(&remove, &outcome("remove", "prefix", 1), &mut item);
    assert_eq!(item.prefixes.len(), 1);
    assert_eq!(item.suffixes, vec![fire()]);
}

#[test]
fn a_replacing_outcome_swaps_an_affix_of_one_slot() {
    let solver = solver_with(vec![]);
    let replace = action("chaos", 1, None, vec![outcome("replace", "prefix", 1)]);
    let mut item = blank();
    item.prefixes = vec![modifier("armor", 1, 1)];
    item.suffixes = vec![fire()];
    item.prefixes_targeted = true;
    solver.apply_outcome_to_item(&replace, &replace.outcomes[0], &mut item);
    assert_eq!(item.prefixes, vec![life()]);
    assert_eq!(item.suffixes, vec![fire()]);
    assert!(!item.prefixes_targeted);
}

#[test]
fn an_outcome_of_an_unknown_kind_changes_nothing() {
    let solver = solver_with(vec![]);
    let odd = action("odd", 1, None, vec![outcome("polish", "prefix", 1)]);
    let mut item = blank();
    item.prefixes = vec![life()];
    let before = item.clone();
    solver.apply_outcome_to_item(&odd, &odd.outcomes[0], &mut item);
    assert_eq!(item, before);
}

#[test]
fn an_action_applies_an_outcome_and_updates_the_rarity() {
    let solver = solver_with(vec![action(
        "transmute",
        1500,
        Some("normal"),
        vec![outcome("remove", "prefix", 0), outcome("add", "prefix", 3)],
    )]);
    let mut item = blank();
    solver.apply_crafting_action(&mut item, "transmute");
    assert_eq!(item.prefixes, vec![life()]);
    assert_eq!(item.rarity, "magic");
    assert_eq!(outcome_weights_of(&solver.craft_actions.craft_actions[0]), vec![0, 3]);
}

#[test]
fn target_then_follow_up_clears_the_target() {
    let mut omen = action("omen", 1, None, vec![outcome("target", "prefix", 1)]);
    omen.currency = Some(String::from("annul"));
    let annul = action("annul", 1, None, vec![outcome("remove", "random", 1)]);
    let exalt = action("exalt", 1, None, vec![outcome("add", "random", 1)]);
    let solver = solver_with(vec![omen, annul, exalt]);
    let mut item = blank();
    item.prefixes = vec![modifier("armor", 1, 1), modifier("mana", 1, 1)];
    item.suffixes = vec![fire(), modifier("cold-res", 1, 1)];
    item.rarity = String::from("rare");
    solver.apply_crafting_action(&mut item, "omen");
    assert!(item.prefixes_targeted);
    assert_eq!(item.get_next_actions(), vec![String::from("annul")]);
    assert_eq!(
        solver.get_crafting_actions(&blank(), &item),
        vec![String::from("omen"), String::from("annul")]
    );
    solver.reset_item_target_action(&mut item, "omen");
    assert_eq!(item.get_next_actions(), vec![String::from("annul")]);
    solver.apply_crafting_action(&mut item, "annul");
    solver.reset_item_target_action(&mut item, "annul");
    assert!(!item.prefixes_targeted);
    assert!(!item.has_next_action());
    assert_eq!(item.suffixes, vec![fire(), modifier("cold-res", 1, 1)]);
    assert_eq!(item.prefixes.len(), 1);
    assert_eq!(item.rarity, "rare");
    assert_eq!(
        solver.get_crafting_actions(&blank(), &item),
        vec![String::from("omen"), String::from("annul"), String::from("exalt")]
    );
}

#[test]
fn a_random_replacing_is_not_bound_by_the_target() {
    let chaos = action("chaos", 1, None, vec![outcome("replace", "random", 1)]);
    let solver = solver_with(vec![chaos]);
    let mut kept_target = false;
    let mut cleared_target = false;
    for _ in 0..200 {
        let mut item = blank();
        item.prefixes = vec![modifier("armor", 1, 1), modifier("mana", 1, 1)];
        item.suffixes = vec![modifier("cold-res", 1, 1), modifier("chaos-res", 1, 1)];
        item.prefixes_targeted = true;
        solver.apply_crafting_action(&mut item, "chaos");
        assert_eq!(item.get_affix_count(), 4);
        if item.prefixes_targeted {
            kept_target = true;
            assert!(item.suffixes.contains(&fire()));
        } else {
            cleared_target = true;
            assert!(item.prefixes.contains(&life()));
        }
    }
    assert!(kept_target && cleared_target);
}

#[test]
fn crafting_actions_are_the_legal_ones() {
    let solver = solver_with(vec![
        action("transmute", 1, Some("normal"), vec![outcome("add", "random", 1)]),
        action("augment", 1, Some("magic"), vec![outcome("add", "random", 1)]),
        action("annul", 1, None, vec![outcome("remove", "random", 1)]),
    ]);
    let target = ItemState::new("Warlord Cuirass", "rare", 82, vec![life()], vec![]);
    assert_eq!(solver.get_crafting_actions(&target, &blank()), vec![String::from("transmute")]);
    let mut item = blank();
    item.rarity = String::from("magic");
    item.suffixes = vec![fire()];
    assert_eq!(
        solver.get_crafting_actions(&target, &item),
        vec![String::from("augment"), String::from("annul")]
    );
    assert_eq!(
        valid_ids_of(&solver, &solver.craft_actions.craft_actions, &item),
        vec![String::from("augment"), String::from("annul")]
    );
}

#[test]
fn crafting_actions_do_not_undo_what_meets_the_target() {
    let solver = solver_with(vec![
        action("augment", 1, None, vec![outcome("add", "random", 1)]),
        action("annul-prefix", 1, None, vec![outcome("remove", "prefix", 1)]),
        action("annul-suffix", 1, None, vec![outcome("remove", "suffix", 1)]),
        action("chaos", 1, None, vec![outcome("replace", "prefix", 1)]),
        action("annul", 1, None, vec![outcome("remove", "random", 1)]),
    ]);
    let target = ItemState::new("Warlord Cuirass", "rare", 82, vec![life()], vec![fire()]);
    let mut item = blank();
    item.prefixes = vec![life()];
    item.suffixes = vec![modifier("cold-res", 1, 1)];
    assert_eq!(
        solver.get_crafting_actions(&target, &item),
        vec![String::from("augment"), String::from("annul-suffix"), String::from("annul")]
    );
    item.suffixes = vec![fire()];
    assert_eq!(
        solver.get_crafting_actions(&target, &item),
        vec![String::from("augment"), String::from("annul")]
    );
}

#[test]
fn simulate_without_steps_finds_nothing() {
    let solver = solver_with(vec![action(
        "transmute",
        1500,
        Some("normal"),
        vec![outcome("add", "prefix", 1)],
    )]);
    let target = ItemState::new("Warlord Cuirass", "rare", 82, vec![life()], vec![]);
    let best = solver.simulate(&target, 1, 0);
    assert!(!best.found());
    assert!(best.sequence.is_empty());
    assert_eq!(best.cost, u64::MAX);
    assert_eq!(solver.simulate_run(&target, 0), None);
    let bare = ItemState::new("Warlord Cuirass", "normal", 82, vec![], vec![]);
    assert!(!solver.simulate(&bare, 1, 0).found());
}

#[test]
fn simulate_without_runs_finds_nothing() {
    let solver = solver_with(vec![action(
        "transmute",
        1500,
        Some("normal"),
        vec![outcome("add", "prefix", 1)],
    )]);
    let target = ItemState::new("Warlord Cuirass", "rare", 82, vec![life()], vec![]);
    assert!(!solver.simulate(&target, 0, 5).found());
}

#[test]
fn simulate_finds_the_one_step_that_meets_the_target() {
    let solver = solver_with(vec![action(
        "transmute",
        1500,
        Some("normal"),
        vec![outcome("add", "prefix", 1)],
    )]);
    let target = ItemState::new("Warlord Cuirass", "rare", 82, vec![modifier("max-life", 1, 90)], vec![]);
    let run = solver.simulate_run(&target, 1).unwrap();
    assert_eq!(run.cost, 1500);
    assert_eq!(run.sequence, vec![String::from("transmute")]);
    assert_eq!(run.item.prefixes, vec![life()]);
    assert_eq!(run.item.rarity, "magic");
    assert_eq!(run.item.base, "Warlord Cuirass");
    assert_eq!(run.item.item_level, 82);
    let best = solver.simulate(&target, 3, 4);
    assert!(best.found());
    assert_eq!(best.cost, 1500);
    assert_eq!(best.sequence, vec![String::from("transmute")]);
}

#[test]
fn simulate_adds_up_the_cost_of_the_sequence() {
    let solver = solver_with(vec![
        action("transmute", 1500, Some("normal"), vec![outcome("add", "prefix", 1)]),
        action("augment", 250, Some("magic"), vec![outcome("add", "suffix", 1)]),
    ]);
    let target = ItemState::new("Warlord Cuirass", "rare", 82, vec![life()], vec![fire()]);
    let run = solver.simulate_run(&target, 2).unwrap();
    assert_eq!(run.sequence, vec![String::from("transmute"), String::from("augment")]);
    assert_eq!(run.cost, 1750);
    assert!(run.item.meets_target(&target));
    assert_eq!(solver.simulate_run(&target, 1), None);
}

#[test]
fn simulate_gives_up_when_no_action_is_legal() {
    let solver = solver_with(vec![action(
        "augment",
        1,
        Some("magic"),
        vec![outcome("add", "prefix", 1)],
    )]);
    let target = ItemState::new("Warlord Cuirass", "rare", 82, vec![life()], vec![]);
    assert_eq!(solver.simulate_run(&target, 10), None);
    assert!(!solver.simulate(&target, 4, 10).found());
}

#[test]
fn simulate_keeps_the_cheapest_of_its_runs() {
    let solver = solver_with(vec![
        action("cheap", 100, None, vec![outcome("add", "prefix", 1)]),
        action("dear", 900, None, vec![outcome("add", "prefix", 1)]),
    ]);
    let target = ItemState::new("Warlord Cuirass", "rare", 82, vec![life()], vec![]);
    let best = solver.simulate(&target, 64, 1);
    assert!(best.found());
    assert_eq!(best.cost, 100);
    assert_eq!(best.sequence, vec![String::from("cheap")]);
}

#[test]
fn best_result_keeps_a_strictly_cheaper_sequence_only() {
    let mut best = BestResult::new();
    assert!(!best.found());
    assert_eq!(best.cost, u64::MAX);
    assert!(best.offer(500, vec![String::from("a"), String::from("b")]));
    assert!(best.found());
    assert!(!best.offer(500, vec![String::from("c")]));
    assert!(!best.offer(501, vec![String::from("c")]));
    assert_eq!(best, BestResult { cost: 500, sequence: vec![String::from("a"), String::from("b")] });
    assert!(best.offer(499, vec![String::from("c")]));
    assert_eq!(best, BestResult { cost: 499, sequence: vec![String::from("c")] });
}

#[test]
fn recombine_selects_the_base_and_gives_the_chances() {
    let mut solver = solver_with(vec![]);
    solver.class_tiers.class_tiers[0].prefixes[0].tiers =
        vec![fixed_tier(180, 3, 100), fixed_tier(100, 1, 400)];
    let left = ItemState::new("Warlord Cuirass", "rare", 82, vec![], vec![]);
    let right = ItemState::new("Warlord Cuirass", "magic", 50, vec![], vec![]);
    let left_mods = vec![
        Modifier { name: String::new(), id: String::from("max-life"), tier: 1, value: 100, weight: 10 },
        Modifier { name: String::new(), id: String::from("fire-res"), tier: 0, value: 40, weight: 30 },
    ];
    let right_mods = vec![Modifier {
        name: String::new(),
        id: String::from("max-life"),
        tier: 0,
        value: 180,
        weight: 5,
    }];
    let merged = solver.recombine(&left, &right, left_mods, right_mods);
    assert_eq!(merged.base_item, left);
    assert_eq!(
        merged.chances,
        vec![
            Chance { numerator: 5 * 400, denominator: 510 },
            Chance { numerator: 5 * 10, denominator: 510 },
            Chance { numerator: 5 * 500, denominator: 510 },
        ]
    );
    assert_eq!(solver.get_class_tiers_for_item(&left).unwrap().classes, vec![String::from("chest")]);
    let unknown = ItemState::new("Rusted Cuirass", "rare", 82, vec![], vec![]);
    assert!(solver.get_class_tiers_for_item(&unknown).is_none());
}
