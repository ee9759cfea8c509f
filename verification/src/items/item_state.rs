use crate::items::modifier::Modifier;
use crate::lookup::{first_true, lemma_first_true, lemma_first_true_is};
use crate::text::{clone_texts, decimal, decimal_text, is_text, texts};
use vstd::prelude::*;
use vstd::string::StrSliceExecFns;
use vstd::string::StringExecFns;
use vstd::utf8::encode_utf8;

verus! {

/// Represents the state of an item.
#[derive(Debug, PartialEq, Eq, Hash)]
pub struct ItemState {
    pub base: String,
    pub rarity: String,
    pub max_prefixes: u8,
    pub max_suffixes: u8,
    pub item_level: u8,
    pub prefixes: Vec<Modifier>,
    pub suffixes: Vec<Modifier>,
    pub prefixes_targeted: bool,
    pub suffixes_targeted: bool,
    pub lowest_tier_targeted: bool,
    pub next_actions: Option<Vec<String>>,
}

/// What an [`ItemState`] holds.
pub struct ItemStateView {
    pub base: Seq<char>,
    pub rarity: Seq<char>,
    pub max_prefixes: u8,
    pub max_suffixes: u8,
    pub item_level: u8,
    pub prefixes: Seq<Modifier>,
    pub suffixes: Seq<Modifier>,
    pub prefixes_targeted: bool,
    pub suffixes_targeted: bool,
    pub lowest_tier_targeted: bool,
    pub next_actions: Option<Seq<Seq<char>>>,
}

impl View for ItemState {
    type V = ItemStateView;

    open spec fn view(&self) -> ItemStateView {
        ItemStateView {
            base: self.base@,
            rarity: self.rarity@,
            max_prefixes: self.max_prefixes,
            max_suffixes: self.max_suffixes,
            item_level: self.item_level,
            prefixes: self.prefixes@,
            suffixes: self.suffixes@,
            prefixes_targeted: self.prefixes_targeted,
            suffixes_targeted: self.suffixes_targeted,
            lowest_tier_targeted: self.lowest_tier_targeted,
            next_actions: match self.next_actions {
                Some(list) => Some(texts(list@)),
                None => None,
            },
        }
    }
}

/// For each pending action, whether it is `action`.
pub open spec fn pending_flags(list: Seq<Seq<char>>, action: Seq<char>) -> Seq<bool> {
    list.map_values(|a: Seq<char>| a == action)
}

/// The modifiers of `have`, in order, that are at least one of `wanted`.
pub open spec fn good_among(have: Seq<Modifier>, wanted: Seq<Modifier>) -> Seq<Modifier>
    decreases have.len(),
{
    if have.len() == 0 {
        Seq::<Modifier>::empty()
    } else if have.last().meets_any(wanted) {
        good_among(have.drop_last(), wanted).push(have.last())
    } else {
        good_among(have.drop_last(), wanted)
    }
}

/// Whether one of `have` is at least `wanted`.
pub open spec fn any_meets(have: Seq<Modifier>, wanted: &Modifier) -> bool {
    exists|i: int| 0 <= i < have.len() && (#[trigger] have[i]).meets(wanted)
}

/// Whether each of `wanted` is met by one of `have`.
pub open spec fn all_met(have: Seq<Modifier>, wanted: Seq<Modifier>) -> bool {
    forall|j: int| 0 <= j < wanted.len() ==> any_meets(have, #[trigger] &wanted[j])
}

/// Whether one of `have` is at least one of `wanted`.
pub open spec fn any_good(have: Seq<Modifier>, wanted: Seq<Modifier>) -> bool {
    exists|i: int| 0 <= i < have.len() && (#[trigger] have[i]).meets_any(wanted)
}

/// There is a good modifier exactly where the list of good ones is not
/// empty, and that list is no longer than the one it is taken from.
pub proof fn lemma_good_among(have: Seq<Modifier>, wanted: Seq<Modifier>)
    ensures
        good_among(have, wanted).len() <= have.len(),
        good_among(have, wanted).len() > 0 <==> any_good(have, wanted),
        forall|k: int|
            0 <= k < good_among(have, wanted).len() ==> (#[trigger] good_among(
                have,
                wanted,
            )[k]).meets_any(wanted),
    decreases have.len(),
{
    if have.len() != 0 {
        let rest = have.drop_last();
        lemma_good_among(rest, wanted);
        if any_good(have, wanted) {
            let i = choose|i: int| 0 <= i < have.len() && (#[trigger] have[i]).meets_any(wanted);
            if i < rest.len() {
                assert(rest[i].meets_any(wanted));
            }
        }
        if any_good(rest, wanted) {
            let i = choose|i: int| 0 <= i < rest.len() && (#[trigger] rest[i]).meets_any(wanted);
            assert(have[i].meets_any(wanted));
        }
        if have.last().meets_any(wanted) {
            assert(have[have.len() - 1].meets_any(wanted));
        }
    }
}

/// The line that shows an affix: its name, and its value in brackets.
pub open spec fn affix_line(modifier: Modifier) -> Seq<char> {
    "  - "@ + modifier.name@ + " ("@ + decimal(modifier.value as nat) + ")"@
}

/// The lines that show a list of affixes, one for each.
pub open spec fn affix_lines(list: Seq<Modifier>) -> Seq<Seq<char>> {
    list.map_values(|m: Modifier| affix_line(m))
}

/// The lines that show a slot: its title and a line for each affix, or
/// nothing for an empty slot.
pub open spec fn slot_lines(title: Seq<char>, list: Seq<Modifier>) -> Seq<Seq<char>> {
    if list.len() == 0 {
        Seq::<Seq<char>>::empty()
    } else {
        seq![title] + affix_lines(list)
    }
}

/// The length of a string of the machine in bytes.
pub open spec fn byte_length(text: Seq<char>) -> nat {
    (encode_utf8(text).len() as usize) as nat
}

/// A line of `width` dashes.
pub open spec fn rule(width: nat) -> Seq<char> {
    Seq::new(width, |i: int| '-')
}

impl ItemStateView {
    /// Whether neither slot holds more than it may.
    pub open spec fn well_formed(self) -> bool {
        self.prefixes.len() <= self.max_prefixes && self.suffixes.len() <= self.max_suffixes
    }

    /// Whether the prefixes are full.
    pub open spec fn has_max_prefixes(self) -> bool {
        self.prefixes.len() >= self.max_prefixes
    }

    /// Whether the suffixes are full.
    pub open spec fn has_max_suffixes(self) -> bool {
        self.suffixes.len() >= self.max_suffixes
    }

    /// Whether the prefixes and the suffixes are full.
    pub open spec fn has_max_affixes(self) -> bool {
        self.has_max_prefixes() && self.has_max_suffixes()
    }

    /// Whether there is no prefix.
    pub open spec fn has_no_prefixes(self) -> bool {
        self.prefixes.len() == 0
    }

    /// Whether there is no suffix.
    pub open spec fn has_no_suffixes(self) -> bool {
        self.suffixes.len() == 0
    }

    /// Whether there is neither a prefix nor a suffix.
    pub open spec fn has_no_affixes(self) -> bool {
        self.has_no_prefixes() && self.has_no_suffixes()
    }

    /// The modifiers of a slot: the prefixes for `prefix`, and the
    /// suffixes for anything else.
    pub open spec fn slot_list(self, affix_type: Seq<char>) -> Seq<Modifier> {
        if affix_type == "prefix"@ {
            self.prefixes
        } else {
            self.suffixes
        }
    }

    /// The room of a slot.
    pub open spec fn slot_max(self, affix_type: Seq<char>) -> u8 {
        if affix_type == "prefix"@ {
            self.max_prefixes
        } else {
            self.max_suffixes
        }
    }

    /// The state with `list` in a slot.
    pub open spec fn with_slot_list(
        self,
        affix_type: Seq<char>,
        list: Seq<Modifier>,
    ) -> ItemStateView {
        if affix_type == "prefix"@ {
            ItemStateView { prefixes: list, ..self }
        } else {
            ItemStateView { suffixes: list, ..self }
        }
    }

    /// The modifiers of both slots: the prefixes, then the suffixes.
    pub open spec fn current_affixes(self) -> Seq<Modifier> {
        self.prefixes + self.suffixes
    }

    /// The number of affixes in both slots.
    pub open spec fn affix_count(self) -> nat {
        self.prefixes.len() + self.suffixes.len()
    }

    /// The actions that are pending, in the order in which they were set.
    pub open spec fn pending(self) -> Seq<Seq<char>> {
        match self.next_actions {
            Some(list) => list,
            None => Seq::<Seq<char>>::empty(),
        }
    }

    /// Whether an action is pending.
    pub open spec fn has_next_action(self) -> bool {
        self.pending().len() > 0
    }

    /// Whether the item has every prefix and every suffix of `target`, at
    /// no lower a value and tier.
    pub open spec fn meets_target(self, target: ItemStateView) -> bool {
        all_met(self.prefixes, target.prefixes) && all_met(self.suffixes, target.suffixes)
    }

    /// The heading of the item's display: its base, and its rarity in
    /// brackets.
    pub open spec fn title_line(self) -> Seq<char> {
        "--- "@ + self.base + " ("@ + self.rarity + ") ---"@
    }

    /// The line of the item's display that gives its level.
    pub open spec fn level_line(self) -> Seq<char> {
        "Item Level: "@ + decimal(self.item_level as nat)
    }

    /// The lines of the item's display: the heading, the level, the
    /// prefixes and the suffixes where there are any, a note where there
    /// is no affix at all, and a rule that is as wide as the heading,
    /// counted in bytes.
    pub open spec fn display_lines(self) -> Seq<Seq<char>> {
        seq![self.title_line(), self.level_line()] + slot_lines("Prefixes:"@, self.prefixes)
            + slot_lines("Suffixes:"@, self.suffixes) + (if self.has_no_affixes() {
            seq!["  (No affixes)"@]
        } else {
            Seq::<Seq<char>>::empty()
        }) + seq![rule(byte_length(self.base) + byte_length(self.rarity) + 8)]
    }

    /// The state after `slot` was targeted. A slot other than `prefix`,
    /// `suffix` and `lowest` changes nothing.
    pub open spec fn targeted(self, slot: Seq<char>) -> ItemStateView {
        if slot == "prefix"@ {
            ItemStateView { prefixes_targeted: true, ..self }
        } else if slot == "suffix"@ {
            ItemStateView { suffixes_targeted: true, ..self }
        } else if slot == "lowest"@ {
            ItemStateView { lowest_tier_targeted: true, ..self }
        } else {
            self
        }
    }

    /// The state after the target on `slot` was cleared: that of the
    /// prefixes for `prefix`, and that of the suffixes for anything else.
    pub open spec fn cleared(self, slot: Seq<char>) -> ItemStateView {
        if slot == "prefix"@ {
            ItemStateView { prefixes_targeted: false, ..self }
        } else {
            ItemStateView { suffixes_targeted: false, ..self }
        }
    }

    /// The state after `next_action` was set as pending. No action, or
    /// one with an empty name, changes nothing.
    pub open spec fn with_pending(self, next_action: Option<Seq<char>>) -> ItemStateView {
        match next_action {
            Some(action) => if action.len() == 0 {
                self
            } else {
                ItemStateView { next_actions: Some(self.pending().push(action)), ..self }
            },
            None => self,
        }
    }

    /// The state after the first pending entry of `action` was taken out:
    /// the last entry moves into its place.
    pub open spec fn without_pending(self, action: Seq<char>) -> ItemStateView {
        match self.next_actions {
            Some(list) => {
                let first = first_true(pending_flags(list, action));
                if first < list.len() {
                    ItemStateView {
                        next_actions: Some(list.update(first, list.last()).drop_last()),
                        ..self
                    }
                } else {
                    self
                }
            },
            None => self,
        }
    }
}

/// An item holds as many affixes as it may exactly where each slot holds
/// as many as it has room for.
pub proof fn lemma_full_item_fills_both_slots(item: ItemStateView)
    requires
        item.well_formed(),
    ensures
        item.has_max_affixes() <==> item.prefixes.len() == item.max_prefixes
            && item.suffixes.len() == item.max_suffixes,
{
}

/// Targeting the prefixes and setting the follow-up action as pending,
/// then clearing the target and taking the action from the pending ones,
/// leaves the prefixes untargeted; and where the action was not pending
/// before, the pending actions are what they were.
pub proof fn lemma_target_then_consume(item: ItemStateView, action: Seq<char>)
    requires
        action.len() > 0,
    ensures
        item.targeted("prefix"@).with_pending(Some(action)).prefixes_targeted,
        item.targeted("prefix"@).with_pending(Some(action)).pending().contains(action),
        !item.targeted("prefix"@).with_pending(Some(action)).cleared("prefix"@).without_pending(
            action,
        ).prefixes_targeted,
        item.targeted("prefix"@).with_pending(Some(action)).cleared("prefix"@).without_pending(
            action,
        ).pending().len() == item.pending().len(),
        !item.pending().contains(action) ==> item.targeted("prefix"@).with_pending(
            Some(action),
        ).cleared("prefix"@).without_pending(action).pending() == item.pending(),
{
    let set = item.targeted("prefix"@).with_pending(Some(action));
    let list = set.pending();
    assert(list == item.pending().push(action));
    assert(list[list.len() - 1] == action);
    let flags = pending_flags(list, action);
    lemma_first_true(flags);
    let first = first_true(flags);
    assert(flags[list.len() - 1]);
    assert(first < list.len());
    let cleared = set.cleared("prefix"@);
    assert(cleared.next_actions == Some(list));
    let done = cleared.without_pending(action);
    assert(done.pending() == list.update(first, list.last()).drop_last());
    if !item.pending().contains(action) {
        if first < list.len() - 1 {
            assert(item.pending()[first] == list[first]);
            assert(flags[first]);
            assert(item.pending().contains(action));
        }
        assert(done.pending() =~= item.pending());
    }
}

/// The good modifiers of an item, by slot.
#[derive(Debug, PartialEq, Eq)]
pub struct GoodModifiers {
    pub prefixes: Vec<Modifier>,
    pub suffixes: Vec<Modifier>,
}

impl GoodModifiers {
    /// Whether neither slot has a good modifier.
    pub fn is_empty(&self) -> (r: bool)
        ensures
            r == (self.prefixes@.len() == 0 && self.suffixes@.len() == 0),
    {
        self.prefixes.len() == 0 && self.suffixes.len() == 0
    }

    /// The slots that have a good modifier: `prefix`, then `suffix`.
    pub open spec fn slot_names(&self) -> Seq<Seq<char>> {
        let first = if self.prefixes@.len() > 0 {
            seq!["prefix"@]
        } else {
            Seq::<Seq<char>>::empty()
        };
        if self.suffixes@.len() > 0 {
            first.push("suffix"@)
        } else {
            first
        }
    }

    /// The slots that have a good modifier: `prefix`, then `suffix`.
    pub fn slots(&self) -> (r: Vec<String>)
        ensures
            texts(r@) == self.slot_names(),
    {
        let mut names: Vec<String> = Vec::new();
        if self.prefixes.len() > 0 {
            names.push("prefix".to_owned());
        }
        if self.suffixes.len() > 0 {
            names.push("suffix".to_owned());
        }
        assert(texts(names@) =~= self.slot_names());
        names
    }
}

/// Whether `modifier` is at least one of `wanted`.
fn meets_any_of(modifier: &Modifier, wanted: &Vec<Modifier>) -> (r: bool)
    ensures
        r == modifier.meets_any(wanted@),
{
    let mut j: usize = 0;
    while j < wanted.len()
        invariant
            j <= wanted.len(),
            forall|k: int| 0 <= k < j ==> !modifier.meets(#[trigger] &wanted@[k]),
        decreases wanted.len() - j,
    {
        if modifier.id == wanted[j].id && modifier.value >= wanted[j].value && modifier.tier
            >= wanted[j].tier {
            return true;
        }
        j += 1;
    }
    false
}

/// Whether one of `have` is at least `wanted`.
fn met_by_any(have: &Vec<Modifier>, wanted: &Modifier) -> (r: bool)
    ensures
        r == any_meets(have@, wanted),
{
    let mut i: usize = 0;
    while i < have.len()
        invariant
            i <= have.len(),
            forall|k: int| 0 <= k < i ==> !(#[trigger] have@[k]).meets(wanted),
        decreases have.len() - i,
    {
        if have[i].id == wanted.id && have[i].value >= wanted.value && have[i].tier
            >= wanted.tier {
            return true;
        }
        i += 1;
    }
    false
}

/// Whether each of `wanted` is met by one of `have`.
fn all_met_by(have: &Vec<Modifier>, wanted: &Vec<Modifier>) -> (r: bool)
    ensures
        r == all_met(have@, wanted@),
{
    let mut j: usize = 0;
    while j < wanted.len()
        invariant
            j <= wanted.len(),
            forall|k: int| 0 <= k < j ==> any_meets(have@, #[trigger] &wanted@[k]),
        decreases wanted.len() - j,
    {
        if !met_by_any(have, &wanted[j]) {
            return false;
        }
        j += 1;
    }
    true
}

/// The modifiers of `have`, in order, that are at least one of `wanted`.
fn collect_good(have: &Vec<Modifier>, wanted: &Vec<Modifier>) -> (r: Vec<Modifier>)
    ensures
        r@ == good_among(have@, wanted@),
{
    let mut good: Vec<Modifier> = Vec::new();
    let mut i: usize = 0;
    while i < have.len()
        invariant
            i <= have.len(),
            good@ == good_among(have@.take(i as int), wanted@),
        decreases have.len() - i,
    {
        proof {
            assert(have@.take(i as int + 1).drop_last() =~= have@.take(i as int));
        }
        if meets_any_of(&have[i], wanted) {
            good.push(have[i].clone());
        }
        i += 1;
    }
    assert(have@.take(i as int) =~= have@);
    good
}

/// Whether one of `have` is at least one of `wanted`.
fn has_good(have: &Vec<Modifier>, wanted: &Vec<Modifier>) -> (r: bool)
    ensures
        r == any_good(have@, wanted@),
{
    let mut i: usize = 0;
    while i < have.len()
        invariant
            i <= have.len(),
            forall|k: int| 0 <= k < i ==> !(#[trigger] have@[k]).meets_any(wanted@),
        decreases have.len() - i,
    {
        if meets_any_of(&have[i], wanted) {
            return true;
        }
        i += 1;
    }
    false
}

/// Puts `count` dashes behind `line`.
fn append_dashes(line: &mut String, count: usize)
    ensures
        final(line)@ == old(line)@ + rule(count as nat),
{
    proof {
        reveal_strlit("-");
    }
    let mut i: usize = 0;
    assert(line@ =~= old(line)@ + rule(0));
    while i < count
        invariant
            i <= count,
            "-"@ == seq!['-'],
            line@ == old(line)@ + rule(i as nat),
        decreases count - i,
    {
        line.append("-");
        i += 1;
        assert(line@ =~= old(line)@ + rule(i as nat));
    }
}

/// The lines that show a slot.
fn lines_of_slot(title: &str, list: &Vec<Modifier>) -> (r: Vec<String>)
    ensures
        texts(r@) == slot_lines(title@, list@),
{
    let mut lines: Vec<String> = Vec::new();
    if list.len() == 0 {
        assert(texts(lines@) =~= slot_lines(title@, list@));
        return lines;
    }
    lines.push(String::from_str(title));
    let mut i: usize = 0;
    while i < list.len()
        invariant
            i <= list.len(),
            list.len() > 0,
            texts(lines@) == seq![title@] + affix_lines(list@.take(i as int)),
        decreases list.len() - i,
    {
        let ghost before = texts(lines@);
        let mut line = String::from_str("  - ");
        line.append(list[i].name.as_str());
        line.append(" (");
        let value = decimal_text(list[i].value);
        line.append(value.as_str());
        line.append(")");
        lines.push(line);
        proof {
            assert(line@ == affix_line(list@[i as int]));
            assert(texts(lines@) =~= before.push(line@));
            assert(affix_lines(list@.take(i as int + 1)) =~= affix_lines(
                list@.take(i as int),
            ).push(affix_line(list@[i as int])));
        }
        i += 1;
    }
    assert(list@.take(i as int) =~= list@);
    lines
}

impl ItemState {
    /// Makes a new [`ItemState`]: one with room for three prefixes and
    /// three suffixes, no target and no pending action.
    pub fn new(
        base: &str,
        rarity: &str,
        item_level: u8,
        prefixes: Vec<Modifier>,
        suffixes: Vec<Modifier>,
    ) -> (r: Self)
        ensures
            r@ == (ItemStateView {
                base: base@,
                rarity: rarity@,
                max_prefixes: 3,
                max_suffixes: 3,
                item_level,
                prefixes: prefixes@,
                suffixes: suffixes@,
                prefixes_targeted: false,
                suffixes_targeted: false,
                lowest_tier_targeted: false,
                next_actions: None,
            }),
            r@.well_formed() <==> prefixes@.len() <= 3 && suffixes@.len() <= 3,
    {
        ItemState {
            base: base.to_owned(),
            rarity: rarity.to_owned(),
            max_prefixes: 3,
            max_suffixes: 3,
            item_level,
            prefixes,
            suffixes,
            prefixes_targeted: false,
            suffixes_targeted: false,
            lowest_tier_targeted: false,
            next_actions: None,
        }
    }

    /// Gives a user-friendly representation of an item state, line by
    /// line.
    pub fn display(&self) -> (r: Vec<String>)
        ensures
            texts(r@) == self@.display_lines(),
    {
        let mut title = String::from_str("--- ");
        title.append(self.base.as_str());
        title.append(" (");
        title.append(self.rarity.as_str());
        title.append(") ---");
        let mut level = String::from_str("Item Level: ");
        let number = decimal_text(self.item_level as u16);
        level.append(number.as_str());
        let mut lines: Vec<String> = Vec::new();
        lines.push(title);
        lines.push(level);
        assert(texts(lines@) =~= seq![self@.title_line(), self@.level_line()]);
        let mut prefixes = lines_of_slot("Prefixes:", &self.prefixes);
        let ghost head = texts(lines@);
        let ghost first = texts(prefixes@);
        lines.append(&mut prefixes);
        assert(texts(lines@) =~= head + first);
        let mut suffixes = lines_of_slot("Suffixes:", &self.suffixes);
        let ghost second = texts(suffixes@);
        lines.append(&mut suffixes);
        assert(texts(lines@) =~= head + first + second);
        let ghost note = if self@.has_no_affixes() {
            seq!["  (No affixes)"@]
        } else {
            Seq::<Seq<char>>::empty()
        };
        if self.prefixes.len() == 0 && self.suffixes.len() == 0 {
            lines.push(String::from_str("  (No affixes)"));
        }
        assert(texts(lines@) =~= head + first + second + note);
        let mut dashes = String::new();
        append_dashes(&mut dashes, self.base.as_str().len());
        append_dashes(&mut dashes, self.rarity.as_str().len());
        append_dashes(&mut dashes, 8);
        assert(dashes@ =~= rule(byte_length(self@.base) + byte_length(self@.rarity) + 8));
        lines.push(dashes);
        assert(texts(lines@) =~= head + first + second + note + seq![dashes@]);
        lines
    }

    /// Checks if an item state meets the target state.
    pub fn meets_target(&self, target: &ItemState) -> (r: bool)
        ensures
            r == self@.meets_target(target@),
    {
        let has_all_prefixes = all_met_by(&self.prefixes, &target.prefixes);
        let has_all_suffixes = all_met_by(&self.suffixes, &target.suffixes);
        has_all_prefixes && has_all_suffixes
    }

    /// Predicate that determines if `a` is at least `b`.
    pub fn meets_modifier(&self, a: &Modifier, b: &Modifier) -> (r: bool)
        ensures
            r == a.meets(b),
    {
        a.id == b.id && a.value >= b.value && a.tier >= b.tier
    }

    /// Gets all "good" modifiers that meet the `target` item state.
    pub fn get_good_modifiers(&self, target: &ItemState) -> (r: GoodModifiers)
        ensures
            r.prefixes@ == good_among(self@.prefixes, target@.prefixes),
            r.suffixes@ == good_among(self@.suffixes, target@.suffixes),
    {
        GoodModifiers {
            prefixes: collect_good(&self.prefixes, &target.prefixes),
            suffixes: collect_good(&self.suffixes, &target.suffixes),
        }
    }

    /// Gets the next action expected by the item state, defaults to an empty list.
    pub fn get_next_actions(&self) -> (r: Vec<String>)
        ensures
            texts(r@) == self@.pending(),
    {
        match &self.next_actions {
            Some(list) => clone_texts(list),
            None => {
                let none: Vec<String> = Vec::new();
                assert(texts(none@) =~= self@.pending());
                none
            },
        }
    }

    /// Whether a prefix meets a prefix of the `target`.
    pub fn has_good_prefixes(&self, target: &ItemState) -> (r: bool)
        ensures
            r == any_good(self@.prefixes, target@.prefixes),
    {
        has_good(&self.prefixes, &target.prefixes)
    }

    /// Whether a suffix meets a suffix of the `target`.
    pub fn has_good_suffixes(&self, target: &ItemState) -> (r: bool)
        ensures
            r == any_good(self@.suffixes, target@.suffixes),
    {
        has_good(&self.suffixes, &target.suffixes)
    }

    /// Targets a slot: `prefix`, `suffix` or `lowest`. Any other name
    /// changes nothing.
    pub fn target_affixes(&mut self, affixes: &str)
        ensures
            final(self)@ == old(self)@.targeted(affixes@),
    {
        let slot = affixes.to_owned();
        if is_text(&slot, "prefix") {
            self.prefixes_targeted = true;
        } else if is_text(&slot, "suffix") {
            self.suffixes_targeted = true;
        } else if is_text(&slot, "lowest") {
            self.lowest_tier_targeted = true;
        }
    }

    /// Whether the lowest tier is targeted.
    pub fn has_lowest_tier_targeted(&self) -> (r: bool)
        ensures
            r == self@.lowest_tier_targeted,
    {
        self.lowest_tier_targeted
    }

    /// Targets the lowest tier.
    pub fn target_lowest_tier(&mut self)
        ensures
            final(self)@ == (ItemStateView { lowest_tier_targeted: true, ..old(self)@ }),
    {
        self.lowest_tier_targeted = true;
    }

    /// Whether the prefixes are full.
    pub fn has_max_prefixes(&self) -> (r: bool)
        ensures
            r == self@.has_max_prefixes(),
    {
        self.prefixes.len() >= self.max_prefixes as usize
    }

    /// Whether there is no prefix.
    pub fn has_no_prefixes(&self) -> (r: bool)
        ensures
            r == self@.has_no_prefixes(),
    {
        self.prefixes.len() == 0
    }

    /// Whether the suffixes are full.
    pub fn has_max_suffixes(&self) -> (r: bool)
        ensures
            r == self@.has_max_suffixes(),
    {
        self.suffixes.len() >= self.max_suffixes as usize
    }

    /// Whether there is no suffix.
    pub fn has_no_suffixes(&self) -> (r: bool)
        ensures
            r == self@.has_no_suffixes(),
    {
        self.suffixes.len() == 0
    }

    /// Whether there is neither a prefix nor a suffix.
    pub fn has_no_affixes(&self) -> (r: bool)
        ensures
            r == self@.has_no_affixes(),
    {
        self.has_no_prefixes() && self.has_no_suffixes()
    }

    /// Whether the prefixes and the suffixes are full.
    pub fn has_max_affixes(&self) -> (r: bool)
        ensures
            r == self@.has_max_affixes(),
    {
        self.has_max_prefixes() && self.has_max_suffixes()
    }

    /// Whether an action is pending.
    pub fn has_next_action(&self) -> (r: bool)
        ensures
            r == self@.has_next_action(),
    {
        match &self.next_actions {
            Some(list) => list.len() > 0,
            None => false,
        }
    }

    /// Sets an action as pending, behind those that are. No action, or
    /// one with an empty name, changes nothing.
    pub fn set_next_action(&mut self, next_action: Option<String>)
        ensures
            final(self)@ == old(self)@.with_pending(
                match next_action {
                    Some(action) => Some(action@),
                    None => None,
                },
            ),
    {
        match next_action {
            Some(action) => {
                if action.as_str().unicode_len() != 0 {
                    let mut list: Vec<String> = match self.next_actions.take() {
                        Some(list) => list,
                        None => Vec::new(),
                    };
                    let ghost before = texts(list@);
                    list.push(action);
                    assert(texts(list@) =~= before.push(action@));
                    assert(before =~= old(self)@.pending());
                    self.next_actions = Some(list);
                }
            },
            None => {},
        }
    }

    /// Whether the prefixes are targeted.
    pub fn has_targeted_prefixes(&self) -> (r: bool)
        ensures
            r == self@.prefixes_targeted,
    {
        self.prefixes_targeted
    }

    /// Whether the suffixes are targeted.
    pub fn has_targeted_suffixes(&self) -> (r: bool)
        ensures
            r == self@.suffixes_targeted,
    {
        self.suffixes_targeted
    }

    /// Whether the lowest tier is targeted.
    pub fn has_targeted_lowest_tier(&self) -> (r: bool)
        ensures
            r == self@.lowest_tier_targeted,
    {
        self.lowest_tier_targeted
    }

    /// Clears the target on a slot: that of the prefixes for `prefix`,
    /// and that of the suffixes for anything else.
    pub fn clear_affix_target(&mut self, affix: String)
        ensures
            final(self)@ == old(self)@.cleared(affix@),
    {
        if is_text(&affix, "prefix") {
            self.prefixes_targeted = false;
        } else {
            self.suffixes_targeted = false;
        }
    }

    /// Takes the first pending entry of `action` out; the last entry
    /// moves into its place.
    pub fn clear_next_action(&mut self, action: String)
        ensures
            final(self)@ == old(self)@.without_pending(action@),
    {
        match self.next_actions.take() {
            Some(list) => {
                let mut list = list;
                let ghost before = texts(list@);
                let ghost flags = pending_flags(before, action@);
                let mut i: usize = 0;
                let mut found: bool = false;
                while i < list.len() && !found
                    invariant
                        i <= list.len(),
                        texts(list@) == before,
                        flags == pending_flags(before, action@),
                        forall|j: int| 0 <= j < i ==> !flags[j],
                        found ==> i < list.len() && flags[i as int],
                    decreases list.len() - i + if found { 0int } else { 1int },
                {
                    assert(flags[i as int] == (list@[i as int]@ == action@));
                    if list[i] == action {
                        found = true;
                    } else {
                        i += 1;
                    }
                }
                proof {
                    lemma_first_true_is(flags, i as int);
                }
                if found {
                    list.swap_remove(i);
                    assert(texts(list@) =~= before.update(i as int, before.last()).drop_last());
                }
                self.next_actions = Some(list);
            },
            None => {},
        }
    }

    /// The number of affixes in both slots.
    pub fn get_affix_count(&self) -> (r: u16)
        requires
            self@.affix_count() <= u16::MAX,
        ensures
            r == self@.affix_count(),
    {
        (self.prefixes.len() + self.suffixes.len()) as u16
    }
}

impl Clone for ItemState {
    fn clone(&self) -> (r: Self)
        ensures
            r@ == self@,
    {
        let prefixes = self.prefixes.clone();
        let suffixes = self.suffixes.clone();
        assert(prefixes@ =~= self.prefixes@);
        assert(suffixes@ =~= self.suffixes@);
        ItemState {
            base: self.base.clone(),
            rarity: self.rarity.clone(),
            max_prefixes: self.max_prefixes,
            max_suffixes: self.max_suffixes,
            item_level: self.item_level,
            prefixes,
            suffixes,
            prefixes_targeted: self.prefixes_targeted,
            suffixes_targeted: self.suffixes_targeted,
            lowest_tier_targeted: self.lowest_tier_targeted,
            next_actions: match &self.next_actions {
                Some(list) => Some(clone_texts(list)),
                None => None,
            },
        }
    }
}

} // verus!
