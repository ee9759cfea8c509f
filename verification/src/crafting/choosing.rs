//! How an affix is chosen among candidates: which can be drawn, what
//! can come of a draw, and what the datasets must hold for it.

use crate::crafting::affix_candidate::{
    AffixCandidate, AffixCandidateView, candidates_view, possible_affixes,
};
use crate::crafting::dataset_error::DatasetError;
use crate::datasets::affix::{Affix, AffixView};
use crate::datasets::affix_tier::{AffixTier, AffixTierView};
use crate::datasets::modifiers::{Modifiers, affix_flags, find_affix};
use crate::items::modifier::Modifier;
use crate::lookup::lemma_first_true;
use crate::random::randomizer::{can_sample, samplable};
use crate::text::{decimal, decimal_text, fill_marker, substituted};
use vstd::prelude::*;

verus! {

/// Whether an affix is on the item already.
pub open spec fn on_item(current_affixes: Seq<Modifier>, affix: Seq<char>) -> bool {
    exists|i: int| 0 <= i < current_affixes.len() && (#[trigger] current_affixes[i]).id@ == affix
}

/// Whether a candidate can be drawn: its affix is not on the item.
pub open spec fn eligible(current_affixes: Seq<Modifier>, candidate: AffixCandidateView) -> bool {
    !on_item(current_affixes, candidate.affix)
}

/// The weights of the candidates that can be drawn, in order.
pub open spec fn eligible_weights(
    current_affixes: Seq<Modifier>,
    candidates: Seq<AffixCandidateView>,
) -> Seq<u64>
    decreases candidates.len(),
{
    if candidates.len() == 0 {
        Seq::<u64>::empty()
    } else if eligible(current_affixes, candidates.last()) {
        eligible_weights(current_affixes, candidates.drop_last()).push(
            candidates.last().weight as u64,
        )
    } else {
        eligible_weights(current_affixes, candidates.drop_last())
    }
}

/// Whether a tier and its value can be drawn from a table: a tier can be
/// drawn by weight, and every tier that can be drawn can roll a value.
pub open spec fn tiers_rollable(table: AffixTierView) -> bool {
    &&& samplable(table.tier_weights())
    &&& forall|t: int|
        0 <= t < table.tiers.len() && (#[trigger] table.tiers[t]).weight > 0
            ==> table.tiers[t].can_roll()
}

/// Whether a modifier can be rolled from a table with the catalog: the
/// catalog has the table's affix, and a tier and its value can be drawn.
pub open spec fn table_rollable(table: AffixTierView, catalog: Seq<AffixView>) -> bool {
    find_affix(catalog, table.affix) is Some && tiers_rollable(table)
}

/// Whether a modifier can be rolled from a candidate with the catalog:
/// the catalog has the candidate's affix, and a tier and its value can be
/// drawn from its table.
pub open spec fn candidate_rollable(
    candidate: AffixCandidateView,
    catalog: Seq<AffixView>,
) -> bool {
    find_affix(catalog, candidate.affix) is Some && tiers_rollable(candidate.affix_tier)
}

/// Whether a modifier can be rolled from every candidate that can be
/// drawn.
pub open spec fn candidates_rollable(
    catalog: Seq<AffixView>,
    current_affixes: Seq<Modifier>,
    candidates: Seq<AffixCandidateView>,
) -> bool {
    forall|k: int|
        0 <= k < candidates.len() && eligible(current_affixes, #[trigger] candidates[k])
            && candidates[k].weight > 0 ==> candidate_rollable(candidates[k], catalog)
}

/// Whether a candidate that can be drawn, and weighs, is of an affix that
/// the catalog does not have.
pub open spec fn draws_unknown(
    catalog: Seq<AffixView>,
    current_affixes: Seq<Modifier>,
    candidates: Seq<AffixCandidateView>,
) -> bool {
    exists|k: int|
        0 <= k < candidates.len() && eligible(current_affixes, #[trigger] candidates[k])
            && candidates[k].weight > 0 && find_affix(catalog, candidates[k].affix) is None
}

/// Whether a candidate that can be drawn, and weighs, has a table that
/// no tier and value can be drawn from.
pub open spec fn draws_unusable(
    current_affixes: Seq<Modifier>,
    candidates: Seq<AffixCandidateView>,
) -> bool {
    exists|k: int|
        0 <= k < candidates.len() && eligible(current_affixes, #[trigger] candidates[k])
            && candidates[k].weight > 0 && !tiers_rollable(candidates[k].affix_tier)
}

/// What keeps a modifier from being chosen among `candidates`, if
/// anything: an affix that the catalog does not have comes first, then a
/// table that cannot be drawn from.
pub open spec fn choosing_fault(
    catalog: Seq<AffixView>,
    current_affixes: Seq<Modifier>,
    candidates: Seq<AffixCandidateView>,
) -> Option<DatasetError> {
    if draws_unknown(catalog, current_affixes, candidates) {
        Some(DatasetError::UnknownAffix)
    } else if draws_unusable(current_affixes, candidates) {
        Some(DatasetError::UnusableTier)
    } else {
        None
    }
}

/// Nothing keeps a modifier from being chosen exactly where one can be
/// rolled from every candidate that can be drawn.
pub proof fn lemma_no_choosing_fault(
    catalog: Seq<AffixView>,
    current_affixes: Seq<Modifier>,
    candidates: Seq<AffixCandidateView>,
)
    ensures
        choosing_fault(catalog, current_affixes, candidates) is None <==> candidates_rollable(
            catalog,
            current_affixes,
            candidates,
        ),
{
    if candidates_rollable(catalog, current_affixes, candidates) {
        if draws_unknown(catalog, current_affixes, candidates) {
            let k = choose|k: int|
                0 <= k < candidates.len() && eligible(current_affixes, #[trigger] candidates[k])
                    && candidates[k].weight > 0 && find_affix(catalog, candidates[k].affix)
                    is None;
            assert(candidate_rollable(candidates[k], catalog));
        }
        if draws_unusable(current_affixes, candidates) {
            let k = choose|k: int|
                0 <= k < candidates.len() && eligible(current_affixes, #[trigger] candidates[k])
                    && candidates[k].weight > 0 && !tiers_rollable(candidates[k].affix_tier);
            assert(candidate_rollable(candidates[k], catalog));
        }
    }
}

/// Whether `modifier` is what comes of `candidate` with row `tier_index`
/// drawn: it has the id of the catalog's entry and its name with the value
/// filled in, the tier number one above the row's, kept to a byte, the
/// row's weight, and a value that the row can roll.
pub open spec fn rolled_as(
    catalog: Seq<AffixView>,
    candidate: AffixCandidateView,
    tier_index: int,
    modifier: Modifier,
) -> bool {
    &&& find_affix(catalog, candidate.affix) matches Some(entry)
    &&& modifier.id@ == entry.id
    &&& modifier.name@ == substituted(entry.name, '#', decimal(modifier.value as nat))
    &&& modifier.tier == (tier_index + 1) % 256
    &&& modifier.weight == candidate.affix_tier.tiers[tier_index].weight
    &&& candidate.affix_tier.tiers[tier_index].may_roll(modifier.value)
}

/// Whether candidate `k` and its row `tier_index` can be drawn and give
/// `modifier`.
pub open spec fn chosen_as(
    catalog: Seq<AffixView>,
    current_affixes: Seq<Modifier>,
    candidates: Seq<AffixCandidateView>,
    k: int,
    tier_index: int,
    modifier: Modifier,
) -> bool {
    &&& 0 <= k < candidates.len()
    &&& eligible(current_affixes, candidates[k])
    &&& candidates[k].weight > 0
    &&& 0 <= tier_index < candidates[k].affix_tier.tiers.len()
    &&& candidates[k].affix_tier.tiers[tier_index].weight > 0
    &&& rolled_as(catalog, candidates[k], tier_index, modifier)
}

/// Whether `modifier` can be chosen: some candidate that can be drawn, of
/// a weight above zero, and some tier row of its table, of a weight above
/// zero, give it.
pub open spec fn may_choose(
    catalog: Seq<AffixView>,
    current_affixes: Seq<Modifier>,
    candidates: Seq<AffixCandidateView>,
    modifier: Modifier,
) -> bool {
    exists|k: int, tier_index: int|
        #[trigger] chosen_as(catalog, current_affixes, candidates, k, tier_index, modifier)
}

/// The entry that the catalog has for an id has that id.
pub proof fn lemma_found_affix_has_id(catalog: Seq<AffixView>, id: Seq<char>)
    ensures
        find_affix(catalog, id) matches Some(entry) ==> entry.id == id,
{
    lemma_first_true(affix_flags(catalog, id));
}

/// Whether every candidate that can be drawn, and weighs, is of `affix`.
pub open spec fn draws_only(
    current_affixes: Seq<Modifier>,
    candidates: Seq<AffixCandidateView>,
    affix: Seq<char>,
) -> bool {
    forall|k: int|
        0 <= k < candidates.len() && eligible(current_affixes, #[trigger] candidates[k])
            && candidates[k].weight > 0 ==> candidates[k].affix == affix
}

/// A modifier chosen where every candidate that can be drawn is of one
/// affix has that affix's id.
pub proof fn lemma_single_candidate_gives_its_affix(
    catalog: Seq<AffixView>,
    current_affixes: Seq<Modifier>,
    candidates: Seq<AffixCandidateView>,
    affix: Seq<char>,
    modifier: Modifier,
)
    requires
        may_choose(catalog, current_affixes, candidates, modifier),
        draws_only(current_affixes, candidates, affix),
    ensures
        modifier.id@ == affix,
{
    let (k, tier_index) = choose|k: int, tier_index: int|
        #[trigger] chosen_as(catalog, current_affixes, candidates, k, tier_index, modifier);
    lemma_found_affix_has_id(catalog, candidates[k].affix);
}

/// Whether an affix is on the item already.
pub fn is_on_item(current_affixes: &[Modifier], affix: &String) -> (r: bool)
    ensures
        r == on_item(current_affixes@, affix@),
{
    let mut i: usize = 0;
    while i < current_affixes.len()
        invariant
            i <= current_affixes.len(),
            forall|j: int| 0 <= j < i ==> (#[trigger] current_affixes@[j]).id@ != affix@,
        decreases current_affixes.len() - i,
    {
        if current_affixes[i].id == *affix {
            return true;
        }
        i += 1;
    }
    false
}

/// The weight of each tier row of `table`, in order.
pub fn tier_weights_of(table: &AffixTier) -> (r: Vec<u64>)
    ensures
        r@ == table@.tier_weights(),
{
    let mut weights: Vec<u64> = Vec::new();
    let mut i: usize = 0;
    while i < table.tiers.len()
        invariant
            i <= table.tiers.len(),
            weights@ == table@.tier_weights().take(i as int),
        decreases table.tiers.len() - i,
    {
        assert(table@.tier_weights()[i as int] == table.tiers@[i as int]@.weight as u64);
        weights.push(table.tiers[i].weight as u64);
        assert(weights@ =~= table@.tier_weights().take(i as int + 1));
        i += 1;
    }
    assert(table@.tier_weights().take(i as int) =~= table@.tier_weights());
    weights
}

/// Whether a tier and its value can be drawn from `table`.
pub fn are_tiers_rollable(table: &AffixTier) -> (r: bool)
    ensures
        r == tiers_rollable(table@),
{
    let weights = tier_weights_of(table);
    if !can_sample(&weights) {
        return false;
    }
    let mut t: usize = 0;
    while t < table.tiers.len()
        invariant
            t <= table.tiers.len(),
            forall|j: int|
                0 <= j < t && (#[trigger] table@.tiers[j]).weight > 0 ==> table@.tiers[j].can_roll(),
        decreases table.tiers.len() - t,
    {
        assert(table@.tiers[t as int] == table.tiers@[t as int]@);
        if table.tiers[t].weight > 0 && !table.tiers[t].is_rollable() {
            return false;
        }
        t += 1;
    }
    true
}

/// Whether a candidate that can be drawn, and weighs, is of an affix that
/// the catalog does not have.
pub fn has_unknown_candidate(
    catalog: &Modifiers,
    current_affixes: &[Modifier],
    possible_affixes: &[AffixCandidate],
) -> (r: bool)
    ensures
        r == draws_unknown(catalog@, current_affixes@, candidates_view(possible_affixes@)),
{
    let ghost candidates = candidates_view(possible_affixes@);
    let mut k: usize = 0;
    while k < possible_affixes.len()
        invariant
            k <= possible_affixes.len(),
            candidates == candidates_view(possible_affixes@),
            forall|j: int|
                0 <= j < k ==> !(eligible(current_affixes@, #[trigger] candidates[j])
                    && candidates[j].weight > 0 && find_affix(catalog@, candidates[j].affix)
                    is None),
        decreases possible_affixes.len() - k,
    {
        assert(candidates[k as int] == possible_affixes@[k as int]@);
        if possible_affixes[k].weight > 0 && !is_on_item(
            current_affixes,
            &possible_affixes[k].affix,
        ) && catalog.find_affix_by_id(possible_affixes[k].affix.as_str()).is_none() {
            return true;
        }
        k += 1;
    }
    false
}

/// Whether a candidate that can be drawn, and weighs, has a table that
/// no tier and value can be drawn from.
pub fn has_unusable_candidate(
    current_affixes: &[Modifier],
    possible_affixes: &[AffixCandidate],
) -> (r: bool)
    ensures
        r == draws_unusable(current_affixes@, candidates_view(possible_affixes@)),
{
    let ghost candidates = candidates_view(possible_affixes@);
    let mut k: usize = 0;
    while k < possible_affixes.len()
        invariant
            k <= possible_affixes.len(),
            candidates == candidates_view(possible_affixes@),
            forall|j: int|
                0 <= j < k ==> !(eligible(current_affixes@, #[trigger] candidates[j])
                    && candidates[j].weight > 0 && !tiers_rollable(candidates[j].affix_tier)),
        decreases possible_affixes.len() - k,
    {
        assert(candidates[k as int] == possible_affixes@[k as int]@);
        if possible_affixes[k].weight > 0 && !is_on_item(
            current_affixes,
            &possible_affixes[k].affix,
        ) && !are_tiers_rollable(&possible_affixes[k].affix_tier) {
            return true;
        }
        k += 1;
    }
    false
}

/// Looks for what keeps a modifier from being chosen among the
/// candidates.
pub fn check_candidates(
    catalog: &Modifiers,
    current_affixes: &[Modifier],
    possible_affixes: &[AffixCandidate],
) -> (r: Result<(), DatasetError>)
    ensures
        r == match choosing_fault(
            catalog@,
            current_affixes@,
            candidates_view(possible_affixes@),
        ) {
            Some(error) => Err::<(), DatasetError>(error),
            None => Ok(()),
        },
        r is Ok <==> candidates_rollable(
            catalog@,
            current_affixes@,
            candidates_view(possible_affixes@),
        ),
{
    proof {
        lemma_no_choosing_fault(catalog@, current_affixes@, candidates_view(possible_affixes@));
    }
    if has_unknown_candidate(catalog, current_affixes, possible_affixes) {
        Err(DatasetError::UnknownAffix)
    } else if has_unusable_candidate(current_affixes, possible_affixes) {
        Err(DatasetError::UnusableTier)
    } else {
        Ok(())
    }
}

/// Makes the modifier of `candidate` with row `tier_index` and `value`
/// drawn, named after the catalog's `entry`.
pub fn resolve_affix(
    entry: &Affix,
    candidate: &AffixCandidate,
    tier_index: usize,
    value: u16,
) -> (modifier: Modifier)
    requires
        tier_index < candidate@.affix_tier.tiers.len(),
    ensures
        modifier.id@ == entry@.id,
        modifier.name@ == substituted(entry@.name, '#', decimal(value as nat)),
        modifier.tier == (tier_index + 1) % 256,
        modifier.value == value,
        modifier.weight == candidate@.affix_tier.tiers[tier_index as int].weight,
{
    assert(candidate@.affix_tier.tiers[tier_index as int]
        == candidate.affix_tier.tiers@[tier_index as int]@);
    let filling = decimal_text(value);
    Modifier {
        name: fill_marker(&entry.name, &filling),
        id: entry.id.clone(),
        tier: ((tier_index % 256 + 1) % 256) as u8,
        value,
        weight: candidate.affix_tier.tiers[tier_index].weight,
    }
}

} // verus!
