use crate::datasets::affix_tier::{AffixTier, AffixTierView};
use crate::datasets::class_tier::{ClassTier, ClassTierView};
use crate::lookup::{first_true, lemma_first_true_is};
use crate::text::contains_text;
use vstd::prelude::*;

verus! {

/// Represents all class-based tiered modifiers.
#[derive(Debug, Default, PartialEq, Eq)]
pub struct ClassTiers {
    pub class_tiers: Vec<ClassTier>,
}

/// What a list of [`ClassTier`] holds.
pub open spec fn class_tiers_view(list: Seq<ClassTier>) -> Seq<ClassTierView> {
    list.map_values(|c: ClassTier| c@)
}

impl View for ClassTiers {
    type V = Seq<ClassTierView>;

    open spec fn view(&self) -> Seq<ClassTierView> {
        class_tiers_view(self.class_tiers@)
    }
}

/// For each class tier list, whether it is one for `item_class`.
pub open spec fn class_flags(list: Seq<ClassTierView>, item_class: Seq<char>) -> Seq<bool> {
    list.map_values(|c: ClassTierView| c.classes.contains(item_class))
}

/// The first of `list` that is for `item_class`.
pub open spec fn find_class(list: Seq<ClassTierView>, item_class: Seq<char>) -> Option<
    ClassTierView,
> {
    let first = first_true(class_flags(list, item_class));
    if first < list.len() {
        Some(list[first])
    } else {
        None
    }
}

/// Finds the first of `list` that is for `item_class`.
pub fn find_class_tier<'a>(list: &'a [ClassTier], item_class: &String) -> (r: Option<
    &'a ClassTier,
>)
    ensures
        match r {
            Some(found) => find_class(class_tiers_view(list@), item_class@) == Some(found@),
            None => find_class(class_tiers_view(list@), item_class@) is None,
        },
{
    let ghost flags = class_flags(class_tiers_view(list@), item_class@);
    let mut i: usize = 0;
    while i < list.len()
        invariant
            i <= list.len(),
            flags == class_flags(class_tiers_view(list@), item_class@),
            forall|j: int| 0 <= j < i ==> !flags[j],
        decreases list.len() - i,
    {
        assert(flags[i as int] == list@[i as int]@.classes.contains(item_class@));
        if contains_text(list[i].classes.as_slice(), item_class) {
            proof {
                lemma_first_true_is(flags, i as int);
            }
            return Some(&list[i]);
        }
        i += 1;
    }
    proof {
        lemma_first_true_is(flags, i as int);
    }
    None
}

/// For each class tier list, whether it has a table of `affix`.
pub open spec fn holder_flags(class_tiers: Seq<ClassTierView>, affix: Seq<char>) -> Seq<bool> {
    class_tiers.map_values(|c: ClassTierView| c.table_of(affix) is Some)
}

/// The table of `affix` in the first class tier list that has one.
pub open spec fn table_anywhere(class_tiers: Seq<ClassTierView>, affix: Seq<char>) -> Option<
    AffixTierView,
> {
    let first = first_true(holder_flags(class_tiers, affix));
    if first < class_tiers.len() {
        class_tiers[first].table_of(affix)
    } else {
        None
    }
}

/// Finds the table of `affix` in the first class tier list that has one.
pub fn find_table_anywhere<'a>(class_tiers: &'a [ClassTier], affix: &String) -> (r: Option<
    &'a AffixTier,
>)
    ensures
        match r {
            Some(table) => table_anywhere(class_tiers_view(class_tiers@), affix@) == Some(table@),
            None => table_anywhere(class_tiers_view(class_tiers@), affix@) is None,
        },
{
    let ghost flags = holder_flags(class_tiers_view(class_tiers@), affix@);
    let mut i: usize = 0;
    while i < class_tiers.len()
        invariant
            i <= class_tiers.len(),
            flags == holder_flags(class_tiers_view(class_tiers@), affix@),
            forall|j: int| 0 <= j < i ==> !flags[j],
        decreases class_tiers.len() - i,
    {
        assert(flags[i as int] == (class_tiers@[i as int]@.table_of(affix@) is Some));
        match class_tiers[i].get_table_of(affix.as_str()) {
            Some(table) => {
                proof {
                    lemma_first_true_is(flags, i as int);
                }
                return Some(table);
            },
            None => {},
        }
        i += 1;
    }
    proof {
        lemma_first_true_is(flags, i as int);
    }
    None
}

} // verus!
