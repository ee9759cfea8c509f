use crate::datasets::affix::{Affix, AffixView};
use crate::lookup::{first_true, lemma_first_true_is};
use crate::text::is_text;
use vstd::prelude::*;

verus! {

/// Represents all modifiers.
#[derive(Debug, Default, PartialEq, Eq)]
pub struct Modifiers {
    pub modifiers: Vec<Affix>,
}

/// What a list of [`Affix`] holds.
pub open spec fn affixes_view(list: Seq<Affix>) -> Seq<AffixView> {
    list.map_values(|a: Affix| a@)
}

impl View for Modifiers {
    type V = Seq<AffixView>;

    open spec fn view(&self) -> Seq<AffixView> {
        affixes_view(self.modifiers@)
    }
}

/// For each entry of the catalog, whether it is the one of `id`.
pub open spec fn affix_flags(catalog: Seq<AffixView>, id: Seq<char>) -> Seq<bool> {
    catalog.map_values(|a: AffixView| a.id == id)
}

/// The first entry of the catalog that is the one of `id`.
pub open spec fn find_affix(catalog: Seq<AffixView>, id: Seq<char>) -> Option<AffixView> {
    let first = first_true(affix_flags(catalog, id));
    if first < catalog.len() {
        Some(catalog[first])
    } else {
        None
    }
}

impl Modifiers {
    /// The position of the first entry of `id`.
    fn position_of(&self, id: &str) -> (r: Option<usize>)
        ensures
            match r {
                Some(i) => i < self.modifiers.len() && find_affix(self@, id@) == Some(
                    self.modifiers@[i as int]@,
                ),
                None => find_affix(self@, id@) is None,
            },
    {
        let ghost flags = affix_flags(self@, id@);
        let mut i: usize = 0;
        while i < self.modifiers.len()
            invariant
                i <= self.modifiers.len(),
                flags == affix_flags(self@, id@),
                forall|j: int| 0 <= j < i ==> !flags[j],
            decreases self.modifiers.len() - i,
        {
            assert(flags[i as int] == (self.modifiers@[i as int]@.id == id@));
            if is_text(&self.modifiers[i].id, id) {
                proof {
                    lemma_first_true_is(flags, i as int);
                }
                return Some(i);
            }
            i += 1;
        }
        proof {
            lemma_first_true_is(flags, i as int);
        }
        None
    }

    /// Looks an affix up by `id`, leaving the catalog in place.
    pub fn find_affix_by_id(&self, id: &str) -> (r: Option<&Affix>)
        ensures
            match r {
                Some(affix) => find_affix(self@, id@) == Some(affix@),
                None => find_affix(self@, id@) is None,
            },
    {
        match self.position_of(id) {
            Some(i) => Some(&self.modifiers[i]),
            None => None,
        }
    }

    /// Gets an affix by `id`.
    pub fn get_affix_by_id(self, id: &str) -> (r: Option<Affix>)
        ensures
            match r {
                Some(affix) => find_affix(self@, id@) == Some(affix@),
                None => find_affix(self@, id@) is None,
            },
    {
        match self.position_of(id) {
            Some(i) => {
                let mut list = self.modifiers;
                Some(list.swap_remove(i))
            },
            None => None,
        }
    }
}

impl Clone for Modifiers {
    fn clone(&self) -> (r: Self)
        ensures
            r@ == self@,
    {
        let list = self.modifiers.clone();
        assert(affixes_view(list@) =~= affixes_view(self.modifiers@));
        Modifiers { modifiers: list }
    }
}

} // verus!
