use crate::text::{clone_texts, texts};
use vstd::prelude::*;

verus! {

/// Represents a single affix.
#[derive(Debug, Default, PartialEq, Eq)]
pub struct Affix {
    pub name: String,
    pub id: String,
    pub tags: Option<Vec<String>>,
}

/// What an [`Affix`] holds.
pub struct AffixView {
    pub name: Seq<char>,
    pub id: Seq<char>,
    pub tags: Option<Seq<Seq<char>>>,
}

impl View for Affix {
    type V = AffixView;

    open spec fn view(&self) -> AffixView {
        AffixView {
            name: self.name@,
            id: self.id@,
            tags: match self.tags {
                Some(tags) => Some(texts(tags@)),
                None => None,
            },
        }
    }
}

impl Clone for Affix {
    fn clone(&self) -> (r: Self)
        ensures
            r@ == self@,
    {
        Affix {
            name: self.name.clone(),
            id: self.id.clone(),
            tags: match &self.tags {
                Some(tags) => Some(clone_texts(tags)),
                None => None,
            },
        }
    }
}

} // verus!
