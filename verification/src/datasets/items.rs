use crate::datasets::class::Class;
use crate::datasets::item::Item;
use crate::lookup::{first_true, lemma_first_true_is};
use vstd::prelude::*;

verus! {

/// Represents a collection of items and their related item class.
#[derive(Debug, Default, PartialEq, Eq)]
pub struct Items {
    pub classes: Vec<Class>,
    pub items: Vec<Item>,
}

/// For each item, whether it is the base called `name`.
pub open spec fn item_flags(items: Seq<Item>, name: Seq<char>) -> Seq<bool> {
    items.map_values(|i: Item| i.name@ == name)
}

/// The class of the first of `items` that is called `name`.
pub open spec fn class_of_base(items: Seq<Item>, name: Seq<char>) -> Option<Seq<char>> {
    let first = first_true(item_flags(items, name));
    if first < items.len() {
        Some(items[first].class@)
    } else {
        None
    }
}

/// Finds the first of `items` that is called `name`.
pub fn find_item<'a>(items: &'a [Item], name: &String) -> (r: Option<&'a Item>)
    ensures
        match r {
            Some(item) => class_of_base(items@, name@) == Some(item.class@),
            None => class_of_base(items@, name@) is None,
        },
{
    let ghost flags = item_flags(items@, name@);
    let mut i: usize = 0;
    while i < items.len()
        invariant
            i <= items.len(),
            flags == item_flags(items@, name@),
            forall|j: int| 0 <= j < i ==> !flags[j],
        decreases items.len() - i,
    {
        assert(flags[i as int] == (items@[i as int].name@ == name@));
        if items[i].name == *name {
            proof {
                lemma_first_true_is(flags, i as int);
            }
            return Some(&items[i]);
        }
        i += 1;
    }
    proof {
        lemma_first_true_is(flags, i as int);
    }
    None
}

} // verus!
