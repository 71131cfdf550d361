//! References from one action to others, as they are written in a
//! configuration: one name, or a list of names.

use crate::actions::commands::texts_of;
use vstd::prelude::*;

verus! {

/// One name, or a list of names.
#[derive(Debug)]
pub enum ActionRefs {
    Single(String),
    Multiple(Vec<String>),
}

/// The names that a reference stands for, in order: none where there is no
/// reference, one for a single name, all of a list.
pub open spec fn flattened(refs: Option<ActionRefs>) -> Seq<Seq<char>> {
    match refs {
        Some(ActionRefs::Single(single)) => seq![single@],
        Some(ActionRefs::Multiple(multiple)) => texts_of(multiple@),
        None => Seq::empty(),
    }
}

/// The names that a reference stands for, in order.
pub fn flatten_optional_refs(refs: Option<ActionRefs>) -> (names: Vec<String>)
    ensures
        texts_of(names@) == flattened(refs),
{
    match refs {
        Some(ActionRefs::Single(single)) => {
            let mut names: Vec<String> = Vec::new();
            names.push(single);
            assert(texts_of(names@) =~= seq![single@]);
            names
        },
        Some(ActionRefs::Multiple(multiple)) => multiple,
        None => {
            let names: Vec<String> = Vec::new();
            assert(texts_of(names@) =~= Seq::<Seq<char>>::empty());
            names
        },
    }
}

} // verus!
