//! Rows of the `banned` table, keyed by model and version together.

use vstd::prelude::*;

use crate::database::{opt_chars, BannedItem};

verus! {

/// A ban of one version of one model, with an optional note.
pub struct Banned {
    pub model: String,
    pub version: String,
    pub note: Option<String>,
}

impl Banned {
    /// The ban as a row of the ban list (no count of affected
    /// installations).
    pub fn to_item(&self) -> (item: BannedItem)
        ensures
            opt_chars(item.version) == Some(self.version@),
            opt_chars(item.model) == Some(self.model@),
            opt_chars(item.note) == opt_chars(self.note),
            item.affected_installations is None,
    {
        BannedItem {
            version: Some(self.version.clone()),
            model: Some(self.model.clone()),
            note: match &self.note {
                Some(n) => Some(n.clone()),
                None => None,
            },
            affected_installations: None,
        }
    }
}

/// The ban list rows of the `banned` table, in order (what the internal
/// API lists).
pub fn items_from_bans(bans: &Vec<Banned>) -> (items: Vec<BannedItem>)
    ensures
        items@.len() == bans@.len(),
        forall|i: int| 0 <= i < bans@.len() ==> {
            &&& opt_chars(#[trigger] items@[i].version) == Some(bans@[i].version@)
            &&& opt_chars(items@[i].model) == Some(bans@[i].model@)
            &&& opt_chars(items@[i].note) == opt_chars(bans@[i].note)
            &&& items@[i].affected_installations is None
        },
{
    let mut items: Vec<BannedItem> = Vec::new();
    let mut i: usize = 0;
    while i < bans.len()
        invariant
            i <= bans@.len(),
            items@.len() == i,
            forall|k: int| 0 <= k < i ==> {
                &&& opt_chars(#[trigger] items@[k].version) == Some(bans@[k].version@)
                &&& opt_chars(items@[k].model) == Some(bans@[k].model@)
                &&& opt_chars(items@[k].note) == opt_chars(bans@[k].note)
                &&& items@[k].affected_installations is None
            },
        decreases bans@.len() - i,
    {
        items.push(bans[i].to_item());
        i = i + 1;
    }
    items
}

} // verus!
