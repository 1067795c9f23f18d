//! The internal API: the lists of versions or models to ban or unban.

use vstd::prelude::*;

verus! {

/// Why a list of versions or models to ban or unban is refused.
#[derive(Clone, Copy, Debug, PartialEq, Eq, Structural)]
pub enum BanListError {
    /// The list is empty.
    Empty,
    /// The list holds an empty string.
    EmptyEntry,
}

impl BanListError {
    /// The message that the refusal is answered with.
    pub fn message(self) -> (m: &'static str)
        ensures
            m@ == match self {
                BanListError::Empty => "vector cannot be empty"@,
                BanListError::EmptyEntry => "vector contains empty string"@,
            },
    {
        match self {
            BanListError::Empty => "vector cannot be empty",
            BanListError::EmptyEntry => "vector contains empty string",
        }
    }
}

/// Some entry of the list is the empty string.
pub open spec fn has_empty_entry(values: Seq<String>) -> bool {
    exists|i: int| 0 <= i < values.len() && (#[trigger] values[i])@.len() == 0
}

/// The verdict on a list of versions or models to ban or unban.
pub open spec fn ban_list_verdict(values: Seq<String>) -> Result<(), BanListError> {
    if values.len() == 0 {
        Err(BanListError::Empty)
    } else if has_empty_entry(values) {
        Err(BanListError::EmptyEntry)
    } else {
        Ok(())
    }
}

/// Checks a list of versions or models to ban or unban: it must not be
/// empty, and no entry may be the empty string.
pub fn check_ban_list(values: &Vec<String>) -> (r: Result<(), BanListError>)
    ensures
        r == ban_list_verdict(values@),
{
    if values.len() == 0 {
        return Err(BanListError::Empty);
    }
    let mut i: usize = 0;
    while i < values.len()
        invariant
            i <= values@.len(),
            forall|j: int| 0 <= j < i ==> (#[trigger] values@[j])@.len() != 0,
        decreases values@.len() - i,
    {
        if values[i].as_str().is_empty() {
            assert(values@[i as int]@.len() == 0);
            return Err(BanListError::EmptyEntry);
        }
        i = i + 1;
    }
    Ok(())
}

/// A list that the checks accept can be banned: it is not empty, as the
/// ban statement needs.
pub proof fn lemma_accepted_list_bannable(values: Seq<String>)
    requires
        ban_list_verdict(values) is Ok,
    ensures
        values.len() > 0,
{
}

/// A list is accepted exactly when it is not empty and none of its entries
/// is the empty string; it is refused as empty exactly when it has no entry.
pub proof fn lemma_ban_list_acceptance(values: Seq<String>)
    ensures
        (ban_list_verdict(values) == Ok::<(), BanListError>(())) <==> (values.len() > 0 && forall|i: int|
            0 <= i < values.len() ==> (#[trigger] values[i])@.len() > 0),
        (ban_list_verdict(values) == Err::<(), BanListError>(BanListError::Empty)) <==> values.len() == 0,
{
    if values.len() > 0 && forall|i: int| 0 <= i < values.len() ==> (#[trigger] values[i])@.len() > 0 {
        assert(!has_empty_entry(values));
    }
}

} // verus!
