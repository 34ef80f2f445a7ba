//! Deleting all recorded data, on confirmation.

use vstd::prelude::*;
use crate::db::schema::clear_all_data;
use crate::db::EventStore;
use crate::text::{lowercased, same_text, to_lower, trim, trimmed};

verus! {

/// The answer confirms: set in lowercase and without the white space around
/// it, it reads `y` or `yes`.
pub open spec fn is_confirmation(answer: Seq<char>) -> bool {
    let word = lowercased(trimmed(answer));
    word == "y"@ || word == "yes"@
}

/// Whether the answer to the warning confirms the deletion.
pub fn confirms(answer: &str) -> (r: bool)
    ensures
        r == is_confirmation(answer@),
{
    let word = to_lower(trim(answer));
    same_text(word.as_str(), "y") || same_text(word.as_str(), "yes")
}

/// Deletes every row of the store where the deletion is forced or the
/// answer confirms it, and says whether it did.
pub fn reset(db: &mut EventStore, force: bool, answer: &str) -> (done: bool)
    requires
        old(db).wf(),
    ensures
        final(db).wf(),
        done == (force || is_confirmation(answer@)),
        done ==> final(db)@ == old(db)@.cleared(),
        !done ==> final(db)@ == old(db)@,
{
    if force || confirms(answer) {
        clear_all_data(db);
        true
    } else {
        false
    }
}

} // verus!
