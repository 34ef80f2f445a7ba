//! Operations on the store's tables as a whole.

use vstd::prelude::*;
use crate::db::EventStore;

verus! {

/// Deletes every row of the four tables. The identifiers handed out so far stay used.
pub fn clear_all_data(conn: &mut EventStore)
    requires
        old(conn).wf(),
    ensures
        final(conn).wf(),
        final(conn)@ == old(conn)@.cleared(),
{
    conn.clear();
}

} // verus!
