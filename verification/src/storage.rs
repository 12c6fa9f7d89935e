//! Session, Run, Transcript, Approval, Memory and Schedule records, and the
//! process-local store that keeps them.

pub mod records;
pub mod memory;
pub mod schema;

use vstd::prelude::*;

verus! {

/// Smoke check that the storage adapter is loadable.
pub fn crate_name() -> (r: &'static str)
    ensures
        r@ == "keryx-storage"@,
{
    "keryx-storage"
}

} // verus!
