//! Model-provider logic: consumer web sessions, OpenAI-compatible APIs, the registry.

pub mod parse;
pub mod auth;
pub mod error;
pub mod openai_compatible;
pub mod registry;
pub mod consumer;
pub mod fake;
pub mod multi;

use vstd::prelude::*;

verus! {

/// Smoke check that the model adapters are loadable.
pub fn crate_name() -> (r: &'static str)
    ensures
        r@ == "keryx-model"@,
{
    "keryx-model"
}

} // verus!
