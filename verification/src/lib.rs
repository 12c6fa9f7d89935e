//! Keryx agent Worker core: verified model-provider, storage and tool logic.

pub mod domain;
pub mod json;
pub mod model;
pub mod storage;
pub mod text;
pub mod tools;
pub mod worker;

use vstd::prelude::*;

verus! {

} // verus!
