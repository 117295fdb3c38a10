//! Data model and storage contract for named, versionable prompt and
//! partial resources: the polymorphic message-content model with its wire
//! codec, composite resource identity with content-hash versioning, and a
//! store contract with opaque-cursor pagination.

use vstd::prelude::*;

pub mod codec;
pub mod json;
pub mod memory;
pub mod part;
pub mod refs;
pub mod store;
pub mod text;
pub mod types;
pub mod version;

verus! {

/// Adds two numbers.
pub fn add(left: u64, right: u64) -> (r: u64)
    requires
        left + right <= u64::MAX,
    ensures
        r == left + right,
{
    left + right
}

} // verus!
