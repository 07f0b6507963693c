//! crustyimg — image transforms, container metadata editing and an asset linter.

pub mod strings;
pub mod text;
pub mod error;
pub mod image;
pub mod lint;
pub mod metadata;
pub mod operation;
pub mod paths;
pub mod quality;
pub mod recipe;
pub mod sink;
pub mod source;

use vstd::prelude::*;

verus! {

/// The crate's semantic version.
pub fn version() -> (v: &'static str)
    ensures
        v@ == "0.4.0"@,
{
    "0.4.0"
}

} // verus!
