//! The typed decode error shared by every load path.

use vstd::prelude::*;

verus! {

/// A typed image-loading error. Every decode path reports one of these and
/// never panics on malformed input.
#[derive(Debug, Clone, PartialEq, Eq)]
pub enum LoadError {
    /// Reading the input failed.
    Io(String),
    /// The format could not be detected, or is not one this build decodes.
    UnsupportedFormat,
    /// The decoder rejected the input (corrupt, truncated, unsupported feature).
    Decode(String),
    /// The input declares dimensions or an allocation over the decode caps.
    LimitsExceeded(String),
    /// The format is recognized but its codec is not compiled into this build.
    CodecNotBuilt { codec: &'static str, feature: &'static str },
    /// The format is recognized but its codec is unavailable on this target.
    CodecUnavailableOnTarget { codec: &'static str },
}

impl LoadError {
    /// Whether this is a [`LoadError::LimitsExceeded`].
    pub fn is_limits_exceeded(&self) -> (b: bool)
        ensures
            b == (*self is LimitsExceeded),
    {
        match self {
            LoadError::LimitsExceeded(_) => true,
            _ => false,
        }
    }

    /// Whether this is a [`LoadError::Decode`].
    pub fn is_decode(&self) -> (b: bool)
        ensures
            b == (*self is Decode),
    {
        match self {
            LoadError::Decode(_) => true,
            _ => false,
        }
    }
}

} // verus!
