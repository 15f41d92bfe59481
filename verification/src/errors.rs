//! The typed failures of the strict construction paths. The lenient
//! pair-merge path never raises any of these.

use vstd::prelude::*;

verus! {

/// Failure of the strict single-name engine parser: the name is neither a
/// canonical engine name nor a known alias.
#[derive(Clone, Copy, PartialEq, Eq, Structural, Debug)]
pub struct AliasParseError;

/// Failure propagated from the external query resolver when a target query
/// string cannot be resolved.
#[derive(Clone, Debug)]
pub struct QueryResolutionError {
    pub message: String,
}

/// Failure of the strict structured-config conversion.
#[derive(Clone, Copy, PartialEq, Eq, Structural, Debug)]
pub enum ConfigConversionError {
    /// A key of the config map is not a recognized engine name.
    UnknownEngine,
    /// A value of the config map cannot be parsed as a version.
    InvalidVersion,
}

} // verus!
