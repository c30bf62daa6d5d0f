//! The bridge's error taxonomy.

use vstd::prelude::*;

verus! {

/// Why a conversion failed.
///
/// Engine-level failures (a property read or an iterator step that the
/// interpreter itself refuses) can only arise where real interpreter objects
/// are walked, outside this library; they are propagated there unchanged and
/// never reach these converters.
#[derive(Clone, Copy, Debug, PartialEq, Eq, Structural)]
pub enum ConversionError {
    /// A scripting symbol, or a plain object carrying a non-null variant
    /// marker, was presented for inbound conversion.
    UnsupportedValueKind,
    /// An enum payload field had no name during outbound conversion.
    MissingMetadata,
}

impl ConversionError {
    /// A short human-readable description of the failure.
    pub fn describe(&self) -> (r: &'static str)
        ensures
            (*self is UnsupportedValueKind) ==> r@ == "unsupported value kind"@,
            (*self is MissingMetadata) ==> r@ == "missing field metadata"@,
    {
        match self {
            ConversionError::UnsupportedValueKind => "unsupported value kind",
            ConversionError::MissingMetadata => "missing field metadata",
        }
    }
}

} // verus!
