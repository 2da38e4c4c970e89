//! What stops the generation of a policy. No policy is written once one of
//! these has come up.

use vstd::prelude::*;

verus! {

/// A failure, with the name of what caused it.
#[derive(Debug, PartialEq, Eq)]
pub enum PolicyError {
    /// The infrastructure data is missing or cannot be used.
    Configuration(String),
    /// The document is of a kind that has no handler; holds the kind.
    UnsupportedResourceKind(String),
    /// The volume is of no kind that the policy knows; holds the volume's
    /// name.
    UnsupportedVolumeKind(String),
    /// An image could not be resolved, or its metadata cannot be used;
    /// holds the offending text.
    ImageResolution(String),
    /// A field has a value that cannot be used, or a known kind has a field
    /// that is not recognised; holds the field's path or value.
    MalformedField(String),
    /// A segment of a metadata path does not resolve in the document; holds
    /// the segment.
    AnnotationPath(String),
    /// A list was handed a number of policies other than the number of its
    /// items.
    PolicyCount { expected: usize, found: usize },
}

} // verus!
