//! Book-scoped failures of the extraction pipeline.

use vstd::prelude::*;

verus! {

/// Everything that can go wrong while classifying one book.
///
/// Every variant is scoped to a single catalog entry: the batch goes on with
/// the next pending book whatever the failure was.
#[derive(Clone, Copy, Debug, PartialEq, Eq, Structural)]
pub enum PipelineError {
    /// The container descriptor is missing, unparseable, has no `rootfile`
    /// element, or its first `rootfile` element lacks a `full-path` attribute.
    MalformedContainer,
    /// The package document named by the container descriptor could not be
    /// read or parsed.
    MissingPackageDocument,
    /// The declared layout token is neither `reflowable` nor `pre-paginated`.
    InvalidLayoutDeclaration,
    /// A spine `itemref` lacks an `idref` or names no manifest entry.
    UnresolvableReference,
    /// A file of the extracted archive tree could not be read or parsed.
    ExtractionIOError,
    /// Downloading the source archive or uploading an extracted asset failed.
    RemoteStoreError,
    /// The terminal catalog write failed.
    PersistenceError,
}

impl PipelineError {
    /// A short operator-facing description of the failure.
    pub fn message(&self) -> (r: &'static str)
        ensures
            r@ == match *self {
                PipelineError::MalformedContainer => "malformed container descriptor"@,
                PipelineError::MissingPackageDocument => "package document missing or unparseable"@,
                PipelineError::InvalidLayoutDeclaration => "invalid rendition:layout declaration"@,
                PipelineError::UnresolvableReference => "unresolvable manifest reference"@,
                PipelineError::ExtractionIOError => "extracted content missing or unparseable"@,
                PipelineError::RemoteStoreError => "object store transfer failed"@,
                PipelineError::PersistenceError => "catalog write failed"@,
            },
    {
        match *self {
            PipelineError::MalformedContainer => "malformed container descriptor",
            PipelineError::MissingPackageDocument => "package document missing or unparseable",
            PipelineError::InvalidLayoutDeclaration => "invalid rendition:layout declaration",
            PipelineError::UnresolvableReference => "unresolvable manifest reference",
            PipelineError::ExtractionIOError => "extracted content missing or unparseable",
            PipelineError::RemoteStoreError => "object store transfer failed",
            PipelineError::PersistenceError => "catalog write failed",
        }
    }
}

} // verus!
