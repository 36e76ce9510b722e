use vstd::prelude::*;
use crate::key::{Request, ResourceCategory, ResourceKey};
use crate::payload::DataTypeId;

verus! {

/// A data source that was asked for but never configured.
#[derive(Clone, Copy, Debug)]
pub struct MissingSourceError {
    pub src: &'static str,
}

/// Why a backing transform could not be built from its source.
#[derive(Debug)]
pub enum SourceError {
    /// The JSON text could not be parsed.
    Json(serde_json::Error),
    /// The JSON parsed, but not into the expected shape; names what was expected.
    Schema(&'static str),
    /// A locale name in the data is not a valid language identifier.
    InvalidLocale(String),
    /// The named source was never configured.
    MissingSource(MissingSourceError),
}

/// Everything that a load can fail with.
#[derive(Debug)]
pub enum DataError {
    /// The provider does not know the key's category.
    UnsupportedCategory(ResourceCategory),
    /// The category is known but not in this version.
    UnsupportedVersion(ResourceKey),
    /// Category and version are known but the sub-category is not.
    UnsupportedSubCategory(ResourceKey),
    /// No provider recognizes the key.
    UnsupportedDataKey(ResourceKey),
    /// The key is supported but there is no data for the requested locale.
    UnavailableEntry(Request),
    /// A payload was asked for as a type other than the one it holds.
    MismatchedType { actual: DataTypeId, generic: DataTypeId },
    /// A response carries no payload.
    MissingPayload,
    /// Building the backing transform failed.
    ResourceError(SourceError),
    /// The lock round a cache was left unusable by a panic during construction.
    SynchronizationFailure,
}

impl DataError {
    /// Is this one of the errors by which a provider says that it does not handle a key?
    pub open spec fn is_unsupported_key(self) -> bool {
        self is UnsupportedCategory || self is UnsupportedVersion
            || self is UnsupportedSubCategory || self is UnsupportedDataKey
    }
}

} // verus!
