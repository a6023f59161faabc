use vstd::prelude::*;

verus! {

/// Every failure that an operation of the corpus store can report.
#[derive(Debug, Clone, PartialEq, Eq)]
pub enum CorpusError {
    /// The backing store failed.
    BackingStorageError(String),
    /// An externally supplied setting is invalid.
    ConfigurationError(String),
    /// Bytes read back are not a valid encoding.
    DecodingError(String),
    /// A value could not be encoded.
    EncodingError(String),
    /// A page exists but holds no entity with the given (page key, in-page key).
    EntityNotFoundError(u64, u64),
    /// A lock could not be taken.
    LockError(String),
    /// A per-kind identifier counter is at its maximum.
    IdOverflowError(String),
    /// A value does not have the expected shape.
    InvalidDataError(String),
    /// A kind discriminant is not one of the known entity kinds.
    InvalidEntityTypeError,
    /// The backing store holds no page under the given key.
    PageNotFoundError(u64),
    /// A string span lies outside the string blob: (start, end).
    StringNotFoundError(u64, u64),
    /// The bytes of a string span are not UTF-8: (start, end).
    InvalidStringError(usize, usize),
}

pub type CorpusResult<T> = Result<T, CorpusError>;

} // verus!
