use vstd::prelude::*;

verus! {

/// What the outer framing layer reports when it cannot deliver a field.
#[derive(Debug, Clone, Copy, PartialEq, Eq, Structural)]
pub enum MoleculeError {
    Common,
    TotalSize(usize, usize),
    Header(usize, usize),
    Offset,
    UnknownItem,
    OutOfBound(usize, usize),
    FieldCount(usize),
    Data,
    Overflow,
    Read(usize, usize),
    Verify,
    Unknown,
}

/// Why a validation call was rejected.
#[derive(Debug, Clone, Copy, PartialEq, Eq, Structural)]
pub enum Error {
    /// The operation is not a map with text keys, misses a required field, or
    /// holds a field of the wrong kind.
    InvalidOperation,
    /// The bytes are not a CBOR data item that this library can hold.
    InvalidCbor,
    /// The identifier is not `did:plc:` followed by unpadded lower-case base32.
    InvalidDidFormat,
    /// The history is empty or does not come with one key index per step.
    InvalidHistory,
    /// A successor operation has a null `prev`.
    MissingPrevField,
    /// An operation offered as genesis names a predecessor.
    NotGenesisOperation,
    /// `rotationKeys` is absent or not an array.
    RotationKeysDecodeError,
    /// A `did:key:` string does not hold a supported public key.
    InvalidKey,
    /// The key index is not below the number of rotation keys.
    InvalidKeyIndex,
    /// The signature text or the signature bytes are malformed.
    InvalidSignature,
    /// The signature text ends in `=`.
    InvalidSignaturePadding,
    /// The signature is well formed and does not verify.
    VerifySignatureFailed,
    /// `prev` is not the content identifier of the predecessor.
    InvalidPrev,
    /// The genesis operation does not hash to the expected identifier.
    DidMismatched,
    /// The transport could not deliver the bytes.
    ReaderError,
    /// An error of the outer framing, carried through unchanged.
    MoleculeError(MoleculeError),
}

impl From<MoleculeError> for Error {
    fn from(value: MoleculeError) -> (r: Self) {
        Error::MoleculeError(value)
    }
}

impl vstd::std_specs::convert::FromSpecImpl<MoleculeError> for Error {
    open spec fn obeys_from_spec() -> bool {
        true
    }

    open spec fn from_spec(value: MoleculeError) -> Self {
        Error::MoleculeError(value)
    }
}

} // verus!
