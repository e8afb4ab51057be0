use vstd::prelude::*;
use crate::cbor::{decode, decoded};
use crate::error::Error;

verus! {

/// Checks that the bytes begin with a CBOR data item that this library can
/// hold.
pub fn validate_cbor_format(buf: &[u8]) -> (r: Result<(), Error>)
    ensures
        r is Ok <==> decoded(buf@) is Some,
        r matches Err(e) ==> e == Error::InvalidCbor,
{
    match decode(buf) {
        Ok(_) => Ok(()),
        Err(e) => Err(e),
    }
}

} // verus!
