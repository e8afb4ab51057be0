//! Validation of DID PLC operation histories: decoding of operations,
//! `did:key:` public keys and their signatures, content identifiers, and the
//! chain from a genesis operation to the signature that authorizes a
//! message.

use vstd::prelude::*;

pub mod cbor;
pub mod chain;
pub mod encoding;
pub mod error;
pub mod history;
pub mod operation;
pub mod pubkey;
pub mod reader;
pub mod text;
