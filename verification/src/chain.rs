use vstd::prelude::*;
use crate::cbor::{cbor_encoding, CborModel};
use crate::encoding::base64url_bytes;
use crate::error::Error;
use crate::operation::{
    binary_did, cid_text, declared_keys_of, field, final_validation, genesis_validation,
    history_validation, is_valid, link_check, links_validation, names_class, operation_of,
    pair_validation, prev_of, rotation_keys_of, signature_check, signature_of,
    signature_verification, unsigned_of, Kind,
};
use crate::pubkey::{did_key, multibase_payload, verification, PublicKeyModel};

verus! {

/// Whether the key at `index` verifies the signature of `op` over the bytes
/// of its unsigned projection.
pub open spec fn signed_by(op: CborModel, keys: Seq<PublicKeyModel>, index: int) -> bool {
    &&& 0 <= index < keys.len()
    &&& signature_of(op) is Ok
    &&& verification(keys[index], cbor_encoding(unsigned_of(op)), signature_of(op)->Ok_0) is Ok
}

/// In a valid pair the successor's `prev` is the content identifier of the
/// predecessor.
pub proof fn lemma_pair_is_linked(prev_buf: Seq<u8>, cur_buf: Seq<u8>, index: int)
    requires
        pair_validation(prev_buf, cur_buf, index) is Ok,
    ensures
        operation_of(prev_buf) is Some,
        operation_of(cur_buf) is Some,
        prev_of(operation_of(cur_buf)->0) == Ok::<Option<Seq<char>>, Error>(
            Some(cid_text(cbor_encoding(operation_of(prev_buf)->0))),
        ),
{
}

/// In a valid pair the successor is signed by the rotation key that the
/// predecessor declares at the given index.
pub proof fn lemma_pair_is_signed(prev_buf: Seq<u8>, cur_buf: Seq<u8>, index: int)
    requires
        pair_validation(prev_buf, cur_buf, index) is Ok,
    ensures
        operation_of(prev_buf) is Some,
        operation_of(cur_buf) is Some,
        declared_keys_of(operation_of(prev_buf)->0) is Ok,
        signed_by(operation_of(cur_buf)->0, declared_keys_of(operation_of(prev_buf)->0)->Ok_0, index),
{
}

/// A valid genesis operation names no predecessor, is signed by the rotation
/// key that it declares itself at the given index, and hashes to the binary
/// identifier: the first 15 bytes of the digest of its encoding.
pub proof fn lemma_genesis_is_sound(buf: Seq<u8>, did: Seq<u8>, index: int)
    requires
        genesis_validation(buf, did, index) is Ok,
    ensures
        operation_of(buf) is Some,
        is_valid(operation_of(buf)->0),
        prev_of(operation_of(buf)->0) == Ok::<Option<Seq<char>>, Error>(None),
        declared_keys_of(operation_of(buf)->0) is Ok,
        signed_by(operation_of(buf)->0, declared_keys_of(operation_of(buf)->0)->Ok_0, index),
        binary_did(cbor_encoding(operation_of(buf)->0)) == did,
{
}

/// Links that are valid from some operation on are valid at each later one.
pub proof fn lemma_links_are_pairs(history: Seq<Seq<u8>>, indices: Seq<int>, from: int, i: int)
    requires
        1 <= from <= i < history.len(),
        links_validation(history, indices, from) is Ok,
    ensures
        pair_validation(history[i - 1], history[i], indices[i]) is Ok,
    decreases i - from,
{
    if from < i {
        lemma_links_are_pairs(history, indices, from + 1, i);
    }
}

/// A valid history has a valid genesis operation, each later operation makes
/// a valid pair with the one before it, and the final authorization verifies.
pub proof fn lemma_history_steps(
    did: Seq<u8>,
    history: Seq<Seq<u8>>,
    indices: Seq<int>,
    msg: Seq<u8>,
    final_sig: Seq<u8>,
)
    requires
        history_validation(did, history, indices, msg, final_sig) is Ok,
    ensures
        history.len() >= 1,
        indices.len() == history.len() + 1,
        genesis_validation(history[0], did, indices[0]) is Ok,
        forall|i: int|
            1 <= i < history.len() ==> (#[trigger] pair_validation(
                history[i - 1],
                history[i],
                indices[i],
            )) is Ok,
        final_validation(history.last(), final_sig, msg, indices[history.len() as int]) is Ok,
{
    assert forall|i: int| 1 <= i < history.len() implies (#[trigger] pair_validation(
        history[i - 1],
        history[i],
        indices[i],
    )) is Ok by {
        lemma_links_are_pairs(history, indices, 1, i);
    }
}

/// In a valid history each operation after the first names the content
/// identifier of the one before it.
pub proof fn lemma_history_is_linked(
    did: Seq<u8>,
    history: Seq<Seq<u8>>,
    indices: Seq<int>,
    msg: Seq<u8>,
    final_sig: Seq<u8>,
    i: int,
)
    requires
        history_validation(did, history, indices, msg, final_sig) is Ok,
        0 <= i,
        i + 1 < history.len(),
    ensures
        operation_of(history[i]) is Some,
        operation_of(history[i + 1]) is Some,
        prev_of(operation_of(history[i + 1])->0) == Ok::<Option<Seq<char>>, Error>(
            Some(cid_text(cbor_encoding(operation_of(history[i])->0))),
        ),
{
    lemma_history_steps(did, history, indices, msg, final_sig);
    assert(pair_validation(history[i + 1 - 1], history[i + 1], indices[i + 1]) is Ok);
    lemma_pair_is_linked(history[i], history[i + 1], indices[i + 1]);
}

/// In a valid history each operation is signed by the rotation key at its
/// index: the genesis operation by its own, each later one by that of the
/// operation before it.
pub proof fn lemma_history_is_signed(
    did: Seq<u8>,
    history: Seq<Seq<u8>>,
    indices: Seq<int>,
    msg: Seq<u8>,
    final_sig: Seq<u8>,
    i: int,
)
    requires
        history_validation(did, history, indices, msg, final_sig) is Ok,
        0 <= i < history.len(),
    ensures
        operation_of(history[i]) is Some,
        operation_of(history[if i == 0 { 0 } else { i - 1 }]) is Some,
        declared_keys_of(operation_of(history[if i == 0 { 0 } else { i - 1 }])->0) is Ok,
        signed_by(
            operation_of(history[i])->0,
            declared_keys_of(operation_of(history[if i == 0 { 0 } else { i - 1 }])->0)->Ok_0,
            indices[i],
        ),
{
    lemma_history_steps(did, history, indices, msg, final_sig);
    if i == 0 {
        lemma_genesis_is_sound(history[0], did, indices[0]);
    } else {
        assert(pair_validation(history[i - 1], history[i], indices[i]) is Ok);
        lemma_pair_is_signed(history[i - 1], history[i], indices[i]);
    }
}

/// In a valid history the binary identifier is the first 15 bytes of the
/// digest of the genesis operation's encoding.
pub proof fn lemma_history_derives_did(
    did: Seq<u8>,
    history: Seq<Seq<u8>>,
    indices: Seq<int>,
    msg: Seq<u8>,
    final_sig: Seq<u8>,
)
    requires
        history_validation(did, history, indices, msg, final_sig) is Ok,
    ensures
        history.len() >= 1,
        operation_of(history[0]) is Some,
        binary_did(cbor_encoding(operation_of(history[0])->0)) == did,
{
    lemma_history_steps(did, history, indices, msg, final_sig);
    lemma_genesis_is_sound(history[0], did, indices[0]);
}

/// In a valid history the final signature verifies over the message with the
/// rotation key that the last operation declares at the last index.
pub proof fn lemma_history_authorizes(
    did: Seq<u8>,
    history: Seq<Seq<u8>>,
    indices: Seq<int>,
    msg: Seq<u8>,
    final_sig: Seq<u8>,
)
    requires
        history_validation(did, history, indices, msg, final_sig) is Ok,
    ensures
        history.len() >= 1,
        operation_of(history.last()) is Some,
        rotation_keys_of(operation_of(history.last())->0) is Ok,
        0 <= indices[history.len() as int] < rotation_keys_of(
            operation_of(history.last())->0,
        )->Ok_0.len(),
        verification(
            rotation_keys_of(operation_of(history.last())->0)->Ok_0[indices[history.len() as int]],
            msg,
            final_sig,
        ) is Ok,
{
    lemma_history_steps(did, history, indices, msg, final_sig);
}

/// A key index that is not below the number of keys is rejected as such.
pub proof fn lemma_key_index_out_of_range(
    keys: Seq<PublicKeyModel>,
    index: int,
    msg: Seq<u8>,
    sig: Seq<u8>,
)
    requires
        index >= keys.len(),
    ensures
        signature_check(keys, index, msg, sig) == Err::<(), Error>(Error::InvalidKeyIndex),
{
}

/// A signature text that ends in `=` is rejected for its padding; one that is
/// not unpadded URL-safe base64 is rejected as malformed.
pub proof fn lemma_signature_text_rejections(op: CborModel, keys: Seq<PublicKeyModel>, index: int)
    requires
        field(op, "sig"@, Kind::Text) is Some,
    ensures
        ({
            let text = field(op, "sig"@, Kind::Text)->0->Text_0;
            &&& text.len() > 0 && text.last() == '=' ==> signature_verification(op, keys, index)
                == Err::<(), Error>(Error::InvalidSignaturePadding)
            &&& !(text.len() > 0 && text.last() == '=') && base64url_bytes(text) is None
                ==> signature_verification(op, keys, index) == Err::<(), Error>(
                Error::InvalidSignature,
            )
        }),
{
}

/// A successor whose `prev` is a text other than the predecessor's content
/// identifier is rejected with `InvalidPrev`, one whose `prev` is null with
/// `MissingPrevField`.
pub proof fn lemma_prev_rejections(cur: CborModel, cid: Seq<char>)
    ensures
        prev_of(cur) matches Ok(Some(prev)) && prev != cid ==> link_check(cur, cid) == Err::<
            (),
            Error,
        >(Error::InvalidPrev),
        prev_of(cur) == Ok::<Option<Seq<char>>, Error>(None) ==> link_check(cur, cid) == Err::<
            (),
            Error,
        >(Error::MissingPrevField),
{
}

/// An operation whose `type` names neither the legacy nor the canonical
/// class is not valid, so a pair or a genesis with it is rejected with
/// `InvalidOperation`.
pub proof fn lemma_unknown_type_rejected(buf: Seq<u8>, other: Seq<u8>, did: Seq<u8>, index: int)
    requires
        operation_of(buf) matches Some(op) && !names_class(op, "create"@) && !names_class(
            op,
            "plc_operation"@,
        ),
    ensures
        pair_validation(buf, other, index) == Err::<(), Error>(Error::InvalidOperation),
        pair_validation(other, buf, index) == Err::<(), Error>(Error::InvalidOperation),
        genesis_validation(buf, did, index) == Err::<(), Error>(Error::InvalidOperation),
{
}

/// A canonical operation without an array under `rotationKeys` declares no
/// keys: `RotationKeysDecodeError`.
pub proof fn lemma_rotation_keys_shape_rejected(op: CborModel)
    requires
        field(op, "rotationKeys"@, Kind::Array) is None,
    ensures
        rotation_keys_of(op) == Err::<Seq<PublicKeyModel>, Error>(Error::RotationKeysDecodeError),
{
}

/// A `did:key:` whose bytes carry another tag than those of the two curves,
/// or another length than tag and 33 bytes, names no key.
pub proof fn lemma_key_bytes_rejected(text: Seq<char>)
    requires
        "did:key:"@.is_prefix_of(text),
        multibase_payload(text.skip("did:key:"@.len() as int)) matches Some(raw) && (raw.len() != 35
            || !((raw[0] == 0xE7 && raw[1] == 0x01) || (raw[0] == 0x80 && raw[1] == 0x24))),
    ensures
        did_key(text) is None,
{
}

} // verus!
