use base32::Alphabet;
use base64::engine::{general_purpose::URL_SAFE_NO_PAD, Engine};
use ckb_did_plc_utils::cbor::{decode, encode, CborValue};
use ckb_did_plc_utils::error::Error;
use ckb_did_plc_utils::history::{HistoryStep, HistoryValidation};
use ckb_did_plc_utils::operation::{
    cid_of, parse_local_id, validate_2_operations, validate_final_operation,
    validate_genesis_operation, validate_operation_history, Operation,
};
use ckb_did_plc_utils::pubkey::{decode_base58btc, Curve};
use ckb_did_plc_utils::reader::validate_cbor_format;
use k256::ecdsa::signature::Signer;
use sha2::{Digest, Sha256};

type RawValue = cbor4ii::core::Value;

fn decode_raw(buf: &[u8]) -> RawValue {
    let mut reader = cbor4ii::core::utils::SliceReader::new(buf);
    <RawValue as cbor4ii::core::dec::Decode>::decode(&mut reader).unwrap()
}

fn encode_raw(value: &RawValue) -> Vec<u8> {
    let mut writer = cbor4ii::core::utils::BufWriter::new(Vec::new());
    cbor4ii::core::enc::Encode::encode(value, &mut writer).unwrap();
    writer.into_inner()
}

enum TestKey {
    K256(k256::ecdsa::SigningKey),
    P256(p256::ecdsa::SigningKey),
}

impl TestKey {
    fn k256(seed: u8) -> TestKey {
        TestKey::K256(k256::ecdsa::SigningKey::from_slice(&[seed; 32]).unwrap())
    }

    fn p256(seed: u8) -> TestKey {
        TestKey::P256(p256::ecdsa::SigningKey::from_slice(&[seed; 32]).unwrap())
    }

    fn tagged_point(&self) -> Vec<u8> {
        match self {
            TestKey::K256(key) => {
                let mut raw = vec![0xE7, 0x01];
                raw.extend_from_slice(key.verifying_key().to_encoded_point(true).as_bytes());
                raw
            }
            TestKey::P256(key) => {
                let mut raw = vec![0x80, 0x24];
                raw.extend_from_slice(key.verifying_key().to_encoded_point(true).as_bytes());
                raw
            }
        }
    }

    fn did_key(&self) -> String {
        did_key_from_bytes(&self.tagged_point())
    }

    fn sign(&self, msg: &[u8]) -> Vec<u8> {
        match self {
            TestKey::K256(key) => {
                let sig: k256::ecdsa::Signature = key.sign(msg);
                sig.to_bytes().to_vec()
            }
            TestKey::P256(key) => {
                let sig: p256::ecdsa::Signature = key.sign(msg);
                sig.to_bytes().to_vec()
            }
        }
    }
}

fn did_key_from_bytes(bytes: &[u8]) -> String {
    let encoded = multibase::encode(multibase::Base::Base58Btc, bytes);
    format!("did:key:{}", encoded)
}

fn text(s: &str) -> CborValue {
    CborValue::Text(s.to_string())
}

fn entry(key: &str, value: CborValue) -> (CborValue, CborValue) {
    (text(key), value)
}

fn encode_value(value: &CborValue) -> Vec<u8> {
    encode(value).expect("encode")
}

// Signs the entries and puts `sig` in front, where the canonical order has it.
fn sign_entries(entries: Vec<(CborValue, CborValue)>, key: &TestKey) -> Vec<u8> {
    let unsigned = CborValue::Mapping(entries);
    let sig = key.sign(&encode_value(&unsigned));
    let mut signed = vec![entry("sig", text(&URL_SAFE_NO_PAD.encode(sig)))];
    if let CborValue::Mapping(entries) = unsigned {
        signed.extend(entries);
    }
    encode_value(&CborValue::Mapping(signed))
}

fn prev_value(prev: Option<&[u8]>) -> CborValue {
    match prev {
        Some(buf) => text(&cid_of(buf)),
        None => CborValue::Null,
    }
}

fn canonical_entries(
    prev: Option<&[u8]>,
    handle: &str,
    pds: &str,
    atproto_key: &TestKey,
    rotation_keys: &[&TestKey],
) -> Vec<(CborValue, CborValue)> {
    vec![
        entry("prev", prev_value(prev)),
        entry("type", text("plc_operation")),
        entry(
            "services",
            CborValue::Mapping(vec![entry(
                "atproto_pds",
                CborValue::Mapping(vec![
                    entry("type", text("AtprotoPersonalDataServer")),
                    entry("endpoint", text(pds)),
                ]),
            )]),
        ),
        entry("alsoKnownAs", CborValue::Array(vec![text(handle)])),
        entry(
            "rotationKeys",
            CborValue::Array(rotation_keys.iter().map(|k| text(&k.did_key())).collect()),
        ),
        entry(
            "verificationMethods",
            CborValue::Mapping(vec![entry("atproto", text(&atproto_key.did_key()))]),
        ),
    ]
}

fn legacy_entries(signing: &TestKey, recovery: &TestKey) -> Vec<(CborValue, CborValue)> {
    vec![
        entry("prev", CborValue::Null),
        entry("type", text("create")),
        entry("handle", text("alice.test")),
        entry("service", text("https://pds.example.com")),
        entry("signingKey", text(&signing.did_key())),
        entry("recoveryKey", text(&recovery.did_key())),
    ]
}

// The operations of one identity, under the names of the steps that made them.
fn get_test_vector(filename: &str) -> Vec<u8> {
    let k1 = TestKey::k256(1);
    let k2 = TestKey::p256(2);
    let k3 = TestKey::k256(3);
    let k4 = TestKey::p256(4);
    let a1 = TestKey::k256(5);
    let a2 = TestKey::k256(6);
    let op1 = sign_entries(
        canonical_entries(None, "at://alice.test", "https://pds.example.com", &a1, &[&k1, &k2]),
        &k1,
    );
    if filename == "1-did-creation.cbor" {
        return op1;
    }
    let op2 = sign_entries(
        canonical_entries(Some(&op1), "at://ali.test", "https://pds.example.com", &a1, &[&k1, &k2]),
        &k1,
    );
    if filename == "2-update-handle.cbor" {
        return op2;
    }
    let op3 = sign_entries(
        canonical_entries(Some(&op2), "at://ali.test", "https://pds2.example.com", &a1, &[&k1, &k2]),
        &k1,
    );
    if filename == "3-update-pds.cbor" {
        return op3;
    }
    let op4 = sign_entries(
        canonical_entries(Some(&op3), "at://ali.test", "https://pds2.example.com", &a2, &[&k1, &k2]),
        &k1,
    );
    if filename == "4-update-atproto-key.cbor" {
        return op4;
    }
    let op5 = sign_entries(
        canonical_entries(Some(&op4), "at://ali.test", "https://pds2.example.com", &a2, &[&k3, &k4]),
        &k1,
    );
    if filename == "5-update-rotation-keys.cbor" {
        return op5;
    }
    let op6 = sign_entries(
        canonical_entries(Some(&op5), "at://bob.test", "https://pds2.example.com", &a2, &[&k3, &k4]),
        &k4,
    );
    if filename == "6-update-handle.cbor" {
        return op6;
    }
    if filename == "7-tombstone.cbor" {
        return sign_entries(
            vec![entry("prev", prev_value(Some(&op6))), entry("type", text("plc_tombstone"))],
            &k3,
        );
    }
    let legacy1 = sign_entries(legacy_entries(&k1, &k2), &k1);
    if filename == "1-did-creation-legacy.cbor" {
        return legacy1;
    }
    if filename == "2-update-rotation-keys-legacy.cbor" {
        return sign_entries(
            canonical_entries(
                Some(&legacy1),
                "at://alice.test",
                "https://pds.example.com",
                &a1,
                &[&k3, &k4],
            ),
            &k2,
        );
    }
    panic!("Failed to read {}", filename)
}

fn load_did(name: &str) -> String {
    let genesis = if name == "creation" {
        get_test_vector("1-did-creation.cbor")
    } else {
        get_test_vector("1-did-creation-legacy.cbor")
    };
    let hashed = Sha256::digest(&genesis);
    let b32 = base32::encode(Alphabet::Rfc4648Lower { padding: false }, &hashed);
    format!("did:plc:{}", &b32[..24])
}

fn parse_did(did: &str) -> Vec<u8> {
    let b32 = did.split("did:plc:").nth(1).unwrap();
    base32::decode(Alphabet::Rfc4648Lower { padding: false }, b32).unwrap()
}

fn test_one_vector(prev_file: &str, cur_file: &str, rotation_key_index: usize) {
    let prev_buf = get_test_vector(prev_file);
    let cur_buf = get_test_vector(cur_file);
    let result = validate_2_operations(&prev_buf, &cur_buf, rotation_key_index);
    assert!(result.is_ok());
}

#[test]
fn test_vectors_1_2() {
    test_one_vector("1-did-creation.cbor", "2-update-handle.cbor", 0);
}

#[test]
fn test_vectors_2_3() {
    test_one_vector("2-update-handle.cbor", "3-update-pds.cbor", 0);
}

#[test]
fn test_vectors_3_4() {
    test_one_vector("3-update-pds.cbor", "4-update-atproto-key.cbor", 0);
}

#[test]
fn test_vectors_4_5() {
    test_one_vector(
        "4-update-atproto-key.cbor",
        "5-update-rotation-keys.cbor",
        0,
    );
}

#[test]
fn test_vectors_5_6() {
    test_one_vector("5-update-rotation-keys.cbor", "6-update-handle.cbor", 1);
}

#[test]
fn test_vectors_6_7() {
    // tombstone is not allowed
    let prev_buf = get_test_vector("6-update-handle.cbor");
    let cur_buf = get_test_vector("7-tombstone.cbor");
    let result = validate_2_operations(&prev_buf, &cur_buf, 0);
    assert!(result.is_err());
    assert!(matches!(result, Err(Error::InvalidOperation)));
}

#[test]
fn test_vector_legacy_1_2() {
    test_one_vector(
        "1-did-creation-legacy.cbor",
        "2-update-rotation-keys-legacy.cbor",
        1,
    );
}

#[test]
fn test_genesis_operation() {
    let genesis_buf = get_test_vector("1-did-creation.cbor");
    let did = load_did("creation");
    let result = validate_genesis_operation(&genesis_buf, &parse_did(&did), 0);
    assert!(result.is_ok());
}

#[test]
fn test_genesis_operation_wrong_did() {
    let genesis_buf = get_test_vector("1-did-creation.cbor");
    let result = validate_genesis_operation(&genesis_buf, &vec![0; 15], 0);
    assert!(matches!(result, Err(Error::DidMismatched)));
}

#[test]
fn test_legacy_genesis_operation() {
    let genesis_buf = get_test_vector("1-did-creation-legacy.cbor");
    let did = load_did("creation-legacy");
    let result = validate_genesis_operation(&genesis_buf, &parse_did(&did), 0);
    assert!(result.is_ok());
}

fn remove_operation_services(buf: &[u8]) -> Vec<u8> {
    let raw = decode_raw(buf);
    let update_raw = match raw {
        RawValue::Map(map) => {
            let new_map = map
                .into_iter()
                .map(|(key, value)| {
                    if key == RawValue::Text("services".to_string()) {
                        (key, RawValue::Map(vec![]))
                    } else {
                        (key, value)
                    }
                })
                .collect();
            RawValue::Map(new_map)
        }
        _ => raw,
    };
    encode_raw(&update_raw)
}

fn remove_operation_type(buf: &[u8]) -> Vec<u8> {
    let raw = decode_raw(buf);
    let update_raw = match raw {
        RawValue::Map(map) => {
            let new_map = map
                .into_iter()
                .map(|(key, value)| {
                    if key == RawValue::Text("type".to_string()) {
                        // remove the type field
                        (key, RawValue::Null)
                    } else {
                        (key, value)
                    }
                })
                .collect();
            RawValue::Map(new_map)
        }
        _ => raw,
    };
    encode_raw(&update_raw)
}

fn modify_operation_sig(buf: &[u8]) -> Vec<u8> {
    let raw = decode_raw(buf);
    let update_raw = match raw {
        RawValue::Map(map) => {
            let new_map = map
                .into_iter()
                .map(|(key, value)| {
                    if key == RawValue::Text("sig".to_string()) {
                        match value {
                            RawValue::Text(sig) => {
                                let engine = URL_SAFE_NO_PAD;
                                let sig = engine.decode(sig).unwrap();
                                let mut sig = sig.clone();
                                sig[0] ^= 1;
                                let sig = engine.encode(sig);
                                (key, RawValue::Text(sig))
                            }
                            _ => (key, value),
                        }
                    } else {
                        (key, value)
                    }
                })
                .collect();
            RawValue::Map(new_map)
        }
        _ => raw,
    };
    encode_raw(&update_raw)
}

#[test]
fn test_vectors_1_2_wrong_sig() {
    let prev_buf = get_test_vector("1-did-creation.cbor");
    let cur_buf = get_test_vector("2-update-handle.cbor");

    let cur_buf = modify_operation_sig(&cur_buf);

    let result = validate_2_operations(&prev_buf, &cur_buf, 0);
    assert!(result.is_err());
    assert!(matches!(result, Err(Error::VerifySignatureFailed)));
}

#[test]
fn test_vectors_1_2_wrong_cid() {
    let prev_buf = get_test_vector("1-did-creation.cbor");
    let cur_buf = get_test_vector("2-update-handle.cbor");

    // update previous operation's signature(part of content) to make CID changed
    let prev_buf = modify_operation_sig(&prev_buf);

    let result = validate_2_operations(&prev_buf, &cur_buf, 0);
    assert!(matches!(result, Err(Error::InvalidPrev)));
}

#[test]
fn test_vector_1_2_wrong_operation_type() {
    let prev_buf = get_test_vector("1-did-creation.cbor");
    let cur_buf = get_test_vector("2-update-handle.cbor");

    let prev_buf = remove_operation_type(&prev_buf);

    let result = validate_2_operations(&prev_buf, &cur_buf, 0);
    assert!(matches!(result, Err(Error::InvalidOperation)));
}

#[test]
fn test_vector_1_2_wrong_operation_content() {
    let prev_buf = get_test_vector("1-did-creation.cbor");
    let cur_buf = get_test_vector("2-update-handle.cbor");

    // remove operation service to make content changed, it causes the signature validation failed.
    let cur_buf = remove_operation_services(&cur_buf);

    let result = validate_2_operations(&prev_buf, &cur_buf, 0);
    assert!(matches!(result, Err(Error::VerifySignatureFailed)));
}

#[test]
fn test_not_genesis_operation() {
    // Only true genesis operations (with prev as null) can pass validation
    let buf = get_test_vector("2-update-handle.cbor"); // This is an update operation with prev
    let binary_did = vec![0u8; 15]; // Arbitrary DID, should match in practice
    let result = validate_genesis_operation(&buf, &binary_did, 0);
    assert!(matches!(result, Err(Error::NotGenesisOperation)));
}

#[test]
fn test_utils_error_invalid_history() {
    // Step 1: Create empty history to trigger InvalidHistory
    let binary_did = vec![0u8; 15];
    let history: Vec<Vec<u8>> = vec![];
    let rotation_key_indices: Vec<usize> = vec![];
    let msg = vec![];
    let final_sig = vec![];

    let result =
        validate_operation_history(&binary_did, history, rotation_key_indices, &msg, &final_sig);

    // Step 2: Verify returns UtilsError::InvalidHistory
    assert!(matches!(result, Err(Error::InvalidHistory)));

    // Additional test: History length does not match indices
    let history = vec![vec![]];
    let rotation_key_indices = vec![0]; // Length should be history.len() + 1 = 2
    let result2 =
        validate_operation_history(&binary_did, history, rotation_key_indices, &msg, &final_sig);
    assert!(matches!(result2, Err(Error::InvalidHistory)));
}

#[test]
fn test_utils_error_invalid_cbor() {
    // Invalid CBOR: Expects an array of 2 elements but has no content
    let invalid_cbor_data: Vec<u8> = vec![0x82];

    let result = validate_cbor_format(&invalid_cbor_data);

    assert!(matches!(result, Err(Error::InvalidCbor)));
}

#[test]
fn test_utils_error_invalid_did_format() {
    // Test invalid prefix
    let invalid_did = b"did:invalid:abc123";
    let result = parse_local_id(invalid_did);
    assert!(matches!(result, Err(Error::InvalidDidFormat)));

    // Test invalid base32 encoding
    let invalid_base32 = b"did:plc:invalid_base32";
    let result2 = parse_local_id(invalid_base32);
    assert!(matches!(result2, Err(Error::InvalidDidFormat)));
}

#[test]
fn test_utils_error_tombstone_in_history() {
    let did = load_did("creation");
    let binary_did = parse_did(&did);

    let files = vec![
        "1-did-creation.cbor",
        "2-update-handle.cbor",
        "3-update-pds.cbor",
        "4-update-atproto-key.cbor",
        "5-update-rotation-keys.cbor",
        "6-update-handle.cbor",
        "7-tombstone.cbor",
    ];

    let mut history: Vec<Vec<u8>> = vec![];
    for file in files {
        history.push(get_test_vector(file));
    }
    let rotation_key_indices: Vec<usize> = vec![0, 0, 0, 0, 0, 1, 0, 0];
    let msg = vec![0u8; 32];
    let final_sig = vec![0u8; 65];

    let result =
        validate_operation_history(&binary_did, history, rotation_key_indices, &msg, &final_sig);

    assert!(result.is_err());
    assert!(matches!(result, Err(Error::InvalidOperation)));
}

pub fn set_rotation_keys_to_string(buf: &[u8]) -> Vec<u8> {
    let raw = decode_raw(buf);

    // rotationKeys: Array(...)  ->  "not-an-array"
    let updated = match raw {
        RawValue::Map(map) => {
            let new_map = map
                .into_iter()
                .map(|(key, value)| {
                    if key == RawValue::Text("rotationKeys".to_string()) {
                        (key, RawValue::Text("not-an-array".to_string()))
                    } else {
                        (key, value)
                    }
                })
                .collect();
            RawValue::Map(new_map)
        }
        _ => raw,
    };

    encode_raw(&updated)
}

pub fn set_prev_field(buf: &[u8], new_prev: &str) -> Vec<u8> {
    let raw = decode_raw(buf);

    // prev: <old>  ->  prev: <new_prev>
    let updated = match raw {
        RawValue::Map(map) => {
            let new_map = map
                .into_iter()
                .map(|(key, value)| {
                    if key == RawValue::Text("prev".to_string()) {
                        (key, RawValue::Text(new_prev.to_string()))
                    } else {
                        (key, value)
                    }
                })
                .collect();
            RawValue::Map(new_map)
        }
        _ => raw,
    };

    encode_raw(&updated)
}

pub fn replace_first_rotation_key(buf: &[u8], new_key: &str) -> Vec<u8> {
    let raw = decode_raw(buf);

    let updated = match raw {
        RawValue::Map(map) => {
            let new_map = map
                .into_iter()
                .map(|(k, v)| {
                    if k == RawValue::Text("rotationKeys".to_string()) {
                        if let RawValue::Array(mut arr) = v {
                            if !arr.is_empty() {
                                arr[0] = RawValue::Text(new_key.to_string());
                            }
                            (k, RawValue::Array(arr))
                        } else {
                            (k, v)
                        }
                    } else {
                        (k, v)
                    }
                })
                .collect();
            RawValue::Map(new_map)
        }
        _ => raw,
    };

    encode_raw(&updated)
}

#[test]
fn test_rotation_keys_decode_error() {
    let prev = get_test_vector("1-did-creation.cbor");
    let cur = get_test_vector("2-update-handle.cbor");

    let prev_bad = set_rotation_keys_to_string(&prev);
    let new_cid = {
        let op = Operation::from_slice(&prev_bad).expect("decode prev_bad");
        op.generate_cid().expect("cid")
    };
    let cur_patched = set_prev_field(&cur, &new_cid);
    let res = validate_2_operations(&prev_bad, &cur_patched, 0);
    assert!(matches!(res, Err(Error::RotationKeysDecodeError)));
}

fn run_invalid_key_case(label: &str, cur: &[u8], prev_bad: Vec<u8>) {
    // Recompute CID for modified prev
    let new_cid = Operation::from_slice(&prev_bad)
        .unwrap()
        .generate_cid()
        .unwrap();
    // Patch cur.prev to pass the chain check
    let cur_patched = set_prev_field(cur, &new_cid);
    // Now the pipeline can reach key parsing / verification parts
    let res = validate_2_operations(&prev_bad, &cur_patched, 0);
    println!("[{label}] expect InvalidKey -> got: {res:?}");
    assert!(matches!(res, Err(Error::InvalidKey)));
}

#[test]
fn test_invalid_key() {
    let prev = get_test_vector("1-did-creation.cbor");
    let cur = get_test_vector("2-update-handle.cbor");

    {
        let prev_bad = set_rotation_keys_to_string(&prev);
        let res = validate_2_operations(&prev_bad, &cur, 0);
        println!("[case0] expect InvalidPrev -> got: {res:?}");
        assert!(matches!(res, Err(Error::InvalidPrev)));
    }

    {
        let bad_key = "did:key:ffooo"; // bad multibase prefix
        let prev_bad = replace_first_rotation_key(&prev, bad_key);
        run_invalid_key_case("case1_not_base58btc_prefix", &cur, prev_bad);
    }

    {
        let bad_key = "did:pkh:zabc"; // wrong DID method
        let prev_bad = replace_first_rotation_key(&prev, bad_key);
        run_invalid_key_case("case2_not_did_key_prefix", &cur, prev_bad);
    }

    {
        let mut raw = vec![0x00, 0x00]; // invalid multicodec tag
        raw.extend(std::iter::repeat(0x42).take(33)); // 33 bytes payload just to pass len check
        let bad_key = did_key_from_bytes(&raw);
        let prev_bad = replace_first_rotation_key(&prev, &bad_key);
        run_invalid_key_case("case3_wrong_multicodec_tag", &cur, prev_bad);
    }

    {
        let mut raw = vec![0xE7, 0x01]; // secp256k1 tag
        raw.extend([0x03; 32]); // only 32 bytes, should be 33
        let bad_key = did_key_from_bytes(&raw);
        let prev_bad = replace_first_rotation_key(&prev, &bad_key);
        run_invalid_key_case("case4_wrong_length", &cur, prev_bad);
    }

    {
        // Case6: Valid key round-trip via did_key_from_bytes (control case)
        // 1) extract original did:key
        let root = decode_raw(&prev);
        let mut orig_key = String::new();
        if let RawValue::Map(map) = root {
            for (k, v) in map {
                if k == RawValue::Text("rotationKeys".to_string()) {
                    if let RawValue::Array(arr) = v {
                        if let RawValue::Text(s) = &arr[0] {
                            orig_key = s.clone();
                        }
                    }
                }
            }
        }
        assert!(
            orig_key.starts_with("did:key:"),
            "[case6_valid_key] invalid format"
        );

        // 2) decode base58btc correctly (NO extra 'z')
        let zpart = &orig_key[8..]; // "z...."
        let raw_bytes = decode_base58btc(zpart).expect("decode_base58btc");

        assert_eq!(raw_bytes.len(), 35, "[case6_valid_key] unexpected length");
        assert!(
            (raw_bytes[0] == 0xE7 && raw_bytes[1] == 0x01) || // secp256k1
                (raw_bytes[0] == 0x80 && raw_bytes[1] == 0x24), // secp256r1
            "[case6_valid_key] unexpected multicodec tag: {:02x} {:02x}",
            raw_bytes[0],
            raw_bytes[1]
        );

        // 3) round-trip encode and compare
        let roundtrip_key = did_key_from_bytes(&raw_bytes);
        assert_eq!(
            roundtrip_key, orig_key,
            "[case6_valid_key] round-trip mismatch: {roundtrip_key} != {orig_key}"
        );

        // 4) replace + patch + validate should be Ok(())
        let prev_good = replace_first_rotation_key(&prev, &roundtrip_key);
        let new_cid = Operation::from_slice(&prev_good)
            .unwrap()
            .generate_cid()
            .unwrap();
        let cur_patched = set_prev_field(&cur, &new_cid);

        let res = validate_2_operations(&prev_good, &cur_patched, 0);
        println!("[case6_valid_key_roundtrip] expect Ok(()) -> got: {res:?}");
        assert!(res.is_ok());
    }
}

#[test]
fn test_invalid_key_index() {
    let prev = get_test_vector("1-did-creation.cbor");
    let cur = get_test_vector("2-update-handle.cbor");

    let res = validate_2_operations(&prev, &cur, 99);
    assert!(matches!(res, Err(Error::InvalidKeyIndex)));
}

// set top-level "sig" as Text to a specific string
fn set_sig_text(buf: &[u8], s: &str) -> Vec<u8> {
    let mut root = decode_raw(buf);
    if let RawValue::Map(ref mut pairs) = root {
        for (k, v) in pairs.iter_mut() {
            if *k == RawValue::Text("sig".into()) {
                *v = RawValue::Text(s.to_string());
            }
        }
    }
    encode_raw(&root)
}

#[test]
fn test_invalid_signature() {
    let prev = get_test_vector("1-did-creation.cbor");
    let cur = get_test_vector("2-update-handle.cbor");

    // -------- Case 1: non-base64url characters ('!' and '*') -> base64url decode fails -> InvalidSignature
    {
        let cur_bad = set_sig_text(&cur, "not-base64url!!**");
        let res = validate_2_operations(&prev, &cur_bad, 0);
        println!("[Case 1] expect InvalidSignature -> got: {res:?}");
        assert!(matches!(res, Err(Error::InvalidSignature)));
    }

    // -------- Case 2: valid-looking length but still not base64url (e.g., has a space) -> InvalidSignature
    {
        let cur_bad = set_sig_text(&cur, "abcd efgh"); // space is invalid for base64url
        let res = validate_2_operations(&prev, &cur_bad, 0);
        println!("[Case 2] expect InvalidSignature -> got: {res:?}");
        assert!(matches!(res, Err(Error::InvalidSignature)));
    }
}

fn find_sig(buf: &[u8]) -> String {
    let root = decode_raw(buf);
    if let RawValue::Map(map) = root {
        for (k, v) in map {
            if let RawValue::Text(k_str) = k {
                if k_str == "sig" {
                    if let RawValue::Text(s) = v {
                        return s;
                    } else {
                        panic!("`sig` is not Text");
                    }
                }
            }
        }
        panic!("`sig` field not found");
    } else {
        panic!("root is not a Map");
    }
}

#[test]
fn test_invalid_signature_padding() {
    let prev = get_test_vector("1-did-creation.cbor");
    let cur = get_test_vector("2-update-handle.cbor");

    // ---- read original sig text from `cur` (must be URL_SAFE_NO_PAD, meaning no '=') ----
    let orig_sig: String = find_sig(&cur);
    assert!(!orig_sig.ends_with('='), "fixture sig already has padding?");

    // =============== Case 1: append a single '=' ===============
    {
        // make a new cur with sig = orig_sig + "="
        let cur_padded = set_sig_text(&cur, &format!("{orig_sig}="));

        let res = validate_2_operations(&prev, &cur_padded, 0);
        println!("[Case 1: sig ends with '='] expect InvalidSignaturePadding -> got: {res:?}");
        assert!(matches!(res, Err(Error::InvalidSignaturePadding)));
    }

    // =============== Case 2: append '==' ===============
    {
        let cur_padded2 = set_sig_text(&cur, &format!("{orig_sig}=="));

        let res = validate_2_operations(&prev, &cur_padded2, 0);
        println!("[Case 2: sig ends with '=='] expect InvalidSignaturePadding -> got: {res:?}");
        assert!(matches!(res, Err(Error::InvalidSignaturePadding)));
    }
}

const CHAIN: [&str; 6] = [
    "1-did-creation.cbor",
    "2-update-handle.cbor",
    "3-update-pds.cbor",
    "4-update-atproto-key.cbor",
    "5-update-rotation-keys.cbor",
    "6-update-handle.cbor",
];

fn chain_history() -> Vec<Vec<u8>> {
    CHAIN.iter().map(|name| get_test_vector(name)).collect()
}

#[test]
fn reencoding_a_decoded_operation_gives_its_bytes() {
    let mut names = CHAIN.to_vec();
    names.push("7-tombstone.cbor");
    names.push("1-did-creation-legacy.cbor");
    names.push("2-update-rotation-keys-legacy.cbor");
    for name in names {
        let buf = get_test_vector(name);
        assert_eq!(encode(&decode(&buf).unwrap()).unwrap(), buf);
        assert_eq!(Operation::from_slice(&buf).unwrap().encode().unwrap(), buf);
        assert_eq!(encode_raw(&decode_raw(&buf)), buf);
    }
}

#[test]
fn each_operation_names_the_cid_of_the_one_before() {
    let history = chain_history();
    for i in 1..history.len() {
        let prev = Operation::from_slice(&history[i - 1]).unwrap();
        let cur = Operation::from_slice(&history[i]).unwrap();
        assert_eq!(cur.get_prev().unwrap(), Some(prev.generate_cid().unwrap()));
        assert_eq!(prev.generate_cid().unwrap(), cid_of(&history[i - 1]));
    }
    let cid = cid_of(&history[0]);
    assert!(cid.starts_with("bafyrei"));
    assert_eq!(cid.len(), 59);
}

#[test]
fn each_operation_is_signed_by_the_key_at_its_index() {
    let history = chain_history();
    let indices = [0, 0, 0, 0, 0, 1];
    for i in 0..history.len() {
        let signer = Operation::from_slice(&history[if i == 0 { 0 } else { i - 1 }]).unwrap();
        let keys = signer.get_rotation_keys().unwrap();
        let cur = Operation::from_slice(&history[i]).unwrap();
        assert!(cur.verify_signature(&keys, indices[i]).is_ok());
        let msg = cur.new_unsigned_operation().unwrap().encode().unwrap();
        let sig = cur.get_signature().unwrap();
        assert_eq!(sig.len(), 64);
        assert!(keys[indices[i]].verify(&msg, &sig).is_ok());
        // the other key of the two did not sign
        assert!(matches!(
            cur.verify_signature(&keys, 1 - indices[i]),
            Err(Error::VerifySignatureFailed)
        ));
        assert!(matches!(cur.verify_signature(&keys, 2), Err(Error::InvalidKeyIndex)));
    }
}

#[test]
fn binary_did_is_the_head_of_the_genesis_digest() {
    let genesis = get_test_vector("1-did-creation.cbor");
    let op = Operation::from_slice(&genesis).unwrap();
    let digest = Sha256::digest(&genesis);
    assert_eq!(op.get_binary_did().unwrap(), digest[..15].to_vec());
    assert_eq!(op.get_did().unwrap(), load_did("creation"));
    assert_eq!(
        parse_local_id(load_did("creation").as_bytes()).unwrap(),
        op.get_binary_did().unwrap()
    );
}

#[test]
fn rotation_keys_come_in_their_order() {
    let op = Operation::from_slice(&get_test_vector("6-update-handle.cbor")).unwrap();
    let keys = op.get_rotation_keys().unwrap();
    assert_eq!(keys.len(), 2);
    assert_eq!(keys[0].curve(), Curve::Secp256k1);
    assert_eq!(keys[1].curve(), Curve::P256);
    assert_eq!(keys[0].raw(), &TestKey::k256(3).tagged_point()[2..]);
    assert_eq!(keys[1].raw(), &TestKey::p256(4).tagged_point()[2..]);
    assert!(op.get_legacy_rotation_keys().unwrap().is_empty());
    let tombstone = Operation::from_slice(&get_test_vector("7-tombstone.cbor")).unwrap();
    assert!(matches!(tombstone.get_rotation_keys(), Err(Error::RotationKeysDecodeError)));
}

#[test]
fn rotation_keys_pass_over_items_that_are_not_text() {
    let key = TestKey::p256(2);
    let op = Operation::from_value(CborValue::Mapping(vec![entry(
        "rotationKeys",
        CborValue::Array(vec![CborValue::Integer(1), text(&key.did_key()), CborValue::Null]),
    )]))
    .unwrap();
    let keys = op.get_rotation_keys().unwrap();
    assert_eq!(keys.len(), 1);
    assert_eq!(keys[0].curve(), Curve::P256);
    let op = Operation::from_value(CborValue::Mapping(vec![entry(
        "rotationKeys",
        CborValue::Array(vec![text(&key.did_key()), text("did:key:zabc")]),
    )]))
    .unwrap();
    assert!(matches!(op.get_rotation_keys(), Err(Error::InvalidKey)));
}

#[test]
fn legacy_rotation_keys_are_signing_then_recovery() {
    let signing = TestKey::k256(1);
    let recovery = TestKey::p256(2);
    let op = Operation::from_slice(&get_test_vector("1-did-creation-legacy.cbor")).unwrap();
    let keys = op.get_legacy_rotation_keys().unwrap();
    assert_eq!(keys.len(), 2);
    assert_eq!(keys[0].raw(), &signing.tagged_point()[2..]);
    assert_eq!(keys[1].raw(), &recovery.tagged_point()[2..]);
    assert!(matches!(op.get_rotation_keys(), Err(Error::RotationKeysDecodeError)));
    // the order of the entries does not decide
    let op = Operation::from_value(CborValue::Mapping(vec![
        entry("recoveryKey", text(&recovery.did_key())),
        entry("signingKey", text(&signing.did_key())),
    ]))
    .unwrap();
    let keys = op.get_legacy_rotation_keys().unwrap();
    assert_eq!(keys[0].curve(), Curve::Secp256k1);
    assert_eq!(keys[1].curve(), Curve::P256);
    let op = Operation::from_value(CborValue::Mapping(vec![
        entry("signingKey", text(&signing.did_key())),
        entry("recoveryKey", text("did:key:zabc")),
    ]))
    .unwrap();
    assert!(matches!(op.get_legacy_rotation_keys(), Err(Error::InvalidKey)));
}

#[test]
fn successor_with_null_prev_misses_its_link() {
    let k1 = TestKey::k256(1);
    let prev = get_test_vector("1-did-creation.cbor");
    let cur = sign_entries(
        canonical_entries(None, "at://ali.test", "https://pds.example.com", &k1, &[&k1]),
        &k1,
    );
    assert!(matches!(validate_2_operations(&prev, &cur, 0), Err(Error::MissingPrevField)));
}

#[test]
fn successor_signed_by_a_key_of_the_wrong_operation_is_rejected() {
    // operation 6 is signed by a key of operation 5, which operation 4 does not declare
    let res = validate_2_operations(
        &get_test_vector("4-update-atproto-key.cbor"),
        &set_prev_field(
            &get_test_vector("6-update-handle.cbor"),
            &cid_of(&get_test_vector("4-update-atproto-key.cbor")),
        ),
        1,
    );
    assert!(matches!(res, Err(Error::VerifySignatureFailed)));
}

#[test]
fn signature_of_a_wrong_length_is_malformed() {
    let prev = get_test_vector("1-did-creation.cbor");
    let cur = get_test_vector("2-update-handle.cbor");
    let cur_bad = set_sig_text(&cur, &URL_SAFE_NO_PAD.encode([1u8; 63]));
    assert!(matches!(validate_2_operations(&prev, &cur_bad, 0), Err(Error::InvalidSignature)));
}

#[test]
fn pair_with_bytes_that_are_no_operation() {
    let op = get_test_vector("1-did-creation.cbor");
    assert!(matches!(validate_2_operations(&[0x82], &op, 0), Err(Error::InvalidOperation)));
    assert!(matches!(validate_2_operations(&op, &[], 0), Err(Error::InvalidOperation)));
    assert!(matches!(validate_genesis_operation(&[0x01], &[0; 15], 0), Err(Error::InvalidOperation)));
}

#[test]
fn genesis_rejections() {
    let genesis = get_test_vector("1-did-creation.cbor");
    let did = parse_did(&load_did("creation"));
    assert!(matches!(validate_genesis_operation(&genesis, &did, 1), Err(Error::VerifySignatureFailed)));
    assert!(matches!(validate_genesis_operation(&genesis, &did, 2), Err(Error::InvalidKeyIndex)));
    assert!(matches!(validate_genesis_operation(&genesis, &did[..14], 0), Err(Error::DidMismatched)));
    assert!(matches!(
        validate_genesis_operation(&modify_operation_sig(&genesis), &did, 0),
        Err(Error::VerifySignatureFailed)
    ));
    assert!(matches!(
        validate_genesis_operation(&get_test_vector("7-tombstone.cbor"), &did, 0),
        Err(Error::InvalidOperation)
    ));
}

#[test]
fn final_operation_outcomes() {
    let last = get_test_vector("6-update-handle.cbor");
    let msg = [7u8; 32];
    let sig = TestKey::k256(3).sign(&msg);
    assert!(validate_final_operation(&last, &sig, &msg, 0).is_ok());
    assert!(matches!(
        validate_final_operation(&last, &sig, &msg, 1),
        Err(Error::VerifySignatureFailed)
    ));
    assert!(matches!(validate_final_operation(&last, &sig, &msg, 2), Err(Error::InvalidKeyIndex)));
    assert!(matches!(
        validate_final_operation(&last, &sig, &[8u8; 32], 0),
        Err(Error::VerifySignatureFailed)
    ));
    assert!(matches!(
        validate_final_operation(&last, &[0u8; 65], &msg, 0),
        Err(Error::InvalidSignature)
    ));
    assert!(matches!(
        validate_final_operation(&get_test_vector("1-did-creation-legacy.cbor"), &sig, &msg, 0),
        Err(Error::RotationKeysDecodeError)
    ));
    assert!(matches!(validate_final_operation(&[0x82], &sig, &msg, 0), Err(Error::InvalidOperation)));
}

#[test]
fn history_from_genesis_to_authorization() {
    let binary_did = parse_did(&load_did("creation"));
    let msg = vec![9u8; 32];
    let final_sig = TestKey::p256(4).sign(&msg);
    let indices = vec![0, 0, 0, 0, 0, 1, 1];
    let result =
        validate_operation_history(&binary_did, chain_history(), indices, &msg, &final_sig);
    assert!(result.is_ok());

    // a history of the genesis operation alone
    let final_sig = TestKey::k256(1).sign(&msg);
    let history = vec![get_test_vector("1-did-creation.cbor")];
    assert!(validate_operation_history(&binary_did, history, vec![0, 0], &msg, &final_sig).is_ok());

    // a legacy genesis operation and its successor
    let binary_did = parse_did(&load_did("creation-legacy"));
    let history = vec![
        get_test_vector("1-did-creation-legacy.cbor"),
        get_test_vector("2-update-rotation-keys-legacy.cbor"),
    ];
    let final_sig = TestKey::k256(3).sign(&msg);
    assert!(
        validate_operation_history(&binary_did, history, vec![0, 1, 0], &msg, &final_sig).is_ok()
    );
}

#[test]
fn history_rejections() {
    let binary_did = parse_did(&load_did("creation"));
    let msg = vec![9u8; 32];
    let final_sig = TestKey::p256(4).sign(&msg);
    let run = |did: &[u8], history: Vec<Vec<u8>>, indices: Vec<usize>, sig: &[u8]| {
        validate_operation_history(did, history, indices, &msg, sig)
    };
    let good = vec![0, 0, 0, 0, 0, 1, 1];
    assert!(matches!(
        run(&binary_did, chain_history(), vec![0, 0, 0, 0, 0, 1], &final_sig),
        Err(Error::InvalidHistory)
    ));
    assert!(matches!(
        run(&binary_did, chain_history(), vec![0, 0, 0, 0, 0, 1, 1, 0], &final_sig),
        Err(Error::InvalidHistory)
    ));
    assert!(matches!(
        run(&[0u8; 15], chain_history(), good.clone(), &final_sig),
        Err(Error::DidMismatched)
    ));
    assert!(matches!(
        run(&binary_did, chain_history(), vec![0, 0, 0, 0, 0, 0, 1], &final_sig),
        Err(Error::VerifySignatureFailed)
    ));
    assert!(matches!(
        run(&binary_did, chain_history(), vec![0, 0, 0, 9, 0, 1, 1], &final_sig),
        Err(Error::InvalidKeyIndex)
    ));
    assert!(matches!(
        run(&binary_did, chain_history(), vec![0, 0, 0, 0, 0, 1, 0], &final_sig),
        Err(Error::VerifySignatureFailed)
    ));
    assert!(matches!(
        run(&binary_did, chain_history(), good.clone(), &[0u8; 65]),
        Err(Error::InvalidSignature)
    ));
    // an operation left out breaks the chain
    let mut history = chain_history();
    history.remove(2);
    assert!(matches!(
        run(&binary_did, history, vec![0, 0, 0, 0, 1, 1], &final_sig),
        Err(Error::InvalidPrev)
    ));
    // a history that does not begin at the genesis operation
    let mut history = chain_history();
    history.remove(0);
    assert!(matches!(
        run(&binary_did, history, vec![0, 0, 0, 0, 1, 1], &final_sig),
        Err(Error::NotGenesisOperation)
    ));
}

fn validate_stepwise(
    binary_did: &[u8],
    history: Vec<Vec<u8>>,
    indices: Vec<usize>,
    msg: &[u8],
    final_sig: &[u8],
) -> Result<(), Error> {
    let mut validation = HistoryValidation::begin(binary_did, history.len(), indices, msg, final_sig)?;
    let mut place = 0;
    for operation in history {
        assert_eq!(validation.wanted(), place);
        place += 1;
        match validation.step(operation) {
            HistoryStep::Next(next) => validation = next,
            HistoryStep::Accepted => return Ok(()),
            HistoryStep::Rejected(e) => return Err(e),
        }
    }
    panic!("the last operation ends the validation")
}

#[test]
fn stepwise_validation_accepts_valid_histories() {
    let binary_did = parse_did(&load_did("creation"));
    let msg = vec![9u8; 32];
    let final_sig = TestKey::p256(4).sign(&msg);
    let indices = vec![0, 0, 0, 0, 0, 1, 1];
    assert!(validate_stepwise(&binary_did, chain_history(), indices, &msg, &final_sig).is_ok());
    let final_sig = TestKey::k256(1).sign(&msg);
    let history = vec![get_test_vector("1-did-creation.cbor")];
    assert!(validate_stepwise(&binary_did, history, vec![0, 0], &msg, &final_sig).is_ok());
}

#[test]
fn stepwise_validation_rejects_as_the_whole_does() {
    let binary_did = parse_did(&load_did("creation"));
    let msg = vec![9u8; 32];
    let final_sig = TestKey::p256(4).sign(&msg);
    let mut gapped = chain_history();
    gapped.remove(2);
    let mut tombstoned = chain_history();
    tombstoned.push(get_test_vector("7-tombstone.cbor"));
    let cases: Vec<(Vec<u8>, Vec<Vec<u8>>, Vec<usize>, Vec<u8>)> = vec![
        (binary_did.clone(), vec![], vec![], final_sig.clone()),
        (binary_did.clone(), chain_history(), vec![0, 0, 0, 0, 0, 1], final_sig.clone()),
        (vec![0u8; 15], chain_history(), vec![0, 0, 0, 0, 0, 1, 1], final_sig.clone()),
        (binary_did.clone(), chain_history(), vec![0, 0, 0, 0, 0, 0, 1], final_sig.clone()),
        (binary_did.clone(), chain_history(), vec![0, 0, 7, 0, 0, 1, 1], final_sig.clone()),
        (binary_did.clone(), chain_history(), vec![0, 0, 0, 0, 0, 1, 0], final_sig.clone()),
        (binary_did.clone(), chain_history(), vec![0, 0, 0, 0, 0, 1, 1], vec![0u8; 65]),
        (binary_did.clone(), gapped, vec![0, 0, 0, 0, 1, 1], final_sig.clone()),
        (binary_did.clone(), tombstoned, vec![0, 0, 0, 0, 0, 1, 0, 0], final_sig.clone()),
    ];
    for (did, history, indices, sig) in cases {
        let whole = validate_operation_history(&did, history.clone(), indices.clone(), &msg, &sig);
        let stepwise = validate_stepwise(&did, history, indices, &msg, &sig);
        assert!(whole.is_err());
        assert_eq!(stepwise, whole);
    }
}

#[test]
fn stepwise_validation_stops_at_the_first_bad_operation() {
    let binary_did = parse_did(&load_did("creation"));
    let validation =
        HistoryValidation::begin(&binary_did, 3, vec![0, 0, 0, 0], &[1u8; 32], &[0u8; 64]).unwrap();
    assert_eq!(validation.wanted(), 0);
    let validation = match validation.step(get_test_vector("1-did-creation.cbor")) {
        HistoryStep::Next(next) => next,
        _ => panic!("the genesis operation is in order"),
    };
    assert_eq!(validation.wanted(), 1);
    // the operation after the next one cannot follow
    assert!(matches!(
        validation.step(get_test_vector("3-update-pds.cbor")),
        HistoryStep::Rejected(Error::InvalidPrev)
    ));
}
