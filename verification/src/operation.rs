use vstd::prelude::*;
use vstd::string::*;
use crate::cbor::{
    cbor_encoding, decode, decoded, encode, entry_models, lemma_array_model,
    lemma_mapping_model, lemma_model_kind, CborModel, CborValue,
};
use crate::encoding::{
    base32_bytes, base32_decode, base32_encode, base32_text, base64url_bytes, base64url_decode,
    sha256, sha256_digest,
};
use crate::error::Error;
use crate::pubkey::{did_key, verification, PublicKey, PublicKeyModel};
use crate::text::{
    bytes_eq, ends_with_char, from_utf8, skip_chars, starts_with, text_eq, text_of,
};

verus! {

/// Which values a field lookup accepts.
#[derive(Debug, Clone, Copy, PartialEq, Eq, Structural)]
pub enum Kind {
    Any,
    Text,
    Array,
}

/// Whether the value is a mapping all of whose keys are text: the shape of an
/// operation.
pub open spec fn is_root(root: CborModel) -> bool {
    &&& root is Mapping
    &&& forall|i: int| 0 <= i < root->Mapping_0.len() ==> (#[trigger] root->Mapping_0[i]).0 is Text
}

/// Whether an entry has the given text as its key and a value of the given kind.
pub open spec fn is_field(e: (CborModel, CborModel), name: Seq<char>, kind: Kind) -> bool {
    &&& e.0 is Text
    &&& e.0->Text_0 == name
    &&& match kind {
        Kind::Any => true,
        Kind::Text => e.1 is Text,
        Kind::Array => e.1 is Array,
    }
}

/// The value of the first entry at or after `from` that is such a field.
pub open spec fn first_field(
    entries: Seq<(CborModel, CborModel)>,
    name: Seq<char>,
    kind: Kind,
    from: int,
) -> Option<CborModel>
    decreases entries.len() - from,
{
    if from < 0 || from >= entries.len() {
        None
    } else if is_field(entries[from], name, kind) {
        Some(entries[from].1)
    } else {
        first_field(entries, name, kind, from + 1)
    }
}

/// The value of the first field of the operation with that name and kind.
pub open spec fn field(root: CborModel, name: Seq<char>, kind: Kind) -> Option<CborModel> {
    first_field(root->Mapping_0, name, kind, 0)
}

/// Whether some entry of the operation has the given text as its key.
pub open spec fn contains_key(root: CborModel, name: Seq<char>) -> bool {
    exists|i: int|
        0 <= i < root->Mapping_0.len() && is_field(#[trigger] root->Mapping_0[i], name, Kind::Any)
}

/// Whether every one of the names is a key of the operation.
pub open spec fn contains_keys(root: CborModel, names: Seq<Seq<char>>) -> bool {
    forall|k: int| 0 <= k < names.len() ==> contains_key(root, #[trigger] names[k])
}

/// Whether an entry is `type` with the given text as its value.
pub open spec fn is_type_entry(e: (CborModel, CborModel), class: Seq<char>) -> bool {
    &&& is_field(e, "type"@, Kind::Text)
    &&& e.1->Text_0 == class
}

/// Whether some `type` entry of the operation names the given class.
pub open spec fn names_class(root: CborModel, class: Seq<char>) -> bool {
    exists|i: int| 0 <= i < root->Mapping_0.len() && is_type_entry(#[trigger] root->Mapping_0[i], class)
}

/// The keys that a legacy operation must have.
pub open spec fn legacy_keys() -> Seq<Seq<char>> {
    seq![
        "type"@,
        "signingKey"@,
        "recoveryKey"@,
        "handle"@,
        "service"@,
        "prev"@,
        "sig"@,
    ]
}

/// The keys that a canonical operation must have.
pub open spec fn canonical_keys() -> Seq<Seq<char>> {
    seq![
        "type"@,
        "rotationKeys"@,
        "verificationMethods"@,
        "alsoKnownAs"@,
        "services"@,
        "prev"@,
        "sig"@,
    ]
}

/// Whether the operation is of a known class and has that class's keys.
pub open spec fn is_valid(root: CborModel) -> bool {
    if names_class(root, "create"@) {
        contains_keys(root, legacy_keys())
    } else if names_class(root, "plc_operation"@) {
        contains_keys(root, canonical_keys())
    } else {
        false
    }
}

/// The operation that a byte string holds: its first data item, where that is
/// a mapping keyed by text.
pub open spec fn operation_of(bytes: Seq<u8>) -> Option<CborModel> {
    match decoded(bytes) {
        Some(root) => if is_root(root) { Some(root) } else { None },
        None => None,
    }
}

/// What the `prev` field says: the text of a predecessor's identifier, or
/// nothing where it is null. The first entry with that key decides.
pub open spec fn prev_of(root: CborModel) -> Result<Option<Seq<char>>, Error> {
    match field(root, "prev"@, Kind::Any) {
        Some(CborModel::Text(t)) => Ok(Some(t)),
        Some(CborModel::Null) => Ok(None),
        _ => Err(Error::InvalidOperation),
    }
}

/// The signature bytes of the operation: the first text-valued `sig`, which
/// must not end in `=`, read as unpadded URL-safe base64.
pub open spec fn signature_of(root: CborModel) -> Result<Seq<u8>, Error> {
    match field(root, "sig"@, Kind::Text) {
        Some(v) => {
            let t = v->Text_0;
            if t.len() > 0 && t.last() == '=' {
                Err(Error::InvalidSignaturePadding)
            } else {
                match base64url_bytes(t) {
                    Some(bytes) => Ok(bytes),
                    None => Err(Error::InvalidSignature),
                }
            }
        },
        None => Err(Error::InvalidOperation),
    }
}

/// The keys that the text items of an array name, in the order of the items.
/// Items that are not text are passed over; a text that names no key is an
/// error.
pub open spec fn parsed_keys(items: Seq<CborModel>) -> Result<Seq<PublicKeyModel>, Error>
    decreases items.len(),
{
    if items.len() == 0 {
        Ok(Seq::empty())
    } else {
        match parsed_keys(items.drop_last()) {
            Err(e) => Err(e),
            Ok(keys) => match items.last() {
                CborModel::Text(t) => match did_key(t) {
                    Some(key) => Ok(keys.push(key)),
                    None => Err(Error::InvalidKey),
                },
                _ => Ok(keys),
            },
        }
    }
}

/// The rotation keys of a canonical operation: those of its first
/// array-valued `rotationKeys`.
pub open spec fn rotation_keys_of(root: CborModel) -> Result<Seq<PublicKeyModel>, Error> {
    match field(root, "rotationKeys"@, Kind::Array) {
        Some(v) => parsed_keys(v->Array_0),
        None => Err(Error::RotationKeysDecodeError),
    }
}

/// The rotation keys of a legacy operation: its signing key, then its
/// recovery key, each taken from the first text-valued entry of that name.
pub open spec fn legacy_rotation_keys_of(root: CborModel) -> Result<Seq<PublicKeyModel>, Error> {
    parsed_keys(legacy_key_items(root))
}

/// The values of `signingKey` and `recoveryKey`, in that order, as far as the
/// operation has them as text.
pub open spec fn legacy_key_items(root: CborModel) -> Seq<CborModel> {
    let signing = match field(root, "signingKey"@, Kind::Text) {
        Some(v) => seq![v],
        None => Seq::empty(),
    };
    let recovery = match field(root, "recoveryKey"@, Kind::Text) {
        Some(v) => seq![v],
        None => Seq::empty(),
    };
    signing + recovery
}

/// The rotation keys that an operation declares for its successor.
pub open spec fn declared_keys_of(root: CborModel) -> Result<Seq<PublicKeyModel>, Error> {
    if names_class(root, "create"@) {
        legacy_rotation_keys_of(root)
    } else {
        rotation_keys_of(root)
    }
}

/// The entries without those keyed `sig`, in their order.
pub open spec fn unsigned_entries(entries: Seq<(CborModel, CborModel)>) -> Seq<(CborModel, CborModel)>
    decreases entries.len(),
{
    if entries.len() == 0 {
        entries
    } else {
        let rest = unsigned_entries(entries.drop_last());
        if is_field(entries.last(), "sig"@, Kind::Any) {
            rest
        } else {
            rest.push(entries.last())
        }
    }
}

/// The unsigned projection of an operation: what is signed.
pub open spec fn unsigned_of(root: CborModel) -> CborModel {
    CborModel::Mapping(unsigned_entries(root->Mapping_0))
}

/// The header of a content identifier: CIDv1, dag-cbor, sha-256, 32 bytes.
pub open spec fn cid_header() -> Seq<u8> {
    seq![0x01u8, 0x71u8, 0x12u8, 0x20u8]
}

/// The content identifier of an encoded operation, as text.
pub open spec fn cid_text(dag: Seq<u8>) -> Seq<char> {
    "b"@ + base32_text(cid_header() + sha256(dag))
}

/// The binary identifier that an encoded genesis operation gives: the first
/// 15 bytes of its digest.
pub open spec fn binary_did(dag: Seq<u8>) -> Seq<u8> {
    sha256(dag).subrange(0, 15)
}

/// The identifier that an encoded genesis operation gives, as text:
/// `did:plc:` and the first 24 characters of the digest in base32.
pub open spec fn did_text(dag: Seq<u8>) -> Seq<char> {
    let digest = base32_text(sha256(dag));
    "did:plc:"@ + if digest.len() >= 24 {
        digest.take(24)
    } else {
        digest
    }
}

/// The models of a list of keys.
pub open spec fn key_models(keys: Seq<PublicKey>) -> Seq<PublicKeyModel> {
    keys.map_values(|k: PublicKey| k@)
}

/// What checking a signature over a message with the key at `index` gives.
pub open spec fn signature_check(
    keys: Seq<PublicKeyModel>,
    index: int,
    msg: Seq<u8>,
    sig: Seq<u8>,
) -> Result<(), Error> {
    if index < 0 || index >= keys.len() {
        Err(Error::InvalidKeyIndex)
    } else {
        verification(keys[index], msg, sig)
    }
}

/// What verifying an operation's own signature gives, once the unsigned
/// projection is encoded: the signature is read first, then the key is picked
/// by its index, then it verifies the signature over the projection's bytes.
pub open spec fn signature_verification(
    root: CborModel,
    keys: Seq<PublicKeyModel>,
    index: int,
) -> Result<(), Error> {
    match signature_of(root) {
        Err(e) => Err(e),
        Ok(sig) => signature_check(keys, index, cbor_encoding(unsigned_of(root)), sig),
    }
}

/// One step of a DID PLC history: a CBOR mapping whose keys are all text,
/// with those keys kept beside it in the order of the entries.
pub struct Operation {
    raw: CborValue,
    cached_keys: Vec<String>,
}

impl View for Operation {
    type V = CborModel;

    closed spec fn view(&self) -> CborModel {
        self.raw@
    }
}

impl Operation {
    #[verifier::type_invariant]
    spec fn well_formed(&self) -> bool {
        &&& self.raw is Mapping
        &&& self.cached_keys@.len() == self.raw->Mapping_0@.len()
        &&& forall|i: int|
            0 <= i < self.cached_keys@.len() ==> (#[trigger] self.raw->Mapping_0@[i]).0 is Text
                && self.raw->Mapping_0@[i].0->Text_0@ == self.cached_keys@[i]@
    }

    /// What the invariant says of the model: it is a mapping keyed by text,
    /// and the cached keys are its keys.
    proof fn lemma_root(&self)
        requires
            self.well_formed(),
        ensures
            is_root(self@),
            self@->Mapping_0.len() == self.cached_keys@.len(),
            forall|i: int|
                0 <= i < self.cached_keys@.len() ==> (#[trigger] self@->Mapping_0[i]).0->Text_0
                    == self.cached_keys@[i]@,
    {
        lemma_mapping_model(self.raw);
        assert forall|i: int| 0 <= i < self@->Mapping_0.len() implies (#[trigger] self@->Mapping_0[i]).0 is Text
            && self@->Mapping_0[i].0->Text_0 == self.cached_keys@[i]@ by {
            lemma_model_kind(self.raw->Mapping_0@[i].0);
        }
    }

    /// Takes a value as an operation: it must be a mapping keyed by text.
    pub fn from_value(raw: CborValue) -> (r: Result<Self, Error>)
        ensures
            match r {
                Ok(op) => is_root(raw@) && op@ == raw@,
                Err(e) => e == Error::InvalidOperation && !is_root(raw@),
            },
    {
        let mut cached_keys: Vec<String> = Vec::new();
        proof {
            lemma_model_kind(raw);
        }
        match &raw {
            CborValue::Mapping(map) => {
                proof {
                    lemma_mapping_model(raw);
                }
                let mut i: usize = 0;
                while i < map.len()
                    invariant
                        i <= map@.len(),
                        raw is Mapping,
                        raw->Mapping_0 == *map,
                        cached_keys@.len() == i,
                        forall|j: int|
                            0 <= j < i ==> (#[trigger] map@[j]).0 is Text && map@[j].0->Text_0@
                                == cached_keys@[j]@,
                    decreases map@.len() - i,
                {
                    match &map[i].0 {
                        CborValue::Text(key) => {
                            cached_keys.push(key.clone());
                        },
                        _ => {
                            proof {
                                lemma_mapping_model(raw);
                                lemma_model_kind(map@[i as int].0);
                            }
                            assert(!(raw@->Mapping_0[i as int].0 is Text));
                            return Err(Error::InvalidOperation);
                        },
                    }
                    i += 1;
                }
                assert forall|j: int| 0 <= j < raw@->Mapping_0.len() implies (
                #[trigger] raw@->Mapping_0[j]).0 is Text by {
                    assert(map@[j].0 is Text);
                    lemma_model_kind(map@[j].0);
                }
            },
            _ => {
                return Err(Error::InvalidOperation);
            },
        }
        Ok(Operation { raw, cached_keys })
    }

    /// Decodes an operation.
    pub fn from_slice(buf: &[u8]) -> (r: Result<Self, Error>)
        ensures
            match r {
                Ok(op) => operation_of(buf@) == Some(op@),
                Err(e) => e == Error::InvalidOperation && operation_of(buf@) is None,
            },
    {
        match decode(buf) {
            Ok(raw) => Operation::from_value(raw),
            Err(_) => Err(Error::InvalidOperation),
        }
    }

    /// The value of the first field with the given name and kind.
    pub fn find_field(&self, name: &str, kind: Kind) -> (r: Option<&CborValue>)
        ensures
            is_root(self@),
            r matches Some(v) ==> field(self@, name@, kind) == Some(v@),
            r matches Some(v) ==> (kind == Kind::Text ==> v is Text) && (kind == Kind::Array ==> v
                is Array),
            r is None ==> field(self@, name@, kind) is None,
    {
        proof {
            use_type_invariant(self);
            self.lemma_root();
        }
        match &self.raw {
            CborValue::Mapping(map) => {
                let ghost entries = self.raw@->Mapping_0;
                proof {
                    lemma_mapping_model(self.raw);
                }
                let mut i: usize = 0;
                while i < map.len()
                    invariant
                        i <= map@.len(),
                        self.raw is Mapping,
                        self.raw->Mapping_0 == *map,
                        entries == self.raw@->Mapping_0,
                        is_root(self@),
                        first_field(entries, name@, kind, 0) == first_field(
                            entries,
                            name@,
                            kind,
                            i as int,
                        ),
                    decreases map@.len() - i,
                {
                    proof {
                        lemma_mapping_model(self.raw);
                        lemma_model_kind(map@[i as int].0);
                        lemma_model_kind(map@[i as int].1);
                    }
                    assert(entries[i as int] == (map@[i as int].0@, map@[i as int].1@));
                    let named = match &map[i].0 {
                        CborValue::Text(key) => text_eq(key.as_str(), name),
                        _ => false,
                    };
                    let wanted = named && match kind {
                        Kind::Any => true,
                        Kind::Text => match &map[i].1 {
                            CborValue::Text(_) => true,
                            _ => false,
                        },
                        Kind::Array => match &map[i].1 {
                            CborValue::Array(_) => true,
                            _ => false,
                        },
                    };
                    assert(wanted == is_field(entries[i as int], name@, kind));
                    if wanted {
                        return Some(&map[i].1);
                    }
                    i += 1;
                }
                None
            },
            _ => None,
        }
    }

    /// Whether some `type` entry of the operation holds the given text.
    fn type_is(&self, class: &str) -> (r: bool)
        ensures
            r == names_class(self@, class@),
    {
        proof {
            use_type_invariant(self);
        }
        match &self.raw {
            CborValue::Mapping(map) => {
                let ghost entries = self.raw@->Mapping_0;
                proof {
                    lemma_mapping_model(self.raw);
                }
                let mut i: usize = 0;
                while i < map.len()
                    invariant
                        i <= map@.len(),
                        self.raw is Mapping,
                        self.raw->Mapping_0 == *map,
                        entries == self.raw@->Mapping_0,
                        entries.len() == map@.len(),
                        forall|j: int| 0 <= j < i ==> !is_type_entry(#[trigger] entries[j], class@),
                    decreases map@.len() - i,
                {
                    proof {
                        lemma_mapping_model(self.raw);
                        lemma_model_kind(map@[i as int].0);
                        lemma_model_kind(map@[i as int].1);
                    }
                    assert(entries[i as int] == (map@[i as int].0@, map@[i as int].1@));
                    let found = match (&map[i].0, &map[i].1) {
                        (CborValue::Text(key), CborValue::Text(value)) => text_eq(key.as_str(), "type")
                            && text_eq(value.as_str(), class),
                        _ => false,
                    };
                    assert(found == is_type_entry(entries[i as int], class@));
                    if found {
                        return true;
                    }
                    i += 1;
                }
                false
            },
            _ => false,
        }
    }

    /// Whether the operation is of the canonical class, `plc_operation`.
    pub fn is_operation(&self) -> (r: bool)
        ensures
            r == names_class(self@, "plc_operation"@),
    {
        self.type_is("plc_operation")
    }

    /// Whether the operation is of the legacy class, `create`.
    pub fn is_legacy(&self) -> (r: bool)
        ensures
            r == names_class(self@, "create"@),
    {
        self.type_is("create")
    }

    /// Whether the operation is a tombstone, `plc_tombstone`.
    pub fn is_tombstone(&self) -> (r: bool)
        ensures
            r == names_class(self@, "plc_tombstone"@),
    {
        self.type_is("plc_tombstone")
    }

    /// Whether the operation has the given key.
    fn has_key(&self, key: &str) -> (r: bool)
        ensures
            r == contains_key(self@, key@),
    {
        proof {
            use_type_invariant(self);
            self.lemma_root();
        }
        let mut i: usize = 0;
        while i < self.cached_keys.len()
            invariant
                i <= self.cached_keys@.len(),
                is_root(self@),
                self@->Mapping_0.len() == self.cached_keys@.len(),
                forall|j: int|
                    0 <= j < self.cached_keys@.len() ==> (#[trigger] self@->Mapping_0[j]).0->Text_0
                        == self.cached_keys@[j]@,
                forall|j: int| 0 <= j < i ==> !is_field(#[trigger] self@->Mapping_0[j], key@, Kind::Any),
            decreases self.cached_keys@.len() - i,
        {
            if text_eq(self.cached_keys[i].as_str(), key) {
                assert(is_field(self@->Mapping_0[i as int], key@, Kind::Any));
                return true;
            }
            i += 1;
        }
        false
    }

    /// Whether the operation has every one of the given keys.
    fn has_keys(&self, keys: &[&str]) -> (r: bool)
        ensures
            r == contains_keys(self@, keys@.map_values(|k: &str| k@)),
    {
        let ghost names = keys@.map_values(|k: &str| k@);
        let mut i: usize = 0;
        while i < keys.len()
            invariant
                i <= keys@.len(),
                names == keys@.map_values(|k: &str| k@),
                forall|j: int| 0 <= j < i ==> contains_key(self@, #[trigger] names[j]),
            decreases keys@.len() - i,
        {
            if !self.has_key(keys[i]) {
                assert(!contains_key(self@, names[i as int]));
                return false;
            }
            i += 1;
        }
        true
    }

    /// Checks that the operation is of the legacy or of the canonical class
    /// and has the keys of its class.
    pub fn validate(&self) -> (r: Result<(), Error>)
        ensures
            r is Ok <==> is_valid(self@),
            r matches Err(e) ==> e == Error::InvalidOperation,
    {
        if self.is_legacy() {
            let keys: [&str; 7] = [
                "type",
                "signingKey",
                "recoveryKey",
                "handle",
                "service",
                "prev",
                "sig",
            ];
            assert(keys@.map_values(|k: &str| k@) =~= legacy_keys());
            if self.has_keys(keys.as_slice()) {
                Ok(())
            } else {
                Err(Error::InvalidOperation)
            }
        } else if self.is_operation() {
            let keys: [&str; 7] = [
                "type",
                "rotationKeys",
                "verificationMethods",
                "alsoKnownAs",
                "services",
                "prev",
                "sig",
            ];
            assert(keys@.map_values(|k: &str| k@) =~= canonical_keys());
            if self.has_keys(keys.as_slice()) {
                Ok(())
            } else {
                Err(Error::InvalidOperation)
            }
        } else {
            Err(Error::InvalidOperation)
        }
    }

    /// The `prev` field: the identifier of the predecessor, or nothing for a
    /// genesis operation.
    pub fn get_prev(&self) -> (r: Result<Option<String>, Error>)
        ensures
            match r {
                Ok(Some(s)) => prev_of(self@) == Ok::<Option<Seq<char>>, Error>(Some(s@)),
                Ok(None) => prev_of(self@) == Ok::<Option<Seq<char>>, Error>(None),
                Err(e) => prev_of(self@) == Err::<Option<Seq<char>>, Error>(e),
            },
    {
        match self.find_field("prev", Kind::Any) {
            Some(v) => {
                proof {
                    lemma_model_kind(*v);
                }
                match v {
                    CborValue::Text(value) => Ok(Some(value.clone())),
                    CborValue::Null => Ok(None),
                    _ => Err(Error::InvalidOperation),
                }
            },
            None => Err(Error::InvalidOperation),
        }
    }

    /// The signature bytes behind the `sig` field.
    pub fn get_signature(&self) -> (r: Result<Vec<u8>, Error>)
        ensures
            match r {
                Ok(bytes) => signature_of(self@) == Ok::<Seq<u8>, Error>(bytes@),
                Err(e) => signature_of(self@) == Err::<Seq<u8>, Error>(e),
            },
    {
        match self.find_field("sig", Kind::Text) {
            Some(v) => {
                proof {
                    lemma_model_kind(*v);
                }
                match v {
                    CborValue::Text(value) => {
                        if ends_with_char(value.as_str(), '=') {
                            return Err(Error::InvalidSignaturePadding);
                        }
                        match base64url_decode(value.as_str()) {
                            Some(decoded_sig) => Ok(decoded_sig),
                            None => Err(Error::InvalidSignature),
                        }
                    },
                    _ => Err(Error::InvalidOperation),
                }
            },
            None => Err(Error::InvalidOperation),
        }
    }

    /// The rotation keys of a canonical operation.
    pub fn get_rotation_keys(&self) -> (r: Result<Vec<PublicKey>, Error>)
        ensures
            match r {
                Ok(keys) => rotation_keys_of(self@) == Ok::<Seq<PublicKeyModel>, Error>(
                    key_models(keys@),
                ),
                Err(e) => rotation_keys_of(self@) == Err::<Seq<PublicKeyModel>, Error>(e),
            },
    {
        match self.find_field("rotationKeys", Kind::Array) {
            Some(v) => {
                proof {
                    lemma_model_kind(*v);
                }
                parse_key_items(v)
            },
            None => Err(Error::RotationKeysDecodeError),
        }
    }

    /// The rotation keys of a legacy operation: the signing key, then the
    /// recovery key.
    pub fn get_legacy_rotation_keys(&self) -> (r: Result<Vec<PublicKey>, Error>)
        ensures
            match r {
                Ok(keys) => legacy_rotation_keys_of(self@) == Ok::<Seq<PublicKeyModel>, Error>(
                    key_models(keys@),
                ),
                Err(e) => legacy_rotation_keys_of(self@) == Err::<Seq<PublicKeyModel>, Error>(e),
            },
    {
        let mut pubkeys: Vec<PublicKey> = Vec::new();
        let ghost mut items: Seq<CborModel> = Seq::empty();
        proof {
            assert(key_models(pubkeys@) =~= Seq::<PublicKeyModel>::empty());
        }
        match self.find_field("signingKey", Kind::Text) {
            Some(v) => {
                proof {
                    lemma_model_kind(*v);
                    lemma_parsed_keys_push(items, v@);
                    items = items.push(v@);
                }
                match v {
                    CborValue::Text(value) => {
                        let ghost before = pubkeys@;
                        match PublicKey::from_str(value.as_str()) {
                            Ok(key) => {
                                pubkeys.push(key);
                                assert(key_models(pubkeys@) =~= key_models(before).push(key@));
                            },
                            Err(e) => {
                                proof {
                                    let all = legacy_key_items(self@);
                                    assert(all.take(1) =~= items);
                                    lemma_parsed_keys_error(all, 1);
                                }
                                return Err(e);
                            },
                        }
                    },
                    _ => {},
                }
            },
            None => {},
        }
        match self.find_field("recoveryKey", Kind::Text) {
            Some(v) => {
                proof {
                    lemma_model_kind(*v);
                    lemma_parsed_keys_push(items, v@);
                    items = items.push(v@);
                }
                match v {
                    CborValue::Text(value) => {
                        let ghost before = pubkeys@;
                        match PublicKey::from_str(value.as_str()) {
                            Ok(key) => {
                                pubkeys.push(key);
                                assert(key_models(pubkeys@) =~= key_models(before).push(key@));
                            },
                            Err(e) => {
                                assert(items =~= legacy_key_items(self@));
                                return Err(e);
                            },
                        }
                    },
                    _ => {},
                }
            },
            None => {},
        }
        assert(items =~= legacy_key_items(self@));
        Ok(pubkeys)
    }

    /// The unsigned projection: the operation without its `sig` entries, the
    /// others in their order.
    pub fn new_unsigned_operation(&self) -> (r: Result<Self, Error>)
        ensures
            r matches Ok(op) && op@ == unsigned_of(self@),
    {
        proof {
            use_type_invariant(self);
            self.lemma_root();
        }
        let mut map: Vec<(CborValue, CborValue)> = Vec::new();
        let ghost entries = self@->Mapping_0;
        match &self.raw {
            CborValue::Mapping(signed_map) => {
                proof {
                    lemma_mapping_model(self.raw);
                    assert(entries.take(0) =~= Seq::<(CborModel, CborModel)>::empty());
                    assert(entry_models(map@) =~= unsigned_entries(entries.take(0)));
                }
                let mut i: usize = 0;
                while i < signed_map.len()
                    invariant
                        i <= signed_map@.len(),
                        self.raw is Mapping,
                        self.raw->Mapping_0 == *signed_map,
                        entries == self@->Mapping_0,
                        entries == entry_models(signed_map@),
                        is_root(self@),
                        entry_models(map@) == unsigned_entries(entries.take(i as int)),
                        forall|j: int| 0 <= j < map@.len() ==> (#[trigger] map@[j]).0 is Text,
                    decreases signed_map@.len() - i,
                {
                    proof {
                        lemma_model_kind(signed_map@[i as int].0);
                        assert(entries.take(i + 1).drop_last() =~= entries.take(i as int));
                        assert(entries.take(i + 1).last() == entries[i as int]);
                    }
                    let ghost before = map@;
                    match &signed_map[i].0 {
                        CborValue::Text(key_str) => {
                            if !text_eq(key_str.as_str(), "sig") {
                                let key = signed_map[i].0.deep_copy();
                                let value = signed_map[i].1.deep_copy();
                                proof {
                                    lemma_model_kind(key);
                                }
                                map.push((key, value));
                                assert(entry_models(map@) =~= entry_models(before).push(
                                    entries[i as int],
                                ));
                            }
                        },
                        _ => {},
                    }
                    i += 1;
                }
                assert(entries.take(i as int) =~= entries);
            },
            _ => {},
        }
        let unsigned_raw = CborValue::Mapping(map);
        proof {
            lemma_mapping_model(unsigned_raw);
            assert forall|j: int| 0 <= j < unsigned_raw@->Mapping_0.len() implies (
            #[trigger] unsigned_raw@->Mapping_0[j]).0 is Text by {
                lemma_model_kind(map@[j].0);
            }
            assert(unsigned_raw@ == unsigned_of(self@));
        }
        Operation::from_value(unsigned_raw)
    }

    /// The bytes of the operation. Fails with `InvalidOperation` where the
    /// encoder cannot write.
    pub fn encode(&self) -> (r: Result<Vec<u8>, Error>)
        ensures
            r matches Ok(bytes) ==> bytes@ == cbor_encoding(self@),
            r matches Err(e) ==> e == Error::InvalidOperation,
    {
        match encode(&self.raw) {
            Some(bytes) => Ok(bytes),
            None => Err(Error::InvalidOperation),
        }
    }

    /// The content identifier of the operation.
    pub fn generate_cid(&self) -> (r: Result<String, Error>)
        ensures
            r matches Ok(cid) ==> cid@ == cid_text(cbor_encoding(self@)),
            r matches Err(e) ==> e == Error::InvalidOperation,
    {
        match self.encode() {
            Ok(dag) => Ok(cid_of(dag.as_slice())),
            Err(e) => Err(e),
        }
    }

    /// The identifier that the operation gives as a genesis operation, as text.
    pub fn get_did(&self) -> (r: Result<String, Error>)
        ensures
            r matches Ok(did) ==> did@ == did_text(cbor_encoding(self@)),
            r matches Err(e) ==> e == Error::InvalidOperation,
    {
        match self.encode() {
            Ok(dag) => Ok(did_of(dag.as_slice())),
            Err(e) => Err(e),
        }
    }

    /// The binary identifier that the operation gives as a genesis operation.
    pub fn get_binary_did(&self) -> (r: Result<Vec<u8>, Error>)
        ensures
            r matches Ok(did) ==> did@ == binary_did(cbor_encoding(self@)),
            r matches Err(e) ==> e == Error::InvalidOperation,
    {
        match self.encode() {
            Ok(dag) => Ok(binary_did_of(dag.as_slice())),
            Err(e) => Err(e),
        }
    }

    /// Verifies the operation's signature with the key at the given index.
    /// The keys are those of the operation that authorizes this one. Where
    /// the encoder cannot write the unsigned projection, the result is
    /// `InvalidOperation`.
    pub fn verify_signature(&self, pubkeys: &[PublicKey], rotation_key_index: usize) -> (r: Result<
        (),
        Error,
    >)
        ensures
            r == signature_verification(self@, key_models(pubkeys@), rotation_key_index as int)
                || (r == Err::<(), Error>(Error::InvalidOperation) && signature_of(self@) is Ok),
    {
        let unsigned_op = match self.new_unsigned_operation() {
            Ok(op) => op,
            Err(e) => { return Err(e); },
        };
        let sig = match self.get_signature() {
            Ok(sig) => sig,
            Err(e) => { return Err(e); },
        };
        let msg = match unsigned_op.encode() {
            Ok(msg) => msg,
            Err(e) => { return Err(e); },
        };
        check_signature(pubkeys, rotation_key_index, msg.as_slice(), sig.as_slice())
    }
}

/// The content identifier of an encoded operation.
pub fn cid_of(dag: &[u8]) -> (r: String)
    ensures
        r@ == cid_text(dag@),
{
    let hashed = sha256_digest(dag);
    let mut raw_cid: Vec<u8> = Vec::new();
    raw_cid.push(0x01);
    raw_cid.push(0x71);
    raw_cid.push(0x12);
    raw_cid.push(0x20);
    raw_cid.extend_from_slice(hashed.as_slice());
    assert(raw_cid@ =~= cid_header() + sha256(dag@));
    let b32 = base32_encode(raw_cid.as_slice());
    String::from_str("b").concat(b32.as_str())
}

/// The binary identifier that an encoded genesis operation gives.
pub fn binary_did_of(dag: &[u8]) -> (r: Vec<u8>)
    ensures
        r@ == binary_did(dag@),
        r@.len() == 15,
{
    let hashed = sha256_digest(dag);
    vstd::slice::slice_to_vec(vstd::slice::slice_subrange(hashed.as_slice(), 0, 15))
}

/// The identifier that an encoded genesis operation gives, as text.
pub fn did_of(dag: &[u8]) -> (r: String)
    ensures
        r@ == did_text(dag@),
{
    let hashed = sha256_digest(dag);
    let b32 = base32_encode(hashed.as_slice());
    let len = b32.as_str().unicode_len();
    let head = if len >= 24 {
        b32.as_str().substring_char(0, 24)
    } else {
        b32.as_str()
    };
    String::from_str("did:plc:").concat(head)
}

/// Verifies a signature over a message with the key at the given index.
pub fn check_signature(pubkeys: &[PublicKey], index: usize, msg: &[u8], sig: &[u8]) -> (r: Result<
    (),
    Error,
>)
    ensures
        r == signature_check(key_models(pubkeys@), index as int, msg@, sig@),
{
    if index >= pubkeys.len() {
        return Err(Error::InvalidKeyIndex);
    }
    pubkeys[index].verify(msg, sig)
}

/// Parsing a list with one more item: the keys of the list, then that of
/// the item where it is text.
pub proof fn lemma_parsed_keys_push(items: Seq<CborModel>, last: CborModel)
    ensures
        parsed_keys(items.push(last)) == match parsed_keys(items) {
            Err(e) => Err(e),
            Ok(keys) => match last {
                CborModel::Text(t) => match did_key(t) {
                    Some(key) => Ok(keys.push(key)),
                    None => Err(Error::InvalidKey),
                },
                _ => Ok(keys),
            },
        },
{
    assert(items.push(last).drop_last() =~= items);
}

/// An error among the first items is the error of the whole list.
pub proof fn lemma_parsed_keys_error(items: Seq<CborModel>, n: int)
    requires
        0 <= n <= items.len(),
        parsed_keys(items.take(n)) is Err,
    ensures
        parsed_keys(items) == parsed_keys(items.take(n)),
    decreases items.len() - n,
{
    if n < items.len() {
        assert(items.take(n + 1) =~= items.take(n).push(items[n]));
        lemma_parsed_keys_push(items.take(n), items[n]);
        lemma_parsed_keys_error(items, n + 1);
    } else {
        assert(items.take(n) =~= items);
    }
}

/// Parses the text items of an array as keys.
fn parse_key_items(array: &CborValue) -> (r: Result<Vec<PublicKey>, Error>)
    requires
        array is Array,
    ensures
        match r {
            Ok(keys) => parsed_keys(array@->Array_0) == Ok::<Seq<PublicKeyModel>, Error>(
                key_models(keys@),
            ),
            Err(e) => parsed_keys(array@->Array_0) == Err::<Seq<PublicKeyModel>, Error>(e),
        },
{
    let mut rotation_keys: Vec<PublicKey> = Vec::new();
    let ghost models = array@->Array_0;
    proof {
        lemma_array_model(*array);
        assert(models.take(0) =~= Seq::<CborModel>::empty());
        assert(key_models(rotation_keys@) =~= Seq::<PublicKeyModel>::empty());
    }
    match array {
        CborValue::Array(items) => {
            let mut i: usize = 0;
            while i < items.len()
                invariant
                    i <= items@.len(),
                    array is Array,
                    array->Array_0 == *items,
                    models == array@->Array_0,
                    models.len() == items@.len(),
                    parsed_keys(models.take(i as int)) == Ok::<Seq<PublicKeyModel>, Error>(
                        key_models(rotation_keys@),
                    ),
                decreases items@.len() - i,
            {
                proof {
                    lemma_array_model(*array);
                    lemma_model_kind(items@[i as int]);
                    assert(models.take(i + 1) =~= models.take(i as int).push(models[i as int]));
                    lemma_parsed_keys_push(models.take(i as int), models[i as int]);
                }
                match &items[i] {
                    CborValue::Text(key) => {
                        let ghost before = rotation_keys@;
                        match PublicKey::from_str(key.as_str()) {
                            Ok(key) => {
                                rotation_keys.push(key);
                                assert(key_models(rotation_keys@) =~= key_models(before).push(key@));
                            },
                            Err(e) => {
                                proof {
                                    lemma_parsed_keys_error(models, i + 1);
                                }
                                return Err(e);
                            },
                        }
                    },
                    _ => {},
                }
                i += 1;
            }
            assert(models.take(i as int) =~= models);
            Ok(rotation_keys)
        },
        _ => Ok(rotation_keys),
    }
}

/// The bytes that a local identifier names: the text must be UTF-8, begin
/// with `did:plc:` and go on in unpadded lower-case base32.
pub open spec fn local_id(id: Seq<u8>) -> Option<Seq<u8>> {
    match text_of(id) {
        Some(text) => if "did:plc:"@.is_prefix_of(text) {
            base32_bytes(text.skip("did:plc:"@.len() as int))
        } else {
            None
        },
        None => None,
    }
}

/// Reads a local identifier, `did:plc:` and base32, back into bytes.
pub fn parse_local_id(id: &[u8]) -> (r: Result<Vec<u8>, Error>)
    ensures
        match r {
            Ok(bytes) => local_id(id@) == Some(bytes@),
            Err(e) => e == Error::InvalidDidFormat && local_id(id@) is None,
        },
{
    proof {
        reveal_strlit("did:plc:");
    }
    let text = match from_utf8(id) {
        Some(text) => text,
        None => { return Err(Error::InvalidDidFormat); },
    };
    if starts_with(text, "did:plc:") {
        match base32_decode(skip_chars(text, 8)) {
            Some(bytes) => Ok(bytes),
            None => Err(Error::InvalidDidFormat),
        }
    } else {
        Err(Error::InvalidDidFormat)
    }
}

/// What the check of a successor's link to its predecessor gives: `prev`
/// must be the text of the predecessor's content identifier.
pub open spec fn link_check(cur: CborModel, cid: Seq<char>) -> Result<(), Error> {
    match prev_of(cur) {
        Err(e) => Err(e),
        Ok(None) => Err(Error::MissingPrevField),
        Ok(Some(prev)) => if prev == cid {
            Ok(())
        } else {
            Err(Error::InvalidPrev)
        },
    }
}

/// What validating two successive operations gives, once both encodings are
/// at hand: both must decode and be valid, the successor must name the
/// predecessor's content identifier, and the key that the predecessor
/// declares at `index` must verify the successor's signature.
pub open spec fn pair_validation(prev_buf: Seq<u8>, cur_buf: Seq<u8>, index: int) -> Result<
    (),
    Error,
> {
    match (operation_of(prev_buf), operation_of(cur_buf)) {
        (Some(prev), Some(cur)) => {
            if !is_valid(prev) || !is_valid(cur) {
                Err(Error::InvalidOperation)
            } else {
                match link_check(cur, cid_text(cbor_encoding(prev))) {
                    Err(e) => Err(e),
                    Ok(_) => match declared_keys_of(prev) {
                        Err(e) => Err(e),
                        Ok(keys) => signature_verification(cur, keys, index),
                    },
                }
            }
        },
        _ => Err(Error::InvalidOperation),
    }
}

/// Whether validating the pair gets as far as encoding: both operations
/// decode and are valid.
pub open spec fn pair_is_encoded(prev_buf: Seq<u8>, cur_buf: Seq<u8>) -> bool {
    &&& operation_of(prev_buf) matches Some(prev)
    &&& operation_of(cur_buf) matches Some(cur)
    &&& is_valid(prev)
    &&& is_valid(cur)
}

/// Whether validating the genesis operation gets as far as encoding: it
/// decodes, is valid, names no predecessor, declares keys and holds a
/// signature.
pub open spec fn genesis_is_encoded(buf: Seq<u8>) -> bool {
    &&& operation_of(buf) matches Some(op)
    &&& is_valid(op)
    &&& prev_of(op) == Ok::<Option<Seq<char>>, Error>(None)
    &&& declared_keys_of(op) is Ok
    &&& signature_of(op) is Ok
}

/// What validating a genesis operation against a binary identifier gives,
/// once its encodings are at hand.
pub open spec fn genesis_validation(buf: Seq<u8>, did: Seq<u8>, index: int) -> Result<(), Error> {
    match operation_of(buf) {
        None => Err(Error::InvalidOperation),
        Some(op) => {
            if !is_valid(op) {
                Err(Error::InvalidOperation)
            } else {
                match prev_of(op) {
                    Err(e) => Err(e),
                    Ok(Some(_)) => Err(Error::NotGenesisOperation),
                    Ok(None) => match declared_keys_of(op) {
                        Err(e) => Err(e),
                        Ok(keys) => match signature_verification(op, keys, index) {
                            Err(e) => Err(e),
                            Ok(_) => if binary_did(cbor_encoding(op)) == did {
                                Ok(())
                            } else {
                                Err(Error::DidMismatched)
                            },
                        },
                    },
                }
            }
        },
    }
}

/// What checking the final authorization gives: the key that the last
/// operation declares in `rotationKeys` at `index` must verify the signature
/// over the message.
pub open spec fn final_validation(buf: Seq<u8>, sig: Seq<u8>, msg: Seq<u8>, index: int) -> Result<
    (),
    Error,
> {
    match operation_of(buf) {
        None => Err(Error::InvalidOperation),
        Some(op) => match rotation_keys_of(op) {
            Err(e) => Err(e),
            Ok(keys) => signature_check(keys, index, msg, sig),
        },
    }
}

/// Checks that `prev` of the successor is the given content identifier.
pub fn check_link(cur_op: &Operation, cid: &str) -> (r: Result<(), Error>)
    ensures
        r == link_check(cur_op@, cid@),
{
    match cur_op.get_prev() {
        Ok(Some(prev)) => {
            if !text_eq(prev.as_str(), cid) {
                return Err(Error::InvalidPrev);
            }
            Ok(())
        },
        Ok(None) => Err(Error::MissingPrevField),
        Err(e) => Err(e),
    }
}

/// The rotation keys that an operation declares: those of a legacy
/// operation where it is one, else those of a canonical operation.
pub fn declared_keys(op: &Operation) -> (r: Result<Vec<PublicKey>, Error>)
    ensures
        match r {
            Ok(keys) => declared_keys_of(op@) == Ok::<Seq<PublicKeyModel>, Error>(key_models(keys@)),
            Err(e) => declared_keys_of(op@) == Err::<Seq<PublicKeyModel>, Error>(e),
        },
{
    if op.is_legacy() {
        op.get_legacy_rotation_keys()
    } else {
        op.get_rotation_keys()
    }
}

/// Validates two successive operations: the later one must be linked to the
/// earlier one and signed by the key that the earlier one declares at the
/// given index. Where the encoder cannot write, the result is
/// `InvalidOperation`.
pub fn validate_2_operations(prev_buf: &[u8], cur_buf: &[u8], rotation_key_index: usize) -> (r:
    Result<(), Error>)
    ensures
        r == pair_validation(prev_buf@, cur_buf@, rotation_key_index as int) || (r == Err::<
            (),
            Error,
        >(Error::InvalidOperation) && pair_is_encoded(prev_buf@, cur_buf@)),
{
    let prev_op = match Operation::from_slice(prev_buf) {
        Ok(op) => op,
        Err(e) => { return Err(e); },
    };
    let cur_op = match Operation::from_slice(cur_buf) {
        Ok(op) => op,
        Err(e) => { return Err(e); },
    };
    match prev_op.validate() {
        Ok(_) => {},
        Err(e) => { return Err(e); },
    }
    match cur_op.validate() {
        Ok(_) => {},
        Err(e) => { return Err(e); },
    }
    let cid = match prev_op.generate_cid() {
        Ok(cid) => cid,
        Err(e) => { return Err(e); },
    };
    match check_link(&cur_op, cid.as_str()) {
        Ok(_) => {},
        Err(e) => { return Err(e); },
    }
    let rotation_keys = match declared_keys(&prev_op) {
        Ok(keys) => keys,
        Err(e) => { return Err(e); },
    };
    cur_op.verify_signature(rotation_keys.as_slice(), rotation_key_index)
}

/// Validates a genesis operation against the binary identifier that it must
/// give. Where the encoder cannot write, the result is `InvalidOperation`.
pub fn validate_genesis_operation(buf: &[u8], binary_did: &[u8], rotation_key_index: usize) -> (r:
    Result<(), Error>)
    ensures
        r == genesis_validation(buf@, binary_did@, rotation_key_index as int) || (r == Err::<
            (),
            Error,
        >(Error::InvalidOperation) && genesis_is_encoded(buf@)),
{
    let op = match Operation::from_slice(buf) {
        Ok(op) => op,
        Err(e) => { return Err(e); },
    };
    match op.validate() {
        Ok(_) => {},
        Err(e) => { return Err(e); },
    }
    match op.get_prev() {
        Ok(Some(_)) => { return Err(Error::NotGenesisOperation); },
        Ok(None) => {},
        Err(e) => { return Err(e); },
    }
    let rotation_keys = match declared_keys(&op) {
        Ok(keys) => keys,
        Err(e) => { return Err(e); },
    };
    match op.verify_signature(rotation_keys.as_slice(), rotation_key_index) {
        Ok(_) => {},
        Err(e) => { return Err(e); },
    }
    let expected_did = match op.get_binary_did() {
        Ok(did) => did,
        Err(e) => { return Err(e); },
    };
    if !bytes_eq(binary_did, expected_did.as_slice()) {
        return Err(Error::DidMismatched);
    }
    Ok(())
}

/// Checks the final authorization: the signature over the message must
/// verify with the key that the last operation declares at the given index.
pub fn validate_final_operation(
    buf: &[u8],
    final_sig: &[u8],
    msg: &[u8],
    rotation_key_index: usize,
) -> (r: Result<(), Error>)
    ensures
        r == final_validation(buf@, final_sig@, msg@, rotation_key_index as int),
{
    let op = match Operation::from_slice(buf) {
        Ok(op) => op,
        Err(e) => { return Err(e); },
    };
    let rotation_keys = match op.get_rotation_keys() {
        Ok(keys) => keys,
        Err(e) => { return Err(e); },
    };
    check_signature(rotation_keys.as_slice(), rotation_key_index, msg, final_sig)
}

/// The byte strings of a history.
pub open spec fn history_bytes(history: Seq<Vec<u8>>) -> Seq<Seq<u8>> {
    history.map_values(|buf: Vec<u8>| buf@)
}

/// The key indices of a history as numbers.
pub open spec fn key_indices(indices: Seq<usize>) -> Seq<int> {
    indices.map_values(|i: usize| i as int)
}

/// What validating the links of a history from operation `from` on gives:
/// each operation against the one before it, with the key index of its place.
pub open spec fn links_validation(history: Seq<Seq<u8>>, indices: Seq<int>, from: int) -> Result<
    (),
    Error,
>
    decreases history.len() - from,
{
    if from < 1 || from >= history.len() {
        Ok(())
    } else {
        match pair_validation(history[from - 1], history[from], indices[from]) {
            Err(e) => Err(e),
            Ok(_) => links_validation(history, indices, from + 1),
        }
    }
}

/// What validating a whole history gives, once all encodings are at hand.
/// There must be an operation, and one key index more than operations: the
/// first for the genesis operation, the last for the final authorization.
pub open spec fn history_validation(
    did: Seq<u8>,
    history: Seq<Seq<u8>>,
    indices: Seq<int>,
    msg: Seq<u8>,
    final_sig: Seq<u8>,
) -> Result<(), Error> {
    if history.len() == 0 || history.len() + 1 != indices.len() {
        Err(Error::InvalidHistory)
    } else {
        match genesis_validation(history[0], did, indices[0]) {
            Err(e) => Err(e),
            Ok(_) => match links_validation(history, indices, 1) {
                Err(e) => Err(e),
                Ok(_) => final_validation(
                    history.last(),
                    final_sig,
                    msg,
                    indices[history.len() as int],
                ),
            },
        }
    }
}

/// Whether a history has the shape that validation asks for: at least one
/// operation, and one key index more than operations.
pub fn history_is_well_shaped(history_len: usize, indices_len: usize) -> (r: bool)
    ensures
        r == (history_len != 0 && history_len + 1 == indices_len),
{
    history_len != 0 && indices_len != 0 && history_len == indices_len - 1
}

/// Validates a history of operations, from its genesis operation to the
/// signature that authorizes the message. Where the encoder cannot write,
/// the result is `InvalidOperation`.
pub fn validate_operation_history(
    binary_did: &[u8],
    history: Vec<Vec<u8>>,
    rotation_key_indices: Vec<usize>,
    msg: &[u8],
    final_sig: &[u8],
) -> (r: Result<(), Error>)
    ensures
        r == history_validation(
            binary_did@,
            history_bytes(history@),
            key_indices(rotation_key_indices@),
            msg@,
            final_sig@,
        ) || (r == Err::<(), Error>(Error::InvalidOperation) && history@.len() != 0
            && history@.len() + 1 == rotation_key_indices@.len()
            && genesis_is_encoded(history@[0]@)),
{
    let history_len = history.len();
    if !history_is_well_shaped(history_len, rotation_key_indices.len()) {
        return Err(Error::InvalidHistory);
    }
    let ghost bufs = history_bytes(history@);
    let ghost indices = key_indices(rotation_key_indices@);
    match validate_genesis_operation(history[0].as_slice(), binary_did, rotation_key_indices[0]) {
        Ok(_) => {},
        Err(e) => { return Err(e); },
    }
    let mut index: usize = 1;
    while index < history_len
        invariant
            1 <= index <= history_len,
            history_len == history@.len(),
            history_len + 1 == rotation_key_indices@.len(),
            bufs == history_bytes(history@),
            indices == key_indices(rotation_key_indices@),
            genesis_validation(bufs[0], binary_did@, indices[0]) is Ok,
            links_validation(bufs, indices, 1) == links_validation(bufs, indices, index as int),
        decreases history_len - index,
    {
        match validate_2_operations(
            history[index - 1].as_slice(),
            history[index].as_slice(),
            rotation_key_indices[index],
        ) {
            Ok(_) => {},
            Err(e) => { return Err(e); },
        }
        index += 1;
    }
    validate_final_operation(
        history[history_len - 1].as_slice(),
        final_sig,
        msg,
        rotation_key_indices[history_len],
    )
}

} // verus!
