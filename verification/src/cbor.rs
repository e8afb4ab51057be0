use vstd::prelude::*;
use crate::error::Error;

verus! {

/// A CBOR data item. A mapping keeps its entries in the order in which they
/// were read or pushed. `undefined` is read as `Null`; a floating-point item
/// cannot be held.
#[derive(Debug, PartialEq, Eq)]
pub enum CborValue {
    Null,
    Bool(bool),
    Integer(i128),
    Bytes(Vec<u8>),
    Text(String),
    Array(Vec<CborValue>),
    Mapping(Vec<(CborValue, CborValue)>),
    Tag(u64, Box<CborValue>),
}

/// The mathematical value of a CBOR data item.
pub enum CborModel {
    Null,
    Bool(bool),
    Integer(int),
    Float(u64),
    Bytes(Seq<u8>),
    Text(Seq<char>),
    Array(Seq<CborModel>),
    Mapping(Seq<(CborModel, CborModel)>),
    Tag(u64, Box<CborModel>),
}

impl CborModel {
    /// Whether a floating-point item occurs anywhere in the value.
    pub open spec fn has_float(self) -> bool
        decreases self,
    {
        match self {
            CborModel::Float(_) => true,
            CborModel::Array(items) => exists|i: int|
                0 <= i < items.len() && (#[trigger] items[i]).has_float(),
            CborModel::Mapping(entries) => exists|i: int|
                0 <= i < entries.len() && ((#[trigger] entries[i]).0.has_float()
                    || entries[i].1.has_float()),
            CborModel::Tag(_, inner) => inner.has_float(),
            _ => false,
        }
    }
}

impl CborValue {
    /// The mathematical value that this item stands for.
    pub open spec fn model(&self) -> CborModel
        decreases self,
    {
        match self {
            CborValue::Null => CborModel::Null,
            CborValue::Bool(b) => CborModel::Bool(*b),
            CborValue::Integer(i) => CborModel::Integer(*i as int),
            CborValue::Bytes(b) => CborModel::Bytes(b@),
            CborValue::Text(s) => CborModel::Text(s@),
            CborValue::Array(items) => CborModel::Array(
                Seq::new(
                    items@.len(),
                    |i: int|
                        if 0 <= i < items@.len() {
                            items@[i].model()
                        } else {
                            CborModel::Null
                        },
                ),
            ),
            CborValue::Mapping(entries) => CborModel::Mapping(
                Seq::new(
                    entries@.len(),
                    |i: int|
                        if 0 <= i < entries@.len() {
                            (entries@[i].0.model(), entries@[i].1.model())
                        } else {
                            (CborModel::Null, CborModel::Null)
                        },
                ),
            ),
            CborValue::Tag(t, inner) => CborModel::Tag(*t, Box::new(inner.model())),
        }
    }
}

#[verifier::external_type_specification]
#[verifier::external_body]
pub struct ExValue(cbor4ii::core::Value);

/// The decoder's own value type.
type Outer = cbor4ii::core::Value;

/// What a decoded `cbor4ii::core::Value` holds.
pub uninterp spec fn value_model(v: cbor4ii::core::Value) -> CborModel;

/// What `cbor4ii` reads from the front of a byte string: the first data item,
/// or nothing where the bytes are malformed or nested too deeply.
pub uninterp spec fn cbor_decoding(bytes: Seq<u8>) -> Option<CborModel>;

/// The bytes that `cbor4ii` writes for a data item.
pub uninterp spec fn cbor_encoding(m: CborModel) -> Seq<u8>;

/// One level of a decoded value, with its children still undecoded.
enum Item<'a> {
    Null,
    Bool(bool),
    Integer(i128),
    Float(u64),
    Bytes(&'a [u8]),
    Text(&'a str),
    Array(&'a [cbor4ii::core::Value]),
    Mapping(&'a [(cbor4ii::core::Value, cbor4ii::core::Value)]),
    Tag(u64, &'a cbor4ii::core::Value),
}

impl<'a> Item<'a> {
    spec fn model(self) -> CborModel {
        match self {
            Item::Null => CborModel::Null,
            Item::Bool(b) => CborModel::Bool(b),
            Item::Integer(i) => CborModel::Integer(i as int),
            Item::Float(bits) => CborModel::Float(bits),
            Item::Bytes(b) => CborModel::Bytes(b@),
            Item::Text(s) => CborModel::Text(s@),
            Item::Array(items) => CborModel::Array(
                items@.map_values(|x: cbor4ii::core::Value| value_model(x)),
            ),
            Item::Mapping(entries) => CborModel::Mapping(
                entries@.map_values(
                    |e: (cbor4ii::core::Value, cbor4ii::core::Value)|
                        (value_model(e.0), value_model(e.1)),
                ),
            ),
            Item::Tag(t, inner) => CborModel::Tag(t, Box::new(value_model(*inner))),
        }
    }
}

/// One level of a value to be encoded, with its children already built.
enum Parts {
    Null,
    Bool(bool),
    Integer(i128),
    Bytes(Vec<u8>),
    Text(String),
    Array(Vec<cbor4ii::core::Value>),
    Mapping(Vec<(cbor4ii::core::Value, cbor4ii::core::Value)>),
    Tag(u64, cbor4ii::core::Value),
}

impl Parts {
    spec fn model(self) -> CborModel {
        match self {
            Parts::Null => CborModel::Null,
            Parts::Bool(b) => CborModel::Bool(b),
            Parts::Integer(i) => CborModel::Integer(i as int),
            Parts::Bytes(b) => CborModel::Bytes(b@),
            Parts::Text(s) => CborModel::Text(s@),
            Parts::Array(items) => CborModel::Array(
                items@.map_values(|x: cbor4ii::core::Value| value_model(x)),
            ),
            Parts::Mapping(entries) => CborModel::Mapping(
                entries@.map_values(
                    |e: (cbor4ii::core::Value, cbor4ii::core::Value)|
                        (value_model(e.0), value_model(e.1)),
                ),
            ),
            Parts::Tag(t, inner) => CborModel::Tag(t, Box::new(value_model(inner))),
        }
    }
}

/// Tells the variants of `cbor4ii::core::Value` apart and hands out the fields
/// of the one at hand; a float is given by its bits (`to_bits`). Every
/// variant that the enum has is covered.
#[verifier::external_body]
fn inspect<'a>(v: &'a cbor4ii::core::Value) -> (r: Option<Item<'a>>)
    ensures
        r is Some,
        r matches Some(item) ==> item.model() == value_model(*v),
{
    match v {
        Outer::Null => Some(Item::Null),
        Outer::Bool(b) => Some(Item::Bool(*b)),
        Outer::Integer(i) => Some(Item::Integer(*i)),
        Outer::Float(x) => Some(Item::Float(x.to_bits())),
        Outer::Bytes(b) => Some(Item::Bytes(b)),
        Outer::Text(s) => Some(Item::Text(s)),
        Outer::Array(items) => Some(Item::Array(items)),
        Outer::Map(entries) => Some(Item::Mapping(entries)),
        Outer::Tag(t, inner) => Some(Item::Tag(*t, inner)),
        _ => None,
    }
}

/// Builds the variant of `cbor4ii::core::Value` that holds the given fields.
#[verifier::external_body]
fn assemble(p: Parts) -> (v: cbor4ii::core::Value)
    ensures
        value_model(v) == p.model(),
{
    match p {
        Parts::Null => Outer::Null,
        Parts::Bool(b) => Outer::Bool(b),
        Parts::Integer(i) => Outer::Integer(i),
        Parts::Bytes(b) => Outer::Bytes(b),
        Parts::Text(s) => Outer::Text(s),
        Parts::Array(items) => Outer::Array(items),
        Parts::Mapping(entries) => Outer::Map(entries),
        Parts::Tag(t, inner) => Outer::Tag(t, Box::new(inner)),
    }
}

/// `Value::decode` on a `SliceReader` over the bytes: the first data item of
/// the buffer, whatever follows it; nothing where the decoder reports an error.
#[verifier::external_body]
fn decode_outside(buf: &[u8]) -> (r: Option<cbor4ii::core::Value>)
    ensures
        r matches Some(v) ==> cbor_decoding(buf@) == Some(value_model(v)),
        r is None ==> cbor_decoding(buf@) is None,
{
    let mut reader = cbor4ii::core::utils::SliceReader::new(buf);
    <cbor4ii::core::Value as cbor4ii::core::dec::Decode>::decode(&mut reader).ok()
}

/// `Value::encode` into a `BufWriter` over an empty vector. The writer fails
/// where it cannot reserve memory; nothing is promised of when.
#[verifier::external_body]
fn encode_outside(v: &cbor4ii::core::Value) -> (r: Option<Vec<u8>>)
    ensures
        r matches Some(bytes) ==> bytes@ == cbor_encoding(value_model(*v)),
{
    let mut writer = cbor4ii::core::utils::BufWriter::new(Vec::new());
    match cbor4ii::core::enc::Encode::encode(v, &mut writer) {
        Ok(()) => Some(writer.into_inner()),
        Err(_) => None,
    }
}

impl View for CborValue {
    type V = CborModel;

    open spec fn view(&self) -> CborModel {
        self.model()
    }
}

/// The models of a list of entries.
pub open spec fn entry_models(entries: Seq<(CborValue, CborValue)>) -> Seq<(CborModel, CborModel)> {
    Seq::new(entries.len(), |i: int| (entries[i].0@, entries[i].1@))
}

/// The models of a list of items.
pub open spec fn item_models(items: Seq<CborValue>) -> Seq<CborModel> {
    Seq::new(items.len(), |i: int| items[i]@)
}

/// The model of a mapping holds the models of its entries, in their order.
pub proof fn lemma_mapping_model(c: CborValue)
    requires
        c is Mapping,
    ensures
        c@ is Mapping,
        c@->Mapping_0 == entry_models(c->Mapping_0@),
        c@->Mapping_0.len() == c->Mapping_0@.len(),
        forall|i: int|
            0 <= i < c->Mapping_0@.len() ==> #[trigger] c@->Mapping_0[i] == (
                c->Mapping_0@[i].0@,
                c->Mapping_0@[i].1@,
            ),
{
    assert(c@->Mapping_0 =~= entry_models(c->Mapping_0@));
}

/// The model of an array holds the models of its items, in their order.
pub proof fn lemma_array_model(c: CborValue)
    requires
        c is Array,
    ensures
        c@ is Array,
        c@->Array_0 == item_models(c->Array_0@),
        c@->Array_0.len() == c->Array_0@.len(),
        forall|i: int| 0 <= i < c->Array_0@.len() ==> #[trigger] c@->Array_0[i] == c->Array_0@[i]@,
{
    assert(c@->Array_0 =~= item_models(c->Array_0@));
}

/// A value and its model are of the same kind, and a text has the same
/// characters in both.
pub proof fn lemma_model_kind(c: CborValue)
    ensures
        c@ is Text <==> c is Text,
        c is Text ==> c@->Text_0 == c->Text_0@,
        c@ is Array <==> c is Array,
        c@ is Mapping <==> c is Mapping,
        c@ is Null <==> c is Null,
{
}

/// A value that the library holds has no floating-point item in it.
pub proof fn lemma_value_has_no_float(c: CborValue)
    ensures
        !c@.has_float(),
    decreases c,
{
    match c {
        CborValue::Array(items) => {
            assert forall|i: int| 0 <= i < items@.len() implies !(#[trigger] items@[i]).model().has_float() by {
                lemma_value_has_no_float(items@[i]);
            }
        },
        CborValue::Mapping(entries) => {
            assert forall|i: int| 0 <= i < entries@.len() implies !(#[trigger] entries@[i]).0.model().has_float()
                && !entries@[i].1.model().has_float() by {
                lemma_value_has_no_float(entries@[i].0);
                lemma_value_has_no_float(entries@[i].1);
            }
        },
        CborValue::Tag(_, inner) => {
            lemma_value_has_no_float(*inner);
        },
        _ => {},
    }
}

/// Copies a decoded value into the library's own type. Fails where a
/// floating-point item occurs in it.
fn lift(v: &cbor4ii::core::Value) -> (r: Option<CborValue>)
    ensures
        r matches Some(c) ==> c@ == value_model(*v),
        r is None <==> value_model(*v).has_float(),
    decreases value_model(*v),
{
    let r = match inspect(v) {
        None => None,
        Some(Item::Null) => Some(CborValue::Null),
        Some(Item::Bool(b)) => Some(CborValue::Bool(b)),
        Some(Item::Integer(i)) => Some(CborValue::Integer(i)),
        Some(Item::Float(_)) => None,
        Some(Item::Bytes(b)) => Some(CborValue::Bytes(vstd::slice::slice_to_vec(b))),
        Some(Item::Text(s)) => Some(CborValue::Text(s.to_owned())),
        Some(Item::Array(items)) => {
            let ghost children = items@.map_values(|x: cbor4ii::core::Value| value_model(x));
            let mut out: Vec<CborValue> = Vec::new();
            let mut i: usize = 0;
            while i < items.len()
                invariant
                    i <= items@.len(),
                    out@.len() == i,
                    children.len() == items@.len(),
                    forall|j: int| 0 <= j < children.len() ==> children[j] == value_model(#[trigger] items@[j]),
                    forall|j: int| 0 <= j < i ==> (#[trigger] out@[j]).model() == children[j],
                    value_model(*v) is Array,
                    value_model(*v)->Array_0 == children,
                decreases items@.len() - i,
            {
                proof {
                    assert(children[i as int] == value_model(items@[i as int]));
                    assert(decreases_to!(children => children[i as int]));
                }
                match lift(&items[i]) {
                    Some(c) => out.push(c),
                    None => {
                        assert(children[i as int].has_float());
                        return None;
                    },
                }
                i += 1;
            }
            let c = CborValue::Array(out);
            assert(c@ =~= value_model(*v)) by {
                assert(c@->Array_0 =~= children);
            }
            Some(c)
        },
        Some(Item::Mapping(entries)) => {
            let ghost children = entries@.map_values(
                |e: (cbor4ii::core::Value, cbor4ii::core::Value)| (value_model(e.0), value_model(e.1)),
            );
            let mut out: Vec<(CborValue, CborValue)> = Vec::new();
            let mut i: usize = 0;
            while i < entries.len()
                invariant
                    i <= entries@.len(),
                    out@.len() == i,
                    children.len() == entries@.len(),
                    forall|j: int| 0 <= j < children.len() ==> children[j] == (
                        value_model((#[trigger] entries@[j]).0),
                        value_model(entries@[j].1),
                    ),
                    forall|j: int| 0 <= j < i ==> ((#[trigger] out@[j]).0.model(), out@[j].1.model()) == children[j],
                    value_model(*v) is Mapping,
                    value_model(*v)->Mapping_0 == children,
                decreases entries@.len() - i,
            {
                proof {
                    assert(children[i as int] == (
                        value_model(entries@[i as int].0),
                        value_model(entries@[i as int].1),
                    ));
                    assert(decreases_to!(children => children[i as int]));
                    assert(decreases_to!(children[i as int] => children[i as int].0));
                    assert(decreases_to!(children[i as int] => children[i as int].1));
                }
                let key = match lift(&entries[i].0) {
                    Some(c) => c,
                    None => {
                        assert(children[i as int].0.has_float());
                        return None;
                    },
                };
                let value = match lift(&entries[i].1) {
                    Some(c) => c,
                    None => {
                        assert(children[i as int].1.has_float());
                        return None;
                    },
                };
                out.push((key, value));
                i += 1;
            }
            let c = CborValue::Mapping(out);
            assert(c@ =~= value_model(*v)) by {
                assert(c@->Mapping_0 =~= children);
            }
            Some(c)
        },
        Some(Item::Tag(t, inner)) => {
            assert(value_model(*v) is Tag && *value_model(*v)->Tag_1 == value_model(*inner));
            match lift(inner) {
                Some(c) => Some(CborValue::Tag(t, Box::new(c))),
                None => None,
            }
        },
    };
    proof {
        if r is Some {
            lemma_value_has_no_float(r->Some_0);
        }
    }
    r
}

/// Builds the value that the encoder takes from the library's own type.
fn lower(c: &CborValue) -> (v: cbor4ii::core::Value)
    ensures
        value_model(v) == c@,
    decreases c,
{
    match c {
        CborValue::Null => assemble(Parts::Null),
        CborValue::Bool(b) => assemble(Parts::Bool(*b)),
        CborValue::Integer(i) => assemble(Parts::Integer(*i)),
        CborValue::Bytes(b) => assemble(Parts::Bytes(vstd::slice::slice_to_vec(b.as_slice()))),
        CborValue::Text(s) => assemble(Parts::Text(s.clone())),
        CborValue::Array(items) => {
            let mut out: Vec<cbor4ii::core::Value> = Vec::new();
            let mut i: usize = 0;
            while i < items.len()
                invariant
                    i <= items@.len(),
                    out@.len() == i,
                    forall|j: int| 0 <= j < i ==> value_model(#[trigger] out@[j]) == items@[j].model(),
                    c is Array,
                    c->Array_0 == *items,
                decreases items@.len() - i,
            {
                out.push(lower(&items[i]));
                i += 1;
            }
            let p = Parts::Array(out);
            assert(p.model()->Array_0 =~= c@->Array_0);
            assemble(p)
        },
        CborValue::Mapping(entries) => {
            let mut out: Vec<(cbor4ii::core::Value, cbor4ii::core::Value)> = Vec::new();
            let mut i: usize = 0;
            while i < entries.len()
                invariant
                    i <= entries@.len(),
                    out@.len() == i,
                    forall|j: int| 0 <= j < i ==> value_model((#[trigger] out@[j]).0) == entries@[j].0.model()
                        && value_model(out@[j].1) == entries@[j].1.model(),
                    c is Mapping,
                    c->Mapping_0 == *entries,
                decreases entries@.len() - i,
            {
                let key = lower(&entries[i].0);
                let value = lower(&entries[i].1);
                out.push((key, value));
                i += 1;
            }
            let p = Parts::Mapping(out);
            assert(p.model()->Mapping_0 =~= c@->Mapping_0);
            assemble(p)
        },
        CborValue::Tag(t, inner) => {
            let v = lower(inner);
            assemble(Parts::Tag(*t, v))
        },
    }
}

impl CborValue {
    /// A copy of the value.
    pub fn deep_copy(&self) -> (r: CborValue)
        ensures
            r@ == self@,
        decreases self,
    {
        match self {
            CborValue::Null => CborValue::Null,
            CborValue::Bool(b) => CborValue::Bool(*b),
            CborValue::Integer(i) => CborValue::Integer(*i),
            CborValue::Bytes(b) => CborValue::Bytes(vstd::slice::slice_to_vec(b.as_slice())),
            CborValue::Text(s) => CborValue::Text(s.clone()),
            CborValue::Array(items) => {
                let mut out: Vec<CborValue> = Vec::new();
                let mut i: usize = 0;
                while i < items.len()
                    invariant
                        i <= items@.len(),
                        out@.len() == i,
                        forall|j: int| 0 <= j < i ==> (#[trigger] out@[j]).model() == items@[j].model(),
                        self is Array,
                        self->Array_0 == *items,
                    decreases items@.len() - i,
                {
                    out.push(items[i].deep_copy());
                    i += 1;
                }
                let r = CborValue::Array(out);
                assert(r@->Array_0 =~= self@->Array_0);
                r
            },
            CborValue::Mapping(entries) => {
                let mut out: Vec<(CborValue, CborValue)> = Vec::new();
                let mut i: usize = 0;
                while i < entries.len()
                    invariant
                        i <= entries@.len(),
                        out@.len() == i,
                        forall|j: int| 0 <= j < i ==> (#[trigger] out@[j]).0.model() == entries@[j].0.model()
                            && out@[j].1.model() == entries@[j].1.model(),
                        self is Mapping,
                        self->Mapping_0 == *entries,
                    decreases entries@.len() - i,
                {
                    let key = entries[i].0.deep_copy();
                    let value = entries[i].1.deep_copy();
                    out.push((key, value));
                    i += 1;
                }
                let r = CborValue::Mapping(out);
                assert(r@->Mapping_0 =~= self@->Mapping_0);
                r
            },
            CborValue::Tag(t, inner) => CborValue::Tag(*t, Box::new(inner.deep_copy())),
        }
    }
}

/// What decoding gives: the first data item of the bytes, where there is one
/// and no floating-point item occurs in it.
pub open spec fn decoded(bytes: Seq<u8>) -> Option<CborModel> {
    match cbor_decoding(bytes) {
        Some(m) => if m.has_float() { None } else { Some(m) },
        None => None,
    }
}

/// Decodes the first CBOR data item of `buf`. Bytes after that item are not
/// looked at.
pub fn decode(buf: &[u8]) -> (r: Result<CborValue, Error>)
    ensures
        match r {
            Ok(c) => decoded(buf@) == Some(c@),
            Err(e) => e == Error::InvalidCbor && decoded(buf@) is None,
        },
{
    match decode_outside(buf) {
        Some(v) => match lift(&v) {
            Some(c) => Ok(c),
            None => Err(Error::InvalidCbor),
        },
        None => Err(Error::InvalidCbor),
    }
}

/// Encodes a value, entries of a mapping in the order in which they stand.
/// Gives `None` where the encoder could not write: its writer reserves memory
/// for every piece and reports it where that fails, so success is the
/// encoder's to decide, for every value.
pub fn encode(c: &CborValue) -> (r: Option<Vec<u8>>)
    ensures
        r matches Some(bytes) ==> bytes@ == cbor_encoding(c@),
{
    let v = lower(c);
    encode_outside(&v)
}

} // verus!
