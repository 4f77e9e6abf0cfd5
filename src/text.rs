//! JSON text: reading and writing documents through serde_json, and the
//! byte-level entry points of the codec.
//!
//! serde_json parses and prints; everything between its `Value` and the
//! library's [`Json`] is converted here, one node at a time. What serde_json
//! holds, prints and parses is named by the spec functions below, and the
//! conversions are proved against those names.

use crate::json::{copy_number, Json, JsonV};
use crate::wire::{DecodeError, EncodeError, Wire};
use vstd::prelude::*;

verus! {

#[verifier::external_type_specification]
#[verifier::external_body]
pub struct ExValue(serde_json::Value);

#[verifier::external_type_specification]
#[verifier::external_body]
pub struct ExNumber(serde_json::Number);

#[verifier::external_type_specification]
#[verifier::external_body]
pub struct ExError(serde_json::Error);

/// The document that a serde_json value holds, objects in the order in which
/// the value keeps their entries.
pub uninterp spec fn value_doc(v: serde_json::Value) -> JsonV;

/// The document that a serde_json number holds: `UInt` for a non-negative
/// integer, `NegInt` for a negative one, and the number itself, as `Frac`,
/// for any other.
pub uninterp spec fn number_doc(n: serde_json::Number) -> JsonV;

/// The document held by a serde_json object built from these entries:
/// serde_json's map, with its order-preserving feature, keeps each key at
/// the place where it first came and the last value given for it.
pub open spec fn object_doc(entries: Seq<(Seq<char>, JsonV)>) -> JsonV {
    JsonV::Obj(merged(entries))
}

/// The position of key `k` among `es`, if it is there.
pub open spec fn key_at(es: Seq<(Seq<char>, JsonV)>, k: Seq<char>) -> Option<int>
    decreases es.len(),
{
    if es.len() == 0 {
        None
    } else if es.last().0 == k {
        Some(es.len() - 1)
    } else {
        key_at(es.drop_last(), k)
    }
}

/// Entries inserted one by one into an insertion-ordered map: a repeated
/// key keeps its place and takes the new value.
pub open spec fn merged(es: Seq<(Seq<char>, JsonV)>) -> Seq<(Seq<char>, JsonV)>
    decreases es.len(),
{
    if es.len() == 0 {
        es
    } else {
        let m = merged(es.drop_last());
        match key_at(m, es.last().0) {
            Some(i) => m.update(i, es.last()),
            None => m.push(es.last()),
        }
    }
}

/// The bytes that serde_json prints for a value holding `doc`.
pub uninterp spec fn json_text(doc: JsonV) -> Seq<u8>;

/// The string that serde_json prints for a value holding `doc`.
pub uninterp spec fn json_string(doc: JsonV) -> Seq<char>;

/// The document that serde_json parses from these bytes; `None` where it
/// refuses them.
pub uninterp spec fn text_doc(data: Seq<u8>) -> Option<JsonV>;

/// The document that serde_json parses from this string; `None` where it
/// refuses it.
pub uninterp spec fn str_doc(data: Seq<char>) -> Option<JsonV>;

/// Relies on serde_json::Number::as_u64: the number as a `u64`, where it is
/// a non-negative integer.
pub assume_specification[ serde_json::Number::as_u64 ](n: &serde_json::Number) -> (r: Option<u64>)
    ensures
        match r {
            Some(u) => number_doc(*n) == JsonV::UInt(u),
            None => !(number_doc(*n) is UInt),
        },
;

/// Relies on serde_json::Number::as_i64: the number as an `i64`, where it is
/// an integer in range.
pub assume_specification[ serde_json::Number::as_i64 ](n: &serde_json::Number) -> (r: Option<i64>)
    ensures
        match r {
            Some(i) => number_doc(*n) == if i < 0 {
                JsonV::NegInt(i)
            } else {
                JsonV::UInt(i as u64)
            },
            None => number_doc(*n) == JsonV::Frac(*n) || number_doc(*n) is UInt,
        },
;

/// One level of a serde_json document: its variant, with the children
/// still in serde_json's form.
pub enum Node {
    Null,
    Bool(bool),
    UInt(u64),
    NegInt(i64),
    Number(serde_json::Number),
    Str(String),
    Arr(Vec<serde_json::Value>),
    Obj(Vec<(String, serde_json::Value)>),
}

proof fn lemma_key_absent(es: Seq<(Seq<char>, JsonV)>, k: Seq<char>)
    requires
        forall|i: int| 0 <= i < es.len() ==> #[trigger] es[i].0 != k,
    ensures
        key_at(es, k) is None,
    decreases es.len(),
{
    if es.len() > 0 {
        assert(es.last().0 != k);
        assert forall|i: int| 0 <= i < es.drop_last().len() implies #[trigger] es.drop_last()[i].0 != k by {
            assert(es.drop_last()[i] == es[i]);
        }
        lemma_key_absent(es.drop_last(), k);
    }
}

/// An object whose keys are distinct holds its entries as they are, in
/// their order.
pub proof fn lemma_merged_distinct(es: Seq<(Seq<char>, JsonV)>)
    requires
        forall|i: int, j: int| 0 <= i < j < es.len() ==> es[i].0 != es[j].0,
    ensures
        merged(es) == es,
    decreases es.len(),
{
    if es.len() > 0 {
        let p = es.drop_last();
        assert forall|i: int, j: int| 0 <= i < j < p.len() implies p[i].0 != p[j].0 by {
            assert(p[i] == es[i] && p[j] == es[j]);
        }
        lemma_merged_distinct(p);
        assert forall|i: int| 0 <= i < p.len() implies #[trigger] p[i].0 != es.last().0 by {
            assert(p[i] == es[i]);
        }
        lemma_key_absent(p, es.last().0);
        assert(p.push(es.last()) =~= es);
    }
}

/// The documents of values.
pub open spec fn items_doc(items: Seq<serde_json::Value>) -> Seq<JsonV> {
    Seq::new(items.len(), |i: int| value_doc(items[i]))
}

/// The entries of documents of values.
pub open spec fn entries_doc(entries: Seq<(String, serde_json::Value)>) -> Seq<(Seq<char>, JsonV)> {
    Seq::new(entries.len(), |i: int| (entries[i].0@, value_doc(entries[i].1)))
}

/// The document of `n`, objects with their entries in the order given.
pub open spec fn node_doc(n: Node) -> JsonV {
    match n {
        Node::Null => JsonV::Null,
        Node::Bool(b) => JsonV::Bool(b),
        Node::UInt(u) => JsonV::UInt(u),
        Node::NegInt(i) => if i < 0 {
            JsonV::NegInt(i)
        } else {
            JsonV::UInt(i as u64)
        },
        Node::Number(x) => number_doc(x),
        Node::Str(s) => JsonV::Str(s@),
        Node::Arr(items) => JsonV::Arr(items_doc(items@)),
        Node::Obj(entries) => JsonV::Obj(entries_doc(entries@)),
    }
}

/// The document that serde_json holds for `j`: non-negative numbers are
/// unsigned, a number is read as serde_json reads it, and objects are
/// deduplicated as its map does.
pub open spec fn canon(j: JsonV) -> JsonV
    decreases j,
{
    match j {
        JsonV::NegInt(i) => if i < 0 {
            JsonV::NegInt(i)
        } else {
            JsonV::UInt(i as u64)
        },
        JsonV::Arr(items) => JsonV::Arr(
            Seq::new(
                items.len(),
                |i: int|
                    if 0 <= i < items.len() {
                        canon(items[i])
                    } else {
                        JsonV::Null
                    },
            ),
        ),
        JsonV::Obj(es) => object_doc(canon_entries(es)),
        JsonV::Frac(n) => number_doc(n),
        _ => j,
    }
}

/// The entries of an object with each value as serde_json holds it.
pub open spec fn canon_entries(es: Seq<(Seq<char>, JsonV)>) -> Seq<(Seq<char>, JsonV)>
    decreases es,
{
    Seq::new(
        es.len(),
        |i: int|
            if 0 <= i < es.len() {
                (es[i].0, canon(es[i].1))
            } else {
                (Seq::empty(), JsonV::Null)
            },
    )
}

/// Whether a document nests fewer than `n` levels.
pub open spec fn fits(d: JsonV, n: nat) -> bool
    decreases n, 0nat,
{
    if n == 0 {
        false
    } else {
        match d {
            JsonV::Arr(items) => all_fit(items, (n - 1) as nat),
            JsonV::Obj(es) => all_fit(Seq::new(es.len(), |i: int| es[i].1), (n - 1) as nat),
            _ => true,
        }
    }
}

/// Whether every document of `items` nests fewer than `n` levels.
pub open spec fn all_fit(items: Seq<JsonV>, n: nat) -> bool
    decreases n, items.len() + 1,
{
    if items.len() == 0 {
        true
    } else {
        fits(items[0], n) && all_fit(items.drop_first(), n)
    }
}

proof fn lemma_all_fit(items: Seq<JsonV>, n: nat)
    ensures
        all_fit(items, n) <==> forall|i: int| 0 <= i < items.len() ==> #[trigger] fits(items[i], n),
    decreases items.len(),
{
    if items.len() > 0 {
        lemma_all_fit(items.drop_first(), n);
        assert forall|i: int| 0 < i < items.len() implies #[trigger] fits(items[i], n) == fits(
            items.drop_first()[i - 1],
            n,
        ) by {}
        if forall|i: int| 0 <= i < items.len() ==> #[trigger] fits(items[i], n) {
            assert(fits(items[0], n));
            assert forall|i: int| 0 <= i < items.drop_first().len() implies #[trigger] fits(
                items.drop_first()[i],
                n,
            ) by {
                assert(fits(items[i + 1], n));
            }
        }
    }
}

/// Relies on serde_json::from_slice: parses JSON text into a `Value`.
#[verifier::external_body]
fn parse_slice(data: &[u8]) -> (r: Result<serde_json::Value, serde_json::Error>)
    ensures
        match r {
            Ok(v) => text_doc(data@) == Some(value_doc(v)),
            Err(_) => text_doc(data@) is None,
        },
{
    serde_json::from_slice(data)
}

/// Relies on serde_json::from_str: parses JSON text into a `Value`.
#[verifier::external_body]
fn parse_str(data: &str) -> (r: Result<serde_json::Value, serde_json::Error>)
    ensures
        match r {
            Ok(v) => str_doc(data@) == Some(value_doc(v)),
            Err(_) => str_doc(data@) is None,
        },
{
    serde_json::from_str(data)
}

/// Relies on serde_json::to_vec: prints a `Value` as JSON text. Printing a
/// `Value` does not fail: its object keys are strings, it holds no
/// non-finite number, and writing into a `Vec` has no I/O error.
#[verifier::external_body]
fn print_vec(v: &serde_json::Value) -> (r: Result<Vec<u8>, serde_json::Error>)
    ensures
        r is Ok,
        r->Ok_0@ == json_text(value_doc(*v)),
{
    serde_json::to_vec(v)
}

/// Relies on serde_json::to_string: prints a `Value` as JSON text. As with
/// `to_vec`, printing a `Value` does not fail.
#[verifier::external_body]
fn print_string(v: &serde_json::Value) -> (r: Result<String, serde_json::Error>)
    ensures
        r is Ok,
        r->Ok_0@ == json_string(value_doc(*v)),
{
    serde_json::to_string(v)
}

/// Relies on the variants of serde_json::Value: takes a value apart into its
/// variant and children.
#[verifier::external_body]
fn open_value(v: serde_json::Value) -> (r: Node)
    ensures
        !(r is UInt) && !(r is NegInt),
        value_doc(v) == node_doc(r),
{
    match v {
        serde_json::Value::Null => Node::Null,
        serde_json::Value::Bool(b) => Node::Bool(b),
        serde_json::Value::Number(n) => Node::Number(n),
        serde_json::Value::String(s) => Node::Str(s),
        serde_json::Value::Array(a) => Node::Arr(a),
        serde_json::Value::Object(m) => Node::Obj(m.into_iter().collect()),
    }
}

/// Relies on the variants of serde_json::Value and its `From` impls: builds
/// a value from its variant and children.
#[verifier::external_body]
fn close_value(n: Node) -> (r: serde_json::Value)
    ensures
        match n {
            Node::Obj(entries) => value_doc(r) == object_doc(entries_doc(entries@)),
            _ => value_doc(r) == node_doc(n),
        },
{
    match n {
        Node::Null => serde_json::Value::Null,
        Node::Bool(b) => serde_json::Value::Bool(b),
        Node::UInt(u) => serde_json::Value::from(u),
        Node::NegInt(i) => serde_json::Value::from(i),
        Node::Number(x) => serde_json::Value::Number(x),
        Node::Str(s) => serde_json::Value::String(s),
        Node::Arr(a) => serde_json::Value::Array(a),
        Node::Obj(o) => serde_json::Value::Object(o.into_iter().collect()),
    }
}

/// How deep a parsed document may nest. serde_json itself refuses documents
/// nested deeper than 128 levels.
pub const MAX_DEPTH: u32 = 256;

/// The library's document for a serde_json value; documents nested `depth`
/// levels or deeper are refused.
pub fn from_value(v: serde_json::Value, depth: u32) -> (r: Result<Json, DecodeError>)
    ensures
        if fits(value_doc(v), depth as nat) {
            r matches Ok(j) && j@ == value_doc(v)
        } else {
            r == Err::<Json, DecodeError>(DecodeError::TooDeep)
        },
    decreases depth,
{
    let ghost whole = v;
    if depth == 0 {
        return Err(DecodeError::TooDeep);
    }
    let next: u32 = depth - 1;
    let node = open_value(v);
    match node {
        Node::Null => Ok(Json::Null),
        Node::Bool(b) => Ok(Json::Bool(b)),
        Node::UInt(u) => Ok(Json::UInt(u)),
        Node::NegInt(i) => Ok(Json::NegInt(i)),
        Node::Number(n) => match n.as_u64() {
            Some(u) => Ok(Json::UInt(u)),
            None => match n.as_i64() {
                Some(i) => Ok(Json::NegInt(i)),
                None => Ok(Json::Frac(n)),
            },
        },
        Node::Str(s) => Ok(Json::Str(s)),
        Node::Arr(items) => {
            let ghost all = items@;
            let mut rest = items;
            let mut out: Vec<Json> = Vec::new();
            while rest.len() > 0
                invariant
                    next + 1 == depth,
                    whole == v,
                    value_doc(whole) == JsonV::Arr(items_doc(all)),
                    rest@ == all.subrange(0, rest@.len() as int),
                    out@.len() + rest@.len() == all.len(),
                    forall|k: int|
                        0 <= k < out@.len() ==> value_doc(all[rest@.len() + k]) == (
                        #[trigger] out@[k])@ && fits(out@[k]@, next as nat),
                decreases rest@.len(),
            {
                let item = match rest.pop() {
                    Some(x) => x,
                    None => return Err(DecodeError::TooDeep),
                };
                let ghost at = rest@.len() as int;
                assert(all[at] == item);
                match from_value(item, next) {
                    Ok(j) => {
                        out.insert(0, j);
                        assert forall|k: int| 0 <= k < out@.len() implies value_doc(
                            all[rest@.len() + k],
                        ) == (#[trigger] out@[k])@ && fits(out@[k]@, next as nat) by {
                            if k > 0 {
                                assert(out@[k] == old_out_at(out@, k));
                            }
                        }
                    },
                    Err(e) => {
                        proof {
                            let ds = items_doc(all);
                            assert(ds[at] == value_doc(all[at]));
                            assert((depth as nat - 1) as nat == next as nat);
                            lemma_fits_arr(ds, at, depth as nat);
                        }
                        return Err(e);
                    },
                }
            }
            let r = Json::Arr(out);
            proof {
                let ds = items_doc(all);
                assert(r@->Arr_0 =~= ds);
                assert forall|k: int| 0 <= k < ds.len() implies #[trigger] fits(ds[k], next as nat) by {
                    assert(out@[k]@ == ds[k]);
                }
                lemma_all_fit(ds, next as nat);
                assert((depth as nat - 1) as nat == next as nat);
                assert(fits(JsonV::Arr(ds), depth as nat));
            }
            Ok(r)
        },
        Node::Obj(entries) => {
            let ghost all = entries@;
            let mut rest = entries;
            let mut out: Vec<(String, Json)> = Vec::new();
            while rest.len() > 0
                invariant
                    next + 1 == depth,
                    whole == v,
                    value_doc(whole) == JsonV::Obj(entries_doc(all)),
                    rest@ == all.subrange(0, rest@.len() as int),
                    out@.len() + rest@.len() == all.len(),
                    forall|k: int|
                        0 <= k < out@.len() ==> (#[trigger] out@[k]).0 == all[rest@.len() + k].0
                            && value_doc(all[rest@.len() + k].1) == out@[k].1@ && fits(
                            out@[k].1@,
                            next as nat,
                        ),
                decreases rest@.len(),
            {
                let entry = match rest.pop() {
                    Some(x) => x,
                    None => return Err(DecodeError::TooDeep),
                };
                let ghost at = rest@.len() as int;
                assert(all[at] == entry);
                let (k, item) = entry;
                match from_value(item, next) {
                    Ok(j) => {
                        out.insert(0, (k, j));
                    },
                    Err(e) => {
                        proof {
                            let ds = entries_doc(all);
                            assert(ds[at].1 == value_doc(all[at].1));
                            assert((depth as nat - 1) as nat == next as nat);
                            lemma_fits_obj(ds, at, depth as nat);
                        }
                        return Err(e);
                    },
                }
            }
            let r = Json::Obj(out);
            proof {
                let ds = entries_doc(all);
                assert(r@->Obj_0 =~= ds);
                let vs = Seq::new(ds.len(), |i: int| ds[i].1);
                assert forall|k: int| 0 <= k < vs.len() implies #[trigger] fits(vs[k], next as nat) by {
                    assert(out@[k].1@ == ds[k].1);
                }
                lemma_all_fit(vs, next as nat);
                assert((depth as nat - 1) as nat == next as nat);
                assert(fits(JsonV::Obj(ds), depth as nat));
            }
            Ok(r)
        },
    }
}

proof fn lemma_fits_arr(ds: Seq<JsonV>, at: int, n: nat)
    requires
        0 <= at < ds.len(),
        !fits(ds[at], (n - 1) as nat),
    ensures
        !fits(JsonV::Arr(ds), n),
{
    lemma_all_fit(ds, (n - 1) as nat);
    assert(!fits(ds[at], (n - 1) as nat));
}

proof fn lemma_fits_obj(ds: Seq<(Seq<char>, JsonV)>, at: int, n: nat)
    requires
        0 <= at < ds.len(),
        !fits(ds[at].1, (n - 1) as nat),
    ensures
        !fits(JsonV::Obj(ds), n),
{
    let vs = Seq::new(ds.len(), |i: int| ds[i].1);
    lemma_all_fit(vs, (n - 1) as nat);
    assert(vs[at] == ds[at].1);
}

spec fn old_out_at(s: Seq<Json>, k: int) -> Json {
    s[k]
}

/// The serde_json value for a document.
pub fn to_value(j: &Json) -> (r: serde_json::Value)
    ensures
        value_doc(r) == canon(j@),
    decreases j,
{
    match j {
        Json::Null => {
            assert(j@ == JsonV::Null);
            close_value(Node::Null)
        },
        Json::Bool(b) => {
            assert(j@ == JsonV::Bool(*b));
            close_value(Node::Bool(*b))
        },
        Json::UInt(u) => {
            assert(j@ == JsonV::UInt(*u));
            close_value(Node::UInt(*u))
        },
        Json::NegInt(i) => {
            assert(j@ == JsonV::NegInt(*i));
            close_value(Node::NegInt(*i))
        },
        Json::Frac(n) => {
            assert(j@ == JsonV::Frac(*n));
            close_value(Node::Number(copy_number(n)))
        },
        Json::Str(s) => {
            assert(j@ == JsonV::Str(s@));
            close_value(Node::Str(s.clone()))
        },
        Json::Arr(v) => {
            let mut out: Vec<serde_json::Value> = Vec::new();
            let mut i: usize = 0;
            while i < v.len()
                invariant
                    *j == Json::Arr(*v),
                    i <= v@.len(),
                    out@.len() == i,
                    forall|k: int|
                        0 <= k < i ==> value_doc(#[trigger] out@[k]) == canon(v@[k]@),
                decreases v@.len() - i,
            {
                let ghost s = *j;
                assert(decreases_to!(s => s->Arr_0));
                assert(decreases_to!(*v => v@));
                assert(decreases_to!(v@ => v@[i as int]));
                out.push(to_value(&v[i]));
                i = i + 1;
            }
            let ghost outs = out@;
            let r = close_value(Node::Arr(out));
            proof {
                assert(j@ is Arr);
                assert(items_doc(outs) =~= canon(j@)->Arr_0);
                assert(value_doc(r) == canon(j@));
            }
            r
        },
        Json::Obj(v) => {
            let mut out: Vec<(String, serde_json::Value)> = Vec::new();
            let mut i: usize = 0;
            while i < v.len()
                invariant
                    *j == Json::Obj(*v),
                    i <= v@.len(),
                    out@.len() == i,
                    forall|k: int|
                        0 <= k < i ==> (#[trigger] out@[k]).0@ == v@[k].0@ && value_doc(out@[k].1)
                            == canon(v@[k].1@),
                decreases v@.len() - i,
            {
                let ghost s = *j;
                assert(decreases_to!(s => s->Obj_0));
                assert(decreases_to!(*v => v@));
                assert(decreases_to!(v@ => v@[i as int]));
                assert(decreases_to!(v@[i as int] => v@[i as int].1));
                out.push((v[i].0.clone(), to_value(&v[i].1)));
                i = i + 1;
            }
            let ghost outs = out@;
            let r = close_value(Node::Obj(out));
            proof {
                assert(j@ is Obj);
                let es = j@->Obj_0;
                assert(entries_doc(outs) =~= canon_entries(es));
                assert(value_doc(r) == canon(j@));
            }
            r
        },
    }
}

/// Parse JSON text into a document.
pub fn parse_json(data: &[u8]) -> (r: Result<Json, DecodeError>)
    ensures
        match text_doc(data@) {
            None => r == Err::<Json, DecodeError>(DecodeError::Syntax),
            Some(d) => if fits(d, MAX_DEPTH as nat) {
                r matches Ok(j) && j@ == d
            } else {
                r == Err::<Json, DecodeError>(DecodeError::TooDeep)
            },
        },
{
    match parse_slice(data) {
        Ok(v) => from_value(v, MAX_DEPTH),
        Err(_) => Err(DecodeError::Syntax),
    }
}

/// Parse JSON text, given as a string, into a document.
pub fn parse_json_str(data: &str) -> (r: Result<Json, DecodeError>)
    ensures
        match str_doc(data@) {
            None => r == Err::<Json, DecodeError>(DecodeError::Syntax),
            Some(d) => if fits(d, MAX_DEPTH as nat) {
                r matches Ok(j) && j@ == d
            } else {
                r == Err::<Json, DecodeError>(DecodeError::TooDeep)
            },
        },
{
    match parse_str(data) {
        Ok(v) => from_value(v, MAX_DEPTH),
        Err(_) => Err(DecodeError::Syntax),
    }
}

/// Print a document as JSON text.
pub fn print_json(j: &Json) -> (r: Vec<u8>)
    ensures
        r@ == json_text(canon(j@)),
{
    match print_vec(&to_value(j)) {
        Ok(b) => b,
        Err(_) => Vec::new(),
    }
}

/// Print a document as a JSON string.
pub fn print_json_string(j: &Json) -> (r: String)
    ensures
        r@ == json_string(canon(j@)),
{
    match print_string(&to_value(j)) {
        Ok(s) => s,
        Err(_) => String::new(),
    }
}

/// Serialize a wire message to JSON bytes: the text of the document the
/// message is written as. Fails exactly when it cannot be written.
pub fn to_json<T: Wire>(msg: &T) -> (r: Result<Vec<u8>, EncodeError>)
    ensures
        match msg.written() {
            Err(e) => r == Err::<Vec<u8>, EncodeError>(e),
            Ok(d) => r matches Ok(b) && b@ == json_text(canon(d)),
        },
{
    match msg.to_wire() {
        Ok(j) => Ok(print_json(&j)),
        Err(e) => Err(e),
    }
}

/// Serialize a wire message to a JSON string: the text of the document the
/// message is written as. Fails exactly when it cannot be written.
pub fn to_json_string<T: Wire>(msg: &T) -> (r: Result<String, EncodeError>)
    ensures
        match msg.written() {
            Err(e) => r == Err::<String, EncodeError>(e),
            Ok(d) => r matches Ok(s) && s@ == json_string(canon(d)),
        },
{
    match msg.to_wire() {
        Ok(j) => Ok(print_json_string(&j)),
        Err(e) => Err(e),
    }
}

/// Deserialize a wire message from JSON bytes: text that serde_json refuses
/// fails with `Syntax`, and text that nests too deep with `TooDeep`;
/// otherwise the result is what `T` reads from the parsed
/// document.
pub fn from_json<T: Wire>(data: &[u8]) -> (r: Result<T, DecodeError>)
    ensures
        match text_doc(data@) {
            None => r == Err::<T, DecodeError>(DecodeError::Syntax),
            Some(d) => if fits(d, MAX_DEPTH as nat) {
                T::read_as(d, r)
            } else {
                r == Err::<T, DecodeError>(DecodeError::TooDeep)
            },
        },
{
    match parse_json(data) {
        Ok(j) => T::from_wire(&j),
        Err(e) => Err(e),
    }
}

/// Deserialize a wire message from a JSON string, as [`from_json`] does
/// from bytes.
pub fn from_json_str<T: Wire>(data: &str) -> (r: Result<T, DecodeError>)
    ensures
        match str_doc(data@) {
            None => r == Err::<T, DecodeError>(DecodeError::Syntax),
            Some(d) => if fits(d, MAX_DEPTH as nat) {
                T::read_as(d, r)
            } else {
                r == Err::<T, DecodeError>(DecodeError::TooDeep)
            },
        },
{
    match parse_json_str(data) {
        Ok(j) => T::from_wire(&j),
        Err(e) => Err(e),
    }
}

} // verus!
