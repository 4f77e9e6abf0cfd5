//! A JSON document model and its mathematical view.

use vstd::prelude::*;

verus! {

/// A JSON document. Integers are held as `UInt` (non-negative) and
/// `NegInt` (negative); any other number is carried unread, in serde_json's
/// own form, as `Frac`.
#[derive(Debug)]
pub enum Json {
    Null,
    Bool(bool),
    UInt(u64),
    NegInt(i64),
    Frac(serde_json::Number),
    Str(String),
    Arr(Vec<Json>),
    Obj(Vec<(String, Json)>),
}

/// The mathematical value of a JSON document.
pub enum JsonV {
    Null,
    Bool(bool),
    UInt(u64),
    NegInt(i64),
    Frac(serde_json::Number),
    Str(Seq<char>),
    Arr(Seq<JsonV>),
    Obj(Seq<(Seq<char>, JsonV)>),
}

pub open spec fn json_view(j: Json) -> JsonV
    decreases j,
{
    match j {
        Json::Null => JsonV::Null,
        Json::Bool(b) => JsonV::Bool(b),
        Json::UInt(n) => JsonV::UInt(n),
        Json::NegInt(n) => JsonV::NegInt(n),
        Json::Frac(n) => JsonV::Frac(n),
        Json::Str(s) => JsonV::Str(s@),
        Json::Arr(v) => JsonV::Arr(
            Seq::new(
                v@.len(),
                |i: int|
                    if 0 <= i < v@.len() {
                        json_view(v@[i])
                    } else {
                        JsonV::Null
                    },
            ),
        ),
        Json::Obj(v) => JsonV::Obj(
            Seq::new(
                v@.len(),
                |i: int|
                    if 0 <= i < v@.len() {
                        (v@[i].0@, json_view(v@[i].1))
                    } else {
                        (Seq::empty(), JsonV::Null)
                    },
            ),
        ),
    }
}


impl View for Json {
    type V = JsonV;

    open spec fn view(&self) -> JsonV {
        json_view(*self)
    }
}

/// The entries of an object built from `fields`.
pub open spec fn fields_view(fields: Vec<(String, Json)>) -> Seq<(Seq<char>, JsonV)> {
    Json::Obj(fields)@->Obj_0
}

/// The shape of a document and of its view agree.
pub proof fn lemma_view_shape(j: Json)
    ensures
        (j is Null) == (j@ is Null),
        (j is Bool) == (j@ is Bool),
        (j is UInt) == (j@ is UInt),
        (j is NegInt) == (j@ is NegInt),
        (j is Frac) == (j@ is Frac),
        (j is Str) == (j@ is Str),
        (j is Arr) == (j@ is Arr),
        (j is Obj) == (j@ is Obj),
        j is Str ==> j@->Str_0 == j->Str_0@,
        j is UInt ==> j@->UInt_0 == j->UInt_0,
{
    match j {
        Json::Null => {},
        Json::Bool(_) => {},
        Json::UInt(_) => {},
        Json::NegInt(_) => {},
        Json::Frac(_) => {},
        Json::Str(_) => {},
        Json::Arr(_) => {},
        Json::Obj(_) => {},
    }
}

/// The value under the first entry of `fields` whose key is `k`.
pub open spec fn lookup(fields: Seq<(Seq<char>, JsonV)>, k: Seq<char>) -> Option<JsonV>
    decreases fields.len(),
{
    if fields.len() == 0 {
        None
    } else if fields[0].0 == k {
        Some(fields[0].1)
    } else {
        lookup(fields.drop_first(), k)
    }
}

/// `fields` without any entry whose key is `k`, in order.
pub open spec fn strip_key(fields: Seq<(Seq<char>, JsonV)>, k: Seq<char>) -> Seq<(Seq<char>, JsonV)>
    decreases fields.len(),
{
    if fields.len() == 0 {
        fields
    } else if fields[0].0 == k {
        strip_key(fields.drop_first(), k)
    } else {
        seq![fields[0]].add(strip_key(fields.drop_first(), k))
    }
}

/// A byte string as a JSON array of numbers.
pub open spec fn bytes_json(b: Seq<u8>) -> JsonV {
    JsonV::Arr(Seq::new(b.len(), |i: int| JsonV::UInt(b[i] as u64)))
}

/// Whether every item is a number that fits in a byte.
pub open spec fn all_bytes(items: Seq<JsonV>) -> bool {
    forall|i: int| 0 <= i < items.len() ==> (#[trigger] items[i] is UInt && items[i]->UInt_0 <= 255)
}

/// The byte string that a JSON array of small numbers stands for.
pub open spec fn json_bytes(j: JsonV) -> Option<Seq<u8>> {
    match j {
        JsonV::Arr(items) => if all_bytes(items) {
            Some(Seq::new(items.len(), |i: int| items[i]->UInt_0 as u8))
        } else {
            None
        },
        _ => None,
    }
}

/// Relies on serde_json::Number's `Clone`: the copy is the same number.
#[verifier::external_body]
pub(crate) fn copy_number(n: &serde_json::Number) -> (r: serde_json::Number)
    ensures
        r == *n,
{
    n.clone()
}

/// Text equality of an owned string and a string slice.
pub fn same_text(a: &String, b: &str) -> (r: bool)
    ensures
        r == (a@ == b@),
{
    let t = b.to_owned();
    *a == t
}

impl Clone for Json {
    fn clone(&self) -> Self {
        self.copy()
    }
}

impl Json {
    /// A deep copy of the document.
    pub fn copy(&self) -> (r: Json)
        ensures
            r@ == self@,
        decreases self,
    {
        match self {
            Json::Null => Json::Null,
            Json::Bool(b) => Json::Bool(*b),
            Json::UInt(n) => Json::UInt(*n),
            Json::NegInt(n) => Json::NegInt(*n),
            Json::Frac(n) => Json::Frac(copy_number(n)),
            Json::Str(s) => Json::Str(s.clone()),
            Json::Arr(v) => {
                let mut out: Vec<Json> = Vec::new();
                let mut i: usize = 0;
                while i < v.len()
                    invariant
                        *self == Json::Arr(*v),
                        i <= v@.len(),
                        out@.len() == i,
                        forall|k: int| 0 <= k < i ==> (#[trigger] out@[k])@ == v@[k]@,
                    decreases v@.len() - i,
                {
                    let ghost s = *self;
                    assert(decreases_to!(s => s->Arr_0));
                    assert(decreases_to!(*v => v@));
                    assert(decreases_to!(v@ => v@[i as int]));
                    let c = v[i].copy();
                    out.push(c);
                    i = i + 1;
                }
                let r = Json::Arr(out);
                assert(r@ is Arr && self@ is Arr);
                assert(r@->Arr_0 =~= self@->Arr_0);
                r
            },
            Json::Obj(v) => {
                let mut out: Vec<(String, Json)> = Vec::new();
                let mut i: usize = 0;
                while i < v.len()
                    invariant
                        *self == Json::Obj(*v),
                        i <= v@.len(),
                        out@.len() == i,
                        forall|k: int|
                            0 <= k < i ==> (#[trigger] out@[k]).0@ == v@[k].0@ && out@[k].1@ == v@[k].1@,
                    decreases v@.len() - i,
                {
                    let ghost s = *self;
                    assert(decreases_to!(s => s->Obj_0));
                    assert(decreases_to!(*v => v@));
                    assert(decreases_to!(v@ => v@[i as int]));
                    assert(decreases_to!(v@[i as int] => v@[i as int].1));
                    let c = v[i].1.copy();
                    out.push((v[i].0.clone(), c));
                    i = i + 1;
                }
                let r = Json::Obj(out);
                assert(r@->Obj_0 =~= self@->Obj_0);
                r
            },
        }
    }

    /// Position of the first entry of an object's `fields` under key `k`.
    pub fn find(fields: &Vec<(String, Json)>, k: &str) -> (r: Option<usize>)
        ensures
            match r {
                None => lookup(Json::Obj(*fields)@->Obj_0, k@) is None,
                Some(i) => i < fields@.len() && fields@[i as int].0@ == k@
                    && lookup(Json::Obj(*fields)@->Obj_0, k@) == Some(fields@[i as int].1@),
            },
    {
        let ghost all = Json::Obj(*fields)@->Obj_0;
        let mut i: usize = 0;
        assert(all.subrange(0, all.len() as int) =~= all);
        while i < fields.len()
            invariant
                i <= fields@.len(),
                all.len() == fields@.len(),
                all == Json::Obj(*fields)@->Obj_0,
                lookup(all, k@) == lookup(all.subrange(i as int, all.len() as int), k@),
            decreases fields@.len() - i,
        {
            let ghost rest = all.subrange(i as int, all.len() as int);
            assert(rest.drop_first() =~= all.subrange(i + 1, all.len() as int));
            assert(rest[0] == all[i as int]);
            if same_text(&fields[i].0, k) {
                return Some(i);
            }
            i = i + 1;
        }
        None
    }
}

/// The bytes as a JSON array of numbers.
pub fn bytes_to_json(b: &Vec<u8>) -> (r: Json)
    ensures
        r@ == bytes_json(b@),
{
    let mut out: Vec<Json> = Vec::new();
    let mut i: usize = 0;
    while i < b.len()
        invariant
            i <= b@.len(),
            out@.len() == i,
            forall|k: int| 0 <= k < i ==> (#[trigger] out@[k])@ == JsonV::UInt(b@[k] as u64),
        decreases b@.len() - i,
    {
        out.push(Json::UInt(b[i] as u64));
        i = i + 1;
    }
    let r = Json::Arr(out);
    assert(r@->Arr_0 =~= bytes_json(b@)->Arr_0);
    r
}

/// The bytes that a JSON array of small numbers stands for; `None` for
/// anything else.
pub fn json_to_bytes(j: &Json) -> (r: Option<Vec<u8>>)
    ensures
        match r {
            None => json_bytes(j@) is None,
            Some(b) => json_bytes(j@) == Some(b@),
        },
{
    match j {
        Json::Arr(v) => {
            let ghost items = j@->Arr_0;
            assert(j@ is Arr);
            let mut out: Vec<u8> = Vec::new();
            let mut i: usize = 0;
            while i < v.len()
                invariant
                    i <= v@.len(),
                    items.len() == v@.len(),
                    items == j@->Arr_0,
                    j@ == Json::Arr(*v)@,
                    j@ is Arr,
                    out@.len() == i,
                    forall|k: int| 0 <= k < i ==> (#[trigger] items[k]) is UInt && items[k]->UInt_0 <= 255,
                    forall|k: int| 0 <= k < i ==> #[trigger] out@[k] == items[k]->UInt_0 as u8,
                decreases v@.len() - i,
            {
                assert(items[i as int] == v@[i as int]@);
                match &v[i] {
                    Json::UInt(n) => {
                        assert(items[i as int] == JsonV::UInt(*n));
                        if *n > 255 {
                            assert(!all_bytes(items));
                            return None;
                        }
                        out.push(*n as u8);
                        assert(out@[i as int] == items[i as int]->UInt_0 as u8);
                    },
                    _ => {
                        assert(!(items[i as int] is UInt));
                        assert(!all_bytes(items));
                        return None;
                    },
                }
                i = i + 1;
            }
            assert(out@ =~= Seq::new(items.len(), |k: int| items[k]->UInt_0 as u8));
            Some(out)
        },
        _ => None,
    }
}

} // verus!
