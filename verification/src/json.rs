//! JSON values as plain data, and the passage between them and their text.
//!
//! Text is read and written by `serde_json`; everything that looks inside a
//! value works on [`Json`].
use crate::text::{opt, same};
use vstd::prelude::*;

verus! {

/// `serde_json::Value`, a value that only passes through.
#[verifier::external_type_specification]
#[verifier::external_body]
pub struct ExValue(serde_json::Value);

/// `serde_json::Number`, kept for the doubles among the numbers.
#[verifier::external_type_specification]
#[verifier::external_body]
pub struct ExNumber(serde_json::Number);

/// A number: an integer, or the bit pattern of a finite double.
pub enum NumV {
    Int(int),
    Float(u64),
}

/// A JSON value. An object is the mapping of its keys.
pub enum JsonV {
    Null,
    Bool(bool),
    Num(NumV),
    Str(Seq<char>),
    Arr(Seq<JsonV>),
    Obj(Map<Seq<char>, JsonV>),
}

/// A number as it is stored: an integer, or a double as `serde_json` read it.
#[derive(Debug)]
pub enum Num {
    Pos(u64),
    Neg(i64),
    Float(serde_json::Number),
}

/// A double, held as `serde_json` holds it.
#[derive(Debug)]
pub struct Double {
    n: serde_json::Number,
}

/// A JSON value as plain data.
#[derive(Debug)]
pub enum Json {
    Null,
    Bool(bool),
    Num(Num),
    Str(String),
    Arr(Vec<Json>),
    Obj(Vec<(String, Json)>),
}

/// The mapping that a list of entries makes; of two entries with one key the
/// later counts.
pub open spec fn entries_map(e: Seq<(Seq<char>, JsonV)>) -> Map<Seq<char>, JsonV>
    decreases e.len(),
{
    if e.len() == 0 {
        Map::empty()
    } else {
        entries_map(e.drop_last()).insert(e.last().0, e.last().1)
    }
}

/// No key occurs twice.
pub open spec fn distinct_keys(e: Seq<(Seq<char>, JsonV)>) -> bool {
    forall|i: int, j: int| 0 <= i < j < e.len() ==> (#[trigger] e[i]).0 != (#[trigger] e[j]).0
}

impl Json {
    /// The value meant.
    pub open spec fn view(&self) -> JsonV
        decreases self,
    {
        match self {
            Json::Null => JsonV::Null,
            Json::Bool(b) => JsonV::Bool(*b),
            Json::Num(Num::Pos(n)) => JsonV::Num(NumV::Int(*n as int)),
            Json::Num(Num::Neg(n)) => JsonV::Num(NumV::Int(*n as int)),
            Json::Num(Num::Float(n)) => JsonV::Num(num_of(*n)),
            Json::Str(s) => JsonV::Str(s@),
            Json::Arr(v) => {
                proof {
                    assert(decreases_to!(*v => v@));
                }
                JsonV::Arr(jsons(v@))
            },
            Json::Obj(v) => {
                proof {
                    assert(decreases_to!(*v => v@));
                }
                JsonV::Obj(entries_map(entries(v@)))
            },
        }
    }
}

/// The values of a list.
pub open spec fn jsons(v: Seq<Json>) -> Seq<JsonV>
    decreases v,
{
    Seq::new(
        v.len(),
        |i: int|
            if 0 <= i < v.len() {
                v[i].view()
            } else {
                JsonV::Null
            },
    )
}

/// The entries of an object.
pub open spec fn entries(v: Seq<(String, Json)>) -> Seq<(Seq<char>, JsonV)>
    decreases v,
{
    Seq::new(
        v.len(),
        |i: int|
            if 0 <= i < v.len() {
                (v[i].0@, v[i].1.view())
            } else {
                (Seq::empty(), JsonV::Null)
            },
    )
}

/// The field `key` of an object.
pub open spec fn field(j: JsonV, key: Seq<char>) -> Option<JsonV> {
    match j {
        JsonV::Obj(m) => if m.contains_key(key) {
            Some(m[key])
        } else {
            None
        },
        _ => None,
    }
}

/// What indexing by `key` gives: the field, or null where there is none.
pub open spec fn at(j: JsonV, key: Seq<char>) -> JsonV {
    match field(j, key) {
        Some(x) => x,
        None => JsonV::Null,
    }
}

/// The text of a string value.
pub open spec fn str_of(j: JsonV) -> Option<Seq<char>> {
    match j {
        JsonV::Str(s) => Some(s),
        _ => None,
    }
}

/// The truth of a boolean value.
pub open spec fn bool_of(j: JsonV) -> Option<bool> {
    match j {
        JsonV::Bool(b) => Some(b),
        _ => None,
    }
}

/// The integer of a number that is one and fits 64 signed bits.
pub open spec fn i64_of(j: JsonV) -> Option<i64> {
    match j {
        JsonV::Num(NumV::Int(n)) => if i64::MIN <= n <= i64::MAX {
            Some(n as i64)
        } else {
            None
        },
        _ => None,
    }
}

/// The bit pattern of the double nearest to an integer.
pub uninterp spec fn nearest_double(n: int) -> u64;

/// The bit pattern of a number read as a double.
pub open spec fn double_of(j: JsonV) -> Option<u64> {
    match j {
        JsonV::Num(NumV::Int(n)) => Some(nearest_double(n)),
        JsonV::Num(NumV::Float(b)) => Some(b),
        _ => None,
    }
}

/// No double anywhere, and containers nested no deeper than `depth`.
pub open spec fn exact(j: JsonV, depth: nat) -> bool
    decreases depth,
{
    match j {
        JsonV::Num(NumV::Float(_)) => false,
        JsonV::Num(NumV::Int(n)) => i64::MIN <= n <= u64::MAX,
        JsonV::Arr(s) => depth > 0 && forall|i: int|
            0 <= i < s.len() ==> #[trigger] exact(s[i], (depth - 1) as nat),
        JsonV::Obj(m) => depth > 0 && forall|k: Seq<char>|
            m.contains_key(k) ==> #[trigger] exact(m[k], (depth - 1) as nat),
        _ => true,
    }
}

// ---------------------------------------------------------------------------
// serde_json
// ---------------------------------------------------------------------------

/// What a `serde_json::Value` holds.
pub uninterp spec fn json_of(v: serde_json::Value) -> JsonV;

/// What a `serde_json::Number` holds.
pub uninterp spec fn num_of(n: serde_json::Number) -> NumV;

/// What `serde_json::from_str` reads a text as; nothing where it is no JSON.
pub uninterp spec fn parsed(text: Seq<char>) -> Option<JsonV>;

/// The compact text that `serde_json` writes for a value.
pub uninterp spec fn rendered(j: JsonV) -> Seq<char>;

pub open spec fn values(v: Seq<serde_json::Value>) -> Seq<JsonV> {
    Seq::new(v.len(), |i: int| json_of(v[i]))
}

pub open spec fn pairs(v: Seq<(String, serde_json::Value)>) -> Seq<(Seq<char>, JsonV)> {
    Seq::new(v.len(), |i: int| (v[i].0@, json_of(v[i].1)))
}

/// Calls `serde_json::from_str` for a `Value`; which texts it takes and what it
/// reads them as depends on the text alone.
#[verifier::external_body]
fn value_from_str(text: &str) -> (r: Option<serde_json::Value>)
    ensures
        match r {
            Some(v) => parsed(text@) == Some(json_of(v)),
            None => parsed(text@) is None,
        },
{
    serde_json::from_str::<serde_json::Value>(text).ok()
}

/// Calls `Value::to_string`, the compact text of the value. Reading it back gives
/// the value again, where it holds no double (doubles are read back only to
/// within rounding) and is not nested deeper than the reader's limit.
#[verifier::external_body]
fn value_to_string(v: &serde_json::Value) -> (r: String)
    ensures
        r@ == rendered(json_of(*v)),
        exact(json_of(*v), 127) ==> parsed(r@) == Some(json_of(*v)),
{
    v.to_string()
}

/// Calls `Value::as_bool`: the truth of a boolean, nothing for any other value.
#[verifier::external_body]
fn value_as_bool(v: &serde_json::Value) -> (r: Option<bool>)
    ensures
        r == bool_of(json_of(*v)),
{
    v.as_bool()
}

/// Calls `Value::as_number`: the number of a number, nothing for any other value.
#[verifier::external_body]
fn value_as_number(v: &serde_json::Value) -> (r: Option<serde_json::Number>)
    ensures
        match r {
            Some(n) => json_of(*v) == JsonV::Num(num_of(n)),
            None => !(json_of(*v) is Num),
        },
{
    v.as_number().cloned()
}

/// Calls `Number::as_u64`: an integer that is not negative.
#[verifier::external_body]
fn number_as_u64(n: &serde_json::Number) -> (r: Option<u64>)
    ensures
        match r {
            Some(k) => num_of(*n) == NumV::Int(k as int),
            None => !(num_of(*n) matches NumV::Int(k) && 0 <= k),
        },
{
    n.as_u64()
}

/// Calls `Number::as_i64`: an integer that fits 64 signed bits. Every integer that
/// a number holds fits either these or 64 unsigned bits.
#[verifier::external_body]
fn number_as_i64(n: &serde_json::Number) -> (r: Option<i64>)
    ensures
        match r {
            Some(k) => num_of(*n) == NumV::Int(k as int),
            None => !(num_of(*n) matches NumV::Int(k) && k <= i64::MAX),
        },
{
    n.as_i64()
}

/// Calls `Number::as_f64` and `Number::from_f64`: the number as a double, an integer
/// as the double nearest to it. Both always give a number here, since every number
/// that `serde_json` holds is finite.
#[verifier::external_body]
fn number_to_double(n: &serde_json::Number) -> (r: Option<serde_json::Number>)
    ensures
        match r {
            Some(x) => num_of(x) == NumV::Float(
                match num_of(*n) {
                    NumV::Int(k) => nearest_double(k),
                    NumV::Float(b) => b,
                },
            ),
            None => false,
        },
{
    n.as_f64().and_then(serde_json::Number::from_f64)
}

/// Calls `Value::as_str`: the text of a string, nothing for any other value.
#[verifier::external_body]
fn value_as_str(v: &serde_json::Value) -> (r: Option<String>)
    ensures
        opt(r) == str_of(json_of(*v)),
{
    v.as_str().map(|s| s.to_string())
}

/// Calls `Value::as_array`: the elements of an array, nothing for any other value.
#[verifier::external_body]
fn value_as_array(v: &serde_json::Value) -> (r: Option<&Vec<serde_json::Value>>)
    ensures
        match r {
            Some(a) => json_of(*v) == JsonV::Arr(values(a@)),
            None => !(json_of(*v) is Arr),
        },
{
    v.as_array()
}

/// Calls `Value::as_object`: the entries of an object, no key twice; nothing for any
/// other value.
#[verifier::external_body]
fn value_as_object(v: &serde_json::Value) -> (r: Option<Vec<(String, serde_json::Value)>>)
    ensures
        match r {
            Some(e) => json_of(*v) == JsonV::Obj(entries_map(pairs(e@))) && distinct_keys(pairs(e@)),
            None => !(json_of(*v) is Obj),
        },
{
    v.as_object().map(|m| m.iter().map(|(k, x)| (k.clone(), x.clone())).collect())
}

/// Calls `Value::default`, the null value.
#[verifier::external_body]
fn null_value() -> (r: serde_json::Value)
    ensures
        json_of(r) is Null,
{
    serde_json::Value::default()
}

/// Calls `Value::from` on a boolean.
#[verifier::external_body]
fn bool_value(b: bool) -> (r: serde_json::Value)
    ensures
        json_of(r) == JsonV::Bool(b),
{
    serde_json::Value::from(b)
}

/// Calls `Number::from` on an unsigned integer.
#[verifier::external_body]
fn number_from_u64(n: u64) -> (r: serde_json::Number)
    ensures
        num_of(r) == NumV::Int(n as int),
{
    serde_json::Number::from(n)
}

/// Calls `Number::from` on a signed integer.
#[verifier::external_body]
fn number_from_i64(n: i64) -> (r: serde_json::Number)
    ensures
        num_of(r) == NumV::Int(n as int),
{
    serde_json::Number::from(n)
}

/// Calls `Number::from_f64` on the double that equals a small integer, which is
/// finite and so always gives a number.
#[verifier::external_body]
fn number_from_whole(n: i32) -> (r: Option<serde_json::Number>)
    ensures
        match r {
            Some(x) => num_of(x) == NumV::Float(nearest_double(n as int)),
            None => false,
        },
{
    serde_json::Number::from_f64(n.into())
}

/// Calls `Number::clone`.
#[verifier::external_body]
fn number_clone(n: &serde_json::Number) -> (r: serde_json::Number)
    ensures
        num_of(r) == num_of(*n),
{
    n.clone()
}

/// Makes a `Value::Number` of a number.
#[verifier::external_body]
fn number_value(n: serde_json::Number) -> (r: serde_json::Value)
    ensures
        json_of(r) == JsonV::Num(num_of(n)),
{
    serde_json::Value::Number(n)
}

/// Calls `Value::from` on a string.
#[verifier::external_body]
fn str_value(s: &str) -> (r: serde_json::Value)
    ensures
        json_of(r) == JsonV::Str(s@),
{
    serde_json::Value::from(s)
}

/// Calls `Value::from` on a vector: the array of its elements.
#[verifier::external_body]
fn array_value(v: Vec<serde_json::Value>) -> (r: serde_json::Value)
    ensures
        json_of(r) == JsonV::Arr(values(v@)),
{
    serde_json::Value::from(v)
}

/// Calls `Value::from_iter` on entries: the object that they make, the later of
/// two entries with one key taking the place of the earlier.
#[verifier::external_body]
fn object_value(v: Vec<(String, serde_json::Value)>) -> (r: serde_json::Value)
    ensures
        json_of(r) == JsonV::Obj(entries_map(pairs(v@))),
{
    serde_json::Value::from_iter(v)
}

// ---------------------------------------------------------------------------
// Reading and writing
// ---------------------------------------------------------------------------

proof fn lemma_entries_map_key(e: Seq<(Seq<char>, JsonV)>, i: int)
    requires
        0 <= i < e.len(),
    ensures
        entries_map(e).contains_key(e[i].0),
    decreases e.len(),
{
    if i < e.len() - 1 {
        lemma_entries_map_key(e.drop_last(), i);
        assert(e.drop_last()[i] == e[i]);
    }
}

/// What a key is mapped to is the value of some entry with that key.
pub proof fn lemma_entries_map_value(e: Seq<(Seq<char>, JsonV)>, k: Seq<char>) -> (i: int)
    requires
        entries_map(e).contains_key(k),
    ensures
        0 <= i < e.len(),
        e[i].0 == k,
        entries_map(e)[k] == e[i].1,
        forall|j: int| i < j < e.len() ==> e[j].0 != k,
    decreases e.len(),
{
    if e.len() > 0 && e.last().0 == k {
        e.len() - 1
    } else {
        let i = lemma_entries_map_value(e.drop_last(), k);
        assert(e.drop_last()[i] == e[i]);
        assert forall|j: int| i < j < e.len() implies e[j].0 != k by {
            if j < e.len() - 1 {
                assert(e.drop_last()[j] == e[j]);
            }
        }
        i
    }
}

/// The field of an object that is given by entries with distinct keys.
pub proof fn lemma_obj_at(e: Seq<(Seq<char>, JsonV)>, i: int)
    requires
        0 <= i < e.len(),
        distinct_keys(e),
    ensures
        field(obj(e), e[i].0) == Some(e[i].1),
        at(obj(e), e[i].0) == e[i].1,
{
    lemma_entries_map_key(e, i);
    let j = lemma_entries_map_value(e, e[i].0);
    if i < j {
        assert(e[i].0 != e[j].0);
    }
}

/// An array of exact values is exact, one level deeper.
pub proof fn lemma_exact_array(s: Seq<JsonV>, depth: nat)
    requires
        forall|i: int| 0 <= i < s.len() ==> exact(#[trigger] s[i], depth),
    ensures
        exact(JsonV::Arr(s), depth + 1),
{
    assert((depth + 1 - 1) as nat == depth);
}

/// An object of exact values is exact, one level deeper.
pub proof fn lemma_exact_object(e: Seq<(Seq<char>, JsonV)>, depth: nat)
    requires
        forall|i: int| 0 <= i < e.len() ==> exact((#[trigger] e[i]).1, depth),
    ensures
        exact(obj(e), depth + 1),
{
    let m = entries_map(e);
    assert((depth + 1 - 1) as nat == depth);
    assert forall|k: Seq<char>| m.contains_key(k) implies exact(#[trigger] m[k], depth) by {
        let i = lemma_entries_map_value(e, k);
        assert(m[k] == e[i].1);
    }
    assert(exact(JsonV::Obj(m), depth + 1));
}

proof fn lemma_entries_map_finite(e: Seq<(Seq<char>, JsonV)>)
    ensures
        entries_map(e).dom().finite(),
    decreases e.len(),
{
    if e.len() > 0 {
        lemma_entries_map_finite(e.drop_last());
    }
}

/// A value that an object holds is smaller than the object.
proof fn lemma_entries_smaller(e: Seq<(Seq<char>, JsonV)>, i: int)
    requires
        0 <= i < e.len(),
        distinct_keys(e),
    ensures
        decreases_to!(JsonV::Obj(entries_map(e)) => e[i].1),
{
    let m = entries_map(e);
    lemma_entries_map_key(e, i);
    let j = lemma_entries_map_value(e, e[i].0);
    if i < j {
        assert(e[i].0 != e[j].0);
    }
    assert(m[e[i].0] == e[i].1);
    lemma_entries_map_finite(e);
    let k = e[i].0;
    let o = JsonV::Obj(m);
    assert(decreases_to!(m => m[k]));
    assert(decreases_to!(o => o->Obj_0));
}

proof fn lemma_take_one_more<A>(s: Seq<A>, i: int)
    requires
        0 <= i < s.len(),
    ensures
        s.subrange(0, i).push(s[i]) == s.subrange(0, i + 1),
{
    assert(s.subrange(0, i).push(s[i]) =~= s.subrange(0, i + 1));
}

proof fn lemma_jsons_push(v: Seq<Json>, x: Json)
    ensures
        jsons(v.push(x)) == jsons(v).push(x.view()),
{
    assert(jsons(v.push(x)) =~= jsons(v).push(x.view()));
}

proof fn lemma_values_push(v: Seq<serde_json::Value>, x: serde_json::Value)
    ensures
        values(v.push(x)) == values(v).push(json_of(x)),
{
    assert(values(v.push(x)) =~= values(v).push(json_of(x)));
}

proof fn lemma_entries_push(v: Seq<(String, Json)>, x: (String, Json))
    ensures
        entries(v.push(x)) == entries(v).push((x.0@, x.1.view())),
{
    assert(entries(v.push(x)) =~= entries(v).push((x.0@, x.1.view())));
}

proof fn lemma_pairs_push(v: Seq<(String, serde_json::Value)>, x: (String, serde_json::Value))
    ensures
        pairs(v.push(x)) == pairs(v).push((x.0@, json_of(x.1))),
{
    assert(pairs(v.push(x)) =~= pairs(v).push((x.0@, json_of(x.1))));
}

/// The plain data of a `serde_json` value.
pub fn decode(v: &serde_json::Value) -> (r: Json)
    ensures
        r.view() == json_of(*v),
    decreases json_of(*v),
{
    if let Some(b) = value_as_bool(v) {
        return Json::Bool(b);
    }
    if let Some(n) = value_as_number(v) {
        if let Some(k) = number_as_u64(&n) {
            return Json::Num(Num::Pos(k));
        }
        if let Some(k) = number_as_i64(&n) {
            return Json::Num(Num::Neg(k));
        }
        return Json::Num(Num::Float(n));
    }
    if let Some(s) = value_as_str(v) {
        return Json::Str(s);
    }
    if let Some(a) = value_as_array(v) {
        let mut out: Vec<Json> = Vec::new();
        for i in 0..a.len()
            invariant
                json_of(*v) == JsonV::Arr(values(a@)),
                jsons(out@) == values(a@).subrange(0, i as int),
        {
            proof {
                let s = values(a@);
                assert(s[i as int] == json_of(a@[i as int]));
                assert(decreases_to!(s => s[i as int]));
                let whole = json_of(*v);
                assert(decreases_to!(whole => whole->Arr_0));
                lemma_take_one_more(s, i as int);
            }
            let x: Json = decode(&a[i]);
            proof {
                lemma_jsons_push(out@, x);
            }
            out.push(x);
        }
        proof {
            assert(jsons(out@) =~= values(a@));
        }
        return Json::Arr(out);
    }
    if let Some(e) = value_as_object(v) {
        let mut out: Vec<(String, Json)> = Vec::new();
        for i in 0..e.len()
            invariant
                json_of(*v) == JsonV::Obj(entries_map(pairs(e@))),
                distinct_keys(pairs(e@)),
                entries(out@) == pairs(e@).subrange(0, i as int),
        {
            proof {
                lemma_entries_smaller(pairs(e@), i as int);
                lemma_take_one_more(pairs(e@), i as int);
            }
            let x: (String, Json) = (e[i].0.clone(), decode(&e[i].1));
            proof {
                lemma_entries_push(out@, x);
            }
            out.push(x);
        }
        proof {
            assert(entries(out@) =~= pairs(e@));
        }
        return Json::Obj(out);
    }
    Json::Null
}

/// The `serde_json` value of plain data.
pub fn encode(j: &Json) -> (r: serde_json::Value)
    ensures
        json_of(r) == j.view(),
    decreases j,
{
    match j {
        Json::Null => null_value(),
        Json::Bool(b) => bool_value(*b),
        Json::Num(Num::Pos(n)) => number_value(number_from_u64(*n)),
        Json::Num(Num::Neg(n)) => number_value(number_from_i64(*n)),
        Json::Num(Num::Float(n)) => number_value(number_clone(n)),
        Json::Str(s) => str_value(s.as_str()),
        Json::Arr(v) => {
            let mut out: Vec<serde_json::Value> = Vec::new();
            for i in 0..v.len()
                invariant
                    *j == Json::Arr(*v),
                    values(out@) == jsons(v@).subrange(0, i as int),
            {
                proof {
                    assert(decreases_to!(*v => v[i as int]));
                    assert(decreases_to!(j => j->Arr_0));
                    lemma_take_one_more(jsons(v@), i as int);
                }
                let x: serde_json::Value = encode(&v[i]);
                proof {
                    lemma_values_push(out@, x);
                }
                out.push(x);
            }
            proof {
                assert(values(out@) =~= jsons(v@));
            }
            array_value(out)
        },
        Json::Obj(v) => {
            let mut out: Vec<(String, serde_json::Value)> = Vec::new();
            for i in 0..v.len()
                invariant
                    *j == Json::Obj(*v),
                    pairs(out@) == entries(v@).subrange(0, i as int),
            {
                proof {
                    assert(decreases_to!(*v => v[i as int]));
                    assert(decreases_to!(v[i as int] => v[i as int].1));
                    assert(decreases_to!(j => j->Obj_0));
                    lemma_take_one_more(entries(v@), i as int);
                }
                let x: (String, serde_json::Value) = (v[i].0.clone(), encode(&v[i].1));
                proof {
                    lemma_pairs_push(out@, x);
                }
                out.push(x);
            }
            proof {
                assert(pairs(out@) =~= entries(v@));
            }
            object_value(out)
        },
    }
}

impl Json {
    /// Reads a JSON text; nothing where it is none.
    pub fn parse(text: &str) -> (r: Option<Json>)
        ensures
            match r {
                Some(j) => parsed(text@) == Some(j.view()),
                None => parsed(text@) is None,
            },
    {
        match value_from_str(text) {
            Some(v) => Some(decode(&v)),
            None => None,
        }
    }

    /// The compact text of the value. Where the value holds no double, reading the
    /// text gives the value back.
    pub fn text(&self) -> (r: String)
        ensures
            r@ == rendered(self.view()),
            exact(self.view(), 127) ==> parsed(r@) == Some(self.view()),
    {
        value_to_string(&encode(self))
    }

    /// A string value.
    pub fn string(s: &str) -> (r: Json)
        ensures
            r.view() == JsonV::Str(s@),
    {
        Json::Str(s.to_owned())
    }

    /// An integer value.
    pub fn integer(n: i64) -> (r: Json)
        ensures
            r.view() == JsonV::Num(NumV::Int(n as int)),
    {
        Json::Num(Num::Neg(n))
    }

    /// A copy of the value.
    pub fn copy(&self) -> (r: Json)
        ensures
            r.view() == self.view(),
    {
        decode(&encode(self))
    }

    /// The field `key` of an object; nothing where there is none.
    pub fn get(&self, key: &str) -> (r: Option<&Json>)
        ensures
            match r {
                Some(x) => field(self.view(), key@) == Some(x.view()),
                None => field(self.view(), key@) is None,
            },
    {
        match self {
            Json::Obj(v) => {
                let ghost e = entries(v@);
                let mut i: usize = v.len();
                while i > 0
                    invariant
                        e == entries(v@),
                        self.view() == JsonV::Obj(entries_map(e)),
                        i <= v.len(),
                        forall|k: int| i <= k < v@.len() ==> (#[trigger] v@[k]).0@ != key@,
                    decreases i,
                {
                    if same(v[i - 1].0.as_str(), key) {
                        proof {
                            assert(e[i - 1].0 == key@);
                            lemma_entries_map_key(e, i - 1);
                            let k = lemma_entries_map_value(e, key@);
                            if k > i - 1 {
                                assert(v@[k].0@ == key@);
                            }
                        }
                        return Some(&v[i - 1].1);
                    }
                    i = i - 1;
                }
                proof {
                    if entries_map(e).contains_key(key@) {
                        let k = lemma_entries_map_value(e, key@);
                        assert(v@[k].0@ == key@);
                    }
                }
                None
            },
            _ => None,
        }
    }

    /// The string at `key`; nothing where the field is missing or no string.
    pub fn str_at(&self, key: &str) -> (r: Option<String>)
        ensures
            opt(r) == str_of(at(self.view(), key@)),
    {
        match self.get(key) {
            Some(x) => x.as_str(),
            None => None,
        }
    }

    /// The boolean at `key`; nothing where the field is missing or no boolean.
    pub fn bool_at(&self, key: &str) -> (r: Option<bool>)
        ensures
            r == bool_of(at(self.view(), key@)),
    {
        match self.get(key) {
            Some(x) => x.as_bool(),
            None => None,
        }
    }

    /// The integer at `key`; nothing where the field is missing or no such integer.
    pub fn i64_at(&self, key: &str) -> (r: Option<i64>)
        ensures
            r == i64_of(at(self.view(), key@)),
    {
        match self.get(key) {
            Some(x) => x.as_i64(),
            None => None,
        }
    }

    /// The number at `key` as a double.
    pub fn double_at(&self, key: &str) -> (r: Option<Double>)
        ensures
            double_bits(r) == double_of(at(self.view(), key@)),
    {
        match self.get(key) {
            Some(x) => x.as_double(),
            None => None,
        }
    }

    /// The text of a string.
    pub fn as_str(&self) -> (r: Option<String>)
        ensures
            opt(r) == str_of(self.view()),
    {
        match self {
            Json::Str(s) => Some(s.clone()),
            _ => None,
        }
    }

    /// The truth of a boolean.
    pub fn as_bool(&self) -> (r: Option<bool>)
        ensures
            r == bool_of(self.view()),
    {
        match self {
            Json::Bool(b) => Some(*b),
            _ => None,
        }
    }

    /// An integer that fits 64 signed bits.
    pub fn as_i64(&self) -> (r: Option<i64>)
        ensures
            r == i64_of(self.view()),
    {
        match self {
            Json::Num(Num::Pos(n)) => if *n <= i64::MAX as u64 {
                Some(*n as i64)
            } else {
                None
            },
            Json::Num(Num::Neg(n)) => Some(*n),
            Json::Num(Num::Float(n)) => number_as_i64(n),
            _ => None,
        }
    }

    /// A number as a double.
    pub fn as_double(&self) -> (r: Option<Double>)
        ensures
            double_bits(r) == double_of(self.view()),
    {
        let n: serde_json::Number = match self {
            Json::Num(Num::Pos(n)) => number_from_u64(*n),
            Json::Num(Num::Neg(n)) => number_from_i64(*n),
            Json::Num(Num::Float(n)) => number_clone(n),
            _ => return None,
        };
        match number_to_double(&n) {
            Some(x) => Some(Double { n: x }),
            None => None,
        }
    }

    /// The elements of an array.
    pub fn as_array(&self) -> (r: Option<&Vec<Json>>)
        ensures
            match r {
                Some(v) => self.view() == JsonV::Arr(jsons(v@)),
                None => !(self.view() is Arr),
            },
    {
        match self {
            Json::Arr(v) => {
                Some(v)
            },
            _ => None,
        }
    }
}

impl Double {
    /// The bit pattern.
    pub closed spec fn bits(&self) -> u64 {
        match num_of(self.n) {
            NumV::Int(k) => nearest_double(k),
            NumV::Float(b) => b,
        }
    }

    /// The double that equals a small integer.
    pub fn whole(n: i32) -> (r: Double)
        ensures
            r.bits() == nearest_double(n as int),
    {
        match number_from_whole(n) {
            Some(x) => Double { n: x },
            None => Double { n: number_from_i64(n as i64) },
        }
    }

    /// The number as a JSON value.
    pub fn to_json(&self) -> (r: Json)
        ensures
            r.view() == JsonV::Num(NumV::Float(self.bits())),
    {
        match number_to_double(&self.n) {
            Some(x) => Json::Num(Num::Float(x)),
            None => Json::Null,
        }
    }

    /// A copy.
    pub fn copy(&self) -> (r: Double)
        ensures
            r.bits() == self.bits(),
    {
        Double { n: number_clone(&self.n) }
    }

    /// The number rounded to a whole one, set right in three columns.
    pub fn in_three_columns(&self) -> (r: String)
        ensures
            r@ == rounded_in_three(self.bits()),
    {
        let d: Json = self.to_json();
        match &d {
            Json::Num(Num::Float(x)) => format_in_three(x),
            _ => String::new(),
        }
    }

    /// The number rounded to a whole one.
    pub fn rounded(&self) -> (r: String)
        ensures
            r@ == rounded_text(self.bits()),
    {
        let d: Json = self.to_json();
        match &d {
            Json::Num(Num::Float(x)) => format_rounded(x),
            _ => String::new(),
        }
    }
}

/// The bit pattern of a double that may be missing.
pub open spec fn double_bits(d: Option<Double>) -> Option<u64> {
    match d {
        Some(x) => Some(x.bits()),
        None => None,
    }
}

/// What formatting a double by `{:3.0}` writes.
pub uninterp spec fn rounded_in_three(bits: u64) -> Seq<char>;

/// What formatting a double by `{:.0}` writes.
pub uninterp spec fn rounded_text(bits: u64) -> Seq<char>;

/// Calls `format!` with `{:3.0}` on a double.
#[verifier::external_body]
fn format_in_three(n: &serde_json::Number) -> (r: String)
    ensures
        num_of(*n) matches NumV::Float(b) ==> r@ == rounded_in_three(b),
{
    format!("{:3.0}", n.as_f64().unwrap_or_default())
}

/// Calls `format!` with `{:.0}` on a double.
#[verifier::external_body]
fn format_rounded(n: &serde_json::Number) -> (r: String)
    ensures
        num_of(*n) matches NumV::Float(b) ==> r@ == rounded_text(b),
{
    format!("{:.0}", n.as_f64().unwrap_or_default())
}

/// The object that entries make.
pub open spec fn obj(e: Seq<(Seq<char>, JsonV)>) -> JsonV {
    JsonV::Obj(entries_map(e))
}

/// An object with one field.
pub fn obj1(k1: &str, v1: Json) -> (r: Json)
    ensures
        r.view() == obj(seq![(k1@, v1.view())]),
{
    let v: Vec<(String, Json)> = vec![(k1.to_owned(), v1)];
    assert(entries(v@) =~= seq![(k1@, v1.view())]);
    Json::Obj(v)
}

/// An object with two fields.
pub fn obj2(k1: &str, v1: Json, k2: &str, v2: Json) -> (r: Json)
    ensures
        r.view() == obj(seq![(k1@, v1.view()), (k2@, v2.view())]),
{
    let v: Vec<(String, Json)> = vec![(k1.to_owned(), v1), (k2.to_owned(), v2)];
    assert(entries(v@) =~= seq![(k1@, v1.view()), (k2@, v2.view())]);
    Json::Obj(v)
}

/// An object with three fields.
pub fn obj3(k1: &str, v1: Json, k2: &str, v2: Json, k3: &str, v3: Json) -> (r: Json)
    ensures
        r.view() == obj(seq![(k1@, v1.view()), (k2@, v2.view()), (k3@, v3.view())]),
{
    let v: Vec<(String, Json)> = vec![(k1.to_owned(), v1), (k2.to_owned(), v2), (k3.to_owned(), v3)];
    assert(entries(v@) =~= seq![(k1@, v1.view()), (k2@, v2.view()), (k3@, v3.view())]);
    Json::Obj(v)
}

/// An array of one value.
pub fn arr1(a: Json) -> (r: Json)
    ensures
        r.view() == JsonV::Arr(seq![a.view()]),
{
    let v: Vec<Json> = vec![a];
    assert(jsons(v@) =~= seq![a.view()]);
    Json::Arr(v)
}

/// An array of two values.
pub fn arr2(a: Json, b: Json) -> (r: Json)
    ensures
        r.view() == JsonV::Arr(seq![a.view(), b.view()]),
{
    let v: Vec<Json> = vec![a, b];
    assert(jsons(v@) =~= seq![a.view(), b.view()]);
    Json::Arr(v)
}

/// An array of three values.
pub fn arr3(a: Json, b: Json, c: Json) -> (r: Json)
    ensures
        r.view() == JsonV::Arr(seq![a.view(), b.view(), c.view()]),
{
    let v: Vec<Json> = vec![a, b, c];
    assert(jsons(v@) =~= seq![a.view(), b.view(), c.view()]);
    Json::Arr(v)
}

/// A boolean that may be missing, null where it is.
pub fn opt_bool(b: Option<bool>) -> (r: Json)
    ensures
        r.view() == (match b {
            Some(x) => JsonV::Bool(x),
            None => JsonV::Null,
        }),
{
    match b {
        Some(x) => Json::Bool(x),
        None => Json::Null,
    }
}

} // verus!
