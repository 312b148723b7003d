//! A generic structured value: the shape of the export document after
//! generic JSON parsing, before schema ingestion.  Numbers that fit a
//! machine integer are kept as such; any other numeral is carried as
//! its decimal text so that no information is lost.

use vstd::prelude::*;
use crate::strutil::str_eq;

verus! {

/// A JSON-like structured value.  Object fields keep their document
/// order; a well-formed document does not repeat a key, and lookups
/// take the first occurrence.
#[derive(Debug)]
pub enum JsonValue {
    Null,
    Bool(bool),
    /// An integer that fits `i64`.
    Int(i64),
    /// An integer that fits `u64` but not `i64`.
    UInt(u64),
    /// Any other numeral, kept as its decimal text.
    NumText(String),
    Str(String),
    Arr(Vec<JsonValue>),
    Obj(Vec<(String, JsonValue)>),
}

/// The mathematical value of a [`JsonValue`]: strings become
/// character sequences, vectors become sequences.
pub enum JsonV {
    Null,
    Bool(bool),
    Int(i64),
    UInt(u64),
    NumText(Seq<char>),
    Str(Seq<char>),
    Arr(Seq<JsonV>),
    Obj(Seq<(Seq<char>, JsonV)>),
}

/// The mathematical value of a structured value.
pub open spec fn jview(v: JsonValue) -> JsonV
    decreases v,
{
    match v {
        JsonValue::Null => JsonV::Null,
        JsonValue::Bool(b) => JsonV::Bool(b),
        JsonValue::Int(i) => JsonV::Int(i),
        JsonValue::UInt(u) => JsonV::UInt(u),
        JsonValue::NumText(s) => JsonV::NumText(s@),
        JsonValue::Str(s) => JsonV::Str(s@),
        JsonValue::Arr(a) => JsonV::Arr(jview_seq(a@)),
        JsonValue::Obj(fs) => JsonV::Obj(jview_fields(fs@)),
    }
}

/// The views of the elements of an array.
pub open spec fn jview_seq(s: Seq<JsonValue>) -> Seq<JsonV>
    decreases s,
{
    if s.len() == 0 {
        Seq::empty()
    } else {
        seq![jview(s[0])] + jview_seq(s.drop_first())
    }
}

/// The views of the fields of an object.
pub open spec fn jview_fields(s: Seq<(String, JsonValue)>) -> Seq<(Seq<char>, JsonV)>
    decreases s,
{
    if s.len() == 0 {
        Seq::empty()
    } else {
        seq![(s[0].0@, jview(s[0].1))] + jview_fields(s.drop_first())
    }
}

/// Element-wise reading of [`jview_seq`].
pub broadcast proof fn lemma_jview_seq(s: Seq<JsonValue>)
    ensures
        #[trigger] jview_seq(s).len() == s.len(),
        forall|i: int| 0 <= i < s.len() ==> jview_seq(s)[i] == jview(#[trigger] s[i]),
    decreases s,
{
    if s.len() > 0 {
        lemma_jview_seq(s.drop_first());
        assert forall|i: int| 0 <= i < s.len() implies jview_seq(s)[i] == jview(
            #[trigger] s[i],
        ) by {
            if i > 0 {
                assert(s.drop_first()[i - 1] == s[i]);
                assert(jview_seq(s)[i] == jview_seq(s.drop_first())[i - 1]);
            }
        }
    }
}

/// Element-wise reading of [`jview_fields`].
pub broadcast proof fn lemma_jview_fields(s: Seq<(String, JsonValue)>)
    ensures
        #[trigger] jview_fields(s).len() == s.len(),
        forall|i: int| 0 <= i < s.len() ==> jview_fields(s)[i] == (
            (#[trigger] s[i]).0@,
            jview(s[i].1),
        ),
    decreases s,
{
    if s.len() > 0 {
        lemma_jview_fields(s.drop_first());
        assert forall|i: int| 0 <= i < s.len() implies jview_fields(s)[i] == (
            (#[trigger] s[i]).0@,
            jview(s[i].1),
        ) by {
            if i > 0 {
                assert(s.drop_first()[i - 1] == s[i]);
                assert(jview_fields(s)[i] == jview_fields(s.drop_first())[i - 1]);
            }
        }
    }
}

impl View for JsonValue {
    type V = JsonV;

    open spec fn view(&self) -> JsonV {
        jview(*self)
    }
}

impl Clone for JsonValue {
    /// Deep copy, equal in view to the original.
    fn clone(&self) -> (r: Self)
        ensures
            r@ == self@,
    {
        json_clone(self)
    }
}

/// Why a document was rejected by schema ingestion.
#[derive(Debug, Clone, PartialEq, Eq)]
pub enum SchemaError {
    /// A structurally required field is absent.
    MissingField(String),
    /// A tag value does not name any declared variant.
    UnknownVariant(String),
    /// Strict mode only: a field is present that the schema does not declare.
    UnexpectedField(String),
    /// A field holds a value of the wrong shape.
    WrongType(String),
}

/// Whether ingestion rejects undeclared fields or discards them.
#[derive(Debug, Clone, Copy, PartialEq, Eq, Structural)]
pub enum ParseMode {
    /// Any field present in the document but not declared in the schema
    /// is an [`SchemaError::UnexpectedField`].
    Strict,
    /// Unknown fields are silently discarded.  The export format gains
    /// and loses fields across producer versions, so this is the default.
    Lenient,
}

pub open spec fn is_missing(e: SchemaError, k: Seq<char>) -> bool {
    e matches SchemaError::MissingField(f) && f@ == k
}

pub open spec fn is_wrong_type(e: SchemaError, k: Seq<char>) -> bool {
    e matches SchemaError::WrongType(f) && f@ == k
}

pub open spec fn is_unknown_variant(e: SchemaError, k: Seq<char>) -> bool {
    e matches SchemaError::UnknownVariant(f) && f@ == k
}

pub open spec fn is_unexpected(e: SchemaError, k: Seq<char>) -> bool {
    e matches SchemaError::UnexpectedField(f) && f@ == k
}

/// Whether an object holds the key `k`.
pub open spec fn has_key(fs: Seq<(Seq<char>, JsonV)>, k: Seq<char>) -> bool {
    exists|i: int| 0 <= i < fs.len() && fs[i].0 == k
}

/// The value at the first occurrence of key `k`.
pub open spec fn get_key(fs: Seq<(Seq<char>, JsonV)>, k: Seq<char>) -> JsonV
    recommends
        has_key(fs, k),
    decreases fs.len(),
{
    if fs.len() == 0 {
        JsonV::Null
    } else if fs[0].0 == k {
        fs[0].1
    } else {
        get_key(fs.drop_first(), k)
    }
}

proof fn lemma_get_key_at(fs: Seq<(Seq<char>, JsonV)>, k: Seq<char>, i: int)
    requires
        0 <= i < fs.len(),
        fs[i].0 == k,
        forall|j: int| 0 <= j < i ==> (#[trigger] fs[j]).0 != k,
    ensures
        has_key(fs, k),
        get_key(fs, k) == fs[i].1,
    decreases i,
{
    if i > 0 {
        lemma_get_key_at(fs.drop_first(), k, i - 1);
    }
}

pub open spec fn str_of(v: JsonV) -> Seq<char> {
    match v {
        JsonV::Str(s) => s,
        _ => Seq::empty(),
    }
}

pub open spec fn bool_of(v: JsonV) -> bool {
    match v {
        JsonV::Bool(b) => b,
        _ => false,
    }
}

pub open spec fn arr_of(v: JsonV) -> Seq<JsonV> {
    match v {
        JsonV::Arr(a) => a,
        _ => Seq::empty(),
    }
}

pub open spec fn obj_of(v: JsonV) -> Seq<(Seq<char>, JsonV)> {
    match v {
        JsonV::Obj(fs) => fs,
        _ => Seq::empty(),
    }
}

/// Whether the value is an integer representable as `u64`.
pub open spec fn is_u64(v: JsonV) -> bool {
    match v {
        JsonV::Int(i) => i >= 0,
        JsonV::UInt(_) => true,
        _ => false,
    }
}

pub open spec fn u64_of(v: JsonV) -> u64 {
    match v {
        JsonV::Int(i) => i as u64,
        JsonV::UInt(u) => u,
        _ => 0,
    }
}

/// Whether the value is any JSON numeral.
pub open spec fn is_num(v: JsonV) -> bool {
    v is Int || v is UInt || v is NumText
}

/// Finds the first field of the object with the given key.
pub fn lookup<'a>(fs: &'a Vec<(String, JsonValue)>, key: &str) -> (r: Option<&'a JsonValue>)
    ensures
        match r {
            Some(v) => has_key(jview_fields(fs@), key@) && v@ == get_key(
                jview_fields(fs@),
                key@,
            ),
            None => !has_key(jview_fields(fs@), key@),
        },
{
    proof {
        broadcast use lemma_jview_fields;
    }
    let n = fs.len();
    let mut i: usize = 0;
    while i < n
        invariant
            n == fs@.len(),
            i <= n,
            forall|j: int| 0 <= j < i ==> (#[trigger] jview_fields(fs@)[j]).0 != key@,
        decreases n - i,
    {
        proof {
            broadcast use lemma_jview_fields;
        }
        if str_eq(fs[i].0.as_str(), key) {
            proof {
                lemma_get_key_at(jview_fields(fs@), key@, i as int);
            }
            return Some(&fs[i].1);
        }
        i += 1;
    }
    None
}

/// Deep copy of a structured value, equal in view to the original.
#[verifier::loop_isolation(false)]
pub fn json_clone(v: &JsonValue) -> (r: JsonValue)
    ensures
        r@ == v@,
    decreases *v,
{
    proof {
        broadcast use lemma_jview_seq, lemma_jview_fields;
    }
    match v {
        JsonValue::Null => JsonValue::Null,
        JsonValue::Bool(b) => JsonValue::Bool(*b),
        JsonValue::Int(i) => JsonValue::Int(*i),
        JsonValue::UInt(u) => JsonValue::UInt(*u),
        JsonValue::NumText(s) => JsonValue::NumText(s.clone()),
        JsonValue::Str(s) => JsonValue::Str(s.clone()),
        JsonValue::Arr(a) => {
            let n = a.len();
            let mut out: Vec<JsonValue> = Vec::new();
            let mut i: usize = 0;
            while i < n
                invariant
                    n == a@.len(),
                    i <= n,
                    out@.len() == i,
                    forall|j: int| 0 <= j < i ==> (#[trigger] out@[j])@ == a@[j]@,
                decreases n - i,
            {
                proof {
                    assert(*a == (*v)->Arr_0);
                    assert(decreases_to!(*v => (*v)->Arr_0));
                    assert(decreases_to!((*v)->Arr_0 => (*v)->Arr_0@));
                    assert(decreases_to!((*v)->Arr_0@ => (*v)->Arr_0@[i as int]));
                    assert(decreases_to!(*v => a@[i as int]));
                }
                let e = json_clone(&a[i]);
                out.push(e);
                i += 1;
            }
            proof {
                lemma_jview_seq(out@);
                lemma_jview_seq(a@);
                assert forall|k: int| 0 <= k < n implies jview_seq(out@)[k] == jview_seq(
                    a@,
                )[k] by {
                    assert(out@[k]@ == a@[k]@);
                }
                assert(jview_seq(out@) =~= jview_seq(a@));
            }
            JsonValue::Arr(out)
        },
        JsonValue::Obj(fs) => {
            let n = fs.len();
            let mut out: Vec<(String, JsonValue)> = Vec::new();
            let mut i: usize = 0;
            while i < n
                invariant
                    n == fs@.len(),
                    i <= n,
                    out@.len() == i,
                    forall|j: int| 0 <= j < i ==> (#[trigger] out@[j]).0@ == fs@[j].0@
                        && out@[j].1@ == fs@[j].1@,
                decreases n - i,
            {
                proof {
                    assert(*fs == (*v)->Obj_0);
                    assert(decreases_to!(*v => (*v)->Obj_0));
                    assert(decreases_to!((*v)->Obj_0 => (*v)->Obj_0@));
                    assert(decreases_to!((*v)->Obj_0@ => (*v)->Obj_0@[i as int]));
                    assert(decreases_to!((*v)->Obj_0@[i as int] => (*v)->Obj_0@[i as int].1));
                    assert(decreases_to!(*v => fs@[i as int].1));
                }
                let k = fs[i].0.clone();
                let e = json_clone(&fs[i].1);
                out.push((k, e));
                i += 1;
            }
            proof {
                lemma_jview_fields(out@);
                lemma_jview_fields(fs@);
                assert forall|k: int| 0 <= k < n implies jview_fields(out@)[k] == jview_fields(
                    fs@,
                )[k] by {
                    assert(out@[k].0@ == fs@[k].0@ && out@[k].1@ == fs@[k].1@);
                }
                assert(jview_fields(out@) =~= jview_fields(fs@));
            }
            JsonValue::Obj(out)
        },
    }
}


/// The first occurrence of `k` holds a string.
pub open spec fn field_is_str(fs: Seq<(Seq<char>, JsonV)>, k: Seq<char>) -> bool {
    has_key(fs, k) && get_key(fs, k) is Str
}

/// The optional field `k`, if present, holds a string or null.
pub open spec fn opt_field_str_ok(fs: Seq<(Seq<char>, JsonV)>, k: Seq<char>) -> bool {
    has_key(fs, k) ==> (get_key(fs, k) is Str || get_key(fs, k) is Null)
}

/// The value of the optional string field `k`: absent and null both
/// mean "no value".
pub open spec fn opt_str_val(fs: Seq<(Seq<char>, JsonV)>, k: Seq<char>) -> Option<Seq<char>> {
    if has_key(fs, k) && get_key(fs, k) is Str {
        Some(str_of(get_key(fs, k)))
    } else {
        None
    }
}

pub open spec fn field_is_bool(fs: Seq<(Seq<char>, JsonV)>, k: Seq<char>) -> bool {
    has_key(fs, k) && get_key(fs, k) is Bool
}

pub open spec fn opt_field_bool_ok(fs: Seq<(Seq<char>, JsonV)>, k: Seq<char>) -> bool {
    has_key(fs, k) ==> (get_key(fs, k) is Bool || get_key(fs, k) is Null)
}

pub open spec fn opt_bool_val(fs: Seq<(Seq<char>, JsonV)>, k: Seq<char>) -> Option<bool> {
    if has_key(fs, k) && get_key(fs, k) is Bool {
        Some(bool_of(get_key(fs, k)))
    } else {
        None
    }
}

pub open spec fn field_is_u64(fs: Seq<(Seq<char>, JsonV)>, k: Seq<char>) -> bool {
    has_key(fs, k) && is_u64(get_key(fs, k))
}

/// The value is an array all of whose elements are strings.
pub open spec fn is_str_arr(v: JsonV) -> bool {
    v matches JsonV::Arr(a) && (forall|i: int| 0 <= i < a.len() ==> (#[trigger] a[i]) is Str)
}

/// The element-wise text of a string array.
pub open spec fn str_arr_of(v: JsonV) -> Seq<Seq<char>> {
    arr_of(v).map_values(|e: JsonV| str_of(e))
}

/// The views of a vector of strings.
pub open spec fn str_views(s: Seq<String>) -> Seq<Seq<char>> {
    s.map_values(|e: String| e@)
}

/// Reads the required string field `k`.
pub fn req_str(fs: &Vec<(String, JsonValue)>, key: &str) -> (r: Result<String, SchemaError>)
    ensures
        r is Ok <==> field_is_str(jview_fields(fs@), key@),
        r matches Ok(s) ==> s@ == str_of(get_key(jview_fields(fs@), key@)),
        r matches Err(e) ==> if !has_key(jview_fields(fs@), key@) {
            is_missing(e, key@)
        } else {
            is_wrong_type(e, key@)
        },
{
    match lookup(fs, key) {
        None => Err(SchemaError::MissingField(key.to_owned())),
        Some(v) => match v {
            JsonValue::Str(s) => Ok(s.clone()),
            _ => Err(SchemaError::WrongType(key.to_owned())),
        },
    }
}

/// Reads the optional string field `k`; absent and null mean `None`.
pub fn opt_str(fs: &Vec<(String, JsonValue)>, key: &str) -> (r: Result<
    Option<String>,
    SchemaError,
>)
    ensures
        r is Ok <==> opt_field_str_ok(jview_fields(fs@), key@),
        r matches Ok(s) ==> match (s, opt_str_val(jview_fields(fs@), key@)) {
            (Some(x), Some(y)) => x@ == y,
            (None, None) => true,
            _ => false,
        },
        r matches Err(e) ==> is_wrong_type(e, key@),
{
    match lookup(fs, key) {
        None => Ok(None),
        Some(v) => match v {
            JsonValue::Str(s) => Ok(Some(s.clone())),
            JsonValue::Null => Ok(None),
            _ => Err(SchemaError::WrongType(key.to_owned())),
        },
    }
}

/// Reads the required boolean field `k`.
pub fn req_bool(fs: &Vec<(String, JsonValue)>, key: &str) -> (r: Result<bool, SchemaError>)
    ensures
        r is Ok <==> field_is_bool(jview_fields(fs@), key@),
        r matches Ok(b) ==> b == bool_of(get_key(jview_fields(fs@), key@)),
        r matches Err(e) ==> if !has_key(jview_fields(fs@), key@) {
            is_missing(e, key@)
        } else {
            is_wrong_type(e, key@)
        },
{
    match lookup(fs, key) {
        None => Err(SchemaError::MissingField(key.to_owned())),
        Some(v) => match v {
            JsonValue::Bool(b) => Ok(*b),
            _ => Err(SchemaError::WrongType(key.to_owned())),
        },
    }
}

/// Reads the optional boolean field `k`; absent and null mean `None`.
pub fn opt_bool(fs: &Vec<(String, JsonValue)>, key: &str) -> (r: Result<Option<bool>, SchemaError>)
    ensures
        r is Ok <==> opt_field_bool_ok(jview_fields(fs@), key@),
        r matches Ok(s) ==> s == opt_bool_val(jview_fields(fs@), key@),
        r matches Err(e) ==> is_wrong_type(e, key@),
{
    match lookup(fs, key) {
        None => Ok(None),
        Some(v) => match v {
            JsonValue::Bool(b) => Ok(Some(*b)),
            JsonValue::Null => Ok(None),
            _ => Err(SchemaError::WrongType(key.to_owned())),
        },
    }
}

/// Reads the required unsigned integer field `k`.
pub fn req_u64(fs: &Vec<(String, JsonValue)>, key: &str) -> (r: Result<u64, SchemaError>)
    ensures
        r is Ok <==> field_is_u64(jview_fields(fs@), key@),
        r matches Ok(u) ==> u == u64_of(get_key(jview_fields(fs@), key@)),
        r matches Err(e) ==> if !has_key(jview_fields(fs@), key@) {
            is_missing(e, key@)
        } else {
            is_wrong_type(e, key@)
        },
{
    match lookup(fs, key) {
        None => Err(SchemaError::MissingField(key.to_owned())),
        Some(v) => match v {
            JsonValue::Int(i) => {
                if *i >= 0 {
                    Ok(*i as u64)
                } else {
                    Err(SchemaError::WrongType(key.to_owned()))
                }
            },
            JsonValue::UInt(u) => Ok(*u),
            _ => Err(SchemaError::WrongType(key.to_owned())),
        },
    }
}

/// Reads the required field `k` whatever its shape, as a deep copy.
pub fn req_json(fs: &Vec<(String, JsonValue)>, key: &str) -> (r: Result<JsonValue, SchemaError>)
    ensures
        r is Ok <==> has_key(jview_fields(fs@), key@),
        r matches Ok(v) ==> v@ == get_key(jview_fields(fs@), key@),
        r matches Err(e) ==> is_missing(e, key@),
{
    match lookup(fs, key) {
        None => Err(SchemaError::MissingField(key.to_owned())),
        Some(v) => Ok(json_clone(v)),
    }
}

/// The value of an optional passthrough field: absent and null both
/// mean "no value".
pub open spec fn opt_json_val(fs: Seq<(Seq<char>, JsonV)>, k: Seq<char>) -> Option<JsonV> {
    if has_key(fs, k) && !(get_key(fs, k) is Null) {
        Some(get_key(fs, k))
    } else {
        None
    }
}

/// Reads the optional field `k` whatever its shape, as a deep copy;
/// absent and null mean `None`.
pub fn opt_json(fs: &Vec<(String, JsonValue)>, key: &str) -> (r: Option<JsonValue>)
    ensures
        match r {
            Some(v) => opt_json_val(jview_fields(fs@), key@) == Some(v@),
            None => opt_json_val(jview_fields(fs@), key@) is None,
        },
{
    match lookup(fs, key) {
        None => None,
        Some(v) => match v {
            JsonValue::Null => None,
            _ => Some(json_clone(v)),
        },
    }
}

/// Turns an all-string JSON array into the strings it holds.
#[verifier::loop_isolation(false)]
pub fn str_arr(v: &JsonValue, key: &str) -> (r: Result<Vec<String>, SchemaError>)
    ensures
        r is Ok <==> is_str_arr(v@),
        r matches Ok(out) ==> str_views(out@) == str_arr_of(v@),
        r matches Err(e) ==> is_wrong_type(e, key@),
{
    proof {
        broadcast use lemma_jview_seq;
    }
    match v {
        JsonValue::Arr(a) => {
            let n = a.len();
            let mut out: Vec<String> = Vec::new();
            let mut i: usize = 0;
            while i < n
                invariant
                    n == a@.len(),
                    i <= n,
                    out@.len() == i,
                    forall|j: int| 0 <= j < i ==> (#[trigger] jview_seq(a@)[j]) is Str,
                    forall|j: int| 0 <= j < i ==> (#[trigger] out@[j])@ == str_of(
                        jview_seq(a@)[j],
                    ),
                decreases n - i,
            {
                proof {
                    broadcast use lemma_jview_seq;
                }
                match &a[i] {
                    JsonValue::Str(s) => {
                        out.push(s.clone());
                        proof {
                            lemma_jview_seq(a@);
                            assert(jview_seq(a@)[i as int] == jview(a@[i as int]));
                        }
                    },
                    _ => {
                        proof {
                            lemma_jview_seq(a@);
                            assert(jview_seq(a@)[i as int] == jview(a@[i as int]));
                        }
                        return Err(SchemaError::WrongType(key.to_owned()));
                    },
                }
                i += 1;
            }
            proof {
                broadcast use lemma_jview_seq;
                assert(str_views(out@) =~= str_arr_of(jview(*v)));
            }
            Ok(out)
        },
        _ => Err(SchemaError::WrongType(key.to_owned())),
    }
}

/// Reads the required all-string array field `k`.
pub fn req_str_arr(fs: &Vec<(String, JsonValue)>, key: &str) -> (r: Result<
    Vec<String>,
    SchemaError,
>)
    ensures
        r is Ok <==> has_key(jview_fields(fs@), key@) && is_str_arr(
            get_key(jview_fields(fs@), key@),
        ),
        r matches Ok(out) ==> str_views(out@) == str_arr_of(get_key(jview_fields(fs@), key@)),
        r matches Err(e) ==> if !has_key(jview_fields(fs@), key@) {
            is_missing(e, key@)
        } else {
            is_wrong_type(e, key@)
        },
{
    match lookup(fs, key) {
        None => Err(SchemaError::MissingField(key.to_owned())),
        Some(v) => str_arr(v, key),
    }
}

/// Reads the optional all-string array field `k`; an absent field
/// means the empty list.
pub fn opt_str_arr(fs: &Vec<(String, JsonValue)>, key: &str) -> (r: Result<
    Vec<String>,
    SchemaError,
>)
    ensures
        r is Ok <==> (has_key(jview_fields(fs@), key@) ==> is_str_arr(
            get_key(jview_fields(fs@), key@),
        )),
        r matches Ok(out) ==> str_views(out@) == if has_key(jview_fields(fs@), key@) {
            str_arr_of(get_key(jview_fields(fs@), key@))
        } else {
            Seq::<Seq<char>>::empty()
        },
        r matches Err(e) ==> is_wrong_type(e, key@),
{
    match lookup(fs, key) {
        None => {
            let out: Vec<String> = Vec::new();
            proof {
                assert(str_views(out@) =~= Seq::<Seq<char>>::empty());
            }
            Ok(out)
        },
        Some(v) => str_arr(v, key),
    }
}

/// Every key of the object is one of `allowed`.
pub open spec fn keys_within(fs: Seq<(Seq<char>, JsonV)>, allowed: Seq<Seq<char>>) -> bool {
    forall|i: int| 0 <= i < fs.len() ==> allowed.contains((#[trigger] fs[i]).0)
}

/// The views of a list of key names.
pub open spec fn views_of_strs(s: Seq<&str>) -> Seq<Seq<char>> {
    s.map_values(|x: &str| x@)
}

/// Strict-mode check: every key of the object must be declared.
/// Returns the first undeclared key, if any.
#[verifier::loop_isolation(false)]
pub fn check_keys<const N: usize>(fs: &Vec<(String, JsonValue)>, allowed: &[&str; N]) -> (r:
    Option<String>)
    ensures
        r is None <==> keys_within(jview_fields(fs@), views_of_strs(allowed@)),
        r matches Some(k) ==> !views_of_strs(allowed@).contains(k@) && has_key(
            jview_fields(fs@),
            k@,
        ),
{
    proof {
        broadcast use lemma_jview_fields;
    }
    let n = fs.len();
    let mut i: usize = 0;
    while i < n
        invariant
            n == fs@.len(),
            i <= n,
            forall|j: int| 0 <= j < i ==> views_of_strs(allowed@).contains(
                (#[trigger] jview_fields(fs@)[j]).0,
            ),
        decreases n - i,
    {
        proof {
            broadcast use lemma_jview_fields;
        }
        let key = &fs[i].0;
        let mut ok = false;
        let mut j: usize = 0;
        while j < N
            invariant
                0 <= i < fs@.len(),
                ok ==> views_of_strs(allowed@).contains(fs@[i as int].0@),
                !ok ==> forall|l: int| 0 <= l < j ==> views_of_strs(allowed@)[l] != fs@[
                    i as int
                ].0@,
                j <= N,
                allowed@.len() == N,
            decreases N - j,
        {
            if str_eq(key.as_str(), allowed[j]) {
                proof {
                    assert(views_of_strs(allowed@)[j as int] == allowed@[j as int]@);
                    assert(key@ == fs@[i as int].0@);
                    assert(views_of_strs(allowed@).contains(fs@[i as int].0@));
                }
                ok = true;
                break;
            }
            proof {
                assert(views_of_strs(allowed@)[j as int] == allowed@[j as int]@);
            }
            j += 1;
        }
        if !ok {
            proof {
                lemma_jview_fields(fs@);
                assert(forall|l: int|
                    0 <= l < N ==> views_of_strs(allowed@)[l] != fs@[i as int].0@);
                assert(!views_of_strs(allowed@).contains(fs@[i as int].0@));
                lemma_get_key_at_self(jview_fields(fs@), i as int);
            }
            return Some(key.clone());
        }
        proof {
            lemma_jview_fields(fs@);
            assert(jview_fields(fs@)[i as int].0 == fs@[i as int].0@);
        }
        i += 1;
    }
    None
}

proof fn lemma_get_key_at_self(fs: Seq<(Seq<char>, JsonV)>, i: int)
    requires
        0 <= i < fs.len(),
    ensures
        has_key(fs, fs[i].0),
{
}

} // verus!
