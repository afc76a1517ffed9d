//! The library's own JSON tree and the nested field resolver.
//!
//! Responses are modelled as plain data that the verifier can see inside:
//! integers, strings, arrays and objects with an ordered field list.  A
//! dot-separated path locates a value inside nested objects; `Some` of a
//! null value and `None` are kept distinct, because the record mapper
//! treats "found but null" and "not found" differently.

use vstd::prelude::*;
use vstd::string::*;
use crate::text::{lemma_split_on_len, split_on, str_eq};

verus! {

/// A JSON value.  Numbers that fit a signed 64-bit integer are kept
/// exactly; any other number is kept only as its kind, since the mapping
/// rules never read one.
#[derive(Debug)]
pub enum JsonValue {
    Null,
    Bool(bool),
    Int(i64),
    Float,
    Str(String),
    Array(Vec<JsonValue>),
    Object(Vec<(String, JsonValue)>),
}

/// The value under `key` in an object's field list: the first binding
/// wins, as it does when a parsed document holds a repeated key.
pub open spec fn obj_lookup(fields: Seq<(String, JsonValue)>, key: Seq<char>) -> Option<JsonValue>
    decreases fields.len(),
{
    if fields.len() == 0 {
        None
    } else if fields[0].0@ == key {
        Some(fields[0].1)
    } else {
        obj_lookup(fields.drop_first(), key)
    }
}

/// Resolution of a pre-split path: each segment must land on an object to
/// descend further, and the final segment yields whatever value sits there.
pub open spec fn resolve_segs(v: JsonValue, segs: Seq<Seq<char>>) -> Option<JsonValue>
    decreases segs.len(),
{
    if segs.len() == 0 {
        None
    } else {
        match v {
            JsonValue::Object(fields) => match obj_lookup(fields@, segs[0]) {
                Some(child) => if segs.len() == 1 {
                    Some(child)
                } else {
                    resolve_segs(child, segs.drop_first())
                },
                None => None,
            },
            _ => None,
        }
    }
}

/// Nested field resolution: the path is split on dots and followed
/// segment by segment.
pub open spec fn spec_resolve(v: JsonValue, path: Seq<char>) -> Option<JsonValue> {
    resolve_segs(v, split_on(path, '.'))
}

/// Splitting a sequence with no separator in it yields the sequence whole.
pub proof fn lemma_split_no_sep(s: Seq<char>, sep: char)
    requires
        forall|j: int| 0 <= j < s.len() ==> s[j] != sep,
    ensures
        split_on(s, sep) == seq![s],
    decreases s.len(),
{
    if s.len() == 0 {
        assert(split_on(s, sep) =~~= seq![s]);
    } else {
        lemma_split_no_sep(s.drop_first(), sep);
        assert(seq![s[0]] + s.drop_first() =~= s);
        assert(split_on(s, sep) =~~= seq![s]);
    }
}

/// Splitting at the first occurrence of the separator: everything before
/// it is the first piece, and the rest splits on its own.
pub proof fn lemma_split_at_first(s: Seq<char>, sep: char, d: int)
    requires
        0 <= d < s.len(),
        s[d] == sep,
        forall|j: int| 0 <= j < d ==> s[j] != sep,
    ensures
        split_on(s, sep) == seq![s.take(d)] + split_on(s.skip(d + 1), sep),
    decreases d,
{
    if d == 0 {
        assert(s.drop_first() =~= s.skip(1));
        assert(s.take(0) =~= Seq::<char>::empty());
        assert(split_on(s, sep) =~~= seq![s.take(0)] + split_on(s.skip(1), sep));
    } else {
        let t = s.drop_first();
        assert(t[d - 1] == sep);
        lemma_split_at_first(t, sep, d - 1);
        lemma_split_on_len(t.skip(d), sep);
        assert(t.skip(d) =~= s.skip(d + 1));
        assert(seq![s[0]] + t.take(d - 1) =~= s.take(d));
        assert(split_on(s, sep) =~~= seq![s.take(d)] + split_on(s.skip(d + 1), sep));
    }
}

/// A path with no dot in it: one single-level lookup.
pub open spec fn dot_free(s: Seq<char>) -> bool {
    forall|j: int| 0 <= j < s.len() ==> s[j] != '.'
}

/// Resolving a dot-free path is a direct lookup in the object's fields.
pub proof fn lemma_resolve_single(v: JsonValue, path: Seq<char>)
    requires
        dot_free(path),
    ensures
        spec_resolve(v, path) == (match v {
            JsonValue::Object(fields) => obj_lookup(fields@, path),
            _ => None::<JsonValue>,
        }),
{
    lemma_split_no_sep(path, '.');
}

/// Splitting distributes over concatenation around one separator.
pub proof fn lemma_split_append(p: Seq<char>, q: Seq<char>, sep: char)
    ensures
        split_on(p + seq![sep] + q, sep) == split_on(p, sep) + split_on(q, sep),
    decreases p.len(),
{
    let s = p + seq![sep] + q;
    if p.len() == 0 {
        assert(s[0] == sep);
        assert(s.drop_first() =~= q);
        assert(split_on(p, sep) =~~= seq![Seq::<char>::empty()]);
        assert(split_on(s, sep) =~~= split_on(p, sep) + split_on(q, sep));
    } else {
        assert(s[0] == p[0]);
        assert(s.drop_first() =~= p.drop_first() + seq![sep] + q);
        lemma_split_append(p.drop_first(), q, sep);
        lemma_split_on_len(p.drop_first(), sep);
        let rest = split_on(p.drop_first() + seq![sep] + q, sep);
        if p[0] == sep {
            assert(split_on(s, sep) =~~= split_on(p, sep) + split_on(q, sep));
        } else {
            assert(rest == split_on(p.drop_first(), sep) + split_on(q, sep));
            assert(rest[0] == split_on(p.drop_first(), sep)[0]);
            assert(split_on(s, sep) =~= rest.update(0, seq![s[0]] + rest[0]));
            assert(split_on(p, sep) =~= split_on(p.drop_first(), sep).update(
                0,
                seq![p[0]] + split_on(p.drop_first(), sep)[0],
            ));
            assert(split_on(s, sep) =~~= split_on(p, sep) + split_on(q, sep));
        }
    }
}

/// Resolution of concatenated segment lists composes: follow the first
/// list, then the second from wherever it landed.
pub proof fn lemma_resolve_segs_append(v: JsonValue, s1: Seq<Seq<char>>, s2: Seq<Seq<char>>)
    requires
        s1.len() >= 1,
        s2.len() >= 1,
    ensures
        resolve_segs(v, s1 + s2) == (match resolve_segs(v, s1) {
            Some(w) => resolve_segs(w, s2),
            None => None::<JsonValue>,
        }),
    decreases s1.len(),
{
    let s = s1 + s2;
    assert(s[0] == s1[0]);
    assert(s.len() >= 2);
    match v {
        JsonValue::Object(fields) => {
            match obj_lookup(fields@, s1[0]) {
                Some(child) => {
                    if s1.len() == 1 {
                        assert(s.drop_first() =~= s2);
                    } else {
                        assert(s.drop_first() =~= s1.drop_first() + s2);
                        lemma_resolve_segs_append(child, s1.drop_first(), s2);
                    }
                },
                None => {},
            }
        },
        _ => {},
    }
}

/// Nested field resolution is associative over path segments: resolving
/// `parent.rest` finds whatever resolving `rest` finds in what `parent`
/// resolved to, and nothing where `parent` resolved to nothing.
pub proof fn lemma_resolve_append(v: JsonValue, p: Seq<char>, q: Seq<char>)
    ensures
        spec_resolve(v, p + seq!['.'] + q) == (match spec_resolve(v, p) {
            Some(w) => spec_resolve(w, q),
            None => None::<JsonValue>,
        }),
{
    lemma_split_append(p, q, '.');
    lemma_split_on_len(p, '.');
    lemma_split_on_len(q, '.');
    lemma_resolve_segs_append(v, split_on(p, '.'), split_on(q, '.'));
}

/// Looks up a key in an object's field list.
pub fn object_get<'a>(fields: &'a Vec<(String, JsonValue)>, key: &str) -> (r: Option<
    &'a JsonValue,
>)
    ensures
        match r {
            Some(j) => obj_lookup(fields@, key@) == Some(*j),
            None => obj_lookup(fields@, key@) is None,
        },
{
    let n: usize = fields.len();
    let mut i: usize = 0;
    proof {
        assert(fields@.skip(0) =~= fields@);
    }
    while i < n
        invariant
            i <= n,
            n == fields.len(),
            obj_lookup(fields@, key@) == obj_lookup(fields@.skip(i as int), key@),
        decreases n - i,
    {
        proof {
            assert(fields@.skip(i as int)[0] == fields@[i as int]);
            assert(fields@.skip(i as int).drop_first() =~= fields@.skip(i + 1 as int));
        }
        if str_eq(fields[i].0.as_str(), key) {
            return Some(&fields[i].1);
        }
        i = i + 1;
    }
    proof {
        assert(fields@.skip(n as int) =~= Seq::<(String, JsonValue)>::empty());
    }
    None
}

#[verifier::external_type_specification]
#[verifier::external_body]
pub struct ExValue(serde_json::Value);

/// What parsing a JSON document yields: the library's tree for a valid
/// document, nothing for an invalid one.
pub uninterp spec fn json_parse(s: Seq<char>) -> Option<JsonValue>;

/// Relies on serde_json::from_str::<serde_json::Value>: whether a text
/// parses, and the tree it parses to, depend on the text alone.
#[verifier::external_body]
pub fn parse_json(text: &str) -> (r: Option<JsonValue>)
    ensures
        r == json_parse(text@),
{
    match serde_json::from_str::<serde_json::Value>(text) {
        Ok(v) => Some(from_serde(&v)),
        Err(_) => None,
    }
}

/// Rebuilds a serde_json tree as the library's own, variant by variant;
/// numbers that do not fit a signed 64-bit integer are kept only as their
/// kind.  Trusted as the converting half of parse_json, its one caller.
#[verifier::external_body]
fn from_serde(v: &serde_json::Value) -> JsonValue {
    match v {
        serde_json::Value::Null => JsonValue::Null,
        serde_json::Value::Bool(b) => JsonValue::Bool(*b),
        serde_json::Value::Number(n) => match n.as_i64() {
            Some(i) => JsonValue::Int(i),
            None => JsonValue::Float,
        },
        serde_json::Value::String(s) => JsonValue::Str(s.clone()),
        serde_json::Value::Array(a) => JsonValue::Array(a.iter().map(from_serde).collect()),
        serde_json::Value::Object(m) => JsonValue::Object(
            m.iter().map(|(k, x)| (k.clone(), from_serde(x))).collect(),
        ),
    }
}

/// Resolves a dot-separated path against a value, descending through
/// nested objects.  Absence and a found null are reported differently.
pub fn resolve<'a>(v: &'a JsonValue, path: &str) -> (r: Option<&'a JsonValue>)
    ensures
        match r {
            Some(j) => spec_resolve(*v, path@) == Some(*j),
            None => spec_resolve(*v, path@) is None,
        },
    decreases path@.len(),
{
    let n: usize = path.unicode_len();
    let mut d: usize = 0;
    let mut found = false;
    while d < n && !found
        invariant
            d <= n,
            n == path@.len(),
            found ==> d < n && path@[d as int] == '.',
            forall|j: int| 0 <= j < d ==> path@[j] != '.',
        decreases n - d + (if found { 0int } else { 1int }),
    {
        if path.get_char(d) == '.' {
            found = true;
        } else {
            d = d + 1;
        }
    }
    if !found {
        proof {
            lemma_split_no_sep(path@, '.');
        }
        match v {
            JsonValue::Object(fields) => object_get(fields, path),
            _ => None,
        }
    } else {
        let parent = path.substring_char(0, d);
        let rest = path.substring_char(d + 1, n);
        proof {
            lemma_split_at_first(path@, '.', d as int);
            lemma_split_on_len(rest@, '.');
            assert(parent@ =~= path@.take(d as int));
            assert(rest@ =~= path@.skip(d + 1 as int));
            assert((seq![path@.take(d as int)] + split_on(rest@, '.')).drop_first() =~= split_on(
                rest@,
                '.',
            ));
        }
        match v {
            JsonValue::Object(fields) => match object_get(fields, parent) {
                Some(child) => resolve(child, rest),
                None => None,
            },
            _ => None,
        }
    }
}

} // verus!
