//! The record mapper: one raw JSON record in, one typed record out.
//!
//! For a post, a JSON null in the id, score or rating field means the
//! record is tombstoned upstream and is skipped, never an error; a missing
//! field or a wrong type aborts the whole operation, as does a rating
//! string with no alias.  Tag fields follow the schema's encoding variant.
//! For a tag-list record every field is mandatory and there is no skip.

use vstd::prelude::*;
use vstd::string::*;
use crate::data::{Post, PostModel, Rating, Tag, TagModel, Tags, TagsModel};
use crate::error::{Error, ErrorModel};
use crate::json::{JsonValue, spec_resolve, resolve};
use crate::schema::{PostSchema, TagFieldSchema, TagSchema, spec_rating_of, rating_of};
use crate::text::split_on;

verus! {

/// What mapping one raw post record yields: a post, a silent skip for a
/// tombstoned record, or the error that aborts the whole operation.
pub enum PostOutcome {
    Keep(PostModel),
    Skip,
    Fail(ErrorModel),
}

/// The string elements of a JSON array, in order; other elements are
/// dropped silently.
pub open spec fn spec_strings_of(items: Seq<JsonValue>) -> Seq<Seq<char>>
    decreases items.len(),
{
    if items.len() == 0 {
        Seq::empty()
    } else {
        let rest = spec_strings_of(items.drop_first());
        match items[0] {
            JsonValue::Str(s) => seq![s@] + rest,
            _ => rest,
        }
    }
}

pub proof fn lemma_strings_of_push(items: Seq<JsonValue>, x: JsonValue)
    ensures
        spec_strings_of(items.push(x)) == spec_strings_of(items) + (match x {
            JsonValue::Str(s) => seq![s@],
            _ => Seq::<Seq<char>>::empty(),
        }),
    decreases items.len(),
{
    let p = items.push(x);
    if items.len() == 0 {
        assert(p[0] == x);
        assert(p.drop_first() =~= Seq::<JsonValue>::empty());
        assert(spec_strings_of(Seq::<JsonValue>::empty()) =~= Seq::<Seq<char>>::empty());
        assert(spec_strings_of(p) =~= spec_strings_of(items) + (match x {
            JsonValue::Str(s) => seq![s@],
            _ => Seq::<Seq<char>>::empty(),
        }));
    } else {
        assert(p[0] == items[0]);
        assert(p.drop_first() =~= items.drop_first().push(x));
        lemma_strings_of_push(items.drop_first(), x);
        assert(spec_strings_of(p) =~= spec_strings_of(items) + (match x {
            JsonValue::Str(s) => seq![s@],
            _ => Seq::<Seq<char>>::empty(),
        }));
    }
}

/// One tag field read under the schema's encoding: an array of strings
/// without a separator, one delimited string with one.  A missing field is
/// a hard error; so is a value of the wrong shape.
pub open spec fn spec_tag_field(rec: JsonValue, key: Seq<char>, sep: Option<char>) -> Result<
    Seq<Seq<char>>,
    ErrorModel,
> {
    match spec_resolve(rec, key) {
        None => Err(ErrorModel::MissingField { path: key }),
        Some(JsonValue::Array(items)) => match sep {
            None => Ok(spec_strings_of(items@)),
            Some(_) => Err(ErrorModel::TypeMismatch { path: key }),
        },
        Some(JsonValue::Str(s)) => match sep {
            Some(c) => Ok(split_on(s@, c)),
            None => Err(ErrorModel::TypeMismatch { path: key }),
        },
        Some(_) => Err(ErrorModel::TypeMismatch { path: key }),
    }
}

/// Reads one tag field.
pub fn tag_field(rec: &JsonValue, key: &String, sep: Option<char>) -> (r: Result<
    Vec<String>,
    Error,
>)
    ensures
        match r {
            Ok(ts) => spec_tag_field(*rec, key@, sep) == Ok::<_, ErrorModel>(ts.deep_view()),
            Err(e) => spec_tag_field(*rec, key@, sep) == Err::<Seq<Seq<char>>, _>(e@),
        },
{
    match resolve(rec, key.as_str()) {
        None => Err(Error::MissingField { path: key.clone() }),
        Some(JsonValue::Array(items)) => match sep {
            None => Ok(strings_of(items)),
            Some(_) => Err(Error::TypeMismatch { path: key.clone() }),
        },
        Some(JsonValue::Str(s)) => match sep {
            Some(c) => Ok(crate::text::split_str(s.as_str(), c)),
            None => Err(Error::TypeMismatch { path: key.clone() }),
        },
        Some(_) => Err(Error::TypeMismatch { path: key.clone() }),
    }
}

/// Collects the string elements of a JSON array, dropping the rest.
pub fn strings_of(items: &Vec<JsonValue>) -> (r: Vec<String>)
    ensures
        r.deep_view() == spec_strings_of(items@),
{
    let n: usize = items.len();
    let mut out: Vec<String> = Vec::new();
    let mut i: usize = 0;
    proof {
        assert(items@.take(0) =~= Seq::<JsonValue>::empty());
        assert(spec_strings_of(items@.take(0)) =~= Seq::<Seq<char>>::empty());
        assert(out.deep_view() =~~= spec_strings_of(items@.take(0)));
    }
    while i < n
        invariant
            i <= n,
            n == items.len(),
            out.deep_view() == spec_strings_of(items@.take(i as int)),
        decreases n - i,
    {
        proof {
            assert(items@.take(i + 1 as int) =~= items@.take(i as int).push(items@[i as int]));
            lemma_strings_of_push(items@.take(i as int), items@[i as int]);
        }
        match &items[i] {
            JsonValue::Str(s) => {
                let c = s.clone();
                let ghost g = out.deep_view();
                out.push(c);
                proof {
                    assert(out.deep_view() =~~= g.push(s@));
                    assert(g.push(s@) =~= spec_strings_of(items@.take(i + 1 as int)));
                }
            },
            _ => {
                proof {
                    assert(out.deep_view() =~= spec_strings_of(items@.take(i + 1 as int)));
                }
            },
        }
        i = i + 1;
    }
    proof {
        assert(items@.take(n as int) =~= items@);
    }
    out
}

/// Tags per declared category, in category order: each category reads the
/// field `prefix + category`, and the first failing category aborts.
pub open spec fn spec_cat_tags(
    rec: JsonValue,
    prefix: Seq<char>,
    cats: Seq<Seq<char>>,
    sep: Option<char>,
) -> Result<Seq<(Seq<char>, Seq<Seq<char>>)>, ErrorModel>
    decreases cats.len(),
{
    if cats.len() == 0 {
        Ok(Seq::empty())
    } else {
        match spec_tag_field(rec, prefix + cats[0], sep) {
            Err(e) => Err(e),
            Ok(ts) => match spec_cat_tags(rec, prefix, cats.drop_first(), sep) {
                Err(e) => Err(e),
                Ok(rest) => Ok(seq![(cats[0], ts)] + rest),
            },
        }
    }
}

pub proof fn lemma_cat_tags_append(
    rec: JsonValue,
    prefix: Seq<char>,
    a: Seq<Seq<char>>,
    b: Seq<Seq<char>>,
    sep: Option<char>,
)
    ensures
        spec_cat_tags(rec, prefix, a + b, sep) == match spec_cat_tags(rec, prefix, a, sep) {
            Err(e) => Err(e),
            Ok(x) => match spec_cat_tags(rec, prefix, b, sep) {
                Err(e) => Err(e),
                Ok(y) => Ok::<_, ErrorModel>(x + y),
            },
        },
    decreases a.len(),
{
    if a.len() == 0 {
        assert(a + b =~= b);
        assert(spec_cat_tags(rec, prefix, a, sep) == Ok::<_, ErrorModel>(
            Seq::<(Seq<char>, Seq<Seq<char>>)>::empty(),
        ));
        match spec_cat_tags(rec, prefix, b, sep) {
            Ok(y) => {
                assert(Seq::<(Seq<char>, Seq<Seq<char>>)>::empty() + y =~= y);
            },
            Err(_) => {},
        }
    } else {
        let ab = a + b;
        assert(ab[0] == a[0]);
        assert(ab.len() > 0);
        assert(ab.drop_first() =~= a.drop_first() + b);
        lemma_cat_tags_append(rec, prefix, a.drop_first(), b, sep);
        match spec_tag_field(rec, prefix + a[0], sep) {
            Err(_) => {},
            Ok(ts) => {
                match spec_cat_tags(rec, prefix, a.drop_first(), sep) {
                    Err(_) => {},
                    Ok(x1) => {
                        match spec_cat_tags(rec, prefix, b, sep) {
                            Err(_) => {},
                            Ok(y) => {
                                assert(seq![(a[0], ts)] + (x1 + y) =~= (seq![(a[0], ts)] + x1)
                                    + y);
                            },
                        }
                    },
                }
            },
        }
    }
}

/// The tag set of one raw record under the schema's encoding variant.
pub open spec fn spec_map_tags(ts: TagSchema, rec: JsonValue) -> Result<TagsModel, ErrorModel> {
    match ts {
        TagSchema::All { key, separator } => match spec_tag_field(rec, key@, separator) {
            Ok(x) => Ok(TagsModel::All(x)),
            Err(e) => Err(e),
        },
        TagSchema::Categorized { prefix, categories, separator } => match spec_cat_tags(
            rec,
            prefix@,
            categories.deep_view(),
            separator,
        ) {
            Ok(x) => Ok(TagsModel::Categorized(x)),
            Err(e) => Err(e),
        },
    }
}

/// Reads the tags of every declared category.
pub fn cat_tags(rec: &JsonValue, prefix: &String, cats: &Vec<String>, sep: Option<char>) -> (r:
    Result<Vec<(String, Vec<String>)>, Error>)
    ensures
        match r {
            Ok(cs) => spec_cat_tags(*rec, prefix@, cats.deep_view(), sep) == Ok::<_, ErrorModel>(
                cs.deep_view(),
            ),
            Err(e) => spec_cat_tags(*rec, prefix@, cats.deep_view(), sep) == Err::<
                Seq<(Seq<char>, Seq<Seq<char>>)>,
                _,
            >(e@),
        },
{
    let n: usize = cats.len();
    let mut out: Vec<(String, Vec<String>)> = Vec::new();
    let mut i: usize = 0;
    proof {
        assert(cats.deep_view().take(0) =~= Seq::<Seq<char>>::empty());
        assert(spec_cat_tags(*rec, prefix@, cats.deep_view().take(0), sep) == Ok::<
            _,
            ErrorModel,
        >(Seq::<(Seq<char>, Seq<Seq<char>>)>::empty()));
        assert(out.deep_view() =~~= Seq::<(Seq<char>, Seq<Seq<char>>)>::empty());
    }
    while i < n
        invariant
            i <= n,
            n == cats.len(),
            spec_cat_tags(*rec, prefix@, cats.deep_view().take(i as int), sep) == Ok::<
                _,
                ErrorModel,
            >(out.deep_view()),
        decreases n - i,
    {
        let mut kcs: Vec<char> = Vec::new();
        crate::text::push_str_chars(&mut kcs, prefix.as_str());
        crate::text::push_str_chars(&mut kcs, cats[i].as_str());
        let key = crate::text::chars_to_string(&kcs);
        proof {
            assert(key@ == prefix@ + cats.deep_view()[i as int]);
        }
        match tag_field(rec, &key, sep) {
            Err(e) => {
                proof {
                    let dv = cats.deep_view();
                    assert(dv =~= dv.take(i as int) + dv.skip(i as int));
                    lemma_cat_tags_append(*rec, prefix@, dv.take(i as int), dv.skip(i as int), sep);
                    assert(dv.skip(i as int)[0] == dv[i as int]);
                    assert(dv.skip(i as int).len() > 0);
                    assert(spec_cat_tags(*rec, prefix@, dv.skip(i as int), sep) == Err::<
                        Seq<(Seq<char>, Seq<Seq<char>>)>,
                        _,
                    >(e@));
                }
                return Err(e);
            },
            Ok(ts) => {
                let cname = cats[i].clone();
                let ghost g = out.deep_view();
                let ghost tsv = ts.deep_view();
                out.push((cname, ts));
                proof {
                    let dv = cats.deep_view();
                    assert(out.deep_view() =~~= g.push((dv[i as int], tsv)));
                    assert(dv.take(i + 1 as int) =~= dv.take(i as int) + seq![dv[i as int]]);
                    lemma_cat_tags_append(
                        *rec,
                        prefix@,
                        dv.take(i as int),
                        seq![dv[i as int]],
                        sep,
                    );
                    assert(seq![dv[i as int]][0] == dv[i as int]);
                    assert(seq![dv[i as int]].drop_first()
                        =~= Seq::<Seq<char>>::empty());
                    assert(spec_cat_tags(*rec, prefix@, Seq::<Seq<char>>::empty(), sep) == Ok::<
                        _,
                        ErrorModel,
                    >(Seq::<(Seq<char>, Seq<Seq<char>>)>::empty()));
                    assert(seq![(dv[i as int], tsv)] + Seq::<(Seq<char>, Seq<Seq<char>>)>::empty()
                        =~= seq![(dv[i as int], tsv)]);
                    assert(g + seq![(dv[i as int], tsv)] =~= g.push((dv[i as int], tsv)));
                    assert(spec_cat_tags(*rec, prefix@, dv.take(i + 1 as int), sep) == Ok::<
                        _,
                        ErrorModel,
                    >(out.deep_view()));
                }
            },
        }
        i = i + 1;
    }
    proof {
        assert(cats.deep_view().take(n as int) =~= cats.deep_view());
    }
    Ok(out)
}

/// Reads the whole tag set of one raw record.
pub fn map_tags(ts: &TagSchema, rec: &JsonValue) -> (r: Result<Tags, Error>)
    ensures
        match r {
            Ok(t) => spec_map_tags(*ts, *rec) == Ok::<_, ErrorModel>(t@),
            Err(e) => spec_map_tags(*ts, *rec) == Err::<TagsModel, _>(e@),
        },
{
    match ts {
        TagSchema::All { key, separator } => match tag_field(rec, key, *separator) {
            Ok(x) => Ok(Tags::All(x)),
            Err(e) => Err(e),
        },
        TagSchema::Categorized { prefix, categories, separator } => match cat_tags(
            rec,
            prefix,
            categories,
            *separator,
        ) {
            Ok(x) => Ok(Tags::Categorized(x)),
            Err(e) => Err(e),
        },
    }
}

/// An optional string field: present only where the path resolves to a
/// string; anything else is the unset value, never an error.
pub open spec fn spec_opt_field(rec: JsonValue, path: Seq<char>) -> Option<Seq<char>> {
    match spec_resolve(rec, path) {
        Some(JsonValue::Str(s)) => Some(s@),
        _ => None,
    }
}

/// Reads an optional string field.
pub fn opt_field(rec: &JsonValue, path: &String) -> (r: Option<String>)
    ensures
        crate::data::opt_str_view(r) == spec_opt_field(*rec, path@),
{
    match resolve(rec, path.as_str()) {
        Some(JsonValue::Str(s)) => Some(s.clone()),
        _ => None,
    }
}

/// Mapping one raw record to a post.  A null id, score or rating skips the
/// record; a missing mandatory field, a wrong type, or an unknown rating
/// alias fails, naming the offending path or literal.  Fields are read in
/// order: id, score, rating, tags; hash, resource and preview URLs never
/// fail.
pub open spec fn spec_map_post(ps: PostSchema, rec: JsonValue) -> PostOutcome {
    match spec_resolve(rec, ps.id@) {
        None => PostOutcome::Fail(ErrorModel::MissingField { path: ps.id@ }),
        Some(JsonValue::Null) => PostOutcome::Skip,
        Some(JsonValue::Int(id)) => if id < 0 {
            PostOutcome::Fail(ErrorModel::TypeMismatch { path: ps.id@ })
        } else {
            match spec_resolve(rec, ps.score@) {
                None => PostOutcome::Fail(ErrorModel::MissingField { path: ps.score@ }),
                Some(JsonValue::Null) => PostOutcome::Skip,
                Some(JsonValue::Int(score)) => match spec_resolve(rec, ps.rating@) {
                    None => PostOutcome::Fail(ErrorModel::MissingField { path: ps.rating@ }),
                    Some(JsonValue::Null) => PostOutcome::Skip,
                    Some(JsonValue::Str(rs)) => match spec_rating_of(ps.rating_map@, rs@) {
                        None => PostOutcome::Fail(
                            ErrorModel::UnknownRatingAlias { value: rs@ },
                        ),
                        Some(rating) => match spec_map_tags(ps.tags, rec) {
                            Err(e) => PostOutcome::Fail(e),
                            Ok(tags) => PostOutcome::Keep(
                                PostModel {
                                    id: id as u64,
                                    tags,
                                    score,
                                    rating,
                                    hash: spec_opt_field(rec, ps.hash@),
                                    preview_url: match ps.preview_url {
                                        Some(p) => spec_opt_field(rec, p@),
                                        None => None,
                                    },
                                    resource_url: spec_opt_field(rec, ps.resource_url@),
                                },
                            ),
                        },
                    },
                    Some(_) => PostOutcome::Fail(ErrorModel::TypeMismatch { path: ps.rating@ }),
                },
                Some(_) => PostOutcome::Fail(ErrorModel::TypeMismatch { path: ps.score@ }),
            }
        },
        Some(_) => PostOutcome::Fail(ErrorModel::TypeMismatch { path: ps.id@ }),
    }
}

/// Maps one raw record to a post, a skip, or the aborting error.
pub fn map_post(ps: &PostSchema, rec: &JsonValue) -> (r: Result<Option<Post>, Error>)
    ensures
        match r {
            Ok(Some(p)) => spec_map_post(*ps, *rec) == PostOutcome::Keep(p@),
            Ok(None) => spec_map_post(*ps, *rec) == PostOutcome::Skip,
            Err(e) => spec_map_post(*ps, *rec) == PostOutcome::Fail(e@),
        },
{
    let id: i64 = match resolve(rec, ps.id.as_str()) {
        None => {
            return Err(Error::MissingField { path: ps.id.clone() });
        },
        Some(JsonValue::Null) => {
            return Ok(None);
        },
        Some(JsonValue::Int(i)) => {
            if *i < 0 {
                return Err(Error::TypeMismatch { path: ps.id.clone() });
            }
            *i
        },
        Some(_) => {
            return Err(Error::TypeMismatch { path: ps.id.clone() });
        },
    };
    let score: i64 = match resolve(rec, ps.score.as_str()) {
        None => {
            return Err(Error::MissingField { path: ps.score.clone() });
        },
        Some(JsonValue::Null) => {
            return Ok(None);
        },
        Some(JsonValue::Int(s)) => *s,
        Some(_) => {
            return Err(Error::TypeMismatch { path: ps.score.clone() });
        },
    };
    let rating: Rating = match resolve(rec, ps.rating.as_str()) {
        None => {
            return Err(Error::MissingField { path: ps.rating.clone() });
        },
        Some(JsonValue::Null) => {
            return Ok(None);
        },
        Some(JsonValue::Str(rs)) => match rating_of(&ps.rating_map, rs.as_str()) {
            None => {
                return Err(Error::UnknownRatingAlias { value: rs.clone() });
            },
            Some(rt) => rt,
        },
        Some(_) => {
            return Err(Error::TypeMismatch { path: ps.rating.clone() });
        },
    };
    let tags: Tags = match map_tags(&ps.tags, rec) {
        Err(e) => {
            return Err(e);
        },
        Ok(t) => t,
    };
    let hash = opt_field(rec, &ps.hash);
    let preview_url = match &ps.preview_url {
        Some(p) => opt_field(rec, p),
        None => None,
    };
    let resource_url = opt_field(rec, &ps.resource_url);
    let p = Post { id: id as u64, tags, score, rating, hash, preview_url, resource_url };
    Ok(Some(p))
}

/// Builds the raw record a flat, separator-free schema would have
/// produced for the given post data: the inverse of the record mapper for
/// that schema shape.  Mapping the result back yields a post carrying
/// exactly the given id, score, rating and tag set — the round trip
/// reproduces the tags bit for bit, so also as an unordered set.
pub fn encode_flat_post(
    ps: &PostSchema,
    key: &String,
    id: u64,
    score: i64,
    rating_code: &String,
    tags: &Vec<String>,
) -> (r: JsonValue)
    requires
        ps.tags matches TagSchema::All { key: k, separator: sep } && k@ == key@ && sep is None,
        crate::json::dot_free(key@),
        crate::json::dot_free(ps.id@),
        crate::json::dot_free(ps.score@),
        crate::json::dot_free(ps.rating@),
        key@ != ps.id@ && key@ != ps.score@ && key@ != ps.rating@,
        ps.id@ != ps.score@ && ps.id@ != ps.rating@ && ps.score@ != ps.rating@,
        id <= i64::MAX as u64,
        spec_rating_of(ps.rating_map@, rating_code@) is Some,
    ensures
        spec_map_post(*ps, r) matches PostOutcome::Keep(p) && p.id == id && p.score == score
            && Some(p.rating) == spec_rating_of(ps.rating_map@, rating_code@) && p.tags
            == TagsModel::All(tags.deep_view()),
{
    let n: usize = tags.len();
    let mut items: Vec<JsonValue> = Vec::new();
    let mut i: usize = 0;
    proof {
        assert(tags.deep_view().take(0) =~= Seq::<Seq<char>>::empty());
        assert(spec_strings_of(items@) =~= tags.deep_view().take(0));
    }
    while i < n
        invariant
            i <= n,
            n == tags.len(),
            spec_strings_of(items@) == tags.deep_view().take(i as int),
        decreases n - i,
    {
        let s = tags[i].clone();
        let ghost g = items@;
        items.push(JsonValue::Str(s));
        proof {
            lemma_strings_of_push(g, JsonValue::Str(s));
            assert(items@ == g.push(JsonValue::Str(s)));
            assert(spec_strings_of(items@) =~= tags.deep_view().take(i + 1 as int));
        }
        i = i + 1;
    }
    proof {
        assert(tags.deep_view().take(n as int) =~= tags.deep_view());
    }
    let mut fields: Vec<(String, JsonValue)> = Vec::new();
    fields.push((ps.id.clone(), JsonValue::Int(id as i64)));
    fields.push((ps.score.clone(), JsonValue::Int(score)));
    fields.push((ps.rating.clone(), JsonValue::Str(rating_code.clone())));
    fields.push((key.clone(), JsonValue::Array(items)));
    let r = JsonValue::Object(fields);
    proof {
        let fs = (match &r {
            JsonValue::Object(f) => f@,
            _ => arbitrary(),
        });
        assert(fs.len() == 4);
        assert(fs.drop_first()[0] == fs[1]);
        assert(fs.drop_first().drop_first()[0] == fs[2]);
        assert(fs.drop_first().drop_first().drop_first()[0] == fs[3]);
        assert(fs.drop_first().drop_first().drop_first().drop_first() =~= Seq::<
            (String, JsonValue),
        >::empty());
        crate::json::lemma_resolve_single(r, ps.id@);
        crate::json::lemma_resolve_single(r, ps.score@);
        crate::json::lemma_resolve_single(r, ps.rating@);
        crate::json::lemma_resolve_single(r, key@);
        let f1 = fs.drop_first();
        let f2 = f1.drop_first();
        let f3 = f2.drop_first();
        assert(f1[1] == fs[2] && f1[2] == fs[3]);
        assert(f2[1] == fs[3]);
        assert(crate::json::obj_lookup(f3, key@) == Some(fs[3].1));
        assert(crate::json::obj_lookup(f2, ps.rating@) == Some(fs[2].1));
        assert(crate::json::obj_lookup(f2, key@) == Some(fs[3].1));
        assert(crate::json::obj_lookup(f1, ps.score@) == Some(fs[1].1));
        assert(crate::json::obj_lookup(f1, ps.rating@) == Some(fs[2].1));
        assert(crate::json::obj_lookup(f1, key@) == Some(fs[3].1));
        assert(crate::json::obj_lookup(fs, ps.id@) == Some(fs[0].1));
        assert(crate::json::obj_lookup(fs, ps.score@) == Some(fs[1].1));
        assert(crate::json::obj_lookup(fs, ps.rating@) == Some(fs[2].1));
        assert(crate::json::obj_lookup(fs, key@) == Some(fs[3].1));
        assert(0 <= id as i64);
        match &ps.tags {
            TagSchema::All { key: k, separator } => {
                assert(k@ == key@);
                assert(spec_tag_field(r, k@, *separator) == Ok::<_, ErrorModel>(
                    tags.deep_view(),
                ));
            },
            _ => {},
        }
    }
    r
}

/// Mapping a whole record sequence, in order: skipped records are omitted
/// without renumbering, and the first error aborts with no partial result.
pub open spec fn spec_map_posts(ps: PostSchema, recs: Seq<JsonValue>) -> Result<
    Seq<PostModel>,
    ErrorModel,
>
    decreases recs.len(),
{
    if recs.len() == 0 {
        Ok(Seq::empty())
    } else {
        match spec_map_post(ps, recs[0]) {
            PostOutcome::Fail(e) => Err(e),
            PostOutcome::Skip => spec_map_posts(ps, recs.drop_first()),
            PostOutcome::Keep(p) => match spec_map_posts(ps, recs.drop_first()) {
                Err(e) => Err(e),
                Ok(rest) => Ok(seq![p] + rest),
            },
        }
    }
}

pub proof fn lemma_map_posts_append(ps: PostSchema, a: Seq<JsonValue>, b: Seq<JsonValue>)
    ensures
        spec_map_posts(ps, a + b) == match spec_map_posts(ps, a) {
            Err(e) => Err(e),
            Ok(x) => match spec_map_posts(ps, b) {
                Err(e) => Err(e),
                Ok(y) => Ok::<_, ErrorModel>(x + y),
            },
        },
    decreases a.len(),
{
    if a.len() == 0 {
        assert(a + b =~= b);
        assert(spec_map_posts(ps, a) == Ok::<_, ErrorModel>(Seq::<PostModel>::empty()));
        match spec_map_posts(ps, b) {
            Ok(y) => {
                assert(Seq::<PostModel>::empty() + y =~= y);
            },
            Err(_) => {},
        }
    } else {
        let ab = a + b;
        assert(ab[0] == a[0]);
        assert(ab.len() > 0);
        assert(ab.drop_first() =~= a.drop_first() + b);
        lemma_map_posts_append(ps, a.drop_first(), b);
        match spec_map_post(ps, a[0]) {
            PostOutcome::Fail(_) => {},
            PostOutcome::Skip => {},
            PostOutcome::Keep(p) => {
                match spec_map_posts(ps, a.drop_first()) {
                    Err(_) => {},
                    Ok(x1) => {
                        match spec_map_posts(ps, b) {
                            Err(_) => {},
                            Ok(y) => {
                                assert(seq![p] + (x1 + y) =~= (seq![p] + x1) + y);
                            },
                        }
                    },
                }
            },
        }
    }
}

/// Maps every raw record of a response, in insertion order.
pub fn map_posts(ps: &PostSchema, recs: &Vec<JsonValue>) -> (r: Result<Vec<Post>, Error>)
    ensures
        match r {
            Ok(posts) => spec_map_posts(*ps, recs@) == Ok::<_, ErrorModel>(posts.deep_view()),
            Err(e) => spec_map_posts(*ps, recs@) == Err::<Seq<PostModel>, _>(e@),
        },
{
    let n: usize = recs.len();
    let mut out: Vec<Post> = Vec::new();
    let mut i: usize = 0;
    proof {
        assert(recs@.take(0) =~= Seq::<JsonValue>::empty());
        assert(spec_map_posts(*ps, recs@.take(0)) == Ok::<_, ErrorModel>(
            Seq::<PostModel>::empty(),
        ));
        assert(out.deep_view() =~~= Seq::<PostModel>::empty());
    }
    while i < n
        invariant
            i <= n,
            n == recs.len(),
            spec_map_posts(*ps, recs@.take(i as int)) == Ok::<_, ErrorModel>(out.deep_view()),
        decreases n - i,
    {
        proof {
            assert(recs@.take(i + 1 as int) =~= recs@.take(i as int) + seq![recs@[i as int]]);
            lemma_map_posts_append(*ps, recs@.take(i as int), seq![recs@[i as int]]);
            assert(seq![recs@[i as int]][0] == recs@[i as int]);
            assert(seq![recs@[i as int]].drop_first() =~= Seq::<JsonValue>::empty());
            assert(spec_map_posts(*ps, Seq::<JsonValue>::empty()) == Ok::<_, ErrorModel>(
                Seq::<PostModel>::empty(),
            ));
        }
        match map_post(ps, &recs[i]) {
            Err(e) => {
                proof {
                    assert(recs@ =~= recs@.take(i as int) + recs@.skip(i as int));
                    lemma_map_posts_append(*ps, recs@.take(i as int), recs@.skip(i as int));
                    assert(recs@.skip(i as int)[0] == recs@[i as int]);
                    assert(recs@.skip(i as int).len() > 0);
                    assert(spec_map_posts(*ps, recs@.skip(i as int)) == Err::<Seq<PostModel>, _>(
                        e@,
                    ));
                }
                return Err(e);
            },
            Ok(None) => {
                proof {
                    assert(spec_map_posts(*ps, seq![recs@[i as int]]) == Ok::<_, ErrorModel>(
                        Seq::<PostModel>::empty(),
                    ));
                    assert(out.deep_view() + Seq::<PostModel>::empty() =~= out.deep_view());
                }
            },
            Ok(Some(p)) => {
                let ghost g = out.deep_view();
                let ghost pm = p@;
                out.push(p);
                proof {
                    assert(out.deep_view() =~~= g.push(pm));
                    assert(spec_map_posts(*ps, seq![recs@[i as int]]) == Ok::<_, ErrorModel>(
                        seq![pm] + Seq::<PostModel>::empty(),
                    ));
                    assert(seq![pm] + Seq::<PostModel>::empty() =~= seq![pm]);
                    assert(g + seq![pm] =~= g.push(pm));
                }
            },
        }
        i = i + 1;
    }
    proof {
        assert(recs@.take(n as int) =~= recs@);
    }
    Ok(out)
}

/// A record that maps to a skip is absent from the output and leaves
/// every other record's fate untouched: the sequence maps exactly as if
/// the skipped record had never been there.
pub proof fn lemma_skipped_record_invisible(ps: PostSchema, recs: Seq<JsonValue>, i: int)
    requires
        0 <= i < recs.len(),
        spec_map_post(ps, recs[i]) == PostOutcome::Skip,
    ensures
        spec_map_posts(ps, recs) == spec_map_posts(ps, recs.remove(i)),
    decreases i,
{
    if i == 0 {
        assert(recs.remove(0) =~= recs.drop_first());
    } else {
        assert(recs.remove(i)[0] == recs[0]);
        assert(recs.remove(i).len() > 0);
        assert(recs.remove(i).drop_first() =~= recs.drop_first().remove(i - 1));
        assert(recs.drop_first()[i - 1] == recs[i]);
        lemma_skipped_record_invisible(ps, recs.drop_first(), i - 1);
    }
}

/// The first failing record aborts the whole mapping with its error, no
/// matter how many records mapped or skipped before it.
pub proof fn lemma_first_error_aborts(
    ps: PostSchema,
    recs: Seq<JsonValue>,
    i: int,
    e: ErrorModel,
)
    requires
        0 <= i < recs.len(),
        spec_map_post(ps, recs[i]) == PostOutcome::Fail(e),
        forall|j: int|
            0 <= j < i ==> !(spec_map_post(ps, #[trigger] recs[j]) matches PostOutcome::Fail(_)),
    ensures
        spec_map_posts(ps, recs) == Err::<Seq<PostModel>, _>(e),
    decreases i,
{
    if i == 0 {
    } else {
        assert(recs.drop_first()[i - 1] == recs[i]);
        assert(forall|j: int|
            0 <= j < i - 1 ==> #[trigger] recs.drop_first()[j] == recs[j + 1]);
        lemma_first_error_aborts(ps, recs.drop_first(), i - 1, e);
        assert(!(spec_map_post(ps, recs[0]) matches PostOutcome::Fail(_)));
    }
}

/// A mandatory non-negative integer field of a tag record: absence is a
/// missing-field error; null or any other type is a type mismatch.
pub open spec fn spec_tag_int(rec: JsonValue, path: Seq<char>) -> Result<u64, ErrorModel> {
    match spec_resolve(rec, path) {
        None => Err(ErrorModel::MissingField { path }),
        Some(JsonValue::Int(i)) => if i < 0 {
            Err(ErrorModel::TypeMismatch { path })
        } else {
            Ok(i as u64)
        },
        Some(_) => Err(ErrorModel::TypeMismatch { path }),
    }
}

/// Mapping one raw tag record: id, name and count are all mandatory, the
/// name must be a non-empty string, and there is no skip.
pub open spec fn spec_map_tag(ts: TagFieldSchema, rec: JsonValue) -> Result<
    TagModel,
    ErrorModel,
> {
    match spec_tag_int(rec, ts.id@) {
        Err(e) => Err(e),
        Ok(id) => match spec_resolve(rec, ts.name@) {
            None => Err(ErrorModel::MissingField { path: ts.name@ }),
            Some(JsonValue::Str(name)) => if name@.len() == 0 {
                Err(ErrorModel::TypeMismatch { path: ts.name@ })
            } else {
                match spec_tag_int(rec, ts.count@) {
                    Err(e) => Err(e),
                    Ok(count) => Ok(TagModel { id, name: name@, count }),
                }
            },
            Some(_) => Err(ErrorModel::TypeMismatch { path: ts.name@ }),
        },
    }
}

fn tag_int(rec: &JsonValue, path: &String) -> (r: Result<u64, Error>)
    ensures
        match r {
            Ok(v) => spec_tag_int(*rec, path@) == Ok::<_, ErrorModel>(v),
            Err(e) => spec_tag_int(*rec, path@) == Err::<u64, _>(e@),
        },
{
    match resolve(rec, path.as_str()) {
        None => Err(Error::MissingField { path: path.clone() }),
        Some(JsonValue::Int(i)) => {
            if *i < 0 {
                Err(Error::TypeMismatch { path: path.clone() })
            } else {
                Ok(*i as u64)
            }
        },
        Some(_) => Err(Error::TypeMismatch { path: path.clone() }),
    }
}

/// Maps one raw tag record; every resulting tag carries a non-empty name.
pub fn map_tag(ts: &TagFieldSchema, rec: &JsonValue) -> (r: Result<Tag, Error>)
    ensures
        match r {
            Ok(t) => spec_map_tag(*ts, *rec) == Ok::<_, ErrorModel>(t@) && crate::data::tag_wf(
                t@,
            ),
            Err(e) => spec_map_tag(*ts, *rec) == Err::<TagModel, _>(e@),
        },
{
    let id: u64 = match tag_int(rec, &ts.id) {
        Err(e) => {
            return Err(e);
        },
        Ok(v) => v,
    };
    let name: String = match resolve(rec, ts.name.as_str()) {
        None => {
            return Err(Error::MissingField { path: ts.name.clone() });
        },
        Some(JsonValue::Str(s)) => {
            if s.as_str().unicode_len() == 0 {
                return Err(Error::TypeMismatch { path: ts.name.clone() });
            }
            s.clone()
        },
        Some(_) => {
            return Err(Error::TypeMismatch { path: ts.name.clone() });
        },
    };
    let count: u64 = match tag_int(rec, &ts.count) {
        Err(e) => {
            return Err(e);
        },
        Ok(v) => v,
    };
    Ok(Tag { id, name, count })
}

/// Mapping a whole tag-list response: structurally uniform, no skip, the
/// first error aborts.
pub open spec fn spec_map_tag_list(ts: TagFieldSchema, recs: Seq<JsonValue>) -> Result<
    Seq<TagModel>,
    ErrorModel,
>
    decreases recs.len(),
{
    if recs.len() == 0 {
        Ok(Seq::empty())
    } else {
        match spec_map_tag(ts, recs[0]) {
            Err(e) => Err(e),
            Ok(t) => match spec_map_tag_list(ts, recs.drop_first()) {
                Err(e) => Err(e),
                Ok(rest) => Ok(seq![t] + rest),
            },
        }
    }
}

pub proof fn lemma_map_tag_list_append(ts: TagFieldSchema, a: Seq<JsonValue>, b: Seq<JsonValue>)
    ensures
        spec_map_tag_list(ts, a + b) == match spec_map_tag_list(ts, a) {
            Err(e) => Err(e),
            Ok(x) => match spec_map_tag_list(ts, b) {
                Err(e) => Err(e),
                Ok(y) => Ok::<_, ErrorModel>(x + y),
            },
        },
    decreases a.len(),
{
    if a.len() == 0 {
        assert(a + b =~= b);
        assert(spec_map_tag_list(ts, a) == Ok::<_, ErrorModel>(Seq::<TagModel>::empty()));
        match spec_map_tag_list(ts, b) {
            Ok(y) => {
                assert(Seq::<TagModel>::empty() + y =~= y);
            },
            Err(_) => {},
        }
    } else {
        let ab = a + b;
        assert(ab[0] == a[0]);
        assert(ab.len() > 0);
        assert(ab.drop_first() =~= a.drop_first() + b);
        lemma_map_tag_list_append(ts, a.drop_first(), b);
        match spec_map_tag(ts, a[0]) {
            Err(_) => {},
            Ok(t) => {
                match spec_map_tag_list(ts, a.drop_first()) {
                    Err(_) => {},
                    Ok(x1) => {
                        match spec_map_tag_list(ts, b) {
                            Err(_) => {},
                            Ok(y) => {
                                assert(seq![t] + (x1 + y) =~= (seq![t] + x1) + y);
                            },
                        }
                    },
                }
            },
        }
    }
}

/// Maps every raw tag record of a tag-list response, in order.
pub fn map_tag_list(ts: &TagFieldSchema, recs: &Vec<JsonValue>) -> (r: Result<Vec<Tag>, Error>)
    ensures
        match r {
            Ok(tags) => spec_map_tag_list(*ts, recs@) == Ok::<_, ErrorModel>(tags.deep_view()),
            Err(e) => spec_map_tag_list(*ts, recs@) == Err::<Seq<TagModel>, _>(e@),
        },
{
    let n: usize = recs.len();
    let mut out: Vec<Tag> = Vec::new();
    let mut i: usize = 0;
    proof {
        assert(recs@.take(0) =~= Seq::<JsonValue>::empty());
        assert(spec_map_tag_list(*ts, recs@.take(0)) == Ok::<_, ErrorModel>(
            Seq::<TagModel>::empty(),
        ));
        assert(out.deep_view() =~~= Seq::<TagModel>::empty());
    }
    while i < n
        invariant
            i <= n,
            n == recs.len(),
            spec_map_tag_list(*ts, recs@.take(i as int)) == Ok::<_, ErrorModel>(out.deep_view()),
        decreases n - i,
    {
        proof {
            assert(recs@.take(i + 1 as int) =~= recs@.take(i as int) + seq![recs@[i as int]]);
            lemma_map_tag_list_append(*ts, recs@.take(i as int), seq![recs@[i as int]]);
            assert(seq![recs@[i as int]][0] == recs@[i as int]);
            assert(seq![recs@[i as int]].drop_first() =~= Seq::<JsonValue>::empty());
            assert(spec_map_tag_list(*ts, Seq::<JsonValue>::empty()) == Ok::<_, ErrorModel>(
                Seq::<TagModel>::empty(),
            ));
        }
        match map_tag(ts, &recs[i]) {
            Err(e) => {
                proof {
                    assert(recs@ =~= recs@.take(i as int) + recs@.skip(i as int));
                    lemma_map_tag_list_append(*ts, recs@.take(i as int), recs@.skip(i as int));
                    assert(recs@.skip(i as int)[0] == recs@[i as int]);
                    assert(recs@.skip(i as int).len() > 0);
                    assert(spec_map_tag_list(*ts, recs@.skip(i as int)) == Err::<
                        Seq<TagModel>,
                        _,
                    >(e@));
                }
                return Err(e);
            },
            Ok(t) => {
                let ghost g = out.deep_view();
                let ghost tm = t@;
                out.push(t);
                proof {
                    assert(out.deep_view() =~~= g.push(tm));
                    assert(spec_map_tag_list(*ts, seq![recs@[i as int]]) == Ok::<_, ErrorModel>(
                        seq![tm] + Seq::<TagModel>::empty(),
                    ));
                    assert(seq![tm] + Seq::<TagModel>::empty() =~= seq![tm]);
                    assert(g + seq![tm] =~= g.push(tm));
                }
            },
        }
        i = i + 1;
    }
    proof {
        assert(recs@.take(n as int) =~= recs@);
    }
    Ok(out)
}

} // verus!
