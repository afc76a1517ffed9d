//! The URL builder: composes a search or tag-list request URL from a
//! schema, pagination values, an ordering selector and tag sets.
//!
//! Tags are normalised (lower-cased, spaces replaced by underscores) the
//! same way whether included or excluded, excluded tags carry the schema's
//! exclusion prefix, and the whole expression is joined with the schema's
//! tag separator.  The URL model keeps the query as a name/value list, so
//! laws about parameter occurrence stay readable.

use vstd::prelude::*;
use vstd::string::*;
use crate::schema::{SearchSchema, SearchOrder, TagListSchema, spec_order_token, order_token};
use crate::text::{
    chars_to_string, dec_str, join_with, lower_of, push_dec, push_joined, push_str_chars,
};

verus! {

/// One character of a tag after normalisation: a space becomes an
/// underscore, anything else its lowercase expansion.
pub open spec fn norm_char(c: char) -> Seq<char> {
    if c == ' ' {
        seq!['_']
    } else {
        lower_of(c)
    }
}

/// A whole tag after normalisation.
pub open spec fn norm_tag(s: Seq<char>) -> Seq<char>
    decreases s.len(),
{
    if s.len() == 0 {
        Seq::empty()
    } else {
        norm_char(s[0]) + norm_tag(s.drop_first())
    }
}

pub proof fn lemma_norm_tag_push(s: Seq<char>, c: char)
    ensures
        norm_tag(s.push(c)) == norm_tag(s) + norm_char(c),
    decreases s.len(),
{
    let p = s.push(c);
    if s.len() == 0 {
        assert(p.drop_first() =~= Seq::<char>::empty());
        assert(norm_tag(Seq::<char>::empty()) =~= Seq::<char>::empty());
        assert(norm_tag(p) =~= norm_tag(s) + norm_char(c));
    } else {
        assert(p[0] == s[0]);
        assert(p.drop_first() =~= s.drop_first().push(c));
        lemma_norm_tag_push(s.drop_first(), c);
        assert(norm_tag(p) =~= norm_tag(s) + norm_char(c));
    }
}

/// Normalises one tag: lower-case, spaces as underscores.  Applied alike
/// to included and excluded tags, so a caller's tag and a stored tag
/// compare equal.
pub fn transform_tag(tag: &str) -> (r: String)
    ensures
        r@ == norm_tag(tag@),
{
    let n: usize = tag.unicode_len();
    let mut out: Vec<char> = Vec::new();
    let mut i: usize = 0;
    proof {
        assert(tag@.take(0) =~= Seq::<char>::empty());
        assert(norm_tag(tag@.take(0)) =~= Seq::<char>::empty());
    }
    while i < n
        invariant
            i <= n,
            n == tag@.len(),
            out@ == norm_tag(tag@.take(i as int)),
        decreases n - i,
    {
        let c = tag.get_char(i);
        if c == ' ' {
            out.push('_');
        } else {
            let mut lc = crate::text::lower_chars(c);
            out.append(&mut lc);
        }
        proof {
            assert(tag@.take(i + 1 as int) =~= tag@.take(i as int).push(tag@[i as int]));
            lemma_norm_tag_push(tag@.take(i as int), tag@[i as int]);
            assert(out@ =~= norm_tag(tag@.take(i + 1 as int)));
        }
        i = i + 1;
    }
    proof {
        assert(tag@.take(n as int) =~= tag@);
    }
    chars_to_string(&out)
}

/// All included tags, normalised, in order.
pub open spec fn norm_all(ts: Seq<Seq<char>>) -> Seq<Seq<char>>
    decreases ts.len(),
{
    if ts.len() == 0 {
        Seq::empty()
    } else {
        seq![norm_tag(ts[0])] + norm_all(ts.drop_first())
    }
}

/// All excluded tags, normalised and carrying the exclusion prefix, in
/// order.
pub open spec fn norm_excluded(ts: Seq<Seq<char>>, prefix: char) -> Seq<Seq<char>>
    decreases ts.len(),
{
    if ts.len() == 0 {
        Seq::empty()
    } else {
        seq![seq![prefix] + norm_tag(ts[0])] + norm_excluded(ts.drop_first(), prefix)
    }
}

pub proof fn lemma_norm_all_push(ts: Seq<Seq<char>>, t: Seq<char>)
    ensures
        norm_all(ts.push(t)) == norm_all(ts) + seq![norm_tag(t)],
    decreases ts.len(),
{
    let p = ts.push(t);
    if ts.len() == 0 {
        assert(p.drop_first() =~= Seq::<Seq<char>>::empty());
        assert(norm_all(Seq::<Seq<char>>::empty()) =~= Seq::<Seq<char>>::empty());
        assert(norm_all(p) =~= norm_all(ts) + seq![norm_tag(t)]);
    } else {
        assert(p[0] == ts[0]);
        assert(p.drop_first() =~= ts.drop_first().push(t));
        lemma_norm_all_push(ts.drop_first(), t);
        assert(norm_all(p) =~= norm_all(ts) + seq![norm_tag(t)]);
    }
}

pub proof fn lemma_norm_excluded_push(ts: Seq<Seq<char>>, t: Seq<char>, prefix: char)
    ensures
        norm_excluded(ts.push(t), prefix) == norm_excluded(ts, prefix) + seq![
            seq![prefix] + norm_tag(t),
        ],
    decreases ts.len(),
{
    let p = ts.push(t);
    if ts.len() == 0 {
        assert(p.drop_first() =~= Seq::<Seq<char>>::empty());
        assert(norm_excluded(Seq::<Seq<char>>::empty(), prefix) =~= Seq::<Seq<char>>::empty());
        assert(norm_excluded(p, prefix) =~= norm_excluded(ts, prefix) + seq![
            seq![prefix] + norm_tag(t),
        ]);
    } else {
        assert(p[0] == ts[0]);
        assert(p.drop_first() =~= ts.drop_first().push(t));
        lemma_norm_excluded_push(ts.drop_first(), t, prefix);
        assert(norm_excluded(p, prefix) =~= norm_excluded(ts, prefix) + seq![
            seq![prefix] + norm_tag(t),
        ]);
    }
}

/// The pieces of the tag expression, in order: the ordering token where
/// the table has one, then the included tags, then the prefixed excluded
/// tags.
pub open spec fn tag_tokens(
    order_tok: Option<Seq<char>>,
    included: Seq<Seq<char>>,
    excluded: Seq<Seq<char>>,
    prefix: char,
) -> Seq<Seq<char>> {
    (match order_tok {
        Some(t) => seq![t],
        None => Seq::<Seq<char>>::empty(),
    }) + norm_all(included) + norm_excluded(excluded, prefix)
}

/// Builds the tag expression pieces for one request.
pub fn make_tag_tokens(
    order_tok: Option<&String>,
    included: &Vec<String>,
    excluded: &Vec<String>,
    prefix: char,
) -> (r: Vec<String>)
    ensures
        r.deep_view() == tag_tokens(
            match order_tok {
                Some(t) => Some(t@),
                None => None,
            },
            included.deep_view(),
            excluded.deep_view(),
            prefix,
        ),
{
    let ghost ot: Seq<Seq<char>> = (match order_tok {
        Some(t) => seq![t@],
        None => Seq::<Seq<char>>::empty(),
    });
    let mut tokens: Vec<String> = Vec::new();
    match order_tok {
        Some(t) => {
            let c = t.clone();
            tokens.push(c);
        },
        None => {},
    }
    proof {
        assert(tokens.deep_view() =~~= ot);
    }
    let n: usize = included.len();
    let mut i: usize = 0;
    proof {
        assert(included.deep_view().take(0) =~= Seq::<Seq<char>>::empty());
        assert(norm_all(Seq::<Seq<char>>::empty()) =~= Seq::<Seq<char>>::empty());
        assert(tokens.deep_view() =~~= ot + norm_all(included.deep_view().take(0)));
    }
    while i < n
        invariant
            i <= n,
            n == included.len(),
            tokens.deep_view() == ot + norm_all(included.deep_view().take(i as int)),
        decreases n - i,
    {
        let t = transform_tag(included[i].as_str());
        let ghost g = tokens.deep_view();
        let ghost tv = t@;
        tokens.push(t);
        proof {
            let iv = included.deep_view();
            assert(tv == norm_tag(iv[i as int]));
            assert(tokens.deep_view() =~~= g.push(tv));
            assert(iv.take(i + 1 as int) =~= iv.take(i as int).push(iv[i as int]));
            lemma_norm_all_push(iv.take(i as int), iv[i as int]);
            assert(norm_all(iv.take(i + 1 as int)) == norm_all(iv.take(i as int)) + seq![
                norm_tag(iv[i as int]),
            ]);
            assert(g.push(tv) =~= ot + norm_all(iv.take(i + 1 as int)));
        }
        i = i + 1;
    }
    proof {
        assert(included.deep_view().take(n as int) =~= included.deep_view());
        assert(norm_excluded(Seq::<Seq<char>>::empty(), prefix) =~= Seq::<Seq<char>>::empty());
        assert(tokens.deep_view() =~~= ot + norm_all(included.deep_view()) + norm_excluded(
            excluded.deep_view().take(0),
            prefix,
        ));
    }
    let m: usize = excluded.len();
    let mut j: usize = 0;
    while j < m
        invariant
            j <= m,
            m == excluded.len(),
            tokens.deep_view() == ot + norm_all(included.deep_view()) + norm_excluded(
                excluded.deep_view().take(j as int),
                prefix,
            ),
        decreases m - j,
    {
        let t = transform_tag(excluded[j].as_str());
        let mut cs: Vec<char> = Vec::new();
        cs.push(prefix);
        push_str_chars(&mut cs, t.as_str());
        let piece = chars_to_string(&cs);
        let ghost g = tokens.deep_view();
        let ghost pv = piece@;
        tokens.push(piece);
        proof {
            let ev = excluded.deep_view();
            assert(pv =~= seq![prefix] + norm_tag(ev[j as int]));
            assert(tokens.deep_view() =~~= g.push(pv));
            assert(ev.take(j + 1 as int) =~= ev.take(j as int).push(ev[j as int]));
            lemma_norm_excluded_push(ev.take(j as int), ev[j as int], prefix);
            assert(g.push(pv) =~= ot + norm_all(included.deep_view()) + norm_excluded(
                ev.take(j + 1 as int),
                prefix,
            ));
        }
        j = j + 1;
    }
    proof {
        assert(excluded.deep_view().take(m as int) =~= excluded.deep_view());
        assert(tokens.deep_view() =~~= tag_tokens(
            match order_tok {
                Some(t) => Some(t@),
                None => None,
            },
            included.deep_view(),
            excluded.deep_view(),
            prefix,
        ));
    }
    tokens
}

/// The query of a search request, as name/value pairs in order: page,
/// limit, then the tag expression.
pub open spec fn search_url_params(
    schema: SearchSchema,
    page: u32,
    limit: u32,
    order: SearchOrder,
    included: Seq<Seq<char>>,
    excluded: Seq<Seq<char>>,
) -> Seq<(Seq<char>, Seq<char>)> {
    seq![
        (schema.parameters.page@, dec_str(page as nat)),
        (schema.parameters.limit@, dec_str(limit as nat)),
        (
            schema.parameters.tags@,
            join_with(
                tag_tokens(
                    spec_order_token(schema.order@, order),
                    included,
                    excluded,
                    schema.tag_exclusion_prefix,
                ),
                schema.tag_separator,
            ),
        ),
    ]
}

/// Renders name/value pairs as a query string: `name=value` joined
/// with `&`.
pub open spec fn render_params(ps: Seq<(Seq<char>, Seq<char>)>) -> Seq<char>
    decreases ps.len(),
{
    if ps.len() == 0 {
        Seq::empty()
    } else if ps.len() == 1 {
        ps[0].0 + seq!['='] + ps[0].1
    } else {
        ps[0].0 + seq!['='] + ps[0].1 + seq!['&'] + render_params(ps.drop_first())
    }
}

/// The complete search URL: the base, then the rendered query.
pub open spec fn spec_search_url(
    schema: SearchSchema,
    page: u32,
    limit: u32,
    order: SearchOrder,
    included: Seq<Seq<char>>,
    excluded: Seq<Seq<char>>,
) -> Seq<char> {
    schema.base_url@ + render_params(search_url_params(schema, page, limit, order, included, excluded))
}

/// Builds the search URL for one request: base URL, page, limit, and the
/// tag expression under the schema's parameter names.
pub fn build_search_url(
    schema: &SearchSchema,
    page: u32,
    limit: u32,
    order: SearchOrder,
    included: &Vec<String>,
    excluded: &Vec<String>,
) -> (r: String)
    ensures
        r@ == spec_search_url(*schema, page, limit, order, included.deep_view(), excluded.deep_view()),
{
    let mut out: Vec<char> = Vec::new();
    push_str_chars(&mut out, schema.base_url.as_str());
    push_str_chars(&mut out, schema.parameters.page.as_str());
    out.push('=');
    push_dec(&mut out, page);
    out.push('&');
    push_str_chars(&mut out, schema.parameters.limit.as_str());
    out.push('=');
    push_dec(&mut out, limit);
    out.push('&');
    push_str_chars(&mut out, schema.parameters.tags.as_str());
    out.push('=');
    let tok = order_token(&schema.order, order);
    let tokens = make_tag_tokens(tok, included, excluded, schema.tag_exclusion_prefix);
    push_joined(&mut out, &tokens, schema.tag_separator);
    proof {
        let ps = search_url_params(*schema, page, limit, order, included.deep_view(), excluded.deep_view());
        assert(ps.drop_first()[0] == ps[1]);
        assert(ps.drop_first().drop_first()[0] == ps[2]);
        assert(ps.drop_first().drop_first().len() == 1);
        assert(render_params(ps.drop_first().drop_first()) == ps[2].0 + seq!['='] + ps[2].1);
        assert(ps.drop_first().len() == 2);
        assert(render_params(ps.drop_first()) == ps[1].0 + seq!['='] + ps[1].1 + seq!['&']
            + render_params(ps.drop_first().drop_first()));
        assert(render_params(ps) == ps[0].0 + seq!['='] + ps[0].1 + seq!['&'] + render_params(
            ps.drop_first(),
        ));
        assert(out@ =~= spec_search_url(
            *schema,
            page,
            limit,
            order,
            included.deep_view(),
            excluded.deep_view(),
        ));
    }
    chars_to_string(&out)
}

/// How often a parameter name occurs in a query.
pub open spec fn count_key(ps: Seq<(Seq<char>, Seq<char>)>, name: Seq<char>) -> nat
    decreases ps.len(),
{
    if ps.len() == 0 {
        0
    } else {
        (if ps[0].0 == name {
            1nat
        } else {
            0nat
        }) + count_key(ps.drop_first(), name)
    }
}

pub proof fn lemma_norm_all_index(ts: Seq<Seq<char>>)
    ensures
        norm_all(ts).len() == ts.len(),
        forall|i: int| 0 <= i < ts.len() ==> norm_all(ts)[i] == norm_tag(#[trigger] ts[i]),
    decreases ts.len(),
{
    if ts.len() > 0 {
        lemma_norm_all_index(ts.drop_first());
        assert forall|i: int| 0 <= i < ts.len() implies norm_all(ts)[i] == norm_tag(
            #[trigger] ts[i],
        ) by {
            if i > 0 {
                assert(norm_all(ts)[i] == norm_all(ts.drop_first())[i - 1]);
                assert(ts.drop_first()[i - 1] == ts[i]);
            }
        }
    }
}

pub proof fn lemma_norm_excluded_index(ts: Seq<Seq<char>>, prefix: char)
    ensures
        norm_excluded(ts, prefix).len() == ts.len(),
        forall|i: int|
            0 <= i < ts.len() ==> norm_excluded(ts, prefix)[i] == seq![prefix] + norm_tag(
                #[trigger] ts[i],
            ),
    decreases ts.len(),
{
    if ts.len() > 0 {
        lemma_norm_excluded_index(ts.drop_first(), prefix);
        assert forall|i: int| 0 <= i < ts.len() implies norm_excluded(ts, prefix)[i]
            == seq![prefix] + norm_tag(#[trigger] ts[i]) by {
            if i > 0 {
                assert(norm_excluded(ts, prefix)[i] == norm_excluded(ts.drop_first(), prefix)[i
                    - 1]);
                assert(ts.drop_first()[i - 1] == ts[i]);
            }
        }
    }
}

/// For every schema with distinct parameter names and every request, the
/// built query holds exactly one occurrence each of the page and limit
/// parameters, carrying the literal values given, and the tag parameter
/// once, whose expression holds every included tag unprefixed and every
/// excluded tag behind the exclusion prefix, all normalised to lower case
/// with spaces as underscores.
pub proof fn lemma_search_url_shape(
    schema: SearchSchema,
    page: u32,
    limit: u32,
    order: SearchOrder,
    included: Seq<Seq<char>>,
    excluded: Seq<Seq<char>>,
)
    requires
        schema.wf(),
    ensures
        ({
            let ps = search_url_params(schema, page, limit, order, included, excluded);
            let tokens = tag_tokens(
                spec_order_token(schema.order@, order),
                included,
                excluded,
                schema.tag_exclusion_prefix,
            );
            &&& count_key(ps, schema.parameters.page@) == 1
            &&& count_key(ps, schema.parameters.limit@) == 1
            &&& count_key(ps, schema.parameters.tags@) == 1
            &&& ps[0] == (schema.parameters.page@, dec_str(page as nat))
            &&& ps[1] == (schema.parameters.limit@, dec_str(limit as nat))
            &&& ps[2] == (
                schema.parameters.tags@,
                join_with(tokens, schema.tag_separator),
            )
            &&& forall|i: int|
                0 <= i < included.len() ==> tokens.contains(norm_tag(#[trigger] included[i]))
            &&& forall|i: int|
                0 <= i < excluded.len() ==> tokens.contains(
                    seq![schema.tag_exclusion_prefix] + norm_tag(#[trigger] excluded[i]),
                )
        }),
{
    let ps = search_url_params(schema, page, limit, order, included, excluded);
    let ot: Seq<Seq<char>> = (match spec_order_token(schema.order@, order) {
        Some(t) => seq![t],
        None => Seq::<Seq<char>>::empty(),
    });
    let tokens = tag_tokens(
        spec_order_token(schema.order@, order),
        included,
        excluded,
        schema.tag_exclusion_prefix,
    );
    assert(ps.drop_first()[0] == ps[1]);
    assert(ps.drop_first().drop_first()[0] == ps[2]);
    assert(ps.drop_first().drop_first().drop_first() =~= Seq::<(Seq<char>, Seq<char>)>::empty());
    assert(count_key(Seq::<(Seq<char>, Seq<char>)>::empty(), schema.parameters.page@) == 0);
    assert(count_key(Seq::<(Seq<char>, Seq<char>)>::empty(), schema.parameters.limit@) == 0);
    assert(count_key(Seq::<(Seq<char>, Seq<char>)>::empty(), schema.parameters.tags@) == 0);
    assert(count_key(ps.drop_first().drop_first(), schema.parameters.page@) == 0);
    assert(count_key(ps.drop_first(), schema.parameters.page@) == 0);
    assert(count_key(ps, schema.parameters.page@) == 1);
    assert(count_key(ps.drop_first().drop_first(), schema.parameters.limit@) == 0);
    assert(count_key(ps.drop_first(), schema.parameters.limit@) == 1);
    assert(count_key(ps, schema.parameters.limit@) == 1);
    assert(count_key(ps.drop_first().drop_first(), schema.parameters.tags@) == 1);
    assert(count_key(ps.drop_first(), schema.parameters.tags@) == 1);
    assert(count_key(ps, schema.parameters.tags@) == 1);
    lemma_norm_all_index(included);
    lemma_norm_excluded_index(excluded, schema.tag_exclusion_prefix);
    assert forall|i: int| 0 <= i < included.len() implies tokens.contains(
        norm_tag(#[trigger] included[i]),
    ) by {
        let k = ot.len() + i;
        assert(tokens[k] == norm_all(included)[i]);
    }
    assert forall|i: int| 0 <= i < excluded.len() implies tokens.contains(
        seq![schema.tag_exclusion_prefix] + norm_tag(#[trigger] excluded[i]),
    ) by {
        let k = ot.len() + included.len() + i;
        assert(tokens[k] == norm_excluded(excluded, schema.tag_exclusion_prefix)[i]);
    }
}

/// The complete tag-list URL: base, page, limit, then the schema's
/// ready-made search expression, verbatim.
pub open spec fn spec_tag_list_url(schema: TagListSchema, page: u32, limit: u32) -> Seq<char> {
    schema.base_url@ + schema.parameters.page@ + seq!['='] + dec_str(page as nat) + seq!['&']
        + schema.parameters.limit@ + seq!['='] + dec_str(limit as nat) + seq!['&']
        + schema.parameters.search@
}

/// Builds the tag-list URL for one request.
pub fn build_tag_list_url(schema: &TagListSchema, page: u32, limit: u32) -> (r: String)
    ensures
        r@ == spec_tag_list_url(*schema, page, limit),
{
    let mut out: Vec<char> = Vec::new();
    push_str_chars(&mut out, schema.base_url.as_str());
    push_str_chars(&mut out, schema.parameters.page.as_str());
    out.push('=');
    push_dec(&mut out, page);
    out.push('&');
    push_str_chars(&mut out, schema.parameters.limit.as_str());
    out.push('=');
    push_dec(&mut out, limit);
    out.push('&');
    push_str_chars(&mut out, schema.parameters.search.as_str());
    proof {
        assert(out@ =~= spec_tag_list_url(*schema, page, limit));
    }
    chars_to_string(&out)
}

} // verus!
