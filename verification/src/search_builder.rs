//! A builder for search requests: pagination, ordering, and the included
//! and excluded tag sets.
//!
//! The two tag sets are duplicate-free and mutually exclusive: including a
//! tag withdraws it from the excluded set and vice versa, and including a
//! tag that is already included changes nothing.  Order of insertion is
//! kept, so one call always builds the same URL.

use vstd::prelude::*;
use crate::data::vec_contains_str;
use crate::schema::{SearchOrder, SearchSchema};
use crate::text::{join_with, str_eq};
use crate::url::{build_search_url, spec_search_url, tag_tokens};

verus! {

/// No tag occurs twice.
pub open spec fn distinct_tags(ts: Seq<Seq<char>>) -> bool {
    forall|i: int, j: int| 0 <= i < j < ts.len() ==> ts[i] != ts[j]
}

/// No tag occurs in both sets.
pub open spec fn disjoint_tags(a: Seq<Seq<char>>, b: Seq<Seq<char>>) -> bool {
    forall|i: int, j: int| 0 <= i < a.len() && 0 <= j < b.len() ==> a[i] != b[j]
}

/// The set with every occurrence of one tag withdrawn, order kept.
pub open spec fn remove_tag(ts: Seq<Seq<char>>, t: Seq<char>) -> Seq<Seq<char>>
    decreases ts.len(),
{
    if ts.len() == 0 {
        Seq::empty()
    } else {
        let rest = remove_tag(ts.drop_first(), t);
        if ts[0] == t {
            rest
        } else {
            seq![ts[0]] + rest
        }
    }
}

pub proof fn lemma_remove_tag_props(ts: Seq<Seq<char>>, t: Seq<char>)
    ensures
        forall|k: int|
            0 <= k < remove_tag(ts, t).len() ==> remove_tag(ts, t)[k] != t && ts.contains(
                #[trigger] remove_tag(ts, t)[k],
            ),
        forall|x: Seq<char>| ts.contains(x) && x != t ==> remove_tag(ts, t).contains(x),
        distinct_tags(ts) ==> distinct_tags(remove_tag(ts, t)),
    decreases ts.len(),
{
    if ts.len() == 0 {
    } else {
        let rest = remove_tag(ts.drop_first(), t);
        lemma_remove_tag_props(ts.drop_first(), t);
        assert forall|k: int| 0 <= k < remove_tag(ts, t).len() implies remove_tag(ts, t)[k] != t
            && ts.contains(#[trigger] remove_tag(ts, t)[k]) by {
            if ts[0] == t {
                assert(remove_tag(ts, t)[k] == rest[k]);
                assert(ts.drop_first().contains(rest[k]));
                let w = choose|w: int|
                    0 <= w < ts.drop_first().len() && ts.drop_first()[w] == rest[k];
                assert(ts[w + 1] == rest[k]);
            } else {
                if k == 0 {
                    assert(remove_tag(ts, t)[0] == ts[0]);
                    assert(ts[0] != t);
                } else {
                    assert(remove_tag(ts, t)[k] == rest[k - 1]);
                    assert(ts.drop_first().contains(rest[k - 1]));
                    let w = choose|w: int|
                        0 <= w < ts.drop_first().len() && ts.drop_first()[w] == rest[k - 1];
                    assert(ts[w + 1] == rest[k - 1]);
                }
            }
        }
        assert forall|x: Seq<char>| ts.contains(x) && x != t implies remove_tag(
            ts,
            t,
        ).contains(x) by {
            let w = choose|w: int| 0 <= w < ts.len() && ts[w] == x;
            if w == 0 {
                assert(ts[0] == x && x != t);
                assert(remove_tag(ts, t)[0] == x);
            } else {
                assert(ts.drop_first()[w - 1] == x);
                assert(ts.drop_first().contains(x));
                assert(rest.contains(x));
                let v = choose|v: int| 0 <= v < rest.len() && rest[v] == x;
                if ts[0] == t {
                    assert(remove_tag(ts, t)[v] == x);
                } else {
                    assert(remove_tag(ts, t)[v + 1] == x);
                }
            }
        }
        if distinct_tags(ts) {
            assert(distinct_tags(ts.drop_first())) by {
                assert(forall|i: int, j: int|
                    0 <= i < j < ts.drop_first().len() ==> ts.drop_first()[i] == ts[i + 1]
                        && ts.drop_first()[j] == ts[j + 1]);
            }
            assert forall|i: int, j: int|
                0 <= i < j < remove_tag(ts, t).len() implies remove_tag(ts, t)[i] != remove_tag(
                ts,
                t,
            )[j] by {
                if ts[0] == t {
                    assert(remove_tag(ts, t)[i] == rest[i] && remove_tag(ts, t)[j] == rest[j]);
                } else {
                    if i == 0 {
                        assert(remove_tag(ts, t)[j] == rest[j - 1]);
                        assert(ts.drop_first().contains(rest[j - 1]));
                        let w = choose|w: int|
                            0 <= w < ts.drop_first().len() && ts.drop_first()[w] == rest[j - 1];
                        assert(ts[w + 1] == rest[j - 1]);
                        assert(ts[0] != ts[w + 1]);
                    } else {
                        assert(remove_tag(ts, t)[i] == rest[i - 1] && remove_tag(ts, t)[j]
                            == rest[j - 1]);
                    }
                }
            }
        }
    }
}

/// Withdraws every occurrence of a tag from a string vector.
pub fn remove_str(v: &mut Vec<String>, t: &str)
    ensures
        final(v).deep_view() == remove_tag(old(v).deep_view(), t@),
{
    let n: usize = v.len();
    let mut out: Vec<String> = Vec::new();
    let mut i: usize = n;
    proof {
        assert(old(v).deep_view().skip(n as int) =~= Seq::<Seq<char>>::empty());
        assert(remove_tag(Seq::<Seq<char>>::empty(), t@) =~= Seq::<Seq<char>>::empty());
        assert(out.deep_view() =~~= remove_tag(old(v).deep_view().skip(n as int), t@));
    }
    while i > 0
        invariant
            i <= n,
            n == v.len(),
            v@ == old(v)@,
            out.deep_view() == remove_tag(old(v).deep_view().skip(i as int), t@),
        decreases i,
    {
        i = i - 1;
        proof {
            let dv = old(v).deep_view();
            assert(dv.skip(i as int)[0] == dv[i as int]);
            assert(dv.skip(i as int).drop_first() =~= dv.skip(i + 1 as int));
        }
        if !str_eq(v[i].as_str(), t) {
            let s = v[i].clone();
            let ghost g = out.deep_view();
            out.insert(0, s);
            proof {
                let dv = old(v).deep_view();
                assert(out.deep_view() =~~= seq![dv[i as int]] + g);
                assert(seq![dv[i as int]] + g =~= remove_tag(dv.skip(i as int), t@));
            }
        }
    }
    proof {
        assert(old(v).deep_view().skip(0) =~= old(v).deep_view());
    }
    *v = out;
}

/// The two tag sets after including one tag.
pub open spec fn spec_tag_sets_after_include(
    inc: Seq<Seq<char>>,
    exc: Seq<Seq<char>>,
    t: Seq<char>,
) -> (Seq<Seq<char>>, Seq<Seq<char>>) {
    if inc.contains(t) {
        (inc, exc)
    } else {
        (inc.push(t), remove_tag(exc, t))
    }
}

/// The two tag sets after excluding one tag.
pub open spec fn spec_tag_sets_after_exclude(
    inc: Seq<Seq<char>>,
    exc: Seq<Seq<char>>,
    t: Seq<char>,
) -> (Seq<Seq<char>>, Seq<Seq<char>>) {
    if exc.contains(t) {
        (inc, exc)
    } else {
        (remove_tag(inc, t), exc.push(t))
    }
}

/// The two tag sets after including a whole collection, in order.
pub open spec fn spec_include_all(
    inc: Seq<Seq<char>>,
    exc: Seq<Seq<char>>,
    ts: Seq<Seq<char>>,
) -> (Seq<Seq<char>>, Seq<Seq<char>>)
    decreases ts.len(),
{
    if ts.len() == 0 {
        (inc, exc)
    } else {
        let s = spec_tag_sets_after_include(inc, exc, ts[0]);
        spec_include_all(s.0, s.1, ts.drop_first())
    }
}

/// The two tag sets after excluding a whole collection, in order.
pub open spec fn spec_exclude_all(
    inc: Seq<Seq<char>>,
    exc: Seq<Seq<char>>,
    ts: Seq<Seq<char>>,
) -> (Seq<Seq<char>>, Seq<Seq<char>>)
    decreases ts.len(),
{
    if ts.len() == 0 {
        (inc, exc)
    } else {
        let s = spec_tag_sets_after_exclude(inc, exc, ts[0]);
        spec_exclude_all(s.0, s.1, ts.drop_first())
    }
}

pub proof fn lemma_include_all_push(
    inc: Seq<Seq<char>>,
    exc: Seq<Seq<char>>,
    ts: Seq<Seq<char>>,
    t: Seq<char>,
)
    ensures
        spec_include_all(inc, exc, ts.push(t)) == ({
            let m = spec_include_all(inc, exc, ts);
            spec_tag_sets_after_include(m.0, m.1, t)
        }),
    decreases ts.len(),
{
    let p = ts.push(t);
    if ts.len() == 0 {
        assert(p[0] == t);
        assert(p.drop_first() =~= Seq::<Seq<char>>::empty());
        let s = spec_tag_sets_after_include(inc, exc, t);
        assert(spec_include_all(s.0, s.1, Seq::<Seq<char>>::empty()) == s);
        assert(spec_include_all(inc, exc, p) == s);
        assert(spec_include_all(inc, exc, ts) == (inc, exc));
    } else {
        assert(p[0] == ts[0]);
        assert(p.drop_first() =~= ts.drop_first().push(t));
        let s = spec_tag_sets_after_include(inc, exc, ts[0]);
        lemma_include_all_push(s.0, s.1, ts.drop_first(), t);
        assert(spec_include_all(inc, exc, p) == spec_include_all(s.0, s.1, ts.drop_first().push(
            t,
        )));
        assert(spec_include_all(inc, exc, ts) == spec_include_all(s.0, s.1, ts.drop_first()));
    }
}

pub proof fn lemma_exclude_all_push(
    inc: Seq<Seq<char>>,
    exc: Seq<Seq<char>>,
    ts: Seq<Seq<char>>,
    t: Seq<char>,
)
    ensures
        spec_exclude_all(inc, exc, ts.push(t)) == ({
            let m = spec_exclude_all(inc, exc, ts);
            spec_tag_sets_after_exclude(m.0, m.1, t)
        }),
    decreases ts.len(),
{
    let p = ts.push(t);
    if ts.len() == 0 {
        assert(p[0] == t);
        assert(p.drop_first() =~= Seq::<Seq<char>>::empty());
        let s = spec_tag_sets_after_exclude(inc, exc, t);
        assert(spec_exclude_all(s.0, s.1, Seq::<Seq<char>>::empty()) == s);
        assert(spec_exclude_all(inc, exc, p) == s);
        assert(spec_exclude_all(inc, exc, ts) == (inc, exc));
    } else {
        assert(p[0] == ts[0]);
        assert(p.drop_first() =~= ts.drop_first().push(t));
        let s = spec_tag_sets_after_exclude(inc, exc, ts[0]);
        lemma_exclude_all_push(s.0, s.1, ts.drop_first(), t);
        assert(spec_exclude_all(inc, exc, p) == spec_exclude_all(s.0, s.1, ts.drop_first().push(
            t,
        )));
        assert(spec_exclude_all(inc, exc, ts) == spec_exclude_all(s.0, s.1, ts.drop_first()));
    }
}

/// Marks the builder types of this crate's search surface.
pub trait SearchPriv {

}

/// A search request under construction.
#[derive(Debug, Clone)]
pub struct SearchBuilder {
    pub page: u32,
    pub limit: u32,
    pub order: SearchOrder,
    pub included: Vec<String>,
    pub excluded: Vec<String>,
}

impl SearchPriv for SearchBuilder {

}

impl SearchBuilder {
    /// Both tag sets are duplicate-free and share no tag.
    pub open spec fn wf(&self) -> bool {
        &&& distinct_tags(self.included.deep_view())
        &&& distinct_tags(self.excluded.deep_view())
        &&& disjoint_tags(self.included.deep_view(), self.excluded.deep_view())
    }

    /// A fresh builder: first page, sixteen results, newest first, no
    /// tags.
    pub fn new() -> (r: SearchBuilder)
        ensures
            r.page == 1u32,
            r.limit == 16u32,
            r.order == SearchOrder::Newest,
            r.included.deep_view() == Seq::<Seq<char>>::empty(),
            r.excluded.deep_view() == Seq::<Seq<char>>::empty(),
            r.wf(),
    {
        let r = SearchBuilder {
            page: 1,
            limit: 16,
            order: SearchOrder::Newest,
            included: Vec::new(),
            excluded: Vec::new(),
        };
        proof {
            assert(r.included.deep_view() =~~= Seq::<Seq<char>>::empty());
            assert(r.excluded.deep_view() =~~= Seq::<Seq<char>>::empty());
        }
        r
    }

    /// Includes a tag: a tag already included changes nothing; otherwise
    /// it is withdrawn from the excluded set and appended to the included
    /// set.
    pub fn include_tag(&mut self, tag: &str)
        requires
            old(self).wf(),
        ensures
            final(self).page == old(self).page,
            final(self).limit == old(self).limit,
            final(self).order == old(self).order,
            final(self).included.deep_view() == if old(self).included.deep_view().contains(tag@) {
                old(self).included.deep_view()
            } else {
                old(self).included.deep_view().push(tag@)
            },
            final(self).excluded.deep_view() == if old(self).included.deep_view().contains(tag@) {
                old(self).excluded.deep_view()
            } else {
                remove_tag(old(self).excluded.deep_view(), tag@)
            },
            final(self).wf(),
    {
        if !vec_contains_str(&self.included, tag) {
            remove_str(&mut self.excluded, tag);
            let t = tag.to_owned();
            let ghost g = self.included.deep_view();
            self.included.push(t);
            proof {
                assert(self.included.deep_view() =~~= g.push(tag@));
                lemma_remove_tag_props(old(self).excluded.deep_view(), tag@);
                let inc = self.included.deep_view();
                let exc = self.excluded.deep_view();
                assert forall|i: int, j: int|
                    0 <= i < inc.len() && 0 <= j < exc.len() implies inc[i] != exc[j] by {
                    assert(exc[j] != tag@ && old(self).excluded.deep_view().contains(exc[j]));
                    if i < inc.len() - 1 {
                        assert(inc[i] == old(self).included.deep_view()[i]);
                        let w = choose|w: int|
                            0 <= w < old(self).excluded.deep_view().len() && old(
                                self,
                            ).excluded.deep_view()[w] == exc[j];
                    } else {
                        assert(inc[i] == tag@);
                    }
                }
                assert forall|i: int, j: int| 0 <= i < j < inc.len() implies inc[i] != inc[j] by {
                    if j == inc.len() - 1 {
                        assert(inc[j] == tag@);
                        assert(inc[i] == old(self).included.deep_view()[i]);
                        if inc[i] == tag@ {
                            assert(old(self).included.deep_view().contains(tag@));
                        }
                    }
                }
            }
        }
    }

    /// Includes every tag of a collection, in order.
    pub fn include_tags(&mut self, tags: &Vec<String>)
        requires
            old(self).wf(),
        ensures
            final(self).page == old(self).page,
            final(self).limit == old(self).limit,
            final(self).order == old(self).order,
            (final(self).included.deep_view(), final(self).excluded.deep_view())
                == spec_include_all(
                old(self).included.deep_view(),
                old(self).excluded.deep_view(),
                tags.deep_view(),
            ),
            final(self).wf(),
    {
        let n: usize = tags.len();
        let mut i: usize = 0;
        proof {
            assert(tags.deep_view().take(0) =~= Seq::<Seq<char>>::empty());
        }
        while i < n
            invariant
                i <= n,
                n == tags.len(),
                self.page == old(self).page,
                self.limit == old(self).limit,
                self.order == old(self).order,
                self.wf(),
                (self.included.deep_view(), self.excluded.deep_view()) == spec_include_all(
                    old(self).included.deep_view(),
                    old(self).excluded.deep_view(),
                    tags.deep_view().take(i as int),
                ),
            decreases n - i,
        {
            self.include_tag(tags[i].as_str());
            proof {
                let tv = tags.deep_view();
                assert(tv.take(i + 1 as int) =~= tv.take(i as int).push(tv[i as int]));
                lemma_include_all_push(
                    old(self).included.deep_view(),
                    old(self).excluded.deep_view(),
                    tv.take(i as int),
                    tv[i as int],
                );
            }
            i = i + 1;
        }
        proof {
            assert(tags.deep_view().take(n as int) =~= tags.deep_view());
        }
    }

    /// Excludes every tag of a collection, in order.
    pub fn exclude_tags(&mut self, tags: &Vec<String>)
        requires
            old(self).wf(),
        ensures
            final(self).page == old(self).page,
            final(self).limit == old(self).limit,
            final(self).order == old(self).order,
            (final(self).included.deep_view(), final(self).excluded.deep_view())
                == spec_exclude_all(
                old(self).included.deep_view(),
                old(self).excluded.deep_view(),
                tags.deep_view(),
            ),
            final(self).wf(),
    {
        let n: usize = tags.len();
        let mut i: usize = 0;
        proof {
            assert(tags.deep_view().take(0) =~= Seq::<Seq<char>>::empty());
        }
        while i < n
            invariant
                i <= n,
                n == tags.len(),
                self.page == old(self).page,
                self.limit == old(self).limit,
                self.order == old(self).order,
                self.wf(),
                (self.included.deep_view(), self.excluded.deep_view()) == spec_exclude_all(
                    old(self).included.deep_view(),
                    old(self).excluded.deep_view(),
                    tags.deep_view().take(i as int),
                ),
            decreases n - i,
        {
            self.exclude_tag(tags[i].as_str());
            proof {
                let tv = tags.deep_view();
                assert(tv.take(i + 1 as int) =~= tv.take(i as int).push(tv[i as int]));
                lemma_exclude_all_push(
                    old(self).included.deep_view(),
                    old(self).excluded.deep_view(),
                    tv.take(i as int),
                    tv[i as int],
                );
            }
            i = i + 1;
        }
        proof {
            assert(tags.deep_view().take(n as int) =~= tags.deep_view());
        }
    }

    /// Excludes a tag: a tag already excluded changes nothing; otherwise
    /// it is withdrawn from the included set and appended to the excluded
    /// set.
    pub fn exclude_tag(&mut self, tag: &str)
        requires
            old(self).wf(),
        ensures
            final(self).page == old(self).page,
            final(self).limit == old(self).limit,
            final(self).order == old(self).order,
            final(self).excluded.deep_view() == if old(self).excluded.deep_view().contains(tag@) {
                old(self).excluded.deep_view()
            } else {
                old(self).excluded.deep_view().push(tag@)
            },
            final(self).included.deep_view() == if old(self).excluded.deep_view().contains(tag@) {
                old(self).included.deep_view()
            } else {
                remove_tag(old(self).included.deep_view(), tag@)
            },
            final(self).wf(),
    {
        if !vec_contains_str(&self.excluded, tag) {
            remove_str(&mut self.included, tag);
            let t = tag.to_owned();
            let ghost g = self.excluded.deep_view();
            self.excluded.push(t);
            proof {
                assert(self.excluded.deep_view() =~~= g.push(tag@));
                lemma_remove_tag_props(old(self).included.deep_view(), tag@);
                let inc = self.included.deep_view();
                let exc = self.excluded.deep_view();
                assert forall|i: int, j: int|
                    0 <= i < inc.len() && 0 <= j < exc.len() implies inc[i] != exc[j] by {
                    assert(inc[i] != tag@ && old(self).included.deep_view().contains(inc[i]));
                    if j < exc.len() - 1 {
                        assert(exc[j] == old(self).excluded.deep_view()[j]);
                        let w = choose|w: int|
                            0 <= w < old(self).included.deep_view().len() && old(
                                self,
                            ).included.deep_view()[w] == inc[i];
                    } else {
                        assert(exc[j] == tag@);
                    }
                }
                assert forall|i: int, j: int| 0 <= i < j < exc.len() implies exc[i] != exc[j] by {
                    if j == exc.len() - 1 {
                        assert(exc[j] == tag@);
                        assert(exc[i] == old(self).excluded.deep_view()[i]);
                        if exc[i] == tag@ {
                            assert(old(self).excluded.deep_view().contains(tag@));
                        }
                    }
                }
            }
        }
    }

    /// Sets the ordering.
    pub fn order(&mut self, order: SearchOrder)
        ensures
            *final(self) == (SearchBuilder { order, ..*old(self) }),
    {
        self.order = order;
    }

    /// Sets the result limit.
    pub fn limit(&mut self, limit: u32)
        ensures
            *final(self) == (SearchBuilder { limit, ..*old(self) }),
    {
        self.limit = limit;
    }

    /// Sets the page number.
    pub fn page(&mut self, page: u32)
        ensures
            *final(self) == (SearchBuilder { page, ..*old(self) }),
    {
        self.page = page;
    }

    /// The tag expression alone, joined with `+`, excluded tags prefixed
    /// with `-`, every tag normalised.
    pub fn get_joined_tags(&self) -> (r: String)
        ensures
            r@ == join_with(
                tag_tokens(
                    None,
                    self.included.deep_view(),
                    self.excluded.deep_view(),
                    '-',
                ),
                '+',
            ),
    {
        let tokens = crate::url::make_tag_tokens(None, &self.included, &self.excluded, '-');
        let mut out: Vec<char> = Vec::new();
        crate::text::push_joined(&mut out, &tokens, '+');
        crate::text::chars_to_string(&out)
    }

    /// The search URL this builder describes against one schema.
    pub fn search_url(&self, schema: &SearchSchema) -> (r: String)
        ensures
            r@ == spec_search_url(
                *schema,
                self.page,
                self.limit,
                self.order,
                self.included.deep_view(),
                self.excluded.deep_view(),
            ),
    {
        build_search_url(schema, self.page, self.limit, self.order, &self.included, &self.excluded)
    }
}

} // verus!