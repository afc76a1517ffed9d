//! Typed domain records produced by the mapping engine, and their
//! mathematical models.
//!
//! A `Post` or `Tag` value is plain data; its model replaces every string
//! with a character sequence so that contracts can speak about content
//! rather than allocation.

use vstd::prelude::*;
use crate::text::str_eq;

verus! {

/// Content rating attached to a post, normalised across sources.
#[derive(Debug, Copy, Clone, PartialEq, Eq, Structural, Hash)]
pub enum Rating {
    General,
    Safe,
    Sensitive,
    Questionable,
    Explicit,
}

/// The tag set of a post: either one flat collection, or one collection
/// per named category.  The shape is fixed by the source's schema.
#[derive(Debug, Clone, PartialEq)]
pub enum Tags {
    All(Vec<String>),
    Categorized(Vec<(String, Vec<String>)>),
}

/// Model of `Tags`: the same shape over character sequences.
pub enum TagsModel {
    All(Seq<Seq<char>>),
    Categorized(Seq<(Seq<char>, Seq<Seq<char>>)>),
}

impl View for Tags {
    type V = TagsModel;

    open spec fn view(&self) -> TagsModel {
        match self {
            Tags::All(ts) => TagsModel::All(ts.deep_view()),
            Tags::Categorized(cs) => TagsModel::Categorized(cs.deep_view()),
        }
    }
}

/// Whether a tag occurs in any category of a categorized tag set.
pub open spec fn cats_contain(cs: Seq<(Seq<char>, Seq<Seq<char>>)>, t: Seq<char>) -> bool {
    exists|i: int| 0 <= i < cs.len() && #[trigger] cs[i].1.contains(t)
}

/// Whether a tag occurs in a tag set, in any category.
pub open spec fn tags_contain(m: TagsModel, t: Seq<char>) -> bool {
    match m {
        TagsModel::All(ts) => ts.contains(t),
        TagsModel::Categorized(cs) => cats_contain(cs, t),
    }
}

/// Every tag of a tag set, flattened in category order.
pub open spec fn all_tags(m: TagsModel) -> Seq<Seq<char>> {
    match m {
        TagsModel::All(ts) => ts,
        TagsModel::Categorized(cs) => flatten_cats(cs),
    }
}

pub open spec fn flatten_cats(cs: Seq<(Seq<char>, Seq<Seq<char>>)>) -> Seq<Seq<char>>
    decreases cs.len(),
{
    if cs.len() == 0 {
        Seq::empty()
    } else {
        cs[0].1 + flatten_cats(cs.drop_first())
    }
}

impl Tags {
    /// Whether the given tag occurs in the set, in any category.
    pub fn contains(&self, tag: &str) -> (r: bool)
        ensures
            r == tags_contain(self@, tag@),
    {
        match self {
            Tags::All(ts) => vec_contains_str(ts, tag),
            Tags::Categorized(cs) => {
                let n: usize = cs.len();
                let mut i: usize = 0;
                let mut found = false;
                while i < n && !found
                    invariant
                        i <= n,
                        n == cs.len(),
                        found ==> i < n && cs@[i as int].1.deep_view().contains(tag@),
                        !found ==> forall|k: int|
                            0 <= k < i ==> !(#[trigger] cs@[k].1.deep_view()).contains(tag@),
                    decreases n - i + (if found { 0int } else { 1int }),
                {
                    if vec_contains_str(&cs[i].1, tag) {
                        found = true;
                    } else {
                        i = i + 1;
                    }
                }
                proof {
                    let m = cs.deep_view();
                    if found {
                        assert(m[i as int].1 == cs@[i as int].1.deep_view());
                        assert(0 <= i < m.len() && m[i as int].1.contains(tag@));
                        assert(cats_contain(m, tag@));
                    } else {
                        if cats_contain(m, tag@) {
                            let w = choose|k: int|
                                0 <= k < m.len() && #[trigger] m[k].1.contains(tag@);
                            assert(m[w].1 == cs@[w].1.deep_view());
                            assert(!cs@[w].1.deep_view().contains(tag@));
                        }
                    }
                }
                found
            },
        }
    }

    /// Every tag of the set as one flat list, categories in order.
    pub fn iter(&self) -> (r: Vec<String>)
        ensures
            r.deep_view() == all_tags(self@),
    {
        match self {
            Tags::All(ts) => {
                let r = clone_string_vec(ts);
                r
            },
            Tags::Categorized(cs) => {
                let n: usize = cs.len();
                let mut out: Vec<String> = Vec::new();
                let mut i: usize = 0;
                while i < n
                    invariant
                        i <= n,
                        n == cs.len(),
                        out.deep_view() == flatten_cats(cs.deep_view().take(i as int)),
                    decreases n - i,
                {
                    let mut piece = clone_string_vec(&cs[i].1);
                    out.append(&mut piece);
                    proof {
                        let m = cs.deep_view();
                        lemma_flatten_cats_push(m.take(i as int), m[i as int]);
                        assert(m.take(i + 1 as int) =~= m.take(i as int).push(m[i as int]));
                        assert(out.deep_view() =~~= flatten_cats(m.take(i + 1 as int)));
                    }
                    i = i + 1;
                }
                proof {
                    assert(cs.deep_view().take(n as int) =~= cs.deep_view());
                }
                out
            },
        }
    }
}

pub proof fn lemma_flatten_cats_push(cs: Seq<(Seq<char>, Seq<Seq<char>>)>, c: (Seq<char>, Seq<Seq<char>>))
    ensures
        flatten_cats(cs.push(c)) == flatten_cats(cs) + c.1,
    decreases cs.len(),
{
    let p = cs.push(c);
    if cs.len() == 0 {
        assert(p[0] == c);
        assert(p.drop_first() =~= Seq::<(Seq<char>, Seq<Seq<char>>)>::empty());
        assert(flatten_cats(Seq::<(Seq<char>, Seq<Seq<char>>)>::empty()) =~= Seq::<Seq<char>>::empty());
        assert(flatten_cats(p) =~= flatten_cats(cs) + c.1);
    } else {
        assert(p[0] == cs[0]);
        assert(p.drop_first() =~= cs.drop_first().push(c));
        lemma_flatten_cats_push(cs.drop_first(), c);
        assert(flatten_cats(p) =~= flatten_cats(cs) + c.1);
    }
}

/// Whether a string vector holds the given text.
pub fn vec_contains_str(ts: &Vec<String>, tag: &str) -> (r: bool)
    ensures
        r == ts.deep_view().contains(tag@),
{
    let n: usize = ts.len();
    let mut i: usize = 0;
    while i < n
        invariant
            i <= n,
            n == ts.len(),
            forall|k: int| 0 <= k < i ==> ts.deep_view()[k] != tag@,
        decreases n - i,
    {
        if str_eq(ts[i].as_str(), tag) {
            proof {
                assert(ts.deep_view()[i as int] == tag@);
            }
            return true;
        }
        i = i + 1;
    }
    proof {
        if ts.deep_view().contains(tag@) {
            let w = choose|k: int| 0 <= k < ts.deep_view().len() && ts.deep_view()[k] == tag@;
            assert(ts.deep_view()[w] != tag@);
        }
    }
    false
}

/// Copies a string vector, content for content.
pub fn clone_string_vec(ts: &Vec<String>) -> (r: Vec<String>)
    ensures
        r.deep_view() == ts.deep_view(),
{
    let n: usize = ts.len();
    let mut r: Vec<String> = Vec::new();
    let mut i: usize = 0;
    while i < n
        invariant
            i <= n,
            n == ts.len(),
            r@.len() == i,
            forall|k: int| 0 <= k < i ==> #[trigger] r@[k]@ == ts@[k]@,
        decreases n - i,
    {
        let s = ts[i].clone();
        proof {
            assert(s@ == ts@[i as int]@);
        }
        r.push(s);
        i = i + 1;
    }
    proof {
        assert(r.deep_view() =~~= ts.deep_view());
    }
    r
}

/// The view of an optional string: its character sequence, if present.
pub open spec fn opt_str_view(o: Option<String>) -> Option<Seq<char>> {
    match o {
        Some(s) => Some(s@),
        None => None,
    }
}

/// A normalised post record.  `id` and `rating` are always meaningful: a
/// raw record missing either never becomes a `Post`.
#[derive(Debug, Clone, PartialEq)]
pub struct Post {
    pub id: u64,
    pub tags: Tags,
    pub score: i64,
    pub rating: Rating,
    pub hash: Option<String>,
    pub preview_url: Option<String>,
    pub resource_url: Option<String>,
}

/// Model of `Post` over character sequences.
pub struct PostModel {
    pub id: u64,
    pub tags: TagsModel,
    pub score: i64,
    pub rating: Rating,
    pub hash: Option<Seq<char>>,
    pub preview_url: Option<Seq<char>>,
    pub resource_url: Option<Seq<char>>,
}

impl View for Post {
    type V = PostModel;

    open spec fn view(&self) -> PostModel {
        PostModel {
            id: self.id,
            tags: self.tags@,
            score: self.score,
            rating: self.rating,
            hash: opt_str_view(self.hash),
            preview_url: opt_str_view(self.preview_url),
            resource_url: opt_str_view(self.resource_url),
        }
    }
}

impl DeepView for Post {
    type V = PostModel;

    open spec fn deep_view(&self) -> PostModel {
        self.view()
    }
}

/// A tag-list record: every field is mandatory.
#[derive(Debug, Clone, PartialEq)]
pub struct Tag {
    pub id: u64,
    pub name: String,
    pub count: u64,
}

/// Model of `Tag` over character sequences.
pub struct TagModel {
    pub id: u64,
    pub name: Seq<char>,
    pub count: u64,
}

impl View for Tag {
    type V = TagModel;

    open spec fn view(&self) -> TagModel {
        TagModel { id: self.id, name: self.name@, count: self.count }
    }
}

impl DeepView for Tag {
    type V = TagModel;

    open spec fn deep_view(&self) -> TagModel {
        self.view()
    }
}

impl Post {
    /// The file name of the remote resource: everything after the last
    /// slash of its URL.
    pub fn file_name(&self) -> (r: Option<String>)
        ensures
            match (r, self@.resource_url) {
                (Some(name), Some(url)) => name@ == crate::text::after_last(url, '/'),
                (None, None) => true,
                _ => false,
            },
    {
        match &self.resource_url {
            None => None,
            Some(url) => Some(crate::text::suffix_after_last(url.as_str(), '/')),
        }
    }

    /// The file extension of the remote resource: everything after the
    /// last dot of its URL.
    pub fn file_ext(&self) -> (r: Option<String>)
        ensures
            match (r, self@.resource_url) {
                (Some(ext), Some(url)) => ext@ == crate::text::after_last(url, '.'),
                (None, None) => true,
                _ => false,
            },
    {
        match &self.resource_url {
            None => None,
            Some(url) => Some(crate::text::suffix_after_last(url.as_str(), '.')),
        }
    }
}

/// Marks the types that can stand for a post.
pub trait EnablePost {

}

impl EnablePost for Post {

}

impl EnablePost for GenericPost {

}

/// A post flattened to one shape for callers that treat every source
/// alike: the hash and resource URL lose their optionality, and the tags
/// lose their categories.
#[derive(Debug, Clone, PartialEq)]
pub struct GenericPost {
    pub id: u64,
    pub md5: String,
    pub score: i64,
    pub rating: Rating,
    pub tags: Vec<String>,
    pub resource_url: String,
}

impl GenericPost {
    /// Flattens a post: a missing hash or URL becomes the empty string,
    /// and the tag categories are concatenated in order.
    pub fn from_post(p: Post) -> (r: GenericPost)
        ensures
            r.id == p.id,
            r.score == p.score,
            r.rating == p.rating,
            r.md5@ == (match p@.hash {
                Some(h) => h,
                None => Seq::<char>::empty(),
            }),
            r.resource_url@ == (match p@.resource_url {
                Some(u) => u,
                None => Seq::<char>::empty(),
            }),
            r.tags.deep_view() == all_tags(p.tags@),
    {
        let tags = p.tags.iter();
        let md5 = match p.hash {
            Some(h) => h,
            None => String::new(),
        };
        let resource_url = match p.resource_url {
            Some(u) => u,
            None => String::new(),
        };
        GenericPost { id: p.id, md5, score: p.score, rating: p.rating, tags, resource_url }
    }

    /// The post's identifier.
    pub fn id(&self) -> (r: u64)
        ensures
            r == self.id,
    {
        self.id
    }

    /// The post's content hash.
    pub fn md5(&self) -> (r: &String)
        ensures
            r@ == self.md5@,
    {
        &self.md5
    }

    /// The post's score.
    pub fn score(&self) -> (r: i64)
        ensures
            r == self.score,
    {
        self.score
    }

    /// The post's rating.
    pub fn rating(&self) -> (r: Rating)
        ensures
            r == self.rating,
    {
        self.rating
    }

    /// The post's remote resource URL.
    pub fn resource_url(&self) -> (r: Option<&String>)
        ensures
            r matches Some(u) && u@ == self.resource_url@,
    {
        Some(&self.resource_url)
    }

    /// The post's tags, flat.
    pub fn tags(&self) -> (r: Vec<String>)
        ensures
            r.deep_view() == self.tags.deep_view(),
    {
        clone_string_vec(&self.tags)
    }

    /// Every tag, owned.
    pub fn tags_owned(&self) -> (r: Vec<String>)
        ensures
            r.deep_view() == self.tags.deep_view(),
    {
        clone_string_vec(&self.tags)
    }
}

/// A well-formed tag record carries a non-empty name.
pub open spec fn tag_wf(t: TagModel) -> bool {
    t.name.len() > 0
}

} // verus!
