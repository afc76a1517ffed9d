//! The declarative schema: pure data describing how to talk to one source.
//!
//! A schema carries URL templates, query-parameter names, field paths into
//! the response JSON, the tag encoding variant, a rating alias table and an
//! ordering-token table.  Lookup in the two tables is first-match, and a
//! well-formed schema keeps its query-parameter names distinct.

use vstd::prelude::*;
use crate::data::Rating;
use crate::text::str_eq;

verus! {

/// Orderings a search can ask for; each source encodes them differently.
#[derive(Debug, Clone, Copy, PartialEq, Eq, Structural, Hash)]
pub enum SearchOrder {
    Newest,
    Oldest,
    MostLiked,
    LeastLiked,
}

impl SearchOrder {
    /// A stable numeric code for handing the ordering to foreign callees.
    pub fn code(&self) -> (r: u32)
        ensures
            r == match self {
                SearchOrder::Newest => 0u32,
                SearchOrder::Oldest => 1u32,
                SearchOrder::MostLiked => 2u32,
                SearchOrder::LeastLiked => 3u32,
            },
    {
        match self {
            SearchOrder::Newest => 0,
            SearchOrder::Oldest => 1,
            SearchOrder::MostLiked => 2,
            SearchOrder::LeastLiked => 3,
        }
    }
}

/// Orderings a tag-list request can ask for.
#[derive(Debug, Clone, Copy, PartialEq, Eq, Structural, Hash)]
pub enum TagOrder {
    Date,
    Name,
    Count,
}

impl TagOrder {
    /// A stable numeric code for handing the ordering to foreign callees.
    pub fn code(&self) -> (r: u32)
        ensures
            r == match self {
                TagOrder::Date => 0u32,
                TagOrder::Name => 1u32,
                TagOrder::Count => 2u32,
            },
    {
        match self {
            TagOrder::Date => 0,
            TagOrder::Name => 1,
            TagOrder::Count => 2,
        }
    }
}

/// The operations a source supports.
#[derive(Debug, Clone, Copy, PartialEq, Eq, Structural)]
pub struct FeatureFlags {
    pub search: bool,
    pub tag_list: bool,
    pub full_tag_list: bool,
}

/// Query-string parameter names for a search request.
#[derive(Debug, Clone)]
pub struct ParameterSchema {
    pub tags: String,
    pub page: String,
    pub limit: String,
}

/// How a raw record encodes its tags.
#[derive(Debug, Clone)]
pub enum TagSchema {
    /// Tags live under one key: a JSON array of strings, or, with a
    /// separator, one delimited string.
    All { key: String, separator: Option<char> },
    /// Tags are spread over one key per category, each named
    /// `prefix + category`, each array- or separator-encoded.
    Categorized { prefix: String, categories: Vec<String>, separator: Option<char> },
}

/// Field paths and the rating alias table for mapping one raw post record.
#[derive(Debug, Clone)]
pub struct PostSchema {
    pub id: String,
    pub tags: TagSchema,
    pub hash: String,
    pub score: String,
    pub resource_url: String,
    pub preview_url: Option<String>,
    pub rating: String,
    pub rating_map: Vec<(String, Rating)>,
}

/// The full search contract of one source.
#[derive(Debug, Clone)]
pub struct SearchSchema {
    pub base_url: String,
    pub result_key: Option<String>,
    pub parameters: ParameterSchema,
    pub tag_separator: char,
    pub tag_exclusion_prefix: char,
    pub post: PostSchema,
    pub order: Vec<(SearchOrder, String)>,
}

/// Query-string parameter names for a tag-list request; `search` is a
/// ready-made ordering expression appended verbatim.
#[derive(Debug, Clone)]
pub struct TagListParameterSchema {
    pub page: String,
    pub limit: String,
    pub search: String,
}

/// Field paths for mapping one raw tag record.
#[derive(Debug, Clone)]
pub struct TagFieldSchema {
    pub id: String,
    pub name: String,
    pub count: String,
}

/// The full tag-list contract of one source, where it has one.
#[derive(Debug, Clone)]
pub struct TagListSchema {
    pub base_url: String,
    pub result_key: Option<String>,
    pub parameters: TagListParameterSchema,
    pub tags: TagFieldSchema,
}

/// The ordering token a schema uses for an abstract ordering, if any:
/// first match wins.
pub open spec fn spec_order_token(table: Seq<(SearchOrder, String)>, o: SearchOrder) -> Option<
    Seq<char>,
>
    decreases table.len(),
{
    if table.len() == 0 {
        None
    } else if table[0].0 == o {
        Some(table[0].1@)
    } else {
        spec_order_token(table.drop_first(), o)
    }
}

/// The abstract rating a schema assigns to a source rating code, if any:
/// first match wins.
pub open spec fn spec_rating_of(table: Seq<(String, Rating)>, s: Seq<char>) -> Option<Rating>
    decreases table.len(),
{
    if table.len() == 0 {
        None
    } else if table[0].0@ == s {
        Some(table[0].1)
    } else {
        spec_rating_of(table.drop_first(), s)
    }
}

/// Looks up the ordering token for an abstract ordering.
pub fn order_token<'a>(table: &'a Vec<(SearchOrder, String)>, o: SearchOrder) -> (r: Option<
    &'a String,
>)
    ensures
        match r {
            Some(t) => spec_order_token(table@, o) == Some(t@),
            None => spec_order_token(table@, o) is None,
        },
{
    let n: usize = table.len();
    let mut i: usize = 0;
    proof {
        assert(table@.skip(0) =~= table@);
    }
    while i < n
        invariant
            i <= n,
            n == table.len(),
            spec_order_token(table@, o) == spec_order_token(table@.skip(i as int), o),
        decreases n - i,
    {
        proof {
            assert(table@.skip(i as int)[0] == table@[i as int]);
            assert(table@.skip(i as int).drop_first() =~= table@.skip(i + 1 as int));
        }
        if table[i].0 == o {
            return Some(&table[i].1);
        }
        i = i + 1;
    }
    proof {
        assert(table@.skip(n as int) =~= Seq::<(SearchOrder, String)>::empty());
    }
    None
}

/// Looks up the abstract rating for a source rating code.
pub fn rating_of(table: &Vec<(String, Rating)>, s: &str) -> (r: Option<Rating>)
    ensures
        r == spec_rating_of(table@, s@),
{
    let n: usize = table.len();
    let mut i: usize = 0;
    proof {
        assert(table@.skip(0) =~= table@);
    }
    while i < n
        invariant
            i <= n,
            n == table.len(),
            spec_rating_of(table@, s@) == spec_rating_of(table@.skip(i as int), s@),
        decreases n - i,
    {
        proof {
            assert(table@.skip(i as int)[0] == table@[i as int]);
            assert(table@.skip(i as int).drop_first() =~= table@.skip(i + 1 as int));
        }
        if str_eq(table[i].0.as_str(), s) {
            return Some(table[i].1);
        }
        i = i + 1;
    }
    proof {
        assert(table@.skip(n as int) =~= Seq::<(String, Rating)>::empty());
    }
    None
}

impl ParameterSchema {
    /// The three query-parameter names are pairwise distinct.
    pub open spec fn wf(&self) -> bool {
        &&& self.tags@ != self.page@
        &&& self.tags@ != self.limit@
        &&& self.page@ != self.limit@
    }
}

impl SearchSchema {
    /// A usable search schema keeps its parameter names distinct.
    pub open spec fn wf(&self) -> bool {
        self.parameters.wf()
    }
}

} // verus!
