//! The source facade: one schema-driven source, able to build request
//! URLs and to map raw response text into typed records.
//!
//! The facade performs no I/O.  A caller builds a URL here, performs the
//! request elsewhere, and hands the body back for mapping; asking for a
//! capability the schema lacks fails with the unsupported-operation error
//! before any URL is built.

use vstd::prelude::*;
use crate::data::{Post, PostModel, Tag, TagModel};
use crate::envelope::{opt_key_view, spec_unwrap_envelope, unwrap_envelope};
use crate::error::{Error, ErrorModel};
use crate::json::{JsonValue, json_parse, parse_json};
use crate::mapper::{map_posts, map_tag_list, spec_map_posts, spec_map_tag_list};
use crate::schema::{FeatureFlags, SearchOrder, SearchSchema, TagListSchema, TagOrder};
use crate::url::{build_search_url, build_tag_list_url, spec_search_url, spec_tag_list_url};

verus! {

/// One source: a name, its search contract, and its optional tag-list
/// contract.
#[derive(Debug, Clone)]
pub struct Source {
    pub name: String,
    pub search: SearchSchema,
    pub tag_list: Option<TagListSchema>,
}

/// The model of a mapped search result.
pub open spec fn posts_result_model(r: Result<Vec<Post>, Error>) -> Result<
    Seq<PostModel>,
    ErrorModel,
> {
    match r {
        Ok(posts) => Ok(posts.deep_view()),
        Err(e) => Err(e@),
    }
}

/// The model of a mapped tag-list result.
pub open spec fn tags_result_model(r: Result<Vec<Tag>, Error>) -> Result<
    Seq<TagModel>,
    ErrorModel,
> {
    match r {
        Ok(tags) => Ok(tags.deep_view()),
        Err(e) => Err(e@),
    }
}

/// Mapping a whole parsed search response: unwrap the envelope, then map
/// each raw record in order.
pub open spec fn spec_map_search(schema: SearchSchema, v: JsonValue) -> Result<
    Seq<PostModel>,
    ErrorModel,
> {
    match spec_unwrap_envelope(v, opt_key_view(schema.result_key)) {
        Err(e) => Err(e),
        Ok(recs) => spec_map_posts(schema.post, recs),
    }
}

/// Mapping a whole parsed tag-list response.
pub open spec fn spec_map_tags_response(schema: TagListSchema, v: JsonValue) -> Result<
    Seq<TagModel>,
    ErrorModel,
> {
    match spec_unwrap_envelope(v, opt_key_view(schema.result_key)) {
        Err(e) => Err(e),
        Ok(recs) => spec_map_tag_list(schema.tags, recs),
    }
}

/// Mapping raw search response text: a body that is not JSON at all is an
/// invalid response; otherwise the parsed value is mapped.
pub open spec fn spec_search_of_text(schema: SearchSchema, s: Seq<char>) -> Result<
    Seq<PostModel>,
    ErrorModel,
> {
    match json_parse(s) {
        None => Err(ErrorModel::InvalidResponse),
        Some(v) => spec_map_search(schema, v),
    }
}

/// Mapping raw tag-list response text.
pub open spec fn spec_tags_of_text(schema: TagListSchema, s: Seq<char>) -> Result<
    Seq<TagModel>,
    ErrorModel,
> {
    match json_parse(s) {
        None => Err(ErrorModel::InvalidResponse),
        Some(v) => spec_map_tags_response(schema, v),
    }
}

/// Marks the types that can serve search requests.
pub trait EnableSearch {

}

impl EnableSearch for Source {

}

/// Marks the types that can serve tag-list requests.
pub trait EnableTags {

}

impl EnableTags for Source {

}

/// Mapping the same response payload twice yields identical record
/// sequences: the result is a function of the schema and the payload
/// alone, so any two results of mapping one payload agree.
pub proof fn lemma_mapping_idempotent(
    schema: SearchSchema,
    v: JsonValue,
    r1: Result<Vec<Post>, Error>,
    r2: Result<Vec<Post>, Error>,
)
    requires
        posts_result_model(r1) == spec_map_search(schema, v),
        posts_result_model(r2) == spec_map_search(schema, v),
    ensures
        posts_result_model(r1) == posts_result_model(r2),
{
}

impl Source {
    /// The source's display name.
    pub fn name(&self) -> (r: &String)
        ensures
            r@ == self.name@,
    {
        &self.name
    }

    /// The search URL for one request.  Search is always part of a
    /// schema-driven source, so this never declines.
    pub fn get_search_url(
        &self,
        page: u32,
        limit: u32,
        order: SearchOrder,
        included: &Vec<String>,
        excluded: &Vec<String>,
    ) -> (r: Option<String>)
        ensures
            match r {
                Some(u) => u@ == spec_search_url(
                    self.search,
                    page,
                    limit,
                    order,
                    included.deep_view(),
                    excluded.deep_view(),
                ),
                None => false,
            },
    {
        Some(build_search_url(&self.search, page, limit, order, included, excluded))
    }

    /// The tag-list URL for one request, where the source has a tag-list
    /// schema; nothing otherwise.  The schema's ready-made search
    /// expression already fixes the ordering, so the selector is not
    /// encoded.
    pub fn get_tag_list_url(&self, page: u32, limit: u32, _order: TagOrder) -> (r: Option<String>)
        ensures
            match self.tag_list {
                Some(ts) => r matches Some(u) && u@ == spec_tag_list_url(ts, page, limit),
                None => r is None,
            },
    {
        match &self.tag_list {
            Some(ts) => Some(build_tag_list_url(ts, page, limit)),
            None => None,
        }
    }

    /// A schema-driven source never offers a full tag-list dump.
    pub fn get_full_tag_list_url(&self) -> (r: Option<String>)
        ensures
            r is None,
    {
        None
    }

    /// The tag-list URL, or the unsupported-operation error, decided from
    /// the schema alone: no request is made either way.
    pub fn tag_list_request(&self, page: u32, limit: u32) -> (r: Result<String, Error>)
        ensures
            match self.tag_list {
                Some(ts) => r matches Ok(u) && u@ == spec_tag_list_url(ts, page, limit),
                None => r matches Err(e) && e@ == ErrorModel::UnsupportedOperation,
            },
    {
        match &self.tag_list {
            Some(ts) => Ok(build_tag_list_url(ts, page, limit)),
            None => Err(Error::UnsupportedOperation),
        }
    }

    /// Maps a parsed search response into posts.
    pub fn parse_search_response(&self, v: &JsonValue) -> (r: Result<Vec<Post>, Error>)
        ensures
            posts_result_model(r) == spec_map_search(self.search, *v),
    {
        match unwrap_envelope(v, &self.search.result_key) {
            Err(e) => Err(e),
            Ok(recs) => map_posts(&self.search.post, recs),
        }
    }

    /// Maps raw search response text into posts.
    pub fn parse_search_result(&self, text: &str) -> (r: Result<Vec<Post>, Error>)
        ensures
            posts_result_model(r) == spec_search_of_text(self.search, text@),
    {
        match parse_json(text) {
            None => Err(Error::InvalidResponse),
            Some(v) => self.parse_search_response(&v),
        }
    }

    /// Maps a parsed tag-list response into tags, where the source
    /// supports tag lists.
    pub fn parse_tag_list_response(&self, v: &JsonValue) -> (r: Result<Vec<Tag>, Error>)
        ensures
            match self.tag_list {
                Some(ts) => tags_result_model(r) == spec_map_tags_response(ts, *v),
                None => r matches Err(e) && e@ == ErrorModel::UnsupportedOperation,
            },
    {
        match &self.tag_list {
            None => Err(Error::UnsupportedOperation),
            Some(ts) => match unwrap_envelope(v, &ts.result_key) {
                Err(e) => Err(e),
                Ok(recs) => map_tag_list(&ts.tags, recs),
            },
        }
    }

    /// Maps raw tag-list response text into tags.
    pub fn parse_tag_list(&self, text: &str) -> (r: Result<Vec<Tag>, Error>)
        ensures
            match self.tag_list {
                Some(ts) => tags_result_model(r) == spec_tags_of_text(ts, text@),
                None => r matches Err(e) && e@ == ErrorModel::UnsupportedOperation,
            },
    {
        match &self.tag_list {
            None => Err(Error::UnsupportedOperation),
            Some(_) => match parse_json(text) {
                None => Err(Error::InvalidResponse),
                Some(v) => self.parse_tag_list_response(&v),
            },
        }
    }

    /// What this source can do: search always, tag lists when the schema
    /// has one, never a full tag-list dump.
    pub fn feature_flags(&self) -> (r: FeatureFlags)
        ensures
            r.search,
            r.tag_list == (self.tag_list is Some),
            !r.full_tag_list,
    {
        FeatureFlags {
            search: true,
            tag_list: match &self.tag_list {
                Some(_) => true,
                None => false,
            },
            full_tag_list: false,
        }
    }
}

} // verus!