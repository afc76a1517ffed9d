//! Typed mirrors of the e621 response shapes that callers work with
//! directly: file, preview and sample descriptors, vote totals, the
//! categorized tag block, moderation flags and post relationships, and a
//! cursor over a post's tags.

use vstd::prelude::*;
use std::collections::HashMap;
use crate::data::clone_string_vec;

verus! {

/// The primary file of a post.
#[derive(Debug, Clone)]
pub struct File {
    pub url: Option<String>,
    pub ext: String,
    pub md5: String,
    pub size: usize,
    pub width: usize,
    pub height: usize,
}

/// The preview image of a post.
#[derive(Debug, Clone)]
pub struct Preview {
    pub url: Option<String>,
    pub width: usize,
    pub height: usize,
}

/// A downscaled sample of a post, with named alternatives.
#[derive(Debug)]
pub struct Sample {
    pub has: bool,
    pub url: Option<String>,
    pub width: usize,
    pub height: usize,
    pub alternatives: HashMap<String, Alternative>,
}

/// One alternative rendering of a sample.
#[derive(Debug, Clone)]
pub struct Alternative {
    pub url: String,
    pub width: usize,
    pub height: usize,
}

/// Vote totals of a post.
#[derive(Debug, Clone)]
pub struct Score {
    pub up: i64,
    pub down: i64,
    pub total: i64,
}

/// The tag block of a post, one vector per category.
#[derive(Debug, Clone)]
pub struct Tags {
    pub meta: Vec<String>,
    pub lore: Vec<String>,
    pub artist: Vec<String>,
    pub general: Vec<String>,
    pub species: Vec<String>,
    pub invalid: Vec<String>,
    pub character: Vec<String>,
    pub copyright: Vec<String>,
}

/// Moderation flags of a post.
#[derive(Debug, Clone)]
pub struct Flags {
    pub pending: bool,
    pub flagged: bool,
    pub deleted: bool,
    pub note_locked: bool,
    pub status_locked: bool,
    pub rating_locked: bool,
    pub comment_disabled: bool,
}

/// Parent/child relationships of a post.
#[derive(Debug, Clone)]
pub struct Relationships {
    pub parent_id: Option<usize>,
    pub has_children: bool,
    pub has_active_children: bool,
    pub children: Vec<usize>,
}

/// Every tag of a tag block, flattened in the block's category order.
pub open spec fn spec_block_tags(t: Tags) -> Seq<Seq<char>> {
    t.species.deep_view() + t.character.deep_view() + t.general.deep_view()
        + t.artist.deep_view() + t.meta.deep_view() + t.lore.deep_view()
        + t.copyright.deep_view()
}

/// A cursor over every tag of a tag block, category by category.
#[derive(Debug, Clone)]
pub struct TagIterator {
    pub tags: Vec<String>,
    pub current: usize,
}

impl TagIterator {
    /// Starts a cursor over the block's tags.
    pub fn new(block: &Tags) -> (r: TagIterator)
        ensures
            r.tags.deep_view() == spec_block_tags(*block),
            r.current == 0,
    {
        let mut tags = clone_string_vec(&block.species);
        let mut part = clone_string_vec(&block.character);
        tags.append(&mut part);
        let mut part = clone_string_vec(&block.general);
        tags.append(&mut part);
        let mut part = clone_string_vec(&block.artist);
        tags.append(&mut part);
        let mut part = clone_string_vec(&block.meta);
        tags.append(&mut part);
        let mut part = clone_string_vec(&block.lore);
        tags.append(&mut part);
        let mut part = clone_string_vec(&block.copyright);
        tags.append(&mut part);
        proof {
            assert(tags.deep_view() =~~= spec_block_tags(*block));
        }
        TagIterator { tags, current: 0 }
    }

    /// The next tag, if the cursor has not passed the end.
    pub fn next(&mut self) -> (r: Option<String>)
        ensures
            final(self).tags.deep_view() == old(self).tags.deep_view(),
            match r {
                Some(t) => old(self).current < old(self).tags@.len() && t@ == old(
                    self,
                ).tags.deep_view()[old(self).current as int] && final(self).current == old(
                    self,
                ).current + 1,
                None => old(self).current >= old(self).tags@.len() && final(self).current == old(
                    self,
                ).current,
            },
    {
        if self.current < self.tags.len() {
            let t = self.tags[self.current].clone();
            self.current = self.current + 1;
            Some(t)
        } else {
            None
        }
    }
}

} // verus!
