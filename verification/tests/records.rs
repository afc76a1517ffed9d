//! Tests of the typed records: tag sets, the generic post shape, file
//! name helpers, and the e621 response mirrors.

use std::collections::HashMap;
use booru::data::{GenericPost, Post, Rating, Tags};
use booru::e621::{Alternative, File, Flags, Preview, Relationships, Sample, Score, TagIterator};

fn sample_post() -> Post {
    Post {
        id: 42,
        tags: Tags::Categorized(vec![
            ("general".to_string(), vec!["fox".to_string(), "forest".to_string()]),
            ("artist".to_string(), vec!["jdoe".to_string()]),
        ]),
        score: -2,
        rating: Rating::Safe,
        hash: Some("abc".to_string()),
        preview_url: None,
        resource_url: Some("https://e.test/img/full/pic.name.png".to_string()),
    }
}

#[test]
fn tags_contains_looks_in_every_category() {
    let p = sample_post();
    assert!(p.tags.contains("jdoe"));
    assert!(p.tags.contains("fox"));
    assert!(!p.tags.contains("cat"));
    let flat = Tags::All(vec!["fox".to_string()]);
    assert!(flat.contains("fox"));
    assert!(!flat.contains("forest"));
}

#[test]
fn tags_iter_flattens_in_category_order() {
    let p = sample_post();
    assert_eq!(
        p.tags.iter(),
        vec!["fox".to_string(), "forest".to_string(), "jdoe".to_string()]
    );
}

#[test]
fn file_name_and_extension() {
    let p = sample_post();
    assert_eq!(p.file_name(), Some("pic.name.png".to_string()));
    assert_eq!(p.file_ext(), Some("png".to_string()));
    let mut q = sample_post();
    q.resource_url = None;
    assert_eq!(q.file_name(), None);
    assert_eq!(q.file_ext(), None);
    let mut r = sample_post();
    r.resource_url = Some("noslash".to_string());
    assert_eq!(r.file_name(), Some("noslash".to_string()));
}

#[test]
fn generic_post_flattens() {
    let g = GenericPost::from_post(sample_post());
    assert_eq!(g.id(), 42);
    assert_eq!(g.md5(), "abc");
    assert_eq!(g.score(), -2);
    assert_eq!(g.rating(), Rating::Safe);
    assert_eq!(
        g.tags(),
        vec!["fox".to_string(), "forest".to_string(), "jdoe".to_string()]
    );
    assert_eq!(g.tags_owned(), g.tags());
    assert_eq!(
        g.resource_url(),
        Some(&"https://e.test/img/full/pic.name.png".to_string())
    );

    let mut p = sample_post();
    p.hash = None;
    p.resource_url = None;
    let g = GenericPost::from_post(p);
    assert_eq!(g.md5(), "");
    assert_eq!(g.resource_url(), Some(&String::new()));
}

#[test]
fn tag_iterator_walks_block_in_order() {
    let block = booru::e621::Tags {
        meta: vec!["hi_res".to_string()],
        lore: vec![],
        artist: vec!["jdoe".to_string()],
        general: vec!["fox".to_string(), "forest".to_string()],
        species: vec!["vulpes".to_string()],
        invalid: vec![],
        character: vec![],
        copyright: vec![],
    };
    let mut it = TagIterator::new(&block);
    let mut seen: Vec<String> = Vec::new();
    while let Some(t) = it.next() {
        seen.push(t);
    }
    assert_eq!(
        seen,
        vec![
            "vulpes".to_string(),
            "fox".to_string(),
            "forest".to_string(),
            "jdoe".to_string(),
            "hi_res".to_string(),
        ]
    );
    assert!(it.next().is_none());
}

#[test]
fn e621_mirrors_hold_their_fields() {
    let file = File {
        url: Some("https://e.test/a.png".to_string()),
        ext: "png".to_string(),
        md5: "abc".to_string(),
        size: 1024,
        width: 800,
        height: 600,
    };
    assert_eq!(file.ext, "png");
    let preview = Preview { url: None, width: 80, height: 60 };
    assert_eq!(preview.width, 80);
    let mut alternatives: HashMap<String, Alternative> = HashMap::new();
    alternatives.insert(
        "720p".to_string(),
        Alternative { url: "https://e.test/a720.png".to_string(), width: 1280, height: 720 },
    );
    let sample = Sample { has: true, url: None, width: 400, height: 300, alternatives };
    assert!(sample.has);
    assert_eq!(sample.alternatives.len(), 1);
    let score = Score { up: 10, down: -3, total: 7 };
    assert_eq!(score.total, 7);
    let flags = Flags {
        pending: false,
        flagged: false,
        deleted: false,
        note_locked: false,
        status_locked: false,
        rating_locked: false,
        comment_disabled: false,
    };
    assert!(!flags.deleted);
    let rel = Relationships {
        parent_id: Some(9),
        has_children: false,
        has_active_children: false,
        children: vec![],
    };
    assert_eq!(rel.parent_id, Some(9));
}
