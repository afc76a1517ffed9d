//! Tests of the URL builder, tag normalisation, the search builder, and
//! the nested field resolver.

use booru::data::{Rating, Tags};
use booru::json::{resolve, JsonValue};
use booru::mapper::map_post;
use booru::schema::{ParameterSchema, PostSchema, SearchOrder, SearchSchema, TagSchema};
use booru::search_builder::SearchBuilder;
use booru::url::{build_search_url, transform_tag};

fn rule34_like_schema() -> SearchSchema {
    SearchSchema {
        base_url: "https://api.example.test/index.php?page=dapi&s=post&q=index&json=1&"
            .to_string(),
        result_key: None,
        parameters: ParameterSchema {
            tags: "tags".to_string(),
            page: "pid".to_string(),
            limit: "limit".to_string(),
        },
        tag_separator: '+',
        tag_exclusion_prefix: '-',
        post: PostSchema {
            id: "id".to_string(),
            tags: TagSchema::All { key: "tags".to_string(), separator: Some(' ') },
            hash: "hash".to_string(),
            score: "score".to_string(),
            resource_url: "file_url".to_string(),
            preview_url: None,
            rating: "rating".to_string(),
            rating_map: vec![],
        },
        order: vec![
            (SearchOrder::Newest, "sort:id:desc".to_string()),
            (SearchOrder::Oldest, "sort:id:asc".to_string()),
        ],
    }
}

#[test]
fn search_url_carries_parameters_once_each() {
    let schema = rule34_like_schema();
    let included = vec!["Fox Cat".to_string(), "forest".to_string()];
    let excluded = vec!["Bad Tag".to_string()];
    let url = build_search_url(&schema, 3, 20, SearchOrder::Newest, &included, &excluded);
    assert_eq!(
        url,
        "https://api.example.test/index.php?page=dapi&s=post&q=index&json=1&\
         pid=3&limit=20&tags=sort:id:desc+fox_cat+forest+-bad_tag"
    );
}

#[test]
fn missing_order_token_is_silently_omitted() {
    let schema = rule34_like_schema();
    let url = build_search_url(&schema, 1, 5, SearchOrder::MostLiked, &vec![], &vec![]);
    assert_eq!(
        url,
        "https://api.example.test/index.php?page=dapi&s=post&q=index&json=1&\
         pid=1&limit=5&tags="
    );
}

#[test]
fn transform_tag_normalises() {
    assert_eq!(transform_tag("Fox Cat"), "fox_cat");
    assert_eq!(transform_tag("forest"), "forest");
    assert_eq!(transform_tag(""), "");
    assert_eq!(transform_tag("\u{c9}T\u{c9}"), "\u{e9}t\u{e9}");
}

#[test]
fn builder_keeps_sets_exclusive() {
    let mut b = SearchBuilder::new();
    b.include_tag("fox");
    b.exclude_tag("fox");
    b.include_tag("den");
    b.include_tag("den");
    assert_eq!(b.included, vec!["den".to_string()]);
    assert_eq!(b.excluded, vec!["fox".to_string()]);
    b.include_tag("fox");
    assert_eq!(b.included, vec!["den".to_string(), "fox".to_string()]);
    assert!(b.excluded.is_empty());
}

#[test]
fn builder_joined_tags() {
    let mut b = SearchBuilder::new();
    b.include_tags(&vec!["Fox".to_string(), "forest".to_string()]);
    b.exclude_tags(&vec!["cat".to_string()]);
    assert_eq!(b.get_joined_tags(), "fox+forest+-cat");
}

#[test]
fn builder_builds_whole_url() {
    let schema = rule34_like_schema();
    let mut b = SearchBuilder::new();
    b.page(2);
    b.limit(40);
    b.order(SearchOrder::Oldest);
    b.include_tag("fox");
    let url = b.search_url(&schema);
    assert_eq!(
        url,
        "https://api.example.test/index.php?page=dapi&s=post&q=index&json=1&\
         pid=2&limit=40&tags=sort:id:asc+fox"
    );
}

#[test]
fn resolver_follows_dotted_paths() {
    let v = JsonValue::Object(vec![(
        "a".to_string(),
        JsonValue::Object(vec![(
            "b".to_string(),
            JsonValue::Object(vec![("c".to_string(), JsonValue::Int(5))]),
        )]),
    )]);
    assert!(matches!(resolve(&v, "a.b.c"), Some(JsonValue::Int(5))));
    assert!(resolve(&v, "a.b.x").is_none());
    assert!(resolve(&v, "a.b.c.d").is_none());
}

#[test]
fn resolver_distinguishes_null_from_absent() {
    let v = JsonValue::Object(vec![(
        "a".to_string(),
        JsonValue::Object(vec![("b".to_string(), JsonValue::Null)]),
    )]);
    assert!(matches!(resolve(&v, "a.b"), Some(JsonValue::Null)));
    assert!(resolve(&v, "a.c").is_none());
    assert!(resolve(&v, "b").is_none());
}

#[test]
fn pagination_renders_decimal_extremes() {
    let schema = rule34_like_schema();
    let url = build_search_url(&schema, 0, 4294967295, SearchOrder::Newest, &vec![], &vec![]);
    assert_eq!(
        url,
        "https://api.example.test/index.php?page=dapi&s=post&q=index&json=1&\
         pid=0&limit=4294967295&tags=sort:id:desc"
    );
}

#[test]
fn empty_tag_string_splits_to_one_empty_piece() {
    let mut schema = rule34_like_schema();
    schema.post.rating_map = vec![("s".to_string(), Rating::Sensitive)];
    let rec = JsonValue::Object(vec![
        ("id".to_string(), JsonValue::Int(1)),
        ("score".to_string(), JsonValue::Int(0)),
        ("rating".to_string(), JsonValue::Str("s".to_string())),
        ("tags".to_string(), JsonValue::Str(String::new())),
    ]);
    let post = map_post(&schema.post, &rec).unwrap().unwrap();
    assert_eq!(post.tags, Tags::All(vec![String::new()]));
}

#[test]
fn order_codes_are_stable() {
    assert_eq!(SearchOrder::Newest.code(), 0);
    assert_eq!(SearchOrder::Oldest.code(), 1);
    assert_eq!(SearchOrder::MostLiked.code(), 2);
    assert_eq!(SearchOrder::LeastLiked.code(), 3);
    assert_eq!(booru::schema::TagOrder::Date.code(), 0);
    assert_eq!(booru::schema::TagOrder::Name.code(), 1);
    assert_eq!(booru::schema::TagOrder::Count.code(), 2);
}
