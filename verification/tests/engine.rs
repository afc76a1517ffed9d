//! End-to-end tests of the mapping engine: envelope unwrapping, record
//! mapping with its skip and abort rules, and the tag-list side.

use booru::data::{Post, Rating, Tag, Tags};
use booru::error::Error;
use booru::json::JsonValue;
use booru::mapper::{encode_flat_post, map_post};
use booru::schema::{
    ParameterSchema, PostSchema, SearchSchema, TagFieldSchema, TagListParameterSchema,
    TagListSchema, TagSchema,
};
use booru::source::Source;

fn obj(fields: Vec<(&str, JsonValue)>) -> JsonValue {
    JsonValue::Object(fields.into_iter().map(|(k, v)| (k.to_string(), v)).collect())
}

fn s(v: &str) -> JsonValue {
    JsonValue::Str(v.to_string())
}

fn strings(vs: &[&str]) -> JsonValue {
    JsonValue::Array(vs.iter().map(|v| s(v)).collect())
}

fn flat_post_schema() -> PostSchema {
    PostSchema {
        id: "id".to_string(),
        tags: TagSchema::All { key: "tags".to_string(), separator: None },
        hash: "hash".to_string(),
        score: "score".to_string(),
        resource_url: "file_url".to_string(),
        preview_url: Some("preview_url".to_string()),
        rating: "rating".to_string(),
        rating_map: vec![("s".to_string(), Rating::Sensitive)],
    }
}

fn flat_source(result_key: Option<&str>) -> Source {
    Source {
        name: "Example".to_string(),
        search: SearchSchema {
            base_url: "https://example.test/posts.json?".to_string(),
            result_key: result_key.map(|k| k.to_string()),
            parameters: ParameterSchema {
                tags: "tags".to_string(),
                page: "page".to_string(),
                limit: "limit".to_string(),
            },
            tag_separator: '+',
            tag_exclusion_prefix: '-',
            post: flat_post_schema(),
            order: vec![],
        },
        tag_list: None,
    }
}

fn tag_list_source() -> Source {
    let mut src = flat_source(None);
    src.tag_list = Some(TagListSchema {
        base_url: "https://example.test/tags.json?".to_string(),
        result_key: None,
        parameters: TagListParameterSchema {
            page: "page".to_string(),
            limit: "limit".to_string(),
            search: "search[order]=count".to_string(),
        },
        tags: TagFieldSchema {
            id: "id".to_string(),
            name: "name".to_string(),
            count: "post_count".to_string(),
        },
    });
    src
}

fn flat_record(id: i64, score: i64, rating: &str, tags: &[&str]) -> JsonValue {
    obj(vec![
        ("id", JsonValue::Int(id)),
        ("score", JsonValue::Int(score)),
        ("rating", s(rating)),
        ("tags", strings(tags)),
    ])
}

fn sorted(mut v: Vec<String>) -> Vec<String> {
    v.sort();
    v
}

#[test]
fn flat_tags_no_separator_scenario() {
    let ps = flat_post_schema();
    let rec = flat_record(1, 5, "s", &["fox", "blue"]);
    let post = map_post(&ps, &rec).unwrap().unwrap();
    assert_eq!(post.id, 1);
    assert_eq!(post.score, 5);
    assert_eq!(post.rating, Rating::Sensitive);
    match &post.tags {
        Tags::All(ts) => {
            assert_eq!(
                sorted(ts.clone()),
                vec!["blue".to_string(), "fox".to_string()]
            );
        }
        other => panic!("flat schema produced categorized tags: {:?}", other),
    }
    assert_eq!(post.hash, None);
    assert_eq!(post.preview_url, None);
    assert_eq!(post.resource_url, None);
}

#[test]
fn non_string_tag_elements_dropped() {
    let ps = flat_post_schema();
    let rec = obj(vec![
        ("id", JsonValue::Int(1)),
        ("score", JsonValue::Int(0)),
        ("rating", s("s")),
        (
            "tags",
            JsonValue::Array(vec![s("fox"), JsonValue::Int(9), JsonValue::Null, s("blue")]),
        ),
    ]);
    let post = map_post(&ps, &rec).unwrap().unwrap();
    assert_eq!(post.tags, Tags::All(vec!["fox".to_string(), "blue".to_string()]));
}

#[test]
fn categorized_tags_with_separator_scenario() {
    let mut ps = flat_post_schema();
    ps.tags = TagSchema::Categorized {
        prefix: "tag_string_".to_string(),
        categories: vec!["general".to_string(), "artist".to_string()],
        separator: Some(' '),
    };
    let rec = obj(vec![
        ("id", JsonValue::Int(1)),
        ("score", JsonValue::Int(0)),
        ("rating", s("s")),
        ("tag_string_general", s("fox forest")),
        ("tag_string_artist", s("jdoe")),
    ]);
    let post = map_post(&ps, &rec).unwrap().unwrap();
    match &post.tags {
        Tags::Categorized(cs) => {
            assert_eq!(cs.len(), 2);
            assert_eq!(cs[0].0, "general");
            assert_eq!(cs[0].1, vec!["fox".to_string(), "forest".to_string()]);
            assert_eq!(cs[1].0, "artist");
            assert_eq!(cs[1].1, vec!["jdoe".to_string()]);
        }
        other => panic!("categorized schema produced flat tags: {:?}", other),
    }
}

#[test]
fn categorized_missing_category_is_hard_error() {
    let mut ps = flat_post_schema();
    ps.tags = TagSchema::Categorized {
        prefix: "tag_string_".to_string(),
        categories: vec!["general".to_string(), "artist".to_string()],
        separator: Some(' '),
    };
    let rec = obj(vec![
        ("id", JsonValue::Int(1)),
        ("score", JsonValue::Int(0)),
        ("rating", s("s")),
        ("tag_string_general", s("fox")),
    ]);
    let err = map_post(&ps, &rec).unwrap_err();
    assert_eq!(err, Error::MissingField { path: "tag_string_artist".to_string() });
}

#[test]
fn nested_paths_resolve_through_objects() {
    let mut ps = flat_post_schema();
    ps.hash = "file.md5".to_string();
    ps.score = "score.total".to_string();
    let rec = obj(vec![
        ("id", JsonValue::Int(9)),
        ("score", obj(vec![("total", JsonValue::Int(-4))])),
        ("rating", s("s")),
        ("tags", strings(&["a"])),
        ("file", obj(vec![("md5", s("abc123"))])),
    ]);
    let post = map_post(&ps, &rec).unwrap().unwrap();
    assert_eq!(post.score, -4);
    assert_eq!(post.hash, Some("abc123".to_string()));
}

#[test]
fn null_id_skips_record() {
    let ps = flat_post_schema();
    let rec = obj(vec![
        ("id", JsonValue::Null),
        ("score", JsonValue::Int(3)),
        ("rating", s("s")),
        ("tags", strings(&[])),
    ]);
    assert_eq!(map_post(&ps, &rec).unwrap(), None);
}

#[test]
fn skipped_record_absent_from_output() {
    let src = flat_source(None);
    let records = JsonValue::Array(vec![
        flat_record(1, 0, "s", &["a"]),
        obj(vec![
            ("id", JsonValue::Null),
            ("score", JsonValue::Int(0)),
            ("rating", s("s")),
            ("tags", strings(&[])),
        ]),
        flat_record(2, 0, "s", &["b"]),
    ]);
    let posts = src.parse_search_response(&records).unwrap();
    assert_eq!(posts.len(), 2);
    assert_eq!(posts[0].id, 1);
    assert_eq!(posts[1].id, 2);
}

#[test]
fn unknown_rating_aborts_whole_call() {
    let src = flat_source(None);
    let mut records: Vec<JsonValue> = Vec::new();
    for i in 0..999 {
        records.push(flat_record(i, 0, "s", &["a"]));
    }
    records.push(flat_record(999, 0, "zzz", &["a"]));
    let err = src.parse_search_response(&JsonValue::Array(records)).unwrap_err();
    assert_eq!(err, Error::UnknownRatingAlias { value: "zzz".to_string() });
}

#[test]
fn missing_id_fails() {
    let ps = flat_post_schema();
    let rec = obj(vec![("score", JsonValue::Int(0)), ("rating", s("s"))]);
    let err = map_post(&ps, &rec).unwrap_err();
    assert_eq!(err, Error::MissingField { path: "id".to_string() });
}

#[test]
fn wrong_typed_id_fails() {
    let ps = flat_post_schema();
    let rec = obj(vec![
        ("id", s("seven")),
        ("score", JsonValue::Int(0)),
        ("rating", s("s")),
        ("tags", strings(&[])),
    ]);
    let err = map_post(&ps, &rec).unwrap_err();
    assert_eq!(err, Error::TypeMismatch { path: "id".to_string() });
}

#[test]
fn envelope_with_result_key() {
    let src = flat_source(Some("posts"));
    let body = obj(vec![("posts", JsonValue::Array(vec![flat_record(1, 2, "s", &["x"])]))]);
    let posts = src.parse_search_response(&body).unwrap();
    assert_eq!(posts.len(), 1);
    assert_eq!(posts[0].id, 1);

    let wrong = obj(vec![("post", JsonValue::Array(vec![flat_record(1, 2, "s", &["x"])]))]);
    let err = src.parse_search_response(&wrong).unwrap_err();
    assert_eq!(err, Error::MalformedEnvelope { expected_key: Some("posts".to_string()) });
}

#[test]
fn envelope_without_key_rejects_non_array() {
    let src = flat_source(None);
    let err = src.parse_search_response(&JsonValue::Int(5)).unwrap_err();
    assert_eq!(err, Error::MalformedEnvelope { expected_key: None });
}

#[test]
fn server_message_surfaces() {
    let src = flat_source(None);
    let body = obj(vec![("message", s("rate limited")), ("success", JsonValue::Bool(false))]);
    let err = src.parse_search_response(&body).unwrap_err();
    assert_eq!(err, Error::ServerError { message: "rate limited".to_string() });
}

#[test]
fn unparseable_body_is_invalid_response() {
    let src = flat_source(None);
    let err = src.parse_search_result("this is not json").unwrap_err();
    assert_eq!(err, Error::InvalidResponse);
}

#[test]
fn search_result_from_text() {
    let src = flat_source(Some("posts"));
    let body = "{\"posts\":[{\"id\":4,\"score\":-1,\"rating\":\"s\",\"tags\":[\"fox\"],\"file_url\":\"http://e.test/a/b.png\"}]}";
    let posts = src.parse_search_result(body).unwrap();
    assert_eq!(posts.len(), 1);
    let p = &posts[0];
    assert_eq!(p.id, 4);
    assert_eq!(p.score, -1);
    assert_eq!(p.rating, Rating::Sensitive);
    assert_eq!(p.tags, Tags::All(vec!["fox".to_string()]));
    assert_eq!(p.resource_url, Some("http://e.test/a/b.png".to_string()));
}

#[test]
fn mapping_same_payload_twice_is_identical() {
    let src = flat_source(Some("posts"));
    let body = "{\"posts\":[{\"id\":4,\"score\":2,\"rating\":\"s\",\"tags\":[\"fox\",\"den\"]},{\"id\":null,\"score\":0,\"rating\":\"s\",\"tags\":[]}]}";
    let first = src.parse_search_result(body).unwrap();
    let second = src.parse_search_result(body).unwrap();
    assert_eq!(first, second);
}

#[test]
fn flat_round_trip_reproduces_tag_set() {
    let ps = flat_post_schema();
    let key = "tags".to_string();
    let code = "s".to_string();
    let tags = vec!["fox".to_string(), "blue".to_string()];
    let rec = encode_flat_post(&ps, &key, 7, 3, &code, &tags);
    let post = map_post(&ps, &rec).unwrap().unwrap();
    assert_eq!(post.id, 7);
    assert_eq!(post.score, 3);
    assert_eq!(post.rating, Rating::Sensitive);
    match post.tags {
        Tags::All(ts) => assert_eq!(sorted(ts), sorted(tags)),
        other => panic!("round trip changed the tag shape: {:?}", other),
    }
}

#[test]
fn tag_list_unsupported_without_schema() {
    let src = flat_source(None);
    assert_eq!(src.tag_list_request(1, 20).unwrap_err(), Error::UnsupportedOperation);
    assert!(src.get_tag_list_url(1, 20, booru::schema::TagOrder::Count).is_none());
    assert_eq!(src.parse_tag_list("[]").unwrap_err(), Error::UnsupportedOperation);
    assert!(!src.feature_flags().tag_list);
    assert!(src.feature_flags().search);
    assert!(src.get_full_tag_list_url().is_none());
}

#[test]
fn tag_list_maps_records() {
    let src = tag_list_source();
    let url = src.tag_list_request(2, 50).unwrap();
    assert_eq!(url, "https://example.test/tags.json?page=2&limit=50&search[order]=count");
    let tags = src
        .parse_tag_list("[{\"id\":11,\"name\":\"fox\",\"post_count\":321}]")
        .unwrap();
    assert_eq!(
        tags,
        vec![Tag { id: 11, name: "fox".to_string(), count: 321 }]
    );
    assert!(src.feature_flags().tag_list);
}

#[test]
fn tag_list_empty_name_fails() {
    let src = tag_list_source();
    let err = src
        .parse_tag_list("[{\"id\":11,\"name\":\"\",\"post_count\":3}]")
        .unwrap_err();
    assert_eq!(err, Error::TypeMismatch { path: "name".to_string() });
}

#[test]
fn tag_list_missing_count_fails() {
    let src = tag_list_source();
    let err = src.parse_tag_list("[{\"id\":11,\"name\":\"fox\"}]").unwrap_err();
    assert_eq!(err, Error::MissingField { path: "post_count".to_string() });
}

#[test]
fn tag_list_null_id_is_hard_error() {
    let src = tag_list_source();
    let err = src
        .parse_tag_list("[{\"id\":null,\"name\":\"fox\",\"post_count\":3}]")
        .unwrap_err();
    assert_eq!(err, Error::TypeMismatch { path: "id".to_string() });
}

#[test]
fn flat_tags_with_separator_split() {
    let mut ps = flat_post_schema();
    ps.tags = TagSchema::All { key: "tags".to_string(), separator: Some(' ') };
    let rec = obj(vec![
        ("id", JsonValue::Int(1)),
        ("score", JsonValue::Int(0)),
        ("rating", s("s")),
        ("tags", s("fox forest den")),
    ]);
    let post = map_post(&ps, &rec).unwrap().unwrap();
    assert_eq!(
        post.tags,
        Tags::All(vec!["fox".to_string(), "forest".to_string(), "den".to_string()])
    );
}

#[test]
fn optional_fields_never_fail() {
    let ps = flat_post_schema();
    let rec = obj(vec![
        ("id", JsonValue::Int(1)),
        ("score", JsonValue::Int(0)),
        ("rating", s("s")),
        ("tags", strings(&[])),
        ("hash", JsonValue::Int(12)),
        ("preview_url", s("http://e.test/p.png")),
    ]);
    let post: Post = map_post(&ps, &rec).unwrap().unwrap();
    assert_eq!(post.hash, None);
    assert_eq!(post.preview_url, Some("http://e.test/p.png".to_string()));
    assert_eq!(post.resource_url, None);
}
