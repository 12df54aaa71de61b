use hashtag_printer::error::FetchError;
use hashtag_printer::json::{locate_media_url, media_url, JsonValue};
use hashtag_printer::query::Query;

#[test]
fn locate_returns_first_media_url() {
    let body = r#"{"data": [{"id": "17", "media_url": "https://cdn.example/a.jpg"}]}"#;
    assert_eq!(locate_media_url(body), Ok("https://cdn.example/a.jpg".to_string()));
}

#[test]
fn locate_takes_only_the_first_item() {
    let body = r#"{"data": [{"media_url": "https://cdn.example/first.jpg"},
                            {"media_url": "https://cdn.example/second.jpg"}],
                   "paging": {"next": "https://next.example"}}"#;
    assert_eq!(locate_media_url(body), Ok("https://cdn.example/first.jpg".to_string()));
}

#[test]
fn locate_empty_data_is_missing_field() {
    assert_eq!(locate_media_url(r#"{"data": []}"#), Err(FetchError::MissingField));
}

#[test]
fn locate_without_data_is_missing_field() {
    assert_eq!(locate_media_url(r#"{"error": {"code": 190}}"#), Err(FetchError::MissingField));
}

#[test]
fn locate_non_string_url_is_missing_field() {
    assert_eq!(locate_media_url(r#"{"data": [{"media_url": 42}]}"#), Err(FetchError::MissingField));
    assert_eq!(locate_media_url(r#"{"data": [{"id": "1"}]}"#), Err(FetchError::MissingField));
    assert_eq!(locate_media_url(r#"{"data": ["x"]}"#), Err(FetchError::MissingField));
    assert_eq!(locate_media_url(r#"[1, 2]"#), Err(FetchError::MissingField));
}

#[test]
fn locate_unparseable_body_is_invalid_response() {
    assert_eq!(locate_media_url("<html>502 Bad Gateway</html>"), Err(FetchError::InvalidResponse));
    assert_eq!(locate_media_url(""), Err(FetchError::InvalidResponse));
}

#[test]
fn media_url_on_built_document() {
    let item = JsonValue::Object(vec![
        ("id".to_string(), JsonValue::Number("5".to_string())),
        ("media_url".to_string(), JsonValue::Str("u".to_string())),
    ]);
    let doc = JsonValue::Object(vec![("data".to_string(), JsonValue::Array(vec![item]))]);
    assert_eq!(media_url(&doc), Ok("u".to_string()));
    assert_eq!(media_url(&JsonValue::Null), Err(FetchError::MissingField));
}

#[test]
fn request_url_embeds_the_four_fields() {
    let q = Query::new(
        "1784".to_string(),
        "9001".to_string(),
        "id,media_url".to_string(),
        "tok".to_string(),
    );
    assert_eq!(
        q.request_url(),
        "https://graph.facebook.com/1784/recent_media?user_id=9001&fields=id,media_url&access_token=tok"
    );
}
