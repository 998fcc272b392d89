use appdata_browser::drive::{
    check_delete_response, check_download_response, check_json_response, DriveError, ListKind,
};
use appdata_browser::json::{
    api_error_message, extract_next_page_token, member, take_list_member, JsonValue,
};

fn s(text: &str) -> String {
    text.to_string()
}

fn object(entries: Vec<(&str, JsonValue)>) -> JsonValue {
    JsonValue::Object(entries.into_iter().map(|(k, v)| (s(k), v)).collect())
}

#[test]
fn extract_next_page_token_present() {
    let body = object(vec![
        ("nextPageToken", JsonValue::Str(s("abc123"))),
        ("files", JsonValue::Array(vec![])),
    ]);
    assert_eq!(extract_next_page_token(&body), Some("abc123".to_string()));
}

#[test]
fn extract_next_page_token_absent_means_last_page() {
    let body = object(vec![("files", JsonValue::Array(vec![]))]);
    assert_eq!(extract_next_page_token(&body), None);
}

#[test]
fn next_page_token_that_is_not_a_string_is_ignored() {
    let body = object(vec![("nextPageToken", JsonValue::Number(s("5")))]);
    assert_eq!(extract_next_page_token(&body), None);
    assert_eq!(extract_next_page_token(&JsonValue::Null), None);
}

#[test]
fn member_of_non_object_is_none() {
    assert!(member(&JsonValue::Array(vec![]), "files").is_none());
    let body = object(vec![("a", JsonValue::Bool(true))]);
    assert_eq!(member(&body, "a"), Some(&JsonValue::Bool(true)));
    assert!(member(&body, "b").is_none());
}

#[test]
fn api_error_message_reads_nested_message() {
    let body = object(vec![(
        "error",
        object(vec![("code", JsonValue::Number(s("404"))), ("message", JsonValue::Str(s("File not found")))]),
    )]);
    assert_eq!(api_error_message(&body), "File not found");
    assert_eq!(api_error_message(&object(vec![])), "unknown error");
    let no_message = object(vec![("error", object(vec![("code", JsonValue::Number(s("1")))]))]);
    assert_eq!(api_error_message(&no_message), "unknown error");
}

#[test]
fn take_list_member_moves_member_or_gives_empty_array() {
    let body = object(vec![
        ("nextPageToken", JsonValue::Str(s("t"))),
        ("files", JsonValue::Array(vec![JsonValue::Null])),
    ]);
    assert_eq!(take_list_member(body, "files"), JsonValue::Array(vec![JsonValue::Null]));
    assert_eq!(take_list_member(object(vec![]), "files"), JsonValue::Array(vec![]));
    assert_eq!(take_list_member(JsonValue::Bool(false), "files"), JsonValue::Array(vec![]));
}

#[test]
fn check_json_response_passes_success_and_reports_failure() {
    let ok = check_json_response(200, JsonValue::Null);
    assert_eq!(ok, Ok(JsonValue::Null));
    let ok299 = check_json_response(299, JsonValue::Bool(true));
    assert_eq!(ok299, Ok(JsonValue::Bool(true)));
    let body = object(vec![("error", object(vec![("message", JsonValue::Str(s("Invalid Credentials")))]))]);
    let err = check_json_response(401, body).unwrap_err();
    assert_eq!(err, DriveError::Api { status: 401, message: s("Invalid Credentials") });
    assert_eq!(err.message(), "Drive API error (401): Invalid Credentials");
    let err300 = check_json_response(300, JsonValue::Null).unwrap_err();
    assert_eq!(err300.message(), "Drive API error (300): unknown error");
}

#[test]
fn download_and_delete_status_errors() {
    assert_eq!(check_download_response(true, 200), Ok(()));
    let e = check_download_response(false, 404).unwrap_err();
    assert_eq!(e.message(), "Drive API error downloading revision (404)");
    assert_eq!(check_delete_response(true, 204), Ok(()));
    let e = check_delete_response(false, 403).unwrap_err();
    assert_eq!(e.message(), "Drive API error deleting revision (403)");
}

#[test]
fn error_messages_match_each_variant() {
    assert_eq!(DriveError::Network(s("boom")).message(), "network error: boom");
    assert_eq!(DriveError::ResponseParse(s("eof")).message(), "failed to parse response: eof");
    assert_eq!(
        DriveError::ItemsParse { kind: ListKind::Files, detail: s("bad") }.message(),
        "failed to parse files: bad"
    );
    assert_eq!(
        DriveError::ItemsParse { kind: ListKind::Revisions { file_id: s("F") }, detail: s("bad") }.message(),
        "failed to parse revisions: bad"
    );
    assert_eq!(DriveError::ReadBytes(s("x")).message(), "failed to read revision bytes: x");
    assert_eq!(
        DriveError::ListingExhausted { kind: ListKind::Files, collected: 7 }.message(),
        "appDataFolder listing did not terminate after 50 pages (7 files collected so far) - this is unexpected and may indicate a Drive API issue rather than a real amount of data."
    );
    assert_eq!(
        DriveError::ListingExhausted { kind: ListKind::Revisions { file_id: s("F1") }, collected: 0 }.message(),
        "revisions listing for file F1 did not terminate after 50 pages (0 revisions collected so far) - this is unexpected and may indicate a Drive API issue rather than a real amount of data."
    );
}

#[test]
fn items_key_names_the_listing_member() {
    assert_eq!(ListKind::Files.items_key(), "files");
    assert_eq!(ListKind::Revisions { file_id: s("F") }.items_key(), "revisions");
}
