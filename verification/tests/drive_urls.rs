use appdata_browser::urls::{
    files_list_url, revision_media_url, revision_url, revisions_list_url, API_BASE,
};

#[test]
fn files_list_url_without_token_targets_appdata_space() {
    let url = files_list_url(None);
    assert!(url.starts_with(API_BASE));
    assert!(url.contains("spaces=appDataFolder"));
    assert!(url.contains("fields=nextPageToken,files(id,name,modifiedTime,size)"));
    assert!(!url.contains("pageToken="));
}

#[test]
fn files_list_url_requests_nextpagetoken_in_fields_mask() {
    let url = files_list_url(None);
    assert!(url.contains("fields=nextPageToken,"));
}

#[test]
fn files_list_url_with_token_appends_encoded_page_token() {
    let url = files_list_url(Some("abc/def+ghi=="));
    assert!(url.contains("pageToken=abc%2Fdef%2Bghi%3D%3D"));
}

#[test]
fn revisions_list_url_includes_file_id() {
    let url = revisions_list_url("FILE123", None);
    assert_eq!(
        url,
        format!(
            "{API_BASE}/files/FILE123/revisions?fields=nextPageToken,revisions(id,modifiedTime,size)&pageSize=1000"
        )
    );
}

#[test]
fn revisions_list_url_requests_nextpagetoken_in_fields_mask() {
    let url = revisions_list_url("FILE123", None);
    assert!(url.contains("fields=nextPageToken,"));
}

#[test]
fn revisions_list_url_with_token_appends_encoded_page_token() {
    let url = revisions_list_url("FILE123", Some("tok/en+="));
    assert!(url.contains("pageToken=tok%2Fen%2B%3D"));
}

#[test]
fn revision_media_url_requests_media_alt() {
    let url = revision_media_url("FILE123", "REV456");
    assert_eq!(
        url,
        format!("{API_BASE}/files/FILE123/revisions/REV456?alt=media")
    );
}

#[test]
fn revision_url_has_no_query_params() {
    let url = revision_url("FILE123", "REV456");
    assert_eq!(url, format!("{API_BASE}/files/FILE123/revisions/REV456"));
    assert!(!url.contains('?'));
}

#[test]
fn files_list_url_exact_first_page() {
    assert_eq!(
        files_list_url(None),
        "https://www.googleapis.com/drive/v3/files?spaces=appDataFolder&fields=nextPageToken,files(id,name,modifiedTime,size)&pageSize=1000"
    );
}

#[test]
fn page_token_encoding_leaves_unreserved_and_encodes_utf8() {
    let url = files_list_url(Some("aZ09-._~ é&x"));
    assert!(url.ends_with("&pageToken=aZ09-._~%20%C3%A9%26x"));
}

#[test]
fn revisions_list_url_with_token_exact() {
    assert_eq!(
        revisions_list_url("F", Some("t")),
        "https://www.googleapis.com/drive/v3/files/F/revisions?fields=nextPageToken,revisions(id,modifiedTime,size)&pageSize=1000&pageToken=t"
    );
}
