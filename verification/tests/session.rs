use appdata_browser::drive::DriveFile;
use appdata_browser::session::Session;

fn file(id: &str) -> DriveFile {
    DriveFile { id: id.to_string(), name: "backup.json".to_string(), modified_time: None, size: None }
}

#[test]
fn blank_client_id_asks_for_one() {
    let mut session = Session::new(None);
    session.edit_client_id("   ".to_string());
    assert_eq!(session.submit_client_id(), None);
    assert_eq!(session.status.as_deref(), Some("Enter your Google OAuth Client ID first."));
    assert!(!session.signing_in);
}

#[test]
fn sign_in_flow_lists_files_and_sign_out_forgets() {
    let mut session = Session::new(Some("saved.apps".to_string()));
    assert_eq!(session.client_id, "saved.apps");
    session.edit_client_id("  my.apps.googleusercontent.com \n".to_string());
    assert_eq!(session.submit_client_id(), Some("my.apps.googleusercontent.com".to_string()));
    assert!(session.signing_in);
    assert_eq!(session.sign_in_finished(Ok("tok".to_string())), Some("tok".to_string()));
    assert!(!session.signing_in);
    assert!(session.loading_files);
    assert_eq!(session.access_token.as_deref(), Some("tok"));
    session.files_listed(Ok(vec![file("f1")]));
    assert!(!session.loading_files);
    assert_eq!(session.files, vec![file("f1")]);
    session.sign_out();
    assert_eq!(session.access_token, None);
    assert!(session.files.is_empty());
}

#[test]
fn failures_show_in_status() {
    let mut session = Session::new(None);
    assert_eq!(session.choose_preset("123.apps"), "123.apps");
    assert_eq!(session.client_id, "123.apps");
    assert_eq!(session.sign_in_finished(Err("popup_closed".to_string())), None);
    assert_eq!(session.status.as_deref(), Some("Sign-in failed: popup_closed"));
    session.files_listed(Err("network error: x".to_string()));
    assert_eq!(session.status.as_deref(), Some("Failed to list files: network error: x"));
}
