//! The sign-in session of the page: what the user typed, the token Google
//! granted, the status line, and the listed files. The page performs the
//! requests; these transitions decide what to request and what to show.

use vstd::prelude::*;
use crate::drive::DriveFile;
use crate::text::{trim, trimmed};

verus! {

/// Status shown when sign-in is asked for without a Client ID.
pub const MISSING_CLIENT_ID: &'static str = "Enter your Google OAuth Client ID first.";

/// Prefix of the status shown when Google refused or failed the sign-in.
pub const SIGN_IN_FAILED: &'static str = "Sign-in failed: ";

/// Prefix of the status shown when the files could not be listed.
pub const LIST_FILES_FAILED: &'static str = "Failed to list files: ";

/// The state of the page.
pub struct Session {
    /// The Client ID field as the user left it.
    pub client_id: String,
    /// The access token of the signed-in user; held in memory only.
    pub access_token: Option<String>,
    /// The message under the sign-in form.
    pub status: Option<String>,
    /// A sign-in popup is open.
    pub signing_in: bool,
    /// The files of appDataFolder.
    pub files: Vec<DriveFile>,
    /// The files are being listed.
    pub loading_files: bool,
}

impl Session {
    /// A signed-out page whose Client ID field holds the remembered Client
    /// ID, if any.
    pub fn new(saved_client_id: Option<String>) -> (res: Session)
        ensures
            res.client_id@ == match saved_client_id {
                Some(c) => c@,
                None => Seq::<char>::empty(),
            },
            res.access_token is None,
            res.status is None,
            !res.signing_in,
            res.files@.len() == 0,
            !res.loading_files,
    {
        let client_id = match saved_client_id {
            Some(c) => c,
            None => String::new(),
        };
        Session {
            client_id,
            access_token: None,
            status: None,
            signing_in: false,
            files: Vec::new(),
            loading_files: false,
        }
    }

    /// The user edited the Client ID field.
    pub fn edit_client_id(&mut self, value: String)
        ensures
            final(self).client_id == value,
            final(self).access_token == old(self).access_token,
            final(self).status == old(self).status,
            final(self).signing_in == old(self).signing_in,
            final(self).files == old(self).files,
            final(self).loading_files == old(self).loading_files,
    {
        self.client_id = value;
    }

    /// The user asked to sign in with the Client ID field. With a blank
    /// field the status asks for a Client ID and nothing is requested;
    /// otherwise the trimmed Client ID is returned: the page remembers it
    /// and opens Google's sign-in with it.
    pub fn submit_client_id(&mut self) -> (res: Option<String>)
        ensures
            final(self).client_id == old(self).client_id,
            final(self).access_token == old(self).access_token,
            final(self).files == old(self).files,
            final(self).loading_files == old(self).loading_files,
            trimmed(old(self).client_id@).len() == 0 ==> {
                &&& res is None
                &&& final(self).status matches Some(s) && s@ == MISSING_CLIENT_ID@
                &&& final(self).signing_in == old(self).signing_in
            },
            trimmed(old(self).client_id@).len() > 0 ==> {
                &&& res matches Some(id) && id@ == trimmed(old(self).client_id@)
                &&& final(self).status is None
                &&& final(self).signing_in
            },
    {
        let t = trim(self.client_id.as_str());
        if t.is_empty() {
            self.status = Some(String::from_str(MISSING_CLIENT_ID));
            return None;
        }
        let id = t.to_owned();
        self.signing_in = true;
        self.status = None;
        Some(id)
    }

    /// The user picked a preset: its Client ID fills the field and sign-in
    /// starts with it. The returned Client ID is remembered and used to
    /// open Google's sign-in.
    pub fn choose_preset(&mut self, client_id: &str) -> (res: String)
        ensures
            final(self).client_id@ == client_id@,
            res@ == client_id@,
            final(self).status is None,
            final(self).signing_in,
            final(self).access_token == old(self).access_token,
            final(self).files == old(self).files,
            final(self).loading_files == old(self).loading_files,
    {
        self.client_id = client_id.to_owned();
        self.signing_in = true;
        self.status = None;
        client_id.to_owned()
    }

    /// Google's sign-in finished. With a token the user is signed in and the
    /// token is returned: the page lists the files with it. A failure is
    /// shown in the status.
    pub fn sign_in_finished(&mut self, result: Result<String, String>) -> (res: Option<String>)
        ensures
            !final(self).signing_in,
            final(self).client_id == old(self).client_id,
            final(self).files == old(self).files,
            match result {
                Ok(token) => {
                    &&& res == Some(token)
                    &&& final(self).access_token == Some(token)
                    &&& final(self).loading_files
                    &&& final(self).status == old(self).status
                },
                Err(e) => {
                    &&& res is None
                    &&& final(self).access_token == old(self).access_token
                    &&& final(self).loading_files == old(self).loading_files
                    &&& final(self).status matches Some(s) && s@ == SIGN_IN_FAILED@ + e@
                },
            },
    {
        self.signing_in = false;
        match result {
            Ok(token) => {
                self.access_token = Some(token.clone());
                self.loading_files = true;
                Some(token)
            },
            Err(e) => {
                let mut s = String::from_str(SIGN_IN_FAILED);
                s.append(e.as_str());
                self.status = Some(s);
                None
            },
        }
    }

    /// The listing of the files finished: the files are shown, or the
    /// failure is shown in the status.
    pub fn files_listed(&mut self, result: Result<Vec<DriveFile>, String>)
        ensures
            !final(self).loading_files,
            final(self).client_id == old(self).client_id,
            final(self).access_token == old(self).access_token,
            final(self).signing_in == old(self).signing_in,
            match result {
                Ok(files) => final(self).files == files && final(self).status == old(self).status,
                Err(e) => {
                    &&& final(self).files == old(self).files
                    &&& final(self).status matches Some(s) && s@ == LIST_FILES_FAILED@ + e@
                },
            },
    {
        self.loading_files = false;
        match result {
            Ok(files) => {
                self.files = files;
            },
            Err(e) => {
                let mut s = String::from_str(LIST_FILES_FAILED);
                s.append(e.as_str());
                self.status = Some(s);
            },
        }
    }

    /// The user signed out: the token and the files are forgotten.
    pub fn sign_out(&mut self)
        ensures
            final(self).access_token is None,
            final(self).files@.len() == 0,
            final(self).client_id == old(self).client_id,
            final(self).status == old(self).status,
            final(self).signing_in == old(self).signing_in,
            final(self).loading_files == old(self).loading_files,
    {
        self.access_token = None;
        self.files = Vec::new();
    }
}

} // verus!
