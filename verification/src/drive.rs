//! Drive entities, the interpretation of Drive's answers, and the paginated
//! listing of files and revisions.

use vstd::prelude::*;
use crate::decimal::{decimal, push_decimal};
use crate::json::{api_error_message, api_error_message_spec, JsonValue};

verus! {

/// A file of the appDataFolder, as files.list describes it.
#[derive(Debug, Clone, PartialEq, Eq)]
pub struct DriveFile {
    pub id: String,
    pub name: String,
    pub modified_time: Option<String>,
    pub size: Option<String>,
}

/// One stored revision of a file, as revisions.list describes it.
#[derive(Debug, Clone, PartialEq, Eq)]
pub struct DriveRevision {
    pub id: String,
    pub modified_time: Option<String>,
    pub size: Option<String>,
}

impl DriveRevision {
    /// The id under which the revision is downloaded and deleted.
    pub fn revision_id_or_id(&self) -> (res: String)
        ensures
            res@ == self.id@,
    {
        self.id.clone()
    }
}

/// Which listing a paginated request belongs to.
#[derive(Debug, Clone, PartialEq, Eq)]
pub enum ListKind {
    /// The files of the appDataFolder.
    Files,
    /// The revisions of one file.
    Revisions { file_id: String },
}

impl ListKind {
    /// The member of a listing page that holds its items.
    pub fn items_key(&self) -> (res: &'static str)
        ensures
            res@ == match *self {
                ListKind::Files => "files"@,
                ListKind::Revisions { .. } => "revisions"@,
            },
    {
        match self {
            ListKind::Files => "files",
            ListKind::Revisions { .. } => "revisions",
        }
    }
}

/// Everything that can go wrong while talking to Drive.
#[derive(Debug, Clone, PartialEq, Eq)]
pub enum DriveError {
    /// The request never got an answer.
    Network(String),
    /// The answer was not JSON.
    ResponseParse(String),
    /// Drive answered with a status outside 200..300.
    Api { status: u16, message: String },
    /// The items of a listing page did not have the expected shape.
    ItemsParse { kind: ListKind, detail: String },
    /// A listing still had more pages after the page limit.
    ListingExhausted { kind: ListKind, collected: usize },
    /// A revision download was answered with a failure status.
    DownloadStatus(u16),
    /// A revision deletion was answered with a failure status.
    DeleteStatus(u16),
    /// The bytes of a downloaded revision could not be read.
    ReadBytes(String),
}

/// The most pages a listing fetches before it gives up. A listing of
/// appDataFolder holds a handful of items; the limit only guards against
/// a `nextPageToken` that Drive keeps returning with empty pages.
pub const MAX_LIST_PAGES: usize = 50;

/// The closing sentence of an exhausted-listing message.
pub const EXHAUSTED_TAIL: &'static str =
    " collected so far) - this is unexpected and may indicate a Drive API issue rather than a real amount of data.";

/// The text of the message that reports an exhausted listing.
pub open spec fn exhausted_message_spec(kind: ListKind, collected: nat) -> Seq<char> {
    match kind {
        ListKind::Files => "appDataFolder listing did not terminate after "@
            + decimal(MAX_LIST_PAGES as nat) + " pages ("@ + decimal(collected) + " files"@
            + EXHAUSTED_TAIL@,
        ListKind::Revisions { file_id } => "revisions listing for file "@ + file_id@
            + " did not terminate after "@ + decimal(MAX_LIST_PAGES as nat) + " pages ("@
            + decimal(collected) + " revisions"@ + EXHAUSTED_TAIL@,
    }
}

/// The text that reports an error to the user.
pub open spec fn error_message_spec(e: DriveError) -> Seq<char> {
    match e {
        DriveError::Network(d) => "network error: "@ + d@,
        DriveError::ResponseParse(d) => "failed to parse response: "@ + d@,
        DriveError::Api { status, message } => "Drive API error ("@ + decimal(status as nat) + "): "@
            + message@,
        DriveError::ItemsParse { kind, detail } => match kind {
            ListKind::Files => "failed to parse files: "@ + detail@,
            ListKind::Revisions { .. } => "failed to parse revisions: "@ + detail@,
        },
        DriveError::ListingExhausted { kind, collected } => exhausted_message_spec(kind, collected as nat),
        DriveError::DownloadStatus(status) => "Drive API error downloading revision ("@
            + decimal(status as nat) + ")"@,
        DriveError::DeleteStatus(status) => "Drive API error deleting revision ("@
            + decimal(status as nat) + ")"@,
        DriveError::ReadBytes(d) => "failed to read revision bytes: "@ + d@,
    }
}

fn exhausted_message(kind: &ListKind, collected: usize) -> (res: String)
    ensures
        res@ == exhausted_message_spec(*kind, collected as nat),
{
    let mut out = String::new();
    match kind {
        ListKind::Files => {
            out.append("appDataFolder listing did not terminate after ");
            push_decimal(&mut out, MAX_LIST_PAGES as u64);
            out.append(" pages (");
            push_decimal(&mut out, collected as u64);
            out.append(" files");
        },
        ListKind::Revisions { file_id } => {
            out.append("revisions listing for file ");
            out.append(file_id.as_str());
            out.append(" did not terminate after ");
            push_decimal(&mut out, MAX_LIST_PAGES as u64);
            out.append(" pages (");
            push_decimal(&mut out, collected as u64);
            out.append(" revisions");
        },
    }
    out.append(EXHAUSTED_TAIL);
    out
}

fn prefixed(prefix: &str, detail: &str) -> (res: String)
    ensures
        res@ == prefix@ + detail@,
{
    let mut out = String::from_str(prefix);
    out.append(detail);
    out
}

fn status_in_parens(prefix: &str, status: u16) -> (res: String)
    ensures
        res@ == prefix@ + decimal(status as nat) + ")"@,
{
    let mut out = String::from_str(prefix);
    push_decimal(&mut out, status as u64);
    out.append(")");
    out
}

impl DriveError {
    /// The text shown to the user for this error.
    pub fn message(&self) -> (res: String)
        ensures
            res@ == error_message_spec(*self),
    {
        match self {
            DriveError::Network(d) => prefixed("network error: ", d.as_str()),
            DriveError::ResponseParse(d) => prefixed("failed to parse response: ", d.as_str()),
            DriveError::Api { status, message } => {
                let mut out = String::from_str("Drive API error (");
                push_decimal(&mut out, *status as u64);
                out.append("): ");
                out.append(message.as_str());
                out
            },
            DriveError::ItemsParse { kind, detail } => match kind {
                ListKind::Files => prefixed("failed to parse files: ", detail.as_str()),
                ListKind::Revisions { .. } => prefixed("failed to parse revisions: ", detail.as_str()),
            },
            DriveError::ListingExhausted { kind, collected } => exhausted_message(kind, *collected),
            DriveError::DownloadStatus(status) => status_in_parens(
                "Drive API error downloading revision (",
                *status,
            ),
            DriveError::DeleteStatus(status) => status_in_parens(
                "Drive API error deleting revision (",
                *status,
            ),
            DriveError::ReadBytes(d) => prefixed("failed to read revision bytes: ", d.as_str()),
        }
    }
}

/// Status codes that count as success.
pub open spec fn is_success_status(status: u16) -> bool {
    200 <= status < 300
}

/// Exactly the 2xx statuses count as success: every status below 200 or
/// from 300 on (redirects, client and server errors) is a failure.
pub proof fn lemma_success_is_exactly_2xx(status: u16)
    ensures
        is_success_status(status) <==> (200 <= status && status <= 299),
        status < 200 ==> !is_success_status(status),
        status >= 300 ==> !is_success_status(status),
{
}

/// Interprets a JSON answer: a success status hands the body on; any other
/// status is an API error carrying `error.message` (or `unknown error`).
pub fn check_json_response(status: u16, body: JsonValue) -> (res: Result<JsonValue, DriveError>)
    ensures
        is_success_status(status) ==> res == Ok::<JsonValue, DriveError>(body),
        !is_success_status(status) ==> (res matches Err(DriveError::Api { status: s, message: m })
            && s == status && m@ == api_error_message_spec(body)),
        200 <= status < 300 ==> res == Ok::<JsonValue, DriveError>(body),
        (status < 200 || status >= 300) ==> (res matches Err(DriveError::Api { status: s, message: m })
            && s == status && m@ == api_error_message_spec(body)),
{
    if 200 <= status && status < 300 {
        Ok(body)
    } else {
        let message = api_error_message(&body);
        Err(DriveError::Api { status, message })
    }
}

/// Interprets the answer to a revision download: `ok` is the answer's own
/// success flag; a failure reports the status.
pub fn check_download_response(ok: bool, status: u16) -> (res: Result<(), DriveError>)
    ensures
        ok ==> res is Ok,
        !ok ==> res == Err::<(), DriveError>(DriveError::DownloadStatus(status)),
{
    if ok {
        Ok(())
    } else {
        Err(DriveError::DownloadStatus(status))
    }
}

/// Interprets the answer to a revision deletion: `ok` is the answer's own
/// success flag; a failure reports the status.
pub fn check_delete_response(ok: bool, status: u16) -> (res: Result<(), DriveError>)
    ensures
        ok ==> res is Ok,
        !ok ==> res == Err::<(), DriveError>(DriveError::DeleteStatus(status)),
{
    if ok {
        Ok(())
    } else {
        Err(DriveError::DeleteStatus(status))
    }
}

/// `revisions` without those whose id is `id`, the others in their order.
pub open spec fn without_revision(revisions: Seq<DriveRevision>, id: Seq<char>) -> Seq<DriveRevision>
    decreases revisions.len(),
{
    if revisions.len() == 0 {
        revisions
    } else {
        let rest = without_revision(revisions.drop_last(), id);
        if revisions.last().id@ == id {
            rest
        } else {
            rest.push(revisions.last())
        }
    }
}

proof fn lemma_without_revision_step(s: Seq<DriveRevision>, id: Seq<char>, k: int)
    requires
        0 <= k < s.len(),
    ensures
        without_revision(s.take(k + 1), id) == if s[k].id@ == id {
            without_revision(s.take(k), id)
        } else {
            without_revision(s.take(k), id).push(s[k])
        },
{
    assert(s.take(k + 1).drop_last() =~= s.take(k));
    assert(s.take(k + 1).last() == s[k]);
}

/// Drops from a file's revision list every revision whose id is
/// `revision_id` (after that revision was deleted), keeping the others in
/// their order.
pub fn remove_revision(revisions: &mut Vec<DriveRevision>, revision_id: &str)
    ensures
        final(revisions)@ == without_revision(old(revisions)@, revision_id@),
{
    let wanted = revision_id.to_owned();
    let ghost before = revisions@;
    let ghost mut k: int = 0;
    let mut i: usize = 0;
    assert(before.take(0) =~= Seq::<DriveRevision>::empty());
    assert(before.skip(0) =~= before);
    while i < revisions.len()
        invariant
            wanted@ == revision_id@,
            0 <= k <= before.len(),
            i as int == without_revision(before.take(k), revision_id@).len(),
            revisions@ == without_revision(before.take(k), revision_id@) + before.skip(k),
        decreases before.len() - k,
    {
        let ghost kept = without_revision(before.take(k), revision_id@);
        assert(revisions@[i as int] == before[k]);
        proof {
            lemma_without_revision_step(before, revision_id@, k);
        }
        if revisions[i].id == wanted {
            revisions.remove(i);
            assert(revisions@ =~= kept + before.skip(k + 1));
        } else {
            i = i + 1;
            assert(revisions@ =~= kept.push(before[k]) + before.skip(k + 1));
        }
        proof {
            k = k + 1;
        }
    }
    assert(k == before.len());
    assert(before.take(k) =~= before);
    assert(revisions@ =~= without_revision(before, revision_id@));
}

/// After a revision is removed no revision with its id is left, every
/// revision with another id is still there, and nothing is added.
pub proof fn lemma_removed_revision_is_gone(revisions: Seq<DriveRevision>, id: Seq<char>)
    ensures
        forall|j: int| 0 <= j < without_revision(revisions, id).len()
            ==> (#[trigger] without_revision(revisions, id)[j]).id@ != id,
        forall|j: int| 0 <= j < revisions.len() && (#[trigger] revisions[j]).id@ != id
            ==> without_revision(revisions, id).contains(revisions[j]),
        forall|j: int| 0 <= j < without_revision(revisions, id).len()
            ==> revisions.contains(#[trigger] without_revision(revisions, id)[j]),
    decreases revisions.len(),
{
    if revisions.len() > 0 {
        let prev = revisions.drop_last();
        lemma_removed_revision_is_gone(prev, id);
        let rest = without_revision(prev, id);
        let w = without_revision(revisions, id);
        assert forall|j: int| 0 <= j < w.len() implies (#[trigger] w[j]).id@ != id by {
            if j < rest.len() {
                assert(w[j] == rest[j]);
            }
        }
        assert forall|j: int| 0 <= j < revisions.len() && (#[trigger] revisions[j]).id@ != id
            implies w.contains(revisions[j]) by {
            if j < prev.len() {
                assert(prev[j] == revisions[j]);
                let t = choose|t: int| 0 <= t < rest.len() && rest[t] == prev[j];
                assert(w[t] == rest[t]);
            } else {
                assert(w[w.len() - 1] == revisions[j]);
            }
        }
        assert forall|j: int| 0 <= j < w.len() implies revisions.contains(#[trigger] w[j]) by {
            if j < rest.len() {
                assert(w[j] == rest[j]);
                assert(prev.contains(rest[j]));
                let t = choose|t: int| 0 <= t < prev.len() && prev[t] == rest[j];
                assert(revisions[t] == prev[t]);
            } else {
                assert(w[j] == revisions[revisions.len() - 1]);
            }
        }
    }
}

/// Removing an id that no revision has leaves the list as it was.
pub proof fn lemma_remove_absent_revision(revisions: Seq<DriveRevision>, id: Seq<char>)
    requires
        forall|j: int| 0 <= j < revisions.len() ==> (#[trigger] revisions[j]).id@ != id,
    ensures
        without_revision(revisions, id) == revisions,
    decreases revisions.len(),
{
    if revisions.len() > 0 {
        let prev = revisions.drop_last();
        assert forall|j: int| 0 <= j < prev.len() implies (#[trigger] prev[j]).id@ != id by {
            assert(prev[j] == revisions[j]);
        }
        lemma_remove_absent_revision(prev, id);
        assert(revisions.last() == revisions[revisions.len() - 1]);
        assert(prev.push(revisions.last()) =~= revisions);
    }
}

} // verus!
