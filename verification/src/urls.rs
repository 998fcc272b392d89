//! URLs of the Drive v3 REST endpoints used by the browser.

use vstd::prelude::*;
use vstd::utf8::encode_utf8;

verus! {

/// Root of every Drive v3 endpoint.
pub const API_BASE: &'static str = "https://www.googleapis.com/drive/v3";

/// Path and query of one page of the appDataFolder listing. `nextPageToken`
/// must be named in the `fields` mask: Drive's partial responses drop every
/// field that the mask does not name, the pagination token included.
pub const FILES_LIST_PATH: &'static str =
    "/files?spaces=appDataFolder&fields=nextPageToken,files(id,name,modifiedTime,size)&pageSize=1000";

/// Query of one page of a file's revision history (same `fields` rule).
pub const REVISIONS_LIST_QUERY: &'static str =
    "/revisions?fields=nextPageToken,revisions(id,modifiedTime,size)&pageSize=1000";

/// Query parameter that carries a pagination token.
pub const PAGE_TOKEN_PARAM: &'static str = "&pageToken=";

/// Path segment that precedes a file id.
pub const FILES_SEGMENT: &'static str = "/files/";

/// Path segment that precedes a revision id.
pub const REVISIONS_SEGMENT: &'static str = "/revisions/";

/// Query that asks for a revision's content instead of its metadata.
pub const MEDIA_QUERY: &'static str = "?alt=media";

/// Bytes that percent-encoding leaves as they are: ASCII alphanumerics and
/// `-`, `.`, `_`, `~`.
pub open spec fn is_unreserved_byte(b: u8) -> bool {
    ||| 48 <= b <= 57
    ||| 65 <= b <= 90
    ||| 97 <= b <= 122
    ||| b == 45
    ||| b == 46
    ||| b == 95
    ||| b == 126
}

/// Upper-case hexadecimal digit of `d`, for `d < 16`.
pub open spec fn hex_upper(d: nat) -> char {
    if d < 10 { (48 + d) as char } else { (55 + d) as char }
}

/// The text that one byte becomes under percent-encoding.
pub open spec fn percent_encode_byte(b: u8) -> Seq<char> {
    if is_unreserved_byte(b) {
        seq![b as char]
    } else {
        seq!['%', hex_upper((b / 16) as nat), hex_upper((b % 16) as nat)]
    }
}

/// Percent-encoding of a byte sequence, byte by byte.
pub open spec fn percent_encode(bytes: Seq<u8>) -> Seq<char>
    decreases bytes.len(),
{
    if bytes.len() == 0 {
        seq![]
    } else {
        percent_encode(bytes.drop_last()) + percent_encode_byte(bytes.last())
    }
}

/// Percent-encoding of a text: every byte of its UTF-8 encoding.
pub open spec fn url_encoded(s: Seq<char>) -> Seq<char> {
    percent_encode(encode_utf8(s))
}

/// Characters that may stand in a query value without changing how the
/// query is split: the unreserved ones, and `%`.
pub open spec fn is_query_safe_char(c: char) -> bool {
    ||| ('0' <= c <= '9')
    ||| ('A' <= c <= 'Z')
    ||| ('a' <= c <= 'z')
    ||| c == '-'
    ||| c == '.'
    ||| c == '_'
    ||| c == '~'
    ||| c == '%'
}

/// Percent-encodes `s` with `urlencoding::encode`.
///
/// Trusted: `urlencoding::encode` percent-encodes every byte of the UTF-8
/// encoding of `s` except ASCII alphanumerics and `-`, `_`, `.`, `~`, writing
/// `%` and two upper-case hexadecimal digits for each other byte.
#[verifier::external_body]
fn encode_component(s: &str) -> (res: String)
    ensures
        res@ == url_encoded(s@),
{
    urlencoding::encode(s).into_owned()
}

/// The view of an optional text argument.
pub open spec fn opt_view(o: Option<&str>) -> Option<Seq<char>> {
    match o {
        Some(t) => Some(t@),
        None => None,
    }
}

/// The pagination suffix: empty without a token, `&pageToken=` and the
/// percent-encoded token with one.
pub open spec fn page_token_suffix(page_token: Option<Seq<char>>) -> Seq<char> {
    match page_token {
        Some(t) => PAGE_TOKEN_PARAM@ + url_encoded(t),
        None => seq![],
    }
}

/// The files.list URL for one page of the appDataFolder listing.
pub open spec fn files_list_url_spec(page_token: Option<Seq<char>>) -> Seq<char> {
    API_BASE@ + FILES_LIST_PATH@ + page_token_suffix(page_token)
}

/// The revisions.list URL for one page of a file's revision history.
pub open spec fn revisions_list_url_spec(file_id: Seq<char>, page_token: Option<Seq<char>>) -> Seq<char> {
    API_BASE@ + FILES_SEGMENT@ + file_id + REVISIONS_LIST_QUERY@ + page_token_suffix(page_token)
}

/// The URL of one revision's metadata.
pub open spec fn revision_url_spec(file_id: Seq<char>, revision_id: Seq<char>) -> Seq<char> {
    API_BASE@ + FILES_SEGMENT@ + file_id + REVISIONS_SEGMENT@ + revision_id
}

/// The URL of one revision's content.
pub open spec fn revision_media_url_spec(file_id: Seq<char>, revision_id: Seq<char>) -> Seq<char> {
    revision_url_spec(file_id, revision_id) + MEDIA_QUERY@
}

fn append_page_token(url: &mut String, page_token: Option<&str>)
    ensures
        final(url)@ == old(url)@ + page_token_suffix(opt_view(page_token)),
{
    match page_token {
        Some(token) => {
            url.append(PAGE_TOKEN_PARAM);
            let encoded = encode_component(token);
            url.append(encoded.as_str());
        },
        None => {
            assert(old(url)@ + seq![] =~= old(url)@);
        },
    }
}

/// Builds the files.list URL for one page of the appDataFolder listing;
/// a page token, when given, is appended percent-encoded.
pub fn files_list_url(page_token: Option<&str>) -> (res: String)
    ensures
        res@ == files_list_url_spec(opt_view(page_token)),
{
    let mut url = String::from_str(API_BASE);
    url.append(FILES_LIST_PATH);
    append_page_token(&mut url, page_token);
    url
}

/// Builds the revisions.list URL for one page of a file's revision history;
/// a page token, when given, is appended percent-encoded.
pub fn revisions_list_url(file_id: &str, page_token: Option<&str>) -> (res: String)
    ensures
        res@ == revisions_list_url_spec(file_id@, opt_view(page_token)),
{
    let mut url = String::from_str(API_BASE);
    url.append(FILES_SEGMENT);
    url.append(file_id);
    url.append(REVISIONS_LIST_QUERY);
    append_page_token(&mut url, page_token);
    url
}

/// Builds the URL that downloads a revision's raw content.
pub fn revision_media_url(file_id: &str, revision_id: &str) -> (res: String)
    ensures
        res@ == revision_media_url_spec(file_id@, revision_id@),
{
    let mut url = revision_url(file_id, revision_id);
    url.append(MEDIA_QUERY);
    url
}

/// Builds the URL of a revision itself (used to delete it); it has no query.
pub fn revision_url(file_id: &str, revision_id: &str) -> (res: String)
    ensures
        res@ == revision_url_spec(file_id@, revision_id@),
{
    let mut url = String::from_str(API_BASE);
    url.append(FILES_SEGMENT);
    url.append(file_id);
    url.append(REVISIONS_SEGMENT);
    url.append(revision_id);
    url
}

/// A percent-encoded text holds only unreserved characters and `%`, so a
/// page token can never add a parameter to, or end, the query it is put in.
pub proof fn lemma_url_encoded_is_query_safe(s: Seq<char>)
    ensures
        forall|i: int| 0 <= i < url_encoded(s).len() ==> is_query_safe_char(#[trigger] url_encoded(s)[i]),
{
    lemma_percent_encode_is_query_safe(encode_utf8(s));
}

proof fn lemma_percent_encode_is_query_safe(bytes: Seq<u8>)
    ensures
        forall|i: int| 0 <= i < percent_encode(bytes).len() ==> is_query_safe_char(#[trigger] percent_encode(bytes)[i]),
    decreases bytes.len(),
{
    if bytes.len() > 0 {
        lemma_percent_encode_is_query_safe(bytes.drop_last());
        let prefix = percent_encode(bytes.drop_last());
        let tail = percent_encode_byte(bytes.last());
        let b = bytes.last();
        assert forall|j: int| 0 <= j < tail.len() implies is_query_safe_char(#[trigger] tail[j]) by {
            if is_unreserved_byte(b) {
                assert(tail[j] == b as char);
            } else {
                assert(b / 16 < 16);
                assert(b % 16 < 16);
            }
        }
        assert forall|i: int| 0 <= i < percent_encode(bytes).len() implies is_query_safe_char(#[trigger] percent_encode(bytes)[i]) by {
            if i < prefix.len() {
                assert(percent_encode(bytes)[i] == prefix[i]);
            } else {
                assert(percent_encode(bytes)[i] == tail[i - prefix.len()]);
            }
        }
    }
}

/// The URL of a revision carries no query: it holds no `?` when the two ids
/// hold none.
pub proof fn lemma_revision_url_has_no_query(file_id: Seq<char>, revision_id: Seq<char>)
    requires
        !file_id.contains('?'),
        !revision_id.contains('?'),
    ensures
        !revision_url_spec(file_id, revision_id).contains('?'),
{
    reveal_strlit("https://www.googleapis.com/drive/v3");
    reveal_strlit("/files/");
    reveal_strlit("/revisions/");
    let u = revision_url_spec(file_id, revision_id);
    let a = API_BASE@;
    let f = FILES_SEGMENT@;
    let r = REVISIONS_SEGMENT@;
    assert forall|i: int| 0 <= i < u.len() implies u[i] != '?' by {
        let n1 = a.len() as int;
        let n2 = n1 + f.len();
        let n3 = n2 + file_id.len();
        let n4 = n3 + r.len();
        if i < n1 {
            assert(u[i] == a[i]);
        } else if i < n2 {
            assert(u[i] == f[i - n1]);
        } else if i < n3 {
            assert(u[i] == file_id[i - n2]);
        } else if i < n4 {
            assert(u[i] == r[i - n3]);
        } else {
            assert(u[i] == revision_id[i - n4]);
        }
    }
}

/// `needle` occurs in `hay` as a contiguous piece.
pub open spec fn contains_text(hay: Seq<char>, needle: Seq<char>) -> bool {
    exists|k: int| 0 <= k && k + needle.len() <= hay.len() && #[trigger] hay.subrange(k, k + needle.len()) == needle
}

/// Both listing URLs name `nextPageToken` in their `fields` mask, whatever
/// the file id and page token, so that later pages stay reachable.
pub proof fn lemma_listing_urls_request_next_page_token(file_id: Seq<char>, page_token: Option<Seq<char>>)
    ensures
        contains_text(files_list_url_spec(page_token), "fields=nextPageToken,"@),
        contains_text(revisions_list_url_spec(file_id, page_token), "fields=nextPageToken,"@),
{
    reveal_strlit("https://www.googleapis.com/drive/v3");
    reveal_strlit("/files?spaces=appDataFolder&fields=nextPageToken,files(id,name,modifiedTime,size)&pageSize=1000");
    reveal_strlit("/revisions?fields=nextPageToken,revisions(id,modifiedTime,size)&pageSize=1000");
    reveal_strlit("/files/");
    reveal_strlit("fields=nextPageToken,");
    let needle = "fields=nextPageToken,"@;
    let u = files_list_url_spec(page_token);
    let k: int = 63;
    assert(u.subrange(k, k + 21) =~= needle);
    let v = revisions_list_url_spec(file_id, page_token);
    let k2: int = 35 + 7 + file_id.len() as int + 11;
    assert(v.subrange(k2, k2 + 21) =~= needle);
}

/// The value of an upper-case hexadecimal digit.
pub open spec fn hex_value(c: char) -> int {
    if '0' <= c <= '9' { (c as int) - 48 } else { (c as int) - 55 }
}

/// Percent-encoding works byte by byte: an unreserved byte stands for
/// itself, any other byte becomes `%` followed by two upper-case hex
/// digits that give the byte's value back.
pub proof fn lemma_percent_encode_byte_meaning(b: u8)
    ensures
        is_unreserved_byte(b) ==> percent_encode(seq![b]) == seq![b as char],
        !is_unreserved_byte(b) ==> {
            let e = percent_encode(seq![b]);
            &&& e.len() == 3
            &&& e[0] == '%'
            &&& ('0' <= e[1] <= '9' || 'A' <= e[1] <= 'F')
            &&& ('0' <= e[2] <= '9' || 'A' <= e[2] <= 'F')
            &&& hex_value(e[1]) * 16 + hex_value(e[2]) == b
        },
{
    assert(seq![b].drop_last() =~= Seq::<u8>::empty());
    assert(seq![b].last() == b);
    assert(percent_encode(Seq::<u8>::empty()) == Seq::<char>::empty());
    assert(percent_encode(seq![b]) == percent_encode(Seq::<u8>::empty()) + percent_encode_byte(b));
    assert(Seq::<char>::empty() + percent_encode_byte(b) =~= percent_encode_byte(b));
    if !is_unreserved_byte(b) {
        let hi = (b / 16) as nat;
        let lo = (b % 16) as nat;
        assert(hi < 16 && lo < 16);
        assert(hex_value(hex_upper(hi)) == hi);
        assert(hex_value(hex_upper(lo)) == lo);
        assert(b == hi * 16 + lo);
    }
}

/// Percent-encoding two byte runs one after the other gives the two
/// encodings one after the other.
pub proof fn lemma_percent_encode_concat(a: Seq<u8>, b: Seq<u8>)
    ensures
        percent_encode(a + b) == percent_encode(a) + percent_encode(b),
    decreases b.len(),
{
    if b.len() == 0 {
        assert(a + b =~= a);
        assert(percent_encode(a) + percent_encode(b) =~= percent_encode(a));
    } else {
        lemma_percent_encode_concat(a, b.drop_last());
        assert((a + b).drop_last() =~= a + b.drop_last());
        assert((a + b).last() == b.last());
        assert(percent_encode(a) + percent_encode(b.drop_last()) + percent_encode_byte(b.last())
            =~= percent_encode(a) + (percent_encode(b.drop_last()) + percent_encode_byte(b.last())));
    }
}

/// A listing URL with a page token is the first-page URL followed by
/// `&pageToken=` and the whole token, percent-encoded; the first-page URL
/// carries no token at all.
pub proof fn lemma_page_token_appended_whole(file_id: Seq<char>, t: Seq<char>)
    ensures
        files_list_url_spec(Some(t)) == files_list_url_spec(None) + "&pageToken="@ + url_encoded(t),
        revisions_list_url_spec(file_id, Some(t)) == revisions_list_url_spec(file_id, None)
            + "&pageToken="@ + url_encoded(t),
        files_list_url_spec(None) == API_BASE@ + FILES_LIST_PATH@,
        revisions_list_url_spec(file_id, None) == API_BASE@ + "/files/"@ + file_id + REVISIONS_LIST_QUERY@,
{
    assert(files_list_url_spec(None) =~= API_BASE@ + FILES_LIST_PATH@);
    assert(revisions_list_url_spec(file_id, None) =~= API_BASE@ + "/files/"@ + file_id + REVISIONS_LIST_QUERY@);
    assert(files_list_url_spec(Some(t)) =~= files_list_url_spec(None) + "&pageToken="@ + url_encoded(t));
    assert(revisions_list_url_spec(file_id, Some(t)) =~= revisions_list_url_spec(file_id, None)
        + "&pageToken="@ + url_encoded(t));
}

/// The media URL of a revision is its URL followed by `?alt=media`; the
/// revision URL is the base, `/files/`, the file id, `/revisions/` and the
/// revision id.
pub proof fn lemma_revision_urls_shape(file_id: Seq<char>, revision_id: Seq<char>)
    ensures
        revision_media_url_spec(file_id, revision_id) == revision_url_spec(file_id, revision_id) + "?alt=media"@,
        revision_url_spec(file_id, revision_id) == API_BASE@ + "/files/"@ + file_id + "/revisions/"@ + revision_id,
{
}

} // verus!
