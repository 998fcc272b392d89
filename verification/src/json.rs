//! The JSON documents that Drive answers with, as plain values, and the few
//! members the listing and error handling read from them.

use vstd::prelude::*;

verus! {

/// A JSON document. Numbers keep their textual form; objects keep their
/// members in order, one member per key.
#[derive(Debug, PartialEq)]
pub enum JsonValue {
    Null,
    Bool(bool),
    Number(String),
    Str(String),
    Array(Vec<JsonValue>),
    Object(Vec<(String, JsonValue)>),
}

/// Member of a listing response that carries the next page's token.
pub const NEXT_PAGE_TOKEN_KEY: &'static str = "nextPageToken";

/// Member of an error response that holds the error object.
pub const ERROR_KEY: &'static str = "error";

/// Member of the error object that holds the human-readable message.
pub const MESSAGE_KEY: &'static str = "message";

/// Text used when an error response carries no message.
pub const UNKNOWN_ERROR: &'static str = "unknown error";

/// The value of the first member named `key` among `entries[i..]`.
pub open spec fn member_from(entries: Seq<(String, JsonValue)>, key: Seq<char>, i: int) -> Option<JsonValue>
    decreases entries.len() - i,
{
    if i < 0 || i >= entries.len() {
        None
    } else if entries[i].0@ == key {
        Some(entries[i].1)
    } else {
        member_from(entries, key, i + 1)
    }
}

/// The member named `key` of `v`: nothing when `v` is not an object.
pub open spec fn member_spec(v: JsonValue, key: Seq<char>) -> Option<JsonValue> {
    match v {
        JsonValue::Object(entries) => member_from(entries@, key, 0),
        _ => None,
    }
}

/// The text of the member named `key` of `v`, when that member is a string.
pub open spec fn string_member(v: JsonValue, key: Seq<char>) -> Option<Seq<char>> {
    match member_spec(v, key) {
        Some(JsonValue::Str(s)) => Some(s@),
        _ => None,
    }
}

/// The message that an error response carries in `error.message`, or
/// `unknown error` when it carries none.
pub open spec fn api_error_message_spec(body: JsonValue) -> Seq<char> {
    match member_spec(body, ERROR_KEY@) {
        Some(e) => match string_member(e, MESSAGE_KEY@) {
            Some(m) => m,
            None => UNKNOWN_ERROR@,
        },
        None => UNKNOWN_ERROR@,
    }
}

fn find_member(entries: &Vec<(String, JsonValue)>, key: &str) -> (res: Option<usize>)
    ensures
        match res {
            Some(i) => i < entries@.len() && member_from(entries@, key@, 0) == Some(entries@[i as int].1),
            None => member_from(entries@, key@, 0) is None,
        },
{
    let wanted = key.to_owned();
    let mut i: usize = 0;
    while i < entries.len()
        invariant
            i <= entries@.len(),
            wanted@ == key@,
            member_from(entries@, key@, 0) == member_from(entries@, key@, i as int),
        decreases entries@.len() - i,
    {
        if entries[i].0 == wanted {
            return Some(i);
        }
        i = i + 1;
    }
    None
}

/// The member named `key` of `v`, like `serde_json::Value::get` with a
/// string index: nothing when `v` is not an object or has no such member.
pub fn member<'a>(v: &'a JsonValue, key: &str) -> (res: Option<&'a JsonValue>)
    ensures
        match res {
            Some(m) => member_spec(*v, key@) == Some(*m),
            None => member_spec(*v, key@) is None,
        },
{
    match v {
        JsonValue::Object(entries) => match find_member(entries, key) {
            Some(i) => Some(&entries[i].1),
            None => None,
        },
        _ => None,
    }
}

/// Reads the pagination token of a listing response: the `nextPageToken`
/// member when it is a string; its absence means this was the last page.
pub fn extract_next_page_token(body: &JsonValue) -> (res: Option<String>)
    ensures
        match res {
            Some(t) => string_member(*body, NEXT_PAGE_TOKEN_KEY@) == Some(t@),
            None => string_member(*body, NEXT_PAGE_TOKEN_KEY@) is None,
        },
{
    match member(body, NEXT_PAGE_TOKEN_KEY) {
        Some(JsonValue::Str(s)) => Some(s.clone()),
        _ => None,
    }
}

/// The message of an error response: `error.message` when it is a string,
/// else `unknown error`.
pub fn api_error_message(body: &JsonValue) -> (res: String)
    ensures
        res@ == api_error_message_spec(*body),
{
    match member(body, ERROR_KEY) {
        Some(e) => match member(e, MESSAGE_KEY) {
            Some(JsonValue::Str(m)) => m.clone(),
            _ => String::from_str(UNKNOWN_ERROR),
        },
        None => String::from_str(UNKNOWN_ERROR),
    }
}

/// Takes the member named `key` out of a response, or an empty array when
/// there is none (a listing page without items lists nothing).
pub fn take_list_member(body: JsonValue, key: &str) -> (res: JsonValue)
    ensures
        match member_spec(body, key@) {
            Some(m) => res == m,
            None => res matches JsonValue::Array(items) && items@.len() == 0,
        },
{
    match body {
        JsonValue::Object(mut entries) => match find_member(&entries, key) {
            Some(i) => {
                let (_, value) = entries.remove(i);
                value
            },
            None => JsonValue::Array(Vec::new()),
        },
        _ => JsonValue::Array(Vec::new()),
    }
}

proof fn lemma_member_from_reaches(entries: Seq<(String, JsonValue)>, key: Seq<char>, i: int, j: int)
    requires
        0 <= i <= j < entries.len(),
        entries[j].0@ == key,
        forall|m: int| i <= m < j ==> (#[trigger] entries[m]).0@ != key,
    ensures
        member_from(entries, key, i) == Some(entries[j].1),
    decreases j - i,
{
    if i < j {
        lemma_member_from_reaches(entries, key, i + 1, j);
    }
}

proof fn lemma_member_from_misses(entries: Seq<(String, JsonValue)>, key: Seq<char>, i: int)
    requires
        0 <= i,
        forall|m: int| i <= m < entries.len() ==> (#[trigger] entries[m]).0@ != key,
    ensures
        member_from(entries, key, i) is None,
    decreases entries.len() - i,
{
    if i < entries.len() {
        lemma_member_from_misses(entries, key, i + 1);
    }
}

/// In an object whose entry `j` is the only one named `key`, the member
/// `key` is that entry's value, wherever the entry stands and whatever the
/// other entries hold.
pub proof fn lemma_member_is_named_entry(entries: Vec<(String, JsonValue)>, key: Seq<char>, j: int)
    requires
        0 <= j < entries@.len(),
        entries@[j].0@ == key,
        forall|m: int| 0 <= m < entries@.len() && m != j ==> (#[trigger] entries@[m]).0@ != key,
    ensures
        member_spec(JsonValue::Object(entries), key) == Some(entries@[j].1),
{
    lemma_member_from_reaches(entries@, key, 0, j);
}

/// An object without an entry named `key`, and any value that is not an
/// object, has no member `key`.
pub proof fn lemma_member_absent(v: JsonValue, key: Seq<char>)
    requires
        v matches JsonValue::Object(entries) ==> forall|m: int|
            0 <= m < entries@.len() ==> (#[trigger] entries@[m]).0@ != key,
    ensures
        member_spec(v, key) is None,
{
    if let JsonValue::Object(entries) = v {
        lemma_member_from_misses(entries@, key, 0);
    }
}

/// The next-page token is the text of the only `nextPageToken` entry of a
/// page, wherever it stands among the page's other members.
pub proof fn lemma_next_page_token_found(entries: Vec<(String, JsonValue)>, j: int, token: String)
    requires
        0 <= j < entries@.len(),
        entries@[j].0@ == NEXT_PAGE_TOKEN_KEY@,
        entries@[j].1 == JsonValue::Str(token),
        forall|m: int| 0 <= m < entries@.len() && m != j ==> (#[trigger] entries@[m]).0@ != NEXT_PAGE_TOKEN_KEY@,
    ensures
        string_member(JsonValue::Object(entries), NEXT_PAGE_TOKEN_KEY@) == Some(token@),
{
    lemma_member_from_reaches(entries@, NEXT_PAGE_TOKEN_KEY@, 0, j);
}

/// The message of an error answer is the text of its `error.message`
/// member, wherever the members stand among others.
pub proof fn lemma_api_error_message_found(
    entries: Vec<(String, JsonValue)>,
    j: int,
    inner: Vec<(String, JsonValue)>,
    k: int,
    message: String,
)
    requires
        0 <= j < entries@.len(),
        entries@[j].0@ == ERROR_KEY@,
        entries@[j].1 == JsonValue::Object(inner),
        forall|m: int| 0 <= m < entries@.len() && m != j ==> (#[trigger] entries@[m]).0@ != ERROR_KEY@,
        0 <= k < inner@.len(),
        inner@[k].0@ == MESSAGE_KEY@,
        inner@[k].1 == JsonValue::Str(message),
        forall|m: int| 0 <= m < inner@.len() && m != k ==> (#[trigger] inner@[m]).0@ != MESSAGE_KEY@,
    ensures
        api_error_message_spec(JsonValue::Object(entries)) == message@,
{
    lemma_member_from_reaches(entries@, ERROR_KEY@, 0, j);
    lemma_member_from_reaches(inner@, MESSAGE_KEY@, 0, k);
}

} // verus!
