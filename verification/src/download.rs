//! Saving a downloaded revision through the browser: the `data:` URL that
//! carries its bytes, and the name the file is saved under.

use vstd::prelude::*;

verus! {

/// The character of the standard base64 alphabet (RFC 4648, with `+` and
/// `/`) for a 6-bit value.
pub open spec fn base64_char(v: nat) -> char {
    if v < 26 {
        (65 + v) as char
    } else if v < 52 {
        (97 + v - 26) as char
    } else if v < 62 {
        (48 + v - 52) as char
    } else if v == 62 {
        '+'
    } else {
        '/'
    }
}

/// Standard base64 with `=` padding: every three bytes become four
/// characters; a final group of one or two bytes is padded.
pub open spec fn base64_encode(b: Seq<u8>) -> Seq<char>
    decreases b.len(),
{
    if b.len() == 0 {
        seq![]
    } else if b.len() == 1 {
        seq![
            base64_char((b[0] / 4) as nat),
            base64_char(((b[0] % 4) * 16) as nat),
            '=',
            '=',
        ]
    } else if b.len() == 2 {
        seq![
            base64_char((b[0] / 4) as nat),
            base64_char(((b[0] % 4) * 16 + b[1] / 16) as nat),
            base64_char(((b[1] % 16) * 4) as nat),
            '=',
        ]
    } else {
        seq![
            base64_char((b[0] / 4) as nat),
            base64_char(((b[0] % 4) * 16 + b[1] / 16) as nat),
            base64_char(((b[1] % 16) * 4 + b[2] / 64) as nat),
            base64_char((b[2] % 64) as nat),
        ] + base64_encode(b.skip(3))
    }
}

/// The 6-bit value of a character of the standard base64 alphabet.
pub open spec fn base64_index(c: char) -> int {
    if 'A' <= c <= 'Z' {
        (c as int) - 65
    } else if 'a' <= c <= 'z' {
        (c as int) - 97 + 26
    } else if '0' <= c <= '9' {
        (c as int) - 48 + 52
    } else if c == '+' {
        62
    } else {
        63
    }
}

proof fn lemma_base64_char_index(v: nat)
    requires
        v < 64,
    ensures
        base64_index(base64_char(v)) == v,
        base64_char(v) != '=',
{
}

/// Three bytes become four alphabet characters whose 6-bit values, read
/// in order, spell out the 24 bits of the three bytes.
pub proof fn lemma_base64_group(b0: u8, b1: u8, b2: u8)
    ensures
        base64_encode(seq![b0, b1, b2]).len() == 4,
        ({
            let e = base64_encode(seq![b0, b1, b2]);
            base64_index(e[0]) * 262144 + base64_index(e[1]) * 4096 + base64_index(e[2]) * 64
                + base64_index(e[3]) == b0 * 65536 + b1 * 256 + b2
        }),
{
    let b = seq![b0, b1, b2];
    assert(b.skip(3) =~= Seq::<u8>::empty());
    assert(base64_encode(b.skip(3)) == Seq::<char>::empty());
    let v0 = (b0 / 4) as nat;
    let v1 = ((b0 % 4) * 16 + b1 / 16) as nat;
    let v2 = ((b1 % 16) * 4 + b2 / 64) as nat;
    let v3 = (b2 % 64) as nat;
    lemma_base64_char_index(v0);
    lemma_base64_char_index(v1);
    lemma_base64_char_index(v2);
    lemma_base64_char_index(v3);
    let e = base64_encode(b);
    assert(e =~= seq![base64_char(v0), base64_char(v1), base64_char(v2), base64_char(v3)]);
    assert(v0 * 262144 + v1 * 4096 + v2 * 64 + v3 == b0 * 65536 + b1 * 256 + b2) by (nonlinear_arith)
        requires
            v0 == b0 / 4,
            v1 == (b0 % 4) * 16 + b1 / 16,
            v2 == (b1 % 16) * 4 + b2 / 64,
            v3 == b2 % 64,
            b0 < 256,
            b1 < 256,
            b2 < 256,
    ;
}

/// The encoding of a byte run whose length is a multiple of three, then
/// more bytes, is the two encodings one after the other; and the encoded
/// length is four characters per started group of three bytes.
pub proof fn lemma_base64_concat_and_len(a: Seq<u8>, b: Seq<u8>)
    requires
        a.len() % 3 == 0,
    ensures
        base64_encode(a + b) == base64_encode(a) + base64_encode(b),
        base64_encode(a).len() == base64_len(a.len()),
    decreases a.len(),
{
    if a.len() == 0 {
        assert(a + b =~= b);
        assert(base64_encode(a) + base64_encode(b) =~= base64_encode(b));
    } else {
        let rest = a.skip(3);
        lemma_base64_concat_and_len(rest, b);
        assert((a + b).skip(3) =~= rest + b);
        assert((a + b)[0] == a[0] && (a + b)[1] == a[1] && (a + b)[2] == a[2]);
        let head = seq![
            base64_char((a[0] / 4) as nat),
            base64_char(((a[0] % 4) * 16 + a[1] / 16) as nat),
            base64_char(((a[1] % 16) * 4 + a[2] / 64) as nat),
            base64_char((a[2] % 64) as nat),
        ];
        assert(base64_encode(a + b) == head + base64_encode(rest + b));
        assert(base64_encode(a) == head + base64_encode(rest));
        assert(head + (base64_encode(rest) + base64_encode(b)) =~= (head + base64_encode(rest)) + base64_encode(b));
        assert(base64_len(a.len()) == base64_len(rest.len()) + 4) by (nonlinear_arith)
            requires a.len() == rest.len() + 3;
    }
}

/// The length of the padded base64 text of `n` bytes.
pub open spec fn base64_len(n: nat) -> nat {
    ((n + 2) / 3) * 4
}

/// Encodes `bytes` with `base64::engine::general_purpose::STANDARD`.
///
/// Trusted: the `STANDARD` engine's `Engine::encode` writes the standard
/// alphabet with `=` padding; it panics when the encoded length overflows
/// `usize`, which `requires` rules out.
#[verifier::external_body]
fn base64_standard(bytes: &[u8]) -> (res: String)
    requires
        base64_len(bytes@.len()) <= usize::MAX,
    ensures
        res@ == base64_encode(bytes@),
{
    base64::Engine::encode(&base64::engine::general_purpose::STANDARD, bytes)
}

/// The start of the `data:` URL of a download.
pub const DATA_URL_PREFIX: &'static str = "data:application/octet-stream;base64,";

/// The `data:` URL that makes the browser save `bytes` as a file.
pub fn download_href(bytes: &[u8]) -> (res: String)
    requires
        base64_len(bytes@.len()) <= usize::MAX,
    ensures
        res@ == DATA_URL_PREFIX@ + base64_encode(bytes@),
{
    let encoded = base64_standard(bytes);
    let mut href = String::from_str(DATA_URL_PREFIX);
    href.append(encoded.as_str());
    href
}

/// The name under which a downloaded revision is saved.
pub fn download_filename(revision_id: &str) -> (res: String)
    ensures
        res@ == "revision_"@ + revision_id@ + ".json"@,
{
    let mut name = String::from_str("revision_");
    name.append(revision_id);
    name.append(".json");
    name
}

} // verus!
