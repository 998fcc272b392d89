//! Quick sign-in presets: which ones are usable, and how a preset without
//! an icon of its own is drawn.

use vstd::prelude::*;
use vstd::string::*;
use vstd::utf8::encode_utf8;
use crate::decimal::{decimal, push_decimal};

verus! {

/// Name of the PeopleModeler preset.
pub const PEOPLE_MODELER: &'static str = "PeopleModeler";

/// Name of the AsthmaTrack preset.
pub const ASTHMA_TRACK: &'static str = "AsthmaTrack";

/// The presets that can be offered: those whose Client ID is present and
/// not empty (an unset build secret comes through as an empty string), in
/// the order given.
pub open spec fn available_presets(
    raw: Seq<(&'static str, Option<&'static str>)>,
) -> Seq<(&'static str, &'static str)>
    decreases raw.len(),
{
    if raw.len() == 0 {
        Seq::empty()
    } else {
        let rest = available_presets(raw.drop_last());
        match raw.last().1 {
            Some(id) => if id@.len() > 0 {
                rest.push((raw.last().0, id))
            } else {
                rest
            },
            None => rest,
        }
    }
}

/// Keeps the presets whose Client ID is configured, as `(name, client id)`.
pub fn filter_available_presets(
    raw: &[(&'static str, Option<&'static str>)],
) -> (res: Vec<(&'static str, &'static str)>)
    ensures
        res@ == available_presets(raw@),
{
    let mut out: Vec<(&'static str, &'static str)> = Vec::new();
    let mut i: usize = 0;
    while i < raw.len()
        invariant
            i <= raw@.len(),
            out@ == available_presets(raw@.take(i as int)),
        decreases raw@.len() - i,
    {
        let (name, id) = raw[i];
        assert(raw@.take(i + 1).drop_last() =~= raw@.take(i as int));
        assert(raw@.take(i + 1).last() == raw@[i as int]);
        match id {
            Some(client_id) => {
                if !client_id.is_empty() {
                    out.push((name, client_id));
                }
            },
            None => {},
        }
        i = i + 1;
    }
    assert(raw@.take(raw@.len() as int) =~= raw@);
    out
}

/// An entry whose Client ID is present and not empty.
pub open spec fn is_configured(e: (&'static str, Option<&'static str>)) -> bool {
    e.1 is Some && e.1->0@.len() > 0
}

/// A preset list starts empty, and each further entry is offered, after
/// those before it, exactly when its Client ID is present and not empty.
pub proof fn lemma_available_presets_push(
    raw: Seq<(&'static str, Option<&'static str>)>,
    e: (&'static str, Option<&'static str>),
)
    ensures
        available_presets(Seq::<(&'static str, Option<&'static str>)>::empty()).len() == 0,
        is_configured(e) ==> available_presets(raw.push(e)) == available_presets(raw).push((e.0, e.1->0)),
        !is_configured(e) ==> available_presets(raw.push(e)) == available_presets(raw),
{
    assert(raw.push(e).drop_last() =~= raw);
}

/// Every entry whose Client ID is present and not empty is offered, and
/// everything offered is such an entry.
pub proof fn lemma_available_presets_members(raw: Seq<(&'static str, Option<&'static str>)>)
    ensures
        forall|k: int| 0 <= k < raw.len() && is_configured(#[trigger] raw[k])
            ==> available_presets(raw).contains((raw[k].0, raw[k].1->0)),
        forall|m: int| 0 <= m < available_presets(raw).len() ==> exists|k: int|
            0 <= k < raw.len() && (#[trigger] raw[k]).0 == (#[trigger] available_presets(raw)[m]).0
                && raw[k].1 == Some(available_presets(raw)[m].1) && available_presets(raw)[m].1@.len() > 0,
    decreases raw.len(),
{
    if raw.len() > 0 {
        let prev = raw.drop_last();
        lemma_available_presets_members(prev);
        let rest = available_presets(prev);
        let all = available_presets(raw);
        assert forall|k: int| 0 <= k < raw.len() && is_configured(#[trigger] raw[k])
            implies all.contains((raw[k].0, raw[k].1->0)) by {
            if k < raw.len() - 1 {
                assert(prev[k] == raw[k]);
                let t = choose|t: int| 0 <= t < rest.len() && rest[t] == (prev[k].0, prev[k].1->0);
                assert(all[t] == rest[t]);
            } else {
                assert(all[all.len() - 1] == (raw[k].0, raw[k].1->0));
            }
        }
        assert forall|m: int| 0 <= m < all.len() implies exists|k: int|
            0 <= k < raw.len() && (#[trigger] raw[k]).0 == (#[trigger] all[m]).0
                && raw[k].1 == Some(all[m].1) && all[m].1@.len() > 0 by {
            if m < rest.len() {
                assert(all[m] == rest[m]);
                let k = choose|k: int| 0 <= k < prev.len() && (#[trigger] prev[k]).0 == (#[trigger] rest[m]).0
                    && prev[k].1 == Some(rest[m].1) && rest[m].1@.len() > 0;
                assert(raw[k] == prev[k]);
            } else {
                assert(raw[raw.len() - 1] == raw.last());
            }
        }
    }
}

/// The sum of a sequence of bytes.
pub open spec fn byte_sum(bytes: Seq<u8>) -> nat
    decreases bytes.len(),
{
    if bytes.len() == 0 {
        0
    } else {
        byte_sum(bytes.drop_last()) + bytes.last() as nat
    }
}

proof fn lemma_byte_sum_prefix(bytes: Seq<u8>, k: int)
    requires
        0 <= k <= bytes.len(),
    ensures
        byte_sum(bytes.take(k)) <= byte_sum(bytes),
    decreases bytes.len() - k,
{
    if k < bytes.len() {
        lemma_byte_sum_prefix(bytes, k + 1);
        assert(bytes.take(k + 1).drop_last() =~= bytes.take(k));
    } else {
        assert(bytes.take(k) =~= bytes);
    }
}

/// The byte sum adds up over concatenation, a single byte counts its own
/// value, and nothing sums to zero.
pub proof fn lemma_byte_sum_concat(a: Seq<u8>, b: Seq<u8>)
    ensures
        byte_sum(a + b) == byte_sum(a) + byte_sum(b),
        byte_sum(Seq::<u8>::empty()) == 0,
        b.len() == 1 ==> byte_sum(b) == b[0],
    decreases b.len(),
{
    if b.len() > 0 {
        lemma_byte_sum_concat(a, b.drop_last());
        assert((a + b).drop_last() =~= a + b.drop_last());
        assert((a + b).last() == b.last());
        if b.len() == 1 {
            assert(b.drop_last() =~= Seq::<u8>::empty());
        }
    } else {
        assert(a + b =~= a);
    }
}

/// The hue of a preset's badge: the sum of the bytes of its name's UTF-8
/// encoding, modulo 360.
pub open spec fn avatar_hue(name: Seq<char>) -> nat {
    byte_sum(encode_utf8(name)) % 360
}

/// The badge colour of a preset: `hsl(<hue>, 55%, 42%)`.
pub open spec fn avatar_color_spec(name: Seq<char>) -> Seq<char> {
    "hsl("@ + decimal(avatar_hue(name)) + ", 55%, 42%)"@
}

/// The background colour of a preset's badge, derived from its name alone
/// so that a project always gets the same colour.
pub fn avatar_color(name: &str) -> (res: String)
    requires
        byte_sum(encode_utf8(name@)) <= u32::MAX,
    ensures
        res@ == avatar_color_spec(name@),
{
    let bytes = name.as_bytes();
    let mut sum: u32 = 0;
    let mut i: usize = 0;
    while i < bytes.len()
        invariant
            i <= bytes@.len(),
            bytes@ == encode_utf8(name@),
            byte_sum(bytes@) <= u32::MAX,
            sum as nat == byte_sum(bytes@.take(i as int)),
        decreases bytes@.len() - i,
    {
        assert(bytes@.take(i + 1).drop_last() =~= bytes@.take(i as int));
        proof {
            lemma_byte_sum_prefix(bytes@, i + 1);
        }
        sum = sum + bytes[i] as u32;
        i = i + 1;
    }
    assert(bytes@.take(bytes@.len() as int) =~= bytes@);
    let hue = sum % 360;
    let mut out = String::from_str("hsl(");
    push_decimal(&mut out, hue as u64);
    out.append(", 55%, 42%)");
    out
}

/// What `str::to_uppercase` gives for a text: its Unicode upper-case form.
pub uninterp spec fn unicode_uppercase(s: Seq<char>) -> Seq<char>;

/// Upper-cases `s` with `str::to_uppercase`.
///
/// Trusted: `str::to_uppercase` returns the Unicode upper-case mapping of
/// `s`, which depends on `s` alone; the mapping itself is left unsaid.
#[verifier::external_body]
fn to_uppercase(s: &str) -> (res: String)
    ensures
        res@ == unicode_uppercase(s@),
{
    s.to_uppercase()
}

/// The first two characters of a name (fewer for a shorter name).
pub open spec fn first_two(name: Seq<char>) -> Seq<char> {
    if name.len() < 2 { name } else { name.take(2) }
}

/// The initials on a preset's badge: its first two characters, upper-cased.
pub fn avatar_initials(name: &str) -> (res: String)
    ensures
        res@ == unicode_uppercase(first_two(name@)),
{
    let n = name.unicode_len();
    let end: usize = if n < 2 { n } else { 2 };
    let first = name.substring_char(0, end);
    assert(first@ =~= first_two(name@));
    to_uppercase(first)
}

/// Presets that ship with an icon of their own.
#[derive(Debug, Clone, Copy, PartialEq, Eq)]
pub enum PresetIcon {
    PeopleModeler,
    AsthmaTrack,
}

/// The bundled icon of a preset, by name; none for other presets, which
/// get a coloured badge with their initials.
pub open spec fn preset_icon_spec(name: Seq<char>) -> Option<PresetIcon> {
    if name == PEOPLE_MODELER@ {
        Some(PresetIcon::PeopleModeler)
    } else if name == ASTHMA_TRACK@ {
        Some(PresetIcon::AsthmaTrack)
    } else {
        None
    }
}

fn same_text(a: &str, b: &str) -> (res: bool)
    ensures
        res == (a@ == b@),
{
    a.to_owned() == b.to_owned()
}

/// The bundled icon of the preset `name`, if it has one.
pub fn preset_icon(name: &str) -> (res: Option<PresetIcon>)
    ensures
        res == preset_icon_spec(name@),
{
    if same_text(name, PEOPLE_MODELER) {
        Some(PresetIcon::PeopleModeler)
    } else if same_text(name, ASTHMA_TRACK) {
        Some(PresetIcon::AsthmaTrack)
    } else {
        None
    }
}

} // verus!
