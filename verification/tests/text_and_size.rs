use appdata_browser::decimal::{parse_u64, push_decimal};
use appdata_browser::download::{download_filename, download_href};
use appdata_browser::drive::{remove_revision, DriveRevision};
use appdata_browser::size::{fmt_size, SizeText};
use appdata_browser::text::{is_whitespace, trim};

/// Renders a size the way the page does: kilobytes with one decimal.
fn render(size: SizeText) -> String {
    match size {
        SizeText::Plain(text) => text,
        SizeText::Kilobytes(n) => format!("{:.1} KB", n as f64 / 1024.0),
    }
}

fn shown(size: &Option<String>) -> String {
    render(fmt_size(size))
}

#[test]
fn fmt_size_none_shows_dash() {
    assert_eq!(shown(&None), "—");
}

#[test]
fn fmt_size_unparsable_shows_dash() {
    assert_eq!(shown(&Some("not-a-number".to_string())), "—");
}

#[test]
fn fmt_size_bytes_under_1024() {
    assert_eq!(shown(&Some("500".to_string())), "500 B");
    assert_eq!(shown(&Some("0".to_string())), "0 B");
    assert_eq!(shown(&Some("1023".to_string())), "1023 B");
}

#[test]
fn fmt_size_kilobytes_rounds_to_one_decimal() {
    assert_eq!(shown(&Some("1024".to_string())), "1.0 KB");
    assert_eq!(shown(&Some("2048".to_string())), "2.0 KB");
    assert_eq!(shown(&Some("866".to_string())), "866 B");
    assert_eq!(shown(&Some("10240".to_string())), "10.0 KB");
}

#[test]
fn fmt_size_choices() {
    assert_eq!(fmt_size(&Some("1024".to_string())), SizeText::Kilobytes(1024));
    assert_eq!(fmt_size(&Some("+12".to_string())), SizeText::Plain("12 B".to_string()));
    assert_eq!(fmt_size(&Some("".to_string())), SizeText::Plain("—".to_string()));
}

#[test]
fn parse_u64_follows_str_parse() {
    for text in ["0", "007", "+5", "+", "-5", "", " 5", "18446744073709551615", "18446744073709551616", "12a", "٣"] {
        assert_eq!(parse_u64(text), text.parse::<u64>().ok(), "input {text:?}");
    }
}

#[test]
fn decimal_rendering_round_trips() {
    for n in [0u64, 9, 10, 99, 1000, 4096, u64::MAX] {
        let mut out = String::new();
        push_decimal(&mut out, n);
        assert_eq!(out, n.to_string());
        assert_eq!(parse_u64(&out), Some(n));
    }
}

#[test]
fn trim_matches_str_trim() {
    for text in ["", "   ", "  abc  ", "\u{3000}id\u{2028}", "a b", "\t\nx\r\u{85}", "\u{200b}x"] {
        assert_eq!(trim(text), text.trim(), "input {text:?}");
    }
}

#[test]
fn whitespace_matches_char_is_whitespace() {
    for code in 0u32..0x3100 {
        if let Some(c) = char::from_u32(code) {
            assert_eq!(is_whitespace(c), c.is_whitespace(), "char {code:#x}");
        }
    }
}

#[test]
fn download_href_is_base64_data_url() {
    assert_eq!(download_href(b""), "data:application/octet-stream;base64,");
    assert_eq!(download_href(b"hi"), "data:application/octet-stream;base64,aGk=");
    assert_eq!(download_href(b"hello world~"), "data:application/octet-stream;base64,aGVsbG8gd29ybGR+");
    assert_eq!(download_href(&[0xff, 0xfe]), "data:application/octet-stream;base64,//4=");
    assert_eq!(download_href(b"a"), "data:application/octet-stream;base64,YQ==");
}

#[test]
fn download_filename_names_revision() {
    assert_eq!(download_filename("REV456"), "revision_REV456.json");
}

fn rev(id: &str) -> DriveRevision {
    DriveRevision { id: id.to_string(), modified_time: None, size: Some("1".to_string()) }
}

#[test]
fn remove_revision_drops_only_that_id() {
    let mut list = vec![rev("r1"), rev("r2"), rev("r3"), rev("r2")];
    remove_revision(&mut list, "r2");
    assert_eq!(list, vec![rev("r1"), rev("r3")]);
    remove_revision(&mut list, "absent");
    assert_eq!(list, vec![rev("r1"), rev("r3")]);
    assert_eq!(rev("r9").revision_id_or_id(), "r9");
}
