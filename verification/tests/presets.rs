use appdata_browser::presets::{
    avatar_color, avatar_initials, filter_available_presets, preset_icon, PresetIcon,
};

#[test]
fn filter_available_presets_skips_none() {
    let raw: &[(&str, Option<&str>)] = &[("NoSecretSet", None)];
    assert_eq!(filter_available_presets(raw), Vec::<(&str, &str)>::new());
}

#[test]
fn filter_available_presets_skips_empty_string() {
    // GitHub Actions substitutes "" for a secrets.X reference that
    // doesn't exist in the repo - must be treated the same as None.
    let raw: &[(&str, Option<&str>)] = &[("UnsetSecret", Some(""))];
    assert_eq!(filter_available_presets(raw), Vec::<(&str, &str)>::new());
}

#[test]
fn filter_available_presets_keeps_configured_ones() {
    let raw: &[(&str, Option<&str>)] = &[
        ("PeopleModeler", Some("123.apps.googleusercontent.com")),
        ("NotConfigured", None),
        ("AsthmaTrack", Some("456.apps.googleusercontent.com")),
        ("AlsoUnset", Some("")),
    ];
    assert_eq!(
        filter_available_presets(raw),
        vec![
            ("PeopleModeler", "123.apps.googleusercontent.com"),
            ("AsthmaTrack", "456.apps.googleusercontent.com"),
        ]
    );
}

#[test]
fn avatar_color_is_deterministic() {
    assert_eq!(avatar_color("PeopleModeler"), avatar_color("PeopleModeler"));
}

#[test]
fn avatar_color_produces_valid_hsl() {
    let color = avatar_color("AsthmaTrack");
    assert!(color.starts_with("hsl("));
    assert!(color.ends_with(", 55%, 42%)"));
}

#[test]
fn avatar_initials_takes_first_two_chars_uppercased() {
    assert_eq!(avatar_initials("PeopleModeler"), "PE");
    assert_eq!(avatar_initials("AsthmaTrack"), "AS");
    assert_eq!(avatar_initials("x"), "X");
    assert_eq!(avatar_initials(""), "");
}

#[test]
fn avatar_color_exact_hue() {
    // "AB": 65 + 66 = 131; "PeopleModeler" sums to 1325, 1325 % 360 = 245.
    assert_eq!(avatar_color("AB"), "hsl(131, 55%, 42%)");
    assert_eq!(avatar_color("PeopleModeler"), "hsl(245, 55%, 42%)");
    assert_eq!(avatar_color(""), "hsl(0, 55%, 42%)");
    // Non-ASCII names are summed over their UTF-8 bytes: é is C3 A9.
    assert_eq!(avatar_color("é"), "hsl(4, 55%, 42%)");
}

#[test]
fn avatar_initials_of_non_ascii_name() {
    assert_eq!(avatar_initials("éa"), "ÉA");
    assert_eq!(avatar_initials("ßx"), "SSX");
}

#[test]
fn preset_icon_by_name() {
    assert_eq!(preset_icon("PeopleModeler"), Some(PresetIcon::PeopleModeler));
    assert_eq!(preset_icon("AsthmaTrack"), Some(PresetIcon::AsthmaTrack));
    assert_eq!(preset_icon("Other"), None);
    assert_eq!(preset_icon("peoplemodeler"), None);
}
