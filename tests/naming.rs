use webp_converter::naming::{
    generate_output_name, generate_output_name_on, replace_text, strip_extension, NamingOptions,
};

fn options(scheme: &str, suffix: Option<&str>, pattern: Option<&str>) -> NamingOptions {
    NamingOptions::new(
        scheme.to_string(),
        suffix.map(|s| s.to_string()),
        pattern.map(|p| p.to_string()),
    )
}

#[test]
fn add_suffix_strips_extension_first() {
    let o = options("add-suffix", Some("_small"), None);
    let r = generate_output_name("photo.JPG", &o);
    assert_ne!(r, "photo.JPG_small.webp");
    assert_eq!(r, "photo_small.webp");
}

#[test]
fn add_suffix_defaults_to_compressed() {
    let o = options("add-suffix", None, None);
    assert_eq!(generate_output_name("photo.png", &o), "photo_compressed.webp");
    assert_eq!(generate_output_name("scan", &o), "scan_compressed.webp");
}

#[test]
fn keep_original_replaces_extension() {
    let o = options("keep-original", Some("_ignored"), Some("{name}-x"));
    assert_eq!(generate_output_name("holiday.jpeg", &o), "holiday.webp");
}

#[test]
fn unknown_scheme_keeps_original_name() {
    let o = options("something-else", Some("_s"), None);
    assert_eq!(generate_output_name("a.b.png", &o), "a.b.webp");
}

#[test]
fn only_last_extension_is_removed() {
    assert_eq!(strip_extension("archive.tar.gz"), "archive.tar");
    assert_eq!(strip_extension("noext"), "noext");
    assert_eq!(strip_extension(".hidden"), "");
    assert_eq!(strip_extension("trailing."), "trailing");
    assert_eq!(strip_extension(""), "");
}

#[test]
fn every_scheme_ends_in_webp_without_old_extension() {
    let schemes = [
        options("keep-original", None, None),
        options("add-suffix", None, None),
        options("add-suffix", Some("-v2"), None),
        options("custom", None, None),
        options("custom", Some("_s"), Some("{date}_{name}")),
        options("other", None, None),
    ];
    for o in schemes.iter() {
        let r = generate_output_name("picture.PNG", o);
        assert!(r.ends_with(".webp"), "{}", r);
        assert!(!r.contains(".PNG"), "{}", r);
    }
}

#[test]
fn custom_default_pattern_is_name_and_index() {
    let o = options("custom", None, None);
    assert_eq!(generate_output_name("photo.jpg", &o), "photo_001.webp");
}

#[test]
fn custom_pattern_fills_all_placeholders() {
    let o = options("custom", None, Some("{date}-{name}-{index}"));
    assert_eq!(
        generate_output_name_on("cat.png", &o, "20240131"),
        "20240131-cat-001.webp"
    );
    let twice = options("custom", None, Some("{name}{name}_{index}"));
    assert_eq!(generate_output_name_on("x.gif", &twice, "20000101"), "xx_001.webp");
}

#[test]
fn custom_pattern_date_is_eight_digits() {
    let o = options("custom", None, Some("{date}"));
    let r = generate_output_name("any.png", &o);
    assert_eq!(r.len(), 13, "{}", r);
    assert!(r[..8].chars().all(|c| c.is_ascii_digit()), "{}", r);
    assert!(r.ends_with(".webp"));
}

#[test]
fn custom_pattern_without_placeholders_is_kept() {
    let o = options("custom", None, Some("fixed"));
    assert_eq!(generate_output_name_on("a.png", &o, "20240101"), "fixed.webp");
}

#[test]
fn replacement_is_left_to_right_and_non_overlapping() {
    assert_eq!(replace_text("aaaa", "aa", "b"), "bb");
    assert_eq!(replace_text("aaa", "aa", "b"), "ba");
    assert_eq!(replace_text("xyz", "q", "r"), "xyz");
    assert_eq!(replace_text("", "q", "r"), "");
    assert_eq!(replace_text("{n}{n}", "{n}", ""), "");
    assert_eq!(replace_text("aXbX", "X", "\u{e9}"), "a\u{e9}b\u{e9}");
}
