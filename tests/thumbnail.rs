use stream_thumbnail::thumbnail::{replace_str, resolve_thumbnail_url, storage_key};

#[test]
fn resolves_both_placeholders() {
    let url = resolve_thumbnail_url("https://x/{user_login}-{width}x{height}.jpg");
    assert_eq!(url, "https://x/{user_login}-1280x720.jpg");
}

#[test]
fn resolved_url_has_no_placeholders() {
    let url = resolve_thumbnail_url("a{width}b{height}c{width}{height}");
    assert_eq!(url, "a1280b720c1280720");
    assert!(!url.contains("{width}"));
    assert!(!url.contains("{height}"));
}

#[test]
fn resolving_twice_changes_nothing() {
    let once = resolve_thumbnail_url("https://x/{width}x{height}.jpg");
    let twice = resolve_thumbnail_url(&once);
    assert_eq!(once, twice);
}

#[test]
fn other_text_is_kept() {
    assert_eq!(resolve_thumbnail_url("https://x/plain.jpg"), "https://x/plain.jpg");
    assert_eq!(resolve_thumbnail_url(""), "");
    assert_eq!(resolve_thumbnail_url("{wid{width}th}"), "{wid1280th}");
}

#[test]
fn replace_scans_from_the_left() {
    assert_eq!(replace_str("aaa", "aa", "b"), "ba");
    assert_eq!(replace_str("xyz", "q", "r"), "xyz");
    assert_eq!(replace_str("é{width}é", "{width}", "1"), "é1é");
}

#[test]
fn storage_key_appends_extension() {
    assert_eq!(storage_key("alice"), "alice.jpg");
    assert_eq!(storage_key("alice"), storage_key("alice"));
    assert_eq!(storage_key(""), ".jpg");
}
