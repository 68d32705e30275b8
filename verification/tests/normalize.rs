use category_spider::text::{collapse_spaces, normalize_name, remove_char, str_eq, trim_blank};

#[test]
fn name_collapsing_mixed_spaces_and_newline() {
    let out = normalize_name("IKEA   SMÅSTAD\nShelf");
    assert_eq!(out, "IKEA SMÅSTAD Shelf");
}

#[test]
fn name_collapsing_leaves_single_spaces() {
    assert_eq!(normalize_name("BILLY Bookcase"), "BILLY Bookcase");
}

#[test]
fn name_collapsing_empty() {
    assert_eq!(normalize_name(""), "");
}

#[test]
fn collapse_spaces_runs() {
    assert_eq!(collapse_spaces("a  b   c"), "a b c");
    assert_eq!(collapse_spaces("  "), " ");
    assert_eq!(collapse_spaces(""), "");
}

#[test]
fn remove_char_strips_punctuation() {
    assert_eq!(remove_char("100.222", '.'), "100222");
    assert_eq!(remove_char("802.594.19", '.'), "80259419");
    assert_eq!(remove_char("no dots", '.'), "no dots");
}

#[test]
fn trim_blank_both_ends() {
    assert_eq!(trim_blank("  BILLY \n"), "BILLY");
    assert_eq!(trim_blank("\t\r\n "), "");
    assert_eq!(trim_blank("a b"), "a b");
}

#[test]
fn str_eq_matches_content() {
    assert!(str_eq("abc", "abc"));
    assert!(!str_eq("abc", "abd"));
    assert!(!str_eq("abc", "ab"));
    assert!(str_eq("", ""));
}
