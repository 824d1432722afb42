use plugin_chain::text::{chars_of, find, remove_apostrophes, split, trim};

#[test]
fn trim_removes_unicode_white_space_at_both_ends() {
    assert_eq!(trim(""), "");
    assert_eq!(trim(" \t\n "), "");
    assert_eq!(trim("\u{2003}a b\u{85}"), "a b");
    assert_eq!(trim("x"), "x");
}

#[test]
fn split_keeps_empty_pieces() {
    assert_eq!(split("", ';'), vec![String::new()]);
    assert_eq!(split("a;;b;", ';'), vec!["a", "", "b", ""]);
    assert_eq!(split("Nü;Döe", ';'), vec!["Nü", "Döe"]);
}

#[test]
fn find_gives_the_first_occurrence_from_a_position() {
    let s = chars_of("otal Total CHF");
    let pat = chars_of("otal");
    assert_eq!(find(&s, &pat, 0), Some(0));
    assert_eq!(find(&s, &pat, 1), Some(6));
    assert_eq!(find(&s, &pat, 7), None);
    assert_eq!(find(&s, &chars_of("CHF"), 14), None);
    assert_eq!(find(&s, &chars_of("CHF"), 11), Some(11));
}

#[test]
fn apostrophes_are_removed() {
    assert_eq!(remove_apostrophes("9'999'999.00"), "9999999.00");
    assert_eq!(remove_apostrophes("''"), "");
    assert_eq!(remove_apostrophes("999.00"), "999.00");
}
