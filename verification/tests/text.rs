use via_voice::text::{bounded_code_points, bounded_utf16, clean, code_point_len, trim, utf16_len};

#[test]
fn clean_collapses_runs_and_trims_both_ends() {
    assert_eq!(clean("  a \n\t b  "), "a b");
    assert_eq!(clean(""), "");
    assert_eq!(clean("   "), "");
    // A BOM is `\s` to JavaScript but not `White_Space` to Unicode.
    assert_eq!(clean("a\u{feff}b"), "a b");
}

#[test]
fn the_two_bounds_disagree_exactly_where_they_should() {
    // U+1F600 is one code point and two UTF-16 units.
    let emoji = "😀😀😀";
    assert_eq!(bounded_code_points(emoji, 2), "😀😀");
    assert_eq!(bounded_utf16(emoji, 2), "😀");
    assert_eq!(code_point_len(emoji), 3);
    assert_eq!(utf16_len(emoji), 6);
}

#[test]
fn a_utf16_bound_never_splits_a_surrogate_pair() {
    assert_eq!(bounded_utf16("a😀", 2), "a");
    assert_eq!(bounded_utf16("a😀", 3), "a😀");
}

#[test]
fn trimming_twice_is_trimming_once() {
    let once = trim("\u{3000} a b \n");
    assert_eq!(once, "a b");
    assert_eq!(trim(once), once);
}
