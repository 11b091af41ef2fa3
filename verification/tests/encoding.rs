use thermoprint::encoding::{center, encode_cp858, right_align, truncate, two_col};

#[test]
fn encode_french() {
    let encoded = encode_cp858("café");
    assert_eq!(encoded, vec![b'c', b'a', b'f', 0x82]);
}

#[test]
fn encode_euro() {
    let encoded = encode_cp858("10€");
    assert_eq!(encoded, vec![b'1', b'0', 0xD5]);
}

#[test]
fn truncate_short() {
    assert_eq!(truncate("hello", 10), "hello");
}

#[test]
fn truncate_long() {
    let t = truncate("hello world", 8);
    assert_eq!(t, "hello...");
    assert_eq!(t.chars().count(), 8);
}

#[test]
fn two_col_fills_width() {
    let row = two_col("TOTAL", "29500 FCFA", 48);
    assert_eq!(row.chars().count(), 48);
}

#[test]
fn two_col_never_zero_gap() {
    // combined length at the width: the gap collapses to exactly one space
    let row = two_col("aaaaaaaaaa", "bbbbbbbbbb", 20);
    assert_eq!(row, "aaaaaaaaaa bbbbbbbbbb");
    assert_eq!(row.chars().count(), 21);
}

#[test]
fn truncate_small_max_keeps_quirk() {
    // maxChars below 3: the cut saturates to zero and the ellipsis alone
    // may exceed the requested bound
    let t = truncate("abcdef", 2);
    assert_eq!(t, "...");
}

#[test]
fn center_pads_left_only() {
    assert_eq!(center("ab", 8), "   ab");
    // text at or over the width comes back unchanged
    assert_eq!(center("abcdefgh", 4), "abcdefgh");
}

#[test]
fn right_align_exact_width() {
    let r = right_align("abc", 10);
    assert_eq!(r, "       abc");
    assert_eq!(r.chars().count(), 10);
}
