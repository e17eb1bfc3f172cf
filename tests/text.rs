use gpustat::text::{decimal, opt_repr, rjust, shorten_left, zero_padded};

#[test]
fn decimal_writes_digits() {
    assert_eq!(decimal(0), "0");
    assert_eq!(decimal(7), "7");
    assert_eq!(decimal(4096), "4096");
    assert_eq!(decimal(u64::MAX), "18446744073709551615");
}

#[test]
fn rjust_pads_on_the_left() {
    assert_eq!(rjust("72", 3), " 72");
    assert_eq!(rjust("??", 3), " ??");
    assert_eq!(rjust("1234", 3), "1234");
    assert_eq!(rjust("", 2), "  ");
}

#[test]
fn shorten_keeps_short_text() {
    assert_eq!(shorten_left("Tesla T4", 16, "\u{2026}"), "Tesla T4");
    assert_eq!(shorten_left("abcd", 4, "\u{2026}"), "abcd");
}

#[test]
fn shorten_keeps_the_right_end() {
    let r = shorten_left("NVIDIA GeForce RTX 3090", 10, "\u{2026}");
    assert_eq!(r, "\u{2026} RTX 3090");
    assert_eq!(r.chars().count(), 10);
}

#[test]
fn shorten_length_is_exactly_the_width() {
    let text = "0123456789abcdef";
    for w in 1..text.len() {
        assert_eq!(shorten_left(text, w, "\u{2026}").chars().count(), w);
    }
}

#[test]
fn shorten_to_zero_is_empty() {
    assert_eq!(shorten_left("abc", 0, "\u{2026}"), "");
    assert_eq!(shorten_left("", 0, "\u{2026}"), "");
}

#[test]
fn shorten_narrower_than_placeholder() {
    assert_eq!(shorten_left("abcdef", 1, "\u{2026}"), "\u{2026}");
    assert_eq!(shorten_left("abcdef", 2, "..."), "..");
}

#[test]
fn opt_repr_uses_placeholder() {
    assert_eq!(opt_repr(Some(85), "??"), "85");
    assert_eq!(opt_repr(None, "??"), "??");
}

#[test]
fn zero_padded_fills_with_zeros() {
    assert_eq!(zero_padded(7, 2), "07");
    assert_eq!(zero_padded(2024, 4), "2024");
    assert_eq!(zero_padded(123, 2), "123");
}
