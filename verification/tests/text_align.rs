use monzo_cli::{align, strip_styles, visible_len};

#[test]
fn align_pads_to_the_target_width() {
    let padded = align("abc", 5);
    assert_eq!(padded, "abc  ");
    assert_eq!(strip_styles(&padded).chars().count(), 5);
}

#[test]
fn align_never_truncates() {
    assert_eq!(align("abc", 2), "abc");
    assert_eq!(align("abc", 0), "abc");
    assert_eq!(align("abc", 3), "abc");
}

#[test]
fn align_measures_the_visible_width_only() {
    let styled = "\u{1b}[1m\u{1b}[36mabc\u{1b}[0m";
    assert_eq!(visible_len(styled), 3);
    let padded = align(styled, 5);
    let stripped = strip_styles(&padded);
    assert_eq!(stripped, "abc  ");
    assert_eq!(stripped.chars().count(), 5);
}

#[test]
fn aligned_visible_length_is_the_larger_of_width_and_content() {
    for s in ["", "x", "hello", "\u{1b}[35mstyled\u{1b}[0m words"] {
        for w in [0usize, 1, 4, 10, 40] {
            let vis = strip_styles(s).chars().count();
            let got = strip_styles(&align(s, w)).chars().count();
            assert_eq!(got, w.max(vis));
        }
    }
}

#[test]
fn strip_removes_style_sequences_and_keeps_text() {
    assert_eq!(strip_styles("plain"), "plain");
    assert_eq!(strip_styles(""), "");
    assert_eq!(strip_styles("\u{1b}[31mred\u{1b}[0m and \u{1b}[1mbold\u{1b}[0m"), "red and bold");
}

#[test]
fn strip_keeps_an_escape_that_nothing_terminates() {
    assert_eq!(strip_styles("tail\u{1b}["), "tail\u{1b}[");
}
