//! Visible-width text handling.
//!
//! Labels may carry terminal style sequences of the shape `ESC [ ... m`.
//! Alignment must be computed on the visible text, with those sequences
//! stripped, so that styled and unstyled labels line up in one column.
//! The layout engine here works on visible widths; styling is applied
//! separately, so the alignment logic itself is fully verified.

use vstd::prelude::*;

verus! {

/// The escape character that opens a style sequence.
pub open spec fn esc() -> char {
    '\u{1b}'
}

/// Holds when a text contains no escape character at all.
pub open spec fn no_esc(s: Seq<char>) -> bool {
    forall|i: int| 0 <= i < s.len() ==> s[i] != esc()
}

/// The index of the first `m`, the byte that terminates a style
/// sequence, or a negative value when there is none.
pub open spec fn find_m(s: Seq<char>) -> int
    decreases s.len(),
{
    if s.len() == 0 {
        -1
    } else if s[0] == 'm' {
        0
    } else {
        let r = find_m(s.skip(1));
        if r < 0 {
            -1
        } else {
            r + 1
        }
    }
}

proof fn lemma_find_m(s: Seq<char>)
    ensures
        find_m(s) >= 0 ==> 0 <= find_m(s) < s.len() && s[find_m(s)] == 'm',
        find_m(s) < 0 ==> forall|i: int| 0 <= i < s.len() ==> s[i] != 'm',
    decreases s.len(),
{
    if s.len() > 0 && s[0] != 'm' {
        lemma_find_m(s.skip(1));
        if find_m(s.skip(1)) < 0 {
            assert forall|i: int| 0 <= i < s.len() implies s[i] != 'm' by {
                if i > 0 {
                    assert(s.skip(1)[i - 1] != 'm');
                }
            }
        }
    }
}

/// The visible text: every style sequence `ESC ... m` is removed, the
/// rest is kept. An escape that no `m` ever terminates is kept as
/// ordinary text.
pub open spec fn strip_styles_spec(s: Seq<char>) -> Seq<char>
    decreases s.len(),
    via strip_styles_spec_dec
{
    if s.len() == 0 {
        Seq::empty()
    } else if s[0] == esc() && find_m(s) >= 0 {
        strip_styles_spec(s.skip(find_m(s) + 1))
    } else {
        seq![s[0]] + strip_styles_spec(s.skip(1))
    }
}

#[via_fn]
proof fn strip_styles_spec_dec(s: Seq<char>) {
    if s.len() > 0 && s[0] == esc() && find_m(s) >= 0 {
        lemma_find_m(s);
    }
}

/// Padding of a given number of spaces.
pub open spec fn spec_spaces(n: nat) -> Seq<char>
    decreases n,
{
    if n == 0 {
        Seq::empty()
    } else {
        spec_spaces((n - 1) as nat).push(' ')
    }
}

/// `s` padded on the right up to `width`, where `vis` is taken as the
/// visible width of `s`; nothing is added once `vis` reaches `width`.
pub open spec fn spec_pad(s: Seq<char>, vis: int, width: int) -> Seq<char> {
    if vis >= width {
        s
    } else {
        s + spec_spaces((width - vis) as nat)
    }
}

/// What `align` returns: `s` padded with spaces until its visible
/// width reaches `width`; never truncated.
pub open spec fn spec_align(s: Seq<char>, width: int) -> Seq<char> {
    spec_pad(s, strip_styles_spec(s).len() as int, width)
}

proof fn lemma_spaces_len(n: nat)
    ensures
        spec_spaces(n).len() == n,
        forall|i: int| 0 <= i < n ==> spec_spaces(n)[i] == ' ',
    decreases n,
{
    if n > 0 {
        lemma_spaces_len((n - 1) as nat);
    }
}

/// Padding spaces carry no escape character.
pub proof fn lemma_spaces_no_esc(n: nat)
    ensures
        no_esc(spec_spaces(n)),
{
    lemma_spaces_len(n);
}

/// Stripping a text without escapes leaves it unchanged.
pub proof fn lemma_strip_no_esc(s: Seq<char>)
    requires
        no_esc(s),
    ensures
        strip_styles_spec(s) == s,
    decreases s.len(),
{
    if s.len() > 0 {
        assert(s[0] != esc());
        assert forall|i: int| 0 <= i < s.skip(1).len() implies s.skip(1)[i] != esc() by {
            assert(s.skip(1)[i] == s[i + 1]);
        }
        lemma_strip_no_esc(s.skip(1));
        assert(seq![s[0]] + s.skip(1) =~= s);
    }
}

/// Holds when every escape in `s` is terminated by a later `m` in `s`,
/// so that no style sequence can run past the end of `s`.
pub open spec fn styles_closed(s: Seq<char>) -> bool {
    forall|i: int|
        0 <= i < s.len() && #[trigger] s[i] == esc() ==> exists|j: int|
            i < j < s.len() && #[trigger] s[j] == 'm'
}

proof fn lemma_closed_skip(a: Seq<char>, n: int)
    requires
        styles_closed(a),
        0 <= n <= a.len(),
    ensures
        styles_closed(a.skip(n)),
{
    assert forall|i: int| 0 <= i < a.skip(n).len() && #[trigger] a.skip(n)[i] == esc()
        implies exists|k: int| i < k < a.skip(n).len() && #[trigger] a.skip(n)[k] == 'm' by {
        assert(a[i + n] == esc());
        let k0 = choose|k: int| i + n < k < a.len() && #[trigger] a[k] == 'm';
        assert(a.skip(n)[k0 - n] == 'm');
    }
}

proof fn lemma_find_m_append(a: Seq<char>, b: Seq<char>)
    requires
        find_m(a) >= 0,
    ensures
        find_m(a + b) == find_m(a),
    decreases a.len(),
{
    lemma_find_m(a);
    if a[0] != 'm' {
        lemma_find_m_append(a.skip(1), b);
        assert((a + b).skip(1) =~= a.skip(1) + b);
    }
}

proof fn lemma_find_m_none_append(a: Seq<char>, b: Seq<char>)
    requires
        find_m(a) < 0,
        forall|i: int| 0 <= i < b.len() ==> b[i] != 'm',
    ensures
        find_m(a + b) < 0,
    decreases a.len(),
{
    lemma_find_m(a);
    if a.len() == 0 {
        assert(a + b =~= b);
        lemma_find_m_no_m(b);
    } else {
        lemma_find_m(a.skip(1));
        lemma_find_m_none_append(a.skip(1), b);
        assert((a + b).skip(1) =~= a.skip(1) + b);
    }
}

proof fn lemma_find_m_no_m(s: Seq<char>)
    requires
        forall|i: int| 0 <= i < s.len() ==> s[i] != 'm',
    ensures
        find_m(s) < 0,
    decreases s.len(),
{
    if s.len() > 0 {
        assert forall|i: int| 0 <= i < s.skip(1).len() implies s.skip(1)[i] != 'm' by {
            assert(s.skip(1)[i] == s[i + 1]);
        }
        lemma_find_m_no_m(s.skip(1));
    }
}

/// Stripping distributes over concatenation when every style sequence
/// opened in `a` is also closed in `a`.
pub proof fn lemma_strip_append(a: Seq<char>, b: Seq<char>)
    requires
        styles_closed(a),
    ensures
        strip_styles_spec(a + b) == strip_styles_spec(a) + strip_styles_spec(b),
    decreases a.len(),
{
    if a.len() == 0 {
        assert(a + b =~= b);
        assert(strip_styles_spec(a) + strip_styles_spec(b) =~= strip_styles_spec(b));
    } else if a[0] == esc() {
        // closed: an `m` follows somewhere in `a`
        lemma_m_found(a);
        let j = find_m(a);
        lemma_find_m(a);
        lemma_find_m_append(a, b);
        assert((a + b).skip(j + 1) =~= a.skip(j + 1) + b);
        lemma_closed_skip(a, j + 1);
        lemma_strip_append(a.skip(j + 1), b);
    } else {
        assert((a + b).skip(1) =~= a.skip(1) + b);
        assert((a + b)[0] == a[0]);
        lemma_closed_skip(a, 1);
        lemma_strip_append(a.skip(1), b);
        assert(seq![(a + b)[0]] + (strip_styles_spec(a.skip(1)) + strip_styles_spec(b)) =~= (
        seq![a[0]] + strip_styles_spec(a.skip(1))) + strip_styles_spec(b));
    }
}

proof fn lemma_m_found(a: Seq<char>)
    requires
        a.len() > 0,
        a[0] == esc(),
        styles_closed(a),
    ensures
        find_m(a) >= 0,
{
    lemma_find_m(a);
    if find_m(a) < 0 {
        assert(a[0] == esc());
        let j = choose|j: int| 0 < j < a.len() && #[trigger] a[j] == 'm';
        assert(a[j] != 'm');
    }
}

/// A text whose visible form shows no escape character has all its
/// style sequences closed.
pub proof fn lemma_clean_strip_closed(a: Seq<char>)
    requires
        no_esc(strip_styles_spec(a)),
    ensures
        styles_closed(a),
    decreases a.len(),
{
    if a.len() > 0 {
        if a[0] == esc() && find_m(a) >= 0 {
            let j = find_m(a);
            lemma_find_m(a);
            lemma_clean_strip_closed(a.skip(j + 1));
            assert forall|i: int| 0 <= i < a.len() && #[trigger] a[i] == esc() implies exists|k: int|
                i < k < a.len() && #[trigger] a[k] == 'm' by {
                if i <= j {
                    assert(a[j] == 'm');
                    if i == j {
                        assert(false);
                    }
                } else {
                    let ii = i - j - 1;
                    assert(a.skip(j + 1)[ii] == esc());
                    let k0 = choose|k: int|
                        ii < k < a.skip(j + 1).len() && #[trigger] a.skip(j + 1)[k] == 'm';
                    assert(a[k0 + j + 1] == 'm');
                }
            }
        } else if a[0] == esc() {
            // the escape itself is kept, contradicting the clean visible form
            assert(strip_styles_spec(a)[0] == esc());
            assert(false);
        } else {
            assert forall|i: int| 0 <= i < strip_styles_spec(a.skip(1)).len() implies
                strip_styles_spec(a.skip(1))[i] != esc() by {
                assert(strip_styles_spec(a)[i + 1] == strip_styles_spec(a.skip(1))[i]);
            }
            lemma_clean_strip_closed(a.skip(1));
            assert forall|i: int| 0 <= i < a.len() && #[trigger] a[i] == esc() implies exists|k: int|
                i < k < a.len() && #[trigger] a[k] == 'm' by {
                assert(i > 0);
                assert(a.skip(1)[i - 1] == esc());
                let k0 = choose|k: int|
                    i - 1 < k < a.skip(1).len() && #[trigger] a.skip(1)[k] == 'm';
                assert(a[k0 + 1] == 'm');
            }
        }
    }
}

/// Finds the first `m` of a text, the terminator of its leading style
/// sequence.
fn find_first_m(s: &str) -> (r: Option<usize>)
    ensures
        match r {
            Some(j) => find_m(s@) == j as int,
            None => find_m(s@) < 0,
        },
{
    let n = s.unicode_len();
    let mut i: usize = 0;
    while i < n
        invariant
            0 <= i <= n,
            n == s@.len(),
            forall|k: int| 0 <= k < i ==> s@[k] != 'm',
        decreases n - i,
    {
        if s.get_char(i) == 'm' {
            proof {
                lemma_find_m_first(s@, i as int);
            }
            return Some(i);
        }
        i += 1;
    }
    proof {
        lemma_find_m_no_m(s@);
    }
    None
}

proof fn lemma_find_m_first(s: Seq<char>, j: int)
    requires
        0 <= j < s.len(),
        s[j] == 'm',
        forall|k: int| 0 <= k < j ==> s[k] != 'm',
    ensures
        find_m(s) == j,
    decreases j,
{
    if j > 0 {
        assert forall|k: int| 0 <= k < j - 1 implies s.skip(1)[k] != 'm' by {
            assert(s.skip(1)[k] == s[k + 1]);
        }
        assert(s.skip(1)[j - 1] == 'm');
        lemma_find_m_first(s.skip(1), j - 1);
    }
}

/// Removes every style sequence `ESC ... m`, keeping the rest.
pub fn strip_styles(s: &str) -> (r: String)
    ensures
        r@ == strip_styles_spec(s@),
    decreases s@.len(),
{
    let n = s.unicode_len();
    if n == 0 {
        return String::new();
    }
    let c0 = s.get_char(0);
    if c0 == '\u{1b}' {
        match find_first_m(s) {
            Some(j) => {
                proof {
                    lemma_find_m(s@);
                }
                let rest = s.substring_char(j + 1, n);
                proof {
                    assert(rest@ =~= s@.skip(j + 1));
                }
                return strip_styles(rest);
            },
            None => {},
        }
    }
    let head = s.substring_char(0, 1);
    let tail = s.substring_char(1, n);
    proof {
        assert(tail@ =~= s@.skip(1));
        assert(head@ =~= seq![s@[0]]);
    }
    let rest = strip_styles(tail);
    let mut out = head.to_owned();
    out.append(rest.as_str());
    out
}

/// The visible width of a text: its length once style sequences are
/// stripped.
pub fn visible_len(s: &str) -> (n: usize)
    ensures
        n == strip_styles_spec(s@).len(),
{
    let stripped = strip_styles(s);
    stripped.as_str().unicode_len()
}

/// A run of spaces of the given length.
pub fn spaces(n: usize) -> (r: String)
    ensures
        r@ == spec_spaces(n as nat),
{
    let mut out = String::new();
    let mut i: usize = 0;
    while i < n
        invariant
            0 <= i <= n,
            out@ == spec_spaces(i as nat),
        decreases n - i,
    {
        out.append(" ");
        i += 1;
        proof {
            reveal_strlit(" ");
            assert(out@ =~= spec_spaces(i as nat));
        }
    }
    out
}

/// Pads `content` with spaces until its visible width reaches `width`;
/// content whose visible width already meets `width` comes back
/// unchanged, never truncated.
pub fn align(content: &str, width: usize) -> (r: String)
    ensures
        r@ == spec_align(content@, width as int),
{
    let v = visible_len(content);
    let mut out = content.to_owned();
    if v < width {
        let pad = spaces(width - v);
        out.append(pad.as_str());
    }
    out
}

/// The visible width of an aligned text is the target width or the
/// visible width of the content, whichever is larger.
pub proof fn lemma_align_visible_len(s: Seq<char>, width: int)
    requires
        width >= 0,
    ensures
        strip_styles_spec(spec_align(s, width)).len() == if width >= strip_styles_spec(s).len() {
            width
        } else {
            strip_styles_spec(s).len() as int
        },
{
    let vis = strip_styles_spec(s).len() as int;
    if vis < width {
        let d = (width - vis) as nat;
        lemma_spaces_len(d);
        lemma_strip_pad(s, width);
    }
}

/// Stripping an aligned text pads the stripped content: alignment and
/// stripping commute.
pub proof fn lemma_strip_pad(s: Seq<char>, width: int)
    ensures
        strip_styles_spec(spec_align(s, width)) == spec_pad(
            strip_styles_spec(s),
            strip_styles_spec(s).len() as int,
            width,
        ),
{
    let vis = strip_styles_spec(s).len() as int;
    if vis < width {
        let d = (width - vis) as nat;
        lemma_spaces_len(d);
        lemma_strip_no_esc(spec_spaces(d));
        lemma_strip_append_plain(s, spec_spaces(d));
    }
}

proof fn lemma_strip_append_plain(s: Seq<char>, pad: Seq<char>)
    requires
        no_esc(pad),
        forall|i: int| 0 <= i < pad.len() ==> pad[i] != 'm',
    ensures
        strip_styles_spec(s + pad) == strip_styles_spec(s) + strip_styles_spec(pad),
    decreases s.len(),
{
    if s.len() == 0 {
        assert(s + pad =~= pad);
        assert(strip_styles_spec(s) + strip_styles_spec(pad) =~= strip_styles_spec(pad));
    } else if s[0] == esc() && find_m(s) >= 0 {
        let j = find_m(s);
        lemma_find_m(s);
        lemma_find_m_append(s, pad);
        assert((s + pad).skip(j + 1) =~= s.skip(j + 1) + pad);
        lemma_strip_append_plain(s.skip(j + 1), pad);
    } else if s[0] == esc() {
        lemma_find_m_none_append(s, pad);
        assert((s + pad).skip(1) =~= s.skip(1) + pad);
        lemma_find_m(s);
        assert forall|i: int| 0 <= i < s.skip(1).len() implies s.skip(1)[i] != 'm' by {
            assert(s.skip(1)[i] == s[i + 1]);
        }
        lemma_find_m_no_m(s.skip(1));
        lemma_strip_append_plain(s.skip(1), pad);
        assert(seq![(s + pad)[0]] + (strip_styles_spec(s.skip(1)) + strip_styles_spec(pad)) =~= (
        seq![s[0]] + strip_styles_spec(s.skip(1))) + strip_styles_spec(pad));
    } else {
        assert((s + pad).skip(1) =~= s.skip(1) + pad);
        lemma_strip_append_plain(s.skip(1), pad);
        assert(seq![(s + pad)[0]] + (strip_styles_spec(s.skip(1)) + strip_styles_spec(pad)) =~= (
        seq![s[0]] + strip_styles_spec(s.skip(1))) + strip_styles_spec(pad));
    }
}

} // verus!
