//! Character classes, decimal and hexadecimal formatting, and small
//! sequence helpers shared by the rest of the library.
use vstd::prelude::*;

verus! {

/// `String::push` appends one character: the string's characters gain `ch`
/// at the end, as std documents.
pub assume_specification[ String::push ](s: &mut String, ch: char)
    ensures
        final(s)@ == old(s)@.push(ch),
;

/// ASCII decimal digit `0`..`9`.
pub open spec fn is_digit(c: char) -> bool {
    '0' <= c <= '9'
}

/// Whether `c` is an ASCII decimal digit.
pub fn is_ascii_digit(c: char) -> (r: bool)
    ensures
        r == is_digit(c),
{
    '0' <= c && c <= '9'
}

/// The characters of `s`, in order.
pub fn chars_of(s: &str) -> (v: Vec<char>)
    ensures
        v@ == s@,
{
    let mut v: Vec<char> = Vec::new();
    for c in it: s.chars()
        invariant
            v@ == it.seq().take(it.index() as int),
    {
        v.push(c);
    }
    v
}


/// The lowercase hexadecimal digit for `d` (`0`..`9`, `a`..`f`).
pub open spec fn hex_digit(d: nat) -> char {
    if d < 10 {
        ((d + 48) as u8) as char
    } else {
        ((d + 87) as u8) as char
    }
}

/// The character for the decimal digit `d`.
pub open spec fn dec_digit(d: nat) -> char {
    ((d % 10 + 48) as u8) as char
}

/// Decimal notation of `n`, as Rust's `Display` for unsigned integers
/// writes it: no sign, no leading zeros, `"0"` for zero.
pub open spec fn decimal(n: nat) -> Seq<char>
    decreases n,
{
    if n < 10 {
        seq![dec_digit(n)]
    } else {
        decimal(n / 10).push(dec_digit(n % 10))
    }
}

/// The last `width` hexadecimal digits of `v`, lowercase, most significant
/// first, padded with zeros: what `{:0width$x}` writes for `v < 16^width`.
pub open spec fn hex_fixed(v: nat, width: nat) -> Seq<char>
    decreases width,
{
    if width == 0 {
        Seq::empty()
    } else {
        hex_fixed(v / 16, (width - 1) as nat).push(hex_digit(v % 16))
    }
}

/// Appends the decimal notation of `n` to `out`.
pub fn push_decimal(out: &mut String, n: u64)
    ensures
        final(out)@ == old(out)@ + decimal(n as nat),
    decreases n,
{
    if n >= 10 {
        push_decimal(out, n / 10);
    }
    let d = (n % 10) as u8;
    out.push((d + 48) as char);
    proof {
        assert(old(out)@ + decimal(n as nat) =~= if n >= 10 {
            (old(out)@ + decimal((n / 10) as nat)).push(dec_digit((n % 10) as nat))
        } else {
            old(out)@.push(dec_digit(n as nat))
        });
    }
}

/// The decimal notation of `n` as a new string.
pub fn decimal_string(n: u64) -> (s: String)
    ensures
        s@ == decimal(n as nat),
{
    let mut s = String::new();
    push_decimal(&mut s, n);
    assert(s@ =~= decimal(n as nat));
    s
}

/// Appends the `width` low hexadecimal digits of `v` (zero padded) to `out`.
pub fn push_hex_fixed(out: &mut String, v: u64, width: u32)
    ensures
        final(out)@ == old(out)@ + hex_fixed(v as nat, width as nat),
    decreases width,
{
    if width > 0 {
        push_hex_fixed(out, v / 16, width - 1);
        let d = (v % 16) as u8;
        if d < 10 {
            out.push((d + 48) as char);
        } else {
            out.push((d + 87) as char);
        }
        proof {
            assert(old(out)@ + hex_fixed(v as nat, width as nat) =~= (old(out)@ + hex_fixed(
                (v / 16) as nat,
                (width - 1) as nat,
            )).push(hex_digit((v % 16) as nat)));
        }
    } else {
        assert(old(out)@ + hex_fixed(v as nat, 0) =~= old(out)@);
    }
}


/// Unicode `White_Space`, the set that `char::is_whitespace` (and with it
/// `str::trim` and `str::split_whitespace`) tests for.
pub open spec fn is_whitespace(c: char) -> bool {
    ||| ('\t' <= c <= '\r')
    ||| c == ' '
    ||| c == '\u{85}'
    ||| c == '\u{a0}'
    ||| c == '\u{1680}'
    ||| ('\u{2000}' <= c <= '\u{200a}')
    ||| c == '\u{2028}'
    ||| c == '\u{2029}'
    ||| c == '\u{202f}'
    ||| c == '\u{205f}'
    ||| c == '\u{3000}'
}

/// ASCII hexadecimal digit, either case.
pub open spec fn is_hex(c: char) -> bool {
    ||| ('0' <= c <= '9')
    ||| ('a' <= c <= 'f')
    ||| ('A' <= c <= 'F')
}

/// A character that may stand in the path part of a link in page text:
/// anything but a quote, an apostrophe, ASCII whitespace or `>`.
pub open spec fn is_link_path_char(c: char) -> bool {
    !(c == '"' || c == '\'' || c == '>' || c == ' ' || ('\t' <= c <= '\r'))
}

/// The character classes that the scanners of this library step over.
pub enum CharClass {
    Whitespace,
    NonWhitespace,
    Digit,
    Hex,
    LinkPath,
    /// Any character but the one given.
    NotChar(char),
    /// Only the character given.
    IsChar(char),
}

/// Whether `c` belongs to `cls`.
pub open spec fn in_class(cls: CharClass, c: char) -> bool {
    match cls {
        CharClass::Whitespace => is_whitespace(c),
        CharClass::NonWhitespace => !is_whitespace(c),
        CharClass::Digit => is_digit(c),
        CharClass::Hex => is_hex(c),
        CharClass::LinkPath => is_link_path_char(c),
        CharClass::NotChar(x) => c != x,
        CharClass::IsChar(x) => c == x,
    }
}

/// Whether `c` belongs to `cls`.
pub fn class_contains(cls: &CharClass, c: char) -> (r: bool)
    ensures
        r == in_class(*cls, c),
{
    match cls {
        CharClass::Whitespace => char_is_whitespace(c),
        CharClass::NonWhitespace => !char_is_whitespace(c),
        CharClass::Digit => is_ascii_digit(c),
        CharClass::Hex => ('0' <= c && c <= '9') || ('a' <= c && c <= 'f') || ('A' <= c && c
            <= 'F'),
        CharClass::LinkPath => !(c == '"' || c == '\'' || c == '>' || c == ' ' || ('\t' <= c && c
            <= '\r')),
        CharClass::NotChar(x) => c != *x,
        CharClass::IsChar(x) => c == *x,
    }
}

/// Whether `c` is Unicode white space.
pub fn char_is_whitespace(c: char) -> (r: bool)
    ensures
        r == is_whitespace(c),
{
    ('\t' <= c && c <= '\r') || c == ' ' || c == '\u{85}' || c == '\u{a0}' || c == '\u{1680}' || (
    '\u{2000}' <= c && c <= '\u{200a}') || c == '\u{2028}' || c == '\u{2029}' || c == '\u{202f}'
        || c == '\u{205f}' || c == '\u{3000}'
}

/// The first index at or after `i` whose character is not in `cls`, or the
/// length of `s` when there is none.
pub open spec fn span(s: Seq<char>, i: int, cls: CharClass) -> int
    decreases s.len() - i,
{
    if i >= s.len() || i < 0 {
        if i < 0 { 0 } else { s.len() as int }
    } else if in_class(cls, s[i]) {
        span(s, i + 1, cls)
    } else {
        i
    }
}

/// Facts about `span`: it stays within bounds, every character it steps
/// over is in the class, and the one it stops at is not.
pub proof fn lemma_span(s: Seq<char>, i: int, cls: CharClass)
    requires
        0 <= i <= s.len(),
    ensures
        i <= span(s, i, cls) <= s.len(),
        forall|k: int| i <= k < span(s, i, cls) ==> in_class(cls, #[trigger] s[k]),
        span(s, i, cls) < s.len() ==> !in_class(cls, s[span(s, i, cls)]),
    decreases s.len() - i,
{
    if i < s.len() && in_class(cls, s[i]) {
        lemma_span(s, i + 1, cls);
    }
}

/// The first index at or after `i` whose character is not in `cls`.
pub fn scan_class(s: &[char], i: usize, cls: &CharClass) -> (r: usize)
    requires
        i <= s@.len(),
    ensures
        r == span(s@, i as int, *cls),
{
    let mut j = i;
    while j < s.len() && class_contains(cls, s[j])
        invariant
            i <= j <= s@.len(),
            span(s@, i as int, *cls) == span(s@, j as int, *cls),
        decreases s@.len() - j,
    {
        j = j + 1;
    }
    j
}

/// Whether `p` occurs in `s` starting at index `i`.
pub open spec fn occurs_at<A>(s: Seq<A>, i: int, p: Seq<A>) -> bool {
    0 <= i && i + p.len() <= s.len() && s.subrange(i, i + p.len()) == p
}

/// Whether `p` occurs in `s` starting at index `i`.
pub fn matches_at(s: &[char], i: usize, p: &[char]) -> (r: bool)
    ensures
        r == occurs_at(s@, i as int, p@),
{
    if i > s.len() || p.len() > s.len() - i {
        return false;
    }
    let mut k: usize = 0;
    while k < p.len()
        invariant
            i + p@.len() <= s@.len(),
            s@.len() == s.len(),
            k <= p@.len(),
            forall|m: int| 0 <= m < k ==> s@[i + m] == p@[m],
        decreases p@.len() - k,
    {
        if s[i + k] != p[k] {
            assert(s@.subrange(i as int, i + p@.len())[k as int] != p@[k as int]);
            return false;
        }
        k = k + 1;
    }
    assert(s@.subrange(i as int, i + p@.len()) =~= p@);
    true
}

/// The first index at or after `i` where `p` occurs in `s`.
pub open spec fn find_from<A>(s: Seq<A>, p: Seq<A>, i: int) -> Option<int>
    decreases s.len() + 1 - i,
{
    if i < 0 || i + p.len() > s.len() {
        None
    } else if occurs_at(s, i, p) {
        Some(i)
    } else {
        find_from(s, p, i + 1)
    }
}

/// What `find_from` gives: an occurrence, with none before it.
pub proof fn lemma_find_from<A>(s: Seq<A>, p: Seq<A>, i: int)
    requires
        0 <= i,
    ensures
        find_from(s, p, i) matches Some(k) ==> i <= k && occurs_at(s, k, p) && forall|m: int|
            i <= m < k ==> !occurs_at(s, m, p),
        find_from(s, p, i) is None ==> forall|m: int| i <= m ==> !occurs_at(s, m, p),
    decreases s.len() + 1 - i,
{
    if i + p.len() <= s.len() && !occurs_at(s, i, p) {
        lemma_find_from(s, p, i + 1);
    }
}

/// The first index at or after `i` where `p` occurs in `s`.
pub fn find_in(s: &[char], p: &[char], i: usize) -> (r: Option<usize>)
    ensures
        r matches Some(k) ==> find_from(s@, p@, i as int) == Some(k as int),
        r is None ==> find_from(s@, p@, i as int) is None,
{
    let mut j = i;
    while j <= s.len() && p.len() <= s.len() - j
        invariant
            i <= j,
            find_from(s@, p@, i as int) == find_from(s@, p@, j as int),
        decreases s@.len() + 1 - j,
    {
        if matches_at(s, j, p) {
            return Some(j);
        }
        if j == s.len() {
            assert(p@.len() > 0) by {
                if p@.len() == 0 {
                    assert(s@.subrange(j as int, j as int) =~= p@);
                }
            }
            return None;
        }
        j = j + 1;
    }
    None
}



/// Whether the characters of `p` occur in `s` starting at index `i`.
pub fn matches_str_at(s: &[char], i: usize, p: &str) -> (r: bool)
    ensures
        r == occurs_at(s@, i as int, p@),
{
    if i > s.len() {
        return false;
    }
    let mut k: usize = i;
    for c in it: p.chars()
        invariant
            i <= s@.len(),
            s@.len() == s.len(),
            k == i + it.index(),
            k <= s@.len(),
            it.seq() == p@,
            forall|m: int| 0 <= m < it.index() ==> s@[i + m] == it.seq()[m],
    {
        if k == s.len() || s[k] != c {
            proof {
                if occurs_at(s@, i as int, p@) {
                    assert(s@.subrange(i as int, i + p@.len())[k - i] == p@[k - i]);
                }
            }
            return false;
        }
        k = k + 1;
    }
    assert(s@.subrange(i as int, i + p@.len()) =~= p@);
    true
}

/// Appends `s[a..b]` to `out`.
pub fn push_chars(out: &mut String, s: &[char], a: usize, b: usize)
    requires
        a <= b <= s@.len(),
    ensures
        final(out)@ == old(out)@ + s@.subrange(a as int, b as int),
{
    let mut k = a;
    while k < b
        invariant
            a <= k <= b <= s@.len(),
            out@ == old(out)@ + s@.subrange(a as int, k as int),
        decreases b - k,
    {
        out.push(s[k]);
        assert(s@.subrange(a as int, k + 1) =~= s@.subrange(a as int, k as int).push(s@[k as int]));
        k = k + 1;
    }
}

/// The string made of `s[a..b]`.
pub fn string_of(s: &[char], a: usize, b: usize) -> (r: String)
    requires
        a <= b <= s@.len(),
    ensures
        r@ == s@.subrange(a as int, b as int),
{
    let mut r = String::new();
    push_chars(&mut r, s, a, b);
    assert(r@ =~= s@.subrange(a as int, b as int));
    r
}


/// Whether `p` occurs anywhere in `s`.
pub open spec fn contains(s: Seq<char>, p: Seq<char>) -> bool {
    exists|k: int| occurs_at(s, k, p)
}

/// Whether the characters of `p` occur anywhere in `s`.
pub fn text_contains(s: &[char], p: &str) -> (r: bool)
    ensures
        r == contains(s@, p@),
{
    let len = s.len();
    let mut k: usize = 0;
    while k < len
        invariant
            len == s@.len(),
            k <= len,
            forall|m: int| 0 <= m < k ==> !occurs_at(s@, m, p@),
        decreases len - k,
    {
        if matches_str_at(s, k, p) {
            return true;
        }
        k = k + 1;
    }
    if matches_str_at(s, len, p) {
        return true;
    }
    assert forall|m: int| !occurs_at(s@, m, p@) by {
        if m > len as int {
            assert(!(m + p@.len() <= s@.len()));
        }
    }
    false
}


/// Lowercase hexadecimal digit.
pub open spec fn is_lower_hex(c: char) -> bool {
    ('0' <= c <= '9') || ('a' <= c <= 'f')
}

/// `hex_fixed(v, w)` has `w` characters, each a lowercase hexadecimal
/// digit, and its first one is the digit of `v / 16^(w-1)`.
pub proof fn lemma_hex_fixed(v: nat, w: nat)
    ensures
        hex_fixed(v, w).len() == w,
        forall|k: int| 0 <= k < w ==> is_lower_hex(#[trigger] hex_fixed(v, w)[k]),
    decreases w,
{
    if w > 0 {
        lemma_hex_fixed(v / 16, (w - 1) as nat);
        let d = v % 16;
        assert(is_lower_hex(hex_digit(d)));
        let s = hex_fixed(v, w);
        assert forall|k: int| 0 <= k < w implies is_lower_hex(#[trigger] s[k]) by {
            if k < w - 1 {
                assert(s[k] == hex_fixed(v / 16, (w - 1) as nat)[k]);
            }
        }
    }
}


/// Going back from `j` (not below `lo`), the first index whose preceding
/// character is not in `cls`.
pub open spec fn rspan(s: Seq<char>, lo: int, j: int, cls: CharClass) -> int
    decreases j - lo,
{
    if j <= lo {
        lo
    } else if in_class(cls, s[j - 1]) {
        rspan(s, lo, j - 1, cls)
    } else {
        j
    }
}

/// Facts about `rspan`.
pub proof fn lemma_rspan(s: Seq<char>, lo: int, j: int, cls: CharClass)
    requires
        0 <= lo <= j <= s.len(),
    ensures
        lo <= rspan(s, lo, j, cls) <= j,
        forall|k: int| rspan(s, lo, j, cls) <= k < j ==> in_class(cls, #[trigger] s[k]),
        rspan(s, lo, j, cls) > lo ==> !in_class(cls, s[rspan(s, lo, j, cls) - 1]),
    decreases j - lo,
{
    if j > lo && in_class(cls, s[j - 1]) {
        lemma_rspan(s, lo, j - 1, cls);
    }
}

/// Going back from `j`, the first index (not below `lo`) whose preceding
/// character is not in `cls`.
pub fn rscan_class(s: &[char], lo: usize, j: usize, cls: &CharClass) -> (r: usize)
    requires
        lo <= j <= s@.len(),
    ensures
        r == rspan(s@, lo as int, j as int, *cls),
{
    let mut k = j;
    while k > lo && class_contains(cls, s[k - 1])
        invariant
            lo <= k <= j,
            j <= s@.len(),
            rspan(s@, lo as int, j as int, *cls) == rspan(s@, lo as int, k as int, *cls),
        decreases k,
    {
        k = k - 1;
    }
    k
}

/// The bounds of `s[a..b]` with white space removed at both ends, as
/// `str::trim` removes it.
pub open spec fn trim_bounds(s: Seq<char>, a: int, b: int) -> (int, int) {
    let x = span(s.subrange(0, b), a, CharClass::Whitespace);
    (x, rspan(s, x, b, CharClass::Whitespace))
}

/// `s` with white space removed at both ends.
pub open spec fn trim(s: Seq<char>) -> Seq<char> {
    let (x, y) = trim_bounds(s, 0, s.len() as int);
    s.subrange(x, y)
}

/// The bounds of `s[a..b]` trimmed of white space.
pub fn trim_range(s: &[char], a: usize, b: usize) -> (r: (usize, usize))
    requires
        a <= b <= s@.len(),
    ensures
        r.0 as int == trim_bounds(s@, a as int, b as int).0,
        r.1 as int == trim_bounds(s@, a as int, b as int).1,
        a <= r.0 <= r.1 <= b,
{
    let mut x = a;
    while x < b && char_is_whitespace(s[x])
        invariant
            a <= x <= b <= s@.len(),
            span(s@.subrange(0, b as int), a as int, CharClass::Whitespace) == span(
                s@.subrange(0, b as int),
                x as int,
                CharClass::Whitespace,
            ),
        decreases b - x,
    {
        x = x + 1;
    }
    proof {
        lemma_span(s@.subrange(0, b as int), a as int, CharClass::Whitespace);
    }
    let y = rscan_class(s, x, b, &CharClass::Whitespace);
    proof {
        lemma_rspan(s@, x as int, b as int, CharClass::Whitespace);
    }
    (x, y)
}

/// ASCII letters lowered, other characters kept.
pub open spec fn lower_ascii(c: char) -> char {
    if 'A' <= c <= 'Z' {
        ((c as u32) + 32) as char
    } else {
        c
    }
}

/// Whether `s` starts with `p` when ASCII letters of `s` are lowered. For a
/// `p` of lowercase ASCII letters other than `i` and `k`, dashes and colons
/// this is what `s.to_lowercase().starts_with(p)` tests.
pub open spec fn starts_with_ci(s: Seq<char>, p: Seq<char>) -> bool {
    p.len() <= s.len() && forall|k: int| 0 <= k < p.len() ==> lower_ascii(#[trigger] s[k]) == p[k]
}

/// Whether `s[a..b]` starts with `p` when ASCII letters are lowered.
pub fn starts_with_ci_at(s: &[char], a: usize, b: usize, p: &str) -> (r: bool)
    requires
        a <= b <= s@.len(),
    ensures
        r == starts_with_ci(s@.subrange(a as int, b as int), p@),
{
    let pv = chars_of(p);
    if pv.len() > b - a {
        return false;
    }
    let mut k: usize = 0;
    while k < pv.len()
        invariant
            pv@ == p@,
            a <= b <= s@.len(),
            pv@.len() <= b - a,
            k <= pv@.len(),
            forall|m: int| 0 <= m < k ==> lower_ascii(s@[a + m]) == pv@[m],
        decreases pv@.len() - k,
    {
        let c = s[a + k];
        let lc = if 'A' <= c && c <= 'Z' {
            ((c as u32) + 32) as u8 as char
        } else {
            c
        };
        proof {
            if 'A' <= c <= 'Z' {
                assert(((c as u32) + 32) as u8 as char == ((c as u32) + 32) as char);
            }
        }
        if lc != pv[k] {
            assert(s@.subrange(a as int, b as int)[k as int] == s@[a + k]);
            return false;
        }
        k = k + 1;
    }
    assert forall|m: int| 0 <= m < p@.len() implies lower_ascii(
        #[trigger] s@.subrange(a as int, b as int)[m],
    ) == p@[m] by {
        assert(s@.subrange(a as int, b as int)[m] == s@[a + m]);
    }
    true
}


/// The bounds of the lines of `s` from index `p` on, as `str::lines`
/// yields them: each line runs to the next `\n` (a `\r` just before it
/// dropped) or to the end, and there is no empty line after a final `\n`.
pub open spec fn lines_from(s: Seq<char>, p: int) -> Seq<(int, int)>
    decreases s.len() - p,
{
    if p < 0 || p >= s.len() {
        Seq::empty()
    } else {
        let k = span(s, p, CharClass::NotChar('\n'));
        if k >= s.len() {
            seq![(p, k)]
        } else {
            proof {
                lemma_span(s, p, CharClass::NotChar('\n'));
            }
            let e = if k > p && s[k - 1] == '\r' {
                k - 1
            } else {
                k
            };
            seq![(p, e)] + lines_from(s, k + 1)
        }
    }
}

/// The lines of `s`.
pub open spec fn lines(s: Seq<char>) -> Seq<Seq<char>> {
    lines_from(s, 0).map_values(|r: (int, int)| s.subrange(r.0, r.1))
}

/// The first line of `s`, or the empty text where `s` has no line.
pub open spec fn first_line(s: Seq<char>) -> Seq<char> {
    if lines(s).len() > 0 {
        lines(s)[0]
    } else {
        Seq::empty()
    }
}

/// The line of `s` starting at `p` (with `p` within `s`): its bounds and
/// where the next line starts.
pub fn line_at(s: &[char], p: usize) -> (r: (usize, usize, usize))
    requires
        p < s@.len(),
    ensures
        lines_from(s@, p as int).len() > 0,
        lines_from(s@, p as int)[0] == (r.0 as int, r.1 as int),
        lines_from(s@, p as int).drop_first() == lines_from(s@, r.2 as int),
        p == r.0 <= r.1 <= s@.len(),
        p < r.2 <= s@.len(),
{
    let k = scan_class(s, p, &CharClass::NotChar('\n'));
    proof {
        lemma_span(s@, p as int, CharClass::NotChar('\n'));
    }
    if k >= s.len() {
        assert(lines_from(s@, k as int) =~= Seq::<(int, int)>::empty());
        assert(lines_from(s@, p as int).drop_first() =~= lines_from(s@, k as int));
        (p, k, k)
    } else {
        let e = if k > p && s[k - 1] == '\r' {
            k - 1
        } else {
            k
        };
        assert(lines_from(s@, p as int).drop_first() =~= lines_from(s@, k + 1));
        (p, e, k + 1)
    }
}

/// The first line of `s`, as bounds.
pub fn first_line_range(s: &[char]) -> (r: (usize, usize))
    ensures
        s@.subrange(r.0 as int, r.1 as int) == first_line(s@),
        r.0 <= r.1 <= s@.len(),
{
    if s.len() == 0 {
        assert(lines(s@).len() == 0);
        assert(s@.subrange(0, 0) =~= Seq::<char>::empty());
        (0, 0)
    } else {
        let (a, b, _) = line_at(s, 0);
        (a, b)
    }
}

/// The white-space separated words of `s` from index `i` on, as
/// `str::split_whitespace` yields them, as bounds.
pub open spec fn words_from(s: Seq<char>, i: int) -> Seq<(int, int)>
    decreases s.len() - i,
{
    let a = span(s, i, CharClass::Whitespace);
    if i < 0 || i > s.len() || a >= s.len() {
        Seq::empty()
    } else {
        proof {
            lemma_span(s, i, CharClass::Whitespace);
            lemma_span(s, a, CharClass::NonWhitespace);
        }
        let b = span(s, a, CharClass::NonWhitespace);
        seq![(a, b)] + words_from(s, b)
    }
}

/// The white-space separated words of `s`.
pub open spec fn words(s: Seq<char>) -> Seq<Seq<char>> {
    words_from(s, 0).map_values(|r: (int, int)| s.subrange(r.0, r.1))
}

/// The next word of `s` at or after `i`, as bounds, if there is one.
pub fn next_word(s: &[char], i: usize) -> (r: Option<(usize, usize)>)
    requires
        i <= s@.len(),
    ensures
        r is None ==> words_from(s@, i as int).len() == 0,
        r matches Some(w) ==> {
            &&& words_from(s@, i as int).len() > 0
            &&& words_from(s@, i as int)[0] == (w.0 as int, w.1 as int)
            &&& words_from(s@, i as int).drop_first() == words_from(s@, w.1 as int)
            &&& i <= w.0 < w.1 <= s@.len()
        },
{
    let a = scan_class(s, i, &CharClass::Whitespace);
    proof {
        lemma_span(s@, i as int, CharClass::Whitespace);
    }
    if a >= s.len() {
        return None;
    }
    let b = scan_class(s, a, &CharClass::NonWhitespace);
    proof {
        lemma_span(s@, a as int, CharClass::NonWhitespace);
    }
    assert(words_from(s@, i as int).drop_first() =~= words_from(s@, b as int));
    Some((a, b))
}

/// Field `k` (from zero) of `s[i..]` split at `sep`, as `str::split` and
/// `nth` give it, as bounds.
pub open spec fn field_from(s: Seq<char>, sep: char, i: int, k: nat) -> Option<(int, int)>
    decreases s.len() - i,
{
    if i < 0 || i > s.len() {
        None
    } else {
        let e = span(s, i, CharClass::NotChar(sep));
        if k == 0 {
            Some((i, e))
        } else if e >= s.len() {
            None
        } else {
            proof {
                lemma_span(s, i, CharClass::NotChar(sep));
            }
            field_from(s, sep, e + 1, (k - 1) as nat)
        }
    }
}

/// Field `k` of `s` split at `sep`.
pub open spec fn field(s: Seq<char>, sep: char, k: nat) -> Option<Seq<char>> {
    match field_from(s, sep, 0, k) {
        Some(r) => Some(s.subrange(r.0, r.1)),
        None => None,
    }
}

/// Field `k` of `s[i..b]` split at `sep`, as bounds.
pub fn field_range(s: &[char], b: usize, sep: char, i: usize, k: usize) -> (r: Option<
    (usize, usize),
>)
    requires
        i <= b <= s@.len(),
    ensures
        r matches Some(x) ==> field_from(s@.subrange(0, b as int), sep, i as int, k as nat) == Some(
            (x.0 as int, x.1 as int),
        ) && i <= x.0 <= x.1 <= b,
        r is None ==> field_from(s@.subrange(0, b as int), sep, i as int, k as nat) is None,
    decreases b - i,
{
    let ghost t = s@.subrange(0, b as int);
    let mut e = i;
    while e < b && s[e] != sep
        invariant
            i <= e <= b <= s@.len(),
            t == s@.subrange(0, b as int),
            span(t, i as int, CharClass::NotChar(sep)) == span(t, e as int, CharClass::NotChar(sep)),
        decreases b - e,
    {
        e = e + 1;
    }
    proof {
        lemma_span(t, i as int, CharClass::NotChar(sep));
    }
    if k == 0 {
        Some((i, e))
    } else if e >= b {
        None
    } else {
        field_range(s, b, sep, e + 1, k - 1)
    }
}

/// Decimal digit characters' value, most significant first.
pub open spec fn digits_value(s: Seq<char>) -> nat
    decreases s.len(),
{
    if s.len() == 0 {
        0
    } else {
        digits_value(s.drop_last()) * 10 + ((s.last() as int - 48) as nat)
    }
}

/// Whether every character of `s` is a decimal digit.
pub open spec fn all_digits(s: Seq<char>) -> bool {
    forall|i: int| 0 <= i < s.len() ==> is_digit(#[trigger] s[i])
}

/// What `str::parse` gives for an unsigned integer type whose largest value
/// is `max`: an optional `+`, then one or more ASCII digits whose value is
/// at most `max`; anything else is an error (`None`).
pub open spec fn parse_unsigned(s: Seq<char>, max: nat) -> Option<nat> {
    let d = if s.len() > 0 && s[0] == '+' {
        s.drop_first()
    } else {
        s
    };
    if d.len() > 0 && all_digits(d) && digits_value(d) <= max {
        Some(digits_value(d))
    } else {
        None
    }
}

/// A longer run of digits is worth at least as much as its prefix.
proof fn lemma_digits_value_prefix(s: Seq<char>, k: int)
    requires
        0 <= k <= s.len(),
        all_digits(s),
    ensures
        digits_value(s.take(k)) <= digits_value(s),
    decreases s.len(),
{
    if k < s.len() {
        assert(s.drop_last().take(k) =~= s.take(k));
        lemma_digits_value_prefix(s.drop_last(), k);
    } else {
        assert(s.take(k) =~= s);
    }
}

/// Parses `s[a..b]` as an unsigned integer no greater than `max`.
pub fn parse_unsigned_range(s: &[char], a: usize, b: usize, max: u64) -> (r: Option<u64>)
    requires
        a <= b <= s@.len(),
    ensures
        r matches Some(v) ==> parse_unsigned(s@.subrange(a as int, b as int), max as nat) == Some(
            v as nat,
        ),
        r is None ==> parse_unsigned(s@.subrange(a as int, b as int), max as nat) is None,
{
    let ghost t = s@.subrange(a as int, b as int);
    let mut i = a;
    if i < b && s[i] == '+' {
        i = i + 1;
    }
    let ghost d = s@.subrange(i as int, b as int);
    assert(d =~= if t.len() > 0 && t[0] == '+' {
        t.drop_first()
    } else {
        t
    });
    if i == b {
        return None;
    }
    let start = i;
    let mut acc: u64 = 0;
    while i < b
        invariant
            a <= start <= i <= b <= s@.len(),
            d == s@.subrange(start as int, b as int),
            t == s@.subrange(a as int, b as int),
            d == (if t.len() > 0 && t[0] == '+' {
                t.drop_first()
            } else {
                t
            }),
            d.len() > 0,
            all_digits(d.take(i - start)),
            acc as nat == digits_value(d.take(i - start)),
            acc <= max,
        decreases b - i,
    {
        let c = s[i];
        assert(d.take(i + 1 - start).drop_last() =~= d.take(i - start));
        if !is_ascii_digit(c) {
            assert(!is_digit(d[i - start]));
            return None;
        }
        let dv = ((c as u32) - 48) as u64;
        if dv > max {
            proof {
                assert(digits_value(d.take(i + 1 - start)) == acc * 10 + dv);
                assert(all_digits(d.take(i + 1 - start)));
                if all_digits(d) {
                    lemma_digits_value_prefix(d, i + 1 - start);
                }
            }
            return None;
        }
        if acc > (max - dv) / 10 {
            proof {
                assert(all_digits(d.take(i + 1 - start)));
                assert(digits_value(d.take(i + 1 - start)) == acc * 10 + dv);
                assert(acc * 10 + dv > max) by (nonlinear_arith)
                    requires
                        acc > (max - dv) / 10,
                        dv <= 9,
                        dv <= max,
                ;
                if all_digits(d) {
                    lemma_digits_value_prefix(d, i + 1 - start);
                }
            }
            return None;
        }
        proof {
            assert(acc * 10 + dv <= max) by (nonlinear_arith)
                requires
                    acc <= (max - dv) / 10,
                    dv <= max,
            ;
            assert(all_digits(d.take(i + 1 - start)));
            assert(digits_value(d.take(i + 1 - start)) == acc * 10 + dv);
        }
        acc = acc * 10 + dv;
        i = i + 1;
    }
    assert(d.take(b - start) =~= d);
    Some(acc)
}


/// Whether `p` occurs in the bytes `s` starting at index `i`.
pub fn bytes_match_at(s: &[u8], i: usize, p: &[u8]) -> (r: bool)
    ensures
        r == occurs_at(s@, i as int, p@),
{
    let len = s.len();
    if i > len || p.len() > len - i {
        return false;
    }
    let mut k: usize = 0;
    while k < p.len()
        invariant
            i + p@.len() <= s@.len(),
            s@.len() == len,
            k <= p@.len(),
            forall|m: int| 0 <= m < k ==> s@[i + m] == p@[m],
        decreases p@.len() - k,
    {
        if s[i + k] != p[k] {
            assert(s@.subrange(i as int, i + p@.len())[k as int] != p@[k as int]);
            return false;
        }
        k = k + 1;
    }
    assert(s@.subrange(i as int, i + p@.len()) =~= p@);
    true
}

/// The first index at or after `i` where the bytes `p` occur in `s`.
pub fn bytes_find(s: &[u8], p: &[u8], i: usize) -> (r: Option<usize>)
    ensures
        r matches Some(k) ==> find_from(s@, p@, i as int) == Some(k as int),
        r is None ==> find_from(s@, p@, i as int) is None,
{
    let mut j = i;
    while j <= s.len() && p.len() <= s.len() - j
        invariant
            i <= j,
            find_from(s@, p@, i as int) == find_from(s@, p@, j as int),
        decreases s@.len() + 1 - j,
    {
        if bytes_match_at(s, j, p) {
            return Some(j);
        }
        if j == s.len() {
            assert(p@.len() > 0) by {
                if p@.len() == 0 {
                    assert(s@.subrange(j as int, j as int) =~= p@);
                }
            }
            return None;
        }
        j = j + 1;
    }
    None
}

/// Whether `s[a..b]` has exactly the characters of `p`.
pub fn range_equals(s: &[char], a: usize, b: usize, p: &str) -> (r: bool)
    requires
        a <= b <= s@.len(),
    ensures
        r == (s@.subrange(a as int, b as int) == p@),
{
    let pv = chars_of(p);
    if pv.len() != b - a {
        return false;
    }
    let r = matches_str_at(s, a, p);
    proof {
        if r {
            assert(s@.subrange(a as int, b as int) =~= p@);
        }
    }
    r
}


/// Whether `s` ends with `p`.
pub open spec fn ends_with(s: Seq<char>, p: Seq<char>) -> bool {
    p.len() <= s.len() && s.subrange(s.len() - p.len(), s.len() as int) == p
}

/// Whether `s` ends with the characters of `p` once the ASCII letters of
/// `s` are lowered.
pub open spec fn ends_with_ci(s: Seq<char>, p: Seq<char>) -> bool {
    p.len() <= s.len() && forall|k: int|
        0 <= k < p.len() ==> lower_ascii(#[trigger] s[s.len() - p.len() + k]) == p[k]
}

/// Whether `s` ends with `p` once the ASCII letters of `s` are lowered.
pub fn ends_with_ci_str(s: &[char], p: &str) -> (r: bool)
    ensures
        r == ends_with_ci(s@, p@),
{
    let pv = chars_of(p);
    if pv.len() > s.len() {
        return false;
    }
    let a = s.len() - pv.len();
    let r = starts_with_ci_at(s, a, s.len(), p);
    proof {
        let t = s@.subrange(a as int, s@.len() as int);
        if r {
            assert forall|k: int| 0 <= k < p@.len() implies lower_ascii(
                #[trigger] s@[s@.len() - p@.len() + k],
            ) == p@[k] by {
                assert(t[k] == s@[a + k]);
            }
        } else {
            if ends_with_ci(s@, p@) {
                assert forall|k: int| 0 <= k < p@.len() implies lower_ascii(#[trigger] t[k])
                    == p@[k] by {
                    assert(t[k] == s@[s@.len() - p@.len() + k]);
                }
            }
        }
    }
    r
}

/// `s` without all its leading `c` characters, as `str::trim_start_matches`.
pub open spec fn trim_start_char(s: Seq<char>, c: char) -> Seq<char> {
    s.subrange(span(s, 0, CharClass::IsChar(c)), s.len() as int)
}

/// `s` without all its leading `c` characters.
pub fn trim_start_char_of(s: &[char], c: char) -> (r: &[char])
    ensures
        r@ == trim_start_char(s@, c),
{
    let k = scan_class(s, 0, &CharClass::IsChar(c));
    proof {
        lemma_span(s@, 0, CharClass::IsChar(c));
    }
    vstd::slice::slice_subrange(s, k, s.len())
}

/// Whether `s` is 64 ASCII hexadecimal digits, the form of a space hash.
pub open spec fn is_hash(s: Seq<char>) -> bool {
    s.len() == 64 && forall|k: int| 0 <= k < 64 ==> is_hex(#[trigger] s[k])
}

/// Whether `s` is 64 ASCII hexadecimal digits.
pub fn is_hash_text(s: &[char]) -> (r: bool)
    ensures
        r == is_hash(s@),
{
    if s.len() != 64 {
        return false;
    }
    let k = scan_class(s, 0, &CharClass::Hex);
    proof {
        lemma_span(s@, 0, CharClass::Hex);
    }
    k == 64
}

/// The string made of `s`.
pub fn string_of_all(s: &[char]) -> (r: String)
    ensures
        r@ == s@,
{
    let r = string_of(s, 0, s.len());
    assert(s@.subrange(0, s@.len() as int) =~= s@);
    r
}


/// Decimal notation is a non-empty run of digits whose value is the number.
pub proof fn lemma_decimal_digits(n: nat)
    ensures
        decimal(n).len() > 0,
        all_digits(decimal(n)),
        digits_value(decimal(n)) == n,
    decreases n,
{
    if n >= 10 {
        lemma_decimal_digits(n / 10);
        let d = decimal(n);
        assert(d.drop_last() =~= decimal(n / 10));
        assert(d.last() == dec_digit(n % 10));
        assert((n % 10) % 10 == n % 10);
        assert(d.last() as int - 48 == n % 10);
        assert(digits_value(d) == digits_value(decimal(n / 10)) * 10 + (n % 10));
        assert(n == (n / 10) * 10 + n % 10) by (nonlinear_arith);
        assert forall|i: int| 0 <= i < d.len() implies is_digit(#[trigger] d[i]) by {
            if i < d.len() - 1 {
                assert(d[i] == decimal(n / 10)[i]);
            }
        }
    } else {
        let d = decimal(n);
        assert(d.drop_last() =~= Seq::<char>::empty());
        assert(d.last() == dec_digit(n));
        assert(d.last() as int - 48 == n);
        assert(digits_value(d.drop_last()) == 0);
        assert(digits_value(d) == n);
    }
}

/// Parsing the decimal notation of a number no greater than `max` gives
/// the number back.
pub proof fn lemma_parse_decimal(n: nat, max: nat)
    requires
        n <= max,
    ensures
        parse_unsigned(decimal(n), max) == Some(n),
{
    lemma_decimal_digits(n);
    let d = decimal(n);
    assert(is_digit(d[0]));
}

} // verus!
