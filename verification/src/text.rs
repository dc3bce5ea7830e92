//! Character-level scanning primitives shared by every parser in the crate:
//! character classes, maximal runs, substring search, trimming, number
//! parsing, and lexicographic ordering of character sequences.

use vstd::prelude::*;
use vstd::string::*;

verus! {

/// Whitespace as diagnostic reports use it: space, tab, and the ASCII
/// line/page break controls.
pub open spec fn is_ws(c: char) -> bool {
    c == ' ' || c == '\t' || c == '\n' || c == '\r' || c == '\u{b}' || c == '\u{c}'
}

pub open spec fn is_digit(c: char) -> bool {
    '0' <= c && c <= '9'
}

/// Lower-case hexadecimal digit, the only spelling the attribute-table flag
/// column uses.
pub open spec fn is_hex_lower(c: char) -> bool {
    is_digit(c) || ('a' <= c && c <= 'f')
}

pub open spec fn digit_val(c: char) -> nat
    recommends
        is_digit(c),
{
    (c as int - '0' as int) as nat
}

/// Numeric value of a sequence of decimal digits, most significant first.
pub open spec fn seq_value(s: Seq<char>) -> nat
    decreases s.len(),
{
    if s.len() == 0 {
        0
    } else {
        seq_value(s.drop_last()) * 10 + digit_val(s.last())
    }
}

/// The sequence with every comma removed; reports write large counters in
/// digit groups such as `1,953,504`.
pub open spec fn strip_commas(s: Seq<char>) -> Seq<char>
    decreases s.len(),
{
    if s.len() == 0 {
        Seq::empty()
    } else if s.last() == ',' {
        strip_commas(s.drop_last())
    } else {
        strip_commas(s.drop_last()).push(s.last())
    }
}

/// The pattern `p` occurs in `t` starting at index `i`.
pub open spec fn match_at(t: Seq<char>, p: Seq<char>, i: int) -> bool {
    0 <= i && i + p.len() <= t.len() && t.subrange(i, i + p.len()) == p
}

/// Index of the first occurrence of `p` in `t` at or after `i`, if any.
pub open spec fn find_from(t: Seq<char>, p: Seq<char>, i: int) -> Option<int>
    recommends
        0 <= i <= t.len(),
    decreases t.len() - i + 1
        when 0 <= i <= t.len()
{
    if i + p.len() > t.len() {
        None
    } else if match_at(t, p, i) {
        Some(i)
    } else {
        find_from(t, p, i + 1)
    }
}

/// `p` occurs somewhere in `t`.
pub open spec fn contains_seq(t: Seq<char>, p: Seq<char>) -> bool {
    exists|i: int| match_at(t, p, i)
}

/// What `find_from` returns: the least match position at or after `i`, or
/// `None` exactly when no position at or after `i` matches.
pub proof fn lemma_find_from_spec(t: Seq<char>, p: Seq<char>, i: int)
    requires
        0 <= i <= t.len(),
    ensures
        match find_from(t, p, i) {
            Some(j) => i <= j && match_at(t, p, j) && forall|x: int|
                i <= x < j ==> !match_at(t, p, x),
            None => forall|x: int| x >= i ==> !match_at(t, p, x),
        },
    decreases t.len() - i + 1,
{
    if p.len() == 0 {
        assert(t.subrange(i, i) =~= p);
        assert(match_at(t, p, i));
    } else if i + p.len() > t.len() {
        assert forall|x: int| x >= i implies !match_at(t, p, x) by {
            assert(x + p.len() > t.len());
        }
    } else if match_at(t, p, i) {
    } else {
        lemma_find_from_spec(t, p, i + 1);
    }
}

/// The character classes the scanners below recognize.
#[derive(Clone, Copy, Debug, PartialEq, Eq, Structural)]
pub enum CharClass {
    Ws,
    Digit,
    DigitOrComma,
    HexLower,
    NonWs,
    NotNewline,
}

pub open spec fn in_class(k: CharClass, c: char) -> bool {
    match k {
        CharClass::Ws => is_ws(c),
        CharClass::Digit => is_digit(c),
        CharClass::DigitOrComma => is_digit(c) || c == ',',
        CharClass::HexLower => is_hex_lower(c),
        CharClass::NonWs => !is_ws(c),
        CharClass::NotNewline => c != '\n',
    }
}

/// End of the maximal run of class-`k` characters that starts at `i` and is
/// confined to `[i, e)`.
pub open spec fn class_end(t: Seq<char>, i: int, e: int, k: CharClass) -> int
    recommends
        0 <= i <= e <= t.len(),
    decreases e - i
        when 0 <= i <= e <= t.len()
{
    if i >= e || !in_class(k, t[i]) {
        i
    } else {
        class_end(t, i + 1, e, k)
    }
}

/// Everything strictly before the end of a run is in the run's class, and
/// the run stops either at `e` or at the first character outside the class.
pub proof fn lemma_class_end_chars(t: Seq<char>, i: int, e: int, k: CharClass)
    requires
        0 <= i <= e <= t.len(),
    ensures
        i <= class_end(t, i, e, k) <= e,
        forall|m: int| i <= m < class_end(t, i, e, k) ==> in_class(k, t[m]),
        class_end(t, i, e, k) < e ==> !in_class(k, t[class_end(t, i, e, k)]),
    decreases e - i,
{
    if i < e && in_class(k, t[i]) {
        lemma_class_end_chars(t, i + 1, e, k);
    }
}

/// End of the line that position `i` lies on: the index of the next `'\n'`
/// at or after `i`, or the end of the text.
pub open spec fn line_end(t: Seq<char>, i: int) -> int
    recommends
        0 <= i <= t.len(),
{
    class_end(t, i, t.len() as int, CharClass::NotNewline)
}

/// Largest `e' <= e` such that `t[e' - 1]` is not whitespace, bounded below
/// by `i`: the right edge after trimming trailing whitespace.
pub open spec fn trim_end_idx(t: Seq<char>, i: int, e: int) -> int
    recommends
        0 <= i <= e <= t.len(),
    decreases e - i
        when 0 <= i <= e <= t.len()
{
    if e <= i || !is_ws(t[e - 1]) {
        e
    } else {
        trim_end_idx(t, i, e - 1)
    }
}

/// The characters of `s`, in order, as a vector.
pub fn chars_of(s: &str) -> (v: Vec<char>)
    ensures
        v@ == s@,
{
    let n = s.unicode_len();
    let mut v: Vec<char> = Vec::new();
    let mut i: usize = 0;
    while i < n
        invariant
            i <= n,
            n == s@.len(),
            v@ == s@.subrange(0, i as int),
        decreases n - i,
    {
        let c = s.get_char(i);
        v.push(c);
        i += 1;
        proof {
            assert(v@ =~= s@.subrange(0, i as int));
        }
    }
    proof {
        assert(v@ =~= s@);
    }
    v
}

fn char_in_class(k: CharClass, c: char) -> (r: bool)
    ensures
        r == in_class(k, c),
{
    match k {
        CharClass::Ws => c == ' ' || c == '\t' || c == '\n' || c == '\r' || c == '\u{b}'
            || c == '\u{c}',
        CharClass::Digit => '0' <= c && c <= '9',
        CharClass::DigitOrComma => ('0' <= c && c <= '9') || c == ',',
        CharClass::HexLower => ('0' <= c && c <= '9') || ('a' <= c && c <= 'f'),
        CharClass::NonWs => !(c == ' ' || c == '\t' || c == '\n' || c == '\r' || c == '\u{b}'
            || c == '\u{c}'),
        CharClass::NotNewline => c != '\n',
    }
}

/// Scan the maximal run of class-`k` characters in `[i, e)`.
pub fn scan_class(t: &Vec<char>, i: usize, e: usize, k: CharClass) -> (r: usize)
    requires
        i <= e <= t@.len(),
    ensures
        r == class_end(t@, i as int, e as int, k),
        i <= r <= e,
{
    let mut j: usize = i;
    while j < e && char_in_class(k, t[j])
        invariant
            i <= j <= e <= t@.len(),
            class_end(t@, i as int, e as int, k) == class_end(t@, j as int, e as int, k),
        decreases e - j,
    {
        j += 1;
    }
    j
}

/// End of the line containing `i`.
pub fn scan_line_end(t: &Vec<char>, i: usize) -> (r: usize)
    requires
        i <= t@.len(),
    ensures
        r == line_end(t@, i as int),
        i <= r <= t@.len(),
{
    scan_class(t, i, t.len(), CharClass::NotNewline)
}

/// Right edge of `[i, e)` after trimming trailing whitespace.
pub fn scan_trim_end(t: &Vec<char>, i: usize, e: usize) -> (r: usize)
    requires
        i <= e <= t@.len(),
    ensures
        r == trim_end_idx(t@, i as int, e as int),
        i <= r <= e,
{
    let mut j: usize = e;
    while j > i && char_in_class(CharClass::Ws, t[j - 1])
        invariant
            i <= j <= e <= t@.len(),
            trim_end_idx(t@, i as int, e as int) == trim_end_idx(t@, i as int, j as int),
        decreases j,
    {
        j -= 1;
    }
    j
}

/// Does `p` occur in `t` exactly at position `pos`?
pub fn has_at(t: &Vec<char>, p: &Vec<char>, pos: usize) -> (r: bool)
    requires
        pos <= t@.len(),
    ensures
        r == match_at(t@, p@, pos as int),
{
    let n = t.len();
    let m = p.len();
    if m > n - pos {
        return false;
    }
    let mut j: usize = 0;
    proof {
        assert(t@.subrange(pos as int, pos as int) =~= p@.subrange(0, 0));
    }
    while j < m
        invariant
            n == t@.len(),
            m == p@.len(),
            pos + m <= n,
            j <= m,
            t@.subrange(pos as int, pos + j as int) == p@.subrange(0, j as int),
        decreases m - j,
    {
        if t[pos + j] != p[j] {
            proof {
                assert(t@.subrange(pos as int, pos + p@.len())[j as int] == t@[pos + j]);
            }
            return false;
        }
        j += 1;
        proof {
            assert(t@.subrange(pos as int, pos + j as int) =~= p@.subrange(0, j as int));
        }
    }
    proof {
        assert(t@.subrange(pos as int, pos + p@.len()) =~= p@.subrange(0, p@.len() as int));
        assert(p@.subrange(0, p@.len() as int) =~= p@);
    }
    true
}

/// The text of `s[from..to]`, as an owned string.
pub fn substr(s: &str, from: usize, to: usize) -> (r: String)
    requires
        from <= to <= s@.len(),
    ensures
        r@ == s@.subrange(from as int, to as int),
{
    String::from_str(s.substring_char(from, to))
}

/// First occurrence of `p` in `t` at or after `from`.
pub fn find(t: &Vec<char>, p: &Vec<char>, from: usize) -> (r: Option<usize>)
    requires
        from <= t@.len(),
    ensures
        t@.len() <= usize::MAX,
        p@.len() <= usize::MAX,
        match r {
            Some(i) => find_from(t@, p@, from as int) == Some(i as int) && from <= i
                && i + p@.len() <= t@.len(),
            None => find_from(t@, p@, from as int) is None,
        },
{
    let n = t.len();
    let m = p.len();
    let mut i: usize = from;
    loop
        invariant
            n == t@.len(),
            m == p@.len(),
            from <= i <= t@.len(),
            find_from(t@, p@, from as int) == find_from(t@, p@, i as int),
        decreases t@.len() - i,
    {
        if m > n - i {
            return None;
        }
        let mut j: usize = 0;
        let mut ok: bool = true;
        while j < m
            invariant
                n == t@.len(),
                m == p@.len(),
                i + p@.len() <= t@.len(),
                j <= p@.len(),
                ok ==> t@.subrange(i as int, i + j as int) == p@.subrange(0, j as int),
                !ok ==> !match_at(t@, p@, i as int),
            decreases p@.len() - j,
        {
            if ok && t[i + j] != p[j] {
                proof {
                    assert(t@.subrange(i as int, i + p@.len())[j as int] == t@[i + j]);
                    assert(!match_at(t@, p@, i as int));
                }
                ok = false;
            }
            j += 1;
            proof {
                if ok {
                    assert(t@.subrange(i as int, i + j as int) =~= p@.subrange(0, j as int));
                }
            }
        }
        if ok {
            proof {
                assert(t@.subrange(i as int, i + p@.len()) =~= p@.subrange(0, p@.len() as int));
                assert(p@.subrange(0, p@.len() as int) =~= p@);
                assert(match_at(t@, p@, i as int));
            }
            return Some(i);
        }
        if i + m == n {
            proof {
                assert(find_from(t@, p@, i as int) == find_from(t@, p@, i + 1));
                assert(find_from(t@, p@, i + 1) is None);
            }
            return None;
        }
        i += 1;
    }
}

pub open spec fn all_digits(s: Seq<char>) -> bool {
    forall|i: int| 0 <= i < s.len() ==> is_digit(s[i])
}

/// Value of a digit-group token once its commas are removed, when that
/// value is representable; `None` for an empty group or one past `u64`.
pub open spec fn spec_parse_grouped(s: Seq<char>) -> Option<u64> {
    if strip_commas(s).len() > 0 && seq_value(strip_commas(s)) <= u64::MAX {
        Some(seq_value(strip_commas(s)) as u64)
    } else {
        None
    }
}

/// Stripping commas from an all-digit sequence changes nothing.
pub proof fn lemma_strip_commas_all_digits(s: Seq<char>)
    requires
        all_digits(s),
    ensures
        strip_commas(s) == s,
    decreases s.len(),
{
    if s.len() > 0 {
        lemma_strip_commas_all_digits(s.drop_last());
        assert(strip_commas(s) =~= s);
    } else {
        assert(strip_commas(s) =~= s);
    }
}

/// The value of a proper prefix never exceeds the value of the whole
/// digit-group sequence.
proof fn lemma_grouped_value_mono(s: Seq<char>, k: int)
    requires
        0 <= k <= s.len(),
    ensures
        seq_value(strip_commas(s.subrange(0, k))) <= seq_value(strip_commas(s)),
    decreases s.len(),
{
    if k == s.len() {
        assert(s.subrange(0, k) =~= s);
    } else {
        let d = s.drop_last();
        lemma_grouped_value_mono(d, k);
        assert(d.subrange(0, k) =~= s.subrange(0, k));
        if s.last() == ',' {
        } else {
            let v = seq_value(strip_commas(d));
            assert(strip_commas(s) == strip_commas(d).push(s.last()));
            assert(strip_commas(s).drop_last() =~= strip_commas(d));
            assert(seq_value(strip_commas(s)) == v * 10 + digit_val(s.last()));
            assert(v * 10 >= v) by (nonlinear_arith);
        }
    }
}

/// Parse the digit-group token in `t[from..to]` as an unsigned integer,
/// ignoring commas; `None` when no digit is present or the value does not
/// fit in a `u64` (the field is then treated as unparsable).
pub fn parse_grouped_u64(t: &Vec<char>, from: usize, to: usize) -> (r: Option<u64>)
    requires
        from <= to <= t@.len(),
        forall|i: int| from <= i < to ==> is_digit(t@[i]) || t@[i] == ',',
    ensures
        r == spec_parse_grouped(t@.subrange(from as int, to as int)),
{
    let ghost s = t@.subrange(from as int, to as int);
    let mut acc: u64 = 0;
    let mut saw_digit: bool = false;
    let mut j: usize = from;
    while j < to
        invariant
            from <= j <= to <= t@.len(),
            s == t@.subrange(from as int, to as int),
            forall|i: int| from <= i < to ==> is_digit(t@[i]) || t@[i] == ',',
            acc == seq_value(strip_commas(t@.subrange(from as int, j as int))),
            saw_digit == (strip_commas(t@.subrange(from as int, j as int)).len() > 0),
        decreases to - j,
    {
        let c = t[j];
        let ghost pre = t@.subrange(from as int, j as int);
        let ghost post = t@.subrange(from as int, j + 1);
        proof {
            assert(post.drop_last() =~= pre);
            assert(post.last() == c);
        }
        if c == ',' {
            proof {
                assert(strip_commas(post) == strip_commas(pre));
            }
        } else {
            let dv: u32 = (c as u32) - 48;
            proof {
                assert(is_digit(c));
                assert(strip_commas(post) == strip_commas(pre).push(c));
                assert(strip_commas(post).drop_last() =~= strip_commas(pre));
                assert(seq_value(strip_commas(post)) == seq_value(strip_commas(pre)) * 10
                    + digit_val(c));
            }
            let step = match acc.checked_mul(10) {
                Some(v) => v.checked_add(dv as u64),
                None => None,
            };
            match step {
                Some(v) => {
                    acc = v;
                    saw_digit = true;
                }
                None => {
                    proof {
                        assert(seq_value(strip_commas(post)) > u64::MAX);
                        lemma_grouped_value_mono(s, j + 1 - from);
                        assert(s.subrange(0, j + 1 - from) =~= post);
                        assert(seq_value(strip_commas(s)) > u64::MAX);
                    }
                    return None;
                }
            }
        }
        j += 1;
    }
    proof {
        assert(t@.subrange(from as int, to as int) =~= s);
    }
    if saw_digit {
        Some(acc)
    } else {
        None
    }
}

/// Lexicographic order on character sequences, by Unicode code point; this
/// is the order in which device paths are reported.
pub open spec fn lex_le(a: Seq<char>, b: Seq<char>) -> bool
    decreases a.len(),
{
    if a.len() == 0 {
        true
    } else if b.len() == 0 {
        false
    } else if a[0] != b[0] {
        a[0] < b[0]
    } else {
        lex_le(a.drop_first(), b.drop_first())
    }
}

/// `lex_le` is total: of two sequences, one is less than or equal to the
/// other.
pub proof fn lemma_lex_le_total(a: Seq<char>, b: Seq<char>)
    ensures
        lex_le(a, b) || lex_le(b, a),
    decreases a.len(),
{
    if a.len() == 0 {
    } else if b.len() == 0 {
    } else if a[0] != b[0] {
    } else {
        lemma_lex_le_total(a.drop_first(), b.drop_first());
    }
}

/// `lex_le` is transitive.
pub proof fn lemma_lex_le_trans(a: Seq<char>, b: Seq<char>, c: Seq<char>)
    requires
        lex_le(a, b),
        lex_le(b, c),
    ensures
        lex_le(a, c),
    decreases a.len(),
{
    if a.len() > 0 && b.len() > 0 && c.len() > 0 && a[0] == b[0] && b[0] == c[0] {
        lemma_lex_le_trans(a.drop_first(), b.drop_first(), c.drop_first());
    }
}

/// Decide `lex_le` on two character vectors.
pub fn lex_le_exec(a: &Vec<char>, b: &Vec<char>) -> (r: bool)
    ensures
        r == lex_le(a@, b@),
{
    let mut i: usize = 0;
    proof {
        assert(a@.skip(0) =~= a@);
        assert(b@.skip(0) =~= b@);
    }
    loop
        invariant
            i <= a@.len(),
            i <= b@.len(),
            lex_le(a@, b@) == lex_le(a@.skip(i as int), b@.skip(i as int)),
        decreases a@.len() - i,
    {
        if i == a.len() {
            return true;
        }
        if i == b.len() {
            return false;
        }
        let ca = a[i];
        let cb = b[i];
        proof {
            assert(a@.skip(i as int)[0] == a@[i as int]);
            assert(b@.skip(i as int)[0] == b@[i as int]);
        }
        if ca != cb {
            return ca < cb;
        }
        proof {
            assert(a@.skip(i as int).drop_first() =~= a@.skip(i + 1));
            assert(b@.skip(i as int).drop_first() =~= b@.skip(i + 1));
        }
        i += 1;
    }
}

} // verus!
