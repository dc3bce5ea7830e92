//! The SMART attribute table parser.  A diagnostic report lists attribute
//! rows as whitespace-separated columns: an integer id, a name token, a
//! `0x`-prefixed lower-case hex flag token, the current, worst and
//! threshold integer columns, three further opaque tokens, and a trailing
//! raw-value field.  Lines of any other shape are skipped; a malformed
//! table is never an error.

use crate::models::{AttributeStatus, SmartAttribute, SmartAttributeV};
use crate::text::{
    all_digits, chars_of, class_end, lemma_class_end_chars, lemma_strip_commas_all_digits,
    line_end, parse_grouped_u64, scan_class, scan_line_end, scan_trim_end, seq_value,
    strip_commas, substr, trim_end_idx, CharClass,
};
use vstd::prelude::*;

verus! {

/// Status of a row as a function of its current and threshold columns.
/// A zero threshold means "no threshold enforced" and is always `Good`.
pub open spec fn spec_status(current: u32, threshold: u32) -> AttributeStatus {
    if threshold > 0 && current <= threshold {
        AttributeStatus::Critical
    } else if threshold > 0 && current <= threshold + 10 {
        AttributeStatus::Warning
    } else {
        AttributeStatus::Good
    }
}

/// Classify one attribute row from its parsed current and threshold
/// values.
pub fn attribute_status(current: u32, threshold: u32) -> (r: AttributeStatus)
    ensures
        r == spec_status(current, threshold),
        threshold == 0 ==> r == AttributeStatus::Good,
        threshold > 0 && current <= threshold ==> r == AttributeStatus::Critical,
        threshold > 0 && threshold < current && current <= threshold + 10 ==> r
            == AttributeStatus::Warning,
        threshold > 0 && current > threshold + 10 ==> r == AttributeStatus::Good,
{
    if threshold > 0 && current <= threshold {
        AttributeStatus::Critical
    } else if threshold > 0 && (current as u64) <= (threshold as u64) + 10 {
        AttributeStatus::Warning
    } else {
        AttributeStatus::Good
    }
}

/// Value of an all-digit column, with an unrepresentable value read as 0:
/// a garbled column never blocks the row, it only weakens its status.
pub open spec fn spec_tok_u32(s: Seq<char>) -> u32 {
    if seq_value(s) <= u32::MAX {
        seq_value(s) as u32
    } else {
        0
    }
}

/// Parse the all-digit token in `t[from..to]` as a `u32`, reading 0 where
/// the value does not fit.
fn parse_u32_or_zero(t: &Vec<char>, from: usize, to: usize) -> (r: u32)
    requires
        from < to <= t@.len(),
        forall|i: int| from <= i < to ==> crate::text::is_digit(t@[i]),
    ensures
        r == spec_tok_u32(t@.subrange(from as int, to as int)),
{
    let ghost s = t@.subrange(from as int, to as int);
    proof {
        assert(all_digits(s));
        lemma_strip_commas_all_digits(s);
        assert(strip_commas(s).len() > 0);
    }
    match parse_grouped_u64(t, from, to) {
        Some(v) => {
            if v <= 0xffff_ffff {
                v as u32
            } else {
                0
            }
        }
        None => 0,
    }
}

/// The attribute row encoded by the line `t[i..e)`, if that line has the
/// row shape.  Each column is the exact text of the report; the raw-value
/// field is the rest of the line with surrounding whitespace trimmed.
pub open spec fn row_of_line(t: Seq<char>, i: int, e: int) -> Option<SmartAttributeV>
    recommends
        0 <= i <= e <= t.len(),
{
    let a = class_end(t, i, e, CharClass::Ws);
    let b = class_end(t, a, e, CharClass::Digit);
    let c = class_end(t, b, e, CharClass::Ws);
    let d = class_end(t, c, e, CharClass::NonWs);
    let f = class_end(t, d, e, CharClass::Ws);
    let g = class_end(t, f, e, CharClass::NonWs);
    let h = class_end(t, g, e, CharClass::Ws);
    let c1 = class_end(t, h, e, CharClass::Digit);
    let w0 = class_end(t, c1, e, CharClass::Ws);
    let w1 = class_end(t, w0, e, CharClass::Digit);
    let s0 = class_end(t, w1, e, CharClass::Ws);
    let s1 = class_end(t, s0, e, CharClass::Digit);
    let p0 = class_end(t, s1, e, CharClass::Ws);
    let p1 = class_end(t, p0, e, CharClass::NonWs);
    let q0 = class_end(t, p1, e, CharClass::Ws);
    let q1 = class_end(t, q0, e, CharClass::NonWs);
    let r0 = class_end(t, q1, e, CharClass::Ws);
    let r1 = class_end(t, r0, e, CharClass::NonWs);
    let v0 = class_end(t, r1, e, CharClass::Ws);
    if b > a && c > b && d > c && f > d && g >= f + 3 && t[f] == '0' && t[f + 1] == 'x'
        && class_end(t, f + 2, g, CharClass::HexLower) == g && h > g && c1 > h && w0 > c1
        && w1 > w0 && s0 > w1 && s1 > s0 && p0 > s1 && p1 > p0 && q0 > p1 && q1 > q0 && r0 > q1
        && r1 > r0 && v0 > r1 && e - r1 >= 2 {
        Some(
            (SmartAttributeV {
                id: t.subrange(a, b),
                name: t.subrange(c, d),
                current: t.subrange(h, c1),
                worst: t.subrange(w0, w1),
                threshold: t.subrange(s0, s1),
                raw_value: if v0 < e {
                    t.subrange(v0, trim_end_idx(t, v0, e))
                } else {
                    Seq::empty()
                },
                status: spec_status(
                    spec_tok_u32(t.subrange(h, c1)),
                    spec_tok_u32(t.subrange(s0, s1)),
                ),
            }),
        )
    } else {
        None
    }
}

/// Parse the line `t[i..e)` as an attribute row.
#[verifier::rlimit(40)]
fn parse_row(s: &str, t: &Vec<char>, i: usize, e: usize) -> (r: Option<SmartAttribute>)
    requires
        t@ == s@,
        i <= e <= t@.len(),
    ensures
        match r {
            Some(att) => row_of_line(t@, i as int, e as int) == Some(att@),
            None => row_of_line(t@, i as int, e as int) is None,
        },
{
    let a = scan_class(t, i, e, CharClass::Ws);
    let b = scan_class(t, a, e, CharClass::Digit);
    let c = scan_class(t, b, e, CharClass::Ws);
    let d = scan_class(t, c, e, CharClass::NonWs);
    let f = scan_class(t, d, e, CharClass::Ws);
    let g = scan_class(t, f, e, CharClass::NonWs);
    let h = scan_class(t, g, e, CharClass::Ws);
    let c1 = scan_class(t, h, e, CharClass::Digit);
    let w0 = scan_class(t, c1, e, CharClass::Ws);
    let w1 = scan_class(t, w0, e, CharClass::Digit);
    let s0 = scan_class(t, w1, e, CharClass::Ws);
    let s1 = scan_class(t, s0, e, CharClass::Digit);
    let p0 = scan_class(t, s1, e, CharClass::Ws);
    let p1 = scan_class(t, p0, e, CharClass::NonWs);
    let q0 = scan_class(t, p1, e, CharClass::Ws);
    let q1 = scan_class(t, q0, e, CharClass::NonWs);
    let r0 = scan_class(t, q1, e, CharClass::Ws);
    let r1 = scan_class(t, r0, e, CharClass::NonWs);
    let v0 = scan_class(t, r1, e, CharClass::Ws);
    if b > a && c > b && d > c && f > d && g - f >= 3 && t[f] == '0' && t[f + 1] == 'x'
        && scan_class(t, f + 2, g, CharClass::HexLower) == g && h > g && c1 > h && w0 > c1
        && w1 > w0 && s0 > w1 && s1 > s0 && p0 > s1 && p1 > p0 && q0 > p1 && q1 > q0 && r0 > q1
        && r1 > r0 && v0 > r1 && e - r1 >= 2 {
        proof {
            lemma_class_end_chars(t@, h as int, e as int, CharClass::Digit);
            lemma_class_end_chars(t@, s0 as int, e as int, CharClass::Digit);
        }
        let current_val = parse_u32_or_zero(t, h, c1);
        let threshold_val = parse_u32_or_zero(t, s0, s1);
        let status = attribute_status(current_val, threshold_val);
        let raw_value = if v0 < e {
            let v1 = scan_trim_end(t, v0, e);
            substr(s, v0, v1)
        } else {
            String::new()
        };
        Some(
            SmartAttribute {
                id: substr(s, a, b),
                name: substr(s, c, d),
                current: substr(s, h, c1),
                worst: substr(s, w0, w1),
                threshold: substr(s, s0, s1),
                raw_value,
                status,
            },
        )
    } else {
        None
    }
}

/// Every attribute row in `t`, reading line by line from position `i`, in
/// the order the lines appear.
pub open spec fn rows_from(t: Seq<char>, i: int) -> Seq<SmartAttributeV>
    recommends
        0 <= i <= t.len(),
    decreases t.len() - i
        when 0 <= i <= t.len()
        via rows_from_decreases
{
    if i >= t.len() {
        Seq::empty()
    } else {
        let e = line_end(t, i);
        let tail = if e < t.len() {
            rows_from(t, e + 1)
        } else {
            Seq::empty()
        };
        match row_of_line(t, i, e) {
            Some(r) => seq![r] + tail,
            None => tail,
        }
    }
}

#[via_fn]
proof fn rows_from_decreases(t: Seq<char>, i: int) {
    if 0 <= i && i < t.len() {
        lemma_class_end_chars(t, i, t.len() as int, CharClass::NotNewline);
    }
}

/// Parse the whole report's attribute table: scan every line, keep the
/// rows that have the table shape, in source order.
pub fn parse_smart_attributes(raw: &str) -> (r: Vec<SmartAttribute>)
    ensures
        r.deep_view() == rows_from(raw@, 0),
{
    let t = chars_of(raw);
    let mut out: Vec<SmartAttribute> = Vec::new();
    let mut i: usize = 0;
    proof {
        assert(out.deep_view() + rows_from(t@, 0) =~= rows_from(t@, 0));
    }
    while i < t.len()
        invariant
            t@ == raw@,
            i <= t@.len(),
            out.deep_view() + rows_from(t@, i as int) == rows_from(t@, 0),
        decreases t@.len() - i,
    {
        let e = scan_line_end(&t, i);
        let ghost before = out.deep_view();
        let ghost tail = if e < t@.len() {
            rows_from(t@, e + 1)
        } else {
            Seq::<SmartAttributeV>::empty()
        };
        match parse_row(raw, &t, i, e) {
            Some(att) => {
                let ghost attv = att@;
                out.push(att);
                proof {
                    assert(out.deep_view() =~= before.push(attv));
                    assert(rows_from(t@, i as int) =~= seq![attv] + tail);
                    assert(out.deep_view() + tail =~= before + rows_from(t@, i as int));
                }
            }
            None => {
                proof {
                    assert(rows_from(t@, i as int) == tail);
                }
            }
        }
        if e == t.len() {
            i = e;
        } else {
            i = e + 1;
        }
    }
    proof {
        assert(rows_from(t@, i as int) =~= Seq::<SmartAttributeV>::empty());
        assert(out.deep_view() + Seq::<SmartAttributeV>::empty() =~= out.deep_view());
    }
    out
}

} // verus!
