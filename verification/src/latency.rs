//! Reading a latency measurement out of ping output: the first line whose
//! `time=` value is a readable decimal yields the round-trip time in
//! milliseconds, rounded to the nearest whole one.

use vstd::prelude::*;
use vstd::string::StringSliceAdditionalSpecFns;
use crate::textutil::{
    find_subslice,
    parse_u64_dec,
    spec_all_digits,
    spec_dec_val,
    spec_lines,
    spec_occurs_at,
    spec_trim,
    split_lines,
    trim_bytes,
};

verus! {

/// The value of a decimal literal `D+`, `D+.D*` or `.D+`, rounded to the
/// nearest whole number, halves up; a value beyond the range clamps.
pub open spec fn spec_decimal_round(t: Seq<u8>) -> Option<u64> {
    let dot = crate::textutil::spec_skip_until(t, 0, 46);
    if !(0 <= dot <= t.len()) {
        None
    } else {
        let intpart = t.subrange(0, dot);
        let frac = if dot < t.len() {
            t.subrange(dot + 1, t.len() as int)
        } else {
            Seq::empty()
        };
        if !spec_all_digits(intpart) || !spec_all_digits(frac) {
            None
        } else if intpart.len() == 0 && frac.len() == 0 {
            None
        } else if dot == t.len() && intpart.len() == 0 {
            None
        } else {
            let base = spec_dec_val(intpart);
            let up: nat = if frac.len() > 0 && frac[0] >= 53 {
                1
            } else {
                0
            };
            if base + up > u64::MAX {
                Some(u64::MAX)
            } else {
                Some((base + up) as u64)
            }
        }
    }
}

/// The first position where `pat` occurs in `s`, or `dflt` when it never
/// does.
pub open spec fn first_occurrence_or(s: Seq<u8>, pat: Seq<u8>, dflt: int) -> int {
    if exists|i: int| spec_occurs_at(s, pat, i) {
        choose|i: int|
            spec_occurs_at(s, pat, i) && forall|j: int| 0 <= j < i ==> !spec_occurs_at(s, pat, j)
    } else {
        dflt
    }
}

/// A position that occurs first is the first occurrence.
pub proof fn lemma_first_occurrence(s: Seq<u8>, pat: Seq<u8>, dflt: int, i: int)
    requires
        spec_occurs_at(s, pat, i),
        forall|j: int| 0 <= j < i ==> !spec_occurs_at(s, pat, j),
    ensures
        first_occurrence_or(s, pat, dflt) == i,
{
    let w = choose|w: int|
        spec_occurs_at(s, pat, w) && forall|j: int| 0 <= j < w ==> !spec_occurs_at(s, pat, j);
    assert(spec_occurs_at(s, pat, i));
    if w < i {
        assert(!spec_occurs_at(s, pat, w));
    }
    if i < w {
        assert(!spec_occurs_at(s, pat, i));
    }
}

/// The millisecond reading of one ping output line: the decimal after
/// `time=`, up to `ms`, a space, or the end, surrounding space ignored.
pub open spec fn spec_ping_line_ms(line: Seq<u8>) -> Option<u64> {
    let i = first_occurrence_or(line, ("time=").spec_bytes(), -1);
    if i < 0 || i + 5 > line.len() {
        None
    } else {
        let part = line.subrange(i + 5, line.len() as int);
        let e1 = first_occurrence_or(part, ("ms").spec_bytes(), -1);
        let end = if e1 >= 0 {
            e1
        } else {
            crate::textutil::spec_skip_until(part, 0, 32)
        };
        if 0 <= end <= part.len() {
            spec_decimal_round(spec_trim(part.subrange(0, end)))
        } else {
            None
        }
    }
}

/// The measurement of a whole ping output: the first line that yields one.
pub open spec fn spec_ping_ms_from(rows: Seq<Seq<u8>>) -> Option<u64>
    decreases rows.len(),
{
    if rows.len() == 0 {
        None
    } else {
        match spec_ping_line_ms(rows[0]) {
            Some(v) => Some(v),
            None => spec_ping_ms_from(rows.drop_first()),
        }
    }
}

/// The measurement of a whole ping output text.
pub open spec fn spec_ping_ms(s: Seq<u8>) -> Option<u64> {
    spec_ping_ms_from(spec_lines(s))
}

/// Reads a decimal literal, rounded to the nearest whole number.
fn decimal_round(t: &[u8]) -> (r: Option<u64>)
    ensures
        r == spec_decimal_round(t@),
{
    let dot = crate::textutil::find_byte(t, 0, 46);
    let intpart = &t[0..dot];
    if dot == t.len() {
        match parse_u64_dec(intpart) {
            Some(v) => {
                proof {
                    assert(t@.subrange(0, dot as int) =~= intpart@);
                    assert(spec_dec_val(intpart@) + 0 <= u64::MAX);
                }
                Some(v)
            },
            None => {
                proof {
                    assert(t@.subrange(0, dot as int) =~= intpart@);
                }
                if intpart.len() > 0 && all_digits(intpart) {
                    // The digits overflow the range: clamp.
                    Some(u64::MAX)
                } else {
                    None
                }
            },
        }
    } else {
        let frac = &t[dot + 1..t.len()];
        if !all_digits(intpart) || !all_digits(frac) {
            return None;
        }
        if intpart.len() == 0 && frac.len() == 0 {
            return None;
        }
        let up: u64 = if frac.len() > 0 && frac[0] >= 53 {
            1
        } else {
            0
        };
        if intpart.len() == 0 {
            proof {
                assert(spec_dec_val(Seq::<u8>::empty()) == 0);
            }
            return Some(up);
        }
        match parse_u64_dec(intpart) {
            Some(v) => {
                if v > u64::MAX - up {
                    Some(u64::MAX)
                } else {
                    Some(v + up)
                }
            },
            None => Some(u64::MAX),
        }
    }
}

/// True when every byte is a decimal digit; an empty run counts.
fn all_digits(s: &[u8]) -> (r: bool)
    ensures
        r == spec_all_digits(s@),
{
    let mut i: usize = 0;
    while i < s.len()
        invariant
            i <= s@.len(),
            forall|j: int| 0 <= j < i ==> 48 <= #[trigger] s@[j] <= 57,
        decreases s@.len() - i,
    {
        let c = s[i];
        if c < 48 || c > 57 {
            return false;
        }
        i = i + 1;
    }
    true
}

/// Reads the millisecond value of one ping output line.
#[verifier::rlimit(100)]
#[verifier::spinoff_prover]
fn ping_line_ms(line: &[u8]) -> (r: Option<u64>)
    ensures
        r == spec_ping_line_ms(line@),
{
    proof {
        reveal_strlit("time=");
        assert(vstd::string::is_ascii("time="));
        crate::textutil::lemma_ascii_literal_len("time=");
        assert(("time=").spec_bytes().len() == 5);
    }
    match find_subslice(line, "time=".as_bytes()) {
        Some(i) => {
            proof {
                lemma_first_occurrence(line@, ("time=").spec_bytes(), -1, i as int);
            }
            let n = line.len();
            assert(i + 5 <= n);
            let part = &line[i + 5..n];
            let end = match find_subslice(part, "ms".as_bytes()) {
                Some(e) => {
                    proof {
                        lemma_first_occurrence(part@, ("ms").spec_bytes(), -1, e as int);
                    }
                    e
                },
                None => crate::textutil::find_byte(part, 0, 32),
            };
            let piece = trim_bytes(&part[0..end]);
            decimal_round(piece.as_slice())
        },
        None => None,
    }
}

/// Reads the latency a ping output reports, in whole milliseconds.
pub fn parse_ping_output(stdout: &[u8]) -> (r: Result<u64, crate::errors::Error>)
    ensures
        match spec_ping_ms(stdout@) {
            Some(v) => r matches Ok(x) && x == v,
            None => r matches Err(e) && e matches crate::errors::Error::ParseError(_),
        },
{
    let lines = split_lines(stdout);
    let ghost rows = lines.deep_view();
    let mut i: usize = 0;
    proof {
        assert(rows.subrange(0, rows.len() as int) =~= rows);
    }
    while i < lines.len()
        invariant
            i <= lines@.len(),
            rows == lines.deep_view(),
            rows == spec_lines(stdout@),
            rows.len() == lines@.len(),
            forall|k: int| 0 <= k < rows.len() ==> #[trigger] rows[k] == lines@[k]@,
            spec_ping_ms_from(rows) == spec_ping_ms_from(
                rows.subrange(i as int, rows.len() as int),
            ),
        decreases lines@.len() - i,
    {
        proof {
            let tail = rows.subrange(i as int, rows.len() as int);
            assert(tail[0] == rows[i as int]);
            assert(tail.drop_first() =~= rows.subrange(i + 1, rows.len() as int));
        }
        match ping_line_ms(lines[i].as_slice()) {
            Some(v) => {
                return Ok(v);
            },
            None => {},
        }
        i = i + 1;
    }
    proof {
        assert(rows.subrange(i as int, rows.len() as int) =~= Seq::<Seq<u8>>::empty());
    }
    Err(crate::errors::Error::ParseError(crate::textutil::bytes_of("Could not parse ping time")))
}

} // verus!
