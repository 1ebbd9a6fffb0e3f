//! Byte-string helpers: appending, comparison, prefix tests, decimal
//! conversion. All library text is kept as UTF-8 bytes; these are the
//! primitives the builders and parsers share.

use vstd::prelude::*;
use vstd::string::StringSliceAdditionalSpecFns;

verus! {

/// True when `p` is a prefix of `s`.
pub open spec fn spec_starts_with(s: Seq<u8>, p: Seq<u8>) -> bool {
    p.len() <= s.len() && s.subrange(0, p.len() as int) == p
}

/// The value of a sequence of ASCII decimal digits, most significant first.
pub open spec fn spec_dec_val(s: Seq<u8>) -> nat
    decreases s.len(),
{
    if s.len() == 0 {
        0
    } else {
        (spec_dec_val(s.drop_last()) * 10 + (s.last() - 48)) as nat
    }
}

/// True when every byte of `s` is an ASCII decimal digit.
pub open spec fn spec_all_digits(s: Seq<u8>) -> bool {
    forall|i: int| 0 <= i < s.len() ==> 48 <= #[trigger] s[i] <= 57
}

/// The decimal digits of `n`, most significant first.
pub open spec fn spec_u64_dec(n: nat) -> Seq<u8>
    decreases n,
{
    if n < 10 {
        seq![(48 + n) as u8]
    } else {
        spec_u64_dec(n / 10).push((48 + n % 10) as u8)
    }
}

/// Appends `s` to `out`.
pub fn push_bytes(out: &mut Vec<u8>, s: &[u8])
    ensures
        final(out)@ == old(out)@ + s@,
{
    let mut i: usize = 0;
    while i < s.len()
        invariant
            i <= s@.len(),
            out@ == old(out)@ + s@.subrange(0, i as int),
        decreases s@.len() - i,
    {
        out.push(s[i]);
        assert(s@.subrange(0, i + 1) == s@.subrange(0, i as int).push(s@[i as int]));
        i = i + 1;
    }
    assert(s@.subrange(0, s@.len() as int) == s@);
}

/// Appends the UTF-8 bytes of `s` to `out`.
pub fn push_str_bytes(out: &mut Vec<u8>, s: &str)
    ensures
        final(out)@ == old(out)@ + s.spec_bytes(),
{
    push_bytes(out, s.as_bytes());
}

/// Byte-for-byte equality of two slices.
pub fn bytes_eq(a: &[u8], b: &[u8]) -> (r: bool)
    ensures
        r == (a@ == b@),
{
    if a.len() != b.len() {
        assert(a@ != b@) by {
            assert(a@.len() != b@.len());
        }
        return false;
    }
    let mut i: usize = 0;
    while i < a.len()
        invariant
            i <= a@.len(),
            a@.len() == b@.len(),
            forall|j: int| 0 <= j < i ==> a@[j] == b@[j],
        decreases a@.len() - i,
    {
        if a[i] != b[i] {
            return false;
        }
        i = i + 1;
    }
    assert(a@ =~= b@);
    true
}

/// True when the UTF-8 bytes of `s` equal `b`.
pub fn str_bytes_eq(s: &str, b: &[u8]) -> (r: bool)
    ensures
        r == (s.spec_bytes() == b@),
{
    bytes_eq(s.as_bytes(), b)
}

/// True when `p` is a prefix of `s`.
pub fn bytes_starts_with(s: &[u8], p: &[u8]) -> (r: bool)
    ensures
        r == spec_starts_with(s@, p@),
{
    if p.len() > s.len() {
        return false;
    }
    let mut i: usize = 0;
    while i < p.len()
        invariant
            i <= p@.len(),
            p@.len() <= s@.len(),
            forall|j: int| 0 <= j < i ==> s@[j] == p@[j],
        decreases p@.len() - i,
    {
        if s[i] != p[i] {
            assert(s@.subrange(0, p@.len() as int)[i as int] != p@[i as int]);
            return false;
        }
        i = i + 1;
    }
    assert(s@.subrange(0, p@.len() as int) =~= p@);
    true
}

/// Copies the bytes of `s` from `a` (inclusive) to `b` (exclusive).
pub fn copy_range(s: &[u8], a: usize, b: usize) -> (r: Vec<u8>)
    requires
        a <= b <= s@.len(),
    ensures
        r@ == s@.subrange(a as int, b as int),
{
    let mut out: Vec<u8> = Vec::new();
    let mut i: usize = a;
    while i < b
        invariant
            a <= i <= b <= s@.len(),
            out@ == s@.subrange(a as int, i as int),
        decreases b - i,
    {
        out.push(s[i]);
        assert(s@.subrange(a as int, i + 1) == s@.subrange(a as int, i as int).push(
            s@[i as int],
        ));
        i = i + 1;
    }
    out
}

/// The UTF-8 bytes of `s` as an owned buffer.
pub fn bytes_of(s: &str) -> (r: Vec<u8>)
    ensures
        r@ == s.spec_bytes(),
{
    let b = s.as_bytes();
    copy_range(b, 0, b.len())
}

/// An owned copy of a byte string.
pub fn clone_bytes(v: &Vec<u8>) -> (r: Vec<u8>)
    ensures
        r@ == v@,
{
    let s = v.as_slice();
    copy_range(s, 0, s.len())
}

/// An owned copy of a list of byte strings.
pub fn clone_bytes_list(v: &Vec<Vec<u8>>) -> (r: Vec<Vec<u8>>)
    ensures
        r.deep_view() == v.deep_view(),
        r@.len() == v@.len(),
{
    let mut out: Vec<Vec<u8>> = Vec::new();
    let mut i: usize = 0;
    while i < v.len()
        invariant
            i <= v@.len(),
            out@.len() == i,
            forall|j: int| 0 <= j < i ==> #[trigger] out@[j]@ == v@[j]@,
        decreases v@.len() - i,
    {
        out.push(clone_bytes(&v[i]));
        i = i + 1;
    }
    proof {
        assert(out.deep_view() =~= v.deep_view());
    }
    out
}

proof fn lemma_dec_val_prefix_monotone(s: Seq<u8>, i: int, j: int)
    requires
        0 <= i <= j <= s.len(),
        spec_all_digits(s),
    ensures
        spec_dec_val(s.subrange(0, i)) <= spec_dec_val(s.subrange(0, j)),
    decreases j - i,
{
    if i < j {
        lemma_dec_val_prefix_monotone(s, i, j - 1);
        let a = s.subrange(0, j - 1);
        let b = s.subrange(0, j);
        assert(b.drop_last() == a);
        assert(spec_dec_val(b) == spec_dec_val(a) * 10 + (b.last() - 48));
    }
}

/// Parses an unsigned decimal integer. Returns the value exactly when the
/// input is a non-empty run of digits whose value fits in a `u64`.
pub fn parse_u64_dec(s: &[u8]) -> (r: Option<u64>)
    ensures
        match r {
            Some(v) => s@.len() > 0 && spec_all_digits(s@) && v == spec_dec_val(s@)
                && spec_dec_val(s@) <= u64::MAX,
            None => s@.len() == 0 || !spec_all_digits(s@) || spec_dec_val(s@) > u64::MAX,
        },
{
    if s.len() == 0 {
        return None;
    }
    let mut acc: u64 = 0;
    let mut i: usize = 0;
    while i < s.len()
        invariant
            i <= s@.len(),
            forall|j: int| 0 <= j < i ==> 48 <= #[trigger] s@[j] <= 57,
            acc == spec_dec_val(s@.subrange(0, i as int)),
        decreases s@.len() - i,
    {
        let c = s[i];
        if c < 48 || c > 57 {
            assert(!spec_all_digits(s@));
            return None;
        }
        let d = (c - 48) as u64;
        if acc > (u64::MAX - d) / 10 {
            // The prefix already exceeds the range, so the whole number does.
            proof {
                let pre = s@.subrange(0, i + 1);
                assert(pre.drop_last() == s@.subrange(0, i as int));
                assert(spec_dec_val(pre) == acc * 10 + d);
                if spec_all_digits(s@) {
                    lemma_dec_val_prefix_monotone(s@, i + 1, s@.len() as int);
                    assert(s@.subrange(0, s@.len() as int) == s@);
                }
            }
            return None;
        }
        proof {
            let pre = s@.subrange(0, i + 1);
            assert(pre.drop_last() == s@.subrange(0, i as int));
        }
        acc = acc * 10 + d;
        i = i + 1;
    }
    assert(s@.subrange(0, s@.len() as int) == s@);
    Some(acc)
}

/// ASCII whitespace, as field separators in tool output.
pub open spec fn spec_is_space(c: u8) -> bool {
    c == 32 || c == 9 || c == 13
}

/// First position at or after `i` holding a non-space byte.
pub open spec fn spec_skip_space(s: Seq<u8>, i: int) -> int
    decreases s.len() - i when 0 <= i <= s.len()
{
    if i < s.len() && spec_is_space(s[i]) {
        spec_skip_space(s, i + 1)
    } else {
        i
    }
}

/// First position at or after `i` holding a space byte, or the end.
pub open spec fn spec_skip_nonspace(s: Seq<u8>, i: int) -> int
    decreases s.len() - i when 0 <= i <= s.len()
{
    if i < s.len() && !spec_is_space(s[i]) {
        spec_skip_nonspace(s, i + 1)
    } else {
        i
    }
}

/// The whitespace-separated tokens of `s` from position `i` on.
pub open spec fn spec_tokens_from(s: Seq<u8>, i: int) -> Seq<Seq<u8>>
    decreases s.len() - i when 0 <= i <= s.len()
{
    let j = spec_skip_space(s, i);
    if !(i <= j && j <= s.len()) {
        Seq::empty()
    } else if j == s.len() {
        Seq::empty()
    } else {
        let k = spec_skip_nonspace(s, j);
        if !(j < k && k <= s.len()) {
            Seq::empty()
        } else {
            seq![s.subrange(j, k)] + spec_tokens_from(s, k)
        }
    }
}

/// The whitespace-separated tokens of `s`.
pub open spec fn spec_tokens(s: Seq<u8>) -> Seq<Seq<u8>> {
    spec_tokens_from(s, 0)
}

fn skip_space(s: &[u8], i: usize) -> (r: usize)
    requires
        i <= s@.len(),
    ensures
        i <= r <= s@.len(),
        r == spec_skip_space(s@, i as int),
        r == s@.len() || !spec_is_space(s@[r as int]),
{
    let mut j = i;
    loop
        invariant
            i <= j <= s@.len(),
            spec_skip_space(s@, i as int) == spec_skip_space(s@, j as int),
        decreases s@.len() - j,
    {
        if j == s.len() {
            return j;
        }
        let c = s[j];
        if c == 32 || c == 9 || c == 13 {
            j = j + 1;
        } else {
            return j;
        }
    }
}

fn skip_nonspace(s: &[u8], i: usize) -> (r: usize)
    requires
        i <= s@.len(),
    ensures
        i <= r <= s@.len(),
        r == spec_skip_nonspace(s@, i as int),
        r == s@.len() || spec_is_space(s@[r as int]),
{
    let mut j = i;
    loop
        invariant
            i <= j <= s@.len(),
            spec_skip_nonspace(s@, i as int) == spec_skip_nonspace(s@, j as int),
        decreases s@.len() - j,
    {
        if j == s.len() {
            return j;
        }
        let c = s[j];
        if !(c == 32 || c == 9 || c == 13) {
            j = j + 1;
        } else {
            return j;
        }
    }
}

/// Splits `s` into its whitespace-separated tokens.
pub fn split_tokens(s: &[u8]) -> (r: Vec<Vec<u8>>)
    ensures
        r.deep_view() == spec_tokens(s@),
{
    let mut out: Vec<Vec<u8>> = Vec::new();
    let mut i: usize = 0;
    loop
        invariant
            i <= s@.len(),
            spec_tokens(s@) == out.deep_view() + spec_tokens_from(s@, i as int),
        decreases s@.len() - i,
    {
        let j = skip_space(s, i);
        if j == s.len() {
            proof {
                assert(out.deep_view() + spec_tokens_from(s@, i as int) =~= out.deep_view());
            }
            return out;
        }
        let k = skip_nonspace(s, j);
        assert(j < k) by {
            assert(!spec_is_space(s@[j as int]));
        }
        let ghost before = out.deep_view();
        out.push(copy_range(s, j, k));
        proof {
            assert(out.deep_view() =~~= before + seq![s@.subrange(j as int, k as int)]);
            assert(before + spec_tokens_from(s@, i as int) =~= out.deep_view()
                + spec_tokens_from(s@, k as int));
        }
        i = k;
    }
}

/// The lines of `s` from position `i` on, split at line feeds; a final
/// line needs no terminator, and a terminated final line adds no empty
/// one.
pub open spec fn spec_lines_from(s: Seq<u8>, i: int) -> Seq<Seq<u8>>
    decreases s.len() - i when 0 <= i <= s.len()
{
    if i == s.len() {
        Seq::empty()
    } else {
        let j = spec_skip_nonnl(s, i);
        if !(i <= j && j <= s.len()) {
            Seq::empty()
        } else {
            seq![s.subrange(i, j)] + (if j == s.len() {
                Seq::empty()
            } else {
                spec_lines_from(s, j + 1)
            })
        }
    }
}

/// First position at or after `i` holding a line feed, or the end.
pub open spec fn spec_skip_nonnl(s: Seq<u8>, i: int) -> int
    decreases s.len() - i when 0 <= i <= s.len()
{
    if i < s.len() && s[i] != 10 {
        spec_skip_nonnl(s, i + 1)
    } else {
        i
    }
}

/// The lines of `s`.
pub open spec fn spec_lines(s: Seq<u8>) -> Seq<Seq<u8>> {
    spec_lines_from(s, 0)
}

fn skip_nonnl(s: &[u8], i: usize) -> (r: usize)
    requires
        i <= s@.len(),
    ensures
        i <= r <= s@.len(),
        r == spec_skip_nonnl(s@, i as int),
        r == s@.len() || s@[r as int] == 10,
{
    let mut j = i;
    loop
        invariant
            i <= j <= s@.len(),
            spec_skip_nonnl(s@, i as int) == spec_skip_nonnl(s@, j as int),
        decreases s@.len() - j,
    {
        if j == s.len() {
            return j;
        }
        if s[j] != 10 {
            j = j + 1;
        } else {
            return j;
        }
    }
}

/// Splits `s` into its lines.
pub fn split_lines(s: &[u8]) -> (r: Vec<Vec<u8>>)
    ensures
        r.deep_view() == spec_lines(s@),
{
    let mut out: Vec<Vec<u8>> = Vec::new();
    let mut i: usize = 0;
    loop
        invariant
            i <= s@.len(),
            spec_lines(s@) == out.deep_view() + spec_lines_from(s@, i as int),
        decreases s@.len() + 1 - i,
    {
        if i == s.len() {
            proof {
                assert(out.deep_view() + spec_lines_from(s@, i as int) =~= out.deep_view());
            }
            return out;
        }
        let j = skip_nonnl(s, i);
        let ghost before = out.deep_view();
        out.push(copy_range(s, i, j));
        proof {
            assert(out.deep_view() =~~= before + seq![s@.subrange(i as int, j as int)]);
        }
        if j == s.len() {
            proof {
                assert(before + spec_lines_from(s@, i as int) =~= out.deep_view());
            }
            i = j;
        } else {
            proof {
                assert(before + spec_lines_from(s@, i as int) =~= out.deep_view()
                    + spec_lines_from(s@, j + 1));
            }
            i = j + 1;
        }
    }
}

/// First position at or after `i` holding byte `b`, or the end.
pub open spec fn spec_skip_until(s: Seq<u8>, i: int, b: u8) -> int
    decreases s.len() - i when 0 <= i <= s.len()
{
    if i < s.len() && s[i] != b {
        spec_skip_until(s, i + 1, b)
    } else {
        i
    }
}

/// Finds the first occurrence of byte `b` at or after `i`.
pub fn find_byte(s: &[u8], i: usize, b: u8) -> (r: usize)
    requires
        i <= s@.len(),
    ensures
        i <= r <= s@.len(),
        r == spec_skip_until(s@, i as int, b),
        r == s@.len() || s@[r as int] == b,
{
    let mut j = i;
    loop
        invariant
            i <= j <= s@.len(),
            spec_skip_until(s@, i as int, b) == spec_skip_until(s@, j as int, b),
        decreases s@.len() - j,
    {
        if j == s.len() {
            return j;
        }
        if s[j] != b {
            j = j + 1;
        } else {
            return j;
        }
    }
}

/// The leading-space count of `s` and its trailing-space boundary.
pub open spec fn spec_trim_end_len(s: Seq<u8>) -> int
    decreases s.len(),
{
    if s.len() > 0 && spec_is_space(s.last()) {
        spec_trim_end_len(s.drop_last())
    } else {
        s.len() as int
    }
}

/// `s` without leading and trailing ASCII whitespace.
pub open spec fn spec_trim(s: Seq<u8>) -> Seq<u8> {
    let a = spec_skip_space(s, 0);
    let b = spec_trim_end_len(s);
    if 0 <= a <= b <= s.len() {
        s.subrange(a, b)
    } else {
        Seq::empty()
    }
}

/// Trims leading and trailing ASCII whitespace from `s`.
pub fn trim_bytes(s: &[u8]) -> (r: Vec<u8>)
    ensures
        r@ == spec_trim(s@),
{
    let a = skip_space(s, 0);
    let mut b = s.len();
    proof {
        assert(s@.subrange(0, s@.len() as int) =~= s@);
    }
    loop
        invariant
            0 <= b <= s@.len(),
            spec_trim_end_len(s@) == spec_trim_end_len(s@.subrange(0, b as int)),
        ensures
            0 <= b <= s@.len(),
            spec_trim_end_len(s@) == b,
        decreases b,
    {
        if b > 0 {
            let c = s[b - 1];
            if c == 32 || c == 9 || c == 13 {
                proof {
                    let cur = s@.subrange(0, b as int);
                    assert(cur.last() == s@[b - 1]);
                    assert(cur.drop_last() =~= s@.subrange(0, b - 1));
                }
                b = b - 1;
                continue ;
            }
        }
        proof {
            let cur = s@.subrange(0, b as int);
            if b > 0 {
                assert(cur.last() == s@[b - 1]);
            }
            assert(spec_trim_end_len(s@) == b);
        }
        break ;
    }
    if a <= b {
        copy_range(s, a, b)
    } else {
        Vec::new()
    }
}

/// For an ASCII literal the UTF-8 bytes go one for one with the
/// characters, so its byte length is its character count.
pub proof fn lemma_ascii_literal_len(s: &str)
    requires
        vstd::string::is_ascii(s),
    ensures
        s.spec_bytes().len() == s@.len(),
{
    vstd::string::is_ascii_spec_bytes(s);
}

/// True when `pat` occurs in `s` at position `i`.
pub open spec fn spec_occurs_at(s: Seq<u8>, pat: Seq<u8>, i: int) -> bool {
    0 <= i && i + pat.len() <= s.len() && s.subrange(i, i + pat.len()) == pat
}

/// True when `pat` occurs somewhere in `s`.
pub open spec fn spec_contains_sub(s: Seq<u8>, pat: Seq<u8>) -> bool {
    exists|i: int| spec_occurs_at(s, pat, i)
}

/// Finds the first occurrence of `pat` in `s`.
pub fn find_subslice(s: &[u8], pat: &[u8]) -> (r: Option<usize>)
    ensures
        match r {
            Some(i) => spec_occurs_at(s@, pat@, i as int) && forall|j: int|
                0 <= j < i ==> !spec_occurs_at(s@, pat@, j),
            None => forall|j: int| !spec_occurs_at(s@, pat@, j),
        },
{
    if pat.len() > s.len() {
        return None;
    }
    let last = s.len() - pat.len();
    let mut i: usize = 0;
    loop
        invariant
            pat@.len() <= s@.len(),
            s@.len() <= usize::MAX,
            last == s@.len() - pat@.len(),
            i <= last,
            forall|j: int| 0 <= j < i ==> !spec_occurs_at(s@, pat@, j),
        decreases last - i,
    {
        proof {
            assert(i + pat@.len() <= s@.len());
        }
        if bytes_eq(&s[i..i + pat.len()], pat) {
            return Some(i);
        }
        if i == last {
            return None;
        }
        i = i + 1;
    }
}

/// True when `pat` occurs somewhere in `s`.
pub fn contains_sub(s: &[u8], pat: &[u8]) -> (r: bool)
    ensures
        r == spec_contains_sub(s@, pat@),
{
    match find_subslice(s, pat) {
        Some(_) => true,
        None => false,
    }
}

/// Renders `n` in decimal, most significant digit first.
pub fn u64_to_dec(n: u64) -> (r: Vec<u8>)
    ensures
        r@ == spec_u64_dec(n as nat),
    decreases n,
{
    if n < 10 {
        let mut out: Vec<u8> = Vec::new();
        out.push((48 + n) as u8);
        assert(out@ =~= spec_u64_dec(n as nat));
        out
    } else {
        let mut out = u64_to_dec(n / 10);
        out.push((48 + n % 10) as u8);
        out
    }
}

/// Appends the decimal rendering of `n` to `out`.
pub fn push_u64_dec(out: &mut Vec<u8>, n: u64)
    ensures
        final(out)@ == old(out)@ + spec_u64_dec(n as nat),
{
    let digits = u64_to_dec(n);
    push_bytes(out, digits.as_slice());
}

} // verus!
