//! Tunnel-only traffic measurement: which interfaces count as tunnels, how
//! the per-platform counter tables are read, and the tracker that turns raw
//! counters into speeds and session totals.

use vstd::prelude::*;
use vstd::string::StringSliceAdditionalSpecFns;
use crate::textutil::{
    bytes_eq,
    bytes_starts_with,
    copy_range,
    parse_u64_dec,
    spec_all_digits,
    spec_dec_val,
    spec_lines,
    spec_starts_with,
    spec_tokens,
    spec_trim,
    split_lines,
    split_tokens,
    trim_bytes,
};

verus! {

// ---------------------------------------------------------------------------
// The tunnel-interface predicate
// ---------------------------------------------------------------------------

/// The name with its trailing colons removed, as `/proc/net/dev` writes
/// interface names.
pub open spec fn spec_trim_colons_len(s: Seq<u8>) -> int
    decreases s.len(),
{
    if s.len() > 0 && s.last() == 58 {
        spec_trim_colons_len(s.drop_last())
    } else {
        s.len() as int
    }
}

/// True when `s` names a tunnel interface: prefix `tun`, `wg`, `utun`,
/// `ppp` or `candy`, or exactly `sing-box`, trailing colons ignored.
/// Only such interfaces carry tunnel traffic.
pub open spec fn spec_is_tunnel_name(s: Seq<u8>) -> bool {
    let n = s.subrange(0, spec_trim_colons_len(s));
    spec_starts_with(n, ("tun").spec_bytes()) || spec_starts_with(n, ("wg").spec_bytes())
        || spec_starts_with(n, ("utun").spec_bytes()) || spec_starts_with(
        n,
        ("ppp").spec_bytes(),
    ) || n == ("sing-box").spec_bytes() || spec_starts_with(n, ("candy").spec_bytes())
}

/// True when the byte string names a tunnel interface.
pub fn is_tunnel_name_bytes(s: &[u8]) -> (r: bool)
    ensures
        r == spec_is_tunnel_name(s@),
{
    let mut end = s.len();
    proof {
        assert(s@.subrange(0, s@.len() as int) =~= s@);
    }
    loop
        invariant
            0 <= end <= s@.len(),
            spec_trim_colons_len(s@) == spec_trim_colons_len(s@.subrange(0, end as int)),
        ensures
            0 <= end <= s@.len(),
            spec_trim_colons_len(s@) == end,
        decreases end,
    {
        if end > 0 && s[end - 1] == 58 {
            proof {
                let cur = s@.subrange(0, end as int);
                assert(cur.last() == s@[end - 1]);
                assert(cur.drop_last() =~= s@.subrange(0, end - 1));
            }
            end = end - 1;
        } else {
            proof {
                let cur = s@.subrange(0, end as int);
                if end > 0 {
                    assert(cur.last() == s@[end - 1]);
                }
                assert(spec_trim_colons_len(cur) == end);
            }
            break ;
        }
    }
    let n = &s[0..end];
    bytes_starts_with(n, "tun".as_bytes()) || bytes_starts_with(n, "wg".as_bytes())
        || bytes_starts_with(n, "utun".as_bytes()) || bytes_starts_with(n, "ppp".as_bytes())
        || bytes_eq(n, "sing-box".as_bytes()) || bytes_starts_with(n, "candy".as_bytes())
}

/// True when `name` names a tunnel interface, judged on its UTF-8 bytes.
pub fn is_vpn_interface(name: &str) -> (r: bool)
    ensures
        r == spec_is_tunnel_name(name.spec_bytes()),
{
    is_tunnel_name_bytes(name.as_bytes())
}

// ---------------------------------------------------------------------------
// Counter tables and the tunnel-only sum
// ---------------------------------------------------------------------------

/// One row of an interface counter table.
pub struct IfaceCounters {
    pub name: Vec<u8>,
    pub bytes_recv: u64,
    pub bytes_sent: u64,
}

/// The mathematical shape of a counter row.
pub ghost struct IfaceCountersV {
    pub name: Seq<u8>,
    pub bytes_recv: u64,
    pub bytes_sent: u64,
}

impl IfaceCounters {
    pub open spec fn view(&self) -> IfaceCountersV {
        IfaceCountersV {
            name: self.name@,
            bytes_recv: self.bytes_recv,
            bytes_sent: self.bytes_sent,
        }
    }
}

/// The views of a counter table.
pub open spec fn spec_view_table(t: Seq<IfaceCounters>) -> Seq<IfaceCountersV> {
    Seq::new(t.len(), |i: int| t[i].view())
}

/// `a + b`, clamped at the top of the range.
pub open spec fn spec_sat_add(a: u64, b: u64) -> u64 {
    if a + b > u64::MAX {
        u64::MAX
    } else {
        (a + b) as u64
    }
}

/// `a - b`, clamped at zero; counters may reset when an adapter goes away.
pub open spec fn spec_sat_sub(a: u64, b: u64) -> u64 {
    if a >= b {
        (a - b) as u64
    } else {
        0
    }
}

/// The clamped sums of received and sent bytes over all rows of `t`.
pub open spec fn spec_sum_counters(t: Seq<IfaceCountersV>) -> (u64, u64)
    decreases t.len(),
{
    if t.len() == 0 {
        (0u64, 0u64)
    } else {
        let rest = spec_sum_counters(t.drop_last());
        (spec_sat_add(rest.0, t.last().bytes_recv), spec_sat_add(rest.1, t.last().bytes_sent))
    }
}

/// Whether a row counts: only tunnel interfaces carry tunnel traffic.
pub open spec fn spec_row_counts(e: IfaceCountersV) -> bool {
    spec_is_tunnel_name(e.name)
}

/// The tunnel-only byte totals of a table: the sum over exactly the rows
/// whose interface is a tunnel; every other row contributes nothing. A
/// table without any tunnel row sums to zero, which the caller must keep
/// apart from a failed read.
pub open spec fn spec_tunnel_sum(t: Seq<IfaceCountersV>) -> (u64, u64)
    decreases t.len(),
{
    if t.len() == 0 {
        (0u64, 0u64)
    } else {
        let rest = spec_tunnel_sum(t.drop_last());
        if spec_row_counts(t.last()) {
            (
                spec_sat_add(rest.0, t.last().bytes_recv),
                spec_sat_add(rest.1, t.last().bytes_sent),
            )
        } else {
            rest
        }
    }
}

/// The tunnel-only totals are exactly the totals of the table restricted
/// to its tunnel rows: a row that is no tunnel contributes nothing.
pub proof fn lemma_tunnel_sum_is_filtered_sum(t: Seq<IfaceCountersV>)
    ensures
        spec_tunnel_sum(t) == spec_sum_counters(
            t.filter(|e: IfaceCountersV| spec_row_counts(e)),
        ),
    decreases t.len(),
{
    reveal(Seq::filter);
    let pred = |e: IfaceCountersV| spec_row_counts(e);
    if t.len() > 0 {
        lemma_tunnel_sum_is_filtered_sum(t.drop_last());
        if spec_row_counts(t.last()) {
            assert(t.filter(pred) == t.drop_last().filter(pred).push(t.last()));
            assert(t.filter(pred).drop_last() == t.drop_last().filter(pred));
            assert(t.filter(pred).last() == t.last());
        } else {
            assert(t.filter(pred) == t.drop_last().filter(pred));
        }
    }
}

fn sat_add(a: u64, b: u64) -> (r: u64)
    ensures
        r == spec_sat_add(a, b),
{
    if a > u64::MAX - b {
        u64::MAX
    } else {
        a + b
    }
}

/// Sums the byte counters of the tunnel rows of `t`.
pub fn read_tunnel_counters(t: &Vec<IfaceCounters>) -> (r: (u64, u64))
    ensures
        r == spec_tunnel_sum(spec_view_table(t@)),
{
    let ghost tv = spec_view_table(t@);
    let mut recv: u64 = 0;
    let mut sent: u64 = 0;
    let mut i: usize = 0;
    proof {
        assert(tv.subrange(0, 0) =~= Seq::<IfaceCountersV>::empty());
    }
    while i < t.len()
        invariant
            i <= t@.len(),
            tv == spec_view_table(t@),
            tv.len() == t@.len(),
            forall|k: int| 0 <= k < tv.len() ==> #[trigger] tv[k] == t@[k].view(),
            (recv, sent) == spec_tunnel_sum(tv.subrange(0, i as int)),
        decreases t@.len() - i,
    {
        if is_tunnel_name_bytes(t[i].name.as_slice()) {
            recv = sat_add(recv, t[i].bytes_recv);
            sent = sat_add(sent, t[i].bytes_sent);
        }
        proof {
            let pre = tv.subrange(0, i + 1);
            assert(pre.drop_last() == tv.subrange(0, i as int));
            assert(pre.last() == tv[i as int]);
        }
        i = i + 1;
    }
    proof {
        assert(tv.subrange(0, tv.len() as int) == tv);
    }
    (recv, sent)
}

// ---------------------------------------------------------------------------
// Reading the per-platform counter tables
// ---------------------------------------------------------------------------

/// The value of a token that is a plain decimal number fitting a `u64`.
pub open spec fn spec_u64_of(tok: Seq<u8>) -> Option<u64> {
    if tok.len() > 0 && spec_all_digits(tok) && spec_dec_val(tok) <= u64::MAX {
        Some(spec_dec_val(tok) as u64)
    } else {
        None
    }
}

/// One row of `/proc/net/dev`: `name: recv ... sent ...`, the received
/// bytes in the first field after the colon and the sent bytes in the
/// ninth.
pub open spec fn spec_dev_entry(line: Seq<u8>) -> Option<IfaceCountersV> {
    let t = spec_trim(line);
    let c = crate::textutil::spec_skip_until(t, 0, 58);
    if !(0 <= c < t.len()) {
        None
    } else {
        let toks = spec_tokens(t.subrange(c + 1, t.len() as int));
        if toks.len() >= 9 {
            match (spec_u64_of(toks[0]), spec_u64_of(toks[8])) {
                (Some(r), Some(s)) => Some(
                    IfaceCountersV {
                        name: spec_trim(t.subrange(0, c)),
                        bytes_recv: r,
                        bytes_sent: s,
                    },
                ),
                _ => None,
            }
        } else {
            None
        }
    }
}

/// Reads one row of `/proc/net/dev`.
pub fn parse_dev_line(line: &[u8]) -> (r: Option<IfaceCounters>)
    ensures
        match spec_dev_entry(line@) {
            Some(e) => r matches Some(q) && q.view() == e,
            None => r is None,
        },
{
    let t = trim_bytes(line);
    let ts = t.as_slice();
    let c = crate::textutil::find_byte(ts, 0, 58);
    if c == ts.len() {
        return None;
    }
    let name = trim_bytes(&ts[0..c]);
    let toks = split_tokens(&ts[c + 1..ts.len()]);
    if toks.len() < 9 {
        return None;
    }
    proof {
        assert(toks.deep_view()[0] =~= toks@[0]@);
        assert(toks.deep_view()[8] =~= toks@[8]@);
    }
    let rv = match parse_u64_dec(toks[0].as_slice()) {
        Some(v) => v,
        None => {
            return None;
        },
    };
    let sv = match parse_u64_dec(toks[8].as_slice()) {
        Some(v) => v,
        None => {
            return None;
        },
    };
    Some(IfaceCounters { name, bytes_recv: rv, bytes_sent: sv })
}

/// One row of `netstat -ib`: the interface name first, the received bytes
/// in the seventh field and the sent bytes in the tenth.
pub open spec fn spec_netstat_entry(line: Seq<u8>) -> Option<IfaceCountersV> {
    let toks = spec_tokens(line);
    if toks.len() >= 10 {
        match (spec_u64_of(toks[6]), spec_u64_of(toks[9])) {
            (Some(r), Some(s)) => Some(
                IfaceCountersV { name: toks[0], bytes_recv: r, bytes_sent: s },
            ),
            _ => None,
        }
    } else {
        None
    }
}

/// Reads one row of `netstat -ib`.
pub fn parse_netstat_line(line: &[u8]) -> (r: Option<IfaceCounters>)
    ensures
        match spec_netstat_entry(line@) {
            Some(e) => r matches Some(q) && q.view() == e,
            None => r is None,
        },
{
    let toks = split_tokens(line);
    if toks.len() < 10 {
        return None;
    }
    proof {
        assert(toks.deep_view()[0] =~= toks@[0]@);
        assert(toks.deep_view()[6] =~= toks@[6]@);
        assert(toks.deep_view()[9] =~= toks@[9]@);
    }
    let rv = match parse_u64_dec(toks[6].as_slice()) {
        Some(v) => v,
        None => {
            return None;
        },
    };
    let sv = match parse_u64_dec(toks[9].as_slice()) {
        Some(v) => v,
        None => {
            return None;
        },
    };
    let name = crate::textutil::clone_bytes(&toks[0]);
    Some(IfaceCounters { name, bytes_recv: rv, bytes_sent: sv })
}

/// The rows a line sequence yields under a per-line reader.
pub open spec fn spec_dev_table(rows: Seq<Seq<u8>>) -> Seq<IfaceCountersV>
    decreases rows.len(),
{
    if rows.len() == 0 {
        Seq::empty()
    } else {
        (match spec_dev_entry(rows[0]) {
            Some(e) => seq![e],
            None => Seq::empty(),
        }) + spec_dev_table(rows.drop_first())
    }
}

/// The rows a `netstat -ib` line sequence yields.
pub open spec fn spec_netstat_table(rows: Seq<Seq<u8>>) -> Seq<IfaceCountersV>
    decreases rows.len(),
{
    if rows.len() == 0 {
        Seq::empty()
    } else {
        (match spec_netstat_entry(rows[0]) {
            Some(e) => seq![e],
            None => Seq::empty(),
        }) + spec_netstat_table(rows.drop_first())
    }
}

/// The counter table of a whole `/proc/net/dev` text; its two header
/// lines never hold a row.
pub open spec fn spec_parse_dev(s: Seq<u8>) -> Seq<IfaceCountersV> {
    let rows = spec_lines(s);
    if rows.len() <= 2 {
        Seq::empty()
    } else {
        spec_dev_table(rows.subrange(2, rows.len() as int))
    }
}

/// The counter table of a whole `netstat -ib` text; its header line never
/// holds a row.
pub open spec fn spec_parse_netstat_ib(s: Seq<u8>) -> Seq<IfaceCountersV> {
    let rows = spec_lines(s);
    if rows.len() <= 1 {
        Seq::empty()
    } else {
        spec_netstat_table(rows.subrange(1, rows.len() as int))
    }
}

/// Parses a `/proc/net/dev` text into its counter table.
pub fn parse_proc_net_dev(content: &[u8]) -> (r: Vec<IfaceCounters>)
    ensures
        spec_view_table(r@) == spec_parse_dev(content@),
{
    let lines = split_lines(content);
    let ghost rows = lines.deep_view();
    let mut out: Vec<IfaceCounters> = Vec::new();
    if lines.len() <= 2 {
        proof {
            assert(spec_view_table(out@) =~= spec_parse_dev(content@));
        }
        return out;
    }
    let mut i: usize = 2;
    while i < lines.len()
        invariant
            2 <= i <= lines@.len(),
            rows == lines.deep_view(),
            rows.len() == lines@.len(),
            rows.len() > 2,
            forall|k: int| 0 <= k < rows.len() ==> #[trigger] rows[k] == lines@[k]@,
            spec_dev_table(rows.subrange(2, rows.len() as int)) == spec_view_table(out@)
                + spec_dev_table(rows.subrange(i as int, rows.len() as int)),
        decreases lines@.len() - i,
    {
        proof {
            let tail = rows.subrange(i as int, rows.len() as int);
            assert(tail[0] == rows[i as int]);
            assert(tail.drop_first() =~= rows.subrange(i + 1, rows.len() as int));
        }
        let ghost before = spec_view_table(out@);
        match parse_dev_line(lines[i].as_slice()) {
            Some(e) => {
                out.push(e);
                proof {
                    assert(spec_view_table(out@) =~= before + seq![out@.last().view()]);
                }
            },
            None => {
                proof {
                    assert(before + Seq::<IfaceCountersV>::empty() =~= before);
                }
            },
        }
        i = i + 1;
    }
    proof {
        assert(rows.subrange(i as int, rows.len() as int) =~= Seq::<Seq<u8>>::empty());
        assert(spec_view_table(out@) + Seq::<IfaceCountersV>::empty() =~= spec_view_table(out@));
    }
    out
}

/// Parses a `netstat -ib` text into its counter table.
pub fn parse_netstat_ib(content: &[u8]) -> (r: Vec<IfaceCounters>)
    ensures
        spec_view_table(r@) == spec_parse_netstat_ib(content@),
{
    let lines = split_lines(content);
    let ghost rows = lines.deep_view();
    let mut out: Vec<IfaceCounters> = Vec::new();
    if lines.len() <= 1 {
        proof {
            assert(spec_view_table(out@) =~= spec_parse_netstat_ib(content@));
        }
        return out;
    }
    let mut i: usize = 1;
    while i < lines.len()
        invariant
            1 <= i <= lines@.len(),
            rows == lines.deep_view(),
            rows.len() == lines@.len(),
            rows.len() > 1,
            forall|k: int| 0 <= k < rows.len() ==> #[trigger] rows[k] == lines@[k]@,
            spec_netstat_table(rows.subrange(1, rows.len() as int)) == spec_view_table(out@)
                + spec_netstat_table(rows.subrange(i as int, rows.len() as int)),
        decreases lines@.len() - i,
    {
        proof {
            let tail = rows.subrange(i as int, rows.len() as int);
            assert(tail[0] == rows[i as int]);
            assert(tail.drop_first() =~= rows.subrange(i + 1, rows.len() as int));
        }
        let ghost before = spec_view_table(out@);
        match parse_netstat_line(lines[i].as_slice()) {
            Some(e) => {
                out.push(e);
                proof {
                    assert(spec_view_table(out@) =~= before + seq![out@.last().view()]);
                }
            },
            None => {
                proof {
                    assert(before + Seq::<IfaceCountersV>::empty() =~= before);
                }
            },
        }
        i = i + 1;
    }
    proof {
        assert(rows.subrange(i as int, rows.len() as int) =~= Seq::<Seq<u8>>::empty());
        assert(spec_view_table(out@) + Seq::<IfaceCountersV>::empty() =~= spec_view_table(out@));
    }
    out
}

/// `s` without one pair of surrounding double quotes, if it has one.
pub open spec fn spec_strip_quotes(s: Seq<u8>) -> Seq<u8> {
    if s.len() >= 2 && s[0] == 34 && s.last() == 34 {
        s.subrange(1, s.len() - 1)
    } else {
        s
    }
}

/// The key and value of a two-field CSV row, quotes stripped.
pub open spec fn spec_csv_kv(line: Seq<u8>) -> Option<(Seq<u8>, Seq<u8>)> {
    let t = spec_trim(line);
    let c = crate::textutil::spec_skip_until(t, 0, 44);
    if !(0 <= c < t.len()) {
        None
    } else {
        Some(
            (
                spec_strip_quotes(t.subrange(0, c)),
                spec_strip_quotes(t.subrange(c + 1, t.len() as int)),
            ),
        )
    }
}

/// One fold step of the adapter-statistics CSV: a `ReceivedBytes` or
/// `SentBytes` row replaces the running value; an unreadable number
/// counts as zero.
pub open spec fn spec_csv_step(line: Seq<u8>, acc: (u64, u64)) -> (u64, u64) {
    match spec_csv_kv(line) {
        Some((k, v)) => {
            let n = match spec_u64_of(v) {
                Some(x) => x,
                None => 0u64,
            };
            if k == ("ReceivedBytes").spec_bytes() {
                (n, acc.1)
            } else if k == ("SentBytes").spec_bytes() {
                (acc.0, n)
            } else {
                acc
            }
        },
        None => acc,
    }
}

/// The byte totals of a whole adapter-statistics CSV text.
pub open spec fn spec_csv_fold(rows: Seq<Seq<u8>>, acc: (u64, u64)) -> (u64, u64)
    decreases rows.len(),
{
    if rows.len() == 0 {
        acc
    } else {
        spec_csv_fold(rows.drop_first(), spec_csv_step(rows[0], acc))
    }
}

/// The byte totals an adapter-statistics CSV text reports.
pub open spec fn spec_parse_adapter_csv(s: Seq<u8>) -> (u64, u64) {
    spec_csv_fold(spec_lines(s), (0u64, 0u64))
}

/// Parses the adapter-statistics CSV into its byte totals.
pub fn parse_adapter_csv(content: &[u8]) -> (r: (u64, u64))
    ensures
        r == spec_parse_adapter_csv(content@),
{
    let lines = split_lines(content);
    let ghost rows = lines.deep_view();
    let mut recv: u64 = 0;
    let mut sent: u64 = 0;
    let mut i: usize = 0;
    proof {
        assert(rows.subrange(0, rows.len() as int) =~= rows);
    }
    while i < lines.len()
        invariant
            i <= lines@.len(),
            rows == lines.deep_view(),
            rows.len() == lines@.len(),
            forall|k: int| 0 <= k < rows.len() ==> #[trigger] rows[k] == lines@[k]@,
            spec_csv_fold(rows, (0u64, 0u64)) == spec_csv_fold(
                rows.subrange(i as int, rows.len() as int),
                (recv, sent),
            ),
        decreases lines@.len() - i,
    {
        proof {
            let tail = rows.subrange(i as int, rows.len() as int);
            assert(tail[0] == rows[i as int]);
            assert(tail.drop_first() =~= rows.subrange(i + 1, rows.len() as int));
        }
        let line = lines[i].as_slice();
        let t = trim_bytes(line);
        let ts = t.as_slice();
        let c = crate::textutil::find_byte(ts, 0, 44);
        if c < ts.len() {
            let key = strip_quotes(&ts[0..c]);
            let val = strip_quotes(&ts[c + 1..ts.len()]);
            let n = match parse_u64_dec(val.as_slice()) {
                Some(x) => x,
                None => 0,
            };
            if crate::textutil::bytes_eq(key.as_slice(), "ReceivedBytes".as_bytes()) {
                recv = n;
            } else if crate::textutil::bytes_eq(key.as_slice(), "SentBytes".as_bytes()) {
                sent = n;
            }
        }
        i = i + 1;
    }
    proof {
        assert(rows.subrange(i as int, rows.len() as int) =~= Seq::<Seq<u8>>::empty());
    }
    (recv, sent)
}

/// Strips one pair of surrounding double quotes, if present.
fn strip_quotes(s: &[u8]) -> (r: Vec<u8>)
    ensures
        r@ == spec_strip_quotes(s@),
{
    if s.len() >= 2 && s[0] == 34 && s[s.len() - 1] == 34 {
        copy_range(s, 1, s.len() - 1)
    } else {
        let r = copy_range(s, 0, s.len());
        proof {
            assert(s@.subrange(0, s@.len() as int) =~= s@);
        }
        r
    }
}

/// What one `netstat -e` line reports: the second and third field of the
/// line that starts with `Bytes`.
pub open spec fn spec_netstat_e_row(line: Seq<u8>) -> Option<(u64, u64)> {
    let t = spec_trim(line);
    if spec_starts_with(t, ("Bytes").spec_bytes()) {
        let toks = spec_tokens(t);
        if toks.len() >= 3 {
            match (spec_u64_of(toks[1]), spec_u64_of(toks[2])) {
                (Some(r), Some(s)) => Some((r, s)),
                _ => None,
            }
        } else {
            None
        }
    } else {
        None
    }
}

/// The first readable `Bytes` row of a `netstat -e` text.
pub open spec fn spec_netstat_e_from(rows: Seq<Seq<u8>>) -> Option<(u64, u64)>
    decreases rows.len(),
{
    if rows.len() == 0 {
        None
    } else {
        match spec_netstat_e_row(rows[0]) {
            Some(p) => Some(p),
            None => spec_netstat_e_from(rows.drop_first()),
        }
    }
}

/// The totals a `netstat -e` text reports, if any.
pub open spec fn spec_parse_netstat_e(s: Seq<u8>) -> Option<(u64, u64)> {
    spec_netstat_e_from(spec_lines(s))
}

/// Parses a `netstat -e` text: the all-adapter totals, used only as a
/// last resort when no tunnel adapter was found.
pub fn parse_netstat_e(content: &[u8]) -> (r: Option<(u64, u64)>)
    ensures
        r == spec_parse_netstat_e(content@),
{
    let lines = split_lines(content);
    let ghost rows = lines.deep_view();
    let mut i: usize = 0;
    proof {
        assert(rows.subrange(0, rows.len() as int) =~= rows);
    }
    while i < lines.len()
        invariant
            i <= lines@.len(),
            rows == lines.deep_view(),
            rows == spec_lines(content@),
            rows.len() == lines@.len(),
            forall|k: int| 0 <= k < rows.len() ==> #[trigger] rows[k] == lines@[k]@,
            spec_netstat_e_from(rows) == spec_netstat_e_from(
                rows.subrange(i as int, rows.len() as int),
            ),
        decreases lines@.len() - i,
    {
        proof {
            let tail = rows.subrange(i as int, rows.len() as int);
            assert(tail[0] == rows[i as int]);
            assert(tail.drop_first() =~= rows.subrange(i + 1, rows.len() as int));
        }
        let t = trim_bytes(lines[i].as_slice());
        if crate::textutil::bytes_starts_with(t.as_slice(), "Bytes".as_bytes()) {
            let toks = split_tokens(t.as_slice());
            if toks.len() >= 3 {
                proof {
                    assert(toks.deep_view()[1] =~= toks@[1]@);
                    assert(toks.deep_view()[2] =~= toks@[2]@);
                }
                match parse_u64_dec(toks[1].as_slice()) {
                    Some(rv) => {
                        match parse_u64_dec(toks[2].as_slice()) {
                            Some(sv) => {
                                proof {
                                    let tail = rows.subrange(i as int, rows.len() as int);
                                    assert(spec_netstat_e_row(tail[0]) == Some((rv, sv)));
                                    assert(spec_netstat_e_from(tail) == Some((rv, sv)));
                                }
                                return Some((rv, sv));
                            },
                            None => {},
                        }
                    },
                    None => {},
                }
            }
        }
        i = i + 1;
    }
    proof {
        assert(rows.subrange(i as int, rows.len() as int) =~= Seq::<Seq<u8>>::empty());
    }
    None
}

// ---------------------------------------------------------------------------
// Speeds and session totals
// ---------------------------------------------------------------------------

/// A counter reading with the moment it was taken, in milliseconds of a
/// monotonic clock.
#[derive(PartialEq, Eq, Structural, Clone, Copy, Debug)]
pub struct NetSnapshot {
    pub bytes_recv: u64,
    pub bytes_sent: u64,
    pub at_ms: u64,
}

/// What one poll reports: speeds in tenths of a kilobyte per second,
/// rounded to the nearest tenth, and the session totals in bytes.
#[derive(PartialEq, Eq, Structural, Clone, Copy, Debug)]
pub struct NetStats {
    pub download_speed_tenths: u64,
    pub upload_speed_tenths: u64,
    pub total_download: u64,
    pub total_upload: u64,
}

/// The tracker behind the stats poll: the last snapshot and the session
/// totals.
pub struct NetTracker {
    snapshot: Option<NetSnapshot>,
    session_dl: u64,
    session_ul: u64,
}

/// The mathematical shape of the tracker.
pub ghost struct NetTrackerV {
    pub snapshot: Option<NetSnapshot>,
    pub session_dl: u64,
    pub session_ul: u64,
}

impl NetTracker {
    pub closed spec fn view(&self) -> NetTrackerV {
        NetTrackerV {
            snapshot: self.snapshot,
            session_dl: self.session_dl,
            session_ul: self.session_ul,
        }
    }
}

/// A fresh tracker: no snapshot, zero totals.
pub open spec fn spec_fresh_tracker() -> NetTrackerV {
    NetTrackerV { snapshot: None, session_dl: 0, session_ul: 0 }
}

/// The speed in tenths of a kilobyte per second, rounded to the nearest
/// tenth: `delta` bytes over `elapsed_ms` milliseconds.
pub open spec fn spec_speed_tenths(delta: u64, elapsed_ms: u64) -> u64
    recommends
        elapsed_ms > 0,
{
    let t = (delta * 20000 + elapsed_ms * 1024) / (elapsed_ms * 2048);
    if t > u64::MAX {
        u64::MAX
    } else {
        t as u64
    }
}

/// One poll step. A first poll, or one within ten milliseconds of the
/// last, only records the baseline and reports zero speed; any other poll
/// accumulates the counter deltas — clamped at zero, for counters reset
/// when an adapter goes away — into the totals and reports the speeds
/// over the elapsed time.
pub open spec fn spec_net_update(t: NetTrackerV, bytes_recv: u64, bytes_sent: u64, now_ms: u64) -> (
    NetTrackerV,
    NetStats,
) {
    let snap = NetSnapshot { bytes_recv, bytes_sent, at_ms: now_ms };
    match t.snapshot {
        Some(prev) => if now_ms >= prev.at_ms && now_ms - prev.at_ms >= 10 {
            let elapsed = (now_ms - prev.at_ms) as u64;
            let dl = spec_sat_sub(bytes_recv, prev.bytes_recv);
            let ul = spec_sat_sub(bytes_sent, prev.bytes_sent);
            let ndl = spec_sat_add(t.session_dl, dl);
            let nul = spec_sat_add(t.session_ul, ul);
            (
                NetTrackerV { snapshot: Some(snap), session_dl: ndl, session_ul: nul },
                NetStats {
                    download_speed_tenths: spec_speed_tenths(dl, elapsed),
                    upload_speed_tenths: spec_speed_tenths(ul, elapsed),
                    total_download: ndl,
                    total_upload: nul,
                },
            )
        } else {
            (
                NetTrackerV { snapshot: Some(snap), ..t },
                NetStats {
                    download_speed_tenths: 0,
                    upload_speed_tenths: 0,
                    total_download: t.session_dl,
                    total_upload: t.session_ul,
                },
            )
        },
        None => (
            NetTrackerV { snapshot: Some(snap), ..t },
            NetStats {
                download_speed_tenths: 0,
                upload_speed_tenths: 0,
                total_download: t.session_dl,
                total_upload: t.session_ul,
            },
        ),
    }
}

fn speed_tenths(delta: u64, elapsed_ms: u64) -> (r: u64)
    requires
        elapsed_ms > 0,
    ensures
        r == spec_speed_tenths(delta, elapsed_ms),
{
    let num: u128 = delta as u128 * 20000 + elapsed_ms as u128 * 1024;
    let den: u128 = elapsed_ms as u128 * 2048;
    let t = num / den;
    if t > u64::MAX as u128 {
        u64::MAX
    } else {
        t as u64
    }
}

impl NetTracker {
    /// A fresh tracker: no baseline, zero totals.
    pub fn new() -> (r: NetTracker)
        ensures
            r.view() == spec_fresh_tracker(),
    {
        NetTracker { snapshot: None, session_dl: 0, session_ul: 0 }
    }

    /// The last recorded snapshot.
    pub fn net_state(&self) -> (r: Option<NetSnapshot>)
        ensures
            r == self.view().snapshot,
    {
        self.snapshot
    }

    /// The session totals so far: bytes downloaded and uploaded.
    pub fn net_session(&self) -> (r: (u64, u64))
        ensures
            r.0 == self.view().session_dl,
            r.1 == self.view().session_ul,
    {
        (self.session_dl, self.session_ul)
    }

    /// One stats poll over fresh counter readings.
    pub fn get_network_stats(&mut self, bytes_recv: u64, bytes_sent: u64, now_ms: u64) -> (r:
        NetStats)
        ensures
            (final(self)@, r) == spec_net_update(old(self)@, bytes_recv, bytes_sent, now_ms),
    {
        let snap = NetSnapshot { bytes_recv, bytes_sent, at_ms: now_ms };
        match self.snapshot {
            Some(prev) => {
                if now_ms >= prev.at_ms && now_ms - prev.at_ms >= 10 {
                    let elapsed = now_ms - prev.at_ms;
                    let dl = if bytes_recv >= prev.bytes_recv {
                        bytes_recv - prev.bytes_recv
                    } else {
                        0
                    };
                    let ul = if bytes_sent >= prev.bytes_sent {
                        bytes_sent - prev.bytes_sent
                    } else {
                        0
                    };
                    let ndl = sat_add(self.session_dl, dl);
                    let nul = sat_add(self.session_ul, ul);
                    self.session_dl = ndl;
                    self.session_ul = nul;
                    self.snapshot = Some(snap);
                    NetStats {
                        download_speed_tenths: speed_tenths(dl, elapsed),
                        upload_speed_tenths: speed_tenths(ul, elapsed),
                        total_download: ndl,
                        total_upload: nul,
                    }
                } else {
                    self.snapshot = Some(snap);
                    NetStats {
                        download_speed_tenths: 0,
                        upload_speed_tenths: 0,
                        total_download: self.session_dl,
                        total_upload: self.session_ul,
                    }
                }
            },
            None => {
                self.snapshot = Some(snap);
                NetStats {
                    download_speed_tenths: 0,
                    upload_speed_tenths: 0,
                    total_download: self.session_dl,
                    total_upload: self.session_ul,
                }
            },
        }
    }

    /// Forgets the baseline and clears the totals: the next poll starts a
    /// fresh session and reports zero speed.
    pub fn reset_network_session(&mut self)
        ensures
            final(self)@ == spec_fresh_tracker(),
    {
        self.snapshot = None;
        self.session_dl = 0;
        self.session_ul = 0;
    }
}

/// Session totals never shrink: every poll leaves both totals at least
/// where they were, and reports exactly the new totals.
pub proof fn lemma_totals_monotone(t: NetTrackerV, bytes_recv: u64, bytes_sent: u64, now_ms: u64)
    ensures
        ({
            let (t2, r) = spec_net_update(t, bytes_recv, bytes_sent, now_ms);
            &&& t2.session_dl >= t.session_dl
            &&& t2.session_ul >= t.session_ul
            &&& r.total_download == t2.session_dl
            &&& r.total_upload == t2.session_ul
        }),
{
}

/// After a reset, the next poll reports zero speed and zero totals: it
/// only lays down the new baseline.
pub proof fn lemma_reset_gives_zero(bytes_recv: u64, bytes_sent: u64, now_ms: u64)
    ensures
        ({
            let (t2, r) = spec_net_update(spec_fresh_tracker(), bytes_recv, bytes_sent, now_ms);
            &&& r.download_speed_tenths == 0
            &&& r.upload_speed_tenths == 0
            &&& r.total_download == 0
            &&& r.total_upload == 0
            &&& t2.session_dl == 0
            &&& t2.session_ul == 0
        }),
{
}

} // verus!
