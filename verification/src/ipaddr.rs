//! Recognition of IP address literals. The server endpoint handed to the
//! policy builder is either an address literal or a DNS name; the
//! server-bypass rule matches on `ip_cidr` for the first and on `domain`
//! for the second. An IPv4 literal is four dot-separated decimal octets,
//! each at most 255 and without leading zeros; an IPv6 literal is up to
//! eight colon-separated hexadecimal groups of at most four digits, with at
//! most one `::` compression standing for at least one group, and an
//! optional trailing IPv4-form pair of groups.

use vstd::prelude::*;
use crate::json::{spec_is_digit, spec_is_hex};

verus! {

/// Reads one decimal octet at `i`: its value and the position past it.
pub open spec fn spec_octet_end(s: Seq<u8>, i: int) -> Option<(int, int)> {
    if 0 <= i < s.len() && spec_is_digit(s[i]) {
        if s[i] == 48 {
            Some((0, i + 1))
        } else {
            let v1 = s[i] - 48;
            if i + 1 < s.len() && spec_is_digit(s[i + 1]) {
                let v2 = v1 * 10 + (s[i + 1] - 48);
                if i + 2 < s.len() && spec_is_digit(s[i + 2]) {
                    let v3 = v2 * 10 + (s[i + 2] - 48);
                    if v3 <= 255 {
                        Some((v3 as int, i + 3))
                    } else {
                        None
                    }
                } else {
                    Some((v2 as int, i + 2))
                }
            } else {
                Some((v1 as int, i + 1))
            }
        }
    } else {
        None
    }
}

/// True when `groups` dot-separated octets start at `i` and reach the end.
pub open spec fn spec_ipv4_from(s: Seq<u8>, i: int, groups: int) -> bool
    decreases groups,
{
    if groups <= 0 {
        false
    } else {
        match spec_octet_end(s, i) {
            Some((v, e)) => if groups == 1 {
                e == s.len()
            } else {
                e < s.len() && s[e] == 46 && spec_ipv4_from(s, e + 1, groups - 1)
            },
            None => false,
        }
    }
}

/// True when `s` is an IPv4 literal.
pub open spec fn spec_is_ipv4(s: Seq<u8>) -> bool {
    spec_ipv4_from(s, 0, 4)
}

/// First position at or after `i` holding a non-hexadecimal byte.
pub open spec fn spec_skip_hex(s: Seq<u8>, i: int) -> int
    decreases s.len() - i when 0 <= i <= s.len()
{
    if i < s.len() && spec_is_hex(s[i]) {
        spec_skip_hex(s, i + 1)
    } else {
        i
    }
}

/// True when the rest of an IPv6 literal starts at `i`, with `groups`
/// groups already read and `seen_dc` telling whether `::` occurred.
pub open spec fn spec_ipv6_groups(s: Seq<u8>, i: int, groups: int, seen_dc: bool) -> bool
    decreases s.len() - i when 0 <= i <= s.len()
{
    if i == s.len() {
        if seen_dc {
            groups <= 7
        } else {
            groups == 8
        }
    } else {
        let h = spec_skip_hex(s, i);
        if !(i < h && h <= s.len()) {
            false
        } else if h < s.len() && s[h] == 46 {
            spec_ipv4_from(s, i, 4) && (if seen_dc {
                groups + 2 <= 7
            } else {
                groups + 2 == 8
            })
        } else if h - i > 4 {
            false
        } else if h == s.len() {
            if seen_dc {
                groups + 1 <= 7
            } else {
                groups + 1 == 8
            }
        } else if s[h] == 58 {
            if h + 1 < s.len() && s[h + 1] == 58 {
                if seen_dc {
                    false
                } else if h + 2 == s.len() {
                    groups + 1 <= 7
                } else {
                    spec_ipv6_groups(s, h + 2, groups + 1, true)
                }
            } else if h + 1 == s.len() {
                false
            } else {
                spec_ipv6_groups(s, h + 1, groups + 1, seen_dc)
            }
        } else {
            false
        }
    }
}

/// True when `s` is an IPv6 literal.
pub open spec fn spec_is_ipv6(s: Seq<u8>) -> bool {
    if s.len() >= 2 && s[0] == 58 && s[1] == 58 {
        if s.len() == 2 {
            true
        } else {
            spec_ipv6_groups(s, 2, 0, true)
        }
    } else if s.len() >= 1 && s[0] == 58 {
        false
    } else {
        spec_ipv6_groups(s, 0, 0, false)
    }
}

/// True when `s` is an IP address literal of either family.
pub open spec fn spec_is_ip_literal(s: Seq<u8>) -> bool {
    spec_is_ipv4(s) || spec_is_ipv6(s)
}

/// Reads one decimal octet at `i`.
fn octet_end(s: &[u8], i: usize) -> (r: Option<(u8, usize)>)
    requires
        i <= s@.len(),
    ensures
        match spec_octet_end(s@, i as int) {
            Some(p) => r matches Some(q) && q.0 == p.0 && q.1 == p.1 && i < q.1 <= s@.len(),
            None => r is None,
        },
{
    if i >= s.len() {
        return None;
    }
    let c = s[i];
    if !(48 <= c && c <= 57) {
        return None;
    }
    if c == 48 {
        return Some((0, i + 1));
    }
    let v1 = c - 48;
    if s.len() - i >= 2 && 48 <= s[i + 1] && s[i + 1] <= 57 {
        let v2 = v1 as u16 * 10 + (s[i + 1] - 48) as u16;
        if s.len() - i >= 3 && 48 <= s[i + 2] && s[i + 2] <= 57 {
            let v3 = v2 * 10 + (s[i + 2] - 48) as u16;
            if v3 <= 255 {
                Some((v3 as u8, i + 3))
            } else {
                None
            }
        } else {
            Some((v2 as u8, i + 2))
        }
    } else {
        Some((v1, i + 1))
    }
}

/// True when `groups` dot-separated octets start at `i` and reach the end.
fn ipv4_from(s: &[u8], i: usize, groups: u8) -> (r: bool)
    requires
        i <= s@.len(),
    ensures
        r == spec_ipv4_from(s@, i as int, groups as int),
    decreases groups,
{
    if groups == 0 {
        return false;
    }
    match octet_end(s, i) {
        Some((_v, e)) => {
            if groups == 1 {
                e == s.len()
            } else {
                if e < s.len() && s[e] == 46 {
                    ipv4_from(s, e + 1, groups - 1)
                } else {
                    false
                }
            }
        },
        None => false,
    }
}

/// First non-hexadecimal position at or after `i`.
fn skip_hex(s: &[u8], i: usize) -> (r: usize)
    requires
        i <= s@.len(),
    ensures
        i <= r <= s@.len(),
        r == spec_skip_hex(s@, i as int),
{
    let mut j = i;
    loop
        invariant
            i <= j <= s@.len(),
            spec_skip_hex(s@, i as int) == spec_skip_hex(s@, j as int),
        decreases s@.len() - j,
    {
        if j == s.len() {
            return j;
        }
        let c = s[j];
        if (48 <= c && c <= 57) || (65 <= c && c <= 70) || (97 <= c && c <= 102) {
            j = j + 1;
        } else {
            return j;
        }
    }
}

/// True when the rest of an IPv6 literal starts at `i`.
fn ipv6_groups(s: &[u8], i: usize, groups: u8, seen_dc: bool) -> (r: bool)
    requires
        i <= s@.len(),
        groups <= 8,
    ensures
        r == spec_ipv6_groups(s@, i as int, groups as int, seen_dc),
    decreases s@.len() - i,
{
    if i == s.len() {
        return if seen_dc {
            groups <= 7
        } else {
            groups == 8
        };
    }
    let h = skip_hex(s, i);
    if h == i {
        return false;
    }
    if h < s.len() && s[h] == 46 {
        return ipv4_from(s, i, 4) && (if seen_dc {
            groups + 2 <= 7
        } else {
            groups + 2 == 8
        });
    }
    if h - i > 4 {
        return false;
    }
    if h == s.len() {
        return if seen_dc {
            groups + 1 <= 7
        } else {
            groups + 1 == 8
        };
    }
    if s[h] == 58 {
        if h + 1 < s.len() && s[h + 1] == 58 {
            if seen_dc {
                false
            } else if h + 2 == s.len() {
                groups + 1 <= 7
            } else if groups >= 8 {
                proof {
                    lemma_ipv6_groups_cap(s@, h + 2, groups + 1, true);
                }
                false
            } else {
                ipv6_groups(s, h + 2, groups + 1, true)
            }
        } else if h + 1 == s.len() {
            false
        } else if groups >= 8 {
            proof {
                lemma_ipv6_groups_cap(s@, h + 1, groups + 1, seen_dc);
            }
            false
        } else {
            ipv6_groups(s, h + 1, groups + 1, seen_dc)
        }
    } else {
        false
    }
}

/// More than eight groups can never complete a literal.
proof fn lemma_ipv6_groups_cap(s: Seq<u8>, i: int, groups: int, seen_dc: bool)
    requires
        0 <= i <= s.len(),
        groups > 8,
    ensures
        !spec_ipv6_groups(s, i, groups, seen_dc),
    decreases s.len() - i,
{
    if i < s.len() {
        let h = spec_skip_hex(s, i);
        if i < h && h <= s.len() && !(h < s.len() && s[h] == 46) && h - i <= 4 && h < s.len()
            && s[h] == 58 {
            if h + 1 < s.len() && s[h + 1] == 58 {
                if !seen_dc && h + 2 < s.len() {
                    lemma_ipv6_groups_cap(s, h + 2, groups + 1, true);
                }
            } else if h + 1 < s.len() {
                lemma_ipv6_groups_cap(s, h + 1, groups + 1, seen_dc);
            }
        }
    }
}

/// True when `s` is an IP address literal of either family.
pub fn is_ip_literal(s: &[u8]) -> (r: bool)
    ensures
        r == spec_is_ip_literal(s@),
{
    if ipv4_from(s, 0, 4) {
        return true;
    }
    if s.len() >= 2 && s[0] == 58 && s[1] == 58 {
        if s.len() == 2 {
            true
        } else {
            ipv6_groups(s, 2, 0, true)
        }
    } else if s.len() >= 1 && s[0] == 58 {
        false
    } else {
        ipv6_groups(s, 0, 0, false)
    }
}

} // verus!
