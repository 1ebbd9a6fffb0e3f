//! The sing-box routing policy builder. From the user settings and the
//! current server endpoint it produces, deterministically, the JSON
//! configuration handed to the routing engine: DNS servers, the TUN inbound,
//! the outbounds, and the ordered route rules with the server-bypass rule
//! always present so the tunnel never swallows its own transport.

use vstd::prelude::*;
use vstd::string::StringSliceAdditionalSpecFns;
use crate::json::{Json, JsonV};
use crate::textutil::{push_str_bytes, push_u64_dec, spec_u64_dec};

verus! {

/// The settings the builder reads, with defaults already applied.
pub struct TunSettings {
    pub primary_dns: Vec<u8>,
    pub secondary_dns: Vec<u8>,
    pub inet4: Vec<u8>,
    pub inet6: Vec<u8>,
    pub mtu: u64,
    pub proxy_host: Vec<u8>,
    pub proxy_port: u64,
    pub direct_domains: Vec<Vec<u8>>,
    pub block_domains: Vec<Vec<u8>>,
}

/// The mathematical shape of `TunSettings`.
pub ghost struct TunSettingsV {
    pub primary_dns: Seq<u8>,
    pub secondary_dns: Seq<u8>,
    pub inet4: Seq<u8>,
    pub inet6: Seq<u8>,
    pub mtu: u64,
    pub proxy_host: Seq<u8>,
    pub proxy_port: u64,
    pub direct_domains: Seq<Seq<u8>>,
    pub block_domains: Seq<Seq<u8>>,
}

impl TunSettings {
    pub open spec fn view(&self) -> TunSettingsV {
        TunSettingsV {
            primary_dns: self.primary_dns@,
            secondary_dns: self.secondary_dns@,
            inet4: self.inet4@,
            inet6: self.inet6@,
            mtu: self.mtu,
            proxy_host: self.proxy_host@,
            proxy_port: self.proxy_port,
            direct_domains: self.direct_domains.deep_view(),
            block_domains: self.block_domains.deep_view(),
        }
    }
}

/// One route rule of the policy, fields as the routing engine knows them.
pub struct RouteRule {
    pub protocol: Option<Vec<u8>>,
    pub outbound: Option<Vec<u8>>,
    pub ip_cidr: Option<Vec<Vec<u8>>>,
    pub domain: Option<Vec<Vec<u8>>>,
}

/// The mathematical shape of `RouteRule`.
pub ghost struct RouteRuleV {
    pub protocol: Option<Seq<u8>>,
    pub outbound: Option<Seq<u8>>,
    pub ip_cidr: Option<Seq<Seq<u8>>>,
    pub domain: Option<Seq<Seq<u8>>>,
}

impl RouteRule {
    pub open spec fn view(&self) -> RouteRuleV {
        RouteRuleV {
            protocol: match self.protocol {
                Some(p) => Some(p@),
                None => None,
            },
            outbound: match self.outbound {
                Some(o) => Some(o@),
                None => None,
            },
            ip_cidr: match self.ip_cidr {
                Some(c) => Some(c.deep_view()),
                None => None,
            },
            domain: match self.domain {
                Some(d) => Some(d.deep_view()),
                None => None,
            },
        }
    }
}

/// The views of a rule list.
pub open spec fn spec_view_rules(rules: Seq<RouteRule>) -> Seq<RouteRuleV> {
    Seq::new(rules.len(), |i: int| rules[i].view())
}

// ---------------------------------------------------------------------------
// JSON string escaping
// ---------------------------------------------------------------------------

/// Lowercase hexadecimal digit for `n < 16`.
pub open spec fn spec_hex_digit(n: u8) -> u8 {
    if n < 10 {
        (48 + n) as u8
    } else {
        (87 + n) as u8
    }
}

/// The escaped form of one byte inside a JSON string literal.
pub open spec fn spec_escape_byte(b: u8) -> Seq<u8> {
    if b == 34 {
        seq![92u8, 34u8]
    } else if b == 92 {
        seq![92u8, 92u8]
    } else if b < 32 {
        seq![92u8, 117u8, 48u8, 48u8, spec_hex_digit(b / 16), spec_hex_digit(b % 16)]
    } else {
        seq![b]
    }
}

/// The escaped form of a whole string.
pub open spec fn spec_escape(s: Seq<u8>) -> Seq<u8>
    decreases s.len(),
{
    if s.len() == 0 {
        Seq::empty()
    } else {
        spec_escape(s.drop_last()) + spec_escape_byte(s.last())
    }
}

/// A JSON string literal holding `s`: quotes around the escaped contents.
pub open spec fn spec_json_str(s: Seq<u8>) -> Seq<u8> {
    seq![34u8] + spec_escape(s) + seq![34u8]
}

/// Appends the escaped form of `s` to `out`.
pub fn push_escaped(out: &mut Vec<u8>, s: &[u8])
    ensures
        final(out)@ == old(out)@ + spec_escape(s@),
{
    let mut i: usize = 0;
    while i < s.len()
        invariant
            i <= s@.len(),
            out@ == old(out)@ + spec_escape(s@.subrange(0, i as int)),
        decreases s@.len() - i,
    {
        let b = s[i];
        if b == 34 {
            out.push(92);
            out.push(34);
        } else if b == 92 {
            out.push(92);
            out.push(92);
        } else if b < 32 {
            out.push(92);
            out.push(117);
            out.push(48);
            out.push(48);
            let hi = b / 16;
            let lo = b % 16;
            out.push(if hi < 10 { (48 + hi) as u8 } else { (87 + hi) as u8 });
            out.push(if lo < 10 { (48 + lo) as u8 } else { (87 + lo) as u8 });
        } else {
            out.push(b);
        }
        proof {
            let pre = s@.subrange(0, i + 1);
            assert(pre.drop_last() == s@.subrange(0, i as int));
            assert(pre.last() == s@[i as int]);
        }
        i = i + 1;
    }
    assert(s@.subrange(0, s@.len() as int) == s@);
}

/// Appends a JSON string literal holding `s` to `out`.
pub fn push_json_str(out: &mut Vec<u8>, s: &[u8])
    ensures
        final(out)@ == old(out)@ + spec_json_str(s@),
{
    out.push(34);
    push_escaped(out, s);
    out.push(34);
}

// ---------------------------------------------------------------------------
// Reading the settings document
// ---------------------------------------------------------------------------

/// The string value of member `key`, or `dflt` when absent or not a string.
pub open spec fn spec_str_field(j: JsonV, key: Seq<u8>, dflt: Seq<u8>) -> Seq<u8> {
    match j.spec_get(key) {
        Some(v) => match v.spec_as_str() {
            Some(s) => s,
            None => dflt,
        },
        None => dflt,
    }
}

/// The integer value of member `key`, or `dflt` when absent or not a plain
/// integer.
pub open spec fn spec_u64_field(j: JsonV, key: Seq<u8>, dflt: u64) -> u64 {
    match j.spec_get(key) {
        Some(v) => match v.spec_as_u64() {
            Some(n) => n,
            None => dflt,
        },
        None => dflt,
    }
}

/// The string items of an array, non-strings skipped.
pub open spec fn spec_strs_of(items: Seq<JsonV>) -> Seq<Seq<u8>>
    decreases items.len(),
{
    if items.len() == 0 {
        Seq::empty()
    } else {
        spec_strs_of(items.drop_last()) + (match items.last() {
            JsonV::Str(s) => seq![s],
            _ => Seq::empty(),
        })
    }
}

/// The string list held by member `key`, or empty when absent or not an
/// array.
pub open spec fn spec_str_list_field(j: JsonV, key: Seq<u8>) -> Seq<Seq<u8>> {
    match j.spec_get(key) {
        Some(v) => match v {
            JsonV::Arr(items) => spec_strs_of(items),
            _ => Seq::empty(),
        },
        None => Seq::empty(),
    }
}

/// The builder settings read out of the settings document, defaults
/// applied; a missing or malformed member never fails.
pub open spec fn spec_settings_of(j: JsonV) -> TunSettingsV {
    TunSettingsV {
        primary_dns: spec_str_field(j, ("primaryDns").spec_bytes(), ("8.8.8.8").spec_bytes()),
        secondary_dns: spec_str_field(
            j,
            ("secondaryDns").spec_bytes(),
            ("1.1.1.1").spec_bytes(),
        ),
        inet4: spec_str_field(j, ("tunInet4CIDR").spec_bytes(), ("172.19.0.1/30").spec_bytes()),
        inet6: spec_str_field(
            j,
            ("tunInet6CIDR").spec_bytes(),
            ("fdfe:dcba:9876::1/126").spec_bytes(),
        ),
        mtu: spec_u64_field(j, ("mtu").spec_bytes(), 9000),
        proxy_host: spec_str_field(j, ("proxyHost").spec_bytes(), ("127.0.0.1").spec_bytes()),
        proxy_port: spec_u64_field(j, ("proxyPort").spec_bytes(), 10808),
        direct_domains: spec_str_list_field(j, ("customDirectDomains").spec_bytes()),
        block_domains: spec_str_list_field(j, ("customBlockDomains").spec_bytes()),
    }
}

/// Reads the string value of member `key`, or `dflt`.
fn str_field(doc: &Json, key: &str, dflt: &str) -> (r: Vec<u8>)
    ensures
        r@ == spec_str_field(doc.view(), key.spec_bytes(), dflt.spec_bytes()),
{
    match doc.get(key.as_bytes()) {
        Some(v) => match v.as_str() {
            Some(s) => crate::textutil::clone_bytes(s),
            None => crate::textutil::bytes_of(dflt),
        },
        None => crate::textutil::bytes_of(dflt),
    }
}

/// Reads the integer value of member `key`, or `dflt`.
fn u64_field(doc: &Json, key: &str, dflt: u64) -> (r: u64)
    ensures
        r == spec_u64_field(doc.view(), key.spec_bytes(), dflt),
{
    match doc.get(key.as_bytes()) {
        Some(v) => match v.as_u64() {
            Some(n) => n,
            None => dflt,
        },
        None => dflt,
    }
}

/// Reads the string list held by member `key`, or empty.
fn str_list_field(doc: &Json, key: &str) -> (r: Vec<Vec<u8>>)
    ensures
        r.deep_view() == spec_str_list_field(doc.view(), key.spec_bytes()),
{
    match doc.get(key.as_bytes()) {
        Some(v) => match v {
            Json::Arr(items) => {
                proof {
                    crate::json::lemma_view_items_len(items@);
                }
                let ghost itemsv = crate::json::spec_view_items(items@);
                let mut out: Vec<Vec<u8>> = Vec::new();
                let mut i: usize = 0;
                while i < items.len()
                    invariant
                        i <= items@.len(),
                        itemsv == crate::json::spec_view_items(items@),
                        itemsv.len() == items@.len(),
                        forall|k: int|
                            0 <= k < items@.len() ==> #[trigger] itemsv[k] == items@[k].view(),
                        out.deep_view() == spec_strs_of(itemsv.subrange(0, i as int)),
                    decreases items@.len() - i,
                {
                    let ghost pre = itemsv.subrange(0, i + 1);
                    proof {
                        assert(pre.drop_last() == itemsv.subrange(0, i as int));
                        assert(pre.last() == itemsv[i as int]);
                    }
                    match items[i].as_str() {
                        Some(s) => {
                            let ghost before = out.deep_view();
                            out.push(crate::textutil::clone_bytes(s));
                            proof {
                                assert(out.deep_view() =~~= before + seq![s@]);
                            }
                        },
                        None => {
                            proof {
                                assert(spec_strs_of(pre) =~= spec_strs_of(
                                    itemsv.subrange(0, i as int),
                                ));
                            }
                        },
                    }
                    i = i + 1;
                }
                proof {
                    assert(itemsv.subrange(0, itemsv.len() as int) == itemsv);
                    assert(v.view() == JsonV::Arr(itemsv));
                }
                out
            },
            _ => Vec::new(),
        },
        None => Vec::new(),
    }
}

/// Reads the builder settings out of a parsed settings document, applying
/// the documented defaults; a missing or malformed member never fails.
pub fn settings_from_json(doc: &Json) -> (r: TunSettings)
    ensures
        r.view() == spec_settings_of(doc.view()),
{
    TunSettings {
        primary_dns: str_field(doc, "primaryDns", "8.8.8.8"),
        secondary_dns: str_field(doc, "secondaryDns", "1.1.1.1"),
        inet4: str_field(doc, "tunInet4CIDR", "172.19.0.1/30"),
        inet6: str_field(doc, "tunInet6CIDR", "fdfe:dcba:9876::1/126"),
        mtu: u64_field(doc, "mtu", 9000),
        proxy_host: str_field(doc, "proxyHost", "127.0.0.1"),
        proxy_port: u64_field(doc, "proxyPort", 10808),
        direct_domains: str_list_field(doc, "customDirectDomains"),
        block_domains: str_list_field(doc, "customBlockDomains"),
    }
}

// ---------------------------------------------------------------------------
// Route rules
// ---------------------------------------------------------------------------

/// The rule that diverts DNS queries to the DNS outbound. Always first.
pub open spec fn spec_dns_rule() -> RouteRuleV {
    RouteRuleV {
        protocol: Some(("dns").spec_bytes()),
        outbound: Some(("dns-out").spec_bytes()),
        ip_cidr: None,
        domain: None,
    }
}

/// A rule sending a domain list to `outbound`.
pub open spec fn spec_domain_rule(domains: Seq<Seq<u8>>, outbound: Seq<u8>) -> RouteRuleV {
    RouteRuleV { protocol: None, outbound: Some(outbound), ip_cidr: None, domain: Some(domains) }
}

/// The server-bypass rule: the server itself goes through `direct-out`,
/// as an `ip_cidr` match when the address is an IP literal, as a `domain`
/// match otherwise.
pub open spec fn spec_bypass_rule(server: Seq<u8>) -> RouteRuleV {
    if crate::ipaddr::spec_is_ip_literal(server) {
        RouteRuleV {
            protocol: None,
            outbound: Some(("direct-out").spec_bytes()),
            ip_cidr: Some(seq![server + ("/32").spec_bytes()]),
            domain: None,
        }
    } else {
        RouteRuleV {
            protocol: None,
            outbound: Some(("direct-out").spec_bytes()),
            ip_cidr: None,
            domain: Some(seq![server]),
        }
    }
}

/// The ordered rule list of the policy: DNS diversion first, then the
/// user's direct and block lists when non-empty, the server bypass last.
/// User rules stand before the bypass rule and after DNS, so a custom
/// policy can never override either.
pub open spec fn spec_route_rules(s: TunSettingsV, server: Seq<u8>) -> Seq<RouteRuleV> {
    seq![spec_dns_rule()] + (if s.direct_domains.len() > 0 {
        seq![spec_domain_rule(s.direct_domains, ("direct-out").spec_bytes())]
    } else {
        Seq::empty()
    }) + (if s.block_domains.len() > 0 {
        seq![spec_domain_rule(s.block_domains, ("block-out").spec_bytes())]
    } else {
        Seq::empty()
    }) + seq![spec_bypass_rule(server)]
}

/// Builds the ordered rule list for `server`.
pub fn build_route_rules(ts: &TunSettings, server: &[u8]) -> (r: Vec<RouteRule>)
    ensures
        spec_view_rules(r@) == spec_route_rules(ts.view(), server@),
{
    let mut rules: Vec<RouteRule> = Vec::new();
    rules.push(
        RouteRule {
            protocol: Some(crate::textutil::bytes_of("dns")),
            outbound: Some(crate::textutil::bytes_of("dns-out")),
            ip_cidr: None,
            domain: None,
        },
    );
    if ts.direct_domains.len() > 0 {
        rules.push(
            RouteRule {
                protocol: None,
                outbound: Some(crate::textutil::bytes_of("direct-out")),
                ip_cidr: None,
                domain: Some(crate::textutil::clone_bytes_list(&ts.direct_domains)),
            },
        );
    }
    if ts.block_domains.len() > 0 {
        rules.push(
            RouteRule {
                protocol: None,
                outbound: Some(crate::textutil::bytes_of("block-out")),
                ip_cidr: None,
                domain: Some(crate::textutil::clone_bytes_list(&ts.block_domains)),
            },
        );
    }
    if crate::ipaddr::is_ip_literal(server) {
        let mut cidr = crate::textutil::copy_range(server, 0, server.len());
        crate::textutil::push_str_bytes(&mut cidr, "/32");
        let mut cidr_list: Vec<Vec<u8>> = Vec::new();
        cidr_list.push(cidr);
        proof {
            assert(cidr_list.deep_view() =~~= seq![server@ + ("/32").spec_bytes()]);
        }
        rules.push(
            RouteRule {
                protocol: None,
                outbound: Some(crate::textutil::bytes_of("direct-out")),
                ip_cidr: Some(cidr_list),
                domain: None,
            },
        );
    } else {
        let mut dom_list: Vec<Vec<u8>> = Vec::new();
        dom_list.push(crate::textutil::copy_range(server, 0, server.len()));
        proof {
            assert(dom_list.deep_view() =~~= seq![server@]);
        }
        rules.push(
            RouteRule {
                protocol: None,
                outbound: Some(crate::textutil::bytes_of("direct-out")),
                ip_cidr: None,
                domain: Some(dom_list),
            },
        );
    }
    proof {
        assert(spec_view_rules(rules@) =~= spec_route_rules(ts.view(), server@));
    }
    rules
}

// ---------------------------------------------------------------------------
// Rendering the policy document
// ---------------------------------------------------------------------------

/// The comma-joined JSON string literals of `items`.
pub open spec fn spec_str_array_items(items: Seq<Seq<u8>>) -> Seq<u8>
    decreases items.len(),
{
    if items.len() == 0 {
        Seq::empty()
    } else if items.len() == 1 {
        spec_json_str(items[0])
    } else {
        spec_str_array_items(items.drop_last()) + (",").spec_bytes() + spec_json_str(items.last())
    }
}

/// A JSON array of string literals.
pub open spec fn spec_render_str_array(items: Seq<Seq<u8>>) -> Seq<u8> {
    ("[").spec_bytes() + spec_str_array_items(items) + ("]").spec_bytes()
}

/// One rendered route rule. Fields in fixed order; absent fields are left
/// out, except `outbound`, which closes every rule.
pub open spec fn spec_render_rule(r: RouteRuleV) -> Seq<u8> {
    ("{").spec_bytes() + (match r.protocol {
        Some(p) => ("\"protocol\":").spec_bytes() + spec_json_str(p) + (",").spec_bytes(),
        None => Seq::empty(),
    }) + (match r.domain {
        Some(d) => ("\"domain\":").spec_bytes() + spec_render_str_array(d) + (",").spec_bytes(),
        None => Seq::empty(),
    }) + (match r.ip_cidr {
        Some(c) => ("\"ip_cidr\":").spec_bytes() + spec_render_str_array(c) + (",").spec_bytes(),
        None => Seq::empty(),
    }) + ("\"outbound\":").spec_bytes() + (match r.outbound {
        Some(o) => spec_json_str(o),
        None => ("null").spec_bytes(),
    }) + ("}").spec_bytes()
}

/// The comma-joined rendered rules.
pub open spec fn spec_rules_items(rules: Seq<RouteRuleV>) -> Seq<u8>
    decreases rules.len(),
{
    if rules.len() == 0 {
        Seq::empty()
    } else if rules.len() == 1 {
        spec_render_rule(rules[0])
    } else {
        spec_rules_items(rules.drop_last()) + (",").spec_bytes() + spec_render_rule(rules.last())
    }
}

/// A JSON array of rendered rules.
pub open spec fn spec_render_rules(rules: Seq<RouteRuleV>) -> Seq<u8> {
    ("[").spec_bytes() + spec_rules_items(rules) + ("]").spec_bytes()
}

/// Appends a JSON array of string literals to `out`.
pub fn push_str_array(out: &mut Vec<u8>, items: &Vec<Vec<u8>>)
    ensures
        final(out)@ == old(out)@ + spec_render_str_array(items.deep_view()),
{
    let ghost dv = items.deep_view();
    push_str_bytes(out, "[");
    let mut i: usize = 0;
    while i < items.len()
        invariant
            i <= items@.len(),
            dv == items.deep_view(),
            dv.len() == items@.len(),
            out@ == old(out)@ + ("[").spec_bytes() + spec_str_array_items(
                dv.subrange(0, i as int),
            ),
        decreases items@.len() - i,
    {
        if i > 0 {
            push_str_bytes(out, ",");
        }
        push_json_str(out, items[i].as_slice());
        proof {
            let pre = dv.subrange(0, i + 1);
            assert(pre.drop_last() == dv.subrange(0, i as int));
            assert(pre.last() == dv[i as int]);
            assert(dv[i as int] =~= items@[i as int]@);
        }
        i = i + 1;
    }
    proof {
        assert(dv.subrange(0, dv.len() as int) == dv);
    }
    push_str_bytes(out, "]");
}

/// Appends the rendered `protocol` field of a rule, if present.
fn push_rule_protocol(out: &mut Vec<u8>, f: &Option<Vec<u8>>)
    ensures
        final(out)@ == old(out)@ + (match *f {
            Some(p) => ("\"protocol\":").spec_bytes() + spec_json_str(p@) + (",").spec_bytes(),
            None => Seq::empty(),
        }),
{
    match f {
        Some(p) => {
            push_str_bytes(out, "\"protocol\":");
            push_json_str(out, p.as_slice());
            push_str_bytes(out, ",");
        },
        None => {
            assert(out@ =~= old(out)@ + Seq::<u8>::empty());
        },
    }
}

/// Appends the rendered `domain` field of a rule, if present.
fn push_rule_domain(out: &mut Vec<u8>, f: &Option<Vec<Vec<u8>>>)
    ensures
        final(out)@ == old(out)@ + (match *f {
            Some(d) => ("\"domain\":").spec_bytes() + spec_render_str_array(d.deep_view()) + (
            ",").spec_bytes(),
            None => Seq::empty(),
        }),
{
    match f {
        Some(d) => {
            push_str_bytes(out, "\"domain\":");
            push_str_array(out, d);
            push_str_bytes(out, ",");
        },
        None => {
            assert(out@ =~= old(out)@ + Seq::<u8>::empty());
        },
    }
}

/// Appends the rendered `ip_cidr` field of a rule, if present.
fn push_rule_ip_cidr(out: &mut Vec<u8>, f: &Option<Vec<Vec<u8>>>)
    ensures
        final(out)@ == old(out)@ + (match *f {
            Some(c) => ("\"ip_cidr\":").spec_bytes() + spec_render_str_array(c.deep_view()) + (
            ",").spec_bytes(),
            None => Seq::empty(),
        }),
{
    match f {
        Some(c) => {
            push_str_bytes(out, "\"ip_cidr\":");
            push_str_array(out, c);
            push_str_bytes(out, ",");
        },
        None => {
            assert(out@ =~= old(out)@ + Seq::<u8>::empty());
        },
    }
}

/// Appends the rendered `outbound` field of a rule.
fn push_rule_outbound(out: &mut Vec<u8>, f: &Option<Vec<u8>>)
    ensures
        final(out)@ == old(out)@ + ("\"outbound\":").spec_bytes() + (match *f {
            Some(o) => spec_json_str(o@),
            None => ("null").spec_bytes(),
        }),
{
    push_str_bytes(out, "\"outbound\":");
    match f {
        Some(o) => {
            push_json_str(out, o.as_slice());
        },
        None => {
            push_str_bytes(out, "null");
        },
    }
}

/// Appends one rendered route rule to `out`.
#[verifier::rlimit(60)]
pub fn push_rule(out: &mut Vec<u8>, r: &RouteRule)
    ensures
        final(out)@ == old(out)@ + spec_render_rule(r.view()),
{
    push_str_bytes(out, "{");
    push_rule_protocol(out, &r.protocol);
    push_rule_domain(out, &r.domain);
    push_rule_ip_cidr(out, &r.ip_cidr);
    push_rule_outbound(out, &r.outbound);
    push_str_bytes(out, "}");
    proof {
        assert(out@ =~= old(out)@ + spec_render_rule(r.view()));
    }
}

/// Appends a JSON array of rendered rules to `out`.
pub fn push_rules(out: &mut Vec<u8>, rules: &Vec<RouteRule>)
    ensures
        final(out)@ == old(out)@ + spec_render_rules(spec_view_rules(rules@)),
{
    let ghost rv = spec_view_rules(rules@);
    push_str_bytes(out, "[");
    let mut i: usize = 0;
    while i < rules.len()
        invariant
            i <= rules@.len(),
            rv == spec_view_rules(rules@),
            rv.len() == rules@.len(),
            out@ == old(out)@ + ("[").spec_bytes() + spec_rules_items(rv.subrange(0, i as int)),
        decreases rules@.len() - i,
    {
        if i > 0 {
            push_str_bytes(out, ",");
        }
        push_rule(out, &rules[i]);
        proof {
            let pre = rv.subrange(0, i + 1);
            assert(pre.drop_last() == rv.subrange(0, i as int));
            assert(pre.last() == rv[i as int]);
            assert(rv[i as int] == rules@[i as int].view());
        }
        i = i + 1;
    }
    proof {
        assert(rv.subrange(0, rv.len() as int) == rv);
    }
    push_str_bytes(out, "]");
}

/// Everything of the rendered policy before the rule list: log, DNS,
/// the TUN inbound, and the outbounds.
pub open spec fn spec_render_head(s: TunSettingsV) -> Seq<u8> {
    (
    "{\"log\":{\"level\":\"info\",\"timestamp\":true},\"dns\":{\"servers\":[{\"tag\":\"dns-remote\",\"address\":").spec_bytes()
        + spec_json_str(s.primary_dns) + (
    ",\"detour\":\"socks-out\"},{\"tag\":\"dns-local\",\"address\":").spec_bytes()
        + spec_json_str(s.secondary_dns) + (
    ",\"detour\":\"direct-out\"},{\"tag\":\"dns-block\",\"address\":\"rcode://success\"}],\"final\":\"dns-remote\",\"strategy\":\"prefer_ipv4\",\"independent_cache\":true},\"inbounds\":[{\"type\":\"tun\",\"tag\":\"CandyConnect\",\"interface_name\":\"CandyConnect\",\"inet4_address\":").spec_bytes()
        + spec_json_str(s.inet4) + (",\"inet6_address\":").spec_bytes() + spec_json_str(s.inet6)
        + (",\"mtu\":").spec_bytes() + spec_u64_dec(s.mtu as nat) + (
    ",\"auto_route\":true,\"strict_route\":false,\"sniff\":true,\"stack\":\"gvisor\",\"endpoint_independent_nat\":true,\"platform\":{\"http_proxy\":{\"enabled\":true,\"server\":\"127.0.0.1\",\"server_port\":2080}}}],\"outbounds\":[{\"type\":\"socks\",\"tag\":\"socks-out\",\"server\":").spec_bytes()
        + spec_json_str(s.proxy_host) + (",\"server_port\":").spec_bytes() + spec_u64_dec(
        s.proxy_port as nat,
    ) + (
    "},{\"type\":\"direct\",\"tag\":\"direct-out\"},{\"type\":\"dns\",\"tag\":\"dns-out\"},{\"type\":\"block\",\"tag\":\"block-out\"}],\"route\":{\"rules\":").spec_bytes()
}

/// Everything of the rendered policy after the rule list.
pub open spec fn spec_render_tail() -> Seq<u8> {
    (",\"final\":\"socks-out\",\"auto_detect_interface\":true}}").spec_bytes()
}

/// The whole rendered policy for settings `s` and server `server`.
pub open spec fn spec_render_config(s: TunSettingsV, server: Seq<u8>) -> Seq<u8> {
    spec_render_head(s) + spec_render_rules(spec_route_rules(s, server)) + spec_render_tail()
}

/// Renders the policy for `ts` and `server`: a deterministic function of
/// its arguments, nothing else.
pub fn build_tun_config(ts: &TunSettings, server: &[u8]) -> (r: Vec<u8>)
    ensures
        r@ == spec_render_config(ts.view(), server@),
{
    let mut out: Vec<u8> = Vec::new();
    push_str_bytes(
        &mut out,
        "{\"log\":{\"level\":\"info\",\"timestamp\":true},\"dns\":{\"servers\":[{\"tag\":\"dns-remote\",\"address\":",
    );
    push_json_str(&mut out, ts.primary_dns.as_slice());
    push_str_bytes(&mut out, ",\"detour\":\"socks-out\"},{\"tag\":\"dns-local\",\"address\":");
    push_json_str(&mut out, ts.secondary_dns.as_slice());
    push_str_bytes(
        &mut out,
        ",\"detour\":\"direct-out\"},{\"tag\":\"dns-block\",\"address\":\"rcode://success\"}],\"final\":\"dns-remote\",\"strategy\":\"prefer_ipv4\",\"independent_cache\":true},\"inbounds\":[{\"type\":\"tun\",\"tag\":\"CandyConnect\",\"interface_name\":\"CandyConnect\",\"inet4_address\":",
    );
    push_json_str(&mut out, ts.inet4.as_slice());
    push_str_bytes(&mut out, ",\"inet6_address\":");
    push_json_str(&mut out, ts.inet6.as_slice());
    push_str_bytes(&mut out, ",\"mtu\":");
    push_u64_dec(&mut out, ts.mtu);
    push_str_bytes(
        &mut out,
        ",\"auto_route\":true,\"strict_route\":false,\"sniff\":true,\"stack\":\"gvisor\",\"endpoint_independent_nat\":true,\"platform\":{\"http_proxy\":{\"enabled\":true,\"server\":\"127.0.0.1\",\"server_port\":2080}}}],\"outbounds\":[{\"type\":\"socks\",\"tag\":\"socks-out\",\"server\":",
    );
    push_json_str(&mut out, ts.proxy_host.as_slice());
    push_str_bytes(&mut out, ",\"server_port\":");
    push_u64_dec(&mut out, ts.proxy_port);
    push_str_bytes(
        &mut out,
        "},{\"type\":\"direct\",\"tag\":\"direct-out\"},{\"type\":\"dns\",\"tag\":\"dns-out\"},{\"type\":\"block\",\"tag\":\"block-out\"}],\"route\":{\"rules\":",
    );
    assert(out@ =~= spec_render_head(ts.view()));
    let rules = build_route_rules(ts, server);
    push_rules(&mut out, &rules);
    push_str_bytes(&mut out, ",\"final\":\"socks-out\",\"auto_detect_interface\":true}}");
    proof {
        assert(out@ =~= spec_render_config(ts.view(), server@));
    }
    out
}

// ---------------------------------------------------------------------------
// The public builder and its laws
// ---------------------------------------------------------------------------

/// Builds the routing policy from the raw settings document and the server
/// endpoint. Fails exactly when the settings text is not well-formed JSON,
/// carrying a preview of it; a well-formed document that lacks members
/// still succeeds, with the documented defaults.
pub fn generate_sing_box_config(settings_text: &[u8], server_address: &[u8]) -> (r: Result<
    Vec<u8>,
    crate::errors::Error,
>)
    ensures
        match crate::json::spec_parse_json(settings_text@) {
            Some(doc) => r matches Ok(c) && c@ == spec_render_config(
                spec_settings_of(doc),
                server_address@,
            ),
            None => r matches Err(e) && e matches crate::errors::Error::ConfigError(p) && p@
                == crate::errors::spec_preview(settings_text@),
        },
{
    match crate::json::parse_json(settings_text) {
        Some(doc) => {
            let ts = settings_from_json(&doc);
            Ok(build_tun_config(&ts, server_address))
        },
        None => Err(crate::errors::Error::ConfigError(crate::errors::preview_of(settings_text))),
    }
}

/// Builds the routing policy as `generate_sing_box_config` does, but with
/// the SOCKS endpoint overridden. The covert-channel chain uses this to
/// point the routing engine at its local SSH SOCKS port without touching
/// the settings document.
pub fn generate_sing_box_config_with_proxy(
    settings_text: &[u8],
    server_address: &[u8],
    proxy_host: &[u8],
    proxy_port: u64,
) -> (r: Result<Vec<u8>, crate::errors::Error>)
    ensures
        match crate::json::spec_parse_json(settings_text@) {
            Some(doc) => r matches Ok(c) && c@ == spec_render_config(
                TunSettingsV { proxy_host: proxy_host@, proxy_port, ..spec_settings_of(doc) },
                server_address@,
            ),
            None => r matches Err(e) && e matches crate::errors::Error::ConfigError(p) && p@
                == crate::errors::spec_preview(settings_text@),
        },
{
    match crate::json::parse_json(settings_text) {
        Some(doc) => {
            let mut ts = settings_from_json(&doc);
            ts.proxy_host = crate::textutil::copy_range(proxy_host, 0, proxy_host.len());
            ts.proxy_port = proxy_port;
            proof {
                assert(proxy_host@.subrange(0, proxy_host@.len() as int) =~= proxy_host@);
                assert(ts.view() == TunSettingsV {
                    proxy_host: proxy_host@,
                    proxy_port,
                    ..spec_settings_of(doc.view())
                });
            }
            Ok(build_tun_config(&ts, server_address))
        },
        None => Err(crate::errors::Error::ConfigError(crate::errors::preview_of(settings_text))),
    }
}

/// The policy is a pure function of the settings and the server endpoint:
/// two documents built from the same inputs are identical, byte for byte.
pub proof fn lemma_config_deterministic(s: TunSettingsV, server: Seq<u8>, c1: Seq<u8>, c2: Seq<u8>)
    requires
        c1 == spec_render_config(s, server),
        c2 == spec_render_config(s, server),
    ensures
        c1 == c2,
{
}

/// True when a rule is the server bypass: it routes the given server
/// through `direct-out`, as `ip_cidr` for an IP literal and as `domain`
/// otherwise.
pub open spec fn spec_is_server_bypass(r: RouteRuleV, server: Seq<u8>) -> bool {
    r.outbound == Some(("direct-out").spec_bytes()) && (if crate::ipaddr::spec_is_ip_literal(
        server,
    ) {
        r.ip_cidr == Some(seq![server + ("/32").spec_bytes()])
    } else {
        r.domain == Some(seq![server])
    })
}

proof fn lemma_ascii_literal_bytes(s: &str)
    requires
        vstd::string::is_ascii(s),
    ensures
        s.spec_bytes().len() == s@.len(),
{
    vstd::string::is_ascii_spec_bytes(s);
}

/// The built policy holds exactly one server-bypass rule, and it is the
/// last one. For a server given as a name, a user direct-domain list that
/// consists of just that name is left out of consideration: such a rule
/// would be textually the same match.
pub proof fn lemma_server_bypass_exactly_once(s: TunSettingsV, server: Seq<u8>)
    requires
        crate::ipaddr::spec_is_ip_literal(server) || s.direct_domains != seq![server],
    ensures
        ({
            let rules = spec_route_rules(s, server);
            &&& rules.len() >= 2
            &&& spec_is_server_bypass(rules[rules.len() - 1], server)
            &&& forall|j: int| 0 <= j < rules.len() - 1 ==> !spec_is_server_bypass(rules[j], server)
        }),
{
    reveal_strlit("dns-out");
    reveal_strlit("direct-out");
    reveal_strlit("block-out");
    assert(vstd::string::is_ascii("dns-out"));
    assert(vstd::string::is_ascii("direct-out"));
    assert(vstd::string::is_ascii("block-out"));
    lemma_ascii_literal_bytes("dns-out");
    lemma_ascii_literal_bytes("direct-out");
    lemma_ascii_literal_bytes("block-out");
    assert(("dns-out").spec_bytes().len() == 7);
    assert(("direct-out").spec_bytes().len() == 10);
    assert(("block-out").spec_bytes().len() == 9);
    let rules = spec_route_rules(s, server);
    assert(spec_is_server_bypass(rules[rules.len() - 1], server));
    assert forall|j: int| 0 <= j < rules.len() - 1 implies !spec_is_server_bypass(
        rules[j],
        server,
    ) by {
        assert(!spec_is_server_bypass(spec_dns_rule(), server));
        assert(!spec_is_server_bypass(
            spec_domain_rule(s.block_domains, ("block-out").spec_bytes()),
            server,
        ));
        if !crate::ipaddr::spec_is_ip_literal(server) {
            assert(!spec_is_server_bypass(
                spec_domain_rule(s.direct_domains, ("direct-out").spec_bytes()),
                server,
            ));
        }
    }
}

// ---------------------------------------------------------------------------
// The WireGuard configurations
// ---------------------------------------------------------------------------

/// The WireGuard peer and key material the builder renders.
pub struct WgParams {
    pub server: Vec<u8>,
    pub port: u64,
    pub private_key: Vec<u8>,
    pub peer_public_key: Vec<u8>,
    pub pre_shared_key: Option<Vec<u8>>,
    pub local_addresses: Vec<Vec<u8>>,
    pub mtu: u64,
}

/// The mathematical shape of `WgParams`.
pub ghost struct WgParamsV {
    pub server: Seq<u8>,
    pub port: u64,
    pub private_key: Seq<u8>,
    pub peer_public_key: Seq<u8>,
    pub pre_shared_key: Option<Seq<u8>>,
    pub local_addresses: Seq<Seq<u8>>,
    pub mtu: u64,
}

impl WgParams {
    pub open spec fn view(&self) -> WgParamsV {
        WgParamsV {
            server: self.server@,
            port: self.port,
            private_key: self.private_key@,
            peer_public_key: self.peer_public_key@,
            pre_shared_key: match self.pre_shared_key {
                Some(k) => Some(k@),
                None => None,
            },
            local_addresses: self.local_addresses.deep_view(),
            mtu: self.mtu,
        }
    }
}

/// The rendered WireGuard outbound.
pub open spec fn spec_render_wg_outbound(p: WgParamsV) -> Seq<u8> {
    ("{\"type\":\"wireguard\",\"tag\":\"wireguard-out\",\"server\":").spec_bytes()
        + spec_json_str(p.server) + (",\"server_port\":").spec_bytes() + spec_u64_dec(
        p.port as nat,
    ) + (",\"private_key\":").spec_bytes() + spec_json_str(p.private_key) + (
    ",\"peer_public_key\":").spec_bytes() + spec_json_str(p.peer_public_key) + (
    match p.pre_shared_key {
        Some(k) => (",\"pre_shared_key\":").spec_bytes() + spec_json_str(k),
        None => Seq::empty(),
    }) + (",\"local_address\":").spec_bytes() + spec_render_str_array(p.local_addresses) + (
    ",\"mtu\":").spec_bytes() + spec_u64_dec(p.mtu as nat) + ("}").spec_bytes()
}

/// Appends the rendered pre-shared key field, if present.
fn push_wg_psk(out: &mut Vec<u8>, f: &Option<Vec<u8>>)
    ensures
        final(out)@ == old(out)@ + (match *f {
            Some(k) => (",\"pre_shared_key\":").spec_bytes() + spec_json_str(k@),
            None => Seq::empty(),
        }),
{
    match f {
        Some(k) => {
            push_str_bytes(out, ",\"pre_shared_key\":");
            push_json_str(out, k.as_slice());
        },
        None => {
            assert(out@ =~= old(out)@ + Seq::<u8>::empty());
        },
    }
}

/// Appends the rendered WireGuard outbound to `out`.
#[verifier::rlimit(60)]
pub fn push_wg_outbound(out: &mut Vec<u8>, p: &WgParams)
    ensures
        final(out)@ == old(out)@ + spec_render_wg_outbound(p.view()),
{
    push_str_bytes(out, "{\"type\":\"wireguard\",\"tag\":\"wireguard-out\",\"server\":");
    push_json_str(out, p.server.as_slice());
    push_str_bytes(out, ",\"server_port\":");
    push_u64_dec(out, p.port);
    push_str_bytes(out, ",\"private_key\":");
    push_json_str(out, p.private_key.as_slice());
    push_str_bytes(out, ",\"peer_public_key\":");
    push_json_str(out, p.peer_public_key.as_slice());
    let ghost c1 = old(out)@ + (
    "{\"type\":\"wireguard\",\"tag\":\"wireguard-out\",\"server\":").spec_bytes() + spec_json_str(
        p.server@,
    ) + (",\"server_port\":").spec_bytes() + spec_u64_dec(p.port as nat) + (
    ",\"private_key\":").spec_bytes() + spec_json_str(p.private_key@) + (
    ",\"peer_public_key\":").spec_bytes() + spec_json_str(p.peer_public_key@);
    proof {
        assert(out@ =~= c1);
    }
    push_wg_psk(out, &p.pre_shared_key);
    let ghost c2 = c1 + (match p.view().pre_shared_key {
        Some(k) => (",\"pre_shared_key\":").spec_bytes() + spec_json_str(k),
        None => Seq::empty(),
    });
    proof {
        assert(out@ =~= c2);
    }
    push_str_bytes(out, ",\"local_address\":");
    push_str_array(out, &p.local_addresses);
    push_str_bytes(out, ",\"mtu\":");
    push_u64_dec(out, p.mtu);
    push_str_bytes(out, "}");
    proof {
        assert(out@ =~= old(out)@ + spec_render_wg_outbound(p.view()));
    }
}

/// The rendered WireGuard TUN-mode configuration: the TUN inbound and DNS
/// of the settings, the WireGuard outbound, and a route whose default is
/// the tunnel.
pub open spec fn spec_render_wg_tun_config(s: TunSettingsV, p: WgParamsV) -> Seq<u8> {
    (
    "{\"log\":{\"level\":\"info\",\"timestamp\":true},\"dns\":{\"servers\":[{\"tag\":\"dns-remote\",\"address\":").spec_bytes()
        + spec_json_str(s.primary_dns) + (
    ",\"detour\":\"wireguard-out\"},{\"tag\":\"dns-local\",\"address\":").spec_bytes()
        + spec_json_str(s.secondary_dns) + (
    ",\"detour\":\"direct-out\"},{\"tag\":\"dns-block\",\"address\":\"rcode://success\"}],\"final\":\"dns-remote\",\"strategy\":\"prefer_ipv4\",\"independent_cache\":true},\"inbounds\":[{\"type\":\"tun\",\"tag\":\"CandyConnect\",\"interface_name\":\"CandyConnect\",\"inet4_address\":").spec_bytes()
        + spec_json_str(s.inet4) + (",\"inet6_address\":").spec_bytes() + spec_json_str(s.inet6)
        + (",\"mtu\":").spec_bytes() + spec_u64_dec(s.mtu as nat) + (
    ",\"auto_route\":true,\"strict_route\":false,\"sniff\":true,\"stack\":\"gvisor\",\"endpoint_independent_nat\":true}],\"outbounds\":[").spec_bytes()
        + spec_render_wg_outbound(p) + (
    ",{\"type\":\"direct\",\"tag\":\"direct-out\"},{\"type\":\"dns\",\"tag\":\"dns-out\"},{\"type\":\"block\",\"tag\":\"block-out\"}],\"route\":{\"rules\":[{\"protocol\":\"dns\",\"outbound\":\"dns-out\"}],\"final\":\"wireguard-out\",\"auto_detect_interface\":true}}").spec_bytes()
}

/// The rendered WireGuard proxy-mode configuration: a SOCKS inbound at the
/// user's proxy endpoint and the WireGuard outbound.
pub open spec fn spec_render_wg_proxy_config(
    proxy_host: Seq<u8>,
    proxy_port: u64,
    p: WgParamsV,
) -> Seq<u8> {
    ("{\"log\":{\"level\":\"info\",\"timestamp\":true},\"inbounds\":[{\"type\":\"socks\",\"tag\":\"socks-in\",\"listen\":").spec_bytes()
        + spec_json_str(proxy_host) + (",\"listen_port\":").spec_bytes() + spec_u64_dec(
        proxy_port as nat,
    ) + ("}],\"outbounds\":[").spec_bytes() + spec_render_wg_outbound(p) + (
    ",{\"type\":\"direct\",\"tag\":\"direct-out\"}],\"route\":{\"auto_detect_interface\":true}}").spec_bytes()
}

/// Renders the WireGuard TUN-mode configuration.
pub fn build_wireguard_tun_config(ts: &TunSettings, p: &WgParams) -> (r: Vec<u8>)
    ensures
        r@ == spec_render_wg_tun_config(ts.view(), p.view()),
{
    let mut out: Vec<u8> = Vec::new();
    push_str_bytes(
        &mut out,
        "{\"log\":{\"level\":\"info\",\"timestamp\":true},\"dns\":{\"servers\":[{\"tag\":\"dns-remote\",\"address\":",
    );
    push_json_str(&mut out, ts.primary_dns.as_slice());
    push_str_bytes(&mut out, ",\"detour\":\"wireguard-out\"},{\"tag\":\"dns-local\",\"address\":");
    push_json_str(&mut out, ts.secondary_dns.as_slice());
    push_str_bytes(
        &mut out,
        ",\"detour\":\"direct-out\"},{\"tag\":\"dns-block\",\"address\":\"rcode://success\"}],\"final\":\"dns-remote\",\"strategy\":\"prefer_ipv4\",\"independent_cache\":true},\"inbounds\":[{\"type\":\"tun\",\"tag\":\"CandyConnect\",\"interface_name\":\"CandyConnect\",\"inet4_address\":",
    );
    push_json_str(&mut out, ts.inet4.as_slice());
    push_str_bytes(&mut out, ",\"inet6_address\":");
    push_json_str(&mut out, ts.inet6.as_slice());
    push_str_bytes(&mut out, ",\"mtu\":");
    push_u64_dec(&mut out, ts.mtu);
    push_str_bytes(
        &mut out,
        ",\"auto_route\":true,\"strict_route\":false,\"sniff\":true,\"stack\":\"gvisor\",\"endpoint_independent_nat\":true}],\"outbounds\":[",
    );
    push_wg_outbound(&mut out, p);
    push_str_bytes(
        &mut out,
        ",{\"type\":\"direct\",\"tag\":\"direct-out\"},{\"type\":\"dns\",\"tag\":\"dns-out\"},{\"type\":\"block\",\"tag\":\"block-out\"}],\"route\":{\"rules\":[{\"protocol\":\"dns\",\"outbound\":\"dns-out\"}],\"final\":\"wireguard-out\",\"auto_detect_interface\":true}}",
    );
    proof {
        assert(out@ =~= spec_render_wg_tun_config(ts.view(), p.view()));
    }
    out
}

/// Renders the WireGuard proxy-mode configuration.
pub fn build_wireguard_proxy_config(proxy_host: &[u8], proxy_port: u64, p: &WgParams) -> (r: Vec<
    u8,
>)
    ensures
        r@ == spec_render_wg_proxy_config(proxy_host@, proxy_port, p.view()),
{
    let mut out: Vec<u8> = Vec::new();
    push_str_bytes(
        &mut out,
        "{\"log\":{\"level\":\"info\",\"timestamp\":true},\"inbounds\":[{\"type\":\"socks\",\"tag\":\"socks-in\",\"listen\":",
    );
    push_json_str(&mut out, proxy_host);
    push_str_bytes(&mut out, ",\"listen_port\":");
    push_u64_dec(&mut out, proxy_port);
    push_str_bytes(&mut out, "}],\"outbounds\":[");
    push_wg_outbound(&mut out, p);
    push_str_bytes(
        &mut out,
        ",{\"type\":\"direct\",\"tag\":\"direct-out\"}],\"route\":{\"auto_detect_interface\":true}}",
    );
    proof {
        assert(out@ =~= spec_render_wg_proxy_config(proxy_host@, proxy_port, p.view()));
    }
    out
}

/// The TUN settings the WireGuard builder reads, with its own defaults:
/// the DNS defaults are swapped relative to the policy builder and the
/// MTU default is the WireGuard one.
pub open spec fn spec_wg_settings_of(j: JsonV) -> TunSettingsV {
    TunSettingsV {
        primary_dns: spec_str_field(j, ("primaryDns").spec_bytes(), ("1.1.1.1").spec_bytes()),
        secondary_dns: spec_str_field(
            j,
            ("secondaryDns").spec_bytes(),
            ("8.8.8.8").spec_bytes(),
        ),
        inet4: spec_str_field(j, ("tunInet4CIDR").spec_bytes(), ("172.19.0.1/30").spec_bytes()),
        inet6: spec_str_field(
            j,
            ("tunInet6CIDR").spec_bytes(),
            ("fdfe:dcba:9876::1/126").spec_bytes(),
        ),
        mtu: spec_u64_field(j, ("mtu").spec_bytes(), 1420),
        proxy_host: spec_str_field(j, ("proxyHost").spec_bytes(), ("127.0.0.1").spec_bytes()),
        proxy_port: spec_u64_field(j, ("proxyPort").spec_bytes(), 1080),
        direct_domains: Seq::empty(),
        block_domains: Seq::empty(),
    }
}

/// Reads the WireGuard builder settings out of a parsed settings document.
pub fn wg_settings_from_json(doc: &Json) -> (r: TunSettings)
    ensures
        r.view() == spec_wg_settings_of(doc.view()),
{
    let r = TunSettings {
        primary_dns: str_field(doc, "primaryDns", "1.1.1.1"),
        secondary_dns: str_field(doc, "secondaryDns", "8.8.8.8"),
        inet4: str_field(doc, "tunInet4CIDR", "172.19.0.1/30"),
        inet6: str_field(doc, "tunInet6CIDR", "fdfe:dcba:9876::1/126"),
        mtu: u64_field(doc, "mtu", 1420),
        proxy_host: str_field(doc, "proxyHost", "127.0.0.1"),
        proxy_port: u64_field(doc, "proxyPort", 1080),
        direct_domains: Vec::new(),
        block_domains: Vec::new(),
    };
    proof {
        assert(r.direct_domains.deep_view() =~= Seq::<Seq<u8>>::empty());
        assert(r.block_domains.deep_view() =~= Seq::<Seq<u8>>::empty());
    }
    r
}

/// The WireGuard settings for a settings document that may be absent or
/// malformed: defaults then apply throughout.
pub open spec fn spec_wg_settings_of_text(settings_text: Seq<u8>) -> TunSettingsV {
    match crate::json::spec_parse_json(settings_text) {
        Some(doc) => spec_wg_settings_of(doc),
        None => spec_wg_settings_of(JsonV::Null),
    }
}

/// Builds the sing-box configuration for a WireGuard session. A missing or
/// malformed settings document is not an error: the defaults stand in, as
/// they do member by member.
pub fn build_wireguard_config(settings_text: &[u8], tun_mode: bool, p: &WgParams) -> (r: Vec<u8>)
    ensures
        ({
            let s = spec_wg_settings_of_text(settings_text@);
            if tun_mode {
                r@ == spec_render_wg_tun_config(s, p.view())
            } else {
                r@ == spec_render_wg_proxy_config(s.proxy_host, s.proxy_port, p.view())
            }
        }),
{
    let ts = match crate::json::parse_json(settings_text) {
        Some(doc) => wg_settings_from_json(&doc),
        None => wg_settings_from_json(&Json::Null),
    };
    if tun_mode {
        build_wireguard_tun_config(&ts, p)
    } else {
        build_wireguard_proxy_config(ts.proxy_host.as_slice(), ts.proxy_port, p)
    }
}

} // verus!
