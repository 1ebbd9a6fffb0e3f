//! Chain composition: which helpers a protocol needs, in which order, and
//! with exactly which command lines, environment and health-check windows.
//! The application only spawns what these plans say.

use vstd::prelude::*;
use vstd::string::StringSliceAdditionalSpecFns;
use crate::json::Json;
use crate::session::Role;
use crate::textutil::{
    bytes_of,
    clone_bytes,
    copy_range,
    push_str_bytes,
    push_u64_dec,
    spec_u64_dec,
    str_bytes_eq,
};

verus! {

/// The protocols the orchestrator can run.
#[derive(PartialEq, Eq, Structural, Clone, Copy, Debug)]
pub enum Protocol {
    V2ray,
    Wireguard,
    OpenVpn,
    Dnstt,
    NativeL2tp,
    NativeIkev2,
}

/// Whether the session routes the whole system or offers a proxy.
#[derive(PartialEq, Eq, Structural, Clone, Copy, Debug)]
pub enum Mode {
    Proxy,
    Tun,
}

/// The chain each protocol and mode needs, in start order.
pub open spec fn spec_chain_roles(p: Protocol, m: Mode) -> Seq<Role> {
    match p {
        Protocol::V2ray => if m == Mode::Tun {
            seq![Role::Xray, Role::SingBox]
        } else {
            seq![Role::Xray]
        },
        Protocol::Wireguard => seq![Role::SingBox],
        Protocol::OpenVpn => seq![Role::OpenVpn],
        Protocol::Dnstt => if m == Mode::Tun {
            seq![Role::DnsttClient, Role::SshTunnel, Role::SingBox]
        } else {
            seq![Role::DnsttClient, Role::SshTunnel]
        },
        Protocol::NativeL2tp => seq![Role::NativeVpn],
        Protocol::NativeIkev2 => seq![Role::NativeVpn],
    }
}

/// The chain each protocol and mode needs, in start order.
pub fn chain_roles(p: Protocol, m: Mode) -> (r: Vec<Role>)
    ensures
        r@ == spec_chain_roles(p, m),
{
    let mut out: Vec<Role> = Vec::new();
    match p {
        Protocol::V2ray => {
            out.push(Role::Xray);
            if m == Mode::Tun {
                out.push(Role::SingBox);
            }
        },
        Protocol::Wireguard => {
            out.push(Role::SingBox);
        },
        Protocol::OpenVpn => {
            out.push(Role::OpenVpn);
        },
        Protocol::Dnstt => {
            out.push(Role::DnsttClient);
            out.push(Role::SshTunnel);
            if m == Mode::Tun {
                out.push(Role::SingBox);
            }
        },
        Protocol::NativeL2tp => {
            out.push(Role::NativeVpn);
        },
        Protocol::NativeIkev2 => {
            out.push(Role::NativeVpn);
        },
    }
    proof {
        assert(out@ =~= spec_chain_roles(p, m));
    }
    out
}

/// One helper invocation: program, arguments, extra environment, the
/// member role, and how long the health-check window stays open.
pub struct CmdSpec {
    pub program: Vec<u8>,
    pub args: Vec<Vec<u8>>,
    pub env: Vec<(Vec<u8>, Vec<u8>)>,
    pub health_check_ms: u64,
    pub role: Role,
}

/// The mathematical shape of a helper invocation.
pub ghost struct CmdSpecV {
    pub program: Seq<u8>,
    pub args: Seq<Seq<u8>>,
    pub env: Seq<(Seq<u8>, Seq<u8>)>,
    pub health_check_ms: u64,
    pub role: Role,
}

impl CmdSpec {
    pub open spec fn view(&self) -> CmdSpecV {
        CmdSpecV {
            program: self.program@,
            args: self.args.deep_view(),
            env: Seq::new(self.env@.len(), |i: int| (self.env@[i].0@, self.env@[i].1@)),
            health_check_ms: self.health_check_ms,
            role: self.role,
        }
    }
}

// ---------------------------------------------------------------------------
// The covert-channel resolver table
// ---------------------------------------------------------------------------

/// The DNS-resolver flag and address for a resolver setting; anything
/// unrecognized falls back to plain UDP against the default resolver.
pub open spec fn spec_resolve_dnstt_resolver(r: Seq<u8>) -> (Seq<u8>, Seq<u8>) {
    if r == ("udp-google").spec_bytes() {
        (("-udp").spec_bytes(), ("8.8.8.8:53").spec_bytes())
    } else if r == ("udp-cloudflare").spec_bytes() {
        (("-udp").spec_bytes(), ("1.1.1.1:53").spec_bytes())
    } else if r == ("udp-quad9").spec_bytes() {
        (("-udp").spec_bytes(), ("9.9.9.9:53").spec_bytes())
    } else if r == ("udp-opendns").spec_bytes() {
        (("-udp").spec_bytes(), ("208.67.222.222:53").spec_bytes())
    } else if r == ("dot-google").spec_bytes() {
        (("-dot").spec_bytes(), ("dns.google:853").spec_bytes())
    } else if r == ("dot-cloudflare").spec_bytes() {
        (("-dot").spec_bytes(), ("cloudflare-dns.com:853").spec_bytes())
    } else if r == ("dot-quad9").spec_bytes() {
        (("-dot").spec_bytes(), ("dns.quad9.net:853").spec_bytes())
    } else if r == ("doh-google").spec_bytes() {
        (("-doh").spec_bytes(), ("https://dns.google/dns-query").spec_bytes())
    } else if r == ("doh-cloudflare").spec_bytes() {
        (("-doh").spec_bytes(), ("https://cloudflare-dns.com/dns-query").spec_bytes())
    } else if r == ("doh-quad9").spec_bytes() {
        (("-doh").spec_bytes(), ("https://dns.quad9.net/dns-query").spec_bytes())
    } else {
        (("-udp").spec_bytes(), ("8.8.8.8:53").spec_bytes())
    }
}

/// Resolves the DNS-resolver setting into the flag and address handed to
/// the covert-channel client.
pub fn resolve_dnstt_resolver(resolver: &str) -> (r: (&'static str, &'static str))
    ensures
        (r.0.spec_bytes(), r.1.spec_bytes()) == spec_resolve_dnstt_resolver(
            resolver.spec_bytes(),
        ),
{
    if str_bytes_eq(resolver, "udp-google".as_bytes()) {
        ("-udp", "8.8.8.8:53")
    } else if str_bytes_eq(resolver, "udp-cloudflare".as_bytes()) {
        ("-udp", "1.1.1.1:53")
    } else if str_bytes_eq(resolver, "udp-quad9".as_bytes()) {
        ("-udp", "9.9.9.9:53")
    } else if str_bytes_eq(resolver, "udp-opendns".as_bytes()) {
        ("-udp", "208.67.222.222:53")
    } else if str_bytes_eq(resolver, "dot-google".as_bytes()) {
        ("-dot", "dns.google:853")
    } else if str_bytes_eq(resolver, "dot-cloudflare".as_bytes()) {
        ("-dot", "cloudflare-dns.com:853")
    } else if str_bytes_eq(resolver, "dot-quad9".as_bytes()) {
        ("-dot", "dns.quad9.net:853")
    } else if str_bytes_eq(resolver, "doh-google".as_bytes()) {
        ("-doh", "https://dns.google/dns-query")
    } else if str_bytes_eq(resolver, "doh-cloudflare".as_bytes()) {
        ("-doh", "https://cloudflare-dns.com/dns-query")
    } else if str_bytes_eq(resolver, "doh-quad9".as_bytes()) {
        ("-doh", "https://dns.quad9.net/dns-query")
    } else {
        ("-udp", "8.8.8.8:53")
    }
}

// ---------------------------------------------------------------------------
// Helper command lines
// ---------------------------------------------------------------------------

/// The obfuscation engine: `xray -c <config>`, half a second to prove
/// itself.
pub open spec fn spec_xray_command(bin: Seq<u8>, config_path: Seq<u8>) -> CmdSpecV {
    CmdSpecV {
        program: bin,
        args: seq![("-c").spec_bytes(), config_path],
        env: Seq::empty(),
        health_check_ms: 500,
        role: Role::Xray,
    }
}

/// Builds the obfuscation-engine invocation.
pub fn xray_command(bin: &[u8], config_path: &[u8]) -> (r: CmdSpec)
    ensures
        r.view() == spec_xray_command(bin@, config_path@),
{
    let mut args: Vec<Vec<u8>> = Vec::new();
    args.push(bytes_of("-c"));
    args.push(copy_range(config_path, 0, config_path.len()));
    let r = CmdSpec {
        program: copy_range(bin, 0, bin.len()),
        args,
        env: Vec::new(),
        health_check_ms: 500,
        role: Role::Xray,
    };
    proof {
        assert(bin@.subrange(0, bin@.len() as int) =~= bin@);
        assert(r.view().args =~~= spec_xray_command(bin@, config_path@).args);
        assert(r.view().env =~= spec_xray_command(bin@, config_path@).env);
    }
    r
}

/// The routing engine: `sing-box run -c <config>`, with the
/// compatibility switches its configuration relies on.
pub open spec fn spec_sing_box_command(bin: Seq<u8>, config_path: Seq<u8>, health_ms: u64) -> CmdSpecV {
    CmdSpecV {
        program: bin,
        args: seq![("run").spec_bytes(), ("-c").spec_bytes(), config_path],
        env: seq![
            (
                ("ENABLE_DEPRECATED_SPECIAL_OUTBOUNDS").spec_bytes(),
                ("true").spec_bytes(),
            ),
            (("ENABLE_DEPRECATED_TUN_ADDRESS_X").spec_bytes(), ("true").spec_bytes()),
            (
                ("ENABLE_DEPRECATED_WIREGUARD_OUTBOUND").spec_bytes(),
                ("true").spec_bytes(),
            ),
        ],
        health_check_ms: health_ms,
        role: Role::SingBox,
    }
}

/// Builds the routing-engine invocation.
pub fn sing_box_command(bin: &[u8], config_path: &[u8], health_ms: u64) -> (r: CmdSpec)
    ensures
        r.view() == spec_sing_box_command(bin@, config_path@, health_ms),
{
    let mut args: Vec<Vec<u8>> = Vec::new();
    args.push(bytes_of("run"));
    args.push(bytes_of("-c"));
    args.push(copy_range(config_path, 0, config_path.len()));
    let mut env: Vec<(Vec<u8>, Vec<u8>)> = Vec::new();
    env.push((bytes_of("ENABLE_DEPRECATED_SPECIAL_OUTBOUNDS"), bytes_of("true")));
    env.push((bytes_of("ENABLE_DEPRECATED_TUN_ADDRESS_X"), bytes_of("true")));
    env.push((bytes_of("ENABLE_DEPRECATED_WIREGUARD_OUTBOUND"), bytes_of("true")));
    let r = CmdSpec {
        program: copy_range(bin, 0, bin.len()),
        args,
        env,
        health_check_ms: health_ms,
        role: Role::SingBox,
    };
    proof {
        assert(bin@.subrange(0, bin@.len() as int) =~= bin@);
        assert(r.view().args =~~= spec_sing_box_command(bin@, config_path@, health_ms).args);
        assert(r.view().env =~= spec_sing_box_command(bin@, config_path@, health_ms).env);
    }
    r
}

/// The OpenVPN client: configuration and credential file, no credential
/// caching, verbosity three; a session needs a moment longer to prove
/// itself. Off Windows the invocation is wrapped in `sudo` unless the
/// process already runs as root, for the TUN device needs it.
pub open spec fn spec_openvpn_args(config_path: Seq<u8>, auth_path: Seq<u8>) -> Seq<Seq<u8>> {
    seq![
        ("--config").spec_bytes(),
        config_path,
        ("--auth-user-pass").spec_bytes(),
        auth_path,
        ("--auth-nocache").spec_bytes(),
        ("--verb").spec_bytes(),
        ("3").spec_bytes(),
    ]
}

/// The OpenVPN invocation, possibly wrapped in `sudo`.
pub open spec fn spec_openvpn_command(
    bin: Seq<u8>,
    config_path: Seq<u8>,
    auth_path: Seq<u8>,
    wrap_sudo: bool,
) -> CmdSpecV {
    if wrap_sudo {
        CmdSpecV {
            program: ("sudo").spec_bytes(),
            args: seq![bin] + spec_openvpn_args(config_path, auth_path),
            env: Seq::empty(),
            health_check_ms: 1500,
            role: Role::OpenVpn,
        }
    } else {
        CmdSpecV {
            program: bin,
            args: spec_openvpn_args(config_path, auth_path),
            env: Seq::empty(),
            health_check_ms: 1500,
            role: Role::OpenVpn,
        }
    }
}

/// Builds the OpenVPN invocation.
pub fn openvpn_command(bin: &[u8], config_path: &[u8], auth_path: &[u8], wrap_sudo: bool) -> (r:
    CmdSpec)
    ensures
        r.view() == spec_openvpn_command(bin@, config_path@, auth_path@, wrap_sudo),
{
    let mut args: Vec<Vec<u8>> = Vec::new();
    if wrap_sudo {
        args.push(copy_range(bin, 0, bin.len()));
    }
    args.push(bytes_of("--config"));
    args.push(copy_range(config_path, 0, config_path.len()));
    args.push(bytes_of("--auth-user-pass"));
    args.push(copy_range(auth_path, 0, auth_path.len()));
    args.push(bytes_of("--auth-nocache"));
    args.push(bytes_of("--verb"));
    args.push(bytes_of("3"));
    let program = if wrap_sudo {
        bytes_of("sudo")
    } else {
        copy_range(bin, 0, bin.len())
    };
    let r = CmdSpec { program, args, env: Vec::new(), health_check_ms: 1500, role: Role::OpenVpn };
    proof {
        assert(bin@.subrange(0, bin@.len() as int) =~= bin@);
        assert(r.view().args =~~= spec_openvpn_command(bin@, config_path@, auth_path@, wrap_sudo).args);
        assert(r.view().env =~= Seq::<(Seq<u8>, Seq<u8>)>::empty());
    }
    r
}

/// The credential file OpenVPN reads: the name on the first line, the
/// password on the second. It is deleted when the session ends.
pub open spec fn spec_openvpn_auth_file(user: Seq<u8>, pass: Seq<u8>) -> Seq<u8> {
    user + ("\n").spec_bytes() + pass + ("\n").spec_bytes()
}

/// Builds the OpenVPN credential file.
pub fn openvpn_auth_file(user: &[u8], pass: &[u8]) -> (r: Vec<u8>)
    ensures
        r@ == spec_openvpn_auth_file(user@, pass@),
{
    let mut out: Vec<u8> = Vec::new();
    crate::textutil::push_bytes(&mut out, user);
    push_str_bytes(&mut out, "\n");
    crate::textutil::push_bytes(&mut out, pass);
    push_str_bytes(&mut out, "\n");
    proof {
        assert(out@ =~= spec_openvpn_auth_file(user@, pass@));
    }
    out
}

// ---------------------------------------------------------------------------
// The covert-channel chain
// ---------------------------------------------------------------------------

/// Where the covert channel listens: one port above the SOCKS port, on
/// the loopback interface.
pub open spec fn spec_dnstt_listen_addr(proxy_port: u64) -> Seq<u8>
    recommends
        proxy_port < u64::MAX,
{
    ("127.0.0.1:").spec_bytes() + spec_u64_dec((proxy_port + 1) as nat)
}

/// The SOCKS endpoint the SSH tunnel offers.
pub open spec fn spec_socks_addr(proxy_host: Seq<u8>, proxy_port: u64) -> Seq<u8> {
    proxy_host + (":").spec_bytes() + spec_u64_dec(proxy_port as nat)
}

/// The covert-channel client: resolver flag and address, the server's
/// public key and domain, and the loopback listen address.
pub open spec fn spec_dnstt_command(
    bin: Seq<u8>,
    resolver: Seq<u8>,
    public_key: Seq<u8>,
    domain: Seq<u8>,
    proxy_port: u64,
) -> CmdSpecV
    recommends
        proxy_port < u64::MAX,
{
    let flag_addr = spec_resolve_dnstt_resolver(resolver);
    CmdSpecV {
        program: bin,
        args: seq![
            flag_addr.0,
            flag_addr.1,
            ("-pubkey").spec_bytes(),
            public_key,
            domain,
            spec_dnstt_listen_addr(proxy_port),
        ],
        env: Seq::empty(),
        health_check_ms: 800,
        role: Role::DnsttClient,
    }
}

/// Builds the covert-channel client invocation.
pub fn dnstt_command(
    bin: &[u8],
    resolver: &str,
    public_key: &[u8],
    domain: &[u8],
    proxy_port: u64,
) -> (r: CmdSpec)
    requires
        proxy_port < u64::MAX,
    ensures
        r.view() == spec_dnstt_command(bin@, resolver.spec_bytes(), public_key@, domain@, proxy_port),
{
    let (flag, addr) = resolve_dnstt_resolver(resolver);
    let mut listen: Vec<u8> = Vec::new();
    push_str_bytes(&mut listen, "127.0.0.1:");
    push_u64_dec(&mut listen, proxy_port + 1);
    let mut args: Vec<Vec<u8>> = Vec::new();
    args.push(bytes_of(flag));
    args.push(bytes_of(addr));
    args.push(bytes_of("-pubkey"));
    args.push(copy_range(public_key, 0, public_key.len()));
    args.push(copy_range(domain, 0, domain.len()));
    args.push(listen);
    let r = CmdSpec {
        program: copy_range(bin, 0, bin.len()),
        args,
        env: Vec::new(),
        health_check_ms: 800,
        role: Role::DnsttClient,
    };
    proof {
        assert(bin@.subrange(0, bin@.len() as int) =~= bin@);
        assert(r.view().args =~~= spec_dnstt_command(
            bin@,
            resolver.spec_bytes(),
            public_key@,
            domain@,
            proxy_port,
        ).args);
        assert(r.view().env =~= Seq::<(Seq<u8>, Seq<u8>)>::empty());
    }
    r
}

/// The SSH tunnel through the covert channel. On Windows it is `plink`
/// with password authentication, non-interactive and with any host key
/// accepted, for the channel ends on the loopback interface; elsewhere it
/// is `sshpass` running `ssh` with host-key checks off and keepalives on.
/// Either way it opens a dynamic SOCKS forward at the user's proxy
/// endpoint and connects to the channel one port above it.
pub open spec fn spec_ssh_tunnel_command(
    windows: bool,
    plink_bin: Seq<u8>,
    proxy_host: Seq<u8>,
    proxy_port: u64,
    ssh_user: Seq<u8>,
    ssh_pass: Seq<u8>,
) -> CmdSpecV
    recommends
        proxy_port < u64::MAX,
{
    let socks = spec_socks_addr(proxy_host, proxy_port);
    let port_dec = spec_u64_dec((proxy_port + 1) as nat);
    if windows {
        CmdSpecV {
            program: plink_bin,
            args: seq![
                ("-ssh").spec_bytes(),
                ("-N").spec_bytes(),
                ("-D").spec_bytes(),
                socks,
                ("-P").spec_bytes(),
                port_dec,
                ("-l").spec_bytes(),
                ssh_user,
                ("-pw").spec_bytes(),
                ssh_pass,
                ("-batch").spec_bytes(),
                ("-hostkey").spec_bytes(),
                ("*").spec_bytes(),
                ("127.0.0.1").spec_bytes(),
            ],
            env: Seq::empty(),
            health_check_ms: 1500,
            role: Role::SshTunnel,
        }
    } else {
        CmdSpecV {
            program: ("sshpass").spec_bytes(),
            args: seq![
                ("-p").spec_bytes(),
                ssh_pass,
                ("ssh").spec_bytes(),
                ("-D").spec_bytes(),
                socks,
                ("-N").spec_bytes(),
                ("-p").spec_bytes(),
                port_dec,
                ("-o").spec_bytes(),
                ("StrictHostKeyChecking=no").spec_bytes(),
                ("-o").spec_bytes(),
                ("UserKnownHostsFile=/dev/null").spec_bytes(),
                ("-o").spec_bytes(),
                ("ServerAliveInterval=30").spec_bytes(),
                ("-o").spec_bytes(),
                ("ServerAliveCountMax=3").spec_bytes(),
                ssh_user + ("@127.0.0.1").spec_bytes(),
            ],
            env: Seq::empty(),
            health_check_ms: 1500,
            role: Role::SshTunnel,
        }
    }
}

/// Builds the SSH tunnel invocation.
pub fn ssh_tunnel_command(
    windows: bool,
    plink_bin: &[u8],
    proxy_host: &[u8],
    proxy_port: u64,
    ssh_user: &[u8],
    ssh_pass: &[u8],
) -> (r: CmdSpec)
    requires
        proxy_port < u64::MAX,
    ensures
        r.view() == spec_ssh_tunnel_command(
            windows,
            plink_bin@,
            proxy_host@,
            proxy_port,
            ssh_user@,
            ssh_pass@,
        ),
{
    let mut socks: Vec<u8> = Vec::new();
    crate::textutil::push_bytes(&mut socks, proxy_host);
    push_str_bytes(&mut socks, ":");
    push_u64_dec(&mut socks, proxy_port);
    let mut port_dec: Vec<u8> = Vec::new();
    push_u64_dec(&mut port_dec, proxy_port + 1);
    let mut args: Vec<Vec<u8>> = Vec::new();
    let program: Vec<u8>;
    if windows {
        program = copy_range(plink_bin, 0, plink_bin.len());
        args.push(bytes_of("-ssh"));
        args.push(bytes_of("-N"));
        args.push(bytes_of("-D"));
        args.push(socks);
        args.push(bytes_of("-P"));
        args.push(port_dec);
        args.push(bytes_of("-l"));
        args.push(copy_range(ssh_user, 0, ssh_user.len()));
        args.push(bytes_of("-pw"));
        args.push(copy_range(ssh_pass, 0, ssh_pass.len()));
        args.push(bytes_of("-batch"));
        args.push(bytes_of("-hostkey"));
        args.push(bytes_of("*"));
        args.push(bytes_of("127.0.0.1"));
    } else {
        program = bytes_of("sshpass");
        let mut target: Vec<u8> = Vec::new();
        crate::textutil::push_bytes(&mut target, ssh_user);
        push_str_bytes(&mut target, "@127.0.0.1");
        args.push(bytes_of("-p"));
        args.push(copy_range(ssh_pass, 0, ssh_pass.len()));
        args.push(bytes_of("ssh"));
        args.push(bytes_of("-D"));
        args.push(socks);
        args.push(bytes_of("-N"));
        args.push(bytes_of("-p"));
        args.push(port_dec);
        args.push(bytes_of("-o"));
        args.push(bytes_of("StrictHostKeyChecking=no"));
        args.push(bytes_of("-o"));
        args.push(bytes_of("UserKnownHostsFile=/dev/null"));
        args.push(bytes_of("-o"));
        args.push(bytes_of("ServerAliveInterval=30"));
        args.push(bytes_of("-o"));
        args.push(bytes_of("ServerAliveCountMax=3"));
        args.push(target);
    }
    let r = CmdSpec { program, args, env: Vec::new(), health_check_ms: 1500, role: Role::SshTunnel };
    proof {
        assert(plink_bin@.subrange(0, plink_bin@.len() as int) =~= plink_bin@);
        assert(r.view().args =~~= spec_ssh_tunnel_command(
            windows,
            plink_bin@,
            proxy_host@,
            proxy_port,
            ssh_user@,
            ssh_pass@,
        ).args);
        assert(r.view().env =~= Seq::<(Seq<u8>, Seq<u8>)>::empty());
    }
    r
}

// ---------------------------------------------------------------------------
// Engine config inspection
// ---------------------------------------------------------------------------

/// The server endpoint written in an obfuscation-engine configuration:
/// `outbounds[0].settings.vnext[0].address`.
pub open spec fn spec_vnext_address(doc: crate::json::JsonV) -> Option<Seq<u8>> {
    match doc.spec_get(("outbounds").spec_bytes()) {
        Some(outbounds) => match outbounds.spec_at(0) {
            Some(ob) => match ob.spec_get(("settings").spec_bytes()) {
                Some(st) => match st.spec_get(("vnext").spec_bytes()) {
                    Some(vnext) => match vnext.spec_at(0) {
                        Some(v0) => match v0.spec_get(("address").spec_bytes()) {
                            Some(a) => a.spec_as_str(),
                            None => None,
                        },
                        None => None,
                    },
                    None => None,
                },
                None => None,
            },
            None => None,
        },
        None => None,
    }
}

/// Reads the server endpoint out of a parsed engine configuration.
pub fn extract_vnext_address(doc: &Json) -> (r: Option<Vec<u8>>)
    ensures
        match spec_vnext_address(doc.view()) {
            Some(a) => r matches Some(v) && v@ == a,
            None => r is None,
        },
{
    match doc.get("outbounds".as_bytes()) {
        Some(outbounds) => match outbounds.at(0) {
            Some(ob) => match ob.get("settings".as_bytes()) {
                Some(st) => match st.get("vnext".as_bytes()) {
                    Some(vnext) => match vnext.at(0) {
                        Some(v0) => match v0.get("address".as_bytes()) {
                            Some(a) => match a.as_str() {
                                Some(s) => Some(clone_bytes(s)),
                                None => None,
                            },
                            None => None,
                        },
                        None => None,
                    },
                    None => None,
                },
                None => None,
            },
            None => None,
        },
        None => None,
    }
}

/// The companion server endpoint for a TUN session: the address written
/// in the engine configuration, or the loopback address when the
/// configuration does not parse or holds none.
pub open spec fn spec_xray_server_address(config: Seq<u8>) -> Seq<u8> {
    match crate::json::spec_parse_json(config) {
        Some(doc) => match spec_vnext_address(doc) {
            Some(a) => a,
            None => ("127.0.0.1").spec_bytes(),
        },
        None => ("127.0.0.1").spec_bytes(),
    }
}

/// Reads the companion server endpoint out of the raw engine
/// configuration text.
pub fn xray_server_address(config: &[u8]) -> (r: Vec<u8>)
    ensures
        r@ == spec_xray_server_address(config@),
{
    match crate::json::parse_json(config) {
        Some(doc) => match extract_vnext_address(&doc) {
            Some(a) => a,
            None => bytes_of("127.0.0.1"),
        },
        None => bytes_of("127.0.0.1"),
    }
}

/// Accepts an engine configuration exactly when it is well-formed JSON;
/// anything else is a configuration error carrying a preview of the text.
pub fn validate_xray_config(config: &[u8]) -> (r: Result<Json, crate::errors::Error>)
    ensures
        match crate::json::spec_parse_json(config@) {
            Some(doc) => r matches Ok(j) && j.view() == doc,
            None => r matches Err(e) && e matches crate::errors::Error::ConfigError(p) && p@
                == crate::errors::spec_preview(config@),
        },
{
    match crate::json::parse_json(config) {
        Some(doc) => Ok(doc),
        None => Err(crate::errors::Error::ConfigError(crate::errors::preview_of(config))),
    }
}

/// The two-level binary search of the resource tree: the plain location
/// wins, the `resources` sub-tree is second, and a missing binary falls
/// back to the plain location so the spawn error names it.
pub fn resolve_tool_choice(primary_exists: bool, secondary_exists: bool) -> (r: bool)
    ensures
        r == (primary_exists || !secondary_exists),
{
    primary_exists || !secondary_exists
}

} // verus!
