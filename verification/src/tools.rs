//! Which helper binaries ship with the client, where they sit in the
//! resource tree, and which ones are missing given what the file system
//! showed.

use vstd::prelude::*;
use vstd::string::StringSliceAdditionalSpecFns;
use crate::textutil::bytes_of;

verus! {

/// The bundled tools and their relative paths: each helper under its own
/// directory, the covert-channel client at the top, with the Windows
/// suffix where asked.
pub open spec fn spec_tool_rel_paths(windows: bool) -> Seq<(Seq<u8>, Seq<u8>)> {
    if windows {
        seq![
            (("xray").spec_bytes(), ("xray/xray.exe").spec_bytes()),
            (("sing-box").spec_bytes(), ("sing-box/sing-box.exe").spec_bytes()),
            (("dnstt").spec_bytes(), ("dnstt-client.exe").spec_bytes()),
        ]
    } else {
        seq![
            (("xray").spec_bytes(), ("xray/xray").spec_bytes()),
            (("sing-box").spec_bytes(), ("sing-box/sing-box").spec_bytes()),
            (("dnstt").spec_bytes(), ("dnstt-client").spec_bytes()),
        ]
    }
}

/// The bundled tools and their relative paths.
pub fn tool_rel_paths(windows: bool) -> (r: Vec<(Vec<u8>, Vec<u8>)>)
    ensures
        Seq::new(r@.len(), |i: int| (r@[i].0@, r@[i].1@)) == spec_tool_rel_paths(windows),
{
    let mut out: Vec<(Vec<u8>, Vec<u8>)> = Vec::new();
    if windows {
        out.push((bytes_of("xray"), bytes_of("xray/xray.exe")));
        out.push((bytes_of("sing-box"), bytes_of("sing-box/sing-box.exe")));
        out.push((bytes_of("dnstt"), bytes_of("dnstt-client.exe")));
    } else {
        out.push((bytes_of("xray"), bytes_of("xray/xray")));
        out.push((bytes_of("sing-box"), bytes_of("sing-box/sing-box")));
        out.push((bytes_of("dnstt"), bytes_of("dnstt-client")));
    }
    proof {
        assert(Seq::new(out@.len(), |i: int| (out@[i].0@, out@[i].1@)) =~= spec_tool_rel_paths(
            windows,
        ));
    }
    out
}

/// The names of the tools that are missing, in the fixed check order;
/// the OpenVPN binary is only the client's own concern on Windows, where
/// it ships bundled.
pub open spec fn spec_missing_tools(
    xray_found: bool,
    sing_box_found: bool,
    dnstt_found: bool,
    windows: bool,
    openvpn_found: bool,
) -> Seq<Seq<u8>> {
    (if !xray_found {
        seq![("xray").spec_bytes()]
    } else {
        Seq::empty()
    }) + (if !sing_box_found {
        seq![("sing-box").spec_bytes()]
    } else {
        Seq::empty()
    }) + (if !dnstt_found {
        seq![("dnstt").spec_bytes()]
    } else {
        Seq::empty()
    }) + (if windows && !openvpn_found {
        seq![("openvpn").spec_bytes()]
    } else {
        Seq::empty()
    })
}

/// Lists the missing tools, given which of them the file system showed.
pub fn check_system_executables(
    xray_found: bool,
    sing_box_found: bool,
    dnstt_found: bool,
    windows: bool,
    openvpn_found: bool,
) -> (r: Vec<Vec<u8>>)
    ensures
        r.deep_view() == spec_missing_tools(
            xray_found,
            sing_box_found,
            dnstt_found,
            windows,
            openvpn_found,
        ),
{
    let mut out: Vec<Vec<u8>> = Vec::new();
    if !xray_found {
        out.push(bytes_of("xray"));
    }
    if !sing_box_found {
        out.push(bytes_of("sing-box"));
    }
    if !dnstt_found {
        out.push(bytes_of("dnstt"));
    }
    if windows && !openvpn_found {
        out.push(bytes_of("openvpn"));
    }
    proof {
        assert(out.deep_view() =~~= spec_missing_tools(
            xray_found,
            sing_box_found,
            dnstt_found,
            windows,
            openvpn_found,
        ));
    }
    out
}

/// The settings document a fresh installation starts with: every
/// recognized option at its default.
pub open spec fn spec_default_settings_text() -> Seq<u8> {
    (
    "{\"adBlocking\":true,\"autoConnect\":false,\"autoReconnect\":true,\"cryptominerBlocking\":false,\"customBlockDomains\":[],\"customDirectDomains\":[],\"directCountryAccess\":true,\"dnsLeakProtection\":true,\"dnsttProxyPort\":7070,\"dnsttResolver\":\"auto\",\"ikev2AuthMethod\":\"eap\",\"killSwitch\":false,\"l2tpPsk\":\"\",\"language\":\"en\",\"launchAtStartup\":false,\"malwareProtection\":true,\"mtu\":9000,\"phishingPrevention\":false,\"primaryDns\":\"8.8.8.8\",\"proxyHost\":\"127.0.0.1\",\"proxyMode\":\"proxy\",\"proxyPort\":10808,\"proxyType\":\"socks\",\"secondaryDns\":\"1.1.1.1\",\"selectedProfile\":\"\",\"selectedProtocol\":\"v2ray\",\"splitTunneling\":false,\"theme\":\"light\",\"tunInet4CIDR\":\"172.19.0.1/30\",\"tunInet6CIDR\":\"fdfe:dcba:9876::1/126\",\"v2rayCore\":\"sing-box\",\"wireguardCore\":\"amnezia\"}").spec_bytes()
}

/// Renders the settings document a fresh installation starts with.
pub fn default_settings_text() -> (r: Vec<u8>)
    ensures
        r@ == spec_default_settings_text(),
{
    bytes_of(
        "{\"adBlocking\":true,\"autoConnect\":false,\"autoReconnect\":true,\"cryptominerBlocking\":false,\"customBlockDomains\":[],\"customDirectDomains\":[],\"directCountryAccess\":true,\"dnsLeakProtection\":true,\"dnsttProxyPort\":7070,\"dnsttResolver\":\"auto\",\"ikev2AuthMethod\":\"eap\",\"killSwitch\":false,\"l2tpPsk\":\"\",\"language\":\"en\",\"launchAtStartup\":false,\"malwareProtection\":true,\"mtu\":9000,\"phishingPrevention\":false,\"primaryDns\":\"8.8.8.8\",\"proxyHost\":\"127.0.0.1\",\"proxyMode\":\"proxy\",\"proxyPort\":10808,\"proxyType\":\"socks\",\"secondaryDns\":\"1.1.1.1\",\"selectedProfile\":\"\",\"selectedProtocol\":\"v2ray\",\"splitTunneling\":false,\"theme\":\"light\",\"tunInet4CIDR\":\"172.19.0.1/30\",\"tunInet6CIDR\":\"fdfe:dcba:9876::1/126\",\"v2rayCore\":\"sing-box\",\"wireguardCore\":\"amnezia\"}",
    )
}

/// The empty account document a fresh installation starts with.
pub fn default_account_text() -> (r: Vec<u8>)
    ensures
        r@ == ("{}").spec_bytes(),
{
    bytes_of("{}")
}

} // verus!
