//! Plans for the operating systems' own VPN stacks: profile names, the
//! exact tool invocations and configuration texts for each platform, and
//! the poll decision that watches a native connection. The application
//! runs the tools; the library says precisely what to run.

use vstd::prelude::*;
use vstd::string::StringSliceAdditionalSpecFns;
use crate::textutil::{
    bytes_of,
    contains_sub,
    push_bytes,
    push_str_bytes,
    spec_contains_sub,
    spec_lines,
    split_lines,
};

verus! {

/// The profile name a native session runs under.
pub open spec fn spec_native_conn_name(l2tp: bool) -> Seq<u8> {
    if l2tp {
        ("CandyConnect-L2TP").spec_bytes()
    } else {
        ("CandyConnect-IKEv2").spec_bytes()
    }
}

/// The profile name a native session runs under.
pub fn native_conn_name(l2tp: bool) -> (r: Vec<u8>)
    ensures
        r@ == spec_native_conn_name(l2tp),
{
    if l2tp {
        bytes_of("CandyConnect-L2TP")
    } else {
        bytes_of("CandyConnect-IKEv2")
    }
}

// ---------------------------------------------------------------------------
// Windows
// ---------------------------------------------------------------------------

/// The profile-creation command for the Windows VPN stack.
pub open spec fn spec_ps_create_command(
    l2tp: bool,
    name: Seq<u8>,
    server: Seq<u8>,
    psk: Seq<u8>,
    cert_auth: bool,
) -> Seq<u8> {
    if l2tp {
        ("Add-VpnConnection -Name '").spec_bytes() + name + ("' -ServerAddress '").spec_bytes()
            + server + ("' -TunnelType L2tp -L2tpPsk '").spec_bytes() + psk + (
        "' -AuthenticationMethod MSChapv2 -EncryptionLevel Optional -Force -RememberCredential").spec_bytes()
    } else {
        ("Add-VpnConnection -Name '").spec_bytes() + name + ("' -ServerAddress '").spec_bytes()
            + server + ("' -TunnelType Ikev2 -AuthenticationMethod ").spec_bytes() + (
        if cert_auth {
            ("MachineCertificate").spec_bytes()
        } else {
            ("EAP").spec_bytes()
        }) + (" -EncryptionLevel Required -Force -RememberCredential").spec_bytes()
    }
}

/// Builds the profile-creation command for the Windows VPN stack.
pub fn ps_create_command(
    l2tp: bool,
    name: &[u8],
    server: &[u8],
    psk: &[u8],
    cert_auth: bool,
) -> (r: Vec<u8>)
    ensures
        r@ == spec_ps_create_command(l2tp, name@, server@, psk@, cert_auth),
{
    let mut out: Vec<u8> = Vec::new();
    push_str_bytes(&mut out, "Add-VpnConnection -Name '");
    push_bytes(&mut out, name);
    push_str_bytes(&mut out, "' -ServerAddress '");
    push_bytes(&mut out, server);
    if l2tp {
        push_str_bytes(&mut out, "' -TunnelType L2tp -L2tpPsk '");
        push_bytes(&mut out, psk);
        push_str_bytes(
            &mut out,
            "' -AuthenticationMethod MSChapv2 -EncryptionLevel Optional -Force -RememberCredential",
        );
    } else {
        push_str_bytes(&mut out, "' -TunnelType Ikev2 -AuthenticationMethod ");
        if cert_auth {
            push_str_bytes(&mut out, "MachineCertificate");
        } else {
            push_str_bytes(&mut out, "EAP");
        }
        push_str_bytes(&mut out, " -EncryptionLevel Required -Force -RememberCredential");
    }
    proof {
        assert(out@ =~= spec_ps_create_command(l2tp, name@, server@, psk@, cert_auth));
    }
    out
}

/// The profile-removal command for the Windows VPN stack.
pub open spec fn spec_ps_remove_command(name: Seq<u8>) -> Seq<u8> {
    ("Remove-VpnConnection -Name '").spec_bytes() + name + (
    "' -Force -ErrorAction SilentlyContinue").spec_bytes()
}

/// Builds the profile-removal command for the Windows VPN stack.
pub fn ps_remove_command(name: &[u8]) -> (r: Vec<u8>)
    ensures
        r@ == spec_ps_remove_command(name@),
{
    let mut out: Vec<u8> = Vec::new();
    push_str_bytes(&mut out, "Remove-VpnConnection -Name '");
    push_bytes(&mut out, name);
    push_str_bytes(&mut out, "' -Force -ErrorAction SilentlyContinue");
    proof {
        assert(out@ =~= spec_ps_remove_command(name@));
    }
    out
}

/// The IPsec-parameter command a pre-shared-key profile also needs.
pub open spec fn spec_ps_ipsec_command(name: Seq<u8>) -> Seq<u8> {
    ("Set-VpnConnectionIPsecConfiguration -ConnectionName '").spec_bytes() + name + (
    "' -AuthenticationTransformConstants SHA256128 -CipherTransformConstants AES128 -DHGroup Group14 -EncryptionMethod AES128 -IntegrityCheckMethod SHA256 -PfsGroup None -Force -ErrorAction SilentlyContinue").spec_bytes()
}

/// Builds the IPsec-parameter command.
pub fn ps_ipsec_command(name: &[u8]) -> (r: Vec<u8>)
    ensures
        r@ == spec_ps_ipsec_command(name@),
{
    let mut out: Vec<u8> = Vec::new();
    push_str_bytes(&mut out, "Set-VpnConnectionIPsecConfiguration -ConnectionName '");
    push_bytes(&mut out, name);
    push_str_bytes(
        &mut out,
        "' -AuthenticationTransformConstants SHA256128 -CipherTransformConstants AES128 -DHGroup Group14 -EncryptionMethod AES128 -IntegrityCheckMethod SHA256 -PfsGroup None -Force -ErrorAction SilentlyContinue",
    );
    proof {
        assert(out@ =~= spec_ps_ipsec_command(name@));
    }
    out
}

// ---------------------------------------------------------------------------
// Linux
// ---------------------------------------------------------------------------

/// The network-manager data field of an L2TP profile.
pub open spec fn spec_nmcli_l2tp_data(server: Seq<u8>, psk: Seq<u8>, user: Seq<u8>) -> Seq<u8> {
    ("gateway=").spec_bytes() + server + (", ipsec-enabled=yes, ipsec-psk=").spec_bytes() + psk
        + (", user=").spec_bytes() + user
}

/// Builds the network-manager data field of an L2TP profile.
pub fn nmcli_l2tp_data(server: &[u8], psk: &[u8], user: &[u8]) -> (r: Vec<u8>)
    ensures
        r@ == spec_nmcli_l2tp_data(server@, psk@, user@),
{
    let mut out: Vec<u8> = Vec::new();
    push_str_bytes(&mut out, "gateway=");
    push_bytes(&mut out, server);
    push_str_bytes(&mut out, ", ipsec-enabled=yes, ipsec-psk=");
    push_bytes(&mut out, psk);
    push_str_bytes(&mut out, ", user=");
    push_bytes(&mut out, user);
    proof {
        assert(out@ =~= spec_nmcli_l2tp_data(server@, psk@, user@));
    }
    out
}

/// The network-manager data field of an IKEv2 profile.
pub open spec fn spec_nmcli_ikev2_data(server: Seq<u8>, cert_auth: bool) -> Seq<u8> {
    ("address=").spec_bytes() + server + (
    ", certificate=ignore, encap=no, esp=aes128-sha256, ike=aes256-sha256-modp2048, ipcomp=no, method=").spec_bytes()
        + (if cert_auth {
        ("cert").spec_bytes()
    } else {
        ("eap").spec_bytes()
    }) + (", proposal=yes, virtual=yes").spec_bytes()
}

/// Builds the network-manager data field of an IKEv2 profile.
pub fn nmcli_ikev2_data(server: &[u8], cert_auth: bool) -> (r: Vec<u8>)
    ensures
        r@ == spec_nmcli_ikev2_data(server@, cert_auth),
{
    let mut out: Vec<u8> = Vec::new();
    push_str_bytes(&mut out, "address=");
    push_bytes(&mut out, server);
    push_str_bytes(
        &mut out,
        ", certificate=ignore, encap=no, esp=aes128-sha256, ike=aes256-sha256-modp2048, ipcomp=no, method=",
    );
    if cert_auth {
        push_str_bytes(&mut out, "cert");
    } else {
        push_str_bytes(&mut out, "eap");
    }
    push_str_bytes(&mut out, ", proposal=yes, virtual=yes");
    proof {
        assert(out@ =~= spec_nmcli_ikev2_data(server@, cert_auth));
    }
    out
}

/// The fallback L2TP daemon configuration.
pub open spec fn spec_xl2tpd_conf(server: Seq<u8>) -> Seq<u8> {
    ("[lac candyconnect]\nlns = ").spec_bytes() + server + (
    "\nppp debug = yes\npppoptfile = /tmp/cc-l2tp-options.txt\nlength bit = yes\n").spec_bytes()
}

/// Builds the fallback L2TP daemon configuration.
pub fn xl2tpd_conf(server: &[u8]) -> (r: Vec<u8>)
    ensures
        r@ == spec_xl2tpd_conf(server@),
{
    let mut out: Vec<u8> = Vec::new();
    push_str_bytes(&mut out, "[lac candyconnect]\nlns = ");
    push_bytes(&mut out, server);
    push_str_bytes(
        &mut out,
        "\nppp debug = yes\npppoptfile = /tmp/cc-l2tp-options.txt\nlength bit = yes\n",
    );
    proof {
        assert(out@ =~= spec_xl2tpd_conf(server@));
    }
    out
}

/// The PPP options of the fallback L2TP session.
pub open spec fn spec_ppp_options(user: Seq<u8>, pass: Seq<u8>) -> Seq<u8> {
    (
    "ipcp-accept-local\nipcp-accept-remote\nrefuse-eap\nrequire-mschap-v2\nnoccp\nnoauth\nmtu 1400\nmru 1400\nnodefaultroute\nusepeerdns\nname ").spec_bytes()
        + user + ("\npassword ").spec_bytes() + pass + ("\n").spec_bytes()
}

/// Builds the PPP options of the fallback L2TP session.
pub fn ppp_options(user: &[u8], pass: &[u8]) -> (r: Vec<u8>)
    ensures
        r@ == spec_ppp_options(user@, pass@),
{
    let mut out: Vec<u8> = Vec::new();
    push_str_bytes(
        &mut out,
        "ipcp-accept-local\nipcp-accept-remote\nrefuse-eap\nrequire-mschap-v2\nnoccp\nnoauth\nmtu 1400\nmru 1400\nnodefaultroute\nusepeerdns\nname ",
    );
    push_bytes(&mut out, user);
    push_str_bytes(&mut out, "\npassword ");
    push_bytes(&mut out, pass);
    push_str_bytes(&mut out, "\n");
    proof {
        assert(out@ =~= spec_ppp_options(user@, pass@));
    }
    out
}

/// The IPsec secret line of the fallback L2TP session.
pub open spec fn spec_ipsec_secrets(server: Seq<u8>, psk: Seq<u8>) -> Seq<u8> {
    server + (" %any : PSK \"").spec_bytes() + psk + ("\"\n").spec_bytes()
}

/// Builds the IPsec secret line of the fallback L2TP session.
pub fn ipsec_secrets(server: &[u8], psk: &[u8]) -> (r: Vec<u8>)
    ensures
        r@ == spec_ipsec_secrets(server@, psk@),
{
    let mut out: Vec<u8> = Vec::new();
    push_bytes(&mut out, server);
    push_str_bytes(&mut out, " %any : PSK \"");
    push_bytes(&mut out, psk);
    push_str_bytes(&mut out, "\"\n");
    proof {
        assert(out@ =~= spec_ipsec_secrets(server@, psk@));
    }
    out
}

// ---------------------------------------------------------------------------
// macOS
// ---------------------------------------------------------------------------

/// The configuration profile that installs an IKEv2 connection: the
/// system opens it for the user's approval, so success is only the
/// profile being offered, not a live tunnel.
pub open spec fn spec_ikev2_profile_plist(
    server: Seq<u8>,
    cert_auth: bool,
    user: Seq<u8>,
    pass: Seq<u8>,
    name: Seq<u8>,
) -> Seq<u8> {
    (
    "<?xml version=\"1.0\" encoding=\"UTF-8\"?>\n<!DOCTYPE plist PUBLIC \"-//Apple//DTD PLIST 1.0//EN\" \"http://www.apple.com/DTDs/PropertyList-1.0.dtd\">\n<plist version=\"1.0\">\n<dict>\n    <key>PayloadContent</key>\n    <array>\n        <dict>\n            <key>IKEv2</key>\n            <dict>\n                <key>RemoteAddress</key>\n                <string>").spec_bytes()
        + server + (
    "</string>\n                <key>AuthenticationMethod</key>\n                <string>").spec_bytes()
        + (if cert_auth {
        ("Certificate").spec_bytes()
    } else {
        ("None").spec_bytes()
    }) + (
    "</string>\n                <key>ExtendedAuthEnabled</key>\n                <true/>\n                <key>AuthName</key>\n                <string>").spec_bytes()
        + user + (
    "</string>\n                <key>AuthPassword</key>\n                <string>").spec_bytes()
        + pass + (
    "</string>\n            </dict>\n            <key>PayloadType</key>\n            <string>com.apple.vpn.managed</string>\n            <key>VPNType</key>\n            <string>IKEv2</string>\n        </dict>\n    </array>\n    <key>PayloadDisplayName</key>\n    <string>").spec_bytes()
        + name + (
    "</string>\n    <key>PayloadType</key>\n    <string>Configuration</string>\n</dict>\n</plist>").spec_bytes()
}

/// Builds the IKEv2 configuration profile.
pub fn ikev2_profile_plist(
    server: &[u8],
    cert_auth: bool,
    user: &[u8],
    pass: &[u8],
    name: &[u8],
) -> (r: Vec<u8>)
    ensures
        r@ == spec_ikev2_profile_plist(server@, cert_auth, user@, pass@, name@),
{
    let mut out: Vec<u8> = Vec::new();
    push_str_bytes(
        &mut out,
        "<?xml version=\"1.0\" encoding=\"UTF-8\"?>\n<!DOCTYPE plist PUBLIC \"-//Apple//DTD PLIST 1.0//EN\" \"http://www.apple.com/DTDs/PropertyList-1.0.dtd\">\n<plist version=\"1.0\">\n<dict>\n    <key>PayloadContent</key>\n    <array>\n        <dict>\n            <key>IKEv2</key>\n            <dict>\n                <key>RemoteAddress</key>\n                <string>",
    );
    push_bytes(&mut out, server);
    push_str_bytes(
        &mut out,
        "</string>\n                <key>AuthenticationMethod</key>\n                <string>",
    );
    if cert_auth {
        push_str_bytes(&mut out, "Certificate");
    } else {
        push_str_bytes(&mut out, "None");
    }
    push_str_bytes(
        &mut out,
        "</string>\n                <key>ExtendedAuthEnabled</key>\n                <true/>\n                <key>AuthName</key>\n                <string>",
    );
    push_bytes(&mut out, user);
    push_str_bytes(
        &mut out,
        "</string>\n                <key>AuthPassword</key>\n                <string>",
    );
    push_bytes(&mut out, pass);
    push_str_bytes(
        &mut out,
        "</string>\n            </dict>\n            <key>PayloadType</key>\n            <string>com.apple.vpn.managed</string>\n            <key>VPNType</key>\n            <string>IKEv2</string>\n        </dict>\n    </array>\n    <key>PayloadDisplayName</key>\n    <string>",
    );
    push_bytes(&mut out, name);
    push_str_bytes(
        &mut out,
        "</string>\n    <key>PayloadType</key>\n    <string>Configuration</string>\n</dict>\n</plist>",
    );
    proof {
        assert(out@ =~= spec_ikev2_profile_plist(server@, cert_auth, user@, pass@, name@));
    }
    out
}

// ---------------------------------------------------------------------------
// Watching a native connection
// ---------------------------------------------------------------------------

/// The poll decision for the Windows and Linux stacks: the session has
/// dropped exactly when the active-connection listing no longer names it.
pub fn native_connection_dropped(listing: &[u8], name: &[u8]) -> (r: bool)
    ensures
        r == !spec_contains_sub(listing@, name@),
{
    !contains_sub(listing, name)
}

/// True when some line names the profile and reports it connected.
pub open spec fn spec_any_connected_line(rows: Seq<Seq<u8>>, name: Seq<u8>) -> bool
    decreases rows.len(),
{
    if rows.len() == 0 {
        false
    } else {
        (spec_contains_sub(rows[0], name) && spec_contains_sub(rows[0], ("Connected").spec_bytes()))
            || spec_any_connected_line(rows.drop_first(), name)
    }
}

/// The poll decision for the macOS stack: the session has dropped exactly
/// when the listing still names the profile but no line reports it
/// connected.
pub fn scutil_connection_dropped(listing: &[u8], name: &[u8]) -> (r: bool)
    ensures
        r == (spec_contains_sub(listing@, name@) && !spec_any_connected_line(
            spec_lines(listing@),
            name@,
        )),
{
    if !contains_sub(listing, name) {
        return false;
    }
    let lines = split_lines(listing);
    let ghost rows = lines.deep_view();
    let mut i: usize = 0;
    proof {
        assert(rows.subrange(0, rows.len() as int) =~= rows);
    }
    while i < lines.len()
        invariant
            i <= lines@.len(),
            rows == lines.deep_view(),
            rows == spec_lines(listing@),
            rows.len() == lines@.len(),
            spec_contains_sub(listing@, name@),
            forall|k: int| 0 <= k < rows.len() ==> #[trigger] rows[k] == lines@[k]@,
            spec_any_connected_line(rows, name@) == spec_any_connected_line(
                rows.subrange(i as int, rows.len() as int),
                name@,
            ),
        decreases lines@.len() - i,
    {
        proof {
            let tail = rows.subrange(i as int, rows.len() as int);
            assert(tail[0] == rows[i as int]);
            assert(tail.drop_first() =~= rows.subrange(i + 1, rows.len() as int));
        }
        if contains_sub(lines[i].as_slice(), name) && contains_sub(
            lines[i].as_slice(),
            "Connected".as_bytes(),
        ) {
            return false;
        }
        i = i + 1;
    }
    proof {
        assert(rows.subrange(i as int, rows.len() as int) =~= Seq::<Seq<u8>>::empty());
    }
    true
}

} // verus!
