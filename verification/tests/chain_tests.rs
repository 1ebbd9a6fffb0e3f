//! Tests of chain composition: resolver mapping, helper command lines,
//! chain topology, and engine-config inspection.

use candyconnect::chain::{
    chain_roles, dnstt_command, openvpn_auth_file, openvpn_command, resolve_dnstt_resolver,
    sing_box_command, ssh_tunnel_command, xray_command, xray_server_address, Mode, Protocol,
};
use candyconnect::session::Role;

#[test]
fn resolver_mapping_matches_table() {
    assert_eq!(resolve_dnstt_resolver("udp-google"), ("-udp", "8.8.8.8:53"));
    assert_eq!(resolve_dnstt_resolver("udp-cloudflare"), ("-udp", "1.1.1.1:53"));
    assert_eq!(resolve_dnstt_resolver("udp-quad9"), ("-udp", "9.9.9.9:53"));
    assert_eq!(resolve_dnstt_resolver("udp-opendns"), ("-udp", "208.67.222.222:53"));
    assert_eq!(resolve_dnstt_resolver("dot-google"), ("-dot", "dns.google:853"));
    assert_eq!(resolve_dnstt_resolver("dot-cloudflare"), ("-dot", "cloudflare-dns.com:853"));
    assert_eq!(resolve_dnstt_resolver("dot-quad9"), ("-dot", "dns.quad9.net:853"));
    assert_eq!(resolve_dnstt_resolver("doh-google"), ("-doh", "https://dns.google/dns-query"));
    assert_eq!(
        resolve_dnstt_resolver("doh-cloudflare"),
        ("-doh", "https://cloudflare-dns.com/dns-query")
    );
    assert_eq!(resolve_dnstt_resolver("doh-quad9"), ("-doh", "https://dns.quad9.net/dns-query"));
    assert_eq!(resolve_dnstt_resolver("auto"), ("-udp", "8.8.8.8:53"));
    assert_eq!(resolve_dnstt_resolver("anything-else"), ("-udp", "8.8.8.8:53"));
}

#[test]
fn chain_topology_matches_protocols() {
    assert_eq!(chain_roles(Protocol::V2ray, Mode::Proxy), vec![Role::Xray]);
    assert_eq!(chain_roles(Protocol::V2ray, Mode::Tun), vec![Role::Xray, Role::SingBox]);
    assert_eq!(chain_roles(Protocol::Wireguard, Mode::Proxy), vec![Role::SingBox]);
    assert_eq!(chain_roles(Protocol::Wireguard, Mode::Tun), vec![Role::SingBox]);
    assert_eq!(chain_roles(Protocol::OpenVpn, Mode::Tun), vec![Role::OpenVpn]);
    assert_eq!(
        chain_roles(Protocol::Dnstt, Mode::Proxy),
        vec![Role::DnsttClient, Role::SshTunnel]
    );
    assert_eq!(
        chain_roles(Protocol::Dnstt, Mode::Tun),
        vec![Role::DnsttClient, Role::SshTunnel, Role::SingBox]
    );
    assert_eq!(chain_roles(Protocol::NativeL2tp, Mode::Tun), vec![Role::NativeVpn]);
    assert_eq!(chain_roles(Protocol::NativeIkev2, Mode::Tun), vec![Role::NativeVpn]);
}

#[test]
fn s4_dnstt_listens_one_port_above_proxy() {
    let cmd = dnstt_command(b"dnstt-client", "udp-google", b"PUBKEY", b"t.example.com", 7070);
    assert_eq!(cmd.role, Role::DnsttClient);
    assert_eq!(cmd.health_check_ms, 800);
    let args: Vec<&[u8]> = cmd.args.iter().map(|a| a.as_slice()).collect();
    assert!(args.contains(&b"127.0.0.1:7071".as_slice()));
    assert_eq!(args[0], b"-udp");
    assert_eq!(args[1], b"8.8.8.8:53");
    assert_eq!(args[2], b"-pubkey");
    assert_eq!(args[3], b"PUBKEY");
    assert_eq!(args[4], b"t.example.com");
}

#[test]
fn s4_ssh_tunnel_forwards_proxy_port_to_channel() {
    let unix = ssh_tunnel_command(false, b"plink.exe", b"127.0.0.1", 7070, b"user", b"secret");
    assert_eq!(unix.program, b"sshpass".to_vec());
    let args: Vec<&[u8]> = unix.args.iter().map(|a| a.as_slice()).collect();
    let d = args.iter().position(|a| *a == b"-D").expect("-D flag");
    assert_eq!(args[d + 1], b"127.0.0.1:7070");
    assert!(args.contains(&b"7071".as_slice()));
    assert!(args.contains(&b"user@127.0.0.1".as_slice()));
    assert!(args.contains(&b"StrictHostKeyChecking=no".as_slice()));

    let win = ssh_tunnel_command(true, b"plink.exe", b"127.0.0.1", 7070, b"user", b"secret");
    assert_eq!(win.program, b"plink.exe".to_vec());
    let wargs: Vec<&[u8]> = win.args.iter().map(|a| a.as_slice()).collect();
    let wd = wargs.iter().position(|a| *a == b"-D").unwrap();
    assert_eq!(wargs[wd + 1], b"127.0.0.1:7070");
    let wp = wargs.iter().position(|a| *a == b"-P").unwrap();
    assert_eq!(wargs[wp + 1], b"7071");
    assert!(wargs.contains(&b"-batch".as_slice()));
    assert!(wargs.contains(&b"-hostkey".as_slice()));
}

#[test]
fn xray_and_sing_box_commands() {
    let x = xray_command(b"/res/xray/xray", b"/data/xray_config.json");
    assert_eq!(x.program, b"/res/xray/xray".to_vec());
    assert_eq!(x.args, vec![b"-c".to_vec(), b"/data/xray_config.json".to_vec()]);
    assert_eq!(x.health_check_ms, 500);
    assert_eq!(x.role, Role::Xray);

    let sb = sing_box_command(b"/res/sing-box/sing-box", b"/data/sing_box_config.json", 500);
    assert_eq!(
        sb.args,
        vec![b"run".to_vec(), b"-c".to_vec(), b"/data/sing_box_config.json".to_vec()]
    );
    assert_eq!(sb.env.len(), 3);
    assert_eq!(sb.env[0].0, b"ENABLE_DEPRECATED_SPECIAL_OUTBOUNDS".to_vec());
    assert_eq!(sb.env[0].1, b"true".to_vec());
    assert_eq!(sb.role, Role::SingBox);
}

#[test]
fn openvpn_command_and_auth_file() {
    let plain = openvpn_command(b"openvpn", b"/data/client.ovpn", b"/data/openvpn_auth.txt", false);
    assert_eq!(plain.program, b"openvpn".to_vec());
    assert_eq!(plain.args[0], b"--config".to_vec());
    assert_eq!(plain.health_check_ms, 1500);

    let wrapped = openvpn_command(b"openvpn", b"/data/client.ovpn", b"/data/auth.txt", true);
    assert_eq!(wrapped.program, b"sudo".to_vec());
    assert_eq!(wrapped.args[0], b"openvpn".to_vec());
    assert_eq!(wrapped.args[1], b"--config".to_vec());
    assert!(wrapped.args.contains(&b"--auth-nocache".to_vec()));
    assert_eq!(wrapped.args[wrapped.args.len() - 2], b"--verb".to_vec());
    assert_eq!(wrapped.args[wrapped.args.len() - 1], b"3".to_vec());

    assert_eq!(openvpn_auth_file(b"alice", b"s3cret"), b"alice\ns3cret\n".to_vec());
}

#[test]
fn s3_extracts_vnext_server_for_companion_policy() {
    let xray_cfg = br#"{
        "outbounds": [
            { "settings": { "vnext": [ { "address": "198.51.100.9", "port": 443 } ] } }
        ]
    }"#;
    assert_eq!(xray_server_address(xray_cfg), b"198.51.100.9".to_vec());

    let policy =
        candyconnect::singbox::generate_sing_box_config(b"{}", &xray_server_address(xray_cfg))
            .unwrap();
    let doc: serde_json::Value = serde_json::from_slice(&policy).unwrap();
    let rules = doc["route"]["rules"].as_array().unwrap();
    assert!(rules.iter().any(|r| r["ip_cidr"]
        == serde_json::Value::Array(vec!["198.51.100.9/32".into()])
        && r["outbound"] == "direct-out"));
}

#[test]
fn missing_vnext_falls_back_to_loopback() {
    assert_eq!(xray_server_address(b"{\"outbounds\":[]}"), b"127.0.0.1".to_vec());
    assert_eq!(xray_server_address(b"not json"), b"127.0.0.1".to_vec());
}

#[test]
fn invalid_xray_config_is_rejected_with_preview() {
    let bad = vec![b'x'; 300];
    match candyconnect::chain::validate_xray_config(&bad) {
        Err(candyconnect::errors::Error::ConfigError(p)) => {
            assert_eq!(p.len(), 200);
            assert_eq!(&p[..], &bad[..200]);
        }
        _ => panic!("expected a config error"),
    }
    assert!(candyconnect::chain::validate_xray_config(b"{\"outbounds\":[]}").is_ok());
}

#[test]
fn tool_resolution_prefers_primary_location() {
    assert!(candyconnect::chain::resolve_tool_choice(true, true));
    assert!(candyconnect::chain::resolve_tool_choice(true, false));
    assert!(!candyconnect::chain::resolve_tool_choice(false, true));
    assert!(candyconnect::chain::resolve_tool_choice(false, false));
}
