//! Tests of the routing-policy builder: determinism, the server-bypass
//! rule, and the documented scenarios.

use candyconnect::singbox::{build_route_rules, generate_sing_box_config, TunSettings};

fn settings_s1() -> Vec<u8> {
    br#"{
        "primaryDns": "1.1.1.1",
        "secondaryDns": "9.9.9.9",
        "proxyHost": "127.0.0.1",
        "proxyPort": 10808,
        "mtu": 1500,
        "customDirectDomains": ["corp.local"],
        "customBlockDomains": ["ads.example"],
        "tunInet4CIDR": "10.0.0.1/30"
    }"#
    .to_vec()
}

fn parse(config: &[u8]) -> serde_json::Value {
    serde_json::from_slice(config).expect("generated policy must be valid JSON")
}

fn rules_of(doc: &serde_json::Value) -> Vec<serde_json::Value> {
    doc["route"]["rules"].as_array().expect("route.rules must be an array").clone()
}

#[test]
fn s1_policy_for_ip_server() {
    let cfg = generate_sing_box_config(&settings_s1(), b"203.0.113.7").expect("settings parse");
    let doc = parse(&cfg);

    let servers = doc["dns"]["servers"].as_array().unwrap();
    assert_eq!(servers[0]["tag"], "dns-remote");
    assert_eq!(servers[0]["address"], "1.1.1.1");
    assert_eq!(servers[0]["detour"], "socks-out");
    assert_eq!(servers[1]["address"], "9.9.9.9");
    assert_eq!(doc["dns"]["final"], "dns-remote");

    let inbound = &doc["inbounds"][0];
    assert_eq!(inbound["type"], "tun");
    assert_eq!(inbound["tag"], "CandyConnect");
    assert_eq!(inbound["inet4_address"], "10.0.0.1/30");
    assert_eq!(inbound["mtu"], 1500);
    assert_eq!(inbound["auto_route"], true);
    assert_eq!(inbound["strict_route"], false);
    assert_eq!(inbound["stack"], "gvisor");

    let rules = rules_of(&doc);
    assert_eq!(rules[0]["protocol"], "dns");
    assert_eq!(rules[0]["outbound"], "dns-out");
    assert!(rules.iter().any(|r| r["domain"]
        == serde_json::Value::Array(vec!["corp.local".into()])
        && r["outbound"] == "direct-out"));
    assert!(rules.iter().any(|r| r["domain"]
        == serde_json::Value::Array(vec!["ads.example".into()])
        && r["outbound"] == "block-out"));
    assert!(rules.iter().any(|r| r["ip_cidr"]
        == serde_json::Value::Array(vec!["203.0.113.7/32".into()])
        && r["outbound"] == "direct-out"));
    assert_eq!(doc["route"]["final"], "socks-out");
    assert_eq!(doc["route"]["auto_detect_interface"], true);
}

#[test]
fn s2_policy_for_domain_server() {
    let cfg = generate_sing_box_config(&settings_s1(), b"vpn.example.com").expect("settings parse");
    let doc = parse(&cfg);
    let rules = rules_of(&doc);
    assert!(rules.iter().any(|r| r["domain"]
        == serde_json::Value::Array(vec!["vpn.example.com".into()])
        && r["outbound"] == "direct-out"));
    assert!(!rules
        .iter()
        .any(|r| r["ip_cidr"].as_array().is_some_and(|a| a
            .iter()
            .any(|c| c.as_str().unwrap_or("").starts_with("vpn.example.com")))));
}

#[test]
fn config_generation_is_deterministic() {
    let a = generate_sing_box_config(&settings_s1(), b"203.0.113.7").unwrap();
    let b = generate_sing_box_config(&settings_s1(), b"203.0.113.7").unwrap();
    assert_eq!(a, b);
}

#[test]
fn server_bypass_is_unique_and_last() {
    let ts = TunSettings {
        primary_dns: b"8.8.8.8".to_vec(),
        secondary_dns: b"1.1.1.1".to_vec(),
        inet4: b"172.19.0.1/30".to_vec(),
        inet6: b"fdfe:dcba:9876::1/126".to_vec(),
        mtu: 9000,
        proxy_host: b"127.0.0.1".to_vec(),
        proxy_port: 10808,
        direct_domains: vec![b"corp.local".to_vec()],
        block_domains: vec![b"ads.example".to_vec()],
    };
    let rules = build_route_rules(&ts, b"203.0.113.7");
    let bypass: Vec<usize> = (0..rules.len())
        .filter(|&i| {
            rules[i].outbound.as_deref() == Some(b"direct-out".as_slice())
                && rules[i].ip_cidr.as_deref() == Some(vec![b"203.0.113.7/32".to_vec()].as_slice())
        })
        .collect();
    assert_eq!(bypass, vec![rules.len() - 1]);
}

#[test]
fn defaults_apply_when_settings_are_sparse() {
    let cfg = generate_sing_box_config(b"{}", b"10.0.0.1").unwrap();
    let doc = parse(&cfg);
    let servers = doc["dns"]["servers"].as_array().unwrap();
    assert_eq!(servers[0]["address"], "8.8.8.8");
    assert_eq!(servers[1]["address"], "1.1.1.1");
    let inbound = &doc["inbounds"][0];
    assert_eq!(inbound["inet4_address"], "172.19.0.1/30");
    assert_eq!(inbound["inet6_address"], "fdfe:dcba:9876::1/126");
    assert_eq!(inbound["mtu"], 9000);
    let outbound = &doc["outbounds"][0];
    assert_eq!(outbound["type"], "socks");
    assert_eq!(outbound["server"], "127.0.0.1");
    assert_eq!(outbound["server_port"], 10808);
}

#[test]
fn invalid_settings_text_is_a_config_error() {
    let text = b"{ not json".to_vec();
    match generate_sing_box_config(&text, b"1.2.3.4") {
        Err(candyconnect::errors::Error::ConfigError(preview)) => {
            assert_eq!(preview, text);
        }
        other => panic!("expected a config error, got {:?}", other.is_ok()),
    }
}

#[test]
fn proxy_override_points_policy_at_given_endpoint() {
    let cfg = candyconnect::singbox::generate_sing_box_config_with_proxy(
        &settings_s1(),
        b"203.0.113.7",
        b"127.0.0.1",
        7070,
    )
    .unwrap();
    let doc = parse(&cfg);
    let outbound = &doc["outbounds"][0];
    assert_eq!(outbound["server"], "127.0.0.1");
    assert_eq!(outbound["server_port"], 7070);
}

#[test]
fn wireguard_tun_config_carries_key_material() {
    let p = candyconnect::singbox::WgParams {
        server: b"198.51.100.5".to_vec(),
        port: 51820,
        private_key: b"PRIV".to_vec(),
        peer_public_key: b"PEER".to_vec(),
        pre_shared_key: Some(b"PSK".to_vec()),
        local_addresses: vec![b"10.66.0.2/32".to_vec()],
        mtu: 1420,
    };
    let cfg = candyconnect::singbox::build_wireguard_config(b"{}", true, &p);
    let doc = parse(&cfg);
    let wg = &doc["outbounds"][0];
    assert_eq!(wg["type"], "wireguard");
    assert_eq!(wg["server"], "198.51.100.5");
    assert_eq!(wg["server_port"], 51820);
    assert_eq!(wg["private_key"], "PRIV");
    assert_eq!(wg["peer_public_key"], "PEER");
    assert_eq!(wg["pre_shared_key"], "PSK");
    assert_eq!(wg["local_address"][0], "10.66.0.2/32");
    assert_eq!(wg["mtu"], 1420);
    assert_eq!(doc["inbounds"][0]["type"], "tun");
}

#[test]
fn wireguard_proxy_config_has_socks_inbound() {
    let p = candyconnect::singbox::WgParams {
        server: b"198.51.100.5".to_vec(),
        port: 51820,
        private_key: b"PRIV".to_vec(),
        peer_public_key: b"PEER".to_vec(),
        pre_shared_key: None,
        local_addresses: vec![b"10.66.0.2/32".to_vec()],
        mtu: 1420,
    };
    let cfg = candyconnect::singbox::build_wireguard_config(b"{}", false, &p);
    let doc = parse(&cfg);
    assert_eq!(doc["inbounds"][0]["type"], "socks");
    assert_eq!(doc["inbounds"][0]["listen"], "127.0.0.1");
    assert_eq!(doc["inbounds"][0]["listen_port"], 1080);
    assert!(doc["outbounds"][0].get("pre_shared_key").is_none());
}

#[test]
fn default_settings_text_is_valid_and_complete() {
    let text = candyconnect::tools::default_settings_text();
    let doc: serde_json::Value = serde_json::from_slice(&text).unwrap();
    assert_eq!(doc["primaryDns"], "8.8.8.8");
    assert_eq!(doc["secondaryDns"], "1.1.1.1");
    assert_eq!(doc["proxyPort"], 10808);
    assert_eq!(doc["mtu"], 9000);
    assert_eq!(doc["dnsttProxyPort"], 7070);
    assert_eq!(doc["selectedProtocol"], "v2ray");
    assert_eq!(doc["customDirectDomains"], serde_json::Value::Array(vec![]));
}
