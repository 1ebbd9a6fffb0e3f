//! Tests of the smaller verified pieces: the JSON reader, IP-literal
//! recognition, ping-output parsing, the log-line format, tool checks,
//! and the native-VPN plans.

use candyconnect::ipaddr::is_ip_literal;
use candyconnect::json::{parse_json, Json};
use candyconnect::latency::parse_ping_output;
use candyconnect::logsink::format_log_line;
use candyconnect::nativevpn::{
    ikev2_profile_plist, native_conn_name, native_connection_dropped, nmcli_ikev2_data,
    nmcli_l2tp_data, ppp_options, ps_create_command, ps_ipsec_command, ps_remove_command,
    scutil_connection_dropped, xl2tpd_conf,
};
use candyconnect::tools::check_system_executables;

#[test]
fn json_reader_accepts_and_rejects() {
    assert!(parse_json(b"{}").is_some());
    assert!(parse_json(b"  [1, 2.5, -3e2, \"a\\nb\", true, false, null]  ").is_some());
    assert!(parse_json(b"{\"a\":{\"b\":[{}]}}").is_some());
    assert!(parse_json(b"").is_none());
    assert!(parse_json(b"{").is_none());
    assert!(parse_json(b"{}{}").is_none());
    assert!(parse_json(b"{\"a\":01}").is_none());
    assert!(parse_json(b"[1,]").is_none());
    assert!(parse_json(b"'single'").is_none());
    assert!(parse_json(b"{\"a\" 1}").is_none());
}

#[test]
fn json_reader_agrees_with_serde_on_acceptance() {
    let samples: Vec<&[u8]> = vec![
        b"{}",
        b"[]",
        b"null",
        b"true",
        b"-0",
        b"-0.5e-2",
        b"0.0",
        b"{\"a\":1,\"a\":2}",
        b"{\"nested\":{\"deep\":[[[]]]}}",
        b"\"\\u00e9\"",
        b"\"\\ud83d\\ude00\"",
        b"  {  \"k\"  :  [ 1 , 2 ]  }  ",
        b"{",
        b"}",
        b"[1 2]",
        b"{\"a\":}",
        b"01",
        b"1.",
        b".5",
        b"+1",
        b"nul",
        b"\"unterminated",
        b"\"bad\\escape\"",
        b"truefalse",
        b"[\"\\\"\"]",
    ];
    for sample in samples {
        let mine = parse_json(sample).is_some();
        let serde: Result<serde_json::Value, _> = serde_json::from_slice(sample);
        assert_eq!(
            mine,
            serde.is_ok(),
            "acceptance disagreement on {:?}",
            String::from_utf8_lossy(sample)
        );
    }
}

#[test]
fn json_accessors_read_members() {
    let doc = parse_json(b"{\"port\": 7070, \"host\": \"example\", \"on\": true, \"list\": [1,2]}")
        .unwrap();
    assert_eq!(doc.get(b"port").unwrap().as_u64(), Some(7070));
    assert_eq!(doc.get(b"host").unwrap().as_str().unwrap(), &b"example".to_vec());
    assert_eq!(doc.get(b"on").unwrap().as_bool(), Some(true));
    assert_eq!(doc.get(b"list").unwrap().arr_len(), Some(2));
    assert!(doc.get(b"absent").is_none());
    let list = doc.get(b"list").unwrap();
    assert_eq!(list.at(0).unwrap().as_u64(), Some(1));
    assert!(list.at(2).is_none());
    assert_eq!(doc.get(b"host").unwrap().as_u64(), None);
    match doc.get(b"port").unwrap() {
        Json::Num(lex) => assert_eq!(lex, &b"7070".to_vec()),
        _ => panic!("a number stays a number"),
    }
}

#[test]
fn ip_literal_recognition() {
    assert!(is_ip_literal(b"203.0.113.7"));
    assert!(is_ip_literal(b"0.0.0.0"));
    assert!(is_ip_literal(b"255.255.255.255"));
    assert!(is_ip_literal(b"::1"));
    assert!(is_ip_literal(b"::"));
    assert!(is_ip_literal(b"fdfe:dcba:9876::1"));
    assert!(is_ip_literal(b"1:2:3:4:5:6:7:8"));
    assert!(is_ip_literal(b"::ffff:192.168.0.1"));
    assert!(!is_ip_literal(b"vpn.example.com"));
    assert!(!is_ip_literal(b"256.1.1.1"));
    assert!(!is_ip_literal(b"1.2.3"));
    assert!(!is_ip_literal(b"1.2.3.4.5"));
    assert!(!is_ip_literal(b"1.2.3.04"));
    assert!(!is_ip_literal(b"1:2:3:4:5:6:7:8:9"));
    assert!(!is_ip_literal(b"fe80::1%eth0"));
    assert!(!is_ip_literal(b"1::2::3"));
    assert!(!is_ip_literal(b""));
}

#[test]
fn ping_output_parsing() {
    let unix = b"PING 1.1.1.1 (1.1.1.1) 56(84) bytes of data.\n64 bytes from 1.1.1.1: icmp_seq=1 ttl=57 time=14.2 ms\n";
    assert_eq!(parse_ping_output(unix).unwrap(), 14);

    let windows = b"Pinging 8.8.8.8 with 32 bytes of data:\nReply from 8.8.8.8: bytes=32 time=23ms TTL=117\n";
    assert_eq!(parse_ping_output(windows).unwrap(), 23);

    let half_up = b"64 bytes: time=14.5 ms\n";
    assert_eq!(parse_ping_output(half_up).unwrap(), 15);

    let no_time = b"Request timed out.\n";
    assert!(parse_ping_output(no_time).is_err());
    match parse_ping_output(no_time) {
        Err(candyconnect::errors::Error::ParseError(msg)) => {
            assert_eq!(msg, b"Could not parse ping time".to_vec());
        }
        _ => panic!("expected a parse error"),
    }
}

#[test]
fn log_lines_are_json_records() {
    let line = format_log_line(b"2024-05-01T10:00:00+00:00", b"info", b"said \"hi\"\n");
    let text = String::from_utf8(line.clone()).unwrap();
    assert!(text.ends_with('\n'));
    let doc: serde_json::Value = serde_json::from_str(text.trim_end()).unwrap();
    assert_eq!(doc["level"], "info");
    assert_eq!(doc["message"], "said \"hi\"\n");
    assert_eq!(doc["timestamp"], "2024-05-01T10:00:00+00:00");
}

#[test]
fn log_record_carries_a_timestamp() {
    let line = candyconnect::logsink::log_record(b"warn", b"helper exited");
    let doc: serde_json::Value =
        serde_json::from_str(String::from_utf8(line).unwrap().trim_end()).unwrap();
    assert_eq!(doc["level"], "warn");
    assert_eq!(doc["message"], "helper exited");
    assert!(doc["timestamp"].as_str().unwrap().len() >= 19);
}

#[test]
fn missing_tool_report() {
    assert!(check_system_executables(true, true, true, false, false).is_empty());
    assert_eq!(
        check_system_executables(false, true, false, false, false),
        vec![b"xray".to_vec(), b"dnstt".to_vec()]
    );
    assert_eq!(
        check_system_executables(true, true, true, true, false),
        vec![b"openvpn".to_vec()]
    );
    assert!(check_system_executables(true, true, true, true, true).is_empty());
}

#[test]
fn native_profile_names_and_commands() {
    assert_eq!(native_conn_name(true), b"CandyConnect-L2TP".to_vec());
    assert_eq!(native_conn_name(false), b"CandyConnect-IKEv2".to_vec());

    let create = ps_create_command(true, b"CandyConnect-L2TP", b"vpn.example.com", b"psk", false);
    let text = String::from_utf8(create).unwrap();
    assert!(text.starts_with("Add-VpnConnection -Name 'CandyConnect-L2TP'"));
    assert!(text.contains("-TunnelType L2tp"));
    assert!(text.contains("-L2tpPsk 'psk'"));
    assert!(text.contains("MSChapv2"));

    let ikev2 = String::from_utf8(ps_create_command(
        false,
        b"CandyConnect-IKEv2",
        b"vpn.example.com",
        b"",
        true,
    ))
    .unwrap();
    assert!(ikev2.contains("-TunnelType Ikev2"));
    assert!(ikev2.contains("MachineCertificate"));

    let remove = String::from_utf8(ps_remove_command(b"CandyConnect-L2TP")).unwrap();
    assert!(remove.starts_with("Remove-VpnConnection -Name 'CandyConnect-L2TP'"));

    let ipsec = String::from_utf8(ps_ipsec_command(b"CandyConnect-L2TP")).unwrap();
    assert!(ipsec.contains("Set-VpnConnectionIPsecConfiguration"));
}

#[test]
fn linux_profile_data_and_fallback_configs() {
    assert_eq!(
        nmcli_l2tp_data(b"vpn.example.com", b"psk", b"alice"),
        b"gateway=vpn.example.com, ipsec-enabled=yes, ipsec-psk=psk, user=alice".to_vec()
    );
    let ikev2 = String::from_utf8(nmcli_ikev2_data(b"vpn.example.com", false)).unwrap();
    assert!(ikev2.starts_with("address=vpn.example.com"));
    assert!(ikev2.contains("method=eap"));

    let conf = String::from_utf8(xl2tpd_conf(b"vpn.example.com")).unwrap();
    assert!(conf.starts_with("[lac candyconnect]\nlns = vpn.example.com\n"));

    let ppp = String::from_utf8(ppp_options(b"alice", b"pw")).unwrap();
    assert!(ppp.contains("\nname alice\npassword pw\n"));

    assert_eq!(
        candyconnect::nativevpn::ipsec_secrets(b"vpn.example.com", b"psk"),
        b"vpn.example.com %any : PSK \"psk\"\n".to_vec()
    );
}

#[test]
fn ikev2_profile_lists_all_payload_fields() {
    let plist = String::from_utf8(ikev2_profile_plist(
        b"vpn.example.com",
        false,
        b"alice",
        b"pw",
        b"CandyConnect-IKEv2",
    ))
    .unwrap();
    assert!(plist.contains("<string>vpn.example.com</string>"));
    assert!(plist.contains("<string>None</string>"));
    assert!(plist.contains("<string>alice</string>"));
    assert!(plist.contains("<string>pw</string>"));
    assert!(plist.contains("<string>CandyConnect-IKEv2</string>"));
    assert!(plist.contains("com.apple.vpn.managed"));
}

#[test]
fn native_poll_decisions() {
    let listing = b"CandyConnect-L2TP\nsome-other\n";
    assert!(!native_connection_dropped(listing, b"CandyConnect-L2TP"));
    assert!(native_connection_dropped(b"no connections\n", b"CandyConnect-L2TP"));

    let up = b"* (Connected)  ABC  IPSec  \"CandyConnect-IKEv2\"\n";
    let down = b"* (Disconnected)  ABC  IPSec  \"CandyConnect-IKEv2\"\n";
    assert!(!scutil_connection_dropped(up, b"CandyConnect-IKEv2"));
    assert!(scutil_connection_dropped(down, b"CandyConnect-IKEv2"));
    // A listing that no longer names the profile is still "connecting",
    // not dropped.
    assert!(!scutil_connection_dropped(b"nothing\n", b"CandyConnect-IKEv2"));
}

#[test]
fn error_previews_are_truncated() {
    let long = vec![b'a'; 500];
    let preview = candyconnect::errors::preview_of(&long);
    assert_eq!(preview.len(), 200);
    let short = candyconnect::errors::preview_of(b"tiny");
    assert_eq!(short, b"tiny".to_vec());
}
