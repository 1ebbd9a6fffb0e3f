//! Tests of traffic measurement: the tunnel-interface filter, the
//! per-platform table parsers, and the speed and total computation.

use candyconnect::netstats::{
    is_vpn_interface, parse_adapter_csv, parse_netstat_e, parse_netstat_ib, parse_proc_net_dev,
    read_tunnel_counters, IfaceCounters, NetTracker,
};

#[test]
fn tunnel_interface_predicate() {
    assert!(is_vpn_interface("tun0"));
    assert!(is_vpn_interface("wg0"));
    assert!(is_vpn_interface("utun3"));
    assert!(is_vpn_interface("ppp0"));
    assert!(is_vpn_interface("sing-box"));
    assert!(is_vpn_interface("candy1"));
    assert!(is_vpn_interface("tun0:"));
    assert!(!is_vpn_interface("eth0"));
    assert!(!is_vpn_interface("wlan0"));
    assert!(!is_vpn_interface("lo"));
    assert!(!is_vpn_interface("sing-box0"));
    assert!(!is_vpn_interface("docker0"));
}

fn row(name: &str, recv: u64, sent: u64) -> IfaceCounters {
    IfaceCounters { name: name.as_bytes().to_vec(), bytes_recv: recv, bytes_sent: sent }
}

#[test]
fn only_tunnel_rows_contribute_to_the_sum() {
    let table = vec![
        row("eth0", 1_000_000, 2_000_000),
        row("tun0", 1_000, 2_000),
        row("lo", 77, 88),
        row("wg1", 30, 40),
        row("docker0", 5, 6),
    ];
    assert_eq!(read_tunnel_counters(&table), (1_030, 2_040));
}

#[test]
fn empty_or_tunnel_free_table_sums_to_zero() {
    assert_eq!(read_tunnel_counters(&vec![]), (0, 0));
    assert_eq!(read_tunnel_counters(&vec![row("eth0", 9, 9)]), (0, 0));
}

#[test]
fn proc_net_dev_parsing() {
    let text = b"Inter-|   Receive                                                |  Transmit\n\
 face |bytes    packets errs drop fifo frame compressed multicast|bytes    packets errs drop fifo colls carrier compressed\n\
    lo:     100     2    0    0    0     0          0         0      200     2    0    0    0     0       0          0\n\
  tun0:    1000    10    0    0    0     0          0         0     2000    20    0    0    0     0       0          0\n\
  eth0: 5000000  5000    0    0    0     0          0         0  6000000  6000    0    0    0     0       0          0\n";
    let table = parse_proc_net_dev(text);
    assert_eq!(table.len(), 3);
    assert_eq!(table[0].name, b"lo".to_vec());
    assert_eq!(table[1].name, b"tun0".to_vec());
    assert_eq!(table[1].bytes_recv, 1000);
    assert_eq!(table[1].bytes_sent, 2000);
    assert_eq!(read_tunnel_counters(&table), (1000, 2000));
}

#[test]
fn netstat_ib_parsing() {
    let text = b"Name  Mtu   Network       Address            Ipkts Ierrs     Ibytes    Opkts Oerrs     Obytes  Coll\n\
en0   1500  <Link#4>    aa:bb:cc:dd:ee:ff  100     0    500000      90     0     400000     0\n\
utun3 1380  <Link#15>    aa:bb:cc:00:11:22    10     0      7000       9     0       8000     0\n";
    let table = parse_netstat_ib(text);
    assert_eq!(table.len(), 2);
    assert_eq!(table[0].name, b"en0".to_vec());
    assert_eq!(table[1].name, b"utun3".to_vec());
    assert_eq!(read_tunnel_counters(&table), (7000, 8000));
}

#[test]
fn adapter_csv_parsing() {
    let text = b"\"Property\",\"Sum\"\r\n\"ReceivedBytes\",\"123456\"\r\n\"SentBytes\",\"654321\"\r\n";
    assert_eq!(parse_adapter_csv(text), (123456, 654321));
    assert_eq!(parse_adapter_csv(b""), (0, 0));
    assert_eq!(parse_adapter_csv(b"\"ReceivedBytes\",\"\"\n"), (0, 0));
}

#[test]
fn netstat_e_parsing() {
    let text = b"Interface Statistics\n\n                           Received            Sent\n\nBytes                    1111111          2222222\nUnicast packets           800303          1416957\n";
    assert_eq!(parse_netstat_e(text), Some((1111111, 2222222)));
    assert_eq!(parse_netstat_e(b"no totals here"), None);
}

#[test]
fn s6_speed_and_totals_from_counter_jump() {
    let mut t = NetTracker::new();
    let first = t.get_network_stats(1_000, 500, 0);
    assert_eq!(first.download_speed_tenths, 0);
    assert_eq!(first.total_download, 0);

    let second = t.get_network_stats(1_000 + 1_024_000, 500 + 2_048, 1_000);
    // 1,024,000 bytes in one second is 1000.0 KB/s, i.e. 10000 tenths.
    assert_eq!(second.download_speed_tenths, 10_000);
    assert_eq!(second.upload_speed_tenths, 20);
    assert_eq!(second.total_download, 1_024_000);
    assert_eq!(second.total_upload, 2_048);
}

#[test]
fn totals_never_shrink_and_counters_may_reset() {
    let mut t = NetTracker::new();
    t.get_network_stats(10_000, 10_000, 0);
    let mut last_dl = 0;
    let readings = [(20_000u64, 100u64), (5_000, 200), (6_000, 300), (6_000, 400)];
    for (i, (recv, _)) in readings.iter().enumerate() {
        let s = t.get_network_stats(*recv, 0, (i as u64 + 1) * 1000);
        assert!(s.total_download >= last_dl);
        last_dl = s.total_download;
    }
    // The drop from 20,000 to 5,000 counted as zero, not as a negative.
    assert_eq!(last_dl, 11_000);
}

#[test]
fn polls_within_ten_milliseconds_only_rebase() {
    let mut t = NetTracker::new();
    t.get_network_stats(0, 0, 0);
    let s = t.get_network_stats(1_000_000, 1_000_000, 5);
    assert_eq!(s.download_speed_tenths, 0);
    assert_eq!(s.total_download, 0);
    assert_eq!(t.net_state().unwrap().at_ms, 5);
}

#[test]
fn reset_clears_baseline_and_totals() {
    let mut t = NetTracker::new();
    t.get_network_stats(0, 0, 0);
    t.get_network_stats(50_000, 60_000, 1_000);
    assert_eq!(t.net_session(), (50_000, 60_000));

    t.reset_network_session();
    assert_eq!(t.net_session(), (0, 0));
    assert!(t.net_state().is_none());

    let s = t.get_network_stats(999_999, 999_999, 2_000);
    assert_eq!(s.download_speed_tenths, 0);
    assert_eq!(s.upload_speed_tenths, 0);
    assert_eq!(s.total_download, 0);
    assert_eq!(s.total_upload, 0);
}
