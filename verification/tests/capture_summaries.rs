use raw_sniffer::capture::{parse_ethernet, parse_ipv4};

fn plain_output() {
    colored::control::set_override(false);
}

const HEAD: &str = "DST: ff:ff:ff:ff:ff:ff -> SRC: 00:1a:2b:3c:4d:5e";

fn ethernet(ethertype: u16, payload: &[u8]) -> Vec<u8> {
    let mut f = vec![0xff, 0xff, 0xff, 0xff, 0xff, 0xff, 0x00, 0x1a, 0x2b, 0x3c, 0x4d, 0x5e];
    f.extend_from_slice(&ethertype.to_be_bytes());
    f.extend_from_slice(payload);
    f
}

fn ipv4(proto: u8, src: [u8; 4], dst: [u8; 4], transport: &[u8]) -> Vec<u8> {
    let mut h = vec![0x45, 0, 0, 0, 0, 0, 0, 0, 64, proto, 0, 0];
    h.extend_from_slice(&src);
    h.extend_from_slice(&dst);
    h.extend_from_slice(transport);
    h
}

fn tcp_frame(flags: u8) -> Vec<u8> {
    let mut t = vec![0x01, 0xbb, 0xc8, 0x00];
    t.extend_from_slice(&[0u8; 16]);
    t[13] = flags;
    ethernet(0x0800, &ipv4(6, [149, 154, 167, 51], [192, 168, 1, 5], &t))
}

fn udp_frame() -> Vec<u8> {
    ethernet(0x0800, &ipv4(17, [192, 168, 1, 5], [8, 8, 8, 8], &[0xde, 0x3b, 0x00, 0x35, 0, 8]))
}

fn show(buf: &[u8]) -> Option<String> {
    parse_ethernet(buf, &None, &None, &None)
}

#[test]
fn capture_ipv4_text() {
    let ip = ipv4(17, [192, 168, 1, 5], [8, 8, 8, 8], &[0xde, 0x3b, 0x00, 0x35]);
    let (text, sp, dp) = parse_ipv4(&ip);
    assert_eq!(text, "IPv4: 192.168.1.5:56891 -> 8.8.8.8:53");
    assert_eq!((sp, dp), (Some(56891), Some(53)));
    let icmp = ipv4(1, [255, 0, 10, 100], [0, 0, 0, 0], &[]);
    assert_eq!(parse_ipv4(&icmp).0, "IPv4: 255.0.10.100 -> 0.0.0.0");
    assert_eq!(parse_ipv4(&[0u8; 12]).0, "Invalid IPv4");
}

#[test]
fn capture_lines() {
    plain_output();
    assert_eq!(show(&[1, 2, 3]).unwrap(), "Invalid Ethernet");
    assert_eq!(
        show(&udp_frame()).unwrap(),
        format!("{} | IPv4: 192.168.1.5:56891 -> 8.8.8.8:53 | UDP", HEAD)
    );
    assert_eq!(
        show(&tcp_frame(0x12)).unwrap(),
        format!("{} | IPv4: 149.154.167.51:443 -> 192.168.1.5:51200 | TCP: SYN, ACK", HEAD)
    );
    assert_eq!(
        show(&tcp_frame(0)).unwrap(),
        format!("{} | IPv4: 149.154.167.51:443 -> 192.168.1.5:51200 | TCP: no flags", HEAD)
    );
    let gre = ethernet(0x0800, &ipv4(47, [1, 1, 1, 1], [2, 2, 2, 2], &[]));
    assert_eq!(
        show(&gre).unwrap(),
        format!("{} | IPv4: 1.1.1.1 -> 2.2.2.2 | Other IP protocol", HEAD)
    );
    assert_eq!(show(&ethernet(0x86DD, &[])).unwrap(), format!("{} | IPv6", HEAD));
    assert_eq!(show(&ethernet(0x0806, &[])).unwrap(), format!("{} | ARP", HEAD));
    assert_eq!(show(&ethernet(0x1234, &[])).unwrap(), format!("{} | Неизвестный EtherType", HEAD));
}

#[test]
fn capture_tcp_cut_short_ignores_filters() {
    let frame = ethernet(0x0800, &ipv4(6, [1, 2, 3, 4], [5, 6, 7, 8], &[0u8; 10]));
    let udp = Some("udp".to_string());
    assert_eq!(parse_ethernet(&frame, &udp, &Some(1), &None).unwrap(), "TCP (invalid)");
}

#[test]
fn capture_proto_filter() {
    plain_output();
    let tcp = Some("tcp".to_string());
    assert!(parse_ethernet(&tcp_frame(0x10), &tcp, &None, &None).is_some());
    assert!(parse_ethernet(&udp_frame(), &tcp, &None, &None).is_none());
    let udp = Some("Udp".to_string());
    assert!(parse_ethernet(&udp_frame(), &udp, &None, &None).is_some());
    let flags = Some("tcp: syn".to_string());
    assert!(parse_ethernet(&tcp_frame(0x12), &flags, &None, &None).is_some());
    assert!(parse_ethernet(&tcp_frame(0x10), &flags, &None, &None).is_none());
    assert!(parse_ethernet(&ethernet(0x86DD, &[]), &tcp, &None, &None).is_none());
    assert!(parse_ethernet(&ethernet(0x0806, &[]), &udp, &None, &None).is_none());
    let arp = Some("arp".to_string());
    assert!(parse_ethernet(&ethernet(0x0806, &[]), &arp, &None, &None).is_some());
    let ipv6 = Some("IPv6".to_string());
    assert!(parse_ethernet(&ethernet(0x86DD, &[]), &ipv6, &None, &None).is_some());
    assert!(parse_ethernet(&ethernet(0x4321, &[]), &arp, &None, &None).is_none());
}

#[test]
fn capture_port_filter() {
    assert!(parse_ethernet(&udp_frame(), &None, &Some(53), &None).is_some());
    assert!(parse_ethernet(&udp_frame(), &None, &Some(56891), &None).is_some());
    assert!(parse_ethernet(&udp_frame(), &None, &Some(443), &None).is_none());
    assert!(parse_ethernet(&ethernet(0x0806, &[]), &None, &Some(443), &None).is_none());
}

#[test]
fn capture_address_filter() {
    let google = Some("8.8.".to_string());
    assert!(parse_ethernet(&udp_frame(), &None, &None, &google).is_some());
    assert!(parse_ethernet(&tcp_frame(0x10), &None, &None, &google).is_none());
    let port_text = Some(":443".to_string());
    assert!(parse_ethernet(&tcp_frame(0x10), &None, &None, &port_text).is_some());
    assert!(parse_ethernet(&ethernet(0x86DD, &[]), &None, &None, &google).is_none());
}

#[test]
fn capture_no_filter_shows_all() {
    for frame in [udp_frame(), tcp_frame(0x01), ethernet(0x86DD, &[]), ethernet(0x0806, &[]), ethernet(0x9000, &[])] {
        assert!(show(&frame).is_some());
    }
}
