use raw_sniffer::filters::Filters;
use raw_sniffer::frame::{check_frame_bounds, format_mac};
use raw_sniffer::parser::{colorize_ip, known_org, parse_ethernet, parse_ipv4};

fn plain_output() {
    colored::control::set_override(false);
}

const DST_MAC: [u8; 6] = [0xff, 0xff, 0xff, 0xff, 0xff, 0xff];
const SRC_MAC: [u8; 6] = [0x00, 0x1a, 0x2b, 0x3c, 0x4d, 0x5e];
const HEAD: &str = "DST: ff:ff:ff:ff:ff:ff -> SRC: 00:1a:2b:3c:4d:5e";

fn ethernet(ethertype: u16, payload: &[u8]) -> Vec<u8> {
    let mut f = Vec::new();
    f.extend_from_slice(&DST_MAC);
    f.extend_from_slice(&SRC_MAC);
    f.extend_from_slice(&ethertype.to_be_bytes());
    f.extend_from_slice(payload);
    f
}

fn ipv4(proto: u8, src: [u8; 4], dst: [u8; 4], transport: &[u8]) -> Vec<u8> {
    let mut h = vec![0x45, 0, 0, 0, 0, 0, 0, 0, 64, proto, 0, 0];
    h.extend_from_slice(&src);
    h.extend_from_slice(&dst);
    h.extend_from_slice(transport);
    h
}

fn ports(sp: u16, dp: u16, rest: &[u8]) -> Vec<u8> {
    let mut t = Vec::new();
    t.extend_from_slice(&sp.to_be_bytes());
    t.extend_from_slice(&dp.to_be_bytes());
    t.extend_from_slice(rest);
    t
}

fn tcp(sp: u16, dp: u16, flags: u8) -> Vec<u8> {
    let mut rest = vec![0u8; 16];
    rest[9] = flags;
    ports(sp, dp, &rest)
}

fn udp_frame() -> Vec<u8> {
    ethernet(0x0800, &ipv4(17, [192, 168, 1, 5], [8, 8, 8, 8], &ports(56891, 53, &[0, 8, 0, 0])))
}

fn tcp_frame(flags: u8) -> Vec<u8> {
    ethernet(0x0800, &ipv4(6, [149, 154, 167, 51], [192, 168, 1, 5], &tcp(443, 51200, flags)))
}

fn none() -> Vec<String> {
    Vec::new()
}

fn strings(v: &[&str]) -> Vec<String> {
    v.iter().map(|s| s.to_string()).collect()
}

fn show(buf: &[u8]) -> Option<String> {
    parse_ethernet(buf, &none(), &Vec::new(), &none(), &none())
}

#[test]
fn known_org_ranges() {
    assert_eq!(known_org("142.250.74.14"), "[Google]");
    assert_eq!(known_org("142.251.1.1"), "[Google]");
    assert_eq!(known_org("172.217.16.142"), "[Google]");
    assert_eq!(known_org("8.8.8.8"), "[Google]");
    assert_eq!(known_org("8.8.4.4"), "");
    assert_eq!(known_org("8.8.8.80"), "");
    assert_eq!(known_org("192.168.1.5"), "[Local Network]");
    assert_eq!(known_org("10.0.0.1"), "[Local Network]");
    assert_eq!(known_org("172.16.0.1"), "");
    assert_eq!(known_org("172.31.255.1"), "");
    assert_eq!(known_org("172.32.0.1"), "");
    assert_eq!(known_org("172.1.0.1"), "");
    assert_eq!(known_org("91.108.56.1"), "[Telegram]");
    assert_eq!(known_org("149.154.167.51"), "[Telegram]");
    assert_eq!(known_org("1.1.1.1"), "");
    assert_eq!(known_org("100.1.1.1"), "");
    assert_eq!(known_org(""), "");
}

#[test]
fn colorize_ip_without_color_keeps_text() {
    plain_output();
    assert_eq!(colorize_ip("192.168.0.1"), "192.168.0.1");
    assert_eq!(colorize_ip("1.1.1.1"), "1.1.1.1");
}

#[test]
fn format_mac_bytes() {
    assert_eq!(format_mac(&DST_MAC), "ff:ff:ff:ff:ff:ff");
    assert_eq!(format_mac(&SRC_MAC), "00:1a:2b:3c:4d:5e");
    assert_eq!(format_mac(&[0x0a]), "0a");
    assert_eq!(format_mac(&[]), "");
}

#[test]
fn parse_ipv4_udp_with_owners() {
    plain_output();
    let ip = ipv4(17, [192, 168, 1, 5], [142, 250, 0, 1], &ports(56891, 53, &[0, 8, 0, 0]));
    let (text, sp, dp) = parse_ipv4(&ip);
    assert_eq!(text, "IPv4: 192.168.1.5:56891 [Local Network] -> 142.250.0.1:53 [Google]");
    assert_eq!(sp, Some(56891));
    assert_eq!(dp, Some(53));
}

#[test]
fn parse_ipv4_without_ports() {
    plain_output();
    let ip = ipv4(1, [8, 8, 4, 4], [0, 0, 0, 0], &[8, 0, 0, 0]);
    let (text, sp, dp) = parse_ipv4(&ip);
    assert_eq!(text, "IPv4: 8.8.4.4  -> 0.0.0.0 ");
    assert_eq!(sp, None);
    assert_eq!(dp, None);
}

#[test]
fn parse_ipv4_short_transport_has_no_ports() {
    plain_output();
    let ip = ipv4(6, [10, 0, 0, 1], [10, 0, 0, 2], &[1, 2, 3]);
    let (text, sp, dp) = parse_ipv4(&ip);
    assert_eq!(text, "IPv4: 10.0.0.1 [Local Network] -> 10.0.0.2 [Local Network]");
    assert_eq!((sp, dp), (None, None));
}

#[test]
fn parse_ipv4_too_short() {
    let (text, sp, dp) = parse_ipv4(&[0x45; 19]);
    assert_eq!(text, "Invalid IPv4");
    assert_eq!((sp, dp), (None, None));
}

#[test]
fn ethernet_too_short() {
    assert_eq!(show(&[0u8; 13]).unwrap(), "Invalid Ethernet");
    assert_eq!(show(&[]).unwrap(), "Invalid Ethernet");
}

#[test]
fn ethernet_udp_line() {
    plain_output();
    assert_eq!(
        show(&udp_frame()).unwrap(),
        format!("{} | IPv4: 192.168.1.5:56891 [Local Network] -> 8.8.8.8:53 [Google] | UDP: [DNS]", HEAD)
    );
}

#[test]
fn ethernet_tcp_flags() {
    plain_output();
    let prefix = format!(
        "{} | IPv4: 149.154.167.51:443 [Telegram] -> 192.168.1.5:51200 [Local Network] | ",
        HEAD
    );
    assert_eq!(show(&tcp_frame(0x10)).unwrap(), format!("{}TCP: ACK", prefix));
    assert_eq!(show(&tcp_frame(0x12)).unwrap(), format!("{}TCP: SYN, ACK", prefix));
    assert_eq!(show(&tcp_frame(0x17)).unwrap(), format!("{}TCP: SYN, ACK, FIN, RST", prefix));
    assert_eq!(show(&tcp_frame(0x05)).unwrap(), format!("{}TCP: FIN, RST", prefix));
    assert_eq!(show(&tcp_frame(0x00)).unwrap(), format!("{}TCP: no flags", prefix));
    assert_eq!(show(&tcp_frame(0x08)).unwrap(), format!("{}TCP: no flags", prefix));
}

#[test]
fn ethernet_tcp_cut_short() {
    let frame = ethernet(0x0800, &ipv4(6, [1, 2, 3, 4], [5, 6, 7, 8], &[0u8; 13]));
    assert_eq!(show(&frame).unwrap(), "TCP (invalid)");
}

#[test]
fn ethernet_other_protocols() {
    plain_output();
    let icmp = ethernet(0x0800, &ipv4(1, [1, 1, 1, 1], [2, 2, 2, 2], &[8, 0]));
    assert_eq!(show(&icmp).unwrap(), format!("{} | IPv4: 1.1.1.1  -> 2.2.2.2  | ICMP", HEAD));
    let igmp = ethernet(0x0800, &ipv4(2, [10, 1, 1, 1], [224, 0, 0, 1], &[]));
    assert_eq!(
        show(&igmp).unwrap(),
        format!("{} | IPv4: 10.1.1.1 [Local Network] -> 224.0.0.1  | IGMP", HEAD)
    );
    let gre = ethernet(0x0800, &ipv4(47, [1, 1, 1, 1], [2, 2, 2, 2], &[]));
    assert_eq!(
        show(&gre).unwrap(),
        format!("{} | IPv4: 1.1.1.1  -> 2.2.2.2  | Other IP protocol", HEAD)
    );
}

#[test]
fn ethernet_short_ipv4_header() {
    plain_output();
    let frame = ethernet(0x0800, &[0x40, 0, 0, 0, 0, 0, 0, 0, 0, 17]);
    assert_eq!(show(&frame).unwrap(), format!("{} | Invalid IPv4 | UDP", HEAD));
}

#[test]
fn ethernet_ipv6_arp_unknown() {
    assert_eq!(show(&ethernet(0x86DD, &[0; 40])).unwrap(), format!("{} | IPv6", HEAD));
    assert_eq!(show(&ethernet(0x0806, &[0; 28])).unwrap(), format!("{} | ARP", HEAD));
    assert_eq!(
        show(&ethernet(0x88CC, &[])).unwrap(),
        format!("{} | Неизвестный EtherType", HEAD)
    );
}

#[test]
fn include_protocol_ignores_case() {
    plain_output();
    let udp = strings(&["udp"]);
    assert!(parse_ethernet(&udp_frame(), &udp, &Vec::new(), &none(), &none()).is_some());
    assert!(parse_ethernet(&tcp_frame(0x10), &udp, &Vec::new(), &none(), &none()).is_none());
    assert!(parse_ethernet(&ethernet(0x0806, &[]), &udp, &Vec::new(), &none(), &none()).is_none());
    assert!(parse_ethernet(&ethernet(0x88CC, &[]), &udp, &Vec::new(), &none(), &none()).is_none());
    let prefix = strings(&["Tc"]);
    assert!(parse_ethernet(&tcp_frame(0x10), &prefix, &Vec::new(), &none(), &none()).is_some());
}

#[test]
fn include_several_protocols() {
    let both = strings(&["tcp", "udp"]);
    assert!(parse_ethernet(&udp_frame(), &both, &Vec::new(), &none(), &none()).is_some());
    assert!(parse_ethernet(&tcp_frame(0x02), &both, &Vec::new(), &none(), &none()).is_some());
    let icmp = ethernet(0x0800, &ipv4(1, [1, 1, 1, 1], [2, 2, 2, 2], &[8, 0]));
    assert!(parse_ethernet(&icmp, &both, &Vec::new(), &none(), &none()).is_none());
}

#[test]
fn include_arp_and_ipv6() {
    let arp = strings(&["arp"]);
    assert!(parse_ethernet(&ethernet(0x0806, &[]), &arp, &Vec::new(), &none(), &none()).is_some());
    let ipv6 = strings(&["ipv6"]);
    assert!(parse_ethernet(&ethernet(0x86DD, &[]), &ipv6, &Vec::new(), &none(), &none()).is_some());
    assert!(parse_ethernet(&ethernet(0x0806, &[]), &ipv6, &Vec::new(), &none(), &none()).is_none());
}

#[test]
fn exclusion_wins() {
    let tcp = strings(&["tcp"]);
    assert!(parse_ethernet(&tcp_frame(0x10), &none(), &Vec::new(), &none(), &tcp).is_none());
    assert!(parse_ethernet(&tcp_frame(0x10), &tcp, &Vec::new(), &none(), &tcp).is_none());
    assert!(parse_ethernet(&udp_frame(), &none(), &Vec::new(), &none(), &tcp).is_some());
    let igmp = strings(&["IGMP"]);
    let frame = ethernet(0x0800, &ipv4(2, [10, 1, 1, 1], [224, 0, 0, 1], &[]));
    assert!(parse_ethernet(&frame, &none(), &Vec::new(), &none(), &igmp).is_none());
    let arp = strings(&["arp"]);
    assert!(parse_ethernet(&ethernet(0x0806, &[]), &none(), &Vec::new(), &none(), &arp).is_none());
    let ipv6 = strings(&["IPV6"]);
    assert!(parse_ethernet(&ethernet(0x86DD, &[]), &none(), &Vec::new(), &none(), &ipv6).is_none());
    let short = ethernet(0x0800, &ipv4(6, [1, 2, 3, 4], [5, 6, 7, 8], &[0u8; 13]));
    assert!(parse_ethernet(&short, &none(), &Vec::new(), &none(), &tcp).is_none());
}

#[test]
fn port_filter_keeps_matching_ports() {
    let p443 = vec![443u16];
    assert!(parse_ethernet(&tcp_frame(0x10), &none(), &p443, &none(), &none()).is_some());
    assert!(parse_ethernet(&udp_frame(), &none(), &p443, &none(), &none()).is_none());
    let many = vec![80u16, 53];
    assert!(parse_ethernet(&udp_frame(), &none(), &many, &none(), &none()).is_some());
    let icmp = ethernet(0x0800, &ipv4(1, [1, 1, 1, 1], [2, 2, 2, 2], &[8, 0, 0, 53]));
    assert!(parse_ethernet(&icmp, &none(), &many, &none(), &none()).is_none());
    assert!(parse_ethernet(&ethernet(0x0806, &[]), &none(), &p443, &none(), &none()).is_none());
}

#[test]
fn address_filter_matches_addresses() {
    let telegram = strings(&["149.154."]);
    assert!(parse_ethernet(&tcp_frame(0x10), &none(), &Vec::new(), &telegram, &none()).is_some());
    assert!(parse_ethernet(&udp_frame(), &none(), &Vec::new(), &telegram, &none()).is_none());
    let dst = strings(&["8.8.8.8"]);
    assert!(parse_ethernet(&udp_frame(), &none(), &Vec::new(), &dst, &none()).is_some());
    let either = strings(&["10.9.9.9", "192.168.1.5"]);
    assert!(parse_ethernet(&udp_frame(), &none(), &Vec::new(), &either, &none()).is_some());
    let short = ethernet(0x0800, &[0x40, 0, 0, 0, 0, 0, 0, 0, 0, 17]);
    assert!(parse_ethernet(&short, &none(), &Vec::new(), &dst, &none()).is_none());
    assert!(parse_ethernet(&ethernet(0x86DD, &[]), &none(), &Vec::new(), &dst, &none()).is_none());
}

#[test]
fn frame_bounds() {
    assert!(check_frame_bounds(&[]));
    assert!(check_frame_bounds(&ethernet(0x0806, &[])));
    assert!(check_frame_bounds(&udp_frame()));
    assert!(!check_frame_bounds(&ethernet(0x0800, &[0x45; 9])));
    assert!(check_frame_bounds(&ethernet(0x0800, &[0x42; 10])));
    assert!(!check_frame_bounds(&ethernet(0x0800, &[0x45; 10])));
    assert!(check_frame_bounds(&ethernet(0x0800, &[0x45; 20])));
}

#[test]
fn no_filter_shows_every_frame() {
    let frames = [
        udp_frame(),
        tcp_frame(0x02),
        ethernet(0x86DD, &[]),
        ethernet(0x0806, &[]),
        ethernet(0x0000, &[]),
        vec![0u8; 5],
    ];
    for frame in frames.iter() {
        assert!(show(frame).is_some());
    }
}

#[test]
fn readme_example_lines() {
    plain_output();
    let mut t = ports(443, 51200, &[0u8; 16]);
    t[13] = 0x10;
    let mut frame = vec![0x00, 0x1a, 0x2b, 0x3c, 0x4d, 0x5e, 0x00, 0xaa, 0xbb, 0xcc, 0xdd, 0xee];
    frame.extend_from_slice(&[0x08, 0x00]);
    frame.extend_from_slice(&ipv4(6, [149, 154, 167, 51], [192, 168, 1, 5], &t));
    assert_eq!(
        show(&frame).unwrap(),
        "DST: 00:1a:2b:3c:4d:5e -> SRC: 00:aa:bb:cc:dd:ee | IPv4: 149.154.167.51:443 [Telegram] -> 192.168.1.5:51200 [Local Network] | TCP: ACK"
    );
    assert_eq!(
        show(&udp_frame()).unwrap(),
        "DST: ff:ff:ff:ff:ff:ff -> SRC: 00:1a:2b:3c:4d:5e | IPv4: 192.168.1.5:56891 [Local Network] -> 8.8.8.8:53 [Google] | UDP: [DNS]"
    );
}

#[test]
fn udp_services() {
    plain_output();
    let service = |sp: u16, dp: u16| {
        let frame = ethernet(0x0800, &ipv4(17, [1, 1, 1, 1], [2, 2, 2, 2], &ports(sp, dp, &[])));
        let line = show(&frame).unwrap();
        line.rsplit(" | ").next().unwrap().to_string()
    };
    assert_eq!(service(40000, 53), "UDP: [DNS]");
    assert_eq!(service(53, 40000), "UDP: [DNS]");
    assert_eq!(service(123, 123), "UDP: [NTP]");
    assert_eq!(service(68, 67), "UDP: [DHCP]");
    assert_eq!(service(5353, 5353), "UDP: [mDNS]");
    assert_eq!(service(53, 123), "UDP: [NTP]");
    assert_eq!(service(40000, 40001), "UDP");
    let cut = ethernet(0x0800, &ipv4(17, [1, 1, 1, 1], [2, 2, 2, 2], &[0, 53]));
    assert!(show(&cut).unwrap().ends_with(" | UDP"));
}

fn session(f: impl FnOnce(&mut Filters)) -> Filters {
    let mut filters = Filters {
        proto: Vec::new(),
        port: Vec::new(),
        ip: Vec::new(),
        exc_proto: Vec::new(),
        exc_port: Vec::new(),
        exc_ip: Vec::new(),
        no_mac: false,
    };
    f(&mut filters);
    filters
}

#[test]
fn session_excluded_ports_and_addresses() {
    plain_output();
    let exc_port = session(|f| f.exc_port = vec![53]);
    assert!(exc_port.summarize(&udp_frame()).is_none());
    assert!(exc_port.summarize(&tcp_frame(0x10)).is_some());
    assert!(exc_port.summarize(&ethernet(0x0806, &[])).is_some());
    let exc_ip = session(|f| f.exc_ip = strings(&["192.168.1.10"]));
    assert!(exc_ip.summarize(&udp_frame()).is_some());
    let exc_local = session(|f| f.exc_ip = strings(&["192.168.1.5"]));
    assert!(exc_local.summarize(&udp_frame()).is_none());
    let https_not_local = session(|f| {
        f.port = vec![443];
        f.exc_ip = strings(&["192.168.1.10"]);
    });
    assert!(https_not_local.summarize(&tcp_frame(0x10)).is_some());
    assert!(https_not_local.summarize(&udp_frame()).is_none());
}

#[test]
fn session_no_mac() {
    plain_output();
    let no_mac = session(|f| f.no_mac = true);
    assert_eq!(
        no_mac.summarize(&udp_frame()).unwrap(),
        "IPv4: 192.168.1.5:56891 [Local Network] -> 8.8.8.8:53 [Google] | UDP: [DNS]"
    );
    assert_eq!(no_mac.summarize(&ethernet(0x0806, &[])).unwrap(), "ARP");
    assert_eq!(no_mac.summarize(&[0u8; 3]).unwrap(), "Invalid Ethernet");
}

#[test]
fn session_exclude_igmp_and_telegram_only() {
    let exc = session(|f| f.exc_proto = strings(&["igmp"]));
    let igmp = ethernet(0x0800, &ipv4(2, [10, 1, 1, 1], [224, 0, 0, 1], &[]));
    assert!(exc.summarize(&igmp).is_none());
    assert!(exc.summarize(&udp_frame()).is_some());
    let telegram = session(|f| f.ip = strings(&["149.154."]));
    assert!(telegram.summarize(&tcp_frame(0x10)).is_some());
    assert!(telegram.summarize(&udp_frame()).is_none());
}
