use raw_sniffer::capture;
use raw_sniffer::color::{paint, Color};
use raw_sniffer::parser::{colorize_ip, parse_ethernet};

fn colored_output() {
    colored::control::set_override(true);
}

fn ethernet(ethertype: u16, payload: &[u8]) -> Vec<u8> {
    let mut f = vec![0xff, 0xff, 0xff, 0xff, 0xff, 0xff, 0x00, 0x1a, 0x2b, 0x3c, 0x4d, 0x5e];
    f.extend_from_slice(&ethertype.to_be_bytes());
    f.extend_from_slice(payload);
    f
}

fn ipv4(proto: u8, src: [u8; 4], dst: [u8; 4], transport: &[u8]) -> Vec<u8> {
    let mut h = vec![0x45, 0, 0, 0, 0, 0, 0, 0, 64, proto, 0, 0];
    h.extend_from_slice(&src);
    h.extend_from_slice(&dst);
    h.extend_from_slice(transport);
    h
}

#[test]
fn paint_wraps_in_escape_codes() {
    colored_output();
    assert_eq!(paint("x", Color::Black), "\x1b[30mx\x1b[0m");
    assert_eq!(paint("x", Color::Red), "\x1b[31mx\x1b[0m");
    assert_eq!(paint("x", Color::Green), "\x1b[32mx\x1b[0m");
    assert_eq!(paint("x", Color::Yellow), "\x1b[33mx\x1b[0m");
    assert_eq!(paint("x", Color::Blue), "\x1b[34mx\x1b[0m");
    assert_eq!(paint("x", Color::Purple), "\x1b[35mx\x1b[0m");
    assert_eq!(paint("x", Color::Cyan), "\x1b[36mx\x1b[0m");
}

#[test]
fn local_addresses_green_others_red() {
    colored_output();
    assert_eq!(colorize_ip("192.168.1.5"), "\x1b[32m192.168.1.5\x1b[0m");
    assert_eq!(colorize_ip("10.0.0.1"), "\x1b[32m10.0.0.1\x1b[0m");
    assert_eq!(colorize_ip("172.16.1.1"), "\x1b[32m172.16.1.1\x1b[0m");
    assert_eq!(colorize_ip("172.31.0.9"), "\x1b[32m172.31.0.9\x1b[0m");
    assert_eq!(colorize_ip("172.217.1.1"), "\x1b[31m172.217.1.1\x1b[0m");
    assert_eq!(colorize_ip("8.8.8.8"), "\x1b[31m8.8.8.8\x1b[0m");
    assert_eq!(colorize_ip("193.168.1.1"), "\x1b[31m193.168.1.1\x1b[0m");
}

#[test]
fn reset_inside_text_resumes_color() {
    colored_output();
    assert_eq!(colorize_ip("\x1b[0m"), "\x1b[31m\x1b[0m\x1b[31m\x1b[0m");
    assert_eq!(paint("a\x1b[0mb", Color::Blue), "\x1b[34ma\x1b[0m\x1b[34mb\x1b[0m");
    assert_eq!(colorize_ip("\x1b"), "\x1b[31m\x1b\x1b[0m");
}

#[test]
fn summary_line_in_color() {
    colored_output();
    let mut t = vec![0x01, 0xbb, 0xc8, 0x00];
    t.extend_from_slice(&[0u8; 16]);
    t[13] = 0x11;
    let frame = ethernet(0x0800, &ipv4(6, [8, 8, 8, 8], [10, 0, 0, 7], &t));
    let none: Vec<String> = Vec::new();
    let line = parse_ethernet(&frame, &none, &Vec::new(), &none, &none).unwrap();
    assert_eq!(
        line,
        "DST: ff:ff:ff:ff:ff:ff -> SRC: 00:1a:2b:3c:4d:5e | IPv4: \x1b[31m8.8.8.8\x1b[0m:443 [Google] -> \
         \x1b[32m10.0.0.7\x1b[0m:51200 [Local Network] | \x1b[34mTCP:\x1b[0m \x1b[33mACK\x1b[0m, \x1b[31mFIN\x1b[0m"
    );
    let other = ethernet(0x0800, &ipv4(50, [1, 1, 1, 1], [2, 2, 2, 2], &[]));
    let line = parse_ethernet(&other, &none, &Vec::new(), &none, &none).unwrap();
    assert!(line.ends_with(" | \x1b[30mOther IP protocol\x1b[0m"));
}

#[test]
fn capture_line_in_color_and_filter_on_plain_name() {
    colored_output();
    let udp = ethernet(0x0800, &ipv4(17, [1, 2, 3, 4], [5, 6, 7, 8], &[0, 1, 0, 2]));
    let line = capture::parse_ethernet(&udp, &None, &None, &None).unwrap();
    assert_eq!(
        line,
        "DST: ff:ff:ff:ff:ff:ff -> SRC: 00:1a:2b:3c:4d:5e | IPv4: 1.2.3.4:1 -> 5.6.7.8:2 | \x1b[34mUDP\x1b[0m"
    );
    let f = Some("udp".to_string());
    assert!(capture::parse_ethernet(&udp, &f, &None, &None).is_some());
    let icmp = ethernet(0x0800, &ipv4(1, [1, 2, 3, 4], [5, 6, 7, 8], &[]));
    let line = capture::parse_ethernet(&icmp, &None, &None, &None).unwrap();
    assert!(line.ends_with(" | \x1b[36mICMP\x1b[0m"));
    let igmp = ethernet(0x0800, &ipv4(2, [1, 2, 3, 4], [5, 6, 7, 8], &[]));
    let line = capture::parse_ethernet(&igmp, &None, &None, &None).unwrap();
    assert!(line.ends_with(" | \x1b[35mIGMP\x1b[0m"));
    let mut t = vec![0u8; 20];
    t[13] = 0x06;
    let tcp = ethernet(0x0800, &ipv4(6, [1, 2, 3, 4], [5, 6, 7, 8], &t));
    let line = capture::parse_ethernet(&tcp, &None, &None, &None).unwrap();
    assert!(line.ends_with(" | TCP: \x1b[32mSYN\x1b[0m, \x1b[31mRST\x1b[0m"));
}
