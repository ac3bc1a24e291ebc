//! Summaries of frames with address owners and colored addresses, under
//! include and exclude filters for protocols, ports and addresses.

use crate::color::{paint, Color, Line};
use crate::filters::{Filters, any_name_matches, any_port_matches, any_text_matches};
use crate::frame::{
    format_mac_header, format_port, format_quad, has_flags, push_flag_list, read_be16,
    read_header_len, read_ports, ETHERTYPE_ARP, ETHERTYPE_IPV4, ETHERTYPE_IPV6,
};
use crate::text::{push_decimal, starts_with};
// Names that only contracts and proofs use.
#[allow(unused_imports)]
use crate::color::{
    colored_output, has_reset, lemma_no_escape_no_reset, no_escape, painted, plain, shown, Piece,
    Tint,
};
#[allow(unused_imports)]
use crate::filters::{FilterSet, some_name_match, some_port_match, some_text_match};
#[allow(unused_imports)]
use crate::frame::{
    be16, dotted_quad, dst_addr, dst_port, ethertype, flag_items, flag_list, frame_in_bounds, ip_header,
    ipv4_in_bounds, lemma_dotted_quad_plain, mac_header, port_text, src_addr, src_port, transport,
};
#[allow(unused_imports)]
use crate::text::{
    ascii_upper, ascii_upper_char, decimal, digit_char, has_prefix, has_substring, name_matches,
};
use vstd::prelude::*;

verus! {

/// The prefix `172.<k>.` of an address of the private block 172.16.0.0/12.
pub open spec fn private_172_prefix(k: nat) -> Seq<char> {
    "172."@ + decimal(k) + "."@
}

/// An address of the home and office networks that the summaries label:
/// `192.168.` or `10.`.
pub open spec fn is_local_network(ip: Seq<char>) -> bool {
    has_prefix(ip, "192.168."@) || has_prefix(ip, "10."@)
}

/// A local (private) address: a local network address, or `172.16.` up to `172.31.`.
pub open spec fn is_local(ip: Seq<char>) -> bool {
    ||| is_local_network(ip)
    ||| exists|k: nat| 16 <= k <= 31 && has_prefix(ip, #[trigger] private_172_prefix(k))
}

/// A Google address: the ranges `142.250.`, `142.251.`, `172.217.` and the
/// public resolver `8.8.8.8`.
pub open spec fn is_google(ip: Seq<char>) -> bool {
    ||| has_prefix(ip, "142.250."@)
    ||| has_prefix(ip, "142.251."@)
    ||| has_prefix(ip, "172.217."@)
    ||| ip == "8.8.8.8"@
}

/// A Telegram address: `91.108.` or `149.154.`.
pub open spec fn is_telegram(ip: Seq<char>) -> bool {
    has_prefix(ip, "91.108."@) || has_prefix(ip, "149.154."@)
}

/// The owner label of an address, by its leading octets.
pub open spec fn org_label(ip: Seq<char>) -> Seq<char> {
    if is_google(ip) {
        "[Google]"@
    } else if is_local_network(ip) {
        "[Local Network]"@
    } else if is_telegram(ip) {
        "[Telegram]"@
    } else {
        ""@
    }
}

/// Local addresses show green, all others (the Internet) red.
pub open spec fn ip_color(ip: Seq<char>) -> Color {
    if is_local(ip) {
        Color::Green
    } else {
        Color::Red
    }
}

/// Whether the address is local (private).
pub fn is_local_address(ip: &str) -> (res: bool)
    ensures
        res == is_local(ip@),
{
    if starts_with(ip, "192.168.") || starts_with(ip, "10.") {
        return true;
    }
    let mut k: u16 = 16;
    while k <= 31
        invariant
            16 <= k <= 32,
            forall|j: nat| 16 <= j < k ==> !has_prefix(ip@, #[trigger] private_172_prefix(j)),
        decreases 32 - k,
    {
        let mut prefix = String::from_str("172.");
        push_decimal(&mut prefix, k);
        prefix.append(".");
        assert(prefix@ =~= private_172_prefix(k as nat));
        if starts_with(ip, prefix.as_str()) {
            return true;
        }
        k = k + 1;
    }
    false
}

/// A private `172.16.`..`172.31.` prefix is `172.`, two digits (`1`..`3` then
/// any), and a dot.
proof fn lemma_private_prefix_shape(k: nat)
    requires
        16 <= k <= 31,
    ensures
        private_172_prefix(k).len() == 7,
        private_172_prefix(k)[0] == '1',
        private_172_prefix(k)[3] == '.',
        private_172_prefix(k)[4] == digit_char(k as int / 10),
        private_172_prefix(k)[6] == '.',
{
    reveal_strlit("172.");
    reveal_strlit(".");
    assert(decimal(k) == decimal(k / 10).push(digit_char((k % 10) as int)));
    assert(decimal(k / 10) == seq![digit_char((k / 10) as int)]);
}

/// A character of a prefix is the character of the text at the same place.
proof fn lemma_prefix_char(ip: Seq<char>, p: Seq<char>, i: int)
    requires
        has_prefix(ip, p),
        0 <= i < p.len(),
    ensures
        ip[i] == p[i],
{
    assert(ip.subrange(0, p.len() as int)[i] == ip[i]);
}

/// Google and Telegram addresses are not local.
proof fn lemma_owned_not_local(ip: Seq<char>)
    requires
        is_google(ip) || is_telegram(ip),
    ensures
        !is_local(ip),
{
    reveal_strlit("142.250.");
    reveal_strlit("142.251.");
    reveal_strlit("172.217.");
    reveal_strlit("8.8.8.8");
    reveal_strlit("91.108.");
    reveal_strlit("149.154.");
    reveal_strlit("192.168.");
    reveal_strlit("10.");
    let a = ip[0];
    let b = ip[1];
    if has_prefix(ip, "142.250."@) {
        lemma_prefix_char(ip, "142.250."@, 1);
        lemma_prefix_char(ip, "142.250."@, 0);
    }
    if has_prefix(ip, "142.251."@) {
        lemma_prefix_char(ip, "142.251."@, 1);
        lemma_prefix_char(ip, "142.251."@, 0);
    }
    if has_prefix(ip, "172.217."@) {
        lemma_prefix_char(ip, "172.217."@, 1);
        lemma_prefix_char(ip, "172.217."@, 4);
        lemma_prefix_char(ip, "172.217."@, 6);
    }
    if has_prefix(ip, "91.108."@) {
        lemma_prefix_char(ip, "91.108."@, 0);
    }
    if has_prefix(ip, "149.154."@) {
        lemma_prefix_char(ip, "149.154."@, 1);
        lemma_prefix_char(ip, "149.154."@, 0);
    }
    if has_prefix(ip, "192.168."@) {
        lemma_prefix_char(ip, "192.168."@, 0);
        lemma_prefix_char(ip, "192.168."@, 1);
    }
    if has_prefix(ip, "10."@) {
        lemma_prefix_char(ip, "10."@, 0);
        lemma_prefix_char(ip, "10."@, 1);
    }
    assert forall|k: nat| 16 <= k <= 31 implies !has_prefix(ip, #[trigger] private_172_prefix(k)) by {
        lemma_private_prefix_shape(k);
        let p = private_172_prefix(k);
        if has_prefix(ip, p) {
            lemma_prefix_char(ip, p, 0);
            lemma_prefix_char(ip, p, 3);
            lemma_prefix_char(ip, p, 4);
            lemma_prefix_char(ip, p, 6);
        }
    }
}

/// The owner label and the color agree: a `[Local Network]` address shows
/// green, a `[Google]` or `[Telegram]` address red.
pub proof fn law_label_agrees_with_color(ip: Seq<char>)
    ensures
        org_label(ip) == "[Local Network]"@ ==> ip_color(ip) == Color::Green,
        org_label(ip) == "[Google]"@ ==> ip_color(ip) == Color::Red,
        org_label(ip) == "[Telegram]"@ ==> ip_color(ip) == Color::Red,
{
    reveal_strlit("[Local Network]");
    reveal_strlit("[Google]");
    reveal_strlit("[Telegram]");
    reveal_strlit("");
    assert("[Google]"@.len() != "[Local Network]"@.len());
    assert("[Telegram]"@.len() != "[Local Network]"@.len());
    assert(""@.len() != "[Local Network]"@.len());
    assert(""@.len() != "[Google]"@.len());
    assert(""@.len() != "[Telegram]"@.len());
    assert("[Google]"@.len() != "[Telegram]"@.len());
    if is_google(ip) {
        lemma_owned_not_local(ip);
        assert(org_label(ip) == "[Google]"@);
    } else if is_local_network(ip) {
        assert(org_label(ip) == "[Local Network]"@);
    } else if is_telegram(ip) {
        lemma_owned_not_local(ip);
        assert(org_label(ip) == "[Telegram]"@);
    } else {
        assert(org_label(ip) == ""@);
    }
}

/// The owner of a known address range, or the empty string.
pub fn known_org(ip: &str) -> (res: &str)
    ensures
        res@ == org_label(ip@),
{
    proof {
        reveal_strlit("8.8.8.8");
    }
    let resolver = ip.unicode_len() == 7 && starts_with(ip, "8.8.8.8");
    assert(resolver == (ip@ == "8.8.8.8"@)) by {
        if ip@.len() == 7 && has_prefix(ip@, "8.8.8.8"@) {
            assert(ip@ =~= ip@.subrange(0, 7));
        }
    }
    if starts_with(ip, "142.250.") || starts_with(ip, "142.251.") || starts_with(ip, "172.217.")
        || resolver {
        "[Google]"
    } else if starts_with(ip, "192.168.") || starts_with(ip, "10.") {
        "[Local Network]"
    } else if starts_with(ip, "91.108.") || starts_with(ip, "149.154.") {
        "[Telegram]"
    } else {
        ""
    }
}

/// The address painted green when local, red otherwise.
pub fn colorize_ip(ip: &str) -> (res: String)
    ensures
        colored_output(ip_color(ip@), ip@, res@),
        !has_reset(ip@) ==> exists|on: Tint|
            res@ == #[trigger] shown(painted(ip@, ip_color(ip@)), on),
{
    if is_local_address(ip) {
        paint(ip, Color::Green)
    } else {
        paint(ip, Color::Red)
    }
}

/// The IPv4 part of a summary: colored addresses with their ports and owners,
/// or `Invalid IPv4` for a packet shorter than an IPv4 header.
pub open spec fn ipv4_pieces(iph: Seq<u8>) -> Seq<Piece> {
    if iph.len() < 20 {
        seq![plain("Invalid IPv4"@)]
    } else {
        let src = src_addr(iph);
        let dst = dst_addr(iph);
        seq![
            plain("IPv4: "@),
            painted(src, ip_color(src)),
            plain(port_text(src_port(iph))),
            plain(" "@),
            plain(org_label(src)),
            plain(" -> "@),
            painted(dst, ip_color(dst)),
            plain(port_text(dst_port(iph))),
            plain(" "@),
            plain(org_label(dst)),
        ]
    }
}

/// `a` holds the source and destination address texts of a packet long enough
/// to have them, and nothing for a shorter one.
pub open spec fn addresses_of(iph: Seq<u8>, a: Option<(String, String)>) -> bool {
    match a {
        Some((src, dst)) => iph.len() >= 20 && src@ == src_addr(iph) && dst@ == dst_addr(iph),
        None => iph.len() < 20,
    }
}

/// The source and destination address texts of a packet, when it is long enough.
fn read_addresses(iph: &[u8]) -> (a: Option<(String, String)>)
    ensures
        addresses_of(iph@, a),
{
    if iph.len() < 20 {
        None
    } else {
        Some((format_quad(iph, 12), format_quad(iph, 16)))
    }
}

/// The source and destination ports, each when the packet has one.
fn split_ports(iph: &[u8]) -> (res: (Option<u16>, Option<u16>))
    requires
        ipv4_in_bounds(iph@),
    ensures
        res.0 == src_port(iph@),
        res.1 == dst_port(iph@),
{
    match read_ports(iph) {
        Some((a, b)) => (Some(a), Some(b)),
        None => (None, None),
    }
}

/// The IPv4 part of a summary as a line of pieces, from the packet's address
/// texts and ports.
fn ipv4_line(
    addrs: &Option<(String, String)>,
    sp: Option<u16>,
    dp: Option<u16>,
    Ghost(iph): Ghost<Seq<u8>>,
) -> (line: Line)
    requires
        addresses_of(iph, *addrs),
        sp == src_port(iph),
        dp == dst_port(iph),
    ensures
        line.wf(),
        line.pieces() == ipv4_pieces(iph),
{
    let mut line = Line::new();
    match addrs {
        None => {
            line.push_plain("Invalid IPv4");
            assert(line.pieces() =~= ipv4_pieces(iph));
            line
        },
        Some((src, dst)) => {
            proof {
                lemma_dotted_quad_plain(iph, 12);
                lemma_dotted_quad_plain(iph, 16);
                lemma_no_escape_no_reset(src@);
                lemma_no_escape_no_reset(dst@);
            }
            line.push_plain("IPv4: ");
            let src_seen = colorize_ip(src.as_str());
            line.push_shown(src_seen.as_str(), src.as_str(), Ghost(Some(ip_color(src@))));
            line.push_plain(format_port(sp).as_str());
            line.push_plain(" ");
            line.push_plain(known_org(src.as_str()));
            line.push_plain(" -> ");
            let dst_seen = colorize_ip(dst.as_str());
            line.push_shown(dst_seen.as_str(), dst.as_str(), Ghost(Some(ip_color(dst@))));
            line.push_plain(format_port(dp).as_str());
            line.push_plain(" ");
            line.push_plain(known_org(dst.as_str()));
            assert(line.pieces() =~= ipv4_pieces(iph));
            line
        },
    }
}

/// The IPv4 summary of a packet, with its source and destination ports when it
/// is a TCP or UDP packet whose header holds them.
pub fn parse_ipv4(buf: &[u8]) -> (res: (String, Option<u16>, Option<u16>))
    requires
        ipv4_in_bounds(buf@),
    ensures
        crate::color::renders(res.0@, ipv4_pieces(buf@)),
        res.1 == src_port(buf@),
        res.2 == dst_port(buf@),
{
    let addrs = read_addresses(buf);
    let (sp, dp) = split_ports(buf);
    let line = ipv4_line(&addrs, sp, dp, Ghost(buf@));
    (line.into_string(), sp, dp)
}


/// The name that protocol filters are matched against.
pub open spec fn proto_label(code: u8) -> Seq<char> {
    if code == 6 {
        "TCP"@
    } else if code == 17 {
        "UDP"@
    } else if code == 1 {
        "ICMP"@
    } else if code == 2 {
        "IGMP"@
    } else {
        "OTHER"@
    }
}

/// The well-known UDP service of a port: DNS (53), NTP (123), DHCP (67, 68), mDNS (5353).
pub open spec fn service_of(p: u16) -> Option<Seq<char>> {
    if p == 53 {
        Some("DNS"@)
    } else if p == 123 {
        Some("NTP"@)
    } else if p == 67 || p == 68 {
        Some("DHCP"@)
    } else if p == 5353 {
        Some("mDNS"@)
    } else {
        None
    }
}

/// The service of a UDP datagram: that of its destination port, else that of
/// its source port; none when its header is cut short.
pub open spec fn udp_service(t: Seq<u8>) -> Option<Seq<char>> {
    if t.len() < 4 {
        None
    } else {
        match service_of(be16(t[2], t[3])) {
            Some(n) => Some(n),
            None => service_of(be16(t[0], t[1])),
        }
    }
}

/// The protocol part of an IPv4 summary: the set TCP flags after a blue `TCP:`,
/// a blue `UDP:` and the service in brackets, or the colored name of the protocol.
pub open spec fn proto_pieces(code: u8, t: Seq<u8>) -> Seq<Piece> {
    if code == 6 {
        if flag_items(t[13]).len() == 0 {
            seq![plain("TCP: no flags"@)]
        } else {
            seq![painted("TCP:"@, Color::Blue), plain(" "@)] + flag_list(t[13])
        }
    } else if code == 17 {
        match udp_service(t) {
            Some(name) => seq![painted("UDP:"@, Color::Blue), plain(" ["@ + name + "]"@)],
            None => seq![painted("UDP"@, Color::Blue)],
        }
    } else if code == 1 {
        seq![painted("ICMP"@, Color::Cyan)]
    } else if code == 2 {
        seq![painted("IGMP"@, Color::Purple)]
    } else {
        seq![painted("Other IP protocol"@, Color::Black)]
    }
}

/// A protocol is shown when no include filter is given or one of them matches
/// it, and no exclude filter matches it.
pub open spec fn proto_selected(name: Seq<char>, incl: Seq<Seq<char>>, exc: Seq<Seq<char>>) -> bool {
    (incl.len() == 0 || some_name_match(name, incl)) && !some_name_match(name, exc)
}

/// An IPv4 packet is shown when no address filter is given or one of them
/// occurs in its source or destination address.
pub open spec fn ip_selected(iph: Seq<u8>, ips: Seq<Seq<char>>) -> bool {
    ips.len() == 0 || (iph.len() >= 20 && some_text_match(src_addr(iph), dst_addr(iph), ips))
}

/// An IPv4 packet is hidden when an excluded address text occurs in its source
/// or destination address.
pub open spec fn ip_excluded(iph: Seq<u8>, exc_ips: Seq<Seq<char>>) -> bool {
    iph.len() >= 20 && some_text_match(src_addr(iph), dst_addr(iph), exc_ips)
}

/// An IPv4 packet is shown when no port filter is given or one of them is its
/// source or destination port.
pub open spec fn port_selected(iph: Seq<u8>, ports: Seq<u16>) -> bool {
    ports.len() == 0 || some_port_match(src_port(iph), dst_port(iph), ports)
}

/// An IPv4 packet is hidden when an excluded port is its source or destination port.
pub open spec fn port_excluded(iph: Seq<u8>, exc_ports: Seq<u16>) -> bool {
    some_port_match(src_port(iph), dst_port(iph), exc_ports)
}

/// The summary of a frame under the filters, or `None` when the filters hide it.
///
/// Port and address include filters can only be met by IPv4 frames, and a
/// protocol include filter only by frames of a known protocol; exclusion wins
/// over inclusion. `no_mac` leaves out the MAC addresses.
pub open spec fn summary(buf: Seq<u8>, f: FilterSet) -> Option<Seq<Piece>> {
    if buf.len() < 14 {
        Some(seq![plain("Invalid Ethernet"@)])
    } else {
        let head = if f.no_mac {
            Seq::empty()
        } else {
            seq![plain(mac_header(buf)), plain(" | "@)]
        };
        let et = ethertype(buf);
        if et == ETHERTYPE_IPV4 {
            let iph = ip_header(buf);
            let code = iph[9];
            if !proto_selected(proto_label(code), f.incl, f.exc) || !ip_selected(iph, f.ips)
                || ip_excluded(iph, f.exc_ips) {
                None
            } else if code == 6 && transport(iph).len() < 14 {
                Some(seq![plain("TCP (invalid)"@)])
            } else if !port_selected(iph, f.ports) || port_excluded(iph, f.exc_ports) {
                None
            } else {
                Some(head + ipv4_pieces(iph) + seq![plain(" | "@)] + proto_pieces(code, transport(iph)))
            }
        } else if f.ports.len() > 0 || f.ips.len() > 0 {
            None
        } else if et == ETHERTYPE_IPV6 {
            if proto_selected("IPv6"@, f.incl, f.exc) {
                Some(head.push(plain("IPv6"@)))
            } else {
                None
            }
        } else if et == ETHERTYPE_ARP {
            if proto_selected("ARP"@, f.incl, f.exc) {
                Some(head.push(plain("ARP"@)))
            } else {
                None
            }
        } else if f.incl.len() > 0 {
            None
        } else {
            Some(head.push(plain("Неизвестный EtherType"@)))
        }
    }
}

/// The filters given by their four lists: no excluded ports or addresses, MAC addresses shown.
pub open spec fn basic_filters(
    incl: Seq<Seq<char>>,
    ports: Seq<u16>,
    ips: Seq<Seq<char>>,
    exc: Seq<Seq<char>>,
) -> FilterSet {
    FilterSet {
        incl,
        ports,
        ips,
        exc,
        exc_ports: Seq::empty(),
        exc_ips: Seq::empty(),
        no_mac: false,
    }
}

/// The protocol words painted in a summary hold no escape character.
proof fn lemma_proto_words()
    ensures
        no_escape("TCP:"@),
        no_escape("UDP"@),
        no_escape("UDP:"@),
        no_escape("ICMP"@),
        no_escape("IGMP"@),
        no_escape("Other IP protocol"@),
{
    reveal_strlit("TCP:");
    reveal_strlit("UDP");
    reveal_strlit("UDP:");
    reveal_strlit("ICMP");
    reveal_strlit("IGMP");
    reveal_strlit("Other IP protocol");
}

/// The well-known service of a UDP port.
pub fn service_name(p: u16) -> (name: Option<&'static str>)
    ensures
        match name {
            Some(n) => service_of(p) == Some(n@),
            None => service_of(p) is None,
        },
{
    if p == 53 {
        Some("DNS")
    } else if p == 123 {
        Some("NTP")
    } else if p == 67 || p == 68 {
        Some("DHCP")
    } else if p == 5353 {
        Some("mDNS")
    } else {
        None
    }
}

/// The protocol part of an IPv4 summary as a line of pieces.
fn proto_line(code: u8, t: &[u8]) -> (line: Line)
    requires
        code == 6 ==> t@.len() >= 14,
    ensures
        line.wf(),
        line.pieces() == proto_pieces(code, t@),
{
    proof {
        lemma_proto_words();
    }
    let mut line = Line::new();
    if code == 6 {
        let flags = t[13];
        if !has_flags(flags) {
            line.push_plain("TCP: no flags");
        } else {
            line.push_painted("TCP:", Color::Blue);
            line.push_plain(" ");
            push_flag_list(&mut line, flags);
        }
    } else if code == 17 {
        let mut service: Option<&str> = None;
        if t.len() >= 4 {
            service = service_name(read_be16(t[2], t[3]));
            if service.is_none() {
                service = service_name(read_be16(t[0], t[1]));
            }
        }
        match service {
            Some(name) => {
                line.push_painted("UDP:", Color::Blue);
                let mut tag = String::from_str(" [");
                tag.append(name);
                tag.append("]");
                line.push_plain(tag.as_str());
            },
            None => {
                line.push_painted("UDP", Color::Blue);
            },
        }
    } else if code == 1 {
        line.push_painted("ICMP", Color::Cyan);
    } else if code == 2 {
        line.push_painted("IGMP", Color::Purple);
    } else {
        line.push_painted("Other IP protocol", Color::Black);
    }
    assert(line.pieces() =~= proto_pieces(code, t@));
    line
}

/// The filter name of a protocol number.
fn proto_name(code: u8) -> (name: &'static str)
    ensures
        name@ == proto_label(code),
{
    if code == 6 {
        "TCP"
    } else if code == 17 {
        "UDP"
    } else if code == 1 {
        "ICMP"
    } else if code == 2 {
        "IGMP"
    } else {
        "OTHER"
    }
}

/// Whether a protocol passes the include and exclude filters.
fn select_proto(name: &str, incl: &Vec<String>, exc: &Vec<String>) -> (res: bool)
    ensures
        res == proto_selected(name@, incl.deep_view(), exc.deep_view()),
{
    (incl.len() == 0 || any_name_matches(name, incl)) && !any_name_matches(name, exc)
}

/// Whether an excluded address text occurs in the packet's source or destination address.
fn exclude_address(
    addrs: &Option<(String, String)>,
    Ghost(iph): Ghost<Seq<u8>>,
    exc_ips: &Vec<String>,
) -> (res: bool)
    requires
        addresses_of(iph, *addrs),
    ensures
        res == ip_excluded(iph, exc_ips.deep_view()),
{
    match addrs {
        None => false,
        Some((src, dst)) => any_text_matches(src.as_str(), dst.as_str(), exc_ips),
    }
}

/// Whether some address include filter occurs in the packet's source or destination address.
fn include_address(
    addrs: &Option<(String, String)>,
    Ghost(iph): Ghost<Seq<u8>>,
    ips: &Vec<String>,
) -> (res: bool)
    requires
        addresses_of(iph, *addrs),
    ensures
        res == ip_selected(iph, ips.deep_view()),
{
    if ips.len() == 0 {
        return true;
    }
    match addrs {
        None => false,
        Some((src, dst)) => any_text_matches(src.as_str(), dst.as_str(), ips),
    }
}

/// A one-line summary of an Ethernet frame under every filter of a capture
/// session; `None` when the filters hide it.
fn summarize(
    buf: &[u8],
    proto_filter: &Vec<String>,
    port_filter: &Vec<u16>,
    ip_filter: &Vec<String>,
    exc_proto_filter: &Vec<String>,
    exc_port_filter: &Vec<u16>,
    exc_ip_filter: &Vec<String>,
    no_mac: bool,
) -> (res: Option<String>)
    requires
        frame_in_bounds(buf@),
    ensures
        ({
            let f = FilterSet {
                incl: proto_filter.deep_view(),
                ports: port_filter@,
                ips: ip_filter.deep_view(),
                exc: exc_proto_filter.deep_view(),
                exc_ports: exc_port_filter@,
                exc_ips: exc_ip_filter.deep_view(),
                no_mac,
            };
            &&& res is Some <==> summary(buf@, f) is Some
            &&& res matches Some(s) ==> crate::color::renders(s@, summary(buf@, f).unwrap())
        }),
{
    let ghost f = FilterSet {
        incl: proto_filter.deep_view(),
        ports: port_filter@,
        ips: ip_filter.deep_view(),
        exc: exc_proto_filter.deep_view(),
        exc_ports: exc_port_filter@,
        exc_ips: exc_ip_filter.deep_view(),
        no_mac,
    };
    if buf.len() < 14 {
        let mut line = Line::new();
        line.push_plain("Invalid Ethernet");
        assert(line.pieces() =~= seq![plain("Invalid Ethernet"@)]);
        return Some(line.into_string());
    }
    let mut line = Line::new();
    if !no_mac {
        line.push_plain(format_mac_header(buf).as_str());
        line.push_plain(" | ");
    }
    let et = read_be16(buf[12], buf[13]);
    if et == ETHERTYPE_IPV4 {
        let iph = &buf[14..buf.len()];
        assert(iph@ =~= ip_header(buf@));
        let code = iph[9];
        let name = proto_name(code);
        if !select_proto(name, proto_filter, exc_proto_filter) {
            return None;
        }
        let addrs = read_addresses(iph);
        if !include_address(&addrs, Ghost(iph@), ip_filter) || exclude_address(
            &addrs,
            Ghost(iph@),
            exc_ip_filter,
        ) {
            return None;
        }
        let hl = read_header_len(iph);
        let t = &iph[hl..iph.len()];
        assert(t@ =~= transport(iph@));
        if code == 6 && t.len() < 14 {
            let mut invalid = Line::new();
            invalid.push_plain("TCP (invalid)");
            assert(invalid.pieces() =~= seq![plain("TCP (invalid)"@)]);
            return Some(invalid.into_string());
        }
        let (sp, dp) = split_ports(iph);
        if port_filter.len() > 0 && !any_port_matches(sp, dp, port_filter) {
            return None;
        }
        if any_port_matches(sp, dp, exc_port_filter) {
            return None;
        }
        let proto = proto_line(code, t);
        let info = ipv4_line(&addrs, sp, dp, Ghost(iph@));
        line.append(info);
        line.push_plain(" | ");
        line.append(proto);
    } else if port_filter.len() > 0 || ip_filter.len() > 0 {
        return None;
    } else if et == ETHERTYPE_IPV6 {
        if !select_proto("IPv6", proto_filter, exc_proto_filter) {
            return None;
        }
        line.push_plain("IPv6");
    } else if et == ETHERTYPE_ARP {
        if !select_proto("ARP", proto_filter, exc_proto_filter) {
            return None;
        }
        line.push_plain("ARP");
    } else if proto_filter.len() > 0 {
        return None;
    } else {
        line.push_plain("Неизвестный EtherType");
    }
    let ghost expected = summary(buf@, f).unwrap();
    assert(line.pieces() =~= expected);
    Some(line.into_string())
}

/// A one-line summary of an Ethernet frame: its MAC addresses, then for IPv4 its
/// addresses, ports, owners and protocol (with TCP flags or the UDP service), or
/// the name of the protocol it carries; `None` when the filters hide it.
///
/// A frame shorter than an Ethernet header reads `Invalid Ethernet`; a TCP packet
/// whose header is cut short reads `TCP (invalid)`.
pub fn parse_ethernet(
    buf: &[u8],
    proto_filter: &Vec<String>,
    port_filter: &Vec<u16>,
    ip_filter: &Vec<String>,
    exc_proto_filter: &Vec<String>,
) -> (res: Option<String>)
    requires
        frame_in_bounds(buf@),
    ensures
        ({
            let f = basic_filters(
                proto_filter.deep_view(),
                port_filter@,
                ip_filter.deep_view(),
                exc_proto_filter.deep_view(),
            );
            &&& res is Some <==> summary(buf@, f) is Some
            &&& res matches Some(s) ==> crate::color::renders(s@, summary(buf@, f).unwrap())
        }),
{
    let no_ports: Vec<u16> = Vec::new();
    let no_ips: Vec<String> = Vec::new();
    proof {
        assert(no_ips.deep_view() =~= Seq::<Seq<char>>::empty());
    }
    summarize(buf, proto_filter, port_filter, ip_filter, exc_proto_filter, &no_ports, &no_ips, false)
}

impl Filters {
    /// The summary line of a frame under these filters; `None` when they hide it.
    pub fn summarize(&self, buf: &[u8]) -> (res: Option<String>)
        requires
            frame_in_bounds(buf@),
        ensures
            res is Some <==> summary(buf@, self@) is Some,
            res matches Some(s) ==> crate::color::renders(s@, summary(buf@, self@).unwrap()),
    {
        summarize(
            buf,
            &self.proto,
            &self.port,
            &self.ip,
            &self.exc_proto,
            &self.exc_port,
            &self.exc_ip,
            self.no_mac,
        )
    }
}

/// The protocol name that filters see for a frame: the IPv4 protocol, `IPv6` or
/// `ARP`; none for a short frame or another EtherType.
pub open spec fn frame_proto_name(buf: Seq<u8>) -> Option<Seq<char>> {
    if buf.len() < 14 {
        None
    } else if ethertype(buf) == ETHERTYPE_IPV4 {
        Some(proto_label(ip_header(buf)[9]))
    } else if ethertype(buf) == ETHERTYPE_IPV6 {
        Some("IPv6"@)
    } else if ethertype(buf) == ETHERTYPE_ARP {
        Some("ARP"@)
    } else {
        None
    }
}

/// A TCP packet whose header is cut short (shown as `TCP (invalid)` once it
/// passes the protocol and address filters).
pub open spec fn cut_short_tcp(buf: Seq<u8>) -> bool {
    &&& buf.len() >= 14
    &&& ethertype(buf) == ETHERTYPE_IPV4
    &&& ip_header(buf)[9] == 6
    &&& transport(ip_header(buf)).len() < 14
}

/// Exclusion wins: a frame whose protocol matches an exclude filter is never
/// shown, whatever the other filters say.
pub proof fn law_excluded_protocol_hidden(buf: Seq<u8>, f: FilterSet)
    requires
        frame_proto_name(buf) matches Some(name) && some_name_match(name, f.exc),
    ensures
        summary(buf, f) is None,
{
}

/// With include filters given, every frame shown (but one too short for an
/// Ethernet header) is of a known protocol that one of them matches.
pub proof fn law_included_protocol_shown_only(buf: Seq<u8>, f: FilterSet)
    requires
        buf.len() >= 14,
        f.incl.len() > 0,
        summary(buf, f) is Some,
    ensures
        frame_proto_name(buf) is Some,
        some_name_match(frame_proto_name(buf).unwrap(), f.incl),
{
}

/// With address filters given, every frame shown (but one too short for an
/// Ethernet header) is an IPv4 frame with a source or destination address in
/// which one of them occurs.
pub proof fn law_address_filter(buf: Seq<u8>, f: FilterSet)
    requires
        buf.len() >= 14,
        f.ips.len() > 0,
        summary(buf, f) is Some,
    ensures
        ethertype(buf) == ETHERTYPE_IPV4,
        ip_header(buf).len() >= 20,
        some_text_match(src_addr(ip_header(buf)), dst_addr(ip_header(buf)), f.ips),
{
}

/// An IPv4 frame with an excluded address text in its source or in its
/// destination address is never shown: exclusion looks at both sides.
pub proof fn law_excluded_address_hidden(buf: Seq<u8>, f: FilterSet, i: int)
    requires
        buf.len() >= 14,
        ethertype(buf) == ETHERTYPE_IPV4,
        ip_header(buf).len() >= 20,
        0 <= i < f.exc_ips.len(),
        has_substring(dotted_quad(ip_header(buf), 12), f.exc_ips[i]) || has_substring(
            dotted_quad(ip_header(buf), 16),
            f.exc_ips[i],
        ),
    ensures
        summary(buf, f) is None,
{
    let iph = ip_header(buf);
    assert(has_substring(src_addr(iph), f.exc_ips[i]) || has_substring(dst_addr(iph), f.exc_ips[i]));
    assert(some_text_match(src_addr(iph), dst_addr(iph), f.exc_ips));
}

/// With port filters given, every frame shown in full (not one too short for an
/// Ethernet header, nor a TCP packet cut short) is an IPv4 frame with one of them
/// as its source or destination port.
pub proof fn law_port_filter(buf: Seq<u8>, f: FilterSet)
    requires
        buf.len() >= 14,
        f.ports.len() > 0,
        !cut_short_tcp(buf),
        summary(buf, f) is Some,
    ensures
        ethertype(buf) == ETHERTYPE_IPV4,
        some_port_match(src_port(ip_header(buf)), dst_port(ip_header(buf)), f.ports),
{
}

/// A frame with an excluded port as its source or as its destination port is
/// never shown in full: only a TCP packet cut short still reads `TCP (invalid)`.
pub proof fn law_excluded_port_hidden(buf: Seq<u8>, f: FilterSet, i: int)
    requires
        buf.len() >= 14,
        ethertype(buf) == ETHERTYPE_IPV4,
        !cut_short_tcp(buf),
        0 <= i < f.exc_ports.len(),
        src_port(ip_header(buf)) == Some(f.exc_ports[i]) || dst_port(ip_header(buf)) == Some(
            f.exc_ports[i],
        ),
    ensures
        summary(buf, f) is None,
{
    let iph = ip_header(buf);
    assert(some_port_match(src_port(iph), dst_port(iph), f.exc_ports));
}

/// The ports of a TCP or UDP packet whose transport header holds four bytes are
/// its first two big-endian 16-bit words: source, then destination.
pub proof fn law_ports_are_header_words(iph: Seq<u8>)
    requires
        iph.len() >= 20,
        iph[9] == 6 || iph[9] == 17,
        transport(iph).len() >= 4,
    ensures
        src_port(iph) matches Some(p) && p as int == transport(iph)[0] as int * 256 + transport(
            iph,
        )[1] as int,
        dst_port(iph) matches Some(p) && p as int == transport(iph)[2] as int * 256 + transport(
            iph,
        )[3] as int,
{
}

/// Include and exclude filters name protocols in any case: an IPv4 frame of
/// protocol TCP (6), UDP (17), ICMP (1) or IGMP (2) is shown under the include
/// filter `tcp`, `udp`, `icmp` or `igmp` alone, and hidden under the same exclude filter.
pub proof fn law_ipv4_protocol_filter_names(buf: Seq<u8>, f: FilterSet, word: Seq<char>)
    requires
        buf.len() >= 14,
        ethertype(buf) == ETHERTYPE_IPV4,
        ip_header(buf).len() >= 10,
        (ip_header(buf)[9] == 6 && word == "tcp"@) || (ip_header(buf)[9] == 17 && word == "udp"@)
            || (ip_header(buf)[9] == 1 && word == "icmp"@) || (ip_header(buf)[9] == 2 && word
            == "igmp"@),
        f.ports.len() == 0,
        f.ips.len() == 0,
        f.exc_ports.len() == 0,
        f.exc_ips.len() == 0,
    ensures
        summary(buf, FilterSet { incl: seq![word], exc: Seq::empty(), ..f }) is Some,
        summary(buf, FilterSet { exc: seq![word], ..f }) is None,
{
    let iph = ip_header(buf);
    let code = iph[9];
    lemma_protocol_words();
    assert(!some_text_match(src_addr(iph), dst_addr(iph), f.exc_ips));
    assert(!some_port_match(src_port(iph), dst_port(iph), f.exc_ports));
    if code == 6 {
        lemma_ascii_match("TCP"@, "tcp"@);
    } else if code == 17 {
        lemma_ascii_match("UDP"@, "udp"@);
    } else if code == 1 {
        lemma_ascii_match("ICMP"@, "icmp"@);
    } else {
        lemma_ascii_match("IGMP"@, "igmp"@);
    }
    let e: Seq<Seq<char>> = Seq::empty();
    assert(!some_name_match(proto_label(code), e));
}

/// `arp` and `ipv6` name ARP and IPv6 frames in filters: such a frame is shown
/// under that include filter alone and hidden under the same exclude filter.
pub proof fn law_non_ipv4_protocol_filter_names(buf: Seq<u8>, f: FilterSet, word: Seq<char>)
    requires
        buf.len() >= 14,
        (ethertype(buf) == ETHERTYPE_IPV6 && word == "ipv6"@) || (ethertype(buf) == ETHERTYPE_ARP
            && word == "arp"@),
        f.ports.len() == 0,
        f.ips.len() == 0,
    ensures
        summary(buf, FilterSet { incl: seq![word], exc: Seq::empty(), ..f }) is Some,
        summary(buf, FilterSet { exc: seq![word], ..f }) is None,
{
    lemma_protocol_words();
    if ethertype(buf) == ETHERTYPE_IPV6 {
        lemma_ascii_match("IPv6"@, "ipv6"@);
    } else {
        lemma_ascii_match("ARP"@, "arp"@);
    }
    let e: Seq<Seq<char>> = Seq::empty();
    assert(!some_name_match("IPv6"@, e));
    assert(!some_name_match("ARP"@, e));
}

/// The literal names and filter words of the protocols.
proof fn lemma_protocol_words()
    ensures
        "TCP"@ == seq!['T', 'C', 'P'],
        "tcp"@ == seq!['t', 'c', 'p'],
        "UDP"@ == seq!['U', 'D', 'P'],
        "udp"@ == seq!['u', 'd', 'p'],
        "ICMP"@ == seq!['I', 'C', 'M', 'P'],
        "icmp"@ == seq!['i', 'c', 'm', 'p'],
        "IGMP"@ == seq!['I', 'G', 'M', 'P'],
        "igmp"@ == seq!['i', 'g', 'm', 'p'],
        "IPv6"@ == seq!['I', 'P', 'v', '6'],
        "ipv6"@ == seq!['i', 'p', 'v', '6'],
        "ARP"@ == seq!['A', 'R', 'P'],
        "arp"@ == seq!['a', 'r', 'p'],
{
    reveal_strlit("TCP");
    reveal_strlit("tcp");
    reveal_strlit("UDP");
    reveal_strlit("udp");
    reveal_strlit("ICMP");
    reveal_strlit("icmp");
    reveal_strlit("IGMP");
    reveal_strlit("igmp");
    reveal_strlit("IPv6");
    reveal_strlit("ipv6");
    reveal_strlit("ARP");
    reveal_strlit("arp");
}

/// Every address of the private block 172.16.0.0/12 (`172.16.` up to
/// `172.31.`), like every `10.` and `192.168.` address, shows green.
pub proof fn law_private_addresses_green(ip: Seq<char>, k: nat)
    requires
        (16 <= k <= 31 && has_prefix(ip, "172."@ + decimal(k) + "."@)) || has_prefix(ip, "10."@)
            || has_prefix(ip, "192.168."@),
    ensures
        ip_color(ip) == Color::Green,
{
    if 16 <= k <= 31 && has_prefix(ip, "172."@ + decimal(k) + "."@) {
        assert(has_prefix(ip, private_172_prefix(k)));
    }
}

/// The UDP services are exactly those of the well-known ports: DNS on 53, NTP
/// on 123, DHCP on 67 and 68, mDNS on 5353, and no service on any other port.
pub proof fn law_udp_service_ports(p: u16)
    ensures
        service_of(p) == Some("DNS"@) <==> p == 53,
        service_of(p) == Some("NTP"@) <==> p == 123,
        service_of(p) == Some("DHCP"@) <==> (p == 67 || p == 68),
        service_of(p) == Some("mDNS"@) <==> p == 5353,
        service_of(p) is None <==> !(p == 53 || p == 123 || p == 67 || p == 68 || p == 5353),
{
    reveal_strlit("DNS");
    reveal_strlit("NTP");
    reveal_strlit("DHCP");
    reveal_strlit("mDNS");
    assert("DNS"@ != "NTP"@ && "DNS"@ != "DHCP"@ && "DNS"@ != "mDNS"@ && "NTP"@ != "DHCP"@
        && "NTP"@ != "mDNS"@ && "DHCP"@ != "mDNS"@) by {
        assert("DNS"@[0] != "NTP"@[0]);
        assert("DNS"@[0] != "mDNS"@[0]);
        assert("NTP"@[0] != "mDNS"@[0]);
        assert("DNS"@.len() != "DHCP"@.len());
        assert("NTP"@.len() != "DHCP"@.len());
        assert("DHCP"@[0] != "mDNS"@[0]);
    }
}

/// A UDP datagram whose ports are not well-known service ports shows as a
/// blue `UDP` alone; one sent to port 53 shows `UDP: [DNS]`.
pub proof fn law_udp_service_shown(t: Seq<u8>)
    requires
        t.len() >= 4,
    ensures
        ({
            let sp = t[0] as int * 256 + t[1] as int;
            let dp = t[2] as int * 256 + t[3] as int;
            let service_port = |p: int| p == 53 || p == 123 || p == 67 || p == 68 || p == 5353;
            &&& (!service_port(sp) && !service_port(dp)) ==> proto_pieces(17, t) == seq![
                painted("UDP"@, Color::Blue),
            ]
            &&& dp == 53 ==> crate::color::plain_text(proto_pieces(17, t)) == "UDP: [DNS]"@
        }),
{
    let sp = be16(t[0], t[1]);
    let dp = be16(t[2], t[3]);
    law_udp_service_ports(sp);
    law_udp_service_ports(dp);
    if dp == 53 {
        reveal_strlit("UDP:");
        reveal_strlit(" [");
        reveal_strlit("]");
        reveal_strlit("DNS");
        reveal_strlit("UDP: [DNS]");
        let ps = proto_pieces(17, t);
        assert(ps == seq![painted("UDP:"@, Color::Blue), plain(" ["@ + "DNS"@ + "]"@)]);
        assert(ps.drop_last() =~= seq![painted("UDP:"@, Color::Blue)]);
        let first = seq![painted("UDP:"@, Color::Blue)];
        assert(first.drop_last() =~= Seq::<Piece>::empty());
        assert(crate::color::plain_text(first.drop_last()) == Seq::<char>::empty());
        assert(crate::color::plain_text(first) == Seq::<char>::empty() + "UDP:"@);
        assert(crate::color::plain_text(first) =~= "UDP:"@);
        assert(crate::color::plain_text(ps) == "UDP:"@ + (" ["@ + "DNS"@ + "]"@));
        assert(crate::color::plain_text(ps) =~= "UDP: [DNS]"@);
    }
}

/// Without filters every frame is shown, with or without MAC addresses.
pub proof fn law_no_filter_shows_all(buf: Seq<u8>, no_mac: bool)
    ensures
        summary(
            buf,
            FilterSet {
                incl: Seq::empty(),
                ports: Seq::empty(),
                ips: Seq::empty(),
                exc: Seq::empty(),
                exc_ports: Seq::empty(),
                exc_ips: Seq::empty(),
                no_mac,
            },
        ) is Some,
{
    let e: Seq<Seq<char>> = Seq::empty();
    let n: Seq<u16> = Seq::empty();
    assert(!some_name_match(proto_label(ip_header(buf)[9]), e));
    assert(!some_name_match("IPv6"@, e));
    assert(!some_name_match("ARP"@, e));
    assert(!some_port_match(src_port(ip_header(buf)), dst_port(ip_header(buf)), n));
    assert(!some_text_match(src_addr(ip_header(buf)), dst_addr(ip_header(buf)), e));
}

/// Hiding MAC addresses changes no frame's visibility.
pub proof fn law_no_mac_keeps_visibility(buf: Seq<u8>, f: FilterSet)
    ensures
        summary(buf, f) is Some <==> summary(buf, FilterSet { no_mac: !f.no_mac, ..f }) is Some,
{
}

/// Protocol filters ignore case: `tcp` selects TCP frames, `udp` UDP frames,
/// `arp` ARP frames and `ipv6` IPv6 frames.
pub proof fn law_lowercase_protocol_filters()
    ensures
        some_name_match("TCP"@, seq!["tcp"@]),
        some_name_match("UDP"@, seq!["udp"@]),
        some_name_match("ARP"@, seq!["arp"@]),
        some_name_match("IPv6"@, seq!["ipv6"@]),
{
    reveal_strlit("TCP");
    reveal_strlit("tcp");
    reveal_strlit("UDP");
    reveal_strlit("udp");
    reveal_strlit("ARP");
    reveal_strlit("arp");
    reveal_strlit("IPv6");
    reveal_strlit("ipv6");
    lemma_ascii_match("TCP"@, "tcp"@);
    lemma_ascii_match("UDP"@, "udp"@);
    lemma_ascii_match("ARP"@, "arp"@);
    lemma_ascii_match("IPv6"@, "ipv6"@);
}

/// A filter that is the name itself up to ASCII case matches it.
proof fn lemma_ascii_match(name: Seq<char>, filter: Seq<char>)
    requires
        name.len() == filter.len(),
        forall|i: int| 0 <= i < name.len() ==> (name[i] as int) < 128 && (filter[i] as int) < 128,
        forall|i: int|
            0 <= i < name.len() ==> ascii_upper_char(#[trigger] name[i]) == ascii_upper_char(
                filter[i],
            ),
    ensures
        some_name_match(name, seq![filter]),
{
    assert(ascii_upper(name) =~= ascii_upper(filter));
    assert(ascii_upper(name).subrange(0, ascii_upper(filter).len() as int) =~= ascii_upper(filter));
    assert(name_matches(name, seq![filter][0]));
}


/// The owner labels by address range: `142.250.`, `142.251.`, `172.217.` and
/// `8.8.8.8` are Google; `192.168.` and `10.` the local network; `91.108.` and
/// `149.154.` Telegram; any other address has no label.
pub proof fn law_owner_labels(ip: Seq<char>)
    ensures
        (has_prefix(ip, "142.250."@) || has_prefix(ip, "142.251."@) || has_prefix(ip, "172.217."@)
            || ip == "8.8.8.8"@) ==> org_label(ip) == "[Google]"@,
        (has_prefix(ip, "192.168."@) || has_prefix(ip, "10."@)) ==> org_label(ip)
            == "[Local Network]"@,
        (has_prefix(ip, "91.108."@) || has_prefix(ip, "149.154."@)) ==> org_label(ip)
            == "[Telegram]"@,
        !(has_prefix(ip, "142.250."@) || has_prefix(ip, "142.251."@) || has_prefix(ip, "172.217."@)
            || ip == "8.8.8.8"@ || has_prefix(ip, "192.168."@) || has_prefix(ip, "10."@)
            || has_prefix(ip, "91.108."@) || has_prefix(ip, "149.154."@)) ==> org_label(ip) == ""@,
{
    reveal_strlit("142.250.");
    reveal_strlit("142.251.");
    reveal_strlit("172.217.");
    reveal_strlit("8.8.8.8");
    reveal_strlit("91.108.");
    reveal_strlit("149.154.");
    reveal_strlit("192.168.");
    reveal_strlit("10.");
    if has_prefix(ip, "192.168."@) || has_prefix(ip, "10."@) || has_prefix(ip, "91.108."@)
        || has_prefix(ip, "149.154."@) {
        if has_prefix(ip, "192.168."@) {
            lemma_prefix_char(ip, "192.168."@, 0);
            lemma_prefix_char(ip, "192.168."@, 1);
            lemma_prefix_char(ip, "192.168."@, 2);
        }
        if has_prefix(ip, "10."@) {
            lemma_prefix_char(ip, "10."@, 0);
            lemma_prefix_char(ip, "10."@, 1);
            lemma_prefix_char(ip, "10."@, 2);
        }
        if has_prefix(ip, "91.108."@) {
            lemma_prefix_char(ip, "91.108."@, 0);
            lemma_prefix_char(ip, "91.108."@, 1);
            lemma_prefix_char(ip, "91.108."@, 2);
        }
        if has_prefix(ip, "149.154."@) {
            lemma_prefix_char(ip, "149.154."@, 0);
            lemma_prefix_char(ip, "149.154."@, 1);
            lemma_prefix_char(ip, "149.154."@, 2);
        }
        if has_prefix(ip, "142.250."@) {
            lemma_prefix_char(ip, "142.250."@, 0);
            lemma_prefix_char(ip, "142.250."@, 1);
            lemma_prefix_char(ip, "142.250."@, 2);
        }
        if has_prefix(ip, "142.251."@) {
            lemma_prefix_char(ip, "142.251."@, 0);
            lemma_prefix_char(ip, "142.251."@, 1);
            lemma_prefix_char(ip, "142.251."@, 2);
        }
        if has_prefix(ip, "172.217."@) {
            lemma_prefix_char(ip, "172.217."@, 0);
            lemma_prefix_char(ip, "172.217."@, 1);
            lemma_prefix_char(ip, "172.217."@, 2);
        }
        if ip == "8.8.8.8"@ {
            assert(ip[0] == '8');
        }
    }
}

/// An address outside the private ranges (`10.`, `192.168.`, `172.16.` up to
/// `172.31.`) shows red.
pub proof fn law_public_addresses_red(ip: Seq<char>)
    requires
        !has_prefix(ip, "10."@),
        !has_prefix(ip, "192.168."@),
        forall|k: nat| 16 <= k <= 31 ==> !has_prefix(ip, #[trigger] ("172."@ + decimal(k) + "."@)),
    ensures
        ip_color(ip) == Color::Red,
{
    assert forall|k: nat| 16 <= k <= 31 implies !has_prefix(ip, #[trigger] private_172_prefix(k)) by {
        assert(!has_prefix(ip, "172."@ + decimal(k) + "."@));
    }
}

/// A port include filter keeps every IPv4 frame that has one of its ports as
/// source or as destination port (the other filters being empty).
pub proof fn law_port_filter_keeps(buf: Seq<u8>, f: FilterSet, i: int)
    requires
        buf.len() >= 14,
        ethertype(buf) == ETHERTYPE_IPV4,
        f.incl.len() == 0,
        f.exc.len() == 0,
        f.ips.len() == 0,
        f.exc_ports.len() == 0,
        f.exc_ips.len() == 0,
        0 <= i < f.ports.len(),
        src_port(ip_header(buf)) == Some(f.ports[i]) || dst_port(ip_header(buf)) == Some(
            f.ports[i],
        ),
    ensures
        summary(buf, f) is Some,
{
    let iph = ip_header(buf);
    assert(some_port_match(src_port(iph), dst_port(iph), f.ports));
    assert(!some_port_match(src_port(iph), dst_port(iph), f.exc_ports));
    assert(!some_text_match(src_addr(iph), dst_addr(iph), f.exc_ips));
    assert(!some_name_match(proto_label(iph[9]), f.exc));
}

/// An address include filter keeps every IPv4 frame whose source or whose
/// destination address holds one of its texts (the other filters being empty).
pub proof fn law_address_filter_keeps(buf: Seq<u8>, f: FilterSet, i: int)
    requires
        buf.len() >= 14,
        ethertype(buf) == ETHERTYPE_IPV4,
        ip_header(buf).len() >= 20,
        f.incl.len() == 0,
        f.exc.len() == 0,
        f.ports.len() == 0,
        f.exc_ports.len() == 0,
        f.exc_ips.len() == 0,
        0 <= i < f.ips.len(),
        has_substring(dotted_quad(ip_header(buf), 12), f.ips[i]) || has_substring(
            dotted_quad(ip_header(buf), 16),
            f.ips[i],
        ),
    ensures
        summary(buf, f) is Some,
{
    let iph = ip_header(buf);
    assert(has_substring(src_addr(iph), f.ips[i]) || has_substring(dst_addr(iph), f.ips[i]));
    assert(some_text_match(src_addr(iph), dst_addr(iph), f.ips));
    assert(!some_port_match(src_port(iph), dst_port(iph), f.exc_ports));
    assert(!some_text_match(src_addr(iph), dst_addr(iph), f.exc_ips));
    assert(!some_name_match(proto_label(iph[9]), f.exc));
}

/// Hiding MAC addresses removes exactly the `DST: .. -> SRC: .. | ` start of
/// every line that has one, and changes nothing else.
pub proof fn law_no_mac_drops_only_head(buf: Seq<u8>, f: FilterSet)
    requires
        buf.len() >= 14,
        !cut_short_tcp(buf),
    ensures
        match summary(buf, FilterSet { no_mac: true, ..f }) {
            Some(x) => summary(buf, FilterSet { no_mac: false, ..f }) == Some(
                seq![plain(mac_header(buf)), plain(" | "@)] + x,
            ),
            None => summary(buf, FilterSet { no_mac: false, ..f }) is None,
        },
{
    let on = FilterSet { no_mac: true, ..f };
    let off = FilterSet { no_mac: false, ..f };
    let head = seq![plain(mac_header(buf)), plain(" | "@)];
    let e = Seq::<Piece>::empty();
    if let Some(x) = summary(buf, on) {
        let et = ethertype(buf);
        if et == ETHERTYPE_IPV4 {
            let iph = ip_header(buf);
            let a = ipv4_pieces(iph);
            let b = seq![plain(" | "@)];
            let c = proto_pieces(iph[9], transport(iph));
            assert(x == e + a + b + c);
            assert(head + (e + a + b + c) =~= head + a + b + c);
        } else {
            assert(head + e.push(x.last()) =~= head.push(x.last()));
        }
    }
}

/// The protocol part of an ICMP packet reads `ICMP` in cyan, of an IGMP packet
/// `IGMP` in purple, of a UDP packet without a known service `UDP` in blue, and
/// of any other protocol but TCP `Other IP protocol` in black.
pub proof fn law_protocol_colors(code: u8, t: Seq<u8>)
    requires
        code != 6,
    ensures
        code == 1 ==> proto_pieces(code, t) == seq![painted("ICMP"@, Color::Cyan)],
        code == 2 ==> proto_pieces(code, t) == seq![painted("IGMP"@, Color::Purple)],
        code == 17 && udp_service(t) is None ==> proto_pieces(code, t) == seq![
            painted("UDP"@, Color::Blue),
        ],
        code != 1 && code != 2 && code != 17 ==> proto_pieces(code, t) == seq![
            painted("Other IP protocol"@, Color::Black),
        ],
{
}

} // verus!
