//! Summaries of frames as the capture loop prints them: plain addresses and
//! ports, colored protocol names, and at most one protocol, port and address filter.

use crate::color::{Color, Line};
use crate::frame::{
    format_mac_header, format_port, format_quad, has_flags, push_flag_list, read_be16,
    read_header_len, read_ports, ETHERTYPE_ARP, ETHERTYPE_IPV4, ETHERTYPE_IPV6,
};
use crate::text::{contains, name_starts_with};
// Names that only contracts and proofs use.
#[allow(unused_imports)]
use crate::color::{no_escape, painted, plain, plain_text, renders, Piece};
#[allow(unused_imports)]
use crate::frame::{
    dotted_quad, dst_addr, dst_port, ethertype, flag_items, flag_list, frame_in_bounds, ip_header,
    ipv4_in_bounds, mac_header, port_text, src_addr, src_port, transport,
};
#[allow(unused_imports)]
use crate::text::{ascii_upper, has_substring, name_matches};
use vstd::prelude::*;

verus! {

/// The text of an optional filter string.
pub open spec fn filter_text(o: Option<String>) -> Option<Seq<char>> {
    match o {
        Some(s) => Some(s@),
        None => None,
    }
}

/// The IPv4 part of a summary: addresses with their ports, or `Invalid IPv4`
/// for a packet shorter than an IPv4 header.
pub open spec fn ipv4_text(iph: Seq<u8>) -> Seq<char> {
    if iph.len() < 20 {
        "Invalid IPv4"@
    } else {
        "IPv4: "@ + src_addr(iph) + port_text(src_port(iph)) + " -> "@ + dst_addr(iph) + port_text(
            dst_port(iph),
        )
    }
}

/// The IPv4 summary of a packet, with its source and destination ports when it
/// is a TCP or UDP packet whose header holds them.
pub fn parse_ipv4(buf: &[u8]) -> (res: (String, Option<u16>, Option<u16>))
    requires
        ipv4_in_bounds(buf@),
    ensures
        res.0@ == ipv4_text(buf@),
        res.1 == src_port(buf@),
        res.2 == dst_port(buf@),
{
    if buf.len() < 20 {
        return (String::from_str("Invalid IPv4"), None, None);
    }
    let p = read_ports(buf);
    let (sp, dp) = match p {
        Some((a, b)) => (Some(a), Some(b)),
        None => (None, None),
    };
    let mut s = String::from_str("IPv4: ");
    s.append(format_quad(buf, 12).as_str());
    s.append(format_port(sp).as_str());
    s.append(" -> ");
    s.append(format_quad(buf, 16).as_str());
    s.append(format_port(dp).as_str());
    assert(s@ =~= ipv4_text(buf@));
    (s, sp, dp)
}

/// The protocol part of an IPv4 summary: `TCP: ` and the set TCP flags, or the
/// colored name of the protocol.
pub open spec fn proto_pieces(code: u8, t: Seq<u8>) -> Seq<Piece> {
    if code == 6 {
        if flag_items(t[13]).len() == 0 {
            seq![plain("TCP: no flags"@)]
        } else {
            seq![plain("TCP: "@)] + flag_list(t[13])
        }
    } else if code == 17 {
        seq![painted("UDP"@, Color::Blue)]
    } else if code == 1 {
        seq![painted("ICMP"@, Color::Cyan)]
    } else if code == 2 {
        seq![painted("IGMP"@, Color::Purple)]
    } else {
        seq![plain("Other IP protocol"@)]
    }
}

/// The summary of a frame under the optional protocol, port and address
/// filters, or `None` when a filter hides it. Port and address filters can only
/// be met by IPv4 frames, a protocol filter only by frames of a known protocol.
pub open spec fn summary(
    buf: Seq<u8>,
    proto: Option<Seq<char>>,
    port: Option<u16>,
    ip: Option<Seq<char>>,
) -> Option<Seq<Piece>> {
    if buf.len() < 14 {
        Some(seq![plain("Invalid Ethernet"@)])
    } else {
        let head = seq![plain(mac_header(buf)), plain(" | "@)];
        let et = ethertype(buf);
        if et == ETHERTYPE_IPV4 {
            let iph = ip_header(buf);
            let code = iph[9];
            let name = proto_pieces(code, transport(iph));
            if code == 6 && transport(iph).len() < 14 {
                Some(seq![plain("TCP (invalid)"@)])
            } else if proto matches Some(f) && !name_matches(plain_text(name), f) {
                None
            } else if port matches Some(p) && src_port(iph) != Some(p) && dst_port(iph) != Some(p) {
                None
            } else if ip matches Some(f) && !has_substring(ipv4_text(iph), f) {
                None
            } else {
                Some(head + seq![plain(ipv4_text(iph)), plain(" | "@)] + name)
            }
        } else if port is Some || ip is Some {
            None
        } else if et == ETHERTYPE_IPV6 {
            if proto matches Some(f) && !name_matches("IPv6"@, f) {
                None
            } else {
                Some(head.push(plain("IPv6"@)))
            }
        } else if et == ETHERTYPE_ARP {
            if proto matches Some(f) && !name_matches("ARP"@, f) {
                None
            } else {
                Some(head.push(plain("ARP"@)))
            }
        } else if proto is Some {
            None
        } else {
            Some(head.push(plain("Неизвестный EtherType"@)))
        }
    }
}

/// The protocol words painted in a summary hold no escape character.
proof fn lemma_proto_words()
    ensures
        no_escape("UDP"@),
        no_escape("ICMP"@),
        no_escape("IGMP"@),
{
    reveal_strlit("UDP");
    reveal_strlit("ICMP");
    reveal_strlit("IGMP");
}

/// The protocol part of an IPv4 summary as a line of pieces.
fn proto_line(code: u8, t: &[u8]) -> (line: Line)
    requires
        code == 6 ==> t@.len() >= 14,
    ensures
        line.wf(),
        line.pieces() == proto_pieces(code, t@),
{
    proof {
        lemma_proto_words();
    }
    let mut line = Line::new();
    if code == 6 {
        let flags = t[13];
        if !has_flags(flags) {
            line.push_plain("TCP: no flags");
        } else {
            line.push_plain("TCP: ");
            push_flag_list(&mut line, flags);
        }
    } else if code == 17 {
        line.push_painted("UDP", Color::Blue);
    } else if code == 1 {
        line.push_painted("ICMP", Color::Cyan);
    } else if code == 2 {
        line.push_painted("IGMP", Color::Purple);
    } else {
        line.push_plain("Other IP protocol");
    }
    assert(line.pieces() =~= proto_pieces(code, t@));
    line
}

/// A one-line summary of an Ethernet frame: its MAC addresses, then for IPv4 its
/// addresses, ports and protocol (with TCP flags), or the name of the protocol it
/// carries; `None` when a filter hides it.
///
/// The protocol filter matches the start of the protocol part (or `IPv6`,
/// `ARP`), ignoring case and color; the address filter matches anywhere in the
/// IPv4 part.
pub fn parse_ethernet(
    buf: &[u8],
    proto_filter: &Option<String>,
    port_filter: &Option<u16>,
    ip_filter: &Option<String>,
) -> (res: Option<String>)
    requires
        frame_in_bounds(buf@),
    ensures
        res is Some <==> summary(
            buf@,
            filter_text(*proto_filter),
            *port_filter,
            filter_text(*ip_filter),
        ) is Some,
        res matches Some(s) ==> renders(
            s@,
            summary(buf@, filter_text(*proto_filter), *port_filter, filter_text(*ip_filter)).unwrap(),
        ),
{
    if buf.len() < 14 {
        let mut line = Line::new();
        line.push_plain("Invalid Ethernet");
        assert(line.pieces() =~= seq![plain("Invalid Ethernet"@)]);
        return Some(line.into_string());
    }
    let mut line = Line::new();
    line.push_plain(format_mac_header(buf).as_str());
    line.push_plain(" | ");
    let et = read_be16(buf[12], buf[13]);
    if et == ETHERTYPE_IPV4 {
        let iph = &buf[14..buf.len()];
        assert(iph@ =~= ip_header(buf@));
        let code = iph[9];
        let hl = read_header_len(iph);
        let t = &iph[hl..iph.len()];
        assert(t@ =~= transport(iph@));
        if code == 6 && t.len() < 14 {
            let mut invalid = Line::new();
            invalid.push_plain("TCP (invalid)");
            assert(invalid.pieces() =~= seq![plain("TCP (invalid)"@)]);
            return Some(invalid.into_string());
        }
        let proto = proto_line(code, t);
        if let Some(f) = proto_filter {
            if !name_starts_with(proto.bare_text(), f.as_str()) {
                return None;
            }
        }
        let (info, sp, dp) = parse_ipv4(iph);
        if let Some(p) = port_filter {
            if sp != Some(*p) && dp != Some(*p) {
                return None;
            }
        }
        if let Some(f) = ip_filter {
            if !contains(info.as_str(), f.as_str()) {
                return None;
            }
        }
        line.push_plain(info.as_str());
        line.push_plain(" | ");
        line.append(proto);
    } else if port_filter.is_some() || ip_filter.is_some() {
        return None;
    } else if et == ETHERTYPE_IPV6 {
        if let Some(f) = proto_filter {
            if !name_starts_with("IPv6", f.as_str()) {
                return None;
            }
        }
        line.push_plain("IPv6");
    } else if et == ETHERTYPE_ARP {
        if let Some(f) = proto_filter {
            if !name_starts_with("ARP", f.as_str()) {
                return None;
            }
        }
        line.push_plain("ARP");
    } else if proto_filter.is_some() {
        return None;
    } else {
        line.push_plain("Неизвестный EtherType");
    }
    let ghost expected = summary(
        buf@,
        filter_text(*proto_filter),
        *port_filter,
        filter_text(*ip_filter),
    ).unwrap();
    assert(line.pieces() =~= expected);
    Some(line.into_string())
}


/// Without filters every frame is shown.
pub proof fn law_no_filter_shows_all(buf: Seq<u8>)
    ensures
        summary(buf, None, None, None) is Some,
{
}

/// Under a protocol filter, every frame shown (but one too short for an
/// Ethernet header) is IPv4, or IPv6 or ARP with a name that the filter starts.
pub proof fn law_proto_filter_known_protocols(
    buf: Seq<u8>,
    proto: Seq<char>,
    port: Option<u16>,
    ip: Option<Seq<char>>,
)
    requires
        buf.len() >= 14,
        ethertype(buf) != ETHERTYPE_IPV4,
        summary(buf, Some(proto), port, ip) is Some,
    ensures
        ethertype(buf) == ETHERTYPE_IPV6 ==> name_matches("IPv6"@, proto),
        ethertype(buf) == ETHERTYPE_ARP ==> name_matches("ARP"@, proto),
        ethertype(buf) == ETHERTYPE_IPV6 || ethertype(buf) == ETHERTYPE_ARP,
{
}

/// Port and address filters hide every frame that is not IPv4.
pub proof fn law_port_and_address_filters_need_ipv4(
    buf: Seq<u8>,
    proto: Option<Seq<char>>,
    port: Option<u16>,
    ip: Option<Seq<char>>,
)
    requires
        buf.len() >= 14,
        ethertype(buf) != ETHERTYPE_IPV4,
        port is Some || ip is Some,
    ensures
        summary(buf, proto, port, ip) is None,
{
}

/// Under a protocol filter, every IPv4 frame shown in full has a protocol part
/// whose uncolored text starts with the filter, ignoring case.
pub proof fn law_proto_filter(
    buf: Seq<u8>,
    proto: Seq<char>,
    port: Option<u16>,
    ip: Option<Seq<char>>,
)
    requires
        buf.len() >= 14,
        ethertype(buf) == ETHERTYPE_IPV4,
        !(ip_header(buf)[9] == 6 && transport(ip_header(buf)).len() < 14),
        summary(buf, Some(proto), port, ip) is Some,
    ensures
        name_matches(plain_text(proto_pieces(ip_header(buf)[9], transport(ip_header(buf)))), proto),
{
}

/// Under a port filter, every IPv4 frame shown in full has that port as its
/// source or destination port.
pub proof fn law_port_filter(
    buf: Seq<u8>,
    proto: Option<Seq<char>>,
    port: u16,
    ip: Option<Seq<char>>,
)
    requires
        buf.len() >= 14,
        ethertype(buf) == ETHERTYPE_IPV4,
        !(ip_header(buf)[9] == 6 && transport(ip_header(buf)).len() < 14),
        summary(buf, proto, Some(port), ip) is Some,
    ensures
        src_port(ip_header(buf)) == Some(port) || dst_port(ip_header(buf)) == Some(port),
{
}

/// Under an address filter, every IPv4 frame shown in full has the filter text
/// in the IPv4 part of its line.
pub proof fn law_address_filter(
    buf: Seq<u8>,
    proto: Option<Seq<char>>,
    port: Option<u16>,
    ip: Seq<char>,
)
    requires
        buf.len() >= 14,
        ethertype(buf) == ETHERTYPE_IPV4,
        !(ip_header(buf)[9] == 6 && transport(ip_header(buf)).len() < 14),
        summary(buf, proto, port, Some(ip)) is Some,
    ensures
        has_substring(ipv4_text(ip_header(buf)), ip),
{
}


/// A protocol filter names protocols in any case: an ICMP, IGMP or UDP packet is
/// shown under the filter `icmp`, `igmp` or `udp`, an IPv6 or ARP frame under
/// `ipv6` or `arp`, whatever the colors of the line.
pub proof fn law_protocol_filter_names(buf: Seq<u8>, word: Seq<char>)
    requires
        buf.len() >= 14,
        ({
            let iph = ip_header(buf);
            ||| ethertype(buf) == ETHERTYPE_IPV4 && iph.len() >= 10 && ((iph[9] == 1 && word
                == "icmp"@) || (iph[9] == 2 && word == "igmp"@) || (iph[9] == 17 && word
                == "udp"@))
            ||| ethertype(buf) == ETHERTYPE_IPV6 && word == "ipv6"@
            ||| ethertype(buf) == ETHERTYPE_ARP && word == "arp"@
        }),
    ensures
        summary(buf, Some(word), None, None) is Some,
{
    reveal_strlit("ICMP");
    reveal_strlit("icmp");
    reveal_strlit("IGMP");
    reveal_strlit("igmp");
    reveal_strlit("UDP");
    reveal_strlit("udp");
    reveal_strlit("IPv6");
    reveal_strlit("ipv6");
    reveal_strlit("ARP");
    reveal_strlit("arp");
    let iph = ip_header(buf);
    if ethertype(buf) == ETHERTYPE_IPV4 {
        let code = iph[9];
        let ps = proto_pieces(code, transport(iph));
        let name = if code == 1 {
            "ICMP"@
        } else if code == 2 {
            "IGMP"@
        } else {
            "UDP"@
        };
        assert(ps.len() == 1 && ps[0].text == name);
        assert(ps.drop_last() =~= Seq::<Piece>::empty());
        assert(plain_text(ps.drop_last()) == Seq::<char>::empty());
        assert(plain_text(ps) == Seq::<char>::empty() + name);
        assert(plain_text(ps) =~= name);
        assert(ascii_upper(name) =~= ascii_upper(word));
        assert(ascii_upper(name).subrange(0, ascii_upper(word).len() as int) =~= ascii_upper(word));
    } else if ethertype(buf) == ETHERTYPE_IPV6 {
        assert(ascii_upper("IPv6"@) =~= ascii_upper(word));
        assert(ascii_upper("IPv6"@).subrange(0, ascii_upper(word).len() as int) =~= ascii_upper(word));
    } else {
        assert(ascii_upper("ARP"@) =~= ascii_upper(word));
        assert(ascii_upper("ARP"@).subrange(0, ascii_upper(word).len() as int) =~= ascii_upper(word));
    }
}


/// A port filter keeps every IPv4 frame that has the port as its source or as
/// its destination port.
pub proof fn law_port_filter_keeps(buf: Seq<u8>, port: u16)
    requires
        buf.len() >= 14,
        ethertype(buf) == ETHERTYPE_IPV4,
        src_port(ip_header(buf)) == Some(port) || dst_port(ip_header(buf)) == Some(port),
    ensures
        summary(buf, None, Some(port), None) is Some,
{
}

/// An address filter keeps every IPv4 frame whose IPv4 part holds the filter
/// text, be it in the source or in the destination address.
pub proof fn law_address_filter_keeps(buf: Seq<u8>, ip: Seq<char>)
    requires
        buf.len() >= 14,
        ethertype(buf) == ETHERTYPE_IPV4,
        has_substring(ipv4_text(ip_header(buf)), ip),
    ensures
        summary(buf, None, None, Some(ip)) is Some,
{
}

/// The IPv4 part names the source address, then the destination address, each
/// with its port: `IPv4: <src>[:<port>] -> <dst>[:<port>]`; so a text that
/// occurs in either address occurs in it.
pub proof fn law_ipv4_text_holds_addresses(iph: Seq<u8>, ip: Seq<char>)
    requires
        iph.len() >= 20,
        has_substring(dotted_quad(iph, 12), ip) || has_substring(dotted_quad(iph, 16), ip),
    ensures
        has_substring(ipv4_text(iph), ip),
{
    let a = "IPv4: "@;
    let src = dotted_quad(iph, 12);
    let dst = dotted_quad(iph, 16);
    let t = ipv4_text(iph);
    assert(t == a + src + port_text(src_port(iph)) + " -> "@ + dst + port_text(dst_port(iph)));
    if has_substring(src, ip) {
        let i = choose|i: int| 0 <= i && i + ip.len() <= src.len() && #[trigger] src.subrange(i, i + ip.len()) == ip;
        let j = a.len() + i;
        assert(t.subrange(j, j + ip.len()) =~= src.subrange(i, i + ip.len()));
    } else {
        let i = choose|i: int| 0 <= i && i + ip.len() <= dst.len() && #[trigger] dst.subrange(i, i + ip.len()) == ip;
        let j = a.len() + src.len() + port_text(src_port(iph)).len() + " -> "@.len() + i;
        assert(t.subrange(j, j + ip.len()) =~= dst.subrange(i, i + ip.len()));
    }
}

} // verus!
