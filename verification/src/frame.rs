//! The layout of an Ethernet frame and of the IPv4 and TCP/UDP headers inside
//! it, as the summaries read them.

use crate::color::{Color, Line};
use crate::text::{push_char, push_decimal, push_hex2};
// Names that only contracts and proofs use.
#[allow(unused_imports)]
use crate::color::{painted, plain, Piece};
#[allow(unused_imports)]
use crate::text::{decimal, digit_char, hex2};
use vstd::prelude::*;

verus! {

/// EtherType of IPv4.
pub const ETHERTYPE_IPV4: u16 = 0x0800;

/// EtherType of IPv6.
pub const ETHERTYPE_IPV6: u16 = 0x86DD;

/// EtherType of ARP.
pub const ETHERTYPE_ARP: u16 = 0x0806;

/// The length of an Ethernet header: two MAC addresses and the EtherType.
pub const ETHERNET_HEADER_LEN: usize = 14;

/// A big-endian 16-bit number from its two bytes.
pub open spec fn be16(hi: u8, lo: u8) -> u16 {
    (hi as int * 256 + lo as int) as u16
}

/// The EtherType field of a frame (bytes 12 and 13).
pub open spec fn ethertype(buf: Seq<u8>) -> u16 {
    be16(buf[12], buf[13])
}

/// What follows the Ethernet header.
pub open spec fn ip_header(buf: Seq<u8>) -> Seq<u8> {
    buf.subrange(14, buf.len() as int)
}

/// The IPv4 header length in bytes: four times the IHL nibble of the first byte.
pub open spec fn header_len(iph: Seq<u8>) -> int {
    (iph[0] & 0x0Fu8) as int * 4
}

/// The bytes after the IPv4 header.
pub open spec fn transport(iph: Seq<u8>) -> Seq<u8> {
    iph.subrange(header_len(iph), iph.len() as int)
}

/// A frame whose decoding reads no byte past its end: an IPv4 frame holds its
/// protocol byte and its whole IPv4 header.
pub open spec fn frame_in_bounds(buf: Seq<u8>) -> bool {
    buf.len() >= 14 && ethertype(buf) == ETHERTYPE_IPV4 ==> {
        &&& buf.len() >= 24
        &&& header_len(ip_header(buf)) <= buf.len() - 14
    }
}

/// An IPv4 packet whose ports can be read: a TCP or UDP packet holds its whole header.
pub open spec fn ipv4_in_bounds(iph: Seq<u8>) -> bool {
    iph.len() >= 20 && (iph[9] == 6 || iph[9] == 17) ==> header_len(iph) <= iph.len()
}

/// The source and destination ports of a TCP or UDP packet whose transport
/// header holds at least four bytes.
pub open spec fn ports(iph: Seq<u8>) -> Option<(u16, u16)> {
    if iph.len() >= 20 && (iph[9] == 6 || iph[9] == 17) && transport(iph).len() >= 4 {
        let t = transport(iph);
        Some((be16(t[0], t[1]), be16(t[2], t[3])))
    } else {
        None
    }
}

/// The source port, if the packet has one.
pub open spec fn src_port(iph: Seq<u8>) -> Option<u16> {
    match ports(iph) {
        Some(p) => Some(p.0),
        None => None,
    }
}

/// The destination port, if the packet has one.
pub open spec fn dst_port(iph: Seq<u8>) -> Option<u16> {
    match ports(iph) {
        Some(p) => Some(p.1),
        None => None,
    }
}

/// The text of an optional port: `:` and the number, or nothing.
pub open spec fn port_text(p: Option<u16>) -> Seq<char> {
    match p {
        Some(n) => seq![':'] + decimal(n as nat),
        None => Seq::empty(),
    }
}

/// Colon-separated two-digit hex bytes (`aa:bb:..`).
pub open spec fn mac_text(m: Seq<u8>) -> Seq<char>
    decreases m.len(),
{
    if m.len() == 0 {
        Seq::empty()
    } else if m.len() == 1 {
        hex2(m[0])
    } else {
        mac_text(m.drop_last()) + seq![':'] + hex2(m.last())
    }
}

/// Dotted-decimal text of the four bytes at `at`.
pub open spec fn dotted_quad(b: Seq<u8>, at: int) -> Seq<char> {
    decimal(b[at] as nat) + seq!['.'] + decimal(b[at + 1] as nat) + seq!['.'] + decimal(
        b[at + 2] as nat,
    ) + seq!['.'] + decimal(b[at + 3] as nat)
}

/// The source address of an IPv4 header (bytes 12..16).
pub open spec fn src_addr(iph: Seq<u8>) -> Seq<char> {
    dotted_quad(iph, 12)
}

/// The destination address of an IPv4 header (bytes 16..20).
pub open spec fn dst_addr(iph: Seq<u8>) -> Seq<char> {
    dotted_quad(iph, 16)
}

/// The start of every summary: `DST: <mac> -> SRC: <mac>`.
pub open spec fn mac_header(buf: Seq<u8>) -> Seq<char> {
    "DST: "@ + mac_text(buf.subrange(0, 6)) + " -> SRC: "@ + mac_text(buf.subrange(6, 12))
}

/// The TCP flags that are set, in the order SYN, ACK, FIN, RST, each in its color.
pub open spec fn flag_items(f: u8) -> Seq<Piece> {
    let a = if f & 0b00000010u8 != 0 {
        seq![painted("SYN"@, Color::Green)]
    } else {
        Seq::empty()
    };
    let b = if f & 0b00010000u8 != 0 {
        a.push(painted("ACK"@, Color::Yellow))
    } else {
        a
    };
    let c = if f & 0b00000001u8 != 0 {
        b.push(painted("FIN"@, Color::Red))
    } else {
        b
    };
    if f & 0b00000100u8 != 0 {
        c.push(painted("RST"@, Color::Red))
    } else {
        c
    }
}

/// Items separated by plain `sep` pieces.
pub open spec fn joined(items: Seq<Piece>, sep: Seq<char>) -> Seq<Piece>
    decreases items.len(),
{
    if items.len() <= 1 {
        items
    } else {
        joined(items.drop_last(), sep).push(plain(sep)).push(items.last())
    }
}

/// The flags of a TCP header, separated by `", "`.
pub open spec fn flag_list(f: u8) -> Seq<Piece> {
    joined(flag_items(f), ", "@)
}

/// A big-endian 16-bit number from its two bytes.
pub fn read_be16(hi: u8, lo: u8) -> (n: u16)
    ensures
        n == be16(hi, lo),
{
    hi as u16 * 256 + lo as u16
}

/// The IPv4 header length in bytes, from its first byte.
pub fn read_header_len(iph: &[u8]) -> (n: usize)
    requires
        iph@.len() >= 1,
    ensures
        n == header_len(iph@),
        n <= 60,
{
    let b = iph[0];
    let ihl = b & 0x0F;
    assert(ihl <= 15) by (bit_vector)
        requires
            ihl == b & 0x0Fu8,
    ;
    (ihl * 4) as usize
}

/// Whether decoding the frame stays within its bytes.
pub fn check_frame_bounds(buf: &[u8]) -> (ok: bool)
    ensures
        ok == frame_in_bounds(buf@),
{
    if buf.len() < 14 || read_be16(buf[12], buf[13]) != ETHERTYPE_IPV4 {
        return true;
    }
    if buf.len() < 24 {
        return false;
    }
    let hl = read_header_len(&buf[14..buf.len()]);
    hl <= buf.len() - 14
}

/// The MAC address text of `mac`: two lowercase hex digits per byte, joined by `:`.
pub fn format_mac(mac: &[u8]) -> (s: String)
    ensures
        s@ == mac_text(mac@),
{
    let mut s = String::new();
    let n = mac.len();
    let mut i: usize = 0;
    while i < n
        invariant
            n == mac@.len(),
            i <= n,
            s@ == mac_text(mac@.subrange(0, i as int)),
        decreases n - i,
    {
        let ghost before = s@;
        if i > 0 {
            push_char(&mut s, ':');
        }
        push_hex2(&mut s, mac[i]);
        proof {
            let pre = mac@.subrange(0, i as int);
            let cur = mac@.subrange(0, i + 1);
            assert(cur.drop_last() =~= pre);
            if i == 0 {
                assert(s@ =~= hex2(mac@[0]));
            } else {
                assert(s@ =~= before + seq![':'] + hex2(mac@[i as int]));
            }
        }
        i = i + 1;
    }
    assert(mac@.subrange(0, n as int) =~= mac@);
    s
}

/// Dotted-decimal text of the four bytes of `b` at `at`.
pub fn format_quad(b: &[u8], at: usize) -> (s: String)
    requires
        at + 4 <= b@.len(),
    ensures
        s@ == dotted_quad(b@, at as int),
{
    let mut s = String::new();
    push_decimal(&mut s, b[at] as u16);
    push_char(&mut s, '.');
    push_decimal(&mut s, b[at + 1] as u16);
    push_char(&mut s, '.');
    push_decimal(&mut s, b[at + 2] as u16);
    push_char(&mut s, '.');
    push_decimal(&mut s, b[at + 3] as u16);
    assert(s@ =~= dotted_quad(b@, at as int));
    s
}


/// The `DST: <mac> -> SRC: <mac>` start of a summary.
pub fn format_mac_header(buf: &[u8]) -> (s: String)
    requires
        buf@.len() >= 12,
    ensures
        s@ == mac_header(buf@),
{
    let mut s = String::new();
    s.append("DST: ");
    let dst = format_mac(&buf[0..6]);
    s.append(dst.as_str());
    s.append(" -> SRC: ");
    let src = format_mac(&buf[6..12]);
    s.append(src.as_str());
    assert(s@ =~= mac_header(buf@));
    s
}

/// Separating items with `sep` and then adding one more item.
proof fn lemma_joined_push(items: Seq<Piece>, sep: Seq<char>, p: Piece)
    ensures
        joined(items.push(p), sep) == if items.len() == 0 {
            seq![p]
        } else {
            joined(items, sep).push(plain(sep)).push(p)
        },
{
    assert(items.push(p).drop_last() =~= items);
    if items.len() == 0 {
        assert(items.push(p) =~= seq![p]);
    }
}

/// The three flag words hold no escape character.
proof fn lemma_flag_words()
    ensures
        crate::color::no_escape("SYN"@),
        crate::color::no_escape("ACK"@),
        crate::color::no_escape("FIN"@),
        crate::color::no_escape("RST"@),
{
    reveal_strlit("SYN");
    reveal_strlit("ACK");
    reveal_strlit("FIN");
    reveal_strlit("RST");
}

/// Appends one flag word to a flag list of `items`, separated from the previous one.
fn push_flag(
    line: &mut Line,
    word: &str,
    c: Color,
    Ghost(base): Ghost<Seq<Piece>>,
    Ghost(items): Ghost<Seq<Piece>>,
    count: usize,
) -> (n: usize)
    requires
        old(line).wf(),
        old(line).pieces() == base + joined(items, ", "@),
        crate::color::no_escape(word@),
        count == items.len(),
        count < 4,
    ensures
        final(line).wf(),
        final(line).pieces() == base + joined(items.push(painted(word@, c)), ", "@),
        n == count + 1,
{
    if count > 0 {
        line.push_plain(", ");
    }
    line.push_painted(word, c);
    proof {
        lemma_joined_push(items, ", "@, painted(word@, c));
        if items.len() == 0 {
            assert(final(line).pieces() =~= base + joined(items.push(painted(word@, c)), ", "@));
        } else {
            assert(final(line).pieces() =~= base + joined(items.push(painted(word@, c)), ", "@));
        }
    }
    count + 1
}

/// Whether any of SYN, ACK, FIN, RST is set.
pub fn has_flags(f: u8) -> (b: bool)
    ensures
        b == (flag_items(f).len() > 0),
{
    f & 0b00000010 != 0 || f & 0b00010000 != 0 || f & 0b00000001 != 0 || f & 0b00000100 != 0
}

/// Appends the set TCP flags of `f`, each in its color, separated by `", "`.
pub fn push_flag_list(line: &mut Line, f: u8)
    requires
        old(line).wf(),
    ensures
        final(line).wf(),
        final(line).pieces() == old(line).pieces() + flag_list(f),
{
    let ghost base = line.pieces();
    proof {
        lemma_flag_words();
        assert(base + joined(Seq::<Piece>::empty(), ", "@) =~= base);
    }
    let ghost items: Seq<Piece> = Seq::empty();
    let mut count: usize = 0;
    if f & 0b00000010 != 0 {
        count = push_flag(line, "SYN", Color::Green, Ghost(base), Ghost(items), count);
        proof {
            items = items.push(painted("SYN"@, Color::Green));
        }
    }
    if f & 0b00010000 != 0 {
        count = push_flag(line, "ACK", Color::Yellow, Ghost(base), Ghost(items), count);
        proof {
            items = items.push(painted("ACK"@, Color::Yellow));
        }
    }
    if f & 0b00000001 != 0 {
        count = push_flag(line, "FIN", Color::Red, Ghost(base), Ghost(items), count);
        proof {
            items = items.push(painted("FIN"@, Color::Red));
        }
    }
    if f & 0b00000100 != 0 {
        count = push_flag(line, "RST", Color::Red, Ghost(base), Ghost(items), count);
        proof {
            items = items.push(painted("RST"@, Color::Red));
        }
    }
    assert(items =~= flag_items(f));
}


/// Every character of a decimal rendering is a digit.
pub proof fn lemma_decimal_digits(n: nat)
    ensures
        forall|i: int| 0 <= i < decimal(n).len() ==> '0' <= #[trigger] decimal(n)[i] <= '9',
        decimal(n).len() >= 1,
    decreases n,
{
    if n >= 10 {
        lemma_decimal_digits(n / 10);
    }
}

/// A dotted-decimal address holds only digits and dots.
pub proof fn lemma_dotted_quad_plain(b: Seq<u8>, at: int)
    ensures
        crate::color::no_escape(dotted_quad(b, at)),
{
    lemma_decimal_digits(b[at] as nat);
    lemma_decimal_digits(b[at + 1] as nat);
    lemma_decimal_digits(b[at + 2] as nat);
    lemma_decimal_digits(b[at + 3] as nat);
    let q = dotted_quad(b, at);
    assert forall|i: int| 0 <= i < q.len() implies q[i] != '\x1b' by {
        let d0 = decimal(b[at] as nat);
        let d1 = decimal(b[at + 1] as nat);
        let d2 = decimal(b[at + 2] as nat);
        let d3 = decimal(b[at + 3] as nat);
        if i < d0.len() {
            assert(q[i] == d0[i]);
        } else if i == d0.len() {
        } else if i < d0.len() + 1 + d1.len() {
            assert(q[i] == d1[i - d0.len() - 1]);
        } else if i == d0.len() + 1 + d1.len() {
        } else if i < d0.len() + 2 + d1.len() + d2.len() {
            assert(q[i] == d2[i - d0.len() - 2 - d1.len()]);
        } else if i == d0.len() + 2 + d1.len() + d2.len() {
        } else {
            assert(q[i] == d3[i - d0.len() - 3 - d1.len() - d2.len()]);
        }
    }
}

/// The text of an optional port: `:` and the number, or nothing.
pub fn format_port(p: Option<u16>) -> (s: String)
    ensures
        s@ == port_text(p),
{
    let mut s = String::new();
    if let Some(n) = p {
        push_char(&mut s, ':');
        push_decimal(&mut s, n);
    }
    assert(s@ =~= port_text(p));
    s
}

/// The source and destination ports of a TCP or UDP packet, when its transport
/// header holds them.
pub fn read_ports(iph: &[u8]) -> (res: Option<(u16, u16)>)
    requires
        ipv4_in_bounds(iph@),
    ensures
        res == ports(iph@),
{
    if iph.len() < 20 || !(iph[9] == 6 || iph[9] == 17) {
        return None;
    }
    let hl = read_header_len(iph);
    let t = &iph[hl..iph.len()];
    if t.len() >= 4 {
        Some((read_be16(t[0], t[1]), read_be16(t[2], t[3])))
    } else {
        None
    }
}


/// A MAC address text takes three characters per byte, less the missing
/// separator before the first: 17 characters for a six-byte address.
pub proof fn law_mac_text_len(m: Seq<u8>)
    requires
        m.len() >= 1,
    ensures
        mac_text(m).len() == 3 * m.len() - 1,
    decreases m.len(),
{
    if m.len() > 1 {
        law_mac_text_len(m.drop_last());
    }
}

/// Each of SYN, ACK, FIN and RST is listed, in its color, exactly when its bit is set.
pub proof fn law_flags_listed(f: u8)
    ensures
        flag_items(f).contains(painted("SYN"@, Color::Green)) <==> f & 0b00000010u8 != 0,
        flag_items(f).contains(painted("ACK"@, Color::Yellow)) <==> f & 0b00010000u8 != 0,
        flag_items(f).contains(painted("FIN"@, Color::Red)) <==> f & 0b00000001u8 != 0,
        flag_items(f).contains(painted("RST"@, Color::Red)) <==> f & 0b00000100u8 != 0,
{
    reveal_strlit("SYN");
    reveal_strlit("ACK");
    reveal_strlit("FIN");
    reveal_strlit("RST");
    let syn = painted("SYN"@, Color::Green);
    let ack = painted("ACK"@, Color::Yellow);
    let fin = painted("FIN"@, Color::Red);
    let rst = painted("RST"@, Color::Red);
    let items = flag_items(f);
    assert(syn != ack && syn != fin && syn != rst && ack != fin && ack != rst && fin != rst) by {
        assert(syn.text[0] != ack.text[0]);
        assert(syn.text[0] != fin.text[0]);
        assert(syn.text[0] != rst.text[0]);
        assert(ack.text[0] != fin.text[0]);
        assert(ack.text[0] != rst.text[0]);
        assert(fin.text[0] != rst.text[0]);
    }
    if f & 0b00000010u8 != 0 {
        assert(items[0] == syn);
    }
    if f & 0b00010000u8 != 0 {
        assert(items.contains(ack)) by {
            let k = if f & 0b00000010u8 != 0 { 1int } else { 0int };
            assert(items[k] == ack);
        }
    }
    if f & 0b00000001u8 != 0 {
        assert(items.contains(fin)) by {
            let k = (if f & 0b00000010u8 != 0 { 1int } else { 0int }) + (if f & 0b00010000u8
                != 0 {
                1int
            } else {
                0int
            });
            assert(items[k] == fin);
        }
    }
    if f & 0b00000100u8 != 0 {
        assert(items.last() == rst);
    }
}


/// Different hex digits show as different characters.
proof fn lemma_digit_char_injective(x: int, y: int)
    requires
        0 <= x < 16,
        0 <= y < 16,
        digit_char(x) == digit_char(y),
    ensures
        x == y,
{
    assert(digit_char(x) as int == if x < 10 { x + 48 } else { x + 87 });
    assert(digit_char(y) as int == if y < 10 { y + 48 } else { y + 87 });
}

/// Different bytes show as different pairs of hex digits.
proof fn lemma_hex2_injective(a: u8, b: u8)
    requires
        hex2(a) == hex2(b),
    ensures
        a == b,
{
    assert(hex2(a)[0] == hex2(b)[0]);
    assert(hex2(a)[1] == hex2(b)[1]);
    lemma_digit_char_injective(a as int / 16, b as int / 16);
    lemma_digit_char_injective(a as int % 16, b as int % 16);
}

/// The MAC address text determines the bytes: different byte strings never
/// show as the same text.
pub proof fn law_mac_text_injective(a: Seq<u8>, b: Seq<u8>)
    requires
        mac_text(a) == mac_text(b),
    ensures
        a == b,
    decreases a.len(),
{
    if a.len() >= 1 {
        law_mac_text_len(a);
    }
    if b.len() >= 1 {
        law_mac_text_len(b);
    }
    assert(a.len() == b.len());
    if a.len() == 1 {
        lemma_hex2_injective(a[0], b[0]);
        assert(a =~= b);
    } else if a.len() > 1 {
        let pa = mac_text(a.drop_last());
        let pb = mac_text(b.drop_last());
        law_mac_text_len(a.drop_last());
        law_mac_text_len(b.drop_last());
        let ta = mac_text(a);
        assert(ta == pa + seq![':'] + hex2(a.last()));
        assert(ta == pb + seq![':'] + hex2(b.last()));
        assert(pa =~= ta.subrange(0, pa.len() as int));
        assert(pb =~= ta.subrange(0, pb.len() as int));
        assert(hex2(a.last()) =~= ta.subrange(pa.len() as int + 1, ta.len() as int));
        assert(hex2(b.last()) =~= ta.subrange(pb.len() as int + 1, ta.len() as int));
        law_mac_text_injective(a.drop_last(), b.drop_last());
        lemma_hex2_injective(a.last(), b.last());
        assert(a =~= a.drop_last().push(a.last()));
        assert(b =~= b.drop_last().push(b.last()));
    } else {
        assert(a =~= b);
    }
}


/// The value of a lowercase hexadecimal digit.
pub open spec fn hex_value(c: char) -> int {
    if '0' <= c && c <= '9' {
        c as int - 48
    } else {
        c as int - 87
    }
}

/// The byte written by two hexadecimal digits.
pub open spec fn hex_byte(hi: char, lo: char) -> u8 {
    (hex_value(hi) * 16 + hex_value(lo)) as u8
}

/// Reads a MAC address text back: the two-digit groups between the colons.
pub open spec fn read_mac(t: Seq<char>) -> Seq<u8>
    decreases t.len(),
{
    if t.len() < 2 {
        Seq::empty()
    } else if t.len() < 5 {
        seq![hex_byte(t[0], t[1])]
    } else {
        read_mac(t.subrange(0, t.len() - 3)).push(hex_byte(t[t.len() - 2], t[t.len() - 1]))
    }
}

/// A hex digit reads back as its value.
proof fn lemma_hex_digit_value(d: int)
    requires
        0 <= d < 16,
    ensures
        hex_value(digit_char(d)) == d,
{
    assert(digit_char(d) as int == if d < 10 { d + 48 } else { d + 87 });
}

/// Two hex digits read back as their byte.
proof fn lemma_hex2_value(b: u8)
    ensures
        hex_byte(hex2(b)[0], hex2(b)[1]) == b,
{
    lemma_hex_digit_value(b as int / 16);
    lemma_hex_digit_value(b as int % 16);
}

/// Reading a MAC address text back gives its bytes.
pub proof fn law_mac_text_read_back(m: Seq<u8>)
    ensures
        read_mac(mac_text(m)) == m,
    decreases m.len(),
{
    if m.len() == 0 {
        assert(m =~= Seq::<u8>::empty());
    } else if m.len() == 1 {
        lemma_hex2_value(m[0]);
        assert(read_mac(mac_text(m)) =~= m);
    } else {
        let p = m.drop_last();
        law_mac_text_len(m);
        law_mac_text_len(p);
        law_mac_text_read_back(p);
        lemma_hex2_value(m.last());
        let t = mac_text(m);
        assert(t == mac_text(p) + seq![':'] + hex2(m.last()));
        assert(t.subrange(0, t.len() - 3) =~= mac_text(p));
        assert(t[t.len() - 2] == hex2(m.last())[0]);
        assert(t[t.len() - 1] == hex2(m.last())[1]);
        assert(read_mac(t) =~= m);
    }
}

} // verus!
