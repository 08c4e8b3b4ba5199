//! IPv4 addresses and socket addresses as plain values, with the
//! dotted-decimal text form of an address.
//!
//! A text is accepted as an address exactly when it is the canonical
//! dotted-decimal form of some address: four decimal octets `0..=255`
//! separated by single dots, no sign, no blank, and no leading zero on an
//! octet of more than one digit.

use vstd::prelude::*;

verus! {

/// An IPv4 address, held as its four octets in network order.
#[derive(Clone, Copy, Debug, PartialEq, Eq, Structural, Hash)]
pub struct Ipv4Addr {
    pub a: u8,
    pub b: u8,
    pub c: u8,
    pub d: u8,
}

/// An IPv4 address together with a port.
#[derive(Clone, Copy, Debug, PartialEq, Eq, Structural, Hash)]
pub struct SocketAddrV4 {
    pub ip: Ipv4Addr,
    pub port: u16,
}

/// The character that writes the decimal digit `n`, for `0 <= n <= 9`.
pub open spec fn digit_char(n: int) -> char {
    (n + 48) as char
}

pub open spec fn is_digit(c: char) -> bool {
    '0' <= c <= '9'
}

/// The digit that the character `c` writes, for a decimal digit `c`.
pub open spec fn digit_value(c: char) -> int {
    c as int - 48
}

/// The decimal text of one octet, without leading zeros.
pub open spec fn octet_text(n: u8) -> Seq<char> {
    if n < 10 {
        seq![digit_char(n as int)]
    } else if n < 100 {
        seq![digit_char(n as int / 10), digit_char(n as int % 10)]
    } else {
        seq![digit_char(n as int / 100), digit_char(n as int / 10 % 10), digit_char(n as int % 10)]
    }
}

/// The address that the text `s` denotes, if it denotes one: the address
/// whose dotted-decimal form is `s`.
pub open spec fn ipv4_of_text(s: Seq<char>) -> Option<Ipv4Addr> {
    if exists|ip: Ipv4Addr| ip.text() == s {
        Some(choose|ip: Ipv4Addr| ip.text() == s)
    } else {
        None
    }
}

/// How many of the characters of `s` from position `i` on are decimal
/// digits, counted up to four.
spec fn digit_run(s: Seq<char>, i: int) -> int {
    if !(0 <= i < s.len() && is_digit(s[i])) {
        0
    } else if !(i + 1 < s.len() && is_digit(s[i + 1])) {
        1
    } else if !(i + 2 < s.len() && is_digit(s[i + 2])) {
        2
    } else if !(i + 3 < s.len() && is_digit(s[i + 3])) {
        3
    } else {
        4
    }
}

/// Reads one octet at position `i` of `s`: the longest run of digits
/// there, which must be a canonical octet. Gives the octet and the
/// position behind it.
spec fn scan_octet(s: Seq<char>, i: int) -> Option<(u8, int)> {
    let run = digit_run(s, i);
    if run == 1 {
        Some((digit_value(s[i]) as u8, i + 1))
    } else if run == 2 && s[i] != '0' {
        Some(((10 * digit_value(s[i]) + digit_value(s[i + 1])) as u8, i + 2))
    } else if run == 3 && s[i] != '0' && 100 * digit_value(s[i]) + 10 * digit_value(s[i + 1])
        + digit_value(s[i + 2]) <= 255 {
        Some(
            (
                (100 * digit_value(s[i]) + 10 * digit_value(s[i + 1]) + digit_value(
                    s[i + 2],
                )) as u8,
                i + 3,
            ),
        )
    } else {
        None
    }
}

/// Reads a dot at position `i` of `s` and then one octet.
spec fn scan_dotted_octet(s: Seq<char>, i: int) -> Option<(u8, int)> {
    if 0 <= i < s.len() && s[i] == '.' {
        scan_octet(s, i + 1)
    } else {
        None
    }
}

/// Reads a whole address from `s`, left to right.
spec fn scan_ipv4(s: Seq<char>) -> Option<Ipv4Addr> {
    match scan_octet(s, 0) {
        None => None,
        Some((a, dot_a)) => match scan_dotted_octet(s, dot_a) {
            None => None,
            Some((b, dot_b)) => match scan_dotted_octet(s, dot_b) {
                None => None,
                Some((c, dot_c)) => match scan_dotted_octet(s, dot_c) {
                    None => None,
                    Some((d, stop)) => if stop == s.len() {
                        Some(Ipv4Addr { a, b, c, d })
                    } else {
                        None
                    },
                },
            },
        },
    }
}

/// What `scan_octet` has read is the decimal text of the octet it gives,
/// and no digit follows it.
proof fn lemma_scan_octet_sound(s: Seq<char>, i: int)
    requires
        scan_octet(s, i) is Some,
    ensures
        ({
            let (v, next) = scan_octet(s, i)->0;
            &&& 0 <= i < next <= s.len()
            &&& s.subrange(i, next) == octet_text(v)
            &&& next < s.len() ==> !is_digit(s[next])
        }),
{
    let (v, next) = scan_octet(s, i)->0;
    assert(s.subrange(i, next) =~= octet_text(v));
}

/// Where the decimal text of `v` stands at position `i` of `s` and no
/// digit follows it, `scan_octet` reads `v` there.
proof fn lemma_scan_octet_complete(s: Seq<char>, i: int, v: u8)
    requires
        0 <= i,
        i + octet_text(v).len() <= s.len(),
        s.subrange(i, i + octet_text(v).len()) == octet_text(v),
        i + octet_text(v).len() < s.len() ==> !is_digit(s[i + octet_text(v).len()]),
    ensures
        scan_octet(s, i) == Some((v, i + octet_text(v).len())),
{
    let t = octet_text(v);
    let part = s.subrange(i, i + t.len());
    assert(part[0] == s[i]);
    if v >= 10 {
        assert(part[1] == s[i + 1]);
    }
    if v >= 100 {
        assert(part[2] == s[i + 2]);
    }
}

/// Two neighbouring pieces of a text make up the piece that spans both.
proof fn lemma_join(s: Seq<char>, i: int, j: int, k: int)
    requires
        0 <= i <= j <= k <= s.len(),
    ensures
        s.subrange(i, j) + s.subrange(j, k) == s.subrange(i, k),
{
    assert(s.subrange(i, j) + s.subrange(j, k) =~= s.subrange(i, k));
}

/// A text cut into four octet texts by three dots is the dotted-decimal
/// form of the address with those octets.
proof fn lemma_segments(s: Seq<char>, ip: Ipv4Addr, dot_a: int, dot_b: int, dot_c: int)
    requires
        0 <= dot_a < dot_b < dot_c < s.len(),
        dot_a + 1 <= dot_b,
        dot_b + 1 <= dot_c,
        s.subrange(0, dot_a) == octet_text(ip.a),
        s[dot_a] == '.',
        s.subrange(dot_a + 1, dot_b) == octet_text(ip.b),
        s[dot_b] == '.',
        s.subrange(dot_b + 1, dot_c) == octet_text(ip.c),
        s[dot_c] == '.',
        s.subrange(dot_c + 1, s.len() as int) == octet_text(ip.d),
    ensures
        ip.text() == s,
{
    let dot = seq!['.'];
    let end = s.len() as int;
    assert(s.subrange(dot_a, dot_a + 1) =~= dot);
    assert(s.subrange(dot_b, dot_b + 1) =~= dot);
    assert(s.subrange(dot_c, dot_c + 1) =~= dot);
    lemma_join(s, 0, dot_a, dot_a + 1);
    lemma_join(s, 0, dot_a + 1, dot_b);
    lemma_join(s, 0, dot_b, dot_b + 1);
    lemma_join(s, 0, dot_b + 1, dot_c);
    lemma_join(s, 0, dot_c, dot_c + 1);
    lemma_join(s, 0, dot_c + 1, end);
    assert(s.subrange(0, end) =~= s);
}

/// A text that scans as an address is the dotted-decimal form of it.
proof fn lemma_scan_sound(s: Seq<char>)
    requires
        scan_ipv4(s) is Some,
    ensures
        (scan_ipv4(s)->0).text() == s,
{
    let ip = scan_ipv4(s)->0;
    let (a, dot_a) = scan_octet(s, 0)->0;
    lemma_scan_octet_sound(s, 0);
    let (b, dot_b) = scan_dotted_octet(s, dot_a)->0;
    lemma_scan_octet_sound(s, dot_a + 1);
    let (c, dot_c) = scan_dotted_octet(s, dot_b)->0;
    lemma_scan_octet_sound(s, dot_b + 1);
    let (d, stop) = scan_dotted_octet(s, dot_c)->0;
    lemma_scan_octet_sound(s, dot_c + 1);
    lemma_segments(s, ip, dot_a, dot_b, dot_c);
}

/// The dotted-decimal form of an address scans as that address.
proof fn lemma_scan_complete(ip: Ipv4Addr)
    ensures
        scan_ipv4(ip.text()) == Some(ip),
{
    let s = ip.text();
    let dot = seq!['.'];
    let ta = octet_text(ip.a);
    let tb = octet_text(ip.b);
    let tc = octet_text(ip.c);
    let td = octet_text(ip.d);
    let dot_a = ta.len() as int;
    let dot_b = dot_a + 1 + tb.len();
    let dot_c = dot_b + 1 + tc.len();
    let stop = dot_c + 1 + td.len();
    assert(s.len() == stop);
    assert(s.subrange(0, dot_a) =~= ta);
    assert(s[dot_a] == '.');
    assert(s.subrange(dot_a + 1, dot_b) =~= tb);
    assert(s[dot_b] == '.');
    assert(s.subrange(dot_b + 1, dot_c) =~= tc);
    assert(s[dot_c] == '.');
    assert(s.subrange(dot_c + 1, stop) =~= td);
    lemma_scan_octet_complete(s, 0, ip.a);
    lemma_scan_octet_complete(s, dot_a + 1, ip.b);
    lemma_scan_octet_complete(s, dot_b + 1, ip.c);
    lemma_scan_octet_complete(s, dot_c + 1, ip.d);
}

/// Scanning computes `ipv4_of_text`.
proof fn lemma_scan_is_ipv4_of_text(s: Seq<char>)
    ensures
        scan_ipv4(s) == ipv4_of_text(s),
{
    if scan_ipv4(s) is Some {
        let ip = scan_ipv4(s)->0;
        lemma_scan_sound(s);
        let chosen = choose|other: Ipv4Addr| other.text() == s;
        lemma_scan_complete(chosen);
    } else {
        assert forall|ip: Ipv4Addr| ip.text() != s by {
            lemma_scan_complete(ip);
        }
    }
}

/// Every address is the one that its dotted-decimal form denotes.
pub proof fn lemma_text_denotes(ip: Ipv4Addr)
    ensures
        ipv4_of_text(ip.text()) == Some(ip),
{
    lemma_scan_complete(ip);
    lemma_scan_is_ipv4_of_text(ip.text());
}

/// Two addresses with the same dotted-decimal form are the same address.
pub proof fn lemma_text_injective(x: Ipv4Addr, y: Ipv4Addr)
    requires
        x.text() == y.text(),
    ensures
        x == y,
{
    lemma_scan_complete(x);
    lemma_scan_complete(y);
}

/// A text that denotes an address is the dotted-decimal form of that
/// address, and so between 7 and 15 characters long.
pub proof fn lemma_denoted_text(s: Seq<char>)
    requires
        ipv4_of_text(s) is Some,
    ensures
        (ipv4_of_text(s)->0).text() == s,
        7 <= s.len() <= 15,
{
}

/// An address is known by the number it denotes.
pub proof fn lemma_bits_injective(x: Ipv4Addr, y: Ipv4Addr)
    requires
        x.bits() == y.bits(),
    ensures
        x == y,
{
    let low = x.c * 0x100 + x.d - (y.c * 0x100 + y.d);
    let high = (y.a - x.a) * 0x100 + (y.b - x.b);
    assert(low == high * 0x1_0000);
    assert(-0x1_0000 < low < 0x1_0000);
    assert(high == 0);
    assert(x.d - y.d == (y.c - x.c) * 0x100);
    assert(y.b - x.b == (x.a - y.a) * 0x100);
}

/// The rank of a socket address orders it as `precedes` does, and no two
/// socket addresses share a rank.
pub proof fn lemma_socket_rank(x: SocketAddrV4, y: SocketAddrV4)
    ensures
        0 <= x.rank() < 0x1_0000_0000_0000,
        x.precedes(y) <==> x.rank() < y.rank(),
        x.rank() == y.rank() ==> x == y,
{
    if x.ip.bits() == y.ip.bits() {
        lemma_bits_injective(x.ip, y.ip);
    }
}

fn is_digit_at(text: &str, len: usize, i: usize) -> (b: bool)
    requires
        len == text@.len(),
    ensures
        b == (i < len && is_digit(text@[i as int])),
{
    if i < len {
        let c = text.get_char(i);
        c >= '0' && c <= '9'
    } else {
        false
    }
}

fn digit_at(text: &str, len: usize, i: usize) -> (v: u16)
    requires
        len == text@.len(),
        i < len,
        is_digit(text@[i as int]),
    ensures
        v == digit_value(text@[i as int]),
        v <= 9,
{
    let c = text.get_char(i);
    (c as u32 - 48) as u16
}

fn read_octet(text: &str, len: usize, start: usize) -> (r: Option<(u8, usize)>)
    requires
        len == text@.len(),
    ensures
        match r {
            Some((v, next)) => scan_octet(text@, start as int) == Some((v, next as int)),
            None => scan_octet(text@, start as int) is None,
        },
{
    if !is_digit_at(text, len, start) {
        return None;
    }
    let d0 = digit_at(text, len, start);
    if !is_digit_at(text, len, start + 1) {
        return Some((d0 as u8, start + 1));
    }
    if d0 == 0 {
        return None;
    }
    let d1 = digit_at(text, len, start + 1);
    if !is_digit_at(text, len, start + 2) {
        return Some(((10 * d0 + d1) as u8, start + 2));
    }
    let d2 = digit_at(text, len, start + 2);
    if is_digit_at(text, len, start + 3) {
        return None;
    }
    let value = 100 * d0 + 10 * d1 + d2;
    if value <= 255 {
        Some((value as u8, start + 3))
    } else {
        None
    }
}

fn read_dotted_octet(text: &str, len: usize, start: usize) -> (r: Option<(u8, usize)>)
    requires
        len == text@.len(),
    ensures
        match r {
            Some((v, next)) => scan_dotted_octet(text@, start as int) == Some((v, next as int)),
            None => scan_dotted_octet(text@, start as int) is None,
        },
{
    if start < len && text.get_char(start) == '.' {
        read_octet(text, len, start + 1)
    } else {
        None
    }
}

impl Ipv4Addr {
    /// The address as the 32-bit number it denotes, first octet most
    /// significant. Addresses are ordered as these numbers are.
    pub open spec fn bits(self) -> int {
        self.a * 0x100_0000 + self.b * 0x1_0000 + self.c * 0x100 + self.d
    }

    /// The dotted-decimal form of the address.
    pub open spec fn text(self) -> Seq<char> {
        octet_text(self.a) + seq!['.'] + octet_text(self.b) + seq!['.'] + octet_text(self.c)
            + seq!['.'] + octet_text(self.d)
    }

    pub fn new(a: u8, b: u8, c: u8, d: u8) -> (ip: Ipv4Addr)
        ensures
            ip == (Ipv4Addr { a, b, c, d }),
    {
        Ipv4Addr { a, b, c, d }
    }

    /// The wildcard address `0.0.0.0`.
    pub fn unspecified() -> (ip: Ipv4Addr)
        ensures
            ip == (Ipv4Addr { a: 0, b: 0, c: 0, d: 0 }),
    {
        Ipv4Addr { a: 0, b: 0, c: 0, d: 0 }
    }

    pub fn octets(&self) -> (o: [u8; 4])
        ensures
            o@ == seq![self.a, self.b, self.c, self.d],
    {
        let o = [self.a, self.b, self.c, self.d];
        assert(o@ =~= seq![self.a, self.b, self.c, self.d]);
        o
    }

    pub fn to_bits(&self) -> (bits: u32)
        ensures
            bits == self.bits(),
    {
        (self.a as u32) * 0x100_0000 + (self.b as u32) * 0x1_0000 + (self.c as u32) * 0x100
            + (self.d as u32)
    }

    /// The address with the given 32-bit number.
    pub fn from_bits(bits: u32) -> (ip: Ipv4Addr)
        ensures
            ip.bits() == bits,
    {
        Ipv4Addr {
            a: (bits / 0x100_0000) as u8,
            b: (bits / 0x1_0000 % 0x100) as u8,
            c: (bits / 0x100 % 0x100) as u8,
            d: (bits % 0x100) as u8,
        }
    }

    /// Reads an address from its dotted-decimal form. Any other text
    /// gives `None`.
    pub fn parse(text: &str) -> (r: Option<Ipv4Addr>)
        ensures
            r == ipv4_of_text(text@),
    {
        proof {
            lemma_scan_is_ipv4_of_text(text@);
        }
        let len = text.unicode_len();
        let (a, dot_a) = match read_octet(text, len, 0) {
            Some(read) => read,
            None => { return None; },
        };
        let (b, dot_b) = match read_dotted_octet(text, len, dot_a) {
            Some(read) => read,
            None => { return None; },
        };
        let (c, dot_c) = match read_dotted_octet(text, len, dot_b) {
            Some(read) => read,
            None => { return None; },
        };
        let (d, stop) = match read_dotted_octet(text, len, dot_c) {
            Some(read) => read,
            None => { return None; },
        };
        if stop == len {
            Some(Ipv4Addr { a, b, c, d })
        } else {
            None
        }
    }
}

impl SocketAddrV4 {
    /// The socket address as one number: the address's number in the high
    /// bits, the port in the low sixteen.
    pub open spec fn rank(self) -> int {
        self.ip.bits() * 0x1_0000 + self.port
    }

    /// The order of socket addresses: by address first, then by port.
    pub open spec fn precedes(self, other: SocketAddrV4) -> bool {
        self.ip.bits() < other.ip.bits() || (self.ip == other.ip && self.port < other.port)
    }

    pub fn new(ip: Ipv4Addr, port: u16) -> (addr: SocketAddrV4)
        ensures
            addr == (SocketAddrV4 { ip, port }),
    {
        SocketAddrV4 { ip, port }
    }

    pub fn ip(&self) -> (ip: Ipv4Addr)
        ensures
            ip == self.ip,
    {
        self.ip
    }

    pub fn port(&self) -> (port: u16)
        ensures
            port == self.port,
    {
        self.port
    }
}

} // verus!
