//! Hardware (MAC) and protocol (IPv4) addresses: comparison, the canonical
//! printable forms (colon-separated hexadecimal octets, dot-separated
//! decimal octets), and parsers that invert them.

use vstd::prelude::*;

verus! {

/// A 6-byte hardware address.
pub type MAC = [u8; 6];

/// A 4-byte IPv4 protocol address.
pub type IPv4 = [u8; 4];

/// Compares two hardware addresses by value.
pub fn mac_eq(a: &MAC, b: &MAC) -> (r: bool)
    ensures
        r <==> a@ == b@,
{
    let r = a[0] == b[0] && a[1] == b[1] && a[2] == b[2] && a[3] == b[3] && a[4] == b[4] && a[5]
        == b[5];
    proof {
        if r {
            assert(a@ =~= b@);
        }
    }
    r
}

/// Compares two protocol addresses by value.
pub fn ipv4_eq(a: &IPv4, b: &IPv4) -> (r: bool)
    ensures
        r <==> a@ == b@,
{
    let r = a[0] == b[0] && a[1] == b[1] && a[2] == b[2] && a[3] == b[3];
    proof {
        if r {
            assert(a@ =~= b@);
        }
    }
    r
}

/// The digit character of a value below 16.
pub open spec fn hex_digit(v: u8) -> char {
    if v == 0 {
        '0'
    } else if v == 1 {
        '1'
    } else if v == 2 {
        '2'
    } else if v == 3 {
        '3'
    } else if v == 4 {
        '4'
    } else if v == 5 {
        '5'
    } else if v == 6 {
        '6'
    } else if v == 7 {
        '7'
    } else if v == 8 {
        '8'
    } else if v == 9 {
        '9'
    } else if v == 10 {
        'a'
    } else if v == 11 {
        'b'
    } else if v == 12 {
        'c'
    } else if v == 13 {
        'd'
    } else if v == 14 {
        'e'
    } else {
        'f'
    }
}

/// The value of a hexadecimal digit character, lower case.
pub open spec fn hex_val(c: char) -> Option<u8> {
    if c == '0' {
        Some(0u8)
    } else if c == '1' {
        Some(1u8)
    } else if c == '2' {
        Some(2u8)
    } else if c == '3' {
        Some(3u8)
    } else if c == '4' {
        Some(4u8)
    } else if c == '5' {
        Some(5u8)
    } else if c == '6' {
        Some(6u8)
    } else if c == '7' {
        Some(7u8)
    } else if c == '8' {
        Some(8u8)
    } else if c == '9' {
        Some(9u8)
    } else if c == 'a' {
        Some(10u8)
    } else if c == 'b' {
        Some(11u8)
    } else if c == 'c' {
        Some(12u8)
    } else if c == 'd' {
        Some(13u8)
    } else if c == 'e' {
        Some(14u8)
    } else if c == 'f' {
        Some(15u8)
    } else {
        None
    }
}

/// The value of a decimal digit character.
pub open spec fn dec_val(c: char) -> Option<u8> {
    match hex_val(c) {
        Some(v) => if v < 10 {
            Some(v)
        } else {
            None
        },
        None => None,
    }
}

/// The hexadecimal digits of one octet: one digit below 16, two above, no
/// zero padding.
pub open spec fn hex_octet_chars(v: u8) -> Seq<char> {
    if v < 16 {
        seq![hex_digit(v)]
    } else {
        seq![hex_digit(v / 16), hex_digit(v % 16)]
    }
}

/// The decimal digits of one octet, without leading zeros.
pub open spec fn dec_octet_chars(v: u8) -> Seq<char> {
    if v < 10 {
        seq![hex_digit(v)]
    } else if v < 100 {
        seq![hex_digit(v / 10), hex_digit(v % 10)]
    } else {
        seq![hex_digit(v / 100), hex_digit((v % 100) / 10), hex_digit(v % 10)]
    }
}

/// The canonical form of a run of octets printed hexadecimal and
/// colon-separated.
pub open spec fn mac_chars(m: Seq<u8>) -> Seq<char>
    decreases m.len(),
{
    if m.len() == 0 {
        Seq::empty()
    } else if m.len() == 1 {
        hex_octet_chars(m[0])
    } else {
        hex_octet_chars(m[0]) + seq![':'] + mac_chars(m.drop_first())
    }
}

/// The canonical form of a run of octets printed decimal and
/// dot-separated.
pub open spec fn ipv4_chars(m: Seq<u8>) -> Seq<char>
    decreases m.len(),
{
    if m.len() == 0 {
        Seq::empty()
    } else if m.len() == 1 {
        dec_octet_chars(m[0])
    } else {
        dec_octet_chars(m[0]) + seq!['.'] + ipv4_chars(m.drop_first())
    }
}

/// The greedy hexadecimal-octet prefix of a string: at most two digits, and
/// how many characters they take.
pub open spec fn hex_group_prefix(s: Seq<char>) -> Option<(u8, int)> {
    if s.len() >= 2 && hex_val(s[0]) is Some && hex_val(s[1]) is Some {
        Some((((16 * hex_val(s[0]).unwrap() + hex_val(s[1]).unwrap()) as u8), 2))
    } else if s.len() >= 1 && hex_val(s[0]) is Some {
        Some((hex_val(s[0]).unwrap(), 1))
    } else {
        None
    }
}

/// The greedy decimal-octet prefix of a string: at most three digits, valid
/// only when their value fits an octet.
pub open spec fn dec_group_prefix(s: Seq<char>) -> Option<(u8, int)> {
    if s.len() >= 3 && dec_val(s[0]) is Some && dec_val(s[1]) is Some && dec_val(s[2]) is Some {
        if 100 * dec_val(s[0]).unwrap() + 10 * dec_val(s[1]).unwrap() + dec_val(s[2]).unwrap()
            <= 255 {
            Some(
                (
                    ((100 * dec_val(s[0]).unwrap() + 10 * dec_val(s[1]).unwrap() + dec_val(
                        s[2],
                    ).unwrap()) as u8),
                    3,
                ),
            )
        } else {
            None
        }
    } else if s.len() >= 2 && dec_val(s[0]) is Some && dec_val(s[1]) is Some {
        Some((((10 * dec_val(s[0]).unwrap() + dec_val(s[1]).unwrap()) as u8), 2))
    } else if s.len() >= 1 && dec_val(s[0]) is Some {
        Some((dec_val(s[0]).unwrap(), 1))
    } else {
        None
    }
}

/// Parses `n` colon-separated hexadecimal octets spanning the whole string.
pub open spec fn parse_mac_groups(s: Seq<char>, n: nat) -> Option<Seq<u8>>
    decreases n,
{
    match hex_group_prefix(s) {
        None => None,
        Some((v, k)) => {
            let rest = s.subrange(k, s.len() as int);
            if n <= 1 {
                if rest.len() == 0 {
                    Some(seq![v])
                } else {
                    None
                }
            } else {
                if rest.len() >= 1 && rest[0] == ':' {
                    match parse_mac_groups(rest.subrange(1, rest.len() as int), (n - 1) as nat) {
                        Some(tail) => Some(seq![v] + tail),
                        None => None,
                    }
                } else {
                    None
                }
            }
        },
    }
}

/// Parses `n` dot-separated decimal octets spanning the whole string.
pub open spec fn parse_ipv4_groups(s: Seq<char>, n: nat) -> Option<Seq<u8>>
    decreases n,
{
    match dec_group_prefix(s) {
        None => None,
        Some((v, k)) => {
            let rest = s.subrange(k, s.len() as int);
            if n <= 1 {
                if rest.len() == 0 {
                    Some(seq![v])
                } else {
                    None
                }
            } else {
                if rest.len() >= 1 && rest[0] == '.' {
                    match parse_ipv4_groups(rest.subrange(1, rest.len() as int), (n - 1) as nat) {
                        Some(tail) => Some(seq![v] + tail),
                        None => None,
                    }
                } else {
                    None
                }
            }
        },
    }
}

/// A hardware address parsed from its canonical form.
pub open spec fn spec_parse_mac(s: Seq<char>) -> Option<Seq<u8>> {
    parse_mac_groups(s, 6)
}

/// A protocol address parsed from its canonical form.
pub open spec fn spec_parse_ipv4(s: Seq<char>) -> Option<Seq<u8>> {
    parse_ipv4_groups(s, 4)
}

/// Classifying a digit character of a value gives the value back.
proof fn lemma_hex_val_of_digit(v: u8)
    requires
        v < 16,
    ensures
        hex_val(hex_digit(v)) == Some(v),
{
}

/// The greedy hexadecimal prefix of a canonical octet followed by anything
/// that is no digit reads the octet back and consumes exactly its digits.
proof fn lemma_hex_group_round_trip(v: u8, rest: Seq<char>)
    requires
        rest.len() == 0 || hex_val(rest[0]) is None,
    ensures
        hex_group_prefix(hex_octet_chars(v) + rest) == Some(
            (v, hex_octet_chars(v).len() as int),
        ),
        (hex_octet_chars(v) + rest).subrange(
            hex_octet_chars(v).len() as int,
            (hex_octet_chars(v) + rest).len() as int,
        ) == rest,
{
    let s = hex_octet_chars(v) + rest;
    if v < 16 {
        lemma_hex_val_of_digit(v);
        assert(s[0] == hex_digit(v));
        if s.len() >= 2 {
            assert(s[1] == rest[0]);
        }
    } else {
        lemma_hex_val_of_digit(v / 16);
        lemma_hex_val_of_digit(v % 16);
        assert(s[0] == hex_digit(v / 16));
        assert(s[1] == hex_digit(v % 16));
        assert(16 * (v / 16) + (v % 16) == v);
    }
    assert(s.subrange(hex_octet_chars(v).len() as int, s.len() as int) =~= rest);
}

/// The greedy decimal prefix of a canonical octet followed by anything that
/// is no digit reads the octet back and consumes exactly its digits.
proof fn lemma_dec_group_round_trip(v: u8, rest: Seq<char>)
    requires
        rest.len() == 0 || dec_val(rest[0]) is None,
    ensures
        dec_group_prefix(dec_octet_chars(v) + rest) == Some(
            (v, dec_octet_chars(v).len() as int),
        ),
        (dec_octet_chars(v) + rest).subrange(
            dec_octet_chars(v).len() as int,
            (dec_octet_chars(v) + rest).len() as int,
        ) == rest,
{
    let s = dec_octet_chars(v) + rest;
    if v < 10 {
        lemma_hex_val_of_digit(v);
        assert(s[0] == hex_digit(v));
        if s.len() >= 2 {
            assert(s[1] == rest[0]);
        }
    } else if v < 100 {
        lemma_hex_val_of_digit(v / 10);
        lemma_hex_val_of_digit(v % 10);
        assert(s[0] == hex_digit(v / 10));
        assert(s[1] == hex_digit(v % 10));
        if s.len() >= 3 {
            assert(s[2] == rest[0]);
        }
        assert(10 * (v / 10) + (v % 10) == v);
    } else {
        lemma_hex_val_of_digit(v / 100);
        lemma_hex_val_of_digit((v % 100) / 10);
        lemma_hex_val_of_digit(v % 10);
        assert(s[0] == hex_digit(v / 100));
        assert(s[1] == hex_digit((v % 100) / 10));
        assert(s[2] == hex_digit(v % 10));
        assert(100 * (v / 100) + 10 * ((v % 100) / 10) + (v % 10) == v);
    }
    assert(s.subrange(dec_octet_chars(v).len() as int, s.len() as int) =~= rest);
}

/// Parsing the canonical form of any non-empty run of octets yields the run
/// itself.
proof fn lemma_parse_mac_groups_round_trip(m: Seq<u8>)
    requires
        m.len() >= 1,
    ensures
        parse_mac_groups(mac_chars(m), m.len()) == Some(m),
    decreases m.len(),
{
    let s = mac_chars(m);
    if m.len() == 1 {
        lemma_hex_group_round_trip(m[0], Seq::empty());
        assert(hex_octet_chars(m[0]) + Seq::<char>::empty() =~= s);
        assert(seq![m[0]] =~= m);
    } else {
        let tail = m.drop_first();
        let rest = seq![':'] + mac_chars(tail);
        lemma_hex_group_round_trip(m[0], rest);
        assert(s =~= hex_octet_chars(m[0]) + rest);
        lemma_parse_mac_groups_round_trip(tail);
        assert(rest.subrange(1, rest.len() as int) =~= mac_chars(tail));
        assert(seq![m[0]] + tail =~= m);
    }
}

/// Parsing the canonical form of any non-empty run of octets yields the run
/// itself.
proof fn lemma_parse_ipv4_groups_round_trip(m: Seq<u8>)
    requires
        m.len() >= 1,
    ensures
        parse_ipv4_groups(ipv4_chars(m), m.len()) == Some(m),
    decreases m.len(),
{
    let s = ipv4_chars(m);
    if m.len() == 1 {
        lemma_dec_group_round_trip(m[0], Seq::empty());
        assert(dec_octet_chars(m[0]) + Seq::<char>::empty() =~= s);
        assert(seq![m[0]] =~= m);
    } else {
        let tail = m.drop_first();
        let rest = seq!['.'] + ipv4_chars(tail);
        lemma_dec_group_round_trip(m[0], rest);
        assert(s =~= dec_octet_chars(m[0]) + rest);
        lemma_parse_ipv4_groups_round_trip(tail);
        assert(rest.subrange(1, rest.len() as int) =~= ipv4_chars(tail));
        assert(seq![m[0]] + tail =~= m);
    }
}

/// Round trip: re-parsing the canonical string form of a hardware address
/// yields the original bytes.
pub proof fn lemma_mac_string_round_trip(m: Seq<u8>)
    requires
        m.len() == 6,
    ensures
        spec_parse_mac(mac_chars(m)) == Some(m),
{
    lemma_parse_mac_groups_round_trip(m);
}

/// Round trip: re-parsing the canonical string form of a protocol address
/// yields the original bytes.
pub proof fn lemma_ipv4_string_round_trip(m: Seq<u8>)
    requires
        m.len() == 4,
    ensures
        spec_parse_ipv4(ipv4_chars(m)) == Some(m),
{
    lemma_parse_ipv4_groups_round_trip(m);
}

/// The one-character string of a digit value below 16.
fn hex_str_of(v: u8) -> (r: &'static str)
    requires
        v < 16,
    ensures
        r@ == seq![hex_digit(v)],
{
    let r: &'static str = if v == 0 {
        "0"
    } else if v == 1 {
        "1"
    } else if v == 2 {
        "2"
    } else if v == 3 {
        "3"
    } else if v == 4 {
        "4"
    } else if v == 5 {
        "5"
    } else if v == 6 {
        "6"
    } else if v == 7 {
        "7"
    } else if v == 8 {
        "8"
    } else if v == 9 {
        "9"
    } else if v == 10 {
        "a"
    } else if v == 11 {
        "b"
    } else if v == 12 {
        "c"
    } else if v == 13 {
        "d"
    } else if v == 14 {
        "e"
    } else {
        "f"
    };
    proof {
        reveal_strlit("0");
        reveal_strlit("1");
        reveal_strlit("2");
        reveal_strlit("3");
        reveal_strlit("4");
        reveal_strlit("5");
        reveal_strlit("6");
        reveal_strlit("7");
        reveal_strlit("8");
        reveal_strlit("9");
        reveal_strlit("a");
        reveal_strlit("b");
        reveal_strlit("c");
        reveal_strlit("d");
        reveal_strlit("e");
        reveal_strlit("f");
        assert(r@ =~= seq![hex_digit(v)]);
    }
    r
}

/// Appends the hexadecimal digits of one octet.
fn push_hex_octet(s: &mut String, v: u8)
    ensures
        final(s)@ == old(s)@ + hex_octet_chars(v),
{
    if v < 16 {
        s.append(hex_str_of(v));
        assert(s@ =~= old(s)@ + hex_octet_chars(v));
    } else {
        s.append(hex_str_of(v / 16));
        s.append(hex_str_of(v % 16));
        assert(s@ =~= old(s)@ + hex_octet_chars(v));
    }
}

/// Appends the decimal digits of one octet.
fn push_dec_octet(s: &mut String, v: u8)
    ensures
        final(s)@ == old(s)@ + dec_octet_chars(v),
{
    if v < 10 {
        s.append(hex_str_of(v));
        assert(s@ =~= old(s)@ + dec_octet_chars(v));
    } else if v < 100 {
        s.append(hex_str_of(v / 10));
        s.append(hex_str_of(v % 10));
        assert(s@ =~= old(s)@ + dec_octet_chars(v));
    } else {
        s.append(hex_str_of(v / 100));
        s.append(hex_str_of((v % 100) / 10));
        s.append(hex_str_of(v % 10));
        assert(s@ =~= old(s)@ + dec_octet_chars(v));
    }
}

/// Prints a hardware address as six colon-separated hexadecimal octets.
#[verifier::rlimit(60)]
pub fn mac_to_string(mac: &MAC) -> (r: String)
    ensures
        r@ == mac_chars(mac@),
{
    let mut s = String::new();
    push_hex_octet(&mut s, mac[0]);
    s.append(":");
    push_hex_octet(&mut s, mac[1]);
    s.append(":");
    push_hex_octet(&mut s, mac[2]);
    s.append(":");
    push_hex_octet(&mut s, mac[3]);
    s.append(":");
    push_hex_octet(&mut s, mac[4]);
    s.append(":");
    push_hex_octet(&mut s, mac[5]);
    proof {
        reveal_strlit(":");
        let m = mac@;
        assert(m.subrange(5, 6).len() == 1);
        assert(mac_chars(m.subrange(5, 6)) == hex_octet_chars(m[5]));
        assert(m.subrange(4, 6).drop_first() =~= m.subrange(5, 6));
        assert(mac_chars(m.subrange(4, 6)) == hex_octet_chars(m[4]) + seq![':'] + mac_chars(
            m.subrange(5, 6),
        ));
        assert(m.subrange(3, 6).drop_first() =~= m.subrange(4, 6));
        assert(mac_chars(m.subrange(3, 6)) == hex_octet_chars(m[3]) + seq![':'] + mac_chars(
            m.subrange(4, 6),
        ));
        assert(m.subrange(2, 6).drop_first() =~= m.subrange(3, 6));
        assert(mac_chars(m.subrange(2, 6)) == hex_octet_chars(m[2]) + seq![':'] + mac_chars(
            m.subrange(3, 6),
        ));
        assert(m.subrange(1, 6).drop_first() =~= m.subrange(2, 6));
        assert(mac_chars(m.subrange(1, 6)) == hex_octet_chars(m[1]) + seq![':'] + mac_chars(
            m.subrange(2, 6),
        ));
        assert(m.subrange(0, 6).drop_first() =~= m.subrange(1, 6));
        assert(mac_chars(m.subrange(0, 6)) == hex_octet_chars(m[0]) + seq![':'] + mac_chars(
            m.subrange(1, 6),
        ));
        assert(m.subrange(0, 6) =~= m);
        assert(s@ =~= mac_chars(m));
    }
    s
}

/// Prints a protocol address as four dot-separated decimal octets.
pub fn ipv4_to_string(ip: &IPv4) -> (r: String)
    ensures
        r@ == ipv4_chars(ip@),
{
    let mut s = String::new();
    push_dec_octet(&mut s, ip[0]);
    s.append(".");
    push_dec_octet(&mut s, ip[1]);
    s.append(".");
    push_dec_octet(&mut s, ip[2]);
    s.append(".");
    push_dec_octet(&mut s, ip[3]);
    proof {
        reveal_strlit(".");
        let m = ip@;
        assert(m.subrange(3, 4).len() == 1);
        assert(ipv4_chars(m.subrange(3, 4)) == dec_octet_chars(m[3]));
        assert(m.subrange(2, 4).drop_first() =~= m.subrange(3, 4));
        assert(ipv4_chars(m.subrange(2, 4)) == dec_octet_chars(m[2]) + seq!['.'] + ipv4_chars(
            m.subrange(3, 4),
        ));
        assert(m.subrange(1, 4).drop_first() =~= m.subrange(2, 4));
        assert(ipv4_chars(m.subrange(1, 4)) == dec_octet_chars(m[1]) + seq!['.'] + ipv4_chars(
            m.subrange(2, 4),
        ));
        assert(m.subrange(0, 4).drop_first() =~= m.subrange(1, 4));
        assert(ipv4_chars(m.subrange(0, 4)) == dec_octet_chars(m[0]) + seq!['.'] + ipv4_chars(
            m.subrange(1, 4),
        ));
        assert(m.subrange(0, 4) =~= m);
        assert(s@ =~= ipv4_chars(m));
    }
    s
}

/// The value of a hexadecimal digit character.
fn hex_val_of(c: char) -> (r: Option<u8>)
    ensures
        r == hex_val(c),
{
    match c {
        '0' => Some(0),
        '1' => Some(1),
        '2' => Some(2),
        '3' => Some(3),
        '4' => Some(4),
        '5' => Some(5),
        '6' => Some(6),
        '7' => Some(7),
        '8' => Some(8),
        '9' => Some(9),
        'a' => Some(10),
        'b' => Some(11),
        'c' => Some(12),
        'd' => Some(13),
        'e' => Some(14),
        'f' => Some(15),
        _ => None,
    }
}

/// The value of a decimal digit character.
fn dec_val_of(c: char) -> (r: Option<u8>)
    ensures
        r == dec_val(c),
{
    match c {
        '0' => Some(0),
        '1' => Some(1),
        '2' => Some(2),
        '3' => Some(3),
        '4' => Some(4),
        '5' => Some(5),
        '6' => Some(6),
        '7' => Some(7),
        '8' => Some(8),
        '9' => Some(9),
        _ => None,
    }
}

/// Parses `n` colon-separated hexadecimal octets from position `pos` to the
/// end of the string.
fn parse_mac_groups_at(s: &str, pos: usize, n: u8) -> (r: Option<Vec<u8>>)
    requires
        1 <= n,
        pos <= s@.len(),
    ensures
        r matches Some(v) ==> v@.len() == n && parse_mac_groups(
            s@.subrange(pos as int, s@.len() as int),
            n as nat,
        ) == Some(v@),
        r is None ==> parse_mac_groups(s@.subrange(pos as int, s@.len() as int), n as nat)
            is None,
    decreases n,
{
    let ghost sub = s@.subrange(pos as int, s@.len() as int);
    let len = s.unicode_len();
    if pos >= len {
        return None;
    }
    let v0 = match hex_val_of(s.get_char(pos)) {
        Some(v0) => v0,
        None => {
            return None;
        },
    };
    let mut value: u8 = v0;
    let mut consumed: usize = 1;
    if pos + 1 < len {
        match hex_val_of(s.get_char(pos + 1)) {
            Some(v1) => {
                proof {
                    assert(hex_val(sub[0]) == Some(v0));
                    assert(hex_val(sub[1]) == Some(v1));
                }
                value = 16 * v0 + v1;
                consumed = 2;
            },
            None => {},
        }
    }
    proof {
        assert(hex_group_prefix(sub) == Some((value, consumed as int)));
    }
    let rest_pos = pos + consumed;
    let ghost rest = sub.subrange(consumed as int, sub.len() as int);
    proof {
        assert(rest =~= s@.subrange(rest_pos as int, s@.len() as int));
    }
    if n == 1 {
        if rest_pos == len {
            let mut out: Vec<u8> = Vec::new();
            out.push(value);
            proof {
                assert(out@ =~= seq![value]);
            }
            Some(out)
        } else {
            None
        }
    } else {
        if rest_pos < len && s.get_char(rest_pos) == ':' {
            match parse_mac_groups_at(s, rest_pos + 1, n - 1) {
                Some(mut tail) => {
                    let ghost tail0 = tail@;
                    tail.insert(0, value);
                    proof {
                        assert(rest.subrange(1, rest.len() as int) =~= s@.subrange(
                            rest_pos + 1,
                            s@.len() as int,
                        ));
                        assert(tail@ =~= seq![value] + tail0);
                    }
                    Some(tail)
                },
                None => {
                    proof {
                        assert(rest.subrange(1, rest.len() as int) =~= s@.subrange(
                            rest_pos + 1,
                            s@.len() as int,
                        ));
                    }
                    None
                },
            }
        } else {
            None
        }
    }
}

/// Parses `n` dot-separated decimal octets from position `pos` to the end
/// of the string.
fn parse_ipv4_groups_at(s: &str, pos: usize, n: u8) -> (r: Option<Vec<u8>>)
    requires
        1 <= n,
        pos <= s@.len(),
    ensures
        r matches Some(v) ==> v@.len() == n && parse_ipv4_groups(
            s@.subrange(pos as int, s@.len() as int),
            n as nat,
        ) == Some(v@),
        r is None ==> parse_ipv4_groups(s@.subrange(pos as int, s@.len() as int), n as nat)
            is None,
    decreases n,
{
    let ghost sub = s@.subrange(pos as int, s@.len() as int);
    let len = s.unicode_len();
    if pos >= len {
        return None;
    }
    let v0 = match dec_val_of(s.get_char(pos)) {
        Some(v0) => v0,
        None => {
            return None;
        },
    };
    let mut value: u8 = v0;
    let mut consumed: usize = 1;
    if pos + 1 < len {
        match dec_val_of(s.get_char(pos + 1)) {
            Some(v1) => {
                if pos + 2 < len {
                    match dec_val_of(s.get_char(pos + 2)) {
                        Some(v2) => {
                            let wide: u16 = 100 * (v0 as u16) + 10 * (v1 as u16) + (v2 as u16);
                            if wide > 255 {
                                proof {
                                    assert(dec_val(sub[0]) == Some(v0));
                                    assert(dec_val(sub[1]) == Some(v1));
                                    assert(dec_val(sub[2]) == Some(v2));
                                    assert(dec_group_prefix(sub) is None);
                                }
                                return None;
                            }
                            value = wide as u8;
                            consumed = 3;
                        },
                        None => {
                            value = 10 * v0 + v1;
                            consumed = 2;
                        },
                    }
                } else {
                    value = 10 * v0 + v1;
                    consumed = 2;
                }
            },
            None => {},
        }
    }
    proof {
        assert(dec_group_prefix(sub) == Some((value, consumed as int)));
    }
    let rest_pos = pos + consumed;
    let ghost rest = sub.subrange(consumed as int, sub.len() as int);
    proof {
        assert(rest =~= s@.subrange(rest_pos as int, s@.len() as int));
    }
    if n == 1 {
        if rest_pos == len {
            let mut out: Vec<u8> = Vec::new();
            out.push(value);
            proof {
                assert(out@ =~= seq![value]);
            }
            Some(out)
        } else {
            None
        }
    } else {
        if rest_pos < len && s.get_char(rest_pos) == '.' {
            match parse_ipv4_groups_at(s, rest_pos + 1, n - 1) {
                Some(mut tail) => {
                    let ghost tail0 = tail@;
                    tail.insert(0, value);
                    proof {
                        assert(rest.subrange(1, rest.len() as int) =~= s@.subrange(
                            rest_pos + 1,
                            s@.len() as int,
                        ));
                        assert(tail@ =~= seq![value] + tail0);
                    }
                    Some(tail)
                },
                None => {
                    proof {
                        assert(rest.subrange(1, rest.len() as int) =~= s@.subrange(
                            rest_pos + 1,
                            s@.len() as int,
                        ));
                    }
                    None
                },
            }
        } else {
            None
        }
    }
}

/// Parses a hardware address from its colon-separated hexadecimal form.
pub fn mac_from_string(s: &str) -> (r: Option<MAC>)
    ensures
        r matches Some(m) ==> spec_parse_mac(s@) == Some(m@),
        r is None ==> spec_parse_mac(s@) is None,
{
    proof {
        assert(s@.subrange(0, s@.len() as int) =~= s@);
    }
    match parse_mac_groups_at(s, 0, 6) {
        Some(v) => {
            let m: MAC = [v[0], v[1], v[2], v[3], v[4], v[5]];
            proof {
                assert(m@ =~= v@);
            }
            Some(m)
        },
        None => None,
    }
}

/// Parses a protocol address from its dot-separated decimal form.
pub fn ipv4_from_string(s: &str) -> (r: Option<IPv4>)
    ensures
        r matches Some(m) ==> spec_parse_ipv4(s@) == Some(m@),
        r is None ==> spec_parse_ipv4(s@) is None,
{
    proof {
        assert(s@.subrange(0, s@.len() as int) =~= s@);
    }
    match parse_ipv4_groups_at(s, 0, 4) {
        Some(v) => {
            let m: IPv4 = [v[0], v[1], v[2], v[3]];
            proof {
                assert(m@ =~= v@);
            }
            Some(m)
        },
        None => None,
    }
}

} // verus!
