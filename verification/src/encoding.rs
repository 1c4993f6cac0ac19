//! Percent-encoding of announcement payloads and decimal formatting of
//! port numbers, with a verified decoder and a round-trip law.
use vstd::prelude::*;

verus! {

/// Every character is ASCII.
pub open spec fn ascii_seq(s: Seq<char>) -> bool
    decreases s.len(),
{
    s.len() == 0 || ((s[0] as u32) < 128 && ascii_seq(s.skip(1)))
}

/// Characters kept verbatim by percent-encoding: ASCII alphanumerics and
/// '-', '_', '.', '~'.
pub open spec fn is_unreserved(c: char) -> bool {
    ('a' <= c && c <= 'z') || ('A' <= c && c <= 'Z') || ('0' <= c && c <= '9') || c == '-' || c
        == '_' || c == '.' || c == '~'
}

/// Uppercase hexadecimal digit for a value below sixteen.
pub open spec fn hex_char(v: int) -> char {
    if v == 0 {
        '0'
    } else if v == 1 {
        '1'
    } else if v == 2 {
        '2'
    } else if v == 3 {
        '3'
    } else if v == 4 {
        '4'
    } else if v == 5 {
        '5'
    } else if v == 6 {
        '6'
    } else if v == 7 {
        '7'
    } else if v == 8 {
        '8'
    } else if v == 9 {
        '9'
    } else if v == 10 {
        'A'
    } else if v == 11 {
        'B'
    } else if v == 12 {
        'C'
    } else if v == 13 {
        'D'
    } else if v == 14 {
        'E'
    } else {
        'F'
    }
}

/// Value of a hexadecimal digit, either case; -1 for any other character.
pub open spec fn hex_val(c: char) -> int {
    if c == '0' {
        0
    } else if c == '1' {
        1
    } else if c == '2' {
        2
    } else if c == '3' {
        3
    } else if c == '4' {
        4
    } else if c == '5' {
        5
    } else if c == '6' {
        6
    } else if c == '7' {
        7
    } else if c == '8' {
        8
    } else if c == '9' {
        9
    } else if c == 'A' || c == 'a' {
        10
    } else if c == 'B' || c == 'b' {
        11
    } else if c == 'C' || c == 'c' {
        12
    } else if c == 'D' || c == 'd' {
        13
    } else if c == 'E' || c == 'e' {
        14
    } else if c == 'F' || c == 'f' {
        15
    } else {
        -1
    }
}

/// Whether `c` is a hexadecimal digit.
pub open spec fn is_hex_digit(c: char) -> bool {
    hex_val(c) >= 0
}

/// How one character is percent-encoded: kept verbatim when unreserved,
/// else '%' and two uppercase hexadecimal digits.
pub open spec fn encode_char(c: char) -> Seq<char> {
    if is_unreserved(c) {
        seq![c]
    } else {
        seq!['%', hex_char((c as u32) as int / 16), hex_char((c as u32) as int % 16)]
    }
}

/// Percent-encoding of an ASCII character sequence.
pub open spec fn percent_encode(s: Seq<char>) -> Seq<char>
    decreases s.len(),
{
    if s.len() == 0 {
        Seq::empty()
    } else {
        encode_char(s[0]) + percent_encode(s.skip(1))
    }
}

/// Percent-decoding: each '%' must be followed by two hexadecimal digits,
/// which yield one character; every other character stands for itself.
pub open spec fn percent_decode_spec(s: Seq<char>) -> Option<Seq<char>>
    decreases s.len(),
{
    if s.len() == 0 {
        Some(Seq::empty())
    } else if s[0] == '%' {
        if s.len() >= 3 && is_hex_digit(s[1]) && is_hex_digit(s[2]) {
            match percent_decode_spec(s.skip(3)) {
                Some(rest) => Some(
                    seq![(((hex_val(s[1]) * 16 + hex_val(s[2])) as u32) as char)] + rest,
                ),
                None => None,
            }
        } else {
            None
        }
    } else {
        match percent_decode_spec(s.skip(1)) {
            Some(rest) => Some(seq![s[0]] + rest),
            None => None,
        }
    }
}

/// Relies on urlencoding::encode: it percent-encodes every byte of the
/// UTF-8 text except ASCII alphanumerics and '-', '_', '.', '~', writing
/// '%' and two uppercase hexadecimal digits; on ASCII input the bytes are
/// the characters.
#[verifier::external_body]
pub(crate) fn encode_component(s: &str) -> (r: String)
    requires
        ascii_seq(s@),
    ensures
        r@ == percent_encode(s@),
{
    urlencoding::encode(s).into_owned()
}

/// Relies on String::push: it appends exactly the one character.
#[verifier::external_body]
pub(crate) fn push_char(s: &mut String, c: char)
    ensures
        final(s)@ == old(s)@.push(c),
{
    s.push(c);
}

/// Decimal digit for a value below ten.
pub open spec fn dec_digit_char(v: int) -> char {
    if v == 0 {
        '0'
    } else if v == 1 {
        '1'
    } else if v == 2 {
        '2'
    } else if v == 3 {
        '3'
    } else if v == 4 {
        '4'
    } else if v == 5 {
        '5'
    } else if v == 6 {
        '6'
    } else if v == 7 {
        '7'
    } else if v == 8 {
        '8'
    } else {
        '9'
    }
}

/// Decimal representation of a number, most significant digit first, with
/// no leading zero except for zero itself.
pub open spec fn dec_rep(n: nat) -> Seq<char>
    decreases n,
{
    if n < 10 {
        seq![dec_digit_char(n as int)]
    } else {
        dec_rep(n / 10) + seq![dec_digit_char((n % 10) as int)]
    }
}

/// A sequence whose characters are all below 128 is an ASCII sequence.
pub proof fn lemma_ascii_from_forall(s: Seq<char>)
    requires
        forall|i: int| 0 <= i < s.len() ==> (s[i] as u32) < 128,
    ensures
        ascii_seq(s),
    decreases s.len(),
{
    if s.len() > 0 {
        assert(forall|i: int| 0 <= i < s.skip(1).len() ==> s.skip(1)[i] == s[i + 1]);
        lemma_ascii_from_forall(s.skip(1));
    }
}

/// A single ASCII character is an ASCII sequence.
pub proof fn lemma_ascii_singleton(c: char)
    requires
        (c as u32) < 128,
    ensures
        ascii_seq(seq![c]),
{
    reveal_with_fuel(ascii_seq, 2);
    assert(seq![c][0] == c);
    assert(seq![c].skip(1) =~= Seq::<char>::empty());
}

/// Every digit of a decimal representation is ASCII.
pub proof fn lemma_dec_rep_ascii(n: nat)
    ensures
        ascii_seq(dec_rep(n)),
    decreases n,
{
    if n < 10 {
        lemma_ascii_singleton(dec_digit_char(n as int));
    } else {
        lemma_dec_rep_ascii(n / 10);
        lemma_ascii_singleton(dec_digit_char((n % 10) as int));
        lemma_ascii_concat(dec_rep(n / 10), seq![dec_digit_char((n % 10) as int)]);
    }
}

/// ASCII sequences stay ASCII under concatenation.
pub proof fn lemma_ascii_concat(a: Seq<char>, b: Seq<char>)
    requires
        ascii_seq(a),
        ascii_seq(b),
    ensures
        ascii_seq(a + b),
    decreases a.len(),
{
    if a.len() == 0 {
        assert(a + b =~= b);
    } else {
        lemma_ascii_concat(a.skip(1), b);
        assert((a + b).skip(1) =~= a.skip(1) + b);
        assert((a + b)[0] == a[0]);
    }
}

fn dec_digit(d: u16) -> (c: char)
    requires
        d < 10,
    ensures
        c == dec_digit_char(d as int),
{
    match d {
        0 => '0',
        1 => '1',
        2 => '2',
        3 => '3',
        4 => '4',
        5 => '5',
        6 => '6',
        7 => '7',
        8 => '8',
        _ => '9',
    }
}

/// Append the decimal representation of `n` to `s`.
pub fn push_dec(s: &mut String, n: u16)
    ensures
        final(s)@ == old(s)@ + dec_rep(n as nat),
    decreases n,
{
    if n >= 10 {
        push_dec(s, n / 10);
        push_char(s, dec_digit(n % 10));
        proof {
            assert(s@ =~= old(s)@ + dec_rep(n as nat));
        }
    } else {
        push_char(s, dec_digit(n));
        proof {
            assert(s@ =~= old(s)@ + dec_rep(n as nat));
        }
    }
}

fn hex_digit_value(c: char) -> (r: Option<u8>)
    ensures
        match r {
            Some(v) => hex_val(c) == v as int && v < 16,
            None => hex_val(c) == -1,
        },
{
    match c {
        '0' => Some(0),
        '1' => Some(1),
        '2' => Some(2),
        '3' => Some(3),
        '4' => Some(4),
        '5' => Some(5),
        '6' => Some(6),
        '7' => Some(7),
        '8' => Some(8),
        '9' => Some(9),
        'A' | 'a' => Some(10),
        'B' | 'b' => Some(11),
        'C' | 'c' => Some(12),
        'D' | 'd' => Some(13),
        'E' | 'e' => Some(14),
        'F' | 'f' => Some(15),
        _ => None,
    }
}

fn decode_from(s: &str, i: usize) -> (r: Option<String>)
    requires
        i <= s@.len(),
    ensures
        (match r {
            Some(t) => percent_decode_spec(s@.skip(i as int)) == Some(t@),
            None => percent_decode_spec(s@.skip(i as int)) is None,
        }),
    decreases s@.len() - i,
{
    let n = s.unicode_len();
    if i == n {
        proof {
            assert(s@.skip(i as int) =~= Seq::<char>::empty());
        }
        Some(String::new())
    } else {
        let ghost rem = s@.skip(i as int);
        proof {
            assert(rem[0] == s@[i as int]);
            assert(rem.len() == s@.len() - i);
        }
        let c = s.get_char(i);
        if c == '%' {
            if n - i >= 3 {
                proof {
                    assert(rem[1] == s@[i as int + 1]);
                    assert(rem[2] == s@[i as int + 2]);
                }
                let hi = hex_digit_value(s.get_char(i + 1));
                let lo = hex_digit_value(s.get_char(i + 2));
                match (hi, lo) {
                    (Some(h), Some(l)) => {
                        let byte: u8 = h * 16 + l;
                        match decode_from(s, i + 3) {
                            Some(rest) => {
                                let mut out = String::new();
                                push_char(&mut out, byte as char);
                                out.append(rest.as_str());
                                proof {
                                    assert(s@.skip(i as int + 3) =~= rem.skip(3));
                                    assert(out@ =~= seq![(((hex_val(rem[1]) * 16 + hex_val(
                                        rem[2],
                                    )) as u32) as char)] + rest@);
                                }
                                Some(out)
                            },
                            None => {
                                proof {
                                    assert(s@.skip(i as int + 3) =~= rem.skip(3));
                                }
                                None
                            },
                        }
                    },
                    _ => None,
                }
            } else {
                None
            }
        } else {
            match decode_from(s, i + 1) {
                Some(rest) => {
                    let mut out = String::new();
                    push_char(&mut out, c);
                    out.append(rest.as_str());
                    proof {
                        assert(s@.skip(i as int + 1) =~= rem.skip(1));
                        assert(out@ =~= seq![rem[0]] + rest@);
                    }
                    Some(out)
                },
                None => {
                    proof {
                        assert(s@.skip(i as int + 1) =~= rem.skip(1));
                    }
                    None
                },
            }
        }
    }
}

/// Percent-decode `s`: `None` exactly when some '%' is not followed by two
/// hexadecimal digits.
pub fn percent_decode(s: &str) -> (r: Option<String>)
    ensures
        (match r {
            Some(t) => percent_decode_spec(s@) == Some(t@),
            None => percent_decode_spec(s@) is None,
        }),
{
    let r = decode_from(s, 0);
    proof {
        assert(s@.skip(0) =~= s@);
    }
    r
}

/// The value written by two hexadecimal digits is read back unchanged.
proof fn lemma_hex_char_val(d: int)
    requires
        0 <= d < 16,
    ensures
        hex_val(hex_char(d)) == d,
{
}

/// Round trip: decoding the percent-encoding of an ASCII character
/// sequence gives that sequence back.
pub proof fn lemma_percent_round_trip(s: Seq<char>)
    requires
        ascii_seq(s),
    ensures
        percent_decode_spec(percent_encode(s)) == Some(s),
    decreases s.len(),
{
    if s.len() == 0 {
        assert(percent_encode(s) =~= Seq::<char>::empty());
        assert(s =~= Seq::<char>::empty());
    } else {
        let c = s[0];
        let rest = s.skip(1);
        lemma_percent_round_trip(rest);
        let e = percent_encode(s);
        if is_unreserved(c) {
            assert(e =~= seq![c] + percent_encode(rest));
            assert(e[0] == c);
            assert(c != '%');
            assert(e.skip(1) =~= percent_encode(rest));
            assert(seq![c] + rest =~= s);
        } else {
            let v = (c as u32) as int;
            assert(v < 128);
            lemma_hex_char_val(v / 16);
            lemma_hex_char_val(v % 16);
            assert(e =~= seq!['%', hex_char(v / 16), hex_char(v % 16)] + percent_encode(rest));
            assert(e[0] == '%' && e[1] == hex_char(v / 16) && e[2] == hex_char(v % 16));
            assert(e.len() >= 3);
            assert(e.skip(3) =~= percent_encode(rest));
            assert(hex_val(e[1]) * 16 + hex_val(e[2]) == v);
            vstd::utf8::char_u32_cast(c, c as u32);
            assert((((hex_val(e[1]) * 16 + hex_val(e[2])) as u32) as char) == c);
            assert(seq![c] + rest =~= s);
        }
    }
}

} // verus!
