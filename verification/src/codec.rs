//! Percent-encoding and -decoding of URL text.
//!
//! Decoding scans left to right: a `%` consumes the next two characters
//! (padding with `'0'` when the input runs out) and, when they form a
//! two-digit hexadecimal number, emits the character with that code point;
//! malformed escapes are kept verbatim.  Encoding passes ASCII alphanumerics
//! and `- _ . ~` through, maps a small fixed set to specific escapes, and
//! escapes every other character as `%` plus the two uppercase hexadecimal
//! digits of its low byte.
use vstd::prelude::*;

verus! {

/// `c` is an ASCII hexadecimal digit.
pub open spec fn is_hex_digit_char(c: char) -> bool {
    let n = c as u32;
    (48 <= n && n <= 57) || (97 <= n && n <= 102) || (65 <= n && n <= 70)
}

/// The numeric value of a hexadecimal digit character.
pub open spec fn hex_val(c: char) -> int {
    let n = c as u32;
    if 48 <= n && n <= 57 {
        n - 48
    } else if 97 <= n && n <= 102 {
        n - 87
    } else if 65 <= n && n <= 70 {
        n - 55
    } else {
        0
    }
}

/// The percent-decoding of `s`.
pub open spec fn decoded(s: Seq<char>) -> Seq<char>
    decreases s.len(),
{
    if s.len() == 0 {
        Seq::empty()
    } else if s[0] == '%' {
        let h1 = if s.len() > 1 {
            s[1]
        } else {
            '0'
        };
        let h2 = if s.len() > 2 {
            s[2]
        } else {
            '0'
        };
        let rest = if s.len() > 3 {
            decoded(s.skip(3))
        } else {
            Seq::<char>::empty()
        };
        if is_hex_digit_char(h1) && is_hex_digit_char(h2) {
            seq![(((16 * hex_val(h1) + hex_val(h2)) as u8) as char)] + rest
        } else {
            seq!['%', h1, h2] + rest
        }
    } else {
        seq![s[0]] + decoded(s.skip(1))
    }
}

/// `c` passes through percent-encoding unchanged: an ASCII alphanumeric
/// or one of `- _ . ~`.
pub open spec fn is_unreserved(c: char) -> bool {
    let n = c as u32;
    (48 <= n && n <= 57) || (65 <= n && n <= 90) || (97 <= n && n <= 122) || c == '-' || c == '_'
        || c == '.' || c == '~'
}

/// The character for a single uppercase hexadecimal digit.
pub open spec fn upper_hex_digit(d: int) -> char {
    if d < 10 {
        ((48 + d) as u8) as char
    } else {
        ((55 + d) as u8) as char
    }
}

/// The percent-encoding of the single character `c`.
pub open spec fn encoded_char(c: char) -> Seq<char> {
    if c == ' ' {
        seq!['%', '2', '0']
    } else if c == '"' {
        seq!['%', '2', '2']
    } else if c == '#' {
        seq!['%', '2', '3']
    } else if c == '%' {
        seq!['%', '2', '5']
    } else if c == '&' {
        seq!['%', '2', '6']
    } else if c == '+' {
        seq!['%', '2', 'B']
    } else if c == '?' {
        seq!['%', '3', 'F']
    } else if is_unreserved(c) {
        seq![c]
    } else {
        let b: int = ((c as u32) as int) % 256;
        seq!['%', upper_hex_digit(b / 16), upper_hex_digit(b % 16)]
    }
}

/// The percent-encoding of `s`.
pub open spec fn encoded(s: Seq<char>) -> Seq<char>
    decreases s.len(),
{
    if s.len() == 0 {
        Seq::empty()
    } else {
        encoded_char(s[0]) + encoded(s.skip(1))
    }
}

/// The value of `c` as a hexadecimal digit, or `None` when it is not one.
fn hex_digit_value(c: char) -> (r: Option<u8>)
    ensures
        r is Some <==> is_hex_digit_char(c),
        r matches Some(v) ==> v as int == hex_val(c) && v <= 15,
{
    let n = c as u32;
    if 48 <= n && n <= 57 {
        Some((n - 48) as u8)
    } else if 97 <= n && n <= 102 {
        Some((n - 87) as u8)
    } else if 65 <= n && n <= 70 {
        Some((n - 55) as u8)
    } else {
        None
    }
}

/// Percent-decodes `input`.
pub fn url_decode(input: &str) -> (r: String)
    ensures
        r@ == decoded(input@),
{
    let len = input.unicode_len();
    let mut out = String::new();
    let mut i: usize = 0;
    proof {
        assert(input@.skip(0) =~= input@);
        assert(out@ + decoded(input@) =~= decoded(input@));
    }
    while i < len
        invariant
            len == input@.len(),
            0 <= i <= len,
            decoded(input@) == out@ + decoded(input@.skip(i as int)),
        decreases len - i,
    {
        let ghost pending = input@.skip(i as int);
        let c = input.get_char(i);
        proof {
            assert(pending[0] == input@[i as int]);
        }
        if c == '%' {
            let h1 = if len - i > 1 {
                input.get_char(i + 1)
            } else {
                '0'
            };
            let h2 = if len - i > 2 {
                input.get_char(i + 2)
            } else {
                '0'
            };
            proof {
                if len - i > 1 {
                    assert(pending[1] == input@[i + 1]);
                }
                if len - i > 2 {
                    assert(pending[2] == input@[i + 2]);
                }
            }
            match (hex_digit_value(h1), hex_digit_value(h2)) {
                (Some(a), Some(b)) => {
                    let v: u8 = 16 * a + b;
                    out.push(v as char);
                },
                _ => {
                    out.push('%');
                    out.push(h1);
                    out.push(h2);
                },
            }
            proof {
                if len - i > 3 {
                    assert(pending.skip(3) =~= input@.skip(i + 3));
                } else {
                    assert(pending.len() <= 3);
                    assert(decoded(input@.skip(len as int)) =~= Seq::<char>::empty());
                }
                assert(decoded(input@) == out@ + decoded(
                    input@.skip(
                        if len - i >= 3 {
                            (i + 3) as int
                        } else {
                            len as int
                        },
                    ),
                ));
            }
            i = if len - i >= 3 {
                i + 3
            } else {
                len
            };
        } else {
            out.push(c);
            proof {
                assert(pending.skip(1) =~= input@.skip(i + 1));
            }
            i = i + 1;
        }
    }
    proof {
        assert(decoded(input@.skip(len as int)) =~= Seq::<char>::empty());
        assert(out@ =~= decoded(input@));
    }
    out
}

/// The uppercase hexadecimal digit character for `d`, which must be below 16.
fn upper_hex_digit_char(d: u8) -> (r: char)
    requires
        d < 16,
    ensures
        r == upper_hex_digit(d as int),
{
    if d < 10 {
        (48 + d) as char
    } else {
        (55 + d) as char
    }
}

/// Percent-encodes `input`.
pub fn url_encode(input: &str) -> (r: String)
    ensures
        r@ == encoded(input@),
{
    let len = input.unicode_len();
    let mut out = String::new();
    let mut i: usize = 0;
    proof {
        assert(input@.skip(0) =~= input@);
        assert(out@ + encoded(input@) =~= encoded(input@));
    }
    while i < len
        invariant
            len == input@.len(),
            0 <= i <= len,
            encoded(input@) == out@ + encoded(input@.skip(i as int)),
        decreases len - i,
    {
        let ghost pending = input@.skip(i as int);
        let c = input.get_char(i);
        proof {
            assert(pending[0] == input@[i as int]);
            assert(pending.skip(1) =~= input@.skip(i + 1));
        }
        if c == ' ' {
            push_escape(&mut out, '2', '0');
        } else if c == '"' {
            push_escape(&mut out, '2', '2');
        } else if c == '#' {
            push_escape(&mut out, '2', '3');
        } else if c == '%' {
            push_escape(&mut out, '2', '5');
        } else if c == '&' {
            push_escape(&mut out, '2', '6');
        } else if c == '+' {
            push_escape(&mut out, '2', 'B');
        } else if c == '?' {
            push_escape(&mut out, '3', 'F');
        } else {
            let n = c as u32;
            let unreserved = (48 <= n && n <= 57) || (65 <= n && n <= 90) || (97 <= n && n
                <= 122) || c == '-' || c == '_' || c == '.' || c == '~';
            if unreserved {
                out.push(c);
            } else {
                let b = (n % 256) as u8;
                let d1 = upper_hex_digit_char(b / 16);
                let d2 = upper_hex_digit_char(b % 16);
                push_escape(&mut out, d1, d2);
            }
        }
        i = i + 1;
    }
    proof {
        assert(encoded(input@.skip(len as int)) =~= Seq::<char>::empty());
        assert(out@ =~= encoded(input@));
    }
    out
}

/// Appends `%`, `d1`, `d2` onto `out`.
fn push_escape(out: &mut String, d1: char, d2: char)
    ensures
        final(out)@ == old(out)@ + seq!['%', d1, d2],
{
    out.push('%');
    out.push(d1);
    out.push(d2);
    proof {
        assert(out@ =~= old(out)@ + seq!['%', d1, d2]);
    }
}

} // verus!

verus! {

proof fn lemma_hex_digit_roundtrip(d: int)
    requires
        0 <= d < 16,
    ensures
        is_hex_digit_char(upper_hex_digit(d)),
        hex_val(upper_hex_digit(d)) == d,
        upper_hex_digit(d) != '%',
{
}

proof fn lemma_decode_unit(c: char, rest: Seq<char>)
    requires
        (c as u32) < 256,
    ensures
        decoded(encoded_char(c) + rest) == seq![c] + decoded(rest),
{
    let u = encoded_char(c);
    let s = u + rest;
    if c == ' ' || c == '"' || c == '#' || c == '%' || c == '&' || c == '+' || c == '?'
        || !is_unreserved(c) {
        let d1 = u[1];
        let d2 = u[2];
        assert(s[0] == '%');
        assert(s[1] == d1);
        assert(s[2] == d2);
        if !(c == ' ' || c == '"' || c == '#' || c == '%' || c == '&' || c == '+' || c == '?') {
            let b: int = ((c as u32) as int) % 256;
            assert(b == c as u32);
            lemma_hex_digit_roundtrip(b / 16);
            lemma_hex_digit_roundtrip(b % 16);
            assert(16 * (b / 16) + b % 16 == b);
        }
        assert(is_hex_digit_char(d1) && is_hex_digit_char(d2));
        assert(16 * hex_val(d1) + hex_val(d2) == c as u32);
        assert((((16 * hex_val(d1) + hex_val(d2)) as u8) as char) == c);
        if rest.len() > 0 {
            assert(s.skip(3) =~= rest);
        } else {
            assert(s.len() == 3);
            assert(decoded(rest) =~= Seq::<char>::empty());
        }
        assert(decoded(s) =~= seq![c] + decoded(rest));
    } else {
        assert(u =~= seq![c]);
        assert(s[0] == c);
        assert(c != '%');
        assert(s.skip(1) =~= rest);
        assert(decoded(s) =~= seq![c] + decoded(rest));
    }
}

/// Percent-decoding inverts percent-encoding: for text whose characters all
/// have code points below 256, decoding the encoding gives back the text.
pub proof fn lemma_decode_encode_roundtrip(s: Seq<char>)
    requires
        forall|i: int| 0 <= i < s.len() ==> ((#[trigger] s[i]) as u32) < 256,
    ensures
        decoded(encoded(s)) == s,
    decreases s.len(),
{
    if s.len() == 0 {
        assert(decoded(encoded(s)) =~= s);
    } else {
        let tail = s.skip(1);
        assert(forall|i: int| 0 <= i < tail.len() ==> ((#[trigger] tail[i]) as u32) < 256);
        lemma_decode_unit(s[0], encoded(tail));
        lemma_decode_encode_roundtrip(tail);
        assert(decoded(encoded(s)) =~= s);
    }
}

} // verus!
