use base64::Engine;
use vstd::prelude::*;

verus! {

/// The character of the standard base64 alphabet for a 6-bit value.
pub open spec fn base64_digit(v: int) -> char {
    if v < 26 {
        ('A' as int + v) as char
    } else if v < 52 {
        ('a' as int + (v - 26)) as char
    } else if v < 62 {
        ('0' as int + (v - 52)) as char
    } else if v == 62 {
        '+'
    } else {
        '/'
    }
}

/// Standard base64 (RFC 4648, with `=` padding) of a byte sequence.
pub open spec fn base64_encode(b: Seq<u8>) -> Seq<char>
    decreases b.len(),
{
    if b.len() == 0 {
        seq![]
    } else if b.len() == 1 {
        seq![base64_digit((b[0] as int) / 4), base64_digit(((b[0] as int) % 4) * 16), '=', '=']
    } else if b.len() == 2 {
        seq![
            base64_digit((b[0] as int) / 4),
            base64_digit(((b[0] as int) % 4) * 16 + (b[1] as int) / 16),
            base64_digit(((b[1] as int) % 16) * 4),
            '=',
        ]
    } else {
        seq![
            base64_digit((b[0] as int) / 4),
            base64_digit(((b[0] as int) % 4) * 16 + (b[1] as int) / 16),
            base64_digit(((b[1] as int) % 16) * 4 + (b[2] as int) / 64),
            base64_digit((b[2] as int) % 64),
        ] + base64_encode(b.skip(3))
    }
}

/// base64: `general_purpose::STANDARD.encode`, the standard alphabet with
/// padding, as the crate documents.
#[verifier::external_body]
pub(crate) fn base64_standard_encode(bytes: &[u8]) -> (r: String)
    ensures
        r@ == base64_encode(bytes@),
{
    base64::engine::general_purpose::STANDARD.encode(bytes)
}

/// A character of the padded standard base64 alphabet, `=` included.
pub open spec fn is_base64_char(c: char) -> bool {
    ||| ('A' <= c && c <= 'Z')
    ||| ('a' <= c && c <= 'z')
    ||| ('0' <= c && c <= '9')
    ||| c == '+'
    ||| c == '/'
    ||| c == '='
}

/// The 6-bit value a base64 alphabet character stands for.
pub open spec fn base64_value(c: char) -> int {
    if 'A' <= c && c <= 'Z' {
        c as int - 'A' as int
    } else if 'a' <= c && c <= 'z' {
        c as int - 'a' as int + 26
    } else if '0' <= c && c <= '9' {
        c as int - '0' as int + 52
    } else if c == '+' {
        62
    } else {
        63
    }
}

/// Every 6-bit value has an alphabet character of its own, which is no
/// padding.
pub proof fn lemma_base64_digit(v: int)
    requires
        0 <= v < 64,
    ensures
        base64_value(base64_digit(v)) == v,
        is_base64_char(base64_digit(v)),
        base64_digit(v) != '=',
{
}

/// Standard base64 gives four characters for every started group of three
/// bytes.
pub proof fn lemma_base64_encode_len(b: Seq<u8>)
    ensures
        base64_encode(b).len() == 4 * ((b.len() + 2) / 3),
    decreases b.len(),
{
    if b.len() >= 3 {
        lemma_base64_encode_len(b.skip(3));
    }
}

/// Every character of a standard base64 text is of the padded alphabet.
pub proof fn lemma_base64_encode_chars(b: Seq<u8>)
    ensures
        forall|i: int|
            0 <= i < base64_encode(b).len() ==> is_base64_char(#[trigger] base64_encode(b)[i]),
    decreases b.len(),
{
    if b.len() >= 1 {
        lemma_base64_digit((b[0] as int) / 4);
    }
    if b.len() == 1 {
        lemma_base64_digit(((b[0] as int) % 4) * 16);
    } else if b.len() >= 2 {
        lemma_base64_digit(((b[0] as int) % 4) * 16 + (b[1] as int) / 16);
        if b.len() == 2 {
            lemma_base64_digit(((b[1] as int) % 16) * 4);
        } else {
            lemma_base64_digit(((b[1] as int) % 16) * 4 + (b[2] as int) / 64);
            lemma_base64_digit((b[2] as int) % 64);
            lemma_base64_encode_chars(b.skip(3));
            let head = seq![
                base64_digit((b[0] as int) / 4),
                base64_digit(((b[0] as int) % 4) * 16 + (b[1] as int) / 16),
                base64_digit(((b[1] as int) % 16) * 4 + (b[2] as int) / 64),
                base64_digit((b[2] as int) % 64),
            ];
            assert forall|i: int| 0 <= i < base64_encode(b).len() implies is_base64_char(
                #[trigger] base64_encode(b)[i],
            ) by {
                if i >= 4 {
                    assert(base64_encode(b)[i] == base64_encode(b.skip(3))[i - 4]);
                } else {
                    assert(base64_encode(b)[i] == head[i]);
                }
            }
        }
    }
}

/// Three bytes are fixed by the four 6-bit values base64 writes for them.
proof fn lemma_three_bytes_from_digits(x0: u8, x1: u8, x2: u8, y0: u8, y1: u8, y2: u8)
    requires
        x0 / 4 == y0 / 4,
        (x0 % 4) * 16 + x1 / 16 == (y0 % 4) * 16 + y1 / 16,
        (x1 % 16) * 4 + x2 / 64 == (y1 % 16) * 4 + y2 / 64,
        x2 % 64 == y2 % 64,
    ensures
        x0 == y0 && x1 == y1 && x2 == y2,
{
    assert(x0 == y0 && x1 == y1 && x2 == y2) by (bit_vector)
        requires
            x0 / 4 == y0 / 4,
            (x0 % 4) * 16 + x1 / 16 == (y0 % 4) * 16 + y1 / 16,
            (x1 % 16) * 4 + x2 / 64 == (y1 % 16) * 4 + y2 / 64,
            x2 % 64 == y2 % 64,
    ;
}

/// Different byte sequences have different standard base64 texts.
pub proof fn lemma_base64_encode_injective(a: Seq<u8>, b: Seq<u8>)
    requires
        base64_encode(a) == base64_encode(b),
    ensures
        a == b,
    decreases a.len(),
{
    let e = base64_encode(a);
    lemma_base64_encode_len(a);
    lemma_base64_encode_len(b);
    if a.len() == 0 || b.len() == 0 {
        assert(a =~= b);
    } else {
        let (a0, b0) = (a[0], b[0]);
        lemma_base64_digit((a0 as int) / 4);
        lemma_base64_digit((b0 as int) / 4);
        if a.len() == 1 && b.len() == 1 {
            lemma_base64_digit(((a0 as int) % 4) * 16);
            lemma_base64_digit(((b0 as int) % 4) * 16);
            assert(base64_value(e[0]) == (a0 as int) / 4 && base64_value(e[0]) == (b0 as int)
                / 4);
            assert(base64_value(e[1]) == ((a0 as int) % 4) * 16 && base64_value(e[1]) == ((
            b0 as int) % 4) * 16);
            assert(a0 == b0) by (nonlinear_arith)
                requires
                    (a0 as int) / 4 == (b0 as int) / 4,
                    (a0 as int) % 4 == (b0 as int) % 4,
            ;
            assert(a =~= b);
        } else if a.len() == 1 || b.len() == 1 {
            // one text ends in `==` at its third character, the other not
            if a.len() == 1 {
                lemma_base64_digit(((b0 as int) % 4) * 16 + (b[1] as int) / 16);
                if b.len() == 2 {
                    lemma_base64_digit(((b[1] as int) % 16) * 4);
                } else {
                    lemma_base64_digit(((b[1] as int) % 16) * 4 + (b[2] as int) / 64);
                }
            } else {
                lemma_base64_digit(((a0 as int) % 4) * 16 + (a[1] as int) / 16);
                if a.len() == 2 {
                    lemma_base64_digit(((a[1] as int) % 16) * 4);
                } else {
                    lemma_base64_digit(((a[1] as int) % 16) * 4 + (a[2] as int) / 64);
                }
            }
            assert(false);
        } else {
            let (a1, b1) = (a[1], b[1]);
            lemma_base64_digit(((a0 as int) % 4) * 16 + (a1 as int) / 16);
            lemma_base64_digit(((b0 as int) % 4) * 16 + (b1 as int) / 16);
            if a.len() == 2 && b.len() == 2 {
                lemma_base64_digit(((a1 as int) % 16) * 4);
                lemma_base64_digit(((b1 as int) % 16) * 4);
                assert(base64_value(e[2]) == ((a1 as int) % 16) * 4 && base64_value(e[2]) == ((
                b1 as int) % 16) * 4);
                lemma_three_bytes_from_digits(a0, a1, 0, b0, b1, 0);
                assert(a =~= b);
            } else if a.len() == 2 || b.len() == 2 {
                // one text ends in `=` at its fourth character, the other not
                if a.len() == 2 {
                    lemma_base64_digit((b[2] as int) % 64);
                } else {
                    lemma_base64_digit((a[2] as int) % 64);
                }
                assert(false);
            } else {
                let (a2, b2) = (a[2], b[2]);
                lemma_base64_digit(((a1 as int) % 16) * 4 + (a2 as int) / 64);
                lemma_base64_digit(((b1 as int) % 16) * 4 + (b2 as int) / 64);
                lemma_base64_digit((a2 as int) % 64);
                lemma_base64_digit((b2 as int) % 64);
                assert(base64_value(e[0]) == (a0 as int) / 4);
                assert(base64_value(e[0]) == (b0 as int) / 4);
                assert(base64_value(e[1]) == ((a0 as int) % 4) * 16 + (a1 as int) / 16);
                assert(base64_value(e[1]) == ((b0 as int) % 4) * 16 + (b1 as int) / 16);
                assert(base64_value(e[2]) == ((a1 as int) % 16) * 4 + (a2 as int) / 64);
                assert(base64_value(e[2]) == ((b1 as int) % 16) * 4 + (b2 as int) / 64);
                assert(base64_value(e[3]) == (a2 as int) % 64);
                assert(base64_value(e[3]) == (b2 as int) % 64);
                lemma_three_bytes_from_digits(a0, a1, a2, b0, b1, b2);
                assert(base64_encode(a.skip(3)) =~= e.skip(4));
                assert(base64_encode(b.skip(3)) =~= e.skip(4));
                lemma_base64_encode_injective(a.skip(3), b.skip(3));
                assert forall|i: int| 0 <= i < a.len() implies a[i] == b[i] by {
                    if i >= 3 {
                        assert(a[i] == a.skip(3)[i - 3]);
                        assert(b[i] == b.skip(3)[i - 3]);
                    }
                }
                assert(a =~= b);
            }
        }
    }
}

/// The bytes whose standard base64 text, written as UTF-8, is `text`; `None`
/// when no byte sequence has that text.
pub open spec fn base64_decoded(text: Seq<u8>) -> Option<Seq<u8>> {
    if exists|b: Seq<u8>| vstd::utf8::encode_utf8(#[trigger] base64_encode(b)) == text {
        Some(choose|b: Seq<u8>| vstd::utf8::encode_utf8(#[trigger] base64_encode(b)) == text)
    } else {
        None
    }
}

/// A text that is the base64 of `v` decodes to `v` and to nothing else.
pub proof fn lemma_base64_decoded(v: Seq<u8>, text: Seq<u8>)
    requires
        vstd::utf8::encode_utf8(base64_encode(v)) == text,
    ensures
        base64_decoded(text) == Some(v),
{
    let w = choose|b: Seq<u8>| vstd::utf8::encode_utf8(#[trigger] base64_encode(b)) == text;
    vstd::utf8::encode_utf8_decode_utf8(base64_encode(v));
    vstd::utf8::encode_utf8_decode_utf8(base64_encode(w));
    lemma_base64_encode_injective(w, v);
}

/// base64: `general_purpose::STANDARD.decode`. The engine requires canonical
/// padding and rejects trailing bits, so it accepts exactly the texts that
/// `base64_encode` gives (as UTF-8 bytes) and then returns the bytes encoded.
#[verifier::external_body]
pub(crate) fn base64_standard_decode(text: &[u8]) -> (r: Option<Vec<u8>>)
    ensures
        match r {
            Some(v) => vstd::utf8::encode_utf8(base64_encode(v@)) == text@,
            None => forall|b: Seq<u8>|
                vstd::utf8::encode_utf8(#[trigger] base64_encode(b)) != text@,
        },
{
    base64::engine::general_purpose::STANDARD.decode(text).ok()
}

/// The value of a hexadecimal digit, in either case.
pub open spec fn hex_value(c: u8) -> Option<int> {
    if '0' as u8 <= c && c <= '9' as u8 {
        Some(c - '0' as u8)
    } else if 'a' as u8 <= c && c <= 'f' as u8 {
        Some(c - 'a' as u8 + 10)
    } else if 'A' as u8 <= c && c <= 'F' as u8 {
        Some(c - 'A' as u8 + 10)
    } else {
        None
    }
}

/// The bytes a hexadecimal text stands for; `None` for an odd length or a
/// character that is no hexadecimal digit.
pub open spec fn hex_decoded(b: Seq<u8>) -> Option<Seq<u8>>
    decreases b.len(),
{
    if b.len() == 0 {
        Some(seq![])
    } else if b.len() == 1 {
        None
    } else {
        match (hex_value(b[0]), hex_value(b[1]), hex_decoded(b.skip(2))) {
            (Some(h), Some(l), Some(rest)) => Some(seq![(h * 16 + l) as u8] + rest),
            _ => None,
        }
    }
}

/// The lower-case hexadecimal digit for a value below 16.
pub open spec fn hex_digit_lower(v: int) -> char {
    if v < 10 {
        ('0' as int + v) as char
    } else {
        ('a' as int + (v - 10)) as char
    }
}

/// The lower-case hexadecimal text of a byte sequence, two digits a byte.
pub open spec fn hex_lower(b: Seq<u8>) -> Seq<char>
    decreases b.len(),
{
    if b.len() == 0 {
        seq![]
    } else {
        seq![hex_digit_lower((b[0] as int) / 16), hex_digit_lower((b[0] as int) % 16)]
            + hex_lower(b.skip(1))
    }
}

/// A character `0`..`9` or `a`..`f`.
pub open spec fn is_lower_hex_char(c: char) -> bool {
    ('0' <= c && c <= '9') || ('a' <= c && c <= 'f')
}

/// The lower-case hexadecimal text of `b` has two digits a byte and, written
/// as UTF-8, decodes back to `b`.
pub proof fn lemma_hex_lower(b: Seq<u8>)
    ensures
        hex_lower(b).len() == 2 * b.len(),
        forall|i: int| 0 <= i < hex_lower(b).len() ==> is_lower_hex_char(#[trigger] hex_lower(b)[i]),
        hex_decoded(vstd::utf8::encode_utf8(hex_lower(b))) == Some(b),
    decreases b.len(),
{
    let s = hex_lower(b);
    if b.len() == 0 {
        assert(vstd::utf8::encode_utf8(s) =~= Seq::<u8>::empty());
    } else {
        let t = hex_lower(b.skip(1));
        lemma_hex_lower(b.skip(1));
        let (h, l) = ((b[0] as int) / 16, (b[0] as int) % 16);
        assert forall|i: int| 0 <= i < s.len() implies is_lower_hex_char(#[trigger] s[i]) by {
            if i >= 2 {
                assert(s[i] == t[i - 2]);
            }
        }
        vstd::utf8::is_ascii_chars_encode_utf8(s);
        vstd::utf8::is_ascii_chars_encode_utf8(t);
        let bytes = vstd::utf8::encode_utf8(s);
        assert(bytes.skip(2) =~= vstd::utf8::encode_utf8(t)) by {
            assert forall|j: int| 0 <= j < t.len() implies bytes.skip(2)[j]
                == vstd::utf8::encode_utf8(t)[j] by {
                assert(s[j + 2] == t[j]);
            }
        }
        assert(hex_value(bytes[0]) == Some(h));
        assert(hex_value(bytes[1]) == Some(l));
        assert(seq![(h * 16 + l) as u8] + b.skip(1) =~= b);
    }
}

/// hex: `decode`, which reads pairs of hexadecimal digits of either case and
/// fails on an odd length or any other character, as its source shows.
#[verifier::external_body]
pub(crate) fn hex_decode(text: &[u8]) -> (r: Option<Vec<u8>>)
    ensures
        match r {
            Some(v) => hex_decoded(text@) == Some(v@),
            None => hex_decoded(text@) is None,
        },
{
    hex::decode(text).ok()
}

} // verus!
