//! Percent-encoding for URLs and query strings, byte-for-byte as the
//! authorization flow needs it, plus UTF-8 and base64 bridges.

use vstd::prelude::*;
use vstd::utf8::{valid_utf8, decode_utf8, encode_utf8};
use crate::json::string_of_chars;

verus! {

/// Bytes that pass through percent-encoding unchanged: ASCII alphanumerics
/// and `- _ . ~`.
pub open spec fn is_url_safe_byte(b: u8) -> bool {
    (48 <= b <= 57)  // 0-9
     || (65 <= b <= 90)  // A-Z
     || (97 <= b <= 122)  // a-z
     || b == 45 || b == 95 || b == 46 || b == 126  // - _ . ~
}

/// The upper-case character for one hex digit value.
pub open spec fn up_hex_char(d: int) -> char {
    if d < 10 {
        crate::json::digit_char(d)
    } else if d == 10 {
        'A'
    } else if d == 11 {
        'B'
    } else if d == 12 {
        'C'
    } else if d == 13 {
        'D'
    } else if d == 14 {
        'E'
    } else {
        'F'
    }
}

/// How one byte is written under percent-encoding.
pub open spec fn pct_byte(b: u8) -> Seq<char> {
    if is_url_safe_byte(b) {
        seq![b as char]
    } else {
        seq!['%', up_hex_char(b as int / 16), up_hex_char(b as int % 16)]
    }
}

/// The percent-encoding of a byte string.
pub open spec fn pct_encoded(bs: Seq<u8>) -> Seq<char>
    decreases bs.len(),
{
    if bs.len() == 0 {
        Seq::empty()
    } else {
        pct_byte(bs[0]) + pct_encoded(bs.drop_first())
    }
}

proof fn lemma_pct_encoded_push(a: Seq<u8>, b: u8)
    ensures
        pct_encoded(a.push(b)) == pct_encoded(a) + pct_byte(b),
    decreases a.len(),
{
    if a.len() == 0 {
        assert(a.push(b).drop_first() =~= a);
        assert(pct_encoded(a.push(b)) =~= pct_encoded(a) + pct_byte(b));
    } else {
        lemma_pct_encoded_push(a.drop_first(), b);
        assert(a.push(b).drop_first() =~= a.drop_first().push(b));
        assert(pct_encoded(a.push(b)) =~= pct_encoded(a) + pct_byte(b));
    }
}

fn up_hex_char_x(d: u8) -> (r: char)
    requires
        d < 16,
    ensures
        r == up_hex_char(d as int),
{
    if d == 0 {
        '0'
    } else if d == 1 {
        '1'
    } else if d == 2 {
        '2'
    } else if d == 3 {
        '3'
    } else if d == 4 {
        '4'
    } else if d == 5 {
        '5'
    } else if d == 6 {
        '6'
    } else if d == 7 {
        '7'
    } else if d == 8 {
        '8'
    } else if d == 9 {
        '9'
    } else if d == 10 {
        'A'
    } else if d == 11 {
        'B'
    } else if d == 12 {
        'C'
    } else if d == 13 {
        'D'
    } else if d == 14 {
        'E'
    } else {
        'F'
    }
}

/// Percent-encode a string: every UTF-8 byte outside the unreserved set is
/// written as `%` and two upper-case hex digits.
pub fn percent_encode(s: &str) -> (r: String)
    ensures
        r@ == pct_encoded(encode_utf8(s@)),
{
    let bytes = s.as_bytes_vec();
    let mut out: Vec<char> = Vec::new();
    let mut i: usize = 0;
    while i < bytes.len()
        invariant
            i <= bytes@.len(),
            bytes@ == encode_utf8(s@),
            out@ == pct_encoded(bytes@.subrange(0, i as int)),
        decreases bytes@.len() - i,
    {
        let b = bytes[i];
        if (48 <= b && b <= 57) || (65 <= b && b <= 90) || (97 <= b && b <= 122) || b == 45 || b
            == 95 || b == 46 || b == 126 {
            out.push(b as char);
        } else {
            out.push('%');
            out.push(up_hex_char_x(b / 16));
            out.push(up_hex_char_x(b % 16));
        }
        i = i + 1;
        proof {
            let prefix = bytes@.subrange(0, i as int - 1);
            assert(bytes@.subrange(0, i as int) =~= prefix.push(bytes@[i as int - 1]));
            lemma_pct_encoded_push(prefix, bytes@[i as int - 1]);
            assert(out@ =~= pct_encoded(prefix) + pct_byte(bytes@[i as int - 1]));
        }
    }
    proof {
        assert(bytes@.subrange(0, bytes@.len() as int) =~= bytes@);
    }
    string_of_chars(&out)
}

/// The value of one hex digit byte, either case.
pub open spec fn hex_byte_val(b: u8) -> Option<u8> {
    if 48 <= b <= 57 {
        Some((b - 48) as u8)
    } else if 65 <= b <= 70 {
        Some((b - 65 + 10) as u8)
    } else if 97 <= b <= 102 {
        Some((b - 97 + 10) as u8)
    } else {
        None
    }
}

/// The bytes a percent-encoded byte string stands for, from position `i` on.
/// Malformed escapes are kept literally: a `%` not followed by two hex digits
/// passes through together with whatever non-hex bytes follow it.
pub open spec fn pct_decoded_bytes(bs: Seq<u8>, i: int) -> Seq<u8>
    decreases bs.len() - i,
{
    if i < 0 || i >= bs.len() {
        Seq::empty()
    } else if bs[i] == 37 {  // '%'
        if i + 3 <= bs.len() {
            match (hex_byte_val(bs[i + 1]), hex_byte_val(bs[i + 2])) {
                (Some(h), Some(l)) => seq![(16 * h + l) as u8] + pct_decoded_bytes(bs, i + 3),
                (None, _) => seq![37u8] + pct_decoded_bytes(bs, i + 1),
                (Some(_), None) => seq![37u8, bs[i + 1]] + pct_decoded_bytes(bs, i + 2),
            }
        } else {
            seq![37u8] + bs.subrange(i + 1, bs.len() as int)
        }
    } else {
        seq![bs[i]] + pct_decoded_bytes(bs, i + 1)
    }
}

fn hex_byte_val_x(b: u8) -> (r: Option<u8>)
    ensures
        r == hex_byte_val(b),
{
    if 48 <= b && b <= 57 {
        Some(b - 48)
    } else if 65 <= b && b <= 70 {
        Some(b - 65 + 10)
    } else if 97 <= b && b <= 102 {
        Some(b - 97 + 10)
    } else {
        None
    }
}

/// Relies on String::from_utf8: `Ok` exactly for valid UTF-8, decoding it.
#[verifier::external_body]
pub fn utf8_string(bytes: Vec<u8>) -> (r: Option<String>)
    ensures
        r is Some <==> valid_utf8(bytes@),
        r matches Some(s) ==> s@ == decode_utf8(bytes@),
{
    String::from_utf8(bytes).ok()
}

/// Percent-decode a string: `%XX` stands for one byte, malformed escapes pass
/// through, and the decoded bytes must be valid UTF-8.
pub fn percent_decode(s: &str) -> (r: Option<String>)
    ensures
        r is Some <==> valid_utf8(pct_decoded_bytes(encode_utf8(s@), 0)),
        r matches Some(t) ==> t@ == decode_utf8(pct_decoded_bytes(encode_utf8(s@), 0)),
{
    let bytes = s.as_bytes_vec();
    let mut out: Vec<u8> = Vec::new();
    let mut i: usize = 0;
    let mut broke: bool = false;
    while i < bytes.len() && !broke
        invariant
            i <= bytes@.len(),
            bytes@ == encode_utf8(s@),
            !broke ==> pct_decoded_bytes(bytes@, 0) == out@ + pct_decoded_bytes(
                bytes@,
                i as int,
            ),
            broke ==> pct_decoded_bytes(bytes@, 0) == out@,
        decreases bytes@.len() - i, (if broke { 0int } else { 1int }),
    {
        let b = bytes[i];
        if b == 37 {
            if bytes.len() - i >= 3 {
                let h = hex_byte_val_x(bytes[i + 1]);
                let l = hex_byte_val_x(bytes[i + 2]);
                match (h, l) {
                    (Some(hv), Some(lv)) => {
                        out.push(16 * hv + lv);
                        i = i + 3;
                    },
                    (None, _) => {
                        out.push(37);
                        i = i + 1;
                    },
                    (Some(_), None) => {
                        out.push(37);
                        out.push(bytes[i + 1]);
                        i = i + 2;
                    },
                }
                proof {
                    assert(pct_decoded_bytes(bytes@, 0) =~= out@ + pct_decoded_bytes(
                        bytes@,
                        i as int,
                    ));
                }
            } else {
                let ghost pre = out@;
                out.push(37);
                let mut m: usize = i + 1;
                while m < bytes.len()
                    invariant
                        i + 1 <= m <= bytes@.len(),
                        i < bytes@.len(),
                        out@ == pre + seq![37u8] + bytes@.subrange(i as int + 1, m as int),
                    decreases bytes@.len() - m,
                {
                    out.push(bytes[m]);
                    m = m + 1;
                    proof {
                        assert(out@ =~= pre + seq![37u8] + bytes@.subrange(
                            i as int + 1,
                            m as int,
                        ));
                    }
                }
                broke = true;
                proof {
                    assert(out@ =~= pre + pct_decoded_bytes(bytes@, i as int));
                }
            }
        } else {
            out.push(b);
            i = i + 1;
            proof {
                assert(pct_decoded_bytes(bytes@, 0) =~= out@ + pct_decoded_bytes(
                    bytes@,
                    i as int,
                ));
            }
        }
    }
    proof {
        if !broke {
            assert(pct_decoded_bytes(bytes@, i as int) =~= Seq::<u8>::empty());
            assert(out@ =~= out@ + pct_decoded_bytes(bytes@, i as int));
        }
    }
    utf8_string(out)
}

} // verus!
