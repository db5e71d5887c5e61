use vstd::prelude::*;

use crate::errors::DecodeError;

verus! {

/// The ASCII code of one hexadecimal digit value, with lower-case letters.
pub open spec fn hex_digit(n: u8) -> u8 {
    if n < 10 {
        (0x30 + n) as u8
    } else {
        (0x57 + n) as u8
    }
}

/// The lower-case hexadecimal ASCII codes of a byte sequence, two digits per byte.
pub open spec fn hex_bytes_of(bs: Seq<u8>) -> Seq<u8>
    decreases bs.len(),
{
    if bs.len() == 0 {
        Seq::empty()
    } else {
        hex_bytes_of(bs.drop_last()) + seq![
            hex_digit(bs.last() / 16),
            hex_digit(bs.last() % 16),
        ]
    }
}

/// ASCII byte codes read as the characters they stand for.
pub open spec fn chars_of(bs: Seq<u8>) -> Seq<char> {
    bs.map_values(|b: u8| b as char)
}

pub open spec fn is_hex_char(c: char) -> bool {
    let u = c as u32;
    (0x30 <= u && u <= 0x39) || (0x61 <= u && u <= 0x66) || (0x41 <= u && u <= 0x46)
}

/// The value of one hexadecimal digit character, either case.
pub open spec fn hex_char_val(c: char) -> u8 {
    let u = c as u32;
    if 0x30 <= u && u <= 0x39 {
        (u - 0x30) as u8
    } else if 0x61 <= u && u <= 0x66 {
        (u - 0x57) as u8
    } else {
        (u - 0x37) as u8
    }
}

pub open spec fn all_hex(s: Seq<char>) -> bool {
    forall|i: int| 0 <= i < s.len() ==> is_hex_char(s[i])
}

/// The bytes decoded from hexadecimal characters, one byte per digit pair.
pub open spec fn hex_decode_chars(s: Seq<char>) -> Seq<u8> {
    Seq::new(
        (s.len() / 2) as nat,
        |i: int| (16 * hex_char_val(s[2 * i]) + hex_char_val(s[2 * i + 1])) as u8,
    )
}

/// Lower-case hexadecimal encoding, two digit characters per input byte.
pub fn hex_encode(bs: &Vec<u8>) -> (r: Vec<u8>)
    ensures
        r@ == hex_bytes_of(bs@),
        r@.len() == 2 * bs@.len(),
        forall|i: int| 0 <= i < r@.len() ==> r@[i] < 0x80,
{
    let mut out: Vec<u8> = Vec::new();
    let mut i: usize = 0;
    while i < bs.len()
        invariant
            i <= bs@.len(),
            out@ == hex_bytes_of(bs@.subrange(0, i as int)),
            out@.len() == 2 * i,
            forall|j: int| 0 <= j < out@.len() ==> out@[j] < 0x80,
        decreases bs@.len() - i,
    {
        let b = bs[i];
        let hi = b / 16;
        let lo = b % 16;
        let hic: u8 = if hi < 10 { 0x30 + hi } else { 0x57 + hi };
        let loc: u8 = if lo < 10 { 0x30 + lo } else { 0x57 + lo };
        out.push(hic);
        out.push(loc);
        proof {
            let pre = bs@.subrange(0, i as int);
            let cur = bs@.subrange(0, i + 1);
            assert(cur.drop_last() =~= pre);
            assert(cur.last() == bs@[i as int]);
            assert(out@ =~= hex_bytes_of(pre) + seq![
                hex_digit(bs@[i as int] / 16),
                hex_digit(bs@[i as int] % 16),
            ]);
        }
        i = i + 1;
    }
    proof {
        assert(bs@.subrange(0, bs@.len() as int) =~= bs@);
    }
    out
}

/// Relies on String::from_utf8: bytes below 0x80 are valid UTF-8 and become
/// the string of exactly those characters, one character per byte.
#[verifier::external_body]
pub(crate) fn string_from_ascii(bytes: Vec<u8>) -> (r: String)
    requires
        forall|i: int| 0 <= i < bytes@.len() ==> bytes@[i] < 0x80,
    ensures
        r@ == chars_of(bytes@),
{
    match String::from_utf8(bytes) {
        Ok(s) => s,
        Err(_) => String::new(),
    }
}

/// The value of one hexadecimal digit character, or None outside the alphabet.
pub(crate) fn hex_char_value(c: char) -> (r: Option<u8>)
    ensures
        (match r {
            Some(v) => is_hex_char(c) && v == hex_char_val(c) && v < 16,
            None => !is_hex_char(c),
        }),
{
    let u = c as u32;
    if 0x30 <= u && u <= 0x39 {
        Some((u - 0x30) as u8)
    } else if 0x61 <= u && u <= 0x66 {
        Some((u - 0x57) as u8)
    } else if 0x41 <= u && u <= 0x46 {
        Some((u - 0x37) as u8)
    } else {
        None
    }
}

/// Decodes the run of hexadecimal characters of `s` between `from` and `to`.
/// An odd run is `BadLength`; a character outside the alphabet is `InvalidHex`.
pub fn decode_hex_range(s: &str, from: usize, to: usize) -> (r: Result<Vec<u8>, DecodeError>)
    requires
        from <= to <= s@.len(),
    ensures
        r is Ok <==> ((to - from) % 2 == 0 && all_hex(s@.subrange(from as int, to as int))),
        (match r {
            Ok(v) => v@ == hex_decode_chars(s@.subrange(from as int, to as int)),
            Err(e) => if (to - from) % 2 != 0 {
                e == DecodeError::BadLength
            } else {
                e == DecodeError::InvalidHex
            },
        }),
{
    if (to - from) % 2 != 0 {
        return Err(DecodeError::BadLength);
    }
    let ghost whole = s@.subrange(from as int, to as int);
    let mut out: Vec<u8> = Vec::new();
    let mut i: usize = from;
    while i < to
        invariant
            from <= i <= to <= s@.len(),
            (to - from) % 2 == 0,
            (i - from) % 2 == 0,
            forall|j: int| from <= j < i ==> is_hex_char(s@[j]),
            out@ == hex_decode_chars(s@.subrange(from as int, i as int)),
        decreases to - i,
    {
        let c1 = s.get_char(i);
        assert((to - i) % 2 == 0);
        let c2 = s.get_char(i + 1);
        let v1 = match hex_char_value(c1) {
            Some(v) => v,
            None => {
                proof {
                    let whole2 = s@.subrange(from as int, to as int);
                    assert(whole2[i - from] == s@[i as int]);
                    assert(!is_hex_char(whole2[i - from]));
                }
                return Err(DecodeError::InvalidHex);
            },
        };
        let v2 = match hex_char_value(c2) {
            Some(v) => v,
            None => {
                proof {
                    let whole2 = s@.subrange(from as int, to as int);
                    assert(whole2[i + 1 - from] == s@[i + 1]);
                    assert(!is_hex_char(whole2[i + 1 - from]));
                }
                return Err(DecodeError::InvalidHex);
            },
        };
        out.push(16 * v1 + v2);
        proof {
            let pre = s@.subrange(from as int, i as int);
            let cur = s@.subrange(from as int, i + 2);
            assert forall|j: int| 0 <= j < cur.len() implies cur[j] == s@[from + j] by {}
            assert(hex_decode_chars(cur).len() == hex_decode_chars(pre).len() + 1);
            assert forall|j: int| 0 <= j < hex_decode_chars(cur).len() implies hex_decode_chars(
                cur,
            )[j] == out@[j] by {
                if j < hex_decode_chars(pre).len() {
                    assert(cur[2 * j] == pre[2 * j]);
                    assert(cur[2 * j + 1] == pre[2 * j + 1]);
                } else {
                    assert(cur[2 * j] == s@[i as int]);
                    assert(cur[2 * j + 1] == s@[i + 1]);
                }
            }
            assert(out@ =~= hex_decode_chars(cur));
        }
        i = i + 2;
    }
    Ok(out)
}

} // verus!
