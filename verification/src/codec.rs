use vstd::prelude::*;

use crate::errors::DecodeError;
use crate::hexdata::{
    all_hex, chars_of, decode_hex_range, hex_bytes_of, hex_decode_chars, hex_encode,
    string_from_ascii,
};
use crate::hextext::{text_of, HexReader};
use crate::Address;
use vstd::string::StrSliceExecFns;
use vstd::string::StringExecFns;

verus! {

/// A run of `n` zero digit characters.
pub open spec fn zero_digits(n: int) -> Seq<char> {
    Seq::new(n as nat, |i: int| '0')
}

/// "0x", the selector's four bytes hex-encoded, then the argument hex-encoded
/// and left-padded with zero digits up to 64 characters.
pub open spec fn call_data_of(sel: Seq<u8>, arg: Seq<u8>) -> Seq<char> {
    "0x"@ + chars_of(hex_bytes_of(sel)) + zero_digits(64 - 2 * arg.len()) + chars_of(
        hex_bytes_of(arg),
    )
}

pub open spec fn payload_head() -> Seq<char> {
    "{\"jsonrpc\":\"2.0\",\"id\":1,\"method\":\"eth_call\",\"params\":[{\"from\":\"0x0000000000000000000000000000000000000000\",\"data\":\""@
}

pub open spec fn payload_mid() -> Seq<char> {
    "\",\"to\":\"0x"@
}

pub open spec fn payload_tail() -> Seq<char> {
    "\"},\"latest\"]}"@
}

/// The eth_call JSON-RPC request document: jsonrpc "2.0", id 1, params holding
/// the zero from-address, the call data and the target contract, then "latest".
pub open spec fn payload_of(call_data: Seq<char>, to: Seq<u8>) -> Seq<char> {
    payload_head() + call_data + payload_mid() + chars_of(hex_bytes_of(to)) + payload_tail()
}

/// Call data for one method call: the selector, then the argument hex-encoded
/// in one 32-byte word, left-padded with zeros when shorter.
pub fn encode_call(selector: &Vec<u8>, arg: &Vec<u8>) -> (r: String)
    requires
        selector@.len() == 4,
        arg@.len() <= 32,
    ensures
        r@ == call_data_of(selector@, arg@),
{
    let mut out = String::from_str("0x");
    let sel_hex = string_from_ascii(hex_encode(selector));
    out.append(sel_hex.as_str());
    let pad_len: usize = 64 - 2 * arg.len();
    let mut k: usize = 0;
    while k < pad_len
        invariant
            k <= pad_len,
            out@ == "0x"@ + chars_of(hex_bytes_of(selector@)) + zero_digits(k as int),
        decreases pad_len - k,
    {
        out.append("0");
        proof {
            reveal_strlit("0");
            assert(out@ =~= "0x"@ + chars_of(hex_bytes_of(selector@)) + zero_digits(k + 1));
        }
        k = k + 1;
    }
    let arg_hex = string_from_ascii(hex_encode(arg));
    out.append(arg_hex.as_str());
    proof {
        assert(out@ =~= call_data_of(selector@, arg@));
    }
    out
}

/// The eth_call request document around `call_data`, aimed at contract `to`.
pub fn build_payload(call_data: &str, to: &Address) -> (r: String)
    requires
        to.wf(),
    ensures
        r@ == payload_of(call_data@, to.bytes@),
{
    let mut out = String::from_str(
        "{\"jsonrpc\":\"2.0\",\"id\":1,\"method\":\"eth_call\",\"params\":[{\"from\":\"0x0000000000000000000000000000000000000000\",\"data\":\"",
    );
    out.append(call_data);
    out.append("\",\"to\":\"0x");
    let to_hex = string_from_ascii(hex_encode(&to.bytes));
    out.append(to_hex.as_str());
    out.append("\"},\"latest\"]}");
    proof {
        assert(out@ =~= payload_of(call_data@, to.bytes@));
    }
    out
}

/// The last 40 characters of a call result.
pub open spec fn addr_tail(s: Seq<char>) -> Seq<char> {
    s.skip(s.len() - 40)
}

pub open spec fn addr_result_ok(s: Seq<char>) -> bool {
    s.len() >= 40 && all_hex(addr_tail(s))
}

/// The 20 bytes the last 40 hexadecimal characters stand for.
pub open spec fn addr_of_result(s: Seq<char>) -> Seq<u8> {
    hex_decode_chars(addr_tail(s))
}

/// The address held in the last 40 hexadecimal characters of a call result;
/// the left padding before them is ignored. Shorter text fails with
/// `BadLength`, a non-hexadecimal character among the 40 with `InvalidHex`.
pub fn decode_address_result(hex_result: &str) -> (r: Result<Address, DecodeError>)
    ensures
        r is Ok <==> addr_result_ok(hex_result@),
        (match r {
            Ok(a) => a.wf() && a.bytes@ == addr_of_result(hex_result@),
            Err(e) => if hex_result@.len() < 40 {
                e == DecodeError::BadLength
            } else {
                e == DecodeError::InvalidHex
            },
        }),
{
    let n = hex_result.unicode_len();
    if n < 40 {
        return Err(DecodeError::BadLength);
    }
    proof {
        assert(hex_result@.subrange(n - 40, n as int) =~= addr_tail(hex_result@));
    }
    match decode_hex_range(hex_result, n - 40, n) {
        Ok(v) => {
            proof {
                assert(v@.len() == 20);
            }
            Ok(Address::from_bytes(v))
        },
        Err(e) => Err(e),
    }
}

/// A call result with any "0x" prefix dropped.
pub open spec fn strip0x(s: Seq<char>) -> Seq<char> {
    if s.len() >= 2 && s[0] == '0' && s[1] == 'x' {
        s.skip(2)
    } else {
        s
    }
}

pub open spec fn string_result_ok(s: Seq<char>) -> bool {
    strip0x(s).len() % 2 == 0 && all_hex(strip0x(s))
}

/// The text held in a dynamic-string call result: decode the hex to bytes,
/// discard the first 32-byte word (the length header), keep printable bytes.
pub open spec fn string_of_result(s: Seq<char>) -> Seq<char> {
    chars_of(text_of(hex_decode_chars(strip0x(s)), 0))
}

/// ABI dynamic-string decoding: drop the "0x" prefix, read the hexadecimal as
/// 32-byte words, discard the first word without checking the length it
/// declares, and keep the printable ASCII bytes of every later word. Odd
/// hexadecimal fails with `BadLength`, other characters with `InvalidHex`.
pub fn decode_string_result(hex_result: &str) -> (r: Result<String, DecodeError>)
    ensures
        r is Ok <==> string_result_ok(hex_result@),
        (match r {
            Ok(text) => text@ == string_of_result(hex_result@),
            Err(e) => if strip0x(hex_result@).len() % 2 != 0 {
                e == DecodeError::BadLength
            } else {
                e == DecodeError::InvalidHex
            },
        }),
{
    let n = hex_result.unicode_len();
    let has_prefix: bool = n >= 2 && hex_result.get_char(0) == '0' && hex_result.get_char(1)
        == 'x';
    let start: usize = if has_prefix {
        2
    } else {
        0
    };
    proof {
        assert(strip0x(hex_result@) =~= hex_result@.subrange(start as int, n as int));
    }
    let bytes = match decode_hex_range(hex_result, start, n) {
        Ok(v) => v,
        Err(e) => {
            return Err(e);
        },
    };
    proof {
        assert(2 * bytes@.len() <= n);
        assert(bytes@.len() + 32 <= usize::MAX);
    }
    let mut reader = match HexReader::new(bytes) {
        Ok(x) => x,
        Err(e) => {
            return Err(e);
        },
    };
    let out = reader.text();
    Ok(out)
}

} // verus!
