use ens_rest::codec::{build_payload, decode_address_result, decode_string_result, encode_call};
use ens_rest::errors::DecodeError;
use ens_rest::Address;

#[test]
fn encode_call_concatenates_selector_and_argument() {
    let selector = vec![0x01u8, 0x78, 0xB8, 0xBF];
    let arg = vec![0x11u8; 32];
    let data = encode_call(&selector, &arg);
    let expected = format!("0x0178b8bf{}", "11".repeat(32));
    assert_eq!(data, expected);
}

#[test]
fn encode_call_pads_short_arguments_on_the_left() {
    let selector = vec![0x69u8, 0x1F, 0x34, 0x31];
    let arg = vec![0xABu8];
    let data = encode_call(&selector, &arg);
    let expected = format!("0x691f3431{}ab", "0".repeat(62));
    assert_eq!(data, expected);
}

#[test]
fn build_payload_forms_the_eth_call_document() {
    let to = Address::from_bytes(vec![0x01u8; 20]);
    let payload = build_payload("0xdeadbeef", &to);
    let expected = "{\"jsonrpc\":\"2.0\",\"id\":1,\"method\":\"eth_call\",\"params\":[{\"from\":\"0x0000000000000000000000000000000000000000\",\"data\":\"0xdeadbeef\",\"to\":\"0x0101010101010101010101010101010101010101\"},\"latest\"]}";
    assert_eq!(payload, expected);
}

#[test]
fn decode_address_takes_the_last_forty_hex_chars() {
    let body = format!("{}a2c122be93b0074270ebee7f6b7292c7deb45047", "0".repeat(24));
    assert_eq!(body.len(), 64);
    let addr = decode_address_result(&body).unwrap();
    assert_eq!(
        hex::encode(&addr.bytes),
        "a2c122be93b0074270ebee7f6b7292c7deb45047"
    );
}

#[test]
fn decode_address_rejects_short_input() {
    let r = decode_address_result("abcdef");
    assert_eq!(r, Err(DecodeError::BadLength));
    let r = decode_address_result("");
    assert_eq!(r, Err(DecodeError::BadLength));
}

#[test]
fn decode_address_rejects_non_hex_tail() {
    let body = format!("{}z2c122be93b0074270ebee7f6b7292c7deb45047", "0".repeat(24));
    let r = decode_address_result(&body);
    assert_eq!(r, Err(DecodeError::InvalidHex));
}

#[test]
fn decode_string_reads_a_two_word_encoding() {
    // One length word declaring 14, then "vitalik.eth" zero-padded to a word.
    let length_word = format!("{}0e", "0".repeat(62));
    let data_word = format!("766974616c696b2e657468{}", "00".repeat(21));
    let body = format!("0x{}{}", length_word, data_word);
    let name = decode_string_result(&body).unwrap();
    assert_eq!(name, "vitalik.eth");
}

#[test]
fn decode_string_drops_nul_and_control_bytes() {
    // Data bytes interleave NUL and control characters with "hi".
    let length_word = format!("{}02", "0".repeat(62));
    let data_word = format!("0068001f69{}", "00".repeat(26).to_string() + "1b");
    let body = format!("0x{}{}", length_word, data_word);
    let name = decode_string_result(&body).unwrap();
    assert_eq!(name, "hi");
}

#[test]
fn decode_string_without_prefix_also_works() {
    let length_word = format!("{}02", "0".repeat(62));
    let data_word = format!("6869{}", "00".repeat(30));
    let body = format!("{}{}", length_word, data_word);
    let name = decode_string_result(&body).unwrap();
    assert_eq!(name, "hi");
}

#[test]
fn decode_string_rejects_odd_hex() {
    let r = decode_string_result("0xabc");
    assert_eq!(r, Err(DecodeError::BadLength));
}

#[test]
fn decode_string_rejects_non_hex() {
    let r = decode_string_result("0xzz");
    assert_eq!(r, Err(DecodeError::InvalidHex));
}

#[test]
fn decode_string_of_header_alone_is_empty() {
    let body = format!("0x{}11", "0".repeat(62));
    let name = decode_string_result(&body).unwrap();
    assert_eq!(name, "");
}
