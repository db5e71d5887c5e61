use ens_rest::client::{Client, EnsApiError};
use ens_rest::config::{Args, State};
use ens_rest::errors::DecodeError;
use ens_rest::hextext::HexReader;
use ens_rest::Address;

#[test]
fn default_client_aims_at_the_public_service() {
    let c = Client::default();
    assert_eq!(c.address(), "https://enormous.cloud/ens/reverse/");
}

#[test]
fn client_keeps_a_custom_service_url() {
    let c = Client::new("http://localhost:8000/reverse");
    assert_eq!(c.address(), "http://localhost:8000/reverse");
}

#[test]
fn api_errors_render_their_messages() {
    assert_eq!(
        EnsApiError::RequestError("boom".to_string()).message(),
        "request error boom"
    );
    assert_eq!(
        EnsApiError::ParseError("bad json".to_string()).message(),
        "response parsing error bad json"
    );
    assert_eq!(
        EnsApiError::ApiError("nope".to_string()).message(),
        "server API error nope"
    );
    assert_eq!(EnsApiError::Unknown.message(), "unknown client error");
}

#[test]
fn args_defaults_match_the_server_flags() {
    let args = Args::default();
    assert_eq!(args.listen, "0.0.0.0:8000");
    assert_eq!(args.rpc_endpoint, "http://localhost:8545");
    assert_eq!(args.ens_contract, "");
}

#[test]
fn state_carries_the_endpoint() {
    let s = State::new("http://localhost:8545".to_string());
    assert_eq!(s.rpc_endpoint(), "http://localhost:8545");
}

#[test]
fn addresses_hold_their_bytes() {
    let a = Address::from_bytes(vec![0xAB; 20]);
    assert_eq!(a.bytes, vec![0xAB; 20]);
    let b = a.duplicate();
    assert_eq!(a, b);
}

#[test]
fn hex_reader_walks_words() {
    let mut data = vec![0x00u8; 32];
    data.extend_from_slice(b"hello");
    data.push(0x00);
    data.push(0x1B);
    data.push(0x80);
    let mut reader = HexReader::new(data).unwrap();
    let first = reader.next32();
    assert_eq!(first, "00".repeat(32));
    assert!(reader.has_data());
    let second = reader.next32();
    assert_eq!(second, format!("{}001b80", hex::encode("hello")));
    assert!(!reader.has_data());
    assert_eq!(reader.next32(), "");
}

#[test]
fn hex_reader_text_skips_the_header_and_control_bytes() {
    let mut data = vec![0x00u8; 32];
    data.extend_from_slice(b"hello");
    data.push(0x00);
    data.push(0x1B);
    data.push(0x80);
    let mut reader = HexReader::new(data).unwrap();
    assert_eq!(reader.text(), "hello");
    assert!(!reader.has_data());
}

#[test]
fn hex_reader_on_short_data_yields_nothing() {
    let mut reader = HexReader::new(vec![0x41u8; 10]).unwrap();
    assert_eq!(reader.text(), "");
}

#[test]
fn decode_errors_compare_by_kind() {
    assert_eq!(DecodeError::BadLength, DecodeError::BadLength);
    assert_ne!(DecodeError::BadLength, DecodeError::InvalidHex);
}
