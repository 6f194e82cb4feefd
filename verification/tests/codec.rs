//! Tests of the payload codec, the command values, the error descriptions
//! and the protocol field conversions.

use packet_forge::commands::{message_with_id, CommandResult, ConnectionConfig};
use packet_forge::errors::TransportError;
use packet_forge::message::{
    bytes_to_hex_string, decode_payload, encode_payload, hex_string_to_bytes,
    RESPONSE_BUFFER_SIZE,
};
use packet_forge::protocol::{ProtocolField, ProtocolFieldExport};

#[test]
fn hex_parsing_reads_pairs() {
    assert_eq!(hex_string_to_bytes("DE AD BE EF").unwrap(), vec![0xDE, 0xAD, 0xBE, 0xEF]);
    assert_eq!(hex_string_to_bytes("dead").unwrap(), vec![0xDE, 0xAD]);
    assert_eq!(hex_string_to_bytes("0102 0a0B").unwrap(), vec![1, 2, 10, 11]);
    assert_eq!(hex_string_to_bytes("00").unwrap(), vec![0]);
    assert_eq!(hex_string_to_bytes("").unwrap(), Vec::<u8>::new());
}

#[test]
fn hex_parsing_ignores_separators() {
    assert_eq!(hex_string_to_bytes(" D E\r\nAD \n").unwrap(), vec![0xDE, 0xAD]);
    assert_eq!(hex_string_to_bytes("  ").unwrap(), Vec::<u8>::new());
}

#[test]
fn hex_parsing_rejects_odd_length() {
    assert_eq!(
        hex_string_to_bytes("ABC").unwrap_err(),
        "Hex string must have even length"
    );
    assert_eq!(
        hex_string_to_bytes("A ").unwrap_err(),
        "Hex string must have even length"
    );
}

#[test]
fn hex_parsing_rejects_bad_digits() {
    assert_eq!(hex_string_to_bytes("GG").unwrap_err(), "Invalid hex digit");
    assert_eq!(hex_string_to_bytes("0x12").unwrap_err(), "Invalid hex digit");
    assert_eq!(hex_string_to_bytes("äö").unwrap_err(), "Invalid hex digit");
}

#[test]
fn hex_rendering_is_uppercase_and_spaced() {
    assert_eq!(bytes_to_hex_string(&[0xDE, 0xAD]), "DE AD");
    assert_eq!(bytes_to_hex_string(&[0x0F]), "0F");
    assert_eq!(bytes_to_hex_string(&[0, 1, 255]), "00 01 FF");
    assert_eq!(bytes_to_hex_string(&[]), "");
}

#[test]
fn hex_round_trip() {
    let bytes: Vec<u8> = (0u16..=255).map(|b| b as u8).collect();
    let rendered = bytes_to_hex_string(&bytes);
    assert_eq!(hex_string_to_bytes(&rendered).unwrap(), bytes);
}

#[test]
fn encode_payload_by_mode() {
    assert_eq!(encode_payload("abc", "text").unwrap(), b"abc".to_vec());
    assert_eq!(encode_payload("snowman \u{2603}", "text").unwrap(), "snowman \u{2603}".as_bytes().to_vec());
    assert_eq!(encode_payload("01 FF", "hex").unwrap(), vec![1, 255]);
    assert_eq!(encode_payload("zz", "hex").unwrap_err(), "Invalid hex digit");
    assert_eq!(encode_payload("abc", "base64").unwrap_err(), "Invalid mode: base64");
}

#[test]
fn decode_payload_by_mode() {
    assert_eq!(decode_payload(b"hello", "text"), "hello");
    assert_eq!(decode_payload("\u{2603}".as_bytes(), "text"), "\u{2603}");
    // invalid UTF-8 is decoded leniently, never an error
    let lossy = decode_payload(&[0x61, 0xFF, 0x62], "text");
    assert_eq!(lossy, "a\u{FFFD}b");
    assert_eq!(decode_payload(&[0xDE, 0xAD], "hex"), "DE AD");
    assert_eq!(decode_payload(b"whatever", "base64"), "");
}

#[test]
fn response_buffer_size_matches_the_commands() {
    assert_eq!(RESPONSE_BUFFER_SIZE, 4096);
}

#[test]
fn error_descriptions() {
    assert_eq!(TransportError::AlreadyExists.describe(), "connection id already exists");
    assert_eq!(TransportError::NotFound.describe(), "connection not found");
    assert_eq!(TransportError::NotConnected.describe(), "not connected; call connect first");
    assert_eq!(TransportError::Timeout.describe(), "operation timed out");
    assert_eq!(TransportError::ConnectError.describe(), "failed to connect to remote host");
    assert_eq!(TransportError::IoError.describe(), "transport i/o failure");
}

#[test]
fn connection_config_maps_to_client_config() {
    let request = ConnectionConfig {
        id: "plc".to_string(),
        host: "192.168.1.50".to_string(),
        port: 502,
        timeout: 3,
        keep_alive: true,
    };
    let cfg = request.to_client_config();
    assert_eq!(cfg.host, "192.168.1.50");
    assert_eq!(cfg.port, 502);
    assert_eq!(cfg.timeout_secs, 3);
    assert!(cfg.keep_alive);
}

#[test]
fn command_messages() {
    let ok = CommandResult::ok(message_with_id("Connection '", "plc", "' created successfully"));
    assert!(ok.success);
    assert_eq!(ok.message, "Connection 'plc' created successfully");
    assert_eq!(message_with_id("Disconnected from '", "dev", "'"), "Disconnected from 'dev'");
}

#[test]
fn protocol_field_default_is_fixed_hex() {
    let field = ProtocolField::default();
    assert_eq!(field.id, "");
    assert_eq!(field.name, "");
    assert_eq!(field.length, None);
    assert!(!field.is_variable);
    assert_eq!(field.value_type, "hex");
    assert_eq!(field.value_format, None);
    assert_eq!(field.value, "");
    assert_eq!(field.description, None);
}

fn sample_field(is_variable: bool) -> ProtocolField {
    ProtocolField {
        id: "f1".to_string(),
        name: "Flags".to_string(),
        length: Some(1),
        is_variable,
        value_type: "text".to_string(),
        value_format: Some("dec".to_string()),
        value: "01".to_string(),
        description: Some("control flags".to_string()),
    }
}

#[test]
fn export_keeps_typing_for_variable_fields_only() {
    let exported = ProtocolFieldExport::from(sample_field(true));
    assert_eq!(exported.value_type, Some("text".to_string()));
    assert_eq!(exported.value_format, None);
    assert!(exported.enabled);

    let exported = ProtocolFieldExport::from(sample_field(false));
    assert_eq!(exported.value_type, None);
    assert_eq!(exported.value_format, Some("dec".to_string()));
    assert_eq!(exported.id, "f1");
    assert_eq!(exported.value, "01");
}

#[test]
fn import_falls_back_on_missing_value_type() {
    let mut exported = ProtocolFieldExport::from(sample_field(true));
    exported.value_type = None;
    let field = ProtocolField::from(exported);
    assert_eq!(field.value_type, "text");

    let mut exported = ProtocolFieldExport::from(sample_field(false));
    exported.value_type = None;
    let field = ProtocolField::from(exported);
    assert_eq!(field.value_type, "hex");

    let mut exported = ProtocolFieldExport::from(sample_field(true));
    exported.value_type = Some("hex".to_string());
    let field = ProtocolField::from(exported);
    assert_eq!(field.value_type, "hex");
    assert_eq!(field.name, "Flags");
}
