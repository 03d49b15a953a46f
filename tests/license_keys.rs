use base64::Engine;
use ed25519_dalek::{Signer, SigningKey};
use honeymelon::license::{
    char_to_value, decode_key, format_key, normalized_key, parse_payload,
    verify, LicenseError, PAYLOAD_LENGTH, SIGNATURE_LENGTH,
};

const BASE32_ALPHABET: &[u8; 32] = b"ABCDEFGHJKLMNPQRSTUVWXYZ23456789";

fn encode_base32(bytes: &[u8]) -> String {
    let mut buffer: u32 = 0;
    let mut bits = 0;
    let mut output = String::new();
    for &byte in bytes {
        buffer = (buffer << 8) | u32::from(byte);
        bits += 8;
        while bits >= 5 {
            bits -= 5;
            let index = ((buffer >> bits) & 0x1F) as usize;
            output.push(BASE32_ALPHABET[index] as char);
        }
    }
    if bits > 0 {
        let index = ((buffer << (5 - bits)) & 0x1F) as usize;
        output.push(BASE32_ALPHABET[index] as char);
    }
    output
        .chars()
        .collect::<Vec<_>>()
        .chunks(5)
        .map(|chunk| chunk.iter().collect::<String>())
        .collect::<Vec<_>>()
        .join("-")
}

#[test]
fn decoder_decode_round_trip() {
    let bytes = vec![0xBA; PAYLOAD_LENGTH + SIGNATURE_LENGTH];
    let key = encode_base32(&bytes);
    let decoded = decode_key(&key).unwrap();
    assert_eq!(bytes, decoded);
}

#[test]
fn license_decode_round_trip() {
    let bytes = vec![0xBA; PAYLOAD_LENGTH + SIGNATURE_LENGTH];
    let key = encode_base32(&bytes);
    let decoded = decode_key(&key).unwrap();
    assert_eq!(bytes, decoded);
}

#[test]
fn decoder_normalize_strips_separators() {
    let key = "abcde-fghij";
    assert_eq!(normalized_key(key), "ABCDEFGHIJ");
}

#[test]
fn license_normalize_strips_separators() {
    let key = "abcde-fghij";
    assert_eq!(normalized_key(key), "ABCDEFGHIJ");
}

#[test]
fn decoder_format_key_groups_characters() {
    let formatted = format_key("abcdefghijklmn");
    assert_eq!(formatted, "ABCDE-FGHIJ-KLMN");
}

#[test]
fn license_format_key_groups_characters() {
    let formatted = format_key("abcdefghijklmn");
    assert_eq!(formatted, "ABCDE-FGHIJ-KLMN");
}

#[test]
fn parse_payload_handles_truncated_timestamp() {
    let mut bytes = vec![0u8; PAYLOAD_LENGTH - 1];
    bytes[0] = 1;
    let result = parse_payload(&bytes);
    assert!(matches!(result, Err(LicenseError::InvalidLength)));
}

#[test]
fn payload_fields_are_read() {
    let mut bytes = vec![0u8; PAYLOAD_LENGTH];
    bytes[0] = 1;
    for i in 0..16 {
        bytes[1 + i] = i as u8;
        bytes[17 + i] = 0xf0 + i as u8;
    }
    bytes[33] = 4;
    bytes[34..42].copy_from_slice(&1_700_000_100u64.to_be_bytes());
    let parsed = parse_payload(&bytes).unwrap();
    assert_eq!(parsed.license_id, "00010203-0405-0607-0809-0a0b0c0d0e0f");
    assert_eq!(parsed.order_id, "f0f1f2f3-f4f5-f6f7-f8f9-fafbfcfdfeff");
    assert_eq!(parsed.max_major_version, 4);
    assert_eq!(parsed.issued_at, 1_700_000_100);
    bytes[0] = 2;
    assert!(matches!(parse_payload(&bytes), Err(LicenseError::UnsupportedVersion(2))));
}

#[test]
fn decode_errors() {
    assert!(matches!(decode_key("--"), Err(LicenseError::EmptyKey)));
    assert!(matches!(decode_key("AB1C"), Err(LicenseError::InvalidCharacter('1'))));
    assert!(matches!(decode_key("io"), Err(LicenseError::InvalidCharacter('I'))));
    assert!(matches!(decode_key("AB"), Err(LicenseError::InvalidPadding)));
    assert_eq!(decode_key("AA").unwrap(), vec![0u8]);
}

#[test]
fn alphabet_positions() {
    for (i, c) in BASE32_ALPHABET.iter().enumerate() {
        assert_eq!(char_to_value(*c), Some(i as u8));
    }
    assert_eq!(char_to_value(b'I'), None);
    assert_eq!(char_to_value(b'0'), None);
}

#[test]
fn error_codes_are_stable() {
    assert_eq!(LicenseError::EmptyKey.code(), "license_empty");
    assert_eq!(LicenseError::InvalidCharacter('x').code(), "license_invalid_char");
    assert_eq!(LicenseError::InvalidSignature.code(), "license_signature");
}

#[test]
fn app_error_conversion_uses_license_code() {
    let app_error = LicenseError::StoragePath.to_app_error();
    assert_eq!(app_error.code, "license_storage");
    assert!(app_error.message.contains("storage"));
    assert_eq!(
        LicenseError::UnsupportedVersion(7).message(),
        "license payload version 7 is unsupported"
    );
}

#[test]
fn verify_refuses_without_a_usable_public_key() {
    let mut blob = vec![0u8; PAYLOAD_LENGTH + SIGNATURE_LENGTH];
    blob[0] = 1;
    let key = encode_base32(&blob);
    assert!(matches!(verify(&key, None), Err(LicenseError::MissingPublicKey)));
    assert!(matches!(verify(&key, Some("not base64!")), Err(LicenseError::InvalidPublicKey(_))));
    assert!(matches!(verify(&key, Some("AAAA")), Err(LicenseError::InvalidPublicKey(_))));
    let short = encode_base32(&blob[..10]);
    assert!(matches!(verify(&short, None), Err(LicenseError::InvalidLength)));
}


fn signed_license_blob() -> (String, String, Vec<u8>) {
    let signing_key = SigningKey::from_bytes(&[9u8; 32]);
    let verifying_b64 =
        base64::engine::general_purpose::STANDARD.encode(signing_key.verifying_key().to_bytes());
    let mut payload = Vec::with_capacity(PAYLOAD_LENGTH);
    payload.push(1);
    payload.extend_from_slice(&[0x11; 16]);
    payload.extend_from_slice(&[0x22; 16]);
    payload.push(4);
    payload.extend_from_slice(&1_700_000_100u64.to_be_bytes());
    let signature = signing_key.sign(&payload);
    let mut blob = payload.clone();
    blob.extend_from_slice(&signature.to_bytes());
    (encode_base32(&blob), verifying_b64, blob)
}

#[test]
fn verify_round_trip_with_valid_signature() {
    let (key, verifying_b64, _) = signed_license_blob();
    let info = verify(&key, Some(&verifying_b64)).expect("valid license");
    assert_eq!(info.key.replace('-', "").len(), key.replace('-', "").len());
    assert_eq!(info.max_major_version, 4);
    assert_eq!(info.payload.len(), 4 * PAYLOAD_LENGTH.div_ceil(3));
    assert_eq!(info.license_id, "11111111-1111-1111-1111-111111111111");
    assert_eq!(info.issued_at, 1_700_000_100);
    assert_eq!(info.activated_at, None);
}

#[test]
fn verify_rejects_invalid_signature() {
    let (_, verifying_b64, mut blob) = signed_license_blob();
    let last = blob.last_mut().expect("non-empty");
    *last ^= 0xFF;
    let corrupt = encode_base32(&blob);
    let result = verify(&corrupt, Some(&verifying_b64));
    assert!(matches!(result, Err(LicenseError::InvalidSignature)));
}
