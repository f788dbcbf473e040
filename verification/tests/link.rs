use voidpost_core::LinkError;
use voidpost_core::SharePayload;

const RECORD_KEY: &str = "VLD0:cUsJJKKC7OaKO_jkFE2Qw7d3kvFc_UOd4fWl0Wkbxlk";

#[test]
fn encode_decode_round_trip() {
    let rk = RECORD_KEY.to_string();

    let key = [42u8; 32];

    let payload = SharePayload {
        record_key: rk,
        encryption_key: key,
    };

    let encoded = payload.encode();
    let decoded = SharePayload::decode(&encoded).expect("decode should succeed");

    assert_eq!(decoded.record_key.to_string(), payload.record_key.to_string());
    assert_eq!(decoded.encryption_key, key);
}

#[test]
fn decode_missing_separator_fails() {
    let result = SharePayload::decode("no-separator-here");
    assert!(result.is_err());
}

#[test]
fn decode_wrong_key_length_fails() {
    let result =
        SharePayload::decode("VLD0:cUsJJKKC7OaKO_jkFE2Qw7d3kvFc_UOd4fWl0Wkbxlk#dG9vc2hvcnQ");
    assert!(result.is_err());
}

#[test]
fn encode_exact_text() {
    let payload = SharePayload { record_key: RECORD_KEY.to_string(), encryption_key: [42u8; 32] };
    let expected = format!("{}#{}Kio", RECORD_KEY, "Kioq".repeat(10));
    assert_eq!(payload.encode(), expected);
}

#[test]
fn decode_errors_name_the_problem() {
    assert_eq!(SharePayload::decode("no-separator-here").err(), Some(LinkError::MissingSeparator));
    assert_eq!(
        SharePayload::decode("VLD0:cUsJJKKC7OaKO_jkFE2Qw7d3kvFc_UOd4fWl0Wkbxlk#dG9vc2hvcnQ").err(),
        Some(LinkError::WrongKeyLength { len: 8 })
    );
    assert_eq!(SharePayload::decode("abc#not base64!").err(), Some(LinkError::InvalidBase64));
    // Padding is refused by the unpadded engine.
    assert_eq!(SharePayload::decode("abc#dG9vc2hvcnQ=").err(), Some(LinkError::InvalidBase64));
}

#[test]
fn decode_splits_at_last_separator() {
    let key = [5u8; 32];
    let link = SharePayload { record_key: "a#b".to_string(), encryption_key: key }.encode();
    let decoded = SharePayload::decode(&link).unwrap();
    assert_eq!(decoded.record_key, "a#b");
    assert_eq!(decoded.encryption_key, key);
}

#[test]
fn decode_known_link() {
    let link = format!("{}#{}Kio", RECORD_KEY, "Kioq".repeat(10));
    let decoded = SharePayload::decode(&link).unwrap();
    assert_eq!(decoded.record_key, RECORD_KEY);
    assert_eq!(decoded.encryption_key, [42u8; 32]);
}

#[test]
fn encoded_key_is_url_safe_base64() {
    let key: [u8; 32] = core::array::from_fn(|i| (i * 37 + 250) as u8);
    let link = SharePayload { record_key: "rk".to_string(), encryption_key: key }.encode();
    let suffix = &link["rk#".len()..];
    assert_eq!(link.len(), "rk".len() + 44);
    assert_eq!(suffix.len(), 43);
    assert!(suffix.chars().all(|c| c.is_ascii_alphanumeric() || c == '-' || c == '_'));
    assert_eq!(SharePayload::decode(&link).unwrap().encryption_key, key);
}
