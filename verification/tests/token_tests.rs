use base64::Engine;
use natsforge::errors::ForgeError;
use natsforge::extract_account_id;

fn encode_payload(json_text: &str) -> String {
    base64::engine::general_purpose::STANDARD_NO_PAD.encode(json_text.as_bytes())
}

fn fake_jwt(sub: &str) -> String {
    let mut claims = serde_json::Map::new();
    claims.insert(
        "sub".to_string(),
        serde_json::Value::String(sub.to_string()),
    );
    let body = serde_json::to_string(&serde_json::Value::Object(claims)).unwrap();
    format!("eyJ0eXAiOiJKV1QifQ.{}.sig", encode_payload(&body))
}

#[test]
fn extracts_subject_from_well_formed_token() {
    let jwt = fake_jwt("ACCT12345");
    assert_eq!(extract_account_id(&jwt).unwrap(), "ACCT12345");
}

#[test]
fn extraction_is_repeatable() {
    let jwt = fake_jwt("AAAA");
    assert_eq!(
        extract_account_id(&jwt).unwrap(),
        extract_account_id(&jwt).unwrap()
    );
}

#[test]
fn one_segment_is_malformed() {
    let err = extract_account_id("nodotshere").unwrap_err();
    match err {
        ForgeError::MalformedToken { segments } => assert_eq!(segments, 1),
        other => panic!("expected MalformedToken, got {:?}", other),
    }
}

#[test]
fn four_segments_are_malformed() {
    let err = extract_account_id("a.b.c.d").unwrap_err();
    match err {
        ForgeError::MalformedToken { segments } => assert_eq!(segments, 4),
        other => panic!("expected MalformedToken, got {:?}", other),
    }
}

#[test]
fn invalid_base64_payload_is_a_claim_decode_error() {
    // '!' is not in the standard base64 alphabet.
    let err = extract_account_id("head.!!!.sig").unwrap_err();
    assert!(matches!(err, ForgeError::ClaimDecodeError));
}

#[test]
fn non_json_payload_is_a_claim_decode_error() {
    let payload = encode_payload("this is not structured data");
    let token = format!("head.{}.sig", payload);
    let err = extract_account_id(&token).unwrap_err();
    assert!(matches!(err, ForgeError::ClaimDecodeError));
}

#[test]
fn payload_without_subject_is_missing_subject_claim() {
    let payload = encode_payload("{\"iss\":\"someone\"}");
    let token = format!("head.{}.sig", payload);
    let err = extract_account_id(&token).unwrap_err();
    assert!(matches!(err, ForgeError::MissingSubjectClaim));
}

#[test]
fn subject_that_is_not_text_is_missing_subject_claim() {
    let payload = encode_payload("{\"sub\":42}");
    let token = format!("head.{}.sig", payload);
    let err = extract_account_id(&token).unwrap_err();
    assert!(matches!(err, ForgeError::MissingSubjectClaim));
}
