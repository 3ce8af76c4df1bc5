use bms_acquisition::errors::AcqError;
use bms_acquisition::extract::extract_value;

fn bytes(s: &str) -> Vec<u8> {
    s.as_bytes().to_vec()
}

#[test]
fn extract_finds_quoted_payload() {
    let doc = bytes("<html><body>Parametersatz = \"1,2,3\"</body></html>");
    let key = bytes("Parametersatz");
    assert_eq!(extract_value(&doc, &key), Ok(bytes("1,2,3")));
}

#[test]
fn extract_missing_key_is_malformed_document() {
    let doc = bytes("<html><body>nothing of interest</body></html>");
    let key = bytes("Parametersatz");
    assert_eq!(extract_value(&doc, &key), Err(AcqError::MalformedDocument));
}

#[test]
fn extract_unterminated_payload_is_malformed_document() {
    let doc = bytes("PSet = \"1,2,3");
    let key = bytes("PSet");
    assert_eq!(extract_value(&doc, &key), Err(AcqError::MalformedDocument));
}

#[test]
fn extract_takes_first_assignment() {
    let doc = bytes("PSet = \"first\" and later PSet = \"second\"");
    let key = bytes("PSet");
    assert_eq!(extract_value(&doc, &key), Ok(bytes("first")));
}

#[test]
fn extract_empty_payload() {
    let doc = bytes("K = \"\"");
    let key = bytes("K");
    assert_eq!(extract_value(&doc, &key), Ok(Vec::new()));
}

#[test]
fn extract_distinguishes_pset_from_pset0() {
    let doc = bytes("PSet0 = \"8,144,18\" PSet = \"9,9,3600\"");
    assert_eq!(extract_value(&doc, &bytes("PSet")), Ok(bytes("9,9,3600")));
    assert_eq!(extract_value(&doc, &bytes("PSet0")), Ok(bytes("8,144,18")));
}

#[test]
fn extract_needs_exact_spacing() {
    let doc = bytes("PSet=\"1,2\"");
    assert_eq!(extract_value(&doc, &bytes("PSet")), Err(AcqError::MalformedDocument));
}

#[test]
fn extract_from_empty_document() {
    let doc = Vec::new();
    assert_eq!(extract_value(&doc, &bytes("PSet")), Err(AcqError::MalformedDocument));
}
