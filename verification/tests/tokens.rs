use usestakly::agent_tokens::{
    check_token_format, generate_token, hash_token, token_from_bytes, validate_token_label,
};
use usestakly::semantic_search::embedding_failure;

#[test]
fn generated_tokens_pass_the_format_check() {
    for _ in 0..5 {
        let token = generate_token();
        assert!(token.starts_with("usk_"));
        assert_eq!(token.len(), 68);
        assert!(check_token_format(&token).is_ok());
    }
    assert_ne!(generate_token(), generate_token());
}

#[test]
fn malformed_tokens_are_forbidden() {
    let ok = format!("usk_{}", "aB".repeat(32));
    assert!(check_token_format(&ok).is_ok());
    for bad in [
        "abc".to_string(),
        format!("usx_{}", "a".repeat(64)),
        format!("usk_{}", "a".repeat(63)),
        format!("usk_{}", "a".repeat(65)),
        format!("usk_{}g", "a".repeat(63)),
    ] {
        let err = check_token_format(&bad).unwrap_err();
        assert_eq!((err.status, err.message.as_str()), (403, "invalid token format"));
    }
}

#[test]
fn token_hash_is_sha256_hex() {
    assert_eq!(
        hash_token("abc"),
        "ba7816bf8f01cfea414140de5dae2223b00361a396177a9cb410ff61f20015ad"
    );
    assert_eq!(hash_token("usk_x").len(), 64);
}

#[test]
fn token_labels_are_trimmed_and_bounded() {
    assert_eq!(validate_token_label("  ci bot ").unwrap(), "ci bot");
    assert_eq!(validate_token_label("   ").unwrap_err().message, "label is required");
    assert_eq!(validate_token_label(&"x".repeat(81)).unwrap_err().message, "label too long (max 80)");
    let err = embedding_failure("model missing");
    assert_eq!((err.status, err.message.as_str()), (500, "semantic embedding failed: model missing"));
}

#[test]
fn token_text_is_the_lower_case_hex_of_its_bytes() {
    assert_eq!(token_from_bytes(&[0u8; 32]), format!("usk_{}", "0".repeat(64)));
    let bytes: Vec<u8> = (0u8..32).map(|i| i * 8 + 7).collect();
    let token = token_from_bytes(&bytes);
    let expected: String = bytes.iter().map(|b| format!("{:02x}", b)).collect();
    assert_eq!(token, format!("usk_{}", expected));
    assert!(token.starts_with("usk_070f171f"));
    assert!(token[4..].chars().all(|c| c.is_ascii_digit() || ('a'..='f').contains(&c)));
    assert!(check_token_format(&token).is_ok());
}

#[test]
fn generated_tokens_are_lower_case_hex() {
    let token = generate_token();
    assert!(token[4..].chars().all(|c| c.is_ascii_digit() || ('a'..='f').contains(&c)));
}
