use base64::Engine;
use sha2::{Digest, Sha256};
use xarf::error::{ValidationError, XarfError};
use xarf::generator::hex;
use xarf::{create_evidence, create_evidence_with_options, EvidenceOptions, HashAlgorithm};

/// Lower-case hex, two digits per byte.
fn encode_for_test(bytes: &[u8]) -> String {
    let mut s = String::with_capacity(bytes.len() * 2);
    for b in bytes {
        s.push_str(&format!("{b:02x}"));
    }
    s
}

fn sha2_sha256(input: &[u8]) -> Vec<u8> {
    Sha256::digest(input).to_vec()
}

#[test]
fn create_evidence_sha256_default() {
    let ev = create_evidence("text/plain", b"hello");
    assert!(ev.hash.as_ref().unwrap().starts_with("sha256:"));
    assert_eq!(ev.size, Some(5));
    let decoded = base64::engine::general_purpose::STANDARD.decode(&ev.payload).unwrap();
    assert_eq!(decoded, b"hello");
}

#[test]
fn create_evidence_all_hash_algorithms_produce_correct_prefix() {
    for (algo, prefix) in [
        (HashAlgorithm::Sha256, "sha256:"),
        (HashAlgorithm::Sha512, "sha512:"),
        (HashAlgorithm::Sha1, "sha1:"),
        (HashAlgorithm::Md5, "md5:"),
    ] {
        let ev = create_evidence_with_options(
            "application/octet-stream",
            b"data",
            EvidenceOptions { hash_algorithm: algo, description: Some("test".into()) },
        );
        assert!(ev.hash.as_ref().unwrap().starts_with(prefix));
        assert_eq!(ev.description.as_deref(), Some("test"));
    }
}

#[test]
fn create_evidence_known_sha256_digest() {
    let ev = create_evidence("text/plain", b"hello, xarf!");
    let expected = format!("sha256:{}", encode_for_test(&sha2_sha256(b"hello, xarf!")));
    assert_eq!(ev.hash.as_deref(), Some(expected.as_str()));
}

#[test]
fn evidence_digests_and_encodings_are_exact() {
    let ev = create_evidence("text/plain", b"hello");
    assert_eq!(
        ev.hash.as_deref(),
        Some("sha256:2cf24dba5fb0a30e26e83b2ac5b9e29e1b161e5c1fa7425e73043362938b9824")
    );
    assert_eq!(ev.payload, "aGVsbG8=");
    assert_eq!(ev.content_type, "text/plain");
    assert!(ev.description.is_none());
    for (algo, expected) in [
        (HashAlgorithm::Sha1, "sha1:a17c9aaa61e80a1bf71d0d850af4e5baa9800bbd"),
        (HashAlgorithm::Md5, "md5:8d777f385d3dfec8815d20f7496026dc"),
        (HashAlgorithm::Sha256, "sha256:3a6eb0790f39ac87c94f3856b2dd2c5d110e6811602261a9a923d3bb23adc8b7"),
    ] {
        let ev = create_evidence_with_options(
            "application/octet-stream",
            b"data",
            EvidenceOptions { hash_algorithm: algo, description: None },
        );
        assert_eq!(ev.hash.as_deref(), Some(expected));
        assert_eq!(ev.payload, "ZGF0YQ==");
        assert_eq!(ev.size, Some(4));
    }
    let ev = create_evidence_with_options(
        "application/octet-stream",
        b"data",
        EvidenceOptions { hash_algorithm: HashAlgorithm::Sha512, description: None },
    );
    let h = ev.hash.unwrap();
    assert!(h.starts_with("sha512:"));
    assert_eq!(h.len(), "sha512:".len() + 128);
    assert_eq!(HashAlgorithm::Md5.prefix(), "md5");
    assert_eq!(HashAlgorithm::default(), HashAlgorithm::Sha256);
}

#[test]
fn base64_padding_cases() {
    assert_eq!(create_evidence("t", b"").payload, "");
    assert_eq!(create_evidence("t", b"f").payload, "Zg==");
    assert_eq!(create_evidence("t", b"fo").payload, "Zm8=");
    assert_eq!(create_evidence("t", b"foo").payload, "Zm9v");
    assert_eq!(create_evidence("t", b"foob").payload, "Zm9vYg==");
}

#[test]
fn hex_is_lower_case_two_digits_per_byte() {
    assert_eq!(hex(&[0x00, 0x0f, 0xab, 0xff]), "000fabff");
    assert_eq!(xarf::hex::encode(&[1, 2, 254]), "0102fe");
    assert_eq!(hex(&[]), "");
}

#[test]
fn error_messages_follow_their_variant() {
    assert_eq!(XarfError::InvalidJson("x".into()).message(), "invalid JSON: x");
    assert_eq!(XarfError::Schema("s".into()).message(), "schema error: s");
    assert_eq!(XarfError::V3Conversion("v".into()).message(), "v3 conversion failed: v");
    assert_eq!(XarfError::Evidence("e".into()).message(), "evidence error: e");
    let v = XarfError::Validation(vec![
        ValidationError::new("a".into(), "b".into()),
        ValidationError::new("c".into(), "d".into()),
    ]);
    assert_eq!(v.message(), "schema validation failed (2 error(s))");
}

#[test]
fn evidence_hash_lengths_follow_the_algorithm() {
    for (algo, prefix, hex_len) in [
        (HashAlgorithm::Sha256, "sha256:", 64),
        (HashAlgorithm::Sha512, "sha512:", 128),
        (HashAlgorithm::Sha1, "sha1:", 40),
        (HashAlgorithm::Md5, "md5:", 32),
    ] {
        let ev = create_evidence_with_options(
            "application/octet-stream",
            b"payload bytes",
            EvidenceOptions { hash_algorithm: algo, description: None },
        );
        let hash = ev.hash.unwrap();
        assert_eq!(hash.len(), prefix.len() + hex_len, "{hash}");
        assert!(hash[prefix.len()..].chars().all(|c| c.is_ascii_digit() || ('a'..='f').contains(&c)));
    }
}
