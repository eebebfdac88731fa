//! Policy parsing, the ciphersuite table, and fingerprint stability.

use veracruz::error::VeracruzClientError;
use veracruz::policy::{lookup_ciphersuite, policy_hash_hex, Platform, Policy};

const POLICY_JSON: &str = r#"{
  "veracruz_server_url": "127.0.0.1:3011",
  "ciphersuite": "TLS1_2_ECDHE_RSA_WITH_CHACHA20_POLY1305_SHA256",
  "proxy_service_cert": "-----BEGIN CERTIFICATE-----\nMIIB\n-----END CERTIFICATE-----",
  "runtime_manager_hash_nitro": "010203"
}"#;

#[test]
fn policy_parses_its_fields() {
    let p = Policy::from_json(POLICY_JSON).unwrap();
    assert_eq!(p.server_url, "127.0.0.1:3011");
    assert_eq!(p.ciphersuite, "TLS1_2_ECDHE_RSA_WITH_CHACHA20_POLY1305_SHA256");
    assert!(p.proxy_service_cert.starts_with("-----BEGIN CERTIFICATE-----"));
    assert_eq!(p.hash_nitro.as_deref(), Some("010203"));
    assert_eq!(p.hash_linux, None);
    assert_eq!(p.hash_icecap, None);
    assert_eq!(p.runtime_hash(Platform::Nitro).map(String::as_str), Some("010203"));
    assert_eq!(p.runtime_hash(Platform::Linux), None);
    assert_eq!(p.ciphersuite_id(), 0xCCA8);
    assert_eq!(p.server_url().as_str(), "127.0.0.1:3011");
}

#[test]
fn invalid_json_is_malformed() {
    assert_eq!(Policy::from_json("not json").unwrap_err(), VeracruzClientError::MalformedPolicy);
}

#[test]
fn missing_required_field_is_malformed() {
    let text = r#"{"ciphersuite": "TLS1_2_ECDHE_RSA_WITH_CHACHA20_POLY1305_SHA256"}"#;
    assert_eq!(Policy::from_json(text).unwrap_err(), VeracruzClientError::MalformedPolicy);
}

#[test]
fn policy_without_any_runtime_hash_is_malformed() {
    let text = r#"{
      "veracruz_server_url": "h:1",
      "ciphersuite": "TLS1_2_ECDHE_RSA_WITH_CHACHA20_POLY1305_SHA256",
      "proxy_service_cert": "c"
    }"#;
    assert_eq!(Policy::from_json(text).unwrap_err(), VeracruzClientError::MalformedPolicy);
}

#[test]
fn unknown_ciphersuite_is_refused() {
    let text = r#"{
      "veracruz_server_url": "h:1",
      "ciphersuite": "TLS1_3_AES_128_GCM_SHA256",
      "proxy_service_cert": "c",
      "runtime_manager_hash_linux": "aa"
    }"#;
    assert_eq!(Policy::from_json(text).unwrap_err(), VeracruzClientError::UnknownCiphersuite);
}

#[test]
fn ciphersuite_table() {
    let known = "TLS1_2_ECDHE_RSA_WITH_CHACHA20_POLY1305_SHA256".to_string();
    assert_eq!(lookup_ciphersuite(&known), Some(0xCCA8));
    assert_eq!(lookup_ciphersuite(&"bogus".to_string()), None);
}

#[test]
fn policy_hash_is_sha256_of_the_raw_text() {
    assert_eq!(
        policy_hash_hex("abc"),
        "ba7816bf8f01cfea414140de5dae2223b00361a396177a9cb410ff61f20015ad"
    );
    assert_eq!(
        policy_hash_hex(""),
        "e3b0c44298fc1c149afbf4c8996fb92427ae41e4649b934ca495991b7852b855"
    );
}

#[test]
fn policy_hash_is_stable_across_computations() {
    let h1 = policy_hash_hex(POLICY_JSON);
    let h2 = policy_hash_hex(POLICY_JSON);
    assert_eq!(h1, h2);
    assert_eq!(h1.len(), 64);
}
