use base64::engine::general_purpose::{STANDARD, URL_SAFE_NO_PAD};
use base64::Engine;
use ed25519_dalek::{Signer, SigningKey};
use tango_bridge::auth::{is_authenticated, is_authenticated_at};
use tango_bridge::challenge::{challenge_text, ChallengeStore};
use tango_bridge::keys::{split_list, KeyRing};
use tango_bridge::params::QueryParams;
use tango_bridge::pin::PinStore;
use tango_bridge::ping::{ping_response, push_json_string};
use tango_bridge::token::{current_unix_secs, verify_token, verify_token_at};

const NOW: i64 = 1705276800;

fn signing_key(seed: u8) -> SigningKey {
    SigningKey::from_bytes(&[seed; 32])
}

fn public_key_text(key: &SigningKey) -> String {
    STANDARD.encode(key.verifying_key().to_bytes())
}

fn sign(key: &SigningKey, message: &str) -> String {
    URL_SAFE_NO_PAD.encode(key.sign(message.as_bytes()).to_bytes())
}

fn params(pairs: &[(&str, &str)]) -> QueryParams {
    let mut p = QueryParams::new();
    for (k, v) in pairs {
        p.insert(k.to_string(), v.to_string());
    }
    p
}

fn ring_of(key: &SigningKey) -> KeyRing {
    KeyRing::from_config(Some(&public_key_text(key)), None)
}

#[test]
fn key_lists_are_split_at_commas() {
    assert_eq!(split_list("a,b"), vec!["a".to_string(), "b".to_string()]);
    assert_eq!(split_list(""), vec!["".to_string()]);
    assert_eq!(split_list(",x,"), vec!["".to_string(), "x".to_string(), "".to_string()]);
}

#[test]
fn key_ring_keeps_valid_keys_in_order() {
    let k1 = public_key_text(&signing_key(1));
    let k2 = public_key_text(&signing_key(2));
    let k3 = public_key_text(&signing_key(3));
    let build = format!("{},not base64,{}", k1, k2);
    let ring = KeyRing::from_config(Some(&build), Some(&k3));
    assert_eq!(ring.len(), 3);
    assert_eq!(ring.key_texts(), vec![k1, k2, k3]);
    assert_eq!(KeyRing::from_config(None, None).len(), 0);
    assert_eq!(KeyRing::from_config(Some(&STANDARD.encode([1u8; 31])), None).len(), 0);
}

#[test]
fn challenges_are_22_url_safe_characters() {
    let mut store = ChallengeStore::new();
    let c1 = store.issue_challenge(NOW);
    let c2 = store.issue_challenge(NOW);
    assert_eq!(c1.len(), 22);
    assert!(c1.chars().all(|c| c.is_ascii_alphanumeric() || c == '-' || c == '_'));
    assert_ne!(c1, c2);
    assert_eq!(URL_SAFE_NO_PAD.decode(&c1).unwrap().len(), 16);
}

#[test]
fn challenge_text_is_url_safe_base64_of_the_bytes() {
    assert_eq!(challenge_text(&[0u8; 16]), "AAAAAAAAAAAAAAAAAAAAAA");
    assert_eq!(challenge_text(&[0xffu8; 16]), "_____________________w");
    let bytes: Vec<u8> = (0u8..16).collect();
    assert_eq!(challenge_text(&bytes), URL_SAFE_NO_PAD.encode(&bytes));
    assert_eq!(challenge_text(&bytes), "AAECAwQFBgcICQoLDA0ODw");
}

#[test]
fn challenges_live_for_an_hour() {
    let mut store = ChallengeStore::new();
    let c = store.issue_challenge(NOW);
    assert!(store.is_live_challenge(&c, NOW));
    assert!(store.is_live_challenge(&c, NOW + 3599));
    assert!(!store.is_live_challenge(&c, NOW + 3600));
    assert!(!store.is_live_challenge(&c, NOW - 1));
    assert!(!store.is_live_challenge("never-issued", NOW));
}

#[test]
fn expired_challenges_are_dropped_and_live_ones_kept() {
    let mut store = ChallengeStore::new();
    let old = store.issue_challenge(NOW);
    let recent = store.issue_challenge(NOW + 3000);
    let _ = store.issue_challenge(NOW + 3700);
    assert!(!store.is_live_challenge(&old, NOW + 3700));
    assert!(store.is_live_challenge(&recent, NOW + 3700));
}

#[test]
fn token_signing_a_live_challenge_is_accepted() {
    let key = signing_key(7);
    let ring = ring_of(&key);
    let mut store = ChallengeStore::new();
    let c = store.issue_challenge(NOW);
    let token = sign(&key, &c);
    assert!(verify_token_at(&ring, &store, &c, &token, NOW + 10));
    assert!(verify_token_at(&ring, &store, &c, &token, NOW + 3599));
    assert!(!verify_token_at(&ring, &store, &c, &token, NOW + 3600));
}

#[test]
fn token_in_standard_base64_is_accepted() {
    let key = signing_key(7);
    let ring = ring_of(&key);
    let mut store = ChallengeStore::new();
    let c = store.issue_challenge(NOW);
    let token = STANDARD.encode(key.sign(c.as_bytes()).to_bytes());
    assert!(verify_token_at(&ring, &store, &c, &token, NOW));
}

#[test]
fn token_by_any_configured_key_is_accepted() {
    let k1 = signing_key(1);
    let k2 = signing_key(2);
    let k3 = signing_key(3);
    let build = format!("{},{}", public_key_text(&k1), public_key_text(&k2));
    let ring = KeyRing::from_config(Some(&build), Some(&public_key_text(&k3)));
    let mut store = ChallengeStore::new();
    let c = store.issue_challenge(NOW);
    for key in [&k1, &k2, &k3] {
        assert!(verify_token_at(&ring, &store, &c, &sign(key, &c), NOW));
    }
    let other = signing_key(4);
    assert!(!verify_token_at(&ring, &store, &c, &sign(&other, &c), NOW));
}

#[test]
fn runtime_key_alone_is_trusted() {
    let key = signing_key(5);
    let ring = KeyRing::from_config(None, Some(&public_key_text(&key)));
    let mut store = ChallengeStore::new();
    let c = store.issue_challenge(NOW);
    assert!(verify_token_at(&ring, &store, &c, &sign(&key, &c), NOW));
}

#[test]
fn token_over_other_text_is_refused() {
    let key = signing_key(7);
    let ring = ring_of(&key);
    let mut store = ChallengeStore::new();
    let c = store.issue_challenge(NOW);
    // a signature of a text that was never issued
    let made_up = "AAAAAAAAAAAAAAAAAAAAAA";
    assert!(!verify_token_at(&ring, &store, made_up, &sign(&key, made_up), NOW));
    // a signature of the date, which is no challenge
    assert!(!verify_token_at(&ring, &store, "2024-01-15", &sign(&key, "2024-01-15"), NOW));
    // a signature of another text presented with a live challenge
    assert!(!verify_token_at(&ring, &store, &c, &sign(&key, "2024-01-15"), NOW));
}

#[test]
fn malformed_tokens_are_refused() {
    let key = signing_key(7);
    let ring = ring_of(&key);
    let mut store = ChallengeStore::new();
    let c = store.issue_challenge(NOW);
    assert!(!verify_token_at(&ring, &store, &c, "%%%", NOW));
    let short = URL_SAFE_NO_PAD.encode(&key.sign(c.as_bytes()).to_bytes()[..63]);
    assert!(!verify_token_at(&ring, &store, &c, &short, NOW));
}

#[test]
fn no_key_no_token() {
    let key = signing_key(7);
    let ring = KeyRing::from_config(None, None);
    let mut store = ChallengeStore::new();
    let c = store.issue_challenge(NOW);
    assert!(!verify_token_at(&ring, &store, &c, &sign(&key, &c), NOW));
}

#[test]
fn token_for_a_challenge_issued_now_is_accepted_by_the_clock() {
    let key = signing_key(7);
    let ring = ring_of(&key);
    let mut store = ChallengeStore::new();
    let c = store.issue_challenge(current_unix_secs());
    assert!(verify_token(&ring, &store, &c, &sign(&key, &c)));
    assert!(!verify_token(&ring, &store, "unknown", &sign(&key, "unknown")));
}

#[test]
fn ping_answers_json_with_a_fresh_challenge() {
    let k1 = public_key_text(&signing_key(1));
    let k2 = public_key_text(&signing_key(2));
    let ring = KeyRing::from_config(Some(&format!("{},{}", k1, k2)), None);
    let mut store = ChallengeStore::new();
    let body = ping_response(&mut store, &ring, NOW);
    let prefix = "{\"version\":\"0.3.0\",\"challenge\":\"";
    assert!(body.starts_with(prefix));
    let challenge = &body[prefix.len()..prefix.len() + 22];
    assert!(store.is_live_challenge(challenge, NOW));
    let rest = &body[prefix.len() + 22..];
    assert_eq!(
        rest,
        format!("\",\"publicKeys\":[\"{}\",\"{}\"],\"challengeTtl\":3600}}", k1, k2)
    );
}

#[test]
fn ping_without_keys_lists_none() {
    let ring = KeyRing::from_config(None, None);
    let mut store = ChallengeStore::new();
    let body = ping_response(&mut store, &ring, NOW);
    assert!(body.ends_with("\",\"publicKeys\":[],\"challengeTtl\":3600}"));
}

#[test]
fn json_strings_are_escaped() {
    let mut out = String::new();
    push_json_string(&mut out, "a\"b\\c\nd\u{1}é");
    assert_eq!(out, "\"a\\\"b\\\\c\\u000ad\\u0001é\"");
}

#[test]
fn query_params_keep_the_last_value() {
    let p = params(&[("pin", "1"), ("token", "t"), ("pin", "2")]);
    assert_eq!(p.get("pin").map(|s| s.as_str()), Some("2"));
    assert_eq!(p.get("token").map(|s| s.as_str()), Some("t"));
    assert_eq!(p.get("other"), None);
}

#[test]
fn pin_parameter_authenticates() {
    let mut store = PinStore::new();
    store.init_pin("042817".to_string());
    let ring = KeyRing::from_config(None, None);
    let challenges = ChallengeStore::new();
    assert!(is_authenticated(&store, &ring, &challenges, &params(&[("pin", "042817")])));
    assert!(!is_authenticated(&store, &ring, &challenges, &params(&[("pin", "042818")])));
    assert!(!is_authenticated(&store, &ring, &challenges, &params(&[])));
}

#[test]
fn pin_is_refused_before_startup_sets_it() {
    let store = PinStore::new();
    let ring = KeyRing::from_config(None, None);
    let challenges = ChallengeStore::new();
    assert!(!is_authenticated(&store, &ring, &challenges, &params(&[("pin", "042817")])));
}

#[test]
fn challenge_and_token_parameters_authenticate() {
    let key = signing_key(7);
    let ring = ring_of(&key);
    let mut challenges = ChallengeStore::new();
    let c = challenges.issue_challenge(NOW);
    let token = sign(&key, &c);
    let store = PinStore::new();
    assert!(is_authenticated_at(&store, &ring, &challenges, &params(&[("challenge", &c), ("token", &token)]), NOW));
    assert!(!is_authenticated_at(&store, &ring, &challenges, &params(&[("token", &token)]), NOW));
    assert!(!is_authenticated_at(&store, &ring, &challenges, &params(&[("challenge", &c), ("token", &token)]), NOW + 3600));
}

#[test]
fn bad_token_falls_back_to_pin() {
    let mut store = PinStore::new();
    store.init_pin("123456".to_string());
    let ring = KeyRing::from_config(None, None);
    let challenges = ChallengeStore::new();
    let p = params(&[("challenge", "x"), ("token", "bogus"), ("pin", "123456")]);
    assert!(is_authenticated_at(&store, &ring, &challenges, &p, NOW));
    let p = params(&[("challenge", "x"), ("token", "bogus"), ("pin", "654321")]);
    assert!(!is_authenticated_at(&store, &ring, &challenges, &p, NOW));
}
