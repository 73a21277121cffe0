//! Signing in with a phone.

use base64::Engine;
use gumicord::gateway::remote_auth::{
    parse_user, Envelope, KeyPair, RemoteAuth, RemoteAuthError, RemoteAuthEvent, KEY_BITS,
    QR_PREFIX,
};
use gumicord::json::Json;
use gumicord::model::UserId;
use rsa::pkcs8::DecodePublicKey;
use rsa::sha2::{Digest, Sha256};
use rsa::traits::PublicKeyParts;

fn auth() -> RemoteAuth {
    let key = match KeyPair::generate() {
        Ok(key) => key,
        Err(e) => panic!("{}", e.to_string()),
    };
    match RemoteAuth::with_key(key) {
        Ok(a) => a,
        Err(e) => panic!("{}", e.to_string()),
    }
}

fn message(op: &str) -> Envelope {
    Envelope {
        op: op.to_owned(),
        heartbeat_interval: None,
        encrypted_nonce: None,
        fingerprint: None,
        encrypted_user_payload: None,
        ticket: None,
    }
}

/// The public key (SPKI DER), as it is sent after hello.
fn public_der(a: &mut RemoteAuth) -> Vec<u8> {
    let reply = a.handle(Ok(message("hello"))).unwrap();
    let sent = reply.send.expect("nothing sent");
    let shown = sent.get("encoded_public_key").and_then(|k| k.as_text()).expect("no key");
    base64::engine::general_purpose::STANDARD.decode(shown).expect("not base64")
}

/// Encrypts for the key, the way the gateway does.
fn sealed(a: &mut RemoteAuth, bytes: &[u8]) -> String {
    let key = rsa::RsaPublicKey::from_public_key_der(&public_der(a)).expect("not a key");
    let out = key
        .encrypt(&mut rsa::rand_core::OsRng, rsa::Oaep::new::<Sha256>(), bytes)
        .expect("too long");
    base64::engine::general_purpose::STANDARD.encode(out)
}

fn digest(bytes: &[u8]) -> String {
    base64::engine::general_purpose::URL_SAFE_NO_PAD.encode(Sha256::digest(bytes))
}

/// A key that is made has the length the official client uses.
#[test]
fn a_new_key_has_its_length() {
    let key = KeyPair::generate().expect("no key");
    assert_eq!(key.bits(), Some(2048));
    assert_eq!(KEY_BITS, 2048);
    let mut a = auth();
    let public = rsa::RsaPublicKey::from_public_key_der(&public_der(&mut a)).expect("not a key");
    assert_eq!(public.n().bits(), KEY_BITS);
}

#[test]
fn a_user_payload_is_colon_delimited() {
    let u = parse_user("1234:0:abc123:ねんねこ").unwrap();
    assert_eq!(u.id, UserId::from(1234u64));
    assert_eq!(u.discriminator, "0");
    assert_eq!(u.avatar.as_deref(), Some("abc123"));
    assert_eq!(u.username, "ねんねこ");
}

/// A username may contain a colon; only the first three are split off.
#[test]
fn a_username_may_contain_colons() {
    let u = parse_user("1:0::a:b:c").unwrap();
    assert_eq!(u.username, "a:b:c");
    assert_eq!(u.avatar, None, "空のアバターは None");
}

#[test]
fn a_malformed_payload_is_an_error_not_a_panic() {
    assert!(parse_user("").is_err());
    assert!(parse_user("1:0").is_err());
    assert!(parse_user("数字でない:0:x:y").is_err());
}

/// The QR URL is the base with the fingerprint appended.
#[test]
fn the_qr_url_is_the_prefix_plus_the_fingerprint() {
    assert_eq!(format!("{QR_PREFIX}abc"), "https://discord.com/ra/abc");
}

/// The fingerprint is the public key's SHA-256, base64url and unpadded.
///
/// Padding would change the QR and stop it matching when scanned.
#[test]
fn the_fingerprint_is_url_safe_and_unpadded() {
    // A 32-byte digest is 44 base64 characters with padding, 43 without.
    let mut a = auth();
    let encoded = a.expected_fingerprint();
    assert_eq!(encoded, digest(&public_der(&mut a)));

    assert_eq!(encoded.len(), 43, "詰め物が付いている");
    assert!(!encoded.contains('='), "詰め物が付いている");
    assert!(!encoded.contains('+') && !encoded.contains('/'), "URL 安全でない");
}

/// Hello is answered with our public key. Only once that went out is the run
/// initialised.
#[test]
fn hello_is_answered_with_the_public_key() {
    let mut a = auth();
    let der = public_der(&mut a);
    let hello = Envelope { heartbeat_interval: Some(41_250), ..message("hello") };
    let sent = a.handle(Ok(hello)).unwrap().send.expect("nothing sent");
    assert_eq!(
        sent,
        Json::object()
            .with("op", Json::text("init"))
            .with("encoded_public_key", Json::text(
                &base64::engine::general_purpose::STANDARD.encode(der)
            ))
    );
    assert_eq!(a.heartbeat_ms(), 41_250);
    assert!(!a.initialised(), "nothing went out yet");
    let beat = a.heartbeat();
    assert_eq!(beat, Json::object().with("op", Json::text("heartbeat")));
    a.sent(&beat);
    assert!(!a.initialised());
    a.sent(&sent);
    assert!(a.initialised());
}

/// The proof is the digest of the decrypted nonce.
#[test]
fn the_nonce_is_proved_by_its_digest() {
    let mut a = auth();
    let nonce = sealed(&mut a, b"nonce");
    let proof = Envelope { encrypted_nonce: Some(nonce), ..message("nonce_proof") };
    let sent = a.handle(Ok(proof)).unwrap().send.expect("nothing sent");
    assert_eq!(sent.get("op"), Some(&Json::text("nonce_proof")));
    assert_eq!(sent.get("proof"), Some(&Json::text(&digest(b"nonce"))));
}

/// The QR carries our own fingerprint or nothing: a foreign one is refused.
#[test]
fn a_foreign_fingerprint_is_refused() {
    let mut a = auth();
    let ours = a.expected_fingerprint();
    let ready =
        Envelope { fingerprint: Some(ours.clone()), ..message("pending_remote_init") };
    assert_eq!(
        a.handle(Ok(ready)).unwrap().event,
        Some(RemoteAuthEvent::Ready { url: format!("{QR_PREFIX}{ours}"), fingerprint: ours })
    );
    let foreign =
        Envelope { fingerprint: Some("abc".to_owned()), ..message("pending_remote_init") };
    assert!(matches!(a.handle(Ok(foreign)), Err(RemoteAuthError::Protocol(_))));
}

#[test]
fn a_scan_an_approval_and_a_cancel_are_reported() {
    let mut a = auth();
    let payload = sealed(&mut a, "1234:0:abc123:ねんねこ".as_bytes());
    let scan = Envelope { encrypted_user_payload: Some(payload), ..message("pending_ticket") };
    match a.handle(Ok(scan)).unwrap().event {
        Some(RemoteAuthEvent::Scanned(u)) => assert_eq!(u.username, "ねんねこ"),
        other => panic!("{other:?}"),
    }
    let login = Envelope { ticket: Some("t".to_owned()), ..message("pending_login") };
    assert_eq!(
        a.handle(Ok(login)).unwrap().event,
        Some(RemoteAuthEvent::Approved { ticket: "t".to_owned() })
    );
    assert_eq!(
        a.handle(Ok(message("cancel"))).unwrap().event,
        Some(RemoteAuthEvent::Cancelled)
    );
    let unknown = a.handle(Ok(message("heartbeat_ack"))).unwrap();
    assert!(unknown.send.is_none() && unknown.event.is_none());
}

#[test]
fn the_token_is_opened_here() {
    let mut a = auth();
    let token = sealed(&mut a, b"a.token");
    let rubbish = sealed(&mut a, &[0xff]);
    assert_eq!(a.decrypt_token(&token).unwrap().expose(), "a.token");
    assert!(matches!(a.decrypt_token("***"), Err(RemoteAuthError::Base64)));
    assert!(matches!(a.decrypt_token("AAAA"), Err(RemoteAuthError::Decrypt)));
    assert!(matches!(a.decrypt_token(&rubbish), Err(RemoteAuthError::Protocol(_))));
}

#[test]
fn what_is_missing_is_named() {
    let mut a = auth();
    for (op, want) in [
        ("nonce_proof", "encrypted_nonce が無い"),
        ("pending_remote_init", "fingerprint が無い"),
        ("pending_ticket", "encrypted_user_payload が無い"),
        ("pending_login", "ticket が無い"),
    ] {
        assert_eq!(
            a.handle(Ok(message(op))),
            Err(RemoteAuthError::Protocol(want.to_owned())),
            "{op}"
        );
    }
    // What cannot be read at all is passed on in the reader's words.
    assert_eq!(
        a.handle(Err("missing field `op`".to_owned())),
        Err(RemoteAuthError::Protocol("missing field `op`".to_owned()))
    );
    assert_eq!(RemoteAuthError::Closed.to_string(), "接続が閉じられた");
    assert_eq!(
        RemoteAuthError::KeyGen("x".to_owned()).to_string(),
        "鍵ペアを作れない: x"
    );
}
