//! What the client claims to be.

use base64::Engine;
use gumicord::json::{Json, Number};
use gumicord::model::identity::{
    fallback_build_number, locale, locale_from, measured_build_number, os_name,
    resolve_build_number, set_measured_build_number, timezone_offset_minutes, user_agent,
    Identity, Measured, Os, Surroundings, CLIENT_VERSION,
};

fn surroundings() -> Surroundings {
    Surroundings {
        os: Os::Windows,
        client_version: None,
        client_build: None,
        measured: None,
        system_locale: locale(),
    }
}

fn detect() -> Identity {
    Identity::detect(&surroundings())
}

fn value(j: &Json) -> serde_json::Value {
    match j {
        Json::Null => serde_json::Value::Null,
        Json::Bool(b) => serde_json::Value::Bool(*b),
        Json::Number(Number::Unsigned(u)) => serde_json::Value::from(*u),
        Json::Number(Number::Negative(i)) => serde_json::Value::from(*i),
        Json::Number(Number::Other) => panic!("a number that is not kept"),
        Json::Text(s) => serde_json::Value::from(s.clone()),
        Json::Array(a) => a.iter().map(value).collect(),
        Json::Object(o) => {
            serde_json::Value::Object(o.iter().map(|(k, v)| (k.clone(), value(v))).collect())
        }
    }
}

fn text<'a>(j: &'a Json, key: &str) -> &'a str {
    j.get(key).and_then(|v| v.as_text()).expect("no such text")
}

#[test]
fn both_transports_claim_the_same_thing() {
    let id = detect();
    let decoded = base64::engine::general_purpose::STANDARD
        .decode(id.super_properties())
        .expect("malformed base64");
    let parsed: serde_json::Value = serde_json::from_slice(&decoded).expect("malformed JSON");
    assert_eq!(parsed, value(&id.properties()));
    assert_eq!(parsed["client_build_number"], fallback_build_number());
    assert!(parsed["native_build_number"].is_null());
}

#[test]
fn the_user_agent_matches_the_claim() {
    let id = detect();
    assert_eq!(id.user_agent(), text(&id.properties(), "browser_user_agent"));
}

/// A stale user agent beside a fresh version is itself a mismatch.
#[test]
fn changing_the_version_carries_the_whole_claim() {
    let id = Identity::detect(&Surroundings {
        client_version: Some("9.9.9999".to_owned()),
        ..surroundings()
    });
    assert!(id.user_agent().contains("discord/9.9.9999"));
    assert_eq!(text(&id.properties(), "client_version"), "9.9.9999");
}

#[test]
fn desktop_claims_no_device() {
    assert_eq!(detect().device, "");
}

#[test]
fn the_os_name_is_capitalised() {
    for s in [Os::Windows, Os::Mac, Os::Other] {
        let os = os_name(s);
        assert!(
            os.chars().next().is_some_and(char::is_uppercase),
            "lowercase os name: {os}"
        );
    }
}

#[test]
fn without_measurement_or_override_the_baked_in_value_is_used() {
    assert_eq!(resolve_build_number(None, None), fallback_build_number());
}

#[test]
fn a_measured_build_number_wins_over_the_baked_in_one() {
    // Differ from the fallback, or the test proves nothing.
    let measured = fallback_build_number() + 1;
    assert_eq!(resolve_build_number(None, Some(measured)), measured);
    assert_ne!(resolve_build_number(None, Some(measured)), fallback_build_number());
}

/// Otherwise `GUMICORD_CLIENT_BUILD` would be meaningless.
#[test]
fn the_environment_wins_over_measurement() {
    assert_eq!(resolve_build_number(Some(451_672), Some(595_897)), 451_672);
}

#[test]
fn a_measured_build_number_reads_back() {
    let mut measured = Measured { build: 0 };
    set_measured_build_number(&mut measured, 123_456);
    assert_eq!(measured_build_number(&measured), Some(123_456));
    set_measured_build_number(&mut measured, 0);
    assert_eq!(measured_build_number(&measured), None);
}

#[test]
fn an_empty_override_counts_as_none() {
    let id = Identity::detect(&Surroundings {
        client_version: Some(String::new()),
        client_build: Some("12x".to_owned()),
        ..surroundings()
    });
    assert_eq!(id.client_version, CLIENT_VERSION);
    assert_eq!(id.client_build_number, fallback_build_number());
    let id = Identity::detect(&Surroundings {
        client_build: Some("451672".to_owned()),
        measured: Some(7),
        ..surroundings()
    });
    assert_eq!(id.client_build_number, 451_672);
}

#[test]
fn the_agent_names_every_version() {
    assert_eq!(
        user_agent(Os::Windows, "1.2.3"),
        "Mozilla/5.0 (Windows NT 10.0; Win64; x64) AppleWebKit/537.36 (KHTML, like Gecko) \
         discord/1.2.3 Chrome/134.0.6998.205 Electron/35.7.5 Safari/537.36"
    );
}

#[test]
fn a_language_tag_has_hyphens() {
    assert_eq!(locale_from(Some("ja_JP".to_owned())), "ja-JP");
    assert_eq!(locale_from(None), "en-US");
    let here = locale();
    assert!(!here.is_empty() && !here.contains('_'), "{here}");
}

#[test]
fn the_offset_is_the_machines_own() {
    assert_eq!(timezone_offset_minutes(540), 540);
    assert_eq!(timezone_offset_minutes(-210), -210);
}
