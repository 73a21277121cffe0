//! What this client claims to be.
//!
//! The server receives the same claim twice: when identifying on the gateway
//! and, base64-encoded, in a REST header. They must not disagree, so both are
//! built from one source, including the HTTP `User-Agent`.
//!
//! The build number is measured at startup from the login page; the one here
//! is only the fallback. The client version cannot be measured. Both can be
//! overridden from the environment.

use vstd::prelude::*;
use vstd::string::*;
use crate::encoding::{base64_decoded, base64_encode, base64_encoded};
use crate::json::{json_written, write_json, Json, Number, Value};
use crate::text;

verus! {

/// Desktop client version claimed. Goes stale; cannot be measured.
pub const CLIENT_VERSION: &'static str = "1.0.9250";

/// Build number claimed when measurement fails.
pub const BUILD_NUMBER: u64 = 595_897;

/// Chromium version inside Electron.
pub const CHROME_VERSION: &'static str = "134.0.6998.205";

pub const ELECTRON_VERSION: &'static str = "35.7.5";

// ── the build number ───────────────────────────────────────────────────────

/// The build number measured at startup. Zero means "not measured yet".
#[derive(Debug, Clone, Copy, PartialEq, Eq, Structural)]
pub struct Measured {
    pub build: u64,
}

pub open spec fn measured_spec(m: Measured) -> Option<u64> {
    if m.build == 0 {
        None
    } else {
        Some(m.build)
    }
}

/// Records a measured build number for later [`Identity::detect`] calls.
///
/// Call this before constructing any [`Identity`]. Setting it afterwards
/// leaves the earlier one claiming the stale number, which makes the two
/// transports disagree.
pub fn set_measured_build_number(measured: &mut Measured, build: u64)
    ensures
        *final(measured) == (Measured { build }),
{
    measured.build = build;
}

pub fn measured_build_number(measured: &Measured) -> (r: Option<u64>)
    ensures
        r == measured_spec(*measured),
{
    if measured.build == 0 {
        None
    } else {
        Some(measured.build)
    }
}

/// The fallback build number. Public for logging and tests only.
pub fn fallback_build_number() -> (r: u64)
    ensures
        r == BUILD_NUMBER,
{
    BUILD_NUMBER
}

/// Environment beats measurement beats the baked-in value.
pub open spec fn resolved(from_env: Option<u64>, measured: Option<u64>) -> u64 {
    match from_env {
        Some(n) => n,
        None => match measured {
            Some(n) => n,
            None => BUILD_NUMBER,
        },
    }
}

/// Environment beats measurement beats the baked-in value.
pub fn resolve_build_number(from_env: Option<u64>, measured: Option<u64>) -> (r: u64)
    ensures
        r == resolved(from_env, measured),
{
    match (from_env, measured) {
        (Some(n), _) => n,
        (None, Some(n)) => n,
        (None, None) => BUILD_NUMBER,
    }
}

// ── the system ─────────────────────────────────────────────────────────────

/// The operating systems that are told apart.
#[derive(Debug, Clone, Copy, PartialEq, Eq, Structural)]
pub enum Os {
    Windows,
    Mac,
    Other,
}

pub open spec fn os_label(os: Os) -> Seq<char> {
    match os {
        Os::Windows => "Windows"@,
        Os::Mac => "Mac OS X"@,
        Os::Other => "Linux"@,
    }
}

pub open spec fn ua_label(os: Os) -> Seq<char> {
    match os {
        Os::Windows => "Windows NT 10.0; Win64; x64"@,
        Os::Mac => "Macintosh; Intel Mac OS X 10_15_7"@,
        Os::Other => "X11; Linux x86_64"@,
    }
}

pub open spec fn version_label(os: Os) -> Seq<char> {
    match os {
        Os::Windows => "10.0.26100"@,
        Os::Mac => "26.0.0"@,
        Os::Other => ""@,
    }
}

/// The name of the operating system, capitalised as the server expects it.
pub fn os_name(os: Os) -> (r: &'static str)
    ensures
        r@ == os_label(os),
{
    match os {
        Os::Windows => "Windows",
        Os::Mac => "Mac OS X",
        Os::Other => "Linux",
    }
}

fn ua_os(os: Os) -> (r: &'static str)
    ensures
        r@ == ua_label(os),
{
    match os {
        Os::Windows => "Windows NT 10.0; Win64; x64",
        Os::Mac => "Macintosh; Intel Mac OS X 10_15_7",
        Os::Other => "X11; Linux x86_64",
    }
}

/// A version any machine could plausibly report.
fn os_version(os: Os) -> (r: String)
    ensures
        r@ == version_label(os),
{
    match os {
        Os::Windows => "10.0.26100".to_owned(),
        Os::Mac => "26.0.0".to_owned(),
        Os::Other => "".to_owned(),
    }
}

/// The user agent of a client version.
pub open spec fn agent(os: Os, client_version: Seq<char>) -> Seq<char> {
    "Mozilla/5.0 ("@ + ua_label(os) + ") AppleWebKit/537.36 (KHTML, like Gecko) discord/"@
        + client_version + " Chrome/"@ + CHROME_VERSION@ + " Electron/"@ + ELECTRON_VERSION@
        + " Safari/537.36"@
}

pub fn user_agent(os: Os, client_version: &str) -> (r: String)
    ensures
        r@ == agent(os, client_version@),
{
    let mut s = "Mozilla/5.0 (".to_owned();
    s.append(ua_os(os));
    s.append(") AppleWebKit/537.36 (KHTML, like Gecko) discord/");
    s.append(client_version);
    s.append(" Chrome/");
    s.append(CHROME_VERSION);
    s.append(" Electron/");
    s.append(ELECTRON_VERSION);
    s.append(" Safari/537.36");
    s
}

// ── the language ───────────────────────────────────────────────────────────

/// A tag with hyphens in place of underscores.
pub open spec fn hyphenated(s: Seq<char>) -> Seq<char> {
    Seq::new(
        s.len(),
        |i: int|
            if s[i] == '_' {
                '-'
            } else {
                s[i]
            },
    )
}

/// The language to claim for what the system reports.
pub open spec fn claimed_locale(reported: Option<Seq<char>>) -> Seq<char> {
    match reported {
        Some(l) if l.len() > 0 => hyphenated(l),
        _ => "en-US"@,
    }
}

/// The language to claim for what the system reports, English where it reports
/// none.
pub fn locale_from(reported: Option<String>) -> (r: String)
    ensures
        r@ == claimed_locale(crate::model::opt_text(reported)),
{
    match reported {
        None => "en-US".to_owned(),
        Some(l) => {
            let c = text::chars(l.as_str());
            if c.len() == 0 {
                return "en-US".to_owned();
            }
            let mut out = String::new();
            let mut i: usize = 0;
            while i < c.len()
                invariant
                    i <= c.len(),
                    out@ =~= hyphenated(c@).take(i as int),
                decreases c.len() - i,
            {
                if c[i] == '_' {
                    out.push('-');
                } else {
                    out.push(c[i]);
                }
                i += 1;
            }
            assert(hyphenated(c@).take(i as int) =~= hyphenated(c@));
            out
        },
    }
}

/// `sys_locale::get_locale`: what the system reports as its language. That
/// depends on the machine, so nothing is said of it.
#[verifier::external_body]
fn get_locale() -> (r: Option<String>) {
    sys_locale::get_locale()
}

/// The system language, falling back to English. Whatever the system reports,
/// the tag is not empty and holds no underscore.
pub fn locale() -> (r: String)
    ensures
        exists|reported: Option<Seq<char>>| r@ == #[trigger] claimed_locale(reported),
        r@.len() > 0,
        forall|i: int| 0 <= i < r@.len() ==> #[trigger] r@[i] != '_',
{
    let reported = get_locale();
    let ghost given = crate::model::opt_text(reported);
    let r = locale_from(reported);
    proof {
        assert(r@ == claimed_locale(given));
        reveal_strlit("en-US");
    }
    r
}

/// Offset from UTC in minutes, as it is claimed: `local` is how far the
/// machine's own time is ahead of UTC.
///
/// The region name is not claimed: it is not available here, and deriving it
/// from the offset gets it wrong.
pub fn timezone_offset_minutes(local: i32) -> (r: i32)
    ensures
        r == local,
{
    local
}

// ── the claim ──────────────────────────────────────────────────────────────

/// What the claim is made from: the system, the overrides in the environment
/// as they stand there, and the measured build number.
#[derive(Debug, Clone)]
pub struct Surroundings {
    pub os: Os,
    pub client_version: Option<String>,
    pub client_build: Option<String>,
    pub measured: Option<u64>,
    pub system_locale: String,
}

/// What this client claims to be. Shared by the gateway and REST.
#[derive(Debug, Clone)]
pub struct Identity {
    pub os: &'static str,
    pub browser: &'static str,
    pub device: &'static str,
    pub system_locale: String,
    pub browser_user_agent: String,
    pub browser_version: String,
    pub os_version: String,
    pub release_channel: &'static str,
    pub client_version: String,
    pub client_build_number: u64,
}

/// [`Identity`] with the text as character sequences.
pub ghost struct Claim {
    pub os: Seq<char>,
    pub browser: Seq<char>,
    pub device: Seq<char>,
    pub system_locale: Seq<char>,
    pub browser_user_agent: Seq<char>,
    pub browser_version: Seq<char>,
    pub os_version: Seq<char>,
    pub release_channel: Seq<char>,
    pub client_version: Seq<char>,
    pub client_build_number: u64,
}

impl View for Identity {
    type V = Claim;

    open spec fn view(&self) -> Claim {
        Claim {
            os: self.os@,
            browser: self.browser@,
            device: self.device@,
            system_locale: self.system_locale@,
            browser_user_agent: self.browser_user_agent@,
            browser_version: self.browser_version@,
            os_version: self.os_version@,
            release_channel: self.release_channel@,
            client_version: self.client_version@,
            client_build_number: self.client_build_number,
        }
    }
}

/// An override that is set to something.
pub open spec fn set_text(s: Option<String>) -> Option<Seq<char>> {
    match s {
        Some(t) if t@.len() > 0 => Some(t@),
        _ => None,
    }
}

/// The version to claim: the override, else the baked-in one.
pub open spec fn version_claimed(s: Surroundings) -> Seq<char> {
    match set_text(s.client_version) {
        Some(v) => v,
        None => CLIENT_VERSION@,
    }
}

/// The build to claim: the override where it is a number, else as measured,
/// else the baked-in one.
pub open spec fn build_claimed(s: Surroundings) -> u64 {
    let from_env = match set_text(s.client_build) {
        Some(t) => crate::model::snowflake::id_of(t),
        None => None,
    };
    resolved(from_env, s.measured)
}

/// The claim made in these surroundings.
pub open spec fn claim_of(s: Surroundings) -> Claim {
    Claim {
        os: os_label(s.os),
        browser: "Discord Client"@,
        device: ""@,
        system_locale: s.system_locale@,
        browser_user_agent: agent(s.os, version_claimed(s)),
        browser_version: ELECTRON_VERSION@,
        os_version: version_label(s.os),
        release_channel: "stable"@,
        client_version: version_claimed(s),
        client_build_number: build_claimed(s),
    }
}

pub open spec fn member(key: Seq<char>, value: Seq<char>) -> (Seq<char>, Value) {
    (key, Value::Text(value))
}

/// The claim in the shape that the gateway takes.
pub open spec fn claim_json(c: Claim) -> Value {
    Value::Object(
        seq![
            member("os"@, c.os),
            member("browser"@, c.browser),
            member("device"@, c.device),
            member("system_locale"@, c.system_locale),
            member("browser_user_agent"@, c.browser_user_agent),
            member("browser_version"@, c.browser_version),
            member("os_version"@, c.os_version),
            member("referrer"@, ""@),
            member("referring_domain"@, ""@),
            member("referrer_current"@, ""@),
            member("referring_domain_current"@, ""@),
            member("release_channel"@, c.release_channel),
            ("client_build_number"@, Value::Number(Number::Unsigned(c.client_build_number))),
            ("client_event_source"@, Value::Null),
            member("client_version"@, c.client_version),
            ("native_build_number"@, Value::Null),
        ],
    )
}

/// The claim as the REST header carries it: what the gateway takes, written as
/// JSON and base64-encoded.
pub open spec fn claim_header(c: Claim) -> Seq<char> {
    base64_encoded(json_written(claim_json(c)))
}

fn text_member(key: &str, value: &str) -> (r: (String, Json))
    ensures
        r.0@ == key@,
        r.1@ == Value::Text(value@),
{
    (key.to_owned(), Json::Text(value.to_owned()))
}

impl Identity {
    /// The claim made in these surroundings.
    pub fn detect(s: &Surroundings) -> (r: Identity)
        ensures
            r@ == claim_of(*s),
    {
        let client_version = match &s.client_version {
            Some(v) => if text::chars(v.as_str()).len() > 0 {
                v.clone()
            } else {
                CLIENT_VERSION.to_owned()
            },
            None => CLIENT_VERSION.to_owned(),
        };
        let from_env = match &s.client_build {
            Some(b) => if text::chars(b.as_str()).len() > 0 {
                match crate::model::Snowflake::from_str(b.as_str()) {
                    Ok(n) => Some(n.0),
                    Err(_) => None,
                }
            } else {
                None
            },
            None => None,
        };
        Identity {
            os: os_name(s.os),
            browser: "Discord Client",
            // Desktop sends an empty device; anything else reads as mobile.
            device: "",
            system_locale: s.system_locale.clone(),
            browser_user_agent: user_agent(s.os, client_version.as_str()),
            browser_version: ELECTRON_VERSION.to_owned(),
            os_version: os_version(s.os),
            release_channel: "stable",
            client_version,
            client_build_number: resolve_build_number(from_env, s.measured),
        }
    }

    /// The shape that goes into the gateway's identify.
    pub fn properties(&self) -> (r: Json)
        ensures
            r@ == claim_json(self@),
    {
        let mut o: Vec<(String, Json)> = Vec::new();
        o.push(text_member("os", self.os));
        o.push(text_member("browser", self.browser));
        o.push(text_member("device", self.device));
        o.push(text_member("system_locale", self.system_locale.as_str()));
        o.push(text_member("browser_user_agent", self.browser_user_agent.as_str()));
        o.push(text_member("browser_version", self.browser_version.as_str()));
        o.push(text_member("os_version", self.os_version.as_str()));
        o.push(text_member("referrer", ""));
        o.push(text_member("referring_domain", ""));
        o.push(text_member("referrer_current", ""));
        o.push(text_member("referring_domain_current", ""));
        o.push(text_member("release_channel", self.release_channel));
        o.push(
            (
                "client_build_number".to_owned(),
                Json::Number(Number::Unsigned(self.client_build_number)),
            ),
        );
        o.push(("client_event_source".to_owned(), Json::Null));
        o.push(text_member("client_version", self.client_version.as_str()));
        o.push(("native_build_number".to_owned(), Json::Null));
        proof {
            crate::json::lemma_object_view(o);
            assert(crate::json::members_of(o@) =~= claim_json(self@)->Object_0);
        }
        Json::Object(o)
    }

    /// The HTTP `User-Agent`, identical to `browser_user_agent`.
    pub fn user_agent(&self) -> (r: &str)
        ensures
            r@ == self@.browser_user_agent,
    {
        self.browser_user_agent.as_str()
    }

    /// The REST header, built from [`Identity::properties`] so the two
    /// transports cannot drift apart.
    pub fn super_properties(&self) -> (r: String)
        ensures
            r@ == claim_header(self@),
            base64_decoded(r@) == Some(json_written(claim_json(self@))),
    {
        base64_encode(write_json(&self.properties()).as_slice())
    }
}

/// The user agent carries the version that is claimed, and the gateway and the
/// HTTP header claim the same agent.
pub proof fn one_version_everywhere(s: Surroundings)
    ensures
        claim_of(s).browser_user_agent == agent(s.os, claim_of(s).client_version),
        claim_json(claim_of(s)).get("browser_user_agent"@) == Some(
            Value::Text(claim_of(s).browser_user_agent),
        ),
        claim_json(claim_of(s)).get("client_version"@) == Some(
            Value::Text(claim_of(s).client_version),
        ),
        claim_of(s).device.len() == 0,
{
    reveal_strlit("");
    reveal_strlit("os");
    reveal_strlit("browser");
    reveal_strlit("device");
    reveal_strlit("system_locale");
    reveal_strlit("browser_user_agent");
    reveal_strlit("browser_version");
    reveal_strlit("os_version");
    reveal_strlit("referrer");
    reveal_strlit("referring_domain");
    reveal_strlit("referrer_current");
    reveal_strlit("referring_domain_current");
    reveal_strlit("release_channel");
    reveal_strlit("client_build_number");
    reveal_strlit("client_event_source");
    reveal_strlit("client_version");
    let c = claim_json(claim_of(s));
    reveal_with_fuel(crate::json::member_from, 17);
    assert("browser_user_agent"@.len() == 18);
    assert("client_version"@.len() == 14);
    assert("browser_version"@.len() == 15);
    assert("client_version"@[0] == 'c');
}

} // verus!
