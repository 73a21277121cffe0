//! QR code login: rather than solving a captcha, take the path that never
//! raises one. No password and no TOTP passes through this process.
//!
//! ```text
//!   ├─ hello                a key pair was generated
//!   ├─▶ init                send the public key (SPKI DER) as base64
//!   ├─ nonce_proof          an encrypted nonce arrives
//!   ├─▶ nonce_proof         decrypt, SHA-256, base64url unpadded
//!   ├─ pending_remote_init  a fingerprint arrives, and becomes the QR
//!   ├─ pending_ticket       scanned; who scanned it is now known
//!   └─ pending_login        approved; exchange the ticket over REST
//! ```
//!
//! The key pair is what opens everything: the nonce, the scanning user and the
//! final token all arrive encrypted to our public key. The private key never
//! leaves this struct, so decrypting the token happens here too, even though
//! the caller is the one exchanging the ticket.
//!
//! The fingerprint is recomputed rather than trusted. The server sends it, but
//! it is the SHA-256 of our own public key; showing it unchecked would leave
//! room to be handed a QR for someone else's key.
//!
//! The socket is the caller's: it hands in what arrived and sends what it is
//! told to.

use rsa::pkcs8::{DecodePrivateKey, EncodePrivateKey, EncodePublicKey};
use rsa::traits::PublicKeyParts;
use vstd::prelude::*;
use vstd::string::*;
use crate::encoding::{
    base64_decode, base64_decoded, base64_encode, base64_encoded, base64url_encode,
    base64url_encoded, from_utf8, opt_bytes, sha256, sha256_of, utf8_text,
};
use crate::json::{Json, Value};
use crate::model::snowflake::id_of;
use crate::model::{opt_text, Snowflake, Token, UserId};
use crate::text;

verus! {

/// The QR URL, with the fingerprint appended.
pub const QR_PREFIX: &'static str = "https://discord.com/ra/";

/// The key size, as the official client uses.
pub const KEY_BITS: usize = 2048;

/// A provisional heartbeat interval in milliseconds, until `hello` arrives.
pub const INITIAL_HEARTBEAT_MS: u64 = 30_000;

#[derive(Debug, Clone, PartialEq, Eq)]
pub enum RemoteAuthError {
    /// The gateway cannot be reached; the transport says why.
    Connect(String),
    /// No key pair could be made; the generator says why.
    KeyGen(String),
    /// Cannot decrypt; the key may not be the right one.
    Decrypt,
    /// Not readable as base64.
    Base64,
    /// The gateway's answer makes no sense.
    Protocol(String),
    /// The connection was closed.
    Closed,
}

/// [`RemoteAuthError`] with the text as character sequences.
pub ghost enum AuthFault {
    Connect(Seq<char>),
    KeyGen(Seq<char>),
    Decrypt,
    Base64,
    Protocol(Seq<char>),
    Closed,
}

impl View for RemoteAuthError {
    type V = AuthFault;

    open spec fn view(&self) -> AuthFault {
        match *self {
            RemoteAuthError::Connect(s) => AuthFault::Connect(s@),
            RemoteAuthError::KeyGen(s) => AuthFault::KeyGen(s@),
            RemoteAuthError::Decrypt => AuthFault::Decrypt,
            RemoteAuthError::Base64 => AuthFault::Base64,
            RemoteAuthError::Protocol(s) => AuthFault::Protocol(s@),
            RemoteAuthError::Closed => AuthFault::Closed,
        }
    }
}

pub open spec fn fault_text(e: AuthFault) -> Seq<char> {
    match e {
        AuthFault::Connect(s) => "ゲートウェイに接続できない: "@ + s,
        AuthFault::KeyGen(s) => "鍵ペアを作れない: "@ + s,
        AuthFault::Decrypt => "復号できない。鍵が合っていない可能性がある"@,
        AuthFault::Base64 => "base64 として読めない"@,
        AuthFault::Protocol(s) => "ゲートウェイの応答を解釈できない: "@ + s,
        AuthFault::Closed => "接続が閉じられた"@,
    }
}

impl RemoteAuthError {
    /// The line to show.
    pub fn to_string(&self) -> (r: String)
        ensures
            r@ == fault_text(self@),
    {
        match self {
            RemoteAuthError::Connect(s) => text::joined("ゲートウェイに接続できない: ", s.as_str()),
            RemoteAuthError::KeyGen(s) => text::joined("鍵ペアを作れない: ", s.as_str()),
            RemoteAuthError::Decrypt => text::owned("復号できない。鍵が合っていない可能性がある"),
            RemoteAuthError::Base64 => text::owned("base64 として読めない"),
            RemoteAuthError::Protocol(s) => text::joined(
                "ゲートウェイの応答を解釈できない: ",
                s.as_str(),
            ),
            RemoteAuthError::Closed => text::owned("接続が閉じられた"),
        }
    }
}

/// Who scanned the QR. Not yet an approval; this is shown so the person can
/// confirm it is them.
#[derive(Debug, Clone, PartialEq, Eq)]
pub struct ScannedUser {
    pub id: UserId,
    pub username: String,
    pub discriminator: String,
    pub avatar: Option<String>,
}

/// [`ScannedUser`] with the text as character sequences.
pub ghost struct ScannedView {
    pub id: UserId,
    pub username: Seq<char>,
    pub discriminator: Seq<char>,
    pub avatar: Option<Seq<char>>,
}

impl View for ScannedUser {
    type V = ScannedView;

    open spec fn view(&self) -> ScannedView {
        ScannedView {
            id: self.id,
            username: self.username@,
            discriminator: self.discriminator@,
            avatar: opt_text(self.avatar),
        }
    }
}

/// How far remote auth has got.
#[derive(Debug, Clone, PartialEq, Eq)]
pub enum RemoteAuthEvent {
    /// The QR can be shown.
    Ready {
        /// The URL the QR encodes.
        url: String,
        fingerprint: String,
    },
    /// Scanned, but not approved.
    Scanned(ScannedUser),
    /// Approved; exchange this ticket over REST.
    Approved { ticket: String },
    /// Cancelled, or expired.
    Cancelled,
}

/// [`RemoteAuthEvent`] with the text as character sequences.
pub ghost enum AuthEvent {
    Ready { url: Seq<char>, fingerprint: Seq<char> },
    Scanned(ScannedView),
    Approved { ticket: Seq<char> },
    Cancelled,
}

impl View for RemoteAuthEvent {
    type V = AuthEvent;

    open spec fn view(&self) -> AuthEvent {
        match *self {
            RemoteAuthEvent::Ready { url, fingerprint } => AuthEvent::Ready {
                url: url@,
                fingerprint: fingerprint@,
            },
            RemoteAuthEvent::Scanned(u) => AuthEvent::Scanned(u@),
            RemoteAuthEvent::Approved { ticket } => AuthEvent::Approved { ticket: ticket@ },
            RemoteAuthEvent::Cancelled => AuthEvent::Cancelled,
        }
    }
}

// ── the key pair ───────────────────────────────────────────────────────────

/// A private RSA key (PKCS#8 DER). Nothing makes one but [`KeyPair::generate`]:
/// opening a message is quick only where the key's two primes are of one size,
/// as they are in every key that is generated, and takes longer than anyone
/// could wait where the first is tiny.
pub struct KeyPair {
    der: Vec<u8>,
}

impl View for KeyPair {
    type V = Seq<u8>;

    closed spec fn view(&self) -> Seq<u8> {
        self.der@
    }
}

/// The public half (SPKI DER) of a private RSA key (PKCS#8 DER); `None` where
/// the bytes are no such key.
pub uninterp spec fn rsa_public_der(private_der: Seq<u8>) -> Option<Seq<u8>>;

/// How many bits the modulus of a private RSA key (PKCS#8 DER) has; `None`
/// where the bytes are no such key.
pub uninterp spec fn rsa_bits(private_der: Seq<u8>) -> Option<nat>;

/// What RSA-OAEP with SHA-256 opens bytes to, with a private key (PKCS#8 DER);
/// `None` where they do not open.
pub uninterp spec fn rsa_opened(private_der: Seq<u8>, bytes: Seq<u8>) -> Option<Seq<u8>>;

/// `RsaPrivateKey::from_pkcs8_der`, `to_public_key` and `to_public_key_der` of
/// the `rsa` crate: the result depends on the key's bytes alone.
#[verifier::external_body]
fn public_half(key: &KeyPair) -> (r: Option<Vec<u8>>)
    ensures
        opt_bytes(r) == rsa_public_der(key@),
{
    let key = rsa::RsaPrivateKey::from_pkcs8_der(key.der.as_slice()).ok()?;
    let der = key.to_public_key().to_public_key_der().ok()?;
    Some(der.as_bytes().to_vec())
}

/// `RsaPrivateKey::decrypt` of the `rsa` crate with `Oaep::new::<Sha256>()`:
/// nothing random takes part in decrypting, so the result depends on the key's
/// bytes and the message alone. It brings the parts for the two primes together
/// by adding the first prime until their difference is no longer negative; of a
/// [`KeyPair`] both primes have half the key's bits, so that is soon.
#[verifier::external_body]
fn open(key: &KeyPair, bytes: &[u8]) -> (r: Option<Vec<u8>>)
    ensures
        opt_bytes(r) == rsa_opened(key@, bytes@),
{
    let key = rsa::RsaPrivateKey::from_pkcs8_der(key.der.as_slice()).ok()?;
    key.decrypt(rsa::Oaep::new::<rsa::sha2::Sha256>(), bytes).ok()
}

/// `RsaPrivateKey::from_pkcs8_der` and `n` of the `rsa` crate, and the bits of
/// the number: the result depends on the key's bytes alone.
#[verifier::external_body]
fn modulus_bits(key: &KeyPair) -> (r: Option<usize>)
    ensures
        match r {
            Some(n) => rsa_bits(key@) == Some(n as nat),
            None => rsa_bits(key@) is None,
        },
{
    let key = rsa::RsaPrivateKey::from_pkcs8_der(key.der.as_slice()).ok()?;
    Some(key.n().bits())
}

/// `RsaPrivateKey::new` of the `rsa` crate with the system's random source, and
/// `to_pkcs8_der`, or the reason why there is no key. A different key each
/// time; what holds of each is that it is a key, which has a public half, and
/// that its modulus has as many bits as were asked for: primes are drawn until
/// it does.
#[verifier::external_body]
fn generated_key(bits: usize) -> (r: Result<KeyPair, String>)
    requires
        64 <= bits <= 4096,
    ensures
        r matches Ok(k) ==> rsa_public_der(k@) is Some && rsa_bits(k@) == Some(bits as nat),
{
    match rsa::RsaPrivateKey::new(&mut rsa::rand_core::OsRng, bits) {
        Ok(key) => match key.to_pkcs8_der() {
            Ok(der) => Ok(KeyPair { der: der.as_bytes().to_vec() }),
            Err(e) => Err(e.to_string()),
        },
        Err(e) => Err(e.to_string()),
    }
}

impl KeyPair {
    /// A new key pair of [`KEY_BITS`]. Slow: generating takes about a second.
    /// Which key it is rests on chance, and so does whether there is one.
    pub fn generate() -> (r: Result<KeyPair, RemoteAuthError>)
        ensures
            r matches Err(e) ==> e@ is KeyGen,
            r matches Ok(k) ==> rsa_public_der(k@) is Some && rsa_bits(k@) == Some(
                KEY_BITS as nat,
            ),
    {
        match generated_key(KEY_BITS) {
            Ok(key) => Ok(key),
            Err(e) => Err(RemoteAuthError::KeyGen(e)),
        }
    }

    /// How long the key is.
    pub fn bits(&self) -> (r: Option<usize>)
        ensures
            match r {
                Some(n) => rsa_bits(self@) == Some(n as nat),
                None => rsa_bits(self@) is None,
            },
    {
        modulus_bits(self)
    }
}

/// One run of remote auth.
pub struct RemoteAuth {
    key: KeyPair,
    public_der: Vec<u8>,
    heartbeat_ms: u64,
    /// Whether `init` was sent; it follows `hello`.
    initialised: bool,
}

/// [`RemoteAuth`] as it is seen from outside.
pub ghost struct Auth {
    pub private_der: Seq<u8>,
    pub public_der: Seq<u8>,
    pub heartbeat_ms: u64,
    pub initialised: bool,
}

impl View for RemoteAuth {
    type V = Auth;

    closed spec fn view(&self) -> Auth {
        Auth {
            private_der: self.key@,
            public_der: self.public_der@,
            heartbeat_ms: self.heartbeat_ms,
            initialised: self.initialised,
        }
    }
}

/// A run with this key, before anything arrived.
pub open spec fn fresh(private_der: Seq<u8>) -> Option<Auth> {
    match rsa_public_der(private_der) {
        Some(public_der) => Some(
            Auth {
                private_der,
                public_der,
                heartbeat_ms: INITIAL_HEARTBEAT_MS,
                initialised: false,
            },
        ),
        None => None,
    }
}

/// What the QR should carry.
pub open spec fn fingerprint_of(a: Auth) -> Seq<char> {
    base64url_encoded(sha256_of(a.public_der))
}

// ── messages ───────────────────────────────────────────────────────────────

/// What arrives, before it is acted on.
#[derive(Debug, Clone, PartialEq, Eq)]
pub struct Envelope {
    pub op: String,
    pub heartbeat_interval: Option<u64>,
    pub encrypted_nonce: Option<String>,
    pub fingerprint: Option<String>,
    pub encrypted_user_payload: Option<String>,
    pub ticket: Option<String>,
}

/// [`Envelope`] with the text as character sequences.
pub ghost struct Letter {
    pub op: Seq<char>,
    pub heartbeat_interval: Option<u64>,
    pub encrypted_nonce: Option<Seq<char>>,
    pub fingerprint: Option<Seq<char>>,
    pub encrypted_user_payload: Option<Seq<char>>,
    pub ticket: Option<Seq<char>>,
}

impl View for Envelope {
    type V = Letter;

    open spec fn view(&self) -> Letter {
        Letter {
            op: self.op@,
            heartbeat_interval: self.heartbeat_interval,
            encrypted_nonce: opt_text(self.encrypted_nonce),
            fingerprint: opt_text(self.fingerprint),
            encrypted_user_payload: opt_text(self.encrypted_user_payload),
            ticket: opt_text(self.ticket),
        }
    }
}

/// A message as it was read, or what the reader has against it.
pub open spec fn letter_of(m: Result<Envelope, String>) -> Result<Letter, Seq<char>> {
    match m {
        Ok(m) => Ok(m@),
        Err(e) => Err(e@),
    }
}

/// Bytes that arrived as base64 and encrypted to our key.
pub open spec fn opened(a: Auth, b64: Seq<char>) -> Result<Seq<u8>, AuthFault> {
    match base64_decoded(b64) {
        Some(bytes) => match rsa_opened(a.private_der, bytes) {
            Some(plain) => Ok(plain),
            None => Err(AuthFault::Decrypt),
        },
        None => Err(AuthFault::Base64),
    }
}

/// The same, as text; `complaint` where it is not UTF-8.
pub open spec fn opened_text(a: Auth, b64: Seq<char>, complaint: Seq<char>) -> Result<
    Seq<char>,
    AuthFault,
> {
    match opened(a, b64) {
        Ok(plain) => match utf8_text(plain) {
            Some(t) => Ok(t),
            None => Err(AuthFault::Protocol(complaint)),
        },
        Err(e) => Err(e),
    }
}

/// The user in `id:discriminator:avatar:username`. A username may contain a
/// colon, so only the first three are split off.
pub open spec fn user_in(s: Seq<char>) -> Option<ScannedView> {
    let a = text::index_from(s, ':', 0);
    let b = text::index_from(s, ':', a + 1);
    let c = text::index_from(s, ':', b + 1);
    if a < s.len() && b < s.len() && c < s.len() {
        match id_of(s.take(a)) {
            Some(id) => Some(
                ScannedView {
                    id: UserId(Snowflake(id)),
                    discriminator: s.subrange(a + 1, b),
                    avatar: if b + 1 < c {
                        Some(s.subrange(b + 1, c))
                    } else {
                        None
                    },
                    username: s.skip(c + 1),
                },
            ),
            None => None,
        }
    } else {
        None
    }
}

pub open spec fn bad_user(s: Seq<char>) -> AuthFault {
    AuthFault::Protocol("利用者情報の形が違う: "@ + s)
}

/// What a message leads to: something to send, something to report, or
/// neither.
#[derive(Debug, PartialEq)]
pub struct Reply {
    pub send: Option<Json>,
    pub event: Option<RemoteAuthEvent>,
}

/// [`Reply`] with the text as character sequences.
pub ghost struct ReplyView {
    pub send: Option<Value>,
    pub event: Option<AuthEvent>,
}

pub open spec fn opt_event(e: Option<RemoteAuthEvent>) -> Option<AuthEvent> {
    match e {
        Some(e) => Some(e@),
        None => None,
    }
}

pub open spec fn opt_json(j: Option<Json>) -> Option<Value> {
    match j {
        Some(j) => Some(j@),
        None => None,
    }
}

impl View for Reply {
    type V = ReplyView;

    open spec fn view(&self) -> ReplyView {
        ReplyView { send: opt_json(self.send), event: opt_event(self.event) }
    }
}

pub open spec fn silent() -> ReplyView {
    ReplyView { send: None, event: None }
}

pub open spec fn sends(v: Value) -> ReplyView {
    ReplyView { send: Some(v), event: None }
}

pub open spec fn reports(e: AuthEvent) -> ReplyView {
    ReplyView { send: None, event: Some(e) }
}

pub open spec fn op_message(op: Seq<char>) -> Value {
    Value::Object(seq![]).with("op"@, Value::Text(op))
}

/// The first thing to send: our public key.
pub open spec fn init_message(a: Auth) -> Value {
    op_message("init"@).with("encoded_public_key"@, Value::Text(base64_encoded(a.public_der)))
}

/// The state after `hello`: the interval it names. `init` is yet to be sent.
pub open spec fn greeted(a: Auth, m: Letter) -> Auth {
    Auth {
        heartbeat_ms: match m.heartbeat_interval {
            Some(ms) => ms,
            None => a.heartbeat_ms,
        },
        ..a
    }
}

/// Whether a message is the one that follows `hello`.
pub open spec fn is_init(v: Value) -> bool {
    v.get("op"@) == Some(Value::Text("init"@))
}

/// The state after a message went out.
pub open spec fn after_sending(a: Auth, v: Value) -> Auth {
    Auth { initialised: a.initialised || is_init(v), ..a }
}

/// What a message leads to. Only `hello` changes anything here.
pub open spec fn answered(a: Auth, m: Letter) -> Result<ReplyView, AuthFault> {
    if m.op == "hello"@ {
        Ok(sends(init_message(a)))
    } else if m.op == "nonce_proof"@ {
        match m.encrypted_nonce {
            Some(nonce) => match opened(a, nonce) {
                Ok(plain) => Ok(
                    sends(
                        op_message("nonce_proof"@).with(
                            "proof"@,
                            Value::Text(base64url_encoded(sha256_of(plain))),
                        ),
                    ),
                ),
                Err(e) => Err(e),
            },
            None => Err(AuthFault::Protocol("encrypted_nonce が無い"@)),
        }
    } else if m.op == "pending_remote_init"@ {
        match m.fingerprint {
            Some(f) => if f == fingerprint_of(a) {
                Ok(reports(AuthEvent::Ready { url: QR_PREFIX@ + f, fingerprint: f }))
            } else {
                Err(AuthFault::Protocol("fingerprint が自分の公開鍵と一致しない"@))
            },
            None => Err(AuthFault::Protocol("fingerprint が無い"@)),
        }
    } else if m.op == "pending_ticket"@ {
        match m.encrypted_user_payload {
            Some(payload) => match opened_text(a, payload, "利用者情報が UTF-8 でない"@) {
                Ok(t) => match user_in(t) {
                    Some(u) => Ok(reports(AuthEvent::Scanned(u))),
                    None => Err(bad_user(t)),
                },
                Err(e) => Err(e),
            },
            None => Err(AuthFault::Protocol("encrypted_user_payload が無い"@)),
        }
    } else if m.op == "pending_login"@ {
        match m.ticket {
            Some(ticket) => Ok(reports(AuthEvent::Approved { ticket })),
            None => Err(AuthFault::Protocol("ticket が無い"@)),
        }
    } else if m.op == "cancel"@ {
        Ok(reports(AuthEvent::Cancelled))
    } else {
        Ok(silent())
    }
}

/// What a message that arrived leads to.
pub open spec fn handled(a: Auth, m: Result<Letter, Seq<char>>) -> Result<ReplyView, AuthFault> {
    match m {
        Ok(m) => answered(a, m),
        Err(e) => Err(AuthFault::Protocol(e)),
    }
}

/// The state after a message that arrived.
pub open spec fn after(a: Auth, m: Result<Letter, Seq<char>>) -> Auth {
    match m {
        Ok(m) if m.op == "hello"@ => greeted(a, m),
        _ => a,
    }
}

/// A QR is only ever shown for our own key: whatever arrives, the fingerprint
/// reported is the one computed here, and the URL is the prefix with it.
pub proof fn only_our_own_key_is_shown(a: Auth, m: Result<Letter, Seq<char>>)
    ensures
        handled(a, m) matches Ok(r) ==> (r.event matches Some(
            AuthEvent::Ready { url, fingerprint },
        ) ==> fingerprint == fingerprint_of(a) && url == QR_PREFIX@ + fingerprint_of(a)),
{
}

/// Neither key changes, whatever arrives and whatever goes out.
pub proof fn the_keys_stay(a: Auth, m: Result<Letter, Seq<char>>, v: Value)
    ensures
        after(a, m).private_der == a.private_der,
        after(a, m).public_der == a.public_der,
        fingerprint_of(after(a, m)) == fingerprint_of(a),
        after_sending(a, v).private_der == a.private_der,
        after_sending(a, v).public_der == a.public_der,
        fingerprint_of(after_sending(a, v)) == fingerprint_of(a),
{
}

/// `init` follows `hello`: what `hello` asks to send is `init`, the run counts
/// as initialised once that went out, and nothing that arrives makes it so.
pub proof fn initialised_once_init_is_sent(a: Auth, m: Letter)
    ensures
        after(a, Ok(m)).initialised == a.initialised,
        m.op == "hello"@ ==> answered(a, m) == Ok::<ReplyView, AuthFault>(sends(init_message(a))),
        after_sending(a, init_message(a)).initialised,
{
    reveal_with_fuel(crate::json::member_from, 2);
    assert(init_message(a)->Object_0[0] == ("op"@, Value::Text("init"@)));
}

/// An unknown message is not fatal: it changes nothing and reports nothing.
pub proof fn unknown_messages_are_ignored(a: Auth, m: Letter)
    requires
        m.op != "hello"@,
        m.op != "nonce_proof"@,
        m.op != "pending_remote_init"@,
        m.op != "pending_ticket"@,
        m.op != "pending_login"@,
        m.op != "cancel"@,
    ensures
        answered(a, m) == Ok::<ReplyView, AuthFault>(silent()),
{
}

/// A user's parts come back from the line they travel as, whatever colons the
/// name holds.
pub proof fn names_keep_their_colons(
    id: Seq<char>,
    discriminator: Seq<char>,
    avatar: Seq<char>,
    username: Seq<char>,
)
    requires
        !id.contains(':'),
        !discriminator.contains(':'),
        !avatar.contains(':'),
        id_of(id) is Some,
    ensures
        user_in(id + seq![':'] + discriminator + seq![':'] + avatar + seq![':'] + username) == Some(
            ScannedView {
                id: UserId(Snowflake(id_of(id)->0)),
                discriminator,
                avatar: if avatar.len() > 0 {
                    Some(avatar)
                } else {
                    None
                },
                username,
            },
        ),
{
    let s = id + seq![':'] + discriminator + seq![':'] + avatar + seq![':'] + username;
    let a = id.len() as int;
    let b = a + 1 + discriminator.len();
    let c = b + 1 + avatar.len();
    assert forall|i: int| 0 <= i < a implies s[i] != ':' by {
        assert(s[i] == id[i]);
        assert(id.contains(id[i]));
    }
    assert forall|i: int| a < i < b implies s[i] != ':' by {
        assert(s[i] == discriminator[i - a - 1]);
        assert(discriminator.contains(discriminator[i - a - 1]));
    }
    assert forall|i: int| b < i < c implies s[i] != ':' by {
        assert(s[i] == avatar[i - b - 1]);
        assert(avatar.contains(avatar[i - b - 1]));
    }
    assert(s[a] == ':' && s[b] == ':' && s[c] == ':');
    text::lemma_index_from(s, ':', 0);
    text::lemma_index_from(s, ':', a + 1);
    text::lemma_index_from(s, ':', b + 1);
    assert(s.take(a) =~= id);
    assert(s.subrange(a + 1, b) =~= discriminator);
    assert(s.subrange(b + 1, c) =~= avatar);
    assert(s.skip(c + 1) =~= username);
}

/// Reads the user that scanned the QR.
pub fn parse_user(s: &str) -> (r: Result<ScannedUser, RemoteAuthError>)
    ensures
        match r {
            Ok(u) => user_in(s@) == Some(u@),
            Err(e) => user_in(s@) is None && e@ == bad_user(s@),
        },
{
    let c = text::chars(s);
    let n = c.len();
    let first = text::find_from(c.as_slice(), ':', 0);
    if first < n {
        let second = text::find_from(c.as_slice(), ':', first + 1);
        if second < n {
            let third = text::find_from(c.as_slice(), ':', second + 1);
            if third < n {
                let id = text::piece(c.as_slice(), 0, first);
                assert(id@ =~= s@.take(first as int));
                if let Ok(id) = Snowflake::from_str(id.as_str()) {
                    let avatar = if second + 1 < third {
                        Some(text::piece(c.as_slice(), second + 1, third))
                    } else {
                        None
                    };
                    let username = text::piece(c.as_slice(), third + 1, n);
                    assert(username@ =~= s@.skip(third + 1));
                    return Ok(
                        ScannedUser {
                            id: UserId(id),
                            username,
                            discriminator: text::piece(c.as_slice(), first + 1, second),
                            avatar,
                        },
                    );
                }
            }
        }
    }
    Err(RemoteAuthError::Protocol(text::joined("利用者情報の形が違う: ", s)))
}

fn protocol(s: &str) -> (r: RemoteAuthError)
    ensures
        r@ == AuthFault::Protocol(s@),
{
    RemoteAuthError::Protocol(text::owned(s))
}

pub open spec fn reply_of(r: Result<Reply, RemoteAuthError>) -> Result<ReplyView, AuthFault> {
    match r {
        Ok(r) => Ok(r@),
        Err(e) => Err(e@),
    }
}

impl RemoteAuth {
    /// A run with a key pair that is at hand.
    pub fn with_key(key: KeyPair) -> (r: Result<RemoteAuth, RemoteAuthError>)
        ensures
            match fresh(key@) {
                Some(a) => r matches Ok(run) && run@ == a,
                None => r matches Err(e) && e@ == AuthFault::Decrypt,
            },
    {
        match public_half(&key) {
            Some(public_der) => Ok(
                RemoteAuth {
                    key,
                    public_der,
                    heartbeat_ms: INITIAL_HEARTBEAT_MS,
                    initialised: false,
                },
            ),
            None => Err(RemoteAuthError::Decrypt),
        }
    }

    /// A run with a new key pair. Which key it is rests on chance; that the
    /// public half shown is its own does not.
    pub fn generate() -> (r: Result<RemoteAuth, RemoteAuthError>)
        ensures
            match r {
                Ok(a) => fresh(a@.private_der) == Some(a@) && rsa_bits(a@.private_der) == Some(
                    KEY_BITS as nat,
                ),
                Err(e) => e@ is KeyGen,
            },
    {
        match KeyPair::generate() {
            Ok(key) => RemoteAuth::with_key(key),
            Err(e) => Err(e),
        }
    }

    /// How long to wait for a message before beating.
    pub fn heartbeat_ms(&self) -> (r: u64)
        ensures
            r == self@.heartbeat_ms,
    {
        self.heartbeat_ms
    }

    /// Whether `init` was sent.
    pub fn initialised(&self) -> (r: bool)
        ensures
            r == self@.initialised,
    {
        self.initialised
    }

    /// What to send when nothing arrived for a heartbeat. A missed one
    /// disconnects.
    pub fn heartbeat(&self) -> (r: Json)
        ensures
            r@ == op_message("heartbeat"@),
    {
        Json::object().with("op", Json::text("heartbeat"))
    }

    fn opened(&self, b64: &str) -> (r: Result<Vec<u8>, RemoteAuthError>)
        ensures
            match r {
                Ok(b) => opened(self@, b64@) == Ok::<Seq<u8>, AuthFault>(b@),
                Err(e) => opened(self@, b64@) == Err::<Seq<u8>, AuthFault>(e@),
            },
    {
        match base64_decode(b64) {
            Some(bytes) => match open(&self.key, bytes.as_slice()) {
                Some(plain) => Ok(plain),
                None => Err(RemoteAuthError::Decrypt),
            },
            None => Err(RemoteAuthError::Base64),
        }
    }

    fn opened_text(&self, b64: &str, complaint: &str) -> (r: Result<String, RemoteAuthError>)
        ensures
            match r {
                Ok(t) => opened_text(self@, b64@, complaint@) == Ok::<Seq<char>, AuthFault>(t@),
                Err(e) => opened_text(self@, b64@, complaint@) == Err::<Seq<char>, AuthFault>(e@),
            },
    {
        match self.opened(b64) {
            Ok(plain) => match from_utf8(plain) {
                Some(t) => Ok(t),
                None => Err(protocol(complaint)),
            },
            Err(e) => Err(e),
        }
    }

    /// A message went out. Where it is `init`, the run is initialised.
    pub fn sent(&mut self, message: &Json)
        ensures
            final(self)@ == after_sending(old(self)@, message@),
    {
        let init = match message.get("op") {
            Some(Json::Text(op)) => text::same_text(op.as_str(), "init"),
            _ => false,
        };
        if init {
            self.initialised = true;
        }
    }

    /// Handles one message: what to send, and what to report. A message that
    /// cannot be read comes as the reader's complaint.
    pub fn handle(&mut self, message: Result<Envelope, String>) -> (r: Result<
        Reply,
        RemoteAuthError,
    >)
        ensures
            final(self)@ == after(old(self)@, letter_of(message)),
            reply_of(r) == handled(old(self)@, letter_of(message)),
    {
        let m = match message {
            Ok(m) => m,
            Err(e) => return Err(RemoteAuthError::Protocol(e)),
        };
        let op = m.op.as_str();

        if text::same_text(op, "hello") {
            if let Some(ms) = m.heartbeat_interval {
                self.heartbeat_ms = ms;
            }
            let key = Json::Text(base64_encode(self.public_der.as_slice()));
            let init = Json::object().with("op", Json::text("init")).with("encoded_public_key", key);
            Ok(Reply { send: Some(init), event: None })
        } else if text::same_text(op, "nonce_proof") {
            let nonce = match m.encrypted_nonce {
                Some(n) => n,
                None => return Err(protocol("encrypted_nonce が無い")),
            };
            let plain = match self.opened(nonce.as_str()) {
                Ok(p) => p,
                Err(e) => return Err(e),
            };
            let proof_text = base64url_encode(sha256(plain.as_slice()).as_slice());
            let answer = Json::object().with("op", Json::text("nonce_proof")).with(
                "proof",
                Json::Text(proof_text),
            );
            Ok(Reply { send: Some(answer), event: None })
        } else if text::same_text(op, "pending_remote_init") {
            let fingerprint = match m.fingerprint {
                Some(f) => f,
                None => return Err(protocol("fingerprint が無い")),
            };
            // Recomputed: it should be our own public key's digest.
            let expected = self.expected_fingerprint();
            if !text::same_text(fingerprint.as_str(), expected.as_str()) {
                return Err(protocol("fingerprint が自分の公開鍵と一致しない"));
            }
            let url = text::joined(QR_PREFIX, fingerprint.as_str());
            Ok(Reply { send: None, event: Some(RemoteAuthEvent::Ready { url, fingerprint }) })
        } else if text::same_text(op, "pending_ticket") {
            let payload = match m.encrypted_user_payload {
                Some(p) => p,
                None => return Err(protocol("encrypted_user_payload が無い")),
            };
            let line = match self.opened_text(payload.as_str(), "利用者情報が UTF-8 でない") {
                Ok(t) => t,
                Err(e) => return Err(e),
            };
            match parse_user(line.as_str()) {
                Ok(u) => Ok(Reply { send: None, event: Some(RemoteAuthEvent::Scanned(u)) }),
                Err(e) => Err(e),
            }
        } else if text::same_text(op, "pending_login") {
            match m.ticket {
                Some(ticket) => Ok(
                    Reply { send: None, event: Some(RemoteAuthEvent::Approved { ticket }) },
                ),
                None => Err(protocol("ticket が無い")),
            }
        } else if text::same_text(op, "cancel") {
            Ok(Reply { send: None, event: Some(RemoteAuthEvent::Cancelled) })
        } else {
            // Acknowledgements and the rest; an unknown op is not fatal.
            Ok(Reply { send: None, event: None })
        }
    }

    /// Opens the encrypted token REST returned. Done here so the private key
    /// stays inside.
    pub fn decrypt_token(&self, encrypted_b64: &str) -> (r: Result<Token, RemoteAuthError>)
        ensures
            match r {
                Ok(t) => opened_text(self@, encrypted_b64@, "トークンが UTF-8 でない"@) == Ok::<
                    Seq<char>,
                    AuthFault,
                >(t@),
                Err(e) => opened_text(self@, encrypted_b64@, "トークンが UTF-8 でない"@) == Err::<
                    Seq<char>,
                    AuthFault,
                >(e@),
            },
    {
        match self.opened_text(encrypted_b64, "トークンが UTF-8 でない") {
            Ok(t) => Ok(Token::new(t.as_str())),
            Err(e) => Err(e),
        }
    }

    /// What the QR should carry, computed here rather than taken from the
    /// server. URL-safe and unpadded: padding would change the QR and stop it
    /// matching when scanned.
    pub fn expected_fingerprint(&self) -> (r: String)
        ensures
            r@ == fingerprint_of(self@),
            forall|i: int| 0 <= i < r@.len() ==> crate::encoding::url_safe(#[trigger] r@[i]),
            r@.len() == 43,
    {
        base64url_encode(sha256(self.public_der.as_slice()).as_slice())
    }
}

} // verus!
