//! The calls into other crates that the rest of the library is proved against.
//!
//! What stands in the contracts here is believed, not proved: each item says
//! which function of which crate it calls and what it claims of it.
use vstd::prelude::*;
use vstd::string::*;
use vstd::utf8::*;

use web_push::{
    ContentEncoding, SubscriptionInfo, VapidSignature, VapidSignatureBuilder, WebPushError,
    WebPushMessageBuilder,
};

use crate::models::Timestamp;
use crate::text::{same_ignoring_ascii_case, trimmed};

verus! {

/// A lower-case hexadecimal digit.
pub open spec fn is_hex_digit(c: char) -> bool {
    '0' <= c <= '9' || 'a' <= c <= 'f'
}

/// The hyphenated text of a version 4 UUID: groups of 8, 4, 4, 4 and 12
/// hexadecimal digits, with the version and the variant in their places.
pub open spec fn is_uuid_v4(s: Seq<char>) -> bool {
    &&& s.len() == 36
    &&& forall|i: int|
        0 <= i < 36 ==> if i == 8 || i == 13 || i == 18 || i == 23 {
            #[trigger] s[i] == '-'
        } else {
            is_hex_digit(s[i])
        }
    &&& s[14] == '4'
    &&& (s[19] == '8' || s[19] == '9' || s[19] == 'a' || s[19] == 'b')
}

/// `uuid::Uuid::new_v4`, as its hyphenated text. Which UUID comes back is left
/// to chance; that it has the shape of a version 4 UUID is claimed of each.
#[verifier::external_body]
pub(crate) fn random_uuid() -> (text: String)
    ensures
        is_uuid_v4(text@),
{
    uuid::Uuid::new_v4().to_string()
}

/// Whether `text` came from [`random_uuid`]. Only a call of it shows that.
pub closed spec fn is_drawn_uuid(text: Seq<char>) -> bool {
    exists|drawn: String| drawn@ == text && #[trigger] call_ensures(random_uuid, (), drawn)
}

/// What a call gave came from it.
pub(crate) proof fn lemma_drawn_uuid(drawn: String)
    requires
        call_ensures(random_uuid, (), drawn),
    ensures
        is_drawn_uuid(drawn@),
{
}

/// What came from [`random_uuid`] is a version 4 UUID that a call gave.
pub(crate) proof fn lemma_drawn_uuids_were_drawn(text: Seq<char>)
    requires
        is_drawn_uuid(text),
    ensures
        is_uuid_v4(text),
        exists|drawn: String| drawn@ == text && #[trigger] call_ensures(random_uuid, (), drawn),
{
}

/// A character of the standard base64 alphabet, or its padding.
pub open spec fn is_base64_char(c: char) -> bool {
    ||| 'A' <= c <= 'Z'
    ||| 'a' <= c <= 'z'
    ||| '0' <= c <= '9'
    ||| c == '+'
    ||| c == '/'
    ||| c == '='
}

/// How long the padded base64 form of `n` bytes is.
pub open spec fn base64_len(n: nat) -> nat {
    4 * ((n + 2) / 3)
}

/// The padded base64 form of `data`, in the standard alphabet.
pub uninterp spec fn base64_text(data: Seq<u8>) -> Seq<char>;

/// `base64::encode`: the standard alphabet with padding. The text depends on
/// the data alone, has four characters for every three bytes begun, and holds
/// characters of the alphabet and padding only. The size of the text has to fit
/// in a `usize`; the call panics otherwise.
#[verifier::external_body]
pub(crate) fn base64_encode(data: &[u8]) -> (text: String)
    requires
        base64_len(data@.len()) <= usize::MAX,
    ensures
        text@ == base64_text(data@),
        text@.len() == base64_len(data@.len()),
        forall|i: int| 0 <= i < text@.len() ==> is_base64_char(#[trigger] text@[i]),
{
    base64::encode(data)
}

/// What `text` decodes to in the URL-safe base64 alphabet without padding.
pub uninterp spec fn url_safe_no_pad_decoded(text: Seq<char>) -> Option<Seq<u8>>;

/// `base64::decode_config` with `base64::URL_SAFE_NO_PAD`. Whether it succeeds,
/// and with which bytes, depends on the text alone. A text whose size is within
/// a few bytes of `usize::MAX` makes the call panic.
#[verifier::external_body]
pub(crate) fn decode_url_safe_no_pad(text: &str) -> (bytes: Option<Vec<u8>>)
    requires
        encode_utf8(text@).len() + 7 <= usize::MAX,
    ensures
        match bytes {
            Some(b) => url_safe_no_pad_decoded(text@) == Some(b@),
            None => url_safe_no_pad_decoded(text@) is None,
        },
{
    base64::decode_config(text, base64::URL_SAFE_NO_PAD).ok()
}

/// What `text` decodes to in the URL-safe base64 alphabet with padding.
pub uninterp spec fn url_safe_decoded(text: Seq<char>) -> Option<Seq<u8>>;

/// `base64::decode_config` with `base64::URL_SAFE`. Whether it succeeds, and
/// with which bytes, depends on the text alone. A text whose size is within a
/// few bytes of `usize::MAX` makes the call panic.
#[verifier::external_body]
pub(crate) fn decode_url_safe(text: &str) -> (bytes: Option<Vec<u8>>)
    requires
        encode_utf8(text@).len() + 7 <= usize::MAX,
    ensures
        match bytes {
            Some(b) => url_safe_decoded(text@) == Some(b@),
            None => url_safe_decoded(text@) is None,
        },
{
    base64::decode_config(text, base64::URL_SAFE).ok()
}

/// The parts of a URL that the library looks at.
pub struct UriParts {
    pub scheme: Option<String>,
    pub host: Option<String>,
}

/// The parts of a URL, as plain text.
pub ghost struct UriPartsView {
    pub scheme: Option<Seq<char>>,
    pub host: Option<Seq<char>>,
}

/// The text of an optional string.
pub open spec fn opt_text(s: Option<String>) -> Option<Seq<char>> {
    match s {
        Some(s) => Some(s@),
        None => None,
    }
}

impl View for UriParts {
    type V = UriPartsView;

    open spec fn view(&self) -> UriPartsView {
        UriPartsView { scheme: opt_text(self.scheme), host: opt_text(self.host) }
    }
}

/// The scheme and the host of the URL that `text` denotes, if it denotes one.
pub uninterp spec fn uri_parts(text: Seq<char>) -> Option<UriPartsView>;

/// Whether `text` begins with `scheme` and `://`, the case of the scheme apart.
pub open spec fn begins_with_scheme(text: Seq<char>, scheme: Seq<char>) -> bool {
    &&& text.len() >= scheme.len() + 3
    &&& same_ignoring_ascii_case(text.take(scheme.len() as int), scheme)
    &&& text.subrange(scheme.len() as int, scheme.len() as int + 3) == seq![':', '/', '/']
}

/// `axum::http::Uri::from_str`, with `scheme_str` and `host` of the result.
/// Whether the text is a URL, and which scheme and host it has, depends on the
/// text alone. A URL with a scheme begins with it, up to its case, and with
/// `://`.
#[verifier::external_body]
pub(crate) fn parse_uri(text: &str) -> (parts: Option<UriParts>)
    ensures
        match parts {
            Some(p) => uri_parts(text@) == Some(p@),
            None => uri_parts(text@) is None,
        },
        parts matches Some(p) ==> (p@.scheme matches Some(scheme) ==> begins_with_scheme(
            text@,
            scheme,
        )),
{
    match text.parse::<axum::http::Uri>() {
        Ok(uri) => Some(
            UriParts {
                scheme: uri.scheme_str().map(str::to_string),
                host: uri.host().map(str::to_string),
            },
        ),
        Err(_) => None,
    }
}

/// A character that JSON text holds as itself.
pub open spec fn is_plain_json_char(c: char) -> bool {
    ' ' <= c <= '~' && c != '"' && c != '\\'
}

/// The JSON string literal for `text`, quotes included, as UTF-8.
pub uninterp spec fn json_string(text: Seq<char>) -> Seq<u8>;

/// `serde_json::to_vec` of a string: the JSON string literal, which depends on
/// the text alone. Printable ASCII other than `"` and `\` stands in it as
/// itself, between two quotes. Writing a string to memory does not fail.
#[verifier::external_body]
pub(crate) fn to_json_string(text: &str) -> (bytes: Vec<u8>)
    ensures
        bytes@ == json_string(text@),
        (forall|i: int| 0 <= i < text@.len() ==> is_plain_json_char(#[trigger] text@[i]))
            ==> bytes@ == seq![0x22u8] + encode_utf8(text@) + seq![0x22u8],
{
    serde_json::to_vec(text).unwrap()
}

/// `String::from_utf8`: the text whose UTF-8 form is `bytes`, if there is one.
#[verifier::external_body]
pub(crate) fn text_from_utf8(bytes: Vec<u8>) -> (text: Option<String>)
    ensures
        text is Some <==> valid_utf8(bytes@),
        text matches Some(t) ==> t@ == decode_utf8(bytes@),
{
    String::from_utf8(bytes).ok()
}

/// The first second of the earliest day that `chrono` can represent.
pub const MIN_UTC_SECS: i64 = -8_334_601_228_800;

/// The last second of the latest day that `chrono` can represent.
pub const MAX_UTC_SECS: i64 = 8_210_266_876_799;

/// The seconds of a day.
pub const DAY_SECS: i64 = 86_400;

/// A moment that `chrono` can represent, outside of a leap second.
pub open spec fn is_moment(t: Timestamp) -> bool {
    MIN_UTC_SECS <= t.secs <= MAX_UTC_SECS && t.nanos < 1_000_000_000
}

/// `chrono::Utc::now`: the time of the system clock. Which time that is depends
/// on the clock; that it is not before the Unix epoch and not in a leap second is
/// claimed of each. With a clock set before the Unix epoch the call panics.
#[verifier::external_body]
pub(crate) fn utc_now() -> (now: Timestamp)
    ensures
        is_moment(now),
        now.secs >= 0,
{
    let now = chrono::Utc::now();
    Timestamp { secs: now.timestamp(), nanos: now.timestamp_subsec_nanos() }
}

/// Whether `t` was read off the clock by [`utc_now`]. Only a call of it shows that.
pub closed spec fn is_clock_reading(t: Timestamp) -> bool {
    call_ensures(utc_now, (), t)
}

/// What a call gave was read off the clock, and what was read off the clock a call
/// gave.
pub(crate) proof fn lemma_clock_reading(t: Timestamp)
    ensures
        is_clock_reading(t) <==> call_ensures(utc_now, (), t),
        is_clock_reading(t) ==> is_moment(t) && t.secs >= 0,
{
}

/// A moment in the notation of RFC 3339.
pub uninterp spec fn rfc3339_text(secs: i64, nanos: u32) -> Seq<char>;

/// `chrono::DateTime::to_rfc3339` in UTC. The text depends on the moment alone.
#[verifier::external_body]
pub(crate) fn to_rfc3339(t: Timestamp) -> (text: String)
    requires
        is_moment(t),
    ensures
        text@ == rfc3339_text(t.secs, t.nanos),
{
    chrono::DateTime::from_timestamp(t.secs, t.nanos).unwrap().to_rfc3339()
}

/// The difference of a `chrono::DateTime` and `chrono::Duration::days`: the same
/// time of day, `days` days earlier. Where that cannot be represented, the call
/// panics.
#[verifier::external_body]
pub(crate) fn days_before(t: Timestamp, days: i64) -> (earlier: Timestamp)
    requires
        is_moment(t),
        MIN_UTC_SECS <= t.secs - days * DAY_SECS <= MAX_UTC_SECS,
    ensures
        earlier.secs == t.secs - days * DAY_SECS,
        earlier.nanos == t.nanos,
{
    let moment = chrono::DateTime::from_timestamp(t.secs, t.nanos).unwrap();
    let earlier = moment - chrono::Duration::days(days);
    Timestamp { secs: earlier.timestamp(), nanos: earlier.timestamp_subsec_nanos() }
}

/// A character that the scheme of a URL may hold.
pub open spec fn is_scheme_char(c: char) -> bool {
    ||| 'A' <= c <= 'Z'
    ||| 'a' <= c <= 'z'
    ||| '0' <= c <= '9'
    ||| c == '+'
    ||| c == '-'
    ||| c == '.'
    ||| c == '~'
}

/// Whether `text` begins with a scheme and `://`.
pub open spec fn has_scheme(text: Seq<char>) -> bool {
    exists|n: int|
        0 <= n <= text.len() - 3 && text.subrange(n, n + 3) == seq![':', '/', '/']
            && #[trigger] all_scheme_chars(text.take(n))
}

/// Whether the scheme of a URL may be `text`.
pub open spec fn all_scheme_chars(text: Seq<char>) -> bool {
    forall|i: int| 0 <= i < text.len() ==> is_scheme_char(#[trigger] text[i])
}

/// The size of a private key for signatures.
pub const PRIVATE_KEY_LEN: usize = 32;

/// Whether a private key has its size, if it can be decoded at all.
pub open spec fn is_key_or_refused(private_key: Seq<char>) -> bool {
    url_safe_no_pad_decoded(private_key) matches Some(key) ==> key.len() == PRIVATE_KEY_LEN
}

/// The public key that belongs to a private key, if the text is one.
pub uninterp spec fn vapid_public_key(private_key: Seq<char>) -> Option<Seq<u8>>;

/// How `web_push` describes keys that it cannot use.
pub open spec fn invalid_keys_text() -> Seq<char> {
    "The request is having invalid cryptographic keys"@
}

/// How `web_push` describes an endpoint that is no URL.
pub open spec fn invalid_uri_text() -> Seq<char> {
    "The provided URI is invalid"@
}

/// `web_push::VapidSignatureBuilder::from_base64_no_sub` with the URL-safe alphabet
/// without padding, and `get_public_key` of the result: the public key, if the text
/// is a private key, and else one description. The public key depends on the
/// private key alone and is an uncompressed point, 65 bytes. A text that cannot be
/// decoded is no key. The call panics on a key of another size than 32 bytes, and
/// on one whose text is within a few bytes of `usize::MAX`.
#[verifier::external_body]
pub(crate) fn public_key_of(private_key: &str) -> (r: Result<Vec<u8>, String>)
    requires
        is_key_or_refused(private_key@),
        encode_utf8(private_key@).len() + 7 <= usize::MAX,
    ensures
        match r {
            Ok(key) => vapid_public_key(private_key@) == Some(key@) && key@.len() == 65,
            Err(detail) => vapid_public_key(private_key@) is None && detail@
                == invalid_keys_text(),
        },
        url_safe_no_pad_decoded(private_key@) is None ==> r is Err,
{
    VapidSignatureBuilder::from_base64_no_sub(private_key, base64::URL_SAFE_NO_PAD)
        .map(|builder| builder.get_public_key())
        .map_err(|err| err.to_string())
}

/// Whether a message to `endpoint` can be handed over to be signed with
/// `private_key`: the key has its size, and the endpoint has a scheme, white space
/// around it apart. What is no key is refused before the endpoint is looked at.
pub open spec fn is_signable(endpoint: Seq<char>, private_key: Seq<char>) -> bool {
    &&& is_key_or_refused(private_key)
    &&& has_scheme(trimmed(endpoint)) || vapid_public_key(private_key) is None
}

/// A signature of the sender, for a push service.
pub struct PushSignature {
    pub token: String,
    pub public_key: Vec<u8>,
}

/// The tokens that `private_key` can sign for the push service at `endpoint`
/// with the claim that `claim` is `value`. They differ in their time and in
/// chance.
pub uninterp spec fn vapid_tokens(
    endpoint: Seq<char>,
    private_key: Seq<char>,
    claim: Seq<char>,
    value: Seq<char>,
) -> Set<Seq<char>>;

/// The URL that the push client reads from `text`, as text again, if `text` is
/// one.
pub uninterp spec fn push_endpoint(text: Seq<char>) -> Option<Seq<char>>;

/// `web_push::VapidSignatureBuilder`: `from_base64` with the URL-safe alphabet
/// without padding, one `add_claim`, and `build`. It succeeds exactly where the key
/// is a private key and the endpoint a URL, and describes which of the two is
/// wrong, the key first. The claim must not be `exp`, which has to be a number. The
/// token is one of those that can be signed for the arguments; which one depends on
/// the time and on chance. The public key is that of the private key. The calls
/// panic on a key of another size than 32 bytes, on an endpoint that is a URL
/// without a scheme, and on a key whose text is within a few bytes of `usize::MAX`.
#[verifier::external_body]
pub(crate) fn vapid_signature(endpoint: &str, private_key: &str, claim: &str, value: &str) -> (r:
    Result<PushSignature, String>)
    requires
        is_signable(endpoint@, private_key@),
        encode_utf8(private_key@).len() + 7 <= usize::MAX,
        claim@ != "exp"@,
    ensures
        match r {
            Ok(signature) => {
                &&& vapid_public_key(private_key@) == Some(signature.public_key@)
                &&& push_endpoint(endpoint@) is Some
                &&& vapid_tokens(endpoint@, private_key@, claim@, value@).contains(
                    signature.token@,
                )
            },
            Err(detail) => if vapid_public_key(private_key@) is None {
                detail@ == invalid_keys_text()
            } else {
                push_endpoint(endpoint@) is None && detail@ == invalid_uri_text()
            },
        },
{
    let info = SubscriptionInfo::new(endpoint, "", "");
    let mut builder = VapidSignatureBuilder::from_base64(private_key, base64::URL_SAFE_NO_PAD, &info)
        .map_err(|err| err.to_string())?;
    builder.add_claim(claim, value);
    let signature = builder.build().map_err(|err| err.to_string())?;
    Ok(PushSignature { token: signature.auth_t, public_key: signature.auth_k })
}

/// `web_push::WebPushMessage`: an encrypted message that a push client can send.
#[verifier::external_type_specification]
#[verifier::external_body]
pub struct ExWebPushMessage(web_push::WebPushMessage);

/// A message that is ready to be sent, with what it holds beside it. Only
/// [`seal_push`] makes one, so that the two belong together.
pub struct SealedPush {
    message: web_push::WebPushMessage,
    endpoint: String,
    ttl: u32,
    content: Vec<u8>,
    authorization: String,
}

/// What a message that is ready to be sent holds.
pub ghost struct SealedView {
    /// The URL of the push service.
    pub endpoint: Seq<char>,
    /// How long the message is kept, in seconds.
    pub ttl: nat,
    /// The encrypted payload.
    pub content: Seq<u8>,
    /// The header with the signature.
    pub authorization: Seq<char>,
}

impl View for SealedPush {
    type V = SealedView;

    closed spec fn view(&self) -> SealedView {
        SealedView {
            endpoint: self.endpoint@,
            ttl: self.ttl as nat,
            content: self.content@,
            authorization: self.authorization@,
        }
    }
}

impl SealedPush {
    /// The message itself.
    pub closed spec fn held_message(&self) -> web_push::WebPushMessage {
        self.message
    }

    /// The URL of the push service.
    pub fn endpoint(&self) -> (endpoint: &str)
        ensures
            endpoint@ == self@.endpoint,
    {
        self.endpoint.as_str()
    }

    /// How long the message is kept, in seconds.
    pub fn ttl(&self) -> (ttl: u32)
        ensures
            ttl == self@.ttl,
    {
        self.ttl
    }

    /// The encrypted payload.
    pub fn content(&self) -> (content: &[u8])
        ensures
            content@ == self@.content,
    {
        self.content.as_slice()
    }

    /// The header with the signature.
    pub fn authorization(&self) -> (authorization: &str)
        ensures
            authorization@ == self@.authorization,
    {
        self.authorization.as_str()
    }

    /// The message, to be sent.
    pub fn into_message(self) -> (message: web_push::WebPushMessage)
        ensures
            message == self.held_message(),
    {
        self.message
    }
}

/// Why a message could not be made.
#[derive(Debug)]
pub enum SealError {
    Builder(String),
    PayloadTooLarge,
    Other(String),
}

/// The largest payload that a message carries.
pub const MAX_PUSH_PAYLOAD_BYTES: usize = 3052;

/// The size of a key that a payload is encrypted for.
pub const P256_POINT_LEN: usize = 65;

/// The size of the secret that a payload is encrypted with.
pub const AUTH_SECRET_LEN: usize = 16;

/// The encrypted forms of `payload` for the holder of the two keys. They differ
/// in chance.
pub uninterp spec fn push_contents(
    p256dh: Seq<char>,
    auth: Seq<char>,
    payload: Seq<u8>,
) -> Set<Seq<u8>>;

/// The base64 form of `bytes` in the URL-safe alphabet without padding.
pub uninterp spec fn url_safe_no_pad_text(bytes: Seq<u8>) -> Seq<char>;

/// Whether a message can be encrypted at all, but for the size of its payload and
/// what the decoded keys are: its endpoint is a URL, and both keys can be decoded.
pub open spec fn can_be_addressed(
    endpoint: Seq<char>,
    p256dh: Seq<char>,
    auth: Seq<char>,
) -> bool {
    &&& push_endpoint(endpoint) is Some
    &&& url_safe_decoded(p256dh) is Some
    &&& url_safe_decoded(auth) is Some
}

/// `web_push::WebPushMessageBuilder`: `new`, which does not fail, `set_payload`
/// with `Aes128Gcm`, `set_ttl`, `set_vapid_signature` and `build`. The message goes
/// to the endpoint, has the time to live that was asked for, carries one of the
/// encrypted forms of the payload for the two keys, and holds the token and the
/// public key of the signature in its header, the latter as `base64::encode_config`
/// writes it with `URL_SAFE_NO_PAD`. An endpoint that is no URL and keys that
/// cannot be decoded are refused; after that, a payload of more than 3052 bytes is
/// refused as too large, and no other is. An empty payload cannot be encrypted, nor
/// any payload with keys of other sizes than 65 and 16 bytes. Every refusal but that
/// of a large payload has one of two descriptions. The call panics on a public key
/// in compressed form, 33 bytes, that a payload is to be encrypted for, and on keys
/// whose text is within a few bytes of `usize::MAX`. That a payload can be encrypted
/// for keys of the right sizes is left unsaid: the public key has to be a point of
/// the curve, and the encryption draws random numbers, which can fail.
#[verifier::external_body]
pub(crate) fn seal_push(
    endpoint: &str,
    p256dh: &str,
    auth: &str,
    payload: &[u8],
    ttl: u32,
    signature: PushSignature,
) -> (r: Result<SealedPush, SealError>)
    requires
        encode_utf8(p256dh@).len() + 7 <= usize::MAX,
        encode_utf8(auth@).len() + 7 <= usize::MAX,
        url_safe_decoded(p256dh@) matches Some(key) ==> key.len() == P256_POINT_LEN
            || payload@.len() > MAX_PUSH_PAYLOAD_BYTES,
    ensures
        match r {
            Ok(sealed) => {
                &&& push_endpoint(endpoint@) == Some(sealed@.endpoint)
                &&& sealed@.ttl == ttl
                &&& push_contents(p256dh@, auth@, payload@).contains(sealed@.content)
                &&& sealed@.authorization == "vapid t="@ + signature.token@ + ", k="@
                    + url_safe_no_pad_text(signature.public_key@)
                &&& can_be_addressed(endpoint@, p256dh@, auth@)
                &&& url_safe_decoded(p256dh@)->0.len() == P256_POINT_LEN
                &&& url_safe_decoded(auth@)->0.len() == AUTH_SECRET_LEN
                &&& 1 <= payload@.len() <= MAX_PUSH_PAYLOAD_BYTES
            },
            Err(SealError::Builder(_)) => false,
            Err(SealError::PayloadTooLarge) => {
                &&& can_be_addressed(endpoint@, p256dh@, auth@)
                &&& payload@.len() > MAX_PUSH_PAYLOAD_BYTES
            },
            Err(SealError::Other(detail)) => {
                &&& !can_be_addressed(endpoint@, p256dh@, auth@) || payload@.len()
                    <= MAX_PUSH_PAYLOAD_BYTES
                &&& detail@ == if push_endpoint(endpoint@) is None {
                    invalid_uri_text()
                } else {
                    invalid_keys_text()
                }
            },
        },
{
    let info = SubscriptionInfo::new(endpoint, p256dh, auth);
    let mut builder = WebPushMessageBuilder::new(&info).map_err(|err| SealError::Builder(err.to_string()))?;
    builder.set_payload(ContentEncoding::Aes128Gcm, payload);
    builder.set_ttl(ttl);
    builder.set_vapid_signature(VapidSignature { auth_t: signature.token, auth_k: signature.public_key });
    let message = builder.build().map_err(|err| match err {
        WebPushError::PayloadTooLarge => SealError::PayloadTooLarge,
        err => SealError::Other(err.to_string()),
    })?;
    let sealed = message.payload.as_ref().unwrap();
    let content = sealed.content.clone();
    let authorization = sealed.crypto_headers[0].1.clone();
    let endpoint = message.endpoint.to_string();
    Ok(SealedPush { endpoint, ttl: message.ttl, content, authorization, message })
}

/// Whether [`seal_push`] may answer that it cannot make a message of `payload` to
/// `endpoint` for the two keys. What it answers is not up to its callers: only a
/// call of it shows that it has.
pub closed spec fn is_sealing_refused(
    endpoint: Seq<char>,
    p256dh: Seq<char>,
    auth: Seq<char>,
    payload: Seq<u8>,
) -> bool {
    exists|
        e: &str,
        p: &str,
        a: &str,
        data: &[u8],
        ttl: u32,
        signature: PushSignature,
        detail: String,
    |
        e@ == endpoint && p@ == p256dh && a@ == auth && data@ == payload
            && #[trigger] call_ensures(
            seal_push,
            (e, p, a, data, ttl, signature),
            Err::<SealedPush, SealError>(SealError::Other(detail)),
        )
}

/// A call that gave this answer shows that it may.
pub(crate) proof fn lemma_sealing_refused(
    e: &str,
    p: &str,
    a: &str,
    data: &[u8],
    ttl: u32,
    signature: PushSignature,
    detail: String,
)
    requires
        call_ensures(
            seal_push,
            (e, p, a, data, ttl, signature),
            Err::<SealedPush, SealError>(SealError::Other(detail)),
        ),
    ensures
        is_sealing_refused(e@, p@, a@, data@),
{
}

/// Where [`seal_push`] may refuse, a call on the same texts and the same payload was
/// answered so.
pub(crate) proof fn lemma_refusal_is_an_answer(
    endpoint: Seq<char>,
    p256dh: Seq<char>,
    auth: Seq<char>,
    payload: Seq<u8>,
)
    requires
        is_sealing_refused(endpoint, p256dh, auth, payload),
    ensures
        exists|
            e: &str,
            p: &str,
            a: &str,
            data: &[u8],
            ttl: u32,
            signature: PushSignature,
            detail: String,
        |
            e@ == endpoint && p@ == p256dh && a@ == auth && data@ == payload
                && #[trigger] call_ensures(
                seal_push,
                (e, p, a, data, ttl, signature),
                Err::<SealedPush, SealError>(SealError::Other(detail)),
            ),
{
}

} // verus!
