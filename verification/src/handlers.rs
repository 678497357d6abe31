//! The answers to requests that manage subscriptions.
use vstd::prelude::*;
use vstd::string::*;
use vstd::utf8::*;

use crate::config::{opt_parts, str_or_empty, text_or_empty, Config};
use crate::db::{lemma_uuid_digits, remove_char, without};
use crate::error::{AppError, NO_CONTENT, OK};
use crate::models::{
    ConfigResponse, PushKeys, PushSubscription, StoredSubscription, SubscribeResponse, Timestamp,
};
use crate::outside::{
    begins_with_scheme, decode_url_safe, decode_url_safe_no_pad, is_clock_reading, is_drawn_uuid,
    is_hex_digit, is_moment, lemma_clock_reading, lemma_drawn_uuid, lemma_drawn_uuids_were_drawn,
    parse_uri, random_uuid, uri_parts, url_safe_decoded, url_safe_no_pad_decoded, utc_now,
    UriParts, UriPartsView,
};
use crate::text::{
    chars_of, contains_text, same_ignoring_ascii_case, same_text, text_of, texts, trimmed,
};

verus! {

/// The longest endpoint that is accepted, in bytes.
pub const MAX_ENDPOINT_BYTES: usize = 2048;

/// The longest encoded public key that is accepted, in bytes.
pub const MAX_P256DH_BYTES: usize = 256;

/// The longest encoded authentication secret that is accepted, in bytes.
pub const MAX_AUTH_BYTES: usize = 128;

/// The size of a public key: an uncompressed point on the curve P-256.
pub const P256DH_LEN: usize = 65;

/// The size of an authentication secret.
pub const AUTH_LEN: usize = 16;

/// The answer to a liveness check.
pub fn health() -> (status: u16)
    ensures
        status == OK,
{
    OK
}

/// The answer to a browser that asks for the public key.
pub fn config(cfg: &Config) -> (response: ConfigResponse)
    ensures
        response.public_key@ == cfg@.vapid_public_key,
{
    ConfigResponse { public_key: cfg.vapid_public_key.clone() }
}

/// Whether push messages may go to `host`: there is no list of hosts, the list
/// holds `*`, or it holds the host, the case of ASCII letters apart.
pub open spec fn is_allowed_host(host: Seq<char>, allowed: Seq<Seq<char>>) -> bool {
    ||| allowed.len() == 0
    ||| allowed.contains("*"@)
    ||| exists|i: int|
        0 <= i < allowed.len() && same_ignoring_ascii_case(#[trigger] allowed[i], host)
}

/// Whether push messages may go to `host`.
pub fn host_allowed(host: &str, allowed_hosts: &[String]) -> (allowed: bool)
    ensures
        allowed == is_allowed_host(host@, texts(allowed_hosts@)),
{
    if allowed_hosts.len() == 0 || contains_text(allowed_hosts, "*") {
        return true;
    }
    let mut i: usize = 0;
    while i < allowed_hosts.len()
        invariant
            i <= allowed_hosts@.len(),
            forall|j: int|
                0 <= j < i ==> !same_ignoring_ascii_case(
                    #[trigger] texts(allowed_hosts@)[j],
                    host@,
                ),
        decreases allowed_hosts.len() - i,
    {
        if allowed_hosts[i].as_str().eq_ignore_ascii_case(host) {
            proof {
                assert(same_ignoring_ascii_case(texts(allowed_hosts@)[i as int], host@));
            }
            return true;
        }
        i = i + 1;
    }
    false
}

/// What `text` decodes to in the URL-safe base64 alphabet, with or without
/// padding.
pub open spec fn b64url_decoded(text: Seq<char>) -> Option<Seq<u8>> {
    match url_safe_no_pad_decoded(text) {
        Some(bytes) => Some(bytes),
        None => url_safe_decoded(text),
    }
}

/// The bytes of an optional buffer.
pub open spec fn opt_bytes(bytes: Option<Vec<u8>>) -> Option<Seq<u8>> {
    match bytes {
        Some(b) => Some(b@),
        None => None,
    }
}

/// Decodes `value` in the URL-safe base64 alphabet, with or without padding. Its
/// size has to stay a few bytes below `usize::MAX`.
pub fn decode_b64url(value: &str) -> (bytes: Option<Vec<u8>>)
    requires
        encode_utf8(value@).len() + 7 <= usize::MAX,
    ensures
        opt_bytes(bytes) == b64url_decoded(value@),
{
    match decode_url_safe_no_pad(value) {
        Some(bytes) => Some(bytes),
        None => decode_url_safe(value),
    }
}

/// What is wrong with the text of an endpoint, if anything.
pub open spec fn endpoint_text_error(endpoint: Seq<char>) -> Option<AppError> {
    if endpoint.len() == 0 {
        Some(AppError::EndpointRequired)
    } else if encode_utf8(endpoint).len() > MAX_ENDPOINT_BYTES {
        Some(AppError::EndpointTooLong)
    } else {
        None
    }
}

/// Checks the text of an endpoint.
pub fn check_endpoint_text(endpoint: &str) -> (r: Result<(), AppError>)
    ensures
        match r {
            Ok(_) => endpoint_text_error(endpoint@) is None,
            Err(e) => endpoint_text_error(endpoint@) == Some(e),
        },
{
    let size: usize = endpoint.as_bytes().len();
    proof {
        encode_utf8_decode_utf8(endpoint@);
        if size == 0 {
            assert(encode_utf8(endpoint@) =~= encode_utf8(Seq::<char>::empty()));
            encode_utf8_decode_utf8(Seq::<char>::empty());
        }
        if endpoint@.len() == 0 {
            assert(endpoint@ =~= Seq::<char>::empty());
            assert(encode_utf8(Seq::<char>::empty()).len() == 0);
        }
    }
    if size == 0 {
        return Err(AppError::EndpointRequired);
    }
    if size > MAX_ENDPOINT_BYTES {
        return Err(AppError::EndpointTooLong);
    }
    Ok(())
}

/// What is wrong with the URL of an endpoint, if anything.
pub open spec fn endpoint_url_error(
    parts: Option<UriPartsView>,
    allowed: Seq<Seq<char>>,
) -> Option<AppError> {
    match parts {
        None => Some(AppError::InvalidEndpointUrl),
        Some(url) => if !same_ignoring_ascii_case(text_or_empty(url.scheme), "https"@) {
            Some(AppError::EndpointNotHttps)
        } else {
            match url.host {
                None => Some(AppError::EndpointHostMissing),
                Some(host) => if !is_allowed_host(host, allowed) {
                    Some(AppError::EndpointHostNotAllowed)
                } else {
                    None
                },
            }
        },
    }
}

/// Checks the URL of an endpoint.
pub fn check_endpoint_url(parts: &Option<UriParts>, allowed_hosts: &[String]) -> (r: Result<
    (),
    AppError,
>)
    ensures
        match r {
            Ok(_) => endpoint_url_error(opt_parts(*parts), texts(allowed_hosts@)) is None,
            Err(e) => endpoint_url_error(opt_parts(*parts), texts(allowed_hosts@)) == Some(e),
        },
{
    match parts {
        None => Err(AppError::InvalidEndpointUrl),
        Some(url) => {
            if !str_or_empty(&url.scheme).eq_ignore_ascii_case("https") {
                return Err(AppError::EndpointNotHttps);
            }
            match &url.host {
                None => Err(AppError::EndpointHostMissing),
                Some(host) => {
                    if !host_allowed(host.as_str(), allowed_hosts) {
                        return Err(AppError::EndpointHostNotAllowed);
                    }
                    Ok(())
                },
            }
        },
    }
}

/// What is wrong with the size of encoded keys, if anything.
pub open spec fn key_text_error(p256dh: Seq<char>, auth: Seq<char>) -> Option<AppError> {
    if encode_utf8(p256dh).len() > MAX_P256DH_BYTES || encode_utf8(auth).len() > MAX_AUTH_BYTES {
        Some(AppError::SubscriptionKeysTooLong)
    } else {
        None
    }
}

/// What is wrong with decoded keys, if anything.
pub open spec fn key_bytes_error(p256dh: Option<Seq<u8>>, auth: Option<Seq<u8>>) -> Option<
    AppError,
> {
    match p256dh {
        None => Some(AppError::InvalidP256dh),
        Some(p256dh) => if p256dh.len() != P256DH_LEN {
            Some(AppError::InvalidP256dhLength)
        } else {
            match auth {
                None => Some(AppError::InvalidAuth),
                Some(auth) => if auth.len() != AUTH_LEN {
                    Some(AppError::InvalidAuthLength)
                } else {
                    None
                },
            }
        },
    }
}

/// Checks decoded keys.
pub fn check_key_bytes(p256dh: &Option<Vec<u8>>, auth: &Option<Vec<u8>>) -> (r: Result<
    (),
    AppError,
>)
    ensures
        match r {
            Ok(_) => key_bytes_error(opt_bytes(*p256dh), opt_bytes(*auth)) is None,
            Err(e) => key_bytes_error(opt_bytes(*p256dh), opt_bytes(*auth)) == Some(e),
        },
{
    match p256dh {
        None => return Err(AppError::InvalidP256dh),
        Some(bytes) => if bytes.len() != P256DH_LEN {
            return Err(AppError::InvalidP256dhLength);
        },
    }
    match auth {
        None => Err(AppError::InvalidAuth),
        Some(bytes) => {
            if bytes.len() != AUTH_LEN {
                return Err(AppError::InvalidAuthLength);
            }
            Ok(())
        },
    }
}

/// What is wrong with the keys of a subscription, if anything.
pub open spec fn keys_error(keys: PushKeys) -> Option<AppError> {
    match key_text_error(keys.p256dh@, keys.auth@) {
        Some(e) => Some(e),
        None => key_bytes_error(b64url_decoded(keys.p256dh@), b64url_decoded(keys.auth@)),
    }
}

/// Checks the keys of a subscription.
pub fn check_keys(keys: &PushKeys) -> (r: Result<(), AppError>)
    ensures
        match r {
            Ok(_) => keys_error(*keys) is None,
            Err(e) => keys_error(*keys) == Some(e),
        },
{
    let p256dh: &str = keys.p256dh.as_str();
    let auth: &str = keys.auth.as_str();
    if p256dh.as_bytes().len() > MAX_P256DH_BYTES || auth.as_bytes().len() > MAX_AUTH_BYTES {
        return Err(AppError::SubscriptionKeysTooLong);
    }
    check_key_bytes(&decode_b64url(p256dh), &decode_b64url(auth))
}

/// What is wrong with a subscription, if anything: the first fault of the text
/// of its endpoint, of the URL that this denotes, and of its keys.
pub open spec fn subscription_error(
    subscription: PushSubscription,
    allowed: Seq<Seq<char>>,
) -> Option<AppError> {
    let endpoint = trimmed(subscription.endpoint@);
    match endpoint_text_error(endpoint) {
        Some(e) => Some(e),
        None => match endpoint_url_error(uri_parts(endpoint), allowed) {
            Some(e) => Some(e),
            None => keys_error(subscription.keys),
        },
    }
}

/// Checks a subscription: an HTTPS endpoint on an allowed host, and keys of the
/// right size.
pub fn validate_subscription(subscription: &PushSubscription, allowed_hosts: &[String]) -> (r:
    Result<(), AppError>)
    ensures
        match r {
            Ok(_) => subscription_error(*subscription, texts(allowed_hosts@)) is None,
            Err(e) => subscription_error(*subscription, texts(allowed_hosts@)) == Some(e),
        },
        r is Ok ==> begins_with_scheme(trimmed(subscription.endpoint@), "https"@),
{
    let endpoint: &str = subscription.endpoint.as_str().trim();
    check_endpoint_text(endpoint)?;
    let parts: Option<UriParts> = parse_uri(endpoint);
    check_endpoint_url(&parts, allowed_hosts)?;
    proof {
        reveal_strlit("https");
        let scheme = parts->0@.scheme;
        assert(scheme is Some);
        assert(begins_with_scheme(endpoint@, scheme->0));
        assert(begins_with_scheme(endpoint@, "https"@));
    }
    check_keys(&subscription.keys)
}

/// `base` without its trailing slashes.
pub open spec fn without_trailing_slashes(base: Seq<char>) -> Seq<char>
    decreases base.len(),
{
    if base.len() > 0 && base.last() == '/' {
        without_trailing_slashes(base.drop_last())
    } else {
        base
    }
}

/// The URL that webhooks for `uuid` go to.
pub open spec fn webhook_url_of(base: Seq<char>, uuid: Seq<char>) -> Seq<char> {
    without_trailing_slashes(base) + "/"@ + uuid
}

/// The URL that webhooks for `uuid` go to, given the public address of the
/// service.
pub fn webhook_url(base: &str, uuid: &str) -> (url: String)
    ensures
        url@ == webhook_url_of(base@, uuid@),
{
    let list: Vec<char> = chars_of(base);
    let mut end: usize = list.len();
    proof {
        assert(list@.take(end as int) =~= base@);
    }
    while end > 0 && list[end - 1] == '/'
        invariant
            end <= list@.len(),
            without_trailing_slashes(list@.take(end as int)) == without_trailing_slashes(base@),
        decreases end,
    {
        proof {
            assert(list@.take(end as int).drop_last() =~= list@.take(end - 1));
        }
        end = end - 1;
    }
    let address: String = text_of(vstd::slice::slice_subrange(list.as_slice(), 0, end));
    proof {
        assert(list@.subrange(0, end as int) =~= list@.take(end as int));
    }
    address.concat("/").concat(uuid)
}

/// What is stored for a new subscription, and what is answered, given its
/// identifier, its token and its time.
pub fn registration(
    subscription: PushSubscription,
    uuid: String,
    delete_token: String,
    created_at: Timestamp,
    public_base_url: &str,
) -> (r: (StoredSubscription, SubscribeResponse))
    ensures
        r.0.subscription == subscription,
        r.0.created_at == created_at,
        r.0.delete_token@ == delete_token@,
        r.1.uuid@ == uuid@,
        r.1.url@ == webhook_url_of(public_base_url@, uuid@),
        r.1.delete_token@ == delete_token@,
{
    let url: String = webhook_url(public_base_url, uuid.as_str());
    let stored = StoredSubscription {
        subscription,
        created_at,
        delete_token: delete_token.clone(),
    };
    (stored, SubscribeResponse { uuid, url, delete_token })
}

/// The shape of a token: 32 hexadecimal digits.
pub open spec fn is_delete_token(s: Seq<char>) -> bool {
    s.len() == 32 && forall|i: int| 0 <= i < 32 ==> is_hex_digit(#[trigger] s[i])
}

/// Registers a subscription under the identifier `uuid`, with a random token and
/// the time of the clock, unless it is not valid.
pub fn subscribe(subscription: PushSubscription, uuid: String, cfg: &Config) -> (r: Result<
    (StoredSubscription, SubscribeResponse),
    AppError,
>)
    ensures
        match r {
            Ok((stored, response)) => {
                &&& subscription_error(subscription, cfg@.allowed_push_hosts) is None
                &&& stored.subscription == subscription
                &&& is_moment(stored.created_at)
                &&& stored.created_at.secs >= 0
                &&& is_clock_reading(stored.created_at)
                &&& is_delete_token(stored.delete_token@)
                &&& exists|drawn: Seq<char>| #[trigger]
                    is_drawn_uuid(drawn) && stored.delete_token@ == without(drawn, '-')
                &&& response.uuid@ == uuid@
                &&& response.url@ == webhook_url_of(cfg@.public_base_url, uuid@)
                &&& response.delete_token@ == stored.delete_token@
            },
            Err(e) => subscription_error(subscription, cfg@.allowed_push_hosts) == Some(e),
        },
{
    validate_subscription(&subscription, cfg.allowed_push_hosts.as_slice())?;
    let token_uuid: String = random_uuid();
    let delete_token: String = remove_char(token_uuid.as_str(), '-');
    let created_at: Timestamp = utc_now();
    proof {
        lemma_uuid_digits(token_uuid@);
        lemma_drawn_uuid(token_uuid);
        lemma_clock_reading(created_at);
    }
    Ok(registration(subscription, uuid, delete_token, created_at, cfg.public_base_url.as_str()))
}

/// The text of an optional header.
pub open spec fn opt_str(text: Option<&str>) -> Option<Seq<char>> {
    match text {
        Some(text) => Some(text@),
        None => None,
    }
}

/// What is wrong with the token header of a request to unsubscribe, if anything: it
/// is missing or empty.
pub open spec fn token_header_error(header: Option<Seq<char>>) -> Option<AppError> {
    if header is None || header->0.len() == 0 {
        Some(AppError::DeleteTokenRequired)
    } else {
        None
    }
}

/// The token that came with a request to unsubscribe. One that is empty counts
/// as missing.
pub fn provided_delete_token<'a>(header: Option<&'a str>) -> (r: Result<&'a str, AppError>)
    ensures
        match r {
            Ok(token) => token_header_error(opt_str(header)) is None && header == Some(token),
            Err(e) => token_header_error(opt_str(header)) == Some(e),
        },
{
    match header {
        None => Err(AppError::DeleteTokenRequired),
        Some(token) => {
            if same_text(token, "") {
                proof {
                    reveal_strlit("");
                }
                return Err(AppError::DeleteTokenRequired);
            }
            proof {
                reveal_strlit("");
                if token@.len() == 0 {
                    assert(token@ =~= ""@);
                }
            }
            Ok(token)
        },
    }
}

/// Why a subscription may not be removed with the token `provided`, if it may
/// not. `stored_token` is the token of the subscription, if there is one.
pub open spec fn unsubscribe_error(
    stored_token: Option<Seq<char>>,
    provided: Seq<char>,
) -> Option<AppError> {
    match stored_token {
        None => Some(AppError::SubscriptionNotFound),
        Some(token) => if token != provided {
            Some(AppError::InvalidDeleteToken)
        } else {
            None
        },
    }
}

/// The token of an optional subscription.
pub open spec fn token_of(stored: Option<StoredSubscription>) -> Option<Seq<char>> {
    match stored {
        Some(stored) => Some(stored.delete_token@),
        None => None,
    }
}

/// The removal of a subscription from the store.
#[derive(Debug)]
pub struct Removal {
    /// The identifier of the subscription. Nothing else is removed.
    pub uuid: String,
    /// The status of the answer.
    pub status: u16,
}

/// What is done on a request to remove the subscription `uuid` with the token
/// `provided`, given what is stored for it.
pub fn unsubscribe(uuid: &str, stored: &Option<StoredSubscription>, provided: &str) -> (r: Result<
    Removal,
    AppError,
>)
    ensures
        match r {
            Ok(removal) => {
                &&& unsubscribe_error(token_of(*stored), provided@) is None
                &&& removal.uuid@ == uuid@
                &&& removal.status == NO_CONTENT
            },
            Err(e) => unsubscribe_error(token_of(*stored), provided@) == Some(e),
        },
{
    match stored {
        None => Err(AppError::SubscriptionNotFound),
        Some(stored) => {
            if !same_text(stored.delete_token.as_str(), provided) {
                return Err(AppError::InvalidDeleteToken);
            }
            Ok(Removal { uuid: uuid.to_owned(), status: NO_CONTENT })
        },
    }
}

/// The subscriptions in the store, by identifier.
pub type Subscriptions = Map<Seq<char>, StoredSubscription>;

/// What is stored under an identifier.
pub open spec fn stored_for(subs: Subscriptions, uuid: Seq<char>) -> Option<StoredSubscription> {
    if subs.contains_key(uuid) {
        Some(subs[uuid])
    } else {
        None
    }
}

/// The answer to a request to remove the subscription `uuid` whose token header is
/// `header`: the status, or the first error of [`provided_delete_token`] and
/// [`unsubscribe`].
pub open spec fn unsubscribe_answer(
    subs: Subscriptions,
    uuid: Seq<char>,
    header: Option<Seq<char>>,
) -> Result<u16, AppError> {
    match token_header_error(header) {
        Some(e) => Err(e),
        None => match unsubscribe_error(token_of(stored_for(subs, uuid)), header->0) {
            Some(e) => Err(e),
            None => Ok(NO_CONTENT),
        },
    }
}

/// The store after such a request: [`unsubscribe`] has one subscription removed,
/// and an error nothing.
pub open spec fn after_unsubscribe(
    subs: Subscriptions,
    uuid: Seq<char>,
    header: Option<Seq<char>>,
) -> Subscriptions {
    match unsubscribe_answer(subs, uuid, header) {
        Ok(_) => subs.remove(uuid),
        Err(_) => subs,
    }
}

/// A request to unsubscribe that is answered with success removes that
/// subscription and no other, and one that is refused removes nothing. Whoever
/// repeats a successful request is told that there is no such subscription. What
/// is stored with an empty token is not removed by any request.
pub proof fn law_unsubscribe(subs: Subscriptions, uuid: Seq<char>, header: Option<Seq<char>>)
    ensures
        ({
            let answer = unsubscribe_answer(subs, uuid, header);
            let after = after_unsubscribe(subs, uuid, header);
            &&& answer is Ok ==> {
                &&& answer == Ok::<u16, AppError>(204)
                &&& subs.contains_key(uuid)
                &&& header == Some(subs[uuid].delete_token@)
                &&& after == subs.remove(uuid)
                &&& unsubscribe_answer(after, uuid, header) == Err::<u16, AppError>(
                    AppError::SubscriptionNotFound,
                )
                &&& AppError::SubscriptionNotFound@.status == 404
            }
            &&& answer is Err ==> after == subs
            &&& forall|other: Seq<char>|
                other != uuid ==> #[trigger] stored_for(after, other) == stored_for(subs, other)
            &&& subs.contains_key(uuid) && subs[uuid].delete_token@.len() == 0 ==> answer is Err
        }),
{
}

/// Unsubscribing with the token that was answered undoes subscribing.
pub proof fn law_unsubscribe_undoes_subscribe(
    subs: Subscriptions,
    uuid: Seq<char>,
    stored: StoredSubscription,
    response: SubscribeResponse,
)
    requires
        !subs.contains_key(uuid),
        is_delete_token(stored.delete_token@),
        response.delete_token@ == stored.delete_token@,
    ensures
        unsubscribe_answer(subs.insert(uuid, stored), uuid, Some(response.delete_token@)) == Ok::<
            u16,
            AppError,
        >(204),
        after_unsubscribe(subs.insert(uuid, stored), uuid, Some(response.delete_token@)) == subs,
{
    assert(subs.insert(uuid, stored).remove(uuid) =~= subs);
}

/// What was registered can be removed with the token that was answered, and
/// with no other.
pub proof fn law_only_the_answered_token_unsubscribes(
    stored: StoredSubscription,
    response: SubscribeResponse,
    provided: Seq<char>,
)
    requires
        response.delete_token@ == stored.delete_token@,
    ensures
        unsubscribe_error(token_of(Some(stored)), provided) is None <==> provided
            == response.delete_token@,
        provided != response.delete_token@ ==> unsubscribe_error(token_of(Some(stored)), provided)
            == Some(AppError::InvalidDeleteToken),
{
}

/// The status of each answer to a request to unsubscribe.
pub proof fn law_unsubscribe_statuses(stored_token: Option<Seq<char>>, provided: Seq<char>)
    ensures
        AppError::DeleteTokenRequired@.status == 401,
        stored_token is None ==> unsubscribe_error(stored_token, provided)->0@.status == 404,
        stored_token is Some && stored_token->0 != provided ==> unsubscribe_error(
            stored_token,
            provided,
        )->0@.status == 403,
        stored_token == Some(provided) ==> unsubscribe_error(stored_token, provided) is None,
{
}

/// A valid subscription goes to an HTTPS URL on an allowed host, and its keys
/// have the sizes that the encryption of push messages asks for. Whatever is not
/// valid is refused with the status 400.
pub proof fn law_valid_subscription(subscription: PushSubscription, allowed: Seq<Seq<char>>)
    ensures
        subscription_error(subscription, allowed) is None ==> {
            let parts = uri_parts(trimmed(subscription.endpoint@));
            &&& parts is Some
            &&& same_ignoring_ascii_case(text_or_empty(parts->0.scheme), "https"@)
            &&& parts->0.host is Some
            &&& is_allowed_host(parts->0.host->0, allowed)
            &&& b64url_decoded(subscription.keys.p256dh@) is Some
            &&& b64url_decoded(subscription.keys.p256dh@)->0.len() == P256DH_LEN
            &&& b64url_decoded(subscription.keys.auth@) is Some
            &&& b64url_decoded(subscription.keys.auth@)->0.len() == AUTH_LEN
        },
        subscription_error(subscription, allowed) matches Some(e) ==> e@.status == 400,
{
}

/// Without a list every host is allowed. A list of one allows every host if it is
/// `*`, and else that host, in any case of its letters. A list allows what one of
/// its parts allows.
pub proof fn law_allowed_hosts(
    host: Seq<char>,
    one: Seq<char>,
    a: Seq<Seq<char>>,
    b: Seq<Seq<char>>,
)
    ensures
        is_allowed_host(host, Seq::empty()),
        is_allowed_host(host, seq![one]) <==> one == "*"@ || same_ignoring_ascii_case(one, host),
        a.len() > 0 && b.len() > 0 ==> (is_allowed_host(host, a + b) <==> is_allowed_host(host, a)
            || is_allowed_host(host, b)),
{
    let single = seq![one];
    assert(single[0] == one);
    assert(single.contains("*"@) <==> one == "*"@);
    let both = a + b;
    if a.contains("*"@) {
        let i = choose|i: int| 0 <= i < a.len() && a[i] == "*"@;
        assert(both[i] == "*"@);
    }
    if b.contains("*"@) {
        let i = choose|i: int| 0 <= i < b.len() && b[i] == "*"@;
        assert(both[a.len() + i] == "*"@);
    }
    if both.contains("*"@) {
        let i = choose|i: int| 0 <= i < both.len() && both[i] == "*"@;
        if i < a.len() {
            assert(a[i] == "*"@);
        } else {
            assert(b[i - a.len()] == "*"@);
        }
    }
    if a.len() > 0 && b.len() > 0 && is_allowed_host(host, both) && !both.contains("*"@) {
        let i = choose|i: int|
            0 <= i < both.len() && same_ignoring_ascii_case(#[trigger] both[i], host);
        if i < a.len() {
            assert(same_ignoring_ascii_case(a[i], host));
        } else {
            assert(same_ignoring_ascii_case(b[i - a.len()], host));
        }
    }
    if !a.contains("*"@) && a.len() > 0 && is_allowed_host(host, a) {
        let i = choose|i: int| 0 <= i < a.len() && same_ignoring_ascii_case(#[trigger] a[i], host);
        assert(same_ignoring_ascii_case(both[i], host));
    }
    if !b.contains("*"@) && b.len() > 0 && is_allowed_host(host, b) {
        let i = choose|i: int| 0 <= i < b.len() && same_ignoring_ascii_case(#[trigger] b[i], host);
        assert(same_ignoring_ascii_case(both[a.len() + i], host));
    }
}

/// A subscription is accepted exactly if its endpoint, trimmed, has 1 to 2048 bytes
/// and is an https URL with an allowed host, and its keys have at most 256 and 128
/// bytes of text and decode to 65 and 16 bytes, with or without padding.
pub proof fn law_subscription_is_accepted(
    subscription: PushSubscription,
    allowed: Seq<Seq<char>>,
)
    ensures
        subscription_error(subscription, allowed) is None <==> ({
            let endpoint = trimmed(subscription.endpoint@);
            let p256dh = match url_safe_no_pad_decoded(subscription.keys.p256dh@) {
                Some(bytes) => Some(bytes),
                None => url_safe_decoded(subscription.keys.p256dh@),
            };
            let auth = match url_safe_no_pad_decoded(subscription.keys.auth@) {
                Some(bytes) => Some(bytes),
                None => url_safe_decoded(subscription.keys.auth@),
            };
            &&& endpoint.len() >= 1
            &&& encode_utf8(endpoint).len() <= 2048
            &&& uri_parts(endpoint) is Some
            &&& uri_parts(endpoint)->0.scheme is Some
            &&& same_ignoring_ascii_case(uri_parts(endpoint)->0.scheme->0, "https"@)
            &&& uri_parts(endpoint)->0.host is Some
            &&& is_allowed_host(uri_parts(endpoint)->0.host->0, allowed)
            &&& encode_utf8(subscription.keys.p256dh@).len() <= 256
            &&& encode_utf8(subscription.keys.auth@).len() <= 128
            &&& p256dh is Some && p256dh->0.len() == 65
            &&& auth is Some && auth->0.len() == 16
        }),
{
    reveal_strlit("https");
    assert("https"@.len() == 5);
    assert(text_or_empty(None).len() == 0);
}

proof fn lemma_without_trailing_slashes(base: Seq<char>)
    ensures
        without_trailing_slashes(base).is_prefix_of(base),
        without_trailing_slashes(base).len() > 0 ==> without_trailing_slashes(base).last() != '/',
        forall|i: int| without_trailing_slashes(base).len() <= i < base.len() ==> base[i] == '/',
    decreases base.len(),
{
    if base.len() > 0 && base.last() == '/' {
        let front = base.drop_last();
        lemma_without_trailing_slashes(front);
        assert forall|i: int|
            without_trailing_slashes(base).len() <= i < base.len() implies base[i] == '/' by {
            if i < front.len() {
                assert(front[i] == base[i]);
            }
        }
    }
}

/// The URL that webhooks go to is the base, a slash and the identifier. Only
/// slashes at the end of the base are left off, and all of them.
pub proof fn law_webhook_url(base: Seq<char>, uuid: Seq<char>)
    ensures
        base.len() == 0 || base.last() != '/' ==> webhook_url_of(base, uuid) == base + seq!['/']
            + uuid,
        webhook_url_of(base.push('/'), uuid) == webhook_url_of(base, uuid),
        exists|kept: int|
            #![trigger base.take(kept)]
            {
                &&& 0 <= kept <= base.len()
                &&& webhook_url_of(base, uuid) == base.take(kept) + seq!['/'] + uuid
                &&& kept > 0 ==> base[kept - 1] != '/'
                &&& forall|i: int| kept <= i < base.len() ==> base[i] == '/'
            },
{
    reveal_strlit("/");
    assert("/"@ =~= seq!['/']);
    lemma_without_trailing_slashes(base);
    let address = without_trailing_slashes(base);
    let kept = address.len() as int;
    assert(base.take(kept) =~= address);
    assert(base.push('/').drop_last() =~= base);
}

/// A request to unsubscribe succeeds exactly if its token is not empty and is that
/// of the subscription.
pub proof fn law_unsubscribe_succeeds(
    subs: Subscriptions,
    uuid: Seq<char>,
    header: Option<Seq<char>>,
)
    ensures
        unsubscribe_answer(subs, uuid, header) is Ok <==> ({
            &&& subs.contains_key(uuid)
            &&& header == Some(subs[uuid].delete_token@)
            &&& subs[uuid].delete_token@.len() > 0
        }),
        (header is None || header == Some(Seq::<char>::empty())) <==> unsubscribe_answer(
            subs,
            uuid,
            header,
        ) == Err::<u16, AppError>(AppError::DeleteTokenRequired),
{
    if header is Some && header->0.len() == 0 {
        assert(header->0 =~= Seq::<char>::empty());
    }
}

/// What has the shape of a token is thirty-two lower-case hexadecimal digits.
pub proof fn law_shape_of_tokens(s: Seq<char>)
    ensures
        is_delete_token(s) <==> s.len() == 32 && forall|i: int|
            0 <= i < s.len() ==> '0' <= #[trigger] s[i] <= '9' || 'a' <= s[i] <= 'f',
{
}

/// Which fault of a subscription is reported: the first, in the order of the text of
/// the endpoint, its URL, the size of the keys, and what they decode to.
pub proof fn law_subscription_faults(subscription: PushSubscription, allowed: Seq<Seq<char>>)
    ensures
        ({
            let error = subscription_error(subscription, allowed);
            let endpoint = trimmed(subscription.endpoint@);
            let url = uri_parts(endpoint);
            let p256dh = match url_safe_no_pad_decoded(subscription.keys.p256dh@) {
                Some(bytes) => Some(bytes),
                None => url_safe_decoded(subscription.keys.p256dh@),
            };
            let auth = match url_safe_no_pad_decoded(subscription.keys.auth@) {
                Some(bytes) => Some(bytes),
                None => url_safe_decoded(subscription.keys.auth@),
            };
            let has_text = endpoint.len() > 0 && encode_utf8(endpoint).len() <= 2048;
            let is_url = has_text && url is Some;
            let is_https = is_url && url->0.scheme is Some && same_ignoring_ascii_case(
                url->0.scheme->0,
                "https"@,
            );
            let has_host = is_https && url->0.host is Some;
            let is_allowed = has_host && is_allowed_host(url->0.host->0, allowed);
            let has_short_keys = is_allowed && encode_utf8(subscription.keys.p256dh@).len() <= 256
                && encode_utf8(subscription.keys.auth@).len() <= 128;
            let has_key = has_short_keys && p256dh is Some;
            let is_key = has_key && p256dh->0.len() == 65;
            let has_secret = is_key && auth is Some;
            &&& error == Some(AppError::EndpointRequired) <==> endpoint.len() == 0
            &&& error == Some(AppError::EndpointTooLong) <==> endpoint.len() > 0 && !has_text
            &&& error == Some(AppError::InvalidEndpointUrl) <==> has_text && !is_url
            &&& error == Some(AppError::EndpointNotHttps) <==> is_url && !is_https
            &&& error == Some(AppError::EndpointHostMissing) <==> is_https && !has_host
            &&& error == Some(AppError::EndpointHostNotAllowed) <==> has_host && !is_allowed
            &&& error == Some(AppError::SubscriptionKeysTooLong) <==> is_allowed && !has_short_keys
            &&& error == Some(AppError::InvalidP256dh) <==> has_short_keys && !has_key
            &&& error == Some(AppError::InvalidP256dhLength) <==> has_key && !is_key
            &&& error == Some(AppError::InvalidAuth) <==> is_key && !has_secret
            &&& error == Some(AppError::InvalidAuthLength) <==> has_secret && auth->0.len() != 16
        }),
{
    reveal_strlit("https");
    assert("https"@.len() == 5);
    assert(text_or_empty(None).len() == 0);
}

/// A request to unsubscribe from what is not there is told so, and one with another
/// token than the stored one that its token is wrong.
pub proof fn law_unsubscribe_faults(
    subs: Subscriptions,
    uuid: Seq<char>,
    provided: Seq<char>,
)
    requires
        provided.len() > 0,
    ensures
        unsubscribe_answer(subs, uuid, Some(provided)) == Err::<u16, AppError>(
            AppError::SubscriptionNotFound,
        ) <==> !subs.contains_key(uuid),
        unsubscribe_answer(subs, uuid, Some(provided)) == Err::<u16, AppError>(
            AppError::InvalidDeleteToken,
        ) <==> subs.contains_key(uuid) && subs[uuid].delete_token@ != provided,
{
}

/// Every random identifier without its hyphens has the shape of a token.
pub proof fn law_drawn_tokens(drawn: Seq<char>)
    requires
        is_drawn_uuid(drawn),
    ensures
        is_delete_token(without(drawn, '-')),
{
    lemma_drawn_uuids_were_drawn(drawn);
    lemma_uuid_digits(drawn);
}

/// [`webhook_url`] gives the base without the slashes at its end, and with all else
/// that it holds, then a slash and the identifier.
pub proof fn law_webhook_url_of_call(base: &str, uuid: &str, url: String)
    requires
        call_ensures(webhook_url, (base, uuid), url),
    ensures
        exists|kept: int|
            #![trigger base@.take(kept)]
            {
                &&& 0 <= kept <= base@.len()
                &&& url@ == base@.take(kept) + seq!['/'] + uuid@
                &&& kept > 0 ==> base@[kept - 1] != '/'
                &&& forall|i: int| kept <= i < base@.len() ==> base@[i] == '/'
            },
{
    law_webhook_url(base@, uuid@);
}

} // verus!
