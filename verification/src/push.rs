//! Push messages: how one is made for a subscription, and what follows from the
//! answer of the push service.
use vstd::prelude::*;
use vstd::string::*;
use vstd::utf8::*;

use crate::chunking::MAX_ENVELOPE_BYTES;
use crate::config::Config;
use crate::error::AppError;
use crate::models::PushSubscription;
use crate::outside::{
    all_scheme_chars, begins_with_scheme, can_be_addressed, decode_url_safe,
    decode_url_safe_no_pad, has_scheme, invalid_keys_text, invalid_uri_text, is_key_or_refused,
    is_scheme_char, is_sealing_refused, is_signable, lemma_refusal_is_an_answer,
    lemma_sealing_refused, public_key_of, push_contents, push_endpoint, seal_push,
    url_safe_decoded, url_safe_no_pad_decoded, url_safe_no_pad_text, vapid_public_key,
    vapid_signature, vapid_tokens, PushSignature, SealError, SealedPush, AUTH_SECRET_LEN,
    MAX_PUSH_PAYLOAD_BYTES, P256_POINT_LEN, PRIVATE_KEY_LEN,
};
use crate::text::{ascii_lower, chars_of, trimmed};

verus! {

/// How long a push service keeps a message for a browser that is not there, in
/// seconds.
pub const PUSH_TTL_SECS: u32 = 60;

/// Whether `text` begins with a scheme and `://`.
pub fn begins_with_any_scheme(text: &str) -> (yes: bool)
    ensures
        yes == has_scheme(text@),
{
    let list: Vec<char> = chars_of(text);
    let mut n: usize = 0;
    while n < list.len() && (('A' <= list[n] && list[n] <= 'Z') || ('a' <= list[n] && list[n]
        <= 'z') || ('0' <= list[n] && list[n] <= '9') || list[n] == '+' || list[n] == '-'
        || list[n] == '.' || list[n] == '~')
        invariant
            n <= list@.len(),
            forall|i: int| 0 <= i < n ==> is_scheme_char(#[trigger] list@[i]),
        decreases list.len() - n,
    {
        n = n + 1;
    }
    let yes: bool = list.len() - n >= 3 && list[n] == ':' && list[n + 1] == '/' && list[n + 2]
        == '/';
    proof {
        let s = text@;
        if yes {
            assert(s.subrange(n as int, n + 3) =~= seq![':', '/', '/']);
            assert(all_scheme_chars(s.take(n as int)));
        }
        if has_scheme(s) {
            let m = choose|m: int|
                0 <= m <= s.len() - 3 && s.subrange(m, m + 3) == seq![':', '/', '/']
                    && #[trigger] all_scheme_chars(s.take(m));
            assert(s.subrange(m, m + 3)[0] == ':');
            assert(s.subrange(m, m + 3)[1] == '/');
            assert(s.subrange(m, m + 3)[2] == '/');
            assert(s[m] == ':' && s[m + 1] == '/' && s[m + 2] == '/');
            if m < n {
                assert(is_scheme_char(s[m]));
            }
            if n < m {
                assert(s.take(m)[n as int] == s[n as int]);
            }
        }
    }
    yes
}

/// The texts of a subscription and of a key are of a size that can be decoded.
/// Only a machine limit is asked for.
pub open spec fn can_be_decoded(cfg: Config, subscription: PushSubscription) -> bool {
    &&& encode_utf8(cfg.vapid_private_key@).len() + 7 <= usize::MAX
    &&& encode_utf8(subscription.keys.p256dh@).len() + 7 <= usize::MAX
    &&& encode_utf8(subscription.keys.auth@).len() + 7 <= usize::MAX
}

/// What a sealed message holds: it goes to the endpoint of the subscription, is
/// encrypted for its keys, and is signed with the key and the subject of the
/// configuration.
pub open spec fn is_push_for(
    sealed: SealedPush,
    cfg: Config,
    subscription: PushSubscription,
    payload: Seq<u8>,
) -> bool {
    &&& push_endpoint(subscription.endpoint@) == Some(sealed@.endpoint)
    &&& sealed@.ttl == PUSH_TTL_SECS
    &&& push_contents(subscription.keys.p256dh@, subscription.keys.auth@, payload).contains(
        sealed@.content,
    )
    &&& exists|token: Seq<char>| #[trigger]
        vapid_tokens(
            subscription.endpoint@,
            cfg.vapid_private_key@,
            "sub"@,
            cfg.vapid_subject@,
        ).contains(token) && sealed@.authorization == "vapid t="@ + token + ", k="@
            + url_safe_no_pad_text(vapid_public_key(cfg.vapid_private_key@)->0)
}

/// Whether a message to a subscription can be signed and addressed: the private
/// key is one, the endpoint is a URL with a scheme, and the keys of the
/// subscription can be decoded.
pub open spec fn is_reachable(cfg: Config, subscription: PushSubscription) -> bool {
    &&& vapid_public_key(cfg.vapid_private_key@) is Some
    &&& has_scheme(trimmed(subscription.endpoint@))
    &&& can_be_addressed(
        subscription.endpoint@,
        subscription.keys.p256dh@,
        subscription.keys.auth@,
    )
}

/// Whether the endpoint of a subscription is a URL with a scheme.
pub open spec fn has_url(subscription: PushSubscription) -> bool {
    has_scheme(trimmed(subscription.endpoint@)) && push_endpoint(subscription.endpoint@) is Some
}

/// Whether nothing that can be seen from outside of the encryption speaks against
/// a message: the private key is one, the endpoint a URL with a scheme, the keys of
/// the subscription decode to 65 and 16 bytes, and the payload has 1 to 3052 bytes.
pub open spec fn looks_sendable(
    cfg: Config,
    subscription: PushSubscription,
    payload: Seq<u8>,
) -> bool {
    &&& vapid_public_key(cfg.vapid_private_key@) is Some
    &&& has_scheme(trimmed(subscription.endpoint@))
    &&& push_endpoint(subscription.endpoint@) is Some
    &&& url_safe_decoded(subscription.keys.p256dh@) matches Some(key) && key.len() == 65
    &&& url_safe_decoded(subscription.keys.auth@) matches Some(secret) && secret.len() == 16
    &&& 1 <= payload.len() <= 3052
}

/// Whether the call that encrypts may refuse a message of `payload` to a
/// subscription.
pub open spec fn is_encryption_refused(subscription: PushSubscription, payload: Seq<u8>) -> bool {
    is_sealing_refused(
        subscription.endpoint@,
        subscription.keys.p256dh@,
        subscription.keys.auth@,
        payload,
    )
}

/// What may come of making a message: the message, the status 413 exactly where
/// only the size of the payload is wrong, or the status 500 with a description of
/// the first fault: the private key, the endpoint, the keys of the subscription.
pub open spec fn is_push_outcome(
    outcome: Result<SealedPush, AppError>,
    cfg: Config,
    subscription: PushSubscription,
    payload: Seq<u8>,
) -> bool {
    match outcome {
        Ok(sealed) => {
            &&& is_reachable(cfg, subscription)
            &&& url_safe_decoded(subscription.keys.p256dh@)->0.len() == P256_POINT_LEN
            &&& url_safe_decoded(subscription.keys.auth@)->0.len() == AUTH_SECRET_LEN
            &&& 1 <= payload.len() <= MAX_PUSH_PAYLOAD_BYTES
            &&& is_push_for(sealed, cfg, subscription, payload)
        },
        Err(AppError::PushPayloadTooLarge) => {
            &&& is_reachable(cfg, subscription)
            &&& payload.len() > MAX_PUSH_PAYLOAD_BYTES
        },
        Err(AppError::Internal(detail)) => {
            &&& !is_reachable(cfg, subscription) || payload.len() <= MAX_PUSH_PAYLOAD_BYTES
            &&& detail@ == if vapid_public_key(cfg.vapid_private_key@) is Some && !has_url(
                subscription,
            ) {
                invalid_uri_text()
            } else {
                invalid_keys_text()
            }
        },
        Err(_) => false,
    }
}

/// The error that is reported where a message could not be made.
pub fn seal_failure(e: SealError) -> (error: AppError)
    ensures
        match e {
            SealError::Builder(detail) => error == AppError::PushBuilder(detail),
            SealError::PayloadTooLarge => error == AppError::PushPayloadTooLarge,
            SealError::Other(detail) => error == AppError::Internal(detail),
        },
{
    match e {
        SealError::Builder(detail) => AppError::PushBuilder(detail),
        SealError::PayloadTooLarge => AppError::PushPayloadTooLarge,
        SealError::Other(detail) => AppError::Internal(detail),
    }
}

/// Makes the push message that carries `payload` to a subscription. The private
/// key must have its size, if it can be decoded at all.
pub fn build_push(cfg: &Config, subscription: &PushSubscription, payload: &[u8]) -> (r: Result<
    SealedPush,
    AppError,
>)
    requires
        is_key_or_refused(cfg.vapid_private_key@),
        can_be_decoded(*cfg, *subscription),
    ensures
        is_push_outcome(r, *cfg, *subscription, payload@),
        looks_sendable(*cfg, *subscription, payload@) && !is_encryption_refused(
            *subscription,
            payload@,
        ) ==> r is Ok,
        r is Ok ==> looks_sendable(*cfg, *subscription, payload@),
        url_safe_no_pad_decoded(cfg.vapid_private_key@) is None ==> r matches Err(
            AppError::Internal(_),
        ),
        payload@.len() <= MAX_ENVELOPE_BYTES ==> r != Err::<SealedPush, AppError>(
            AppError::PushPayloadTooLarge,
        ),
{
    match public_key_of(cfg.vapid_private_key.as_str()) {
        Ok(_) => {},
        Err(detail) => return Err(AppError::Internal(detail)),
    }
    if !begins_with_any_scheme(subscription.endpoint.as_str().trim()) {
        return Err(AppError::Internal("The provided URI is invalid".to_owned()));
    }
    proof {
        reveal_strlit("sub");
        reveal_strlit("exp");
        assert("sub"@[0] != "exp"@[0]);
    }
    let signature: PushSignature = match vapid_signature(
        subscription.endpoint.as_str(),
        cfg.vapid_private_key.as_str(),
        "sub",
        cfg.vapid_subject.as_str(),
    ) {
        Ok(signature) => signature,
        Err(detail) => return Err(AppError::Internal(detail)),
    };
    if payload.len() <= MAX_PUSH_PAYLOAD_BYTES {
        match decode_url_safe(subscription.keys.p256dh.as_str()) {
            Some(key) => if key.len() != P256_POINT_LEN {
                return Err(
                    AppError::Internal(
                        "The request is having invalid cryptographic keys".to_owned(),
                    ),
                );
            },
            None => {},
        }
    }
    let endpoint: &str = subscription.endpoint.as_str();
    let p256dh: &str = subscription.keys.p256dh.as_str();
    let auth: &str = subscription.keys.auth.as_str();
    let ghost handed_over = signature;
    match seal_push(endpoint, p256dh, auth, payload, PUSH_TTL_SECS, signature) {
        Ok(sealed) => Ok(sealed),
        Err(e) => {
            proof {
                if e is Other {
                    lemma_sealing_refused(
                        endpoint,
                        p256dh,
                        auth,
                        payload,
                        PUSH_TTL_SECS,
                        handed_over,
                        e->Other_0,
                    );
                }
            }
            Err(seal_failure(e))
        },
    }
}

/// Makes the push message that carries `payload` to a subscription, or nothing
/// where the private key can be decoded and has the wrong size.
pub fn prepare_push(cfg: &Config, subscription: &PushSubscription, payload: &[u8]) -> (r: Option<
    Result<SealedPush, AppError>,
>)
    ensures
        r is Some <==> is_key_or_refused(cfg.vapid_private_key@) && can_be_decoded(
            *cfg,
            *subscription,
        ),
        r matches Some(outcome) ==> is_push_outcome(outcome, *cfg, *subscription, payload@),
        can_be_decoded(*cfg, *subscription) && is_key_or_refused(cfg.vapid_private_key@)
            && looks_sendable(*cfg, *subscription, payload@) && !is_encryption_refused(
            *subscription,
            payload@,
        ) ==> (r matches Some(outcome) && outcome is Ok),
        r matches Some(Ok(_)) ==> looks_sendable(*cfg, *subscription, payload@),
        r is Some && !has_scheme(trimmed(subscription.endpoint@)) ==> r matches Some(
            Err(AppError::Internal(_)),
        ),
        r is Some && url_safe_no_pad_decoded(cfg.vapid_private_key@) is None ==> r matches Some(
            Err(AppError::Internal(_)),
        ),
        payload@.len() <= MAX_ENVELOPE_BYTES ==> r != Some(
            Err::<SealedPush, AppError>(AppError::PushPayloadTooLarge),
        ),
{
    let limit: usize = usize::MAX - 7;
    if cfg.vapid_private_key.as_str().as_bytes().len() > limit
        || subscription.keys.p256dh.as_str().as_bytes().len() > limit
        || subscription.keys.auth.as_str().as_bytes().len() > limit {
        return None;
    }
    match decode_url_safe_no_pad(cfg.vapid_private_key.as_str()) {
        Some(key) => if key.len() != PRIVATE_KEY_LEN {
            return None;
        },
        None => {},
    }
    Some(build_push(cfg, subscription, payload))
}

/// The answer of a push service to a message.
#[derive(Debug)]
pub enum PushReply {
    Delivered,
    EndpointNotValid,
    EndpointNotFound,
    PayloadTooLarge,
    /// Any other failure, with its description.
    Failed(String),
}

/// What follows from the answer of a push service: whether the delivery counts,
/// and whether the subscription is removed because its endpoint is gone.
pub fn after_push(reply: PushReply) -> (r: (Result<(), AppError>, bool))
    ensures
        match reply {
            PushReply::Delivered => r.0 == Ok::<(), AppError>(()),
            PushReply::EndpointNotValid => r.0 == Err::<(), AppError>(
                AppError::SubscriptionExpired,
            ),
            PushReply::EndpointNotFound => r.0 == Err::<(), AppError>(
                AppError::SubscriptionExpired,
            ),
            PushReply::PayloadTooLarge => r.0 == Err::<(), AppError>(
                AppError::PushPayloadTooLarge,
            ),
            PushReply::Failed(detail) => r.0 == Err::<(), AppError>(AppError::PushFailed(detail)),
        },
        r.1 <==> reply is EndpointNotValid || reply is EndpointNotFound,
        r.0 matches Err(e) ==> e@.status == if reply is PayloadTooLarge {
            413u16
        } else {
            502u16
        },
{
    match reply {
        PushReply::Delivered => (Ok(()), false),
        PushReply::EndpointNotValid => (Err(AppError::SubscriptionExpired), true),
        PushReply::EndpointNotFound => (Err(AppError::SubscriptionExpired), true),
        PushReply::PayloadTooLarge => (Err(AppError::PushPayloadTooLarge), false),
        PushReply::Failed(detail) => (Err(AppError::PushFailed(detail)), false),
    }
}

/// Messages to an endpoint that begins with `https://`, white space around it
/// apart, can be signed with every key of the right size. Every valid
/// subscription has such an endpoint.
pub proof fn law_https_endpoints_are_signable(endpoint: Seq<char>, private_key: Seq<char>)
    requires
        begins_with_scheme(trimmed(endpoint), "https"@),
        is_key_or_refused(private_key),
    ensures
        is_signable(endpoint, private_key),
{
    let text = trimmed(endpoint);
    reveal_strlit("https");
    assert forall|i: int| 0 <= i < 5 implies is_scheme_char(#[trigger] text.take(5)[i]) by {
        assert(ascii_lower(text.take(5)[i]) == ascii_lower("https"@[i]));
    }
    assert(all_scheme_chars(text.take(5)));
}

/// A text begins with a scheme exactly if `://` follows some characters, none or
/// more, that a scheme may hold: letters, digits, and a few signs.
pub proof fn law_schemes(text: Seq<char>, scheme: Seq<char>, rest: Seq<char>)
    ensures
        (forall|i: int|
            0 <= i < scheme.len() ==> 'A' <= #[trigger] scheme[i] <= 'Z' || 'a' <= scheme[i] <= 'z'
                || '0' <= scheme[i] <= '9' || scheme[i] == '+' || scheme[i] == '-' || scheme[i]
                == '.' || scheme[i] == '~') ==> has_scheme(scheme + seq![':', '/', '/'] + rest),
        has_scheme(text) ==> exists|n: int|
            #![trigger text.take(n)]
            {
                &&& 0 <= n <= text.len() - 3
                &&& text[n] == ':' && text[n + 1] == '/' && text[n + 2] == '/'
                &&& forall|i: int|
                    0 <= i < n ==> 'A' <= #[trigger] text[i] <= 'Z' || 'a' <= text[i] <= 'z' || '0'
                        <= text[i] <= '9' || text[i] == '+' || text[i] == '-' || text[i] == '.'
                        || text[i] == '~'
            },
{
    let whole = scheme + seq![':', '/', '/'] + rest;
    let n = scheme.len() as int;
    assert(whole.take(n) =~= scheme);
    assert(whole.subrange(n, n + 3) =~= seq![':', '/', '/']);
    if all_scheme_chars(scheme) {
        assert(all_scheme_chars(whole.take(n)));
    }
    if has_scheme(text) {
        let m = choose|m: int|
            0 <= m <= text.len() - 3 && text.subrange(m, m + 3) == seq![':', '/', '/']
                && #[trigger] all_scheme_chars(text.take(m));
        assert(text.subrange(m, m + 3)[0] == ':');
        assert(text.subrange(m, m + 3)[1] == '/');
        assert(text.subrange(m, m + 3)[2] == '/');
        assert forall|i: int| 0 <= i < m implies is_scheme_char(#[trigger] text[i]) by {
            assert(text.take(m)[i] == text[i]);
        }
    }
}

/// A message is made only for what can be signed, addressed and encrypted, and then
/// goes to the endpoint, lives for a minute, and is encrypted for the keys and signed
/// with the key of the configuration. One whose payload has more than 3052 bytes is
/// refused as too large, and no other is. Every other refusal is described by the
/// first fault.
pub proof fn law_push_outcomes(
    outcome: Result<SealedPush, AppError>,
    cfg: Config,
    subscription: PushSubscription,
    payload: Seq<u8>,
)
    requires
        is_push_outcome(outcome, cfg, subscription, payload),
    ensures
        ({
            let endpoint = subscription.endpoint@;
            let is_signed = vapid_public_key(cfg.vapid_private_key@) is Some;
            let is_url = has_scheme(trimmed(endpoint)) && push_endpoint(endpoint) is Some;
            let p256dh = url_safe_decoded(subscription.keys.p256dh@);
            let auth = url_safe_decoded(subscription.keys.auth@);
            let is_large = is_signed && is_url && p256dh is Some && auth is Some && payload.len()
                > 3052;
            &&& outcome is Ok ==> looks_sendable(cfg, subscription, payload)
            &&& outcome matches Ok(sealed) ==> {
                &&& sealed@.ttl == 60
                &&& push_endpoint(endpoint) == Some(sealed@.endpoint)
                &&& push_contents(
                    subscription.keys.p256dh@,
                    subscription.keys.auth@,
                    payload,
                ).contains(sealed@.content)
                &&& exists|token: Seq<char>| #[trigger]
                    vapid_tokens(
                        endpoint,
                        cfg.vapid_private_key@,
                        "sub"@,
                        cfg.vapid_subject@,
                    ).contains(token) && sealed@.authorization == "vapid t="@ + token + ", k="@
                        + url_safe_no_pad_text(vapid_public_key(cfg.vapid_private_key@)->0)
            }
            &&& outcome == Err::<SealedPush, AppError>(AppError::PushPayloadTooLarge) <==> is_large
            &&& outcome matches Err(e) ==> e is PushPayloadTooLarge || e is Internal
            &&& outcome matches Err(AppError::Internal(detail)) ==> detail@ == if is_signed
                && !is_url {
                "The provided URI is invalid"@
            } else {
                "The request is having invalid cryptographic keys"@
            }
        }),
{
}

/// Nothing but the key, the endpoint, the keys of the subscription and the size of
/// the payload counts for whether a message looks sendable, and nothing but the sizes
/// of texts and of the key for whether one may be asked for.
pub proof fn law_sendable(cfg: Config, subscription: PushSubscription, payload: Seq<u8>)
    ensures
        looks_sendable(cfg, subscription, payload) <==> {
            let p256dh = url_safe_decoded(subscription.keys.p256dh@);
            let auth = url_safe_decoded(subscription.keys.auth@);
            &&& vapid_public_key(cfg.vapid_private_key@) is Some
            &&& has_scheme(trimmed(subscription.endpoint@))
            &&& push_endpoint(subscription.endpoint@) is Some
            &&& p256dh is Some && p256dh->0.len() == 65
            &&& auth is Some && auth->0.len() == 16
            &&& 0 < payload.len() < 3053
        },
        is_encryption_refused(subscription, payload) <==> is_sealing_refused(
            subscription.endpoint@,
            subscription.keys.p256dh@,
            subscription.keys.auth@,
            payload,
        ),
        can_be_decoded(cfg, subscription) <==> {
            &&& encode_utf8(cfg.vapid_private_key@).len() <= usize::MAX - 7
            &&& encode_utf8(subscription.keys.p256dh@).len() <= usize::MAX - 7
            &&& encode_utf8(subscription.keys.auth@).len() <= usize::MAX - 7
        },
        is_key_or_refused(cfg.vapid_private_key@) <==> {
            ||| url_safe_no_pad_decoded(cfg.vapid_private_key@) is None
            ||| url_safe_no_pad_decoded(cfg.vapid_private_key@)->0.len() == 32
        },
{
}

/// A payload that is too large is not for the encryption to refuse: where it does,
/// the endpoint is no URL or a key cannot be decoded.
pub proof fn law_refused_encryption(subscription: PushSubscription, payload: Seq<u8>)
    requires
        is_encryption_refused(subscription, payload),
        payload.len() > 3052,
    ensures
        push_endpoint(subscription.endpoint@) is None || url_safe_decoded(
            subscription.keys.p256dh@,
        ) is None || url_safe_decoded(subscription.keys.auth@) is None,
{
    lemma_refusal_is_an_answer(
        subscription.endpoint@,
        subscription.keys.p256dh@,
        subscription.keys.auth@,
        payload,
    );
}

/// With a private key that is one, an endpoint that is a URL with a scheme, keys of
/// 65 and 16 bytes and a payload of 1 to 3052 bytes, [`build_push`] fails only where
/// the encryption itself refuses; without any of these it does not succeed.
pub proof fn law_build_push(
    cfg: Config,
    subscription: PushSubscription,
    payload: &[u8],
    r: Result<SealedPush, AppError>,
)
    requires
        call_ensures(build_push, (&cfg, &subscription, payload), r),
    ensures
        ({
            let p256dh = url_safe_decoded(subscription.keys.p256dh@);
            let auth = url_safe_decoded(subscription.keys.auth@);
            let is_sendable = vapid_public_key(cfg.vapid_private_key@) is Some && has_scheme(
                trimmed(subscription.endpoint@),
            ) && push_endpoint(subscription.endpoint@) is Some && p256dh is Some && p256dh->0.len()
                == 65 && auth is Some && auth->0.len() == 16 && 1 <= payload@.len() <= 3052;
            let is_refused = is_sealing_refused(
                subscription.endpoint@,
                subscription.keys.p256dh@,
                subscription.keys.auth@,
                payload@,
            );
            &&& is_sendable && !is_refused ==> r is Ok
            &&& !is_sendable ==> r is Err
            &&& is_sendable && r is Err ==> is_refused
        }),
{
}

} // verus!
