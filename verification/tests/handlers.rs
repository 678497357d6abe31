use std::collections::BTreeMap;

use base64::{encode as base64_encode, encode_config, URL_SAFE, URL_SAFE_NO_PAD};
use httptester::chunking::resolve_chunk_size;
use httptester::config::{Config, Environment};
use httptester::envelope::ChunkEnvelope;
use httptester::error::AppError;
use httptester::handlers::{
    check_endpoint_url, check_key_bytes, config, decode_b64url, health, host_allowed,
    provided_delete_token, registration, subscribe, unsubscribe, validate_subscription, webhook_url,
};
use httptester::models::{PushKeys, PushSubscription, StoredSubscription, Timestamp};
use httptester::outside::UriParts;

fn make_subscription(endpoint: &str, p256dh_bytes: usize, auth_bytes: usize) -> PushSubscription {
    let p256dh = encode_config(vec![1u8; p256dh_bytes], URL_SAFE_NO_PAD);
    let auth = encode_config(vec![2u8; auth_bytes], URL_SAFE_NO_PAD);
    PushSubscription {
        endpoint: endpoint.to_string(),
        expiration_time: None,
        keys: PushKeys { p256dh, auth },
    }
}

fn cfg(base: &str) -> Config {
    let mut env = Environment::new();
    env.set("VAPID_PUBLIC_KEY", "public");
    env.set("VAPID_PRIVATE_KEY", "private");
    env.set("PUBLIC_BASE_URL", base);
    Config::from_env(&env).unwrap()
}

#[test]
fn validate_subscription_accepts_valid() {
    let sub = make_subscription("https://example.com/endpoint", 65, 16);
    let allowed = vec!["example.com".to_string()];
    assert!(validate_subscription(&sub, &allowed).is_ok());
}

#[test]
fn validate_subscription_rejects_http() {
    let sub = make_subscription("http://example.com/endpoint", 65, 16);
    let allowed = vec!["example.com".to_string()];
    assert!(validate_subscription(&sub, &allowed).is_err());
}

#[test]
fn validate_subscription_rejects_invalid_p256dh() {
    let mut sub = make_subscription("https://example.com/endpoint", 65, 16);
    sub.keys.p256dh = "not-base64".to_string();
    let allowed = vec!["example.com".to_string()];
    assert!(validate_subscription(&sub, &allowed).is_err());
}

#[test]
fn validate_subscription_rejects_invalid_lengths() {
    let sub = make_subscription("https://example.com/endpoint", 64, 15);
    let allowed = vec!["example.com".to_string()];
    assert!(validate_subscription(&sub, &allowed).is_err());
}

#[test]
fn resolve_chunking_keeps_envelope_under_limit() {
    let payload = vec![0u8; 10_000];
    let request_id = "req-1";
    let chunk_size = resolve_chunk_size(request_id, 2400, payload.len()).unwrap();
    assert!(chunk_size > 0 && chunk_size <= 2400);

    let chunks: Vec<&[u8]> = payload.chunks(chunk_size).collect();
    let total_chunks = chunks.len();

    const MAX_ENVELOPE_BYTES: usize = 3000;
    for (index, chunk) in chunks.iter().enumerate() {
        let is_last = index + 1 == total_chunks;
        let envelope = ChunkEnvelope {
            request_id: request_id.to_string(),
            chunk_index: index + 1,
            total_chunks: if is_last { Some(total_chunks) } else { None },
            is_last,
            data: base64_encode(chunk),
        };
        let size = envelope.to_json().len();
        assert!(size <= MAX_ENVELOPE_BYTES);
    }
}

#[test]
fn every_fault_of_a_subscription_has_its_error() {
    let allowed = vec!["example.com".to_string()];
    let check = |sub: &PushSubscription| validate_subscription(sub, &allowed).unwrap_err();

    assert!(matches!(check(&make_subscription(" \t ", 65, 16)), AppError::EndpointRequired));
    let long = format!("https://example.com/{}", "a".repeat(2048));
    assert!(matches!(check(&make_subscription(&long, 65, 16)), AppError::EndpointTooLong));
    assert!(matches!(
        check(&make_subscription("https://exa mple.com/", 65, 16)),
        AppError::InvalidEndpointUrl
    ));
    assert!(matches!(
        check(&make_subscription("http://example.com/", 65, 16)),
        AppError::EndpointNotHttps
    ));
    assert!(matches!(check(&make_subscription("/path", 65, 16)), AppError::EndpointNotHttps));
    assert!(matches!(
        check(&make_subscription("https://example.org/", 65, 16)),
        AppError::EndpointHostNotAllowed
    ));

    let mut sub = make_subscription("https://example.com/", 65, 16);
    sub.keys.p256dh = "A".repeat(257);
    assert!(matches!(check(&sub), AppError::SubscriptionKeysTooLong));
    let mut sub = make_subscription("https://example.com/", 65, 16);
    sub.keys.auth = "A".repeat(129);
    assert!(matches!(check(&sub), AppError::SubscriptionKeysTooLong));
    let mut sub = make_subscription("https://example.com/", 65, 16);
    sub.keys.p256dh = "!!".to_string();
    assert!(matches!(check(&sub), AppError::InvalidP256dh));
    assert!(matches!(
        check(&make_subscription("https://example.com/", 64, 16)),
        AppError::InvalidP256dhLength
    ));
    let mut sub = make_subscription("https://example.com/", 65, 16);
    sub.keys.auth = "!!".to_string();
    assert!(matches!(check(&sub), AppError::InvalidAuth));
    assert!(matches!(
        check(&make_subscription("https://example.com/", 65, 15)),
        AppError::InvalidAuthLength
    ));
}

#[test]
fn url_without_host_is_refused() {
    let parts = Some(UriParts { scheme: Some("https".to_string()), host: None });
    let error = check_endpoint_url(&parts, &[]).unwrap_err();
    assert!(matches!(error, AppError::EndpointHostMissing));
    assert_eq!(error.status(), 400);
    assert_eq!(error.message(), "endpoint host missing");
}

#[test]
fn endpoint_is_trimmed_and_its_case_ignored() {
    let sub = make_subscription("  HTTPS://Example.COM/endpoint\n", 65, 16);
    assert!(validate_subscription(&sub, &["EXAMPLE.com".to_string()]).is_ok());
}

#[test]
fn longest_endpoint_is_accepted() {
    let start = "https://example.com/";
    let endpoint = format!("{}{}", start, "a".repeat(2048 - start.len()));
    assert!(validate_subscription(&make_subscription(&endpoint, 65, 16), &[]).is_ok());
}

#[test]
fn keys_are_checked_in_order() {
    let auth = Some(vec![0u8; 3]);
    assert!(matches!(check_key_bytes(&None, &None), Err(AppError::InvalidP256dh)));
    assert!(matches!(
        check_key_bytes(&Some(vec![0u8; 64]), &None),
        Err(AppError::InvalidP256dhLength)
    ));
    assert!(matches!(check_key_bytes(&Some(vec![0u8; 65]), &None), Err(AppError::InvalidAuth)));
    assert!(matches!(
        check_key_bytes(&Some(vec![0u8; 65]), &auth),
        Err(AppError::InvalidAuthLength)
    ));
    assert!(check_key_bytes(&Some(vec![0u8; 65]), &Some(vec![0u8; 16])).is_ok());
}

#[test]
fn base64_is_decoded_with_and_without_padding() {
    let bytes = vec![0xfbu8, 0xef, 0xff, 0x01];
    assert_eq!(encode_config(&bytes, URL_SAFE_NO_PAD), "--__AQ");
    assert_eq!(decode_b64url("--__AQ"), Some(bytes.clone()));
    assert_eq!(encode_config(&bytes, URL_SAFE), "--__AQ==");
    assert_eq!(decode_b64url("--__AQ=="), Some(bytes));
    assert_eq!(decode_b64url("++//AQ"), None);
    assert_eq!(decode_b64url(""), Some(vec![]));
}

#[test]
fn hosts_are_allowed_by_list() {
    let list = vec!["a.example".to_string(), "B.example".to_string()];
    assert!(host_allowed("A.EXAMPLE", &list));
    assert!(host_allowed("b.example", &list));
    assert!(!host_allowed("c.example", &list));
    assert!(!host_allowed("xa.example", &list));
    assert!(host_allowed("anything", &[]));
    assert!(host_allowed("anything", &["a".to_string(), "*".to_string()]));
}

#[test]
fn liveness_and_public_key() {
    assert_eq!(health(), 200);
    assert_eq!(config(&cfg("http://localhost:3000")).public_key, "public");
}

#[test]
fn webhook_urls_have_one_slash() {
    assert_eq!(webhook_url("https://x.example", "abc"), "https://x.example/abc");
    assert_eq!(webhook_url("https://x.example///", "abc"), "https://x.example/abc");
    assert_eq!(webhook_url("", "abc"), "/abc");
    assert_eq!(webhook_url("//", "abc"), "/abc");
}

#[test]
fn registration_is_answered_as_stored() {
    let time = Timestamp { secs: 12, nanos: 34 };
    let (stored, response) = registration(
        make_subscription("https://example.com/", 65, 16),
        "0123456789ab".to_string(),
        "token".to_string(),
        time,
        "https://x.example/",
    );
    assert_eq!(stored.subscription.endpoint, "https://example.com/");
    assert_eq!(stored.created_at, time);
    assert_eq!(stored.delete_token, "token");
    assert_eq!(response.uuid, "0123456789ab");
    assert_eq!(response.url, "https://x.example/0123456789ab");
    assert_eq!(response.delete_token, "token");
}

#[test]
fn subscribing_makes_a_token_that_unsubscribes() {
    let before = chrono::Utc::now().timestamp();
    let (stored, response) = subscribe(
        make_subscription("https://wns.windows.com/", 65, 16),
        "0123456789ab".to_string(),
        &cfg("https://x.example"),
    )
    .unwrap();
    let after = chrono::Utc::now().timestamp();
    assert_eq!(response.url, "https://x.example/0123456789ab");
    assert_eq!(response.delete_token.len(), 32);
    assert!(response.delete_token.chars().all(|c| c.is_ascii_hexdigit() && !c.is_uppercase()));
    assert!(before <= stored.created_at.secs && stored.created_at.secs <= after);
    let stored = Some(stored);
    let removal = unsubscribe("0123456789ab", &stored, &response.delete_token).unwrap();
    assert_eq!((removal.uuid.as_str(), removal.status), ("0123456789ab", 204));
    let other = response.delete_token.to_uppercase() + "0";
    assert!(matches!(unsubscribe("id", &stored, &other), Err(AppError::InvalidDeleteToken)));
}

#[test]
fn unsubscribing_is_answered_by_status() {
    let stored = Some(StoredSubscription {
        subscription: make_subscription("https://example.com/", 65, 16),
        created_at: Timestamp { secs: 0, nanos: 0 },
        delete_token: "token".to_string(),
    });
    assert_eq!(provided_delete_token(None).unwrap_err().status(), 401);
    assert_eq!(provided_delete_token(Some("")).unwrap_err().status(), 401);
    assert_eq!(provided_delete_token(Some("token")).unwrap(), "token");
    assert_eq!(unsubscribe("id", &None, "token").unwrap_err().status(), 404);
    assert_eq!(unsubscribe("id", &stored, "other").unwrap_err().status(), 403);
    assert_eq!(unsubscribe("id", &stored, "token").unwrap().status, 204);
}

#[test]
fn unsubscribing_removes_one_subscription_once() {
    let mut subs = BTreeMap::new();
    for (id, token) in [("a", "token-a"), ("b", "token-b"), ("c", "")] {
        let stored = StoredSubscription {
            subscription: make_subscription("https://example.com/", 65, 16),
            created_at: Timestamp { secs: 0, nanos: 0 },
            delete_token: token.to_string(),
        };
        subs.insert(id.to_string(), stored);
    }
    let mut request = |id: &str, header: Option<&str>| -> (u16, String) {
        let answer = provided_delete_token(header)
            .and_then(|token| unsubscribe(id, &subs.get(id).cloned(), token));
        let status = match answer {
            Ok(removal) => {
                subs.remove(&removal.uuid);
                removal.status
            }
            Err(error) => error.status(),
        };
        (status, subs.keys().cloned().collect())
    };
    assert_eq!(request("a", None), (401, "abc".to_string()));
    assert_eq!(request("a", Some("token-b")), (403, "abc".to_string()));
    assert_eq!(request("d", Some("token-a")), (404, "abc".to_string()));
    assert_eq!(request("c", Some("")), (401, "abc".to_string()));
    assert_eq!(request("c", Some("x")), (403, "abc".to_string()));
    assert_eq!(request("a", Some("token-a")), (204, "bc".to_string()));
    assert_eq!(request("a", Some("token-a")), (404, "bc".to_string()));
}

#[test]
fn invalid_subscriptions_are_not_registered() {
    let error = subscribe(
        make_subscription("http://wns.windows.com/", 65, 16),
        "0123456789ab".to_string(),
        &cfg("https://x.example"),
    )
    .unwrap_err();
    assert!(matches!(error, AppError::EndpointNotHttps));
}

#[test]
fn a_subscription_without_a_token_cannot_be_removed() {
    let stored = Some(StoredSubscription {
        subscription: make_subscription("https://example.com/", 65, 16),
        created_at: Timestamp { secs: 0, nanos: 0 },
        delete_token: String::new(),
    });
    assert!(provided_delete_token(Some("")).is_err());
    assert_eq!(unsubscribe("id", &stored, "x").unwrap_err().status(), 403);
}
