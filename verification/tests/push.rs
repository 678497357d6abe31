use base64::{encode_config, URL_SAFE_NO_PAD};
use httptester::config::{Config, Environment};
use httptester::error::AppError;
use httptester::models::{PushKeys, PushSubscription};
use httptester::outside::{SealError, SealedPush};
use httptester::push::{after_push, begins_with_any_scheme, prepare_push, seal_failure, PushReply};

const P256DH: &str =
    "BCVxsr7N_eNgVRqvHtD0zTZsEc6-VV-JvLexhqUzORcxaOzi6-AYWXvTBHm4bjyPjs7Vd8pZGH6SRpkNtoIAiw4";
const AUTH: &str = "BTBZMqHH6r4Tts7J_aSIgg";

fn cfg(private_key: &str) -> Config {
    let mut env = Environment::new();
    env.set("VAPID_PUBLIC_KEY", "public");
    env.set("VAPID_PRIVATE_KEY", private_key);
    env.set("VAPID_SUBJECT", "mailto:me@example.com");
    Config::from_env(&env).unwrap()
}

fn key() -> String {
    encode_config([1u8; 32], URL_SAFE_NO_PAD)
}

fn subscription(endpoint: &str) -> PushSubscription {
    PushSubscription {
        endpoint: endpoint.to_string(),
        expiration_time: None,
        keys: PushKeys { p256dh: P256DH.to_string(), auth: AUTH.to_string() },
    }
}

fn prepare(endpoint: &str, payload: &[u8]) -> Result<SealedPush, AppError> {
    prepare_push(&cfg(&key()), &subscription(endpoint), payload).unwrap()
}

#[test]
fn push_is_encrypted_and_signed() {
    let sealed = prepare("https://push.example/send/1", b"secret payload").ok().unwrap();
    assert_eq!(sealed.endpoint(), "https://push.example/send/1");
    assert_eq!(sealed.ttl(), 60);
    assert!(sealed.content().len() > 86 + b"secret payload".len());
    assert!(!sealed.content().windows(6).any(|part| part == b"secret"));
    let content = sealed.content().to_vec();
    let authorization = sealed.authorization().to_string();

    let message = sealed.into_message();
    assert_eq!(message.endpoint.to_string(), "https://push.example/send/1");
    assert_eq!(message.ttl, 60);
    let payload = message.payload.as_ref().unwrap();
    assert_eq!(payload.content, content);
    assert_eq!(payload.crypto_headers, vec![("Authorization", authorization.clone())]);

    let rest = authorization.strip_prefix("vapid t=").unwrap();
    let (token, public_key) = rest.split_once(", k=").unwrap();
    let claims = token.split('.').nth(1).unwrap();
    let claims = base64::decode_config(claims, URL_SAFE_NO_PAD).unwrap();
    let claims: serde_json::Value = serde_json::from_slice(&claims).unwrap();
    assert_eq!(claims["sub"].as_str().unwrap(), "mailto:me@example.com");
    assert_eq!(claims["aud"].as_str().unwrap(), "https://push.example");
    let public_key = base64::decode_config(public_key, URL_SAFE_NO_PAD).unwrap();
    assert_eq!(public_key.len(), 65);
    assert_eq!(public_key[0], 4);
}

#[test]
fn payload_sizes_are_limited() {
    assert!(prepare("https://push.example/1", &[7; 3000]).is_ok());
    assert!(prepare("https://push.example/1", &[7; 3052]).is_ok());
    let error = prepare("https://push.example/1", &[7; 3053]).err().unwrap();
    assert!(matches!(error, AppError::PushPayloadTooLarge));
    assert_eq!((error.status(), error.message()), (413, "push payload too large".to_string()));
    assert!(matches!(prepare("https://push.example/1", &[]), Err(AppError::Internal(_))));
}

#[test]
fn white_space_round_an_endpoint_is_refused_later() {
    assert!(matches!(prepare(" https://push.example/1", b"x"), Err(AppError::Internal(_))));
}

#[test]
fn keys_that_are_no_point_are_refused() {
    let mut other = subscription("https://push.example/1");
    other.keys.p256dh = encode_config([1u8; 65], URL_SAFE_NO_PAD);
    assert!(matches!(
        prepare_push(&cfg(&key()), &other, b"x").unwrap(),
        Err(AppError::Internal(_))
    ));
}

#[test]
fn keys_of_other_sizes_are_refused() {
    let point = base64::decode_config(P256DH, URL_SAFE_NO_PAD).unwrap();
    let mut compressed = vec![2 + point[64] % 2];
    compressed.extend_from_slice(&point[1..33]);
    for bytes in [compressed, vec![], vec![0], vec![4; 64], vec![4; 66]] {
        let mut other = subscription("https://push.example/1");
        other.keys.p256dh = encode_config(&bytes, URL_SAFE_NO_PAD);
        let error = prepare_push(&cfg(&key()), &other, b"x").unwrap().err().unwrap();
        assert_eq!(error.status(), 500);
        assert_eq!(error.message(), web_push::WebPushError::InvalidCryptoKeys.to_string());
        let error = prepare_push(&cfg(&key()), &other, &[7; 3053]).unwrap().err().unwrap();
        assert_eq!(error.status(), 413);
    }
    let mut other = subscription("https://push.example/1");
    other.keys.auth = encode_config([1u8; 15], URL_SAFE_NO_PAD);
    let error = prepare_push(&cfg(&key()), &other, b"x").unwrap().err().unwrap();
    assert_eq!(error.message(), web_push::WebPushError::InvalidCryptoKeys.to_string());
}

#[test]
fn unusable_private_keys() {
    let target = subscription("https://push.example/1");
    let error = prepare_push(&cfg("no key!"), &target, b"x").unwrap().err().unwrap();
    assert!(matches!(error, AppError::Internal(_)));
    assert_eq!(error.status(), 500);
    assert!(prepare_push(&cfg("AQEB"), &target, b"x").is_none());
    let zero = encode_config([0u8; 32], URL_SAFE_NO_PAD);
    assert!(matches!(prepare_push(&cfg(&zero), &target, b"x").unwrap(), Err(AppError::Internal(_))));
}

#[test]
fn endpoints_without_a_scheme_are_refused() {
    for endpoint in ["push.example", "/path", "push.example:443", "", "ht!tp://x", "http:/x"] {
        let error = prepare(endpoint, b"x").err().unwrap();
        assert!(matches!(error, AppError::Internal(_)), "{}", endpoint);
        assert_eq!(error.status(), 500);
        assert_eq!(error.message(), web_push::WebPushError::InvalidUri.to_string());
        assert!(!begins_with_any_scheme(endpoint));
    }
    for endpoint in ["://x", "HTTP://", "http://x://y", "https://x y", "x-y.z+1~://x"] {
        assert!(begins_with_any_scheme(endpoint));
    }
    assert!(prepare("x-y.z+1~://x", b"x").is_ok());
    assert!(matches!(prepare("https://x y", b"x"), Err(AppError::Internal(_))));
    let error = prepare("https://", b"x").err().unwrap();
    assert_eq!(error.message(), web_push::WebPushError::InvalidUri.to_string());
}

#[test]
fn private_key_is_looked_at_before_the_endpoint() {
    let zero = encode_config([0u8; 32], URL_SAFE_NO_PAD);
    for private_key in ["no key!", zero.as_str()] {
        let target = subscription("/path");
        let error = prepare_push(&cfg(private_key), &target, b"x").unwrap().err().unwrap();
        assert_eq!(error.message(), web_push::WebPushError::InvalidCryptoKeys.to_string());
    }
}

#[test]
fn large_payload_comes_after_every_other_fault() {
    let large = [7u8; 3053];
    assert!(matches!(prepare("https://", &large), Err(AppError::Internal(_))));
    assert!(matches!(prepare("/path", &large), Err(AppError::Internal(_))));
    for broken in ["p256dh", "auth"] {
        let mut target = subscription("https://push.example/1");
        if broken == "auth" {
            target.keys.auth = "!!".to_string();
        } else {
            target.keys.p256dh = "!!".to_string();
        }
        let error = prepare_push(&cfg(&key()), &target, &large).unwrap().err().unwrap();
        assert_eq!(error.message(), web_push::WebPushError::InvalidCryptoKeys.to_string());
    }
    let mut target = subscription("https://push.example/1");
    target.keys.p256dh = encode_config([1u8; 65], URL_SAFE_NO_PAD);
    assert!(matches!(
        prepare_push(&cfg(&key()), &target, &large).unwrap(),
        Err(AppError::PushPayloadTooLarge)
    ));
}

#[test]
fn failures_are_reported() {
    let error = seal_failure(SealError::Builder("b".to_string()));
    assert_eq!((error.status(), error.message()), (500, "push builder error: b".to_string()));
    let error = seal_failure(SealError::Other("o".to_string()));
    assert_eq!((error.status(), error.message()), (500, "o".to_string()));
    assert!(matches!(seal_failure(SealError::PayloadTooLarge), AppError::PushPayloadTooLarge));
}

#[test]
fn answers_of_push_services() {
    assert!(matches!(after_push(PushReply::Delivered), (Ok(()), false)));
    for reply in [PushReply::EndpointNotValid, PushReply::EndpointNotFound] {
        let (result, remove) = after_push(reply);
        let error = result.unwrap_err();
        assert!(remove);
        assert_eq!((error.status(), error.message()), (502, "subscription expired".to_string()));
    }
    let (result, remove) = after_push(PushReply::PayloadTooLarge);
    assert!(!remove);
    assert_eq!(result.unwrap_err().status(), 413);
    let (result, remove) = after_push(PushReply::Failed("why".to_string()));
    let error = result.unwrap_err();
    assert!(!remove);
    assert_eq!((error.status(), error.message()), (502, "push failed: why".to_string()));
}
