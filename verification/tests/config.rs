use httptester::config::{
    check_base_url, ensure_secure_base_url, parse_cors_origins, parse_list, BaseUrlError, Config,
    ConfigError, Environment,
};
use httptester::number::{parse_signed, parse_unsigned, NumberError};
use httptester::outside::UriParts;

fn environment(vars: &[(&str, &str)]) -> Environment {
    let mut env = Environment::new();
    env.set("VAPID_PUBLIC_KEY", "public");
    env.set("VAPID_PRIVATE_KEY", "private");
    for (key, value) in vars {
        env.set(key, value);
    }
    env
}

fn failure(vars: &[(&str, &str)]) -> String {
    Config::from_env(&environment(vars)).err().unwrap().message()
}

#[test]
fn defaults_are_as_documented() {
    let cfg = Config::from_env(&environment(&[])).unwrap();
    assert_eq!(cfg.bind_addr, "0.0.0.0:3000");
    assert_eq!(cfg.public_base_url, "http://localhost:3000");
    assert_eq!(cfg.db_path, "httptester.redb");
    assert_eq!(cfg.static_dir, "frontend");
    assert!(cfg.serve_frontend);
    assert!(!cfg.cors_allow_any);
    assert_eq!(cfg.cors_origins, vec!["http://localhost:3000".to_string()]);
    assert_eq!(
        cfg.allowed_push_hosts,
        vec![
            "fcm.googleapis.com",
            "updates.push.services.mozilla.com",
            "wns.windows.com",
            "notify.windows.com",
            "web.push.apple.com"
        ]
    );
    assert_eq!(cfg.webhook_read_timeout_ms, 3000);
    assert_eq!(cfg.vapid_public_key, "public");
    assert_eq!(cfg.vapid_private_key, "private");
    assert_eq!(cfg.vapid_subject, "mailto:admin@example.com");
    assert_eq!(cfg.max_payload_bytes, 102_400);
    assert_eq!(cfg.chunk_data_bytes, 2400);
    assert_eq!(cfg.chunk_delay_ms, 50);
    assert_eq!(cfg.subscription_ttl_days, 30);
    assert_eq!(cfg.rate_limit_per_minute, 60);
    assert_eq!(cfg.queue_db_path, "httptester.queue.redb");
    assert_eq!(cfg.queue_max_bytes, 1_073_741_824);
    assert_eq!(cfg.queue_workers, 8);
}

#[test]
fn variables_override_defaults() {
    let cfg = Config::from_env(&environment(&[
        ("BIND_ADDR", "127.0.0.1:1"),
        ("PUBLIC_BASE_URL", "https://x.example"),
        ("DB_PATH", "a"),
        ("STATIC_DIR", "b"),
        ("SERVE_FRONTEND", "false"),
        ("CORS_ORIGINS", "https://a.example, *"),
        ("ALLOWED_PUSH_HOSTS", ""),
        ("WEBHOOK_READ_TIMEOUT_MS", "18446744073709551615"),
        ("VAPID_SUBJECT", "mailto:x@y"),
        ("MAX_PAYLOAD_BYTES", "1"),
        ("CHUNK_DATA_BYTES", "2"),
        ("CHUNK_DELAY_MS", "0"),
        ("SUBSCRIPTION_TTL_DAYS", "-5"),
        ("RATE_LIMIT_PER_MINUTE", "4294967295"),
        ("QUEUE_DB_PATH", "c"),
        ("QUEUE_MAX_BYTES", "4294967295"),
        ("QUEUE_WORKERS", "1"),
    ]))
    .unwrap();
    assert_eq!(cfg.bind_addr, "127.0.0.1:1");
    assert_eq!(cfg.public_base_url, "https://x.example");
    assert_eq!((cfg.db_path.as_str(), cfg.static_dir.as_str()), ("a", "b"));
    assert!(!cfg.serve_frontend);
    assert!(cfg.cors_allow_any && cfg.cors_origins.is_empty());
    assert!(cfg.allowed_push_hosts.is_empty());
    assert_eq!(cfg.webhook_read_timeout_ms, u64::MAX);
    assert_eq!(cfg.vapid_subject, "mailto:x@y");
    assert_eq!((cfg.max_payload_bytes, cfg.chunk_data_bytes, cfg.chunk_delay_ms), (1, 2, 0));
    assert_eq!(cfg.subscription_ttl_days, -5);
    assert_eq!(cfg.rate_limit_per_minute, u32::MAX);
    assert_eq!(cfg.queue_db_path, "c");
    assert_eq!((cfg.queue_max_bytes, cfg.queue_workers), (u32::MAX as usize, 1));
}

#[test]
fn missing_keys_are_reported() {
    let mut env = Environment::new();
    assert_eq!(Config::from_env(&env).err().unwrap().message(), "VAPID_PUBLIC_KEY is required");
    env.set("VAPID_PUBLIC_KEY", "");
    assert_eq!(Config::from_env(&env).err().unwrap().message(), "VAPID_PRIVATE_KEY is required");
    env.set("VAPID_PRIVATE_KEY", "");
    assert!(Config::from_env(&env).is_ok());
}

#[test]
fn nonsensical_values_are_reported() {
    assert_eq!(failure(&[("CHUNK_DATA_BYTES", "0")]), "CHUNK_DATA_BYTES must be > 0");
    assert_eq!(failure(&[("MAX_PAYLOAD_BYTES", "0")]), "MAX_PAYLOAD_BYTES must be > 0");
    assert_eq!(failure(&[("QUEUE_MAX_BYTES", "0")]), "QUEUE_MAX_BYTES must be > 0");
    assert_eq!(failure(&[("QUEUE_WORKERS", "0")]), "QUEUE_WORKERS must be > 0");
    assert_eq!(failure(&[("QUEUE_MAX_BYTES", "4294967296")]), "QUEUE_MAX_BYTES must fit in u32");
    let both = [("QUEUE_WORKERS", "0"), ("CHUNK_DATA_BYTES", "0")];
    assert_eq!(failure(&both), "CHUNK_DATA_BYTES must be > 0");
}

#[test]
fn unreadable_values_are_reported_as_std_does() {
    let number = |text: &str| text.parse::<u64>().unwrap_err().to_string();
    assert_eq!(failure(&[("QUEUE_WORKERS", "")]), number(""));
    assert_eq!(failure(&[("QUEUE_WORKERS", "x")]), number("x"));
    assert_eq!(failure(&[("QUEUE_WORKERS", "-1")]), number("-1"));
    assert_eq!(failure(&[("QUEUE_WORKERS", "99999999999999999999")]), number("99999999999999999999"));
    let small = "-99999999999999999999";
    assert_eq!(
        failure(&[("SUBSCRIPTION_TTL_DAYS", small)]),
        small.parse::<i64>().unwrap_err().to_string()
    );
    assert_eq!(
        failure(&[("SERVE_FRONTEND", "yes")]),
        "yes".parse::<bool>().unwrap_err().to_string()
    );
    let first = [("SERVE_FRONTEND", "yes"), ("QUEUE_WORKERS", "")];
    assert_eq!(failure(&first), "yes".parse::<bool>().unwrap_err().to_string());
    let error = Config::from_env(&environment(&[("QUEUE_WORKERS", "x")])).err().unwrap();
    assert!(matches!(error, ConfigError::InvalidNumber(NumberError::InvalidDigit)));
}

#[test]
fn numbers_are_read_as_std_reads_them() {
    let texts = [
        "", "+", "-", "0", "-0", "+0", "007", "12", "+12", "-12", "1 ", " 1", "1_0", "0x1", "++1",
        "+-1", "9223372036854775807", "9223372036854775808", "-9223372036854775808",
        "-9223372036854775809", "18446744073709551615", "18446744073709551616", "\u{663}",
        "99999999999999999999x", "255", "256",
    ];
    for text in texts {
        assert_eq!(parse_unsigned(text, u64::MAX).ok(), text.parse::<u64>().ok(), "{}", text);
        assert_eq!(parse_signed(text).ok(), text.parse::<i64>().ok(), "{}", text);
        assert_eq!(
            parse_unsigned(text, 255).ok(),
            text.parse::<u8>().ok().map(|n| n as u64),
            "{}",
            text
        );
        if let Err(error) = text.parse::<u64>() {
            assert_eq!(parse_unsigned(text, u64::MAX).unwrap_err().message(), error.to_string());
        }
        if let Err(error) = text.parse::<i64>() {
            assert_eq!(parse_signed(text).unwrap_err().message(), error.to_string());
        }
        if let Err(error) = text.parse::<u8>() {
            assert_eq!(parse_unsigned(text, 255).unwrap_err().message(), error.to_string());
        }
    }
}

#[test]
fn lists_are_trimmed_and_without_empty_items() {
    assert_eq!(parse_list(" a ,b,, \u{3000} ,c d,"), vec!["a", "b", "c d"]);
    assert!(parse_list("").is_empty());
    assert!(parse_list(" , ,").is_empty());
    assert_eq!(parse_list("x"), vec!["x"]);
}

#[test]
fn star_allows_any_origin() {
    assert_eq!(parse_cors_origins("a, * ,b"), (true, vec![]));
    assert_eq!(parse_cors_origins("a,b*"), (false, vec!["a".to_string(), "b*".to_string()]));
    assert_eq!(parse_cors_origins(""), (false, vec![]));
}

#[test]
fn public_address_must_be_secure() {
    for good in [
        "https://x.example",
        "HTTPS://x.example/path",
        "http://localhost:3000",
        "http://127.0.0.1",
        "localhost",
    ] {
        assert!(ensure_secure_base_url(good).is_ok(), "{}", good);
    }
    for bad in ["http://x.example", "x.example", "ftp://x.example", "/path", "http://[::1]:80"] {
        let error = ensure_secure_base_url(bad).err().unwrap();
        assert!(matches!(error, BaseUrlError::Insecure), "{}", bad);
    }
    let error = ensure_secure_base_url("http://x y").err().unwrap();
    assert_eq!(error.message(), "PUBLIC_BASE_URL is not a valid URL");
    let error = ensure_secure_base_url("http://x.example").err().unwrap();
    assert_eq!(
        error.message(),
        "PUBLIC_BASE_URL must be https for non-localhost deployments"
    );
    let parts = Some(UriParts { scheme: None, host: Some("::1".to_string()) });
    assert!(check_base_url(&parts).is_ok());
    assert!(check_base_url(&Some(UriParts { scheme: None, host: None })).is_err());
}

#[test]
fn environment_keeps_the_last_value() {
    let mut env = Environment::new();
    assert_eq!(env.get("a"), None);
    env.set("a", "1");
    env.set("a", "2");
    assert_eq!(env.get("a"), Some("2"));
}
