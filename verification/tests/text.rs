use httptester::config::parse_list;
use httptester::error::AppError;
use httptester::handlers::host_allowed;
use httptester::text::{chars_of, contains_text, same_text, split_fields, text_of};

fn is_white_space(n: u32) -> bool {
    (0x09..=0x0d).contains(&n)
        || n == 0x20
        || n == 0x85
        || n == 0xa0
        || n == 0x1680
        || (0x2000..=0x200a).contains(&n)
        || n == 0x2028
        || n == 0x2029
        || n == 0x202f
        || n == 0x205f
        || n == 0x3000
}

#[test]
fn white_space_is_what_trim_removes() {
    for n in 0..=0x10ffff_u32 {
        if let Some(c) = char::from_u32(n) {
            let text: String = [c, 'x', c].iter().collect();
            assert_eq!(text.trim() == "x", is_white_space(n), "{:x}", n);
        }
    }
    assert_eq!(parse_list("\u{2003}a\u{200b},\u{a0}"), vec!["a\u{200b}"]);
}

#[test]
fn case_is_ignored_for_ascii_letters_only() {
    for n in 0..0x3000_u32 {
        if let Some(c) = char::from_u32(n) {
            let upper: String = c.to_ascii_uppercase().to_string();
            assert!(host_allowed(&c.to_string(), &[upper]));
        }
    }
    assert!(!host_allowed("\u{e9}", &["\u{c9}".to_string()]));
    assert!(!host_allowed("k", &["\u{212a}".to_string()]));
}

#[test]
fn texts_are_compared_by_character() {
    assert!(same_text("", ""));
    assert!(same_text("a\u{e9}", "a\u{e9}"));
    assert!(!same_text("a", "A"));
    assert!(!same_text("a", "ab"));
    let list = vec!["a".to_string(), "b".to_string()];
    assert!(contains_text(&list, "b"));
    assert!(!contains_text(&list, ""));
}

#[test]
fn fields_are_split_as_std_splits_them() {
    for text in ["", ",", "a", "a,b", ",a,,b,", "\u{e9},\u{3000}"] {
        let expected: Vec<String> = text.split(',').map(str::to_string).collect();
        assert_eq!(split_fields(text, ','), expected);
    }
}

#[test]
fn characters_make_up_a_text() {
    let list = chars_of("a\u{e9}\u{1f600}");
    assert_eq!(list, vec!['a', '\u{e9}', '\u{1f600}']);
    assert_eq!(text_of(&list), "a\u{e9}\u{1f600}");
    assert_eq!(text_of(&[]), "");
}

#[test]
fn errors_have_a_status_and_a_message() {
    let errors = [
        (AppError::EndpointRequired, 400, "endpoint required"),
        (AppError::EndpointTooLong, 400, "endpoint too long"),
        (AppError::InvalidEndpointUrl, 400, "invalid endpoint url"),
        (AppError::EndpointNotHttps, 400, "endpoint must be https"),
        (AppError::EndpointHostMissing, 400, "endpoint host missing"),
        (AppError::EndpointHostNotAllowed, 400, "endpoint host not allowed"),
        (AppError::SubscriptionKeysTooLong, 400, "subscription keys too long"),
        (AppError::InvalidP256dh, 400, "invalid p256dh"),
        (AppError::InvalidP256dhLength, 400, "invalid p256dh length"),
        (AppError::InvalidAuth, 400, "invalid auth"),
        (AppError::InvalidAuthLength, 400, "invalid auth length"),
        (AppError::DeleteTokenRequired, 401, "delete token required"),
        (AppError::SubscriptionNotFound, 404, "subscription not found"),
        (AppError::InvalidDeleteToken, 403, "invalid delete token"),
        (AppError::IdAllocationFailed, 500, "failed to allocate unique id"),
        (AppError::RateLimitExceeded, 429, "rate limit exceeded"),
        (AppError::PayloadExceedsLimit, 413, "payload exceeds limit"),
        (AppError::MetadataTooLarge, 413, "metadata too large"),
        (AppError::BodyTimeout, 408, "request body timeout"),
        (AppError::InvalidBody, 400, "invalid request body"),
        (AppError::ChunkOverheadTooLarge, 413, "chunk overhead exceeds push limit"),
        (AppError::ChunkSizeTooSmall, 413, "chunk size too small"),
        (AppError::UuidTooLong, 500, "uuid too long"),
        (AppError::QueuePayloadTooLarge, 413, "queue payload too large"),
        (AppError::QueueRecordCorrupt, 500, "queue record corrupt"),
        (AppError::QueueFull, 503, "queue full"),
        (AppError::QueueWriterBusy, 503, "queue writer busy"),
        (AppError::QueueWriterDropped, 500, "queue writer dropped"),
        (AppError::QueueWriterCrashed("x".to_string()), 500, "queue writer crashed: x"),
        (AppError::SubscriptionExpired, 502, "subscription expired"),
        (AppError::PushPayloadTooLarge, 413, "push payload too large"),
        (AppError::PushBuilder("x".to_string()), 500, "push builder error: x"),
        (AppError::PushFailed("x".to_string()), 502, "push failed: x"),
        (AppError::Internal("x".to_string()), 500, "x"),
    ];
    for (error, status, message) in errors {
        assert_eq!(error.status(), status);
        assert_eq!(error.message(), message);
    }
}
