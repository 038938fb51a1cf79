use hmac::{Hmac, Mac};
use limail::relay::{
    forward_after_summary, forward_detail, forward_email_to_slack, send_no_reply_template,
    send_no_reply_template_at,
    slack_post_result,
};
use limail::{
    LastResponseLog, Mailgun, MailgunEmailReceived, MailgunError, Minutes, MultipartError,
    MultipartFields,
};
use sha2::Sha256;

const KEY: &str = "key-3ax6xnjp29jd6fds4gc373sgvjxteol0";

fn mailgun() -> Mailgun {
    Mailgun {
        api_key: String::from(KEY),
        domain: String::from("example.com"),
        from: String::from("noreply@example.com"),
    }
}

fn sign(key: &str, timestamp: i64, token: &str) -> String {
    let mut mac = <Hmac<Sha256> as Mac>::new_from_slice(key.as_bytes()).unwrap();
    mac.update(format!("{}{}", timestamp, token).as_bytes());
    hex::encode(mac.finalize().into_bytes())
}

const HEADERS: &str = r#"[["Received", "by mx.example.com"], ["Message-Id", "<abc@mail.example.com>"], ["Message-Id", "<second@x>"]]"#;

fn email(from: &str, subject: &str, body: &str, timestamp: i64) -> MailgunEmailReceived {
    let token = "a8ce0edb2dd8301dee6c2405235584e45aa91d1e9f979f3de0";
    MailgunEmailReceived {
        sender: String::from(from),
        from: String::from(from),
        subject: String::from(subject),
        body_plain: String::from(body),
        timestamp,
        token: String::from(token),
        signature: sign(KEY, timestamp, token),
        message_headers: String::from(HEADERS),
    }
}

#[test]
fn valid_signature_is_accepted() {
    for ts in [0i64, 1, 1_565_000_000, -42, i64::MAX, i64::MIN] {
        let e = email("a@example.com", "Hello", "hi", ts);
        assert!(mailgun().verify_hmac(&e).is_ok());
    }
}

#[test]
fn flipped_bit_in_signature_is_rejected() {
    let e = email("a@example.com", "Hello", "hi", 1_565_000_000);
    let sig = e.signature.clone().into_bytes();
    for i in 0..sig.len() {
        for bit in 0..8 {
            let mut bad = sig.clone();
            bad[i] ^= 1u8 << bit;
            if let Ok(text) = String::from_utf8(bad) {
                let mut m = email("a@example.com", "Hello", "hi", 1_565_000_000);
                m.signature = text;
                let r = mailgun().verify_hmac(&m);
                assert!(matches!(r, Err(MailgunError::HmacError(_))));
                assert_eq!(r.unwrap_err().status_code(), 400);
            }
        }
    }
}

#[test]
fn signature_under_other_key_is_rejected() {
    let mut e = email("a@example.com", "Hello", "hi", 7);
    e.signature = sign("other", 7, &e.token);
    assert!(mailgun().verify_hmac(&e).is_err());
}

#[test]
fn upper_case_signature_is_rejected() {
    let mut e = email("a@example.com", "Hello", "hi", 7);
    e.signature = e.signature.to_uppercase();
    assert!(mailgun().verify_hmac(&e).is_err());
}

#[test]
fn message_id_is_the_first_one() {
    let e = email("a@example.com", "Hello", "hi", 1);
    assert_eq!(e.get_message_id().ok(), Some(String::from("<abc@mail.example.com>")));
}

#[test]
fn missing_message_id_is_a_provider_error() {
    let mut e = email("a@example.com", "Hello", "hi", 1);
    e.message_headers = String::from(r#"[["Received", "x"], ["Message-ID", "<y>"]]"#);
    let err = e.get_message_id().unwrap_err();
    assert!(matches!(err, MailgunError::MailgunError(_)));
    assert_eq!(err.status_code(), 500);
}

#[test]
fn malformed_headers_hold_no_message_id() {
    let mut e = email("a@example.com", "Hello", "hi", 1);
    e.message_headers = String::from("not json");
    let err = e.get_message_id().unwrap_err();
    assert!(matches!(err, MailgunError::MailgunError(_)));
    assert_eq!(err.status_code(), 500);
    assert!(!err.message().is_empty());
}

#[test]
fn malformed_headers_fail_the_reply_flow_as_provider_error() {
    let mut log = LastResponseLog::new(Minutes(60));
    let mut e = email("a@example.com", "Hello", "hi", 5);
    e.message_headers = String::from("{\"Message-Id\": 3}");
    let r = send_no_reply_template_at(&mailgun(), &mut log, String::from("t"), &e, 100);
    assert!(matches!(r, Err(MailgunError::MailgunError(_))));
    assert_eq!(log.last_sent(&String::from("a@example.com")), None);
}

#[test]
fn json_error_reports_bad_request() {
    let err = MailgunError::JsonError(String::from("expected value"));
    assert_eq!(err.status_code(), 400);
    assert_eq!(err.message(), "expected value");
}

#[test]
fn reply_flow_with_clock_returns_its_time() {
    let mut log = LastResponseLog::new(Minutes(60));
    let e = email("c@example.com", "Hello", "hi", 5);
    let (r, now) = send_no_reply_template(&mailgun(), &mut log, String::from("t"), &e);
    assert!(matches!(r, Ok(Some(_))));
    assert_eq!(log.last_sent(&String::from("c@example.com")), Some(now));
    let (again, _) = send_no_reply_template(&mailgun(), &mut log, String::from("t"), &e);
    assert!(matches!(again, Ok(None)));
}

#[test]
fn auto_reply_then_suppressed_within_cooldown() {
    let mut log = LastResponseLog::new(Minutes(60));
    let e = email("a@example.com", "Hello", "hi", 1_565_000_000);
    let first = send_no_reply_template_at(&mailgun(), &mut log, String::from("no-reply"), &e, 10_000);
    let t = match first {
        Ok(Some(t)) => t,
        _ => panic!("the first request should produce a reply"),
    };
    assert_eq!(t.recipient, "a@example.com");
    assert_eq!(t.subject, "Re: Hello");
    assert_eq!(t.template, "no-reply");
    assert_eq!(t.in_reply_to, "<abc@mail.example.com>");
    assert_eq!(t.references, "<abc@mail.example.com>");
    let second = send_no_reply_template_at(&mailgun(), &mut log, String::from("no-reply"), &e, 10_060);
    assert!(matches!(second, Ok(None)));
    assert_eq!(log.last_sent(&String::from("a@example.com")), Some(10_000));
    let later = send_no_reply_template_at(&mailgun(), &mut log, String::from("no-reply"), &e, 10_000 + 61 * 60);
    assert!(matches!(later, Ok(Some(_))));
}

#[test]
fn bad_signature_logs_nothing() {
    let mut log = LastResponseLog::new(Minutes(60));
    let mut e = email("a@example.com", "Hello", "hi", 5);
    e.signature = String::from("00");
    let r = send_no_reply_template_at(&mailgun(), &mut log, String::from("t"), &e, 100);
    assert!(matches!(r, Err(MailgunError::HmacError(_))));
    assert_eq!(log.last_sent(&String::from("a@example.com")), None);
}

#[test]
fn missing_message_id_logs_nothing() {
    let mut log = LastResponseLog::new(Minutes(60));
    let mut e = email("a@example.com", "Hello", "hi", 5);
    e.message_headers = String::from("[]");
    let r = send_no_reply_template_at(&mailgun(), &mut log, String::from("t"), &e, 100);
    assert!(matches!(r, Err(MailgunError::MailgunError(_))));
    assert_eq!(log.last_sent(&String::from("a@example.com")), None);
}

#[test]
fn forward_posts_summary_then_threaded_body() {
    let e = email("a@example.com", "Hello", "Line1\n\n\n\nLine2", 99);
    let channel = String::from("C123");
    let first = forward_email_to_slack(&mailgun(), &channel, &e).ok().unwrap();
    assert_eq!(first.channel, "C123");
    assert_eq!(first.text, "Email Received: Hello");
    assert_eq!(first.thread_ts, None);
    assert!(first.as_user);
    let second = forward_detail(&channel, &e, String::from("1565000000.000100"));
    assert_eq!(second.channel, "C123");
    assert_eq!(second.text, "```Line1\n\nLine2```\n(from: a@example.com)");
    assert!(second.text.contains("Line1\n\nLine2"));
    assert_eq!(second.thread_ts, Some(String::from("1565000000.000100")));
    assert!(second.as_user);
}

#[test]
fn forward_with_bad_signature_fails() {
    let mut e = email("a@example.com", "Hello", "x", 99);
    e.signature = sign(KEY, 100, &e.token);
    let r = forward_email_to_slack(&mailgun(), &String::from("C1"), &e);
    assert!(matches!(r, Err(MailgunError::HmacError(_))));
}

fn full_fields() -> Vec<(&'static str, &'static str)> {
    vec![
        ("sender", "a@example.com"),
        ("from", "A <a@example.com>"),
        ("subject", "Hello"),
        ("body-plain", "hi"),
        ("timestamp", "1565000000"),
        ("token", "tok"),
        ("signature", "sig"),
        ("message-headers", "[]"),
    ]
}

#[test]
fn all_fields_make_an_email() {
    let mut f = MultipartFields::new();
    for (n, v) in full_fields() {
        f.set_field(n, Some(String::from(v)));
    }
    f.set_field("attachment-count", Some(String::from("3")));
    let e = f.into_email().ok().unwrap();
    assert_eq!(e.sender, "a@example.com");
    assert_eq!(e.from, "A <a@example.com>");
    assert_eq!(e.subject, "Hello");
    assert_eq!(e.body_plain, "hi");
    assert_eq!(e.timestamp, 1_565_000_000);
    assert_eq!(e.token, "tok");
    assert_eq!(e.signature, "sig");
    assert_eq!(e.message_headers, "[]");
}

#[test]
fn any_missing_field_is_an_error() {
    for skip in 0..8 {
        let mut f = MultipartFields::new();
        for (i, (n, v)) in full_fields().into_iter().enumerate() {
            if i != skip {
                f.set_field(n, Some(String::from(v)));
            }
        }
        let r = f.into_email();
        assert!(matches!(r, Err(MultipartError::MissingFields())));
        assert_eq!(r.as_ref().err().unwrap().status_code(), 400);
        assert_eq!(r.err().unwrap().describe(), "MultipartError::MissingFields");
    }
}

#[test]
fn unparsable_timestamp_counts_as_missing() {
    let mut f = MultipartFields::new();
    for (n, v) in full_fields() {
        f.set_field(n, Some(String::from(v)));
    }
    f.set_field("timestamp", Some(String::from("12x")));
    assert!(f.into_email().is_err());
}

#[test]
fn non_text_part_clears_a_field() {
    let mut f = MultipartFields::new();
    for (n, v) in full_fields() {
        f.set_field(n, Some(String::from(v)));
    }
    f.set_field("subject", None);
    f.set_field("timestamp", None);
    assert_eq!(f.timestamp, Some(1_565_000_000));
    assert!(f.into_email().is_err());
}

#[test]
fn signed_timestamps_parse() {
    let mut f = MultipartFields::new();
    f.set_field("timestamp", Some(String::from("-17")));
    assert_eq!(f.timestamp, Some(-17));
    f.set_field("timestamp", Some(String::from("+17")));
    assert_eq!(f.timestamp, Some(17));
    f.set_field("timestamp", Some(String::from("99999999999999999999")));
    assert_eq!(f.timestamp, None);
}

#[test]
fn failed_summary_stops_the_forward() {
    let e = email("a@example.com", "Hello", "body", 1);
    let r = forward_after_summary(
        &String::from("C1"),
        &e,
        Err(MailgunError::MailgunError(String::from("channel_not_found"))),
    );
    match r {
        Err(MailgunError::MailgunError(m)) => assert_eq!(m, "channel_not_found"),
        _ => panic!("the forward should fail with the first step's error"),
    }
}

#[test]
fn summary_anchor_threads_the_detail() {
    let e = email("b@example.com", "Hi", "  x  \n\n\ny", 1);
    let m = forward_after_summary(&String::from("C9"), &e, Ok(String::from("111.222"))).ok().unwrap();
    assert_eq!(m.text, "```x\n\ny```\n(from: b@example.com)");
    assert_eq!(m.thread_ts, Some(String::from("111.222")));
    assert_eq!(m.channel, "C9");
}

#[test]
fn chat_answer_is_read() {
    assert_eq!(slack_post_result(true, Some(String::from("1.5")), None).ok(), Some(String::from("1.5")));
    match slack_post_result(false, Some(String::from("1.5")), Some(String::from("not_authed"))) {
        Err(MailgunError::MailgunError(m)) => assert_eq!(m, "not_authed"),
        _ => panic!("a refused post is an error"),
    }
    match slack_post_result(true, None, None) {
        Err(e) => assert_eq!(e.status_code(), 500),
        Ok(_) => panic!("a post without a timestamp cannot anchor a thread"),
    }
}
