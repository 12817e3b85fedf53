use html2md_core::fetch::{
    is_html_content_type, looks_like_captcha, mentions_captcha, FetchAction, FetchError,
    FetchEvent, FetchState,
};

#[test]
fn send_failures_back_off_then_give_up() {
    let mut s = FetchState::new();
    assert_eq!(s.step(FetchEvent::SendFailed), FetchAction::Retry { delay_ms: 2000 });
    assert_eq!(s.step(FetchEvent::SendFailed), FetchAction::Retry { delay_ms: 4000 });
    assert_eq!(s.step(FetchEvent::SendFailed), FetchAction::Fail(FetchError::Unreachable));
    assert_eq!(s.failures, 3);
}

#[test]
fn refusals_and_rate_limits_retry_at_once() {
    let mut s = FetchState::new();
    let refused = FetchEvent::Response { status: 403, html: true };
    let limited = FetchEvent::Response { status: 429, html: false };
    assert_eq!(s.step(refused), FetchAction::Retry { delay_ms: 0 });
    assert_eq!(s.step(limited), FetchAction::Retry { delay_ms: 0 });
    assert_eq!(s.step(refused), FetchAction::Fail(FetchError::NoValidResponse));
}

#[test]
fn html_page_is_checked_then_accepted() {
    let mut s = FetchState::new();
    let ok = FetchEvent::Response { status: 200, html: true };
    assert_eq!(s.step(ok), FetchAction::CheckBody);
    assert_eq!(s.step(FetchEvent::Body { captcha: true }), FetchAction::Retry { delay_ms: 0 });
    assert_eq!(s.step(ok), FetchAction::CheckBody);
    assert_eq!(s.step(FetchEvent::Body { captcha: false }), FetchAction::Accept);
    assert_eq!(s.failures, 1);
}

#[test]
fn other_statuses_fail_or_pass_through() {
    let mut s = FetchState::new();
    assert_eq!(
        s.step(FetchEvent::Response { status: 404, html: true }),
        FetchAction::Fail(FetchError::Http(404))
    );
    let mut s = FetchState::new();
    assert_eq!(s.step(FetchEvent::Response { status: 200, html: false }), FetchAction::Accept);
    assert_eq!(s.step(FetchEvent::Response { status: 204, html: true }), FetchAction::Accept);
    assert_eq!(
        s.step(FetchEvent::Response { status: 301, html: true }),
        FetchAction::Fail(FetchError::Http(301))
    );
    assert_eq!(
        s.step(FetchEvent::Response { status: 101, html: false }),
        FetchAction::Fail(FetchError::Http(101))
    );
    assert_eq!(s.failures, 0);
}

#[test]
fn content_type_and_captcha_detection() {
    assert!(is_html_content_type("text/html; charset=utf-8"));
    assert!(!is_html_content_type("application/json"));
    assert!(!is_html_content_type(""));
    assert!(looks_like_captcha("Please solve the CAPTCHA below"));
    assert!(looks_like_captcha("captcha"));
    assert!(!looks_like_captcha("A plain article"));
    assert!(!mentions_captcha(&"CAPTCHA".chars().collect()));
    assert!(mentions_captcha(&"a captcha".chars().collect()));
}
