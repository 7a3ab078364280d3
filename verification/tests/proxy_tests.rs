use ownify_desk::proxy::{fetch_result, upstream_succeeded, FetchAnswer};
use ownify_desk::proxy::{
    agent_returned_message, agent_url, auth_after_login, auth_after_verify, auth_begin,
    config_reply, connection_failed_message, fetch_reply, health_reply, parse_failed_message,
    proxy_err, proxy_internal_error, proxy_not_found, proxy_ok, AuthStep, CookieJar,
    HealthAnswer, LoginOutcome, ProxyEndpoint,
};
use ownify_desk::text::{body_excerpt, decimal_string, join_lines, pad_end, pad_start, tail_lines};

#[test]
fn reply_constructors() {
    let r = proxy_ok(1u8);
    assert_eq!((r.status, r.ok, r.data, r.error), (200, true, Some(1), None));
    let r: ownify_desk::proxy::ProxyResponse<u8> = proxy_err("e".to_string());
    assert_eq!((r.status, r.ok), (502, false));
    assert_eq!(r.error.as_deref(), Some("e"));
    let r: ownify_desk::proxy::ProxyResponse<u8> = proxy_not_found("n".to_string());
    assert_eq!(r.status, 404);
    let r: ownify_desk::proxy::ProxyResponse<u8> = proxy_internal_error("i".to_string());
    assert_eq!(r.status, 500);
    assert_eq!(fetch_reply::<u8>(Err("x".to_string())).status, 502);
    assert_eq!(fetch_reply(Ok(3u8)).data, Some(3));
}

#[test]
fn health_and_config_replies() {
    let r = health_reply::<u8>(HealthAnswer::Unreachable("timeout".to_string()));
    assert_eq!(r.status, 502);
    assert_eq!(r.error.as_deref(), Some("Agent unreachable: timeout"));
    let r = health_reply::<u8>(HealthAnswer::Unreadable("bad json".to_string()));
    assert_eq!(r.error.as_deref(), Some("bad json"));
    assert_eq!(health_reply(HealthAnswer::Data(7u8)).data, Some(7));

    let r = config_reply::<u8>(false, Ok(1));
    assert_eq!(r.status, 404);
    assert_eq!(r.error.as_deref(), Some("Agent not found"));
    let r = config_reply::<u8>(true, Err("io".to_string()));
    assert_eq!(r.status, 500);
    assert_eq!(config_reply(true, Ok(9u8)).data, Some(9));
}

#[test]
fn agent_urls() {
    assert_eq!(agent_url(Some(10961), "a", "health").unwrap(), "http://127.0.0.1:10961/api/health");
    assert_eq!(agent_url(Some(0), "a", "x/y").unwrap(), "http://127.0.0.1:0/api/x/y");
    assert_eq!(agent_url(None, "ghost", "health").unwrap_err(), "Agent 'ghost' not found");
    assert_eq!(ProxyEndpoint::Metrics.upstream_path(), "metrics/summary");
    assert_eq!(ProxyEndpoint::AgentCard.upstream_path(), "a2a/agent-card");
    assert_eq!(ProxyEndpoint::ConfigSelfCheck.upstream_path(), "config/self_check");
    assert_eq!(ProxyEndpoint::MemoryObservability.upstream_path(), "memory_observability");
}

#[test]
fn failure_messages() {
    assert_eq!(connection_failed_message("refused"), "Connection failed: refused");
    assert_eq!(parse_failed_message("eof"), "Parse failed: eof");
    assert_eq!(
        agent_returned_message("500 Internal Server Error", "oops").unwrap(),
        "Agent returned 500 Internal Server Error: oops"
    );
    let long = "b".repeat(300);
    assert_eq!(
        agent_returned_message("404 Not Found", &long).unwrap(),
        format!("Agent returned 404 Not Found: {}", "b".repeat(200))
    );
    // byte 200 falls inside a two-byte character
    let split = format!("{}\u{e9}tail", "a".repeat(199));
    assert_eq!(agent_returned_message("400 Bad Request", &split), None);
    let exact = format!("{}\u{e9}tail", "a".repeat(198));
    assert_eq!(
        agent_returned_message("400 Bad Request", &exact).unwrap(),
        format!("Agent returned 400 Bad Request: {}\u{e9}", "a".repeat(198))
    );
}

#[test]
fn cookie_jar() {
    let mut jar = CookieJar::new();
    assert_eq!(jar.get("a"), None);
    jar.insert("a", "c1".to_string());
    jar.insert("b", "c2".to_string());
    jar.insert("a", "c3".to_string());
    assert_eq!(jar.get("a").as_deref(), Some("c3"));
    assert_eq!(jar.get("b").as_deref(), Some("c2"));
}

#[test]
fn handshake_without_cookie_logs_in() {
    let mut jar = CookieJar::new();
    match auth_begin(&jar, "a", Some(10961)) {
        AuthStep::Login { url } => assert_eq!(url, "http://127.0.0.1:10961/api/auth/login"),
        other => panic!("unexpected {:?}", other),
    }
    match auth_begin(&jar, "a", None) {
        AuthStep::Done(Err(e)) => assert_eq!(e, "Agent 'a' not found"),
        other => panic!("unexpected {:?}", other),
    }
    let got = auth_after_login(
        &mut jar,
        "a",
        LoginOutcome::Answered { set_cookie: Some("sid=1".to_string()) },
    );
    assert_eq!(got.unwrap(), "sid=1");
    match auth_begin(&jar, "a", Some(10961)) {
        AuthStep::Verify { url, cookie } => {
            assert_eq!(url, "http://127.0.0.1:10961/api/auth/status");
            assert_eq!(cookie, "sid=1");
        }
        other => panic!("unexpected {:?}", other),
    }
}

#[test]
fn handshake_failures() {
    let mut jar = CookieJar::new();
    assert_eq!(
        auth_after_login(&mut jar, "a", LoginOutcome::Answered { set_cookie: None }).unwrap_err(),
        "Login failed - no session cookie received"
    );
    assert_eq!(
        auth_after_login(&mut jar, "a", LoginOutcome::Answered { set_cookie: Some(String::new()) })
            .unwrap_err(),
        "Login failed - no session cookie received"
    );
    assert_eq!(
        auth_after_login(&mut jar, "a", LoginOutcome::RequestFailed("refused".to_string()))
            .unwrap_err(),
        "Login failed: refused"
    );
    assert_eq!(
        auth_after_login(&mut jar, "a", LoginOutcome::ClientBuildFailed("tls".to_string()))
            .unwrap_err(),
        "Client build: tls"
    );
    assert_eq!(jar.get("a"), None);
    match auth_after_verify("sid".to_string(), true, "a", Some(1)) {
        AuthStep::Done(Ok(c)) => assert_eq!(c, "sid"),
        other => panic!("unexpected {:?}", other),
    }
    match auth_after_verify("sid".to_string(), false, "a", Some(1)) {
        AuthStep::Login { url } => assert_eq!(url, "http://127.0.0.1:1/api/auth/login"),
        other => panic!("unexpected {:?}", other),
    }
}

#[test]
fn text_helpers() {
    assert_eq!(decimal_string(0), "0");
    assert_eq!(decimal_string(18446744073709551615), "18446744073709551615");
    assert_eq!(pad_end("ab", 4), "ab  ");
    assert_eq!(pad_start("ab", 4), "  ab");
    assert_eq!(pad_start("abcde", 4), "abcde");
    assert_eq!(join_lines(&vec!["a".to_string(), String::new(), "b".to_string()]), "a\n\nb");
    assert_eq!(tail_lines("x\ny\nz", 2), "y\nz");
    assert_eq!(tail_lines("a\rb\n", 5), "a\rb");
    assert_eq!(body_excerpt("short"), Some("short"));
}

#[test]
fn fetch_outcomes() {
    assert!(upstream_succeeded(200));
    assert!(upstream_succeeded(299));
    assert!(!upstream_succeeded(199));
    assert!(!upstream_succeeded(300));
    assert!(!upstream_succeeded(404));
    assert_eq!(fetch_result(FetchAnswer::Data(4u8)), Some(Ok(4)));
    assert_eq!(
        fetch_result::<u8>(FetchAnswer::Unreachable("refused".to_string())),
        Some(Err("Connection failed: refused".to_string()))
    );
    assert_eq!(
        fetch_result::<u8>(FetchAnswer::Unparsable("eof".to_string())),
        Some(Err("Parse failed: eof".to_string()))
    );
    assert_eq!(
        fetch_result::<u8>(FetchAnswer::Refused {
            status: "503 Service Unavailable".to_string(),
            body: "busy".to_string()
        }),
        Some(Err("Agent returned 503 Service Unavailable: busy".to_string()))
    );
    let split = format!("{}\u{e9}", "a".repeat(199));
    assert_eq!(
        fetch_result::<u8>(FetchAnswer::Refused { status: "500".to_string(), body: split }),
        None
    );
}

#[test]
fn login_password_is_fixed() {
    assert_eq!(ownify_desk::proxy::login_password(), "helloworld");
}
