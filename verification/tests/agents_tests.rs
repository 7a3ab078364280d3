use ownify_desk::agents::{
    agent_detail, agent_list, agent_not_found_message, apply_update, check_new_slug,
    config_saved_message, dashboard, dashboard_url, default_true, deleting_message,
    enable_auto_start, is_valid_slug, lifecycle_status, log_tail, new_agent_meta, next_port,
    no_logs_message, normalize_slug, plan_new_agent, running_count, status_line, AgentMeta,
    AgentUpdate, ApiResponse, CreateAgentRequest, CreateRefusal, LifecycleAction,
    FIRST_AGENT_PORT,
};
use ownify_desk::process::{AgentRegistry, ProcessStatus};

fn meta(slug: &str, port: u16) -> AgentMeta {
    AgentMeta {
        slug: slug.to_string(),
        display_name: format!("{} bot", slug),
        description: "desc".to_string(),
        port,
        auto_start: true,
        enabled: true,
        created_at: "t0".to_string(),
        updated_at: "t0".to_string(),
    }
}

fn request(slug: &str) -> CreateAgentRequest {
    CreateAgentRequest {
        slug: slug.to_string(),
        display_name: "Helper".to_string(),
        description: String::new(),
        auto_start: default_true(),
        enabled: default_true(),
    }
}

#[test]
fn response_envelopes() {
    let ok: ApiResponse<u32> = ApiResponse::success(5);
    assert!(ok.ok);
    assert_eq!(ok.data, Some(5));
    assert_eq!(ok.error, None);
    let err: ApiResponse<u32> = ApiResponse::error("boom".to_string());
    assert!(!err.ok);
    assert_eq!(err.data, None);
    assert_eq!(err.error.as_deref(), Some("boom"));
}

#[test]
fn slug_validation() {
    assert!(is_valid_slug("personal-assistant"));
    assert!(is_valid_slug("bot1"));
    assert!(is_valid_slug(&"a".repeat(32)));
    assert!(!is_valid_slug(&"a".repeat(33)));
    assert!(!is_valid_slug(""));
    assert!(!is_valid_slug("Bot"));
    assert!(!is_valid_slug("my bot"));
    assert!(!is_valid_slug("my_bot"));
    assert!(!is_valid_slug("caf\u{e9}"));
}

#[test]
fn slug_normalization() {
    assert_eq!(normalize_slug("  DevOps-Bot \t"), "devops-bot");
    assert_eq!(normalize_slug("\u{3000}X\u{3000}"), "x");
    assert_eq!(normalize_slug("\u{c9}T\u{c9}"), "\u{e9}t\u{e9}");
}

#[test]
fn new_slug_checks() {
    let existing = vec![meta("alpha", 10961)];
    assert!(check_new_slug("beta", Some(&existing)).is_ok());
    assert!(check_new_slug("alpha", None).is_ok());
    match check_new_slug("alpha", Some(&existing)) {
        Err(e @ CreateRefusal::AlreadyExists { .. }) => {
            assert_eq!(e.message(), "Agent 'alpha' already exists")
        }
        _ => panic!("expected a duplicate"),
    }
    match check_new_slug("Alpha", Some(&existing)) {
        Err(e @ CreateRefusal::InvalidSlug) => assert_eq!(
            e.message(),
            "Invalid slug: use lowercase letters, numbers, and hyphens (max 32 chars)"
        ),
        _ => panic!("expected an invalid slug"),
    }
}

#[test]
fn planning_a_new_agent() {
    let existing = vec![meta("alpha", 10961)];
    assert_eq!(plan_new_agent(&request(" NewBot "), Some(&existing)).unwrap(), "newbot");
    assert!(matches!(
        plan_new_agent(&request("ALPHA"), Some(&existing)),
        Err(CreateRefusal::AlreadyExists { .. })
    ));
    assert!(matches!(
        plan_new_agent(&request("bad slug"), Some(&existing)),
        Err(CreateRefusal::InvalidSlug)
    ));
    let m = new_agent_meta("newbot".to_string(), request("x"), 10962, "now".to_string());
    assert_eq!(m.slug, "newbot");
    assert_eq!(m.display_name, "Helper");
    assert_eq!(m.port, 10962);
    assert!(m.auto_start && m.enabled);
    assert_eq!(m.created_at, "now");
    assert_eq!(m.updated_at, "now");
}

#[test]
fn port_assignment() {
    assert_eq!(next_port(&vec![]), Some(FIRST_AGENT_PORT));
    assert_eq!(next_port(&vec![10961, 10963, 10962]), Some(10964));
    assert_eq!(next_port(&vec![80]), Some(10961));
    assert_eq!(next_port(&vec![10961, 65535]), None);
}

#[test]
fn updates() {
    let m = meta("alpha", 10961);
    let upd = AgentUpdate {
        display_name: Some("Renamed".to_string()),
        description: None,
        port: Some(70000),
        auto_start: Some(false),
        enabled: None,
    };
    let r = apply_update(m, upd, "t1".to_string());
    assert_eq!(r.slug, "alpha");
    assert_eq!(r.display_name, "Renamed");
    assert_eq!(r.description, "desc");
    assert_eq!(r.port, (70000u64 % 65536) as u16);
    assert_eq!(r.port, 4464);
    assert!(!r.auto_start);
    assert!(r.enabled);
    assert_eq!(r.created_at, "t0");
    assert_eq!(r.updated_at, "t1");

    let none = AgentUpdate {
        display_name: None,
        description: None,
        port: None,
        auto_start: None,
        enabled: None,
    };
    let r2 = apply_update(meta("b", 5), none, "t2".to_string());
    assert_eq!(r2.port, 5);
    assert_eq!(r2.updated_at, "t2");
}

#[test]
fn auto_start_switch() {
    let mut m = meta("a", 1);
    m.auto_start = false;
    let (m2, changed) = enable_auto_start(m);
    assert!(changed && m2.auto_start);
    let (m3, changed) = enable_auto_start(m2);
    assert!(!changed && m3.auto_start);
}

#[test]
fn listing_detail_and_dashboard() {
    let agents = vec![meta("a", 1), meta("b", 2), meta("c", 3), meta("d", 4)];
    let mut reg = AgentRegistry::new();
    reg.record_started("a", 1, Some(11));
    reg.record_started("b", 2, Some(12));
    reg.mark_stopped("b").unwrap();
    reg.record_started("zzz", 9, None);

    let list = agent_list(&agents, &reg);
    assert_eq!(list.len(), 4);
    assert_eq!(list[0].status, ProcessStatus::Running);
    assert_eq!(list[1].status, ProcessStatus::Stopped);
    assert_eq!(list[2].status, ProcessStatus::Stopped);
    assert_eq!(list[3].slug, "d");
    assert_eq!(list[3].port, 4);

    let d = agent_detail("a", meta("a", 1), &reg);
    assert_eq!(d.status, ProcessStatus::Running);
    assert_eq!(d.pid, Some(11));
    let d = agent_detail("c", meta("c", 3), &reg);
    assert_eq!(d.status, ProcessStatus::Stopped);
    assert_eq!(d.pid, None);

    // the registry is asked about the slug the request names, not the stored one
    let d = agent_detail("a", meta("other", 1), &reg);
    assert_eq!((d.status, d.pid), (ProcessStatus::Running, Some(11)));
    assert_eq!(d.meta.slug, "other");

    let dash = dashboard(&agents, &reg);
    assert_eq!(dash.total, 4);
    assert_eq!(dash.running, 1);
    assert_eq!(dash.stopped, 3);
    assert_eq!(dash.total, dash.running + dash.stopped);
    assert_eq!(running_count(&agents, &reg), 1);
    assert_eq!(dashboard(&vec![], &reg).total, 0);
}

#[test]
fn messages() {
    assert_eq!(deleting_message("x"), "Agent 'x' deleting");
    assert_eq!(config_saved_message("x"), "Config for 'x' saved");
    assert_eq!(agent_not_found_message(), "Agent not found");
    assert_eq!(no_logs_message(), "No logs found");
    assert_eq!(dashboard_url(), "http://127.0.0.1:9090");
    assert_eq!(lifecycle_status(LifecycleAction::Start), "starting");
    assert_eq!(lifecycle_status(LifecycleAction::Stop), "stopping");
    assert_eq!(lifecycle_status(LifecycleAction::Restart), "restarting");
}

#[test]
fn log_tail_keeps_last_200_lines() {
    let content: String = (0..250).map(|i| format!("line {}\r\n", i)).collect();
    let tail = log_tail(&content);
    let expected: Vec<String> = (50..250).map(|i| format!("line {}", i)).collect();
    assert_eq!(tail, expected.join("\n"));
    assert_eq!(log_tail("a\nb\n"), "a\nb");
    assert_eq!(log_tail(""), "");
}

#[test]
fn command_line_status_line() {
    let m = meta("alpha", 10961);
    assert_eq!(
        status_line(&m),
        format!("  {:<20} port {:>5}  {}  {}", "alpha", 10961, "enabled", "alpha bot")
    );
    let mut m2 = meta(&"x".repeat(25), 80);
    m2.enabled = false;
    assert_eq!(
        status_line(&m2),
        format!("  {:<20} port {:>5}  {}  {}", "x".repeat(25), 80, "disabled", "x".repeat(25) + " bot")
    );
}

#[test]
fn new_port_collides_with_none() {
    let used = vec![10961, 10990, 10970, 11000];
    let p = next_port(&used).unwrap();
    assert!(p >= FIRST_AGENT_PORT);
    assert!(used.iter().all(|u| *u < p));
}

#[test]
fn status_count_never_exceeds_dashboard_count() {
    let agents = vec![meta("a", 1), meta("b", 2)];
    let mut reg = AgentRegistry::new();
    reg.record_started("a", 1, None);
    let dash = dashboard(&agents, &reg);
    assert!(running_count(&agents, &reg) <= dash.running);
}

#[test]
fn created_slug_is_valid() {
    let s = plan_new_agent(&request("\tOk-Name-1\n"), None).unwrap();
    assert_eq!(s, "ok-name-1");
    assert!(is_valid_slug(&s));
}

#[test]
fn default_config_text() {
    assert_eq!(
        ownify_desk::agents::generate_default_config("bot"),
        "# microclaw configuration for agent 'bot'\nweb_port: 0\n"
    );
    assert_eq!(
        ownify_desk::process::inject_port(&ownify_desk::agents::generate_default_config("bot"), 10961),
        "# microclaw configuration for agent 'bot'\nweb_port: 10961"
    );
}

#[test]
fn crashed_agent_shows_in_listing() {
    let agents = vec![meta("a", 1)];
    let mut reg = AgentRegistry::new();
    reg.record_started("a", 1, Some(3));
    reg.record_exited("a", 3, false);
    assert_eq!(agent_list(&agents, &reg)[0].status, ProcessStatus::Crashed);
    let dash = dashboard(&agents, &reg);
    assert_eq!((dash.running, dash.stopped), (0, 1));
}
