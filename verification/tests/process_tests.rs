use ownify_desk::agents::AgentMeta;
use ownify_desk::process::{
    binary_candidates, binary_not_found_message, check_startable, first_existing, inject_port,
    AgentRegistry, ProcessStatus, StartRefusal,
};

fn meta(slug: &str, port: u16, enabled: bool, auto_start: bool) -> AgentMeta {
    AgentMeta {
        slug: slug.to_string(),
        display_name: format!("{} bot", slug),
        description: String::new(),
        port,
        auto_start,
        enabled,
        created_at: "2024-01-01T00:00:00+00:00".to_string(),
        updated_at: "2024-01-01T00:00:00+00:00".to_string(),
    }
}

#[test]
fn inject_port_replaces_existing_line() {
    let cfg = "llm_provider: anthropic\nweb_port: 8080\nweb_host: 127.0.0.1";
    assert_eq!(
        inject_port(cfg, 10961),
        "llm_provider: anthropic\nweb_port: 10961\nweb_host: 127.0.0.1"
    );
}

#[test]
fn inject_port_appends_when_missing() {
    assert_eq!(inject_port("a: 1\nb: 2\n", 10962), "a: 1\nb: 2\nweb_port: 10962");
    assert_eq!(inject_port("", 7), "web_port: 7");
}

#[test]
fn inject_port_matches_indented_line_and_only_the_first() {
    let cfg = "  web_port: 1\r\nweb_port: 2\nx: y";
    assert_eq!(inject_port(cfg, 0), "web_port: 0\nweb_port: 2\nx: y");
}

#[test]
fn inject_port_ignores_lines_that_only_mention_the_key() {
    let cfg = "# web_port: 1\nmy_web_port: 3";
    assert_eq!(inject_port(cfg, 65535), "# web_port: 1\nmy_web_port: 3\nweb_port: 65535");
}

#[test]
fn inject_port_reads_back() {
    let once = inject_port("web_port: 1\n\nz: 9\n", 443);
    let first = once
        .lines()
        .find(|l| l.trim_start().starts_with("web_port:"))
        .unwrap();
    assert_eq!(first, "web_port: 443");
}

#[test]
fn registry_records_and_stops() {
    let mut reg = AgentRegistry::new();
    assert!(reg.get_state("alpha").is_none());
    let st = reg.record_started("alpha", 10961, Some(42));
    assert_eq!(st.status, ProcessStatus::Running);
    assert_eq!(st.pid, Some(42));
    reg.record_started("beta", 10962, None);
    let got = reg.get_state("alpha").unwrap();
    assert_eq!(got.port, 10961);
    assert_eq!(got.slug, "alpha");

    let stopped = reg.mark_stopped("alpha").unwrap();
    assert_eq!(stopped.status, ProcessStatus::Stopped);
    assert_eq!(stopped.pid, None);
    assert_eq!(stopped.port, 10961);
    let beta = reg.get_state("beta").unwrap();
    assert_eq!(beta.status, ProcessStatus::Running);
    assert_eq!(reg.all_states().len(), 2);
}

#[test]
fn registry_restart_replaces_state() {
    let mut reg = AgentRegistry::new();
    reg.record_started("alpha", 10961, Some(1));
    reg.mark_stopped("alpha").unwrap();
    reg.record_started("alpha", 10970, Some(2));
    let all = reg.all_states();
    assert_eq!(all.len(), 1);
    assert_eq!(all[0].port, 10970);
    assert_eq!(all[0].pid, Some(2));
    assert_eq!(all[0].status, ProcessStatus::Running);
}

#[test]
fn registry_refuses_to_stop_unknown_agent() {
    let mut reg = AgentRegistry::new();
    reg.record_started("alpha", 10961, None);
    let err = reg.mark_stopped("ghost").unwrap_err();
    assert_eq!(err.message(), "Agent 'ghost' not running");
    assert_eq!(reg.all_states().len(), 1);
}

#[test]
fn start_checks() {
    assert!(check_startable("a", &meta("a", 1, true, true)).is_ok());
    match check_startable("a", &meta("a", 1, false, true)) {
        Err(e @ StartRefusal::Disabled { .. }) => assert_eq!(e.message(), "Agent 'a' is disabled"),
        _ => panic!("expected a refusal"),
    }
    match check_startable("b", &meta("b", 1, true, false)) {
        Err(e @ StartRefusal::AutoStartDisabled { .. }) => assert_eq!(
            e.message(),
            "Agent 'b' has auto_start disabled \u{2014} enable it in the dashboard first"
        ),
        _ => panic!("expected a refusal"),
    }
    // a disabled agent is refused as disabled even without auto-start
    assert!(matches!(
        check_startable("c", &meta("c", 1, false, false)),
        Err(StartRefusal::Disabled { .. })
    ));
}

#[test]
fn binary_lookup_order() {
    let c = binary_candidates("/home/u");
    assert_eq!(
        c,
        vec![
            "/usr/local/bin/microclaw".to_string(),
            "/home/u/.local/bin/microclaw".to_string(),
            "/home/u/.cargo/bin/microclaw".to_string(),
            "./microclaw".to_string(),
        ]
    );
    assert_eq!(binary_candidates("")[1], "/.local/bin/microclaw");
    assert_eq!(
        first_existing(&c, &vec![false, false, true, true]),
        Some("/home/u/.cargo/bin/microclaw".to_string())
    );
    assert_eq!(first_existing(&c, &vec![false; 4]), None);
    assert!(binary_not_found_message().starts_with("microclaw binary not found."));
}

#[test]
fn inject_port_twice_is_stable_when_lines_rejoin() {
    let once = inject_port("a: 1\nweb_port: 9", 10961);
    assert_eq!(inject_port(&once, 10961), once);
    // a trailing empty line does not survive being read back as lines
    let once = inject_port("web_port: 1\n\n", 2);
    assert_eq!(once, "web_port: 2\n");
    assert_eq!(inject_port(&once, 2), "web_port: 2");
}

#[test]
fn restart_runs_with_new_process() {
    let mut reg = AgentRegistry::new();
    reg.record_started("a", 10961, Some(1));
    let stopped = reg.mark_stopped("a").unwrap();
    assert_eq!((stopped.status, stopped.pid, stopped.port), (ProcessStatus::Stopped, None, 10961));
    let again = reg.record_started("a", 10961, Some(2));
    assert_eq!((again.status, again.pid), (ProcessStatus::Running, Some(2)));
    assert_eq!(reg.get_state("a").unwrap().pid, Some(2));
}

#[test]
fn crashed_process_is_recorded() {
    let mut reg = AgentRegistry::new();
    reg.record_started("a", 10961, Some(7));
    reg.record_started("b", 10962, Some(8));
    reg.record_exited("a", 7, false);
    let a = reg.get_state("a").unwrap();
    assert_eq!((a.status, a.pid, a.port), (ProcessStatus::Crashed, None, 10961));
    reg.record_exited("b", 8, true);
    let b = reg.get_state("b").unwrap();
    assert_eq!((b.status, b.pid), (ProcessStatus::Stopped, None));
}

#[test]
fn stale_exit_is_ignored() {
    let mut reg = AgentRegistry::new();
    reg.record_started("a", 10961, Some(7));
    reg.mark_stopped("a").unwrap();
    reg.record_exited("a", 7, false);
    assert_eq!(reg.get_state("a").unwrap().status, ProcessStatus::Stopped);
    reg.record_started("a", 10961, Some(9));
    reg.record_exited("a", 7, false);
    let a = reg.get_state("a").unwrap();
    assert_eq!((a.status, a.pid), (ProcessStatus::Running, Some(9)));
    reg.record_exited("ghost", 1, false);
    assert!(reg.get_state("ghost").is_none());
}

#[test]
fn plain_config_injection_laws() {
    let cfg = "a: 1\nweb_port: 5\nb: 2\n";
    let once = inject_port(cfg, 10961);
    assert_eq!(inject_port(&once, 10961), once);
    assert_eq!(inject_port(&inject_port(cfg, 1), 2), inject_port(cfg, 2));
    let none = "x: y";
    assert_eq!(inject_port(&inject_port(none, 1), 2), inject_port(none, 2));
}

#[test]
fn spawn_outcome_recorded_only_on_success() {
    let mut reg = AgentRegistry::new();
    let err = reg
        .record_spawn("a", 10961, ownify_desk::process::SpawnOutcome::Failed)
        .unwrap_err();
    assert_eq!(err, "Failed to start microclaw for agent 'a'");
    assert!(reg.get_state("a").is_none());
    let st = reg
        .record_spawn("a", 10961, ownify_desk::process::SpawnOutcome::Spawned(Some(5)))
        .unwrap();
    assert_eq!((st.status, st.pid, st.port), (ProcessStatus::Running, Some(5), 10961));
    assert_eq!(reg.get_state("a").unwrap().pid, Some(5));
}
