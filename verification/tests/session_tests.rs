use bluetty::config::{Config, SessionMode};
use bluetty::session::getty::{
    prepare_session_command, quote_args, render_host_token, render_subcommand_args,
    render_tokens,
};
use bluetty::session::pty::normalize_pts_path;
use bluetty::session::{
    child_needs_stop, first_signal_target, hup_to_term_pause, lifecycle_child_pid,
    reason_or_peer_closed, settle_step, signal_fallback, SessionError, SessionLifecycle,
    SessionPeerInfo, SessionState, SettleAction, SignalTarget,
};
use bluetty::session::io_forward::ForwardExitReason;

fn peer(name: &str) -> SessionPeerInfo {
    SessionPeerInfo {
        device_path: "/org/bluez/hci0/dev_AA_BB".to_string(),
        address: "AA:BB:CC:DD:EE:FF".to_string(),
        name: name.to_string(),
    }
}

#[test]
fn host_token_filters_name() {
    assert_eq!(render_host_token("My Phone!"), "My-Phone");
    assert_eq!(render_host_token("a_b.c-d9"), "a_b.c-d9");
    assert_eq!(render_host_token(""), "bluetooth-peer");
    assert_eq!(render_host_token("!!??"), "bluetooth-peer");
    assert_eq!(render_host_token("Ünï Cödé"), "n-Cd");
    assert_eq!(render_host_token("tab\there"), "tab-here");
}

#[test]
fn default_template_renders() {
    let c = Config::default();
    let args = render_subcommand_args(&c.session, "pts/4", &peer("Pixel 7")).unwrap();
    assert_eq!(
        args,
        vec![
            "/sbin/agetty", "-8", "-s", "-L", "--noclear", "-H", "Pixel-7", "--login-program",
            "/bin/login", "pts/4", "xterm-256color"
        ]
    );
}

#[test]
fn placeholders_replaced_everywhere_in_order() {
    let tokens = vec![
        "{tty}{tty}".to_string(),
        "--dev={addr}".to_string(),
        "{name}".to_string(),
        "plain".to_string(),
        "{ttyx}".to_string(),
    ];
    let out = render_tokens(&tokens, "pts/1", &peer("x {host} y"));
    assert_eq!(
        out,
        vec!["pts/1pts/1", "--dev=AA:BB:CC:DD:EE:FF", "x x-host-y y", "plain", "{ttyx}"]
    );
}

#[test]
fn quoted_template_words() {
    let mut c = Config::default().session;
    c.subcommand_template = "/bin/run 'a b' \"{name}\"".to_string();
    let args = render_subcommand_args(&c, "pts/0", &peer("Pad")).unwrap();
    assert_eq!(args, vec!["/bin/run", "a b", "Pad"]);
}

#[test]
fn invalid_template_is_refused() {
    let mut c = Config::default().session;
    c.subcommand_template = "/bin/run 'open".to_string();
    match render_subcommand_args(&c, "pts/0", &peer("Pad")) {
        Err(SessionError::InvalidTemplate(t)) => assert_eq!(t, "/bin/run 'open"),
        other => panic!("{other:?}"),
    }
}

#[test]
fn session_command_for_getty() {
    let c = Config::default().session;
    let cmd = prepare_session_command(&c, "/dev/pts/3", &peer("Phone")).unwrap();
    assert_eq!(cmd.program, "/sbin/agetty");
    assert_eq!(cmd.tty, "pts/3");
    assert!(cmd.setsid);
    assert_eq!(cmd.args.len(), 10);
    assert_eq!(cmd.args[8], "pts/3");
}

#[test]
fn session_command_for_exec_and_none() {
    let mut c = Config::default().session;
    c.subcommand_template = "/usr/local/bin/bridge --tty /dev/{tty} --device {addr}".to_string();
    c.mode = SessionMode::Exec;
    let cmd = prepare_session_command(&c, "/dev//dev/pts/9", &peer("P")).unwrap();
    assert!(!cmd.setsid);
    assert_eq!(cmd.tty, "pts/9");
    assert_eq!(cmd.args, vec!["--tty", "/dev/pts/9", "--device", "AA:BB:CC:DD:EE:FF"]);
    c.mode = SessionMode::Unmanaged;
    let cmd = prepare_session_command(&c, "pts/2", &peer("P")).unwrap();
    assert!(!cmd.setsid);
    assert_eq!(cmd.tty, "pts/2");
}

#[test]
fn empty_template_is_refused() {
    let mut c = Config::default().session;
    c.subcommand_template = "   # only a comment".to_string();
    match prepare_session_command(&c, "/dev/pts/1", &peer("P")) {
        Err(SessionError::EmptyCommand) => {}
        other => panic!("{other:?}"),
    }
}

#[test]
fn quote_args_debug_form() {
    let args = vec!["a b".to_string(), "q\"x".to_string(), "".to_string()];
    assert_eq!(quote_args(&args), "\"a b\" \"q\\\"x\" \"\"");
    assert_eq!(quote_args(&Vec::new()), "");
}

#[test]
fn pts_path_kept() {
    assert_eq!(normalize_pts_path("/dev/pts/7".to_string()), "/dev/pts/7");
}

#[test]
fn mode_none_leaves_child_unmanaged() {
    assert_eq!(lifecycle_child_pid(SessionMode::Unmanaged, 10), None);
    assert_eq!(lifecycle_child_pid(SessionMode::Getty, 10), Some(10));
    assert_eq!(lifecycle_child_pid(SessionMode::Exec, 11), Some(11));
}

#[test]
fn table_register_and_remove() {
    let mut t = SessionState::new();
    assert_eq!(t.len(), 0);
    assert_eq!(t.next_id(), 1);
    let h1 = t.register(SessionMode::Getty, "/dev_a".to_string(), "/dev/pts/1".to_string(), 100);
    let h2 = t.register(SessionMode::Unmanaged, "/dev_b".to_string(), "/dev/pts/2".to_string(), 200);
    assert_eq!(h1.id, 1);
    assert_eq!(h1.child_pid, Some(100));
    assert_eq!(h2.id, 2);
    assert_eq!(h2.child_pid, None);
    assert_eq!(h2.pty_slave_path, "/dev/pts/2");
    assert_eq!(t.len(), 2);
    assert_eq!(t.next_id(), 3);
    let e = t.remove(1).unwrap();
    assert_eq!(e.device_path, "/dev_a");
    assert_eq!(e.lifecycle, SessionLifecycle::Running);
    assert!(t.remove(1).is_none());
    assert_eq!(t.len(), 1);
    let h3 = t.register(SessionMode::Exec, "/dev_a".to_string(), "/dev/pts/3".to_string(), 300);
    assert_eq!(h3.id, 3);
}

#[test]
fn capacity_limit() {
    let mut t = SessionState::new();
    assert!(t.check_capacity(0).is_ok());
    assert!(t.check_capacity(1).is_ok());
    t.register(SessionMode::Getty, "/d".to_string(), "/p".to_string(), 1);
    assert!(matches!(t.check_capacity(1), Err(SessionError::MaxSessionsReached)));
    assert!(t.check_capacity(2).is_ok());
    assert!(t.check_capacity(0).is_ok());
}

#[test]
fn shutdown_device_only_touches_that_device() {
    let mut t = SessionState::new();
    t.register(SessionMode::Getty, "/a".to_string(), "/p1".to_string(), 10);
    t.register(SessionMode::Getty, "/b".to_string(), "/p2".to_string(), 20);
    t.register(SessionMode::Unmanaged, "/a".to_string(), "/p3".to_string(), 30);
    let r = t.shutdown_device("/a");
    assert_eq!(r.matched, 2);
    assert_eq!(r.stop_ids, vec![1, 3]);
    assert_eq!(r.child_pids, vec![10]);
    let again = t.shutdown_device("/a");
    assert_eq!(again.matched, 2);
    assert!(again.stop_ids.is_empty());
    assert!(again.child_pids.is_empty());
    assert_eq!(t.len(), 3);
    assert_eq!(t.kill_targets(), vec![10, 20]);
    let all = t.shutdown_all();
    assert_eq!(all.matched, 3);
    assert_eq!(all.stop_ids, vec![2]);
    assert_eq!(all.child_pids, vec![20]);
    let none = t.shutdown_all();
    assert!(none.stop_ids.is_empty());
    let e = t.remove(2).unwrap();
    assert_eq!(e.lifecycle, SessionLifecycle::ShuttingDown);
}

#[test]
fn shutdown_unknown_device() {
    let mut t = SessionState::new();
    t.register(SessionMode::Getty, "/a".to_string(), "/p1".to_string(), 10);
    let r = t.shutdown_device("/zzz");
    assert_eq!(r.matched, 0);
    assert!(r.stop_ids.is_empty());
}

#[test]
fn settle_and_signals() {
    assert_eq!(settle_step(0, 0, 10), SettleAction::Done);
    assert_eq!(settle_step(2, 5, 10), SettleAction::Wait);
    assert_eq!(settle_step(2, 10, 10), SettleAction::Escalate);
    assert_eq!(settle_step(1, 0, 0), SettleAction::Escalate);
    assert_eq!(first_signal_target(42, 40), SignalTarget::Group(40));
    assert_eq!(first_signal_target(42, 0), SignalTarget::Process(42));
    assert_eq!(first_signal_target(42, -1), SignalTarget::Process(42));
    assert_eq!(signal_fallback(42, Ok(())), None);
    assert_eq!(signal_fallback(42, Err(3)), Some(SignalTarget::Process(42)));
    let mut c = Config::default().session;
    assert_eq!(hup_to_term_pause(&c), None);
    c.hup_to_term_delay_ms = 250;
    assert_eq!(hup_to_term_pause(&c), Some(250));
    assert!(child_needs_stop(ForwardExitReason::PeerClosed, true));
    assert!(!child_needs_stop(ForwardExitReason::StopRequested, false));
    assert_eq!(reason_or_peer_closed(None), ForwardExitReason::PeerClosed);
    assert_eq!(
        reason_or_peer_closed(Some(ForwardExitReason::StopRequested)),
        ForwardExitReason::StopRequested
    );
}

#[test]
fn register_then_remove_restores_table() {
    let mut t = SessionState::new();
    t.register(SessionMode::Getty, "/a".to_string(), "/p1".to_string(), 10);
    let before = t.kill_targets();
    let h = t.register(SessionMode::Exec, "/b".to_string(), "/p2".to_string(), 20);
    assert_eq!(h.id, 2);
    let e = t.remove(h.id).unwrap();
    assert_eq!(e.id, 2);
    assert_eq!(e.child_pid, Some(20));
    assert_eq!(t.len(), 1);
    assert_eq!(t.kill_targets(), before);
    assert_eq!(t.next_id(), 3);
}

#[test]
fn ids_increase_across_closed_sessions() {
    let mut t = SessionState::new();
    let a = t.register(SessionMode::Getty, "/a".to_string(), "/p1".to_string(), 1);
    assert!(t.remove(a.id).is_some());
    let b = t.register(SessionMode::Getty, "/a".to_string(), "/p2".to_string(), 2);
    t.shutdown_all();
    let c = t.register(SessionMode::Exec, "/b".to_string(), "/p3".to_string(), 3);
    assert_eq!((a.id, b.id, c.id), (1, 2, 3));
    assert!(t.remove(b.id).is_some());
    assert!(t.remove(b.id).is_none());
    assert_eq!(t.len(), 1);
}
