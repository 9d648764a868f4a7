use bluetty::config::{
    ini_text_is_safe, parse_bool, parse_session_mode, parse_u64, parse_usize, Config, ConfigError, ConfigSettings,
    SessionMode,
};

fn empty_settings() -> ConfigSettings {
    ConfigSettings {
        profile_path: None,
        uuid: None,
        name: None,
        require_authentication: None,
        require_authorization: None,
        mode: None,
        subcommand_template: None,
        hup_fallback: None,
        max_sessions: None,
        hup_to_term_delay: None,
        process_group_term_timeout: None,
    }
}

#[test]
fn default_config_values() {
    let c = Config::default();
    assert_eq!(c.bluez.profile_path, "/com/bluetty/spp_profile");
    assert_eq!(c.bluez.profile_uuid, "00001101-0000-1000-8000-00805f9b34fb");
    assert_eq!(c.bluez.profile_name, "SPP Getty");
    assert!(!c.bluez.require_authentication);
    assert!(!c.bluez.require_authorization);
    assert_eq!(c.session.mode, SessionMode::Getty);
    assert_eq!(
        c.session.subcommand_template,
        "/sbin/agetty -8 -s -L --noclear -H {host} --login-program /bin/login {tty} xterm-256color"
    );
    assert!(!c.session.hup_fallback);
    assert_eq!(c.session.max_sessions, 0);
    assert_eq!(c.session.hup_to_term_delay_ms, 0);
    assert_eq!(c.session.process_group_term_timeout_ms, 2000);
}

#[test]
fn parse_bool_accepts_documented_words() {
    for w in ["1", "true", "yes", "on", " TRUE ", "On", "\tYes\n"] {
        assert_eq!(parse_bool(w).unwrap(), true, "{w:?}");
    }
    for w in ["0", "false", "no", "off", " FALSE", "Off "] {
        assert_eq!(parse_bool(w).unwrap(), false, "{w:?}");
    }
}

#[test]
fn parse_bool_rejects_other_words() {
    for w in ["", "2", "t", "y", "enable", "tru e"] {
        match parse_bool(w) {
            Err(ConfigError::InvalidBool(v)) => assert_eq!(v, w),
            other => panic!("{w:?}: {other:?}"),
        }
    }
}

#[test]
fn parse_bool_trims_unicode_space() {
    assert_eq!(parse_bool("\u{3000}yes\u{a0}").unwrap(), true);
}

#[test]
fn parse_session_mode_words() {
    assert_eq!(parse_session_mode("none").unwrap(), SessionMode::Unmanaged);
    assert_eq!(parse_session_mode(" Getty ").unwrap(), SessionMode::Getty);
    assert_eq!(parse_session_mode("EXEC").unwrap(), SessionMode::Exec);
    match parse_session_mode("shell") {
        Err(ConfigError::InvalidMode(v)) => assert_eq!(v, "shell"),
        other => panic!("{other:?}"),
    }
}

#[test]
fn parse_unsigned_like_std() {
    assert_eq!(parse_usize("0"), Some(0));
    assert_eq!(parse_usize("42"), Some(42));
    assert_eq!(parse_usize("+7"), Some(7));
    assert_eq!(parse_usize(""), None);
    assert_eq!(parse_usize("+"), None);
    assert_eq!(parse_usize("-1"), None);
    assert_eq!(parse_usize(" 5"), None);
    assert_eq!(parse_usize("5x"), None);
    assert_eq!(parse_u64("18446744073709551615"), Some(u64::MAX));
    assert_eq!(parse_u64("18446744073709551616"), None);
    assert_eq!(parse_u64("99999999999999999999999"), None);
    for s in ["", "12", "+3", "-3", "a", "007", "18446744073709551616"] {
        assert_eq!(parse_u64(s), s.parse::<u64>().ok(), "{s:?}");
        assert_eq!(parse_usize(s), s.parse::<usize>().ok(), "{s:?}");
    }
}

#[test]
fn settings_override_defaults() {
    let mut s = empty_settings();
    s.profile_path = Some("/org/example/p".to_string());
    s.require_authorization = Some("yes".to_string());
    s.mode = Some("exec".to_string());
    s.max_sessions = Some("3".to_string());
    s.hup_to_term_delay = Some("150".to_string());
    let c = Config::from_settings(s).unwrap();
    assert_eq!(c.bluez.profile_path, "/org/example/p");
    assert_eq!(c.bluez.profile_name, "SPP Getty");
    assert!(c.bluez.require_authorization);
    assert!(!c.bluez.require_authentication);
    assert_eq!(c.session.mode, SessionMode::Exec);
    assert_eq!(c.session.max_sessions, 3);
    assert_eq!(c.session.hup_to_term_delay_ms, 150);
    assert_eq!(c.session.process_group_term_timeout_ms, 2000);
}

#[test]
fn first_invalid_setting_is_reported() {
    let mut s = empty_settings();
    s.mode = Some("bogus".to_string());
    s.require_authorization = Some("maybe".to_string());
    s.max_sessions = Some("many".to_string());
    match Config::from_settings(s) {
        Err(ConfigError::InvalidBool(v)) => assert_eq!(v, "maybe"),
        other => panic!("{other:?}"),
    }
    let mut s = empty_settings();
    s.max_sessions = Some("many".to_string());
    s.process_group_term_timeout = Some("soon".to_string());
    match Config::from_settings(s) {
        Err(ConfigError::InvalidMaxSessions(v)) => assert_eq!(v, "many"),
        other => panic!("{other:?}"),
    }
    let mut s = empty_settings();
    s.process_group_term_timeout = Some("soon".to_string());
    match Config::from_settings(s) {
        Err(ConfigError::InvalidProcessGroupTermTimeout(v)) => assert_eq!(v, "soon"),
        other => panic!("{other:?}"),
    }
    let mut s = empty_settings();
    s.hup_to_term_delay = Some("-1".to_string());
    match Config::from_settings(s) {
        Err(ConfigError::InvalidHupToTermDelay(v)) => assert_eq!(v, "-1"),
        other => panic!("{other:?}"),
    }
    let mut s = empty_settings();
    s.hup_fallback = Some("sometimes".to_string());
    match Config::from_settings(s) {
        Err(ConfigError::InvalidBool(v)) => assert_eq!(v, "sometimes"),
        other => panic!("{other:?}"),
    }
}

#[test]
fn parse_ini_text() {
    let text = "# bluetty\n[bluez]\nProfilePath = /com/example/spp\nuuid=1234\nRequireAuthentication = on ; strict\n\n[Session]\nMODE = none\nSubcommandTemplate = /usr/bin/notify --tty /dev/{tty}\nMaxSessions = 4\nProcessGroupTermTimeout = 500\n";
    let c = Config::parse(text).unwrap();
    assert_eq!(c.bluez.profile_path, "/com/example/spp");
    assert_eq!(c.bluez.profile_uuid, "1234");
    assert_eq!(c.bluez.profile_name, "SPP Getty");
    assert!(c.bluez.require_authentication);
    assert_eq!(c.session.mode, SessionMode::Unmanaged);
    assert_eq!(c.session.subcommand_template, "/usr/bin/notify --tty /dev/{tty}");
    assert_eq!(c.session.max_sessions, 4);
    assert_eq!(c.session.process_group_term_timeout_ms, 500);
}

#[test]
fn parse_empty_text_gives_defaults() {
    let c = Config::parse("").unwrap();
    let d = Config::default();
    assert_eq!(c.bluez.profile_path, d.bluez.profile_path);
    assert_eq!(c.session.subcommand_template, d.session.subcommand_template);
    assert_eq!(c.session.mode, d.session.mode);
}

#[test]
fn parse_reports_ini_syntax_error() {
    match Config::parse("[bluez\nName = x\n") {
        Err(ConfigError::Syntax(msg)) => assert!(msg.contains("closing bracket"), "{msg}"),
        other => panic!("{other:?}"),
    }
}

#[test]
fn parse_reports_invalid_values() {
    match Config::parse("[session]\nMode = daemon\n") {
        Err(ConfigError::InvalidMode(v)) => assert_eq!(v, "daemon"),
        other => panic!("{other:?}"),
    }
    match Config::parse("[session]\nMaxSessions = -2\n") {
        Err(ConfigError::InvalidMaxSessions(v)) => assert_eq!(v, "-2"),
        other => panic!("{other:?}"),
    }
}

#[test]
fn parse_key_without_value_keeps_default() {
    let c = Config::parse("[bluez]\nName\n").unwrap();
    assert_eq!(c.bluez.profile_name, "SPP Getty");
}

#[test]
fn ini_text_safety() {
    assert!(!ini_text_is_safe("]x["));
    assert!(!ini_text_is_safe("a]b["));
    assert!(!ini_text_is_safe("[bluez]\nName = x\n  ]y[  # note\n"));
    assert!(!ini_text_is_safe("x = ]y["));
    assert!(ini_text_is_safe(""));
    assert!(ini_text_is_safe("[bluez]\nName = a]b\n"));
    assert!(ini_text_is_safe("key = v ; ]x["));
    assert!(ini_text_is_safe("# ]x[\n[session]\n"));
    // An earlier rejected line stops the parse before the bad header.
    assert!(ini_text_is_safe("[bad\n]x[\n"));
    assert!(ini_text_is_safe(" = v\n]x[\n"));
    match Config::parse("[bad\n]x[\n") {
        Err(ConfigError::Syntax(msg)) => assert!(msg.contains("closing bracket"), "{msg}"),
        other => panic!("{other:?}"),
    }
    match Config::parse(" = v\n]x[\n") {
        Err(ConfigError::Syntax(msg)) => assert!(msg.contains("Key cannot be empty"), "{msg}"),
        other => panic!("{other:?}"),
    }
}
