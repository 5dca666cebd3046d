use devzat_forth::HostCall;
use devzat_forth::plugin::{
    forth_command,
    get_bot_name, is_last_action_up_to_date, login_notify, parse_invocation, speak_up,
    Invocation, Settings,
};

fn args(list: &[&str]) -> Vec<String> {
    list.iter().map(|s| s.to_string()).collect()
}

#[test]
fn settings_fall_back_to_the_defaults() {
    let s = Settings::from_values(None, Some("token".to_string()), None, None, None).unwrap();
    assert_eq!(s.host, "https://devzat.hackclub.com:5556");
    assert_eq!(s.token, "token");
    assert_eq!(s.login_room, "#bots");
    assert_eq!(s.dev_nick, "Arkaeriit");
    assert_eq!(s.last_action_file, "/tmp/devzat_forth");
}

#[test]
fn configured_settings_are_kept() {
    let s = Settings::from_values(
        Some("https://localhost:5556".to_string()),
        Some("t".to_string()),
        Some("#forth".to_string()),
        Some("someone".to_string()),
        Some("/var/tmp/last".to_string()),
    )
    .unwrap();
    assert_eq!(s.host, "https://localhost:5556");
    assert_eq!(s.login_room, "#forth");
    assert_eq!(s.dev_nick, "someone");
    assert_eq!(s.last_action_file, "/var/tmp/last");
}

#[test]
fn settings_need_a_token() {
    assert!(Settings::from_values(None, None, None, None, None).is_none());
}

#[test]
fn bot_name() {
    assert_eq!(get_bot_name(None), "Forth");
    assert_eq!(get_bot_name(Some("Gforth".to_string())), "Gforth");
}

#[test]
fn login_notice_goes_to_the_room_then_to_the_developer() {
    let m = login_notify("Forth", "Hi! I just logged in.", "#bots", "Arkaeriit");
    assert_eq!(m.len(), 2);
    assert_eq!(m[0].room, "#bots");
    assert_eq!(m[0].from.as_deref(), Some("Forth"));
    assert_eq!(m[0].text, "Hi! I just logged in.");
    assert_eq!(m[0].ephemeral_to, None);
    assert_eq!(m[1].room, "#main");
    assert_eq!(m[1].from.as_deref(), Some("Forth"));
    assert_eq!(m[1].text, "Hi! I just logged in.");
    assert_eq!(m[1].ephemeral_to.as_deref(), Some("Arkaeriit"));
}

#[test]
fn speaking_up_is_in_the_main_room() {
    let m = speak_up("Forth".to_string(), "someone joined");
    assert_eq!(m.room, "#main");
    assert_eq!(m.from.as_deref(), Some("Forth"));
    assert_eq!(m.text, "someone joined");
    assert_eq!(m.ephemeral_to, None);
}

#[test]
fn last_action_must_be_younger_than_forty_seconds() {
    assert!(is_last_action_up_to_date(Some(0)));
    assert!(is_last_action_up_to_date(Some(39)));
    assert!(!is_last_action_up_to_date(Some(40)));
    assert!(!is_last_action_up_to_date(Some(3600)));
    assert!(!is_last_action_up_to_date(None));
}

#[test]
fn command_line_help() {
    assert!(matches!(parse_invocation(&args(&["forth", "help"])), Invocation::Help));
    assert!(matches!(parse_invocation(&args(&["forth", "help", "me"])), Invocation::Help));
}

#[test]
fn command_line_login_notify() {
    match parse_invocation(&args(&["forth", "login-notify", "hello"])) {
        Invocation::LoginNotify(m) => assert_eq!(m, "hello"),
        other => panic!("unexpected {:?}", other),
    }
    assert!(matches!(
        parse_invocation(&args(&["forth", "login-notify"])),
        Invocation::MissingNotification
    ));
}

#[test]
fn command_line_serve() {
    assert!(matches!(parse_invocation(&args(&["forth"])), Invocation::Serve));
    assert!(matches!(parse_invocation(&args(&[])), Invocation::Serve));
    assert!(matches!(parse_invocation(&args(&["forth", "HELP"])), Invocation::Serve));
}

#[test]
fn a_forth_command_evaluates_the_code_then_a_space() {
    let calls = forth_command("1 1 + .");
    assert_eq!(calls.len(), 2);
    assert!(matches!(&calls[0], HostCall::Evaluate(c) if c == "1 1 + ."));
    assert!(matches!(&calls[1], HostCall::Evaluate(c) if c == " "));
}
