use slackbot::command::{handle_command, hypothetical_signup, launch_reply, reply_for, unwrap_email, Directive, Script};
use slackbot::error::{parse_error, ParseError};
use slackbot::model::{Action, Criterion, Event, Rule, User};

fn added_rule(cmd: &str) -> Rule {
    match handle_command(cmd) {
        Ok(Directive::Emit(Event::AddRule(rule))) => rule,
        other => panic!("expected a rule, got {:?}", other),
    }
}

fn error_message(cmd: &str) -> String {
    match handle_command(cmd) {
        Err(e) => e.message,
        other => panic!("expected an error, got {:?}", other),
    }
}

#[test]
fn add_email_contains_rule() {
    let rule = added_rule("signup rules add spammer if email contains spam then shadowban+ipban");
    assert_eq!(rule.name, "spammer");
    assert!(matches!(&rule.criterion, Criterion::EmailContains(s) if s == "spam"));
    assert_eq!(rule.actions, vec![Action::Shadowban, Action::IpBan]);
    assert_eq!(rule.match_count, 0);
    assert!(rule.most_recent_caught.is_empty());
    assert!(!rule.no_delay);
    assert!(rule.enabled);
    assert!(!rule.susp_ip);
}

#[test]
fn every_action_token_is_known() {
    let rule = added_rule("signup rules add all if ip equals 1.2.3.4 then shadowban+engine+boost+ipban+close+panic+notify");
    assert_eq!(
        rule.actions,
        vec![
            Action::Shadowban,
            Action::EngineMark,
            Action::BoostMark,
            Action::IpBan,
            Action::Close,
            Action::EnableChatPanic,
            Action::NotifySlack
        ]
    );
}

#[test]
fn one_unknown_action_rejects_the_command() {
    assert_eq!(
        error_message("signup rules add x if email contains spam then shadowban+explode"),
        "Could not parse user command"
    );
    assert_eq!(
        error_message("signup rules add x if email contains spam then shadowban+"),
        "Could not parse user command"
    );
}

#[test]
fn repeated_action_rejects_the_command() {
    assert_eq!(
        error_message("signup rules add x if email contains spam then shadowban+shadowban"),
        "Could not parse user command"
    );
    assert_eq!(
        error_message("signup rules add x if email contains spam then ipban+close+ipban"),
        "Could not parse user command"
    );
}

#[test]
fn words_are_separated_by_any_white_space() {
    assert!(matches!(handle_command("status\tnow"), Ok(Directive::Emit(Event::StatusCommand))));
    assert!(matches!(handle_command("status\nnow"), Ok(Directive::Emit(Event::StatusCommand))));
    let rule = added_rule("signup\trules add r\tif email contains x then close");
    assert_eq!(rule.name, "r");
    assert!(matches!(&rule.criterion, Criterion::EmailContains(s) if s == "x"));
}

#[test]
fn susp_ip_aliases() {
    assert!(added_rule("signup rules add r if_susp_ip ip equals 1.2.3.4 then ipban").susp_ip);
    assert!(added_rule("signup rules add r if_ip_susp ip equals 1.2.3.4 then ipban").susp_ip);
    let plain = added_rule("signup rules add r if ip equals 1.2.3.4 then ipban");
    assert!(!plain.susp_ip);
    assert!(matches!(&plain.criterion, Criterion::IpMatch(s) if s == "1.2.3.4"));
}

#[test]
fn print_kind_is_redirected() {
    assert_eq!(
        error_message("signup rules add r if print equals abc then ipban"),
        "Use lichess print ban instead"
    );
    assert_eq!(
        error_message("signup rules add r if print whatever x then nothing"),
        "Use lichess print ban instead"
    );
}

#[test]
fn regex_criterion_matches() {
    let rule = added_rule("signup rules add r if email regex ^a.* then shadowban");
    match &rule.criterion {
        Criterion::EmailRegex(p) => {
            assert_eq!(p.source, "^a.*");
            assert!(p.regex.is_match("abc"));
            assert!(!p.regex.is_match("bcd"));
        }
        other => panic!("unexpected criterion {:?}", other),
    }
    let rule = added_rule("signup rules add r if username regex ^bot[0-9]+$ then close");
    assert!(matches!(&rule.criterion, Criterion::UsernameRegex(p) if p.regex.is_match("bot42")));
}

#[test]
fn bad_regex_is_reported() {
    let m = error_message("signup rules add r if username regex a(b then shadowban");
    assert!(m.starts_with("Invalid regex: "), "{}", m);
    assert!(m.len() > "Invalid regex: ".len());
}

#[test]
fn useragent_length() {
    let rule = added_rule("signup rules add r if useragent length-lte 42 then boost nodelay");
    assert!(matches!(rule.criterion, Criterion::UseragentLengthLte(42)));
    assert!(rule.no_delay);
    assert_eq!(
        error_message("signup rules add r if useragent length-lte forty then boost"),
        "Can't parse int"
    );
    assert_eq!(
        error_message("signup rules add r if useragent length-lte -1 then boost"),
        "Can't parse int"
    );
}

#[test]
fn trailing_word_other_than_nodelay() {
    assert!(!added_rule("signup rules add r if email contains x then close later").no_delay);
}

#[test]
fn check_invalid_for_kind() {
    for cmd in [
        "signup rules add r if ip contains 1.2 then ipban",
        "signup rules add r if email equals a then ipban",
        "signup rules add r if username length-lte 3 then ipban",
        "signup rules add r if useragent contains x then ipban",
        "signup rules add r if fingerprint equals x then ipban",
        "signup rules add r when email contains x then ipban",
        "signup rules add r if email contains x so ipban",
        "signup rules add r if email contains x then",
        "signup rules add r if email",
    ] {
        assert_eq!(error_message(cmd), "Could not parse user command", "{}", cmd);
    }
}

#[test]
fn lua_rule_takes_the_code() {
    let rule = added_rule("signup rules add scripted if lua `return user.email == nil` then notify");
    assert!(matches!(&rule.criterion, Criterion::Lua(s) if s == "return user.email == nil"));
    assert_eq!(rule.actions, vec![Action::NotifySlack]);
}

#[test]
fn status_ignores_trailing_text() {
    assert!(matches!(handle_command("status"), Ok(Directive::Emit(Event::StatusCommand))));
    assert!(matches!(handle_command("status please now"), Ok(Directive::Emit(Event::StatusCommand))));
}

#[test]
fn rule_management_commands() {
    assert!(matches!(handle_command("signup rules show r1"), Ok(Directive::Emit(Event::ShowRule(s))) if s == "r1"));
    assert!(matches!(handle_command("signup rules remove r1"), Ok(Directive::Emit(Event::RemoveRule(s))) if s == "r1"));
    assert!(matches!(handle_command("signup rules disable-re ^sp"), Ok(Directive::Emit(Event::DisableRules(s))) if s == "^sp"));
    assert!(matches!(handle_command("signup rules enable-re ^sp"), Ok(Directive::Emit(Event::EnableRules(s))) if s == "^sp"));
    assert!(matches!(handle_command("signup rules list"), Ok(Directive::Emit(Event::ListRules))));
    assert_eq!(error_message("signup rules show"), "Could not parse user command");
    assert_eq!(error_message("signup rules drop r1"), "Could not parse user command");
    assert_eq!(error_message("signup list"), "Could not parse user command");
    assert_eq!(error_message("signup"), "Could not parse user command");
}

#[test]
fn maintenance_and_unknown_commands() {
    assert!(matches!(handle_command("upgrade"), Ok(Directive::Run(Script::Upgrade))));
    assert!(matches!(handle_command("restart now"), Ok(Directive::Run(Script::Restart))));
    assert_eq!(Script::Upgrade.program(), "./upgrade");
    assert_eq!(Script::Restart.program(), "./restart");
    assert_eq!(error_message("reboot"), "Could not parse user command");
    assert_eq!(error_message(""), "Could not parse user command");
    assert_eq!(launch_reply(true), None);
    assert_eq!(launch_reply(false), Some("Failed executing command.".to_string()));
}

#[test]
fn test_command_hands_over_the_payload() {
    let cmd = "signup rules test `{\"username\": \"u\"}`";
    assert!(matches!(handle_command(cmd), Ok(Directive::CheckSignup(s)) if s == "{\"username\": \"u\"}"));
}

#[test]
fn hypothetical_signup_repairs_email() {
    assert_eq!(unwrap_email("<mailto:a@b.com|a@b.com>"), Some("a@b.com".to_string()));
    assert_eq!(unwrap_email("plain@b.com"), None);
    let user = User {
        username: "u".to_string(),
        ip: "1.2.3.4".to_string(),
        finger_print: Some("fp".to_string()),
        user_agent: "ua".to_string(),
        email: "<mailto:a@b.com|a@b.com>".to_string(),
        susp_ip: true,
    };
    match hypothetical_signup(user) {
        Ok(Event::HypotheticalSignup(u)) => {
            assert_eq!(u.email, "a@b.com");
            assert_eq!(u.username, "u");
            assert_eq!(u.ip, "1.2.3.4");
            assert_eq!(u.finger_print, Some("fp".to_string()));
            assert_eq!(u.user_agent, "ua");
            assert!(!u.susp_ip);
        }
        other => panic!("unexpected {:?}", other),
    }
}

#[test]
fn replies_and_errors() {
    assert_eq!(parse_error(None).message, "Could not parse user command");
    assert_eq!(parse_error(Some("x")).text(), "x");
    let e: Result<Option<String>, ParseError> = Err(parse_error(None));
    assert_eq!(reply_for(e), Some("Could not parse user command".to_string()));
    assert_eq!(reply_for(Ok(None)), None);
    assert_eq!(reply_for(Ok(Some("hi".to_string()))), Some("hi".to_string()));
}
