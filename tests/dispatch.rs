use derp_shell::builtin::Builtin;
use derp_shell::dispatch::{
    eval, eval_command, eval_type, external_outcome, report_type, ExitRequest, Outcome,
};
use derp_shell::resolver::{first_found, search_candidates_of};

#[test]
fn type_reports_every_builtin() {
    for name in ["echo", "type", "exit", "cd", "pwd"] {
        let line = format!("type {}", name);
        let expected = Outcome::Print(format!("{} is a shell builtin", name));
        assert_eq!(eval(&line, Some("/bin:/usr/bin")), expected);
        assert_eq!(eval(&line, Some("")), expected);
        assert_eq!(eval(&line, None), expected);
    }
}

#[test]
fn type_reports_missing_command() {
    assert_eq!(
        eval("type zzzznotacommand", Some("/bin:/usr/bin")),
        Outcome::Print("zzzznotacommand: not found".to_string())
    );
    assert_eq!(
        eval("type zzzznotacommand", None),
        Outcome::Print("zzzznotacommand: not found".to_string())
    );
}

#[test]
fn type_reports_found_path() {
    assert_eq!(eval_type("echo2x", Some("/bin")), "echo2x: not found");
    assert_eq!(eval_type("  cd  ", Some("/bin")), "cd is a shell builtin");
    let report = eval_type("ls", Some("/bin/"));
    assert!(report == "ls is /bin/ls" || report == "ls: not found");
}

#[test]
fn echo_passes_text_through() {
    assert_eq!(eval("echo hello world", None), Outcome::Print("hello world".to_string()));
    assert_eq!(eval("echo a   b", None), Outcome::Print("a   b".to_string()));
    assert_eq!(eval("  echo hi  \n", None), Outcome::Print("hi".to_string()));
}

#[test]
fn unknown_command_with_empty_search_path() {
    assert_eq!(
        eval("zzzznotacommand", Some("")),
        Outcome::Print("zzzznotacommand: command not found".to_string())
    );
    assert_eq!(
        eval("zzzznotacommand with args", None),
        Outcome::Print("zzzznotacommand: command not found".to_string())
    );
}

#[test]
fn external_command_takes_one_argument() {
    assert_eq!(
        eval_command("echo hi", Some("/bin")),
        Outcome::Run { path: "/bin/echo".to_string(), argument: Some("hi".to_string()) }
    );
    assert_eq!(
        eval_command("echo a b", Some("/bin/")),
        Outcome::Run { path: "/bin/echo".to_string(), argument: Some("a b".to_string()) }
    );
    assert_eq!(
        eval("echo", Some("/nonexistent-dir:/bin")),
        Outcome::Run { path: "/bin/echo".to_string(), argument: None }
    );
}

#[test]
fn exit_requests() {
    assert_eq!(eval("exit", None), Outcome::Exit(ExitRequest::Default));
    assert_eq!(eval("exit 3", None), Outcome::Exit(ExitRequest::Code(3)));
    assert_eq!(eval("  exit   42 ", None), Outcome::Exit(ExitRequest::Code(42)));
    assert_eq!(eval("exit -1", None), Outcome::Exit(ExitRequest::Code(-1)));
    assert_eq!(
        eval("exit abc", None),
        Outcome::Exit(ExitRequest::Malformed("abc".to_string()))
    );
    assert_eq!(
        eval("exit 99999999999", None),
        Outcome::Exit(ExitRequest::Malformed("99999999999".to_string()))
    );
    assert_eq!(
        eval("exit3", Some("")),
        Outcome::Print("exit3: command not found".to_string())
    );
}

#[test]
fn pwd_and_cd_lines() {
    assert_eq!(eval("pwd", None), Outcome::WorkingDirectory);
    assert_eq!(eval("pwd", Some("/bin")), eval("pwd", Some("/bin")));
    assert_eq!(
        eval("cd /nonexistent-path", None),
        Outcome::ChangeDirectory("/nonexistent-path".to_string())
    );
    assert_eq!(eval("cd ~", None), Outcome::ChangeDirectory("~".to_string()));
}

#[test]
fn builtin_registry_lookup() {
    assert_eq!(Builtin::from_name("echo"), Some(Builtin::Echo));
    assert_eq!(Builtin::from_name("type"), Some(Builtin::Type));
    assert_eq!(Builtin::from_name("exit"), Some(Builtin::Exit));
    assert_eq!(Builtin::from_name("cd"), Some(Builtin::Cd));
    assert_eq!(Builtin::from_name("pwd"), Some(Builtin::Pwd));
    assert_eq!(Builtin::from_name("Echo"), None);
    assert_eq!(Builtin::from_name("ech"), None);
    assert_eq!(Builtin::Cd.name(), "cd");
    assert_eq!(Builtin::Pwd.category(), "builtin");
}

#[test]
fn type_report_from_resolution() {
    let candidates = search_candidates_of("/a:/b", "cmd");
    let resolved = first_found(&candidates, &vec![false, true, true, false]);
    assert_eq!(report_type("cmd", resolved), "cmd is /a/cmd");
    assert_eq!(report_type("cmd", None), "cmd: not found");
    assert_eq!(report_type("zzzznotacommand", None), "zzzznotacommand: not found");
    assert_eq!(report_type("pwd", Some("/bin/pwd".to_string())), "pwd is a shell builtin");
}

#[test]
fn external_outcome_from_resolution() {
    assert_eq!(
        external_outcome("zzzznotacommand", None),
        Outcome::Print("zzzznotacommand: command not found".to_string())
    );
    assert_eq!(
        external_outcome("cmd x", Some("/a/cmd".to_string())),
        Outcome::Run { path: "/a/cmd".to_string(), argument: Some("x".to_string()) }
    );
    assert_eq!(
        external_outcome("cmd a  b c", Some("/a/cmd".to_string())),
        Outcome::Run { path: "/a/cmd".to_string(), argument: Some("a  b c".to_string()) }
    );
    assert_eq!(
        external_outcome("cmd", Some("/a/cmd".to_string())),
        Outcome::Run { path: "/a/cmd".to_string(), argument: None }
    );
    assert_eq!(
        external_outcome("foo bar", None),
        Outcome::Print("foo: command not found".to_string())
    );
}
