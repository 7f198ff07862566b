use shell_core::command::{Command, ParseError, ShellCommand};
use shell_core::search::{pick_first, split_search_path};
use shell_core::shell::{Action, Shell};
use shell_core::text::{parse_i32, split_words, trim_str};

fn parse_ok(line: &str) -> Command {
    match Command::parse(line) {
        Ok(c) => c,
        Err(ParseError::InvalidExitCode(a)) => panic!("unexpected exit error on {:?}", a),
    }
}

fn printed(a: Action) -> String {
    match a {
        Action::Print(t) => t,
        _ => panic!("expected a line of output"),
    }
}

fn shell() -> Shell {
    Shell::new("/home/user".to_string())
}

/// Runs one line with a search path and the files that exist on it.
fn run(line: &str, path: &str, existing: &[&str]) -> Action {
    let sh = shell();
    let cmd = parse_ok(line);
    let found = match cmd.lookup_name() {
        Some(name) => {
            let c = ShellCommand::new(&name, "");
            let files = c.candidate_paths(path);
            let present: Vec<bool> = files.iter().map(|f| existing.contains(&f.as_str())).collect();
            c.get_path(path, &present)
        }
        None => None,
    };
    sh.execute(&cmd, found)
}

#[test]
fn type_of_each_builtin() {
    for b in ["echo", "type", "exit", "pwd", "cd"] {
        let out = printed(run(&format!("type {}", b), "/usr/bin:/bin", &[]));
        assert_eq!(out, format!("{} is a shell builtin", b));
    }
}

#[test]
fn type_of_builtin_ignores_files_on_path() {
    let out = printed(run("type echo", "/usr/bin:/bin", &["/usr/bin/echo", "/bin/echo"]));
    assert_eq!(out, "echo is a shell builtin");
}

#[test]
fn echo_writes_text() {
    assert_eq!(printed(run("echo hello world", "", &[])), "hello world");
}

#[test]
fn echo_strips_outer_and_keeps_inner_whitespace() {
    assert_eq!(printed(run("echo    a   b\t c   ", "", &[])), "a   b\t c");
    assert_eq!(printed(run("  \techo x\n", "", &[])), "x");
}

#[test]
fn echo_alone_writes_empty_line() {
    assert_eq!(printed(run("echo", "", &[])), "");
    assert_eq!(printed(run("echo   ", "", &[])), "");
}

#[test]
fn echo_after_tab_separator() {
    assert_eq!(printed(run("echo\thi", "", &[])), "hi");
}

#[test]
fn missing_name_type_and_run() {
    let path = "/usr/bin:/bin";
    assert_eq!(printed(run("type nosuch", path, &[])), "nosuch not found");
    assert_eq!(printed(run("nosuch", path, &[])), "nosuch: command not found");
    assert_eq!(printed(run("nosuch a b", path, &[])), "nosuch: command not found");
}

#[test]
fn missing_name_with_other_files_present() {
    let out = printed(run("type nosuch", "/usr/bin:/bin", &["/usr/bin/ls", "/bin/cat"]));
    assert_eq!(out, "nosuch not found");
}

#[test]
fn type_finds_first_directory() {
    let out = printed(run("type ls", "/usr/bin:/bin", &["/usr/bin/ls", "/bin/ls"]));
    assert_eq!(out, "ls is /usr/bin/ls");
}

#[test]
fn type_finds_later_directory_when_earlier_lacks_file() {
    let out = printed(run("type ls", "/opt/x:/usr/bin:/bin", &["/bin/ls", "/usr/bin/ls"]));
    assert_eq!(out, "ls is /usr/bin/ls");
}

#[test]
fn type_with_empty_search_path() {
    assert_eq!(printed(run("type ls", "", &["/bin/ls"])), "ls not found");
}

#[test]
fn external_command_launches_found_file_with_args() {
    match run("ls  -l   /tmp ", "/usr/bin:/bin", &["/bin/ls"]) {
        Action::Launch(p, args) => {
            assert_eq!(p, "/bin/ls");
            assert_eq!(args, vec!["-l".to_string(), "/tmp".to_string()]);
        }
        _ => panic!("expected a launch"),
    }
}

#[test]
fn cd_then_pwd() {
    let mut sh = shell();
    let cmd = parse_ok("cd /tmp");
    match sh.execute(&cmd, None) {
        Action::ChangeDir(p) => assert_eq!(p, "/tmp"),
        _ => panic!("expected a directory change"),
    }
    assert_eq!(sh.finish_cd("/tmp", Some("/tmp".to_string())), None);
    assert_eq!(printed(sh.execute(&parse_ok("pwd"), None)), "/tmp");
    assert_eq!(sh.cwd(), "/tmp");
}

#[test]
fn cd_to_missing_directory() {
    let mut sh = shell();
    let msg = sh.finish_cd("/does_not_exist", None);
    assert_eq!(msg, Some("cd: /does_not_exist: No such file or directory".to_string()));
    assert_eq!(printed(sh.execute(&parse_ok("pwd"), None)), "/home/user");
}

#[test]
fn pwd_ignores_arguments() {
    assert!(matches!(parse_ok("pwd extra"), Command::Pwd));
    assert_eq!(printed(shell().execute(&parse_ok("pwd"), None)), "/home/user");
}

#[test]
fn exit_zero() {
    match shell().execute(&parse_ok("exit 0"), None) {
        Action::Terminate(code) => assert_eq!(code, 0),
        _ => panic!("expected termination"),
    }
}

#[test]
fn exit_seven() {
    match shell().execute(&parse_ok("exit 7"), None) {
        Action::Terminate(code) => assert_eq!(code, 7),
        _ => panic!("expected termination"),
    }
}

#[test]
fn exit_signed_codes() {
    assert!(matches!(parse_ok("exit -3"), Command::Exit(-3)));
    assert!(matches!(parse_ok("exit +12"), Command::Exit(12)));
    assert!(matches!(parse_ok("exit -2147483648"), Command::Exit(i32::MIN)));
    assert!(matches!(parse_ok("exit 2147483647"), Command::Exit(i32::MAX)));
}

#[test]
fn exit_invalid_code() {
    for bad in ["exit abc", "exit", "exit 2147483648", "exit 1 2", "exit -", "exit 3x"] {
        match Command::parse(bad) {
            Err(ParseError::InvalidExitCode(_)) => {}
            Ok(_) => panic!("{:?} should not parse", bad),
        }
    }
    match Command::parse("exit  abc ") {
        Err(ParseError::InvalidExitCode(a)) => assert_eq!(a, "abc"),
        Ok(_) => panic!("expected an error"),
    }
}

#[test]
fn empty_line_is_command_not_found() {
    assert_eq!(printed(run("", "/usr/bin:/bin", &["/usr/bin/", "/bin/"])), ": command not found");
    assert_eq!(printed(run("   \n", "/usr/bin:/bin", &[])), ": command not found");
}

#[test]
fn empty_name_has_no_candidates() {
    let c = ShellCommand::new("", "");
    assert!(c.candidate_paths("/usr/bin:/bin").is_empty());
}

#[test]
fn builtin_names_are_case_sensitive() {
    assert!(!ShellCommand::new("Echo", "").is_shell_builtin());
    assert!(ShellCommand::new("cd", "").is_shell_builtin());
    match parse_ok("ECHO hi") {
        Command::External(c) => assert_eq!(c.name, "ECHO"),
        _ => panic!("expected an external command"),
    }
}

#[test]
fn parse_splits_external_arguments() {
    match parse_ok("grep -n  foo\tbar.txt") {
        Command::External(c) => {
            assert_eq!(c.name, "grep");
            assert_eq!(c.args, vec!["-n", "foo", "bar.txt"]);
        }
        _ => panic!("expected an external command"),
    }
}

#[test]
fn parse_type_and_cd_trim_argument() {
    match parse_ok("type   ls  ") {
        Command::Type(c) => {
            assert_eq!(c.name, "ls");
            assert!(c.args.is_empty());
        }
        _ => panic!("expected type"),
    }
    match parse_ok("cd  ../a b ") {
        Command::Cd(p) => assert_eq!(p, "../a b"),
        _ => panic!("expected cd"),
    }
}

#[test]
fn search_path_splitting() {
    assert_eq!(split_search_path("/usr/bin:/bin"), vec!["/usr/bin", "/bin"]);
    assert_eq!(split_search_path("/a::/b:"), vec!["/a", "", "/b", ""]);
    assert!(split_search_path("").is_empty());
}

#[test]
fn candidate_files_in_path_order() {
    let c = ShellCommand::new("ls", "");
    assert_eq!(c.candidate_paths("/usr/bin:/bin"), vec!["/usr/bin/ls", "/bin/ls"]);
}

#[test]
fn pick_first_present_file() {
    let files = vec!["a".to_string(), "b".to_string(), "c".to_string()];
    assert_eq!(pick_first(&files, &vec![false, true, true]), Some("b".to_string()));
    assert_eq!(pick_first(&files, &vec![false, false, false]), None);
}

#[test]
fn trimming_and_words() {
    assert_eq!(trim_str(" \t a b \u{3000}"), "a b");
    assert_eq!(trim_str("   "), "");
    assert_eq!(split_words("  a  bb\u{a0}c "), vec!["a", "bb", "c"]);
    assert!(split_words(" \t ").is_empty());
}

#[test]
fn integer_parsing() {
    assert_eq!(parse_i32("42"), Some(42));
    assert_eq!(parse_i32("-0042"), Some(-42));
    assert_eq!(parse_i32("+0"), Some(0));
    assert_eq!(parse_i32("000000000000000000000001"), Some(1));
    assert_eq!(parse_i32(""), None);
    assert_eq!(parse_i32("+"), None);
    assert_eq!(parse_i32("99999999999999999999"), None);
    assert_eq!(parse_i32("-2147483649"), None);
    assert_eq!(parse_i32(" 1"), None);
}
