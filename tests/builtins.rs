use minishell::builtins::{BuiltinFlow, BuiltinKind, Builtins};

fn parts(words: &[&str]) -> Vec<String> {
    words.iter().map(|word| word.to_string()).collect()
}

#[test]
fn echo_writes_joined_message() {
    let builtins = Builtins::new();
    let mut stdout = Vec::new();
    let mut stderr = Vec::new();

    let flow = Builtins::builtin_echo(
        &builtins,
        &parts(&["echo", "hello", "world"]),
        &mut stdout,
        &mut stderr,
    );

    assert_eq!(BuiltinFlow::Continue, flow);
    assert_eq!("hello world\n", String::from_utf8(stdout).unwrap());
    assert!(stderr.is_empty());
}

#[test]
fn exit_with_invalid_argument_reports_error() {
    let builtins = Builtins::new();
    let mut stdout = Vec::new();
    let mut stderr = Vec::new();

    let flow = Builtins::builtin_exit(
        &builtins,
        &parts(&["exit", "oops"]),
        &mut stdout,
        &mut stderr,
    );

    assert_eq!(BuiltinFlow::Continue, flow);
    assert_eq!(
        "exit: oops: numeric argument required\n",
        String::from_utf8(stderr).unwrap()
    );
    assert!(stdout.is_empty());
}

#[test]
fn type_reports_builtin() {
    let builtins = Builtins::new();
    let mut stdout = Vec::new();
    let mut stderr = Vec::new();

    let flow = Builtins::builtin_type(
        &builtins,
        &parts(&["type", "echo"]),
        &mut stdout,
        &mut stderr,
        None,
    );

    assert_eq!(BuiltinFlow::Continue, flow);
    assert_eq!(
        "echo is a shell builtin\n",
        String::from_utf8(stdout).unwrap()
    );
    assert!(stderr.is_empty());
}

#[test]
fn registry_holds_the_five_builtins() {
    let b = Builtins::new();
    assert_eq!(b.get("exit"), Some(BuiltinKind::Exit));
    assert_eq!(b.get("echo"), Some(BuiltinKind::Echo));
    assert_eq!(b.get("type"), Some(BuiltinKind::Type));
    assert_eq!(b.get("pwd"), Some(BuiltinKind::Pwd));
    assert_eq!(b.get("cd"), Some(BuiltinKind::Cd));
    assert_eq!(b.get("ls"), None);
    assert_eq!(b.get("Echo"), None);
    assert_eq!(b.get(""), None);
    assert!(b.is_builtin("pwd"));
    assert!(!b.is_builtin("pwdx"));
}

#[test]
fn exit_abc_keeps_running_and_reports() {
    let b = Builtins::new();
    let (mut out, mut err) = (Vec::new(), Vec::new());
    let flow = b.builtin_exit(&parts(&["exit", "abc"]), &mut out, &mut err);
    assert_eq!(flow, BuiltinFlow::Continue);
    assert_eq!(err, b"exit: abc: numeric argument required\n".to_vec());
    assert!(out.is_empty());
}

#[test]
fn exit_with_status() {
    let b = Builtins::new();
    let (mut out, mut err) = (Vec::new(), Vec::new());
    assert_eq!(b.builtin_exit(&parts(&["exit", "3"]), &mut out, &mut err), BuiltinFlow::Exit(3));
    assert_eq!(b.builtin_exit(&parts(&["exit"]), &mut out, &mut err), BuiltinFlow::Exit(0));
    assert_eq!(b.builtin_exit(&parts(&["exit", "-7"]), &mut out, &mut err), BuiltinFlow::Exit(-7));
    assert_eq!(b.builtin_exit(&parts(&["exit", "+12"]), &mut out, &mut err), BuiltinFlow::Exit(12));
    assert_eq!(
        b.builtin_exit(&parts(&["exit", "-2147483648"]), &mut out, &mut err),
        BuiltinFlow::Exit(i32::MIN)
    );
    assert_eq!(
        b.builtin_exit(&parts(&["exit", "2147483647"]), &mut out, &mut err),
        BuiltinFlow::Exit(i32::MAX)
    );
    assert!(out.is_empty());
    assert!(err.is_empty());
}

#[test]
fn exit_rejects_out_of_range_and_bare_signs() {
    let b = Builtins::new();
    for arg in ["2147483648", "-2147483649", "-", "+", "", "1 ", "--1", "0x10"] {
        let (mut out, mut err) = (Vec::new(), Vec::new());
        let flow = b.builtin_exit(&parts(&["exit", arg]), &mut out, &mut err);
        assert_eq!(flow, BuiltinFlow::Continue, "argument {:?}", arg);
        assert_eq!(
            String::from_utf8(err).unwrap(),
            format!("exit: {}: numeric argument required\n", arg)
        );
    }
}

#[test]
fn echo_without_arguments_writes_empty_line() {
    let b = Builtins::new();
    let (mut out, mut err) = (Vec::new(), Vec::new());
    b.builtin_echo(&parts(&["echo"]), &mut out, &mut err);
    assert_eq!(out, b"\n".to_vec());
    assert!(err.is_empty());
}

#[test]
fn echo_appends_to_earlier_output() {
    let b = Builtins::new();
    let (mut out, mut err) = (b"x\n".to_vec(), Vec::new());
    b.builtin_echo(&parts(&["echo", "héllo", "a  b"]), &mut out, &mut err);
    assert_eq!(String::from_utf8(out).unwrap(), "x\nhéllo a  b\n");
}

#[test]
fn type_of_unknown_command() {
    let b = Builtins::new();
    let (mut out, mut err) = (Vec::new(), Vec::new());
    let flow = b.builtin_type(&parts(&["type", "nonexistent_cmd_xyz"]), &mut out, &mut err, None);
    assert_eq!(flow, BuiltinFlow::Continue);
    assert!(out.is_empty());
    assert_eq!(String::from_utf8(err).unwrap(), "nonexistent_cmd_xyz: not found\n");
}

#[test]
fn type_of_found_executable() {
    let b = Builtins::new();
    let (mut out, mut err) = (Vec::new(), Vec::new());
    b.builtin_type(&parts(&["type", "ls"]), &mut out, &mut err, Some("/bin/ls".to_string()));
    assert_eq!(String::from_utf8(out).unwrap(), "ls is /bin/ls\n");
    assert!(err.is_empty());
}

#[test]
fn type_prefers_builtin_over_path() {
    let b = Builtins::new();
    let (mut out, mut err) = (Vec::new(), Vec::new());
    b.builtin_type(&parts(&["type", "pwd"]), &mut out, &mut err, Some("/bin/pwd".to_string()));
    assert_eq!(String::from_utf8(out).unwrap(), "pwd is a shell builtin\n");
    assert!(err.is_empty());
}

#[test]
fn type_needs_one_argument() {
    let b = Builtins::new();
    for words in [&["type"][..], &["type", "a", "b"][..]] {
        let (mut out, mut err) = (Vec::new(), Vec::new());
        b.builtin_type(&parts(words), &mut out, &mut err, None);
        assert!(out.is_empty());
        assert_eq!(String::from_utf8(err).unwrap(), "type only accepts 2 arguments\n");
    }
}

#[test]
fn pwd_writes_directory_or_reports() {
    let b = Builtins::new();
    let (mut out, mut err) = (Vec::new(), Vec::new());
    b.builtin_pwd(&parts(&["pwd"]), &mut out, &mut err, Some("/home/user".to_string()));
    assert_eq!(String::from_utf8(out).unwrap(), "/home/user\n");
    assert!(err.is_empty());

    let (mut out, mut err) = (Vec::new(), Vec::new());
    b.builtin_pwd(&parts(&["pwd"]), &mut out, &mut err, None);
    assert!(out.is_empty());
    assert_eq!(String::from_utf8(err).unwrap(), "Can't find current directory\n");
}

#[test]
fn cd_home_then_pwd_reports_home() {
    let b = Builtins::new();
    let target = b.cd_target(&parts(&["cd", "~"]), Some("/home/user".to_string()));
    assert_eq!(target.as_deref(), Some("/home/user"));
    let (mut out, mut err) = (Vec::new(), Vec::new());
    b.builtin_cd(&parts(&["cd", "~"]), &mut out, &mut err, true);
    assert!(out.is_empty() && err.is_empty());
    b.builtin_pwd(&parts(&["pwd"]), &mut out, &mut err, target);
    assert_eq!(String::from_utf8(out).unwrap(), "/home/user\n");
}

#[test]
fn cd_tilde_forms() {
    let b = Builtins::new();
    let home = || Some("/h".to_string());
    assert_eq!(b.cd_target(&parts(&["cd", "~/src"]), home()).unwrap(), "/h/src");
    assert_eq!(b.cd_target(&parts(&["cd", "~//src"]), home()).unwrap(), "/h/src");
    assert_eq!(b.cd_target(&parts(&["cd", "~~"]), home()).unwrap(), "/h");
    assert_eq!(b.cd_target(&parts(&["cd", "/tmp/~"]), home()).unwrap(), "/tmp/~");
    assert_eq!(b.cd_target(&parts(&["cd", "~"]), None).unwrap(), "~");
    assert_eq!(b.cd_target(&parts(&["cd"]), home()), None);
    assert_eq!(b.cd_target(&parts(&["cd", "a", "b"]), home()), None);
}

#[test]
fn cd_to_missing_directory_reports() {
    let b = Builtins::new();
    let (mut out, mut err) = (Vec::new(), Vec::new());
    let target = b.cd_target(&parts(&["cd", "/no/such/dir"]), None);
    assert_eq!(target.as_deref(), Some("/no/such/dir"));
    let flow = b.builtin_cd(&parts(&["cd", "/no/such/dir"]), &mut out, &mut err, false);
    assert_eq!(flow, BuiltinFlow::Continue);
    assert!(out.is_empty());
    assert_eq!(
        String::from_utf8(err).unwrap(),
        "/no/such/dir: No such file or directory\n"
    );
}

#[test]
fn cd_needs_one_argument() {
    let b = Builtins::new();
    let (mut out, mut err) = (Vec::new(), Vec::new());
    b.builtin_cd(&parts(&["cd"]), &mut out, &mut err, false);
    assert_eq!(String::from_utf8(err).unwrap(), "cd only accepts 1 argument\n");
    assert!(out.is_empty());
}
