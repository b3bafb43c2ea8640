use kerosene::command::{escape_backslashes, CommandError, CommandExt, CommandTarget, ExitOutcome, PreparedCommand};
use kerosene::context::{RunCommandOpts, TaskContextInner};

fn strings(v: &[&str]) -> Vec<String> {
    v.iter().map(|s| s.to_string()).collect()
}

fn sudo(user: &str) -> Option<Vec<String>> {
    Some(strings(&["sudo", &format!("--user={user}"), "--"]))
}

#[test]
fn local_command_runs_as_is() {
    let target = CommandTarget::default();
    let mut cmd = PreparedCommand::new(&target, "install");
    cmd.args(&strings(&["-m", "0644", "/dev/stdin", "/tmp/x"]));
    let (program, args) = cmd.prepare();
    assert_eq!(program, "install");
    assert_eq!(args, strings(&["-m", "0644", "/dev/stdin", "/tmp/x"]));
}

#[test]
fn local_elevation_prefixes_command() {
    let target = CommandTarget::Local { elevate: sudo("root"), dry: false };
    let mut cmd = PreparedCommand::new(&target, "id");
    cmd.arg("-u");
    let (program, args) = cmd.prepare();
    assert_eq!(program, "sudo");
    assert_eq!(args, strings(&["--user=root", "--", "id", "-u"]));
}

#[test]
fn remote_with_become() {
    let mut ctx = TaskContextInner::new("/p".to_string());
    ctx.command_target = CommandTarget::Remote {
        hostname: "h".to_string(),
        user: Some("u".to_string()),
        elevate: None,
        dry: false,
    };
    ctx.do_become_user = Some("root".to_string());
    let line = ctx.prepare_command(&RunCommandOpts {
        command: strings(&["/bin/sh", "-c", "id"]),
        working_directory: None,
        stdin: None,
    });
    assert_eq!(line.program, "ssh");
    assert_eq!(line.args, strings(&["u@h", "sudo", "--user=root", "--", "/bin/sh", "-c", "id"]));
    assert_eq!(line.current_dir, None);
}

#[test]
fn remote_working_directory_uses_env() {
    let target = CommandTarget::Remote { hostname: "h".to_string(), user: None, elevate: None, dry: false };
    let mut cmd = PreparedCommand::new(&target, "ls");
    cmd.chdir(Some("/srv".to_string()));
    let (program, args) = cmd.prepare();
    assert_eq!(program, "ssh");
    assert_eq!(args, strings(&["h", "env", "--chdir", "/srv", "ls"]));
}

#[test]
fn local_working_directory_is_child_cwd() {
    let ctx = TaskContextInner::new("/p".to_string());
    let line = ctx.prepare_command(&RunCommandOpts {
        command: strings(&["ls"]),
        working_directory: Some("/srv".to_string()),
        stdin: None,
    });
    assert_eq!(line.program, "ls");
    assert!(line.args.is_empty());
    assert_eq!(line.current_dir, Some("/srv".to_string()));
}

#[test]
fn ssh_arguments_have_backslashes_doubled() {
    let target = CommandTarget::Remote { hostname: "h".to_string(), user: None, elevate: None, dry: false };
    let mut cmd = PreparedCommand::new(&target, "printf");
    cmd.arg("a\\nb");
    cmd.arg("\\\\");
    let (_, args) = cmd.prepare();
    assert_eq!(args, strings(&["h", "printf", "a\\\\nb", "\\\\\\\\"]));
    assert_eq!(escape_backslashes("x\\y"), "x\\\\y");
    assert_eq!(escape_backslashes("plain"), "plain");
    assert_eq!(escape_backslashes(""), "");
}

#[test]
fn dry_run_preserves_read_only() {
    let target = CommandTarget::Local { elevate: None, dry: true };
    let mut observe = PreparedCommand::new(&target, "systemctl");
    observe.args(&strings(&["is-active", "s"]));
    observe.read_only();
    let (program, args) = observe.prepare();
    assert_eq!(program, "systemctl");
    assert_eq!(args, strings(&["is-active", "s"]));

    let mut change = PreparedCommand::new(&target, "systemctl");
    change.args(&strings(&["start", "s"]));
    let (program, args) = change.prepare();
    assert_eq!(program, "true");
    assert!(args.is_empty());
}

#[test]
fn dry_run_on_remote_target() {
    let target = CommandTarget::Remote { hostname: "h".to_string(), user: None, elevate: None, dry: true };
    let cmd = PreparedCommand::new(&target, "rm");
    assert_eq!(cmd.prepare(), ("true".to_string(), Vec::new()));
}

#[test]
fn exit_status_codes() {
    let ok = ExitOutcome { code: Some(0), signal: None };
    assert_eq!(ok.ensure_success(), Ok(ok));
    let failed = ExitOutcome { code: Some(3), signal: None };
    assert_eq!(failed.ensure_success(), Err(CommandError::Unsuccessful(3)));
    let killed = ExitOutcome { code: None, signal: Some(9) };
    assert_eq!(killed.ensure_success(), Err(CommandError::Unsuccessful(137)));
    let unknown = ExitOutcome { code: None, signal: None };
    assert_eq!(unknown.ensure_success(), Err(CommandError::Unsuccessful(128)));
}

#[test]
fn remote_env_prefix_comes_before_elevation() {
    let target = CommandTarget::Remote { hostname: "h".to_string(), user: Some("u".to_string()), elevate: sudo("pg"), dry: false };
    let mut cmd = PreparedCommand::new(&target, "psql");
    cmd.chdir(Some("/srv".to_string()));
    cmd.arg("-c");
    let (program, args) = cmd.prepare();
    assert_eq!(program, "ssh");
    assert_eq!(args, strings(&["u@h", "env", "--chdir", "/srv", "sudo", "--user=pg", "--", "psql", "-c"]));
}

#[test]
fn become_replaces_an_empty_local_prefix() {
    let mut ctx = TaskContextInner::new("/p".to_string());
    ctx.command_target = CommandTarget::Local { elevate: Some(Vec::new()), dry: false };
    ctx.do_become_user = Some("root".to_string());
    let line = ctx.prepare_command(&RunCommandOpts { command: strings(&["id"]), working_directory: None, stdin: None });
    assert_eq!(line.program, "sudo");
    assert_eq!(line.args, strings(&["--user=root", "--", "id"]));
}
