use kerosene::args::ArgError;
use kerosene::context::{RunCommandOpts, StdinSource, TaskContextInner};
use kerosene::modules::{
    build_install_command, local_file_candidates, pick_candidate, run_module, ModuleError, TaskAction,
    TemplateSource,
};
use kerosene::yaml::Yaml;

fn s(v: &str) -> Yaml {
    Yaml::String(v.to_string())
}

fn map(entries: Vec<(&str, Yaml)>) -> Yaml {
    Yaml::Mapping(entries.into_iter().map(|(k, v)| (s(k), v)).collect())
}

fn strings(v: &[&str]) -> Vec<String> {
    v.iter().map(|s| s.to_string()).collect()
}

fn plain(argv: &[&str]) -> RunCommandOpts {
    RunCommandOpts { command: strings(argv), working_directory: None, stdin: None }
}

fn run(name: &str, args: Yaml) -> Result<TaskAction, ModuleError> {
    let mut ctx = TaskContextInner::new("/p".to_string());
    run_module(&mut ctx, name, &args)
}

#[test]
fn copy_with_content_pipes_it() {
    let action = run(
        "ansible.builtin.copy",
        map(vec![("content", s("hello\n")), ("dest", s("/tmp/x")), ("mode", s("0644"))]),
    )
    .unwrap();
    assert_eq!(
        action,
        TaskAction::Commands {
            commands: vec![RunCommandOpts {
                command: strings(&["install", "-m", "0644", "/dev/stdin", "/tmp/x"]),
                working_directory: None,
                stdin: Some(StdinSource::Text("hello\n".to_string())),
            }],
            missing_name: false,
        }
    );
}

#[test]
fn copy_of_remote_file() {
    let action = run(
        "ansible.builtin.copy",
        map(vec![
            ("src", s("/etc/a")),
            ("remote_src", Yaml::Bool(true)),
            ("dest", s("/etc/b")),
            ("owner", s("root")),
            ("group", s("wheel")),
        ]),
    )
    .unwrap();
    assert_eq!(
        action,
        TaskAction::Commands {
            commands: vec![plain(&["install", "-o", "root", "-g", "wheel", "/etc/a", "/etc/b"])],
            missing_name: false,
        }
    );
}

#[test]
fn copy_of_local_file() {
    let action = run("ansible.builtin.copy", map(vec![("src", s("hello.txt")), ("dest", s("/tmp/h"))])).unwrap();
    assert_eq!(
        action,
        TaskAction::InstallLocal {
            command: strings(&["install", "/dev/stdin", "/tmp/h"]),
            file: "hello.txt".to_string()
        }
    );
}

#[test]
fn copy_errors() {
    assert_eq!(
        run("ansible.builtin.copy", map(vec![("content", s("x"))])),
        Err(ModuleError::Args(ArgError::Missing("dest".to_string())))
    );
    assert!(run("ansible.builtin.copy", map(vec![("dest", s("/x"))])).is_err());
    assert_eq!(
        run("ansible.builtin.copy", map(vec![("content", s("x")), ("dest", s("/x")), ("mode", Yaml::Number("644".to_string()))])),
        Err(ModuleError::Args(ArgError::Invalid("mode".to_string())))
    );
    assert_eq!(run("ansible.builtin.copy", s("x")), Err(ModuleError::Args(ArgError::NotAMapping)));
}

#[test]
fn install_command_flags() {
    let (cmd, pipe) = build_install_command(&"/d".to_string(), &None, &Some("u".to_string()), &None, &Some("0600".to_string()));
    assert_eq!(cmd, strings(&["install", "-o", "u", "-m", "0600", "/dev/stdin", "/d"]));
    assert!(pipe);
    let (cmd, pipe) = build_install_command(&"/d".to_string(), &Some("/s".to_string()), &None, &None, &None);
    assert_eq!(cmd, strings(&["install", "/s", "/d"]));
    assert!(!pipe);
}

#[test]
fn template_sources() {
    let inline = run("ansible.builtin.template", map(vec![("content", s("{{ a }}")), ("dest", s("/t"))])).unwrap();
    assert_eq!(
        inline,
        TaskAction::RenderTemplate {
            command: strings(&["install", "/dev/stdin", "/t"]),
            source: TemplateSource::Inline("{{ a }}".to_string())
        }
    );
    let local = run("ansible.builtin.template", map(vec![("src", s("a.j2")), ("dest", s("/t"))])).unwrap();
    assert_eq!(
        local,
        TaskAction::RenderTemplate {
            command: strings(&["install", "/dev/stdin", "/t"]),
            source: TemplateSource::Local("a.j2".to_string())
        }
    );
    assert_eq!(
        run("ansible.builtin.template", map(vec![("src", s("a.j2")), ("remote_src", Yaml::Bool(true)), ("dest", s("/t"))])),
        Err(ModuleError::UnsupportedTemplateSource)
    );
}

#[test]
fn shell_command() {
    let action = run("ansible.builtin.shell", map(vec![("cmd", s("id")), ("chdir", s("/srv"))])).unwrap();
    assert_eq!(
        action,
        TaskAction::Commands {
            commands: vec![RunCommandOpts {
                command: strings(&["/bin/sh", "-c", "id"]),
                working_directory: Some("/srv".to_string()),
                stdin: None
            }],
            missing_name: false
        }
    );
    let action = run("ansible.builtin.shell", map(vec![("cmd", s("id")), ("executable", s("/bin/bash"))])).unwrap();
    assert_eq!(
        action,
        TaskAction::Commands { commands: vec![plain(&["/bin/bash", "-c", "id"])], missing_name: false }
    );
    assert_eq!(
        run("ansible.builtin.shell", map(vec![])),
        Err(ModuleError::Args(ArgError::Missing("cmd".to_string())))
    );
}

#[test]
fn systemd_commands_in_fixed_order() {
    let action = run(
        "ansible.builtin.systemd_service",
        map(vec![
            ("state", s("restarted")),
            ("name", s("nginx")),
            ("enabled", Yaml::Bool(true)),
            ("masked", Yaml::Bool(false)),
            ("daemon-reload", Yaml::Bool(true)),
            ("force", Yaml::Bool(true)),
            ("no_block", Yaml::Bool(true)),
            ("scope", s("user")),
        ]),
    )
    .unwrap();
    assert_eq!(
        action,
        TaskAction::Commands {
            commands: vec![
                plain(&["systemctl", "--user", "daemon-reload"]),
                plain(&["systemctl", "--user", "enable", "--force", "nginx"]),
                plain(&["systemctl", "--user", "unmask", "--force", "nginx"]),
                plain(&["systemctl", "--user", "restart", "--no-block", "nginx"]),
            ],
            missing_name: false
        }
    );
}

#[test]
fn systemd_without_name() {
    let action = run(
        "ansible.builtin.systemd_service",
        map(vec![("daemon_reload", Yaml::Bool(true)), ("state", s("started"))]),
    )
    .unwrap();
    assert_eq!(
        action,
        TaskAction::Commands { commands: vec![plain(&["systemctl", "--system", "daemon-reload"])], missing_name: true }
    );
    assert_eq!(
        run("ansible.builtin.systemd_service", map(vec![("state", s("exploded"))])),
        Err(ModuleError::Args(ArgError::Invalid("state".to_string())))
    );
    let action = run("ansible.builtin.systemd_service", map(vec![("name", s("a")), ("state", s("stopped")), ("scope", s("global"))])).unwrap();
    assert_eq!(
        action,
        TaskAction::Commands { commands: vec![plain(&["systemctl", "--global", "stop", "a"])], missing_name: false }
    );
}

#[test]
fn set_fact_stores_facts() {
    let mut ctx = TaskContextInner::new("/p".to_string());
    let args = map(vec![("a", s("1")), ("b", Yaml::Bool(false))]);
    assert_eq!(run_module(&mut ctx, "ansible.builtin.set_fact", &args), Ok(TaskAction::Nothing));
    assert_eq!(ctx.facts, vec![("a".to_string(), s("1")), ("b".to_string(), Yaml::Bool(false))]);
    assert!(run_module(&mut ctx, "ansible.builtin.set_fact", &s("x")).is_err());
}

#[test]
fn meta_actions() {
    assert_eq!(run("ansible.builtin.meta", s("flush_handlers")), Ok(TaskAction::FlushHandlers));
    assert_eq!(run("ansible.builtin.meta", s("reset_connection")), Ok(TaskAction::ResetConnection));
    assert_eq!(run("ansible.builtin.meta", s("noop")), Ok(TaskAction::Nothing));
    assert_eq!(run("ansible.builtin.meta", s("end_play")), Ok(TaskAction::Nothing));
    assert_eq!(run("ansible.builtin.meta", s("explode")), Ok(TaskAction::Nothing));
    assert_eq!(run("ansible.builtin.meta", Yaml::Bool(true)), Err(ModuleError::UnknownMetaAction));
}

#[test]
fn curl_command() {
    let action = run(
        "kerosene.builtin.curl",
        map(vec![("url", s("http://x")), ("method", s("POST")), ("headers", map(vec![("Accept", s("text/plain"))]))]),
    )
    .unwrap();
    assert_eq!(
        action,
        TaskAction::Commands {
            commands: vec![plain(&["curl", "--request=POST", "--header=Accept: text/plain", "http://x"])],
            missing_name: false
        }
    );
    assert!(run("kerosene.builtin.curl", map(vec![])).is_err());
}

#[test]
fn import_tasks_and_unknown_modules() {
    assert_eq!(run("ansible.builtin.import_tasks", map(vec![("file", s("x.yml"))])), Ok(TaskAction::Nothing));
    assert_eq!(run("nope", Yaml::Null), Err(ModuleError::UnknownModule("nope".to_string())));
}

#[test]
fn file_search_order() {
    let dirs = strings(&["/p/roles/r"]);
    let candidates = local_file_candidates(&dirs, &"/p".to_string(), "files", "hello.txt");
    assert_eq!(
        candidates,
        strings(&["/p/roles/r/files/hello.txt", "/p/roles/r/hello.txt", "/p/hello.txt", "/p/files/hello.txt"])
    );
    let exists: Vec<bool> = candidates
        .iter()
        .map(|c| c == "/p/roles/r/files/hello.txt" || c == "/p/hello.txt")
        .collect();
    assert_eq!(pick_candidate("hello.txt", &candidates, &exists), Ok("/p/roles/r/files/hello.txt".to_string()));
}

#[test]
fn later_role_directories_are_searched_first() {
    let mut ctx = TaskContextInner::new("/p".to_string());
    ctx.add_resource_dir("/a".to_string());
    ctx.add_resource_dir("/b/".to_string());
    assert_eq!(ctx.resource_dirs, strings(&["/b/", "/a"]));
    let dirs = ctx.resource_dirs.clone();
    let candidates = local_file_candidates(&dirs, &"/p".to_string(), "templates", "t.j2");
    assert_eq!(
        candidates,
        strings(&["/b/templates/t.j2", "/b/t.j2", "/a/templates/t.j2", "/a/t.j2", "/p/t.j2", "/p/templates/t.j2"])
    );
    assert_eq!(local_file_candidates(&dirs, &"/p".to_string(), "files", "/abs/f"), strings(&["/abs/f"]));
}

#[test]
fn missing_file_is_reported() {
    let candidates = strings(&["/a", "/b"]);
    assert_eq!(
        pick_candidate("f", &candidates, &vec![false, false]),
        Err(ModuleError::FileNotFound("f".to_string()))
    );
    assert_eq!(pick_candidate("f", &candidates, &vec![false, true]), Ok("/b".to_string()));
}

#[test]
fn facts_are_rendered_into_templates() {
    let mut ctx = TaskContextInner::new("/p".to_string());
    ctx.set_fact(&"who".to_string(), &s("world \"x\"\\"));
    ctx.set_fact(&"n".to_string(), &Yaml::Number("3".to_string()));
    ctx.set_fact(&"items".to_string(), &Yaml::Sequence(vec![s("a"), Yaml::Bool(true)]));
    assert_eq!(
        kerosene::template::facts_context(&ctx.facts),
        "{\"who\": \"world \\\"x\\\"\\\\\", \"n\": 3, \"items\": [\"a\", true]}"
    );
    let opts = ctx
        .render_install(strings(&["install", "/dev/stdin", "/t"]), "<inline>", "hi {{ who }} {{ n + 1 }} {{ items[0] }}\u{e9}")
        .unwrap();
    assert_eq!(opts.stdin, Some(StdinSource::Text("hi world \"x\"\\ 4 a\u{e9}".to_string())));
    assert_eq!(opts.command, strings(&["install", "/dev/stdin", "/t"]));
}

#[test]
fn undefined_template_variable_fails() {
    let ctx = TaskContextInner::new("/p".to_string());
    assert_eq!(
        ctx.render_install(strings(&["install"]), "<inline>", "{{ missing }}"),
        Err(ModuleError::TemplateFailed)
    );
}

#[test]
fn non_ascii_fact_is_escaped() {
    let mut ctx = TaskContextInner::new("/p".to_string());
    ctx.set_fact(&"t".to_string(), &s("\u{e9}\n"));
    assert_eq!(kerosene::template::facts_context(&ctx.facts), "{\"t\": \"\\U000000e9\\U0000000a\"}");
    let opts = ctx.render_install(Vec::new(), "<inline>", "{{ t }}").unwrap();
    assert_eq!(opts.stdin, Some(StdinSource::Text("\u{e9}\n".to_string())));
}

#[test]
fn number_text_that_is_not_a_number_is_quoted() {
    let mut ctx = TaskContextInner::new("/p".to_string());
    ctx.set_fact(&"a".to_string(), &Yaml::Number("1.5e3".to_string()));
    ctx.set_fact(&"b".to_string(), &Yaml::Number("1, c: 2".to_string()));
    assert_eq!(kerosene::template::facts_context(&ctx.facts), "{\"a\": 1.5e3, \"b\": \"1, c: 2\"}");
    let opts = ctx.render_install(Vec::new(), "<inline>", "{{ b }}").unwrap();
    assert_eq!(opts.stdin, Some(StdinSource::Text("1, c: 2".to_string())));
}

#[test]
fn modules_leave_the_rest_of_the_context_alone() {
    let mut ctx = TaskContextInner::new("/p".to_string());
    ctx.add_resource_dir("/p/roles/r".to_string());
    ctx.do_become_user = Some("pg".to_string());
    assert_eq!(run_module(&mut ctx, "ansible.builtin.meta", &s("noop")), Ok(TaskAction::Nothing));
    assert_eq!(run_module(&mut ctx, "ansible.builtin.set_fact", &map(vec![("a", s("1"))])), Ok(TaskAction::Nothing));
    assert_eq!(ctx.resource_dirs, strings(&["/p/roles/r"]));
    assert_eq!(ctx.do_become_user, Some("pg".to_string()));
    assert_eq!(ctx.play_basedir, "/p");
    assert!(ctx.pending_handlers.is_empty());
}
