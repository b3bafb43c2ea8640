use kerosene::description::{Field, HandlerDescription, ParseError, TaskDescription};
use kerosene::play::{Play, PlayError, PlayRole, PlayStep};
use kerosene::registry::{builtin_tasks, known_tasks};
use kerosene::task_id::TaskId;
use kerosene::yaml::Yaml;

fn s(v: &str) -> Yaml {
    Yaml::String(v.to_string())
}

fn map(entries: Vec<(&str, Yaml)>) -> Yaml {
    Yaml::Mapping(entries.into_iter().map(|(k, v)| (s(k), v)).collect())
}

fn shell(cmd: &str) -> Yaml {
    map(vec![("cmd", s(cmd))])
}

#[test]
fn alias_key_resolves_to_canonical_module() {
    let reg = known_tasks();
    let t = TaskDescription::parse(&reg, &map(vec![("name", s("hi")), ("shell", shell("echo"))])).unwrap();
    assert_eq!(
        t.task_id,
        TaskId::Alias { id: "ansible.builtin.shell".to_string(), alias: "shell".to_string() }
    );
    assert_eq!(t.task_id.name(), "ansible.builtin.shell");
    assert_eq!(t.name, Some("hi".to_string()));
    assert_eq!(t.args, shell("echo"));
    assert!(!t.use_become);
    assert!(t.when.is_empty());
    assert!(t.notify.is_empty());
}

#[test]
fn fqdn_key_resolves_to_task() {
    let reg = known_tasks();
    let t = TaskDescription::parse(&reg, &map(vec![("ansible.builtin.systemd", map(vec![]))])).unwrap();
    assert_eq!(
        t.task_id,
        TaskId::Alias {
            id: "ansible.builtin.systemd_service".to_string(),
            alias: "ansible.builtin.systemd".to_string()
        }
    );
    let t = TaskDescription::parse(&reg, &map(vec![("ansible.builtin.copy", map(vec![]))])).unwrap();
    assert_eq!(t.task_id, TaskId::Task("ansible.builtin.copy".to_string()));
}

#[test]
fn parsed_task_names_a_registered_module() {
    let reg = known_tasks();
    let names: Vec<String> = builtin_tasks().into_iter().map(|i| i.fqdn).collect();
    for key in ["copy", "template", "shell", "systemd", "systemd_service", "set_fact", "meta", "curl", "import_tasks"] {
        let t = TaskDescription::parse(&reg, &map(vec![(key, Yaml::Null)])).unwrap();
        assert!(names.contains(&t.task_id.name()), "{key}");
        assert!(reg.get_task(&t.task_id.name()).is_some());
    }
}

#[test]
fn when_string_and_single_list_are_equal() {
    let reg = known_tasks();
    let a = TaskDescription::parse(&reg, &map(vec![("shell", shell("x")), ("when", s("expr"))])).unwrap();
    let b = TaskDescription::parse(
        &reg,
        &map(vec![("shell", shell("x")), ("when", Yaml::Sequence(vec![s("expr")]))]),
    )
    .unwrap();
    assert_eq!(a, b);
    assert_eq!(a.when, vec!["expr".to_string()]);
}

#[test]
fn when_of_wrong_type_is_rejected() {
    let reg = known_tasks();
    let r = TaskDescription::parse(&reg, &map(vec![("shell", shell("x")), ("when", Yaml::Bool(true))]));
    assert_eq!(r, Err(ParseError::Invalid(Field::When)));
    let r = TaskDescription::parse(
        &reg,
        &map(vec![("shell", shell("x")), ("when", Yaml::Sequence(vec![Yaml::Bool(true)]))]),
    );
    assert_eq!(r, Err(ParseError::Invalid(Field::When)));
}

#[test]
fn duplicate_module_key_is_rejected() {
    let reg = known_tasks();
    let r = TaskDescription::parse(&reg, &map(vec![("shell", shell("x")), ("copy", Yaml::Null)]));
    assert_eq!(r, Err(ParseError::DuplicateTaskDetails));
}

#[test]
fn duplicate_generic_key_is_rejected() {
    let reg = known_tasks();
    let r = TaskDescription::parse(
        &reg,
        &map(vec![("name", s("a")), ("shell", shell("x")), ("name", s("b"))]),
    );
    assert_eq!(r, Err(ParseError::Duplicate(Field::Name)));
}

#[test]
fn missing_module_key_is_rejected() {
    let reg = known_tasks();
    let r = TaskDescription::parse(&reg, &map(vec![("name", s("a")), ("frobnicate", s("x"))]));
    assert_eq!(r, Err(ParseError::MissingTaskDetails));
    assert_eq!(TaskDescription::parse(&reg, &Yaml::Null), Err(ParseError::MissingTaskDetails));
}

#[test]
fn wrong_types_are_rejected() {
    let reg = known_tasks();
    let r = TaskDescription::parse(&reg, &map(vec![("shell", shell("x")), ("become", s("yes"))]));
    assert_eq!(r, Err(ParseError::Invalid(Field::Become)));
    let r = TaskDescription::parse(&reg, &map(vec![("shell", shell("x")), ("name", Yaml::Bool(true))]));
    assert_eq!(r, Err(ParseError::Invalid(Field::Name)));
    let r = TaskDescription::parse(&reg, &map(vec![("shell", shell("x")), ("vars", s("v"))]));
    assert_eq!(r, Err(ParseError::Invalid(Field::Vars)));
    let r = TaskDescription::parse(&reg, &map(vec![("shell", shell("x")), ("notify", s("h"))]));
    assert_eq!(r, Err(ParseError::Invalid(Field::Notify)));
    assert_eq!(TaskDescription::parse(&reg, &s("x")), Err(ParseError::NotAMapping));
    let r = TaskDescription::parse(&reg, &Yaml::Mapping(vec![(Yaml::Bool(true), s("x"))]));
    assert_eq!(r, Err(ParseError::KeyNotString));
}

#[test]
fn task_attributes_are_kept() {
    let reg = known_tasks();
    let t = TaskDescription::parse(
        &reg,
        &map(vec![
            ("shell", shell("x")),
            ("become", Yaml::Bool(true)),
            ("become_user", s("admin")),
            ("delegate_to", s("other")),
            ("notify", Yaml::Sequence(vec![s("h1"), s("h2")])),
            ("register", s("out")),
            ("vars", map(vec![("a", Yaml::Number("1".to_string()))])),
            ("unknown_key", s("ignored")),
        ]),
    )
    .unwrap();
    assert!(t.use_become);
    assert_eq!(t.become_user, Some("admin".to_string()));
    assert_eq!(t.delegate_to, Some("other".to_string()));
    assert_eq!(t.notify, vec!["h1".to_string(), "h2".to_string()]);
    assert_eq!(t.register, Some("out".to_string()));
    assert_eq!(t.vars, Some(vec![("a".to_string(), Yaml::Number("1".to_string()))]));
}

#[test]
fn null_notify_and_vars_are_rejected() {
    let reg = known_tasks();
    let r = TaskDescription::parse(&reg, &map(vec![("shell", shell("x")), ("notify", Yaml::Null)]));
    assert_eq!(r, Err(ParseError::Invalid(Field::Notify)));
    let r = TaskDescription::parse(&reg, &map(vec![("shell", shell("x")), ("vars", Yaml::Null)]));
    assert_eq!(r, Err(ParseError::Invalid(Field::Vars)));
    let t = TaskDescription::parse(&reg, &map(vec![("shell", shell("x")), ("notify", Yaml::Sequence(vec![]))])).unwrap();
    assert!(t.notify.is_empty());
}

#[test]
fn handler_needs_name_or_listen() {
    let reg = known_tasks();
    let r = HandlerDescription::parse(&reg, &map(vec![("shell", shell("x"))]));
    assert_eq!(r, Err(ParseError::HandlerWithoutName));
    let h = HandlerDescription::parse(&reg, &map(vec![("listen", s("H")), ("shell", shell("echo ok"))])).unwrap();
    assert_eq!(h.listen, Some("H".to_string()));
    assert_eq!(h.name, None);
    assert_eq!(h.task_id.name(), "ansible.builtin.shell");
}

#[test]
fn notify_is_not_an_attribute_of_handlers() {
    let reg = known_tasks();
    let h = HandlerDescription::parse(
        &reg,
        &map(vec![("name", s("n")), ("notify", s("not a list")), ("shell", shell("x"))]),
    )
    .unwrap();
    assert_eq!(h.name, Some("n".to_string()));
}

#[test]
fn display_name_prefixes_role() {
    let reg = known_tasks();
    let named = TaskDescription::parse(&reg, &map(vec![("name", s("hi")), ("shell", shell("x"))])).unwrap();
    let anon = TaskDescription::parse(&reg, &map(vec![("shell", shell("x"))])).unwrap();
    assert_eq!(named.display_name(&Some("web".to_string())), "web : hi");
    assert_eq!(named.display_name(&None), "hi");
    assert_eq!(anon.display_name(&Some("web".to_string())), "web : ansible.builtin.shell");
    assert_eq!(anon.display_name(&None), "ansible.builtin.shell");
}

#[test]
fn play_parses_lists_and_roles() {
    let reg = known_tasks();
    let play = Play::parse(
        &reg,
        &map(vec![
            ("hosts", s("all")),
            ("roles", Yaml::Sequence(vec![s("web"), map(vec![("role", s("db")), ("vars", map(vec![("x", s("y"))]))])])),
            ("tasks", Yaml::Sequence(vec![map(vec![("shell", shell("x"))])])),
        ]),
    )
    .unwrap();
    assert_eq!(play.name(), "all");
    let roles = play.roles.as_ref().unwrap();
    assert_eq!(roles[0], PlayRole::RoleName("web".to_string()));
    assert_eq!(roles[1].name(), "db");
    assert_eq!(play.tasks.as_ref().unwrap().len(), 1);
    assert!(play.pre_tasks.is_none());
    assert_eq!(
        play.steps(),
        vec![PlayStep::Role(0), PlayStep::Role(1), PlayStep::Tasks, PlayStep::Flush]
    );
}

#[test]
fn play_steps_flush_after_each_list() {
    let reg = known_tasks();
    let t = Yaml::Sequence(vec![map(vec![("shell", shell("x"))])]);
    let play = Play::parse(
        &reg,
        &map(vec![("name", s("p")), ("hosts", s("h")), ("pre_tasks", t.copy()), ("post_tasks", t.copy())]),
    )
    .unwrap();
    assert_eq!(play.name(), "p");
    assert_eq!(
        play.steps(),
        vec![PlayStep::PreTasks, PlayStep::Flush, PlayStep::Flush, PlayStep::PostTasks, PlayStep::Flush]
    );
}

#[test]
fn play_errors() {
    let reg = known_tasks();
    assert_eq!(Play::parse(&reg, &map(vec![("name", s("p"))])), Err(PlayError::MissingHosts));
    let bad_task = Yaml::Sequence(vec![map(vec![("name", s("only"))])]);
    assert_eq!(
        Play::parse(&reg, &map(vec![("hosts", s("h")), ("tasks", bad_task)])),
        Err(PlayError::Task(ParseError::MissingTaskDetails))
    );
}

#[test]
fn round_trip_keeps_module_and_args() {
    let reg = known_tasks();
    let given = map(vec![
        ("name", s("t")),
        ("notify", Yaml::Sequence(vec![s("h")])),
        ("when", s("x")),
        ("become", Yaml::Bool(true)),
        ("become_user", s("u")),
        ("delegate_to", s("d")),
        ("register", s("r")),
        ("vars", map(vec![("k", s("v"))])),
        ("copy", map(vec![("content", s("c")), ("dest", s("/d"))])),
    ]);
    let t = TaskDescription::parse(&reg, &given).unwrap();
    let again = TaskDescription::parse(&reg, &t.to_yaml()).unwrap();
    assert_eq!(again.task_id, t.task_id);
    assert_eq!(again.args, t.args);
    assert_eq!(again, t);
    let plain = TaskDescription::parse(&reg, &map(vec![("ansible.builtin.meta", s("noop"))])).unwrap();
    let again = TaskDescription::parse(&reg, &plain.to_yaml()).unwrap();
    assert_eq!(again.task_id, TaskId::Task("ansible.builtin.meta".to_string()));
    assert_eq!(again.args, s("noop"));
}

#[test]
fn playbook_is_a_sequence_of_plays() {
    let reg = known_tasks();
    let book = Yaml::Sequence(vec![
        map(vec![("hosts", s("a"))]),
        map(vec![("hosts", s("b")), ("remote_user", s("u"))]),
    ]);
    let plays = kerosene::play::parse_playbook(&reg, &book).unwrap();
    assert_eq!(plays.len(), 2);
    assert_eq!(plays[1].remote_user, Some("u".to_string()));
    assert!(kerosene::play::parse_playbook(&reg, &Yaml::Null).unwrap().is_empty());
    assert_eq!(kerosene::play::parse_playbook(&reg, &s("x")), Err(PlayError::NotAMapping));
}
