use kerosene::context::{Flush, FlushError, TaskContextInner};
use kerosene::description::{HandlerDescription, TaskDescription};
use kerosene::registry::known_tasks;
use kerosene::yaml::Yaml;

fn s(v: &str) -> Yaml {
    Yaml::String(v.to_string())
}

fn map(entries: Vec<(&str, Yaml)>) -> Yaml {
    Yaml::Mapping(entries.into_iter().map(|(k, v)| (s(k), v)).collect())
}

fn fact<'a>(ctx: &'a TaskContextInner, key: &str) -> Option<&'a Yaml> {
    ctx.facts.iter().rev().find(|(k, _)| k == key).map(|(_, v)| v)
}

fn handler(entries: Vec<(&str, Yaml)>) -> HandlerDescription {
    HandlerDescription::parse(&known_tasks(), &map(entries)).unwrap()
}

#[test]
fn set_fact_overwrites() {
    let mut ctx = TaskContextInner::new("/p".to_string());
    ctx.set_fact(&"a".to_string(), &s("1"));
    ctx.set_fact(&"a".to_string(), &s("2"));
    assert_eq!(fact(&ctx, "a"), Some(&s("2")));
    assert_eq!(ctx.facts.len(), 1);
}

#[test]
fn role_defaults_never_overwrite() {
    let mut ctx = TaskContextInner::new("/p".to_string());
    ctx.set_fact(&"port".to_string(), &s("8080"));
    ctx.load_defaults(&vec![("port".to_string(), s("80")), ("user".to_string(), s("www"))]);
    assert_eq!(fact(&ctx, "port"), Some(&s("8080")));
    assert_eq!(fact(&ctx, "user"), Some(&s("www")));
    ctx.set_facts(&vec![("port".to_string(), s("9090"))]);
    assert_eq!(fact(&ctx, "port"), Some(&s("9090")));
}

#[test]
fn set_fact_twice_is_unchanged() {
    let mut ctx = TaskContextInner::new("/p".to_string());
    let facts = vec![("a".to_string(), s("1")), ("b".to_string(), Yaml::Bool(true))];
    ctx.set_facts(&facts);
    let once: Vec<(String, Yaml)> = ctx.facts.iter().map(|(k, v)| (k.clone(), v.copy())).collect();
    ctx.set_facts(&facts);
    assert_eq!(ctx.facts, once);
}

#[test]
fn handlers_are_known_by_all_names() {
    let mut ctx = TaskContextInner::new("/p".to_string());
    let h = handler(vec![("name", s("restart web")), ("listen", s("web changed")), ("shell", map(vec![("cmd", s("x"))]))]);
    ctx.register_handlers(&vec![h], &Some("web".to_string()));
    for name in ["restart web", "web : restart web", "web changed"] {
        assert!(ctx.known_handler(name).is_some(), "{name}");
    }
    assert!(ctx.known_handler("restart").is_none());
}

#[test]
fn notify_then_flush_runs_handler_once() {
    let reg = known_tasks();
    let mut ctx = TaskContextInner::new("/p".to_string());
    let h = handler(vec![("listen", s("H")), ("shell", map(vec![("cmd", s("echo ok"))]))]);
    ctx.register_handlers(&vec![h], &None);
    let task = TaskDescription::parse(
        &reg,
        &map(vec![("shell", map(vec![("cmd", s("true"))])), ("notify", Yaml::Sequence(vec![s("H")]))]),
    )
    .unwrap();
    ctx.begin_task(&task);
    ctx.finish_task(&task);
    assert_eq!(ctx.pending_handlers, vec!["H".to_string()]);
    let mut flush = Flush::start(&ctx);
    let first = flush.next_handler(&ctx).unwrap().unwrap();
    assert_eq!(first.args, map(vec![("cmd", s("echo ok"))]));
    assert_eq!(flush.next_handler(&ctx).unwrap(), None);
    ctx.clear_pending();
    assert!(ctx.pending_handlers.is_empty());
}

#[test]
fn unknown_handler_fails_the_flush() {
    let reg = known_tasks();
    let mut ctx = TaskContextInner::new("/p".to_string());
    let task = TaskDescription::parse(
        &reg,
        &map(vec![("shell", map(vec![("cmd", s("true"))])), ("notify", Yaml::Sequence(vec![s("does-not-exist")]))]),
    )
    .unwrap();
    ctx.finish_task(&task);
    let mut flush = Flush::start(&ctx);
    assert_eq!(
        flush.next_handler(&ctx),
        Err(FlushError::UnknownHandler("does-not-exist".to_string()))
    );
}

#[test]
fn no_notify_leaves_queue_empty() {
    let reg = known_tasks();
    let mut ctx = TaskContextInner::new("/p".to_string());
    for cmd in ["a", "b", "c"] {
        let task = TaskDescription::parse(&reg, &map(vec![("shell", map(vec![("cmd", s(cmd))]))])).unwrap();
        ctx.begin_task(&task);
        ctx.finish_task(&task);
    }
    assert!(ctx.pending_handlers.is_empty());
    let mut flush = Flush::start(&ctx);
    assert_eq!(flush.next_handler(&ctx).unwrap(), None);
}

#[test]
fn become_sets_user() {
    let reg = known_tasks();
    let mut ctx = TaskContextInner::new("/p".to_string());
    let task = TaskDescription::parse(
        &reg,
        &map(vec![("shell", map(vec![("cmd", s("id"))])), ("become", Yaml::Bool(true))]),
    )
    .unwrap();
    ctx.begin_task(&task);
    assert_eq!(ctx.do_become_user, Some("root".to_string()));
    let task = TaskDescription::parse(
        &reg,
        &map(vec![("shell", map(vec![("cmd", s("id"))])), ("become", Yaml::Bool(true)), ("become_user", s("pg"))]),
    )
    .unwrap();
    ctx.begin_task(&task);
    assert_eq!(ctx.do_become_user, Some("pg".to_string()));
    let task = TaskDescription::parse(&reg, &map(vec![("shell", map(vec![("cmd", s("id"))]))])).unwrap();
    ctx.begin_task(&task);
    assert_eq!(ctx.do_become_user, None);
}

#[test]
fn handler_notified_twice_runs_once() {
    let reg = known_tasks();
    let mut ctx = TaskContextInner::new("/p".to_string());
    let h = handler(vec![("name", s("H")), ("shell", map(vec![("cmd", s("echo ok"))]))]);
    ctx.register_handlers(&vec![h], &None);
    for _ in 0..2 {
        let task = TaskDescription::parse(
            &reg,
            &map(vec![("shell", map(vec![("cmd", s("true"))])), ("notify", Yaml::Sequence(vec![s("H")]))]),
        )
        .unwrap();
        ctx.finish_task(&task);
    }
    assert_eq!(ctx.pending_handlers.len(), 2);
    let mut flush = Flush::start(&ctx);
    assert!(flush.next_handler(&ctx).unwrap().is_some());
    assert_eq!(flush.next_handler(&ctx).unwrap(), None);
}
