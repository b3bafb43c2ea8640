use vstd::prelude::*;

use crate::assoc::{find_last, lemma_lookup, lemma_push, lemma_update_last, to_map};
use crate::command::{
    extend_strings, prepared, strings_view, CommandTarget, PreparedCommand,
    TargetView, elevation_ok,
};
use crate::description::{HandlerDescription, HandlerView, TaskDescription};
use crate::yaml::{Yaml, YamlValue};

verus! {

/// What a command reads on its standard input.
#[derive(Debug, PartialEq)]
pub enum StdinSource {
    /// This text.
    Text(String),
    /// The contents of the local file at this path.
    File(String),
}

/// A command to run in a task's context.
#[derive(Debug, PartialEq)]
pub struct RunCommandOpts {
    pub command: Vec<String>,
    pub working_directory: Option<String>,
    pub stdin: Option<StdinSource>,
}

/// A command line ready to be spawned.
#[derive(Debug, PartialEq)]
pub struct CommandLine {
    pub program: String,
    pub args: Vec<String>,
    /// The directory the local child starts in.
    pub current_dir: Option<String>,
}

/// The shared state of one play.
#[derive(Debug)]
pub struct TaskContextInner {
    pub play_basedir: String,
    pub resource_dirs: Vec<String>,
    pub facts: Vec<(String, Yaml)>,
    pub command_target: CommandTarget,
    pub do_become_user: Option<String>,
    pub pending_handlers: Vec<String>,
    pub known_handlers: Vec<(String, HandlerDescription)>,
}

pub open spec fn facts_view(v: Vec<(String, Yaml)>) -> Seq<(Seq<char>, YamlValue)> {
    v@.map_values(|e: (String, Yaml)| (e.0@, e.1@))
}

pub open spec fn handlers_view(v: Vec<(String, HandlerDescription)>) -> Seq<(Seq<char>, HandlerView)> {
    v@.map_values(|e: (String, HandlerDescription)| (e.0@, e.1@))
}

/// `facts` after role defaults `d`: a default only fills a missing fact.
pub open spec fn with_defaults(facts: Map<Seq<char>, YamlValue>, d: Seq<(Seq<char>, YamlValue)>) -> Map<
    Seq<char>,
    YamlValue,
>
    decreases d.len(),
{
    if d.len() == 0 {
        facts
    } else {
        let m = with_defaults(facts, d.drop_last());
        if m.contains_key(d.last().0) {
            m
        } else {
            m.insert(d.last().0, d.last().1)
        }
    }
}

/// The names a handler is known by: `"<role> : <name>"` and `<name>`, then
/// its `listen` value.
pub open spec fn handler_names(h: HandlerView, role: Option<Seq<char>>) -> Seq<Seq<char>> {
    let named = match h.name {
        Some(n) => match role {
            Some(r) => seq![r + " : "@ + n, n],
            None => seq![n],
        },
        None => Seq::empty(),
    };
    match h.listen {
        Some(l) => named.push(l),
        None => named,
    }
}

/// `known` with `h` registered under each of `names`.
pub open spec fn register_names(
    known: Map<Seq<char>, HandlerView>,
    names: Seq<Seq<char>>,
    h: HandlerView,
) -> Map<Seq<char>, HandlerView>
    decreases names.len(),
{
    if names.len() == 0 {
        known
    } else {
        register_names(known, names.drop_last(), h).insert(names.last(), h)
    }
}

/// `known` with every handler of `hs` registered.
pub open spec fn register_all(
    known: Map<Seq<char>, HandlerView>,
    hs: Seq<HandlerView>,
    role: Option<Seq<char>>,
) -> Map<Seq<char>, HandlerView>
    decreases hs.len(),
{
    if hs.len() == 0 {
        known
    } else {
        let m = register_all(known, hs.drop_last(), role);
        register_names(m, handler_names(hs.last(), role), hs.last())
    }
}

/// The target with the privilege-escalation prefix for `user`, if any.
pub open spec fn become_target(t: TargetView, user: Option<Seq<char>>) -> TargetView {
    match user {
        Some(u) => t.with_elevate(Some(seq!["sudo"@, "--user="@ + u, "--"@])),
        None => t,
    }
}

/// The user a task runs as: `become_user`, or root, when `become` is set.
pub open spec fn task_become_user(use_become: bool, become_user: Option<Seq<char>>) -> Option<
    Seq<char>,
> {
    if use_become {
        match become_user {
            Some(u) => Some(u),
            None => Some("root"@),
        }
    } else {
        None
    }
}

impl TaskContextInner {
    pub open spec fn facts_map(&self) -> Map<Seq<char>, YamlValue> {
        to_map(facts_view(self.facts))
    }

    pub open spec fn known_map(&self) -> Map<Seq<char>, HandlerView> {
        to_map(handlers_view(self.known_handlers))
    }

    pub open spec fn pending(&self) -> Seq<Seq<char>> {
        strings_view(self.pending_handlers)
    }

    pub open spec fn become_user_view(&self) -> Option<Seq<char>> {
        match self.do_become_user {
            Some(u) => Some(u@),
            None => None,
        }
    }

    pub fn new(play_basedir: String) -> (r: TaskContextInner)
        ensures
            r.play_basedir == play_basedir,
            r.resource_dirs@.len() == 0,
            r.facts_map() == Map::<Seq<char>, YamlValue>::empty(),
            r.known_map() == Map::<Seq<char>, HandlerView>::empty(),
            r.pending() == Seq::<Seq<char>>::empty(),
            r.command_target@ == (TargetView::Local { elevate: None, dry: false }),
            r.do_become_user is None,
    {
        let r = TaskContextInner {
            play_basedir,
            resource_dirs: Vec::new(),
            facts: Vec::new(),
            command_target: CommandTarget::default(),
            do_become_user: None,
            pending_handlers: Vec::new(),
            known_handlers: Vec::new(),
        };
        assert(facts_view(r.facts) =~= Seq::empty());
        assert(handlers_view(r.known_handlers) =~= Seq::empty());
        assert(r.pending() =~= Seq::empty());
        r
    }

    /// Stores a fact, replacing any earlier value.
    pub fn set_fact(&mut self, key: &String, value: &Yaml)
        ensures
            final(self).facts_map() == old(self).facts_map().insert(key@, value@),
            final(self).known_map() == old(self).known_map(),
            final(self).pending() == old(self).pending(),
            final(self).command_target == old(self).command_target,
            final(self).do_become_user == old(self).do_become_user,
            final(self).resource_dirs == old(self).resource_dirs,
            final(self).play_basedir == old(self).play_basedir,
    {
        let ghost before = facts_view(self.facts);
        match find_last(&self.facts, key.as_str()) {
            Some(i) => {
                self.facts.set(i, (key.clone(), value.copy()));
                proof {
                    assert(facts_view(self.facts) =~= before.update(i as int, (key@, value@)));
                    lemma_update_last(before, key@, value@, i as int);
                }
            },
            None => {
                self.facts.push((key.clone(), value.copy()));
                proof {
                    assert(facts_view(self.facts) =~= before.push((key@, value@)));
                    lemma_push(before, key@, value@);
                }
            },
        }
    }

    /// Stores every fact of `facts`, replacing earlier values.
    pub fn set_facts(&mut self, facts: &Vec<(String, Yaml)>)
        ensures
            final(self).facts_map() == old(self).facts_map().union_prefer_right(
                to_map(facts_view(*facts)),
            ),
            final(self).known_map() == old(self).known_map(),
            final(self).pending() == old(self).pending(),
            final(self).command_target == old(self).command_target,
            final(self).do_become_user == old(self).do_become_user,
            final(self).resource_dirs == old(self).resource_dirs,
            final(self).play_basedir == old(self).play_basedir,
    {
        let mut i: usize = 0;
        while i < facts.len()
            invariant
                i <= facts.len(),
                self.facts_map() == old(self).facts_map().union_prefer_right(
                    to_map(facts_view(*facts).take(i as int)),
                ),
                self.known_map() == old(self).known_map(),
                self.pending() == old(self).pending(),
                self.command_target == old(self).command_target,
                self.do_become_user == old(self).do_become_user,
                self.resource_dirs == old(self).resource_dirs,
                self.play_basedir == old(self).play_basedir,
            decreases facts.len() - i,
        {
            self.set_fact(&facts[i].0, &facts[i].1);
            proof {
                let f = facts_view(*facts);
                assert(f.take(i + 1).drop_last() =~= f.take(i as int));
                assert(self.facts_map() =~= old(self).facts_map().union_prefer_right(
                    to_map(f.take(i + 1)),
                ));
            }
            i = i + 1;
        }
        assert(facts_view(*facts).take(i as int) =~= facts_view(*facts));
    }

    /// Stores a fact unless one of that name is already present.
    pub fn insert_default_fact(&mut self, key: &String, value: &Yaml)
        ensures
            final(self).facts_map() == (if old(self).facts_map().contains_key(key@) {
                old(self).facts_map()
            } else {
                old(self).facts_map().insert(key@, value@)
            }),
            final(self).known_map() == old(self).known_map(),
            final(self).pending() == old(self).pending(),
    {
        let ghost before = facts_view(self.facts);
        match find_last(&self.facts, key.as_str()) {
            Some(i) => {
                proof {
                    lemma_lookup(before, key@, i as int);
                }
            },
            None => {
                proof {
                    lemma_lookup(before, key@, -1);
                }
                self.facts.push((key.clone(), value.copy()));
                proof {
                    assert(facts_view(self.facts) =~= before.push((key@, value@)));
                    lemma_push(before, key@, value@);
                }
            },
        }
    }

    /// Seeds facts from role defaults: a default never replaces a fact that
    /// is already present.
    pub fn load_defaults(&mut self, defaults: &Vec<(String, Yaml)>)
        ensures
            final(self).facts_map() == with_defaults(old(self).facts_map(), facts_view(*defaults)),
            final(self).known_map() == old(self).known_map(),
            final(self).pending() == old(self).pending(),
    {
        let mut i: usize = 0;
        while i < defaults.len()
            invariant
                i <= defaults.len(),
                self.facts_map() == with_defaults(
                    old(self).facts_map(),
                    facts_view(*defaults).take(i as int),
                ),
                self.known_map() == old(self).known_map(),
                self.pending() == old(self).pending(),
            decreases defaults.len() - i,
        {
            self.insert_default_fact(&defaults[i].0, &defaults[i].1);
            proof {
                let d = facts_view(*defaults);
                assert(d.take(i + 1).drop_last() =~= d.take(i as int));
            }
            i = i + 1;
        }
        assert(facts_view(*defaults).take(i as int) =~= facts_view(*defaults));
    }

    fn register_handler_name(&mut self, name: String, handler: &HandlerDescription)
        ensures
            final(self).known_map() == old(self).known_map().insert(name@, handler@),
            final(self).facts_map() == old(self).facts_map(),
            final(self).pending() == old(self).pending(),
    {
        let ghost before = handlers_view(self.known_handlers);
        let ghost k = name@;
        match find_last(&self.known_handlers, name.as_str()) {
            Some(i) => {
                self.known_handlers.set(i, (name, handler.copy()));
                proof {
                    assert(handlers_view(self.known_handlers) =~= before.update(i as int, (k, handler@)));
                    lemma_update_last(before, k, handler@, i as int);
                }
            },
            None => {
                self.known_handlers.push((name, handler.copy()));
                proof {
                    assert(handlers_view(self.known_handlers) =~= before.push((k, handler@)));
                    lemma_push(before, k, handler@);
                }
            },
        }
    }

    /// Makes each handler reachable by its name, by `"<role> : <name>"`
    /// inside a role, and by its `listen` value.
    pub fn register_handlers(&mut self, handlers: &Vec<HandlerDescription>, role: &Option<String>)
        ensures
            final(self).known_map() == register_all(
                old(self).known_map(),
                handlers@.map_values(|h: HandlerDescription| h@),
                match role {
                    Some(r) => Some(r@),
                    None => None,
                },
            ),
            final(self).facts_map() == old(self).facts_map(),
            final(self).pending() == old(self).pending(),
    {
        let ghost rv = match role {
            Some(r) => Some(r@),
            None => None,
        };
        let ghost hs = handlers@.map_values(|h: HandlerDescription| h@);
        let mut i: usize = 0;
        while i < handlers.len()
            invariant
                i <= handlers.len(),
                hs == handlers@.map_values(|h: HandlerDescription| h@),
                rv == (match role {
                    Some(r) => Some(r@),
                    None => None,
                }),
                self.known_map() == register_all(old(self).known_map(), hs.take(i as int), rv),
                self.facts_map() == old(self).facts_map(),
                self.pending() == old(self).pending(),
            decreases handlers.len() - i,
        {
            let handler = &handlers[i];
            let ghost start = self.known_map();
            let ghost names = handler_names(handler@, rv);
            match &handler.name {
                Some(name) => {
                    match role {
                        Some(r) => {
                            let mut full = r.clone();
                            full.append(" : ");
                            full.append(name.as_str());
                            self.register_handler_name(full, handler);
                        },
                        None => {},
                    }
                    self.register_handler_name(name.clone(), handler);
                },
                None => {},
            }
            match &handler.listen {
                Some(l) => {
                    self.register_handler_name(l.clone(), handler);
                },
                None => {},
            }
            proof {
                assert(hs.take(i + 1).drop_last() =~= hs.take(i as int));
                assert(hs[i as int] == handler@);
                let named = match handler@.name {
                    Some(n) => match rv {
                        Some(r) => seq![r + " : "@ + n, n],
                        None => seq![n],
                    },
                    None => Seq::empty(),
                };
                let h = handler@;
                assert(register_names(start, Seq::empty(), h) == start);
                if named.len() == 2 {
                    assert(seq![named[0]].drop_last() =~= Seq::empty());
                    assert(named.drop_last().drop_last() =~= Seq::empty());
                    assert(named.drop_last() =~= seq![named[0]]);
                    assert(register_names(start, seq![named[0]], h) == start.insert(named[0], h));
                    assert(register_names(start, named, h) == start.insert(named[0], h).insert(
                        named[1],
                        h,
                    ));
                } else if named.len() == 1 {
                    assert(named.drop_last() =~= Seq::empty());
                    assert(named.last() == named[0]);
                    assert(register_names(start, named, h) == start.insert(named[0], h));
                } else {
                    assert(named.len() == 0);
                }
                if handler@.listen is Some {
                    assert(names.drop_last() =~= named);
                    assert(register_names(start, names, h) == register_names(start, named, h).insert(
                        names.last(),
                        h,
                    ));
                } else {
                    assert(names =~= named);
                }
                assert(hs.take(i + 1).last() == h);
                assert(register_all(old(self).known_map(), hs.take(i + 1), rv) == register_names(
                    start,
                    names,
                    h,
                ));
                assert(self.known_map() =~= register_names(start, names, h));
            }
            i = i + 1;
        }
        assert(hs.take(i as int) =~= hs);
    }

    /// Queues the handlers a task notifies, in order.
    pub fn notify(&mut self, names: &Vec<String>)
        ensures
            final(self).pending() == old(self).pending() + strings_view(*names),
            final(self).facts_map() == old(self).facts_map(),
            final(self).known_map() == old(self).known_map(),
    {
        extend_strings(&mut self.pending_handlers, names, 0);
        assert(strings_view(*names).subrange(0, names.len() as int) =~= strings_view(*names));
    }

    /// Adds a role's directory to the file search, ahead of those added
    /// before it.
    pub fn add_resource_dir(&mut self, dir: String)
        ensures
            strings_view(final(self).resource_dirs) == seq![dir@] + strings_view(
                old(self).resource_dirs,
            ),
            final(self).facts_map() == old(self).facts_map(),
            final(self).known_map() == old(self).known_map(),
            final(self).pending() == old(self).pending(),
    {
        let ghost d = dir@;
        self.resource_dirs.insert(0, dir);
        assert(strings_view(self.resource_dirs) =~= seq![d] + strings_view(
            old(self).resource_dirs,
        ));
    }

    /// Queues what a finished task notifies.
    pub fn finish_task(&mut self, task: &TaskDescription)
        ensures
            final(self).pending() == old(self).pending() + task@.notify,
            final(self).facts_map() == old(self).facts_map(),
            final(self).known_map() == old(self).known_map(),
    {
        self.notify(&task.notify);
    }

    /// Sets the user the next task runs as, from its `become` attributes.
    pub fn begin_task(&mut self, task: &TaskDescription)
        ensures
            final(self).become_user_view() == task_become_user(
                task@.use_become,
                task@.become_user,
            ),
            final(self).facts_map() == old(self).facts_map(),
            final(self).known_map() == old(self).known_map(),
            final(self).pending() == old(self).pending(),
    {
        self.do_become_user = if task.use_become {
            match &task.become_user {
                Some(u) => Some(u.clone()),
                None => Some("root".to_owned()),
            }
        } else {
            None
        };
    }

    /// The handler registered under `name`.
    pub fn known_handler(&self, name: &str) -> (r: Option<&HandlerDescription>)
        ensures
            r matches Some(h) ==> self.known_map().contains_key(name@) && self.known_map()[name@]
                == h@,
            r is None ==> !self.known_map().contains_key(name@),
    {
        match find_last(&self.known_handlers, name) {
            Some(i) => {
                proof {
                    lemma_lookup(handlers_view(self.known_handlers), name@, i as int);
                }
                Some(&self.known_handlers[i].1)
            },
            None => {
                proof {
                    lemma_lookup(handlers_view(self.known_handlers), name@, -1);
                }
                None
            },
        }
    }

    /// Empties the queue of pending handlers.
    pub fn clear_pending(&mut self)
        ensures
            final(self).pending() == Seq::<Seq<char>>::empty(),
            final(self).facts_map() == old(self).facts_map(),
            final(self).known_map() == old(self).known_map(),
    {
        self.pending_handlers = Vec::new();
        assert(self.pending() =~= Seq::empty());
    }

    /// The target commands run on, with the escalation prefix of the
    /// current task's user.
    pub fn effective_target(&self) -> (r: CommandTarget)
        ensures
            r@ == become_target(self.command_target@, self.become_user_view()),
    {
        match &self.do_become_user {
            Some(u) => {
                let mut flag = "--user=".to_owned();
                flag.append(u.as_str());
                let e = vec!["sudo".to_owned(), flag, "--".to_owned()];
                assert(strings_view(e) =~= seq!["sudo"@, "--user="@ + u@, "--"@]);
                self.command_target.with_elevate(Some(e))
            },
            None => self.command_target.copy(),
        }
    }

    /// The command line that runs `opts` in this context.
    pub fn prepare_command(&self, opts: &RunCommandOpts) -> (r: CommandLine)
        requires
            opts.command.len() > 0,
            elevation_ok(become_target(self.command_target@, self.become_user_view())),
        ensures
            ({
                let t = become_target(self.command_target@, self.become_user_view());
                let wd = match opts.working_directory {
                    Some(d) => Some(d@),
                    None => None,
                };
                let p = prepared(
                    t,
                    opts.command[0]@,
                    strings_view(opts.command).drop_first(),
                    wd,
                    false,
                );
                &&& r.program@ == p.0
                &&& strings_view(r.args) == p.1
                &&& r.current_dir == (if t is Local {
                    opts.working_directory
                } else {
                    None
                })
            }),
    {
        let target = self.effective_target();
        let mut cmd = PreparedCommand::new(&target, opts.command[0].as_str());
        cmd.chdir(opts.working_directory.clone());
        let mut rest: Vec<String> = Vec::new();
        extend_strings(&mut rest, &opts.command, 1);
        cmd.args(&rest);
        proof {
            let c = strings_view(opts.command);
            assert(c.drop_first() =~= c.subrange(1, opts.command.len() as int));
            assert(strings_view(rest) =~= c.drop_first());
            assert(cmd.args_view() =~= c.drop_first());
        }
        let (program, args) = cmd.prepare();
        let current_dir = match &target {
            CommandTarget::Local { .. } => opts.working_directory.clone(),
            CommandTarget::Remote { .. } => None,
        };
        CommandLine { program, args, current_dir }
    }
}

/// `names` with each repeated name dropped, first occurrences kept in order.
pub open spec fn distinct_names(names: Seq<Seq<char>>) -> Seq<Seq<char>>
    decreases names.len(),
{
    if names.len() == 0 {
        Seq::empty()
    } else {
        let d = distinct_names(names.drop_last());
        if d.contains(names.last()) {
            d
        } else {
            d.push(names.last())
        }
    }
}

fn contains_name(names: &Vec<String>, name: &String) -> (r: bool)
    ensures
        r == strings_view(*names).contains(name@),
{
    let mut i: usize = 0;
    while i < names.len()
        invariant
            i <= names.len(),
            forall|j: int| 0 <= j < i ==> (#[trigger] names[j])@ != name@,
        decreases names.len() - i,
    {
        if names[i] == *name {
            assert(strings_view(*names)[i as int] == name@);
            return true;
        }
        i = i + 1;
    }
    assert(!strings_view(*names).contains(name@)) by {
        if strings_view(*names).contains(name@) {
            let j = choose|j: int| 0 <= j < names.len() && strings_view(*names)[j] == name@;
            assert(names[j]@ == name@);
        }
    }
    false
}

/// Why flushing the handler queue stopped.
#[derive(Debug, PartialEq)]
pub enum FlushError {
    /// A queued name belongs to no known handler.
    UnknownHandler(String),
}

/// A flush in progress: the queue as it stood when the flush began, and how
/// much of it has been handed out.
pub struct Flush {
    queue: Vec<String>,
    next: usize,
}

impl Flush {
    pub closed spec fn queue(&self) -> Seq<Seq<char>> {
        strings_view(self.queue)
    }

    pub closed spec fn position(&self) -> int {
        self.next as int
    }

    pub open spec fn wf(&self) -> bool {
        0 <= self.position() <= self.queue().len()
    }

    /// Takes a snapshot of the pending handlers; a handler notified more
    /// than once is queued once.
    pub fn start(ctx: &TaskContextInner) -> (r: Flush)
        ensures
            r.wf(),
            r.queue() == distinct_names(ctx.pending()),
            r.position() == 0,
    {
        let pending = &ctx.pending_handlers;
        let ghost all = ctx.pending();
        let mut queue: Vec<String> = Vec::new();
        let mut i: usize = 0;
        assert(all.take(0) =~= Seq::<Seq<char>>::empty());
        assert(strings_view(queue) =~= Seq::<Seq<char>>::empty());
        while i < pending.len()
            invariant
                i <= pending.len(),
                all == strings_view(*pending),
                strings_view(queue) == distinct_names(all.take(i as int)),
            decreases pending.len() - i,
        {
            assert(all.take(i + 1).drop_last() =~= all.take(i as int));
            assert(all.take(i + 1).last() == pending[i as int]@);
            if !contains_name(&queue, &pending[i]) {
                let ghost before = strings_view(queue);
                queue.push(pending[i].clone());
                assert(strings_view(queue) =~= before.push(pending[i as int]@));
            }
            i = i + 1;
        }
        assert(all.take(i as int) =~= all);
        Flush { queue, next: 0 }
    }

    /// The next handler to run, looked up in `ctx` when its turn comes; an
    /// unknown name ends the flush with an error. Each call takes one step of
    /// [`drain`] over the snapshot.
    pub fn next_handler(&mut self, ctx: &TaskContextInner) -> (r: Result<
        Option<HandlerDescription>,
        FlushError,
    >)
        requires
            old(self).wf(),
        ensures
            final(self).wf(),
            final(self).queue() == old(self).queue(),
            old(self).position() == old(self).queue().len() ==> (r matches Ok(None)),
            old(self).position() == old(self).queue().len() ==> final(self).position() == old(
                self,
            ).position(),
            old(self).position() < old(self).queue().len() ==> {
                let name = old(self).queue()[old(self).position()];
                &&& final(self).position() == old(self).position() + 1
                &&& (r matches Ok(Some(h)) <==> ctx.known_map().contains_key(name))
                &&& r matches Ok(Some(h)) ==> h@ == ctx.known_map()[name]
                &&& r matches Err(FlushError::UnknownHandler(n)) ==> n@ == name
                &&& r is Err <==> !ctx.known_map().contains_key(name)
            },
            old(self).position() < old(self).queue().len() ==> {
                let before = drain(old(self).queue().take(old(self).position()), ctx.known_map());
                let after = drain(old(self).queue().take(old(self).position() + 1), ctx.known_map());
                &&& (before is Ok && r is Ok && r->Ok_0 is Some) ==> after == Ok::<
                    Seq<HandlerView>,
                    Seq<char>,
                >(before->Ok_0.push(r->Ok_0->0@))
                &&& (before is Ok && r is Err) ==> after == Err::<Seq<HandlerView>, Seq<char>>(
                    old(self).queue()[old(self).position()],
                )
            },
    {
        proof {
            if self.position() < self.queue().len() {
                let q = self.queue();
                let p = self.position();
                assert(q.take(p + 1).drop_last() =~= q.take(p));
                assert(q.take(p + 1).last() == q[p]);
            }
        }
        if self.next >= self.queue.len() {
            return Ok(None);
        }
        let name = self.queue[self.next].clone();
        assert(name@ == self.queue()[self.position()]);
        self.next = self.next + 1;
        match ctx.known_handler(name.as_str()) {
            Some(h) => Ok(Some(h.copy())),
            None => Err(FlushError::UnknownHandler(name)),
        }
    }
}

/// Role defaults never replace a fact that is already present, while facts
/// set by `set_fact` always replace earlier values.
pub proof fn lemma_defaults_keep_set_fact_replaces(
    facts: Map<Seq<char>, YamlValue>,
    defaults: Seq<(Seq<char>, YamlValue)>,
    set: Seq<(Seq<char>, YamlValue)>,
)
    ensures
        forall|k: Seq<char>|
            #![trigger facts.contains_key(k)]
            facts.contains_key(k) ==> with_defaults(facts, defaults).contains_key(k)
                && with_defaults(facts, defaults)[k] == facts[k],
        forall|k: Seq<char>|
            #![trigger to_map(set).contains_key(k)]
            to_map(set).contains_key(k) ==> facts.union_prefer_right(to_map(set)).contains_key(k)
                && facts.union_prefer_right(to_map(set))[k] == to_map(set)[k],
    decreases defaults.len(),
{
    if defaults.len() > 0 {
        lemma_defaults_keep_set_fact_replaces(facts, defaults.drop_last(), set);
    }
}

/// Setting the same facts a second time changes nothing.
pub proof fn lemma_set_facts_idempotent(
    facts: Map<Seq<char>, YamlValue>,
    set: Seq<(Seq<char>, YamlValue)>,
)
    ensures
        facts.union_prefer_right(to_map(set)).union_prefer_right(to_map(set))
            == facts.union_prefer_right(to_map(set)),
{
    assert(facts.union_prefer_right(to_map(set)).union_prefer_right(to_map(set))
        =~= facts.union_prefer_right(to_map(set)));
}

/// The handler names queued by running `tasks` in order.
pub open spec fn queued(tasks: Seq<Seq<Seq<char>>>) -> Seq<Seq<char>>
    decreases tasks.len(),
{
    if tasks.len() == 0 {
        Seq::empty()
    } else {
        queued(tasks.drop_last()) + tasks.last()
    }
}

/// Tasks that notify nothing leave an empty handler queue empty: with no
/// `notify` anywhere, every flush finds nothing pending.
pub proof fn lemma_no_notify_no_pending(pending: Seq<Seq<char>>, notifies: Seq<Seq<Seq<char>>>)
    requires
        pending.len() == 0,
        forall|i: int| 0 <= i < notifies.len() ==> (#[trigger] notifies[i]).len() == 0,
    ensures
        pending + queued(notifies) == Seq::<Seq<char>>::empty(),
        distinct_names(pending + queued(notifies)) == Seq::<Seq<char>>::empty(),
    decreases notifies.len(),
{
    if notifies.len() > 0 {
        assert forall|i: int| 0 <= i < notifies.drop_last().len() implies (
        #[trigger] notifies.drop_last()[i]).len() == 0 by {
            assert(notifies.drop_last()[i] == notifies[i]);
        }
        lemma_no_notify_no_pending(pending, notifies.drop_last());
        assert(notifies.last() == notifies[notifies.len() - 1]);
    }
    assert(pending + queued(notifies) =~= Seq::<Seq<char>>::empty());
}

/// Facts after role defaults: a fact already present keeps its value; a
/// missing one that the defaults name takes a value the defaults give; no
/// other name appears.
pub proof fn lemma_defaults_fill_missing(
    facts: Map<Seq<char>, YamlValue>,
    defaults: Seq<(Seq<char>, YamlValue)>,
)
    ensures
        forall|k: Seq<char>|
            #![trigger with_defaults(facts, defaults).contains_key(k)]
            with_defaults(facts, defaults).contains_key(k) <==> (facts.contains_key(k) || exists|
                i: int,
            | 0 <= i < defaults.len() && (#[trigger] defaults[i]).0 == k),
        forall|k: Seq<char>|
            #![trigger with_defaults(facts, defaults).contains_key(k)]
            with_defaults(facts, defaults).contains_key(k) && !facts.contains_key(k) ==> exists|
                i: int,
            | 0 <= i < defaults.len() && #[trigger] defaults[i] == (
                k,
                with_defaults(facts, defaults)[k],
            ),
    decreases defaults.len(),
{
    if defaults.len() > 0 {
        let d = defaults.drop_last();
        lemma_defaults_fill_missing(facts, d);
        let m = with_defaults(facts, d);
        let last = defaults.last();
        assert(defaults[defaults.len() - 1] == last);
        assert forall|i: int| 0 <= i < d.len() implies #[trigger] d[i] == defaults[i] by {}
        assert forall|k: Seq<char>|
            #![trigger with_defaults(facts, defaults).contains_key(k)]
            with_defaults(facts, defaults).contains_key(k) <==> (facts.contains_key(k) || exists|
                i: int,
            | 0 <= i < defaults.len() && (#[trigger] defaults[i]).0 == k) by {
            if exists|i: int| 0 <= i < defaults.len() && (#[trigger] defaults[i]).0 == k {
                let i = choose|i: int| 0 <= i < defaults.len() && (#[trigger] defaults[i]).0 == k;
                if i < d.len() {
                    assert(d[i].0 == k);
                }
            }
        }
        assert forall|k: Seq<char>|
            #![trigger with_defaults(facts, defaults).contains_key(k)]
            with_defaults(facts, defaults).contains_key(k) && !facts.contains_key(k) implies exists|
                i: int,
            | 0 <= i < defaults.len() && #[trigger] defaults[i] == (
                k,
                with_defaults(facts, defaults)[k],
            ) by {
            if m.contains_key(k) {
                let i = choose|i: int|
                    0 <= i < d.len() && #[trigger] d[i] == (k, with_defaults(facts, d)[k]);
                assert(defaults[i] == d[i]);
            } else {
                assert(defaults[defaults.len() - 1] == (k, with_defaults(facts, defaults)[k]));
            }
        }
    }
}

/// What a whole flush resolves: the handlers of the queued names in order,
/// or the first queued name that no handler answers to.
pub open spec fn drain(queue: Seq<Seq<char>>, known: Map<Seq<char>, HandlerView>) -> Result<
    Seq<HandlerView>,
    Seq<char>,
>
    decreases queue.len(),
{
    if queue.len() == 0 {
        Ok(Seq::empty())
    } else {
        match drain(queue.drop_last(), known) {
            Err(n) => Err(n),
            Ok(hs) => if known.contains_key(queue.last()) {
                Ok(hs.push(known[queue.last()]))
            } else {
                Err(queue.last())
            },
        }
    }
}

/// A flush succeeds exactly when every queued name is a known handler; when
/// it fails, it names the first queued name that is not.
pub proof fn lemma_flush_fails_on_unknown(queue: Seq<Seq<char>>, known: Map<Seq<char>, HandlerView>)
    ensures
        drain(queue, known) is Ok <==> forall|i: int|
            0 <= i < queue.len() ==> known.contains_key(#[trigger] queue[i]),
        drain(queue, known) matches Err(n) ==> exists|j: int|
            0 <= j < queue.len() && #[trigger] queue[j] == n && !known.contains_key(n) && forall|
                i: int,
            | 0 <= i < j ==> known.contains_key(#[trigger] queue[i]),
        drain(queue, known) matches Ok(hs) ==> hs.len() == queue.len() && forall|i: int|
            0 <= i < queue.len() ==> #[trigger] hs[i] == known[queue[i]],
    decreases queue.len(),
{
    if queue.len() > 0 {
        let q = queue.drop_last();
        lemma_flush_fails_on_unknown(q, known);
        assert forall|i: int| 0 <= i < q.len() implies #[trigger] q[i] == queue[i] by {}
        assert(queue.last() == queue[queue.len() - 1]);
        if drain(q, known) is Ok && known.contains_key(queue.last()) {
            assert forall|i: int| 0 <= i < queue.len() implies known.contains_key(
                #[trigger] queue[i],
            ) by {
                if i < q.len() {
                    assert(known.contains_key(q[i]));
                }
            }
        }
        if drain(q, known) is Ok && !known.contains_key(queue.last()) {
            let j = queue.len() - 1;
            assert forall|i: int| 0 <= i < j implies known.contains_key(#[trigger] queue[i]) by {
                assert(q[i] == queue[i]);
                assert(known.contains_key(q[i]));
            }
            assert(queue[j] == queue.last());
        }
        if let Err(n) = drain(q, known) {
            let j = choose|j: int|
                0 <= j < q.len() && #[trigger] q[j] == n && !known.contains_key(n) && forall|
                    i: int,
                | 0 <= i < j ==> known.contains_key(#[trigger] q[i]);
            assert(queue[j] == n);
            assert forall|i: int| 0 <= i < j implies known.contains_key(#[trigger] queue[i]) by {
                assert(q[i] == queue[i]);
            }
        }
    }
}

/// One event of a play, as far as the handler queue is concerned: a task
/// that notifies these names, or a flush.
pub ghost enum QueueEvent {
    Task(Seq<Seq<char>>),
    Flush,
}

/// The handler queue after `events`: a task appends what it notifies; a
/// flush empties the queue.
pub open spec fn queue_after(events: Seq<QueueEvent>) -> Seq<Seq<char>>
    decreases events.len(),
{
    if events.len() == 0 {
        Seq::empty()
    } else {
        match events.last() {
            QueueEvent::Task(n) => queue_after(events.drop_last()) + n,
            QueueEvent::Flush => Seq::empty(),
        }
    }
}

/// With no `notify` anywhere in a play, the queue is empty at every point,
/// so every flush finds nothing to run.
pub proof fn lemma_no_notify_every_flush_empty(events: Seq<QueueEvent>)
    requires
        forall|i: int|
            0 <= i < events.len() ==> (#[trigger] events[i] matches QueueEvent::Task(n) ==> n.len()
                == 0),
    ensures
        forall|k: int|
            0 <= k <= events.len() ==> #[trigger] queue_after(events.take(k)) == Seq::<
                Seq<char>,
            >::empty(),
        forall|k: int|
            0 <= k <= events.len() ==> distinct_names(#[trigger] queue_after(events.take(k)))
                == Seq::<Seq<char>>::empty(),
    decreases events.len(),
{
    if events.len() > 0 {
        let e = events.drop_last();
        assert forall|i: int| 0 <= i < e.len() implies (#[trigger] e[i] matches QueueEvent::Task(
            n,
        ) ==> n.len() == 0) by {
            assert(e[i] == events[i]);
        }
        lemma_no_notify_every_flush_empty(e);
        assert forall|k: int| 0 <= k <= events.len() implies #[trigger] queue_after(events.take(k))
            == Seq::<Seq<char>>::empty() by {
            if k < events.len() {
                assert(events.take(k) =~= e.take(k));
                assert(queue_after(e.take(k)) == Seq::<Seq<char>>::empty());
            } else {
                assert(events.take(k) =~= events);
                assert(events.take(k).drop_last() =~= e.take(e.len() as int));
                assert(e.take(e.len() as int) =~= e);
                assert(events.last() == events[events.len() - 1]);
                assert(queue_after(e.take(e.len() as int)) == Seq::<Seq<char>>::empty());
                if let QueueEvent::Task(n) = events.last() {
                    assert(queue_after(events) =~= Seq::<Seq<char>>::empty());
                }
            }
        }
    } else {
        assert(events.take(0) =~= events);
    }
    assert forall|k: int| 0 <= k <= events.len() implies distinct_names(
        #[trigger] queue_after(events.take(k)),
    ) == Seq::<Seq<char>>::empty() by {
        assert(queue_after(events.take(k)) == Seq::<Seq<char>>::empty());
    }
}

} // verus!
