use vstd::prelude::*;

use crate::registry::{
    has_module, key_of, lemma_lookup_names_module, lemma_resolved_key, lemma_resolved_not_unknown,
    KnownTasks,
};
use crate::task_id::{TaskId, TaskIdView};
use crate::yaml::{bool_of, str_of, strings_of, string_map_of, Yaml, YamlValue};

verus! {

/// A generic attribute of a task or handler.
#[derive(Clone, Copy, Debug, PartialEq, Eq, Structural)]
pub enum Field {
    Name,
    DelegateTo,
    Become,
    BecomeUser,
    When,
    Listen,
    Notify,
    Register,
    Vars,
}

/// Why a task or handler description was rejected.
#[derive(Clone, Copy, Debug, PartialEq, Eq, Structural)]
pub enum ParseError {
    /// The description is not a mapping.
    NotAMapping,
    /// A key of the mapping is not a string.
    KeyNotString,
    /// An attribute has a value of the wrong type.
    Invalid(Field),
    /// An attribute occurs twice.
    Duplicate(Field),
    /// Two keys name a module.
    DuplicateTaskDetails,
    /// No key names a module.
    MissingTaskDetails,
    /// A handler has neither `name` nor `listen`.
    HandlerWithoutName,
}

/// A task of a play or role.
#[derive(Debug, PartialEq)]
pub struct TaskDescription {
    pub name: Option<String>,
    pub task_id: TaskId,
    pub args: Yaml,
    pub use_become: bool,
    pub become_user: Option<String>,
    pub delegate_to: Option<String>,
    pub when: Vec<String>,
    pub notify: Vec<String>,
    pub register: Option<String>,
    pub vars: Option<Vec<(String, Yaml)>>,
}

/// A handler: a task that runs when notified.
#[derive(Debug, PartialEq)]
pub struct HandlerDescription {
    pub name: Option<String>,
    pub task_id: TaskId,
    pub args: Yaml,
    pub use_become: bool,
    pub become_user: Option<String>,
    pub when: Vec<String>,
    pub listen: Option<String>,
    pub vars: Option<Vec<(String, Yaml)>>,
}

pub ghost struct TaskView {
    pub name: Option<Seq<char>>,
    pub task_id: TaskIdView,
    pub args: YamlValue,
    pub use_become: bool,
    pub become_user: Option<Seq<char>>,
    pub delegate_to: Option<Seq<char>>,
    pub when: Seq<Seq<char>>,
    pub notify: Seq<Seq<char>>,
    pub register: Option<Seq<char>>,
    pub vars: Option<Seq<(Seq<char>, YamlValue)>>,
}

pub ghost struct HandlerView {
    pub name: Option<Seq<char>>,
    pub task_id: TaskIdView,
    pub args: YamlValue,
    pub use_become: bool,
    pub become_user: Option<Seq<char>>,
    pub when: Seq<Seq<char>>,
    pub listen: Option<Seq<char>>,
    pub vars: Option<Seq<(Seq<char>, YamlValue)>>,
}

pub open spec fn opt_str(o: Option<String>) -> Option<Seq<char>> {
    match o {
        Some(s) => Some(s@),
        None => None,
    }
}

pub open spec fn strs(v: Vec<String>) -> Seq<Seq<char>> {
    v@.map_values(|s: String| s@)
}

pub open spec fn opt_vars(o: Option<Vec<(String, Yaml)>>) -> Option<Seq<(Seq<char>, YamlValue)>> {
    match o {
        Some(v) => Some(v@.map_values(|e: (String, Yaml)| (e.0@, e.1@))),
        None => None,
    }
}

impl View for TaskDescription {
    type V = TaskView;

    open spec fn view(&self) -> TaskView {
        TaskView {
            name: opt_str(self.name),
            task_id: self.task_id@,
            args: self.args@,
            use_become: self.use_become,
            become_user: opt_str(self.become_user),
            delegate_to: opt_str(self.delegate_to),
            when: strs(self.when),
            notify: strs(self.notify),
            register: opt_str(self.register),
            vars: opt_vars(self.vars),
        }
    }
}

impl View for HandlerDescription {
    type V = HandlerView;

    open spec fn view(&self) -> HandlerView {
        HandlerView {
            name: opt_str(self.name),
            task_id: self.task_id@,
            args: self.args@,
            use_become: self.use_become,
            become_user: opt_str(self.become_user),
            when: strs(self.when),
            listen: opt_str(self.listen),
            vars: opt_vars(self.vars),
        }
    }
}

/// The attributes seen so far while walking a description's entries.
pub ghost struct Seen {
    pub name: Option<Seq<char>>,
    pub module: Option<(TaskIdView, YamlValue)>,
    pub use_become: Option<bool>,
    pub become_user: Option<Seq<char>>,
    pub delegate_to: Option<Seq<char>>,
    pub when: Option<Seq<Seq<char>>>,
    pub notify: Option<Seq<Seq<char>>>,
    pub register: Option<Seq<char>>,
    pub vars: Option<Seq<(Seq<char>, YamlValue)>>,
    pub listen: Option<Seq<char>>,
}

pub open spec fn nothing_seen() -> Seen {
    Seen {
        name: None,
        module: None,
        use_become: None,
        become_user: None,
        delegate_to: None,
        when: None,
        notify: None,
        register: None,
        vars: None,
        listen: None,
    }
}

/// A mapping with string keys, where null stands for the empty mapping.
pub open spec fn string_table_of(v: YamlValue) -> Option<Seq<(Seq<char>, YamlValue)>> {
    if v is Null {
        Some(Seq::empty())
    } else {
        string_map_of(v)
    }
}

/// The `when` attribute: one condition, or a sequence of them.
pub open spec fn conditions_of(v: YamlValue) -> Option<Seq<Seq<char>>> {
    match v {
        YamlValue::Str(e) => Some(seq![e]),
        YamlValue::Sequence(_) => strings_of(v),
        _ => None,
    }
}

/// A string attribute: rejected when it occurs twice or is not a string.
pub open spec fn string_attr(prev: Option<Seq<char>>, f: Field, v: YamlValue) -> Result<
    Seq<char>,
    ParseError,
> {
    if prev is Some {
        Err(ParseError::Duplicate(f))
    } else {
        match str_of(v) {
            Some(s) => Ok(s),
            None => Err(ParseError::Invalid(f)),
        }
    }
}

/// One entry of a description's mapping, applied to what was seen before it.
pub open spec fn parse_step(
    reg: KnownTasks,
    handler: bool,
    st: Seen,
    key: YamlValue,
    value: YamlValue,
) -> Result<Seen, ParseError> {
    match key {
        YamlValue::Str(k) => if k == "name"@ {
            match string_attr(st.name, Field::Name, value) {
                Ok(s) => Ok(Seen { name: Some(s), ..st }),
                Err(e) => Err(e),
            }
        } else if k == "delegate_to"@ {
            match string_attr(st.delegate_to, Field::DelegateTo, value) {
                Ok(s) => Ok(Seen { delegate_to: Some(s), ..st }),
                Err(e) => Err(e),
            }
        } else if k == "become"@ {
            if st.use_become is Some {
                Err(ParseError::Duplicate(Field::Become))
            } else {
                match bool_of(value) {
                    Some(b) => Ok(Seen { use_become: Some(b), ..st }),
                    None => Err(ParseError::Invalid(Field::Become)),
                }
            }
        } else if k == "become_user"@ {
            match string_attr(st.become_user, Field::BecomeUser, value) {
                Ok(s) => Ok(Seen { become_user: Some(s), ..st }),
                Err(e) => Err(e),
            }
        } else if k == "when"@ {
            if st.when is Some {
                Err(ParseError::Duplicate(Field::When))
            } else {
                match conditions_of(value) {
                    Some(c) => Ok(Seen { when: Some(c), ..st }),
                    None => Err(ParseError::Invalid(Field::When)),
                }
            }
        } else if k == "listen"@ && handler {
            match string_attr(st.listen, Field::Listen, value) {
                Ok(s) => Ok(Seen { listen: Some(s), ..st }),
                Err(e) => Err(e),
            }
        } else if k == "notify"@ && !handler {
            if st.notify is Some {
                Err(ParseError::Duplicate(Field::Notify))
            } else {
                match strings_of(value) {
                    Some(c) => Ok(Seen { notify: Some(c), ..st }),
                    None => Err(ParseError::Invalid(Field::Notify)),
                }
            }
        } else if k == "register"@ {
            match string_attr(st.register, Field::Register, value) {
                Ok(s) => Ok(Seen { register: Some(s), ..st }),
                Err(e) => Err(e),
            }
        } else if k == "vars"@ {
            if st.vars is Some {
                Err(ParseError::Duplicate(Field::Vars))
            } else {
                match string_map_of(value) {
                    Some(c) => Ok(Seen { vars: Some(c), ..st }),
                    None => Err(ParseError::Invalid(Field::Vars)),
                }
            }
        } else {
            match reg.resolves(k) {
                Some(t) => if st.module is Some {
                    Err(ParseError::DuplicateTaskDetails)
                } else {
                    Ok(Seen { module: Some((t, value)), ..st })
                },
                None => Ok(st),
            }
        },
        _ => Err(ParseError::KeyNotString),
    }
}

/// All entries, walked in order; the first error stops the walk.
pub open spec fn parse_entries(
    reg: KnownTasks,
    handler: bool,
    entries: Seq<(YamlValue, YamlValue)>,
) -> Result<Seen, ParseError>
    decreases entries.len(),
{
    if entries.len() == 0 {
        Ok(nothing_seen())
    } else {
        match parse_entries(reg, handler, entries.drop_last()) {
            Ok(st) => parse_step(reg, handler, st, entries.last().0, entries.last().1),
            Err(e) => Err(e),
        }
    }
}

/// The entries of a description; null stands for the empty mapping.
pub open spec fn entries_of(v: YamlValue) -> Option<Seq<(YamlValue, YamlValue)>> {
    match v {
        YamlValue::Null => Some(Seq::empty()),
        YamlValue::Mapping(e) => Some(e),
        _ => None,
    }
}

pub open spec fn walk(reg: KnownTasks, handler: bool, v: YamlValue) -> Result<Seen, ParseError> {
    match entries_of(v) {
        Some(e) => parse_entries(reg, handler, e),
        None => Err(ParseError::NotAMapping),
    }
}

/// What parsing `v` as a task gives.
pub open spec fn parse_task(reg: KnownTasks, v: YamlValue) -> Result<TaskView, ParseError> {
    match walk(reg, false, v) {
        Err(e) => Err(e),
        Ok(st) => match st.module {
            None => Err(ParseError::MissingTaskDetails),
            Some(m) => Ok(
                TaskView {
                    name: st.name,
                    task_id: m.0,
                    args: m.1,
                    use_become: match st.use_become {
                    Some(b) => b,
                    None => false,
                },
                    become_user: st.become_user,
                    delegate_to: st.delegate_to,
                    when: if let Some(w) = st.when { w } else { Seq::empty() },
                    notify: if let Some(n) = st.notify { n } else { Seq::empty() },
                    register: st.register,
                    vars: st.vars,
                },
            ),
        },
    }
}

/// What parsing `v` as a handler gives.
pub open spec fn parse_handler(reg: KnownTasks, v: YamlValue) -> Result<HandlerView, ParseError> {
    match walk(reg, true, v) {
        Err(e) => Err(e),
        Ok(st) => if st.name is None && st.listen is None {
            Err(ParseError::HandlerWithoutName)
        } else {
            match st.module {
                None => Err(ParseError::MissingTaskDetails),
                Some(m) => Ok(
                    HandlerView {
                        name: st.name,
                        task_id: m.0,
                        args: m.1,
                        use_become: match st.use_become {
                    Some(b) => b,
                    None => false,
                },
                        become_user: st.become_user,
                        when: if let Some(w) = st.when { w } else { Seq::empty() },
                        listen: st.listen,
                        vars: st.vars,
                    },
                ),
            }
        },
    }
}

/// Executable counterpart of [`Seen`].
struct Fields {
    name: Option<String>,
    module: Option<(TaskId, Yaml)>,
    use_become: Option<bool>,
    become_user: Option<String>,
    delegate_to: Option<String>,
    when: Option<Vec<String>>,
    notify: Option<Vec<String>>,
    register: Option<String>,
    vars: Option<Vec<(String, Yaml)>>,
    listen: Option<String>,
}

pub open spec fn opt_strs(o: Option<Vec<String>>) -> Option<Seq<Seq<char>>> {
    match o {
        Some(v) => Some(strs(v)),
        None => None,
    }
}

impl View for Fields {
    type V = Seen;

    closed spec fn view(&self) -> Seen {
        Seen {
            name: opt_str(self.name),
            module: match self.module {
                Some(m) => Some((m.0@, m.1@)),
                None => None,
            },
            use_become: self.use_become,
            become_user: opt_str(self.become_user),
            delegate_to: opt_str(self.delegate_to),
            when: opt_strs(self.when),
            notify: opt_strs(self.notify),
            register: opt_str(self.register),
            vars: opt_vars(self.vars),
            listen: opt_str(self.listen),
        }
    }
}

fn key_is(k: &String, lit: &str) -> (r: bool)
    ensures
        r == (k@ == lit@),
{
    let l = lit.to_owned();
    *k == l
}

fn string_attr_of(prev: &Option<String>, f: Field, v: &Yaml) -> (r: Result<String, ParseError>)
    ensures
        r matches Ok(s) ==> string_attr(opt_str(*prev), f, v@) == Ok::<Seq<char>, ParseError>(s@),
        r matches Err(e) ==> string_attr(opt_str(*prev), f, v@) == Err::<Seq<char>, ParseError>(e),
{
    if prev.is_some() {
        Err(ParseError::Duplicate(f))
    } else {
        match v.as_str() {
            Some(s) => Ok(s),
            None => Err(ParseError::Invalid(f)),
        }
    }
}

pub fn string_table(v: &Yaml) -> (r: Option<Vec<(String, Yaml)>>)
    ensures
        r matches Some(l) ==> string_table_of(v@) == opt_vars(r),
        r is None ==> string_table_of(v@) is None,
{
    match v {
        Yaml::Null => {
            let r: Vec<(String, Yaml)> = Vec::new();
            assert(opt_vars(Some(r)) == Some(Seq::<(Seq<char>, YamlValue)>::empty()));
            Some(r)
        },
        _ => v.as_string_map(),
    }
}

fn conditions(v: &Yaml) -> (r: Option<Vec<String>>)
    ensures
        r matches Some(l) ==> conditions_of(v@) == Some(strs(l)),
        r is None ==> conditions_of(v@) is None,
{
    match v {
        Yaml::String(e) => {
            let r = vec![e.clone()];
            assert(strs(r) =~= seq![e@]);
            Some(r)
        },
        Yaml::Sequence(_) => v.as_strings(),
        _ => None,
    }
}

spec fn seen_result(r: Result<Fields, ParseError>) -> Result<Seen, ParseError> {
    match r {
        Ok(f) => Ok(f@),
        Err(e) => Err(e),
    }
}

fn step(reg: &KnownTasks, handler: bool, st: Fields, key: &Yaml, value: &Yaml) -> (r: Result<
    Fields,
    ParseError,
>)
    requires
        reg.wf(),
    ensures
        seen_result(r) == parse_step(*reg, handler, st@, key@, value@),
{
    let k = match key {
        Yaml::String(k) => k,
        _ => {
            return Err(ParseError::KeyNotString);
        },
    };
    if key_is(k, "name") {
        match string_attr_of(&st.name, Field::Name, value) {
            Ok(s) => Ok(Fields { name: Some(s), ..st }),
            Err(e) => Err(e),
        }
    } else if key_is(k, "delegate_to") {
        match string_attr_of(&st.delegate_to, Field::DelegateTo, value) {
            Ok(s) => Ok(Fields { delegate_to: Some(s), ..st }),
            Err(e) => Err(e),
        }
    } else if key_is(k, "become") {
        if st.use_become.is_some() {
            Err(ParseError::Duplicate(Field::Become))
        } else {
            match value.as_bool() {
                Some(b) => Ok(Fields { use_become: Some(b), ..st }),
                None => Err(ParseError::Invalid(Field::Become)),
            }
        }
    } else if key_is(k, "become_user") {
        match string_attr_of(&st.become_user, Field::BecomeUser, value) {
            Ok(s) => Ok(Fields { become_user: Some(s), ..st }),
            Err(e) => Err(e),
        }
    } else if key_is(k, "when") {
        if st.when.is_some() {
            Err(ParseError::Duplicate(Field::When))
        } else {
            match conditions(value) {
                Some(c) => Ok(Fields { when: Some(c), ..st }),
                None => Err(ParseError::Invalid(Field::When)),
            }
        }
    } else if key_is(k, "listen") && handler {
        match string_attr_of(&st.listen, Field::Listen, value) {
            Ok(s) => Ok(Fields { listen: Some(s), ..st }),
            Err(e) => Err(e),
        }
    } else if key_is(k, "notify") && !handler {
        if st.notify.is_some() {
            Err(ParseError::Duplicate(Field::Notify))
        } else {
            match value.as_strings() {
                Some(c) => Ok(Fields { notify: Some(c), ..st }),
                None => Err(ParseError::Invalid(Field::Notify)),
            }
        }
    } else if key_is(k, "register") {
        match string_attr_of(&st.register, Field::Register, value) {
            Ok(s) => Ok(Fields { register: Some(s), ..st }),
            Err(e) => Err(e),
        }
    } else if key_is(k, "vars") {
        if st.vars.is_some() {
            Err(ParseError::Duplicate(Field::Vars))
        } else {
            match value.as_string_map() {
                Some(c) => {
                    assert(opt_vars(Some(c))->0 =~= c@.map_values(|e: (String, Yaml)| (e.0@, e.1@)));
                    Ok(Fields { vars: Some(c), ..st })
                },
                None => Err(ParseError::Invalid(Field::Vars)),
            }
        }
    } else {
        match reg.get(k.as_str()) {
            Some(t) => if st.module.is_some() {
                Err(ParseError::DuplicateTaskDetails)
            } else {
                Ok(Fields { module: Some((t, value.copy())), ..st })
            },
            None => Ok(st),
        }
    }
}

proof fn lemma_error_sticks(
    reg: KnownTasks,
    handler: bool,
    entries: Seq<(YamlValue, YamlValue)>,
    i: int,
)
    requires
        0 <= i <= entries.len(),
        parse_entries(reg, handler, entries.take(i)) is Err,
    ensures
        parse_entries(reg, handler, entries) == parse_entries(reg, handler, entries.take(i)),
    decreases entries.len() - i,
{
    if i < entries.len() {
        assert(entries.take(i + 1).drop_last() =~= entries.take(i));
        lemma_error_sticks(reg, handler, entries, i + 1);
    } else {
        assert(entries.take(i) =~= entries);
    }
}

fn walk_entries(reg: &KnownTasks, handler: bool, v: &Yaml) -> (r: Result<Fields, ParseError>)
    requires
        reg.wf(),
    ensures
        seen_result(r) == walk(*reg, handler, v@),
{
    let entries = match v {
        Yaml::Mapping(e) => e,
        Yaml::Null => {
            let f = Fields {
                name: None,
                module: None,
                use_become: None,
                become_user: None,
                delegate_to: None,
                when: None,
                notify: None,
                register: None,
                vars: None,
                listen: None,
            };
            return Ok(f);
        },
        _ => {
            return Err(ParseError::NotAMapping);
        },
    };
    proof {
        v.lemma_mapping_view();
    }
    let ghost all = v@->Mapping_0;
    let mut st = Fields {
        name: None,
        module: None,
        use_become: None,
        become_user: None,
        delegate_to: None,
        when: None,
        notify: None,
        register: None,
        vars: None,
        listen: None,
    };
    assert(all.take(0) =~= Seq::<(YamlValue, YamlValue)>::empty());
    let mut i: usize = 0;
    while i < entries.len()
        invariant
            reg.wf(),
            all == v@->Mapping_0,
            *v == Yaml::Mapping(*entries),
            all.len() == entries.len(),
            forall|j: int| 0 <= j < entries.len() ==> #[trigger] all[j] == (entries[j].0@, entries[j].1@),
            i <= entries.len(),
            parse_entries(*reg, handler, all.take(i as int)) == Ok::<Seen, ParseError>(st@),
        decreases entries.len() - i,
    {
        assert(all.take(i + 1).drop_last() =~= all.take(i as int));
        match step(reg, handler, st, &entries[i].0, &entries[i].1) {
            Ok(next) => {
                st = next;
            },
            Err(e) => {
                proof {
                    lemma_error_sticks(*reg, handler, all, i + 1);
                }
                return Err(e);
            },
        }
        i = i + 1;
    }
    assert(all.take(i as int) =~= all);
    Ok(st)
}

/// A module seen while walking entries is one that some key resolves to.
proof fn lemma_module_resolved(reg: KnownTasks, handler: bool, entries: Seq<(YamlValue, YamlValue)>)
    ensures
        parse_entries(reg, handler, entries) matches Ok(st) ==> (st.module matches Some(m)
            ==> exists|k: Seq<char>| #[trigger] reg.resolves(k) == Some(m.0)),
    decreases entries.len(),
{
    if entries.len() > 0 {
        lemma_module_resolved(reg, handler, entries.drop_last());
        if let Ok(st) = parse_entries(reg, handler, entries) {
            if let Some(m) = st.module {
                if let Ok(prev) = parse_entries(reg, handler, entries.drop_last()) {
                    if prev.module is None {
                        let k = entries.last().0->Str_0;
                        assert(reg.resolves(k) == Some(m.0));
                    }
                }
            }
        }
    }
}

/// A parsed module identity names a registered module.
proof fn lemma_walk_module_registered(reg: KnownTasks, handler: bool, v: YamlValue)
    ensures
        walk(reg, handler, v) matches Ok(st) ==> (st.module matches Some(m) ==> has_module(
            reg.infos(),
            m.0.name(),
        ) && !(m.0 is Unknown)),
{
    if let Some(e) = entries_of(v) {
        lemma_module_resolved(reg, handler, e);
        if let Ok(st) = walk(reg, handler, v) {
            if let Some(m) = st.module {
                let k = choose|k: Seq<char>| #[trigger] reg.resolves(k) == Some(m.0);
                lemma_lookup_names_module(reg.infos(), k);
                lemma_resolved_not_unknown(reg.infos(), k);
            }
        }
    }
}

pub open spec fn task_result(r: Result<TaskDescription, ParseError>) -> Result<TaskView, ParseError> {
    match r {
        Ok(t) => Ok(t@),
        Err(e) => Err(e),
    }
}

pub open spec fn handler_result(r: Result<HandlerDescription, ParseError>) -> Result<
    HandlerView,
    ParseError,
> {
    match r {
        Ok(t) => Ok(t@),
        Err(e) => Err(e),
    }
}

impl TaskDescription {
    /// Parses a task from its mapping, recognising the module by its key.
    pub fn parse(reg: &KnownTasks, v: &Yaml) -> (r: Result<TaskDescription, ParseError>)
        requires
            reg.wf(),
        ensures
            task_result(r) == parse_task(*reg, v@),
            r matches Ok(t) ==> has_module(reg.infos(), t.task_id@.name()),
            r matches Ok(t) ==> !(t.task_id@ is Unknown),
    {
        proof {
            lemma_walk_module_registered(*reg, false, v@);
        }
        let st = match walk_entries(reg, false, v) {
            Ok(st) => st,
            Err(e) => {
                return Err(e);
            },
        };
        let (task_id, args) = match st.module {
            Some(m) => m,
            None => {
                return Err(ParseError::MissingTaskDetails);
            },
        };
        Ok(
            TaskDescription {
                name: st.name,
                task_id,
                args,
                use_become: match st.use_become {
                    Some(b) => b,
                    None => false,
                },
                become_user: st.become_user,
                delegate_to: st.delegate_to,
                when: or_empty(st.when),
                notify: or_empty(st.notify),
                register: st.register,
                vars: st.vars,
            },
        )
    }

    /// The task's identity as shown to the user, prefixed with its role.
    pub fn display_name(&self, role: &Option<String>) -> (r: String)
        ensures
            r@ == display_name_of(opt_str(*role), opt_str(self.name), self.task_id@.name()),
    {
        let base = match &self.name {
            Some(n) => n.clone(),
            None => self.task_id.name(),
        };
        match role {
            Some(role) => {
                let mut r = role.clone();
                r.append(" : ");
                r.append(base.as_str());
                r
            },
            None => base,
        }
    }
}

/// How a task is shown: its name (or its module's), after `"<role> : "`
/// inside a role.
pub open spec fn display_name_of(
    role: Option<Seq<char>>,
    name: Option<Seq<char>>,
    module: Seq<char>,
) -> Seq<char> {
    let base = match name {
        Some(n) => n,
        None => module,
    };
    match role {
        Some(r) => r + " : "@ + base,
        None => base,
    }
}

impl HandlerDescription {
    /// Parses a handler from its mapping, recognising the module by its key.
    pub fn parse(reg: &KnownTasks, v: &Yaml) -> (r: Result<HandlerDescription, ParseError>)
        requires
            reg.wf(),
        ensures
            handler_result(r) == parse_handler(*reg, v@),
            r matches Ok(h) ==> has_module(reg.infos(), h.task_id@.name()),
            r matches Ok(h) ==> !(h.task_id@ is Unknown),
    {
        proof {
            lemma_walk_module_registered(*reg, true, v@);
        }
        let st = match walk_entries(reg, true, v) {
            Ok(st) => st,
            Err(e) => {
                return Err(e);
            },
        };
        if st.name.is_none() && st.listen.is_none() {
            return Err(ParseError::HandlerWithoutName);
        }
        let (task_id, args) = match st.module {
            Some(m) => m,
            None => {
                return Err(ParseError::MissingTaskDetails);
            },
        };
        Ok(
            HandlerDescription {
                name: st.name,
                task_id,
                args,
                use_become: match st.use_become {
                    Some(b) => b,
                    None => false,
                },
                become_user: st.become_user,
                when: or_empty(st.when),
                listen: st.listen,
                vars: st.vars,
            },
        )
    }

    /// A copy of this handler with the same model.
    pub fn copy(&self) -> (r: HandlerDescription)
        ensures
            r@ == self@,
    {
        HandlerDescription {
            name: self.name.clone(),
            task_id: self.task_id.copy(),
            args: self.args.copy(),
            use_become: self.use_become,
            become_user: self.become_user.clone(),
            when: self.when.clone(),
            listen: self.listen.clone(),
            vars: match &self.vars {
                Some(v) => Some(copy_vars(v)),
                None => None,
            },
        }
    }
}

fn copy_vars(v: &Vec<(String, Yaml)>) -> (r: Vec<(String, Yaml)>)
    ensures
        opt_vars(Some(r)) == opt_vars(Some(*v)),
{
    let mut out: Vec<(String, Yaml)> = Vec::new();
    let mut i: usize = 0;
    while i < v.len()
        invariant
            i <= v.len(),
            out.len() == i,
            forall|j: int| 0 <= j < i ==> (#[trigger] out[j]).0@ == v[j].0@ && out[j].1@ == v[j].1@,
        decreases v.len() - i,
    {
        out.push((v[i].0.clone(), v[i].1.copy()));
        i = i + 1;
    }
    assert(out@.map_values(|e: (String, Yaml)| (e.0@, e.1@)) =~= v@.map_values(
        |e: (String, Yaml)| (e.0@, e.1@),
    ));
    out
}

fn or_empty(v: Option<Vec<String>>) -> (r: Vec<String>)
    ensures
        strs(r) == (match opt_strs(v) {
            Some(w) => w,
            None => Seq::empty(),
        }),
{
    match v {
        Some(w) => w,
        None => {
            let r: Vec<String> = Vec::new();
            assert(strs(r) =~= Seq::empty());
            r
        },
    }
}

/// The single-condition form of `when`, as a key and value.
pub open spec fn when_single(e: Seq<char>) -> (YamlValue, YamlValue) {
    (YamlValue::Str("when"@), YamlValue::Str(e))
}

/// The list form of `when` holding one condition, as a key and value.
pub open spec fn when_list(e: Seq<char>) -> (YamlValue, YamlValue) {
    (YamlValue::Str("when"@), YamlValue::Sequence(seq![YamlValue::Str(e)]))
}

proof fn lemma_when_step(reg: KnownTasks, handler: bool, st: Seen, e: Seq<char>)
    ensures
        parse_step(reg, handler, st, when_single(e).0, when_single(e).1) == parse_step(
            reg,
            handler,
            st,
            when_list(e).0,
            when_list(e).1,
        ),
{
    reveal_strlit("when");
    reveal_strlit("name");
    reveal_strlit("delegate_to");
    reveal_strlit("become");
    reveal_strlit("become_user");
    assert("when"@ != "name"@) by {
        assert("when"@[0] != "name"@[0]);
    }
    assert("when"@ != "delegate_to"@) by {
        assert("when"@.len() != "delegate_to"@.len());
    }
    assert("when"@ != "become"@) by {
        assert("when"@.len() != "become"@.len());
    }
    assert("when"@ != "become_user"@) by {
        assert("when"@.len() != "become_user"@.len());
    }
    let l = seq![YamlValue::Str(e)];
    assert(l.map_values(|x: YamlValue| x->Str_0) =~= seq![e]);
    assert(conditions_of(when_list(e).1) == Some(seq![e]));
}

proof fn lemma_when_entries(
    reg: KnownTasks,
    handler: bool,
    entries: Seq<(YamlValue, YamlValue)>,
    i: int,
    e: Seq<char>,
)
    requires
        0 <= i < entries.len(),
        entries[i] == when_single(e),
    ensures
        parse_entries(reg, handler, entries) == parse_entries(
            reg,
            handler,
            entries.update(i, when_list(e)),
        ),
    decreases entries.len(),
{
    let other = entries.update(i, when_list(e));
    if i == entries.len() - 1 {
        assert(other.drop_last() =~= entries.drop_last());
        if let Ok(st) = parse_entries(reg, handler, entries.drop_last()) {
            lemma_when_step(reg, handler, st, e);
        }
    } else {
        assert(other.drop_last() =~= entries.drop_last().update(i, when_list(e)));
        lemma_when_entries(reg, handler, entries.drop_last(), i, e);
    }
}

/// A `when` attribute given as one string parses exactly as a sequence
/// holding only that string, for tasks and handlers alike.
pub proof fn lemma_when_forms_agree(
    reg: KnownTasks,
    entries: Seq<(YamlValue, YamlValue)>,
    i: int,
    e: Seq<char>,
)
    requires
        0 <= i < entries.len(),
        entries[i] == when_single(e),
    ensures
        parse_task(reg, YamlValue::Mapping(entries)) == parse_task(
            reg,
            YamlValue::Mapping(entries.update(i, when_list(e))),
        ),
        parse_handler(reg, YamlValue::Mapping(entries)) == parse_handler(
            reg,
            YamlValue::Mapping(entries.update(i, when_list(e))),
        ),
{
    lemma_when_entries(reg, false, entries, i, e);
    lemma_when_entries(reg, true, entries, i, e);
}

/// The generic attributes of a task.
pub open spec fn is_task_attribute(k: Seq<char>) -> bool {
    k == "name"@ || k == "delegate_to"@ || k == "become"@ || k == "become_user"@ || k == "when"@
        || k == "notify"@ || k == "register"@ || k == "vars"@
}

proof fn lemma_task_module_key(reg: KnownTasks, entries: Seq<(YamlValue, YamlValue)>)
    ensures
        parse_entries(reg, false, entries) matches Ok(st) ==> (st.module matches Some(m)
            ==> exists|k: Seq<char>| #[trigger] reg.resolves(k) == Some(m.0) && !is_task_attribute(k)),
    decreases entries.len(),
{
    if entries.len() > 0 {
        lemma_task_module_key(reg, entries.drop_last());
        if let Ok(st) = parse_entries(reg, false, entries) {
            if let Some(m) = st.module {
                if let Ok(prev) = parse_entries(reg, false, entries.drop_last()) {
                    if prev.module is None {
                        let k = entries.last().0->Str_0;
                        assert(reg.resolves(k) == Some(m.0) && !is_task_attribute(k));
                    }
                }
            }
        }
    }
}

/// The entries that carry a task's generic attributes.
pub open spec fn attribute_entries(t: TaskView) -> Seq<(YamlValue, YamlValue)> {
    let s1: Seq<(YamlValue, YamlValue)> = match t.name {
        Some(n) => seq![(YamlValue::Str("name"@), YamlValue::Str(n))],
        None => Seq::empty(),
    };
    let s2 = s1.push((YamlValue::Str("become"@), YamlValue::Bool(t.use_become)));
    let s3 = match t.become_user {
        Some(u) => s2.push((YamlValue::Str("become_user"@), YamlValue::Str(u))),
        None => s2,
    };
    let s4 = match t.delegate_to {
        Some(d) => s3.push((YamlValue::Str("delegate_to"@), YamlValue::Str(d))),
        None => s3,
    };
    let s5 = s4.push(
        (
            YamlValue::Str("when"@),
            YamlValue::Sequence(t.when.map_values(|c: Seq<char>| YamlValue::Str(c))),
        ),
    );
    let s6 = s5.push(
        (
            YamlValue::Str("notify"@),
            YamlValue::Sequence(t.notify.map_values(|c: Seq<char>| YamlValue::Str(c))),
        ),
    );
    let s7 = match t.register {
        Some(r) => s6.push((YamlValue::Str("register"@), YamlValue::Str(r))),
        None => s6,
    };
    match t.vars {
        Some(v) => s7.push(
            (
                YamlValue::Str("vars"@),
                YamlValue::Mapping(
                    v.map_values(|e: (Seq<char>, YamlValue)| (YamlValue::Str(e.0), e.1)),
                ),
            ),
        ),
        None => s7,
    }
}

/// A task as a mapping: its attributes, then its module key
/// with the module's arguments.
pub open spec fn task_mapping(t: TaskView) -> YamlValue {
    YamlValue::Mapping(attribute_entries(t).push((YamlValue::Str(key_of(t.task_id)), t.args)))
}

proof fn lemma_keys_distinct()
    ensures
        "name"@ != "delegate_to"@,
        "name"@ != "become"@,
        "name"@ != "become_user"@,
        "name"@ != "when"@,
        "name"@ != "notify"@,
        "name"@ != "register"@,
        "name"@ != "vars"@,
        "delegate_to"@ != "become"@,
        "delegate_to"@ != "become_user"@,
        "delegate_to"@ != "when"@,
        "delegate_to"@ != "notify"@,
        "delegate_to"@ != "register"@,
        "delegate_to"@ != "vars"@,
        "become"@ != "become_user"@,
        "become"@ != "when"@,
        "become"@ != "notify"@,
        "become"@ != "register"@,
        "become"@ != "vars"@,
        "become_user"@ != "when"@,
        "become_user"@ != "notify"@,
        "become_user"@ != "register"@,
        "become_user"@ != "vars"@,
        "when"@ != "notify"@,
        "when"@ != "register"@,
        "when"@ != "vars"@,
        "notify"@ != "register"@,
        "notify"@ != "vars"@,
        "register"@ != "vars"@,
{
    reveal_strlit("name");
    reveal_strlit("delegate_to");
    reveal_strlit("become");
    reveal_strlit("become_user");
    reveal_strlit("when");
    reveal_strlit("notify");
    reveal_strlit("register");
    reveal_strlit("vars");
    assert("name"@[0] != "when"@[0]);
    assert("name"@[0] != "vars"@[0]);
    assert("when"@[0] != "vars"@[0]);
    assert("delegate_to"@[0] != "become_user"@[0]);
    assert("become"@[0] != "notify"@[0]);
    assert("become"@.len() != "become_user"@.len());
    assert("name"@[1] != "notify"@[1]);
    assert("name"@[1] != "register"@[1]);
    assert("name"@[1] != "become"@[1]);
    assert("when"@[0] != "notify"@[0]);
    assert("vars"@[0] != "register"@[0]);
}

proof fn lemma_step_attr(reg: KnownTasks, st: Seen, key: Seq<char>, value: YamlValue)
    requires
        key == "name"@ ==> st.name is None && value is Str,
        key == "become"@ ==> st.use_become is None && value is Bool,
        key == "become_user"@ ==> st.become_user is None && value is Str,
        key == "delegate_to"@ ==> st.delegate_to is None && value is Str,
        key == "when"@ ==> st.when is None && value is Sequence && strings_of(value) is Some,
        key == "notify"@ ==> st.notify is None && value is Sequence && strings_of(value) is Some,
        key == "register"@ ==> st.register is None && value is Str,
        key == "vars"@ ==> st.vars is None && string_map_of(value) is Some,
        is_task_attribute(key),
    ensures
        parse_step(reg, false, st, YamlValue::Str(key), value) matches Ok(next) && next.module
            == st.module && (key != "name"@ ==> next.name == st.name) && (key != "become"@
            ==> next.use_become == st.use_become) && (key != "become_user"@ ==> next.become_user
            == st.become_user) && (key != "delegate_to"@ ==> next.delegate_to == st.delegate_to)
            && (key != "when"@ ==> next.when == st.when) && (key != "notify"@ ==> next.notify
            == st.notify) && (key != "register"@ ==> next.register == st.register) && (key
            != "vars"@ ==> next.vars == st.vars),
{
    lemma_keys_distinct();
}

proof fn lemma_strs_back(c: Seq<Seq<char>>)
    ensures
        strings_of(YamlValue::Sequence(c.map_values(|x: Seq<char>| YamlValue::Str(x)))) is Some,
{
}

proof fn lemma_table_back(v: Seq<(Seq<char>, YamlValue)>)
    ensures
        string_map_of(
            YamlValue::Mapping(v.map_values(|e: (Seq<char>, YamlValue)| (YamlValue::Str(e.0), e.1))),
        ) is Some,
{
}

proof fn lemma_push_step(
    reg: KnownTasks,
    s: Seq<(YamlValue, YamlValue)>,
    e: (YamlValue, YamlValue),
)
    ensures
        parse_entries(reg, false, s.push(e)) == (match parse_entries(reg, false, s) {
            Ok(st) => parse_step(reg, false, st, e.0, e.1),
            Err(x) => Err(x),
        }),
{
    assert(s.push(e).drop_last() =~= s);
}

/// Turning a parsed task's fields into a mapping and parsing that again
/// gives the same module identity and arguments.
pub proof fn lemma_task_round_trip(reg: KnownTasks, v: YamlValue)
    requires
        reg.wf(),
        parse_task(reg, v) is Ok,
    ensures
        parse_task(reg, task_mapping(parse_task(reg, v)->Ok_0)) matches Ok(t2) && t2.task_id
            == parse_task(reg, v)->Ok_0.task_id && t2.args == parse_task(reg, v)->Ok_0.args,
{
    let t = parse_task(reg, v)->Ok_0;
    let e = entries_of(v)->0;
    lemma_task_module_key(reg, e);
    let k0 = choose|k: Seq<char>| #[trigger] reg.resolves(k) == Some(t.task_id) && !is_task_attribute(k);
    lemma_resolved_key(reg.infos(), k0);
    let k = key_of(t.task_id);
    assert(k == k0);
    lemma_keys_distinct();
    lemma_strs_back(t.when);
    lemma_strs_back(t.notify);

    let s0: Seq<(YamlValue, YamlValue)> = Seq::empty();
    let s1: Seq<(YamlValue, YamlValue)> = match t.name {
        Some(n) => s0.push((YamlValue::Str("name"@), YamlValue::Str(n))),
        None => s0,
    };
    if let Some(n) = t.name {
        lemma_push_step(reg, s0, (YamlValue::Str("name"@), YamlValue::Str(n)));
        lemma_step_attr(reg, nothing_seen(), "name"@, YamlValue::Str(n));
    }
    let st1 = parse_entries(reg, false, s1)->Ok_0;
    assert(parse_entries(reg, false, s1) is Ok);
    assert(st1.module is None && st1.use_become is None && st1.become_user is None
        && st1.delegate_to is None && st1.when is None && st1.notify is None && st1.register is None
        && st1.vars is None);

    let s2 = s1.push((YamlValue::Str("become"@), YamlValue::Bool(t.use_become)));
    lemma_push_step(reg, s1, (YamlValue::Str("become"@), YamlValue::Bool(t.use_become)));
    lemma_step_attr(reg, st1, "become"@, YamlValue::Bool(t.use_become));
    let st2 = parse_entries(reg, false, s2)->Ok_0;
    assert(parse_entries(reg, false, s2) is Ok);

    let s3 = match t.become_user {
        Some(u) => s2.push((YamlValue::Str("become_user"@), YamlValue::Str(u))),
        None => s2,
    };
    if let Some(u) = t.become_user {
        lemma_push_step(reg, s2, (YamlValue::Str("become_user"@), YamlValue::Str(u)));
        lemma_step_attr(reg, st2, "become_user"@, YamlValue::Str(u));
    }
    let st3 = parse_entries(reg, false, s3)->Ok_0;
    assert(parse_entries(reg, false, s3) is Ok);

    let s4 = match t.delegate_to {
        Some(d) => s3.push((YamlValue::Str("delegate_to"@), YamlValue::Str(d))),
        None => s3,
    };
    if let Some(d) = t.delegate_to {
        lemma_push_step(reg, s3, (YamlValue::Str("delegate_to"@), YamlValue::Str(d)));
        lemma_step_attr(reg, st3, "delegate_to"@, YamlValue::Str(d));
    }
    let st4 = parse_entries(reg, false, s4)->Ok_0;
    assert(parse_entries(reg, false, s4) is Ok);

    let w = YamlValue::Sequence(t.when.map_values(|c: Seq<char>| YamlValue::Str(c)));
    let s5 = s4.push((YamlValue::Str("when"@), w));
    lemma_push_step(reg, s4, (YamlValue::Str("when"@), w));
    lemma_step_attr(reg, st4, "when"@, w);
    let st5 = parse_entries(reg, false, s5)->Ok_0;
    assert(parse_entries(reg, false, s5) is Ok);

    let nt = YamlValue::Sequence(t.notify.map_values(|c: Seq<char>| YamlValue::Str(c)));
    let s6 = s5.push((YamlValue::Str("notify"@), nt));
    lemma_push_step(reg, s5, (YamlValue::Str("notify"@), nt));
    lemma_step_attr(reg, st5, "notify"@, nt);
    let st6 = parse_entries(reg, false, s6)->Ok_0;
    assert(parse_entries(reg, false, s6) is Ok);

    let s7 = match t.register {
        Some(r) => s6.push((YamlValue::Str("register"@), YamlValue::Str(r))),
        None => s6,
    };
    if let Some(r) = t.register {
        lemma_push_step(reg, s6, (YamlValue::Str("register"@), YamlValue::Str(r)));
        lemma_step_attr(reg, st6, "register"@, YamlValue::Str(r));
    }
    let st7 = parse_entries(reg, false, s7)->Ok_0;
    assert(parse_entries(reg, false, s7) is Ok);

    let s8 = match t.vars {
        Some(x) => s7.push(
            (
                YamlValue::Str("vars"@),
                YamlValue::Mapping(
                    x.map_values(|e: (Seq<char>, YamlValue)| (YamlValue::Str(e.0), e.1)),
                ),
            ),
        ),
        None => s7,
    };
    if let Some(x) = t.vars {
        let vm = YamlValue::Mapping(
            x.map_values(|e: (Seq<char>, YamlValue)| (YamlValue::Str(e.0), e.1)),
        );
        lemma_table_back(x);
        lemma_push_step(reg, s7, (YamlValue::Str("vars"@), vm));
        lemma_step_attr(reg, st7, "vars"@, vm);
    }
    let st8 = parse_entries(reg, false, s8)->Ok_0;
    assert(parse_entries(reg, false, s8) is Ok);
    assert(st8.module is None);
    assert(s8 == attribute_entries(t));

    lemma_push_step(reg, s8, (YamlValue::Str(k), t.args));
}

fn strings_yaml(v: &Vec<String>) -> (r: Yaml)
    ensures
        r@ == YamlValue::Sequence(strs(*v).map_values(|c: Seq<char>| YamlValue::Str(c))),
{
    let mut out: Vec<Yaml> = Vec::new();
    let mut i: usize = 0;
    while i < v.len()
        invariant
            i <= v.len(),
            out.len() == i,
            forall|j: int| 0 <= j < i ==> (#[trigger] out[j])@ == YamlValue::Str(v[j]@),
        decreases v.len() - i,
    {
        out.push(Yaml::String(v[i].clone()));
        i = i + 1;
    }
    let r = Yaml::Sequence(out);
    proof {
        r.lemma_sequence_view();
    }
    assert(r@->Sequence_0 =~= strs(*v).map_values(|c: Seq<char>| YamlValue::Str(c)));
    r
}

fn vars_yaml(v: &Vec<(String, Yaml)>) -> (r: Yaml)
    ensures
        r@ == YamlValue::Mapping(
            opt_vars(Some(*v))->0.map_values(|e: (Seq<char>, YamlValue)| (YamlValue::Str(e.0), e.1)),
        ),
{
    let mut out: Vec<(Yaml, Yaml)> = Vec::new();
    let mut i: usize = 0;
    while i < v.len()
        invariant
            i <= v.len(),
            out.len() == i,
            forall|j: int|
                0 <= j < i ==> (#[trigger] out[j]).0@ == YamlValue::Str(v[j].0@) && out[j].1@
                    == v[j].1@,
        decreases v.len() - i,
    {
        out.push((Yaml::String(v[i].0.clone()), v[i].1.copy()));
        i = i + 1;
    }
    let r = Yaml::Mapping(out);
    proof {
        r.lemma_mapping_view();
    }
    assert(r@->Mapping_0 =~= opt_vars(Some(*v))->0.map_values(
        |e: (Seq<char>, YamlValue)| (YamlValue::Str(e.0), e.1),
    ));
    r
}

fn push_entry(out: &mut Vec<(Yaml, Yaml)>, key: &str, value: Yaml)
    ensures
        final(out)@.map_values(|e: (Yaml, Yaml)| (e.0@, e.1@)) == old(out)@.map_values(
            |e: (Yaml, Yaml)| (e.0@, e.1@),
        ).push((YamlValue::Str(key@), value@)),
{
    out.push((Yaml::String(key.to_owned()), value));
    assert(out@.map_values(|e: (Yaml, Yaml)| (e.0@, e.1@)) =~= old(out)@.map_values(
        |e: (Yaml, Yaml)| (e.0@, e.1@),
    ).push((YamlValue::Str(key@), value@)));
}

impl TaskId {
    /// The key this identity is recognised by.
    pub fn key(&self) -> (r: String)
        ensures
            r@ == key_of(self@),
    {
        match self {
            TaskId::Task(id) => id.clone(),
            TaskId::Unknown(n) => n.clone(),
            TaskId::Alias { alias, .. } => alias.clone(),
        }
    }
}

impl TaskDescription {
    /// The description as a mapping: its attributes, then its module
    /// key with the module's arguments.
    pub fn to_yaml(&self) -> (r: Yaml)
        ensures
            r@ == task_mapping(self@),
    {
        let ghost t = self@;
        let mut out: Vec<(Yaml, Yaml)> = Vec::new();
        assert(out@.map_values(|e: (Yaml, Yaml)| (e.0@, e.1@)) =~= Seq::<(YamlValue, YamlValue)>::empty());
        match &self.name {
            Some(n) => push_entry(&mut out, "name", Yaml::String(n.clone())),
            None => {},
        }
        push_entry(&mut out, "become", Yaml::Bool(self.use_become));
        match &self.become_user {
            Some(u) => push_entry(&mut out, "become_user", Yaml::String(u.clone())),
            None => {},
        }
        match &self.delegate_to {
            Some(d) => push_entry(&mut out, "delegate_to", Yaml::String(d.clone())),
            None => {},
        }
        push_entry(&mut out, "when", strings_yaml(&self.when));
        push_entry(&mut out, "notify", strings_yaml(&self.notify));
        match &self.register {
            Some(r) => push_entry(&mut out, "register", Yaml::String(r.clone())),
            None => {},
        }
        match &self.vars {
            Some(v) => push_entry(&mut out, "vars", vars_yaml(v)),
            None => {},
        }
        assert(out@.map_values(|e: (Yaml, Yaml)| (e.0@, e.1@)) == attribute_entries(t));
        let key = self.task_id.key();
        out.push((Yaml::String(key), self.args.copy()));
        let r = Yaml::Mapping(out);
        proof {
            r.lemma_mapping_view();
        }
        assert(r@->Mapping_0 =~= attribute_entries(t).push((YamlValue::Str(key_of(t.task_id)), t.args)));
        r
    }
}

} // verus!
