use vstd::prelude::*;

use crate::args::opt_string_view;
use crate::description::{opt_vars, parse_task, string_table, string_table_of, ParseError, TaskDescription, TaskView};
use crate::registry::KnownTasks;
use crate::yaml::{field_of, Yaml, YamlValue};

verus! {

/// Why a play was rejected.
#[derive(Debug, PartialEq)]
pub enum PlayError {
    /// A play or role entry has the wrong shape.
    NotAMapping,
    /// A play lacks `hosts`.
    MissingHosts,
    /// A field has a value of the wrong type.
    Invalid(String),
    /// A task was rejected.
    Task(ParseError),
}

/// A role used by a play: a bare name, or a name with variables.
#[derive(Debug, PartialEq)]
pub enum PlayRole {
    RoleName(String),
    Role { role: String, vars: Option<Vec<(String, Yaml)>> },
}

pub ghost enum PlayRoleView {
    RoleName(Seq<char>),
    Role { role: Seq<char>, vars: Option<Seq<(Seq<char>, YamlValue)>> },
}

impl View for PlayRole {
    type V = PlayRoleView;

    open spec fn view(&self) -> PlayRoleView {
        match self {
            PlayRole::RoleName(n) => PlayRoleView::RoleName(n@),
            PlayRole::Role { role, vars } => PlayRoleView::Role { role: role@, vars: opt_vars(*vars) },
        }
    }
}

impl PlayRoleView {
    pub open spec fn name(self) -> Seq<char> {
        match self {
            PlayRoleView::RoleName(n) => n,
            PlayRoleView::Role { role, .. } => role,
        }
    }
}

impl PlayRole {
    pub fn name(&self) -> (r: &String)
        ensures
            r@ == self@.name(),
    {
        match self {
            PlayRole::RoleName(n) => n,
            PlayRole::Role { role, .. } => role,
        }
    }
}

/// A play: hosts, and the task lists and roles run against them.
#[derive(Debug, PartialEq)]
pub struct Play {
    pub name: Option<String>,
    pub hosts: String,
    pub remote_user: Option<String>,
    pub pre_tasks: Option<Vec<TaskDescription>>,
    pub roles: Option<Vec<PlayRole>>,
    pub tasks: Option<Vec<TaskDescription>>,
    pub post_tasks: Option<Vec<TaskDescription>>,
}

pub ghost struct PlayView {
    pub name: Option<Seq<char>>,
    pub hosts: Seq<char>,
    pub remote_user: Option<Seq<char>>,
    pub pre_tasks: Option<Seq<TaskView>>,
    pub roles: Option<Seq<PlayRoleView>>,
    pub tasks: Option<Seq<TaskView>>,
    pub post_tasks: Option<Seq<TaskView>>,
}

pub open spec fn tasks_view(o: Option<Vec<TaskDescription>>) -> Option<Seq<TaskView>> {
    match o {
        Some(v) => Some(v@.map_values(|t: TaskDescription| t@)),
        None => None,
    }
}

impl View for Play {
    type V = PlayView;

    open spec fn view(&self) -> PlayView {
        PlayView {
            name: opt_string_view(self.name),
            hosts: self.hosts@,
            remote_user: opt_string_view(self.remote_user),
            pre_tasks: tasks_view(self.pre_tasks),
            roles: match self.roles {
                Some(r) => Some(r@.map_values(|x: PlayRole| x@)),
                None => None,
            },
            tasks: tasks_view(self.tasks),
            post_tasks: tasks_view(self.post_tasks),
        }
    }
}

impl Play {
    /// The play's name, or its hosts when it has none.
    pub fn name(&self) -> (r: &String)
        ensures
            r@ == (match self@.name {
                Some(n) => n,
                None => self@.hosts,
            }),
    {
        match &self.name {
            Some(n) => n,
            None => &self.hosts,
        }
    }
}

/// Every item of a sequence parsed as a task; `None` if one is rejected.
pub open spec fn parse_tasks(reg: KnownTasks, items: Seq<YamlValue>) -> Option<Seq<TaskView>>
    decreases items.len(),
{
    if items.len() == 0 {
        Some(Seq::empty())
    } else {
        match (parse_tasks(reg, items.drop_last()), parse_task(reg, items.last())) {
            (Some(ts), Ok(t)) => Some(ts.push(t)),
            _ => None,
        }
    }
}

/// An optional list of tasks: absent or null means none.
pub open spec fn task_list_field(reg: KnownTasks, v: YamlValue, key: Seq<char>) -> Option<
    Option<Seq<TaskView>>,
> {
    match field_of(v, key) {
        None => Some(None),
        Some(YamlValue::Null) => Some(None),
        Some(YamlValue::Sequence(items)) => match parse_tasks(reg, items) {
            Some(ts) => Some(Some(ts)),
            None => None,
        },
        _ => None,
    }
}

/// A role entry: a name, or a mapping with `role` and optional `vars`.
pub open spec fn role_of(v: YamlValue) -> Option<PlayRoleView> {
    match v {
        YamlValue::Str(n) => Some(PlayRoleView::RoleName(n)),
        YamlValue::Mapping(_) => if (field_of(v, "role"@) matches Some(YamlValue::Str(_))) && (
        match field_of(v, "vars"@) {
            None => true,
            Some(x) => string_table_of(x) is Some,
        }) {
            Some(
                PlayRoleView::Role {
                    role: field_of(v, "role"@)->0->Str_0,
                    vars: match field_of(v, "vars"@) {
                        None => None,
                        Some(YamlValue::Null) => None,
                        Some(x) => string_table_of(x),
                    },
                },
            )
        } else {
            None
        },
        _ => None,
    }
}

pub open spec fn parse_roles(items: Seq<YamlValue>) -> Option<Seq<PlayRoleView>>
    decreases items.len(),
{
    if items.len() == 0 {
        Some(Seq::empty())
    } else {
        match (parse_roles(items.drop_last()), role_of(items.last())) {
            (Some(rs), Some(r)) => Some(rs.push(r)),
            _ => None,
        }
    }
}

pub open spec fn roles_field(v: YamlValue) -> Option<Option<Seq<PlayRoleView>>> {
    match field_of(v, "roles"@) {
        None => Some(None),
        Some(YamlValue::Null) => Some(None),
        Some(YamlValue::Sequence(items)) => match parse_roles(items) {
            Some(rs) => Some(Some(rs)),
            None => None,
        },
        _ => None,
    }
}

/// What a play's mapping holds, if it is well-formed.
pub open spec fn play_of(reg: KnownTasks, v: YamlValue) -> Option<PlayView> {
    if v is Mapping && (field_of(v, "hosts"@) matches Some(YamlValue::Str(_)))
        && crate::args::opt_string_field(v, "name"@) is Some && crate::args::opt_string_field(
        v,
        "remote_user"@,
    ) is Some && task_list_field(reg, v, "pre_tasks"@) is Some && roles_field(v) is Some
        && task_list_field(reg, v, "tasks"@) is Some && task_list_field(reg, v, "post_tasks"@) is Some {
        Some(
            PlayView {
                name: crate::args::opt_string_field(v, "name"@)->0,
                hosts: field_of(v, "hosts"@)->0->Str_0,
                remote_user: crate::args::opt_string_field(v, "remote_user"@)->0,
                pre_tasks: task_list_field(reg, v, "pre_tasks"@)->0,
                roles: roles_field(v)->0,
                tasks: task_list_field(reg, v, "tasks"@)->0,
                post_tasks: task_list_field(reg, v, "post_tasks"@)->0,
            },
        )
    } else {
        None
    }
}

/// Parses every item of `items` as a task.
pub fn parse_task_list(reg: &KnownTasks, items: &Vec<Yaml>) -> (r: Result<
    Vec<TaskDescription>,
    PlayError,
>)
    requires
        reg.wf(),
    ensures
        r matches Ok(ts) ==> parse_tasks(*reg, items@.map_values(|y: Yaml| y@)) == Some(
            ts@.map_values(|t: TaskDescription| t@),
        ),
        r is Err ==> parse_tasks(*reg, items@.map_values(|y: Yaml| y@)) is None,
{
    let ghost all = items@.map_values(|y: Yaml| y@);
    let mut out: Vec<TaskDescription> = Vec::new();
    let mut i: usize = 0;
    assert(all.take(0) =~= Seq::<YamlValue>::empty());
    assert(out@.map_values(|t: TaskDescription| t@) =~= Seq::<TaskView>::empty());
    while i < items.len()
        invariant
            reg.wf(),
            i <= items.len(),
            all == items@.map_values(|y: Yaml| y@),
            parse_tasks(*reg, all.take(i as int)) == Some(out@.map_values(|t: TaskDescription| t@)),
        decreases items.len() - i,
    {
        assert(all.take(i + 1).drop_last() =~= all.take(i as int));
        assert(all.take(i + 1).last() == items[i as int]@);
        match TaskDescription::parse(reg, &items[i]) {
            Ok(t) => {
                let ghost before = out@;
                out.push(t);
                assert(out@.map_values(|t: TaskDescription| t@) =~= before.map_values(
                    |t: TaskDescription| t@,
                ).push(out@.last()@));
            },
            Err(e) => {
                proof {
                    lemma_tasks_error_sticks(*reg, all, i + 1);
                }
                return Err(PlayError::Task(e));
            },
        }
        i = i + 1;
    }
    assert(all.take(i as int) =~= all);
    Ok(out)
}

proof fn lemma_tasks_error_sticks(reg: KnownTasks, items: Seq<YamlValue>, i: int)
    requires
        0 <= i <= items.len(),
        parse_tasks(reg, items.take(i)) is None,
    ensures
        parse_tasks(reg, items) is None,
    decreases items.len() - i,
{
    if i < items.len() {
        assert(items.take(i + 1).drop_last() =~= items.take(i));
        lemma_tasks_error_sticks(reg, items, i + 1);
    } else {
        assert(items.take(i) =~= items);
    }
}

fn task_list(reg: &KnownTasks, v: &Yaml, key: &str) -> (r: Result<
    Option<Vec<TaskDescription>>,
    PlayError,
>)
    requires
        reg.wf(),
    ensures
        r matches Ok(o) ==> task_list_field(*reg, v@, key@) == Some(tasks_view(o)),
        r is Err ==> task_list_field(*reg, v@, key@) is None,
{
    match v.get(key) {
        None => Ok(None),
        Some(Yaml::Null) => Ok(None),
        Some(s) => match s {
            Yaml::Sequence(items) => {
                proof {
                    s.lemma_sequence_view();
                    assert(items@.map_values(|y: Yaml| y@) =~= s@->Sequence_0);
                }
                let ts = parse_task_list(reg, items)?;
                Ok(Some(ts))
            },
            _ => Err(PlayError::Invalid(key.to_owned())),
        },
    }
}

fn parse_role(v: &Yaml) -> (r: Result<PlayRole, PlayError>)
    ensures
        r matches Ok(x) ==> role_of(v@) == Some(x@),
        r is Err ==> role_of(v@) is None,
{
    match v {
        Yaml::String(n) => Ok(PlayRole::RoleName(n.clone())),
        Yaml::Mapping(_) => {
            let role = match v.get("role") {
                Some(Yaml::String(r)) => r.clone(),
                _ => {
                    return Err(PlayError::Invalid("role".to_owned()));
                },
            };
            let vars = match v.get("vars") {
                None => None,
                Some(x) => match string_table(x) {
                    Some(t) => match x {
                        Yaml::Null => None,
                        _ => Some(t),
                    },
                    None => {
                        return Err(PlayError::Invalid("vars".to_owned()));
                    },
                },
            };
            Ok(PlayRole::Role { role, vars })
        },
        _ => Err(PlayError::NotAMapping),
    }
}

fn roles(v: &Yaml) -> (r: Result<Option<Vec<PlayRole>>, PlayError>)
    ensures
        r matches Ok(o) ==> roles_field(v@) == Some(
            match o {
                Some(rs) => Some(rs@.map_values(|x: PlayRole| x@)),
                None => None,
            },
        ),
        r is Err ==> roles_field(v@) is None,
{
    match v.get("roles") {
        None => Ok(None),
        Some(Yaml::Null) => Ok(None),
        Some(s) => match s {
            Yaml::Sequence(items) => {
                proof {
                    s.lemma_sequence_view();
                }
                let ghost all = s@->Sequence_0;
                assert(all.take(0) =~= Seq::<YamlValue>::empty());
                let mut out: Vec<PlayRole> = Vec::new();
                assert(out@.map_values(|x: PlayRole| x@) =~= Seq::<PlayRoleView>::empty());
                let mut i: usize = 0;
                while i < items.len()
                    invariant
                        *s == Yaml::Sequence(*items),
                        field_of(v@, "roles"@) == Some(s@),
                        all == s@->Sequence_0,
                        all.len() == items.len(),
                        forall|j: int| 0 <= j < items.len() ==> #[trigger] all[j] == items[j]@,
                        i <= items.len(),
                        parse_roles(all.take(i as int)) == Some(out@.map_values(|x: PlayRole| x@)),
                    decreases items.len() - i,
                {
                    assert(all.take(i + 1).drop_last() =~= all.take(i as int));
                    assert(all.take(i + 1).last() == items[i as int]@);
                    match parse_role(&items[i]) {
                        Ok(x) => {
                            let ghost before = out@;
                            out.push(x);
                            assert(out@.map_values(|x: PlayRole| x@) =~= before.map_values(
                                |x: PlayRole| x@,
                            ).push(out@.last()@));
                        },
                        Err(e) => {
                            proof {
                                lemma_roles_error_sticks(all, i + 1);
                            }
                            return Err(e);
                        },
                    }
                    i = i + 1;
                }
                assert(all.take(i as int) =~= all);
                Ok(Some(out))
            },
            _ => Err(PlayError::Invalid("roles".to_owned())),
        },
    }
}

proof fn lemma_roles_error_sticks(items: Seq<YamlValue>, i: int)
    requires
        0 <= i <= items.len(),
        parse_roles(items.take(i)) is None,
    ensures
        parse_roles(items) is None,
    decreases items.len() - i,
{
    if i < items.len() {
        assert(items.take(i + 1).drop_last() =~= items.take(i));
        lemma_roles_error_sticks(items, i + 1);
    } else {
        assert(items.take(i) =~= items);
    }
}

impl Play {
    /// Parses a play from its mapping.
    pub fn parse(reg: &KnownTasks, v: &Yaml) -> (r: Result<Play, PlayError>)
        requires
            reg.wf(),
        ensures
            r matches Ok(p) ==> play_of(*reg, v@) == Some(p@),
            r is Err ==> play_of(*reg, v@) is None,
    {
        match v {
            Yaml::Mapping(_) => {},
            _ => {
                return Err(PlayError::NotAMapping);
            },
        }
        let hosts = match v.get("hosts") {
            Some(Yaml::String(h)) => h.clone(),
            _ => {
                return Err(PlayError::MissingHosts);
            },
        };
        let name = match crate::args::opt_string(v, "name") {
            Ok(n) => n,
            Err(_) => {
                return Err(PlayError::Invalid("name".to_owned()));
            },
        };
        let remote_user = match crate::args::opt_string(v, "remote_user") {
            Ok(n) => n,
            Err(_) => {
                return Err(PlayError::Invalid("remote_user".to_owned()));
            },
        };
        let pre_tasks = task_list(reg, v, "pre_tasks")?;
        let roles = roles(v)?;
        let tasks = task_list(reg, v, "tasks")?;
        let post_tasks = task_list(reg, v, "post_tasks")?;
        Ok(Play { name, hosts, remote_user, pre_tasks, roles, tasks, post_tasks })
    }
}

/// One step of running a play.
#[derive(Clone, Copy, Debug, PartialEq, Eq, Structural)]
pub enum PlayStep {
    PreTasks,
    /// The role at this index of the play's roles.
    Role(usize),
    Tasks,
    PostTasks,
    /// Run the pending handlers.
    Flush,
}

/// The steps of a play, in order: pre-tasks and a flush, each role, the
/// tasks, a flush, then post-tasks and a flush; a missing list is skipped
/// with the flush that follows it, but the flush after the tasks always
/// happens.
pub open spec fn play_steps_of(has_pre: bool, n_roles: nat, has_tasks: bool, has_post: bool) -> Seq<
    PlayStep,
> {
    (if has_pre {
        seq![PlayStep::PreTasks, PlayStep::Flush]
    } else {
        Seq::empty()
    }) + Seq::new(n_roles, |i: int| PlayStep::Role(i as usize)) + (if has_tasks {
        seq![PlayStep::Tasks]
    } else {
        Seq::empty()
    }) + seq![PlayStep::Flush] + (if has_post {
        seq![PlayStep::PostTasks, PlayStep::Flush]
    } else {
        Seq::empty()
    })
}

impl Play {
    pub open spec fn n_roles(&self) -> nat {
        match self.roles {
            Some(r) => r@.len(),
            None => 0,
        }
    }

    /// The steps that run this play.
    pub fn steps(&self) -> (r: Vec<PlayStep>)
        ensures
            r@ == play_steps_of(
                self.pre_tasks.is_some(),
                self.n_roles(),
                self.tasks.is_some(),
                self.post_tasks.is_some(),
            ),
    {
        let mut r: Vec<PlayStep> = Vec::new();
        if self.pre_tasks.is_some() {
            r.push(PlayStep::PreTasks);
            r.push(PlayStep::Flush);
        }
        let ghost pre = r@;
        let n: usize = match &self.roles {
            Some(roles) => roles.len(),
            None => 0,
        };
        let mut i: usize = 0;
        while i < n
            invariant
                i <= n,
                n == self.n_roles(),
                r@ =~= pre + Seq::new(i as nat, |k: int| PlayStep::Role(k as usize)),
            decreases n - i,
        {
            r.push(PlayStep::Role(i));
            i = i + 1;
        }
        if self.tasks.is_some() {
            r.push(PlayStep::Tasks);
        }
        r.push(PlayStep::Flush);
        if self.post_tasks.is_some() {
            r.push(PlayStep::PostTasks);
            r.push(PlayStep::Flush);
        }
        assert(r@ =~= play_steps_of(
            self.pre_tasks.is_some(),
            self.n_roles(),
            self.tasks.is_some(),
            self.post_tasks.is_some(),
        ));
        r
    }
}

pub open spec fn parse_plays(reg: KnownTasks, items: Seq<YamlValue>) -> Option<Seq<PlayView>>
    decreases items.len(),
{
    if items.len() == 0 {
        Some(Seq::empty())
    } else {
        match (parse_plays(reg, items.drop_last()), play_of(reg, items.last())) {
            (Some(ps), Some(p)) => Some(ps.push(p)),
            _ => None,
        }
    }
}

/// What a playbook holds: a sequence of plays; null holds none.
pub open spec fn playbook_of(reg: KnownTasks, v: YamlValue) -> Option<Seq<PlayView>> {
    match v {
        YamlValue::Null => Some(Seq::empty()),
        YamlValue::Sequence(items) => parse_plays(reg, items),
        _ => None,
    }
}

proof fn lemma_plays_error_sticks(reg: KnownTasks, items: Seq<YamlValue>, i: int)
    requires
        0 <= i <= items.len(),
        parse_plays(reg, items.take(i)) is None,
    ensures
        parse_plays(reg, items) is None,
    decreases items.len() - i,
{
    if i < items.len() {
        assert(items.take(i + 1).drop_last() =~= items.take(i));
        lemma_plays_error_sticks(reg, items, i + 1);
    } else {
        assert(items.take(i) =~= items);
    }
}

/// Parses a playbook: every play of the sequence, in order.
pub fn parse_playbook(reg: &KnownTasks, v: &Yaml) -> (r: Result<Vec<Play>, PlayError>)
    requires
        reg.wf(),
    ensures
        r matches Ok(ps) ==> playbook_of(*reg, v@) == Some(ps@.map_values(|p: Play| p@)),
        r is Err ==> playbook_of(*reg, v@) is None,
{
    let items = match v {
        Yaml::Null => {
            let ps: Vec<Play> = Vec::new();
            assert(ps@.map_values(|p: Play| p@) =~= Seq::<PlayView>::empty());
            return Ok(ps);
        },
        Yaml::Sequence(items) => items,
        _ => {
            return Err(PlayError::NotAMapping);
        },
    };
    proof {
        v.lemma_sequence_view();
    }
    let ghost all = v@->Sequence_0;
    let mut out: Vec<Play> = Vec::new();
    assert(all.take(0) =~= Seq::<YamlValue>::empty());
    assert(out@.map_values(|p: Play| p@) =~= Seq::<PlayView>::empty());
    let mut i: usize = 0;
    while i < items.len()
        invariant
            reg.wf(),
            *v == Yaml::Sequence(*items),
            all == v@->Sequence_0,
            all.len() == items.len(),
            forall|j: int| 0 <= j < items.len() ==> #[trigger] all[j] == items[j]@,
            i <= items.len(),
            parse_plays(*reg, all.take(i as int)) == Some(out@.map_values(|p: Play| p@)),
        decreases items.len() - i,
    {
        assert(all.take(i + 1).drop_last() =~= all.take(i as int));
        assert(all.take(i + 1).last() == items[i as int]@);
        match Play::parse(reg, &items[i]) {
            Ok(p) => {
                let ghost before = out@;
                out.push(p);
                assert(out@.map_values(|p: Play| p@) =~= before.map_values(|p: Play| p@).push(
                    out@.last()@,
                ));
            },
            Err(e) => {
                proof {
                    lemma_plays_error_sticks(*reg, all, i + 1);
                }
                return Err(e);
            },
        }
        i = i + 1;
    }
    assert(all.take(i as int) =~= all);
    Ok(out)
}

} // verus!
