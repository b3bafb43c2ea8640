use vstd::prelude::*;

use crate::task_id::{TaskId, TaskIdView};

verus! {

/// Description of a module: its fully-qualified name and the aliases it is
/// also known by.
#[derive(Debug, PartialEq)]
pub struct KeroseneTaskInfo {
    pub fqdn: String,
    pub aliases: Option<Vec<String>>,
}

/// Model of a [`KeroseneTaskInfo`]: the name and the aliases (empty when none).
pub ghost struct TaskInfoView {
    pub fqdn: Seq<char>,
    pub aliases: Seq<Seq<char>>,
}

impl View for KeroseneTaskInfo {
    type V = TaskInfoView;

    open spec fn view(&self) -> TaskInfoView {
        TaskInfoView {
            fqdn: self.fqdn@,
            aliases: match self.aliases {
                Some(a) => a@.map_values(|s: String| s@),
                None => Seq::empty(),
            },
        }
    }
}

impl KeroseneTaskInfo {
    pub fn new(fqdn: &str) -> (r: KeroseneTaskInfo)
        ensures
            r@ == (TaskInfoView { fqdn: fqdn@, aliases: Seq::empty() }),
    {
        KeroseneTaskInfo { fqdn: fqdn.to_owned(), aliases: None }
    }

    pub fn new_aliases(fqdn: &str, aliases: Vec<String>) -> (r: KeroseneTaskInfo)
        ensures
            r@ == (TaskInfoView { fqdn: fqdn@, aliases: aliases@.map_values(|s: String| s@) }),
    {
        KeroseneTaskInfo { fqdn: fqdn.to_owned(), aliases: Some(aliases) }
    }
}

/// The keys one module contributes: its name, then each alias.
pub open spec fn info_entries(info: TaskInfoView) -> Seq<(Seq<char>, TaskIdView)> {
    seq![(info.fqdn, TaskIdView::Task(info.fqdn))] + info.aliases.map_values(
        |a: Seq<char>| (a, TaskIdView::Alias { id: info.fqdn, alias: a }),
    )
}

/// The keys of all modules, in registration order.
pub open spec fn task_entries(infos: Seq<TaskInfoView>) -> Seq<(Seq<char>, TaskIdView)>
    decreases infos.len(),
{
    if infos.len() == 0 {
        Seq::empty()
    } else {
        task_entries(infos.drop_last()) + info_entries(infos.last())
    }
}

/// What `key` resolves to: the latest registration of it wins.
pub open spec fn lookup_key(entries: Seq<(Seq<char>, TaskIdView)>, key: Seq<char>) -> Option<
    TaskIdView,
>
    decreases entries.len(),
{
    if entries.len() == 0 {
        None
    } else if entries.last().0 == key {
        Some(entries.last().1)
    } else {
        lookup_key(entries.drop_last(), key)
    }
}

/// Whether some module is registered under the fully-qualified name `name`.
pub open spec fn has_module(infos: Seq<TaskInfoView>, name: Seq<char>) -> bool {
    exists|i: int| 0 <= i < infos.len() && (#[trigger] infos[i]).fqdn == name
}

/// Every key of the registry resolves to a registered module.
pub proof fn lemma_lookup_names_module(infos: Seq<TaskInfoView>, key: Seq<char>)
    ensures
        lookup_key(task_entries(infos), key) matches Some(t) ==> has_module(infos, t.name()),
    decreases infos.len(),
{
    if infos.len() > 0 {
        let rest = infos.drop_last();
        let mine = info_entries(infos.last());
        lemma_lookup_append(task_entries(rest), mine, key);
        lemma_lookup_names_module(rest, key);
        if lookup_key(mine, key) is Some {
            lemma_lookup_in(mine, key);
            assert(infos[infos.len() - 1] == infos.last());
        } else if let Some(t) = lookup_key(task_entries(rest), key) {
            let i = choose|i: int| 0 <= i < rest.len() && (#[trigger] rest[i]).fqdn == t.name();
            assert(infos[i] == rest[i]);
        }
    }
}

proof fn lemma_lookup_append(
    a: Seq<(Seq<char>, TaskIdView)>,
    b: Seq<(Seq<char>, TaskIdView)>,
    key: Seq<char>,
)
    ensures
        lookup_key(a + b, key) == (match lookup_key(b, key) {
            Some(t) => Some(t),
            None => lookup_key(a, key),
        }),
    decreases b.len(),
{
    if b.len() == 0 {
        assert(a + b =~= a);
    } else {
        assert((a + b).drop_last() =~= a + b.drop_last());
        lemma_lookup_append(a, b.drop_last(), key);
    }
}

proof fn lemma_lookup_in(entries: Seq<(Seq<char>, TaskIdView)>, key: Seq<char>)
    ensures
        lookup_key(entries, key) matches Some(t) ==> exists|i: int|
            0 <= i < entries.len() && #[trigger] entries[i] == (key, t),
    decreases entries.len(),
{
    if entries.len() > 0 && entries.last().0 != key {
        lemma_lookup_in(entries.drop_last(), key);
        if let Some(t) = lookup_key(entries, key) {
            let i = choose|i: int|
                0 <= i < entries.drop_last().len() && #[trigger] entries.drop_last()[i] == (key, t);
            assert(entries[i] == entries.drop_last()[i]);
        }
    }
}

/// The key a module identity is recognised by.
pub open spec fn key_of(t: TaskIdView) -> Seq<char> {
    match t {
        TaskIdView::Task(id) => id,
        TaskIdView::Unknown(n) => n,
        TaskIdView::Alias { alias, .. } => alias,
    }
}

proof fn lemma_entries_keyed(infos: Seq<TaskInfoView>)
    ensures
        forall|i: int|
            0 <= i < task_entries(infos).len() ==> key_of(#[trigger] task_entries(infos)[i].1)
                == task_entries(infos)[i].0,
    decreases infos.len(),
{
    if infos.len() > 0 {
        lemma_entries_keyed(infos.drop_last());
        let a = task_entries(infos.drop_last());
        let b = info_entries(infos.last());
        assert forall|i: int| 0 <= i < (a + b).len() implies key_of(#[trigger] (a + b)[i].1) == (a
            + b)[i].0 by {
            if i >= a.len() {
                assert((a + b)[i] == b[i - a.len()]);
            } else {
                assert((a + b)[i] == a[i]);
            }
        }
    }
}

proof fn lemma_entries_known(infos: Seq<TaskInfoView>)
    ensures
        forall|i: int|
            0 <= i < task_entries(infos).len() ==> !(#[trigger] task_entries(infos)[i].1 is Unknown),
    decreases infos.len(),
{
    if infos.len() > 0 {
        lemma_entries_known(infos.drop_last());
        let a = task_entries(infos.drop_last());
        let b = info_entries(infos.last());
        assert forall|i: int| 0 <= i < (a + b).len() implies !(#[trigger] (a + b)[i].1 is Unknown) by {
            if i >= a.len() {
                assert((a + b)[i] == b[i - a.len()]);
            } else {
                assert((a + b)[i] == a[i]);
            }
        }
    }
}

/// No key resolves to an unrecognised identity.
pub proof fn lemma_resolved_not_unknown(infos: Seq<TaskInfoView>, k: Seq<char>)
    ensures
        lookup_key(task_entries(infos), k) matches Some(t) ==> !(t is Unknown),
{
    lemma_lookup_in(task_entries(infos), k);
    lemma_entries_known(infos);
    if let Some(t) = lookup_key(task_entries(infos), k) {
        let i = choose|i: int|
            0 <= i < task_entries(infos).len() && #[trigger] task_entries(infos)[i] == (k, t);
        assert(!(task_entries(infos)[i].1 is Unknown));
    }
}

/// A key resolves to an identity recognised by that very key.
pub proof fn lemma_resolved_key(infos: Seq<TaskInfoView>, k: Seq<char>)
    ensures
        lookup_key(task_entries(infos), k) matches Some(t) ==> key_of(t) == k,
{
    lemma_lookup_in(task_entries(infos), k);
    lemma_entries_keyed(infos);
    if let Some(t) = lookup_key(task_entries(infos), k) {
        let i = choose|i: int|
            0 <= i < task_entries(infos).len() && #[trigger] task_entries(infos)[i] == (k, t);
        assert(key_of(task_entries(infos)[i].1) == task_entries(infos)[i].0);
    }
}

/// The registry: every recognised key (each module's name and aliases) and
/// the identity it resolves to.
pub struct KnownTasks {
    infos: Vec<KeroseneTaskInfo>,
    entries: Vec<(String, TaskId)>,
}

impl KnownTasks {
    /// The modules, in registration order.
    pub closed spec fn infos(&self) -> Seq<TaskInfoView> {
        self.infos@.map_values(|i: KeroseneTaskInfo| i@)
    }

    pub closed spec fn entries(&self) -> Seq<(Seq<char>, TaskIdView)> {
        self.entries@.map_values(|e: (String, TaskId)| (e.0@, e.1@))
    }

    pub open spec fn wf(&self) -> bool {
        self.entries() == task_entries(self.infos())
    }

    /// What `key` resolves to in this registry.
    pub open spec fn resolves(&self, key: Seq<char>) -> Option<TaskIdView> {
        lookup_key(task_entries(self.infos()), key)
    }

    /// Collects the keys of every module.
    pub fn from_infos(infos: Vec<KeroseneTaskInfo>) -> (r: KnownTasks)
        ensures
            r.wf(),
            r.infos() == infos@.map_values(|i: KeroseneTaskInfo| i@),
    {
        let mut entries: Vec<(String, TaskId)> = Vec::new();
        let mut i: usize = 0;
        while i < infos.len()
            invariant
                i <= infos.len(),
                entries@.map_values(|e: (String, TaskId)| (e.0@, e.1@)) =~= task_entries(
                    infos@.map_values(|x: KeroseneTaskInfo| x@).take(i as int),
                ),
            decreases infos.len() - i,
        {
            let ghost before = entries@.map_values(|e: (String, TaskId)| (e.0@, e.1@));
            let ghost info = infos[i as int]@;
            let fqdn = &infos[i].fqdn;
            entries.push((fqdn.clone(), TaskId::Task(fqdn.clone())));
            let empty: Vec<String> = Vec::new();
            let aliases = match &infos[i].aliases {
                Some(a) => a,
                None => &empty,
            };
            assert(aliases@.map_values(|s: String| s@) =~= info.aliases);
            let mut j: usize = 0;
            while j < aliases.len()
                invariant
                    j <= aliases.len(),
                    fqdn@ == info.fqdn,
                    aliases@.map_values(|s: String| s@) == info.aliases,
                    entries@.map_values(|e: (String, TaskId)| (e.0@, e.1@)) =~= before + info_entries(
                        info,
                    ).take(j + 1),
                decreases aliases.len() - j,
            {
                let alias = &aliases[j];
                let ghost prev = entries@;
                entries.push(
                    (alias.clone(), TaskId::Alias { id: fqdn.clone(), alias: alias.clone() }),
                );
                proof {
                    assert(entries@ == prev.push(entries@.last()));
                    assert(entries@.map_values(|e: (String, TaskId)| (e.0@, e.1@)) =~= prev.map_values(
                        |e: (String, TaskId)| (e.0@, e.1@),
                    ).push((alias@, TaskIdView::Alias { id: info.fqdn, alias: alias@ })));
                    assert(info.aliases[j as int] == alias@);
                    assert(info_entries(info)[j + 1] == (
                        alias@,
                        TaskIdView::Alias { id: info.fqdn, alias: alias@ },
                    ));
                    assert(info_entries(info).take(j + 2) =~= info_entries(info).take(j + 1).push(
                        (alias@, TaskIdView::Alias { id: info.fqdn, alias: alias@ }),
                    ));
                }
                j = j + 1;
            }
            proof {
                let all = infos@.map_values(|x: KeroseneTaskInfo| x@);
                assert(all.take(i + 1).drop_last() =~= all.take(i as int));
                assert(info_entries(info).take(j + 1) =~= info_entries(info));
            }
            i = i + 1;
        }
        assert(infos@.map_values(|x: KeroseneTaskInfo| x@).take(infos.len() as int)
            =~= infos@.map_values(|x: KeroseneTaskInfo| x@));
        KnownTasks { infos, entries }
    }

    /// What `key` resolves to: the module's identity, or `None` when no
    /// module is known by it.
    pub fn get(&self, key: &str) -> (r: Option<TaskId>)
        requires
            self.wf(),
        ensures
            r matches Some(t) ==> self.resolves(key@) == Some(t@),
            r is None ==> self.resolves(key@) is None,
    {
        let k = key.to_owned();
        let mut i: usize = self.entries.len();
        assert(self.entries().take(i as int) =~= self.entries());
        while i > 0
            invariant
                i <= self.entries.len(),
                k@ == key@,
                self.wf(),
                self.resolves(key@) == lookup_key(self.entries().take(i as int), key@),
            decreases i,
        {
            assert(self.entries().take(i as int).drop_last() =~= self.entries().take(i - 1));
            if self.entries[i - 1].0 == k {
                return Some(self.entries[i - 1].1.copy());
            }
            i = i - 1;
        }
        None
    }

    /// The module registered under the canonical name of what `key` resolves to.
    pub fn get_task(&self, key: &str) -> (r: Option<&KeroseneTaskInfo>)
        requires
            self.wf(),
        ensures
            r matches Some(info) ==> self.resolves(key@) matches Some(t) && info@.fqdn == t.name(),
            r is None ==> !(self.resolves(key@) matches Some(t) && has_module(self.infos(), t.name())),
    {
        match self.get(key) {
            Some(task_id) => {
                let name = task_id.name();
                let mut i: usize = 0;
                while i < self.infos.len()
                    invariant
                        i <= self.infos.len(),
                        forall|j: int| 0 <= j < i ==> (#[trigger] self.infos()[j]).fqdn != name@,
                        self.resolves(key@) == Some(task_id@),
                        name@ == task_id@.name(),
                    decreases self.infos.len() - i,
                {
                    assert(self.infos()[i as int] == self.infos[i as int]@);
                    if self.infos[i].fqdn == name {
                        return Some(&self.infos[i]);
                    }
                    i = i + 1;
                }
                None
            },
            None => None,
        }
    }
}

/// A module description with a single alias.
pub open spec fn aliased(fqdn: Seq<char>, alias: Seq<char>) -> TaskInfoView {
    TaskInfoView { fqdn, aliases: seq![alias] }
}

/// The modules this engine provides, with their aliases.
pub open spec fn builtin_infos() -> Seq<TaskInfoView> {
    seq![
        aliased("ansible.builtin.copy"@, "copy"@),
        aliased("kerosene.builtin.curl"@, "curl"@),
        aliased("ansible.builtin.import_tasks"@, "import_tasks"@),
        aliased("ansible.builtin.meta"@, "meta"@),
        aliased("ansible.builtin.set_fact"@, "set_fact"@),
        aliased("ansible.builtin.shell"@, "shell"@),
        TaskInfoView {
            fqdn: "ansible.builtin.systemd_service"@,
            aliases: seq!["systemd_service"@, "ansible.builtin.systemd"@, "systemd"@],
        },
        aliased("ansible.builtin.template"@, "template"@),
    ]
}

fn single(fqdn: &str, alias: &str) -> (r: KeroseneTaskInfo)
    ensures
        r@ == aliased(fqdn@, alias@),
{
    let aliases = vec![alias.to_owned()];
    assert(aliases@.map_values(|s: String| s@) =~= seq![alias@]);
    KeroseneTaskInfo::new_aliases(fqdn, aliases)
}

/// The modules this engine provides.
pub fn builtin_tasks() -> (r: Vec<KeroseneTaskInfo>)
    ensures
        r@.map_values(|i: KeroseneTaskInfo| i@) == builtin_infos(),
{
    let mut r: Vec<KeroseneTaskInfo> = Vec::new();
    r.push(single("ansible.builtin.copy", "copy"));
    r.push(single("kerosene.builtin.curl", "curl"));
    r.push(single("ansible.builtin.import_tasks", "import_tasks"));
    r.push(single("ansible.builtin.meta", "meta"));
    r.push(single("ansible.builtin.set_fact", "set_fact"));
    r.push(single("ansible.builtin.shell", "shell"));
    let systemd_aliases = vec![
        "systemd_service".to_owned(),
        "ansible.builtin.systemd".to_owned(),
        "systemd".to_owned(),
    ];
    assert(systemd_aliases@.map_values(|s: String| s@) =~= seq![
        "systemd_service"@,
        "ansible.builtin.systemd"@,
        "systemd"@,
    ]);
    r.push(KeroseneTaskInfo::new_aliases("ansible.builtin.systemd_service", systemd_aliases));
    r.push(single("ansible.builtin.template", "template"));
    assert(r@.map_values(|i: KeroseneTaskInfo| i@) =~= builtin_infos());
    r
}

/// The registry of the built-in modules.
pub fn known_tasks() -> (r: KnownTasks)
    ensures
        r.wf(),
        r.infos() == builtin_infos(),
{
    KnownTasks::from_infos(builtin_tasks())
}

} // verus!
