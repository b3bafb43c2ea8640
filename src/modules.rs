use vstd::prelude::*;

use crate::args::{
    check_record, is_record, opt_bool, opt_bool_field, opt_string, opt_string_field,
    opt_string_view, string, ArgError,
};
use crate::command::strings_view;
use crate::assoc::to_map;
use crate::context::{facts_view, RunCommandOpts, StdinSource, TaskContextInner};
use crate::description::{opt_vars, string_table, string_table_of};
use crate::yaml::{field_of, Yaml, YamlValue};

verus! {

/// Where the contents to install come from.
#[derive(Debug, PartialEq)]
pub enum CopyTaskSource {
    /// A file: on the target when `remote_src` is set, else a local one.
    File { file: String, remote_src: bool },
    /// This text.
    Content { content: String },
}

pub ghost enum SourceView {
    File { file: Seq<char>, remote_src: bool },
    Content { content: Seq<char> },
}

impl View for CopyTaskSource {
    type V = SourceView;

    open spec fn view(&self) -> SourceView {
        match self {
            CopyTaskSource::File { file, remote_src } => SourceView::File {
                file: file@,
                remote_src: *remote_src,
            },
            CopyTaskSource::Content { content } => SourceView::Content { content: content@ },
        }
    }
}

/// Arguments of `copy` and `template`.
#[derive(Debug, PartialEq)]
pub struct CopyTask {
    pub src: CopyTaskSource,
    pub dest: String,
    pub owner: Option<String>,
    pub group: Option<String>,
    pub mode: Option<String>,
}

pub ghost struct CopyView {
    pub src: SourceView,
    pub dest: Seq<char>,
    pub owner: Option<Seq<char>>,
    pub group: Option<Seq<char>>,
    pub mode: Option<Seq<char>>,
}

impl View for CopyTask {
    type V = CopyView;

    open spec fn view(&self) -> CopyView {
        CopyView {
            src: self.src@,
            dest: self.dest@,
            owner: opt_string_view(self.owner),
            group: opt_string_view(self.group),
            mode: opt_string_view(self.mode),
        }
    }
}

/// The `remote_src` flag: false when absent; `None` when not a boolean.
pub open spec fn remote_src_of(v: YamlValue) -> Option<bool> {
    match field_of(v, "remote_src"@) {
        None => Some(false),
        Some(YamlValue::Bool(b)) => Some(b),
        _ => None,
    }
}

/// The source of `copy` or `template`: a file named by `src`, else inline
/// `content`.
pub open spec fn source_of(v: YamlValue) -> Option<SourceView> {
    if (field_of(v, "src"@) matches Some(YamlValue::Str(_))) && remote_src_of(v) is Some {
        Some(SourceView::File { file: field_of(v, "src"@)->0->Str_0, remote_src: remote_src_of(v)->0 })
    } else if field_of(v, "content"@) matches Some(YamlValue::Str(_)) {
        Some(SourceView::Content { content: field_of(v, "content"@)->0->Str_0 })
    } else {
        None
    }
}

/// What the arguments of `copy` or `template` hold, if they are well-formed.
pub open spec fn copy_args(v: YamlValue) -> Option<CopyView> {
    if is_record(v) && source_of(v) is Some && (field_of(v, "dest"@) matches Some(
        YamlValue::Str(_),
    )) && opt_string_field(v, "owner"@) is Some && opt_string_field(v, "group"@) is Some
        && opt_string_field(v, "mode"@) is Some {
        Some(
            CopyView {
                src: source_of(v)->0,
                dest: field_of(v, "dest"@)->0->Str_0,
                owner: opt_string_field(v, "owner"@)->0,
                group: opt_string_field(v, "group"@)->0,
                mode: opt_string_field(v, "mode"@)->0,
            },
        )
    } else {
        None
    }
}

fn source(v: &Yaml) -> (r: Result<CopyTaskSource, ArgError>)
    ensures
        r matches Ok(s) ==> source_of(v@) == Some(s@),
        r is Err ==> source_of(v@) is None,
{
    let file = match v.get("src") {
        Some(Yaml::String(f)) => {
            match v.get("remote_src") {
                None => Some((f, false)),
                Some(Yaml::Bool(b)) => Some((f, *b)),
                Some(_) => None,
            }
        },
        _ => None,
    };
    match file {
        Some((f, remote_src)) => Ok(CopyTaskSource::File { file: f.clone(), remote_src }),
        None => match v.get("content") {
            Some(Yaml::String(c)) => Ok(CopyTaskSource::Content { content: c.clone() }),
            _ => Err(ArgError::Missing("content".to_owned())),
        },
    }
}

impl CopyTask {
    /// Reads the arguments of `copy` or `template`.
    pub fn from_yaml(v: &Yaml) -> (r: Result<CopyTask, ArgError>)
        ensures
            r matches Ok(t) ==> copy_args(v@) == Some(t@),
            r is Err ==> copy_args(v@) is None,
            !is_record(v@) ==> r matches Err(ArgError::NotAMapping),
    {
        match check_record(v) {
            Ok(()) => {},
            Err(e) => {
                return Err(e);
            },
        }
        let src = source(v)?;
        let dest = string(v, "dest")?;
        let owner = opt_string(v, "owner")?;
        let group = opt_string(v, "group")?;
        let mode = opt_string(v, "mode")?;
        Ok(CopyTask { src, dest, owner, group, mode })
    }

    /// The file on the target to install from, when the source is remote.
    pub fn remote_source(&self) -> (r: Option<String>)
        ensures
            opt_string_view(r) == (match self@.src {
                SourceView::File { file, remote_src: true } => Some(file),
                _ => None,
            }),
    {
        match &self.src {
            CopyTaskSource::File { file, remote_src } => if *remote_src {
                Some(file.clone())
            } else {
                None
            },
            CopyTaskSource::Content { .. } => None,
        }
    }
}

/// The `install` command line: owner, group and mode flags, then the source
/// (the remote file, or standard input) and the destination.
pub open spec fn install_argv(
    dest: Seq<char>,
    remote_src: Option<Seq<char>>,
    owner: Option<Seq<char>>,
    group: Option<Seq<char>>,
    mode: Option<Seq<char>>,
) -> Seq<Seq<char>> {
    let o = match owner {
        Some(o) => seq!["-o"@, o],
        None => Seq::empty(),
    };
    let g = match group {
        Some(g) => seq!["-g"@, g],
        None => Seq::empty(),
    };
    let m = match mode {
        Some(m) => seq!["-m"@, m],
        None => Seq::empty(),
    };
    let from = match remote_src {
        Some(s) => s,
        None => "/dev/stdin"@,
    };
    seq!["install"@] + o + g + m + seq![from, dest]
}

fn push_flag(command: &mut Vec<String>, flag: &str, value: &Option<String>)
    ensures
        strings_view(*final(command)) == strings_view(*old(command)) + match value {
            Some(v) => seq![flag@, v@],
            None => Seq::empty(),
        },
{
    let ghost before = strings_view(*command);
    match value {
        Some(v) => {
            command.push(flag.to_owned());
            command.push(v.clone());
            assert(strings_view(*command) =~= before + seq![flag@, v@]);
        },
        None => {
            assert(before + Seq::<Seq<char>>::empty() =~= before);
        },
    }
}

/// Builds the `install` command; the flag tells whether the contents come
/// through standard input.
pub fn build_install_command(
    dest: &String,
    remote_src: &Option<String>,
    owner: &Option<String>,
    group: &Option<String>,
    mode: &Option<String>,
) -> (r: (Vec<String>, bool))
    ensures
        strings_view(r.0) == install_argv(
            dest@,
            opt_string_view(*remote_src),
            opt_string_view(*owner),
            opt_string_view(*group),
            opt_string_view(*mode),
        ),
        r.1 == remote_src.is_none(),
{
    let mut command: Vec<String> = vec!["install".to_owned()];
    assert(strings_view(command) =~= seq!["install"@]);
    push_flag(&mut command, "-o", owner);
    push_flag(&mut command, "-g", group);
    push_flag(&mut command, "-m", mode);
    let ghost flags = strings_view(command);
    let use_pipe = match remote_src {
        Some(s) => {
            command.push(s.clone());
            command.push(dest.clone());
            false
        },
        None => {
            command.push("/dev/stdin".to_owned());
            command.push(dest.clone());
            true
        },
    };
    assert(strings_view(command) =~= flags + seq![
        match opt_string_view(*remote_src) {
            Some(s) => s,
            None => "/dev/stdin"@,
        },
        dest@,
    ]);
    (command, use_pipe)
}

/// `dir` joined with the relative path `name`.
pub open spec fn path_join(dir: Seq<char>, name: Seq<char>) -> Seq<char> {
    if dir.len() == 0 {
        name
    } else if dir.last() == '/' {
        dir + name
    } else {
        dir + "/"@ + name
    }
}

pub fn join(dir: &str, name: &str) -> (r: String)
    ensures
        r@ == path_join(dir@, name@),
{
    let n = dir.unicode_len();
    if n == 0 {
        name.to_owned()
    } else {
        let mut r = dir.to_owned();
        if dir.get_char(n - 1) != '/' {
            r.append("/");
        }
        r.append(name);
        r
    }
}

/// Candidates inside the role directories, in the order of `dirs`.
pub open spec fn role_candidates(dirs: Seq<Seq<char>>, sub: Seq<char>, name: Seq<char>) -> Seq<
    Seq<char>,
>
    decreases dirs.len(),
{
    if dirs.len() == 0 {
        Seq::empty()
    } else {
        role_candidates(dirs.drop_last(), sub, name) + seq![
            path_join(path_join(dirs.last(), sub), name),
            path_join(dirs.last(), name),
        ]
    }
}

/// Where a file named `name` is looked for, in order.
pub open spec fn candidates(
    dirs: Seq<Seq<char>>,
    basedir: Seq<char>,
    sub: Seq<char>,
    name: Seq<char>,
) -> Seq<Seq<char>> {
    if name.len() > 0 && name[0] == '/' {
        seq![name]
    } else {
        role_candidates(dirs, sub, name) + seq![
            path_join(basedir, name),
            path_join(path_join(basedir, sub), name),
        ]
    }
}

/// The paths where a local file or template named `name` may be, in the
/// order they are tried.
pub fn local_file_candidates(
    resource_dirs: &Vec<String>,
    play_basedir: &String,
    subdirectory: &str,
    name: &str,
) -> (r: Vec<String>)
    ensures
        strings_view(r) == candidates(
            strings_view(*resource_dirs),
            play_basedir@,
            subdirectory@,
            name@,
        ),
{
    let mut r: Vec<String> = Vec::new();
    if name.unicode_len() > 0 && name.get_char(0) == '/' {
        r.push(name.to_owned());
        assert(strings_view(r) =~= seq![name@]);
        return r;
    }
    let ghost dirs = strings_view(*resource_dirs);
    let mut i: usize = 0;
    assert(dirs.take(0) =~= Seq::<Seq<char>>::empty());
    while i < resource_dirs.len()
        invariant
            i <= resource_dirs.len(),
            dirs == strings_view(*resource_dirs),
            strings_view(r) == role_candidates(dirs.take(i as int), subdirectory@, name@),
        decreases resource_dirs.len() - i,
    {
        let dir = resource_dirs[i].as_str();
        let with_sub = join(dir, subdirectory);
        let ghost before = strings_view(r);
        r.push(join(with_sub.as_str(), name));
        r.push(join(dir, name));
        proof {
            let t = dirs.take(i + 1);
            assert(t.drop_last() =~= dirs.take(i as int));
            assert(t.last() == resource_dirs[i as int]@);
            assert(strings_view(r) =~= before + seq![
                path_join(path_join(t.last(), subdirectory@), name@),
                path_join(t.last(), name@),
            ]);
        }
        i = i + 1;
    }
    assert(dirs.take(i as int) =~= dirs);
    let ghost roles = strings_view(r);
    r.push(join(play_basedir.as_str(), name));
    let base_sub = join(play_basedir.as_str(), subdirectory);
    r.push(join(base_sub.as_str(), name));
    assert(strings_view(r) =~= roles + seq![
        path_join(play_basedir@, name@),
        path_join(path_join(play_basedir@, subdirectory@), name@),
    ]);
    r
}

/// Index of the first candidate that exists.
pub open spec fn first_existing(exists: Seq<bool>) -> Option<int>
    decreases exists.len(),
{
    if exists.len() == 0 {
        None
    } else if exists[0] {
        Some(0)
    } else {
        match first_existing(exists.drop_first()) {
            Some(i) => Some(i + 1),
            None => None,
        }
    }
}

/// The path of the first candidate that exists; an error naming the file
/// when none does.
pub fn pick_candidate(name: &str, candidates: &Vec<String>, exists: &Vec<bool>) -> (r: Result<
    String,
    ModuleError,
>)
    requires
        candidates.len() == exists.len(),
    ensures
        r matches Ok(p) ==> (first_existing(exists@) matches Some(i) && p@ == candidates[i]@),
        r matches Err(ModuleError::FileNotFound(n)) ==> n@ == name@,
        r is Err ==> r matches Err(ModuleError::FileNotFound(_)),
        r is Err <==> first_existing(exists@) is None,
{
    let mut i: usize = 0;
    assert(exists@.skip(0) =~= exists@);
    while i < exists.len()
        invariant
            i <= exists.len(),
            candidates.len() == exists.len(),
            first_existing(exists@) == (match first_existing(exists@.skip(i as int)) {
                Some(k) => Some(k + i),
                None => None,
            }),
        decreases exists.len() - i,
    {
        assert(exists@.skip(i as int).drop_first() =~= exists@.skip(i + 1));
        if exists[i] {
            return Ok(candidates[i].clone());
        }
        i = i + 1;
    }
    assert(exists@.skip(i as int) =~= Seq::<bool>::empty());
    Err(ModuleError::FileNotFound(name.to_owned()))
}

/// Why a module could not run.
#[derive(Debug, PartialEq)]
pub enum ModuleError {
    /// The arguments are malformed.
    Args(ArgError),
    /// A meta action that is not a string.
    UnknownMetaAction,
    /// A template whose source is on the target.
    UnsupportedTemplateSource,
    /// A template that could not be rendered.
    TemplateFailed,
    /// No module has this name.
    UnknownModule(String),
    /// A local file that is in none of the places searched.
    FileNotFound(String),
}

/// Arguments of `shell`.
#[derive(Debug, PartialEq)]
pub struct ShellTask {
    pub cmd: String,
    pub chdir: Option<String>,
    pub executable: Option<String>,
}

pub ghost struct ShellView {
    pub cmd: Seq<char>,
    pub chdir: Option<Seq<char>>,
    pub executable: Option<Seq<char>>,
}

impl View for ShellTask {
    type V = ShellView;

    open spec fn view(&self) -> ShellView {
        ShellView {
            cmd: self.cmd@,
            chdir: opt_string_view(self.chdir),
            executable: opt_string_view(self.executable),
        }
    }
}

pub open spec fn shell_args(v: YamlValue) -> Option<ShellView> {
    if is_record(v) && (field_of(v, "cmd"@) matches Some(YamlValue::Str(_))) && opt_string_field(
        v,
        "chdir"@,
    ) is Some && opt_string_field(v, "executable"@) is Some {
        Some(
            ShellView {
                cmd: field_of(v, "cmd"@)->0->Str_0,
                chdir: opt_string_field(v, "chdir"@)->0,
                executable: opt_string_field(v, "executable"@)->0,
            },
        )
    } else {
        None
    }
}

/// The shell command line: the executable (`/bin/sh` by default), `-c`,
/// and the command.
pub open spec fn shell_argv(t: ShellView) -> Seq<Seq<char>> {
    seq![
        match t.executable {
            Some(e) => e,
            None => "/bin/sh"@,
        },
        "-c"@,
        t.cmd,
    ]
}

impl ShellTask {
    pub fn from_yaml(v: &Yaml) -> (r: Result<ShellTask, ArgError>)
        ensures
            r matches Ok(t) ==> shell_args(v@) == Some(t@),
            r is Err ==> shell_args(v@) is None,
            !is_record(v@) ==> r matches Err(ArgError::NotAMapping),
    {
        match check_record(v) {
            Ok(()) => {},
            Err(e) => {
                return Err(e);
            },
        }
        let cmd = string(v, "cmd")?;
        let chdir = opt_string(v, "chdir")?;
        let executable = opt_string(v, "executable")?;
        Ok(ShellTask { cmd, chdir, executable })
    }

    /// The command that runs this shell task.
    pub fn command(&self) -> (r: RunCommandOpts)
        ensures
            r@ == (OptsView { command: shell_argv(self@), working_directory: self@.chdir, stdin: None }),
    {
        let executable = match &self.executable {
            Some(e) => e.clone(),
            None => "/bin/sh".to_owned(),
        };
        let command = vec![executable, "-c".to_owned(), self.cmd.clone()];
        let r = RunCommandOpts { command, working_directory: self.chdir.clone(), stdin: None };
        assert(r@.command =~= shell_argv(self@));
        r
    }
}

pub ghost enum StdinView {
    Text(Seq<char>),
    File(Seq<char>),
}

pub ghost struct OptsView {
    pub command: Seq<Seq<char>>,
    pub working_directory: Option<Seq<char>>,
    pub stdin: Option<StdinView>,
}

impl View for RunCommandOpts {
    type V = OptsView;

    open spec fn view(&self) -> OptsView {
        OptsView {
            command: strings_view(self.command),
            working_directory: opt_string_view(self.working_directory),
            stdin: match self.stdin {
                Some(StdinSource::Text(t)) => Some(StdinView::Text(t@)),
                Some(StdinSource::File(f)) => Some(StdinView::File(f@)),
                None => None,
            },
        }
    }
}

/// Which systemd instance a unit belongs to.
#[derive(Clone, Copy, Debug, PartialEq, Eq, Structural)]
pub enum Scope {
    System,
    User,
    Global,
}

/// The state a unit is brought to.
#[derive(Clone, Copy, Debug, PartialEq, Eq, Structural)]
pub enum State {
    Reloaded,
    Restarted,
    Started,
    Stopped,
}

/// Arguments of `systemd`.
#[derive(Debug, PartialEq)]
pub struct SystemdTask {
    pub daemon_reload: Option<bool>,
    pub enabled: Option<bool>,
    pub force: Option<bool>,
    pub masked: Option<bool>,
    pub name: Option<String>,
    /// Applies to state changes only.
    pub no_block: Option<bool>,
    pub scope: Option<Scope>,
    pub state: Option<State>,
}

pub ghost struct SystemdView {
    pub daemon_reload: Option<bool>,
    pub enabled: Option<bool>,
    pub force: Option<bool>,
    pub masked: Option<bool>,
    pub name: Option<Seq<char>>,
    pub no_block: Option<bool>,
    pub scope: Option<Scope>,
    pub state: Option<State>,
}

impl View for SystemdTask {
    type V = SystemdView;

    open spec fn view(&self) -> SystemdView {
        SystemdView {
            daemon_reload: self.daemon_reload,
            enabled: self.enabled,
            force: self.force,
            masked: self.masked,
            name: opt_string_view(self.name),
            no_block: self.no_block,
            scope: self.scope,
            state: self.state,
        }
    }
}

pub open spec fn scope_of(s: Seq<char>) -> Option<Scope> {
    if s == "system"@ {
        Some(Scope::System)
    } else if s == "user"@ {
        Some(Scope::User)
    } else if s == "global"@ {
        Some(Scope::Global)
    } else {
        None
    }
}

pub open spec fn state_of(s: Seq<char>) -> Option<State> {
    if s == "reloaded"@ {
        Some(State::Reloaded)
    } else if s == "restarted"@ {
        Some(State::Restarted)
    } else if s == "started"@ {
        Some(State::Started)
    } else if s == "stopped"@ {
        Some(State::Stopped)
    } else {
        None
    }
}

/// An optional scope: `None` marks a value that names no scope.
pub open spec fn scope_field(v: YamlValue) -> Option<Option<Scope>> {
    match opt_string_field(v, "scope"@) {
        Some(None) => Some(None),
        Some(Some(s)) => match scope_of(s) {
            Some(x) => Some(Some(x)),
            None => None,
        },
        None => None,
    }
}

/// An optional state: `None` marks a value that names no state.
pub open spec fn state_field(v: YamlValue) -> Option<Option<State>> {
    match opt_string_field(v, "state"@) {
        Some(None) => Some(None),
        Some(Some(s)) => match state_of(s) {
            Some(x) => Some(Some(x)),
            None => None,
        },
        None => None,
    }
}

/// `daemon_reload`, also accepted as `daemon-reload`.
pub open spec fn reload_field(v: YamlValue) -> Option<Option<bool>> {
    if field_of(v, "daemon_reload"@) is Some {
        opt_bool_field(v, "daemon_reload"@)
    } else {
        opt_bool_field(v, "daemon-reload"@)
    }
}

pub open spec fn systemd_args(v: YamlValue) -> Option<SystemdView> {
    if is_record(v) && reload_field(v) is Some && opt_bool_field(v, "enabled"@) is Some
        && opt_bool_field(v, "force"@) is Some && opt_bool_field(v, "masked"@) is Some
        && opt_string_field(v, "name"@) is Some && opt_bool_field(v, "no_block"@) is Some
        && scope_field(v) is Some && state_field(v) is Some {
        Some(
            SystemdView {
                daemon_reload: reload_field(v)->0,
                enabled: opt_bool_field(v, "enabled"@)->0,
                force: opt_bool_field(v, "force"@)->0,
                masked: opt_bool_field(v, "masked"@)->0,
                name: opt_string_field(v, "name"@)->0,
                no_block: opt_bool_field(v, "no_block"@)->0,
                scope: scope_field(v)->0,
                state: state_field(v)->0,
            },
        )
    } else {
        None
    }
}

fn text_is(s: &String, lit: &str) -> (r: bool)
    ensures
        r == (s@ == lit@),
{
    let l = lit.to_owned();
    *s == l
}

fn read_scope(v: &Yaml) -> (r: Result<Option<Scope>, ArgError>)
    ensures
        r matches Ok(o) ==> scope_field(v@) == Some(o),
        r is Err ==> scope_field(v@) is None,
{
    match opt_string(v, "scope")? {
        None => Ok(None),
        Some(s) => if text_is(&s, "system") {
            Ok(Some(Scope::System))
        } else if text_is(&s, "user") {
            Ok(Some(Scope::User))
        } else if text_is(&s, "global") {
            Ok(Some(Scope::Global))
        } else {
            Err(ArgError::Invalid("scope".to_owned()))
        },
    }
}

fn read_state(v: &Yaml) -> (r: Result<Option<State>, ArgError>)
    ensures
        r matches Ok(o) ==> state_field(v@) == Some(o),
        r is Err ==> state_field(v@) is None,
{
    match opt_string(v, "state")? {
        None => Ok(None),
        Some(s) => if text_is(&s, "reloaded") {
            Ok(Some(State::Reloaded))
        } else if text_is(&s, "restarted") {
            Ok(Some(State::Restarted))
        } else if text_is(&s, "started") {
            Ok(Some(State::Started))
        } else if text_is(&s, "stopped") {
            Ok(Some(State::Stopped))
        } else {
            Err(ArgError::Invalid("state".to_owned()))
        },
    }
}

pub open spec fn scope_flag(s: Option<Scope>) -> Seq<char> {
    match s {
        Some(Scope::Global) => "--global"@,
        Some(Scope::User) => "--user"@,
        _ => "--system"@,
    }
}

pub open spec fn state_verb(s: State) -> Seq<char> {
    match s {
        State::Reloaded => "reload"@,
        State::Restarted => "restart"@,
        State::Started => "start"@,
        State::Stopped => "stop"@,
    }
}

/// `systemctl <scope> <verb> [<flag>] <name>`.
pub open spec fn unit_argv(
    scope: Seq<char>,
    verb: Seq<char>,
    flag: Option<Seq<char>>,
    name: Seq<char>,
) -> Seq<Seq<char>> {
    seq!["systemctl"@, scope, verb] + match flag {
        Some(f) => seq![f],
        None => Seq::empty(),
    } + seq![name]
}

/// The `systemctl` commands of a systemd task, in order: daemon reload,
/// enable or disable, mask or unmask, state change. The flag is set when a
/// unit change lacks the unit name; the commands before it still run.
pub open spec fn systemd_plan(t: SystemdView) -> (Seq<Seq<Seq<char>>>, bool) {
    let flag = scope_flag(t.scope);
    let reload = if t.daemon_reload == Some(true) {
        seq![seq!["systemctl"@, flag, "daemon-reload"@]]
    } else {
        Seq::empty()
    };
    let force = if t.force == Some(true) {
        Some("--force"@)
    } else {
        None
    };
    if t.enabled is Some && t.name is None {
        (reload, true)
    } else {
        let enable = match t.enabled {
            Some(e) => seq![
                unit_argv(
                    flag,
                    if e {
                        "enable"@
                    } else {
                        "disable"@
                    },
                    force,
                    t.name->0,
                ),
            ],
            None => Seq::empty(),
        };
        if t.masked is Some && t.name is None {
            (reload + enable, true)
        } else {
            let mask = match t.masked {
                Some(m) => seq![
                    unit_argv(
                        flag,
                        if m {
                            "mask"@
                        } else {
                            "unmask"@
                        },
                        force,
                        t.name->0,
                    ),
                ],
                None => Seq::empty(),
            };
            if t.state is Some && t.name is None {
                (reload + enable + mask, true)
            } else {
                let state = match t.state {
                    Some(s) => seq![
                        unit_argv(
                            flag,
                            state_verb(s),
                            if t.no_block == Some(true) {
                                Some("--no-block"@)
                            } else {
                                None
                            },
                            t.name->0,
                        ),
                    ],
                    None => Seq::empty(),
                };
                (reload + enable + mask + state, false)
            }
        }
    }
}

fn unit_command(scope: &str, verb: &str, flag: Option<&str>, name: &String) -> (r: RunCommandOpts)
    ensures
        r@ == (OptsView {
            command: unit_argv(
                scope@,
                verb@,
                match flag {
                    Some(f) => Some(f@),
                    None => None,
                },
                name@,
            ),
            working_directory: None,
            stdin: None,
        }),
{
    let mut command = vec!["systemctl".to_owned(), scope.to_owned(), verb.to_owned()];
    match flag {
        Some(f) => command.push(f.to_owned()),
        None => {},
    }
    command.push(name.clone());
    let r = RunCommandOpts { command, working_directory: None, stdin: None };
    assert(r@.command =~= unit_argv(
        scope@,
        verb@,
        match flag {
            Some(f) => Some(f@),
            None => None,
        },
        name@,
    ));
    r
}

pub open spec fn opts_views(v: Vec<RunCommandOpts>) -> Seq<OptsView> {
    v@.map_values(|o: RunCommandOpts| o@)
}

/// Commands that run the argument vectors `argvs`, in order.
pub open spec fn plain_commands(argvs: Seq<Seq<Seq<char>>>) -> Seq<OptsView> {
    argvs.map_values(|c: Seq<Seq<char>>| OptsView { command: c, working_directory: None, stdin: None })
}

proof fn lemma_plain_push(argvs: Seq<Seq<Seq<char>>>, c: Seq<Seq<char>>)
    ensures
        plain_commands(argvs + seq![c]) == plain_commands(argvs).push(
            OptsView { command: c, working_directory: None, stdin: None },
        ),
{
    assert(plain_commands(argvs + seq![c]) =~= plain_commands(argvs).push(
        OptsView { command: c, working_directory: None, stdin: None },
    ));
}

impl SystemdTask {
    pub fn from_yaml(v: &Yaml) -> (r: Result<SystemdTask, ArgError>)
        ensures
            r matches Ok(t) ==> systemd_args(v@) == Some(t@),
            r is Err ==> systemd_args(v@) is None,
            !is_record(v@) ==> r matches Err(ArgError::NotAMapping),
    {
        match check_record(v) {
            Ok(()) => {},
            Err(e) => {
                return Err(e);
            },
        }
        let daemon_reload = if v.get("daemon_reload").is_some() {
            opt_bool(v, "daemon_reload")?
        } else {
            opt_bool(v, "daemon-reload")?
        };
        let enabled = opt_bool(v, "enabled")?;
        let force = opt_bool(v, "force")?;
        let masked = opt_bool(v, "masked")?;
        let name = opt_string(v, "name")?;
        let no_block = opt_bool(v, "no_block")?;
        let scope = read_scope(v)?;
        let state = read_state(v)?;
        Ok(SystemdTask { daemon_reload, enabled, force, masked, name, no_block, scope, state })
    }

    /// The commands to run, and whether the task then fails for want of a
    /// unit name.
    pub fn commands(&self) -> (r: (Vec<RunCommandOpts>, bool))
        ensures
            opts_views(r.0) == plain_commands(systemd_plan(self@).0),
            r.1 == systemd_plan(self@).1,
    {
        let scope = match self.scope {
            Some(Scope::Global) => "--global",
            Some(Scope::User) => "--user",
            _ => "--system",
        };
        let force = if self.force == Some(true) {
            Some("--force")
        } else {
            None
        };
        let ghost t = self@;
        let ghost argvs: Seq<Seq<Seq<char>>> = Seq::empty();
        let mut out: Vec<RunCommandOpts> = Vec::new();
        assert(opts_views(out) =~= plain_commands(argvs));
        if self.daemon_reload == Some(true) {
            out.push(unit_reload(scope));
            proof {
                lemma_plain_push(argvs, seq!["systemctl"@, scope@, "daemon-reload"@]);
                argvs = argvs + seq![seq!["systemctl"@, scope@, "daemon-reload"@]];
            }
            assert(opts_views(out) =~= plain_commands(argvs));
        }
        let name = match &self.name {
            Some(n) => n,
            None => {
                let missing = self.enabled.is_some() || self.masked.is_some()
                    || self.state.is_some();
                assert(argvs =~= systemd_plan(t).0);
                return (out, missing);
            },
        };
        match self.enabled {
            Some(e) => {
                let c = unit_command(
                    scope,
                    if e {
                        "enable"
                    } else {
                        "disable"
                    },
                    force,
                    name,
                );
                proof {
                    lemma_plain_push(argvs, c@.command);
                    argvs = argvs + seq![c@.command];
                }
                out.push(c);
                assert(opts_views(out) =~= plain_commands(argvs));
            },
            None => {},
        }
        match self.masked {
            Some(m) => {
                let c = unit_command(
                    scope,
                    if m {
                        "mask"
                    } else {
                        "unmask"
                    },
                    force,
                    name,
                );
                proof {
                    lemma_plain_push(argvs, c@.command);
                    argvs = argvs + seq![c@.command];
                }
                out.push(c);
                assert(opts_views(out) =~= plain_commands(argvs));
            },
            None => {},
        }
        match self.state {
            Some(s) => {
                let verb = match s {
                    State::Reloaded => "reload",
                    State::Restarted => "restart",
                    State::Started => "start",
                    State::Stopped => "stop",
                };
                let no_block = if self.no_block == Some(true) {
                    Some("--no-block")
                } else {
                    None
                };
                let c = unit_command(scope, verb, no_block, name);
                proof {
                    lemma_plain_push(argvs, c@.command);
                    argvs = argvs + seq![c@.command];
                }
                out.push(c);
                assert(opts_views(out) =~= plain_commands(argvs));
            },
            None => {},
        }
        assert(argvs =~= systemd_plan(t).0);
        (out, false)
    }
}

fn unit_reload(scope: &str) -> (r: RunCommandOpts)
    ensures
        r@ == (OptsView {
            command: seq!["systemctl"@, scope@, "daemon-reload"@],
            working_directory: None,
            stdin: None,
        }),
{
    let r = RunCommandOpts {
        command: vec!["systemctl".to_owned(), scope.to_owned(), "daemon-reload".to_owned()],
        working_directory: None,
        stdin: None,
    };
    assert(r@.command =~= seq!["systemctl"@, scope@, "daemon-reload"@]);
    r
}

/// What a `meta` task asks for.
#[derive(Clone, Copy, Debug, PartialEq, Eq, Structural)]
pub enum MetaTaskAction {
    FlushHandlers,
    Noop,
    ResetConnection,
    /// Any other action: logged, and otherwise ignored.
    Unhandled,
}

/// The action named by `meta`'s argument; `None` when it is not a string.
pub open spec fn meta_action_of(v: YamlValue) -> Option<MetaTaskAction> {
    match v {
        YamlValue::Str(s) => if s == "flush_handlers"@ {
            Some(MetaTaskAction::FlushHandlers)
        } else if s == "noop"@ {
            Some(MetaTaskAction::Noop)
        } else if s == "reset_connection"@ {
            Some(MetaTaskAction::ResetConnection)
        } else {
            Some(MetaTaskAction::Unhandled)
        },
        _ => None,
    }
}

pub fn meta_action(v: &Yaml) -> (r: Option<MetaTaskAction>)
    ensures
        r == meta_action_of(v@),
{
    match v {
        Yaml::String(s) => if text_is(s, "flush_handlers") {
            Some(MetaTaskAction::FlushHandlers)
        } else if text_is(s, "noop") {
            Some(MetaTaskAction::Noop)
        } else if text_is(s, "reset_connection") {
            Some(MetaTaskAction::ResetConnection)
        } else {
            Some(MetaTaskAction::Unhandled)
        },
        _ => None,
    }
}

/// Arguments of `curl`.
#[derive(Debug, PartialEq)]
pub struct Curl {
    pub url: String,
    pub method: Option<String>,
    pub headers: Option<Vec<(String, String)>>,
}

/// A mapping from strings to strings; null means none.
pub open spec fn headers_of(v: YamlValue) -> Option<Option<Seq<(Seq<char>, Seq<char>)>>> {
    match field_of(v, "headers"@) {
        None => Some(None),
        Some(YamlValue::Null) => Some(None),
        Some(YamlValue::Mapping(e)) => if forall|i: int|
            0 <= i < e.len() ==> (#[trigger] e[i]).0 is Str && e[i].1 is Str {
            Some(Some(e.map_values(|p: (YamlValue, YamlValue)| (p.0->Str_0, p.1->Str_0))))
        } else {
            None
        },
        _ => None,
    }
}

pub ghost struct CurlView {
    pub url: Seq<char>,
    pub method: Option<Seq<char>>,
    pub headers: Option<Seq<(Seq<char>, Seq<char>)>>,
}

impl View for Curl {
    type V = CurlView;

    open spec fn view(&self) -> CurlView {
        CurlView {
            url: self.url@,
            method: opt_string_view(self.method),
            headers: match self.headers {
                Some(h) => Some(h@.map_values(|p: (String, String)| (p.0@, p.1@))),
                None => None,
            },
        }
    }
}

pub open spec fn curl_args(v: YamlValue) -> Option<CurlView> {
    if is_record(v) && (field_of(v, "url"@) matches Some(YamlValue::Str(_))) && opt_string_field(
        v,
        "method"@,
    ) is Some && headers_of(v) is Some {
        Some(
            CurlView {
                url: field_of(v, "url"@)->0->Str_0,
                method: opt_string_field(v, "method"@)->0,
                headers: headers_of(v)->0,
            },
        )
    } else {
        None
    }
}

/// The `curl` command line: the method and each header as a flag, then the
/// URL.
pub open spec fn curl_argv(c: CurlView) -> Seq<Seq<char>> {
    seq!["curl"@] + match c.method {
        Some(m) => seq!["--request="@ + m],
        None => Seq::empty(),
    } + match c.headers {
        Some(h) => h.map_values(|p: (Seq<char>, Seq<char>)| "--header="@ + p.0 + ": "@ + p.1),
        None => Seq::empty(),
    } + seq![c.url]
}

fn read_headers(v: &Yaml) -> (r: Result<Option<Vec<(String, String)>>, ArgError>)
    ensures
        r matches Ok(o) ==> headers_of(v@) == Some(
            match o {
                Some(h) => Some(h@.map_values(|p: (String, String)| (p.0@, p.1@))),
                None => None,
            },
        ),
        r is Err ==> headers_of(v@) is None,
{
    match v.get("headers") {
        None => Ok(None),
        Some(Yaml::Null) => Ok(None),
        Some(m) => match m {
            Yaml::Mapping(entries) => {
                proof {
                    m.lemma_mapping_view();
                }
                assert(field_of(v@, "headers"@) == Some(m@));
                let mut out: Vec<(String, String)> = Vec::new();
                let mut i: usize = 0;
                while i < entries.len()
                    invariant
                        *m == Yaml::Mapping(*entries),
                        field_of(v@, "headers"@) == Some(m@),
                        m@->Mapping_0.len() == entries.len(),
                        forall|j: int|
                            0 <= j < entries.len() ==> #[trigger] m@->Mapping_0[j] == (
                                entries[j].0@,
                                entries[j].1@,
                            ),
                        i <= entries.len(),
                        out.len() == i,
                        forall|j: int|
                            0 <= j < i ==> (#[trigger] entries[j].0@) == YamlValue::Str(out[j].0@)
                                && entries[j].1@ == YamlValue::Str(out[j].1@),
                    decreases entries.len() - i,
                {
                    match (&entries[i].0, &entries[i].1) {
                        (Yaml::String(k), Yaml::String(x)) => out.push((k.clone(), x.clone())),
                        _ => {
                            assert(!(m@->Mapping_0[i as int].0 is Str && m@->Mapping_0[i as int].1 is Str));
                            assert(!(forall|j: int|
                                0 <= j < m@->Mapping_0.len() ==> (#[trigger] m@->Mapping_0[j]).0 is Str
                                    && m@->Mapping_0[j].1 is Str));
                            return Err(ArgError::Invalid("headers".to_owned()));
                        },
                    }
                    i = i + 1;
                }
                assert(out@.map_values(|p: (String, String)| (p.0@, p.1@)) =~= m@->Mapping_0.map_values(
                    |p: (YamlValue, YamlValue)| (p.0->Str_0, p.1->Str_0),
                ));
                Ok(Some(out))
            },
            _ => Err(ArgError::Invalid("headers".to_owned())),
        },
    }
}

impl Curl {
    pub fn from_yaml(v: &Yaml) -> (r: Result<Curl, ArgError>)
        ensures
            r matches Ok(t) ==> curl_args(v@) == Some(t@),
            r is Err ==> curl_args(v@) is None,
            !is_record(v@) ==> r matches Err(ArgError::NotAMapping),
    {
        match check_record(v) {
            Ok(()) => {},
            Err(e) => {
                return Err(e);
            },
        }
        let url = string(v, "url")?;
        let method = opt_string(v, "method")?;
        let headers = read_headers(v)?;
        Ok(Curl { url, method, headers })
    }

    pub fn command(&self) -> (r: RunCommandOpts)
        ensures
            r@ == (OptsView { command: curl_argv(self@), working_directory: None, stdin: None }),
    {
        let mut command: Vec<String> = vec!["curl".to_owned()];
        let ghost start: Seq<Seq<char>> = seq!["curl"@];
        assert(strings_view(command) =~= start);
        match &self.method {
            Some(m) => {
                let mut flag = "--request=".to_owned();
                flag.append(m.as_str());
                command.push(flag);
            },
            None => {},
        }
        let ghost with_method = strings_view(command);
        assert(with_method =~= start + match self@.method {
            Some(m) => seq!["--request="@ + m],
            None => Seq::empty(),
        });
        let empty: Vec<(String, String)> = Vec::new();
        let headers = match &self.headers {
            Some(h) => h,
            None => &empty,
        };
        let ghost hs = headers@.map_values(|p: (String, String)| (p.0@, p.1@));
        let mut i: usize = 0;
        while i < headers.len()
            invariant
                i <= headers.len(),
                hs == headers@.map_values(|p: (String, String)| (p.0@, p.1@)),
                command.len() == with_method.len() + i,
                forall|j: int| 0 <= j < with_method.len() ==> #[trigger] command[j]@ == with_method[j],
                forall|j: int|
                    0 <= j < i ==> #[trigger] command[with_method.len() + j]@ == "--header="@
                        + hs[j].0 + ": "@ + hs[j].1,
            decreases headers.len() - i,
        {
            let mut flag = "--header=".to_owned();
            flag.append(headers[i].0.as_str());
            flag.append(": ");
            flag.append(headers[i].1.as_str());
            command.push(flag);
            i = i + 1;
        }
        assert(strings_view(command) =~= with_method + hs.map_values(
            |p: (Seq<char>, Seq<char>)| "--header="@ + p.0 + ": "@ + p.1,
        )) by {
            assert forall|j: int| with_method.len() <= j < command.len() implies #[trigger] command[j]@
                == "--header="@ + hs[j - with_method.len()].0 + ": "@ + hs[j - with_method.len()].1 by {
                assert(command[with_method.len() + (j - with_method.len())] == command[j]);
            }
        }
        assert(hs =~= match self@.headers {
            Some(h) => h,
            None => Seq::empty(),
        });
        let ghost with_headers = strings_view(command);
        command.push(self.url.clone());
        assert(strings_view(command) =~= with_headers.push(self.url@));
        let r = RunCommandOpts { command, working_directory: None, stdin: None };
        assert(r@.command =~= curl_argv(self@));
        r
    }
}

/// Where a template's text comes from.
#[derive(Debug, PartialEq)]
pub enum TemplateSource {
    /// This text.
    Inline(String),
    /// The local template file of this name.
    Local(String),
}

pub ghost enum TemplateSourceView {
    Inline(Seq<char>),
    Local(Seq<char>),
}

/// What the engine does to carry out a task.
#[derive(Debug, PartialEq)]
pub enum TaskAction {
    /// Run these commands in order; then fail for want of a unit name when
    /// the flag is set.
    Commands { commands: Vec<RunCommandOpts>, missing_name: bool },
    /// Install a local file, found by its name, through `command`'s
    /// standard input.
    InstallLocal { command: Vec<String>, file: String },
    /// Render a template with the facts and install the result through
    /// `command`'s standard input.
    RenderTemplate { command: Vec<String>, source: TemplateSource },
    /// Run the pending handlers.
    FlushHandlers,
    /// Reset the connection to the target.
    ResetConnection,
    /// Nothing more to do.
    Nothing,
}

pub ghost enum ActionView {
    Commands { commands: Seq<OptsView>, missing_name: bool },
    InstallLocal { command: Seq<Seq<char>>, file: Seq<char> },
    RenderTemplate { command: Seq<Seq<char>>, source: TemplateSourceView },
    FlushHandlers,
    ResetConnection,
    Nothing,
}

impl View for TaskAction {
    type V = ActionView;

    open spec fn view(&self) -> ActionView {
        match self {
            TaskAction::Commands { commands, missing_name } => ActionView::Commands {
                commands: opts_views(*commands),
                missing_name: *missing_name,
            },
            TaskAction::InstallLocal { command, file } => ActionView::InstallLocal {
                command: strings_view(*command),
                file: file@,
            },
            TaskAction::RenderTemplate { command, source } => ActionView::RenderTemplate {
                command: strings_view(*command),
                source: match source {
                    TemplateSource::Inline(t) => TemplateSourceView::Inline(t@),
                    TemplateSource::Local(f) => TemplateSourceView::Local(f@),
                },
            },
            TaskAction::FlushHandlers => ActionView::FlushHandlers,
            TaskAction::ResetConnection => ActionView::ResetConnection,
            TaskAction::Nothing => ActionView::Nothing,
        }
    }
}

/// The `install` command of a copy or template task.
pub open spec fn copy_install_argv(c: CopyView) -> Seq<Seq<char>> {
    install_argv(
        c.dest,
        match c.src {
            SourceView::File { file, remote_src: true } => Some(file),
            _ => None,
        },
        c.owner,
        c.group,
        c.mode,
    )
}

/// What `copy` does: pipe inline content, install a file already on the
/// target, or pipe a local file.
pub open spec fn copy_action(c: CopyView) -> ActionView {
    match c.src {
        SourceView::Content { content } => ActionView::Commands {
            commands: seq![
                OptsView {
                    command: copy_install_argv(c),
                    working_directory: None,
                    stdin: Some(StdinView::Text(content)),
                },
            ],
            missing_name: false,
        },
        SourceView::File { file, remote_src: true } => ActionView::Commands {
            commands: seq![
                OptsView { command: copy_install_argv(c), working_directory: None, stdin: None },
            ],
            missing_name: false,
        },
        SourceView::File { file, remote_src: false } => ActionView::InstallLocal {
            command: copy_install_argv(c),
            file,
        },
    }
}

/// What `template` does; a template on the target is not supported.
pub open spec fn template_action(c: CopyView) -> Option<ActionView> {
    match c.src {
        SourceView::Content { content } => Some(
            ActionView::RenderTemplate {
                command: copy_install_argv(c),
                source: TemplateSourceView::Inline(content),
            },
        ),
        SourceView::File { file, remote_src: false } => Some(
            ActionView::RenderTemplate {
                command: copy_install_argv(c),
                source: TemplateSourceView::Local(file),
            },
        ),
        SourceView::File { remote_src: true, .. } => None,
    }
}

/// What the module named `name` does with arguments `v`; `None` when the
/// module is unknown or rejects them.
pub open spec fn module_action(name: Seq<char>, v: YamlValue) -> Option<ActionView> {
    if name == "ansible.builtin.copy"@ {
        match copy_args(v) {
            Some(c) => Some(copy_action(c)),
            None => None,
        }
    } else if name == "ansible.builtin.template"@ {
        match copy_args(v) {
            Some(c) => template_action(c),
            None => None,
        }
    } else if name == "ansible.builtin.shell"@ {
        match shell_args(v) {
            Some(t) => Some(
                ActionView::Commands {
                    commands: seq![
                        OptsView {
                            command: shell_argv(t),
                            working_directory: t.chdir,
                            stdin: None,
                        },
                    ],
                    missing_name: false,
                },
            ),
            None => None,
        }
    } else if name == "ansible.builtin.systemd_service"@ {
        match systemd_args(v) {
            Some(t) => Some(
                ActionView::Commands {
                    commands: plain_commands(systemd_plan(t).0),
                    missing_name: systemd_plan(t).1,
                },
            ),
            None => None,
        }
    } else if name == "ansible.builtin.set_fact"@ {
        match string_table_of(v) {
            Some(_) => Some(ActionView::Nothing),
            None => None,
        }
    } else if name == "ansible.builtin.meta"@ {
        match meta_action_of(v) {
            Some(MetaTaskAction::FlushHandlers) => Some(ActionView::FlushHandlers),
            Some(MetaTaskAction::ResetConnection) => Some(ActionView::ResetConnection),
            Some(_) => Some(ActionView::Nothing),
            None => None,
        }
    } else if name == "kerosene.builtin.curl"@ {
        match curl_args(v) {
            Some(c) => Some(
                ActionView::Commands {
                    commands: seq![
                        OptsView { command: curl_argv(c), working_directory: None, stdin: None },
                    ],
                    missing_name: false,
                },
            ),
            None => None,
        }
    } else if name == "ansible.builtin.import_tasks"@ {
        Some(ActionView::Nothing)
    } else {
        None
    }
}

fn copy_plan(c: &CopyTask) -> (r: TaskAction)
    ensures
        r@ == copy_action(c@),
{
    let remote = c.remote_source();
    let (command, _use_pipe) = build_install_command(&c.dest, &remote, &c.owner, &c.group, &c.mode);
    match &c.src {
        CopyTaskSource::Content { content } => {
            let opts = RunCommandOpts {
                command,
                working_directory: None,
                stdin: Some(StdinSource::Text(content.clone())),
            };
            let commands = vec![opts];
            assert(opts_views(commands) =~= seq![commands[0]@]);
            TaskAction::Commands { commands, missing_name: false }
        },
        CopyTaskSource::File { file, remote_src } => if *remote_src {
            let opts = RunCommandOpts { command, working_directory: None, stdin: None };
            let commands = vec![opts];
            assert(opts_views(commands) =~= seq![commands[0]@]);
            TaskAction::Commands { commands, missing_name: false }
        } else {
            TaskAction::InstallLocal { command, file: file.clone() }
        },
    }
}

fn template_plan(c: &CopyTask) -> (r: Result<TaskAction, ModuleError>)
    ensures
        r matches Ok(a) ==> template_action(c@) == Some(a@),
        r is Err ==> template_action(c@) is None,
{
    let remote = c.remote_source();
    let (command, _use_pipe) = build_install_command(&c.dest, &remote, &c.owner, &c.group, &c.mode);
    match &c.src {
        CopyTaskSource::Content { content } => Ok(
            TaskAction::RenderTemplate { command, source: TemplateSource::Inline(content.clone()) },
        ),
        CopyTaskSource::File { file, remote_src } => if *remote_src {
            Err(ModuleError::UnsupportedTemplateSource)
        } else {
            Ok(TaskAction::RenderTemplate { command, source: TemplateSource::Local(file.clone()) })
        },
    }
}

/// Carries out the in-memory part of the module named `name` (the
/// canonical name of a task's identity) and says what else the task needs:
/// `set_fact` stores its facts here; the other modules leave the facts alone.
pub fn run_module(ctx: &mut TaskContextInner, name: &str, args: &Yaml) -> (r: Result<
    TaskAction,
    ModuleError,
>)
    ensures
        r matches Ok(a) ==> module_action(name@, args@) == Some(a@),
        r is Err ==> module_action(name@, args@) is None,
        (name@ == "ansible.builtin.set_fact"@ && string_table_of(args@) is Some)
            ==> final(ctx).facts_map() == old(ctx).facts_map().union_prefer_right(
            to_map(string_table_of(args@)->0),
        ),
        !(name@ == "ansible.builtin.set_fact"@ && string_table_of(args@) is Some)
            ==> final(ctx).facts_map() == old(ctx).facts_map(),
        final(ctx).known_map() == old(ctx).known_map(),
        final(ctx).pending() == old(ctx).pending(),
        final(ctx).command_target == old(ctx).command_target,
        final(ctx).do_become_user == old(ctx).do_become_user,
        final(ctx).resource_dirs == old(ctx).resource_dirs,
        final(ctx).play_basedir == old(ctx).play_basedir,
{
    proof {
        reveal_strlit("ansible.builtin.set_fact");
        reveal_strlit("ansible.builtin.copy");
        reveal_strlit("ansible.builtin.template");
        reveal_strlit("ansible.builtin.shell");
        reveal_strlit("ansible.builtin.systemd_service");
        reveal_strlit("ansible.builtin.meta");
        reveal_strlit("kerosene.builtin.curl");
        reveal_strlit("ansible.builtin.import_tasks");
        assert("ansible.builtin.set_fact"@[16] != "ansible.builtin.template"@[16]);
        assert("ansible.builtin.set_fact"@[17] != "ansible.builtin.shell"@[17]);
        assert("ansible.builtin.set_fact"@[17] != "ansible.builtin.systemd_service"@[17]);
    }
    let n = name.to_owned();
    if text_is(&n, "ansible.builtin.copy") {
        match CopyTask::from_yaml(args) {
            Ok(c) => Ok(copy_plan(&c)),
            Err(e) => Err(ModuleError::Args(e)),
        }
    } else if text_is(&n, "ansible.builtin.template") {
        match CopyTask::from_yaml(args) {
            Ok(c) => template_plan(&c),
            Err(e) => Err(ModuleError::Args(e)),
        }
    } else if text_is(&n, "ansible.builtin.shell") {
        match ShellTask::from_yaml(args) {
            Ok(t) => {
                let commands = vec![t.command()];
                assert(opts_views(commands) =~= seq![commands[0]@]);
                Ok(TaskAction::Commands { commands, missing_name: false })
            },
            Err(e) => Err(ModuleError::Args(e)),
        }
    } else if text_is(&n, "ansible.builtin.systemd_service") {
        match SystemdTask::from_yaml(args) {
            Ok(t) => {
                let (commands, missing_name) = t.commands();
                Ok(TaskAction::Commands { commands, missing_name })
            },
            Err(e) => Err(ModuleError::Args(e)),
        }
    } else if text_is(&n, "ansible.builtin.set_fact") {
        match string_table(args) {
            Some(facts) => {
                assert(facts_view(facts) =~= opt_vars(Some(facts))->0);
                ctx.set_facts(&facts);
                assert(string_table_of(args@) == opt_vars(Some(facts)));
                assert(ctx.facts_map() == old(ctx).facts_map().union_prefer_right(
                    to_map(string_table_of(args@)->0)));
                Ok(TaskAction::Nothing)
            },
            None => Err(ModuleError::Args(ArgError::NotAMapping)),
        }
    } else if text_is(&n, "ansible.builtin.meta") {
        match meta_action(args) {
            Some(MetaTaskAction::FlushHandlers) => Ok(TaskAction::FlushHandlers),
            Some(MetaTaskAction::ResetConnection) => Ok(TaskAction::ResetConnection),
            Some(_) => Ok(TaskAction::Nothing),
            None => Err(ModuleError::UnknownMetaAction),
        }
    } else if text_is(&n, "kerosene.builtin.curl") {
        match Curl::from_yaml(args) {
            Ok(c) => {
                let commands = vec![c.command()];
                assert(opts_views(commands) =~= seq![commands[0]@]);
                Ok(TaskAction::Commands { commands, missing_name: false })
            },
            Err(e) => Err(ModuleError::Args(e)),
        }
    } else if text_is(&n, "ansible.builtin.import_tasks") {
        Ok(TaskAction::Nothing)
    } else {
        Err(ModuleError::UnknownModule(n))
    }
}

} // verus!
