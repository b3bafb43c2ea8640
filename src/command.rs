use vstd::prelude::*;

verus! {

/// Where commands run: this machine, or a host reached over SSH.
#[derive(Debug, PartialEq)]
pub enum CommandTarget {
    Local { elevate: Option<Vec<String>>, dry: bool },
    Remote { hostname: String, user: Option<String>, elevate: Option<Vec<String>>, dry: bool },
}

pub ghost enum TargetView {
    Local { elevate: Option<Seq<Seq<char>>>, dry: bool },
    Remote {
        hostname: Seq<char>,
        user: Option<Seq<char>>,
        elevate: Option<Seq<Seq<char>>>,
        dry: bool,
    },
}

pub open spec fn opt_strs_view(o: Option<Vec<String>>) -> Option<Seq<Seq<char>>> {
    match o {
        Some(v) => Some(v@.map_values(|s: String| s@)),
        None => None,
    }
}

impl View for CommandTarget {
    type V = TargetView;

    open spec fn view(&self) -> TargetView {
        match self {
            CommandTarget::Local { elevate, dry } => TargetView::Local {
                elevate: opt_strs_view(*elevate),
                dry: *dry,
            },
            CommandTarget::Remote { hostname, user, elevate, dry } => TargetView::Remote {
                hostname: hostname@,
                user: match user {
                    Some(u) => Some(u@),
                    None => None,
                },
                elevate: opt_strs_view(*elevate),
                dry: *dry,
            },
        }
    }
}

impl TargetView {
    pub open spec fn dry(self) -> bool {
        match self {
            TargetView::Local { dry, .. } => dry,
            TargetView::Remote { dry, .. } => dry,
        }
    }

    /// The same target, with its elevation prefix replaced.
    pub open spec fn with_elevate(self, elevate: Option<Seq<Seq<char>>>) -> TargetView {
        match self {
            TargetView::Local { dry, .. } => TargetView::Local { elevate, dry },
            TargetView::Remote { hostname, user, dry, .. } => TargetView::Remote {
                hostname,
                user,
                elevate,
                dry,
            },
        }
    }
}

impl Default for CommandTarget {
    fn default() -> (r: CommandTarget)
        ensures
            r@ == (TargetView::Local { elevate: None, dry: false }),
    {
        CommandTarget::Local { elevate: None, dry: false }
    }
}

pub open spec fn strings_view(v: Vec<String>) -> Seq<Seq<char>> {
    v@.map_values(|s: String| s@)
}

/// Appends `src[from..]` to `dst`.
pub fn extend_strings(dst: &mut Vec<String>, src: &Vec<String>, from: usize)
    requires
        from <= src.len(),
    ensures
        strings_view(*final(dst)) == strings_view(*old(dst)) + strings_view(*src).subrange(
            from as int,
            src.len() as int,
        ),
{
    let ghost start = dst@;
    let mut i: usize = from;
    while i < src.len()
        invariant
            from <= i <= src.len(),
            dst.len() == start.len() + (i - from),
            forall|j: int| 0 <= j < start.len() ==> #[trigger] dst[j] == start[j],
            forall|j: int| from <= j < i ==> #[trigger] dst[start.len() + j - from]@ == src[j]@,
        decreases src.len() - i,
    {
        dst.push(src[i].clone());
        i = i + 1;
    }
    assert(strings_view(*dst) =~= strings_view(*old(dst)) + strings_view(*src).subrange(
        from as int,
        src.len() as int,
    )) by {
        assert forall|j: int| start.len() <= j < dst.len() implies #[trigger] dst[j]@ == src[j - start.len() + from]@ by {
            assert(dst[start.len() + (j - start.len() + from) - from] == dst[j]);
        }
    }
}

pub fn copy_strings(v: &Vec<String>) -> (r: Vec<String>)
    ensures
        r@.map_values(|s: String| s@) == v@.map_values(|s: String| s@),
{
    let mut out: Vec<String> = Vec::new();
    let mut i: usize = 0;
    while i < v.len()
        invariant
            i <= v.len(),
            out.len() == i,
            forall|j: int| 0 <= j < i ==> (#[trigger] out[j])@ == v[j]@,
        decreases v.len() - i,
    {
        out.push(v[i].clone());
        i = i + 1;
    }
    assert(out@.map_values(|s: String| s@) =~= v@.map_values(|s: String| s@));
    out
}

fn copy_opt_strings(v: &Option<Vec<String>>) -> (r: Option<Vec<String>>)
    ensures
        opt_strs_view(r) == opt_strs_view(*v),
{
    match v {
        Some(v) => Some(copy_strings(v)),
        None => None,
    }
}

impl CommandTarget {
    pub fn copy(&self) -> (r: CommandTarget)
        ensures
            r@ == self@,
    {
        match self {
            CommandTarget::Local { elevate, dry } => CommandTarget::Local {
                elevate: copy_opt_strings(elevate),
                dry: *dry,
            },
            CommandTarget::Remote { hostname, user, elevate, dry } => CommandTarget::Remote {
                hostname: hostname.clone(),
                user: user.clone(),
                elevate: copy_opt_strings(elevate),
                dry: *dry,
            },
        }
    }

    /// The same target, with its elevation prefix replaced.
    pub fn with_elevate(&self, elevate: Option<Vec<String>>) -> (r: CommandTarget)
        ensures
            r@ == self@.with_elevate(opt_strs_view(elevate)),
    {
        match self {
            CommandTarget::Local { dry, .. } => CommandTarget::Local { elevate, dry: *dry },
            CommandTarget::Remote { hostname, user, dry, .. } => CommandTarget::Remote {
                hostname: hostname.clone(),
                user: user.clone(),
                elevate,
                dry: *dry,
            },
        }
    }
}

/// One character as it must be passed through SSH: a backslash is doubled.
pub open spec fn escape_char(c: char) -> Seq<char> {
    if c == '\\' {
        seq!['\\', '\\']
    } else {
        seq![c]
    }
}

/// `s` with every backslash doubled.
pub open spec fn escape(s: Seq<char>) -> Seq<char>
    decreases s.len(),
{
    if s.len() == 0 {
        Seq::empty()
    } else {
        escape(s.drop_last()) + escape_char(s.last())
    }
}

/// Doubles every backslash of `s`, since the remote shell interprets them
/// once more.
pub fn escape_backslashes(s: &str) -> (r: String)
    ensures
        r@ == escape(s@),
{
    let n = s.unicode_len();
    let mut out = String::new();
    let mut i: usize = 0;
    while i < n
        invariant
            n == s@.len(),
            i <= n,
            out@ == escape(s@.take(i as int)),
        decreases n - i,
    {
        let c = s.get_char(i);
        assert(s@.take(i + 1).drop_last() =~= s@.take(i as int));
        if c == '\\' {
            out.append("\\\\");
            proof {
                reveal_strlit("\\\\");
            }
        } else {
            out.append(s.substring_char(i, i + 1));
            assert(s@.subrange(i as int, i + 1) =~= seq![c]);
        }
        i = i + 1;
    }
    assert(s@.take(n as int) =~= s@);
    out
}

pub open spec fn escape_all(v: Seq<Seq<char>>) -> Seq<Seq<char>> {
    v.map_values(|s: Seq<char>| escape(s))
}

/// The SSH destination: `user@host`, or the host alone.
pub open spec fn destination(hostname: Seq<char>, user: Option<Seq<char>>) -> Seq<char> {
    match user {
        Some(u) => u + "@"@ + hostname,
        None => hostname,
    }
}

/// What runs for a command: the program and its arguments.
pub open spec fn prepared(
    target: TargetView,
    command: Seq<char>,
    args: Seq<Seq<char>>,
    working_directory: Option<Seq<char>>,
    read_only: bool,
) -> (Seq<char>, Seq<Seq<char>>) {
    if !read_only && target.dry() {
        ("true"@, Seq::empty())
    } else {
        match target {
            TargetView::Local { elevate: None, .. } => (command, args),
            TargetView::Local { elevate: Some(e), .. } => (e[0], e.drop_first() + seq![command]
                + args),
            TargetView::Remote { hostname, user, elevate, .. } => {
                let elevation = match elevate {
                    Some(e) => e,
                    None => Seq::empty(),
                };
                let chdir = match working_directory {
                    Some(d) => seq!["env"@, "--chdir"@, d],
                    None => Seq::empty(),
                };
                (
                    "ssh"@,
                    escape_all(seq![destination(hostname, user)] + chdir + elevation + seq![command]
                        + args),
                )
            },
        }
    }
}

/// Whether the target's elevation prefix, if any, names a program.
pub open spec fn elevation_ok(target: TargetView) -> bool {
    match target {
        TargetView::Local { elevate: Some(e), .. } => e.len() > 0,
        _ => true,
    }
}

/// A command ready to be run on a target.
#[derive(Debug)]
pub struct PreparedCommand<'a> {
    pub target: &'a CommandTarget,
    pub command: String,
    pub args: Vec<String>,
    pub working_directory: Option<String>,
    /// This command does not change system state.
    pub read_only: bool,
}

impl<'a> PreparedCommand<'a> {
    pub open spec fn args_view(&self) -> Seq<Seq<char>> {
        self.args@.map_values(|s: String| s@)
    }

    pub open spec fn wd_view(&self) -> Option<Seq<char>> {
        match self.working_directory {
            Some(d) => Some(d@),
            None => None,
        }
    }

    /// What this command runs as.
    pub open spec fn spec_prepared(&self) -> (Seq<char>, Seq<Seq<char>>) {
        prepared(self.target@, self.command@, self.args_view(), self.wd_view(), self.read_only)
    }

    pub fn new(target: &'a CommandTarget, cmd: &str) -> (r: PreparedCommand<'a>)
        ensures
            r.target == target,
            r.command@ == cmd@,
            r.args@.len() == 0,
            r.working_directory is None,
            !r.read_only,
    {
        PreparedCommand {
            target,
            command: cmd.to_owned(),
            args: Vec::new(),
            working_directory: None,
            read_only: false,
        }
    }

    pub fn read_only(&mut self)
        ensures
            final(self).read_only,
            final(self).target == old(self).target,
            final(self).command == old(self).command,
            final(self).args == old(self).args,
            final(self).working_directory == old(self).working_directory,
    {
        self.read_only = true;
    }

    pub fn arg(&mut self, arg: &str)
        ensures
            final(self).args_view() == old(self).args_view().push(arg@),
            final(self).target == old(self).target,
            final(self).command == old(self).command,
            final(self).working_directory == old(self).working_directory,
            final(self).read_only == old(self).read_only,
    {
        self.args.push(arg.to_owned());
        assert(self.args_view() =~= old(self).args_view().push(arg@));
    }

    pub fn args(&mut self, args: &Vec<String>)
        ensures
            final(self).args_view() == old(self).args_view() + args@.map_values(|s: String| s@),
            final(self).target == old(self).target,
            final(self).command == old(self).command,
            final(self).working_directory == old(self).working_directory,
            final(self).read_only == old(self).read_only,
    {
        let ghost start = self.args_view();
        let mut i: usize = 0;
        while i < args.len()
            invariant
                i <= args.len(),
                self.args_view() == start + args@.map_values(|s: String| s@).take(i as int),
                self.target == old(self).target,
                self.command == old(self).command,
                self.working_directory == old(self).working_directory,
                self.read_only == old(self).read_only,
            decreases args.len() - i,
        {
            self.arg(args[i].as_str());
            assert(args@.map_values(|s: String| s@).take(i + 1) =~= args@.map_values(
                |s: String| s@,
            ).take(i as int).push(args[i as int]@));
            i = i + 1;
        }
        assert(args@.map_values(|s: String| s@).take(i as int) =~= args@.map_values(
            |s: String| s@,
        ));
    }

    pub fn chdir(&mut self, working_directory: Option<String>)
        ensures
            final(self).wd_view() == (match working_directory {
                Some(d) => Some(d@),
                None => None,
            }),
            final(self).target == old(self).target,
            final(self).command == old(self).command,
            final(self).args == old(self).args,
            final(self).read_only == old(self).read_only,
    {
        self.working_directory = working_directory;
    }

    /// The program and arguments to run: `true` for a dry run of a command
    /// that changes state; locally, the elevation prefix before the command;
    /// for a remote target, `ssh`, the destination, `env --chdir <dir>` when
    /// a working directory is set, the elevation prefix, the command and its
    /// arguments, every argument after `ssh` escaped.
    pub fn prepare(&self) -> (r: (String, Vec<String>))
        requires
            elevation_ok(self.target@),
        ensures
            r.0@ == self.spec_prepared().0,
            r.1@.map_values(|s: String| s@) == self.spec_prepared().1,
    {
        let dry = match self.target {
            CommandTarget::Local { dry, .. } => *dry,
            CommandTarget::Remote { dry, .. } => *dry,
        };
        if !self.read_only && dry {
            let v: Vec<String> = Vec::new();
            assert(v@.map_values(|s: String| s@) =~= Seq::empty());
            return ("true".to_owned(), v);
        }
        match self.target {
            CommandTarget::Local { elevate: None, .. } => {
                (self.command.clone(), copy_strings(&self.args))
            },
            CommandTarget::Local { elevate: Some(elevate), .. } => {
                let cmd = elevate[0].clone();
                let mut args: Vec<String> = Vec::new();
                extend_strings(&mut args, elevate, 1);
                args.push(self.command.clone());
                let ghost before = args@;
                extend_strings(&mut args, &self.args, 0);
                proof {
                    let e = strings_view(*elevate);
                    assert(e.drop_first() =~= e.subrange(1, elevate.len() as int));
                    assert(strings_view(self.args) =~= strings_view(self.args).subrange(0, self.args.len() as int));
                    assert(before.map_values(|s: String| s@) =~= e.drop_first().push(self.command@));
                    assert(strings_view(args) =~= e.drop_first() + seq![self.command@] + self.args_view());
                }
                (cmd, args)
            },
            CommandTarget::Remote { hostname, user, elevate, .. } => {
                let mut plain: Vec<String> = Vec::new();
                let dest = match user {
                    Some(u) => {
                        let mut d = u.clone();
                        d.append("@");
                        d.append(hostname.as_str());
                        d
                    },
                    None => hostname.clone(),
                };
                plain.push(dest);
                let ghost with_dest = plain@.map_values(|s: String| s@);
                match &self.working_directory {
                    Some(d) => {
                        plain.push("env".to_owned());
                        plain.push("--chdir".to_owned());
                        plain.push(d.clone());
                    },
                    None => {},
                }
                let ghost with_chdir = plain@.map_values(|s: String| s@);
                let elevation = match elevate {
                    Some(e) => copy_strings(e),
                    None => Vec::new(),
                };
                extend_strings(&mut plain, &elevation, 0);
                assert(strings_view(elevation) =~= strings_view(elevation).subrange(0, elevation.len() as int));
                let ghost with_elevation = plain@.map_values(|s: String| s@);
                plain.push(self.command.clone());
                let ghost with_command = plain@.map_values(|s: String| s@);
                extend_strings(&mut plain, &self.args, 0);
                assert(strings_view(self.args) =~= strings_view(self.args).subrange(0, self.args.len() as int));
                let ghost all = plain@.map_values(|s: String| s@);
                let mut out: Vec<String> = Vec::new();
                let mut k: usize = 0;
                while k < plain.len()
                    invariant
                        k <= plain.len(),
                        all == plain@.map_values(|s: String| s@),
                        out.len() == k,
                        forall|j: int| 0 <= j < k ==> #[trigger] out[j]@ == escape(all[j]),
                    decreases plain.len() - k,
                {
                    out.push(escape_backslashes(plain[k].as_str()));
                    k = k + 1;
                }
                assert(strings_view(out) =~= escape_all(all));
                proof {
                    let elev = match elevate {
                        Some(e) => e@.map_values(|s: String| s@),
                        None => Seq::empty(),
                    };
                    assert(elevation@.map_values(|s: String| s@) =~= elev);
                    let chdir = match self.wd_view() {
                        Some(d) => seq!["env"@, "--chdir"@, d],
                        None => Seq::empty(),
                    };
                    assert(with_dest =~= seq![
                        destination(hostname@, match user {
                            Some(u) => Some(u@),
                            None => None,
                        }),
                    ]);
                    assert(with_chdir =~= with_dest + chdir);
                    assert(with_elevation =~= with_chdir + elev);
                    assert(with_command =~= with_elevation + seq![self.command@]);
                }
                ("ssh".to_owned(), out)
            },
        }
    }
}

/// Why a command failed.
#[derive(Clone, Copy, Debug, PartialEq, Eq, Structural)]
pub enum CommandError {
    /// The command ran and did not succeed; the code is the exit code, or
    /// 128 plus the signal that ended it.
    Unsuccessful(i64),
}

/// How a finished process ended: its exit code, or the signal that ended it.
#[derive(Clone, Copy, Debug, PartialEq, Eq, Structural)]
pub struct ExitOutcome {
    pub code: Option<i32>,
    pub signal: Option<i32>,
}

/// The status reported for an unsuccessful process, as a shell reports it.
pub open spec fn reported_code(code: Option<i32>, signal: Option<i32>) -> int {
    match code {
        Some(c) => c as int,
        None => 128 + match signal {
            Some(s) => s as int,
            None => 0,
        },
    }
}

/// Turning the outcome of a command into an error when it did not succeed.
pub trait CommandExt: Sized {
    /// Whether the outcome counts as success.
    spec fn succeeded(&self) -> bool;

    /// The code reported when the outcome is not a success.
    spec fn failure_code(&self) -> int;

    fn ensure_success(self) -> (r: Result<Self, CommandError>)
        ensures
            self.succeeded() ==> r == Ok::<Self, CommandError>(self),
            !self.succeeded() ==> r == Err::<Self, CommandError>(
                CommandError::Unsuccessful(self.failure_code() as i64),
            ),
    ;
}

impl CommandExt for ExitOutcome {
    open spec fn succeeded(&self) -> bool {
        self.code == Some(0i32)
    }

    open spec fn failure_code(&self) -> int {
        reported_code(self.code, self.signal)
    }

    fn ensure_success(self) -> (r: Result<Self, CommandError>) {
        if self.code == Some(0i32) {
            Ok(self)
        } else {
            let exit_code: i64 = match self.code {
                Some(c) => c as i64,
                None => 128 + match self.signal {
                    Some(s) => s as i64,
                    None => 0,
                },
            };
            Err(CommandError::Unsuccessful(exit_code))
        }
    }
}

} // verus!
