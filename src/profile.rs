use crate::listing::ListCLI;
use crate::manifest::ManifestError;
use crate::text::{opt_seq, views};
use vstd::prelude::*;

verus! {

/// Where named profiles live, under the home directory.
pub const PROFILE_LOCATION: &'static str = ".vscode_profiles";

/// The command line as the library sees it.
pub struct Cli {
    /// The selected profile, if any.
    pub profile: Option<String>,
    /// The editor executable, already found on the search path.
    pub executable: Option<String>,
    /// Echo the constructed command lines.
    pub verbose: bool,
    pub command: Option<Commands>,
}

/// The subcommands.
pub enum Commands {
    Run(RunCLI),
    List(ListCLI),
}

/// Options of the `run` subcommand.
pub struct RunCLI {
    /// The project directory, opened last.
    pub work_dir: Option<String>,
    /// Echo the constructed command line.
    pub verbose: bool,
    /// Arguments handed on to the editor as they are.
    pub extra_args: Vec<String>,
}

/// The editor to launch and the directories of the selected profile.
pub struct VSCodeOptions {
    pub executable: String,
    pub data_dir: String,
    pub ext_dir: String,
    pub be_verbose: bool,
}

/// A program and the arguments to launch it with.
pub struct LaunchCommand {
    pub program: String,
    pub args: Vec<String>,
}

/// What happened since the `run` subcommand last decided.
pub enum RunEvent {
    /// The profile's directories were looked at: whether each exists.
    DirsChecked(bool, bool),
    /// The editor finished, with its exit code if it had one.
    Finished(Option<i32>),
}

/// What the `run` subcommand does next.
pub enum RunAction {
    /// Print the echo line, if any, then launch the command and wait for it.
    Launch(LaunchCommand, Option<String>),
    /// Stop with this status.
    Exit(i32),
}

/// Why a run stops before any work is done.
#[derive(Debug, Clone, Copy, PartialEq, Eq)]
pub enum Failure {
    /// The profile's directories are missing.
    Config,
    /// A required value of the environment is missing, or the executable was not found.
    DataErr,
    /// An extension's manifest could not be read.
    Manifest(ManifestError),
}

/// `part` appended to the path `base`: an absolute part replaces the base,
/// and a separator is put between two parts that lack one.
pub open spec fn join_spec(base: Seq<char>, part: Seq<char>) -> Seq<char> {
    if part.len() > 0 && part[0] == '/' {
        part
    } else if base.len() == 0 || base.last() == '/' {
        base + part
    } else {
        base + seq!['/'] + part
    }
}

/// The data and extension directories of a profile, for a given home directory.
pub open spec fn profile_dirs(profile: Option<Seq<char>>, home: Seq<char>) -> (Seq<char>, Seq<char>) {
    match profile {
        Some(p) => {
            let base = join_spec(join_spec(home, PROFILE_LOCATION@), p);
            (join_spec(base, "data"@), join_spec(base, "extensions"@))
        },
        None => (join_spec(home, ".config/Code"@), join_spec(home, ".vscode/extensions"@)),
    }
}

/// Appends a part to a path, as a path on Unix is extended.
pub fn join_path(base: &str, part: &str) -> (r: String)
    ensures
        r@ == join_spec(base@, part@),
{
    let lp = part.unicode_len();
    let lb = base.unicode_len();
    if lp > 0 && part.get_char(0) == '/' {
        return part.to_owned();
    }
    let mut out = base.to_owned();
    if !(lb == 0 || base.get_char(lb - 1) == '/') {
        out.append("/");
        proof {
            reveal_strlit("/");
        }
    }
    out.append(part);
    out
}

/// Resolving the directories of a profile depends on nothing but the profile
/// and the home directory.
pub proof fn lemma_profile_dirs_deterministic(
    p1: Option<Seq<char>>,
    p2: Option<Seq<char>>,
    h1: Seq<char>,
    h2: Seq<char>,
)
    requires
        p1 == p2,
        h1 == h2,
    ensures
        profile_dirs(p1, h1) == profile_dirs(p2, h2),
{
}

/// The data and extension directories of a profile.
pub fn resolve_profile_dirs(profile: Option<&String>, home: &str) -> (r: (String, String))
    ensures
        (r.0@, r.1@) == profile_dirs(
            match profile {
                Some(p) => Some(p@),
                None => None,
            },
            home@,
        ),
{
    match profile {
        Some(p) => {
            let root = join_path(home, PROFILE_LOCATION);
            let base = join_path(root.as_str(), p.as_str());
            (join_path(base.as_str(), "data"), join_path(base.as_str(), "extensions"))
        },
        None => (join_path(home, ".config/Code"), join_path(home, ".vscode/extensions")),
    }
}

/// `prefix` followed by `value`.
pub open spec fn flag_spec(prefix: Seq<char>, value: Seq<char>) -> Seq<char> {
    prefix + value
}

/// The two flags that point the editor at a profile's directories.
pub open spec fn base_args(o: VSCodeOptions) -> Seq<Seq<char>> {
    seq![flag_spec("--user-data-dir="@, o.data_dir@), flag_spec("--extensions-dir="@, o.ext_dir@)]
}

/// The arguments of a launch: the profile's flags, the arguments handed on,
/// then the project directory if one was given.
pub open spec fn run_args(o: VSCodeOptions, extra: Seq<Seq<char>>, work_dir: Option<Seq<char>>) -> Seq<
    Seq<char>,
> {
    base_args(o) + extra + match work_dir {
        Some(w) => seq![w],
        None => Seq::<Seq<char>>::empty(),
    }
}

/// The line that echoes a command: `Running:` and then the program and each
/// argument, each after one space.
pub open spec fn echo_line(program: Seq<char>, args: Seq<Seq<char>>) -> Seq<char>
    decreases args.len(),
{
    if args.len() == 0 {
        "Running: "@ + program
    } else {
        echo_line(program, args.drop_last()) + seq![' '] + args.last()
    }
}

/// Relies on `exitcode::CONFIG`: the status of a configuration error.
#[verifier::external_body]
fn config_code() -> (r: i32)
    ensures
        r == 78,
{
    exitcode::CONFIG
}

/// Relies on `exitcode::DATAERR`: the status of a data error.
#[verifier::external_body]
fn data_err_code() -> (r: i32)
    ensures
        r == 65,
{
    exitcode::DATAERR
}

/// Relies on `exitcode::SOFTWARE`: the status of an internal failure.
#[verifier::external_body]
fn software_code() -> (r: i32)
    ensures
        r == 70,
{
    exitcode::SOFTWARE
}

impl Failure {
    /// The status the process exits with.
    pub fn exit_code(&self) -> (r: i32)
        ensures
            *self == Failure::Config ==> r == 78,
            *self is DataErr || *self is Manifest ==> r == 65,
    {
        match self {
            Failure::Config => config_code(),
            Failure::DataErr => data_err_code(),
            Failure::Manifest(_) => data_err_code(),
        }
    }
}

impl VSCodeOptions {
    /// The options for a command line, given the executable that was found
    /// and the home directory.
    pub fn from(cli: &Cli, executable: String, home: &str) -> (r: VSCodeOptions)
        ensures
            r.executable == executable,
            (r.data_dir@, r.ext_dir@) == profile_dirs(opt_seq(cli.profile), home@),
            r.be_verbose == cli.verbose,
    {
        let (data_dir, ext_dir) = resolve_profile_dirs(cli.profile.as_ref(), home);
        VSCodeOptions { executable, data_dir, ext_dir, be_verbose: cli.verbose }
    }

    /// The editor with the profile's two directory flags.
    pub fn get_command(&self) -> (r: LaunchCommand)
        ensures
            r.program@ == self.executable@,
            views(r.args@) == base_args(*self),
    {
        let mut d = String::from_str("--user-data-dir=");
        d.append(self.data_dir.as_str());
        let mut e = String::from_str("--extensions-dir=");
        e.append(self.ext_dir.as_str());
        let mut args: Vec<String> = Vec::new();
        args.push(d);
        args.push(e);
        proof {
            assert(views(args@) =~= base_args(*self));
        }
        LaunchCommand { program: self.executable.clone(), args }
    }
}

/// Both of the profile's directories must exist.
pub fn check_profile_dirs_exist(data_dir_exists: bool, ext_dir_exists: bool) -> (r: Result<
    (),
    Failure,
>)
    ensures
        r is Ok <==> data_dir_exists && ext_dir_exists,
        r is Err ==> r == Err::<(), Failure>(Failure::Config),
{
    if data_dir_exists && ext_dir_exists {
        Ok(())
    } else {
        Err(Failure::Config)
    }
}

/// The command that the `run` subcommand launches.
pub fn launch_command(cli: &RunCLI, vs_options: &VSCodeOptions) -> (r: LaunchCommand)
    ensures
        r.program@ == vs_options.executable@,
        views(r.args@) == run_args(
            *vs_options,
            views(cli.extra_args@),
            opt_seq(cli.work_dir),
        ),
{
    let mut command = vs_options.get_command();
    let ghost start = views(command.args@);
    let mut i: usize = 0;
    while i < cli.extra_args.len()
        invariant
            command.program@ == vs_options.executable@,
            i <= cli.extra_args@.len(),
            views(command.args@) == start + views(cli.extra_args@).take(i as int),
        decreases cli.extra_args@.len() - i,
    {
        let ghost before = command.args@;
        command.args.push(cli.extra_args[i].clone());
        proof {
            assert(views(command.args@) =~= views(before).push(cli.extra_args@[i as int]@));
            assert(views(cli.extra_args@).take(i + 1) =~= views(cli.extra_args@).take(
                i as int,
            ).push(cli.extra_args@[i as int]@));
        }
        i = i + 1;
    }
    proof {
        assert(views(cli.extra_args@).take(i as int) =~= views(cli.extra_args@));
    }
    match &cli.work_dir {
        Some(w) => {
            let ghost before = command.args@;
            command.args.push(w.clone());
            proof {
                assert(views(command.args@) =~= views(before).push(w@));
            }
        },
        None => {},
    }
    proof {
        assert(views(command.args@) =~= run_args(
            *vs_options,
            views(cli.extra_args@),
            opt_seq(cli.work_dir),
        ));
    }
    command
}

/// The line that echoes a command before it runs, when verbose output is on.
pub fn debug_run_args(vs_options: &VSCodeOptions, command: &LaunchCommand) -> (r: Option<String>)
    ensures
        vs_options.be_verbose <==> r is Some,
        r is Some ==> r.unwrap()@ == echo_line(vs_options.executable@, views(command.args@)),
{
    if !vs_options.be_verbose {
        return None;
    }
    let mut line = String::from_str("Running: ");
    line.append(vs_options.executable.as_str());
    let ghost vs = views(command.args@);
    let mut i: usize = 0;
    while i < command.args.len()
        invariant
            vs == views(command.args@),
            i <= command.args@.len(),
            line@ == echo_line(vs_options.executable@, vs.take(i as int)),
        decreases command.args@.len() - i,
    {
        proof {
            assert(vs.take(i + 1).drop_last() =~= vs.take(i as int));
            reveal_strlit(" ");
        }
        line.append(" ");
        line.append(command.args[i].as_str());
        i = i + 1;
    }
    proof {
        assert(vs.take(i as int) =~= vs);
    }
    Some(line)
}

/// The status this process ends with after the editor has finished: the
/// editor's own, or a failure when it ended without one.
pub fn run_exit_code(child: Option<i32>) -> (r: i32)
    ensures
        child is Some ==> r == child.unwrap(),
        child is None ==> r == 70,
{
    match child {
        Some(c) => c,
        None => software_code(),
    }
}

/// The `run` subcommand, one decision at a time. Once the directories were
/// looked at: stop with a configuration error, launching nothing, when one is
/// missing; otherwise launch the editor with the profile's flags, the arguments
/// handed on and the project directory, echoing the command line first when
/// verbose. Once the editor finished: stop with its exit code, or with a
/// failure when it had none.
pub fn run(cli: &RunCLI, vs_options: &VSCodeOptions, event: RunEvent) -> (r: RunAction)
    ensures
        event matches RunEvent::DirsChecked(d, e) && !(d && e) ==> (r matches RunAction::Exit(
            code,
        ) && code == 78),
        event matches RunEvent::DirsChecked(d, e) && d && e ==> (r matches RunAction::Launch(
            c,
            echo,
        ) && c.program@ == vs_options.executable@ && views(c.args@) == run_args(
            *vs_options,
            views(cli.extra_args@),
            opt_seq(cli.work_dir),
        ) && (echo is Some <==> vs_options.be_verbose) && (echo is Some ==> echo.unwrap()@
            == echo_line(vs_options.executable@, views(c.args@)))),
        event matches RunEvent::Finished(Some(code)) ==> r == RunAction::Exit(code),
        event matches RunEvent::Finished(None) ==> (r matches RunAction::Exit(code) && code
            != 0),
{
    match event {
        RunEvent::DirsChecked(data_dir_exists, ext_dir_exists) => {
            match check_profile_dirs_exist(data_dir_exists, ext_dir_exists) {
                Err(f) => RunAction::Exit(f.exit_code()),
                Ok(()) => {
                    let command = launch_command(cli, vs_options);
                    let echo = debug_run_args(vs_options, &command);
                    RunAction::Launch(command, echo)
                },
            }
        },
        RunEvent::Finished(child) => RunAction::Exit(run_exit_code(child)),
    }
}

} // verus!
