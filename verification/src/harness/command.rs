//! Which program a test runs, as whom, with which arguments, and where its
//! output is kept.

use vstd::prelude::*;
use crate::config::DEFAULT_BASE_DIR;
use crate::harness::genesis::{alias, validator_alias, GenesisConfig};
use crate::path::{join, joined};
use crate::text::{
    append_decimal, append_str, decimal, digits_value, is_digit, lemma_decimal, lower_chars,
    lowered, same_chars, to_chars,
};
use crate::value::names_of;

verus! {

/// The package that the programs under test belong to.
pub const APPS_PACKAGE: &'static str = "namada_apps";

/// Environment variable for running the tests with debug builds.
pub const ENV_VAR_DEBUG: &'static str = "ANOMA_E2E_DEBUG";

/// Environment variable for keeping the temporary files of the tests.
pub const ENV_VAR_KEEP_TEMP: &'static str = "ANOMA_E2E_KEEP_TEMP";

/// Environment variable that holds the path of a folder of prebuilt
/// binaries.
pub const ENV_VAR_USE_PREBUILT_BINARIES: &'static str = "ANOMA_E2E_USE_PREBUILT_BINARIES";

/// The directory of the accounts' set-up inside a chain directory.
pub const NET_ACCOUNTS_DIR: &'static str = "setup";

/// The directory of the accounts that are no validators, inside the
/// accounts' set-up.
pub const NET_OTHER_ACCOUNTS_DIR: &'static str = "other";

/// The programs under test.
#[derive(Clone, Copy, Debug, PartialEq, Eq, Structural)]
pub enum Bin {
    Node,
    Client,
    Wallet,
}

/// As whom a command runs.
#[derive(Clone, Copy, Debug, PartialEq, Eq, Structural)]
pub enum Who {
    /// Not as a validator.
    NonValidator,
    /// As the genesis validator with the given number, counted from 0.
    Validator(u64),
}

/// Where the programs come from.
#[derive(Clone, Debug, PartialEq, Eq)]
pub enum Artifacts {
    /// From a folder of prebuilt binaries.
    Prebuilt(String),
    /// From a release build.
    Release,
    /// From a debug build.
    Debug,
}

/// A temporary directory of a test: one that goes away with the test, or
/// one that is kept.
#[derive(Clone, Debug, PartialEq, Eq)]
pub enum TestDir {
    Temporary(String),
    Retained(String),
}

/// A test network.
#[derive(Clone, Debug, PartialEq, Eq)]
pub struct Network {
    pub chain_id: String,
}

/// A test: where it runs from, its own directory, its network and the
/// genesis document the network was made from.
#[derive(Clone, Debug, PartialEq, Eq)]
pub struct Test {
    /// The directory the tests run from, usually the root of the
    /// repository.
    pub working_dir: String,
    /// The directory of the test, which is the base directory of commands
    /// that do not run as a validator.
    pub test_dir: TestDir,
    pub net: Network,
    pub genesis: GenesisConfig,
}

/// A command to spawn.
#[derive(Clone, Debug, PartialEq, Eq)]
pub struct Command {
    pub bin: Bin,
    /// The manifest of the workspace that the program is built from.
    pub manifest_path: String,
    /// The directory to run in.
    pub current_dir: String,
    /// The base directory that the program works on.
    pub base_dir: String,
    /// The environment variables to set, name and value.
    pub env: Vec<(String, String)>,
    /// The arguments: the base directory and the mode first, then those of
    /// the caller.
    pub args: Vec<String>,
    /// How long an expectation may wait, in seconds.
    pub timeout_sec: Option<u64>,
    /// Where in the test the command was asked for.
    pub loc: String,
}

impl Bin {
    /// The name of the program.
    pub open spec fn name(&self) -> Seq<char> {
        match self {
            Bin::Node => "namadan"@,
            Bin::Client => "namadac"@,
            Bin::Wallet => "namadaw"@,
        }
    }

    /// The name of the program.
    pub fn to_str(&self) -> (r: &'static str)
        ensures
            r@ == self.name(),
    {
        match self {
            Bin::Node => "namadan",
            Bin::Client => "namadac",
            Bin::Wallet => "namadaw",
        }
    }
}

impl Who {
    /// The mode that commands run in: validators as validators, everyone
    /// else as a full node.
    pub open spec fn mode(&self) -> Seq<char> {
        match self {
            Who::NonValidator => "full"@,
            Who::Validator(_) => "validator"@,
        }
    }

    /// The mode that commands run in.
    pub fn to_mode(&self) -> (r: &'static str)
        ensures
            r@ == self.mode(),
    {
        match self {
            Who::NonValidator => "full",
            Who::Validator(_) => "validator",
        }
    }
}

/// Whether the value of an environment variable that switches something on
/// says so: any value but `false`, in either case, does.
pub open spec fn switched_on(value: Option<Seq<char>>) -> bool {
    match value {
        Some(v) => lowered(v) != "false"@,
        None => false,
    }
}

/// Whether the temporary files of a test are kept, given the value of the
/// variable [`ENV_VAR_KEEP_TEMP`], if it is set.
pub fn keep_temp(value: Option<&str>) -> (r: bool)
    ensures
        r == switched_on(
            match value {
                Some(v) => Some(v@),
                None => None,
            },
        ),
{
    match value {
        Some(v) => {
            let low = lower_chars(&to_chars(v));
            let no = to_chars("false");
            !same_chars(&low, &no)
        },
        None => false,
    }
}

/// Where the programs come from, given the values of the variables
/// [`ENV_VAR_DEBUG`] and [`ENV_VAR_USE_PREBUILT_BINARIES`], where set: a
/// folder of prebuilt binaries goes first; otherwise debug builds where
/// `debug` is `true`, in either case, and release builds else.
pub fn artifacts(debug: Option<&str>, prebuilt: Option<&str>) -> (r: Artifacts)
    ensures
        match prebuilt {
            Some(folder) => r matches Artifacts::Prebuilt(f) && f@ == folder@,
            None => match debug {
                Some(v) => if lowered(v@) == "true"@ {
                    r == Artifacts::Debug
                } else {
                    r == Artifacts::Release
                },
                None => r == Artifacts::Release,
            },
        },
{
    match prebuilt {
        Some(folder) => Artifacts::Prebuilt(folder.to_owned()),
        None => match debug {
            Some(v) => {
                let low = lower_chars(&to_chars(v));
                let yes = to_chars("true");
                if same_chars(&low, &yes) {
                    Artifacts::Debug
                } else {
                    Artifacts::Release
                }
            },
            None => Artifacts::Release,
        },
    }
}

impl TestDir {
    /// The directory `path`, kept or not.
    pub fn new(path: String, keep: bool) -> (r: TestDir)
        ensures
            r.path_text() == path@,
            r is Retained <==> keep,
    {
        if keep {
            TestDir::Retained(path)
        } else {
            TestDir::Temporary(path)
        }
    }

    /// The path of the directory.
    pub open spec fn path_text(&self) -> Seq<char> {
        match self {
            TestDir::Temporary(p) => p@,
            TestDir::Retained(p) => p@,
        }
    }

    /// The path of the directory.
    pub fn path(&self) -> (r: &str)
        ensures
            r@ == self.path_text(),
    {
        match self {
            TestDir::Temporary(p) => p.as_str(),
            TestDir::Retained(p) => p.as_str(),
        }
    }

    /// What to tell about a directory that is kept: nothing for one that
    /// goes away.
    pub fn notice(&self) -> (r: Option<String>)
        ensures
            match self {
                TestDir::Retained(p) => r is Some && r->Some_0@ == "Keeping test directory at: \""@
                    + p@ + "\""@,
                TestDir::Temporary(_) => r is None,
            },
    {
        match self {
            TestDir::Retained(p) => {
                let mut out = String::new();
                append_str(&mut out, "Keeping test directory at: \"");
                append_str(&mut out, p.as_str());
                append_str(&mut out, "\"");
                assert(out@ =~= "Keeping test directory at: \""@ + p@ + "\""@);
                Some(out)
            },
            TestDir::Temporary(_) => None,
        }
    }
}

/// The base directory of the validator with the number `index` in the
/// chain directory of `chain_id` under `test_dir`.
pub open spec fn validator_base_dir(test_dir: Seq<char>, chain_id: Seq<char>, index: nat) -> Seq<
    char,
> {
    joined(
        joined(joined(joined(test_dir, chain_id), "setup"@), alias(index)),
        ".anoma"@,
    )
}

/// The arguments of a command: the base directory and the mode, and then
/// the caller's.
pub open spec fn full_args(base_dir: Seq<char>, mode: Seq<char>, args: Seq<Seq<char>>) -> Seq<
    Seq<char>,
> {
    seq!["--base-dir"@, base_dir, "--mode"@, mode] + args
}

/// The environment of every command: logging at `info`, without colours.
pub open spec fn command_env() -> Seq<(Seq<char>, Seq<char>)> {
    seq![
        ("ANOMA_LOG"@, "info"@),
        ("TM_LOG_LEVEL"@, "info"@),
        ("ANOMA_LOG_COLOR"@, "false"@),
    ]
}

/// The names and values of a list of variables.
pub open spec fn pairs_of(vars: Seq<(String, String)>) -> Seq<(Seq<char>, Seq<char>)> {
    Seq::new(vars.len(), |i: int| (vars[i].0@, vars[i].1@))
}

/// The command that runs `bin` with `args` in `working_dir`, on the base
/// directory `base_dir` and in the mode `mode`.
pub fn run_cmd(
    bin: Bin,
    args: &Vec<String>,
    timeout_sec: Option<u64>,
    working_dir: &str,
    base_dir: &str,
    mode: &str,
    loc: String,
) -> (r: Command)
    ensures
        r.bin == bin,
        r.manifest_path@ == joined(working_dir@, "Cargo.toml"@),
        r.current_dir@ == working_dir@,
        r.base_dir@ == base_dir@,
        pairs_of(r.env@) == command_env(),
        names_of(r.args@) == full_args(base_dir@, mode@, names_of(args@)),
        r.timeout_sec == timeout_sec,
        r.loc == loc,
{
    let mut env: Vec<(String, String)> = Vec::new();
    env.push(("ANOMA_LOG".to_owned(), "info".to_owned()));
    env.push(("TM_LOG_LEVEL".to_owned(), "info".to_owned()));
    env.push(("ANOMA_LOG_COLOR".to_owned(), "false".to_owned()));
    assert(pairs_of(env@) =~= command_env());
    let mut all: Vec<String> = Vec::new();
    all.push("--base-dir".to_owned());
    all.push(base_dir.to_owned());
    all.push("--mode".to_owned());
    all.push(mode.to_owned());
    let ghost head = names_of(all@);
    let mut i: usize = 0;
    assert(names_of(args@).take(0) =~= Seq::<Seq<char>>::empty());
    assert(head =~= seq!["--base-dir"@, base_dir@, "--mode"@, mode@]);
    while i < args.len()
        invariant
            i <= args.len(),
            head == seq!["--base-dir"@, base_dir@, "--mode"@, mode@],
            names_of(all@) =~= head + names_of(args@).take(i as int),
        decreases args.len() - i,
    {
        let ghost before = names_of(all@);
        all.push(args[i].clone());
        proof {
            assert(names_of(all@) =~= before.push(args@[i as int]@));
            assert(names_of(args@).take(i + 1) =~= names_of(args@).take(i as int).push(
                args@[i as int]@,
            ));
        }
        i += 1;
    }
    assert(names_of(args@).take(args.len() as int) =~= names_of(args@));
    Command {
        bin,
        manifest_path: join(working_dir, "Cargo.toml"),
        current_dir: working_dir.to_owned(),
        base_dir: base_dir.to_owned(),
        env,
        args: all,
        timeout_sec,
        loc,
    }
}

impl Test {
    /// The base directory of commands that run as `who`.
    pub open spec fn base_dir(&self, who: Who) -> Seq<char> {
        match who {
            Who::NonValidator => self.test_dir.path_text(),
            Who::Validator(index) => validator_base_dir(
                self.test_dir.path_text(),
                self.net.chain_id@,
                index as nat,
            ),
        }
    }

    /// The base directory of commands that run as `who`: the directory of
    /// the test, or the validator's own directory in the set-up of the
    /// chain.
    pub fn get_base_dir(&self, who: &Who) -> (r: String)
        ensures
            r@ == self.base_dir(*who),
    {
        match who {
            Who::NonValidator => self.test_dir.path().to_owned(),
            Who::Validator(index) => {
                let chain_dir = join(self.test_dir.path(), self.net.chain_id.as_str());
                let accounts = join(chain_dir.as_str(), NET_ACCOUNTS_DIR);
                let validator = join(accounts.as_str(), validator_alias(*index).as_str());
                join(validator.as_str(), DEFAULT_BASE_DIR)
            },
        }
    }

    /// The command that runs `bin` with `args`, not as a validator.
    pub fn run_cmd(&self, bin: Bin, args: &Vec<String>, timeout_sec: Option<u64>, loc: String) -> (r:
        Command)
        ensures
            r.bin == bin,
            r.manifest_path@ == joined(self.working_dir@, "Cargo.toml"@),
            r.current_dir@ == self.working_dir@,
            r.base_dir@ == self.base_dir(Who::NonValidator),
            pairs_of(r.env@) == command_env(),
            names_of(r.args@) == full_args(
                self.base_dir(Who::NonValidator),
                Who::NonValidator.mode(),
                names_of(args@),
            ),
            r.timeout_sec == timeout_sec,
            r.loc == loc,
    {
        self.run_cmd_as(Who::NonValidator, bin, args, timeout_sec, loc)
    }

    /// The command that runs `bin` with `args` as `who`.
    pub fn run_cmd_as(
        &self,
        who: Who,
        bin: Bin,
        args: &Vec<String>,
        timeout_sec: Option<u64>,
        loc: String,
    ) -> (r: Command)
        ensures
            r.bin == bin,
            r.manifest_path@ == joined(self.working_dir@, "Cargo.toml"@),
            r.current_dir@ == self.working_dir@,
            r.base_dir@ == self.base_dir(who),
            pairs_of(r.env@) == command_env(),
            names_of(r.args@) == full_args(self.base_dir(who), who.mode(), names_of(args@)),
            r.timeout_sec == timeout_sec,
            r.loc == loc,
    {
        let base_dir = self.get_base_dir(&who);
        run_cmd(
            bin,
            args,
            timeout_sec,
            self.working_dir.as_str(),
            base_dir.as_str(),
            who.to_mode(),
            loc,
        )
    }
}

/// The arguments that make `cargo` build and run the program `bin` of the
/// workspace with the manifest `manifest_path`.
pub open spec fn cargo_args(manifest_path: Seq<char>, bin: Bin, release: bool) -> Seq<Seq<char>> {
    seq![
        "run"@,
        "--manifest-path"@,
        manifest_path,
        "--package"@,
        "namada_apps"@,
        "--bin"@,
        bin.name(),
    ] + (if release {
        seq!["--release"@]
    } else {
        Seq::empty()
    }) + seq!["--"@]
}

/// What is started to run a command, and with which arguments before the
/// command's own: the prebuilt program itself, or `cargo`, which builds
/// and runs it.
pub fn launcher(from: &Artifacts, manifest_path: &str, bin: Bin) -> (r: (String, Vec<String>))
    ensures
        match from {
            Artifacts::Prebuilt(folder) => r.0@ == joined(folder@, bin.name()) && r.1@.len() == 0,
            Artifacts::Release => r.0@ == "cargo"@ && names_of(r.1@) == cargo_args(
                manifest_path@,
                bin,
                true,
            ),
            Artifacts::Debug => r.0@ == "cargo"@ && names_of(r.1@) == cargo_args(
                manifest_path@,
                bin,
                false,
            ),
        },
{
    let mut args: Vec<String> = Vec::new();
    match from {
        Artifacts::Prebuilt(folder) => (join(folder.as_str(), bin.to_str()), args),
        built => {
            args.push("run".to_owned());
            args.push("--manifest-path".to_owned());
            args.push(manifest_path.to_owned());
            args.push("--package".to_owned());
            args.push(APPS_PACKAGE.to_owned());
            args.push("--bin".to_owned());
            args.push(bin.to_str().to_owned());
            let release = match built {
                Artifacts::Release => true,
                _ => false,
            };
            if release {
                args.push("--release".to_owned());
            }
            args.push("--".to_owned());
            assert(names_of(args@) =~= cargo_args(manifest_path@, bin, release));
            ("cargo".to_owned(), args)
        },
    }
}

/// `items` written one after the other with `sep` between them.
pub open spec fn spaced(items: Seq<Seq<char>>, sep: Seq<char>) -> Seq<char>
    decreases items.len(),
{
    if items.len() == 0 {
        Seq::empty()
    } else if items.len() == 1 {
        items[0]
    } else {
        spaced(items.drop_last(), sep) + sep + items.last()
    }
}

/// The command line as it is shown: the program, then its arguments, with
/// single spaces between them.
pub open spec fn command_line_text(program: Seq<char>, args: Seq<Seq<char>>) -> Seq<char> {
    program + seq![' '] + spaced(args, seq![' '])
}

/// Writes the command line out as it is shown.
pub fn command_line(program: &str, args: &Vec<String>) -> (r: String)
    ensures
        r@ == command_line_text(program@, names_of(args@)),
{
    let ghost names = names_of(args@);
    let mut out = String::new();
    append_str(&mut out, program);
    append_str(&mut out, " ");
    proof {
        reveal_strlit(" ");
        assert(" "@ =~= seq![' ']);
        assert(names.take(0) =~= Seq::<Seq<char>>::empty());
        assert(out@ =~= program@ + seq![' '] + spaced(names.take(0), seq![' ']));
    }
    let mut i: usize = 0;
    while i < args.len()
        invariant
            i <= args.len(),
            names == names_of(args@),
            " "@ == seq![' '],
            out@ == program@ + seq![' '] + spaced(names.take(i as int), seq![' ']),
        decreases args.len() - i,
    {
        let ghost before = out@;
        if i > 0 {
            append_str(&mut out, " ");
        }
        append_str(&mut out, args[i].as_str());
        proof {
            let now = names.take(i + 1);
            assert(now.drop_last() =~= names.take(i as int));
            assert(now.last() == args@[i as int]@);
            if i == 0 {
                assert(spaced(names.take(0), seq![' ']) =~= Seq::<char>::empty());
                assert(out@ =~= program@ + seq![' '] + spaced(now, seq![' ']));
            } else {
                assert(out@ =~= program@ + seq![' '] + spaced(now, seq![' ']));
            }
        }
        i += 1;
    }
    assert(names.take(args.len() as int) =~= names);
    out
}

/// The name of the log file of a command: the microseconds since the
/// epoch at which it was started, the program's name and a random number,
/// with dashes between them.
pub open spec fn log_file_text(micros: u128, bin: Bin, random: u64) -> Seq<char> {
    decimal(micros as nat) + seq!['-'] + bin.name() + seq!['-'] + decimal(random as nat) + ".log"@
}

/// Where the output of a command is kept: in the directory `logs` of its
/// base directory, in a file named by [`log_file_text`].
pub fn log_path(base_dir: &str, micros: u128, bin: Bin, random: u64) -> (r: String)
    ensures
        r@ == joined(joined(base_dir@, "logs"@), log_file_text(micros, bin, random)),
{
    let mut name = String::new();
    append_decimal(&mut name, micros);
    append_str(&mut name, "-");
    append_str(&mut name, bin.to_str());
    append_str(&mut name, "-");
    append_decimal(&mut name, random as u128);
    append_str(&mut name, ".log");
    proof {
        reveal_strlit("-");
        assert("-"@ =~= seq!['-']);
        assert(name@ =~= log_file_text(micros, bin, random));
    }
    let dir = join(base_dir, "logs");
    join(dir.as_str(), name.as_str())
}

/// Whether a command that was just started has failed already: only a
/// node is looked at, and it has failed when it has exited with a code
/// other than 0. `exit_code` is the code it exited with, if it has exited.
pub fn failed_at_start(bin: Bin, exit_code: Option<i32>) -> (r: bool)
    ensures
        r == (bin == Bin::Node && exit_code is Some && exit_code->Some_0 != 0),
{
    match bin {
        Bin::Node => match exit_code {
            Some(code) => code != 0,
            None => false,
        },
        _ => false,
    }
}

/// What is reported when a command could not be spawned.
pub open spec fn spawn_failure_text(cmd: Seq<char>, loc: Seq<char>, error: Seq<char>) -> Seq<char> {
    "\n\nFailed to run: "@ + cmd + "\nLocation: "@ + loc + "\nError: "@ + error
}

/// What is reported when a node has failed at its start. `output` is what
/// it printed, or why that could not be read.
pub open spec fn start_failure_text(
    cmd: Seq<char>,
    loc: Seq<char>,
    output: Result<Seq<char>, Seq<char>>,
) -> Seq<char> {
    "\n\nFailed to run: "@ + cmd + "\nLocation: "@ + loc + " \n\nOutput: "@ + (match output {
        Ok(text) => text,
        Err(error) => "No output found, error: "@ + error,
    })
}

/// Writes out what is reported when a command could not be spawned.
pub fn spawn_failure(cmd: &str, loc: &str, error: &str) -> (r: String)
    ensures
        r@ == spawn_failure_text(cmd@, loc@, error@),
{
    let mut out = String::new();
    append_str(&mut out, "\n\nFailed to run: ");
    append_str(&mut out, cmd);
    append_str(&mut out, "\nLocation: ");
    append_str(&mut out, loc);
    append_str(&mut out, "\nError: ");
    append_str(&mut out, error);
    assert(out@ =~= spawn_failure_text(cmd@, loc@, error@));
    out
}

/// Writes out what is reported when a node has failed at its start.
pub fn start_failure(cmd: &str, loc: &str, output: Result<String, String>) -> (r: String)
    ensures
        r@ == start_failure_text(
            cmd@,
            loc@,
            match output {
                Ok(text) => Ok(text@),
                Err(error) => Err(error@),
            },
        ),
{
    let mut out = String::new();
    append_str(&mut out, "\n\nFailed to run: ");
    append_str(&mut out, cmd);
    append_str(&mut out, "\nLocation: ");
    append_str(&mut out, loc);
    append_str(&mut out, " \n\nOutput: ");
    match output {
        Ok(text) => {
            append_str(&mut out, text.as_str());
            assert(out@ =~= start_failure_text(cmd@, loc@, Ok(text@)));
        },
        Err(error) => {
            append_str(&mut out, "No output found, error: ");
            append_str(&mut out, error.as_str());
            assert(out@ =~= start_failure_text(cmd@, loc@, Err(error@)));
        },
    }
    out
}

/// What stands before a validator's number in the path of its own
/// directory under `accounts`.
spec fn before_number(accounts: Seq<char>) -> Seq<char> {
    if accounts.len() > 0 && accounts.last() != '/' {
        accounts + seq!['/'] + "validator-"@
    } else {
        accounts + "validator-"@
    }
}

/// What stands after a validator's own directory in the path of its
/// configuration file.
spec fn after_number(chain_id: Seq<char>) -> Seq<char> {
    let file = if chain_id.last() != '/' {
        seq!['/'] + "config.toml"@
    } else {
        "config.toml"@
    };
    seq!['/'] + ".anoma"@ + seq!['/'] + chain_id + file
}

/// Two texts that differ only in their middles have the same middle where
/// they are the same text.
proof fn lemma_same_middle(front: Seq<char>, a: Seq<char>, b: Seq<char>, back: Seq<char>)
    requires
        front + a + back == front + b + back,
    ensures
        a == b,
{
    let x = front + a + back;
    let y = front + b + back;
    assert(x.len() == front.len() + a.len() + back.len());
    assert(y.len() == front.len() + b.len() + back.len());
    assert(a.len() == b.len());
    assert forall|i: int| 0 <= i < a.len() implies a[i] == b[i] by {
        assert(x[front.len() + i] == a[i]);
        assert(y[front.len() + i] == b[i]);
    }
    assert(a =~= b);
}

/// A validator's own directory under `accounts` is what stands before
/// its number and then the number, and does not end in a separator.
proof fn lemma_own_directory(accounts: Seq<char>, k: nat)
    ensures
        joined(accounts, alias(k)) == before_number(accounts) + decimal(k),
        joined(accounts, alias(k)).len() > 0,
        joined(accounts, alias(k)).last() != '/',
{
    reveal_strlit("validator-");
    lemma_decimal(k);
    let name = alias(k);
    assert(name.len() > 0);
    assert(name[0] == 'v');
    let own = joined(accounts, name);
    assert(own =~= before_number(accounts) + decimal(k));
    assert(own.last() == decimal(k).last());
    assert(is_digit(decimal(k).last()));
}

/// The configuration file under a validator's own directory is that
/// directory's path and then a text that depends on the chain alone.
proof fn lemma_file_under(own: Seq<char>, chain_id: Seq<char>)
    requires
        own.len() > 0,
        own.last() != '/',
        chain_id.len() > 0,
        chain_id[0] != '/',
    ensures
        joined(joined(joined(own, ".anoma"@), chain_id), "config.toml"@) == own + after_number(
            chain_id,
        ),
{
    reveal_strlit(".anoma");
    reveal_strlit("config.toml");
    let base = joined(own, ".anoma"@);
    assert(".anoma"@[0] == '.');
    assert(base =~= own + seq!['/'] + ".anoma"@);
    assert(base.last() == 'a');
    let chain = joined(base, chain_id);
    assert(chain =~= base + seq!['/'] + chain_id);
    assert(chain.last() == chain_id.last());
    assert("config.toml"@[0] == 'c');
    let path = joined(chain, "config.toml"@);
    assert(path =~= own + after_number(chain_id));
}

/// Every validator has a configuration file of its own: for a chain whose
/// name does not start with a `/`, the configuration files under the base
/// directories of two different validators are different files.
pub proof fn lemma_validators_have_their_own_files(
    test_dir: Seq<char>,
    chain_id: Seq<char>,
    j: nat,
    k: nat,
)
    requires
        j != k,
        chain_id.len() > 0,
        chain_id[0] != '/',
    ensures
        joined(joined(validator_base_dir(test_dir, chain_id, j), chain_id), "config.toml"@)
            != joined(joined(validator_base_dir(test_dir, chain_id, k), chain_id), "config.toml"@),
{
    let accounts = joined(joined(test_dir, chain_id), "setup"@);
    lemma_own_directory(accounts, j);
    lemma_own_directory(accounts, k);
    lemma_file_under(joined(accounts, alias(j)), chain_id);
    lemma_file_under(joined(accounts, alias(k)), chain_id);
    lemma_decimal(j);
    lemma_decimal(k);
    let front = before_number(accounts);
    let back = after_number(chain_id);
    if front + decimal(j) + back == front + decimal(k) + back {
        lemma_same_middle(front, decimal(j), decimal(k), back);
        assert(digits_value(decimal(j)) == digits_value(decimal(k)));
    }
}

} // verus!
