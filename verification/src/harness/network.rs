//! Setting up a test network: the files involved, the call that derives
//! the chain, and the programs copied into the chain's directories.

use vstd::prelude::*;
use crate::config::{DEFAULT_BASE_DIR, DEFAULT_WASM_DIR};
use crate::harness::command::{
    command_env, full_args, pairs_of, run_cmd, Bin, Command, NET_ACCOUNTS_DIR,
    NET_OTHER_ACCOUNTS_DIR,
};
use crate::path::{join, joined};
use crate::text::{
    append_str, find_last, find_text, first_match, last_index_of, range_string, same_chars,
    to_chars, trim_range, trimmed,
};
use crate::value::names_of;

verus! {

/// The genesis document that test networks are made from, under the
/// working directory. It holds the single validator `validator-0`.
pub const SINGLE_NODE_NET_GENESIS: &'static str = "genesis/e2e-tests-single-node.toml";

/// The pattern of the line in which the chain's name is announced.
pub const CHAIN_ID_PATTERN: &'static str = "Derived chain ID: .*\n";

/// The name of the file of a wallet.
pub const WALLET_FILE: &'static str = "wallet.toml";

/// The files that setting up a network reads and writes.
#[derive(Clone, Debug, PartialEq, Eq)]
pub struct NetworkFiles {
    /// The genesis document to start from.
    pub genesis_source: String,
    /// Where the changed genesis document is written.
    pub genesis_file: String,
    /// The checksums of the built programs.
    pub checksums: String,
}

/// The files that setting up a network in `test_dir` reads and writes,
/// when run from `working_dir`.
pub fn network_files(working_dir: &str, test_dir: &str) -> (r: NetworkFiles)
    ensures
        r.genesis_source@ == joined(working_dir@, "genesis/e2e-tests-single-node.toml"@),
        r.genesis_file@ == joined(test_dir@, "e2e-test-genesis-src.toml"@),
        r.checksums@ == joined(working_dir@, "wasm/checksums.json"@),
{
    NetworkFiles {
        genesis_source: join(working_dir, SINGLE_NODE_NET_GENESIS),
        genesis_file: join(test_dir, "e2e-test-genesis-src.toml"),
        checksums: join(working_dir, "wasm/checksums.json"),
    }
}

/// The arguments of the call that initialises a network.
pub open spec fn init_network_args(
    genesis_path: Seq<char>,
    checksums_path: Seq<char>,
    consensus_timeout_commit: Option<Seq<char>>,
) -> Seq<Seq<char>> {
    seq![
        "utils"@,
        "init-network"@,
        "--unsafe-dont-encrypt"@,
        "--genesis-path"@,
        genesis_path,
        "--chain-prefix"@,
        "e2e-test"@,
        "--localhost"@,
        "--dont-archive"@,
        "--allow-duplicate-ip"@,
        "--wasm-checksums-path"@,
        checksums_path,
    ] + (match consensus_timeout_commit {
        Some(t) => seq!["--consensus-timeout-commit"@, t],
        None => Seq::empty(),
    })
}

/// The command that initialises a network: the client, as a validator,
/// on the directory of the test, with five seconds for each expectation.
pub fn init_network(
    working_dir: &str,
    test_dir: &str,
    genesis_path: &str,
    checksums_path: &str,
    consensus_timeout_commit: Option<&str>,
    loc: String,
) -> (r: Command)
    ensures
        r.bin == Bin::Client,
        r.manifest_path@ == joined(working_dir@, "Cargo.toml"@),
        r.current_dir@ == working_dir@,
        r.base_dir@ == test_dir@,
        pairs_of(r.env@) == command_env(),
        names_of(r.args@) == full_args(
            test_dir@,
            "validator"@,
            init_network_args(
                genesis_path@,
                checksums_path@,
                match consensus_timeout_commit {
                    Some(t) => Some(t@),
                    None => None,
                },
            ),
        ),
        r.timeout_sec == Some(5u64),
        r.loc == loc,
{
    let mut args: Vec<String> = Vec::new();
    args.push("utils".to_owned());
    args.push("init-network".to_owned());
    args.push("--unsafe-dont-encrypt".to_owned());
    args.push("--genesis-path".to_owned());
    args.push(genesis_path.to_owned());
    args.push("--chain-prefix".to_owned());
    args.push("e2e-test".to_owned());
    args.push("--localhost".to_owned());
    args.push("--dont-archive".to_owned());
    args.push("--allow-duplicate-ip".to_owned());
    args.push("--wasm-checksums-path".to_owned());
    args.push(checksums_path.to_owned());
    let ghost fixed = names_of(args@);
    assert(fixed =~= init_network_args(genesis_path@, checksums_path@, None));
    match consensus_timeout_commit {
        Some(t) => {
            args.push("--consensus-timeout-commit".to_owned());
            args.push(t.to_owned());
            assert(names_of(args@) =~= init_network_args(
                genesis_path@,
                checksums_path@,
                Some(t@),
            ));
        },
        None => {},
    }
    run_cmd(Bin::Client, &args, Some(5), working_dir, test_dir, "validator", loc)
}

/// The name of the chain that a line of the form `Derived chain ID: <name>`
/// announces: what follows the first `Derived chain ID: ` in the line,
/// without the white space around it. There is none where the line does
/// not hold these words.
pub open spec fn announced_chain_id(line: Seq<char>) -> Option<Seq<char>> {
    let text = trimmed(line);
    match first_match(text, "Derived chain ID: "@, 0) {
        Some(i) => Some(trimmed(text.skip(i + "Derived chain ID: "@.len()))),
        None => None,
    }
}

/// Reads the name of the chain from the line that announces it.
pub fn derived_chain_id(line: &str) -> (r: Option<String>)
    ensures
        match r {
            Some(id) => announced_chain_id(line@) == Some(id@),
            None => announced_chain_id(line@) is None,
        },
{
    let v = to_chars(line);
    let marker = to_chars("Derived chain ID: ");
    assert(v@.subrange(0, v.len() as int) =~= v@);
    let (a, b) = trim_range(&v, 0, v.len());
    let ghost text = trimmed(line@);
    match find_text(&v, a, b, &marker) {
        Some(i) => {
            let (c, d) = trim_range(&v, i + marker.len(), b);
            proof {
                assert(v@.subrange(i + marker.len(), b as int) =~= text.skip(
                    i - a + marker@.len(),
                ));
            }
            Some(range_string(&v, c, d))
        },
        None => None,
    }
}

/// Where the wallet of the accounts that are no validators is made, and
/// where it has to be moved: up to the chain's directory.
pub fn wallet_move(chain_dir: &str) -> (r: (String, String))
    ensures
        r.0@ == joined(joined(joined(chain_dir@, "setup"@), "other"@), "wallet.toml"@),
        r.1@ == joined(chain_dir@, "wallet.toml"@),
{
    let accounts = join(chain_dir, NET_ACCOUNTS_DIR);
    let other = join(accounts.as_str(), NET_OTHER_ACCOUNTS_DIR);
    (join(other.as_str(), WALLET_FILE), join(chain_dir, WALLET_FILE))
}

/// The name of the file at `path`: what follows its last `/`.
pub open spec fn file_name(path: Seq<char>) -> Seq<char> {
    path.skip(last_index_of(path, '/') + 1)
}

/// Whether a file of this name is a WASM program: the name ends in
/// `.wasm`, with something before the dot.
pub open spec fn is_wasm(name: Seq<char>) -> bool {
    last_index_of(name, '.') >= 1 && name.skip(last_index_of(name, '.') + 1) == "wasm"@
}

/// The names of the WASM programs among the files at `paths`, in their
/// order.
pub open spec fn wasm_names(paths: Seq<Seq<char>>) -> Seq<Seq<char>>
    decreases paths.len(),
{
    if paths.len() == 0 {
        Seq::empty()
    } else if is_wasm(file_name(paths.last())) {
        wasm_names(paths.drop_last()).push(file_name(paths.last()))
    } else {
        wasm_names(paths.drop_last())
    }
}

/// The name of the file at `path` where it is a WASM program.
fn wasm_name(path: &str) -> (r: Option<String>)
    ensures
        match r {
            Some(name) => is_wasm(file_name(path@)) && name@ == file_name(path@),
            None => !is_wasm(file_name(path@)),
        },
{
    let v = to_chars(path);
    let n = v.len();
    assert(v@.subrange(0, n as int) =~= v@);
    let start = match find_last(&v, 0, n, '/') {
        Some(i) => i + 1,
        None => 0,
    };
    let ghost name = file_name(path@);
    assert(v@.subrange(start as int, n as int) =~= name);
    match find_last(&v, start, n, '.') {
        Some(dot) => {
            if dot < start + 1 {
                return None;
            }
            let wasm = to_chars("wasm");
            let mut tail: Vec<char> = Vec::new();
            let mut k: usize = dot + 1;
            while k < n
                invariant
                    dot + 1 <= k <= n,
                    n == v.len(),
                    tail@ == v@.subrange(dot + 1, k as int),
                decreases n - k,
            {
                tail.push(v[k]);
                k += 1;
            }
            assert(tail@ =~= name.skip(dot - start + 1));
            if same_chars(&tail, &wasm) {
                Some(range_string(&v, start, n))
            } else {
                None
            }
        },
        None => None,
    }
}

/// The names of the WASM programs among the files at `paths`.
pub fn wasm_files(paths: &Vec<String>) -> (r: Vec<String>)
    ensures
        names_of(r@) == wasm_names(names_of(paths@)),
{
    let ghost all = names_of(paths@);
    let mut out: Vec<String> = Vec::new();
    let mut i: usize = 0;
    assert(all.take(0) =~= Seq::<Seq<char>>::empty());
    assert(names_of(out@) =~= Seq::<Seq<char>>::empty());
    while i < paths.len()
        invariant
            i <= paths.len(),
            all == names_of(paths@),
            names_of(out@) == wasm_names(all.take(i as int)),
        decreases paths.len() - i,
    {
        proof {
            assert(all.take(i + 1).drop_last() =~= all.take(i as int));
            assert(all.take(i + 1).last() == paths@[i as int]@);
        }
        let ghost before = names_of(out@);
        match wasm_name(paths[i].as_str()) {
            Some(name) => {
                out.push(name);
                assert(names_of(out@) =~= before.push(file_name(paths@[i as int]@)));
            },
            None => {},
        }
        i += 1;
    }
    assert(all.take(paths.len() as int) =~= all);
    out
}

/// One file to copy: from where, and to where.
pub struct FileCopy {
    pub from: Seq<char>,
    pub to: Seq<char>,
}

/// The copies of `files` from `source` into `target`, file by file.
pub open spec fn copies_into(source: Seq<char>, target: Seq<char>, files: Seq<Seq<char>>) -> Seq<
    FileCopy,
> {
    Seq::new(
        files.len(),
        |i: int| FileCopy { from: joined(source, files[i]), to: joined(target, files[i]) },
    )
}

/// The WASM directory of a validator's own chain directory.
pub open spec fn validator_wasm_dir(
    chain_dir: Seq<char>,
    chain_id: Seq<char>,
    validator: Seq<char>,
) -> Seq<char> {
    joined(
        joined(joined(joined(joined(chain_dir, "setup"@), validator), ".anoma"@), chain_id),
        "wasm"@,
    )
}

/// The copies of `files` into the WASM directories of `validators`, one
/// validator after the other.
pub open spec fn validator_copies(
    source: Seq<char>,
    chain_dir: Seq<char>,
    chain_id: Seq<char>,
    validators: Seq<Seq<char>>,
    files: Seq<Seq<char>>,
) -> Seq<FileCopy>
    decreases validators.len(),
{
    if validators.len() == 0 {
        Seq::empty()
    } else {
        validator_copies(source, chain_dir, chain_id, validators.drop_last(), files) + copies_into(
            source,
            validator_wasm_dir(chain_dir, chain_id, validators.last()),
            files,
        )
    }
}

/// All the copies that bring the built WASM programs to a network: into
/// the WASM directory of the chain, and then into that of every
/// validator.
pub open spec fn wasm_copies(
    working_dir: Seq<char>,
    chain_dir: Seq<char>,
    chain_id: Seq<char>,
    validators: Seq<Seq<char>>,
    files: Seq<Seq<char>>,
) -> Seq<FileCopy> {
    copies_into(joined(working_dir, "wasm"@), joined(chain_dir, "wasm"@), files) + validator_copies(
        joined(working_dir, "wasm"@),
        chain_dir,
        chain_id,
        validators,
        files,
    )
}

/// The readings of a list of copies.
pub open spec fn copies_of(plan: Seq<(String, String)>) -> Seq<FileCopy> {
    Seq::new(plan.len(), |i: int| FileCopy { from: plan[i].0@, to: plan[i].1@ })
}

/// What is reported when there is no WASM program to copy.
pub open spec fn no_wasm_text(dir: Seq<char>) -> Seq<char> {
    "No WASM files found in "@ + dir + ". Please build or download them them first."@
}

fn copy_into(plan: &mut Vec<(String, String)>, source: &str, target: &str, files: &Vec<String>)
    ensures
        copies_of(final(plan)@) == copies_of(old(plan)@) + copies_into(
            source@,
            target@,
            names_of(files@),
        ),
{
    let ghost before = copies_of(plan@);
    let ghost wanted = copies_into(source@, target@, names_of(files@));
    let mut i: usize = 0;
    assert(copies_of(plan@) =~= before + wanted.take(0));
    while i < files.len()
        invariant
            i <= files.len(),
            wanted == copies_into(source@, target@, names_of(files@)),
            copies_of(plan@) == before + wanted.take(i as int),
        decreases files.len() - i,
    {
        let ghost so_far = copies_of(plan@);
        plan.push((join(source, files[i].as_str()), join(target, files[i].as_str())));
        proof {
            assert(names_of(files@)[i as int] == files@[i as int]@);
            assert(copies_of(plan@) =~= so_far.push(wanted[i as int]));
            assert(wanted.take(i + 1) =~= wanted.take(i as int).push(wanted[i as int]));
            assert(copies_of(plan@) =~= before + wanted.take(i + 1));
        }
        i += 1;
    }
    assert(wanted.take(files.len() as int) =~= wanted);
}

/// Plans the copying of the built WASM programs to a network. `files` are
/// the names of the programs in the directory `wasm` of `working_dir`,
/// `validators` the aliases of the genesis validators. Without a program
/// to copy there is no plan but a report of that.
pub fn copy_wasm_to_chain_dir(
    working_dir: &str,
    chain_dir: &str,
    chain_id: &str,
    validators: &Vec<String>,
    files: &Vec<String>,
) -> (r: Result<Vec<(String, String)>, String>)
    ensures
        match r {
            Ok(plan) => files@.len() > 0 && copies_of(plan@) == wasm_copies(
                working_dir@,
                chain_dir@,
                chain_id@,
                names_of(validators@),
                names_of(files@),
            ),
            Err(report) => files@.len() == 0 && report@ == no_wasm_text(
                joined(working_dir@, "wasm"@),
            ),
        },
{
    let source = join(working_dir, DEFAULT_WASM_DIR);
    if files.len() == 0 {
        let mut report = String::new();
        append_str(&mut report, "No WASM files found in ");
        append_str(&mut report, source.as_str());
        append_str(&mut report, ". Please build or download them them first.");
        assert(report@ =~= no_wasm_text(source@));
        return Err(report);
    }
    let ghost names = names_of(validators@);
    let mut plan: Vec<(String, String)> = Vec::new();
    assert(copies_of(plan@) =~= Seq::<FileCopy>::empty());
    let target = join(chain_dir, DEFAULT_WASM_DIR);
    copy_into(&mut plan, source.as_str(), target.as_str(), files);
    let ghost first = copies_of(plan@);
    assert(first =~= copies_into(source@, target@, names_of(files@)));
    let accounts = join(chain_dir, NET_ACCOUNTS_DIR);
    let mut i: usize = 0;
    assert(names.take(0) =~= Seq::<Seq<char>>::empty());
    assert(copies_of(plan@) =~= first + Seq::<FileCopy>::empty());
    while i < validators.len()
        invariant
            i <= validators.len(),
            names == names_of(validators@),
            accounts@ == joined(chain_dir@, "setup"@),
            source@ == joined(working_dir@, "wasm"@),
            copies_of(plan@) == first + validator_copies(
                source@,
                chain_dir@,
                chain_id@,
                names.take(i as int),
                names_of(files@),
            ),
        decreases validators.len() - i,
    {
        let own = join(accounts.as_str(), validators[i].as_str());
        let base = join(own.as_str(), DEFAULT_BASE_DIR);
        let chain = join(base.as_str(), chain_id);
        let wasm = join(chain.as_str(), DEFAULT_WASM_DIR);
        proof {
            assert(names.take(i + 1).drop_last() =~= names.take(i as int));
            assert(names.take(i + 1).last() == validators@[i as int]@);
            assert(wasm@ == validator_wasm_dir(chain_dir@, chain_id@, validators@[i as int]@));
        }
        let ghost so_far = copies_of(plan@);
        copy_into(&mut plan, source.as_str(), wasm.as_str(), files);
        proof {
            assert(copies_of(plan@) =~= first + validator_copies(
                source@,
                chain_dir@,
                chain_id@,
                names.take(i + 1),
                names_of(files@),
            ));
        }
        i += 1;
    }
    assert(names.take(validators.len() as int) =~= names);
    Ok(plan)
}

} // verus!
