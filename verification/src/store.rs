//! Reading and writing the configuration of one chain, up to the file
//! system: what is read from which layers, what is written where, and when
//! writing is refused.

use vstd::prelude::*;
use crate::config::{localhost, Config, DiscoverPeer, Ledger, ShellView};
use crate::env::{layer, layered, vars_of};
use crate::document::{parse_document, toml_parsed, write_document, written, Refusal};
use crate::error::Error;
use crate::mode::TendermintMode;
use crate::path::{join, joined};
use crate::peer::{multiaddr_text, Hop};
use crate::text::append_str;
use crate::timeout::Timeout;
use crate::tree::entry;
use crate::tree_laws::lemma_tree_over_itself;
use crate::value::{Node, Datum};

verus! {

/// The document of the configuration that a fresh node starts from.
pub open spec fn default_document(
    base_dir: Seq<char>,
    chain_id: Seq<char>,
    mode: TendermintMode,
) -> Node {
    Node::Table(
        seq![
            entry("wasm_dir"@, Node::Text("wasm"@)),
            entry(
                "ledger"@,
                Node::Table(
                    seq![
                        entry("genesis_time"@, Node::Text("1970-01-01T00:00:00Z"@)),
                        entry("chain_id"@, Node::Text(chain_id)),
                        entry(
                            "shell"@,
                            Node::Table(
                                seq![
                                    entry("base_dir"@, Node::Text(base_dir)),
                                    entry("ledger_address"@, Node::Text(localhost(26658).text())),
                                    entry("db_dir"@, Node::Text("db"@)),
                                    entry("tendermint_dir"@, Node::Text("tendermint"@)),
                                ],
                            ),
                        ),
                        entry(
                            "tendermint"@,
                            Node::Table(
                                seq![
                                    entry("rpc_address"@, Node::Text(localhost(26657).text())),
                                    entry("p2p_address"@, Node::Text(localhost(26656).text())),
                                    entry("p2p_persistent_peers"@, Node::Array(Seq::empty())),
                                    entry("p2p_pex"@, Node::Boolean(true)),
                                    entry("p2p_allow_duplicate_ip"@, Node::Boolean(false)),
                                    entry("p2p_addr_book_strict"@, Node::Boolean(true)),
                                    entry(
                                        "consensus_timeout_commit"@,
                                        Node::Text((Timeout { secs: 1, nanos: 0 }).text()),
                                    ),
                                    entry("tendermint_mode"@, Node::Text(mode.token())),
                                    entry("instrumentation_prometheus"@, Node::Boolean(false)),
                                    entry(
                                        "instrumentation_prometheus_listen_addr"@,
                                        Node::Text(localhost(26661).text()),
                                    ),
                                    entry("instrumentation_namespace"@, Node::Text("anoman_tm"@)),
                                ],
                            ),
                        ),
                    ],
                ),
            ),
            entry(
                "intent_gossiper"@,
                Node::Table(
                    seq![
                        entry(
                            "address"@,
                            Node::Text(multiaddr_text(seq![Hop::Ip4(0, 0, 0, 0), Hop::Tcp(26659)])),
                        ),
                        entry("topics"@, Node::Array(seq![Node::Text("asset_v0"@)])),
                        entry("matchmakers_server_addr"@, Node::Text(localhost(26661).text())),
                        entry("subscription_filter"@, Node::Text("asset_v\\d{1,2}"@)),
                        entry("seed_peers"@, Node::Array(Seq::empty())),
                        entry(
                            "discover_peer"@,
                            Node::Table(
                                seq![
                                    entry("max_discovery_peers"@, Node::Integer(16)),
                                    entry("kademlia"@, Node::Boolean(true)),
                                    entry("mdns"@, Node::Boolean(false)),
                                ],
                            ),
                        ),
                    ],
                ),
            ),
            entry("matchmaker"@, Node::Table(Seq::empty())),
        ],
    )
}

/// The default configuration is written out as the default document.
pub proof fn lemma_default_document(
    c: Config,
    base_dir: Seq<char>,
    chain_id: Seq<char>,
    mode: TendermintMode,
)
    requires
        c.is_default(base_dir, chain_id, mode),
    ensures
        c.tree() == default_document(base_dir, chain_id, mode),
{
    let d = default_document(base_dir, chain_id, mode);
    let shell = c.ledger.shell.tree();
    assert(shell->Table_0 =~= d->Table_0[1].node->Table_0[2].node->Table_0);
    let tm = c.ledger.tendermint.tree();
    assert(crate::value::text_list(c.ledger.tendermint.p2p_persistent_peers@)->Array_0
        =~= Seq::<Node>::empty());
    assert(tm->Table_0 =~= d->Table_0[1].node->Table_0[3].node->Table_0);
    let ledger = c.ledger.tree();
    assert(ledger->Table_0 =~= d->Table_0[1].node->Table_0);
    let g = c.intent_gossiper;
    assert(crate::value::text_list(g.topics@)->Array_0 =~= seq![Node::Text("asset_v0"@)]);
    assert(crate::tree::peer_list(g.seed_peers@)->Array_0 =~= Seq::<Node>::empty());
    let discover = DiscoverPeer { max_discovery_peers: 16, kademlia: true, mdns: false };
    assert(discover.tree()->Table_0 =~= d->Table_0[2].node->Table_0[5].node->Table_0);
    assert(g.nested_entries() =~= seq![entry("discover_peer"@, discover.tree())]);
    assert(g.tree()->Table_0 =~= d->Table_0[2].node->Table_0);
    assert(c.matchmaker.tree()->Table_0 =~= Seq::<crate::value::Field>::empty());
    assert(c.tree()->Table_0 =~= d->Table_0);
}

/// Reading back what was just generated changes nothing: with the file
/// holding the document of the default configuration, and no variable of
/// the environment set, the document that is read is that document.
pub proof fn lemma_generated_is_read_back(
    c: Config,
    base_dir: Seq<char>,
    chain_id: Seq<char>,
    mode: TendermintMode,
)
    requires
        c.is_default(base_dir, chain_id, mode),
    ensures
        layered(default_document(base_dir, chain_id, mode), c.tree(), Seq::empty()) == c.tree(),
{
    lemma_default_document(c, base_dir, chain_id, mode);
    lemma_tree_over_itself(c);
}

/// What reading gave: the configuration, and whether it is the default one
/// that still has to be written because there was no file.
#[derive(Clone, Debug, PartialEq, Eq)]
pub struct Read {
    pub config: Config,
    pub generated: bool,
}

/// What has to be written where.
#[derive(Clone, Debug, PartialEq, Eq)]
pub struct WritePlan {
    /// The directory of the chain, which has to exist before the file is
    /// written.
    pub dir: String,
    /// The file.
    pub path: String,
    /// The TOML text that the file is to hold.
    pub text: String,
}

/// What deciding on a write has to give, for the directory `dir`, the file
/// `path` and the document `document`: a refusal with
/// `AlreadyExistingConfig` and the path where the file is `guarded`;
/// otherwise the plan with the text that the document is written out as,
/// or the failure of writing it out.
pub open spec fn write_outcome(
    r: Result<WritePlan, Refusal>,
    dir: Seq<char>,
    path: Seq<char>,
    document: Node,
    guarded: bool,
) -> bool {
    if guarded {
        r matches Err(refusal) && refusal.note is None && refusal.error.is_existing(path)
    } else {
        match written(document) {
            Ok(text) => r matches Ok(plan) && plan.dir@ == dir && plan.path@ == path && plan.text@
                == text,
            Err((message, explain)) => r matches Err(refusal) && refusal.is_toml_failure(
                message,
                explain,
            ),
        }
    }
}

/// What reading the document `doc` has to give: the configuration that
/// the document says, or a `DeserializationError` that names the first
/// setting that fails.
pub open spec fn read_outcome(r: Result<Read, Error>, doc: Node) -> bool {
    match r {
        Ok(read) => !read.generated && Config::failure(doc) is None && read.config.reads(doc)
            && read.config.ledger.well_formed() && read.config.intent_gossiper.well_formed(),
        Err(e) => e matches Error::DeserializationError(name) && Config::failure(doc) == Some(
            name@,
        ),
    }
}

/// The mode that is meant where none is given.
pub open spec fn mode_or_full(mode: Option<TendermintMode>) -> TendermintMode {
    match mode {
        Some(m) => m,
        None => TendermintMode::Full,
    }
}

/// The sentence printed when loading fails.
pub open spec fn load_failure_text(base_dir: Seq<char>, error: Error) -> Seq<char> {
    "Tried to read config in "@ + base_dir + " but failed with: "@ + error.text()
}

impl Config {
    /// Reads the configuration of a chain from its layers. `file` is the
    /// document of the chain's configuration file, or nothing where there
    /// is no such file; `vars` are the environment variables.
    ///
    /// Without a file the default configuration comes back, marked as
    /// generated: it has to be written to the file. With a file, the file
    /// is laid over the default document and the environment over both,
    /// and the configuration is read from the result; a setting that is
    /// missing or malformed there is named in the error.
    pub fn read_layers(
        base_dir: &str,
        chain_id: &str,
        mode: Option<TendermintMode>,
        file: Option<&Datum>,
        vars: &Vec<(String, String)>,
    ) -> (r: Result<Read, Error>)
        requires
            chain_id@.len() > 0,
        ensures
            file is None ==> r is Ok && r->Ok_0.generated && r->Ok_0.config.is_default(
                base_dir@,
                chain_id@,
                mode_or_full(mode),
            ),
            file is Some ==> read_outcome(
                r,
                layered(
                    default_document(base_dir@, chain_id@, mode_or_full(mode)),
                    file->Some_0@,
                    vars_of(vars@),
                ),
            ),
    {
        let mode = match mode {
            Some(m) => m,
            None => TendermintMode::Full,
        };
        let defaults = Config::new(base_dir, chain_id.to_owned(), mode);
        match file {
            None => Ok(Read { config: defaults, generated: true }),
            Some(file) => {
                proof {
                    lemma_default_document(defaults, base_dir@, chain_id@, mode);
                }
                let doc = layer(&defaults.to_tree(), file, vars);
                match Config::from_tree(&doc) {
                    Ok(config) => Ok(Read { config, generated: false }),
                    Err(e) => Err(e),
                }
            },
        }
    }

    /// Reads the configuration of a chain. `file` is the text of the
    /// chain's configuration file, or nothing where there is no such
    /// file; `vars` are the environment variables.
    ///
    /// Without a file the default configuration comes back, marked as
    /// generated: it has to be written to the file. A file that is no
    /// TOML is a `ReadError`. Otherwise the file is laid over the default
    /// document and the environment over both, and the configuration is
    /// read from the result; a setting that is missing or malformed there
    /// is named in a `DeserializationError`.
    pub fn read(
        base_dir: &str,
        chain_id: &str,
        mode: Option<TendermintMode>,
        file: Option<&str>,
        vars: &Vec<(String, String)>,
    ) -> (r: Result<Read, Error>)
        requires
            chain_id@.len() > 0,
        ensures
            file is None ==> r is Ok && r->Ok_0.generated && r->Ok_0.config.is_default(
                base_dir@,
                chain_id@,
                mode_or_full(mode),
            ),
            file is Some ==> (match toml_parsed(file->Some_0@) {
                Err(msg) => r is Err && r->Err_0.is_read_error(msg),
                Ok(node) => read_outcome(
                r,
                    layered(
                        default_document(base_dir@, chain_id@, mode_or_full(mode)),
                        node,
                        vars_of(vars@),
                    ),
                ),
            }),
    {
        match file {
            None => Config::read_layers(base_dir, chain_id, mode, None, vars),
            Some(text) => match parse_document(text) {
                Ok(document) => Config::read_layers(base_dir, chain_id, mode, Some(&document), vars),
                Err(e) => Err(e),
            },
        }
    }

    /// Finishes loading: a configuration that was read is made to say
    /// where it was loaded from, whatever its file said; a failure becomes
    /// the sentence to print before giving up.
    pub fn load(base_dir: &str, read: Result<Config, Error>) -> (r: Result<Config, String>)
        ensures
            match (read, r) {
                (Ok(before), Ok(after)) => {
                    &&& after.ledger.shell@ == (ShellView {
                        base_dir: base_dir@,
                        ..before.ledger.shell@
                    })
                    &&& after.wasm_dir == before.wasm_dir
                    &&& after.intent_gossiper == before.intent_gossiper
                    &&& after.matchmaker == before.matchmaker
                    &&& after.ledger.genesis_time == before.ledger.genesis_time
                    &&& after.ledger.chain_id == before.ledger.chain_id
                    &&& after.ledger.tendermint == before.ledger.tendermint
                },
                (Err(e), Err(msg)) => msg@ == load_failure_text(base_dir@, e),
                _ => false,
            },
    {
        match read {
            Ok(config) => {
                let Config { wasm_dir, ledger, intent_gossiper, matchmaker } = config;
                let Ledger { genesis_time, chain_id, shell, tendermint } = ledger;
                let shell = shell.with_base_dir(base_dir.to_owned());
                let ledger = Ledger { genesis_time, chain_id, shell, tendermint };
                Ok(Config { wasm_dir, ledger, intent_gossiper, matchmaker })
            },
            Err(e) => {
                let mut msg = String::new();
                append_str(&mut msg, "Tried to read config in ");
                append_str(&mut msg, base_dir);
                append_str(&mut msg, " but failed with: ");
                let detail = e.to_text();
                append_str(&mut msg, detail.as_str());
                assert(msg@ =~= load_failure_text(base_dir@, e));
                Err(msg)
            },
        }
    }

    /// Decides on writing this configuration to the file of a chain.
    /// `exists` says whether the file is there already. Where it is and
    /// must not be replaced, writing is refused with
    /// `AlreadyExistingConfig` and nothing is to be written. Otherwise
    /// the configuration is written out as TOML; where that fails the
    /// refusal is a `TomlError`, with the explanation to print where a
    /// plain value came after a table. Where it succeeds the plan says
    /// what is written where.
    pub fn write(&self, base_dir: &str, chain_id: &str, exists: bool, replace: bool) -> (r:
        Result<WritePlan, Refusal>)
        ensures
            write_outcome(
                r,
                joined(base_dir@, chain_id@),
                joined(joined(base_dir@, chain_id@), "config.toml"@),
                self.tree(),
                exists && !replace,
            ),
    {
        let path = Config::file_path(base_dir, chain_id);
        if exists && !replace {
            Err(Refusal { error: Error::AlreadyExistingConfig(path), note: None })
        } else {
            match write_document(&self.to_tree()) {
                Ok(text) => Ok(WritePlan { dir: join(base_dir, chain_id), path, text }),
                Err(refusal) => Err(refusal),
            }
        }
    }

    /// Decides on generating the configuration file of a chain: the
    /// default configuration, and the plan to write it, unless the file
    /// exists and must not be replaced or the configuration cannot be
    /// written out.
    pub fn generate(
        base_dir: &str,
        chain_id: &str,
        mode: TendermintMode,
        exists: bool,
        replace: bool,
    ) -> (r: Result<(Config, WritePlan), Refusal>)
        requires
            chain_id@.len() > 0,
        ensures
            r matches Ok((config, _)) ==> config.is_default(base_dir@, chain_id@, mode),
            write_outcome(
                match r {
                    Ok((_, plan)) => Ok(plan),
                    Err(refusal) => Err(refusal),
                },
                joined(base_dir@, chain_id@),
                joined(joined(base_dir@, chain_id@), "config.toml"@),
                default_document(base_dir@, chain_id@, mode),
                exists && !replace,
            ),
    {
        let config = Config::new(base_dir, chain_id.to_owned(), mode);
        proof {
            lemma_default_document(config, base_dir@, chain_id@, mode);
        }
        match config.write(base_dir, chain_id, exists, replace) {
            Ok(plan) => Ok((config, plan)),
            Err(e) => Err(e),
        }
    }
}

} // verus!
