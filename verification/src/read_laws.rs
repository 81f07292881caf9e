//! What holds of a configuration that was read from its layers.

use vstd::prelude::*;
use crate::config::{localhost, Config};
use crate::env::{
    env_path, layered, lemma_defaults_show, lemma_environment_wins, lemma_file_wins,
    lemma_other_variables_change_nothing, names_nothing,
};
use crate::error::Error;
use crate::filter::{regex_compiles, SubscriptionFilter};
use crate::leaf::as_texts;
use crate::merge_laws::missing;
use crate::mode::TendermintMode;
use crate::ip6_laws::lemma_socket_round_trip;
use crate::net::parsed;
use crate::peer::{multiaddr_parsed, multiaddr_text, Hop};
use crate::round_trip::{lemma_document_is_read_back, lemma_round_trip, lemma_texts_read_back};
use crate::store::{default_document, lemma_generated_is_read_back, read_outcome, Read};
use crate::value::{lemma_position_is, merged, names_of, Node};

verus! {

/// The names that lead to the address that the ledger listens at.
pub open spec fn ledger_address_path() -> Seq<Seq<char>> {
    seq!["ledger"@, "shell"@, "ledger_address"@]
}

/// The address that the ledger listens at is the one that the document
/// writes under `ledger`, `shell`, `ledger_address`.
pub proof fn lemma_ledger_address_is_read(c: Config, doc: Node, text: Seq<char>)
    requires
        c.reads(doc),
        doc.lookup(ledger_address_path()) == Some(Node::Text(text)),
    ensures
        parsed(text) == Some(c.ledger.shell@.ledger_address),
{
    let path = ledger_address_path();
    reveal_with_fuel(Node::lookup, 4);
    assert(path.drop_first() =~= seq!["shell"@, "ledger_address"@]);
    assert(path.drop_first().drop_first() =~= seq!["ledger_address"@]);
    assert(path.drop_first().drop_first().drop_first() =~= Seq::<Seq<char>>::empty());
}

/// The environment wins: where the last variable names the ledger's
/// address, a configuration that was read listens at the address that the
/// variable writes, whatever the file and the defaults say.
pub proof fn lemma_environment_sets_the_address(
    c: Config,
    defaults: Node,
    file: Node,
    vars: Seq<(Seq<char>, Seq<char>)>,
)
    requires
        vars.len() > 0,
        env_path(vars.last().0) == Some(ledger_address_path()),
        c.reads(layered(defaults, file, vars)),
    ensures
        parsed(vars.last().1) == Some(c.ledger.shell@.ledger_address),
{
    lemma_environment_wins(defaults, file, vars);
    lemma_ledger_address_is_read(c, layered(defaults, file, vars), vars.last().1);
}

/// The file wins over the defaults: where no variable names a setting and
/// the file writes the ledger's address, a configuration that was read
/// listens at that address.
pub proof fn lemma_file_sets_the_address(
    c: Config,
    defaults: Node,
    file: Node,
    vars: Seq<(Seq<char>, Seq<char>)>,
    text: Seq<char>,
)
    requires
        names_nothing(vars),
        file.lookup(ledger_address_path()) == Some(Node::Text(text)),
        c.reads(layered(defaults, file, vars)),
    ensures
        parsed(text) == Some(c.ledger.shell@.ledger_address),
{
    lemma_file_wins(defaults, file, vars, ledger_address_path());
    lemma_ledger_address_is_read(c, layered(defaults, file, vars), text);
}

/// The default document writes the default address of the ledger.
pub proof fn lemma_default_ledger_address(
    base_dir: Seq<char>,
    chain_id: Seq<char>,
    mode: TendermintMode,
)
    ensures
        default_document(base_dir, chain_id, mode).lookup(ledger_address_path()) == Some(
            Node::Text(localhost(26658).text()),
        ),
{
    let path = ledger_address_path();
    let d = default_document(base_dir, chain_id, mode);
    reveal_with_fuel(Node::lookup, 4);
    assert(path.drop_first() =~= seq!["shell"@, "ledger_address"@]);
    assert(path.drop_first().drop_first() =~= seq!["ledger_address"@]);
    assert(path.drop_first().drop_first().drop_first() =~= Seq::<Seq<char>>::empty());
    reveal_strlit("wasm_dir");
    reveal_strlit("ledger");
    reveal_strlit("genesis_time");
    reveal_strlit("chain_id");
    reveal_strlit("shell");
    reveal_strlit("base_dir");
    reveal_strlit("ledger_address");
    assert("wasm_dir"@.len() == 8 && "ledger"@.len() == 6);
    assert("genesis_time"@.len() == 12 && "chain_id"@.len() == 8 && "shell"@.len() == 5);
    assert("base_dir"@.len() == 8 && "ledger_address"@.len() == 14);
    let top = d->Table_0;
    lemma_position_is(top, "ledger"@, 1);
    let ledger = top[1].node->Table_0;
    lemma_position_is(ledger, "shell"@, 2);
    let shell = ledger[2].node->Table_0;
    lemma_position_is(shell, "ledger_address"@, 1);
}

/// The defaults show through: where no variable names a setting and the
/// file does not write the ledger's address, a configuration that was
/// read listens at the default address, `127.0.0.1:26658`.
pub proof fn lemma_default_address_shows(
    c: Config,
    base_dir: Seq<char>,
    chain_id: Seq<char>,
    mode: TendermintMode,
    file: Node,
    vars: Seq<(Seq<char>, Seq<char>)>,
)
    requires
        names_nothing(vars),
        missing(file, ledger_address_path()),
        c.reads(layered(default_document(base_dir, chain_id, mode), file, vars)),
    ensures
        c.ledger.shell@.ledger_address == localhost(26658),
{
    let defaults = default_document(base_dir, chain_id, mode);
    lemma_defaults_show(defaults, file, vars, ledger_address_path());
    lemma_default_ledger_address(base_dir, chain_id, mode);
    lemma_ledger_address_is_read(c, layered(defaults, file, vars), localhost(26658).text());
    lemma_socket_round_trip(localhost(26658));
}

/// A filter is what the document writes for it: one text gives the
/// regular expression with that pattern, a list of texts gives the list
/// of those texts in their order, and never the other way round.
pub proof fn lemma_filter_is_what_is_written(filter: SubscriptionFilter, node: Node)
    requires
        filter.tree() == node,
    ensures
        node matches Node::Text(pattern) ==> filter.is_regex(pattern),
        node is Array ==> filter is WhitelistFilter && as_texts(Some(node)) == Some(
            names_of(filter->WhitelistFilter_0@),
        ),
        node is Text || node is Array,
{
    match filter {
        SubscriptionFilter::RegexFilter(p) => {},
        SubscriptionFilter::WhitelistFilter(t) => {
            lemma_texts_read_back(t@);
        },
    }
}

/// The default configuration is read back from its own document, where
/// the reader of multiaddresses reads the default address back from its
/// writing and the engine of regular expressions takes the default
/// pattern: a configuration that is what that document says has the
/// default settings.
pub proof fn lemma_default_round_trip(
    written: Config,
    read: Config,
    base_dir: Seq<char>,
    chain_id: Seq<char>,
    mode: TendermintMode,
)
    requires
        written.is_default(base_dir, chain_id, mode),
        multiaddr_parsed(multiaddr_text(seq![Hop::Ip4(0, 0, 0, 0), Hop::Tcp(26659)])) == Some(
            seq![Hop::Ip4(0, 0, 0, 0), Hop::Tcp(26659)],
        ),
        regex_compiles("asset_v\\d{1,2}"@),
        read.reads(written.tree()),
    ensures
        read.agrees(written),
{
    assert(written.reads_back());
    lemma_round_trip(written, read);
}

/// Reading right after generating gives what was generated: where the
/// file holds the document of the default configuration and no variable
/// names a setting, reading does not fail, marks nothing as generated,
/// and gives a configuration with the default settings. This rests on the
/// reader of multiaddresses reading the default address back from its
/// writing and on the engine of regular expressions taking the default
/// pattern.
pub proof fn lemma_generated_then_read(
    generated: Config,
    r: Result<Read, Error>,
    base_dir: Seq<char>,
    chain_id: Seq<char>,
    mode: TendermintMode,
    vars: Seq<(Seq<char>, Seq<char>)>,
)
    requires
        generated.is_default(base_dir, chain_id, mode),
        names_nothing(vars),
        multiaddr_parsed(multiaddr_text(seq![Hop::Ip4(0, 0, 0, 0), Hop::Tcp(26659)])) == Some(
            seq![Hop::Ip4(0, 0, 0, 0), Hop::Tcp(26659)],
        ),
        regex_compiles("asset_v\\d{1,2}"@),
        read_outcome(
            r,
            layered(default_document(base_dir, chain_id, mode), generated.tree(), vars),
        ),
    ensures
        r is Ok,
        !r->Ok_0.generated,
        r->Ok_0.config.agrees(generated),
{
    let defaults = default_document(base_dir, chain_id, mode);
    lemma_other_variables_change_nothing(merged(defaults, generated.tree()), vars);
    lemma_generated_is_read_back(generated, base_dir, chain_id, mode);
    assert(layered(defaults, generated.tree(), vars) == generated.tree());
    assert(generated.reads_back());
    lemma_document_is_read_back(generated);
    lemma_round_trip(generated, r->Ok_0.config);
}

} // verus!
