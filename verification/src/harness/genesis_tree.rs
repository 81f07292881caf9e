//! The genesis document read from, and written out as, a tree of values.

use vstd::prelude::*;
use crate::harness::genesis::{opt_text, seats_of, GenesisConfig, Seat, ValidatorConfig, ValidatorModel};
use crate::leaf::{as_flag, as_text, flag_at, optional_text_at, section, section_at, when_present};
use crate::text::same_text;
use crate::tree::{entry, optional};
use crate::value::{entries_of, lemma_view_table, names_of, push_entry, Field, Node, Datum};

verus! {

/// The entries of `entries` whose names are not among `known`, in their
/// order.
pub open spec fn rest_of(entries: Seq<Field>, known: Seq<Seq<char>>) -> Seq<Field>
    decreases entries.len(),
{
    if entries.len() == 0 {
        Seq::empty()
    } else if known.contains(entries.last().key) {
        rest_of(entries.drop_last(), known)
    } else {
        rest_of(entries.drop_last(), known).push(entries.last())
    }
}

/// The names of the settings of a validator that the harness knows.
pub open spec fn validator_keys() -> Seq<Seq<char>> {
    seq![
        "intent_gossip_seed"@,
        "matchmaker_account"@,
        "matchmaker_code"@,
        "matchmaker_tx"@,
        "net_address"@,
    ]
}

/// The entries of a table; none for a value that is no table.
pub open spec fn entries_in(node: Node) -> Seq<Field> {
    match node {
        Node::Table(entries) => entries,
        _ => Seq::empty(),
    }
}

/// The validator that a table stands for. The settings that the harness
/// knows may be left out, but have to be of their kind where they are
/// there; all other entries are kept as the rest.
pub open spec fn validator_of(node: Node) -> Option<ValidatorModel> {
    let seed = when_present(
        node.child("intent_gossip_seed"@),
        as_flag(node.child("intent_gossip_seed"@)),
    );
    let account = when_present(
        node.child("matchmaker_account"@),
        as_text(node.child("matchmaker_account"@)),
    );
    let code = when_present(node.child("matchmaker_code"@), as_text(node.child("matchmaker_code"@)));
    let tx = when_present(node.child("matchmaker_tx"@), as_text(node.child("matchmaker_tx"@)));
    let address = when_present(node.child("net_address"@), as_text(node.child("net_address"@)));
    if node is Table && seed is Some && account is Some && code is Some && tx is Some && address
        is Some {
        Some(
            ValidatorModel {
                intent_gossip_seed: seed->Some_0,
                matchmaker_account: account->Some_0,
                matchmaker_code: code->Some_0,
                matchmaker_tx: tx->Some_0,
                net_address: address->Some_0,
                other: Node::Table(rest_of(entries_in(node), validator_keys())),
            },
        )
    } else {
        None
    }
}

/// The validators that a table of validators by their aliases stands for;
/// none where one of its entries stands for no validator.
pub open spec fn seats_in(entries: Seq<Field>) -> Option<Seq<Seat>> {
    if forall|i: int| 0 <= i < entries.len() ==> validator_of((#[trigger] entries[i]).node) is Some {
        Some(
            Seq::new(
                entries.len(),
                |i: int|
                    Seat { alias: entries[i].key, validator: validator_of(entries[i].node)->Some_0 },
            ),
        )
    } else {
        None
    }
}

/// The validators and the rest of the genesis document that a tree stands
/// for: a table with a table `validator` of validators by their aliases.
pub open spec fn genesis_of(node: Node) -> Option<(Seq<Seat>, Node)> {
    match section(node, "validator"@) {
        Some(validators) => match seats_in(entries_in(validators)) {
            Some(seats) => Some((seats, Node::Table(rest_of(entries_in(node), seq!["validator"@])))),
            None => None,
        },
        None => None,
    }
}

/// The table that a validator is written out as: the settings that the
/// harness knows, where set, and then the rest.
pub open spec fn validator_tree(v: ValidatorModel) -> Node {
    Node::Table(
        optional(
            "intent_gossip_seed"@,
            match v.intent_gossip_seed {
                Some(b) => Some(Node::Boolean(b)),
                None => None,
            },
        ) + optional(
            "matchmaker_account"@,
            match v.matchmaker_account {
                Some(t) => Some(Node::Text(t)),
                None => None,
            },
        ) + optional(
            "matchmaker_code"@,
            match v.matchmaker_code {
                Some(t) => Some(Node::Text(t)),
                None => None,
            },
        ) + optional(
            "matchmaker_tx"@,
            match v.matchmaker_tx {
                Some(t) => Some(Node::Text(t)),
                None => None,
            },
        ) + optional(
            "net_address"@,
            match v.net_address {
                Some(t) => Some(Node::Text(t)),
                None => None,
            },
        ) + entries_in(v.other),
    )
}

/// The tree that a genesis document is written out as: the rest of the
/// document, and then the table of the validators by their aliases.
pub open spec fn genesis_tree(seats: Seq<Seat>, other: Node) -> Node {
    Node::Table(
        entries_in(other).push(
            entry(
                "validator"@,
                Node::Table(
                    Seq::new(
                        seats.len(),
                        |i: int| entry(seats[i].alias, validator_tree(seats[i].validator)),
                    ),
                ),
            ),
        ),
    )
}

fn is_known(key: &str, known: &Vec<String>) -> (r: bool)
    ensures
        r == names_of(known@).contains(key@),
{
    let ghost names = names_of(known@);
    let mut i: usize = 0;
    while i < known.len()
        invariant
            i <= known.len(),
            names == names_of(known@),
            forall|k: int| 0 <= k < i ==> names[k] != key@,
        decreases known.len() - i,
    {
        if same_text(known[i].as_str(), key) {
            assert(names[i as int] == key@);
            return true;
        }
        assert(names[i as int] == known@[i as int]@);
        i += 1;
    }
    false
}

fn remaining(entries: &Vec<(String, Datum)>, known: &Vec<String>) -> (r: Vec<(String, Datum)>)
    ensures
        entries_of(r@) == rest_of(entries_of(entries@), names_of(known@)),
{
    let ghost all = entries_of(entries@);
    let mut out: Vec<(String, Datum)> = Vec::new();
    let mut i: usize = 0;
    assert(all.take(0) =~= Seq::<Field>::empty());
    assert(entries_of(out@) =~= Seq::<Field>::empty());
    while i < entries.len()
        invariant
            i <= entries.len(),
            all == entries_of(entries@),
            entries_of(out@) == rest_of(all.take(i as int), names_of(known@)),
        decreases entries.len() - i,
    {
        proof {
            assert(all.take(i + 1).drop_last() =~= all.take(i as int));
            assert(all.take(i + 1).last() == all[i as int]);
            assert(all[i as int].key == entries@[i as int].0@);
            assert(all[i as int].node == entries@[i as int].1@);
        }
        if !is_known(entries[i].0.as_str(), known) {
            let ghost before = entries_of(out@);
            out.push((entries[i].0.clone(), entries[i].1.copy()));
            assert(entries_of(out@) =~= before.push(all[i as int]));
        }
        i += 1;
    }
    assert(all.take(entries.len() as int) =~= all);
    out
}

fn entries_from(v: &Datum) -> (r: Vec<(String, Datum)>)
    ensures
        entries_of(r@) == entries_in(v@),
{
    let none: Vec<String> = Vec::new();
    match v {
        Datum::Table(entries) => {
            proof {
                lemma_view_table(*entries);
                lemma_rest_of_nothing(entries_of(entries@));
                assert(names_of(none@) =~= Seq::<Seq<char>>::empty());
            }
            remaining(entries, &none)
        },
        _ => {
            let out: Vec<(String, Datum)> = Vec::new();
            assert(entries_of(out@) =~= Seq::<Field>::empty());
            out
        },
    }
}

/// Nothing is left out where no name is known.
pub proof fn lemma_rest_of_nothing(entries: Seq<Field>)
    ensures
        rest_of(entries, Seq::empty()) == entries,
    decreases entries.len(),
{
    if entries.len() > 0 {
        lemma_rest_of_nothing(entries.drop_last());
        assert(entries.drop_last().push(entries.last()) =~= entries);
    }
}

fn known_validator_keys() -> (r: Vec<String>)
    ensures
        names_of(r@) == validator_keys(),
{
    let mut known: Vec<String> = Vec::new();
    known.push("intent_gossip_seed".to_owned());
    known.push("matchmaker_account".to_owned());
    known.push("matchmaker_code".to_owned());
    known.push("matchmaker_tx".to_owned());
    known.push("net_address".to_owned());
    assert(names_of(known@) =~= validator_keys());
    known
}

impl ValidatorConfig {
    /// Reads a validator from its table.
    pub fn from_tree(node: &Datum) -> (r: Option<ValidatorConfig>)
        ensures
            match r {
                Some(v) => validator_of(node@) == Some(v@),
                None => validator_of(node@) is None,
            },
    {
        let entries = match node {
            Datum::Table(entries) => {
                proof {
                    lemma_view_table(*entries);
                }
                entries
            },
            _ => {
                return None;
            },
        };
        let intent_gossip_seed = match node.get("intent_gossip_seed") {
            Some(_) => match flag_at(node, "intent_gossip_seed") {
                Some(b) => Some(b),
                None => {
                    return None;
                },
            },
            None => None,
        };
        let matchmaker_account = match optional_text_at(node, "matchmaker_account") {
            Some(t) => t,
            None => {
                return None;
            },
        };
        let matchmaker_code = match optional_text_at(node, "matchmaker_code") {
            Some(t) => t,
            None => {
                return None;
            },
        };
        let matchmaker_tx = match optional_text_at(node, "matchmaker_tx") {
            Some(t) => t,
            None => {
                return None;
            },
        };
        let net_address = match optional_text_at(node, "net_address") {
            Some(t) => t,
            None => {
                return None;
            },
        };
        let known = known_validator_keys();
        let rest = remaining(entries, &known);
        proof {
            lemma_view_table(rest);
        }
        Some(
            ValidatorConfig {
                intent_gossip_seed,
                matchmaker_account,
                matchmaker_code,
                matchmaker_tx,
                net_address,
                other: Datum::Table(rest),
            },
        )
    }

    /// Writes a validator out as its table.
    pub fn to_tree(&self) -> (r: Datum)
        ensures
            r@ == validator_tree(self@),
    {
        let mut entries: Vec<(String, Datum)> = Vec::new();
        assert(entries_of(entries@) =~= Seq::<Field>::empty());
        let ghost mut so_far = Seq::<Field>::empty();
        match self.intent_gossip_seed {
            Some(b) => {
                push_entry(&mut entries, "intent_gossip_seed", Datum::Boolean(b));
            },
            None => {},
        }
        proof {
            so_far = optional(
                "intent_gossip_seed"@,
                match self.intent_gossip_seed {
                    Some(b) => Some(Node::Boolean(b)),
                    None => None,
                },
            );
            assert(entries_of(entries@) =~= so_far);
        }
        put_text(&mut entries, "matchmaker_account", &self.matchmaker_account);
        put_text(&mut entries, "matchmaker_code", &self.matchmaker_code);
        put_text(&mut entries, "matchmaker_tx", &self.matchmaker_tx);
        put_text(&mut entries, "net_address", &self.net_address);
        let mut rest = entries_from(&self.other);
        let ghost head = entries_of(entries@);
        let ghost tail = entries_of(rest@);
        entries.append(&mut rest);
        proof {
            assert(entries_of(entries@) =~= head + tail);
            lemma_view_table(entries);
            assert(entries_of(entries@) =~= validator_tree(self@)->Table_0);
        }
        Datum::Table(entries)
    }
}

fn put_text(entries: &mut Vec<(String, Datum)>, key: &str, value: &Option<String>)
    ensures
        entries_of(final(entries)@) == entries_of(old(entries)@) + optional(
            key@,
            match opt_text(*value) {
                Some(t) => Some(Node::Text(t)),
                None => None,
            },
        ),
{
    match value {
        Some(t) => {
            push_entry(entries, key, Datum::Text(t.clone()));
            assert(entries_of(entries@) =~= entries_of(old(entries)@) + seq![
                Field { key: key@, node: Node::Text(t@) },
            ]);
        },
        None => {
            assert(entries_of(entries@) =~= entries_of(old(entries)@) + Seq::<Field>::empty());
        },
    }
}

impl GenesisConfig {
    /// Reads a genesis document from a tree.
    pub fn from_tree(node: &Datum) -> (r: Option<GenesisConfig>)
        ensures
            match r {
                Some(g) => genesis_of(node@) == Some((seats_of(g.validator@), g.other@)),
                None => genesis_of(node@) is None,
            },
    {
        let validators = match section_at(node, "validator") {
            Some(v) => v,
            None => {
                return None;
            },
        };
        let listed = match validators {
            Datum::Table(entries) => {
                proof {
                    lemma_view_table(*entries);
                }
                entries
            },
            _ => {
                return None;
            },
        };
        let ghost fields = entries_of(listed@);
        let mut validator: Vec<(String, ValidatorConfig)> = Vec::new();
        let mut i: usize = 0;
        while i < listed.len()
            invariant
                i <= listed.len(),
                fields == entries_of(listed@),
                section(node@, "validator"@) == Some(Node::Table(fields)),
                validator@.len() == i,
                forall|k: int|
                    0 <= k < i ==> validator_of((#[trigger] fields[k]).node) == Some(
                        validator@[k].1@,
                    ) && validator@[k].0@ == fields[k].key,
            decreases listed.len() - i,
        {
            assert(fields[i as int].node == listed@[i as int].1@);
            assert(fields[i as int].key == listed@[i as int].0@);
            match ValidatorConfig::from_tree(&listed[i].1) {
                Some(v) => {
                    validator.push((listed[i].0.clone(), v));
                },
                None => {
                    assert(seats_in(fields) is None);
                    return None;
                },
            }
            i += 1;
        }
        let entries = match node {
            Datum::Table(entries) => {
                proof {
                    lemma_view_table(*entries);
                }
                entries
            },
            _ => {
                return None;
            },
        };
        let mut known: Vec<String> = Vec::new();
        known.push("validator".to_owned());
        assert(names_of(known@) =~= seq!["validator"@]);
        let rest = remaining(entries, &known);
        proof {
            lemma_view_table(rest);
            assert(seats_in(fields)->Some_0 =~= seats_of(validator@));
        }
        Some(GenesisConfig { validator, other: Datum::Table(rest) })
    }

    /// Writes the genesis document out as a tree.
    pub fn to_tree(&self) -> (r: Datum)
        ensures
            r@ == genesis_tree(seats_of(self.validator@), self.other@),
    {
        let ghost seats = seats_of(self.validator@);
        let mut listed: Vec<(String, Datum)> = Vec::new();
        let mut i: usize = 0;
        while i < self.validator.len()
            invariant
                i <= self.validator.len(),
                seats == seats_of(self.validator@),
                listed@.len() == i,
                forall|k: int|
                    0 <= k < i ==> (#[trigger] entries_of(listed@)[k]) == entry(
                        seats[k].alias,
                        validator_tree(seats[k].validator),
                    ),
            decreases self.validator.len() - i,
        {
            let ghost before = entries_of(listed@);
            listed.push((self.validator[i].0.clone(), self.validator[i].1.to_tree()));
            proof {
                assert forall|k: int| 0 <= k < i + 1 implies (#[trigger] entries_of(listed@)[k])
                    == entry(seats[k].alias, validator_tree(seats[k].validator)) by {
                    if k < i {
                        assert(entries_of(listed@)[k] == before[k]);
                    }
                }
            }
            i += 1;
        }
        let mut entries = entries_from(&self.other);
        proof {
            lemma_view_table(listed);
            assert(entries_of(listed@) =~= genesis_tree(seats, self.other@)->Table_0.last().node->Table_0);
        }
        push_entry(&mut entries, "validator", Datum::Table(listed));
        proof {
            lemma_view_table(entries);
        }
        Datum::Table(entries)
    }
}

} // verus!
