//! The genesis document of a test network, as far as the harness changes
//! it.

use vstd::prelude::*;
use crate::net::{parsed, SocketAddress};
use crate::text::{append_decimal, append_str, decimal, same_text};
use crate::value::{Node, Datum};

verus! {

/// The entry of one validator in the genesis document: the settings that
/// setting up a network reads or changes, and the rest of the entry.
#[derive(Clone, Debug, PartialEq, Eq)]
pub struct ValidatorConfig {
    /// Whether the validator is the seed of the intent gossip network.
    pub intent_gossip_seed: Option<bool>,
    pub matchmaker_account: Option<String>,
    pub matchmaker_code: Option<String>,
    pub matchmaker_tx: Option<String>,
    /// Where the validator listens, as `host:port`.
    pub net_address: Option<String>,
    /// Everything else in the entry.
    pub other: Datum,
}

/// The genesis document: the validators by their aliases, no alias twice,
/// and the rest of the document.
#[derive(Clone, Debug, PartialEq, Eq)]
pub struct GenesisConfig {
    pub validator: Vec<(String, ValidatorConfig)>,
    pub other: Datum,
}

/// The mathematical reading of a [`ValidatorConfig`].
pub struct ValidatorModel {
    pub intent_gossip_seed: Option<bool>,
    pub matchmaker_account: Option<Seq<char>>,
    pub matchmaker_code: Option<Seq<char>>,
    pub matchmaker_tx: Option<Seq<char>>,
    pub net_address: Option<Seq<char>>,
    pub other: Node,
}

/// A validator under its alias.
pub struct Seat {
    pub alias: Seq<char>,
    pub validator: ValidatorModel,
}

/// The text of an optional string.
pub open spec fn opt_text(s: Option<String>) -> Option<Seq<char>> {
    match s {
        Some(s) => Some(s@),
        None => None,
    }
}

impl View for ValidatorConfig {
    type V = ValidatorModel;

    open spec fn view(&self) -> ValidatorModel {
        ValidatorModel {
            intent_gossip_seed: self.intent_gossip_seed,
            matchmaker_account: opt_text(self.matchmaker_account),
            matchmaker_code: opt_text(self.matchmaker_code),
            matchmaker_tx: opt_text(self.matchmaker_tx),
            net_address: opt_text(self.net_address),
            other: self.other@,
        }
    }
}

/// The readings of a list of validators.
pub open spec fn seats_of(validators: Seq<(String, ValidatorConfig)>) -> Seq<Seat> {
    Seq::new(
        validators.len(),
        |i: int| Seat { alias: validators[i].0@, validator: validators[i].1@ },
    )
}

/// Where the validator with the alias `alias` stands: the place of the
/// first one with that alias, or the number of validators where none has
/// it.
pub open spec fn seat_of(seats: Seq<Seat>, alias: Seq<char>) -> int
    decreases seats.len(),
{
    if seats.len() == 0 {
        0
    } else if seats[0].alias == alias {
        0
    } else {
        1 + seat_of(seats.drop_first(), alias)
    }
}

proof fn lemma_seat_of(seats: Seq<Seat>, alias: Seq<char>, i: int)
    requires
        0 <= i <= seats.len(),
        forall|k: int| 0 <= k < i ==> (#[trigger] seats[k]).alias != alias,
        i < seats.len() ==> seats[i].alias == alias,
    ensures
        seat_of(seats, alias) == i,
    decreases seats.len(),
{
    if seats.len() == 0 || i == 0 {
    } else {
        assert(seats[0].alias != alias);
        let rest = seats.drop_first();
        assert forall|k: int| 0 <= k < i - 1 implies (#[trigger] rest[k]).alias != alias by {
            assert(rest[k] == seats[k + 1]);
        }
        lemma_seat_of(rest, alias, i - 1);
    }
}

/// [`seat_of`] is within bounds and points at a validator with the alias
/// unless it is the end.
pub proof fn lemma_seat_found(seats: Seq<Seat>, alias: Seq<char>)
    ensures
        0 <= seat_of(seats, alias) <= seats.len(),
        seat_of(seats, alias) < seats.len() ==> seats[seat_of(seats, alias)].alias == alias,
    decreases seats.len(),
{
    if seats.len() == 0 || seats[0].alias == alias {
    } else {
        lemma_seat_found(seats.drop_first(), alias);
    }
}

/// The alias of the validator with the number `k`.
pub open spec fn alias(k: nat) -> Seq<char> {
    "validator-"@ + decimal(k)
}

/// The first validator once it is the seed of the gossip network: marked
/// as the seed, and without a matchmaker, since a seed takes no part in
/// matchmaking.
pub open spec fn seeded(v: ValidatorModel) -> ValidatorModel {
    ValidatorModel {
        intent_gossip_seed: Some(true),
        matchmaker_account: None,
        matchmaker_code: None,
        matchmaker_tx: None,
        ..v
    }
}

/// A further validator made after `template`: not a seed, and listening at
/// `address`.
pub open spec fn follower(template: ValidatorModel, address: SocketAddress) -> ValidatorModel {
    ValidatorModel { intent_gossip_seed: None, net_address: Some(address.text()), ..template }
}

/// `seats` with `seat` in it: in the place of the validator that had its
/// alias, or at the end where none had it.
pub open spec fn seated(seats: Seq<Seat>, seat: Seat) -> Seq<Seat> {
    if seat_of(seats, seat.alias) < seats.len() {
        seats.update(seat_of(seats, seat.alias), seat)
    } else {
        seats.push(seat)
    }
}

/// `seats` with the validators 1 to `k` made after `template`: validator
/// `j` listens at the host of `address`, six ports per validator above its
/// port.
pub open spec fn with_followers(
    seats: Seq<Seat>,
    template: ValidatorModel,
    address: SocketAddress,
    k: nat,
) -> Seq<Seat>
    decreases k,
{
    if k == 0 {
        seats
    } else {
        seated(
            with_followers(seats, template, address, (k - 1) as nat),
            Seat {
                alias: alias(k),
                validator: follower(
                    template,
                    SocketAddress { port: (address.port + 6 * k) as u16, ..address },
                ),
            },
        )
    }
}

/// Whether `num` validators can be added: there is a validator
/// `validator-0`, it says where it listens, and the ports of the new
/// validators are within the range of ports.
pub open spec fn can_add(seats: Seq<Seat>, num: nat) -> bool {
    let first = seats[seat_of(seats, "validator-0"@)].validator;
    &&& seat_of(seats, "validator-0"@) < seats.len()
    &&& first.net_address is Some
    &&& parsed(first.net_address->Some_0) is Some
    &&& parsed(first.net_address->Some_0)->Some_0.port + 6 * num <= 65535
}

/// The validators of a network of `num` validators beside the first: the
/// first becomes the seed, the others are made after what it was before.
pub open spec fn added(seats: Seq<Seat>, num: nat) -> Seq<Seat> {
    let i = seat_of(seats, "validator-0"@);
    let first = seats[i].validator;
    with_followers(
        seats.update(i, Seat { alias: "validator-0"@, validator: seeded(first) }),
        first,
        parsed(first.net_address->Some_0)->Some_0,
        num,
    )
}

fn copy_text(s: &Option<String>) -> (r: Option<String>)
    ensures
        opt_text(r) == opt_text(*s),
{
    match s {
        Some(s) => Some(s.clone()),
        None => None,
    }
}

impl ValidatorConfig {
    /// A copy of the entry.
    pub fn copy(&self) -> (r: ValidatorConfig)
        ensures
            r@ == self@,
    {
        ValidatorConfig {
            intent_gossip_seed: self.intent_gossip_seed,
            matchmaker_account: copy_text(&self.matchmaker_account),
            matchmaker_code: copy_text(&self.matchmaker_code),
            matchmaker_tx: copy_text(&self.matchmaker_tx),
            net_address: copy_text(&self.net_address),
            other: self.other.copy(),
        }
    }
}

/// Where the validator with the alias `alias` stands, as [`seat_of`] has
/// it.
pub fn find_validator(validators: &Vec<(String, ValidatorConfig)>, alias: &str) -> (i: usize)
    ensures
        i == seat_of(seats_of(validators@), alias@),
        i <= validators.len(),
{
    let ghost seats = seats_of(validators@);
    let mut i: usize = 0;
    while i < validators.len()
        invariant
            i <= validators.len(),
            seats == seats_of(validators@),
            forall|k: int| 0 <= k < i ==> (#[trigger] seats[k]).alias != alias@,
        decreases validators.len() - i,
    {
        if same_text(validators[i].0.as_str(), alias) {
            proof {
                assert(seats[i as int].alias == alias@);
                lemma_seat_of(seats, alias@, i as int);
            }
            return i;
        }
        assert(seats[i as int].alias != alias@);
        i += 1;
    }
    proof {
        lemma_seat_of(seats, alias@, i as int);
    }
    i
}

/// The alias of the validator with the number `k`.
pub fn validator_alias(k: u64) -> (r: String)
    ensures
        r@ == alias(k as nat),
{
    let mut out = String::new();
    append_str(&mut out, "validator-");
    append_decimal(&mut out, k as u128);
    assert(out@ =~= alias(k as nat));
    out
}

fn seat(validators: &mut Vec<(String, ValidatorConfig)>, alias: String, validator: ValidatorConfig)
    ensures
        seats_of(final(validators)@) == seated(
            seats_of(old(validators)@),
            Seat { alias: alias@, validator: validator@ },
        ),
{
    let ghost before = seats_of(validators@);
    let i = find_validator(validators, alias.as_str());
    if i < validators.len() {
        let _ = validators.remove(i);
        validators.insert(i, (alias, validator));
        assert(seats_of(validators@) =~= before.update(
            i as int,
            Seat { alias: alias@, validator: validator@ },
        ));
    } else {
        validators.push((alias, validator));
        assert(seats_of(validators@) =~= before.push(Seat { alias: alias@, validator: validator@ }));
    }
}

impl GenesisConfig {
    /// Whether `num` validators can be added, as [`can_add`] has it.
    pub fn can_add_validators(&self, num: u8) -> (r: bool)
        ensures
            r == can_add(seats_of(self.validator@), num as nat),
    {
        let i = find_validator(&self.validator, "validator-0");
        if i >= self.validator.len() {
            return false;
        }
        assert(seats_of(self.validator@)[i as int].validator == self.validator@[i as int].1@);
        match &self.validator[i].1.net_address {
            Some(text) => match SocketAddress::parse(text.as_str()) {
                Some(address) => address.port as u32 + 6 * (num as u32) <= 65535,
                None => false,
            },
            None => false,
        }
    }
}

/// Adds `num` validators to the genesis document of a network that has the
/// one validator `validator-0`. That validator becomes the seed of the
/// gossip network and loses its matchmaker; the validators `validator-1`
/// to `validator-<num>` are made after what it was before, each listening
/// six ports above the one before it. The rest of the document stays.
///
/// To be called once on a document.
pub fn add_validators(num: u8, genesis: GenesisConfig) -> (r: GenesisConfig)
    requires
        can_add(seats_of(genesis.validator@), num as nat),
    ensures
        seats_of(r.validator@) == added(seats_of(genesis.validator@), num as nat),
        r.other == genesis.other,
{
    let ghost seats = seats_of(genesis.validator@);
    let GenesisConfig { validator, other } = genesis;
    let mut validators = validator;
    let i = find_validator(&validators, "validator-0");
    assert(seats[i as int].validator == validators@[i as int].1@);
    let (alias_0, validator_0) = validators.remove(i);
    let template = validator_0.copy();
    let address = match &template.net_address {
        Some(text) => match SocketAddress::parse(text.as_str()) {
            Some(a) => a,
            None => SocketAddress::new(0, 0, 0, 0, 0),
        },
        None => SocketAddress::new(0, 0, 0, 0, 0),
    };
    let seed = ValidatorConfig {
        intent_gossip_seed: Some(true),
        matchmaker_account: None,
        matchmaker_code: None,
        matchmaker_tx: None,
        net_address: validator_0.net_address,
        other: validator_0.other,
    };
    validators.insert(i, (alias_0, seed));
    let ghost start = seats.update(
        i as int,
        Seat { alias: "validator-0"@, validator: seeded(seats[i as int].validator) },
    );
    assert(seats_of(validators@) =~= start) by {
        lemma_seat_found(seats, "validator-0"@);
        assert(seats[i as int].alias == "validator-0"@);
    }
    let mut k: u8 = 0;
    while k < num
        invariant
            k <= num,
            address.port + 6 * num <= 65535,
            seats_of(validators@) == with_followers(start, template@, address, k as nat),
        decreases num - k,
    {
        k += 1;
        let mut next = template.copy();
        next.intent_gossip_seed = None;
        let port: u16 = address.port + 6 * (k as u16);
        next.net_address = Some(address.with_port(port).to_text());
        assert(next@ == follower(
            template@,
            SocketAddress { port: (address.port + 6 * (k as nat)) as u16, ..address },
        ));
        seat(&mut validators, validator_alias(k as u64), next);
    }
    GenesisConfig { validator: validators, other }
}

} // verus!
