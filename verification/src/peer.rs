//! Bootstrap peers: a multiaddress and the peer's identity, written down as
//! one multiaddress that ends in a `/p2p/<peer id>` component.

use vstd::prelude::*;
use libp2p::multiaddr::{Multiaddr, Protocol};
use libp2p::PeerId;
use crate::error::SerdeError;

verus! {

/// The multiaddress of `libp2p`, carried through as it is.
#[verifier::external_type_specification]
#[verifier::external_body]
pub struct ExMultiaddr(Multiaddr);

/// The peer identity of `libp2p`, carried through as it is.
#[verifier::external_type_specification]
#[verifier::external_body]
pub struct ExPeerId(PeerId);

/// One component of a multiaddress, as far as this library tells components
/// apart: an IPv4 address, a TCP port, a peer identity given by its bytes,
/// or any other component, given by its encoding.
pub enum Hop {
    Ip4(u8, u8, u8, u8),
    Tcp(u16),
    P2p(Seq<u8>),
    Other(Seq<u8>),
}

/// The components that a multiaddress holds, first to last.
pub uninterp spec fn multiaddr_hops(addr: Multiaddr) -> Seq<Hop>;

/// The bytes of a peer identity.
pub uninterp spec fn peer_id_bytes(id: PeerId) -> Seq<u8>;

/// The text that a multiaddress with these components is written as.
pub uninterp spec fn multiaddr_text(hops: Seq<Hop>) -> Seq<char>;

/// What reading `text` as a multiaddress gives: its components, or
/// nothing where the text is refused.
pub uninterp spec fn multiaddr_parsed(text: Seq<char>) -> Option<Seq<Hop>>;

/// What came off the end of a multiaddress.
pub enum LastHop {
    Peer(PeerId),
    Other,
}

/// Builds `/ip4/<a.b.c.d>/tcp/<port>` with `Multiaddr::empty` and
/// `Multiaddr::with`, which adds a component at the end: the result holds
/// the IPv4 component and then the TCP component, and nothing else.
#[verifier::external_body]
pub(crate) fn multiaddr_ip4_tcp(a: u8, b: u8, c: u8, d: u8, port: u16) -> (r: Multiaddr)
    ensures
        multiaddr_hops(r) == seq![Hop::Ip4(a, b, c, d), Hop::Tcp(port)],
{
    Multiaddr::empty().with(Protocol::Ip4([a, b, c, d].into())).with(Protocol::Tcp(port))
}

/// `Clone::clone` of a multiaddress gives the same value.
pub assume_specification[ <Multiaddr as Clone>::clone ](addr: &Multiaddr) -> (r: Multiaddr)
    ensures
        r == *addr,
;

/// `Clone::clone` of a peer identity gives the same value.
pub assume_specification[ <PeerId as Clone>::clone ](id: &PeerId) -> (r: PeerId)
    ensures
        r == *id,
;

/// Adds a peer identity at the end with `Multiaddr::push`: the components
/// that were there stay, and a `/p2p/` component with that identity follows
/// them.
#[verifier::external_body]
fn multiaddr_push_peer(addr: &mut Multiaddr, id: &PeerId)
    ensures
        multiaddr_hops(*final(addr)) == multiaddr_hops(*old(addr)).push(
            Hop::P2p(peer_id_bytes(*id)),
        ),
{
    addr.push(Protocol::P2p(*id))
}

/// Takes the last component off with `Multiaddr::pop`. An empty
/// multiaddress stays as it is and gives `None`. Otherwise the last
/// component leaves and the others stay; what is handed back says whether
/// it was a `/p2p/` component, and with which identity.
#[verifier::external_body]
fn multiaddr_pop(addr: &mut Multiaddr) -> (r: Option<LastHop>)
    ensures
        multiaddr_hops(*old(addr)).len() == 0 ==> r is None && multiaddr_hops(*final(addr))
            == multiaddr_hops(*old(addr)),
        multiaddr_hops(*old(addr)).len() > 0 ==> r is Some && multiaddr_hops(*final(addr))
            == multiaddr_hops(*old(addr)).drop_last(),
        r matches Some(LastHop::Peer(id)) ==> multiaddr_hops(*old(addr)).last() == Hop::P2p(
            peer_id_bytes(id),
        ),
        r matches Some(LastHop::Other) ==> !(multiaddr_hops(*old(addr)).last() is P2p),
{
    match addr.pop() {
        Some(Protocol::P2p(id)) => Some(LastHop::Peer(id)),
        Some(_) => Some(LastHop::Other),
        None => None,
    }
}

/// Compares two multiaddresses with `==`: they are equal where they hold
/// the same components.
#[verifier::external_body]
pub(crate) fn multiaddr_eq(a: &Multiaddr, b: &Multiaddr) -> (r: bool)
    ensures
        r == (multiaddr_hops(*a) == multiaddr_hops(*b)),
{
    a == b
}

/// Compares two peer identities with `==`: they are equal where they have
/// the same bytes.
#[verifier::external_body]
pub(crate) fn peer_id_eq(a: &PeerId, b: &PeerId) -> (r: bool)
    ensures
        r == (peer_id_bytes(*a) == peer_id_bytes(*b)),
{
    a == b
}

/// Writes a multiaddress out with its `Display`: the text depends on the
/// components alone.
#[verifier::external_body]
pub(crate) fn multiaddr_to_text(addr: &Multiaddr) -> (r: String)
    ensures
        r@ == multiaddr_text(multiaddr_hops(*addr)),
{
    addr.to_string()
}

/// Reads a multiaddress with its `FromStr`; a refusal comes back as
/// `None`. What comes back depends on the text alone.
#[verifier::external_body]
pub(crate) fn multiaddr_parse(text: &str) -> (r: Option<Multiaddr>)
    ensures
        match r {
            Some(addr) => multiaddr_parsed(text@) == Some(multiaddr_hops(addr)),
            None => multiaddr_parsed(text@) is None,
        },
{
    text.parse::<Multiaddr>().ok()
}

/// A peer to bootstrap from: where it listens, and who it is.
#[derive(Clone, Debug, PartialEq, Eq, PartialOrd, Ord, Hash)]
pub struct PeerAddress {
    pub address: Multiaddr,
    pub peer_id: PeerId,
}

/// The components of the one multiaddress that stands for a peer whose own
/// address has the components `address` and whose identity has the bytes
/// `peer`.
pub open spec fn encoded(address: Seq<Hop>, peer: Seq<u8>) -> Seq<Hop> {
    address.push(Hop::P2p(peer))
}

/// The peer that a multiaddress with the components `hops` stands for: its
/// own address and the bytes of its identity. There is none where `hops` is
/// empty or does not end in a `/p2p/` component.
pub open spec fn decoded(hops: Seq<Hop>) -> Option<(Seq<Hop>, Seq<u8>)> {
    if hops.len() > 0 && hops.last() is P2p {
        Some((hops.drop_last(), hops.last()->P2p_0))
    } else {
        None
    }
}

/// The peer that a text writes: the text has to be a multiaddress that
/// ends in a peer identity.
pub open spec fn peer_of(text: Seq<char>) -> Option<(Seq<Hop>, Seq<u8>)> {
    match multiaddr_parsed(text) {
        Some(hops) => decoded(hops),
        None => None,
    }
}

impl PeerAddress {
    /// The peer as a pair of plain values: the components of its address
    /// and the bytes of its identity.
    pub open spec fn view(&self) -> (Seq<Hop>, Seq<u8>) {
        (multiaddr_hops(self.address), peer_id_bytes(self.peer_id))
    }

    /// Whether two peers have the same address and the same identity.
    pub fn same_as(&self, other: &PeerAddress) -> (r: bool)
        ensures
            r == (self.view() == other.view()),
    {
        multiaddr_eq(&self.address, &other.address) && peer_id_eq(&self.peer_id, &other.peer_id)
    }

    /// The single multiaddress that stands for this peer: its address with
    /// its identity as the last component.
    pub fn to_multiaddr(&self) -> (r: Multiaddr)
        ensures
            multiaddr_hops(r) == encoded(self.view().0, self.view().1),
    {
        let mut address = self.address.clone();
        multiaddr_push_peer(&mut address, &self.peer_id);
        address
    }

    /// Splits the multiaddress that stands for a peer into the peer's own
    /// address and its identity. A multiaddress that is empty or does not
    /// end in a peer identity is refused; the error carries the text of
    /// the whole multiaddress that was refused.
    pub fn from_multiaddr(addr: Multiaddr) -> (r: Result<PeerAddress, SerdeError>)
        ensures
            match r {
                Ok(peer) => decoded(multiaddr_hops(addr)) == Some(peer.view()),
                Err(e) => decoded(multiaddr_hops(addr)) is None && e.is_bad_peer(
                    multiaddr_text(multiaddr_hops(addr)),
                ),
            },
    {
        let whole = multiaddr_to_text(&addr);
        let mut address = addr;
        match multiaddr_pop(&mut address) {
            Some(LastHop::Peer(peer_id)) => Ok(PeerAddress { address, peer_id }),
            _ => Err(SerdeError::BadBootstrapPeerFormat(whole)),
        }
    }

    /// The text of the single multiaddress that stands for this peer.
    pub fn to_text(&self) -> (r: String)
        ensures
            r@ == multiaddr_text(encoded(self.view().0, self.view().1)),
    {
        let addr = self.to_multiaddr();
        multiaddr_to_text(&addr)
    }

    /// Reads a peer from the text of a multiaddress. Text that is no
    /// multiaddress, and a multiaddress without a peer identity at its
    /// end, are refused; the error carries the text that was refused, as
    /// it was given.
    pub fn parse(text: &str) -> (r: Result<PeerAddress, SerdeError>)
        ensures
            match r {
                Ok(peer) => peer_of(text@) == Some(peer.view()),
                Err(e) => peer_of(text@) is None && e.is_bad_peer(text@),
            },
    {
        match multiaddr_parse(text) {
            None => Err(SerdeError::BadBootstrapPeerFormat(text.to_owned())),
            Some(addr) => match PeerAddress::from_multiaddr(addr) {
                Ok(peer) => Ok(peer),
                Err(_) => Err(SerdeError::BadBootstrapPeerFormat(text.to_owned())),
            },
        }
    }
}

/// A peer that is written as one multiaddress and read back is the same
/// peer: reading undoes writing.
pub proof fn lemma_peer_round_trip(address: Seq<Hop>, peer: Seq<u8>)
    ensures
        encoded(address, peer).len() == address.len() + 1,
        encoded(address, peer).last() == Hop::P2p(peer),
        decoded(encoded(address, peer)) == Some((address, peer)),
{
    assert(encoded(address, peer).drop_last() =~= address);
}

/// A multiaddress that stands for a peer is the writing of that peer:
/// writing undoes reading.
pub proof fn lemma_peer_written_back(hops: Seq<Hop>)
    requires
        decoded(hops) is Some,
    ensures
        ({
            let (address, peer) = decoded(hops).unwrap();
            encoded(address, peer) == hops
        }),
{
    assert(hops.drop_last().push(hops.last()) =~= hops);
}

} // verus!
