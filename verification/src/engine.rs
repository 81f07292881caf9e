//! Addresses of peers of the consensus engine: `tcp://[<id>@]<host>:<port>`
//! or `unix://<path>`.

use vstd::prelude::*;
use crate::ip6::hex_digit;
use crate::text::{append_decimal, append_str, decimal, push_char};

verus! {

/// The address of a peer of the consensus engine, as the engine's reader
/// takes it apart.
#[derive(Clone, Debug, PartialEq, Eq)]
pub enum EngineAddress {
    /// A TCP address: the bytes of the peer's identity, if it is given,
    /// the host and the port.
    Tcp { peer_id: Option<Vec<u8>>, host: String, port: u16 },
    /// A UNIX domain socket, by its path.
    Unix { path: String },
}

/// The mathematical reading of an [`EngineAddress`].
pub enum EngineAddressView {
    Tcp { peer_id: Option<Seq<u8>>, host: Seq<char>, port: u16 },
    Unix { path: Seq<char> },
}

impl View for EngineAddress {
    type V = EngineAddressView;

    open spec fn view(&self) -> EngineAddressView {
        match self {
            EngineAddress::Tcp { peer_id, host, port } => EngineAddressView::Tcp {
                peer_id: match peer_id {
                    Some(id) => Some(id@),
                    None => None,
                },
                host: host@,
                port: *port,
            },
            EngineAddress::Unix { path } => EngineAddressView::Unix { path: path@ },
        }
    }
}

/// What the consensus engine's reader of addresses makes of `text`: the
/// address taken apart, or nothing where it refuses the text.
pub uninterp spec fn engine_address_parsed(text: Seq<char>) -> Option<EngineAddressView>;

/// Reads the address of a peer with
/// `tendermint_config::net::Address::from_str` and hands its parts over:
/// of a TCP address the bytes of the identity, the host and the port, of
/// a UNIX socket the path. What comes back depends on the text alone.
#[verifier::external_body]
fn read_engine_address(text: &str) -> (r: Option<EngineAddress>)
    ensures
        match r {
            Some(a) => engine_address_parsed(text@) == Some(a@),
            None => engine_address_parsed(text@) is None,
        },
{
    match text.parse::<tendermint_config::net::Address>() {
        Ok(tendermint_config::net::Address::Tcp { peer_id, host, port }) => Some(
            EngineAddress::Tcp { peer_id: peer_id.map(|id| id.as_bytes().to_vec()), host, port },
        ),
        Ok(tendermint_config::net::Address::Unix { path }) => Some(EngineAddress::Unix { path }),
        Err(_) => None,
    }
}

/// The bytes `bytes` in hexadecimal, two lower-case digits each.
pub open spec fn hex_bytes(bytes: Seq<u8>) -> Seq<char>
    decreases bytes.len(),
{
    if bytes.len() == 0 {
        Seq::empty()
    } else {
        hex_bytes(bytes.drop_last()) + seq![
            hex_digit(bytes.last() as nat / 16),
            hex_digit(bytes.last() as nat % 16),
        ]
    }
}

/// The writing of an address as the consensus engine keeps it.
pub open spec fn engine_text(address: EngineAddressView) -> Seq<char> {
    match address {
        EngineAddressView::Tcp { peer_id: None, host, port } => "tcp://"@ + host + seq![':']
            + decimal(port as nat),
        EngineAddressView::Tcp { peer_id: Some(id), host, port } => "tcp://"@ + hex_bytes(id)
            + seq!['@'] + host + seq![':'] + decimal(port as nat),
        EngineAddressView::Unix { path } => "unix://"@ + path,
    }
}

/// The writing in which the consensus engine keeps the address of a peer
/// that is written as `text`; nothing where its reader refuses the text.
pub open spec fn engine_address(text: Seq<char>) -> Option<Seq<char>> {
    match engine_address_parsed(text) {
        Some(address) => Some(engine_text(address)),
        None => None,
    }
}

fn hex_char(d: u8) -> (c: char)
    requires
        d < 16,
    ensures
        c == hex_digit(d as nat),
{
    if d == 0 {
        '0'
    } else if d == 1 {
        '1'
    } else if d == 2 {
        '2'
    } else if d == 3 {
        '3'
    } else if d == 4 {
        '4'
    } else if d == 5 {
        '5'
    } else if d == 6 {
        '6'
    } else if d == 7 {
        '7'
    } else if d == 8 {
        '8'
    } else if d == 9 {
        '9'
    } else if d == 10 {
        'a'
    } else if d == 11 {
        'b'
    } else if d == 12 {
        'c'
    } else if d == 13 {
        'd'
    } else if d == 14 {
        'e'
    } else {
        'f'
    }
}

fn append_hex_bytes(out: &mut String, bytes: &Vec<u8>)
    ensures
        final(out)@ == old(out)@ + hex_bytes(bytes@),
{
    let mut i: usize = 0;
    assert(bytes@.take(0) =~= Seq::<u8>::empty());
    assert(out@ =~= old(out)@ + hex_bytes(bytes@.take(0)));
    while i < bytes.len()
        invariant
            i <= bytes.len(),
            out@ == old(out)@ + hex_bytes(bytes@.take(i as int)),
        decreases bytes.len() - i,
    {
        push_char(out, hex_char(bytes[i] / 16));
        push_char(out, hex_char(bytes[i] % 16));
        proof {
            let now = bytes@.take(i + 1);
            assert(now.drop_last() =~= bytes@.take(i as int));
            assert(now.last() == bytes@[i as int]);
            assert(out@ =~= old(out)@ + hex_bytes(now));
        }
        i += 1;
    }
    assert(bytes@.take(bytes.len() as int) =~= bytes@);
}

impl EngineAddress {
    /// Reads an address; `None` where the engine's reader refuses the
    /// text.
    pub fn parse(text: &str) -> (r: Option<EngineAddress>)
        ensures
            match r {
                Some(a) => engine_address_parsed(text@) == Some(a@),
                None => engine_address_parsed(text@) is None,
            },
    {
        read_engine_address(text)
    }

    /// Writes the address out as the consensus engine keeps it.
    pub fn to_text(&self) -> (r: String)
        ensures
            r@ == engine_text(self@),
    {
        let mut out = String::new();
        match self {
            EngineAddress::Tcp { peer_id, host, port } => {
                append_str(&mut out, "tcp://");
                match peer_id {
                    Some(id) => {
                        append_hex_bytes(&mut out, id);
                        push_char(&mut out, '@');
                    },
                    None => {},
                }
                append_str(&mut out, host.as_str());
                push_char(&mut out, ':');
                append_decimal(&mut out, *port as u128);
                assert(out@ =~= engine_text(self@));
            },
            EngineAddress::Unix { path } => {
                append_str(&mut out, "unix://");
                append_str(&mut out, path.as_str());
                assert(out@ =~= engine_text(self@));
            },
        }
        out
    }
}

/// Reads the address of a peer and writes it out as the consensus engine
/// keeps it.
pub fn canonical(text: &str) -> (r: Option<String>)
    ensures
        match r {
            Some(t) => engine_address(text@) == Some(t@),
            None => engine_address(text@) is None,
        },
{
    match EngineAddress::parse(text) {
        Some(address) => Some(address.to_text()),
        None => None,
    }
}

} // verus!
