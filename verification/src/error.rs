//! What can go wrong when a configuration is read or written.

use vstd::prelude::*;
use crate::text::append_str;

verus! {

/// A failure of the configuration store. Every variant carries the
/// offending path or the message of what failed.
#[derive(Clone, Debug, PartialEq, Eq)]
pub enum Error {
    ReadError(String),
    DeserializationError(String),
    TomlError(String),
    WriteError(String),
    AlreadyExistingConfig(String),
    BadBootstrapPeerFormat(String),
}

/// The explanation printed when a table was written out before a plain
/// value of the same structure.
pub const VALUE_AFTER_TABLE_ERROR_MSG: &'static str =
    "\nError while serializing to toml. It means that some nested structure is followed\n by simple fields.\nThis fails:\n    struct Nested{\n       i:int\n    }\n\n    struct Broken{\n       nested:Nested,\n       simple:int\n    }\nAnd this is correct\n    struct Nested{\n       i:int\n    }\n\n    struct Correct{\n       simple:int\n       nested:Nested,\n    }\n";

/// The sentence that tells how a bootstrap peer has to be written.
pub open spec fn bad_peer_text(peer: Seq<char>) -> Seq<char> {
    "Bootstrap peer "@ + peer
        + " is not valid. Format needs to be {protocol}/{ip}/tcp/{port}/p2p/{peerid}"@
}

fn bad_peer_message(peer: &str) -> (r: String)
    ensures
        r@ == bad_peer_text(peer@),
{
    let mut out = String::new();
    append_str(&mut out, "Bootstrap peer ");
    append_str(&mut out, peer);
    append_str(
        &mut out,
        " is not valid. Format needs to be {protocol}/{ip}/tcp/{port}/p2p/{peerid}",
    );
    assert(out@ =~= bad_peer_text(peer@));
    out
}

fn prefixed(prefix: &str, detail: &str) -> (r: String)
    ensures
        r@ == prefix@ + detail@,
{
    let mut out = String::new();
    append_str(&mut out, prefix);
    append_str(&mut out, detail);
    assert(out@ =~= prefix@ + detail@);
    out
}

impl Error {
    /// The failure is a failure to read, with the message `msg`.
    pub open spec fn is_read_error(&self, msg: Seq<char>) -> bool {
        self matches Error::ReadError(m) && m@ == msg
    }

    /// The failure is that of a file that exists already, at `path`.
    pub open spec fn is_existing(&self, path: Seq<char>) -> bool {
        self matches Error::AlreadyExistingConfig(p) && p@ == path
    }

    /// What the failure carries: a path, a peer or a message.
    pub open spec fn detail(&self) -> Seq<char> {
        match self {
            Error::ReadError(m) => m@,
            Error::DeserializationError(m) => m@,
            Error::TomlError(m) => m@,
            Error::WriteError(m) => m@,
            Error::AlreadyExistingConfig(m) => m@,
            Error::BadBootstrapPeerFormat(m) => m@,
        }
    }

    /// The failure in words.
    pub open spec fn text(&self) -> Seq<char> {
        match self {
            Error::ReadError(m) => "Error while reading config: "@ + m@,
            Error::DeserializationError(m) => "Error while deserializing config: "@ + m@,
            Error::TomlError(m) => "Error while serializing to toml: "@ + m@,
            Error::WriteError(m) => "Error while writing config: "@ + m@,
            Error::AlreadyExistingConfig(m) => "A config file already exists in "@ + m@,
            Error::BadBootstrapPeerFormat(m) => bad_peer_text(m@),
        }
    }

    /// Writes the failure out in words.
    pub fn to_text(&self) -> (r: String)
        ensures
            r@ == self.text(),
    {
        match self {
            Error::ReadError(m) => prefixed("Error while reading config: ", m.as_str()),
            Error::DeserializationError(m) => prefixed(
                "Error while deserializing config: ",
                m.as_str(),
            ),
            Error::TomlError(m) => prefixed("Error while serializing to toml: ", m.as_str()),
            Error::WriteError(m) => prefixed("Error while writing config: ", m.as_str()),
            Error::AlreadyExistingConfig(m) => prefixed(
                "A config file already exists in ",
                m.as_str(),
            ),
            Error::BadBootstrapPeerFormat(m) => bad_peer_message(m.as_str()),
        }
    }
}

/// What can go wrong when a peer address is read.
#[derive(Clone, Debug, PartialEq, Eq)]
pub enum SerdeError {
    /// The text is no multiaddress, or does not end in a peer identity. It
    /// carries the offending text, or the reader's message.
    BadBootstrapPeerFormat(String),
    /// Any other failure, by its message.
    Message(String),
}

impl SerdeError {
    /// This error says that a bootstrap peer is malformed, with `msg`.
    pub open spec fn is_bad_peer(&self, msg: Seq<char>) -> bool {
        self matches SerdeError::BadBootstrapPeerFormat(m) && m@ == msg
    }

    /// The failure in words.
    pub open spec fn text(&self) -> Seq<char> {
        match self {
            SerdeError::BadBootstrapPeerFormat(m) => bad_peer_text(m@),
            SerdeError::Message(m) => m@,
        }
    }

    /// The failure with the message `msg`.
    pub fn custom(msg: &str) -> (r: SerdeError)
        ensures
            r matches SerdeError::Message(m) && m@ == msg@,
    {
        SerdeError::Message(msg.to_owned())
    }

    /// Writes the failure out in words.
    pub fn to_text(&self) -> (r: String)
        ensures
            r@ == self.text(),
    {
        match self {
            SerdeError::BadBootstrapPeerFormat(m) => bad_peer_message(m.as_str()),
            SerdeError::Message(m) => m.clone(),
        }
    }
}

} // verus!
