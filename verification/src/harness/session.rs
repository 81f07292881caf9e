//! What a test makes of what it sees of a running command: whether an
//! expectation is met, what is reported when it is not, and what is
//! reported when the command is let go.

use vstd::prelude::*;
use crate::text::{append_str, range_string, to_chars, trim_range, trimmed};

verus! {

/// What identifies a running command in reports.
#[derive(Clone, Debug, PartialEq, Eq)]
pub struct AnomaCmd {
    /// The command line.
    pub cmd_str: String,
    /// Where the output is kept.
    pub log_path: String,
    /// Where in the test the command was asked for.
    pub loc: String,
}

/// What came of waiting for something in the output of a command.
#[derive(Debug, PartialEq, Eq)]
pub enum Seen {
    /// Waiting failed, with this error: the time ran out, or the output
    /// could not be read.
    Failed(String),
    /// Waiting ended without a match.
    Nothing,
    /// There was a match. `before` is the output that came before it,
    /// `matched` what matched; either is an error where the bytes were no
    /// text.
    Match { before: Result<String, String>, matched: Result<String, String> },
}

/// How a command ended.
#[derive(Clone, Copy, Debug, PartialEq, Eq, Structural)]
pub enum Exit {
    /// It exited with this code.
    Exited(i32),
    /// It ended in another way, or has not ended.
    Other,
}

/// What the reader of a command in the background is told.
#[derive(Clone, Copy, Debug, PartialEq, Eq, Structural)]
pub enum AbortSignal {
    /// To stop.
    Abort,
    /// Nothing yet.
    Empty,
    /// Nobody is left who could tell it to stop.
    Disconnected,
}

/// What the reader of a command in the background does next.
#[derive(Clone, Copy, Debug, PartialEq, Eq, Structural)]
pub enum ReaderAction {
    /// Hand the command back.
    Finish,
    /// Look for the end of the output once more, dropping what was read.
    Probe,
}

/// What is reported when a command is let go.
#[derive(Clone, Debug, PartialEq, Eq)]
pub enum Farewell {
    /// The command could not be seen to finish.
    Unfinished { cmd: String, error: String },
    /// The command finished and left output that nobody read.
    Unread { cmd: String, output: String },
    /// The command finished and left nothing.
    Clean { cmd: String },
}

/// The text of the outcome of a decoding.
pub open spec fn decoded(r: Result<String, String>) -> Result<Seq<char>, Seq<char>> {
    match r {
        Ok(t) => Ok(t@),
        Err(e) => Err(e@),
    }
}

/// What was seen, in plain values.
pub enum Sight {
    Failed(Seq<char>),
    Nothing,
    Match { before: Result<Seq<char>, Seq<char>>, matched: Result<Seq<char>, Seq<char>> },
}

impl Seen {
    /// What was seen, in plain values.
    pub open spec fn view(&self) -> Sight {
        match self {
            Seen::Failed(e) => Sight::Failed(e@),
            Seen::Nothing => Sight::Nothing,
            Seen::Match { before, matched } => Sight::Match {
                before: decoded(*before),
                matched: decoded(*matched),
            },
        }
    }
}

/// How a command is named in reports: its command line, where its output
/// is kept, and where in the test it was asked for.
pub open spec fn shown(cmd: Seq<char>, log_path: Seq<char>, loc: Seq<char>) -> Seq<char> {
    cmd + "\nLogs: "@ + log_path + "\nLocation: "@ + loc
}

/// The report of an error around a command.
pub open spec fn error_text(error: Seq<char>, shown: Seq<char>) -> Seq<char> {
    "Error: "@ + error + "\nCommand: "@ + shown
}

/// What waiting for the text `needle` gives: the output before the match,
/// or a report that names the command and the needle.
pub open spec fn literal_outcome(shown: Seq<char>, needle: Seq<char>, sight: Sight) -> Result<
    Seq<char>,
    Seq<char>,
> {
    match sight {
        Sight::Failed(e) => Err(e + "\nCommand: "@ + shown + "\n Needle: "@ + needle),
        Sight::Nothing => Err(
            "Expected needle not found\nCommand: "@ + shown + "\n Needle: "@ + needle,
        ),
        Sight::Match { before, matched } => match before {
            Ok(text) => Ok(text),
            Err(e) => Err(error_text(e, shown)),
        },
    }
}

/// What waiting for a match of `pattern` gives: the output before the
/// match and the match, or a report that names the command and, where
/// nothing matched, the pattern.
pub open spec fn regex_outcome(shown: Seq<char>, pattern: Seq<char>, sight: Sight) -> Result<
    (Seq<char>, Seq<char>),
    Seq<char>,
> {
    match sight {
        Sight::Failed(e) => Err(error_text(e, shown)),
        Sight::Nothing => Err("Expected regex not found: "@ + pattern + "\nCommand: "@ + shown),
        Sight::Match { before, matched } => match before {
            Err(e) => Err(error_text(e, shown)),
            Ok(unread) => match matched {
                Err(e) => Err(error_text(e, shown)),
                Ok(text) => Ok((unread, text)),
            },
        },
    }
}

/// What waiting for the end of the output gives: the output that was
/// left, or a report that names the command.
pub open spec fn eof_outcome(shown: Seq<char>, sight: Sight) -> Result<Seq<char>, Seq<char>> {
    match sight {
        Sight::Failed(e) => Err(error_text(e, shown)),
        Sight::Nothing => Err("Expected EOF\nCommand: "@ + shown),
        Sight::Match { before, matched } => match before {
            Ok(text) => Ok(text),
            Err(e) => Err(error_text(e, shown)),
        },
    }
}

fn glued(a: &str, b: &str, c: &str, d: &str) -> (r: String)
    ensures
        r@ == a@ + b@ + c@ + d@,
{
    let mut out = String::new();
    append_str(&mut out, a);
    append_str(&mut out, b);
    append_str(&mut out, c);
    append_str(&mut out, d);
    assert(out@ =~= a@ + b@ + c@ + d@);
    out
}

/// `s` without the white space at its start and at its end.
pub fn trim_text(s: &str) -> (r: String)
    ensures
        r@ == trimmed(s@),
{
    let v = to_chars(s);
    assert(v@.subrange(0, v.len() as int) =~= v@);
    let (a, b) = trim_range(&v, 0, v.len());
    range_string(&v, a, b)
}

impl AnomaCmd {
    /// How the command is named in reports.
    pub open spec fn shown(&self) -> Seq<char> {
        shown(self.cmd_str@, self.log_path@, self.loc@)
    }

    /// Writes out how the command is named in reports.
    pub fn to_text(&self) -> (r: String)
        ensures
            r@ == self.shown(),
    {
        let mut out = String::new();
        append_str(&mut out, self.cmd_str.as_str());
        append_str(&mut out, "\nLogs: ");
        append_str(&mut out, self.log_path.as_str());
        append_str(&mut out, "\nLocation: ");
        append_str(&mut out, self.loc.as_str());
        assert(out@ =~= self.shown());
        out
    }

    fn error(&self, error: &str) -> (r: String)
        ensures
            r@ == error_text(error@, self.shown()),
    {
        let shown = self.to_text();
        let r = glued("Error: ", error, "\nCommand: ", shown.as_str());
        assert(r@ =~= error_text(error@, self.shown()));
        r
    }

    /// Decides on waiting for the text `needle`, given what was seen.
    pub fn exp_string(&self, needle: &str, seen: Seen) -> (r: Result<String, String>)
        ensures
            decoded(r) == literal_outcome(self.shown(), needle@, seen.view()),
    {
        let shown = self.to_text();
        match seen {
            Seen::Failed(e) => {
                let head = glued(e.as_str(), "\nCommand: ", shown.as_str(), "\n Needle: ");
                let r = glued(head.as_str(), needle, "", "");
                proof {
                    reveal_strlit("");
                    assert(""@ =~= Seq::<char>::empty());
                    assert(r@ =~= e@ + "\nCommand: "@ + self.shown() + "\n Needle: "@ + needle@);
                }
                Err(r)
            },
            Seen::Nothing => {
                let r = glued(
                    "Expected needle not found\nCommand: ",
                    shown.as_str(),
                    "\n Needle: ",
                    needle,
                );
                Err(r)
            },
            Seen::Match { before, matched } => match before {
                Ok(text) => Ok(text),
                Err(e) => Err(self.error(e.as_str())),
            },
        }
    }

    /// Decides on waiting for a match of `pattern`, given what was seen.
    pub fn exp_regex(&self, pattern: &str, seen: Seen) -> (r: Result<(String, String), String>)
        ensures
            match (r, regex_outcome(self.shown(), pattern@, seen.view())) {
                (Ok((unread, text)), Ok((u, t))) => unread@ == u && text@ == t,
                (Err(report), Err(e)) => report@ == e,
                _ => false,
            },
    {
        match seen {
            Seen::Failed(e) => Err(self.error(e.as_str())),
            Seen::Nothing => {
                let shown = self.to_text();
                Err(glued("Expected regex not found: ", pattern, "\nCommand: ", shown.as_str()))
            },
            Seen::Match { before, matched } => match before {
                Err(e) => Err(self.error(e.as_str())),
                Ok(unread) => match matched {
                    Err(e) => Err(self.error(e.as_str())),
                    Ok(text) => Ok((unread, text)),
                },
            },
        }
    }

    /// Decides on waiting for the end of the output, given what was seen.
    pub fn exp_eof(&self, seen: Seen) -> (r: Result<String, String>)
        ensures
            decoded(r) == eof_outcome(self.shown(), seen.view()),
    {
        match seen {
            Seen::Failed(e) => Err(self.error(e.as_str())),
            Seen::Nothing => {
                let shown = self.to_text();
                let r = glued("Expected EOF\nCommand: ", shown.as_str(), "", "");
                proof {
                    reveal_strlit("");
                    assert(""@ =~= Seq::<char>::empty());
                    assert(r@ =~= "Expected EOF\nCommand: "@ + self.shown());
                }
                Err(r)
            },
            Seen::Match { before, matched } => match before {
                Ok(text) => Ok(text),
                Err(e) => Err(self.error(e.as_str())),
            },
        }
    }

    /// The report of a failure to send something to the command.
    pub fn send_failure(&self, error: &str) -> (r: String)
        ensures
            r@ == error_text(error@, self.shown()),
    {
        self.error(error)
    }

    /// What is reported when the command is let go, given what waiting for
    /// the end of its output gave.
    pub fn farewell(&self, eof: Result<String, String>) -> (r: Farewell)
        ensures
            match eof {
                Err(e) => r matches Farewell::Unfinished { cmd, error } && cmd@ == self.cmd_str@
                    && error@ == e@,
                Ok(output) => if trimmed(output@).len() > 0 {
                    r matches Farewell::Unread { cmd, output: left } && cmd@ == self.cmd_str@
                        && left@ == trimmed(output@)
                } else {
                    r matches Farewell::Clean { cmd } && cmd@ == self.cmd_str@
                },
            },
    {
        match eof {
            Err(error) => Farewell::Unfinished { cmd: self.cmd_str.clone(), error },
            Ok(output) => {
                let left = trim_text(output.as_str());
                let n = to_chars(left.as_str()).len();
                if n > 0 {
                    Farewell::Unread { cmd: self.cmd_str.clone(), output: left }
                } else {
                    Farewell::Clean { cmd: self.cmd_str.clone() }
                }
            },
        }
    }
}

/// Whether a command ended in success: it exited, with the code 0.
pub fn exited_with_success(exit: Exit) -> (r: bool)
    ensures
        r == (exit == Exit::Exited(0)),
{
    match exit {
        Exit::Exited(code) => code == 0,
        Exit::Other => false,
    }
}

/// What the reader of a command in the background does on a signal: it
/// hands the command back when told to stop or when nobody is left to
/// tell it, and keeps reading otherwise.
pub fn reader_step(signal: AbortSignal) -> (r: ReaderAction)
    ensures
        r == (match signal {
            AbortSignal::Abort => ReaderAction::Finish,
            AbortSignal::Disconnected => ReaderAction::Finish,
            AbortSignal::Empty => ReaderAction::Probe,
        }),
{
    match signal {
        AbortSignal::Abort => ReaderAction::Finish,
        AbortSignal::Disconnected => ReaderAction::Finish,
        AbortSignal::Empty => ReaderAction::Probe,
    }
}

} // verus!
