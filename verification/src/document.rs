//! Documents as TOML text: reading a text into a document and writing a
//! document out, both done by the `toml` crate.

use vstd::prelude::*;
use crate::error::{Error, VALUE_AFTER_TABLE_ERROR_MSG};
use crate::value::{
    entries_of, find_entry, lemma_position, lemma_view_array, lemma_view_table, nodes_of,
    position, Node, Datum,
};

verus! {

/// The value type of `toml`, carried through as it is.
#[verifier::external_type_specification]
#[verifier::external_body]
pub struct ExTomlValue(toml::Value);

/// The document that a TOML value holds: booleans, integers, strings,
/// lists and tables as they are, tables in the order of their entries,
/// and numbers with a fraction and dates as the texts they are written
/// as.
pub uninterp spec fn toml_node(value: toml::Value) -> Node;

/// What the reader of `toml` makes of a text: the document it writes, or
/// the message of its refusal.
pub uninterp spec fn toml_parsed(text: Seq<char>) -> Result<Node, Seq<char>>;

/// What the writer of `toml` makes of a document of booleans, integers,
/// strings, lists and tables: its text, or its failure, which says
/// whether a plain value came after a table, and has a message.
pub uninterp spec fn toml_written(node: Node) -> Result<Seq<char>, (bool, Seq<char>)>;

/// Reads a text with `toml::Value::from_str`; a refusal comes back as the
/// message of the reader's error. Both depend on the text alone.
#[verifier::external_body]
fn parse_toml(text: &str) -> (r: Result<toml::Value, String>)
    ensures
        match r {
            Ok(value) => toml_parsed(text@) == Ok::<Node, Seq<char>>(toml_node(value)),
            Err(msg) => toml_parsed(text@) == Err::<Node, Seq<char>>(msg@),
        },
{
    text.parse::<toml::Value>().map_err(|e| e.to_string())
}

/// Takes a TOML value over into a document, variant by variant; numbers
/// with a fraction and dates come over as their `to_string`.
#[verifier::external_body]
fn from_toml(value: &toml::Value) -> (r: Datum)
    ensures
        r@ == toml_node(*value),
{
    match value {
        toml::Value::Boolean(b) => Datum::Boolean(*b),
        toml::Value::Integer(i) => Datum::Integer(i128::from(*i)),
        toml::Value::String(s) => Datum::Text(s.clone()),
        toml::Value::Float(x) => Datum::Text(x.to_string()),
        toml::Value::Datetime(d) => Datum::Text(d.to_string()),
        toml::Value::Array(a) => Datum::Array(a.iter().map(from_toml).collect()),
        toml::Value::Table(t) => {
            Datum::Table(t.iter().map(|(k, v)| (k.clone(), from_toml(v))).collect())
        },
    }
}

/// Takes a document that fits over into the TOML value of the same
/// booleans, integers, strings, lists and tables, variant by variant, for
/// the writer. Nothing is stated of the value.
#[verifier::external_body]
fn to_toml(value: &Datum) -> toml::Value
    requires
        value@.fits(),
{
    match value {
        Datum::Boolean(b) => toml::Value::Boolean(*b),
        Datum::Integer(i) => toml::Value::Integer(*i as i64),
        Datum::Text(s) => toml::Value::String(s.clone()),
        Datum::Array(a) => toml::Value::Array(a.iter().map(to_toml).collect()),
        Datum::Table(t) => {
            toml::Value::Table(t.iter().map(|(k, v)| (k.clone(), to_toml(v))).collect())
        },
    }
}

/// Writes a document out with `toml::ser::to_string`, handing it over
/// as the TOML value of the same booleans, integers, strings, lists and
/// tables. The document has to fit: its integers within 64 bits, and no
/// table with a name twice. A failure comes back as whether it is the
/// writer's `ValueAfterTable`, and its message. Both depend on the
/// document alone.
#[verifier::external_body]
fn write_toml(value: &Datum) -> (r: Result<String, (bool, String)>)
    requires
        value@.fits(),
    ensures
        match r {
            Ok(text) => toml_written(value@) == Ok::<Seq<char>, (bool, Seq<char>)>(text@),
            Err((after_table, msg)) => toml_written(value@) == Err::<
                Seq<char>,
                (bool, Seq<char>),
            >((after_table, msg@)),
        },
{
    toml::ser::to_string(&to_toml(value)).map_err(
        |e| (matches!(e, toml::ser::Error::ValueAfterTable), e.to_string()),
    )
}

impl Node {
    /// Whether the document can be held by a TOML value: every integer is
    /// within 64 bits, and no table names a part twice.
    pub open spec fn fits(self) -> bool
        decreases self,
    {
        match self {
            Node::Integer(i) => -0x8000_0000_0000_0000 <= i <= 0x7fff_ffff_ffff_ffff,
            Node::Array(items) => forall|i: int|
                0 <= i < items.len() ==> (#[trigger] items[i]).fits(),
            Node::Table(entries) => {
                &&& forall|i: int|
                    0 <= i < entries.len() ==> position(entries, (#[trigger] entries[i]).key) == i
                &&& forall|i: int| 0 <= i < entries.len() ==> (#[trigger] entries[i]).node.fits()
            },
            _ => true,
        }
    }
}

impl Datum {
    /// Computes [`Node::fits`].
    pub fn fits(&self) -> (r: bool)
        ensures
            r == self@.fits(),
        decreases self,
    {
        match self {
            Datum::Integer(i) => -0x8000_0000_0000_0000 <= *i && *i <= 0x7fff_ffff_ffff_ffff,
            Datum::Array(items) => {
                let ghost nodes = nodes_of(items@);
                proof {
                    lemma_view_array(*items);
                }
                let mut i: usize = 0;
                while i < items.len()
                    invariant
                        i <= items.len(),
                        self is Array,
                        self->Array_0 == *items,
                        nodes == nodes_of(items@),
                        self@ == Node::Array(nodes),
                        forall|k: int| 0 <= k < i ==> (#[trigger] nodes[k]).fits(),
                    decreases items.len() - i,
                {
                    assert(decreases_to!(*self => self->Array_0));
                    assert(decreases_to!(*items => items[i as int]));
                    assert(nodes[i as int] == items@[i as int]@);
                    if !items[i].fits() {
                        proof {
                            if self@.fits() {
                                assert(self@->Array_0[i as int].fits());
                            }
                        }
                        return false;
                    }
                    i += 1;
                }
                true
            },
            Datum::Table(entries) => {
                let ghost fields = entries_of(entries@);
                proof {
                    lemma_view_table(*entries);
                }
                let mut i: usize = 0;
                while i < entries.len()
                    invariant
                        i <= entries.len(),
                        self is Table,
                        self->Table_0 == *entries,
                        fields == entries_of(entries@),
                        self@ == Node::Table(fields),
                        forall|k: int|
                            0 <= k < i ==> position(fields, (#[trigger] fields[k]).key) == k,
                        forall|k: int| 0 <= k < i ==> (#[trigger] fields[k]).node.fits(),
                    decreases entries.len() - i,
                {
                    assert(decreases_to!(*self => self->Table_0));
                    assert(decreases_to!(*entries => entries[i as int]));
                    assert(decreases_to!(entries[i as int] => entries[i as int].1));
                    assert(fields[i as int].node == entries@[i as int].1@);
                    assert(fields[i as int].key == entries@[i as int].0@);
                    if find_entry(entries, entries[i].0.as_str()) != i {
                        proof {
                            if self@.fits() {
                                assert(position(fields, fields[i as int].key) == i);
                            }
                        }
                        return false;
                    }
                    if !entries[i].1.fits() {
                        proof {
                            if self@.fits() {
                                assert(self@->Table_0[i as int].node.fits());
                            }
                        }
                        return false;
                    }
                    i += 1;
                }
                true
            },
            _ => true,
        }
    }
}

/// In a table that fits, no two entries have the same name.
pub proof fn lemma_fitting_names(entries: Seq<crate::value::Field>, i: int, j: int)
    requires
        Node::Table(entries).fits(),
        0 <= i < j < entries.len(),
    ensures
        entries[i].key != entries[j].key,
{
    lemma_position(entries, entries[j].key);
    assert(position(entries, entries[j].key) == j);
}

/// The message of a document that no TOML value can hold.
pub open spec fn unfit_text() -> Seq<char> {
    "the document holds an integer beyond 64 bits or a table that names a part twice"@
}

/// The message of a document that cannot be written out table by table.
pub open spec fn value_after_table_text() -> Seq<char> {
    "values must be emitted before tables"@
}

/// What writing a document out gives: its text, or the message of what
/// failed and whether the explanation of plain values and tables is to be
/// printed with it. A document in which a plain value follows a nested
/// one fails with that explanation, and a document that no TOML value can
/// hold fails, both without the writer being asked; otherwise the writer
/// decides.
pub open spec fn written(node: Node) -> Result<Seq<char>, (Seq<char>, bool)> {
    if !node.ordered() {
        Err((value_after_table_text(), true))
    } else if !node.fits() {
        Err((unfit_text(), false))
    } else {
        match toml_written(node) {
            Ok(text) => Ok(text),
            Err((after_table, msg)) => Err((msg, after_table)),
        }
    }
}

/// Why nothing was written: the error to return, and the explanation to
/// print at error level before returning it, if there is one.
#[derive(Clone, Debug, PartialEq, Eq)]
pub struct Refusal {
    pub error: Error,
    pub note: Option<&'static str>,
}

impl Refusal {
    /// The refusal is a failure to write TOML with the message `message`;
    /// it comes with the explanation of plain values and tables where
    /// `explain` holds, and with none otherwise.
    pub open spec fn is_toml_failure(&self, message: Seq<char>, explain: bool) -> bool {
        &&& self.error matches Error::TomlError(m) && m@ == message
        &&& match self.note {
            Some(note) => explain && note@ == VALUE_AFTER_TABLE_ERROR_MSG@,
            None => !explain,
        }
    }
}

/// Reads a TOML text into a document. A text that is no TOML is a
/// `ReadError` with the reader's message.
pub fn parse_document(text: &str) -> (r: Result<Datum, Error>)
    ensures
        match r {
            Ok(value) => toml_parsed(text@) == Ok::<Node, Seq<char>>(value@),
            Err(e) => e matches Error::ReadError(msg) && toml_parsed(text@) == Err::<
                Node,
                Seq<char>,
            >(msg@),
        },
{
    match parse_toml(text) {
        Ok(value) => Ok(from_toml(&value)),
        Err(msg) => Err(Error::ReadError(msg)),
    }
}

/// Decides whether a document can be written out table by table. Where
/// a plain value follows a nested one it cannot; the refusal is a
/// `TomlError` and comes with the explanation to print.
pub fn check_writable(document: &Datum) -> (r: Result<(), Refusal>)
    ensures
        document@.ordered() ==> r is Ok,
        !document@.ordered() ==> r is Err && r->Err_0.is_toml_failure(
            value_after_table_text(),
            true,
        ),
{
    if document.is_ordered() {
        Ok(())
    } else {
        Err(
            Refusal {
                error: Error::TomlError("values must be emitted before tables".to_owned()),
                note: Some(VALUE_AFTER_TABLE_ERROR_MSG),
            },
        )
    }
}

/// Writes a document out as TOML text, as [`written`] has it. A failure is
/// a `TomlError`. Where a plain value follows a nested one in the
/// document, or the writer reports so, the explanation of how plain
/// values and tables have to follow each other comes with it.
pub fn write_document(document: &Datum) -> (r: Result<String, Refusal>)
    ensures
        match r {
            Ok(text) => written(document@) == Ok::<Seq<char>, (Seq<char>, bool)>(text@),
            Err(refusal) => written(document@) is Err && refusal.is_toml_failure(
                written(document@)->Err_0.0,
                written(document@)->Err_0.1,
            ),
        },
{
    match check_writable(document) {
        Err(refusal) => {
            return Err(refusal);
        },
        Ok(()) => {},
    }
    if !document.fits() {
        return Err(
            Refusal {
                error: Error::TomlError(
                    "the document holds an integer beyond 64 bits or a table that names a part twice".to_owned(),
                ),
                note: None,
            },
        );
    }
    match write_toml(document) {
        Ok(text) => Ok(text),
        Err((after_table, msg)) => {
            let note = if after_table {
                Some(VALUE_AFTER_TABLE_ERROR_MSG)
            } else {
                None
            };
            Err(Refusal { error: Error::TomlError(msg), note })
        },
    }
}

} // verus!
