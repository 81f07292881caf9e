//! Configuration documents as trees of values, and the layering of one
//! document over another.

use vstd::prelude::*;
use crate::text::same_text;

verus! {

/// A configuration document, or a part of one: a scalar, a list, or a
/// table of named parts in the order in which they are written.
#[derive(Debug, PartialEq, Eq)]
pub enum Datum {
    Boolean(bool),
    Integer(i128),
    Text(String),
    Array(Vec<Datum>),
    Table(Vec<(String, Datum)>),
}

/// The mathematical reading of a [`Datum`].
pub enum Node {
    Boolean(bool),
    Integer(int),
    Text(Seq<char>),
    Array(Seq<Node>),
    Table(Seq<Field>),
}

/// One named part of a table.
pub struct Field {
    pub key: Seq<char>,
    pub node: Node,
}

impl View for Datum {
    type V = Node;

    open spec fn view(&self) -> Node
        decreases self,
    {
        match self {
            Datum::Boolean(b) => Node::Boolean(*b),
            Datum::Integer(i) => Node::Integer(*i as int),
            Datum::Text(s) => Node::Text(s@),
            Datum::Array(items) => Node::Array(
                Seq::new(
                    items@.len(),
                    |i: int|
                        if 0 <= i < items@.len() {
                            items@[i]@
                        } else {
                            Node::Boolean(false)
                        },
                ),
            ),
            Datum::Table(entries) => Node::Table(
                Seq::new(
                    entries@.len(),
                    |i: int|
                        if 0 <= i < entries@.len() {
                            Field { key: entries@[i].0@, node: entries@[i].1@ }
                        } else {
                            Field { key: Seq::empty(), node: Node::Boolean(false) }
                        },
                ),
            ),
        }
    }
}

impl Clone for Datum {
    fn clone(&self) -> (r: Datum)
        ensures
            r@ == self@,
    {
        self.copy()
    }
}

/// The readings of a list of values.
pub open spec fn nodes_of(items: Seq<Datum>) -> Seq<Node> {
    Seq::new(items.len(), |i: int| items[i]@)
}

/// The readings of the entries of a table.
pub open spec fn entries_of(entries: Seq<(String, Datum)>) -> Seq<Field> {
    Seq::new(entries.len(), |i: int| Field { key: entries[i].0@, node: entries[i].1@ })
}

/// The view of a list is the list of the views of its items.
pub proof fn lemma_view_array(items: Vec<Datum>)
    ensures
        Datum::Array(items)@ == Node::Array(nodes_of(items@)),
{
    assert(Datum::Array(items)@->Array_0 =~= nodes_of(items@));
}

/// The view of a table is the list of the views of its entries.
pub proof fn lemma_view_table(entries: Vec<(String, Datum)>)
    ensures
        Datum::Table(entries)@ == Node::Table(entries_of(entries@)),
{
    let a = Datum::Table(entries)@->Table_0;
    let b = entries_of(entries@);
    assert(a.len() == b.len());
    assert forall|i: int| 0 <= i < a.len() implies a[i] == b[i] by {
        assert(a[i].key == entries@[i].0@);
        assert(a[i].node == entries@[i].1@);
    }
    assert(a =~= b);
}

impl Datum {
    /// A copy of the whole tree.
    pub fn copy(&self) -> (r: Datum)
        ensures
            r@ == self@,
        decreases self,
    {
        match self {
            Datum::Boolean(b) => Datum::Boolean(*b),
            Datum::Integer(i) => Datum::Integer(*i),
            Datum::Text(s) => Datum::Text(s.clone()),
            Datum::Array(items) => {
                let mut out: Vec<Datum> = Vec::new();
                let mut i: usize = 0;
                while i < items.len()
                    invariant
                        i <= items.len(),
                        *self == Datum::Array(*items),
                        out@.len() == i,
                        forall|k: int| 0 <= k < i ==> out@[k]@ == items@[k]@,
                    decreases items.len() - i,
                {
                    assert(self->Array_0 == *items);
                    assert(decreases_to!(*self => self->Array_0));
                    assert(decreases_to!(*items => items[i as int]));
                    out.push(items[i].copy());
                    i += 1;
                }
                proof {
                    lemma_view_array(out);
                    lemma_view_array(*items);
                    assert(nodes_of(out@) =~= nodes_of(items@));
                }
                Datum::Array(out)
            },
            Datum::Table(entries) => {
                let mut out: Vec<(String, Datum)> = Vec::new();
                let mut i: usize = 0;
                while i < entries.len()
                    invariant
                        i <= entries.len(),
                        *self == Datum::Table(*entries),
                        out@.len() == i,
                        forall|k: int|
                            0 <= k < i ==> out@[k].0@ == entries@[k].0@ && out@[k].1@
                                == entries@[k].1@,
                    decreases entries.len() - i,
                {
                    assert(self->Table_0 == *entries);
                    assert(decreases_to!(*self => self->Table_0));
                    assert(decreases_to!(*entries => entries[i as int]));
                    assert(decreases_to!(entries[i as int] => entries[i as int].1));
                    out.push((entries[i].0.clone(), entries[i].1.copy()));
                    i += 1;
                }
                proof {
                    lemma_view_table(out);
                    lemma_view_table(*entries);
                    assert(entries_of(out@) =~= entries_of(entries@));
                }
                Datum::Table(out)
            },
        }
    }
}

/// Where the entry named `key` stands among `entries`: the place of the
/// first entry with that name, or the number of entries where none has it.
pub open spec fn position(entries: Seq<Field>, key: Seq<char>) -> int
    decreases entries.len(),
{
    if entries.len() == 0 {
        0
    } else if entries[0].key == key {
        0
    } else {
        1 + position(entries.drop_first(), key)
    }
}

/// [`position`] is within bounds, points at an entry with the name unless
/// it is the end, and no entry before it has the name.
pub proof fn lemma_position(entries: Seq<Field>, key: Seq<char>)
    ensures
        0 <= position(entries, key) <= entries.len(),
        position(entries, key) < entries.len() ==> entries[position(entries, key)].key == key,
        forall|k: int| 0 <= k < position(entries, key) ==> (#[trigger] entries[k]).key != key,
    decreases entries.len(),
{
    if entries.len() == 0 {
    } else if entries[0].key == key {
    } else {
        let rest = entries.drop_first();
        lemma_position(rest, key);
        assert forall|k: int| 0 <= k < position(entries, key) implies (#[trigger] entries[k]).key
            != key by {
            if k > 0 {
                assert(entries[k] == rest[k - 1]);
            }
        }
    }
}

/// The place that has the properties of [`position`] is [`position`].
pub proof fn lemma_position_is(entries: Seq<Field>, key: Seq<char>, i: int)
    requires
        0 <= i <= entries.len(),
        forall|k: int| 0 <= k < i ==> (#[trigger] entries[k]).key != key,
        i < entries.len() ==> entries[i].key == key,
    ensures
        position(entries, key) == i,
    decreases entries.len(),
{
    if entries.len() == 0 {
    } else if i == 0 {
    } else {
        assert(entries[0].key != key);
        let rest = entries.drop_first();
        assert forall|k: int| 0 <= k < i - 1 implies (#[trigger] rest[k]).key != key by {
            assert(rest[k] == entries[k + 1]);
        }
        lemma_position_is(rest, key, i - 1);
    }
}

impl Node {
    /// The part named `key` of a table; nothing for a value that is no
    /// table or has no part of that name.
    pub open spec fn child(self, key: Seq<char>) -> Option<Node> {
        match self {
            Node::Table(entries) => if position(entries, key) < entries.len() {
                Some(entries[position(entries, key)].node)
            } else {
                None
            },
            _ => None,
        }
    }

    /// The part reached by following the names of `path` from table to
    /// table; the value itself for the empty path.
    pub open spec fn lookup(self, path: Seq<Seq<char>>) -> Option<Node>
        decreases path.len(),
    {
        if path.len() == 0 {
            Some(self)
        } else {
            match self.child(path[0]) {
                Some(node) => node.lookup(path.drop_first()),
                None => None,
            }
        }
    }
}

/// The readings of a list of names.
pub open spec fn names_of(path: Seq<String>) -> Seq<Seq<char>> {
    Seq::new(path.len(), |i: int| path[i]@)
}

/// Where the entry named `key` stands among `entries`, as [`position`] has
/// it.
pub fn find_entry(entries: &Vec<(String, Datum)>, key: &str) -> (i: usize)
    ensures
        i == position(entries_of(entries@), key@),
        i <= entries.len(),
{
    let ghost fields = entries_of(entries@);
    let mut i: usize = 0;
    while i < entries.len()
        invariant
            i <= entries.len(),
            fields == entries_of(entries@),
            forall|k: int| 0 <= k < i ==> (#[trigger] fields[k]).key != key@,
        decreases entries.len() - i,
    {
        if same_text(entries[i].0.as_str(), key) {
            proof {
                assert(fields[i as int].key == key@);
                lemma_position_is(fields, key@, i as int);
            }
            return i;
        }
        assert(fields[i as int].key != key@);
        i += 1;
    }
    proof {
        lemma_position_is(fields, key@, i as int);
    }
    i
}

impl Datum {
    /// The part named `key` of a table.
    pub fn get(&self, key: &str) -> (r: Option<&Datum>)
        ensures
            match r {
                Some(v) => self@.child(key@) == Some(v@),
                None => self@.child(key@) is None,
            },
    {
        match self {
            Datum::Table(entries) => {
                proof {
                    lemma_view_table(*entries);
                }
                let i = find_entry(entries, key);
                if i < entries.len() {
                    Some(&entries[i].1)
                } else {
                    None
                }
            },
            _ => None,
        }
    }

    /// The part reached by following `path` from table to table.
    pub fn lookup(&self, path: &Vec<String>) -> (r: Option<&Datum>)
        ensures
            match r {
                Some(v) => self@.lookup(names_of(path@)) == Some(v@),
                None => self@.lookup(names_of(path@)) is None,
            },
    {
        let ghost names = names_of(path@);
        let mut at: &Datum = self;
        let mut i: usize = 0;
        assert(names.skip(0) =~= names);
        while i < path.len()
            invariant
                i <= path.len(),
                names == names_of(path@),
                self@.lookup(names) == at@.lookup(names.skip(i as int)),
            decreases path.len() - i,
        {
            proof {
                assert(names.skip(i as int)[0] == path@[i as int]@);
                assert(names.skip(i as int).drop_first() =~= names.skip(i + 1));
            }
            match at.get(path[i].as_str()) {
                Some(next) => {
                    at = next;
                },
                None => {
                    return None;
                },
            }
            i += 1;
        }
        Some(at)
    }
}

/// The entries of `over` whose names `base` does not have, in their order.
pub open spec fn added(base: Seq<Field>, over: Seq<Field>) -> Seq<Field>
    decreases over.len(),
{
    if over.len() == 0 {
        Seq::empty()
    } else {
        let rest = added(base, over.drop_last());
        if position(base, over.last().key) >= base.len() {
            rest.push(over.last())
        } else {
            rest
        }
    }
}

/// `over` laid over `base`. Two tables are merged name by name: every
/// entry of `base` stays in its place, merged with the entry of `over` of
/// the same name where there is one, and the entries that only `over` has
/// follow in their order. In every other case `over` replaces `base`.
pub open spec fn merged(base: Node, over: Node) -> Node
    decreases base,
{
    match base {
        Node::Table(b) => match over {
            Node::Table(o) => Node::Table(
                Seq::new(
                    b.len(),
                    |i: int|
                        if 0 <= i < b.len() {
                            if position(o, b[i].key) < o.len() {
                                Field {
                                    key: b[i].key,
                                    node: merged(b[i].node, o[position(o, b[i].key)].node),
                                }
                            } else {
                                b[i]
                            }
                        } else {
                            arbitrary()
                        },
                ) + added(b, o),
            ),
            _ => over,
        },
        _ => over,
    }
}

/// The tree that holds `leaf` at `path` and nothing else: `leaf` itself
/// for the empty path, otherwise tables of one entry each, nested along
/// the names of `path`.
pub open spec fn single(path: Seq<Seq<char>>, leaf: Node) -> Node
    decreases path.len(),
{
    if path.len() == 0 {
        leaf
    } else {
        Node::Table(seq![Field { key: path[0], node: single(path.drop_first(), leaf) }])
    }
}

impl Datum {
    /// Lays `over` over `self`, as [`merged`] has it.
    pub fn merge(&self, over: &Datum) -> (r: Datum)
        ensures
            r@ == merged(self@, over@),
        decreases self,
    {
        match self {
            Datum::Table(b) => match over {
                Datum::Table(o) => {
                    let ghost bf = entries_of(b@);
                    let ghost of = entries_of(o@);
                    let ghost target = merged(self@, over@)->Table_0;
                    proof {
                        lemma_view_table(*b);
                        lemma_view_table(*o);
                    }
                    let mut out: Vec<(String, Datum)> = Vec::new();
                    let mut i: usize = 0;
                    while i < b.len()
                        invariant
                            i <= b.len(),
                            self->Table_0 == *b,
                            self is Table,
                            bf == entries_of(b@),
                            of == entries_of(o@),
                            self@ == Node::Table(bf),
                            over@ == Node::Table(of),
                            target == merged(self@, over@)->Table_0,
                            out@.len() == i,
                            forall|k: int| 0 <= k < i ==> (#[trigger] entries_of(out@)[k]) == target[k],
                        decreases b.len() - i,
                    {
                        let j = find_entry(o, b[i].0.as_str());
                        assert(decreases_to!(*self => self->Table_0));
                        assert(decreases_to!(*b => b[i as int]));
                        assert(decreases_to!(b[i as int] => b[i as int].1));
                        let node = if j < o.len() {
                            b[i].1.merge(&o[j].1)
                        } else {
                            b[i].1.copy()
                        };
                        let ghost before = entries_of(out@);
                        out.push((b[i].0.clone(), node));
                        proof {
                            assert(bf[i as int].key == b@[i as int].0@);
                            assert(bf[i as int].node == b@[i as int].1@);
                            if j < o.len() {
                                assert(of[j as int].node == o@[j as int].1@);
                            }
                            assert forall|k: int| 0 <= k < i + 1 implies (#[trigger] entries_of(
                                out@,
                            )[k]) == target[k] by {
                                if k < i {
                                    assert(entries_of(out@)[k] == before[k]);
                                }
                            }
                        }
                        i += 1;
                    }
                    let ghost first = entries_of(out@);
                    let mut j: usize = 0;
                    assert(of.take(0) =~= Seq::<Field>::empty());
                    while j < o.len()
                        invariant
                            j <= o.len(),
                            bf == entries_of(b@),
                            of == entries_of(o@),
                            first.len() == b.len(),
                            entries_of(out@) =~= first + added(bf, of.take(j as int)),
                        decreases o.len() - j,
                    {
                        let at = find_entry(b, o[j].0.as_str());
                        proof {
                            assert(of.take(j + 1).drop_last() =~= of.take(j as int));
                            assert(of.take(j + 1).last() == of[j as int]);
                            assert(of[j as int].key == o@[j as int].0@);
                            assert(of[j as int].node == o@[j as int].1@);
                        }
                        if at >= b.len() {
                            let ghost before = entries_of(out@);
                            out.push((o[j].0.clone(), o[j].1.copy()));
                            proof {
                                assert(entries_of(out@) =~= before.push(of[j as int]));
                            }
                        }
                        j += 1;
                    }
                    proof {
                        assert(of.take(o.len() as int) =~= of);
                        lemma_view_table(out);
                        assert(entries_of(out@) =~= target);
                    }
                    Datum::Table(out)
                },
                _ => over.copy(),
            },
            _ => over.copy(),
        }
    }

    /// The tree that holds `leaf` at `path[from..]` and nothing else.
    pub fn single(path: &Vec<String>, from: usize, leaf: Datum) -> (r: Datum)
        requires
            from <= path.len(),
        ensures
            r@ == single(names_of(path@).skip(from as int), leaf@),
        decreases path.len() - from,
    {
        let ghost names = names_of(path@).skip(from as int);
        if from == path.len() {
            leaf
        } else {
            let inner = Datum::single(path, from + 1, leaf);
            let mut entries: Vec<(String, Datum)> = Vec::new();
            entries.push((path[from].clone(), inner));
            proof {
                assert(names[0] == path@[from as int]@);
                assert(names.drop_first() =~= names_of(path@).skip(from + 1));
                lemma_view_table(entries);
                assert(entries_of(entries@) =~= seq![
                    Field { key: names[0], node: single(names.drop_first(), leaf@) },
                ]);
            }
            Datum::Table(entries)
        }
    }
}

impl Node {
    /// Whether the value is written as a table of its own: a table, or a
    /// list that starts with one.
    pub open spec fn is_nested(self) -> bool {
        match self {
            Node::Table(_) => true,
            Node::Array(items) => items.len() > 0 && items[0] is Table,
            _ => false,
        }
    }

    /// Whether the document can be written out table by table: in every
    /// table, no plain value follows a nested one.
    pub open spec fn ordered(self) -> bool
        decreases self,
    {
        match self {
            Node::Table(entries) => {
                &&& forall|i: int, j: int|
                    0 <= i < j < entries.len() && (#[trigger] entries[i]).node.is_nested() ==> (
                    #[trigger] entries[j]).node.is_nested()
                &&& forall|i: int|
                    0 <= i < entries.len() ==> (#[trigger] entries[i]).node.ordered()
            },
            Node::Array(items) => forall|i: int|
                0 <= i < items.len() ==> (#[trigger] items[i]).ordered(),
            _ => true,
        }
    }
}

impl Datum {
    /// Computes [`Node::is_nested`].
    pub fn is_nested(&self) -> (r: bool)
        ensures
            r == self@.is_nested(),
    {
        match self {
            Datum::Table(_) => true,
            Datum::Array(items) => {
                proof {
                    lemma_view_array(*items);
                }
                if items.len() > 0 {
                    match &items[0] {
                        Datum::Table(_) => true,
                        _ => false,
                    }
                } else {
                    false
                }
            },
            _ => false,
        }
    }

    /// Computes [`Node::ordered`].
    pub fn is_ordered(&self) -> (r: bool)
        ensures
            r == self@.ordered(),
        decreases self,
    {
        match self {
            Datum::Table(entries) => {
                let ghost fields = entries_of(entries@);
                proof {
                    lemma_view_table(*entries);
                }
                let mut seen_nested = false;
                let mut i: usize = 0;
                while i < entries.len()
                    invariant
                        i <= entries.len(),
                        self is Table,
                        self->Table_0 == *entries,
                        fields == entries_of(entries@),
                        self@ == Node::Table(fields),
                        seen_nested <==> exists|k: int|
                            0 <= k < i && (#[trigger] fields[k]).node.is_nested(),
                        forall|a: int, b: int|
                            0 <= a < b < i && (#[trigger] fields[a]).node.is_nested() ==> (
                            #[trigger] fields[b]).node.is_nested(),
                        forall|k: int| 0 <= k < i ==> (#[trigger] fields[k]).node.ordered(),
                    decreases entries.len() - i,
                {
                    assert(decreases_to!(*self => self->Table_0));
                    assert(decreases_to!(*entries => entries[i as int]));
                    assert(decreases_to!(entries[i as int] => entries[i as int].1));
                    assert(fields[i as int].node == entries@[i as int].1@);
                    let nested = entries[i].1.is_nested();
                    if seen_nested && !nested {
                        proof {
                            let k = choose|k: int|
                                0 <= k < i && (#[trigger] fields[k]).node.is_nested();
                            assert(fields[k].node.is_nested() && !fields[i as int].node.is_nested());
                        }
                        return false;
                    }
                    if !entries[i].1.is_ordered() {
                        assert(!fields[i as int].node.ordered());
                        return false;
                    }
                    if nested {
                        seen_nested = true;
                    }
                    i += 1;
                }
                true
            },
            Datum::Array(items) => {
                let ghost nodes = nodes_of(items@);
                proof {
                    lemma_view_array(*items);
                }
                let mut i: usize = 0;
                while i < items.len()
                    invariant
                        i <= items.len(),
                        self is Array,
                        self->Array_0 == *items,
                        nodes == nodes_of(items@),
                        self@ == Node::Array(nodes),
                        forall|k: int| 0 <= k < i ==> (#[trigger] nodes[k]).ordered(),
                    decreases items.len() - i,
                {
                    assert(decreases_to!(*self => self->Array_0));
                    assert(decreases_to!(*items => items[i as int]));
                    assert(nodes[i as int] == items@[i as int]@);
                    if !items[i].is_ordered() {
                        proof {
                            assert(!nodes[i as int].ordered());
                            if self@.ordered() {
                                assert(self@->Array_0[i as int].ordered());
                            }
                        }
                        return false;
                    }
                    i += 1;
                }
                true
            },
            _ => true,
        }
    }

    /// The text `s` as a value.
    pub fn text(s: &str) -> (r: Datum)
        ensures
            r@ == Node::Text(s@),
    {
        Datum::Text(s.to_owned())
    }

    /// The texts `items` as a list.
    pub fn texts(items: &Vec<String>) -> (r: Datum)
        ensures
            r@ == text_list(items@),
    {
        let mut out: Vec<Datum> = Vec::new();
        let mut i: usize = 0;
        while i < items.len()
            invariant
                i <= items.len(),
                out@.len() == i,
                forall|k: int| 0 <= k < i ==> (#[trigger] out@[k])@ == Node::Text(items@[k]@),
            decreases items.len() - i,
        {
            out.push(Datum::Text(items[i].clone()));
            i += 1;
        }
        proof {
            lemma_view_array(out);
            assert(nodes_of(out@) =~= text_list(items@)->Array_0);
        }
        Datum::Array(out)
    }
}

/// The list of the texts of `items`.
pub open spec fn text_list(items: Seq<String>) -> Node {
    Node::Array(Seq::new(items.len(), |i: int| Node::Text(items[i]@)))
}

/// Adds the entry `key = value` at the end of a table under construction.
pub fn push_entry(entries: &mut Vec<(String, Datum)>, key: &str, value: Datum)
    ensures
        entries_of(final(entries)@) == entries_of(old(entries)@).push(
            Field { key: key@, node: value@ },
        ),
{
    entries.push((key.to_owned(), value));
    assert(entries_of(entries@) =~= entries_of(old(entries)@).push(
        Field { key: key@, node: value@ },
    ));
}

} // verus!
