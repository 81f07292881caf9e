//! What holds of the layering of one configuration document over another.

use vstd::prelude::*;
use crate::value::{
    added, lemma_position, lemma_position_is, merged, position, single, Field, Node,
};

verus! {

/// A value is absent from `node` at `path` in a way that lets an older
/// layer show through: somewhere along the path a table lacks the next
/// name.
pub open spec fn missing(node: Node, path: Seq<Seq<char>>) -> bool
    decreases path.len(),
{
    &&& path.len() > 0
    &&& node is Table
    &&& match node.child(path[0]) {
        None => true,
        Some(inner) => missing(inner, path.drop_first()),
    }
}

/// No table of the document names a part twice.
pub open spec fn distinct_names(node: Node) -> bool
    decreases node,
{
    match node {
        Node::Table(entries) => {
            &&& forall|i: int, j: int|
                0 <= i < j < entries.len() ==> (#[trigger] entries[i]).key != (
                #[trigger] entries[j]).key
            &&& forall|i: int|
                0 <= i < entries.len() ==> distinct_names((#[trigger] entries[i]).node)
        },
        _ => true,
    }
}

/// Where a name stands in a list of entries with one more entry at its end.
pub proof fn lemma_position_push(entries: Seq<Field>, last: Field, key: Seq<char>)
    ensures
        position(entries.push(last), key) == if position(entries, key) < entries.len() {
            position(entries, key)
        } else if last.key == key {
            entries.len() as int
        } else {
            entries.len() as int + 1
        },
{
    let all = entries.push(last);
    lemma_position(entries, key);
    let i = position(entries, key);
    if i < entries.len() {
        assert(all[i] == entries[i]);
        assert forall|k: int| 0 <= k < i implies (#[trigger] all[k]).key != key by {
            assert(all[k] == entries[k]);
        }
        lemma_position_is(all, key, i);
    } else {
        assert forall|k: int| 0 <= k < entries.len() implies (#[trigger] all[k]).key != key by {
            assert(all[k] == entries[k]);
        }
        if last.key == key {
            lemma_position_is(all, key, entries.len() as int);
        } else {
            lemma_position_is(all, key, entries.len() as int + 1);
        }
    }
}

/// Where a name stands in two lists of entries put one after the other.
pub proof fn lemma_position_concat(front: Seq<Field>, back: Seq<Field>, key: Seq<char>)
    ensures
        position(front + back, key) == if position(front, key) < front.len() {
            position(front, key)
        } else {
            front.len() + position(back, key)
        },
{
    let all = front + back;
    lemma_position(front, key);
    lemma_position(back, key);
    let i = position(front, key);
    if i < front.len() {
        assert(all[i] == front[i]);
        assert forall|k: int| 0 <= k < i implies (#[trigger] all[k]).key != key by {
            assert(all[k] == front[k]);
        }
        lemma_position_is(all, key, i);
    } else {
        let j = position(back, key);
        assert forall|k: int| 0 <= k < front.len() + j implies (#[trigger] all[k]).key != key by {
            if k < front.len() {
                assert(all[k] == front[k]);
            } else {
                assert(all[k] == back[k - front.len()]);
            }
        }
        if j < back.len() {
            assert(all[front.len() + j] == back[j]);
        }
        lemma_position_is(all, key, front.len() as int + j);
    }
}

/// A name that `base` lacks names the same part among the entries that
/// `over` adds as among all the entries of `over`.
pub proof fn lemma_added_child(base: Seq<Field>, over: Seq<Field>, key: Seq<char>)
    requires
        position(base, key) >= base.len(),
    ensures
        Node::Table(added(base, over)).child(key) == Node::Table(over).child(key),
    decreases over.len(),
{
    lemma_position(added(base, over), key);
    lemma_position(over, key);
    if over.len() == 0 {
    } else {
        let front = over.drop_last();
        let last = over.last();
        lemma_added_child(base, front, key);
        lemma_position(added(base, front), key);
        lemma_position(front, key);
        assert(front.push(last) =~= over);
        lemma_position_push(front, last, key);
        if position(base, last.key) >= base.len() {
            lemma_position_push(added(base, front), last, key);
            if position(front, key) < front.len() {
                assert(over[position(front, key)] == front[position(front, key)]);
                assert(added(base, over)[position(added(base, front), key)] == added(
                    base,
                    front,
                )[position(added(base, front), key)]);
            }
        } else {
            lemma_position(base, last.key);
            if position(front, key) < front.len() {
                assert(over[position(front, key)] == front[position(front, key)]);
            }
        }
    }
}

/// `over` adds nothing where `base` has every name that `over` has.
pub proof fn lemma_added_none(base: Seq<Field>, over: Seq<Field>)
    requires
        forall|i: int| 0 <= i < over.len() ==> position(base, (#[trigger] over[i]).key) < base.len(),
    ensures
        added(base, over) == Seq::<Field>::empty(),
    decreases over.len(),
{
    if over.len() > 0 {
        let front = over.drop_last();
        assert forall|i: int| 0 <= i < front.len() implies position(
            base,
            (#[trigger] front[i]).key,
        ) < base.len() by {
            assert(front[i] == over[i]);
        }
        lemma_added_none(base, front);
        assert(over.last() == over[over.len() - 1]);
    }
}

/// The entries of two merged tables, and where a name stands among them.
proof fn lemma_merged_tables(b: Seq<Field>, o: Seq<Field>, key: Seq<char>)
    ensures
        merged(Node::Table(b), Node::Table(o)) is Table,
        ({
            let m = merged(Node::Table(b), Node::Table(o))->Table_0;
            let i = position(b, key);
            let j = position(o, key);
            &&& m.len() == b.len() + added(b, o).len()
            &&& i < b.len() ==> position(m, key) == i && m[i].key == key && m[i].node == (if j
                < o.len() {
                merged(b[i].node, o[j].node)
            } else {
                b[i].node
            })
            &&& i >= b.len() ==> Node::Table(m).child(key) == Node::Table(o).child(key)
        }),
{
    let m = merged(Node::Table(b), Node::Table(o))->Table_0;
    let front = m.take(b.len() as int);
    assert(m =~= front + added(b, o));
    lemma_position(b, key);
    lemma_position(o, key);
    let i = position(b, key);
    assert forall|k: int| 0 <= k < b.len() implies (#[trigger] front[k]).key == b[k].key by {
        assert(front[k] == m[k]);
    }
    if i < b.len() {
        assert forall|k: int| 0 <= k < i implies (#[trigger] m[k]).key != key by {
            assert(m[k] == front[k]);
            assert(b[k].key != key);
        }
        assert(m[i] == front[i]);
        lemma_position_is(m, key, i);
    } else {
        assert forall|k: int| 0 <= k < front.len() implies (#[trigger] front[k]).key != key by {
            assert(b[k].key != key);
        }
        lemma_position_is(front, key, front.len() as int);
        lemma_position_concat(front, added(b, o), key);
        lemma_added_child(b, o, key);
        lemma_position(added(b, o), key);
        let a = position(added(b, o), key);
        if a < added(b, o).len() {
            assert(m[front.len() + a] == added(b, o)[a]);
        }
    }
}

/// Nothing is found along a path that is [`missing`].
pub proof fn lemma_missing_is_absent(node: Node, path: Seq<Seq<char>>)
    requires
        missing(node, path),
    ensures
        node.lookup(path) is None,
    decreases path.len(),
{
    match node.child(path[0]) {
        None => {},
        Some(inner) => {
            lemma_missing_is_absent(inner, path.drop_first());
        },
    }
}

/// A scalar or list that the upper layer holds at a path is what the
/// merged document holds there, whatever the lower layer holds.
pub proof fn lemma_upper_layer_wins(base: Node, over: Node, path: Seq<Seq<char>>)
    requires
        over.lookup(path) is Some,
        !(over.lookup(path)->Some_0 is Table),
    ensures
        merged(base, over).lookup(path) == over.lookup(path),
    decreases path.len(),
{
    if path.len() == 0 {
    } else {
        let key = path[0];
        let o = over->Table_0;
        lemma_position(o, key);
        let j = position(o, key);
        match base {
            Node::Table(b) => {
                lemma_position(b, key);
                lemma_merged_tables(b, o, key);
                let i = position(b, key);
                if i < b.len() {
                    lemma_upper_layer_wins(b[i].node, o[j].node, path.drop_first());
                }
            },
            _ => {},
        }
    }
}

/// Where the upper layer lacks a path, the merged document holds there
/// what the lower layer holds.
pub proof fn lemma_lower_layer_shows(base: Node, over: Node, path: Seq<Seq<char>>)
    requires
        missing(over, path),
    ensures
        merged(base, over).lookup(path) == base.lookup(path),
    decreases path.len(),
{
    let key = path[0];
    let o = over->Table_0;
    lemma_position(o, key);
    let j = position(o, key);
    lemma_missing_is_absent(over, path);
    match base {
        Node::Table(b) => {
            lemma_position(b, key);
            lemma_merged_tables(b, o, key);
            let i = position(b, key);
            if i < b.len() {
                if j < o.len() {
                    lemma_lower_layer_shows(b[i].node, o[j].node, path.drop_first());
                }
            }
        },
        _ => {},
    }
}

/// A document laid over itself is the document, where no table names a
/// part twice.
pub proof fn lemma_merged_with_itself(node: Node)
    requires
        distinct_names(node),
    ensures
        merged(node, node) == node,
    decreases node,
{
    match node {
        Node::Table(e) => {
            let m = merged(node, node)->Table_0;
            assert forall|i: int| 0 <= i < e.len() implies position(e, (#[trigger] e[i]).key)
                == i by {
                lemma_position_is(e, e[i].key, i);
            }
            lemma_added_none(e, e);
            assert(m.len() == e.len());
            assert forall|i: int| 0 <= i < e.len() implies m[i] == e[i] by {
                assert(position(e, e[i].key) == i);
                lemma_merged_with_itself(e[i].node);
            }
            assert(m =~= e);
        },
        _ => {},
    }
}

/// The tree that holds a value at a path, and nothing else, holds that
/// value at that path.
pub proof fn lemma_single_holds(path: Seq<Seq<char>>, leaf: Node)
    ensures
        single(path, leaf).lookup(path) == Some(leaf),
    decreases path.len(),
{
    if path.len() > 0 {
        lemma_single_holds(path.drop_first(), leaf);
        let entries = seq![Field { key: path[0], node: single(path.drop_first(), leaf) }];
        lemma_position_is(entries, path[0], 0);
    }
}

/// A scalar or list that is laid over a document at a path is what the
/// document then holds at that path.
pub proof fn lemma_override_holds(base: Node, path: Seq<Seq<char>>, leaf: Node)
    requires
        !(leaf is Table),
    ensures
        merged(base, single(path, leaf)).lookup(path) == Some(leaf),
{
    lemma_single_holds(path, leaf);
    lemma_upper_layer_wins(base, single(path, leaf), path);
}

} // verus!
