//! Settings given through environment variables: which variables count,
//! which setting each of them names, and how they are laid over a document.

use vstd::prelude::*;
use crate::text::{lower_chars, lowered, range_string, to_chars};
use crate::merge_laws::{
    lemma_lower_layer_shows, lemma_override_holds, lemma_upper_layer_wins, missing,
};
use crate::value::{merged, names_of, single, Node, Datum};

verus! {

/// Where the first `__` of `s` starts, or the length of `s` where it has
/// none.
pub open spec fn sep_at(s: Seq<char>) -> int
    decreases s.len(),
{
    if s.len() < 2 {
        s.len() as int
    } else if s[0] == '_' && s[1] == '_' {
        0
    } else {
        1 + sep_at(s.drop_first())
    }
}

/// A `__` starts at `k` in `s`.
pub open spec fn pair_at(s: Seq<char>, k: int) -> bool {
    0 <= k && k + 1 < s.len() && s[k] == '_' && s[k + 1] == '_'
}

/// `i` is where [`sep_at`] points: no `__` starts before it, and one starts
/// at it unless it is the end.
pub proof fn lemma_sep_at(s: Seq<char>, i: int)
    requires
        0 <= i <= s.len(),
        forall|k: int| 0 <= k < i ==> !pair_at(s, k),
        i < s.len() ==> pair_at(s, i),
    ensures
        sep_at(s) == i,
    decreases s.len(),
{
    if s.len() < 2 {
    } else if i == 0 {
    } else {
        assert(!pair_at(s, 0));
        let t = s.drop_first();
        assert forall|k: int| 0 <= k < i - 1 implies !pair_at(t, k) by {
            assert(!pair_at(s, k + 1));
            if k + 1 < t.len() {
                assert(t[k] == s[k + 1]);
                assert(t[k + 1] == s[k + 2]);
            }
        }
        if i < s.len() {
            assert(pair_at(s, i));
            assert(t[i - 1] == s[i]);
            assert(t[i] == s[i + 1]);
            assert(pair_at(t, i - 1));
        }
        lemma_sep_at(t, i - 1);
    }
}

/// The parts of `s` between its `__`, read from the left.
pub open spec fn segments(s: Seq<char>) -> Seq<Seq<char>>
    decreases s.len(),
{
    let i = sep_at(s);
    if 0 <= i && i + 2 <= s.len() {
        seq![s.take(i)] + segments(s.skip(i + 2))
    } else {
        seq![s]
    }
}

/// The setting that an environment variable names: the variable's name
/// starts with `ANOMA__`, in either case, and what follows gives the names
/// of the tables down to the setting, in lower case, with `__` between
/// them. A variable whose name does not start so, or leaves one of these
/// names empty, names no setting.
pub open spec fn env_path(name: Seq<char>) -> Option<Seq<Seq<char>>> {
    let low = lowered(name);
    if low.len() >= 7 && low.take(7) == "anoma__"@ {
        let parts = segments(low.skip(7));
        if forall|i: int| 0 <= i < parts.len() ==> (#[trigger] parts[i]).len() > 0 {
            Some(parts)
        } else {
            None
        }
    } else {
        None
    }
}

/// Where the first `__` of `v[from..]` starts, or the length of `v`.
fn find_sep(v: &Vec<char>, from: usize) -> (i: usize)
    requires
        from <= v.len(),
    ensures
        from <= i <= v.len(),
        i - from == sep_at(v@.skip(from as int)),
        i < v.len() ==> i + 2 <= v.len(),
{
    let ghost s = v@.skip(from as int);
    let mut i: usize = from;
    while i < v.len()
        invariant
            from <= i <= v.len(),
            s == v@.skip(from as int),
            forall|k: int| 0 <= k < i - from ==> !pair_at(s, k),
        decreases v.len() - i,
    {
        if v[i] == '_' && i + 1 < v.len() && v[i + 1] == '_' {
            proof {
                assert(s[i - from] == '_' && s[i - from + 1] == '_');
                assert(pair_at(s, i - from));
                lemma_sep_at(s, i - from);
            }
            return i;
        }
        proof {
            assert(s[i - from] == v@[i as int]);
            if i + 1 < v.len() {
                assert(s[i - from + 1] == v@[i + 1]);
            }
            assert(!pair_at(s, i - from));
        }
        i += 1;
    }
    proof {
        lemma_sep_at(s, s.len() as int);
    }
    i
}

/// Computes [`env_path`].
pub fn setting_of(name: &str) -> (r: Option<Vec<String>>)
    ensures
        match r {
            Some(path) => env_path(name@) == Some(names_of(path@)),
            None => env_path(name@) is None,
        },
{
    let chars = to_chars(name);
    let low = lower_chars(&chars);
    let prefix = to_chars("anoma__");
    proof {
        reveal_strlit("anoma__");
        assert(prefix@.len() == 7);
    }
    if low.len() < 7 {
        return None;
    }
    let mut k: usize = 0;
    while k < 7
        invariant
            k <= 7 <= low.len(),
            low@ == lowered(name@),
            prefix@ == "anoma__"@,
            prefix@.len() == 7,
            forall|m: int| 0 <= m < k ==> low@[m] == prefix@[m],
        decreases 7 - k,
    {
        if low[k] != prefix[k] {
            assert(low@.take(7)[k as int] != prefix@[k as int]);
            return None;
        }
        k += 1;
    }
    assert(low@.take(7) =~= prefix@);
    let ghost rest = low@.skip(7);
    let mut out: Vec<String> = Vec::new();
    let mut start: usize = 7;
    assert(names_of(out@) =~= Seq::<Seq<char>>::empty());
    loop
        invariant
            7 <= start <= low.len(),
            rest == low@.skip(7),
            low@ == lowered(name@),
            low@.take(7) == "anoma__"@,
            segments(rest) == names_of(out@) + segments(low@.skip(start as int)),
            forall|m: int| 0 <= m < out@.len() ==> (#[trigger] names_of(out@)[m]).len() > 0,
        decreases low.len() - start,
    {
        let ghost tail = low@.skip(start as int);
        let ghost done = names_of(out@);
        let j = find_sep(&low, start);
        proof {
            assert(tail.take(j - start) =~= low@.subrange(start as int, j as int));
            if j < low.len() {
                assert(tail.skip(j - start + 2) =~= low@.skip(j + 2));
            } else {
                assert(tail.take(tail.len() as int) =~= tail);
            }
            assert(segments(tail)[0] == low@.subrange(start as int, j as int));
        }
        if j == start {
            proof {
                let parts = segments(rest);
                assert(parts[done.len() as int] == segments(tail)[0]);
                assert(parts[done.len() as int].len() == 0);
            }
            return None;
        }
        out.push(range_string(&low, start, j));
        proof {
            assert(names_of(out@) =~= done.push(low@.subrange(start as int, j as int)));
        }
        if j >= low.len() {
            proof {
                assert(segments(tail) =~= seq![tail]);
                assert(segments(rest) =~= names_of(out@));
            }
            return Some(out);
        }
        proof {
            assert(segments(tail) =~= seq![tail.take(j - start)] + segments(low@.skip(j + 2)));
            assert(segments(rest) =~= names_of(out@) + segments(low@.skip(j + 2)));
        }
        start = j + 2;
    }
}

/// The names and values of a list of environment variables.
pub open spec fn vars_of(vars: Seq<(String, String)>) -> Seq<(Seq<char>, Seq<char>)> {
    Seq::new(vars.len(), |i: int| (vars[i].0@, vars[i].1@))
}

/// `base` with the environment variables `vars` laid over it one after
/// the other: each variable that names a setting puts its value there as a
/// text, and a later variable wins over an earlier one.
pub open spec fn overlaid(base: Node, vars: Seq<(Seq<char>, Seq<char>)>) -> Node
    decreases vars.len(),
{
    if vars.len() == 0 {
        base
    } else {
        let before = overlaid(base, vars.drop_last());
        match env_path(vars.last().0) {
            Some(path) => merged(before, single(path, Node::Text(vars.last().1))),
            None => before,
        }
    }
}

/// The document that is read: the file laid over the defaults, and the
/// environment laid over both.
pub open spec fn layered(defaults: Node, file: Node, vars: Seq<(Seq<char>, Seq<char>)>) -> Node {
    overlaid(merged(defaults, file), vars)
}

/// Computes [`layered`].
pub fn layer(defaults: &Datum, file: &Datum, vars: &Vec<(String, String)>) -> (r: Datum)
    ensures
        r@ == layered(defaults@, file@, vars_of(vars@)),
{
    let ghost all = vars_of(vars@);
    let mut doc = defaults.merge(file);
    let mut i: usize = 0;
    assert(all.take(0) =~= Seq::<(Seq<char>, Seq<char>)>::empty());
    while i < vars.len()
        invariant
            i <= vars.len(),
            all == vars_of(vars@),
            doc@ == overlaid(merged(defaults@, file@), all.take(i as int)),
        decreases vars.len() - i,
    {
        proof {
            assert(all.take(i + 1).drop_last() =~= all.take(i as int));
            assert(all.take(i + 1).last() == (vars@[i as int].0@, vars@[i as int].1@));
        }
        match setting_of(vars[i].0.as_str()) {
            Some(path) => {
                assert(names_of(path@).skip(0) =~= names_of(path@));
                let over = Datum::single(&path, 0, Datum::Text(vars[i].1.clone()));
                doc = doc.merge(&over);
            },
            None => {},
        }
        i += 1;
    }
    assert(all.take(vars.len() as int) =~= all);
    doc
}

/// None of the variables names a setting.
pub open spec fn names_nothing(vars: Seq<(Seq<char>, Seq<char>)>) -> bool {
    forall|i: int| 0 <= i < vars.len() ==> env_path((#[trigger] vars[i]).0) is None
}

/// Variables that name no setting change nothing.
pub proof fn lemma_other_variables_change_nothing(base: Node, vars: Seq<(Seq<char>, Seq<char>)>)
    requires
        names_nothing(vars),
    ensures
        overlaid(base, vars) == base,
    decreases vars.len(),
{
    if vars.len() > 0 {
        assert(names_nothing(vars.drop_last())) by {
            assert forall|i: int| 0 <= i < vars.drop_last().len() implies env_path(
                (#[trigger] vars.drop_last()[i]).0,
            ) is None by {
                assert(vars.drop_last()[i] == vars[i]);
            }
        }
        lemma_other_variables_change_nothing(base, vars.drop_last());
        assert(vars.last() == vars[vars.len() - 1]);
    }
}

/// The environment wins: where the last variable names a setting, the
/// document that is read holds the variable's value there, whatever the
/// file and the defaults hold.
pub proof fn lemma_environment_wins(
    defaults: Node,
    file: Node,
    vars: Seq<(Seq<char>, Seq<char>)>,
)
    requires
        vars.len() > 0,
        env_path(vars.last().0) is Some,
    ensures
        layered(defaults, file, vars).lookup(env_path(vars.last().0)->Some_0) == Some(
            Node::Text(vars.last().1),
        ),
{
    let before = overlaid(merged(defaults, file), vars.drop_last());
    lemma_override_holds(before, env_path(vars.last().0)->Some_0, Node::Text(vars.last().1));
}

/// The file wins over the defaults: where no variable names a setting, a
/// scalar or list that the file holds at a path is what the document that
/// is read holds there.
pub proof fn lemma_file_wins(
    defaults: Node,
    file: Node,
    vars: Seq<(Seq<char>, Seq<char>)>,
    path: Seq<Seq<char>>,
)
    requires
        names_nothing(vars),
        file.lookup(path) is Some,
        !(file.lookup(path)->Some_0 is Table),
    ensures
        layered(defaults, file, vars).lookup(path) == file.lookup(path),
{
    lemma_other_variables_change_nothing(merged(defaults, file), vars);
    lemma_upper_layer_wins(defaults, file, path);
}

/// The defaults show through: where no variable names a setting and the
/// file lacks a path, the document that is read holds there what the
/// defaults hold.
pub proof fn lemma_defaults_show(
    defaults: Node,
    file: Node,
    vars: Seq<(Seq<char>, Seq<char>)>,
    path: Seq<Seq<char>>,
)
    requires
        names_nothing(vars),
        missing(file, path),
    ensures
        layered(defaults, file, vars).lookup(path) == defaults.lookup(path),
{
    lemma_other_variables_change_nothing(merged(defaults, file), vars);
    lemma_lower_layer_shows(defaults, file, path);
}

} // verus!
