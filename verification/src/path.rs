//! Directory paths as text, joined the way Unix paths are.

use vstd::prelude::*;
use crate::text::{append_str, to_chars};

verus! {

/// `part` adjoined to `base`: an absolute `part` stands alone, otherwise the
/// two are put together with exactly one `/` between them unless `base` is
/// empty or already ends in one.
pub open spec fn joined(base: Seq<char>, part: Seq<char>) -> Seq<char> {
    if part.len() > 0 && part[0] == '/' {
        part
    } else if base.len() > 0 && base.last() != '/' {
        base + seq!['/'] + part
    } else {
        base + part
    }
}

/// Adjoins `part` to `base`.
pub fn join(base: &str, part: &str) -> (r: String)
    ensures
        r@ == joined(base@, part@),
{
    let b = to_chars(base);
    let p = to_chars(part);
    let mut out = String::new();
    if p.len() > 0 && p[0] == '/' {
        append_str(&mut out, part);
        assert(Seq::<char>::empty() + part@ =~= part@);
    } else if b.len() > 0 && b[b.len() - 1] != '/' {
        append_str(&mut out, base);
        append_str(&mut out, "/");
        append_str(&mut out, part);
        proof {
            reveal_strlit("/");
            assert("/"@ =~= seq!['/']);
            assert(Seq::<char>::empty() + base@ + "/"@ + part@ =~= base@ + seq!['/'] + part@);
        }
    } else {
        append_str(&mut out, base);
        append_str(&mut out, part);
        assert(Seq::<char>::empty() + base@ + part@ =~= base@ + part@);
    }
    out
}

/// Joining where the second part is relative and the first does not end in
/// a separator comes to writing one `/` between the two.
pub proof fn lemma_joined_plain(base: Seq<char>, part: Seq<char>)
    requires
        base.len() > 0,
        base.last() != '/',
        part.len() == 0 || part[0] != '/',
    ensures
        joined(base, part) == base + seq!['/'] + part,
{
}

} // verus!
