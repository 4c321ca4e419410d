use crate::error::DAError;
use crate::json::{child, take_child, JsonTree, JsonValue};
use vstd::prelude::*;
use vstd::string::*;

verus! {

/// The segment in progress, as a list: empty when nothing is pending.
pub open spec fn pending(cur: Seq<char>) -> Seq<Seq<char>> {
    if cur.len() == 0 {
        Seq::empty()
    } else {
        seq![cur]
    }
}

/// The segments of `p` after a segment `cur` that is already in progress:
/// the non-empty runs of characters between slashes, in order.
pub open spec fn pieces(p: Seq<char>, cur: Seq<char>) -> Seq<Seq<char>>
    decreases p.len(),
{
    if p.len() == 0 {
        pending(cur)
    } else if p[0] == '/' {
        pending(cur) + pieces(p.drop_first(), Seq::empty())
    } else {
        pieces(p.drop_first(), cur.push(p[0]))
    }
}

/// The segments of a slash-delimited path. Empty segments are skipped, so
/// that `""` and `"/"` both address the root.
pub open spec fn segments(p: Seq<char>) -> Seq<Seq<char>> {
    pieces(p, Seq::empty())
}

/// The value reached from `v` by looking up each key of `segs` in turn.
pub open spec fn resolve(v: JsonValue, segs: Seq<Seq<char>>) -> Option<JsonValue>
    decreases segs.len(),
{
    if segs.len() == 0 {
        Some(v)
    } else {
        match child(v, segs[0]) {
            Some(c) => resolve(c, segs.drop_first()),
            None => None,
        }
    }
}

/// The value addressed by the path `p` inside `v`, if every segment resolves.
pub open spec fn extracted(v: JsonValue, p: Seq<char>) -> Option<JsonValue> {
    resolve(v, segments(p))
}

/// Resolving a pending segment first and the rest after it.
proof fn lemma_resolve_pending(v: JsonValue, cur: Seq<char>, rest: Seq<Seq<char>>)
    ensures
        resolve(v, pending(cur) + rest) == (if cur.len() == 0 {
            resolve(v, rest)
        } else {
            match child(v, cur) {
                Some(c) => resolve(c, rest),
                None => None,
            }
        }),
{
    if cur.len() == 0 {
        assert(pending(cur) + rest =~= rest);
    } else {
        let s = pending(cur) + rest;
        assert(s[0] == cur);
        assert(s.drop_first() =~= rest);
    }
}

/// Looks up the segment `path[start..end]` in `node`.
fn step(node: JsonTree, path: &str, start: usize, end: usize) -> (r: Option<JsonTree>)
    requires
        start < end <= path@.len(),
    ensures
        match child(node@, path@.subrange(start as int, end as int)) {
            Some(v) => r is Some && r->0@ == v,
            None => r is None,
        },
{
    let key = String::from_str(path.substring_char(start, end));
    take_child(node, &key)
}

/// Walks `tree` along the slash-delimited `path`, looking up each segment
/// as a key of a mapping, and returns the value reached.
///
/// Fails with `NoSuchFieldError` as soon as a segment is missing or meets a
/// value that is not a mapping; nothing else is returned in that case.
pub fn extract(tree: JsonTree, path: &str) -> (r: Result<JsonTree, DAError>)
    ensures
        match extracted(tree@, path@) {
            Some(v) => r is Ok && r->Ok_0@ == v,
            None => r == Err::<JsonTree, DAError>(DAError::NoSuchFieldError),
        },
{
    let ghost p = path@;
    let n = path.unicode_len();
    let mut node = tree;
    let mut start: usize = 0;
    let mut i: usize = 0;
    assert(p.skip(0) =~= p);
    assert(p.subrange(0, 0) =~= Seq::<char>::empty());
    while i < n
        invariant
            n == p.len(),
            p == path@,
            start <= i <= n,
            extracted(tree@, p) == resolve(node@, pieces(p.skip(i as int), p.subrange(start as int, i as int))),
        decreases n - i,
    {
        let c = path.get_char(i);
        let ghost cur = p.subrange(start as int, i as int);
        let ghost rest = p.skip(i as int);
        assert(rest.drop_first() =~= p.skip(i + 1));
        if c == '/' {
            proof {
                lemma_resolve_pending(node@, cur, pieces(p.skip(i + 1), Seq::empty()));
            }
            if start < i {
                match step(node, path, start, i) {
                    Some(next) => node = next,
                    None => return Err(DAError::NoSuchFieldError),
                }
            }
            start = i + 1;
            assert(p.subrange(start as int, start as int) =~= Seq::<char>::empty());
        } else {
            assert(cur.push(c) =~= p.subrange(start as int, i + 1));
        }
        i += 1;
    }
    let ghost cur = p.subrange(start as int, n as int);
    assert(p.skip(n as int) =~= Seq::<char>::empty());
    proof {
        lemma_resolve_pending(node@, cur, Seq::empty());
        assert(pending(cur) + Seq::<Seq<char>>::empty() =~= pending(cur));
    }
    if start < n {
        match step(node, path, start, n) {
            Some(next) => node = next,
            None => return Err(DAError::NoSuchFieldError),
        }
    }
    Ok(node)
}

} // verus!
