//! Path validation: keeps traversal abuse (`..` escaping above the root)
//! out of plans while allowing any directory of the filesystem.
//!
//! An absolute path that already exists is accepted as it stands; one that
//! does not exist yet is walked component by component with a depth
//! counter, and rejected when a `..` would step above the root. A relative
//! path is first joined to the working directory and structurally
//! normalized (`.` dropped, `..` popping the previous component).

use vstd::prelude::*;
use crate::text;
use crate::types::{clone_string, CoreError};
use crate::fs_model::{slookup, EntryV, FsState};

verus! {

/// The path begins at the root.
pub open spec fn is_abs(p: Seq<char>) -> bool {
    p.len() > 0 && p[0] == '/'
}

/// The segments of `p`, split at every `/`. Splitting the empty sequence
/// yields one empty segment, as splitting always yields one segment more
/// than there are separators.
pub open spec fn split_slash(p: Seq<char>) -> Seq<Seq<char>>
    decreases p.len(),
{
    if p.len() == 0 {
        seq![Seq::empty()]
    } else if p.last() == '/' {
        split_slash(p.drop_last()).push(Seq::empty())
    } else {
        let s = split_slash(p.drop_last());
        s.update(s.len() - 1, s.last().push(p.last()))
    }
}

/// Walk segments with a depth counter: `..` steps up and must never pass
/// the root, `.` and empty segments change nothing, anything else steps
/// down. True iff the walk never leaves the root.
pub open spec fn depth_walk(segs: Seq<Seq<char>>, depth: int) -> bool
    decreases segs.len(),
{
    if segs.len() == 0 {
        true
    } else {
        let s = segs[0];
        if s == ".."@ {
            depth > 0 && depth_walk(segs.drop_first(), depth - 1)
        } else if s.len() == 0 || s == "."@ {
            depth_walk(segs.drop_first(), depth)
        } else {
            depth_walk(segs.drop_first(), depth + 1)
        }
    }
}

/// Structural normalization: `.` and empty segments vanish, `..` pops the
/// previous component (or vanishes at the top), anything else stays.
pub open spec fn norm_segs(segs: Seq<Seq<char>>) -> Seq<Seq<char>>
    decreases segs.len(),
{
    if segs.len() == 0 {
        Seq::empty()
    } else {
        let pre = norm_segs(segs.drop_last());
        let s = segs.last();
        if s.len() == 0 || s == "."@ {
            pre
        } else if s == ".."@ {
            if pre.len() == 0 {
                pre
            } else {
                pre.drop_last()
            }
        } else {
            pre.push(s)
        }
    }
}

/// Segments joined with `/` between them.
pub open spec fn join_inner(segs: Seq<Seq<char>>) -> Seq<char>
    decreases segs.len(),
{
    if segs.len() == 0 {
        Seq::empty()
    } else if segs.len() == 1 {
        segs[0]
    } else {
        join_inner(segs.drop_last()) + seq!['/'] + segs.last()
    }
}

/// `p` resolved against the working directory: absolute paths pass
/// through, relative ones are appended to `cwd`.
pub open spec fn resolve_seq(p: Seq<char>, cwd: Seq<char>) -> Seq<char> {
    if is_abs(p) {
        p
    } else if cwd.len() > 0 && cwd.last() == '/' {
        cwd + p
    } else {
        cwd + seq!['/'] + p
    }
}

/// Whether the path passes validation against the given entries: an
/// absolute path must exist or walk cleanly; a relative path is always
/// accepted once normalized.
pub open spec fn path_ok(p: Seq<char>, ents: Seq<EntryV>) -> bool {
    if is_abs(p) {
        slookup(ents, p) is Some || depth_walk(split_slash(p.drop_first()), 0)
    } else {
        true
    }
}

/// The path validation returns: the path itself when absolute, the
/// normalized join against the working directory otherwise.
pub open spec fn canonical_of(p: Seq<char>, cwd: Seq<char>) -> Seq<char> {
    if is_abs(p) {
        p
    } else {
        let r = resolve_seq(p, cwd);
        let segs = norm_segs(split_slash(r));
        if is_abs(r) {
            seq!['/'] + join_inner(segs)
        } else {
            join_inner(segs)
        }
    }
}

/// Split a character vector at every `/`.
#[verifier::loop_isolation(false)]
fn split_chars(v: &Vec<char>) -> (r: Vec<Vec<char>>)
    ensures
        r.deep_view() == split_slash(v@),
        r@.len() >= 1,
{
    let n = v.len();
    let mut segs: Vec<Vec<char>> = Vec::new();
    let mut cur: Vec<char> = Vec::new();
    proof {
        assert(v@.subrange(0, 0) =~= Seq::<char>::empty());
        assert(segs.deep_view().push(cur@) =~~= split_slash(v@.subrange(0, 0)));
    }
    for i in 0..n
        invariant
            n == v@.len(),
            split_slash(v@.subrange(0, i as int)) == segs.deep_view().push(cur@),
    {
        let ghost pre = v@.subrange(0, i as int);
        let ghost spre = split_slash(pre);
        let c = v[i];
        proof {
            assert(v@.subrange(0, i + 1 as int).drop_last() =~= pre);
            assert(v@.subrange(0, i + 1 as int).last() == c);
        }
        if c == '/' {
            let ghost old_dv = segs.deep_view();
            segs.push(cur);
            cur = Vec::new();
            proof {
                assert(segs.deep_view() =~~= old_dv.push(spre.last()));
                assert(split_slash(v@.subrange(0, i + 1 as int)) =~~= segs.deep_view().push(
                    cur@,
                ));
            }
        } else {
            cur.push(c);
            proof {
                let s2 = split_slash(v@.subrange(0, i + 1 as int));
                assert(s2 == spre.update(spre.len() - 1, spre.last().push(c)));
                assert(spre.update(spre.len() - 1, spre.last().push(c)) =~~= segs.deep_view().push(
                    cur@,
                ));
            }
        }
    }
    proof {
        assert(v@.subrange(0, n as int) =~= v@);
    }
    let ghost final_dv = segs.deep_view();
    segs.push(cur);
    proof {
        assert(segs.deep_view() =~~= final_dv.push(cur@));
        assert(segs.deep_view() =~~= split_slash(v@));
    }
    segs
}

/// Exec form of [`depth_walk`], starting at depth zero.
#[verifier::loop_isolation(false)]
fn depth_walk_ok(segs: &Vec<Vec<char>>) -> (r: bool)
    ensures
        r == depth_walk(segs.deep_view(), 0),
{
    let n = segs.len();
    let mut depth: u64 = 0;
    proof {
        assert(segs.deep_view().subrange(0, n as int) =~= segs.deep_view());
    }
    for i in 0..n
        invariant
            n == segs@.len(),
            depth <= i,
            depth_walk(segs.deep_view(), 0) == depth_walk(
                segs.deep_view().subrange(i as int, n as int),
                depth as int,
            ),
    {
        let ghost suf = segs.deep_view().subrange(i as int, n as int);
        proof {
            assert(suf[0] == segs.deep_view()[i as int]);
            assert(segs.deep_view()[i as int] =~= segs@[i as int]@);
            assert(suf.drop_first() =~= segs.deep_view().subrange(i + 1, n as int));
        }
        let seg = &segs[i];
        if text::str_eq_chars("..", seg) {
            if depth == 0 {
                return false;
            }
            depth = depth - 1;
        } else if seg.len() == 0 || text::str_eq_chars(".", seg) {
        } else {
            depth = depth + 1;
        }
    }
    proof {
        assert(segs.deep_view().subrange(n as int, n as int) =~= Seq::<Seq<char>>::empty());
    }
    true
}

/// Exec form of [`norm_segs`].
#[verifier::loop_isolation(false)]
fn normalize_segs(segs: Vec<Vec<char>>) -> (r: Vec<Vec<char>>)
    ensures
        r.deep_view() == norm_segs(segs.deep_view()),
{
    let n = segs.len();
    let mut stack: Vec<Vec<char>> = Vec::new();
    proof {
        assert(segs.deep_view().subrange(0, 0) =~= Seq::<Seq<char>>::empty());
        assert(stack.deep_view() =~~= norm_segs(segs.deep_view().subrange(0, 0)));
    }
    for i in 0..n
        invariant
            n == segs@.len(),
            stack.deep_view() == norm_segs(segs.deep_view().subrange(0, i as int)),
    {
        let ghost pre = segs.deep_view().subrange(0, i as int);
        proof {
            assert(segs.deep_view().subrange(0, i + 1 as int).drop_last() =~= pre);
            assert(segs.deep_view().subrange(0, i + 1 as int).last() == segs.deep_view()[i as int]);
            assert(segs.deep_view()[i as int] =~= segs@[i as int]@);
        }
        let seg = &segs[i];
        if seg.len() == 0 || text::str_eq_chars(".", seg) {
        } else if text::str_eq_chars("..", seg) {
            let ghost old_dv = stack.deep_view();
            let popped = stack.pop();
            proof {
                if old_dv.len() > 0 {
                    assert(stack.deep_view() =~~= old_dv.drop_last());
                } else {
                    assert(stack.deep_view() =~~= old_dv);
                }
            }
        } else {
            let ghost old_dv = stack.deep_view();
            let copy = text::subrange_chars(seg, 0, seg.len());
            stack.push(copy);
            proof {
                assert(stack.deep_view() =~~= old_dv.push(segs.deep_view()[i as int]));
            }
        }
    }
    proof {
        assert(segs.deep_view().subrange(0, n as int) =~= segs.deep_view());
    }
    stack
}

/// Exec form of [`join_inner`].
#[verifier::loop_isolation(false)]
fn join_segs(segs: &Vec<Vec<char>>) -> (r: Vec<char>)
    ensures
        r@ == join_inner(segs.deep_view()),
{
    let n = segs.len();
    let mut out: Vec<char> = Vec::new();
    proof {
        assert(segs.deep_view().subrange(0, 0) =~= Seq::<Seq<char>>::empty());
        assert(out@ =~= join_inner(segs.deep_view().subrange(0, 0)));
    }
    for i in 0..n
        invariant
            n == segs@.len(),
            out@ == join_inner(segs.deep_view().subrange(0, i as int)),
    {
        let ghost pre = segs.deep_view().subrange(0, i as int);
        proof {
            assert(segs.deep_view().subrange(0, i + 1 as int).drop_last() =~= pre);
            assert(segs.deep_view().subrange(0, i + 1 as int).last() == segs.deep_view()[i as int]);
            assert(segs.deep_view()[i as int] =~= segs@[i as int]@);
        }
        if i > 0 {
            out.push('/');
        }
        text::push_vec_chars(&mut out, &segs[i]);
        proof {
            if i == 0 {
                assert(segs.deep_view().subrange(0, 1).len() == 1);
                assert(out@ =~= join_inner(segs.deep_view().subrange(0, i + 1 as int)));
            } else {
                assert(out@ =~= join_inner(segs.deep_view().subrange(0, i + 1 as int)));
            }
        }
    }
    proof {
        assert(segs.deep_view().subrange(0, n as int) =~= segs.deep_view());
    }
    out
}

/// Join a possibly relative path to the working directory.
pub fn resolve_chars(p: &Vec<char>, cwd: &str) -> (r: Vec<char>)
    ensures
        r@ == resolve_seq(p@, cwd@),
{
    if p.len() > 0 && p[0] == '/' {
        return text::subrange_chars(p, 0, p.len());
    }
    let cw = text::str_chars(cwd);
    let mut out = text::subrange_chars(&cw, 0, cw.len());
    if !(cw.len() > 0 && cw[cw.len() - 1] == '/') {
        out.push('/');
    }
    text::push_vec_chars(&mut out, p);
    proof {
        assert(out@ =~= resolve_seq(p@, cwd@));
    }
    out
}

/// Validate a path against traversal abuse, resolving relative paths
/// against the model's working directory. An absolute path that exists in
/// the model is accepted as canonical already; one that does not exist is
/// accepted iff its `..` segments never climb above the root. A relative
/// path is joined to the working directory and normalized.
pub fn validate_path(path_str: &String, fs: &FsState) -> (r: Result<String, CoreError>)
    ensures
        match r {
            Ok(c) => path_ok(path_str@, fs@.entries) && c@ == canonical_of(path_str@, fs@.cwd),
            Err(e) => {
                &&& !path_ok(path_str@, fs@.entries)
                &&& e matches CoreError::ValidationFailure { path } && path@ == path_str@
            },
        },
{
    let v = text::str_chars(path_str.as_str());
    if v.len() > 0 && v[0] == '/' {
        if fs.path_exists(path_str) {
            return Ok(clone_string(path_str));
        }
        let tail = text::subrange_chars(&v, 1, v.len());
        proof {
            assert(tail@ =~= path_str@.drop_first());
        }
        let segs = split_chars(&tail);
        if depth_walk_ok(&segs) {
            Ok(clone_string(path_str))
        } else {
            Err(CoreError::ValidationFailure { path: clone_string(path_str) })
        }
    } else {
        let resolved = resolve_chars(&v, fs.cwd.as_str());
        let ghost rseq = resolve_seq(path_str@, fs@.cwd);
        let segs = split_chars(&resolved);
        let normed = normalize_segs(segs);
        let inner = join_segs(&normed);
        let abs = resolved.len() > 0 && resolved[0] == '/';
        let mut out: Vec<char> = Vec::new();
        if abs {
            out.push('/');
        }
        text::push_vec_chars(&mut out, &inner);
        proof {
            assert(out@ =~= canonical_of(path_str@, fs@.cwd));
        }
        Ok(text::chars_to_string(&out))
    }
}

} // verus!
