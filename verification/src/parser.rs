//! The deterministic rule-based parser: free text in, canonical action plan
//! out. Rule families are tried in a fixed precedence order — create-file,
//! read-file, copy-file, move-file, delete-file, create-directory — and the
//! first family that matches wins. A family with a "path missing" form
//! yields an action whose path is the placeholder `__PROMPT_PATH__` with
//! reduced confidence.
//!
//! Matching is substring-based, as in a search: a keyword phrase may begin
//! anywhere in the canonicalized (lower-cased, trimmed) input, keywords are
//! separated by runs of whitespace, and captures run to the end of the
//! input or to the family's separator phrase (`with content`, `to`).

use vstd::prelude::*;
use crate::text::{canon_seq, is_space, matches_at, skip_spaces};
use crate::text;
use crate::types::{
    Action, ActionArgs, ActionCore, ActionMetadata, ActionOrigin, ActionPlan, ActionSchema,
    ActionSource, ActionType, ArgsV, CoreError, PlanCore, Precondition, RISK_HIGH, RISK_LOW,
    RISK_MEDIUM, prompt_path_seq, prompt_path_string,
};
use crate::validator::resolve_seq;
use crate::runtime;

verus! {

/// Confidence of an action parsed with an explicit path, in thousandths.
pub const CONF_PATH: u32 = 900;

/// Confidence of an action whose path is still the placeholder.
pub const CONF_PROMPT: u32 = 700;

/// Confidence of the two actions of a copy sequence, and of a move.
pub const CONF_TWO_STEP: u32 = 850;

// ---------------------------------------------------------------------
// Phrase primitives, spec side.
// ---------------------------------------------------------------------

/// One or more whitespace characters starting at `i`; yields the position
/// after the run.
pub open spec fn ws1(s: Seq<char>, i: int) -> Option<int> {
    if 0 <= i < s.len() && is_space(s[i]) {
        Some(skip_spaces(s, i))
    } else {
        None
    }
}

/// The keyword `w` at `i` followed by at least one whitespace character;
/// yields the position after the whitespace run.
pub open spec fn kw_ws(s: Seq<char>, i: int, w: Seq<char>) -> Option<int> {
    if matches_at(s, i, w) {
        ws1(s, i + w.len())
    } else {
        None
    }
}

/// `w` ws at `i` with a nonempty remainder; yields the capture start.
pub open spec fn hit1_at(s: Seq<char>, i: int, w: Seq<char>) -> Option<int> {
    match kw_ws(s, i, w) {
        None => None,
        Some(cap) => if cap < s.len() {
            Some(cap)
        } else {
            None
        },
    }
}

/// `w1` ws `w2` ws at `i` with a nonempty remainder.
pub open spec fn hit2_at(s: Seq<char>, i: int, w1: Seq<char>, w2: Seq<char>) -> Option<int> {
    match kw_ws(s, i, w1) {
        None => None,
        Some(j) => hit1_at(s, j, w2),
    }
}

/// `w1` ws `w2` ws `w3` ws at `i` with a nonempty remainder.
pub open spec fn hit3_at(
    s: Seq<char>,
    i: int,
    w1: Seq<char>,
    w2: Seq<char>,
    w3: Seq<char>,
) -> Option<int> {
    match kw_ws(s, i, w1) {
        None => None,
        Some(j) => hit2_at(s, j, w2, w3),
    }
}

/// `w1` ws `w2` ending exactly at the end of the input.
pub open spec fn end2_at(s: Seq<char>, i: int, w1: Seq<char>, w2: Seq<char>) -> bool {
    match kw_ws(s, i, w1) {
        None => false,
        Some(j) => matches_at(s, j, w2) && j + w2.len() == s.len(),
    }
}

/// `w1` ws `w2` ws `w3` ending exactly at the end of the input.
pub open spec fn end3_at(s: Seq<char>, i: int, w1: Seq<char>, w2: Seq<char>, w3: Seq<char>) -> bool {
    match kw_ws(s, i, w1) {
        None => false,
        Some(j) => end2_at(s, j, w2, w3),
    }
}

/// Separator `ws+ w ws+` at `q` with a nonempty remainder; yields the
/// position after it.
pub open spec fn sep1_at(s: Seq<char>, q: int, w: Seq<char>) -> Option<int> {
    match ws1(s, q) {
        None => None,
        Some(j) => hit1_at(s, j, w),
    }
}

/// Separator `ws+ w1 ws+ w2 ws+` at `q` with a nonempty remainder.
pub open spec fn sep2_at(s: Seq<char>, q: int, w1: Seq<char>, w2: Seq<char>) -> Option<int> {
    match ws1(s, q) {
        None => None,
        Some(j) => hit2_at(s, j, w1, w2),
    }
}

/// Leftmost separator `ws+ w ws+` at or after `q`; yields its position and
/// the position after it.
pub open spec fn find_sep1(s: Seq<char>, q: int, w: Seq<char>) -> Option<(int, int)>
    decreases s.len() - q,
{
    if q < 0 || q >= s.len() {
        None
    } else {
        match sep1_at(s, q, w) {
            Some(d) => Some((q, d)),
            None => find_sep1(s, q + 1, w),
        }
    }
}

/// Leftmost separator `ws+ w1 ws+ w2 ws+` at or after `q`.
pub open spec fn find_sep2(s: Seq<char>, q: int, w1: Seq<char>, w2: Seq<char>) -> Option<(int, int)>
    decreases s.len() - q,
{
    if q < 0 || q >= s.len() {
        None
    } else {
        match sep2_at(s, q, w1, w2) {
            Some(d) => Some((q, d)),
            None => find_sep2(s, q + 1, w1, w2),
        }
    }
}

/// Leftmost whitespace split at or after `q` whose following run does not
/// reach the end; yields the split position and the position after the run.
pub open spec fn find_wsplit(s: Seq<char>, q: int) -> Option<(int, int)>
    decreases s.len() - q,
{
    if q < 0 || q >= s.len() {
        None
    } else if is_space(s[q]) && skip_spaces(s, q) < s.len() {
        Some((q, skip_spaces(s, q)))
    } else {
        find_wsplit(s, q + 1)
    }
}

// ---------------------------------------------------------------------
// Phrase primitives, exec side.
// ---------------------------------------------------------------------

/// Exec form of [`ws1`].
fn ws1_exec(v: &Vec<char>, i: usize) -> (r: Option<usize>)
    ensures
        match r {
            Some(j) => ws1(v@, i as int) == Some(j as int) && i < j <= v@.len(),
            None => ws1(v@, i as int) is None,
        },
{
    let n = v.len();
    if !(i < n && text::is_space_char(v[i])) {
        return None;
    }
    let mut j = i;
    while j < n && text::is_space_char(v[j])
        invariant
            n == v@.len(),
            i <= j <= n,
            skip_spaces(v@, i as int) == skip_spaces(v@, j as int),
        decreases n - j,
    {
        j = j + 1;
    }
    Some(j)
}

/// Exec form of [`kw_ws`].
fn kw_ws_exec(v: &Vec<char>, i: usize, w: &str) -> (r: Option<usize>)
    requires
        i <= v@.len(),
    ensures
        match r {
            Some(j) => kw_ws(v@, i as int, w@) == Some(j as int) && i <= j <= v@.len(),
            None => kw_ws(v@, i as int, w@) is None,
        },
{
    let n = v.len();
    if !text::word_at(v, i, w) {
        return None;
    }
    let m = w.unicode_len();
    proof {
        assert(i + m <= n);
    }
    ws1_exec(v, i + m)
}

/// Exec form of [`hit1_at`].
fn hit1_exec(v: &Vec<char>, i: usize, w: &str) -> (r: Option<usize>)
    requires
        i <= v@.len(),
    ensures
        match r {
            Some(c) => hit1_at(v@, i as int, w@) == Some(c as int) && c < v@.len(),
            None => hit1_at(v@, i as int, w@) is None,
        },
{
    match kw_ws_exec(v, i, w) {
        None => None,
        Some(cap) => if cap < v.len() {
            Some(cap)
        } else {
            None
        },
    }
}

/// Exec form of [`hit2_at`].
fn hit2_exec(v: &Vec<char>, i: usize, w1: &str, w2: &str) -> (r: Option<usize>)
    requires
        i <= v@.len(),
    ensures
        match r {
            Some(c) => hit2_at(v@, i as int, w1@, w2@) == Some(c as int) && c < v@.len(),
            None => hit2_at(v@, i as int, w1@, w2@) is None,
        },
{
    match kw_ws_exec(v, i, w1) {
        None => None,
        Some(j) => hit1_exec(v, j, w2),
    }
}

/// Exec form of [`hit3_at`].
fn hit3_exec(v: &Vec<char>, i: usize, w1: &str, w2: &str, w3: &str) -> (r: Option<usize>)
    requires
        i <= v@.len(),
    ensures
        match r {
            Some(c) => hit3_at(v@, i as int, w1@, w2@, w3@) == Some(c as int) && c < v@.len(),
            None => hit3_at(v@, i as int, w1@, w2@, w3@) is None,
        },
{
    match kw_ws_exec(v, i, w1) {
        None => None,
        Some(j) => hit2_exec(v, j, w2, w3),
    }
}

/// Exec form of [`end2_at`].
fn end2_exec(v: &Vec<char>, i: usize, w1: &str, w2: &str) -> (r: bool)
    requires
        i <= v@.len(),
    ensures
        r == end2_at(v@, i as int, w1@, w2@),
{
    match kw_ws_exec(v, i, w1) {
        None => false,
        Some(j) => {
            let n = v.len();
            if !text::word_at(v, j, w2) {
                return false;
            }
            let m2 = w2.unicode_len();
            j + m2 == n
        },
    }
}

/// Exec form of [`end3_at`].
fn end3_exec(v: &Vec<char>, i: usize, w1: &str, w2: &str, w3: &str) -> (r: bool)
    requires
        i <= v@.len(),
    ensures
        r == end3_at(v@, i as int, w1@, w2@, w3@),
{
    match kw_ws_exec(v, i, w1) {
        None => false,
        Some(j) => end2_exec(v, j, w2, w3),
    }
}

/// Exec form of [`sep1_at`].
fn sep1_exec(v: &Vec<char>, q: usize, w: &str) -> (r: Option<usize>)
    requires
        q <= v@.len(),
    ensures
        match r {
            Some(d) => sep1_at(v@, q as int, w@) == Some(d as int) && d < v@.len(),
            None => sep1_at(v@, q as int, w@) is None,
        },
{
    match ws1_exec(v, q) {
        None => None,
        Some(j) => hit1_exec(v, j, w),
    }
}

/// Exec form of [`sep2_at`].
fn sep2_exec(v: &Vec<char>, q: usize, w1: &str, w2: &str) -> (r: Option<usize>)
    requires
        q <= v@.len(),
    ensures
        match r {
            Some(d) => sep2_at(v@, q as int, w1@, w2@) == Some(d as int) && d < v@.len(),
            None => sep2_at(v@, q as int, w1@, w2@) is None,
        },
{
    match ws1_exec(v, q) {
        None => None,
        Some(j) => hit2_exec(v, j, w1, w2),
    }
}

/// Exec form of [`find_sep1`].
#[verifier::loop_isolation(false)]
fn find_sep1_exec(v: &Vec<char>, q0: usize, w: &str) -> (r: Option<(usize, usize)>)
    requires
        q0 <= v@.len(),
    ensures
        match r {
            Some(p) => find_sep1(v@, q0 as int, w@) == Some((p.0 as int, p.1 as int)) && q0 <= p.0
                < v@.len() && p.1 < v@.len(),
            None => find_sep1(v@, q0 as int, w@) is None,
        },
{
    let n = v.len();
    let mut q = q0;
    while q < n
        invariant
            q0 <= q <= n,
            find_sep1(v@, q0 as int, w@) == find_sep1(v@, q as int, w@),
        decreases n - q,
    {
        match sep1_exec(v, q, w) {
            Some(d) => {
                return Some((q, d));
            },
            None => {},
        }
        q = q + 1;
    }
    None
}

/// Exec form of [`find_sep2`].
#[verifier::loop_isolation(false)]
fn find_sep2_exec(v: &Vec<char>, q0: usize, w1: &str, w2: &str) -> (r: Option<(usize, usize)>)
    requires
        q0 <= v@.len(),
    ensures
        match r {
            Some(p) => find_sep2(v@, q0 as int, w1@, w2@) == Some((p.0 as int, p.1 as int)) && q0
                <= p.0 < v@.len() && p.1 < v@.len(),
            None => find_sep2(v@, q0 as int, w1@, w2@) is None,
        },
{
    let n = v.len();
    let mut q = q0;
    while q < n
        invariant
            q0 <= q <= n,
            find_sep2(v@, q0 as int, w1@, w2@) == find_sep2(v@, q as int, w1@, w2@),
        decreases n - q,
    {
        match sep2_exec(v, q, w1, w2) {
            Some(d) => {
                return Some((q, d));
            },
            None => {},
        }
        q = q + 1;
    }
    None
}

/// Exec form of [`find_wsplit`].
#[verifier::loop_isolation(false)]
fn find_wsplit_exec(v: &Vec<char>, q0: usize) -> (r: Option<(usize, usize)>)
    requires
        q0 <= v@.len(),
    ensures
        match r {
            Some(p) => find_wsplit(v@, q0 as int) == Some((p.0 as int, p.1 as int)) && q0 <= p.0
                < v@.len() && p.0 < p.1 < v@.len(),
            None => find_wsplit(v@, q0 as int) is None,
        },
{
    let n = v.len();
    let mut q = q0;
    while q < n
        invariant
            q0 <= q <= n,
            find_wsplit(v@, q0 as int) == find_wsplit(v@, q as int),
        decreases n - q,
    {
        if text::is_space_char(v[q]) {
            match ws1_exec(v, q) {
                Some(j) => {
                    if j < n {
                        return Some((q, j));
                    }
                    proof {
                        assert(skip_spaces(v@, q as int) == j as int);
                    }
                },
                None => {
                    proof {
                        assert(false);
                    }
                },
            }
        }
        q = q + 1;
    }
    None
}

// ---------------------------------------------------------------------
// Leftmost pattern searches.
// ---------------------------------------------------------------------

/// Leftmost `w` ws capture at or after `i`.
pub open spec fn find_hit1(s: Seq<char>, i: int, w: Seq<char>) -> Option<int>
    decreases s.len() - i,
{
    if i < 0 || i >= s.len() {
        None
    } else {
        match hit1_at(s, i, w) {
            Some(c) => Some(c),
            None => find_hit1(s, i + 1, w),
        }
    }
}

/// Leftmost `w1` ws `w2` ws capture at or after `i`.
pub open spec fn find_hit2(s: Seq<char>, i: int, w1: Seq<char>, w2: Seq<char>) -> Option<int>
    decreases s.len() - i,
{
    if i < 0 || i >= s.len() {
        None
    } else {
        match hit2_at(s, i, w1, w2) {
            Some(c) => Some(c),
            None => find_hit2(s, i + 1, w1, w2),
        }
    }
}

/// Leftmost `w1` ws `w2` ws `w3` ws capture at or after `i`.
pub open spec fn find_hit3(
    s: Seq<char>,
    i: int,
    w1: Seq<char>,
    w2: Seq<char>,
    w3: Seq<char>,
) -> Option<int>
    decreases s.len() - i,
{
    if i < 0 || i >= s.len() {
        None
    } else {
        match hit3_at(s, i, w1, w2, w3) {
            Some(c) => Some(c),
            None => find_hit3(s, i + 1, w1, w2, w3),
        }
    }
}

/// Exec form of [`find_hit1`].
#[verifier::loop_isolation(false)]
fn find_hit1_exec(v: &Vec<char>, w: &str) -> (r: Option<usize>)
    ensures
        match r {
            Some(c) => find_hit1(v@, 0, w@) == Some(c as int) && c < v@.len(),
            None => find_hit1(v@, 0, w@) is None,
        },
{
    let n = v.len();
    let mut i: usize = 0;
    while i < n
        invariant
            0 <= i <= n,
            find_hit1(v@, 0, w@) == find_hit1(v@, i as int, w@),
        decreases n - i,
    {
        match hit1_exec(v, i, w) {
            Some(c) => {
                return Some(c);
            },
            None => {},
        }
        i = i + 1;
    }
    None
}

/// Exec form of [`find_hit2`].
#[verifier::loop_isolation(false)]
fn find_hit2_exec(v: &Vec<char>, w1: &str, w2: &str) -> (r: Option<usize>)
    ensures
        match r {
            Some(c) => find_hit2(v@, 0, w1@, w2@) == Some(c as int) && c < v@.len(),
            None => find_hit2(v@, 0, w1@, w2@) is None,
        },
{
    let n = v.len();
    let mut i: usize = 0;
    while i < n
        invariant
            0 <= i <= n,
            find_hit2(v@, 0, w1@, w2@) == find_hit2(v@, i as int, w1@, w2@),
        decreases n - i,
    {
        match hit2_exec(v, i, w1, w2) {
            Some(c) => {
                return Some(c);
            },
            None => {},
        }
        i = i + 1;
    }
    None
}

/// Exec form of [`find_hit3`].
#[verifier::loop_isolation(false)]
fn find_hit3_exec(v: &Vec<char>, w1: &str, w2: &str, w3: &str) -> (r: Option<usize>)
    ensures
        match r {
            Some(c) => find_hit3(v@, 0, w1@, w2@, w3@) == Some(c as int) && c < v@.len(),
            None => find_hit3(v@, 0, w1@, w2@, w3@) is None,
        },
{
    let n = v.len();
    let mut i: usize = 0;
    while i < n
        invariant
            0 <= i <= n,
            find_hit3(v@, 0, w1@, w2@, w3@) == find_hit3(v@, i as int, w1@, w2@, w3@),
        decreases n - i,
    {
        match hit3_exec(v, i, w1, w2, w3) {
            Some(c) => {
                return Some(c);
            },
            None => {},
        }
        i = i + 1;
    }
    None
}

// ---------------------------------------------------------------------
// The create-file family.
// ---------------------------------------------------------------------

/// The "path missing" forms of the create-file family: the phrase ends the
/// input with no room for a path.
pub open spec fn create_missing_at(s: Seq<char>, i: int) -> bool {
    end2_at(s, i, "create"@, "file"@) || end3_at(s, i, "create"@, "a"@, "file"@) || end2_at(
        s,
        i,
        "new"@,
        "file"@,
    )
}

/// Some position starts a "path missing" create phrase.
pub open spec fn create_missing(s: Seq<char>) -> bool {
    exists|i: int| 0 <= i < s.len() && create_missing_at(s, i)
}

/// The capture start of the first matching create pattern, patterns tried
/// in order.
pub open spec fn create_cap(s: Seq<char>) -> Option<int> {
    match find_hit2(s, 0, "create"@, "file"@) {
        Some(c) => Some(c),
        None => match find_hit3(s, 0, "create"@, "a"@, "file"@) {
            Some(c) => Some(c),
            None => find_hit2(s, 0, "new"@, "file"@),
        },
    }
}

/// The create-file family matches the input.
pub open spec fn create_applies(s: Seq<char>) -> bool {
    create_missing(s) || create_cap(s) is Some
}

/// Split a capture at the first `with content` separator after it: the
/// path part, and the content part when the separator occurs.
pub open spec fn split_content(s: Seq<char>, cap: int) -> (Seq<char>, Option<Seq<char>>) {
    match find_sep2(s, cap + 1, "with"@, "content"@) {
        Some(p) => (s.subrange(cap, p.0), Some(s.subrange(p.1, s.len() as int))),
        None => (s.subrange(cap, s.len() as int), None),
    }
}

/// The preconditions the parser attaches to a create-file action.
pub open spec fn pre_create() -> Precondition {
    Precondition { writable: Some(true), readable: None, exists: Some(false), directory: None }
}

/// The preconditions the parser attaches to a read-file action.
pub open spec fn pre_read() -> Precondition {
    Precondition { writable: None, readable: Some(true), exists: Some(true), directory: None }
}

/// The preconditions the parser attaches to a move action.
pub open spec fn pre_move() -> Precondition {
    Precondition { writable: Some(true), readable: None, exists: Some(true), directory: None }
}

/// The preconditions the parser attaches to a delete action.
pub open spec fn pre_delete() -> Precondition {
    Precondition { writable: None, readable: None, exists: Some(true), directory: None }
}

/// The preconditions the parser attaches to a create-directory action.
pub open spec fn pre_mkdir() -> Precondition {
    Precondition {
        writable: Some(true),
        readable: None,
        exists: Some(false),
        directory: Some(false),
    }
}

/// The id-free create-file action parsed from `s`.
pub open spec fn create_action(s: Seq<char>, cwd: Seq<char>) -> ActionCore {
    if create_missing(s) {
        ActionCore {
            action_type: ActionType::FsCreateFile,
            args: ArgsV::CreateFile {
                path: prompt_path_seq(),
                content: Seq::empty(),
                encoding: "utf-8"@,
            },
            preconditions: Some(pre_create()),
            metadata: Some(ActionMetadata { confidence: Some(CONF_PROMPT) }),
        }
    } else {
        match create_cap(s) {
            Some(cap) => {
                let pc = split_content(s, cap);
                ActionCore {
                    action_type: ActionType::FsCreateFile,
                    args: ArgsV::CreateFile {
                        path: resolve_seq(pc.0, cwd),
                        content: match pc.1 {
                            Some(c) => c,
                            None => Seq::empty(),
                        },
                        encoding: "utf-8"@,
                    },
                    preconditions: Some(pre_create()),
                    metadata: Some(ActionMetadata { confidence: Some(CONF_PATH) }),
                }
            },
            None => ActionCore {
                action_type: ActionType::FsCreateFile,
                args: ArgsV::CreateFile {
                    path: prompt_path_seq(),
                    content: Seq::empty(),
                    encoding: "utf-8"@,
                },
                preconditions: Some(pre_create()),
                metadata: Some(ActionMetadata { confidence: Some(CONF_PROMPT) }),
            },
        }
    }
}

/// Exec check of [`create_missing`].
#[verifier::loop_isolation(false)]
fn create_missing_exec(v: &Vec<char>) -> (r: bool)
    ensures
        r == create_missing(v@),
{
    let n = v.len();
    let mut i: usize = 0;
    while i < n
        invariant
            0 <= i <= n,
            forall|k: int| 0 <= k < i ==> !create_missing_at(v@, k),
        decreases n - i,
    {
        if end2_exec(v, i, "create", "file") || end3_exec(v, i, "create", "a", "file")
            || end2_exec(v, i, "new", "file") {
            proof {
                assert(create_missing_at(v@, i as int));
            }
            return true;
        }
        i = i + 1;
    }
    false
}

/// Parse the create-file family.
fn parse_create_file(v: &Vec<char>, cwd: &str) -> (r: Option<Action>)
    ensures
        match r {
            Some(a) => create_applies(v@) && a.skeleton() == create_action(v@, cwd@),
            None => !create_applies(v@),
        },
{
    if create_missing_exec(v) {
        return Some(prompt_action(ActionType::FsCreateFile));
    }
    let cap = match find_hit2_exec(v, "create", "file") {
        Some(c) => c,
        None => match find_hit3_exec(v, "create", "a", "file") {
            Some(c) => c,
            None => match find_hit2_exec(v, "new", "file") {
                Some(c) => c,
                None => {
                    return None;
                },
            },
        },
    };
    let n = v.len();
    let (pend, content) = match find_sep2_exec(v, cap + 1, "with", "content") {
        Some((q, cs)) => (
            q,
            text::chars_to_string(&text::subrange_chars(v, cs, n)),
        ),
        None => (n, String::new()),
    };
    let praw = text::subrange_chars(v, cap, pend);
    let resolved = crate::validator::resolve_chars(&praw, cwd);
    let path = text::chars_to_string(&resolved);
    let a = Action {
        id: runtime::fresh_id(),
        action_type: ActionType::FsCreateFile,
        args: ActionArgs::CreateFile { path, content, encoding: "utf-8".to_owned() },
        preconditions: Some(
            Precondition {
                writable: Some(true),
                readable: None,
                exists: Some(false),
                directory: None,
            },
        ),
        metadata: Some(ActionMetadata { confidence: Some(CONF_PATH) }),
    };
    Some(a)
}

/// A fresh action of the given kind whose path is the placeholder.
fn prompt_action(t: ActionType) -> (a: Action)
    requires
        t == ActionType::FsCreateFile || t == ActionType::FsReadFile || t
            == ActionType::FsDeleteFile,
    ensures
        a.skeleton() == prompt_core(t),
{
    let args = match t {
        ActionType::FsCreateFile => ActionArgs::CreateFile {
            path: prompt_path_string(),
            content: String::new(),
            encoding: "utf-8".to_owned(),
        },
        ActionType::FsReadFile => ActionArgs::ReadFile { path: prompt_path_string() },
        _ => ActionArgs::DeleteFile { path: prompt_path_string() },
    };
    let preconditions = match t {
        ActionType::FsCreateFile => Precondition {
            writable: Some(true),
            readable: None,
            exists: Some(false),
            directory: None,
        },
        ActionType::FsReadFile => Precondition {
            writable: None,
            readable: Some(true),
            exists: Some(true),
            directory: None,
        },
        _ => Precondition { writable: None, readable: None, exists: Some(true), directory: None },
    };
    Action {
        id: runtime::fresh_id(),
        action_type: t,
        args,
        preconditions: Some(preconditions),
        metadata: Some(ActionMetadata { confidence: Some(CONF_PROMPT) }),
    }
}

// ---------------------------------------------------------------------
// The read-file family.
// ---------------------------------------------------------------------

/// A "path missing" read phrase at `i`.
pub open spec fn read_missing_at(s: Seq<char>, i: int) -> bool {
    end2_at(s, i, "read"@, "file"@) || end2_at(s, i, "open"@, "file"@) || end2_at(
        s,
        i,
        "show"@,
        "file"@,
    ) || end2_at(s, i, "view"@, "file"@) || end2_at(s, i, "display"@, "file"@)
}

/// Some position starts a "path missing" read phrase.
pub open spec fn read_missing(s: Seq<char>) -> bool {
    exists|i: int| 0 <= i < s.len() && read_missing_at(s, i)
}

/// A `kw file <path>` read phrase at `i`, any of the five read keywords.
pub open spec fn read1_at(s: Seq<char>, i: int) -> Option<int> {
    match hit2_at(s, i, "read"@, "file"@) {
        Some(c) => Some(c),
        None => match hit2_at(s, i, "open"@, "file"@) {
            Some(c) => Some(c),
            None => match hit2_at(s, i, "show"@, "file"@) {
                Some(c) => Some(c),
                None => match hit2_at(s, i, "view"@, "file"@) {
                    Some(c) => Some(c),
                    None => hit2_at(s, i, "display"@, "file"@),
                },
            },
        },
    }
}

/// A `kw <path>` read phrase at `i`.
pub open spec fn read2_at(s: Seq<char>, i: int) -> Option<int> {
    match hit1_at(s, i, "read"@) {
        Some(c) => Some(c),
        None => match hit1_at(s, i, "open"@) {
            Some(c) => Some(c),
            None => match hit1_at(s, i, "show"@) {
                Some(c) => Some(c),
                None => match hit1_at(s, i, "view"@) {
                    Some(c) => Some(c),
                    None => hit1_at(s, i, "display"@),
                },
            },
        },
    }
}

/// Leftmost [`read1_at`] hit at or after `i`.
pub open spec fn find_read1(s: Seq<char>, i: int) -> Option<int>
    decreases s.len() - i,
{
    if i < 0 || i >= s.len() {
        None
    } else {
        match read1_at(s, i) {
            Some(c) => Some(c),
            None => find_read1(s, i + 1),
        }
    }
}

/// Leftmost [`read2_at`] hit at or after `i`.
pub open spec fn find_read2(s: Seq<char>, i: int) -> Option<int>
    decreases s.len() - i,
{
    if i < 0 || i >= s.len() {
        None
    } else {
        match read2_at(s, i) {
            Some(c) => Some(c),
            None => find_read2(s, i + 1),
        }
    }
}

/// Capture of the first matching read pattern.
pub open spec fn read_cap(s: Seq<char>) -> Option<int> {
    match find_read1(s, 0) {
        Some(c) => Some(c),
        None => find_read2(s, 0),
    }
}

/// The read-file family matches the input.
pub open spec fn read_applies(s: Seq<char>) -> bool {
    read_missing(s) || read_cap(s) is Some
}

/// The id-free read-file action parsed from `s`.
pub open spec fn read_action(s: Seq<char>, cwd: Seq<char>) -> ActionCore {
    if read_missing(s) {
        prompt_core(ActionType::FsReadFile)
    } else {
        match read_cap(s) {
            Some(cap) => ActionCore {
                action_type: ActionType::FsReadFile,
                args: ArgsV::ReadFile {
                    path: resolve_seq(s.subrange(cap, s.len() as int), cwd),
                },
                preconditions: Some(pre_read()),
                metadata: Some(ActionMetadata { confidence: Some(CONF_PATH) }),
            },
            None => prompt_core(ActionType::FsReadFile),
        }
    }
}

/// Exec check of [`read_missing`].
#[verifier::loop_isolation(false)]
fn read_missing_exec(v: &Vec<char>) -> (r: bool)
    ensures
        r == read_missing(v@),
{
    let n = v.len();
    let mut i: usize = 0;
    while i < n
        invariant
            0 <= i <= n,
            forall|k: int| 0 <= k < i ==> !read_missing_at(v@, k),
        decreases n - i,
    {
        if end2_exec(v, i, "read", "file") || end2_exec(v, i, "open", "file") || end2_exec(
            v,
            i,
            "show",
            "file",
        ) || end2_exec(v, i, "view", "file") || end2_exec(v, i, "display", "file") {
            proof {
                assert(read_missing_at(v@, i as int));
            }
            return true;
        }
        i = i + 1;
    }
    false
}

/// Exec form of [`read1_at`].
fn read1_exec(v: &Vec<char>, i: usize) -> (r: Option<usize>)
    requires
        i <= v@.len(),
    ensures
        match r {
            Some(c) => read1_at(v@, i as int) == Some(c as int) && c < v@.len(),
            None => read1_at(v@, i as int) is None,
        },
{
    match hit2_exec(v, i, "read", "file") {
        Some(c) => Some(c),
        None => match hit2_exec(v, i, "open", "file") {
            Some(c) => Some(c),
            None => match hit2_exec(v, i, "show", "file") {
                Some(c) => Some(c),
                None => match hit2_exec(v, i, "view", "file") {
                    Some(c) => Some(c),
                    None => hit2_exec(v, i, "display", "file"),
                },
            },
        },
    }
}

/// Exec form of [`read2_at`].
fn read2_exec(v: &Vec<char>, i: usize) -> (r: Option<usize>)
    requires
        i <= v@.len(),
    ensures
        match r {
            Some(c) => read2_at(v@, i as int) == Some(c as int) && c < v@.len(),
            None => read2_at(v@, i as int) is None,
        },
{
    match hit1_exec(v, i, "read") {
        Some(c) => Some(c),
        None => match hit1_exec(v, i, "open") {
            Some(c) => Some(c),
            None => match hit1_exec(v, i, "show") {
                Some(c) => Some(c),
                None => match hit1_exec(v, i, "view") {
                    Some(c) => Some(c),
                    None => hit1_exec(v, i, "display"),
                },
            },
        },
    }
}

/// Parse the read-file family.
#[verifier::loop_isolation(false)]
fn parse_read_file(v: &Vec<char>, cwd: &str) -> (r: Option<Action>)
    ensures
        match r {
            Some(a) => read_applies(v@) && a.skeleton() == read_action(v@, cwd@),
            None => !read_applies(v@),
        },
{
    if read_missing_exec(v) {
        return Some(prompt_action(ActionType::FsReadFile));
    }
    let n = v.len();
    let mut cap_opt: Option<usize> = None;
    let mut i: usize = 0;
    while i < n
        invariant
            0 <= i <= n,
            cap_opt is None,
            find_read1(v@, 0) == find_read1(v@, i as int),
        decreases n - i,
    {
        match read1_exec(v, i) {
            Some(c) => {
                cap_opt = Some(c);
                break;
            },
            None => {},
        }
        i = i + 1;
    }
    if cap_opt.is_none() {
        let mut j: usize = 0;
        while j < n
            invariant
                0 <= j <= n,
                cap_opt is None,
                find_read1(v@, 0) is None,
                find_read2(v@, 0) == find_read2(v@, j as int),
            decreases n - j,
        {
            match read2_exec(v, j) {
                Some(c) => {
                    cap_opt = Some(c);
                    break;
                },
                None => {},
            }
            j = j + 1;
        }
    }
    let cap = match cap_opt {
        Some(c) => c,
        None => {
            return None;
        },
    };
    proof {
        assert(read_cap(v@) == Some(cap as int));
        assert(cap < v@.len());
    }
    let praw = text::subrange_chars(v, cap, n);
    let resolved = crate::validator::resolve_chars(&praw, cwd);
    let path = text::chars_to_string(&resolved);
    let a = Action {
        id: runtime::fresh_id(),
        action_type: ActionType::FsReadFile,
        args: ActionArgs::ReadFile { path },
        preconditions: Some(
            Precondition {
                writable: None,
                readable: Some(true),
                exists: Some(true),
                directory: None,
            },
        ),
        metadata: Some(ActionMetadata { confidence: Some(CONF_PATH) }),
    };
    Some(a)
}

// ---------------------------------------------------------------------
// The copy-file and move-file families.
// ---------------------------------------------------------------------

/// A capture with a mandatory ` to ` separator after it: the source span
/// and the destination start.
pub open spec fn to_tail(s: Seq<char>, cap: int) -> Option<(int, int, int)> {
    match find_sep1(s, cap + 1, "to"@) {
        Some(p) => Some((cap, p.0, p.1)),
        None => None,
    }
}

/// `w` ws, an optional `file` ws, then a source, ` to `, destination.
pub open spec fn kw_to_at(s: Seq<char>, i: int, w: Seq<char>) -> Option<(int, int, int)> {
    match kw_ws(s, i, w) {
        None => None,
        Some(j) => {
            let with_file = match kw_ws(s, j, "file"@) {
                Some(k) => to_tail(s, k),
                None => None,
            };
            if with_file is Some {
                with_file
            } else {
                to_tail(s, j)
            }
        },
    }
}

/// `w` ws, a source up to the first whitespace run, an optional `to` ws,
/// then the destination.
pub open spec fn kw_split_at(s: Seq<char>, i: int, w: Seq<char>) -> Option<(int, int, int)> {
    match kw_ws(s, i, w) {
        None => None,
        Some(cap) => match find_wsplit(s, cap + 1) {
            None => None,
            Some(p) => {
                let j = p.1;
                let d = if matches_at(s, j, "to"@) {
                    match ws1(s, j + 2) {
                        Some(ds) => if ds < s.len() {
                            ds
                        } else {
                            j
                        },
                        None => j,
                    }
                } else {
                    j
                };
                Some((cap, p.0, d))
            },
        },
    }
}

/// Leftmost `copy … to …` hit.
pub open spec fn find_copy1(s: Seq<char>, i: int) -> Option<(int, int, int)>
    decreases s.len() - i,
{
    if i < 0 || i >= s.len() {
        None
    } else {
        match kw_to_at(s, i, "copy"@) {
            Some(h) => Some(h),
            None => find_copy1(s, i + 1),
        }
    }
}

/// Leftmost `copy <src> <dst>` hit.
pub open spec fn find_copy2(s: Seq<char>, i: int) -> Option<(int, int, int)>
    decreases s.len() - i,
{
    if i < 0 || i >= s.len() {
        None
    } else {
        match kw_split_at(s, i, "copy"@) {
            Some(h) => Some(h),
            None => find_copy2(s, i + 1),
        }
    }
}

/// The first matching copy pattern.
pub open spec fn copy_hit(s: Seq<char>) -> Option<(int, int, int)> {
    match find_copy1(s, 0) {
        Some(h) => Some(h),
        None => find_copy2(s, 0),
    }
}

/// The copy-file family matches the input.
pub open spec fn copy_applies(s: Seq<char>) -> bool {
    copy_hit(s) is Some
}

/// A `move`/`rename` phrase with a ` to ` separator at `i`.
pub open spec fn move1_at(s: Seq<char>, i: int) -> Option<(int, int, int)> {
    match kw_to_at(s, i, "move"@) {
        Some(h) => Some(h),
        None => kw_to_at(s, i, "rename"@),
    }
}

/// Leftmost [`move1_at`] hit.
pub open spec fn find_move1(s: Seq<char>, i: int) -> Option<(int, int, int)>
    decreases s.len() - i,
{
    if i < 0 || i >= s.len() {
        None
    } else {
        match move1_at(s, i) {
            Some(h) => Some(h),
            None => find_move1(s, i + 1),
        }
    }
}

/// Leftmost `rename <src> <dst>` hit.
pub open spec fn find_rename2(s: Seq<char>, i: int) -> Option<(int, int, int)>
    decreases s.len() - i,
{
    if i < 0 || i >= s.len() {
        None
    } else {
        match kw_split_at(s, i, "rename"@) {
            Some(h) => Some(h),
            None => find_rename2(s, i + 1),
        }
    }
}

/// The first matching move pattern.
pub open spec fn move_hit(s: Seq<char>) -> Option<(int, int, int)> {
    match find_move1(s, 0) {
        Some(h) => Some(h),
        None => find_rename2(s, 0),
    }
}

/// The move-file family matches the input.
pub open spec fn move_applies(s: Seq<char>) -> bool {
    move_hit(s) is Some
}

/// The id-free read half of a parsed copy sequence.
pub open spec fn copy_read_action(s: Seq<char>, cwd: Seq<char>) -> ActionCore {
    match copy_hit(s) {
        Some(h) => ActionCore {
            action_type: ActionType::FsReadFile,
            args: ArgsV::ReadFile { path: resolve_seq(s.subrange(h.0, h.1), cwd) },
            preconditions: Some(pre_read()),
            metadata: Some(ActionMetadata { confidence: Some(CONF_TWO_STEP) }),
        },
        // no hit: callers guard on copy_applies, so this arm is never read
        None => prompt_core(ActionType::FsReadFile),
    }
}

/// The id-free copy half of a parsed copy sequence.
pub open spec fn copy_copy_action(s: Seq<char>, cwd: Seq<char>) -> ActionCore {
    match copy_hit(s) {
        Some(h) => ActionCore {
            action_type: ActionType::FsCopyFile,
            args: ArgsV::CopyFile {
                source_path: resolve_seq(s.subrange(h.0, h.1), cwd),
                destination_path: resolve_seq(s.subrange(h.2, s.len() as int), cwd),
            },
            preconditions: Some(pre_create()),
            metadata: Some(ActionMetadata { confidence: Some(CONF_TWO_STEP) }),
        },
        // no hit: callers guard on copy_applies, so this arm is never read
        None => prompt_core(ActionType::FsReadFile),
    }
}

/// The id-free move action parsed from `s`.
pub open spec fn move_action(s: Seq<char>, cwd: Seq<char>) -> ActionCore {
    match move_hit(s) {
        Some(h) => ActionCore {
            action_type: ActionType::FsMoveFile,
            args: ArgsV::MoveFile {
                source_path: resolve_seq(s.subrange(h.0, h.1), cwd),
                destination_path: resolve_seq(s.subrange(h.2, s.len() as int), cwd),
            },
            preconditions: Some(pre_move()),
            metadata: Some(ActionMetadata { confidence: Some(CONF_TWO_STEP) }),
        },
        // no hit: callers guard on move_applies, so this arm is never read
        None => prompt_core(ActionType::FsReadFile),
    }
}

/// Exec form of [`kw_to_at`].
fn kw_to_exec(v: &Vec<char>, i: usize, w: &str) -> (r: Option<(usize, usize, usize)>)
    requires
        i <= v@.len(),
    ensures
        match r {
            Some(h) => kw_to_at(v@, i as int, w@) == Some((h.0 as int, h.1 as int, h.2 as int))
                && h.0 < h.1 < v@.len() && h.2 < v@.len() && h.0 < v@.len(),
            None => kw_to_at(v@, i as int, w@) is None,
        },
{
    let j = match kw_ws_exec(v, i, w) {
        None => {
            return None;
        },
        Some(j) => j,
    };
    let n = v.len();
    match kw_ws_exec(v, j, "file") {
        Some(k) => {
            if k < n {
                match find_sep1_exec(v, k + 1, "to") {
                    Some((q, d)) => {
                        return Some((k, q, d));
                    },
                    None => {},
                }
            }
        },
        None => {},
    }
    if j >= n {
        return None;
    }
    match find_sep1_exec(v, j + 1, "to") {
        Some((q, d)) => Some((j, q, d)),
        None => None,
    }
}

/// Exec form of [`kw_split_at`].
fn kw_split_exec(v: &Vec<char>, i: usize, w: &str) -> (r: Option<(usize, usize, usize)>)
    requires
        i <= v@.len(),
    ensures
        match r {
            Some(h) => kw_split_at(v@, i as int, w@) == Some(
                (h.0 as int, h.1 as int, h.2 as int),
            ) && h.0 < h.1 < v@.len() && h.2 < v@.len(),
            None => kw_split_at(v@, i as int, w@) is None,
        },
{
    let cap = match kw_ws_exec(v, i, w) {
        None => {
            return None;
        },
        Some(cap) => cap,
    };
    let n = v.len();
    if cap >= n {
        return None;
    }
    let (q, j) = match find_wsplit_exec(v, cap + 1) {
        None => {
            return None;
        },
        Some(p) => p,
    };
    let mut d = j;
    if text::word_at(v, j, "to") {
        proof {
            reveal_strlit("to");
            assert(j + 2 <= n);
        }
        match ws1_exec(v, j + 2) {
            Some(ds) => {
                if ds < n {
                    d = ds;
                }
            },
            None => {},
        }
    }
    Some((cap, q, d))
}

/// Parse the copy-file family: a read of the source, then the copy.
#[verifier::loop_isolation(false)]
fn parse_copy_file(v: &Vec<char>, cwd: &str) -> (r: Option<(Action, Action)>)
    ensures
        match r {
            Some(p) => copy_applies(v@) && p.0.skeleton() == copy_read_action(v@, cwd@)
                && p.1.skeleton() == copy_copy_action(v@, cwd@),
            None => !copy_applies(v@),
        },
{
    let n = v.len();
    let mut hit: Option<(usize, usize, usize)> = None;
    let mut i: usize = 0;
    while i < n
        invariant
            0 <= i <= n,
            hit is None,
            find_copy1(v@, 0) == find_copy1(v@, i as int),
        decreases n - i,
    {
        match kw_to_exec(v, i, "copy") {
            Some(h) => {
                hit = Some(h);
                break;
            },
            None => {},
        }
        i = i + 1;
    }
    if hit.is_none() {
        let mut j: usize = 0;
        while j < n
            invariant
                0 <= j <= n,
                hit is None,
                find_copy1(v@, 0) is None,
                find_copy2(v@, 0) == find_copy2(v@, j as int),
            decreases n - j,
        {
            match kw_split_exec(v, j, "copy") {
                Some(h) => {
                    hit = Some(h);
                    break;
                },
                None => {},
            }
            j = j + 1;
        }
    }
    let (a, b, c) = match hit {
        Some(h) => h,
        None => {
            return None;
        },
    };
    proof {
        assert(copy_hit(v@) == Some((a as int, b as int, c as int)));
    }
    let src = text::chars_to_string(&crate::validator::resolve_chars(
        &text::subrange_chars(v, a, b),
        cwd,
    ));
    let src2 = text::chars_to_string(&crate::validator::resolve_chars(
        &text::subrange_chars(v, a, b),
        cwd,
    ));
    let dst = text::chars_to_string(&crate::validator::resolve_chars(
        &text::subrange_chars(v, c, n),
        cwd,
    ));
    let read_half = Action {
        id: runtime::fresh_id(),
        action_type: ActionType::FsReadFile,
        args: ActionArgs::ReadFile { path: src },
        preconditions: Some(
            Precondition {
                writable: None,
                readable: Some(true),
                exists: Some(true),
                directory: None,
            },
        ),
        metadata: Some(ActionMetadata { confidence: Some(CONF_TWO_STEP) }),
    };
    let copy_half = Action {
        id: runtime::fresh_id(),
        action_type: ActionType::FsCopyFile,
        args: ActionArgs::CopyFile { source_path: src2, destination_path: dst },
        preconditions: Some(
            Precondition {
                writable: Some(true),
                readable: None,
                exists: Some(false),
                directory: None,
            },
        ),
        metadata: Some(ActionMetadata { confidence: Some(CONF_TWO_STEP) }),
    };
    Some((read_half, copy_half))
}

/// Parse the move-file family.
#[verifier::loop_isolation(false)]
fn parse_move_file(v: &Vec<char>, cwd: &str) -> (r: Option<Action>)
    ensures
        match r {
            Some(a) => move_applies(v@) && a.skeleton() == move_action(v@, cwd@),
            None => !move_applies(v@),
        },
{
    let n = v.len();
    let mut hit: Option<(usize, usize, usize)> = None;
    let mut i: usize = 0;
    while i < n
        invariant
            0 <= i <= n,
            hit is None,
            find_move1(v@, 0) == find_move1(v@, i as int),
        decreases n - i,
    {
        let h1 = match kw_to_exec(v, i, "move") {
            Some(h) => Some(h),
            None => kw_to_exec(v, i, "rename"),
        };
        match h1 {
            Some(h) => {
                hit = Some(h);
                break;
            },
            None => {},
        }
        i = i + 1;
    }
    if hit.is_none() {
        let mut j: usize = 0;
        while j < n
            invariant
                0 <= j <= n,
                hit is None,
                find_move1(v@, 0) is None,
                find_rename2(v@, 0) == find_rename2(v@, j as int),
            decreases n - j,
        {
            match kw_split_exec(v, j, "rename") {
                Some(h) => {
                    hit = Some(h);
                    break;
                },
                None => {},
            }
            j = j + 1;
        }
    }
    let (a, b, c) = match hit {
        Some(h) => h,
        None => {
            return None;
        },
    };
    proof {
        assert(move_hit(v@) == Some((a as int, b as int, c as int)));
    }
    let src = text::chars_to_string(&crate::validator::resolve_chars(
        &text::subrange_chars(v, a, b),
        cwd,
    ));
    let dst = text::chars_to_string(&crate::validator::resolve_chars(
        &text::subrange_chars(v, c, n),
        cwd,
    ));
    let act = Action {
        id: runtime::fresh_id(),
        action_type: ActionType::FsMoveFile,
        args: ActionArgs::MoveFile { source_path: src, destination_path: dst },
        preconditions: Some(
            Precondition {
                writable: Some(true),
                readable: None,
                exists: Some(true),
                directory: None,
            },
        ),
        metadata: Some(ActionMetadata { confidence: Some(CONF_TWO_STEP) }),
    };
    Some(act)
}

// ---------------------------------------------------------------------
// The delete-file family.
// ---------------------------------------------------------------------

/// A "path missing" delete phrase at `i`.
pub open spec fn del_missing_at(s: Seq<char>, i: int) -> bool {
    end2_at(s, i, "delete"@, "file"@) || end2_at(s, i, "remove"@, "file"@) || end2_at(
        s,
        i,
        "rm"@,
        "file"@,
    )
}

/// Some position starts a "path missing" delete phrase.
pub open spec fn del_missing(s: Seq<char>) -> bool {
    exists|i: int| 0 <= i < s.len() && del_missing_at(s, i)
}

/// `w` ws, an optional `file` ws, then a nonempty path.
pub open spec fn kw_optfile_at(s: Seq<char>, i: int, w: Seq<char>) -> Option<int> {
    match kw_ws(s, i, w) {
        None => None,
        Some(j) => {
            let with_file = match kw_ws(s, j, "file"@) {
                Some(k) => if k < s.len() {
                    Some(k)
                } else {
                    None
                },
                None => None,
            };
            if with_file is Some {
                with_file
            } else if j < s.len() {
                Some(j)
            } else {
                None
            }
        },
    }
}

/// A delete phrase with a path at `i`, any of the three delete keywords.
pub open spec fn del_at(s: Seq<char>, i: int) -> Option<int> {
    match kw_optfile_at(s, i, "delete"@) {
        Some(c) => Some(c),
        None => match kw_optfile_at(s, i, "remove"@) {
            Some(c) => Some(c),
            None => kw_optfile_at(s, i, "rm"@),
        },
    }
}

/// Leftmost [`del_at`] hit.
pub open spec fn find_del(s: Seq<char>, i: int) -> Option<int>
    decreases s.len() - i,
{
    if i < 0 || i >= s.len() {
        None
    } else {
        match del_at(s, i) {
            Some(c) => Some(c),
            None => find_del(s, i + 1),
        }
    }
}

/// The delete-file family matches the input.
pub open spec fn del_applies(s: Seq<char>) -> bool {
    del_missing(s) || find_del(s, 0) is Some
}

/// The id-free delete action parsed from `s`.
pub open spec fn del_action(s: Seq<char>, cwd: Seq<char>) -> ActionCore {
    if del_missing(s) {
        prompt_core(ActionType::FsDeleteFile)
    } else {
        match find_del(s, 0) {
            Some(cap) => ActionCore {
                action_type: ActionType::FsDeleteFile,
                args: ArgsV::DeleteFile {
                    path: resolve_seq(s.subrange(cap, s.len() as int), cwd),
                },
                preconditions: Some(pre_delete()),
                metadata: Some(ActionMetadata { confidence: Some(CONF_PATH) }),
            },
            None => prompt_core(ActionType::FsDeleteFile),
        }
    }
}

/// Exec form of [`kw_optfile_at`].
fn kw_optfile_exec(v: &Vec<char>, i: usize, w: &str) -> (r: Option<usize>)
    requires
        i <= v@.len(),
    ensures
        match r {
            Some(c) => kw_optfile_at(v@, i as int, w@) == Some(c as int) && c < v@.len(),
            None => kw_optfile_at(v@, i as int, w@) is None,
        },
{
    let j = match kw_ws_exec(v, i, w) {
        None => {
            return None;
        },
        Some(j) => j,
    };
    let n = v.len();
    match kw_ws_exec(v, j, "file") {
        Some(k) => {
            if k < n {
                return Some(k);
            }
        },
        None => {},
    }
    if j < n {
        Some(j)
    } else {
        None
    }
}

/// Exec check of [`del_missing`].
#[verifier::loop_isolation(false)]
fn del_missing_exec(v: &Vec<char>) -> (r: bool)
    ensures
        r == del_missing(v@),
{
    let n = v.len();
    let mut i: usize = 0;
    while i < n
        invariant
            0 <= i <= n,
            forall|k: int| 0 <= k < i ==> !del_missing_at(v@, k),
        decreases n - i,
    {
        if end2_exec(v, i, "delete", "file") || end2_exec(v, i, "remove", "file") || end2_exec(
            v,
            i,
            "rm",
            "file",
        ) {
            proof {
                assert(del_missing_at(v@, i as int));
            }
            return true;
        }
        i = i + 1;
    }
    false
}

/// Parse the delete-file family.
#[verifier::loop_isolation(false)]
fn parse_delete_file(v: &Vec<char>, cwd: &str) -> (r: Option<Action>)
    ensures
        match r {
            Some(a) => del_applies(v@) && a.skeleton() == del_action(v@, cwd@),
            None => !del_applies(v@),
        },
{
    if del_missing_exec(v) {
        return Some(prompt_action(ActionType::FsDeleteFile));
    }
    let n = v.len();
    let mut cap_opt: Option<usize> = None;
    let mut i: usize = 0;
    while i < n
        invariant
            0 <= i <= n,
            cap_opt is None,
            find_del(v@, 0) == find_del(v@, i as int),
        decreases n - i,
    {
        let h = match kw_optfile_exec(v, i, "delete") {
            Some(c) => Some(c),
            None => match kw_optfile_exec(v, i, "remove") {
                Some(c) => Some(c),
                None => kw_optfile_exec(v, i, "rm"),
            },
        };
        match h {
            Some(c) => {
                cap_opt = Some(c);
                break;
            },
            None => {},
        }
        i = i + 1;
    }
    let cap = match cap_opt {
        Some(c) => c,
        None => {
            return None;
        },
    };
    proof {
        assert(find_del(v@, 0) == Some(cap as int));
    }
    let praw = text::subrange_chars(v, cap, n);
    let resolved = crate::validator::resolve_chars(&praw, cwd);
    let path = text::chars_to_string(&resolved);
    let a = Action {
        id: runtime::fresh_id(),
        action_type: ActionType::FsDeleteFile,
        args: ActionArgs::DeleteFile { path },
        preconditions: Some(
            Precondition { writable: None, readable: None, exists: Some(true), directory: None },
        ),
        metadata: Some(ActionMetadata { confidence: Some(CONF_PATH) }),
    };
    Some(a)
}

// ---------------------------------------------------------------------
// The create-directory family.
// ---------------------------------------------------------------------

/// One of the directory words with a nonempty capture at `j`.
pub open spec fn dirword_at(s: Seq<char>, j: int) -> Option<int> {
    match hit1_at(s, j, "directory"@) {
        Some(c) => Some(c),
        None => match hit1_at(s, j, "dir"@) {
            Some(c) => Some(c),
            None => hit1_at(s, j, "folder"@),
        },
    }
}

/// `w` ws, a directory word, ws, then a path.
pub open spec fn mk_at(s: Seq<char>, i: int, w: Seq<char>) -> Option<int> {
    match kw_ws(s, i, w) {
        None => None,
        Some(j) => dirword_at(s, j),
    }
}

/// Leftmost `create <dirword> <path>` hit.
pub open spec fn find_mk1(s: Seq<char>, i: int) -> Option<int>
    decreases s.len() - i,
{
    if i < 0 || i >= s.len() {
        None
    } else {
        match mk_at(s, i, "create"@) {
            Some(c) => Some(c),
            None => find_mk1(s, i + 1),
        }
    }
}

/// Leftmost `new <dirword> <path>` hit.
pub open spec fn find_mk3(s: Seq<char>, i: int) -> Option<int>
    decreases s.len() - i,
{
    if i < 0 || i >= s.len() {
        None
    } else {
        match mk_at(s, i, "new"@) {
            Some(c) => Some(c),
            None => find_mk3(s, i + 1),
        }
    }
}

/// Capture of the first matching create-directory pattern.
pub open spec fn mkdir_cap(s: Seq<char>) -> Option<int> {
    match find_mk1(s, 0) {
        Some(c) => Some(c),
        None => match find_hit1(s, 0, "mkdir"@) {
            Some(c) => Some(c),
            None => find_mk3(s, 0),
        },
    }
}

/// The create-directory family matches the input.
pub open spec fn mkdir_applies(s: Seq<char>) -> bool {
    mkdir_cap(s) is Some
}

/// The id-free create-directory action parsed from `s`.
pub open spec fn mkdir_action(s: Seq<char>, cwd: Seq<char>) -> ActionCore {
    match mkdir_cap(s) {
        Some(cap) => ActionCore {
            action_type: ActionType::FsCreateDirectory,
            args: ArgsV::CreateDirectory {
                path: resolve_seq(s.subrange(cap, s.len() as int), cwd),
            },
            preconditions: Some(pre_mkdir()),
            metadata: Some(ActionMetadata { confidence: Some(CONF_PATH) }),
        },
        // no hit: callers guard on mkdir_applies, so this arm is never read
        None => prompt_core(ActionType::FsReadFile),
    }
}

/// Exec form of [`mk_at`].
fn mk_exec(v: &Vec<char>, i: usize, w: &str) -> (r: Option<usize>)
    requires
        i <= v@.len(),
    ensures
        match r {
            Some(c) => mk_at(v@, i as int, w@) == Some(c as int) && c < v@.len(),
            None => mk_at(v@, i as int, w@) is None,
        },
{
    let j = match kw_ws_exec(v, i, w) {
        None => {
            return None;
        },
        Some(j) => j,
    };
    match hit1_exec(v, j, "directory") {
        Some(c) => Some(c),
        None => match hit1_exec(v, j, "dir") {
            Some(c) => Some(c),
            None => hit1_exec(v, j, "folder"),
        },
    }
}

/// Parse the create-directory family.
#[verifier::loop_isolation(false)]
fn parse_create_directory(v: &Vec<char>, cwd: &str) -> (r: Option<Action>)
    ensures
        match r {
            Some(a) => mkdir_applies(v@) && a.skeleton() == mkdir_action(v@, cwd@),
            None => !mkdir_applies(v@),
        },
{
    let n = v.len();
    let mut cap_opt: Option<usize> = None;
    let mut i: usize = 0;
    while i < n
        invariant
            0 <= i <= n,
            cap_opt is None,
            find_mk1(v@, 0) == find_mk1(v@, i as int),
        decreases n - i,
    {
        match mk_exec(v, i, "create") {
            Some(c) => {
                cap_opt = Some(c);
                break;
            },
            None => {},
        }
        i = i + 1;
    }
    if cap_opt.is_none() {
        match find_hit1_exec(v, "mkdir") {
            Some(c) => {
                cap_opt = Some(c);
            },
            None => {
                let mut j: usize = 0;
                while j < n
                    invariant
                        0 <= j <= n,
                        cap_opt is None,
                        find_mk1(v@, 0) is None,
                        find_hit1(v@, 0, "mkdir"@) is None,
                        find_mk3(v@, 0) == find_mk3(v@, j as int),
                    decreases n - j,
                {
                    match mk_exec(v, j, "new") {
                        Some(c) => {
                            cap_opt = Some(c);
                            break;
                        },
                        None => {},
                    }
                    j = j + 1;
                }
            },
        }
    }
    let cap = match cap_opt {
        Some(c) => c,
        None => {
            return None;
        },
    };
    proof {
        assert(mkdir_cap(v@) == Some(cap as int));
        assert(cap < v@.len());
    }
    let praw = text::subrange_chars(v, cap, n);
    let resolved = crate::validator::resolve_chars(&praw, cwd);
    let path = text::chars_to_string(&resolved);
    let a = Action {
        id: runtime::fresh_id(),
        action_type: ActionType::FsCreateDirectory,
        args: ActionArgs::CreateDirectory { path },
        preconditions: Some(
            Precondition {
                writable: Some(true),
                readable: None,
                exists: Some(false),
                directory: Some(false),
            },
        ),
        metadata: Some(ActionMetadata { confidence: Some(CONF_PATH) }),
    };
    Some(a)
}

/// The id-free placeholder action of the given kind.
pub open spec fn prompt_core(t: ActionType) -> ActionCore {
    ActionCore {
        action_type: t,
        args: if t == ActionType::FsCreateFile {
            ArgsV::CreateFile {
                path: prompt_path_seq(),
                content: Seq::empty(),
                encoding: "utf-8"@,
            }
        } else if t == ActionType::FsReadFile {
            ArgsV::ReadFile { path: prompt_path_seq() }
        } else {
            ArgsV::DeleteFile { path: prompt_path_seq() }
        },
        preconditions: Some(
            if t == ActionType::FsCreateFile {
                pre_create()
            } else if t == ActionType::FsReadFile {
                pre_read()
            } else {
                pre_delete()
            },
        ),
        metadata: Some(ActionMetadata { confidence: Some(CONF_PROMPT) }),
    }
}

// ---------------------------------------------------------------------
// Path extraction for plan summaries.
// ---------------------------------------------------------------------

/// Leftmost pair of quotes with at least one character between them; an
/// adjacent pair is skipped, its second quote becoming a new candidate.
pub open spec fn find_qpair(s: Seq<char>, i: int) -> Option<(int, int)>
    decreases s.len() - i,
{
    if i < 0 || i >= s.len() {
        None
    } else if s[i] == '"' {
        match text::find_char_from(s, i + 1, '"') {
            None => None,
            Some(j) => if j > i + 1 {
                Some((i, j))
            } else {
                find_qpair(s, i + 1)
            },
        }
    } else {
        find_qpair(s, i + 1)
    }
}

/// End of the whitespace-free token starting at `a`.
pub open spec fn token_end(s: Seq<char>, a: int) -> int
    decreases s.len() - a,
{
    if 0 <= a < s.len() && !is_space(s[a]) {
        token_end(s, a + 1)
    } else {
        a
    }
}

proof fn lemma_token_end_bounds(s: Seq<char>, a: int)
    requires
        0 <= a <= s.len(),
    ensures
        a <= token_end(s, a) <= s.len(),
    decreases s.len() - a,
{
    if a < s.len() && !is_space(s[a]) {
        lemma_token_end_bounds(s, a + 1);
    }
}

/// The span `[a, b)` contains a `/` followed by a different character.
pub open spec fn span_pathlike(s: Seq<char>, a: int, b: int) -> bool {
    exists|k: int| a <= k && k + 1 < b && #[trigger] s[k] == '/' && s[k + 1] != '/'
}

/// Trailing slashes removed.
pub open spec fn strip_slashes(t: Seq<char>) -> Seq<char>
    decreases t.len(),
{
    if t.len() > 0 && t.last() == '/' {
        strip_slashes(t.drop_last())
    } else {
        t
    }
}

/// Leftmost whitespace-free token that looks like a path.
pub open spec fn find_ptoken(s: Seq<char>, i: int) -> Option<(int, int)>
    decreases s.len() - i,
{
    if i < 0 || i >= s.len() {
        None
    } else if is_space(s[i]) {
        find_ptoken(s, i + 1)
    } else {
        let b = token_end(s, i);
        if span_pathlike(s, i, b) {
            Some((i, b))
        } else {
            find_ptoken(s, i + 1)
        }
    }
}

/// The path-like part of the input used in plan summaries: a quoted span
/// if one occurs, else the first token containing a slash (with trailing
/// slashes stripped), else the whole input.
pub open spec fn extract_path(s: Seq<char>) -> Seq<char> {
    match find_qpair(s, 0) {
        Some(p) => s.subrange(p.0 + 1, p.1),
        None => match find_ptoken(s, 0) {
            Some(t) => strip_slashes(s.subrange(t.0, t.1)),
            None => s,
        },
    }
}

/// Exec form of [`token_end`].
fn token_end_exec(v: &Vec<char>, a: usize) -> (b: usize)
    requires
        a <= v@.len(),
    ensures
        b as int == token_end(v@, a as int),
        a <= b <= v@.len(),
{
    let n = v.len();
    let mut b = a;
    while b < n && !text::is_space_char(v[b])
        invariant
            n == v@.len(),
            a <= b <= n,
            token_end(v@, a as int) == token_end(v@, b as int),
        decreases n - b,
    {
        b = b + 1;
    }
    b
}

/// Exec form of [`span_pathlike`].
fn span_pathlike_exec(v: &Vec<char>, a: usize, b: usize) -> (r: bool)
    requires
        a <= b <= v@.len(),
    ensures
        r == span_pathlike(v@, a as int, b as int),
{
    if b < 1 {
        return false;
    }
    let bm1 = b - 1;
    let mut k = a;
    while k < bm1
        invariant
            a <= k,
            bm1 == b - 1,
            b <= v@.len(),
            forall|m: int|
                a <= m && m < k ==> !(#[trigger] v@[m] == '/' && v@[m + 1] != '/'),
        decreases bm1 - k,
    {
        if v[k] == '/' && v[k + 1] != '/' {
            return true;
        }
        k = k + 1;
    }
    false
}

/// Exec form of [`strip_slashes`] on a subrange.
fn strip_slashes_exec(v: &Vec<char>, a: usize, b: usize) -> (r: Vec<char>)
    requires
        a <= b <= v@.len(),
    ensures
        r@ == strip_slashes(v@.subrange(a as int, b as int)),
{
    let mut e = b;
    while e > a && v[e - 1] == '/'
        invariant
            a <= e <= b <= v@.len(),
            strip_slashes(v@.subrange(a as int, b as int)) == strip_slashes(
                v@.subrange(a as int, e as int),
            ),
        decreases e,
    {
        proof {
            let t = v@.subrange(a as int, e as int);
            assert(t.last() == v@[e - 1]);
            assert(t.drop_last() =~= v@.subrange(a as int, e - 1));
        }
        e = e - 1;
    }
    proof {
        let t = v@.subrange(a as int, e as int);
        if t.len() > 0 {
            assert(t.last() == v@[e - 1]);
        }
    }
    text::subrange_chars(v, a, e)
}

/// Exec form of [`find_qpair`].
#[verifier::loop_isolation(false)]
fn find_qpair_exec(v: &Vec<char>) -> (r: Option<(usize, usize)>)
    ensures
        match r {
            Some(p) => find_qpair(v@, 0) == Some((p.0 as int, p.1 as int)) && p.0 + 1 <= p.1
                < v@.len(),
            None => find_qpair(v@, 0) is None,
        },
{
    let n = v.len();
    let mut i: usize = 0;
    while i < n
        invariant
            0 <= i <= n,
            find_qpair(v@, 0) == find_qpair(v@, i as int),
        decreases n - i,
    {
        if v[i] == '"' {
            match text::find_char(v, i + 1, '"') {
                None => {
                    return None;
                },
                Some(j) => {
                    if j > i + 1 {
                        return Some((i, j));
                    }
                },
            }
        }
        i = i + 1;
    }
    None
}

/// Exec form of [`find_ptoken`].
#[verifier::loop_isolation(false)]
fn find_ptoken_exec(v: &Vec<char>) -> (r: Option<(usize, usize)>)
    ensures
        match r {
            Some(t) => find_ptoken(v@, 0) == Some((t.0 as int, t.1 as int)) && t.0 <= t.1
                <= v@.len(),
            None => find_ptoken(v@, 0) is None,
        },
{
    let n = v.len();
    let mut i: usize = 0;
    while i < n
        invariant
            0 <= i <= n,
            find_ptoken(v@, 0) == find_ptoken(v@, i as int),
        decreases n - i,
    {
        if !text::is_space_char(v[i]) {
            let b = token_end_exec(v, i);
            if span_pathlike_exec(v, i, b) {
                return Some((i, b));
            }
        }
        i = i + 1;
    }
    None
}

/// Exec form of [`extract_path`].
fn extract_path_exec(v: &Vec<char>) -> (r: Vec<char>)
    ensures
        r@ == extract_path(v@),
{
    match find_qpair_exec(v) {
        Some((a, b)) => text::subrange_chars(v, a + 1, b),
        None => match find_ptoken_exec(v) {
            Some((a, b)) => strip_slashes_exec(v, a, b),
            None => text::subrange_chars(v, 0, v.len()),
        },
    }
}

// ---------------------------------------------------------------------
// The parser itself.
// ---------------------------------------------------------------------

/// What parsing determines, up to the generated ids: the rule families are
/// tried on the canonicalized input in their precedence order, and the
/// first that matches decides the actions, the summary and the plan's
/// risk score from the fixed per-intent table (create, read and mkdir are
/// Low, copy is Medium, move and delete are High).
pub open spec fn spec_parse(input: Seq<char>, cwd: Seq<char>) -> Option<PlanCore> {
    let s = canon_seq(input);
    if create_applies(s) {
        Some(
            PlanCore {
                user_input: input,
                source: ActionSource::Ui,
                actions: seq![create_action(s, cwd)],
                summary: "Create file: "@ + extract_path(s),
                risk_score: RISK_LOW,
                dry_run: true,
            },
        )
    } else if read_applies(s) {
        Some(
            PlanCore {
                user_input: input,
                source: ActionSource::Ui,
                actions: seq![read_action(s, cwd)],
                summary: "Read file: "@ + extract_path(s),
                risk_score: RISK_LOW,
                dry_run: true,
            },
        )
    } else if copy_applies(s) {
        Some(
            PlanCore {
                user_input: input,
                source: ActionSource::Ui,
                actions: seq![copy_read_action(s, cwd), copy_copy_action(s, cwd)],
                summary: "Copy file"@,
                risk_score: RISK_MEDIUM,
                dry_run: true,
            },
        )
    } else if move_applies(s) {
        Some(
            PlanCore {
                user_input: input,
                source: ActionSource::Ui,
                actions: seq![move_action(s, cwd)],
                summary: "Move file"@,
                risk_score: RISK_HIGH,
                dry_run: true,
            },
        )
    } else if del_applies(s) {
        Some(
            PlanCore {
                user_input: input,
                source: ActionSource::Ui,
                actions: seq![del_action(s, cwd)],
                summary: "Delete file: "@ + extract_path(s),
                risk_score: RISK_HIGH,
                dry_run: true,
            },
        )
    } else if mkdir_applies(s) {
        Some(
            PlanCore {
                user_input: input,
                source: ActionSource::Ui,
                actions: seq![mkdir_action(s, cwd)],
                summary: "Create directory: "@ + extract_path(s),
                risk_score: RISK_LOW,
                dry_run: true,
            },
        )
    } else {
        None
    }
}

/// Prefix plus extracted path, as a string.
fn summary_with(v: &Vec<char>, prefix: &str) -> (r: String)
    ensures
        r@ == prefix@ + extract_path(v@),
{
    let ex = extract_path_exec(v);
    let mut sv: Vec<char> = Vec::new();
    text::push_str_chars(&mut sv, prefix);
    text::push_vec_chars(&mut sv, &ex);
    text::chars_to_string(&sv)
}

/// Assemble a plan around parsed actions.
fn build_plan(
    user_input: &str,
    actions: Vec<Action>,
    summary: String,
    risk_score: u32,
) -> (p: ActionPlan)
    ensures
        p.skeleton() == (PlanCore {
            user_input: user_input@,
            source: ActionSource::Ui,
            actions: actions@.map_values(|a: Action| a.skeleton()),
            summary: summary@,
            risk_score,
            dry_run: true,
        }),
{
    let plan_id = runtime::fresh_id();
    let request_id = runtime::fresh_id();
    ActionPlan {
        schema: ActionSchema {
            id: plan_id,
            origin: ActionOrigin {
                user_input: user_input.to_owned(),
                source: ActionSource::Ui,
                request_id,
            },
            actions,
            summary,
            risk_score,
            dry_run: true,
        },
    }
}

/// Parse user intent into an action plan by the deterministic rules.
/// `user_home` is accepted for interface compatibility but relative paths
/// resolve against `cwd`, the process working directory — a deliberate,
/// security-relevant choice inherited from the design.
pub fn parse_intent(user_input: &str, user_home: &str, cwd: &str) -> (r: Result<
    ActionPlan,
    CoreError,
>)
    ensures
        match r {
            Ok(p) => spec_parse(user_input@, cwd@) == Some(p.skeleton()),
            Err(e) => spec_parse(user_input@, cwd@) is None && e is ParseFailure,
        },
{
    let canon = text::canonicalize(user_input);
    if let Some(a) = parse_create_file(&canon, cwd) {
        let summary = summary_with(&canon, "Create file: ");
        let ghost ac = a.skeleton();
        let mut actions: Vec<Action> = Vec::new();
        actions.push(a);
        let p = build_plan(user_input, actions, summary, RISK_LOW);
        proof {
            assert(p.skeleton().actions =~= seq![ac]);
        }
        return Ok(p);
    }
    if let Some(a) = parse_read_file(&canon, cwd) {
        let summary = summary_with(&canon, "Read file: ");
        let ghost ac = a.skeleton();
        let mut actions: Vec<Action> = Vec::new();
        actions.push(a);
        let p = build_plan(user_input, actions, summary, RISK_LOW);
        proof {
            assert(p.skeleton().actions =~= seq![ac]);
        }
        return Ok(p);
    }
    if let Some((a1, a2)) = parse_copy_file(&canon, cwd) {
        let ghost c1 = a1.skeleton();
        let ghost c2 = a2.skeleton();
        let mut actions: Vec<Action> = Vec::new();
        actions.push(a1);
        actions.push(a2);
        let p = build_plan(user_input, actions, "Copy file".to_owned(), RISK_MEDIUM);
        proof {
            assert(p.skeleton().actions =~= seq![c1, c2]);
        }
        return Ok(p);
    }
    if let Some(a) = parse_move_file(&canon, cwd) {
        let ghost ac = a.skeleton();
        let mut actions: Vec<Action> = Vec::new();
        actions.push(a);
        let p = build_plan(user_input, actions, "Move file".to_owned(), RISK_HIGH);
        proof {
            assert(p.skeleton().actions =~= seq![ac]);
        }
        return Ok(p);
    }
    if let Some(a) = parse_delete_file(&canon, cwd) {
        let summary = summary_with(&canon, "Delete file: ");
        let ghost ac = a.skeleton();
        let mut actions: Vec<Action> = Vec::new();
        actions.push(a);
        let p = build_plan(user_input, actions, summary, RISK_HIGH);
        proof {
            assert(p.skeleton().actions =~= seq![ac]);
        }
        return Ok(p);
    }
    if let Some(a) = parse_create_directory(&canon, cwd) {
        let summary = summary_with(&canon, "Create directory: ");
        let ghost ac = a.skeleton();
        let mut actions: Vec<Action> = Vec::new();
        actions.push(a);
        let p = build_plan(user_input, actions, summary, RISK_LOW);
        proof {
            assert(p.skeleton().actions =~= seq![ac]);
        }
        return Ok(p);
    }
    Err(CoreError::ParseFailure)
}

/// Parsing is deterministic up to the generated ids: two parses of the
/// same text yield the same action types, arguments and order, the same
/// summary and the same risk score.
pub proof fn lemma_parse_deterministic(
    input: Seq<char>,
    cwd: Seq<char>,
    p1: PlanCore,
    p2: PlanCore,
)
    requires
        spec_parse(input, cwd) == Some(p1),
        spec_parse(input, cwd) == Some(p2),
    ensures
        p1 == p2,
{
}

/// Validating an LLM-produced plan happens through the verifier; this core
/// holds no LLM planner of its own.
pub fn parse_llm_response(_response: &str) -> (r: Result<ActionPlan, CoreError>)
    ensures
        r is Err,
{
    Err(CoreError::ParseFailure)
}

} // verus!
