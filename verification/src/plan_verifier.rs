//! The plan verifier: checks every action of a plan in order — kind and
//! argument payload agree, every non-placeholder path passes validation,
//! declared preconditions hold against the filesystem model — and folds the
//! per-action risk weights into the plan's risk score. Verification is
//! fail-fast: the first violation aborts with that violation alone.
//!
//! Also here: the read-only preview projection built on top of a
//! successful verification.

use vstd::prelude::*;
use crate::text;
use crate::types::{
    clone_plan, clone_string, primary_path_of, prompt_path_seq, variant_name_seq, Action,
    ActionCore, ActionPlan, ActionType, AffectedItem, ArgsV, CoreErrV, CoreError, Precondition,
    PreviewResult, VerifiedPlan, RISK_LOW, RISK_MAX,
};
use crate::types::args_kind;
use crate::fs_model::{slookup, EntryV, FsState};
use crate::validator::{path_ok, validate_path};
use crate::runtime::{self, TIME_MAX};

verus! {

/// Fixed risk weight of one action kind, in thousandths: reads and
/// creations are Low, copies Medium, moves and deletes High.
pub open spec fn action_risk(t: ActionType) -> int {
    match t {
        ActionType::FsReadFile => RISK_LOW as int,
        ActionType::FsCreateDirectory => RISK_LOW as int,
        ActionType::FsCreateFile => RISK_LOW as int,
        ActionType::FsCopyFile => 500,
        ActionType::FsMoveFile => 800,
        ActionType::FsDeleteFile => 800,
    }
}

/// One fold step of the running risk: `min(1000, (risk*7 + action*3)/10)`,
/// everything in thousandths.
pub open spec fn risk_step(r: int, a: int) -> int {
    let x = (r * 7 + a * 3) / 10;
    if x > RISK_MAX as int {
        RISK_MAX as int
    } else {
        x
    }
}

/// The running risk after folding every action's weight, in order.
pub open spec fn fold_risk(r: int, acts: Seq<ActionCore>) -> int
    decreases acts.len(),
{
    if acts.len() == 0 {
        r
    } else {
        fold_risk(risk_step(r, action_risk(acts[0].action_type)), acts.drop_first())
    }
}

/// The parent of a path: everything before the last slash ("/" for a
/// top-level entry; nothing for a path without slashes).
pub open spec fn parent_of(p: Seq<char>) -> Option<Seq<char>>
    decreases p.len(),
{
    if p.len() == 0 {
        None
    } else if p[p.len() - 1] == '/' {
        if p.len() == 1 {
            None
        } else {
            Some(p.subrange(0, p.len() - 1))
        }
    } else {
        parent_of(p.drop_last())
    }
}

/// The violation of an action's path arguments, if any: each present,
/// non-placeholder path must pass validation, `path` and `source_path`
/// before `destination_path`.
pub open spec fn path_violation(a: ArgsV, ents: Seq<EntryV>) -> Option<CoreErrV> {
    match a {
        ArgsV::CreateFile { path, .. } => single_path_violation(path, ents),
        ArgsV::ReadFile { path } => single_path_violation(path, ents),
        ArgsV::DeleteFile { path } => single_path_violation(path, ents),
        ArgsV::CreateDirectory { path } => single_path_violation(path, ents),
        ArgsV::CopyFile { source_path, destination_path } => match single_path_violation(
            source_path,
            ents,
        ) {
            Some(e) => Some(e),
            None => single_path_violation(destination_path, ents),
        },
        ArgsV::MoveFile { source_path, destination_path } => match single_path_violation(
            source_path,
            ents,
        ) {
            Some(e) => Some(e),
            None => single_path_violation(destination_path, ents),
        },
    }
}

/// The violation of one path, if any.
pub open spec fn single_path_violation(p: Seq<char>, ents: Seq<EntryV>) -> Option<CoreErrV> {
    if p == prompt_path_seq() {
        None
    } else if path_ok(p, ents) {
        None
    } else {
        Some(CoreErrV::ValidationFailure { path: p })
    }
}

/// The violation of an action's preconditions, if any. Only the `exists`
/// and `writable` booleans are enforced, only against the `path` argument,
/// and a placeholder path skips the checks entirely.
pub open spec fn precond_violation(a: ActionCore, ents: Seq<EntryV>) -> Option<CoreErrV> {
    match a.preconditions {
        None => None,
        Some(pre) => match primary_path_of(a.args) {
            None => None,
            Some(p) => if p == prompt_path_seq() {
                None
            } else {
                let present = slookup(ents, p) is Some;
                if pre.exists matches Some(b) && b != present {
                    Some(CoreErrV::PreconditionFailure { path: p })
                } else if pre.writable matches Some(wb) && wb && {
                    match parent_of(p) {
                        Some(par) => match slookup(ents, par) {
                            Some(e) => !e.writable,
                            None => false,
                        },
                        None => false,
                    }
                } {
                    Some(CoreErrV::PreconditionFailure { path: p })
                } else {
                    None
                }
            },
        },
    }
}

/// The first violation of one action, checked in order: kind against
/// payload, then paths, then preconditions.
pub open spec fn check_action(a: ActionCore, ents: Seq<EntryV>) -> Option<CoreErrV> {
    if args_kind(a.args) != a.action_type {
        Some(CoreErrV::InvalidAction)
    } else {
        match path_violation(a.args, ents) {
            Some(e) => Some(e),
            None => precond_violation(a, ents),
        }
    }
}

/// The first violation of a plan's actions, in plan order.
pub open spec fn first_violation(acts: Seq<ActionCore>, ents: Seq<EntryV>) -> Option<CoreErrV>
    decreases acts.len(),
{
    if acts.len() == 0 {
        None
    } else {
        match check_action(acts[0], ents) {
            Some(e) => Some(e),
            None => first_violation(acts.drop_first(), ents),
        }
    }
}

/// All supported action kinds pass the kind check.
pub fn validate_action_type(action_type: &ActionType) -> (r: Result<(), CoreError>)
    ensures
        r is Ok,
{
    match action_type {
        ActionType::FsCreateFile => Ok(()),
        ActionType::FsReadFile => Ok(()),
        ActionType::FsCopyFile => Ok(()),
        ActionType::FsMoveFile => Ok(()),
        ActionType::FsDeleteFile => Ok(()),
        ActionType::FsCreateDirectory => Ok(()),
    }
}

/// Exec form of [`action_risk`].
pub fn calculate_action_risk(action_type: &ActionType) -> (r: u32)
    ensures
        r as int == action_risk(*action_type),
{
    match action_type {
        ActionType::FsReadFile => RISK_LOW,
        ActionType::FsCreateDirectory => RISK_LOW,
        ActionType::FsCreateFile => RISK_LOW,
        ActionType::FsCopyFile => 500,
        ActionType::FsMoveFile => 800,
        ActionType::FsDeleteFile => 800,
    }
}

/// Exec form of [`parent_of`].
fn parent_of_exec(p: &Vec<char>) -> (r: Option<Vec<char>>)
    ensures
        match r {
            Some(q) => parent_of(p@) == Some(q@),
            None => parent_of(p@) is None,
        },
{
    let n = p.len();
    proof {
        assert(p@.subrange(0, n as int) =~= p@);
    }
    let mut e = n;
    while e > 0 && p[e - 1] != '/'
        invariant
            0 <= e <= n,
            n == p@.len(),
            parent_of(p@) == parent_of(p@.subrange(0, e as int)),
        decreases e,
    {
        proof {
            let t = p@.subrange(0, e as int);
            assert(t[t.len() - 1] == p@[e - 1]);
            assert(t.drop_last() =~= p@.subrange(0, e - 1));
        }
        e = e - 1;
    }
    proof {
        let t = p@.subrange(0, e as int);
        if e > 0 {
            assert(t[t.len() - 1] == p@[e - 1]);
            if e > 1 {
                assert(t.subrange(0, t.len() - 1) =~= p@.subrange(0, e - 1));
            }
        } else {
            assert(t.len() == 0);
        }
    }
    if e == 0 {
        None
    } else if e == 1 {
        None
    } else {
        Some(text::subrange_chars(p, 0, e - 1))
    }
}

/// Exec check of one path (placeholder paths pass).
fn check_single_path(p: &String, fs: &FsState) -> (r: Option<CoreError>)
    ensures
        match r {
            Some(e) => single_path_violation(p@, fs@.entries) == Some(e@),
            None => single_path_violation(p@, fs@.entries) is None,
        },
{
    if crate::types::is_prompt_path(p) {
        return None;
    }
    match validate_path(p, fs) {
        Ok(_) => None,
        Err(e) => Some(e),
    }
}

/// Exec form of [`precond_violation`].
fn check_preconditions(action: &Action, pre: &Precondition, fs: &FsState) -> (r: Option<
    CoreError,
>)
    requires
        action.preconditions == Some(*pre),
    ensures
        match r {
            Some(e) => precond_violation(action.skeleton(), fs@.entries) == Some(e@),
            None => precond_violation(action.skeleton(), fs@.entries) is None,
        },
{
    let p = match action.args.primary_path() {
        None => {
            return None;
        },
        Some(p) => p,
    };
    if crate::types::is_prompt_path(p) {
        return None;
    }
    let present = fs.path_exists(p);
    match pre.exists {
        Some(b) => {
            if b != present {
                return Some(CoreError::PreconditionFailure { path: clone_string(p) });
            }
        },
        None => {},
    }
    match pre.writable {
        Some(wb) => {
            if wb {
                let pchars = text::str_chars(p.as_str());
                match parent_of_exec(&pchars) {
                    Some(par) => {
                        let par_s = text::chars_to_string(&par);
                        match fs.writable_at(&par_s) {
                            Some(w) => {
                                if !w {
                                    return Some(
                                        CoreError::PreconditionFailure {
                                            path: clone_string(p),
                                        },
                                    );
                                }
                            },
                            None => {},
                        }
                    },
                    None => {},
                }
            }
        },
        None => {},
    }
    None
}

/// Exec form of [`check_action`].
fn check_one_action(action: &Action, fs: &FsState) -> (r: Option<CoreError>)
    ensures
        match r {
            Some(e) => check_action(action.skeleton(), fs@.entries) == Some(e@),
            None => check_action(action.skeleton(), fs@.entries) is None,
        },
{
    let kind_ok = match (&action.action_type, &action.args) {
        (ActionType::FsCreateFile, crate::types::ActionArgs::CreateFile { .. }) => true,
        (ActionType::FsReadFile, crate::types::ActionArgs::ReadFile { .. }) => true,
        (ActionType::FsCopyFile, crate::types::ActionArgs::CopyFile { .. }) => true,
        (ActionType::FsMoveFile, crate::types::ActionArgs::MoveFile { .. }) => true,
        (ActionType::FsDeleteFile, crate::types::ActionArgs::DeleteFile { .. }) => true,
        (ActionType::FsCreateDirectory, crate::types::ActionArgs::CreateDirectory { .. }) => true,
        _ => false,
    };
    if !kind_ok {
        return Some(CoreError::InvalidAction);
    }
    let path_err = match &action.args {
        crate::types::ActionArgs::CreateFile { path, .. } => check_single_path(path, fs),
        crate::types::ActionArgs::ReadFile { path } => check_single_path(path, fs),
        crate::types::ActionArgs::DeleteFile { path } => check_single_path(path, fs),
        crate::types::ActionArgs::CreateDirectory { path } => check_single_path(path, fs),
        crate::types::ActionArgs::CopyFile { source_path, destination_path } => {
            match check_single_path(source_path, fs) {
                Some(e) => Some(e),
                None => check_single_path(destination_path, fs),
            }
        },
        crate::types::ActionArgs::MoveFile { source_path, destination_path } => {
            match check_single_path(source_path, fs) {
                Some(e) => Some(e),
                None => check_single_path(destination_path, fs),
            }
        },
    };
    match path_err {
        Some(e) => {
            return Some(e);
        },
        None => {},
    }
    match &action.preconditions {
        Some(pre) => check_preconditions(action, pre, fs),
        None => None,
    }
}

/// Verify a plan against the filesystem model: fail-fast on the first
/// violation, else return a `VerifiedPlan` carrying the same plan with its
/// risk score recomputed by folding each action's weight in order.
#[verifier::loop_isolation(false)]
pub fn verify_action_plan(plan: &ActionPlan, fs: &FsState) -> (r: Result<VerifiedPlan, CoreError>)
    ensures
        match r {
            Ok(vp) => {
                &&& first_violation(plan.skeleton().actions, fs@.entries) is None
                &&& vp.plan.skeleton() == (crate::types::PlanCore {
                    risk_score: vp.plan.schema.risk_score,
                    ..plan.skeleton()
                })
                &&& vp.plan.schema.risk_score as int == fold_risk(
                    plan.schema.risk_score as int,
                    plan.skeleton().actions,
                )
                &&& vp.plan.schema.id@ == plan.schema.id@
                &&& vp.verification_notes@.len() == 0
                &&& 0 <= vp.verified_at <= TIME_MAX
            },
            Err(e) => first_violation(plan.skeleton().actions, fs@.entries) == Some(e@),
        },
{
    let ghost acts = plan.skeleton().actions;
    let n = plan.schema.actions.len();
    proof {
        assert(acts.len() == n);
        assert(acts.subrange(0, n as int) =~= acts);
        assert(acts.subrange(0, 0) =~= Seq::<ActionCore>::empty());
        assert(fold_risk(plan.schema.risk_score as int, acts.subrange(0, 0))
            == plan.schema.risk_score as int);
    }
    let mut risk: u32 = plan.schema.risk_score;
    for i in 0..n
        invariant
            n == plan.schema.actions@.len(),
            first_violation(acts, fs@.entries) == first_violation(
                acts.subrange(i as int, n as int),
                fs@.entries,
            ),
            risk as int == fold_risk(plan.schema.risk_score as int, acts.subrange(0, i as int)),
            risk <= RISK_MAX || risk as int == fold_risk(
                plan.schema.risk_score as int,
                acts.subrange(0, i as int),
            ),
    {
        let ghost suf = acts.subrange(i as int, n as int);
        proof {
            assert(suf[0] == acts[i as int]);
            assert(acts[i as int] == plan.schema.actions@[i as int].skeleton());
            assert(suf.drop_first() =~= acts.subrange(i + 1, n as int));
        }
        let action = &plan.schema.actions[i];
        match check_one_action(action, fs) {
            Some(e) => {
                return Err(e);
            },
            None => {},
        }
        let aw = calculate_action_risk(&action.action_type);
        let stepped: u64 = (risk as u64 * 7 + aw as u64 * 3) / 10;
        let next: u32 = if stepped > RISK_MAX as u64 {
            RISK_MAX
        } else {
            stepped as u32
        };
        proof {
            assert(next as int == risk_step(risk as int, action_risk(action.action_type)));
            let pre = acts.subrange(0, i as int);
            let pre1 = acts.subrange(0, i + 1 as int);
            lemma_fold_snoc(plan.schema.risk_score as int, pre, acts[i as int]);
            assert(pre.push(acts[i as int]) =~= pre1);
        }
        risk = next;
    }
    proof {
        assert(acts.subrange(0, n as int) =~= acts);
        assert(acts.subrange(n as int, n as int) =~= Seq::<ActionCore>::empty());
    }
    let verified_at = runtime::current_time();
    let mut plan_copy = clone_plan(plan);
    plan_copy.schema.risk_score = risk;
    Ok(VerifiedPlan { plan: plan_copy, verified_at, verification_notes: Vec::new() })
}

/// Validate a plan an external planner produced: it must pass through the
/// same verifier as a deterministic parse.
pub fn plan_with_llm(plan: &ActionPlan, fs: &FsState) -> (r: Result<VerifiedPlan, CoreError>)
    ensures
        match r {
            Ok(vp) => {
                &&& first_violation(plan.skeleton().actions, fs@.entries) is None
                &&& vp.plan.skeleton() == (crate::types::PlanCore {
                    risk_score: vp.plan.schema.risk_score,
                    ..plan.skeleton()
                })
                &&& vp.plan.schema.risk_score as int == fold_risk(
                    plan.schema.risk_score as int,
                    plan.skeleton().actions,
                )
                &&& vp.verification_notes@.len() == 0
            },
            Err(e) => first_violation(plan.skeleton().actions, fs@.entries) == Some(e@),
        },
{
    verify_action_plan(plan, fs)
}

/// Folding one more action steps the fold once.
proof fn lemma_fold_snoc(r: int, acts: Seq<ActionCore>, a: ActionCore)
    ensures
        fold_risk(r, acts.push(a)) == risk_step(
            fold_risk(r, acts),
            action_risk(a.action_type),
        ),
    decreases acts.len(),
{
    if acts.len() == 0 {
        assert(acts.push(a).drop_first() =~= Seq::<ActionCore>::empty());
        assert(acts.push(a)[0] == a);
        assert(fold_risk(risk_step(r, action_risk(a.action_type)), Seq::<ActionCore>::empty())
            == risk_step(r, action_risk(a.action_type)));
        assert(fold_risk(r, acts) == r);
    } else {
        lemma_fold_snoc(risk_step(r, action_risk(acts[0].action_type)), acts.drop_first(), a);
        assert(acts.push(a).drop_first() =~= acts.drop_first().push(a));
        assert(acts.push(a)[0] == acts[0]);
    }
}

/// Every action weight is at least the Low band.
proof fn lemma_action_risk_low(t: ActionType)
    ensures
        150 <= action_risk(t) <= 1000,
{
}

/// A fold that starts at or above the Low band stays there, as long as it
/// starts no higher than the cap.
proof fn lemma_fold_floor(r: int, acts: Seq<ActionCore>)
    requires
        150 <= r,
    ensures
        fold_risk(r, acts) >= 150,
    decreases acts.len(),
{
    if acts.len() > 0 {
        lemma_action_risk_low(acts[0].action_type);
        let a = action_risk(acts[0].action_type);
        assert(risk_step(r, a) >= 150) by {
            assert(r * 7 >= 1050) by (nonlinear_arith)
                requires
                    r >= 150,
            ;
            assert(a * 3 >= 450) by (nonlinear_arith)
                requires
                    a >= 150,
            ;
            assert((r * 7 + a * 3) / 10 >= 150);
        }
        lemma_fold_floor(risk_step(r, a), acts.drop_first());
    }
}

/// Monotonic risk: a plan whose risk starts in the Low band and whose last
/// action carries a High weight verifies to a risk of at least 345
/// thousandths — `0.15*0.7 + 0.8*0.3 = 0.345` — however many actions come
/// before it.
pub proof fn lemma_risk_monotonic(r0: int, acts: Seq<ActionCore>)
    requires
        r0 == 150,
        acts.len() > 0,
        action_risk(acts.last().action_type) == 800,
    ensures
        fold_risk(r0, acts) >= 345,
{
    lemma_risk_monotonic_aux(r0, acts);
}

proof fn lemma_risk_monotonic_aux(r: int, acts: Seq<ActionCore>)
    requires
        150 <= r,
        acts.len() > 0,
        action_risk(acts.last().action_type) == 800,
    ensures
        fold_risk(r, acts) >= 345,
    decreases acts.len(),
{
    lemma_action_risk_low(acts[0].action_type);
    let a = action_risk(acts[0].action_type);
    if acts.len() == 1 {
        assert(acts[0] == acts.last());
        assert(risk_step(r, 800) >= 345) by {
            assert(r * 7 >= 1050) by (nonlinear_arith)
                requires
                    r >= 150,
            ;
            assert((r * 7 + 2400) / 10 >= 345);
        }
        assert(acts.drop_first() =~= Seq::<ActionCore>::empty());
        assert(fold_risk(risk_step(r, 800), Seq::<ActionCore>::empty()) == risk_step(r, 800));
    } else {
        assert(risk_step(r, a) >= 150) by {
            assert(r * 7 >= 1050) by (nonlinear_arith)
                requires
                    r >= 150,
            ;
            assert(a * 3 >= 450) by (nonlinear_arith)
                requires
                    a >= 150,
            ;
        }
        assert(acts.drop_first().last() == acts.last());
        lemma_risk_monotonic_aux(risk_step(r, a), acts.drop_first());
    }
}

/// A plan has no violation exactly when each of its actions has none.
pub proof fn lemma_no_violation_pointwise(acts: Seq<ActionCore>, ents: Seq<EntryV>)
    ensures
        first_violation(acts, ents) is None <==> (forall|k: int|
            0 <= k < acts.len() ==> #[trigger] check_action(acts[k], ents) is None),
    decreases acts.len(),
{
    if acts.len() > 0 {
        lemma_no_violation_pointwise(acts.drop_first(), ents);
        let d = acts.drop_first();
        assert forall|k: int| 0 <= k < d.len() implies #[trigger] d[k] == acts[k + 1] by {}
        if check_action(acts[0], ents) is None {
            if first_violation(acts, ents) is None {
                assert forall|k: int|
                    0 <= k < acts.len() implies #[trigger] check_action(acts[k], ents)
                    is None by {
                    if k > 0 {
                        assert(acts[k] == d[k - 1]);
                    }
                }
            }
        }
    }
}

/// Every action a parsed plan carries is well-typed: its declared kind
/// matches its argument payload, so verification of a parsed plan can only
/// fail on a path or a precondition.
pub proof fn lemma_parsed_plan_well_typed(input: Seq<char>, cwd: Seq<char>, core: crate::types::PlanCore)
    requires
        crate::parser::spec_parse(input, cwd) == Some(core),
    ensures
        forall|k: int|
            0 <= k < core.actions.len() ==> args_kind(#[trigger] core.actions[k].args)
                == core.actions[k].action_type,
{
}

/// Verification of a parsed plan reduces to its paths and preconditions:
/// the kind check never rejects an action the parser built, so the plan
/// verifies exactly when every referenced path passes validation and every
/// declared precondition holds. In particular a parsed plan whose paths
/// are all resolvable verifies, and one with an out-of-bounds `..` path
/// does not.
pub proof fn lemma_parsed_plan_verification(
    input: Seq<char>,
    cwd: Seq<char>,
    core: crate::types::PlanCore,
    ents: Seq<EntryV>,
)
    requires
        crate::parser::spec_parse(input, cwd) == Some(core),
    ensures
        first_violation(core.actions, ents) is None <==> (forall|k: int|
            0 <= k < core.actions.len() ==> path_violation(#[trigger] core.actions[k].args, ents)
                is None && precond_violation(core.actions[k], ents) is None),
{
    lemma_parsed_plan_well_typed(input, cwd, core);
    lemma_no_violation_pointwise(core.actions, ents);
    assert forall|k: int| 0 <= k < core.actions.len() implies (check_action(
        #[trigger] core.actions[k],
        ents,
    ) is None <==> (path_violation(core.actions[k].args, ents) is None && precond_violation(
        core.actions[k],
        ents,
    ) is None)) by {
        assert(args_kind(core.actions[k].args) == core.actions[k].action_type);
    }
}

/// Build the read-only preview of a plan: its affected paths, the ids of
/// actions whose path is still the placeholder, and whether explicit
/// confirmation is required (high risk, any delete, or missing paths).
pub open spec fn preview_missing(acts: Seq<ActionCore>, ids: Seq<Seq<char>>) -> Seq<Seq<char>>
    decreases acts.len(),
{
    if acts.len() == 0 || acts.len() != ids.len() {
        Seq::empty()
    } else {
        let a = acts[0];
        let here = action_missing(a).map_values(|u: int| ids[0]);
        here + preview_missing(acts.drop_first(), ids.drop_first())
    }
}

/// How many times one action appears in the missing list (as unit marks).
pub open spec fn action_missing(a: ActionCore) -> Seq<int> {
    let from_path = match primary_path_of(a.args) {
        Some(p) => if p == prompt_path_seq() {
            seq![0int]
        } else {
            Seq::empty()
        },
        None => Seq::empty(),
    };
    let from_dst = match dest_path_of(a.args) {
        Some(p) => if p == prompt_path_seq() {
            seq![0int]
        } else {
            Seq::empty()
        },
        None => Seq::empty(),
    };
    let from_src = match src_path_of(a.args) {
        Some(p) => if p == prompt_path_seq() {
            seq![0int]
        } else {
            Seq::empty()
        },
        None => Seq::empty(),
    };
    from_path + from_dst + from_src
}

/// The `destination_path` argument, where the kind has one.
pub open spec fn dest_path_of(a: ArgsV) -> Option<Seq<char>> {
    match a {
        ArgsV::CopyFile { destination_path, .. } => Some(destination_path),
        ArgsV::MoveFile { destination_path, .. } => Some(destination_path),
        _ => None,
    }
}

/// The `source_path` argument, where the kind has one.
pub open spec fn src_path_of(a: ArgsV) -> Option<Seq<char>> {
    match a {
        ArgsV::CopyFile { source_path, .. } => Some(source_path),
        ArgsV::MoveFile { source_path, .. } => Some(source_path),
        _ => None,
    }
}

/// The affected-path rows one action contributes to a preview: its `path`
/// argument (or the placeholder note), then its `destination_path` (or the
/// placeholder note), each paired with the action's kind name.
pub open spec fn action_affected(a: ActionCore) -> Seq<(Seq<char>, Seq<char>)> {
    let op = variant_name_seq(a.action_type);
    let from_path = match primary_path_of(a.args) {
        Some(p) => if p == prompt_path_seq() {
            seq![("[Path needed]"@, op)]
        } else {
            seq![(p, op)]
        },
        None => Seq::empty(),
    };
    let from_dst = match dest_path_of(a.args) {
        Some(p) => if p == prompt_path_seq() {
            seq![("[Destination path needed]"@, op)]
        } else {
            seq![(p, op)]
        },
        None => Seq::empty(),
    };
    from_path + from_dst
}

/// The affected-path rows of a whole plan, in plan order.
pub open spec fn preview_affected(acts: Seq<ActionCore>) -> Seq<(Seq<char>, Seq<char>)>
    decreases acts.len(),
{
    if acts.len() == 0 {
        Seq::empty()
    } else {
        action_affected(acts[0]) + preview_affected(acts.drop_first())
    }
}

/// Whether any action of the plan is a delete.
pub open spec fn any_delete(acts: Seq<ActionCore>) -> bool {
    exists|k: int| 0 <= k < acts.len() && acts[k].action_type == ActionType::FsDeleteFile
}

/// Preview a plan: verify it, then project what it would touch. The
/// returned ids in `missing_paths` are those of actions whose path is
/// still the placeholder; explicit confirmation is required when the
/// verified risk exceeds 700 thousandths, when any action deletes, or
/// when any path is missing.
#[verifier::loop_isolation(false)]
pub fn preview_action_plan(plan: &ActionPlan, fs: &FsState) -> (r: Result<
    PreviewResult,
    CoreError,
>)
    ensures
        match r {
            Ok(pv) => {
                &&& first_violation(plan.skeleton().actions, fs@.entries) is None
                &&& pv.risk_score as int == fold_risk(
                    plan.schema.risk_score as int,
                    plan.skeleton().actions,
                )
                &&& pv.missing_paths.deep_view() == preview_missing(
                    plan.skeleton().actions,
                    plan.schema.actions@.map_values(|a: Action| a.id@),
                )
                &&& pv.requires_explicit_confirmation == (pv.risk_score > 700 || any_delete(
                    plan.skeleton().actions,
                ) || pv.missing_paths@.len() > 0)
                &&& pv.affected_items@.map_values(
                    |it: AffectedItem| (it.path@, it.operation@),
                ) == preview_affected(plan.skeleton().actions)
                &&& pv.plan.skeleton() == plan.skeleton()
            },
            Err(e) => first_violation(plan.skeleton().actions, fs@.entries) == Some(e@),
        },
{
    let verified = match verify_action_plan(plan, fs) {
        Ok(v) => v,
        Err(e) => {
            return Err(e);
        },
    };
    let ghost acts = plan.skeleton().actions;
    let ghost ids = plan.schema.actions@.map_values(|a: Action| a.id@);
    let n = plan.schema.actions.len();
    let mut affected_items: Vec<AffectedItem> = Vec::new();
    let mut missing_paths: Vec<String> = Vec::new();
    proof {
        assert(acts.subrange(0, 0) =~= Seq::<ActionCore>::empty());
        assert(ids.subrange(0, 0) =~= Seq::<Seq<char>>::empty());
        assert(missing_paths.deep_view() =~~= preview_missing(
            acts.subrange(0, 0),
            ids.subrange(0, 0),
        ));
        assert(affected_items@.map_values(|it: AffectedItem| (it.path@, it.operation@))
            =~~= preview_affected(acts.subrange(0, 0)));
    }
    let mut any_del = false;
    for i in 0..n
        invariant
            n == plan.schema.actions@.len(),
            acts.len() == n,
            ids.len() == n,
            missing_paths.deep_view() == preview_missing(
                acts.subrange(0, i as int),
                ids.subrange(0, i as int),
            ),
            affected_items@.map_values(|it: AffectedItem| (it.path@, it.operation@))
                == preview_affected(acts.subrange(0, i as int)),
            any_del == any_delete(acts.subrange(0, i as int)),
    {
        let ghost pre_a = acts.subrange(0, i as int);
        let ghost pre_i = ids.subrange(0, i as int);
        let ghost pre_a1 = acts.subrange(0, i + 1 as int);
        let ghost pre_i1 = ids.subrange(0, i + 1 as int);
        let action = &plan.schema.actions[i];
        proof {
            assert(acts[i as int] == action.skeleton());
            assert(ids[i as int] == action.id@);
        }
        let ghost old_missing = missing_paths.deep_view();
        let ghost old_aff = affected_items@.map_values(
            |it: AffectedItem| (it.path@, it.operation@),
        );
        let ghost old_del = any_del;
        let mut here: Vec<String> = Vec::new();
        match action.args.primary_path() {
            Some(p) => {
                if crate::types::is_prompt_path(p) {
                    here.push(clone_string(&action.id));
                    affected_items.push(
                        AffectedItem {
                            path: "[Path needed]".to_owned(),
                            operation: action.action_type.variant_name().to_owned(),
                            preview: None,
                        },
                    );
                } else {
                    affected_items.push(
                        AffectedItem {
                            path: clone_string(p),
                            operation: action.action_type.variant_name().to_owned(),
                            preview: None,
                        },
                    );
                }
            },
            None => {},
        }
        match dest_path_exec(&action.args) {
            Some(p) => {
                if crate::types::is_prompt_path(p) {
                    here.push(clone_string(&action.id));
                    affected_items.push(
                        AffectedItem {
                            path: "[Destination path needed]".to_owned(),
                            operation: action.action_type.variant_name().to_owned(),
                            preview: None,
                        },
                    );
                } else {
                    affected_items.push(
                        AffectedItem {
                            path: clone_string(p),
                            operation: action.action_type.variant_name().to_owned(),
                            preview: None,
                        },
                    );
                }
            },
            None => {},
        }
        match src_path_exec(&action.args) {
            Some(p) => {
                if crate::types::is_prompt_path(p) {
                    here.push(clone_string(&action.id));
                }
            },
            None => {},
        }
        proof {
            assert(here.deep_view() =~~= action_missing(acts[i as int]).map_values(
                |u: int| ids[i as int],
            ));
            assert(affected_items@.map_values(|it: AffectedItem| (it.path@, it.operation@))
                =~~= old_aff + action_affected(acts[i as int]));
        }
        let mut here2 = here;
        missing_paths.append(&mut here2);
        let is_del = match action.action_type {
            ActionType::FsDeleteFile => true,
            _ => false,
        };
        if is_del {
            any_del = true;
        }
        proof {
            assert(pre_a1.drop_last() =~= pre_a);
            assert(pre_i1.drop_last() =~= pre_i);
            assert(pre_a1.last() == acts[i as int]);
            assert(pre_a.push(acts[i as int]) =~= pre_a1);
            assert(pre_i.push(ids[i as int]) =~= pre_i1);
            lemma_preview_missing_snoc(pre_a, pre_i, acts[i as int], ids[i as int]);
            assert(missing_paths.deep_view() =~~= old_missing + action_missing(
                acts[i as int],
            ).map_values(|u: int| ids[i as int]));
            assert(missing_paths.deep_view() =~~= preview_missing(pre_a1, pre_i1));
            lemma_preview_affected_snoc(pre_a, acts[i as int]);
            assert(affected_items@.map_values(|it: AffectedItem| (it.path@, it.operation@))
                =~~= preview_affected(pre_a1));
            if any_del != old_del || any_delete(pre_a1) != any_delete(pre_a) {
                assert(any_del == any_delete(pre_a1)) by {
                    if is_del {
                        assert(pre_a1[i as int].action_type == ActionType::FsDeleteFile);
                    } else {
                        if any_delete(pre_a1) && !any_delete(pre_a) {
                            let k = choose|k: int|
                                0 <= k < pre_a1.len() && pre_a1[k].action_type
                                    == ActionType::FsDeleteFile;
                            assert(k == i as int);
                            assert(false);
                        }
                    }
                }
            }
        }
    }
    proof {
        assert(acts.subrange(0, n as int) =~= acts);
        assert(ids.subrange(0, n as int) =~= ids);
    }
    let risk = verified.plan.schema.risk_score;
    let requires_explicit_confirmation = risk > 700 || any_del || missing_paths.len() > 0;
    let plan_copy = clone_plan(plan);
    Ok(
        PreviewResult {
            plan: plan_copy,
            risk_score: risk,
            affected_items,
            warnings: verified.verification_notes,
            requires_explicit_confirmation,
            missing_paths,
        },
    )
}

/// Appending one action extends the affected rows by that action's rows.
proof fn lemma_preview_affected_snoc(acts: Seq<ActionCore>, a: ActionCore)
    ensures
        preview_affected(acts.push(a)) == preview_affected(acts) + action_affected(a),
    decreases acts.len(),
{
    let aa = acts.push(a);
    if acts.len() == 0 {
        assert(aa.drop_first() =~= Seq::<ActionCore>::empty());
        assert(preview_affected(aa.drop_first()) =~= Seq::<(Seq<char>, Seq<char>)>::empty());
        assert(preview_affected(aa) =~= preview_affected(acts) + action_affected(a));
    } else {
        lemma_preview_affected_snoc(acts.drop_first(), a);
        assert(aa.drop_first() =~= acts.drop_first().push(a));
        assert(aa[0] == acts[0]);
        assert(preview_affected(aa) =~= preview_affected(acts) + action_affected(a));
    }
}

/// Appending one action extends the missing list by that action's marks.
proof fn lemma_preview_missing_snoc(
    acts: Seq<ActionCore>,
    ids: Seq<Seq<char>>,
    a: ActionCore,
    id: Seq<char>,
)
    requires
        acts.len() == ids.len(),
    ensures
        preview_missing(acts.push(a), ids.push(id)) == preview_missing(acts, ids)
            + action_missing(a).map_values(|u: int| id),
    decreases acts.len(),
{
    let aa = acts.push(a);
    let ii = ids.push(id);
    if acts.len() == 0 {
        assert(aa.drop_first() =~= Seq::<ActionCore>::empty());
        assert(ii.drop_first() =~= Seq::<Seq<char>>::empty());
        assert(preview_missing(aa.drop_first(), ii.drop_first()) =~= Seq::<Seq<char>>::empty());
        assert(preview_missing(aa, ii) =~= action_missing(a).map_values(|u: int| id)
            + Seq::<Seq<char>>::empty());
        assert(preview_missing(aa, ii) =~= preview_missing(acts, ids) + action_missing(
            a,
        ).map_values(|u: int| id));
    } else {
        lemma_preview_missing_snoc(acts.drop_first(), ids.drop_first(), a, id);
        assert(aa.drop_first() =~= acts.drop_first().push(a));
        assert(ii.drop_first() =~= ids.drop_first().push(id));
        assert(aa[0] == acts[0] && ii[0] == ids[0]);
        assert(preview_missing(aa, ii) =~= preview_missing(acts, ids) + action_missing(
            a,
        ).map_values(|u: int| id));
    }
}

/// The `destination_path` argument, exec side.
fn dest_path_exec(a: &crate::types::ActionArgs) -> (r: Option<&String>)
    ensures
        match r {
            Some(p) => dest_path_of(a@) == Some(p@),
            None => dest_path_of(a@) is None,
        },
{
    match a {
        crate::types::ActionArgs::CopyFile { destination_path, .. } => Some(destination_path),
        crate::types::ActionArgs::MoveFile { destination_path, .. } => Some(destination_path),
        _ => None,
    }
}

/// The `source_path` argument, exec side.
fn src_path_exec(a: &crate::types::ActionArgs) -> (r: Option<&String>)
    ensures
        match r {
            Some(p) => src_path_of(a@) == Some(p@),
            None => src_path_of(a@) is None,
        },
{
    match a {
        crate::types::ActionArgs::CopyFile { source_path, .. } => Some(source_path),
        crate::types::ActionArgs::MoveFile { source_path, .. } => Some(source_path),
        _ => None,
    }
}

} // verus!
