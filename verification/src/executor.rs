//! The executor: runs a plan's actions strictly in order against the
//! filesystem model, taking a snapshot of the target of every destructive
//! action (move, delete) that exists as a regular file, and rolling every
//! snapshot taken so far back — in reverse order — when an action fails.
//! Rollback is type-scoped and best-effort: files created earlier in the
//! same failed plan are not undone.
//!
//! When a capability token is supplied, every action that carries a `path`
//! argument must be covered by one of the token's scopes before any side
//! effect occurs; without a token execution is unrestricted.

use vstd::prelude::*;
use crate::types::{
    clone_string, primary_path_of, ActionArgs, ActionCore, ActionExecutionResult, ActionPlan,
    ActionResult, ActionType, ArgsV, CapabilityToken, CoreError, FsErrV, RETENTION_SECONDS,
};
use crate::fs_model::{
    apply_args, execute_fs_action, slookup, sset, EntryV, FsNode, FsState, NodeV,
};
use crate::policy::{check_permission, scope_grants, TokenV};
use crate::snapshot::{find_snap, SnapV, SnapshotManager};
use crate::runtime::TIME_MAX;

verus! {

/// Only moves and deletes are snapshot-eligible.
pub open spec fn needs_snap(t: ActionType) -> bool {
    t == ActionType::FsDeleteFile || t == ActionType::FsMoveFile
}

/// Exec form of [`needs_snap`].
pub fn needs_snapshot(action_type: &ActionType) -> (r: bool)
    ensures
        r == needs_snap(*action_type),
{
    match action_type {
        ActionType::FsDeleteFile => true,
        ActionType::FsMoveFile => true,
        _ => false,
    }
}

/// The path an action's snapshot would back up: its `path` argument, or
/// its `source_path` for the kinds that have none.
pub open spec fn snap_source(a: ArgsV) -> Seq<char> {
    match a {
        ArgsV::CreateFile { path, .. } => path,
        ArgsV::ReadFile { path } => path,
        ArgsV::DeleteFile { path } => path,
        ArgsV::CreateDirectory { path } => path,
        ArgsV::CopyFile { source_path, .. } => source_path,
        ArgsV::MoveFile { source_path, .. } => source_path,
    }
}

/// Exec form of [`snap_source`].
fn snap_source_exec(a: &ActionArgs) -> (r: &String)
    ensures
        r@ == snap_source(a@),
{
    match a {
        ActionArgs::CreateFile { path, .. } => path,
        ActionArgs::ReadFile { path } => path,
        ActionArgs::DeleteFile { path } => path,
        ActionArgs::CreateDirectory { path } => path,
        ActionArgs::CopyFile { source_path, .. } => source_path,
        ActionArgs::MoveFile { source_path, .. } => source_path,
    }
}

/// What rollback needs of a snapshot: the backed-up path and its bytes.
pub struct SnapRec {
    pub path: Seq<char>,
    pub content: Seq<char>,
}

/// The rollback-relevant part of a snapshot store.
pub open spec fn snap_recs_of(sv: Seq<SnapV>) -> Seq<SnapRec> {
    sv.map_values(|s: SnapV| SnapRec { path: s.meta.original_path, content: s.content })
}

/// The content of the regular file at `p`, empty when there is none.
pub open spec fn file_content_at(ents: Seq<EntryV>, p: Seq<char>) -> Seq<char> {
    match slookup(ents, p) {
        Some(e) => match e.node {
            NodeV::File { content } => content,
            NodeV::Dir => Seq::empty(),
        },
        None => Seq::empty(),
    }
}

/// A snapshot is taken for an action iff its kind is snapshot-eligible and
/// its snapshot source exists as a regular file.
pub open spec fn would_snap(ents: Seq<EntryV>, a: ActionCore) -> bool {
    needs_snap(a.action_type) && (slookup(ents, snap_source(a.args)) matches Some(e) && e.node
        is File)
}

/// Restore the given snapshots in reverse order.
pub open spec fn rollback(ents: Seq<EntryV>, snaps: Seq<SnapRec>) -> Seq<EntryV>
    decreases snaps.len(),
{
    if snaps.len() == 0 {
        ents
    } else {
        rollback(
            sset(ents, snaps.last().path, NodeV::File { content: snaps.last().content }),
            snaps.drop_last(),
        )
    }
}

/// The transcript of running a plan's actions.
pub enum RunResult {
    /// Every action succeeded: the final entries and the snapshots taken.
    Finished { ents: Seq<EntryV>, snaps: Seq<SnapRec> },
    /// Action `at` failed with `err`: the entries after rolling back the
    /// snapshots taken so far, and those snapshots.
    Aborted { ents: Seq<EntryV>, snaps: Seq<SnapRec>, at: int, err: FsErrV },
}

/// Run the actions in order from index `at`, snapshotting eligible targets
/// before each action and rolling back at the first failure.
pub open spec fn run_plan(
    ents: Seq<EntryV>,
    acts: Seq<ActionCore>,
    snaps: Seq<SnapRec>,
    at: int,
) -> RunResult
    decreases acts.len(),
{
    if acts.len() == 0 {
        RunResult::Finished { ents, snaps }
    } else {
        let a = acts[0];
        let snaps2 = if would_snap(ents, a) {
            snaps.push(
                SnapRec {
                    path: snap_source(a.args),
                    content: file_content_at(ents, snap_source(a.args)),
                },
            )
        } else {
            snaps
        };
        match apply_args(ents, a.args) {
            Ok(e2) => run_plan(e2, acts.drop_first(), snaps2, at + 1),
            Err(err) => RunResult::Aborted { ents: rollback(ents, snaps2), snaps: snaps2, at, err },
        }
    }
}

/// The token covers `p` for the filesystem domain.
pub open spec fn granted(tok: TokenV, p: Seq<char>) -> bool {
    exists|k: int| 0 <= k < tok.scopes.len() && scope_grants(tok.scopes[k], "fs"@, p)
}

/// The first `path` argument of the plan the token does not cover.
pub open spec fn first_denied(tok: TokenV, acts: Seq<ActionCore>) -> Option<Seq<char>>
    decreases acts.len(),
{
    if acts.len() == 0 {
        None
    } else {
        match primary_path_of(acts[0].args) {
            Some(p) => if !granted(tok, p) {
                Some(p)
            } else {
                first_denied(tok, acts.drop_first())
            },
            None => first_denied(tok, acts.drop_first()),
        }
    }
}

/// The outcome of a rollback pass over explicit records: whether every
/// record's bytes were found, and the entries reached (records restored in
/// reverse order until the first missing one).
pub open spec fn rollback_run(
    ents: Seq<EntryV>,
    mgr: Seq<SnapV>,
    metas: Seq<crate::types::ActionSnapshot>,
) -> (bool, Seq<EntryV>)
    decreases metas.len(),
{
    if metas.len() == 0 {
        (true, ents)
    } else {
        match find_snap(mgr, metas.last()@.snapshot_path) {
            None => (false, ents),
            Some(sv) => rollback_run(
                sset(ents, metas.last()@.original_path, NodeV::File { content: sv.content }),
                mgr,
                metas.drop_last(),
            ),
        }
    }
}

/// Restore the given snapshot records in reverse order, stopping at the
/// first whose bytes the manager no longer holds. Partial rollback is
/// possible: snapshots already restored stay restored.
#[verifier::loop_isolation(false)]
pub fn rollback_actions(
    snapshots: &Vec<crate::types::ActionSnapshot>,
    manager: &SnapshotManager,
    fs: &mut FsState,
) -> (r: Result<(), CoreError>)
    requires
        old(fs).wf(),
    ensures
        final(fs).wf(),
        final(fs)@.cwd == old(fs)@.cwd,
        final(fs)@.entries == rollback_run(old(fs)@.entries, manager@, snapshots@).1,
        r is Ok <==> rollback_run(old(fs)@.entries, manager@, snapshots@).0,
        r matches Err(e) ==> e is SnapshotFailure,
{
    let ghost ents0 = fs@.entries;
    let n = snapshots.len();
    let mut j = n;
    proof {
        assert(snapshots@.subrange(0, n as int) =~= snapshots@);
    }
    while j > 0
        invariant
            j <= n,
            n == snapshots@.len(),
            fs.wf(),
            fs@.cwd == old(fs)@.cwd,
            rollback_run(ents0, manager@, snapshots@) == rollback_run(
                fs@.entries,
                manager@,
                snapshots@.subrange(0, j as int),
            ),
        decreases j,
    {
        let ghost pre = snapshots@.subrange(0, j as int);
        proof {
            assert(pre.last() == snapshots@[j - 1]);
            assert(pre.drop_last() =~= snapshots@.subrange(0, j - 1));
        }
        let rec = &snapshots[j - 1];
        match manager.restore_from_snapshot(rec, fs) {
            Ok(_) => {},
            Err(_) => {
                return Err(
                    CoreError::SnapshotFailure { path: clone_string(&rec.original_path) },
                );
            },
        }
        j = j - 1;
    }
    proof {
        assert(snapshots@.subrange(0, 0) =~= Seq::<crate::types::ActionSnapshot>::empty());
    }
    Ok(())
}

/// Execute a plan: check the token's scopes first when one is supplied
/// (no side effect happens on denial), then run the actions in order with
/// snapshots and rollback as [`run_plan`] describes. On success the result
/// reports one per-action outcome, whether an undo is available, and an
/// undo window of seven days from `now`.
#[verifier::loop_isolation(false)]
pub fn execute_action_plan(
    plan: &ActionPlan,
    capability_token: Option<&CapabilityToken>,
    fs: &mut FsState,
    manager: &mut SnapshotManager,
    now: i64,
) -> (r: Result<ActionResult, CoreError>)
    requires
        old(fs).wf(),
        0 <= now <= TIME_MAX,
    ensures
        final(fs).wf(),
        final(fs)@.cwd == old(fs)@.cwd,
        final(manager)@.len() >= old(manager)@.len(),
        final(manager)@.subrange(0, old(manager)@.len() as int) == old(manager)@,
        match r {
            Ok(res) => {
                &&& (capability_token matches Some(t) ==> first_denied(
                    t@,
                    plan.skeleton().actions,
                ) is None)
                &&& run_plan(
                    old(fs)@.entries,
                    plan.skeleton().actions,
                    Seq::<SnapRec>::empty(),
                    0,
                ) == (RunResult::Finished {
                    ents: final(fs)@.entries,
                    snaps: snap_recs_of(
                        final(manager)@.subrange(
                            old(manager)@.len() as int,
                            final(manager)@.len() as int,
                        ),
                    ),
                })
                &&& res.action_id@ == plan.schema.id@
                &&& res.success == true
                &&& res.error is None
                &&& res.executed_at == now
                &&& res.results@.len() == plan.schema.actions@.len()
                &&& (forall|k: int|
                    0 <= k < res.results@.len() ==> (#[trigger] res.results@[k]).action_id@
                        == plan.schema.actions@[k].id@ && res.results@[k].success == true)
                &&& res.undo_available == (final(manager)@.len() > old(manager)@.len())
                &&& res.undo_ttl matches Some(ttl) && ttl == now + RETENTION_SECONDS
            },
            Err(e) => match e {
                CoreError::PermissionDenied { path } => {
                    &&& capability_token matches Some(t) && first_denied(
                        t@,
                        plan.skeleton().actions,
                    ) == Some(path@)
                    &&& final(fs)@ == old(fs)@
                    &&& final(manager)@ == old(manager)@
                },
                CoreError::ExecutionFailure { action_id, error } => {
                    &&& (capability_token matches Some(t) ==> first_denied(
                        t@,
                        plan.skeleton().actions,
                    ) is None)
                    &&& run_plan(
                        old(fs)@.entries,
                        plan.skeleton().actions,
                        Seq::<SnapRec>::empty(),
                        0,
                    ) matches RunResult::Aborted { ents, snaps, at, err } && ents
                        == final(fs)@.entries && err == error@ && 0 <= at < plan.schema.actions@.len()
                        && action_id@ == plan.schema.actions@[at].id@ && snaps == snap_recs_of(
                        final(manager)@.subrange(
                            old(manager)@.len() as int,
                            final(manager)@.len() as int,
                        ),
                    )
                },
                _ => false,
            },
        },
{
    let ghost acts = plan.skeleton().actions;
    let n = plan.schema.actions.len();
    proof {
        assert(acts.len() == n);
        assert(acts.subrange(0, n as int) =~= acts);
    }
    match capability_token {
        Some(token) => {
            proof {
                assert(forall|k: int|
                    0 <= k < token.scopes@.len() ==> token@.scopes[k]
                        == (#[trigger] token.scopes@[k])@);
            }
            for i in 0..n
                invariant
                    n == plan.schema.actions@.len(),
                    first_denied(token@, acts) == first_denied(
                        token@,
                        acts.subrange(i as int, n as int),
                    ),
            {
                let ghost suf = acts.subrange(i as int, n as int);
                proof {
                    assert(suf[0] == acts[i as int]);
                    assert(acts[i as int] == plan.schema.actions@[i as int].skeleton());
                    assert(suf.drop_first() =~= acts.subrange(i + 1, n as int));
                }
                let action = &plan.schema.actions[i];
                match action.args.primary_path() {
                    Some(p) => {
                        if !check_permission(token, "fs", p.as_str()) {
                            proof {
                                assert(!granted(token@, p@));
                            }
                            return Err(CoreError::PermissionDenied { path: clone_string(p) });
                        }
                        proof {
                            assert(granted(token@, p@));
                        }
                    },
                    None => {},
                }
            }
            proof {
                assert(acts.subrange(n as int, n as int) =~= Seq::<ActionCore>::empty());
            }
        },
        None => {},
    }
    let ghost ents0 = fs@.entries;
    let ghost mgr0 = manager@;
    let mgr_base = manager.snapshots.len();
    proof {
        assert(mgr_base == mgr0.len());
    }
    let mut results: Vec<ActionExecutionResult> = Vec::new();
    proof {
        assert(manager@.subrange(mgr0.len() as int, manager@.len() as int) =~= Seq::<
            SnapV,
        >::empty());
        assert(snap_recs_of(Seq::<SnapV>::empty()) =~= Seq::<SnapRec>::empty());
    }
    for i in 0..n
        invariant
            n == plan.schema.actions@.len(),
            fs.wf(),
            fs@.cwd == old(fs)@.cwd,
            manager@.len() >= mgr0.len(),
            manager@.subrange(0, mgr0.len() as int) == mgr0,
            run_plan(ents0, acts, Seq::<SnapRec>::empty(), 0) == run_plan(
                fs@.entries,
                acts.subrange(i as int, n as int),
                snap_recs_of(manager@.subrange(mgr0.len() as int, manager@.len() as int)),
                i as int,
            ),
            results@.len() == i,
            forall|k: int|
                0 <= k < i ==> (#[trigger] results@[k]).action_id@
                    == plan.schema.actions@[k].id@ && results@[k].success == true,
    {
        let ghost suf = acts.subrange(i as int, n as int);
        let ghost cur_ents = fs@.entries;
        let ghost cur_recs = snap_recs_of(
            manager@.subrange(mgr0.len() as int, manager@.len() as int),
        );
        proof {
            assert(suf[0] == acts[i as int]);
            assert(acts[i as int] == plan.schema.actions@[i as int].skeleton());
            assert(suf.drop_first() =~= acts.subrange(i + 1, n as int));
        }
        let action = &plan.schema.actions[i];
        let mut snap_id: Option<String> = None;
        if needs_snapshot(&action.action_type) {
            let sp = snap_source_exec(&action.args);
            if fs.path_exists(sp) && fs.is_file(sp) {
                match manager.create_snapshot(&action.id, sp, fs) {
                    Ok(meta) => {
                        snap_id = Some(meta.id);
                    },
                    Err(_) => {
                        proof {
                            assert(false);
                        }
                    },
                }
                proof {
                    assert(would_snap(cur_ents, acts[i as int]));
                    assert(manager@.subrange(0, mgr0.len() as int) =~= mgr0);
                    assert(snap_recs_of(
                        manager@.subrange(mgr0.len() as int, manager@.len() as int),
                    ) =~= cur_recs.push(
                        SnapRec {
                            path: snap_source(acts[i as int].args),
                            content: file_content_at(cur_ents, snap_source(acts[i as int].args)),
                        },
                    ));
                }
            } else {
                proof {
                    assert(!would_snap(cur_ents, acts[i as int]));
                }
            }
        } else {
            proof {
                assert(!would_snap(cur_ents, acts[i as int]));
            }
        }
        let ghost recs2 = snap_recs_of(
            manager@.subrange(mgr0.len() as int, manager@.len() as int),
        );
        match execute_fs_action(action, fs) {
            Ok(res) => {
                let filled = ActionExecutionResult {
                    action_id: res.action_id,
                    success: res.success,
                    output: res.output,
                    error: res.error,
                    snapshot_id: snap_id,
                };
                results.push(filled);
            },
            Err(e) => {
                // roll the snapshots taken by this call back, newest first
                let ghost fail_ents = fs@.entries;
                proof {
                    assert(fail_ents == cur_ents);
                    assert(recs2.subrange(0, recs2.len() as int) =~= recs2);
                }
                let mut k = manager.snapshots.len();
                let floor = mgr_base;
                while k > floor
                    invariant
                        floor <= k <= manager.snapshots@.len(),
                        floor == mgr0.len(),
                        manager@.len() == manager.snapshots@.len(),
                        manager@.subrange(0, mgr0.len() as int) == mgr0,
                        recs2 == snap_recs_of(
                            manager@.subrange(mgr0.len() as int, manager@.len() as int),
                        ),
                        fs.wf(),
                        fs@.cwd == old(fs)@.cwd,
                        rollback(fail_ents, recs2) == rollback(
                            fs@.entries,
                            recs2.subrange(0, k - floor),
                        ),
                    decreases k,
                {
                    let ghost pre = recs2.subrange(0, k - floor);
                    proof {
                        assert(manager@[k - 1] == manager.snapshots@[k - 1]@);
                        assert(pre.last() == recs2[k - floor - 1]);
                        assert(recs2[k - floor - 1] == snap_recs_of(
                            manager@.subrange(mgr0.len() as int, manager@.len() as int),
                        )[k - floor - 1]);
                        assert(pre.drop_last() =~= recs2.subrange(0, k - floor - 1));
                    }
                    let stored = &manager.snapshots[k - 1];
                    fs.set_node(
                        &stored.meta.original_path,
                        FsNode::File { content: clone_string(&stored.content) },
                    );
                    k = k - 1;
                }
                proof {
                    assert(recs2.subrange(0, 0) =~= Seq::<SnapRec>::empty());
                }
                return Err(
                    CoreError::ExecutionFailure { action_id: clone_string(&action.id), error: e },
                );
            },
        }
    }
    proof {
        assert(acts.subrange(n as int, n as int) =~= Seq::<ActionCore>::empty());
    }
    let undo_available = manager.snapshots.len() > mgr_base;
    Ok(
        ActionResult {
            action_id: clone_string(&plan.schema.id),
            success: true,
            executed_at: now,
            results,
            error: None,
            undo_available,
            undo_ttl: Some(now + RETENTION_SECONDS),
        },
    )
}

/// Undo an executed action: restore the first snapshot recorded for it.
/// Restoring is idempotent and safe to retry (see
/// [`crate::snapshot::lemma_restore_idempotent`]); the snapshot record
/// itself is looked up externally in general, here in the given manager.
#[verifier::loop_isolation(false)]
pub fn undo_action(action_id: &String, manager: &SnapshotManager, fs: &mut FsState) -> (r: Result<
    (),
    CoreError,
>)
    requires
        old(fs).wf(),
    ensures
        final(fs).wf(),
        final(fs)@.cwd == old(fs)@.cwd,
        match r {
            Ok(_) => {
                &&& crate::snapshot::find_snap_by_action(manager@, action_id@) matches Some(sv)
                &&& final(fs)@.entries == sset(
                    old(fs)@.entries,
                    sv.meta.original_path,
                    NodeV::File { content: sv.content },
                )
            },
            Err(e) => {
                &&& crate::snapshot::find_snap_by_action(manager@, action_id@) is None
                &&& final(fs)@ == old(fs)@
                &&& e is SnapshotFailure
            },
        },
{
    let n = manager.snapshots.len();
    proof {
        assert(manager@.subrange(0, n as int) =~= manager@);
    }
    for i in 0..n
        invariant
            n == manager.snapshots@.len(),
            *fs == *old(fs),
            crate::snapshot::find_snap_by_action(manager@, action_id@)
                == crate::snapshot::find_snap_by_action(
                manager@.subrange(i as int, n as int),
                action_id@,
            ),
    {
        let ghost suf = manager@.subrange(i as int, n as int);
        proof {
            assert(suf[0] == manager@[i as int]);
            assert(manager@[i as int] == manager.snapshots@[i as int]@);
            assert(suf.drop_first() =~= manager@.subrange(i + 1, n as int));
        }
        let stored = &manager.snapshots[i];
        if crate::text::str_eq(stored.meta.action_id.as_str(), action_id.as_str()) {
            fs.set_node(
                &stored.meta.original_path,
                FsNode::File { content: clone_string(&stored.content) },
            );
            return Ok(());
        }
    }
    proof {
        assert(manager@.subrange(n as int, n as int) =~= Seq::<SnapV>::empty());
    }
    Err(CoreError::SnapshotFailure { path: clone_string(action_id) })
}

} // verus!
