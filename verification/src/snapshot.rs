//! The snapshot manager: backs up single files before destructive actions
//! and restores them on rollback or undo. One instance serves one
//! execution call. This manager owns the backed-up bytes itself, so a
//! snapshot record's `snapshot_path` is simply its id.

use vstd::prelude::*;
use crate::types::{clone_string, ActionSnapshot, CoreError, RETENTION_SECONDS};
use crate::fs_model::{sset, FsNode, FsState, NodeV};
use crate::runtime::{self, TIME_MAX};

verus! {

/// Mathematical view of a snapshot record.
pub struct SnapMetaV {
    pub id: Seq<char>,
    pub action_id: Seq<char>,
    pub original_path: Seq<char>,
    pub snapshot_path: Seq<char>,
    pub created_at: int,
    pub retention_until: int,
}

impl View for ActionSnapshot {
    type V = SnapMetaV;

    open spec fn view(&self) -> SnapMetaV {
        SnapMetaV {
            id: self.id@,
            action_id: self.action_id@,
            original_path: self.original_path@,
            snapshot_path: self.snapshot_path@,
            created_at: self.created_at as int,
            retention_until: self.retention_until as int,
        }
    }
}

/// A snapshot record together with the backed-up bytes.
pub struct StoredSnapshot {
    pub meta: ActionSnapshot,
    pub content: String,
}

/// Mathematical view of a stored snapshot.
pub struct SnapV {
    pub meta: SnapMetaV,
    pub content: Seq<char>,
}

impl View for StoredSnapshot {
    type V = SnapV;

    open spec fn view(&self) -> SnapV {
        SnapV { meta: self.meta@, content: self.content@ }
    }
}

/// Holds the snapshots of one execution call.
pub struct SnapshotManager {
    pub snapshots: Vec<StoredSnapshot>,
    pub user_home: String,
}

impl View for SnapshotManager {
    type V = Seq<SnapV>;

    open spec fn view(&self) -> Seq<SnapV> {
        self.snapshots@.map_values(|s: StoredSnapshot| s@)
    }
}

/// First stored snapshot whose handle is `snapshot_path`.
pub open spec fn find_snap(sv: Seq<SnapV>, snapshot_path: Seq<char>) -> Option<SnapV>
    decreases sv.len(),
{
    if sv.len() == 0 {
        None
    } else if sv[0].meta.snapshot_path == snapshot_path {
        Some(sv[0])
    } else {
        find_snap(sv.drop_first(), snapshot_path)
    }
}

/// First stored snapshot taken for the given action.
pub open spec fn find_snap_by_action(sv: Seq<SnapV>, action_id: Seq<char>) -> Option<SnapV>
    decreases sv.len(),
{
    if sv.len() == 0 {
        None
    } else if sv[0].meta.action_id == action_id {
        Some(sv[0])
    } else {
        find_snap_by_action(sv.drop_first(), action_id)
    }
}

/// The store with the first snapshot of the given handle removed.
pub open spec fn snap_remove(sv: Seq<SnapV>, snapshot_path: Seq<char>) -> Seq<SnapV>
    decreases sv.len(),
{
    if sv.len() == 0 {
        sv
    } else if sv[0].meta.snapshot_path == snapshot_path {
        sv.drop_first()
    } else {
        seq![sv[0]] + snap_remove(sv.drop_first(), snapshot_path)
    }
}

/// How many of the given records have lapsed at time `now`.
pub open spec fn count_expired(rs: Seq<ActionSnapshot>, now: int) -> int
    decreases rs.len(),
{
    if rs.len() == 0 {
        0
    } else {
        (if rs[0]@.retention_until < now {
            1int
        } else {
            0int
        }) + count_expired(rs.drop_first(), now)
    }
}

/// The store after purging every lapsed record of the given list.
pub open spec fn purge(sv: Seq<SnapV>, rs: Seq<ActionSnapshot>, now: int) -> Seq<SnapV>
    decreases rs.len(),
{
    if rs.len() == 0 {
        sv
    } else {
        let next = if rs[0]@.retention_until < now {
            snap_remove(sv, rs[0]@.snapshot_path)
        } else {
            sv
        };
        purge(next, rs.drop_first(), now)
    }
}

impl SnapshotManager {
    /// A fresh manager for one execution call.
    pub fn new(user_home: String) -> (r: Result<SnapshotManager, CoreError>)
        ensures
            r matches Ok(m) && m@ == Seq::<SnapV>::empty() && m.user_home@ == user_home@,
    {
        let m = SnapshotManager { snapshots: Vec::new(), user_home };
        proof {
            assert(m@ =~= Seq::<SnapV>::empty());
        }
        Ok(m)
    }

    /// Back up the regular file at `original_path` before a destructive
    /// action touches it. Fails if the path is missing or not a regular
    /// file; on success the record's retention runs seven days from now.
    pub fn create_snapshot(
        &mut self,
        action_id: &String,
        original_path: &String,
        fs: &FsState,
    ) -> (r: Result<ActionSnapshot, CoreError>)
        ensures
            match r {
                Ok(m) => {
                    &&& fs.lookup(original_path@) matches Some(e) && e.node == (NodeV::File {
                        content: final(self)@.last().content,
                    })
                    &&& final(self)@ == old(self)@.push(
                        SnapV { meta: m@, content: final(self)@.last().content },
                    )
                    &&& m@.action_id == action_id@
                    &&& m@.original_path == original_path@
                    &&& m@.snapshot_path == m@.id
                    &&& m@.retention_until == m@.created_at + RETENTION_SECONDS
                    &&& 0 <= m@.created_at <= TIME_MAX
                },
                Err(e) => {
                    &&& !(fs.lookup(original_path@) matches Some(en) && en.node is File)
                    &&& final(self)@ == old(self)@
                    &&& e matches CoreError::SnapshotFailure { path } && path@ == original_path@
                },
            },
    {
        if !fs.path_exists(original_path) {
            return Err(CoreError::SnapshotFailure { path: clone_string(original_path) });
        }
        if !fs.is_file(original_path) {
            return Err(CoreError::SnapshotFailure { path: clone_string(original_path) });
        }
        let content = match fs.read(original_path) {
            Some(c) => clone_string(c),
            None => {
                proof {
                    assert(false);
                }
                String::new()
            },
        };
        let snapshot_id = runtime::fresh_id();
        let created_at = runtime::current_time();
        let meta = ActionSnapshot {
            id: clone_string(&snapshot_id),
            action_id: clone_string(action_id),
            original_path: clone_string(original_path),
            snapshot_path: snapshot_id,
            created_at,
            retention_until: created_at + RETENTION_SECONDS,
        };
        let ghost old_view = self@;
        let stored = StoredSnapshot {
            meta: ActionSnapshot {
                id: clone_string(&meta.id),
                action_id: clone_string(&meta.action_id),
                original_path: clone_string(&meta.original_path),
                snapshot_path: clone_string(&meta.snapshot_path),
                created_at: meta.created_at,
                retention_until: meta.retention_until,
            },
            content,
        };
        let ghost sv = stored@;
        self.snapshots.push(stored);
        proof {
            assert(self@ =~= old_view.push(sv));
        }
        Ok(meta)
    }

    /// Copy a snapshot's bytes back to its original path. Restoring is
    /// idempotent: doing it twice leaves the model exactly as doing it
    /// once (see [`lemma_restore_idempotent`]).
    pub fn restore_from_snapshot(&self, snapshot: &ActionSnapshot, fs: &mut FsState) -> (r:
        Result<(), CoreError>)
        requires
            old(fs).wf(),
        ensures
            final(fs).wf(),
            final(fs)@.cwd == old(fs)@.cwd,
            match r {
                Ok(_) => {
                    &&& find_snap(self@, snapshot.snapshot_path@) matches Some(sv)
                    &&& final(fs)@.entries == sset(
                        old(fs)@.entries,
                        snapshot.original_path@,
                        NodeV::File { content: sv.content },
                    )
                },
                Err(e) => {
                    &&& find_snap(self@, snapshot.snapshot_path@) is None
                    &&& final(fs)@ == old(fs)@
                    &&& e is SnapshotFailure
                },
            },
    {
        let n = self.snapshots.len();
        proof {
            assert(self@.subrange(0, n as int) =~= self@);
        }
        for i in 0..n
            invariant
                n == self.snapshots@.len(),
                old(fs).wf(),
                *fs == *old(fs),
                find_snap(self@, snapshot.snapshot_path@) == find_snap(
                    self@.subrange(i as int, n as int),
                    snapshot.snapshot_path@,
                ),
        {
            let ghost suf = self@.subrange(i as int, n as int);
            proof {
                assert(suf[0] == self@[i as int]);
                assert(self@[i as int] == self.snapshots@[i as int]@);
                assert(suf.drop_first() =~= self@.subrange(i + 1, n as int));
            }
            let stored = &self.snapshots[i];
            if crate::text::str_eq(
                stored.meta.snapshot_path.as_str(),
                snapshot.snapshot_path.as_str(),
            ) {
                fs.set_node(
                    &snapshot.original_path,
                    FsNode::File { content: clone_string(&stored.content) },
                );
                return Ok(());
            }
        }
        proof {
            assert(self@.subrange(n as int, n as int) =~= Seq::<SnapV>::empty());
        }
        Err(CoreError::SnapshotFailure { path: clone_string(&snapshot.original_path) })
    }

    /// Drop a snapshot's stored bytes; succeeds whether or not the handle
    /// is still present.
    pub fn delete_snapshot(&mut self, snapshot: &ActionSnapshot) -> (r: Result<(), CoreError>)
        ensures
            r is Ok,
            final(self)@ == snap_remove(old(self)@, snapshot.snapshot_path@),
    {
        let n = self.snapshots.len();
        let ghost whole = self@;
        for i in 0..n
            invariant
                n == self.snapshots@.len(),
                self@ == whole,
                whole == old(self)@,
                forall|k: int| 0 <= k < i ==> whole[k].meta.snapshot_path != snapshot.snapshot_path@,
        {
            proof {
                assert(whole[i as int] == self.snapshots@[i as int]@);
            }
            let stored = &self.snapshots[i];
            if crate::text::str_eq(
                stored.meta.snapshot_path.as_str(),
                snapshot.snapshot_path.as_str(),
            ) {
                self.snapshots.remove(i);
                proof {
                    lemma_snap_remove_at(whole, snapshot.snapshot_path@, i as int);
                    assert(self@ =~= whole.remove(i as int));
                }
                return Ok(());
            }
        }
        proof {
            lemma_snap_remove_absent(whole, snapshot.snapshot_path@);
        }
        Ok(())
    }

    /// Purge every record of `records` whose retention has lapsed; yields
    /// how many were purged. Judged against the process clock.
    #[verifier::loop_isolation(false)]
    pub fn cleanup_expired(&mut self, records: Vec<ActionSnapshot>) -> (r: Result<
        usize,
        CoreError,
    >)
        ensures
            r matches Ok(count) && exists|now: i64|
                0 <= now <= TIME_MAX && count == count_expired(records@, now as int)
                    && final(self)@ == purge(old(self)@, records@, now as int),
    {
        let now = runtime::current_time();
        let ghost start = self@;
        let n = records.len();
        let mut cleaned: usize = 0;
        proof {
            assert(records@.subrange(0, n as int) =~= records@);
            assert(records@.subrange(0, 0) =~= Seq::<ActionSnapshot>::empty());
            assert(count_expired(records@.subrange(0, 0), now as int) == 0);
        }
        for i in 0..n
            invariant
                n == records@.len(),
                cleaned <= i,
                cleaned == count_expired(records@.subrange(0, i as int), now as int),
                purge(start, records@, now as int) == purge(
                    self@,
                    records@.subrange(i as int, n as int),
                    now as int,
                ),
        {
            let ghost suf = records@.subrange(i as int, n as int);
            let ghost pre = records@.subrange(0, i as int);
            proof {
                assert(suf[0] == records@[i as int]);
                assert(suf.drop_first() =~= records@.subrange(i + 1, n as int));
                assert(records@.subrange(0, i + 1 as int).drop_last() =~= pre);
                assert(records@.subrange(0, i + 1 as int).last() == records@[i as int]);
                assert(pre.push(records@[i as int]) =~= records@.subrange(0, i + 1 as int));
                lemma_count_expired_snoc(pre, records@[i as int], now as int);
            }
            let rec = &records[i];
            if rec.retention_until < now {
                match self.delete_snapshot(rec) {
                    Ok(_) => {
                        cleaned = cleaned + 1;
                    },
                    Err(_) => {},
                }
            }
        }
        proof {
            assert(records@.subrange(0, n as int) =~= records@);
            assert(records@.subrange(n as int, n as int) =~= Seq::<ActionSnapshot>::empty());
        }
        Ok(cleaned)
    }
}

/// Counting expired records extends by one step.
proof fn lemma_count_expired_snoc(rs: Seq<ActionSnapshot>, a: ActionSnapshot, now: int)
    ensures
        count_expired(rs.push(a), now) == count_expired(rs, now) + (if a@.retention_until < now {
            1int
        } else {
            0int
        }),
    decreases rs.len(),
{
    let p = rs.push(a);
    if rs.len() == 0 {
        assert(p.drop_first() =~= Seq::<ActionSnapshot>::empty());
        assert(p[0] == a);
        assert(count_expired(Seq::<ActionSnapshot>::empty(), now) == 0);
        assert(count_expired(rs, now) == 0);
    } else {
        lemma_count_expired_snoc(rs.drop_first(), a, now);
        assert(p.drop_first() =~= rs.drop_first().push(a));
        assert(p[0] == rs[0]);
    }
}

proof fn lemma_snap_remove_at(sv: Seq<SnapV>, handle: Seq<char>, i: int)
    requires
        0 <= i < sv.len(),
        sv[i].meta.snapshot_path == handle,
        forall|k: int| 0 <= k < i ==> sv[k].meta.snapshot_path != handle,
    ensures
        snap_remove(sv, handle) == sv.remove(i),
    decreases sv.len(),
{
    if i == 0 {
        assert(snap_remove(sv, handle) =~= sv.remove(0));
    } else {
        let d = sv.drop_first();
        assert(forall|k: int|
            0 <= k < i - 1 ==> d[k] == sv[k + 1] && sv[k + 1].meta.snapshot_path != handle);
        assert(d[i - 1] == sv[i]);
        lemma_snap_remove_at(d, handle, i - 1);
        assert(snap_remove(sv, handle) =~= sv.remove(i));
    }
}

proof fn lemma_snap_remove_absent(sv: Seq<SnapV>, handle: Seq<char>)
    requires
        forall|k: int| 0 <= k < sv.len() ==> #[trigger] sv[k].meta.snapshot_path != handle,
    ensures
        snap_remove(sv, handle) == sv,
    decreases sv.len(),
{
    if sv.len() > 0 {
        let d = sv.drop_first();
        assert(forall|k: int|
            0 <= k < d.len() ==> d[k] == sv[k + 1] && sv[k + 1].meta.snapshot_path != handle);
        lemma_snap_remove_absent(d, handle);
        assert(snap_remove(sv, handle) =~= sv);
    }
}

/// Restoring a snapshot is idempotent: writing the same bytes to the same
/// path twice leaves the model exactly as writing them once.
pub proof fn lemma_restore_idempotent(
    ents: Seq<crate::fs_model::EntryV>,
    path: Seq<char>,
    content: Seq<char>,
)
    ensures
        sset(
            sset(ents, path, NodeV::File { content }),
            path,
            NodeV::File { content },
        ) == sset(ents, path, NodeV::File { content }),
    decreases ents.len(),
{
    let nd = NodeV::File { content };
    let once = sset(ents, path, nd);
    if ents.len() == 0 {
        assert(sset(once, path, nd) =~= once);
    } else if ents[0].path == path {
        assert(once[0].path == path);
        assert(once.drop_first() =~= ents.drop_first());
        assert(sset(once, path, nd) =~= once);
    } else {
        lemma_restore_idempotent(ents.drop_first(), path, content);
        assert(once[0] == ents[0]);
        assert(once.drop_first() =~= sset(ents.drop_first(), path, nd));
        assert(sset(once, path, nd) =~= once);
    }
}

} // verus!
