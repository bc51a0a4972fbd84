//! The filesystem model the core verifies and executes against: a flat map
//! from absolute path strings to nodes (regular files with text content, or
//! directories), plus the current working directory used to resolve
//! relative paths.
//!
//! The model is deliberately flat: an entry exists only when it was created
//! explicitly, and creating a file does not implicitly record its parent
//! directories. A host process owns the real disk; it builds a model of the
//! paths a plan touches, runs the verified pipeline against it, and applies
//! the outcome.

use vstd::prelude::*;
use crate::text;
use crate::types::{
    clone_string, Action, ActionArgs, ActionExecutionResult, ActionOutput, ArgsV, FsErrV,
    FsError, OutputV,
};

verus! {

/// A node of the filesystem model.
pub enum FsNode {
    File { content: String },
    Dir,
}

/// Mathematical view of a node.
pub enum NodeV {
    File { content: Seq<char> },
    Dir,
}

impl View for FsNode {
    type V = NodeV;

    open spec fn view(&self) -> NodeV {
        match self {
            FsNode::File { content } => NodeV::File { content: content@ },
            FsNode::Dir => NodeV::Dir,
        }
    }
}

/// One entry of the model: a path, its node, and whether the path may be
/// written through (used by the `writable` precondition on its children).
pub struct FsEntry {
    pub path: String,
    pub node: FsNode,
    pub writable: bool,
}

/// Mathematical view of an entry.
pub struct EntryV {
    pub path: Seq<char>,
    pub node: NodeV,
    pub writable: bool,
}

impl View for FsEntry {
    type V = EntryV;

    open spec fn view(&self) -> EntryV {
        EntryV { path: self.path@, node: self.node@, writable: self.writable }
    }
}

/// The filesystem model.
pub struct FsState {
    pub cwd: String,
    pub entries: Vec<FsEntry>,
}

/// Mathematical view of the model.
pub struct FsV {
    pub cwd: Seq<char>,
    pub entries: Seq<EntryV>,
}

impl View for FsState {
    type V = FsV;

    open spec fn view(&self) -> FsV {
        FsV { cwd: self.cwd@, entries: self.entries@.map_values(|e: FsEntry| e@) }
    }
}

/// First entry with the given path, scanning from the front.
pub open spec fn slookup(ents: Seq<EntryV>, p: Seq<char>) -> Option<EntryV>
    decreases ents.len(),
{
    if ents.len() == 0 {
        None
    } else if ents[0].path == p {
        Some(ents[0])
    } else {
        slookup(ents.drop_first(), p)
    }
}

/// Entry list with the node at `p` replaced, or a new writable entry for
/// `p` appended when none exists.
pub open spec fn sset(ents: Seq<EntryV>, p: Seq<char>, node: NodeV) -> Seq<EntryV>
    decreases ents.len(),
{
    if ents.len() == 0 {
        seq![EntryV { path: p, node, writable: true }]
    } else if ents[0].path == p {
        seq![EntryV { path: p, node, writable: ents[0].writable }] + ents.drop_first()
    } else {
        seq![ents[0]] + sset(ents.drop_first(), p, node)
    }
}

/// Entry list with the first entry for `p` removed.
pub open spec fn sremove(ents: Seq<EntryV>, p: Seq<char>) -> Seq<EntryV>
    decreases ents.len(),
{
    if ents.len() == 0 {
        ents
    } else if ents[0].path == p {
        ents.drop_first()
    } else {
        seq![ents[0]] + sremove(ents.drop_first(), p)
    }
}

/// No two entries share a path.
pub open spec fn ents_wf(ents: Seq<EntryV>) -> bool {
    forall|i: int, j: int|
        0 <= i < j < ents.len() ==> ents[i].path != ents[j].path
}

impl FsState {
    /// Well-formedness: entry paths are unique.
    pub open spec fn wf(&self) -> bool {
        ents_wf(self@.entries)
    }

    /// Spec lookup of a path in this model.
    pub open spec fn lookup(&self, p: Seq<char>) -> Option<EntryV> {
        slookup(self@.entries, p)
    }

    /// An empty model with the given working directory.
    pub fn new(cwd: String) -> (r: FsState)
        ensures
            r.wf(),
            r@.cwd == cwd@,
            forall|p: Seq<char>| r.lookup(p) is None,
    {
        let r = FsState { cwd, entries: Vec::new() };
        proof {
            assert(r@.entries =~= Seq::<EntryV>::empty());
        }
        r
    }

    /// Index of the entry for `path`, if any.
    fn find(&self, path: &String) -> (r: Option<usize>)
        ensures
            match r {
                Some(i) => i < self@.entries.len() && self@.entries[i as int].path == path@
                    && (forall|j: int| 0 <= j < i ==> self@.entries[j].path != path@),
                None => forall|j: int|
                    0 <= j < self@.entries.len() ==> self@.entries[j].path != path@,
            },
    {
        let n = self.entries.len();
        for i in 0..n
            invariant
                n == self@.entries.len(),
                forall|j: int| 0 <= j < i ==> self@.entries[j].path != path@,
        {
            if text::str_eq(self.entries[i].path.as_str(), path.as_str()) {
                return Some(i);
            }
        }
        None
    }

    /// The path names some entry.
    pub fn path_exists(&self, path: &String) -> (r: bool)
        ensures
            r == (self.lookup(path@) is Some),
    {
        let idx = self.find(path);
        proof {
            lemma_slookup_index(self@.entries, path@);
        }
        idx.is_some()
    }

    /// The path names a regular file.
    pub fn is_file(&self, path: &String) -> (r: bool)
        ensures
            r == match self.lookup(path@) {
                Some(e) => e.node is File,
                None => false,
            },
    {
        proof {
            lemma_slookup_index(self@.entries, path@);
        }
        match self.find(path) {
            Some(i) => match &self.entries[i].node {
                FsNode::File { .. } => true,
                FsNode::Dir => false,
            },
            None => false,
        }
    }

    /// The writable flag of the entry at `path`, if any.
    pub fn writable_at(&self, path: &String) -> (r: Option<bool>)
        ensures
            r == match self.lookup(path@) {
                Some(e) => Some(e.writable),
                None => None::<bool>,
            },
    {
        proof {
            lemma_slookup_index(self@.entries, path@);
        }
        match self.find(path) {
            Some(i) => Some(self.entries[i].writable),
            None => None,
        }
    }

    /// The content of the regular file at `path`, if any.
    pub fn read(&self, path: &String) -> (r: Option<&String>)
        ensures
            match r {
                Some(c) => self.lookup(path@) == Some(
                    EntryV {
                        path: path@,
                        node: NodeV::File { content: c@ },
                        writable: self.lookup(path@).unwrap().writable,
                    },
                ),
                None => match self.lookup(path@) {
                    Some(e) => e.node is Dir,
                    None => true,
                },
            },
    {
        proof {
            lemma_slookup_index(self@.entries, path@);
        }
        match self.find(path) {
            Some(i) => match &self.entries[i].node {
                FsNode::File { content } => Some(content),
                FsNode::Dir => None,
            },
            None => None,
        }
    }

    /// Insert or overwrite the node at `path`: afterwards the path holds
    /// exactly the written node and every other path resolves as before.
    pub fn set_node(&mut self, path: &String, node: FsNode)
        requires
            old(self).wf(),
        ensures
            final(self).wf(),
            final(self)@.cwd == old(self)@.cwd,
            final(self)@.entries == sset(old(self)@.entries, path@, node@),
            final(self).lookup(path@) matches Some(e) && e.path == path@ && e.node == node@,
            forall|q: Seq<char>| q != path@ ==> final(self).lookup(q) == old(self).lookup(q),
    {
        let ghost oldents = self@.entries;
        proof {
            lemma_slookup_index(oldents, path@);
        }
        match self.find(path) {
            Some(i) => {
                let w = self.entries[i].writable;
                let p = text::chars_to_string(&text::str_chars(path.as_str()));
                self.entries.set(i, FsEntry { path: p, node, writable: w });
                proof {
                    lemma_sset_update(oldents, path@, node@, i as int);
                    assert(self@.entries =~= oldents.update(
                        i as int,
                        EntryV { path: path@, node: node@, writable: w },
                    ));
                    lemma_wf_update(oldents, path@, node@, w, i as int);
                }
            },
            None => {
                let p = text::chars_to_string(&text::str_chars(path.as_str()));
                self.entries.push(FsEntry { path: p, node, writable: true });
                proof {
                    lemma_sset_append(oldents, path@, node@);
                    assert(self@.entries =~= oldents.push(
                        EntryV { path: path@, node: node@, writable: true },
                    ));
                }
            },
        }
        proof {
            lemma_lookup_sset(oldents, path@, node@, path@);
            assert forall|q: Seq<char>| q != path@ implies self.lookup(q) == slookup(
                oldents,
                q,
            ) by {
                lemma_lookup_sset(oldents, path@, node@, q);
            }
        }
    }

    /// Remove the entry at `path`, if any: afterwards the path resolves to
    /// nothing and every other path resolves as before.
    pub fn remove_path(&mut self, path: &String)
        requires
            old(self).wf(),
        ensures
            final(self).wf(),
            final(self)@.cwd == old(self)@.cwd,
            final(self)@.entries == sremove(old(self)@.entries, path@),
            final(self).lookup(path@) is None,
            forall|q: Seq<char>| q != path@ ==> final(self).lookup(q) == old(self).lookup(q),
    {
        let ghost oldents = self@.entries;
        proof {
            lemma_slookup_index(oldents, path@);
        }
        match self.find(path) {
            Some(i) => {
                self.entries.remove(i);
                proof {
                    lemma_sremove_at(oldents, path@, i as int);
                    assert(self@.entries =~= oldents.remove(i as int));
                    lemma_wf_remove(oldents, i as int);
                }
            },
            None => {
                proof {
                    lemma_sremove_absent(oldents, path@);
                }
            },
        }
        proof {
            lemma_lookup_sremove(oldents, path@, path@);
            assert forall|q: Seq<char>| q != path@ implies self.lookup(q) == slookup(
                oldents,
                q,
            ) by {
                lemma_lookup_sremove(oldents, path@, q);
            }
        }
    }
}

/// `slookup` agrees with a first-match index scan.
pub proof fn lemma_slookup_index(ents: Seq<EntryV>, p: Seq<char>)
    ensures
        forall|i: int|
            0 <= i < ents.len() && ents[i].path == p && (forall|j: int|
                0 <= j < i ==> ents[j].path != p) ==> slookup(ents, p) == Some(#[trigger] ents[i]),
        (forall|j: int| 0 <= j < ents.len() ==> #[trigger] ents[j].path != p) ==> slookup(
            ents,
            p,
        ) is None,
    decreases ents.len(),
{
    if ents.len() > 0 {
        lemma_slookup_index(ents.drop_first(), p);
        if ents[0].path != p {
            assert forall|i: int|
                0 <= i < ents.len() && ents[i].path == p && (forall|j: int|
                    0 <= j < i ==> ents[j].path != p) implies slookup(ents, p) == Some(
                ents[i],
            ) by {
                assert(i > 0);
                let d = ents.drop_first();
                assert(d[i - 1] == ents[i]);
                assert(forall|j: int| 0 <= j < i - 1 ==> d[j] == ents[j + 1] && ents[j + 1].path != p);
            }
        }
    }
}

/// When `p` sits at first-match index `i`, `sset` is an index update.
proof fn lemma_sset_update(ents: Seq<EntryV>, p: Seq<char>, node: NodeV, i: int)
    requires
        0 <= i < ents.len(),
        ents[i].path == p,
        forall|j: int| 0 <= j < i ==> ents[j].path != p,
    ensures
        sset(ents, p, node) == ents.update(
            i,
            EntryV { path: p, node, writable: ents[i].writable },
        ),
    decreases ents.len(),
{
    if i == 0 {
        assert(sset(ents, p, node) =~= ents.update(
            0,
            EntryV { path: p, node, writable: ents[0].writable },
        ));
    } else {
        let d = ents.drop_first();
        assert(forall|j: int| 0 <= j < i - 1 ==> d[j] == ents[j + 1] && ents[j + 1].path != p);
        assert(d[i - 1] == ents[i]);
        lemma_sset_update(d, p, node, i - 1);
        assert(sset(ents, p, node) =~= ents.update(
            i,
            EntryV { path: p, node, writable: ents[i].writable },
        ));
    }
}

/// When `p` is absent, `sset` appends a fresh writable entry.
proof fn lemma_sset_append(ents: Seq<EntryV>, p: Seq<char>, node: NodeV)
    requires
        forall|j: int| 0 <= j < ents.len() ==> #[trigger] ents[j].path != p,
    ensures
        sset(ents, p, node) == ents.push(EntryV { path: p, node, writable: true }),
    decreases ents.len(),
{
    if ents.len() == 0 {
        assert(sset(ents, p, node) =~= ents.push(EntryV { path: p, node, writable: true }));
    } else {
        let d = ents.drop_first();
        assert(forall|j: int| 0 <= j < d.len() ==> d[j] == ents[j + 1] && ents[j + 1].path != p);
        lemma_sset_append(d, p, node);
        assert(sset(ents, p, node) =~= ents.push(EntryV { path: p, node, writable: true }));
    }
}

/// When `p` sits at first-match index `i`, `sremove` removes that index.
proof fn lemma_sremove_at(ents: Seq<EntryV>, p: Seq<char>, i: int)
    requires
        0 <= i < ents.len(),
        ents[i].path == p,
        forall|j: int| 0 <= j < i ==> ents[j].path != p,
    ensures
        sremove(ents, p) == ents.remove(i),
    decreases ents.len(),
{
    if i == 0 {
        assert(sremove(ents, p) =~= ents.remove(0));
    } else {
        let d = ents.drop_first();
        assert(forall|j: int| 0 <= j < i - 1 ==> d[j] == ents[j + 1] && ents[j + 1].path != p);
        assert(d[i - 1] == ents[i]);
        lemma_sremove_at(d, p, i - 1);
        assert(sremove(ents, p) =~= ents.remove(i));
    }
}

/// When `p` is absent, `sremove` changes nothing.
proof fn lemma_sremove_absent(ents: Seq<EntryV>, p: Seq<char>)
    requires
        forall|j: int| 0 <= j < ents.len() ==> #[trigger] ents[j].path != p,
    ensures
        sremove(ents, p) == ents,
    decreases ents.len(),
{
    if ents.len() > 0 {
        let d = ents.drop_first();
        assert(forall|j: int| 0 <= j < d.len() ==> d[j] == ents[j + 1] && ents[j + 1].path != p);
        lemma_sremove_absent(d, p);
        assert(sremove(ents, p) =~= ents);
    }
}

proof fn lemma_wf_update(ents: Seq<EntryV>, p: Seq<char>, node: NodeV, w: bool, i: int)
    requires
        ents_wf(ents),
        0 <= i < ents.len(),
        ents[i].path == p,
    ensures
        ents_wf(ents.update(i, EntryV { path: p, node, writable: w })),
{
    let u = ents.update(i, EntryV { path: p, node, writable: w });
    assert forall|a: int, b: int| 0 <= a < b < u.len() implies u[a].path != u[b].path by {
        assert(ents[a].path != ents[b].path);
    }
}

proof fn lemma_wf_remove(ents: Seq<EntryV>, i: int)
    requires
        ents_wf(ents),
        0 <= i < ents.len(),
    ensures
        ents_wf(ents.remove(i)),
{
    let u = ents.remove(i);
    assert forall|a: int, b: int| 0 <= a < b < u.len() implies u[a].path != u[b].path by {
        let a0 = if a < i {
            a
        } else {
            a + 1
        };
        let b0 = if b < i {
            b
        } else {
            b + 1
        };
        assert(u[a] == ents[a0] && u[b] == ents[b0]);
        assert(ents[a0].path != ents[b0].path);
    }
}

/// Effect of `sset` on later lookups: the set path now maps to the node,
/// every other path is untouched.
pub proof fn lemma_lookup_sset(ents: Seq<EntryV>, p: Seq<char>, node: NodeV, q: Seq<char>)
    ensures
        p == q ==> (slookup(sset(ents, p, node), q) matches Some(e) && e.path == p && e.node
            == node),
        p != q ==> slookup(sset(ents, p, node), q) == slookup(ents, q),
    decreases ents.len(),
{
    if ents.len() == 0 {
        let u = sset(ents, p, node);
        assert(u.drop_first() =~= Seq::<EntryV>::empty());
        assert(slookup(Seq::<EntryV>::empty(), q) is None);
    } else if ents[0].path == p {
        let u = sset(ents, p, node);
        assert(u.drop_first() =~= ents.drop_first());
    } else {
        lemma_lookup_sset(ents.drop_first(), p, node, q);
        let u = sset(ents, p, node);
        assert(u.drop_first() =~= sset(ents.drop_first(), p, node));
    }
}

/// The encodings the adapter accepts when writing a file.
pub open spec fn utf8_ok(enc: Seq<char>) -> bool {
    enc == "utf-8"@ || enc == "utf8"@
}

/// What one action does to the entry list: the next entry list on success,
/// or the error it fails with. This is the specification the executor's
/// transcript is folded from.
pub open spec fn apply_args(ents: Seq<EntryV>, a: ArgsV) -> Result<Seq<EntryV>, FsErrV> {
    match a {
        ArgsV::CreateFile { path, content, encoding } => {
            if !utf8_ok(encoding) {
                Err(FsErrV::UnsupportedEncoding { encoding })
            } else if slookup(ents, path) matches Some(e) && e.node is Dir {
                Err(FsErrV::NotAFile { path })
            } else {
                Ok(sset(ents, path, NodeV::File { content }))
            }
        },
        ArgsV::ReadFile { path } => {
            match slookup(ents, path) {
                None => Err(FsErrV::NotFound { path }),
                Some(e) => if e.node is Dir {
                    Err(FsErrV::NotAFile { path })
                } else {
                    Ok(ents)
                },
            }
        },
        ArgsV::CopyFile { source_path, destination_path } => {
            match slookup(ents, source_path) {
                None => Err(FsErrV::NotFound { path: source_path }),
                Some(e) => match e.node {
                    NodeV::Dir => Err(FsErrV::NotAFile { path: source_path }),
                    NodeV::File { content } => {
                        if slookup(ents, destination_path) matches Some(d) && d.node is Dir {
                            Err(FsErrV::DestinationIsDir { path: destination_path })
                        } else {
                            Ok(sset(ents, destination_path, NodeV::File { content }))
                        }
                    },
                },
            }
        },
        ArgsV::MoveFile { source_path, destination_path } => {
            match slookup(ents, source_path) {
                None => Err(FsErrV::NotFound { path: source_path }),
                Some(e) => {
                    if slookup(ents, destination_path) matches Some(d) && d.node is Dir {
                        Err(FsErrV::DestinationIsDir { path: destination_path })
                    } else {
                        Ok(sset(sremove(ents, source_path), destination_path, e.node))
                    }
                },
            }
        },
        ArgsV::DeleteFile { path } => {
            match slookup(ents, path) {
                None => Err(FsErrV::NotFound { path }),
                Some(_) => Ok(sremove(ents, path)),
            }
        },
        ArgsV::CreateDirectory { path } => {
            if slookup(ents, path) matches Some(e) && e.node is File {
                Err(FsErrV::NotAFile { path })
            } else {
                Ok(sset(ents, path, NodeV::Dir))
            }
        },
    }
}

/// The output reported for a successful action, judged against the entry
/// list the action ran on.
pub open spec fn output_of(ents: Seq<EntryV>, a: ArgsV) -> OutputV {
    match a {
        ArgsV::CreateFile { path, content, .. } => OutputV::Created {
            path,
            size: content.len() as int,
        },
        ArgsV::ReadFile { path } => {
            let content = match slookup(ents, path) {
                Some(e) => match e.node {
                    NodeV::File { content } => content,
                    NodeV::Dir => Seq::empty(),
                },
                None => Seq::empty(),
            };
            OutputV::ReadContent { path, content, size: content.len() as int }
        },
        ArgsV::CopyFile { source_path, destination_path } => OutputV::Copied {
            source: source_path,
            destination: destination_path,
        },
        ArgsV::MoveFile { source_path, destination_path } => OutputV::Moved {
            source: source_path,
            destination: destination_path,
        },
        ArgsV::DeleteFile { path } => OutputV::Deleted { path },
        ArgsV::CreateDirectory { path } => OutputV::DirCreated { path },
    }
}

/// Run one action against the model: the filesystem adapter. On success
/// the model advances exactly as [`apply_args`] says and the result carries
/// the action's output; on failure the model is untouched.
pub fn execute_fs_action(action: &Action, fs: &mut FsState) -> (r: Result<
    ActionExecutionResult,
    FsError,
>)
    requires
        old(fs).wf(),
    ensures
        final(fs).wf(),
        final(fs)@.cwd == old(fs)@.cwd,
        match r {
            Ok(res) => {
                &&& apply_args(old(fs)@.entries, action.args@) == Ok::<Seq<EntryV>, FsErrV>(
                    final(fs)@.entries,
                )
                &&& res.action_id@ == action.id@
                &&& res.success == true
                &&& res.error is None
                &&& res.snapshot_id is None
                &&& res.output matches Some(o) && o@ == output_of(
                    old(fs)@.entries,
                    action.args@,
                )
            },
            Err(e) => {
                &&& apply_args(old(fs)@.entries, action.args@) == Err::<Seq<EntryV>, FsErrV>(e@)
                &&& final(fs)@ == old(fs)@
            },
        },
{
    match &action.args {
        ActionArgs::CreateFile { path, content, encoding } => {
            if !(text::str_eq(encoding.as_str(), "utf-8") || text::str_eq(
                encoding.as_str(),
                "utf8",
            )) {
                return Err(FsError::UnsupportedEncoding { encoding: clone_string(encoding) });
            }
            if fs.path_exists(path) && !fs.is_file(path) {
                return Err(FsError::NotAFile { path: clone_string(path) });
            }
            let size = content.as_str().unicode_len();
            fs.set_node(path, FsNode::File { content: clone_string(content) });
            Ok(
                ActionExecutionResult {
                    action_id: clone_string(&action.id),
                    success: true,
                    output: Some(ActionOutput::Created { path: clone_string(path), size }),
                    error: None,
                    snapshot_id: None,
                },
            )
        },
        ActionArgs::ReadFile { path } => {
            if !fs.path_exists(path) {
                return Err(FsError::NotFound { path: clone_string(path) });
            }
            if !fs.is_file(path) {
                return Err(FsError::NotAFile { path: clone_string(path) });
            }
            let content = match fs.read(path) {
                Some(c) => clone_string(c),
                None => {
                    proof {
                        assert(false);
                    }
                    String::new()
                },
            };
            let size = content.as_str().unicode_len();
            Ok(
                ActionExecutionResult {
                    action_id: clone_string(&action.id),
                    success: true,
                    output: Some(
                        ActionOutput::ReadContent { path: clone_string(path), content, size },
                    ),
                    error: None,
                    snapshot_id: None,
                },
            )
        },
        ActionArgs::CopyFile { source_path, destination_path } => {
            if !fs.path_exists(source_path) {
                return Err(FsError::NotFound { path: clone_string(source_path) });
            }
            if !fs.is_file(source_path) {
                return Err(FsError::NotAFile { path: clone_string(source_path) });
            }
            if fs.path_exists(destination_path) && !fs.is_file(destination_path) {
                return Err(
                    FsError::DestinationIsDir { path: clone_string(destination_path) },
                );
            }
            let content = match fs.read(source_path) {
                Some(c) => clone_string(c),
                None => {
                    proof {
                        assert(false);
                    }
                    String::new()
                },
            };
            fs.set_node(destination_path, FsNode::File { content });
            Ok(
                ActionExecutionResult {
                    action_id: clone_string(&action.id),
                    success: true,
                    output: Some(
                        ActionOutput::Copied {
                            source: clone_string(source_path),
                            destination: clone_string(destination_path),
                        },
                    ),
                    error: None,
                    snapshot_id: None,
                },
            )
        },
        ActionArgs::MoveFile { source_path, destination_path } => {
            if !fs.path_exists(source_path) {
                return Err(FsError::NotFound { path: clone_string(source_path) });
            }
            if fs.path_exists(destination_path) && !fs.is_file(destination_path) {
                return Err(
                    FsError::DestinationIsDir { path: clone_string(destination_path) },
                );
            }
            let node = if fs.is_file(source_path) {
                let content = match fs.read(source_path) {
                    Some(c) => clone_string(c),
                    None => {
                        proof {
                            assert(false);
                        }
                        String::new()
                    },
                };
                FsNode::File { content }
            } else {
                FsNode::Dir
            };
            fs.remove_path(source_path);
            fs.set_node(destination_path, node);
            Ok(
                ActionExecutionResult {
                    action_id: clone_string(&action.id),
                    success: true,
                    output: Some(
                        ActionOutput::Moved {
                            source: clone_string(source_path),
                            destination: clone_string(destination_path),
                        },
                    ),
                    error: None,
                    snapshot_id: None,
                },
            )
        },
        ActionArgs::DeleteFile { path } => {
            if !fs.path_exists(path) {
                return Err(FsError::NotFound { path: clone_string(path) });
            }
            fs.remove_path(path);
            Ok(
                ActionExecutionResult {
                    action_id: clone_string(&action.id),
                    success: true,
                    output: Some(ActionOutput::Deleted { path: clone_string(path) }),
                    error: None,
                    snapshot_id: None,
                },
            )
        },
        ActionArgs::CreateDirectory { path } => {
            if fs.path_exists(path) && fs.is_file(path) {
                return Err(FsError::NotAFile { path: clone_string(path) });
            }
            fs.set_node(path, FsNode::Dir);
            Ok(
                ActionExecutionResult {
                    action_id: clone_string(&action.id),
                    success: true,
                    output: Some(ActionOutput::DirCreated { path: clone_string(path) }),
                    error: None,
                    snapshot_id: None,
                },
            )
        },
    }
}

/// Effect of `sremove` on later lookups, under well-formedness: the removed
/// path is gone, every other path is untouched.
pub proof fn lemma_lookup_sremove(ents: Seq<EntryV>, p: Seq<char>, q: Seq<char>)
    requires
        ents_wf(ents),
    ensures
        p == q ==> slookup(sremove(ents, p), q) is None,
        p != q ==> slookup(sremove(ents, p), q) == slookup(ents, q),
    decreases ents.len(),
{
    if ents.len() == 0 {
    } else if ents[0].path == p {
        let d = ents.drop_first();
        if p == q {
            assert forall|j: int| 0 <= j < d.len() implies #[trigger] d[j].path != p by {
                assert(d[j] == ents[j + 1]);
                assert(ents[0].path != ents[j + 1].path);
            }
            lemma_slookup_index(d, p);
        }
    } else {
        assert(ents_wf(ents.drop_first())) by {
            let d = ents.drop_first();
            assert forall|a: int, b: int| 0 <= a < b < d.len() implies d[a].path != d[b].path by {
                assert(d[a] == ents[a + 1] && d[b] == ents[b + 1]);
                assert(ents[a + 1].path != ents[b + 1].path);
            }
        }
        lemma_lookup_sremove(ents.drop_first(), p, q);
        let u = sremove(ents, p);
        assert(u.drop_first() =~= sremove(ents.drop_first(), p));
    }
}

} // verus!
