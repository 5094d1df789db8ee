//! The recursive file listing of a branch: a depth-first walk over the
//! tree, each directory in listing order, that stops once a budget of
//! entries is spent. Reading a subtree is outside work, so the walk is a
//! state machine: each step either lists an entry, asks for the entries of
//! a directory it just listed, leaves a finished directory, or ends.

use vstd::prelude::*;
use crate::tree::{display_name, entry_display_name, join_path, joined_path, sort_entries, sorted_entries, EntryKind, TreeEntry};

verus! {

/// The most entries the listing of a branch holds.
pub const MAX_ENTRIES: usize = 10_000;

/// An entry of the listing: its kind, its path from the root and the id
/// of its object.
pub struct CollectedEntry {
    pub kind: EntryKind,
    pub path: String,
    pub oid: Vec<u8>,
}

struct Frame {
    entries: Vec<TreeEntry>,
    next: usize,
    prefix: String,
}

/// A walk in progress.
pub struct FileWalk {
    frames: Vec<Frame>,
    remaining: usize,
    collected: Vec<CollectedEntry>,
    awaiting: Option<String>,
}

/// What a step of the walk did.
pub enum WalkStep {
    /// It listed a file, link or submodule
    Entry,
    /// It listed a directory, whose entries (of the tree with this id) it
    /// needs before it can go on
    Directory(Vec<u8>),
    /// It left a directory whose entries are all listed
    Up,
    /// The walk is over: every entry is listed or the budget is spent
    Done,
}

/// Mathematical view of a directory being listed: its entries in listing
/// order, how many are listed, and its path.
pub struct FrameView {
    pub entries: Seq<TreeEntry>,
    pub next: int,
    pub prefix: Seq<char>,
}

/// Mathematical view of a [`FileWalk`]: the directories being listed,
/// innermost last; how many entries may still be listed; the entries
/// listed, as kind, path and object id; and the path of the directory whose
/// entries the walk waits for, if any.
pub struct WalkView {
    pub frames: Seq<FrameView>,
    pub remaining: nat,
    pub collected: Seq<(EntryKind, Seq<char>, Seq<u8>)>,
    pub awaiting: Option<Seq<char>>,
}

/// Mathematical view of a [`WalkStep`].
pub enum StepView {
    Entry,
    Directory(Seq<u8>),
    Up,
    Done,
}

impl View for FileWalk {
    type V = WalkView;

    closed spec fn view(&self) -> WalkView {
        WalkView {
            frames: self.frames@.map_values(|f: Frame| FrameView { entries: f.entries@, next: f.next as int, prefix: f.prefix@ }),
            remaining: self.remaining as nat,
            collected: self.collected@.map_values(|c: CollectedEntry| (c.kind, c.path@, c.oid@)),
            awaiting: match self.awaiting {
                Some(p) => Some(p@),
                None => None,
            },
        }
    }
}

impl View for WalkStep {
    type V = StepView;

    open spec fn view(&self) -> StepView {
        match self {
            WalkStep::Entry => StepView::Entry,
            WalkStep::Directory(o) => StepView::Directory(o@),
            WalkStep::Up => StepView::Up,
            WalkStep::Done => StepView::Done,
        }
    }
}

/// Whether every directory being listed has listed at most its entries.
pub open spec fn frames_ok(frames: Seq<FrameView>) -> bool {
    forall|i: int| 0 <= i < frames.len() ==> 0 <= (#[trigger] frames[i]).next <= frames[i].entries.len()
}

/// Whether some directory being listed has an entry not yet listed.
pub open spec fn entries_left(frames: Seq<FrameView>) -> bool {
    exists|k: int| 0 <= k < frames.len() && #[trigger] frames[k].next < frames[k].entries.len()
}

/// One step of the walk. When the budget is spent or no directory is left,
/// the walk is over. When the innermost directory has no entry left, it is
/// left. Otherwise its next entry is listed under its path and spends one
/// of the budget; a directory entry then makes the walk wait for its
/// entries.
pub open spec fn walk_step(v: WalkView) -> (WalkView, StepView) {
    if v.remaining == 0 || v.frames.len() == 0 {
        (v, StepView::Done)
    } else {
        let f = v.frames.last();
        if f.next >= f.entries.len() {
            (WalkView { frames: v.frames.drop_last(), ..v }, StepView::Up)
        } else {
            let e = f.entries[f.next];
            let path = joined_path(f.prefix, display_name(e.name@));
            let w = WalkView {
                frames: v.frames.update(v.frames.len() - 1, FrameView { next: f.next + 1, ..f }),
                remaining: (v.remaining - 1) as nat,
                collected: v.collected.push((e.kind, path, e.oid@)),
                awaiting: if e.kind == EntryKind::Tree {
                    Some(path)
                } else {
                    None
                },
            };
            (w, if e.kind == EntryKind::Tree {
                StepView::Directory(e.oid@)
            } else {
                StepView::Entry
            })
        }
    }
}

impl FileWalk {
    /// Whether the walk is consistent: every directory being listed has
    /// listed at most its entries.
    pub open spec fn wf(&self) -> bool {
        frames_ok(self@.frames)
    }

    /// Starts the listing of a root tree with the given budget.
    pub fn new(root: Vec<TreeEntry>, budget: usize) -> (r: FileWalk)
        ensures
            r.wf(),
            r@.frames == seq![FrameView { entries: sorted_entries(root@), next: 0, prefix: Seq::<char>::empty() }],
            r@.remaining == budget,
            r@.collected == Seq::<(EntryKind, Seq<char>, Seq<u8>)>::empty(),
            r@.awaiting is None,
    {
        let entries = sort_entries(root);
        let prefix = String::new();
        let mut frames: Vec<Frame> = Vec::new();
        frames.push(Frame { entries, next: 0, prefix });
        let r = FileWalk { frames, remaining: budget, collected: Vec::new(), awaiting: None };
        assert(r@.frames =~= seq![FrameView { entries: sorted_entries(root@), next: 0, prefix: Seq::<char>::empty() }]);
        assert(r@.collected =~= Seq::<(EntryKind, Seq<char>, Seq<u8>)>::empty());
        r
    }

    /// Takes one step; see [`walk_step`]. A walk waiting for the entries of
    /// a directory must be given them first.
    pub fn step(&mut self) -> (r: WalkStep)
        requires
            old(self).wf(),
            old(self)@.awaiting is None,
        ensures
            final(self).wf(),
            (final(self)@, r@) == walk_step(old(self)@),
    {
        if self.remaining == 0 || self.frames.len() == 0 {
            return WalkStep::Done;
        }
        let ghost v = self@;
        let f = self.frames.pop().unwrap();
        assert(self.frames@ =~= old(self).frames@.drop_last());
        if f.next >= f.entries.len() {
            assert(self@.frames =~= v.frames.drop_last());
            return WalkStep::Up;
        }
        let e = &f.entries[f.next];
        let name = entry_display_name(&e.name);
        let path = join_path(f.prefix.as_str(), name.as_str());
        let kind = e.kind;
        let oid = e.oid.clone();
        assert(oid@ =~= e.oid@);
        let is_tree = match kind {
            EntryKind::Tree => true,
            _ => false,
        };
        let ghost fv = FrameView { entries: f.entries@, next: f.next as int, prefix: f.prefix@ };
        let next = f.next + 1;
        self.frames.push(Frame { entries: f.entries, next, prefix: f.prefix });
        self.remaining = self.remaining - 1;
        if is_tree {
            let p2 = path.clone();
            self.collected.push(CollectedEntry { kind, path, oid: oid.clone() });
            self.awaiting = Some(p2);
            assert(self@.frames =~= v.frames.update(v.frames.len() - 1, FrameView { next: fv.next + 1, ..fv }));
            assert(self@.collected =~= v.collected.push((kind, joined_path(fv.prefix, display_name(e.name@)), e.oid@)));
            WalkStep::Directory(oid)
        } else {
            self.collected.push(CollectedEntry { kind, path, oid });
            self.awaiting = None;
            assert(self@.frames =~= v.frames.update(v.frames.len() - 1, FrameView { next: fv.next + 1, ..fv }));
            assert(self@.collected =~= v.collected.push((kind, joined_path(fv.prefix, display_name(e.name@)), e.oid@)));
            WalkStep::Entry
        }
    }

    /// Gives the walk the entries of the directory it waits for: they are
    /// listed next, in listing order, under that directory's path.
    pub fn descend(&mut self, entries: Vec<TreeEntry>)
        requires
            old(self).wf(),
            old(self)@.awaiting is Some,
        ensures
            final(self).wf(),
            final(self)@.frames == old(self)@.frames.push(
                FrameView { entries: sorted_entries(entries@), next: 0, prefix: old(self)@.awaiting.unwrap() },
            ),
            final(self)@.remaining == old(self)@.remaining,
            final(self)@.collected == old(self)@.collected,
            final(self)@.awaiting is None,
    {
        let ghost v = self@;
        let prefix = match self.awaiting.take() {
            Some(p) => p,
            None => String::new(),
        };
        let sorted = sort_entries(entries);
        self.frames.push(Frame { entries: sorted, next: 0, prefix });
        assert(self@.frames =~= v.frames.push(
            FrameView { entries: sorted_entries(entries@), next: 0, prefix: v.awaiting.unwrap() },
        ));
    }

    /// Ends the walk: the entries listed, and whether the listing is
    /// truncated, that is whether an entry of a directory being listed is
    /// left unlisted. A walk waiting for the entries of a directory must be
    /// given them first.
    pub fn finish(self) -> (r: (Vec<CollectedEntry>, bool))
        requires
            self.wf(),
            self@.awaiting is None,
        ensures
            r.0@.map_values(|c: CollectedEntry| (c.kind, c.path@, c.oid@)) == self@.collected,
            r.1 == entries_left(self@.frames),
    {
        let mut left = false;
        let mut i: usize = 0;
        while i < self.frames.len()
            invariant
                i <= self.frames@.len(),
                left == exists|k: int| 0 <= k < i && #[trigger] self@.frames[k].next < self@.frames[k].entries.len(),
            decreases self.frames@.len() - i,
        {
            let f = &self.frames[i];
            assert(self@.frames[i as int].next == f.next && self@.frames[i as int].entries.len() == f.entries@.len());
            if f.next < f.entries.len() {
                left = true;
            }
            i += 1;
        }
        (self.collected, left)
    }
}

/// A step never spends more than it lists: the entries listed and the
/// budget left always add up to the same number, and a step that lists an
/// entry lists it under its directory's path.
pub proof fn lemma_step_keeps_budget(v: WalkView)
    ensures
        walk_step(v).0.collected.len() + walk_step(v).0.remaining == v.collected.len() + v.remaining,
        walk_step(v).1 is Entry || walk_step(v).1 is Directory ==> walk_step(v).0.collected.len() == v.collected.len() + 1
            && walk_step(v).0.collected.last().1 == joined_path(
            v.frames.last().prefix,
            display_name(v.frames.last().entries[v.frames.last().next].name@),
        ),
        walk_step(v).1 is Up || walk_step(v).1 is Done ==> walk_step(v).0.collected == v.collected,
{
}

/// A step keeps the walk consistent.
pub proof fn lemma_step_keeps_frames(v: WalkView)
    requires
        frames_ok(v.frames),
    ensures
        frames_ok(walk_step(v).0.frames),
{
}

/// A walk ends truncated only when its whole budget is spent; a walk that
/// ends with budget left has listed every entry of its directories.
pub proof fn lemma_truncated_only_when_spent(v: WalkView)
    ensures
        walk_step(v).1 is Done && entries_left(walk_step(v).0.frames) ==> v.remaining == 0,
        walk_step(v).1 is Done && v.remaining > 0 ==> !entries_left(walk_step(v).0.frames),
{
}

} // verus!
