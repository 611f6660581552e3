//! A run replayed against a directory tree.
//!
//! The machine of [`crate::run`] sees the filesystem only through the answers
//! to its requests. A [`Tree`] records such answers: what setting the times of
//! an entry answers, and what enumerating it yields, item by item and each
//! item again with its own answers. Every filesystem that stays as it is while
//! a run lasts answers as some tree does. [`play`] drives the machine with a
//! tree's answers and keeps the books: the times each path ends up with, and
//! the outcomes in the order they were reported.

use crate::clock::Instant;
use crate::entry::{EntryKind, EntryView};
use crate::report::{OutcomeView, SkipReason};
use crate::run::{initial, next, outcome_of, stacked, EventView, PhaseView, RequestView, RunView};
use vstd::prelude::*;

verus! {

/// The two times that a filesystem keeps for a path.
pub struct Stamp {
    pub accessed: Instant,
    pub modified: Instant,
}

/// The times of every path that has any.
pub type Times = Map<Seq<char>, Stamp>;

/// An entry together with the answers that the filesystem gives about it:
/// `refusal` is the reason for which its times cannot be set, if there is one,
/// and `items` is what enumerating it yields, `None` for an item that cannot be
/// read.
pub struct Tree {
    pub entry: EntryView,
    pub refusal: Option<Seq<char>>,
    pub items: Seq<Option<Tree>>,
}

/// The answer to a request to set the times of `tree`.
pub open spec fn times_answer(tree: Tree) -> Result<(), Seq<char>> {
    match tree.refusal {
        None => Ok(()),
        Some(reason) => Err(reason),
    }
}

/// The entries of `items`, item by item.
pub open spec fn entries_of(items: Seq<Option<Tree>>) -> Seq<Option<EntryView>> {
    Seq::new(
        items.len(),
        |i: int|
            match items[i] {
                Some(child) => Some(child.entry),
                None => None,
            },
    )
}

/// The entries at the roots of `trees`.
pub open spec fn roots(trees: Seq<Tree>) -> Seq<EntryView> {
    Seq::new(trees.len(), |i: int| trees[i].entry)
}

/// A run in the middle of a replay.
#[verifier::ext_equal]
pub struct Scene {
    /// The state of the machine.
    pub run: RunView,
    /// The request of the last step, not yet answered.
    pub asked: RequestView,
    /// The tree of the entry that the request is about.
    pub at: Option<Tree>,
    /// The trees of the entries on the machine's worklist, in the same order.
    pub trees: Seq<Tree>,
    /// The times that the filesystem holds.
    pub times: Times,
    /// The outcomes reported so far.
    pub reports: Seq<OutcomeView>,
}

/// The scene before the first step of a run on `root`, where the filesystem
/// holds `tree` at the root, or nothing.
pub open spec fn opening(root: Seq<char>, instant: Instant, tree: Option<Tree>, times: Times) -> Scene {
    Scene {
        run: initial(root, instant),
        asked: RequestView::Continue,
        at: tree,
        trees: Seq::empty(),
        times,
        reports: Seq::empty(),
    }
}

/// The tree at `path`, if the replay has it at hand: the filesystem answers
/// for the entry that a request names, and for no other.
pub open spec fn found(scene: Scene, path: Seq<char>) -> Option<Tree> {
    match scene.at {
        Some(tree) => if tree.entry.path == path {
            Some(tree)
        } else {
            None
        },
        None => None,
    }
}

/// The event with which the filesystem answers the outstanding request. A
/// request for a path at which nothing is found is answered as a missing path
/// is: it does not exist, its times cannot be set, and it cannot be read.
pub open spec fn answer(scene: Scene) -> EventView {
    match scene.asked {
        RequestView::Probe { path } => match found(scene, path) {
            Some(tree) => EventView::Probed { exists: true, kind: tree.entry.kind },
            None => EventView::Probed { exists: false, kind: EntryKind::Other },
        },
        RequestView::SetTimes { path, .. } => match found(scene, path) {
            Some(tree) => EventView::TimesSet { result: times_answer(tree) },
            None => EventView::TimesSet { result: Err(Seq::empty()) },
        },
        RequestView::ListChildren { path } => match found(scene, path) {
            Some(tree) => EventView::Listed { items: entries_of(tree.items) },
            None => EventView::Listed { items: seq![None] },
        },
        RequestView::Continue => EventView::Resume,
        RequestView::Finish { .. } => EventView::Resume,
    }
}

/// The times that the filesystem holds once the outstanding request is
/// performed: only a request to set times that is not refused changes them,
/// and only for its own path.
pub open spec fn times_after(scene: Scene) -> Times {
    match scene.asked {
        RequestView::SetTimes { path, accessed, modified } => {
            if answer(scene) == (EventView::TimesSet { result: Ok(()) }) {
                scene.times.insert(path, Stamp { accessed, modified })
            } else {
                scene.times
            }
        },
        _ => scene.times,
    }
}

/// The trees of the worklist once the machine has moved on to `after`.
pub open spec fn trees_after(scene: Scene, after: RunView) -> Seq<Tree> {
    match (scene.run.phase, after.phase) {
        (PhaseView::Probing, PhaseView::Ready) => match scene.at {
            Some(tree) => seq![tree],
            None => Seq::empty(),
        },
        (PhaseView::Ready, PhaseView::Ready) => scene.trees.drop_last(),
        (PhaseView::Ready, PhaseView::Applying { .. }) => scene.trees.drop_last(),
        (PhaseView::Listing { .. }, PhaseView::Ready) => match scene.at {
            Some(tree) => scene.trees + stacked(tree.items),
            None => scene.trees,
        },
        _ => scene.trees,
    }
}

/// The tree that the machine is busy with once it has moved on to `after`.
pub open spec fn at_after(scene: Scene, after: RunView) -> Option<Tree> {
    match (scene.run.phase, after.phase) {
        (PhaseView::Ready, PhaseView::Applying { .. }) => if scene.trees.len() > 0 {
            Some(scene.trees.last())
        } else {
            None
        },
        (_, PhaseView::Ready) => None,
        _ => scene.at,
    }
}

/// One round of the replay: the filesystem performs the outstanding request
/// and the machine takes the step that the answer calls for.
pub open spec fn advance(scene: Scene) -> Scene {
    let turn = next(scene.run, answer(scene));
    Scene {
        run: turn.run,
        asked: turn.step.request,
        at: at_after(scene, turn.run),
        trees: trees_after(scene, turn.run),
        times: times_after(scene),
        reports: match turn.step.outcome {
            Some(outcome) => scene.reports.push(outcome),
            None => scene.reports,
        },
    }
}

/// The scene after `rounds` rounds.
pub open spec fn play(scene: Scene, rounds: nat) -> Scene
    decreases rounds,
{
    if rounds == 0 {
        scene
    } else {
        play(advance(scene), (rounds - 1) as nat)
    }
}

/// The number of rounds that a run spends on `tree` once it is next on the
/// worklist.
pub open spec fn tree_rounds(tree: Tree) -> nat
    decreases tree,
{
    if tree.entry.kind == EntryKind::Symlink {
        1
    } else if tree.entry.kind == EntryKind::Directory {
        3 + items_rounds(tree.items)
    } else {
        2
    }
}

/// The number of rounds that a run spends on the trees among `items`.
pub open spec fn items_rounds(items: Seq<Option<Tree>>) -> nat
    decreases items,
{
    if items.len() == 0 {
        0
    } else {
        (match items.first() {
            Some(tree) => tree_rounds(tree),
            None => 0,
        }) + items_rounds(items.drop_first())
    }
}

/// Whether `tree` can stand at the root `root` of a run that goes ahead: it is
/// at that path, and it is a regular file or a directory.
pub open spec fn rooted(tree: Tree, root: Seq<char>) -> bool {
    &&& tree.entry.path == root
    &&& (tree.entry.kind == EntryKind::File || tree.entry.kind == EntryKind::Directory)
}

/// The number of rounds after which a run on `tree` is over: one to ask for
/// the probe, one to receive it, those spent on the tree, and one to find the
/// worklist empty.
pub open spec fn run_rounds(tree: Tree) -> nat {
    tree_rounds(tree) + 3
}

/// The outcomes of a walk of `tree`, in order: a symbolic link is skipped;
/// any other entry has the outcome of its own answer, and a directory is
/// followed by the outcomes of what it holds.
pub open spec fn tree_reports(tree: Tree) -> Seq<OutcomeView>
    decreases tree,
{
    if tree.entry.kind == EntryKind::Symlink {
        seq![OutcomeView::Skipped { path: tree.entry.path, reason: SkipReason::Symlink }]
    } else if tree.entry.kind == EntryKind::Directory {
        seq![outcome_of(tree.entry.path, times_answer(tree))] + items_reports(tree.items)
    } else {
        seq![outcome_of(tree.entry.path, times_answer(tree))]
    }
}

/// The outcomes of a walk of the trees among `items`, first item first.
pub open spec fn items_reports(items: Seq<Option<Tree>>) -> Seq<OutcomeView>
    decreases items,
{
    if items.len() == 0 {
        Seq::empty()
    } else {
        (match items.first() {
            Some(tree) => tree_reports(tree),
            None => Seq::empty(),
        }) + items_reports(items.drop_first())
    }
}

/// The number of failures among `reports`.
pub open spec fn failures(reports: Seq<OutcomeView>) -> nat
    decreases reports.len(),
{
    if reports.len() == 0 {
        0
    } else if reports.last() is Failed {
        failures(reports.drop_last()) + 1
    } else {
        failures(reports.drop_last())
    }
}

/// The number of entries in reach of a walk of `tree` that do not let their
/// times be set.
pub open spec fn refusals(tree: Tree) -> nat
    decreases tree,
{
    if tree.entry.kind == EntryKind::Symlink {
        0
    } else if tree.entry.kind == EntryKind::Directory {
        own_refusal(tree) + items_refusals(tree.items)
    } else {
        own_refusal(tree)
    }
}

/// One if `tree` itself does not let its times be set, zero if it does.
pub open spec fn own_refusal(tree: Tree) -> nat {
    if tree.refusal is Some {
        1
    } else {
        0
    }
}

/// The number of entries in reach of a walk of the trees among `items` that do
/// not let their times be set.
pub open spec fn items_refusals(items: Seq<Option<Tree>>) -> nat
    decreases items,
{
    if items.len() == 0 {
        0
    } else {
        (match items.first() {
            Some(tree) => refusals(tree),
            None => 0,
        }) + items_refusals(items.drop_first())
    }
}

/// Whether a walk of `tree` sets the times of `path`: `tree` is no symbolic
/// link, and either it is at `path` and lets its times be set, or it is a
/// directory and the walk of one of its items sets them.
pub open spec fn sets(tree: Tree, path: Seq<char>) -> bool
    decreases tree,
{
    &&& tree.entry.kind != EntryKind::Symlink
    &&& {
        ||| tree.refusal is None && tree.entry.path == path
        ||| tree.entry.kind == EntryKind::Directory && items_set(tree.items, path)
    }
}

/// Whether a walk of one of the trees among `items` sets the times of `path`.
pub open spec fn items_set(items: Seq<Option<Tree>>, path: Seq<char>) -> bool
    decreases items,
{
    items.len() > 0 && {
        ||| items.first() matches Some(tree) && sets(tree, path)
        ||| items_set(items.drop_first(), path)
    }
}

/// The times that the filesystem holds after a walk of `tree`: the paths that
/// the walk sets have `instant` for both times, and every other path has what
/// it had.
pub open spec fn walk_times(tree: Tree, instant: Instant, times: Times) -> Times {
    Map::new(
        |path: Seq<char>| sets(tree, path) || times.dom().contains(path),
        |path: Seq<char>|
            if sets(tree, path) {
                Stamp { accessed: instant, modified: instant }
            } else {
                times[path]
            },
    )
}

} // verus!
