//! What every replay of a run leaves behind.

use crate::clock::Instant;
use crate::entry::{EntryKind, RootError};
use crate::model::{
    advance, entries_of, failures, items_refusals, items_reports, items_rounds, items_set,
    opening, play, refusals, rooted, roots, run_rounds, sets, times_answer, tree_reports,
    tree_rounds, walk_times, Scene, Stamp, Times, Tree,
};
use crate::report::{OutcomeView, SkipReason};
use crate::run::{
    initial, next, outcome_of, spares_links, stacked, EventView, PhaseView, RequestView, RunView,
};
use vstd::prelude::*;

verus! {

/// The times after a walk of the trees among `items`.
spec fn items_times(items: Seq<Option<Tree>>, instant: Instant, times: Times) -> Times {
    Map::new(
        |path: Seq<char>| items_set(items, path) || times.dom().contains(path),
        |path: Seq<char>|
            if items_set(items, path) {
                Stamp { accessed: instant, modified: instant }
            } else {
                times[path]
            },
    )
}

/// A scene between two entries: nothing is outstanding, and the worklist
/// holds the roots of the trees still to walk.
spec fn settled(scene: Scene) -> bool {
    &&& scene.run.phase == PhaseView::Ready
    &&& scene.asked == RequestView::Continue
    &&& scene.at is None
    &&& scene.run.pending == roots(scene.trees)
}

/// The settled scene `scene` with another worklist and other books.
spec fn moved_on(scene: Scene, trees: Seq<Tree>, times: Times, reports: Seq<OutcomeView>) -> Scene {
    Scene { run: RunView { pending: roots(trees), ..scene.run }, trees, times, reports, ..scene }
}

/// Playing one round more is advancing once and playing the rest.
proof fn lemma_play_once(scene: Scene, rounds: nat)
    ensures
        play(scene, rounds + 1) == play(advance(scene), rounds),
{
    reveal_with_fuel(play, 2);
}

/// Rounds can be played in two parts.
proof fn lemma_play_split(scene: Scene, first: nat, second: nat)
    ensures
        play(scene, first + second) == play(play(scene, first), second),
    decreases first,
{
    if first > 0 {
        lemma_play_split(advance(scene), (first - 1) as nat, second);
    }
}

/// The worklist takes up the entries of a listing as it takes up their trees.
proof fn lemma_stacked_roots(items: Seq<Option<Tree>>)
    ensures
        stacked(entries_of(items)) == roots(stacked(items)),
    decreases items.len(),
{
    if items.len() > 0 {
        lemma_stacked_roots(items.drop_first());
        assert(entries_of(items).drop_first() =~= entries_of(items.drop_first()));
        assert(stacked(entries_of(items)) =~= roots(stacked(items)));
    } else {
        assert(stacked(entries_of(items)) =~= roots(stacked(items)));
    }
}

/// From a settled scene, the rounds of the tree on top of the worklist walk
/// that tree and leave the scene settled, with the tree off the worklist.
proof fn lemma_tree(scene: Scene, tree: Tree)
    requires
        settled(scene),
        scene.trees.len() > 0,
        tree == scene.trees.last(),
    ensures
        play(scene, tree_rounds(tree)) == moved_on(
            scene,
            scene.trees.drop_last(),
            walk_times(tree, scene.run.instant, scene.times),
            scene.reports + tree_reports(tree),
        ),
    decreases tree,
{
    let instant = scene.run.instant;
    let rest = scene.trees.drop_last();
    let goal = moved_on(
        scene,
        rest,
        walk_times(tree, instant, scene.times),
        scene.reports + tree_reports(tree),
    );
    let one = advance(scene);
    assert(scene.run.pending.last() == tree.entry);
    assert(scene.run.pending.drop_last() =~= roots(rest));
    lemma_play_once(scene, 0);
    if tree.entry.kind == EntryKind::Symlink {
        assert(walk_times(tree, instant, scene.times) =~= scene.times);
        assert(one =~= goal);
    } else {
        let two = advance(one);
        lemma_play_once(scene, 1);
        lemma_play_once(one, 0);
        assert(play(scene, 2) == two);
        if tree.entry.kind == EntryKind::Directory {
            let three = advance(two);
            lemma_play_once(scene, 2);
            lemma_play_once(one, 1);
            lemma_play_once(two, 0);
            assert(play(scene, 3) == three);
            lemma_stacked_roots(tree.items);
            assert(three.run.pending =~= roots(rest + stacked(tree.items))) by {
                assert(roots(rest + stacked(tree.items)) =~= roots(rest) + roots(
                    stacked(tree.items),
                ));
            }
            assert(settled(three));
            lemma_items(three, tree.items, rest);
            lemma_play_split(scene, 3, items_rounds(tree.items));
            assert(items_times(tree.items, instant, three.times) =~= walk_times(
                tree,
                instant,
                scene.times,
            ));
            assert(three.reports + items_reports(tree.items) =~= scene.reports + tree_reports(
                tree,
            ));
            assert(play(three, items_rounds(tree.items)) =~= goal);
        } else {
            assert(two.times =~= walk_times(tree, instant, scene.times));
            assert(two.reports =~= scene.reports + tree_reports(tree));
            assert(two =~= goal);
        }
    }
}

/// From a settled scene with the trees of `items` on top of `base`, the
/// rounds of these trees walk them all and leave the scene settled on `base`.
proof fn lemma_items(scene: Scene, items: Seq<Option<Tree>>, base: Seq<Tree>)
    requires
        settled(scene),
        scene.trees == base + stacked(items),
    ensures
        play(scene, items_rounds(items)) == moved_on(
            scene,
            base,
            items_times(items, scene.run.instant, scene.times),
            scene.reports + items_reports(items),
        ),
    decreases items,
{
    let instant = scene.run.instant;
    let goal = moved_on(
        scene,
        base,
        items_times(items, instant, scene.times),
        scene.reports + items_reports(items),
    );
    if items.len() == 0 {
        assert(scene.trees =~= base);
        assert(items_times(items, instant, scene.times) =~= scene.times);
        assert(scene.reports + items_reports(items) =~= scene.reports);
        assert(scene =~= goal);
    } else {
        let rest = items.drop_first();
        match items.first() {
            None => {
                assert(scene.trees =~= base + stacked(rest));
                lemma_items(scene, rest, base);
                assert(items_times(rest, instant, scene.times) =~= items_times(
                    items,
                    instant,
                    scene.times,
                ));
            },
            Some(tree) => {
                assert(scene.trees =~= (base + stacked(rest)).push(tree));
                assert(scene.trees.drop_last() =~= base + stacked(rest));
                lemma_tree(scene, tree);
                let mid = play(scene, tree_rounds(tree));
                lemma_items(mid, rest, base);
                lemma_play_split(scene, tree_rounds(tree), items_rounds(rest));
                assert(items_times(rest, instant, mid.times) =~= items_times(
                    items,
                    instant,
                    scene.times,
                ));
                assert(mid.reports + items_reports(rest) =~= scene.reports + items_reports(
                    items,
                ));
                assert(play(mid, items_rounds(rest)) =~= goal);
            },
        }
    }
}

/// Failures are counted part by part.
proof fn lemma_failures_add(first: Seq<OutcomeView>, second: Seq<OutcomeView>)
    ensures
        failures(first + second) == failures(first) + failures(second),
    decreases second.len(),
{
    if second.len() == 0 {
        assert(first + second =~= first);
    } else {
        lemma_failures_add(first, second.drop_last());
        assert((first + second).drop_last() =~= first + second.drop_last());
    }
}

/// A walk of a tree reports one failure for each entry in reach that refuses.
proof fn lemma_tree_failures(tree: Tree)
    ensures
        failures(tree_reports(tree)) == refusals(tree),
    decreases tree,
{
    let own = seq![outcome_of(tree.entry.path, times_answer(tree))];
    assert(failures(own.drop_last()) == 0);
    if tree.entry.kind == EntryKind::Symlink {
        assert(failures(tree_reports(tree).drop_last()) == 0);
    } else if tree.entry.kind == EntryKind::Directory {
        lemma_items_failures(tree.items);
        lemma_failures_add(own, items_reports(tree.items));
    }
}

/// A walk of the trees among `items` reports one failure for each entry in
/// reach that refuses.
proof fn lemma_items_failures(items: Seq<Option<Tree>>)
    ensures
        failures(items_reports(items)) == items_refusals(items),
    decreases items,
{
    if items.len() > 0 {
        lemma_items_failures(items.drop_first());
        match items.first() {
            Some(tree) => {
                lemma_tree_failures(tree);
                lemma_failures_add(tree_reports(tree), items_reports(items.drop_first()));
            },
            None => {
                assert(Seq::<OutcomeView>::empty() + items_reports(items.drop_first())
                    =~= items_reports(items.drop_first()));
            },
        }
    }
}

/// A run that is over stays as it is, however many rounds are played.
proof fn lemma_over(scene: Scene, verdict: Result<(), RootError>, rounds: nat)
    requires
        scene.run.phase == (PhaseView::Done { verdict }),
        scene.asked == (RequestView::Finish { verdict }),
    ensures
        play(scene, rounds) == scene,
    decreases rounds,
{
    if rounds > 0 {
        assert(advance(scene) =~= scene);
        lemma_over(scene, verdict, (rounds - 1) as nat);
    }
}

/// A run on a tree that it accepts is over after the rounds of the tree, with
/// the times and the outcomes of a walk of the tree.
proof fn lemma_replay(root: Seq<char>, instant: Instant, tree: Tree, times: Times, rounds: nat)
    requires
        rooted(tree, root),
        rounds >= run_rounds(tree),
    ensures
        ({
            let end = play(opening(root, instant, Some(tree), times), rounds);
            &&& end.run.phase == PhaseView::Done { verdict: Ok(()) }
            &&& end.asked == RequestView::Finish { verdict: Ok(()) }
            &&& end.times == walk_times(tree, instant, times)
            &&& end.reports == tree_reports(tree)
        }),
{
    let start = opening(root, instant, Some(tree), times);
    let probing = advance(start);
    let ready = advance(probing);
    lemma_play_once(start, 1);
    lemma_play_once(probing, 0);
    assert(play(start, 2) == ready);
    assert(ready.run.pending =~= roots(ready.trees));
    assert(ready.trees.drop_last() =~= Seq::<Tree>::empty());
    lemma_tree(ready, tree);
    let walked = play(ready, tree_rounds(tree));
    lemma_play_split(start, 2, tree_rounds(tree));
    assert(walked.run.pending =~= Seq::empty());
    assert(walked.reports =~= tree_reports(tree));
    let over = advance(walked);
    lemma_play_once(walked, 0);
    lemma_play_split(start, 2 + tree_rounds(tree), 1);
    assert(play(start, run_rounds(tree)) == over);
    lemma_over(over, Ok(()), (rounds - run_rounds(tree)) as nat);
    lemma_play_split(start, run_rounds(tree), (rounds - run_rounds(tree)) as nat);
}

/// A run sets both times of every entry in its reach to the instant it was
/// given: of the root, and of whatever a directory in reach holds, as long as
/// the entry is no symbolic link and lets its times be set. What fails
/// elsewhere in the tree takes nothing away from this.
pub proof fn law_every_entry_in_reach_is_stamped(
    root: Seq<char>,
    instant: Instant,
    tree: Tree,
    times: Times,
    rounds: nat,
    path: Seq<char>,
)
    requires
        rooted(tree, root),
        rounds >= run_rounds(tree),
        sets(tree, path),
    ensures
        play(opening(root, instant, Some(tree), times), rounds).times.dom().contains(path),
        play(opening(root, instant, Some(tree), times), rounds).times[path] == (Stamp {
            accessed: instant,
            modified: instant,
        }),
{
    lemma_replay(root, instant, tree, times, rounds);
}

/// A path that is not in reach of a run has the times after it that it had
/// before, or none as before. This holds of every symbolic link below the
/// root, which is never in reach as itself, and of what lies behind it.
pub proof fn law_other_paths_keep_their_times(
    root: Seq<char>,
    instant: Instant,
    tree: Tree,
    times: Times,
    rounds: nat,
    path: Seq<char>,
)
    requires
        rooted(tree, root),
        rounds >= run_rounds(tree),
        !sets(tree, path),
    ensures
        play(opening(root, instant, Some(tree), times), rounds).times.dom().contains(path)
            == times.dom().contains(path),
        times.dom().contains(path) ==> play(
            opening(root, instant, Some(tree), times),
            rounds,
        ).times[path] == times[path],
{
    lemma_replay(root, instant, tree, times, rounds);
}

/// A second run on the same tree with the same instant leaves the times as the
/// first run left them, and reports what the first run reported.
pub proof fn law_second_run_changes_nothing(
    root: Seq<char>,
    instant: Instant,
    tree: Tree,
    times: Times,
    first: nat,
    second: nat,
)
    requires
        rooted(tree, root),
        first >= run_rounds(tree),
        second >= run_rounds(tree),
    ensures
        ({
            let once = play(opening(root, instant, Some(tree), times), first);
            let twice = play(opening(root, instant, Some(tree), once.times), second);
            twice.times == once.times && twice.reports == once.reports
        }),
{
    lemma_replay(root, instant, tree, times, first);
    let once = play(opening(root, instant, Some(tree), times), first);
    lemma_replay(root, instant, tree, once.times, second);
    assert(walk_times(tree, instant, once.times) =~= once.times);
}

/// A run comes to its end whatever fails on the way, with the verdict that all
/// went well, and its outcomes are those of the tree, entry by entry: each
/// entry in reach is reported once, as set or as failed by its own answer
/// alone, and each symbolic link as skipped.
pub proof fn law_each_entry_has_its_own_outcome(
    root: Seq<char>,
    instant: Instant,
    tree: Tree,
    times: Times,
    rounds: nat,
)
    requires
        rooted(tree, root),
        rounds >= run_rounds(tree),
    ensures
        play(opening(root, instant, Some(tree), times), rounds).run.phase == (PhaseView::Done {
            verdict: Ok(()),
        }),
        play(opening(root, instant, Some(tree), times), rounds).reports == tree_reports(tree),
{
    lemma_replay(root, instant, tree, times, rounds);
}

/// A run reports as many failures as there are entries in its reach that do
/// not let their times be set: one for each, and none for any other entry.
pub proof fn law_each_refusal_is_one_failure(
    root: Seq<char>,
    instant: Instant,
    tree: Tree,
    times: Times,
    rounds: nat,
)
    requires
        rooted(tree, root),
        rounds >= run_rounds(tree),
    ensures
        failures(play(opening(root, instant, Some(tree), times), rounds).reports) == refusals(
            tree,
        ),
{
    lemma_replay(root, instant, tree, times, rounds);
    lemma_tree_failures(tree);
}

/// A walk never goes through a symbolic link: whatever lies behind one, the
/// walk of the link sets no times, reports one skipped entry and takes a
/// single round.
pub proof fn law_a_link_is_never_followed(tree: Tree, path: Seq<char>)
    requires
        tree.entry.kind == EntryKind::Symlink,
    ensures
        !sets(tree, path),
        refusals(tree) == 0,
        tree_rounds(tree) == 1,
        tree_reports(tree) == seq![
            OutcomeView::Skipped { path: tree.entry.path, reason: SkipReason::Symlink },
        ],
{
}

/// Whether the times of an entry could be set decides the outcome that is
/// reported for it, and nothing else: the run goes on to the same state and
/// makes the same request after a failure as after a success.
pub proof fn law_failure_changes_only_the_outcome(
    run: RunView,
    one: Result<(), Seq<char>>,
    other: Result<(), Seq<char>>,
)
    requires
        run.phase is Applying,
    ensures
        next(run, EventView::TimesSet { result: one }).run == next(
            run,
            EventView::TimesSet { result: other },
        ).run,
        next(run, EventView::TimesSet { result: one }).step.request == next(
            run,
            EventView::TimesSet { result: other },
        ).step.request,
        next(run, EventView::TimesSet { result: one }).step.outcome == Some(
            outcome_of(run.phase->Applying_entry.path, one),
        ),
{
}

/// No step asks anything of the filesystem about a symbolic link. A run
/// starts out sparing them and every step keeps it so. A request to set times
/// is for the entry that the run is then busy with, which is no symbolic link,
/// and carries the run's one instant for both times. A request to enumerate is
/// for the entry that the run is then busy with, which is a directory. The
/// instant and the root never change.
pub proof fn law_requests_spare_links(run: RunView, event: EventView)
    requires
        spares_links(run),
    ensures
        spares_links(initial(run.root, run.instant)),
        spares_links(next(run, event).run),
        next(run, event).run.instant == run.instant,
        next(run, event).run.root == run.root,
        next(run, event).step.request matches RequestView::SetTimes { path, accessed, modified }
            ==> {
            &&& accessed == run.instant
            &&& modified == run.instant
            &&& next(run, event).run.phase matches PhaseView::Applying { entry }
            &&& entry.path == path
            &&& entry.kind != EntryKind::Symlink
        },
        next(run, event).step.request matches RequestView::ListChildren { path } ==> {
            &&& next(run, event).run.phase matches PhaseView::Listing { entry }
            &&& entry.path == path
            &&& entry.kind == EntryKind::Directory
        },
{
}

/// A symbolic link that comes up on the worklist is dropped from it and
/// reported as skipped, and the step asks for nothing: the link is neither
/// followed nor changed.
pub proof fn law_links_are_passed_over(run: RunView, event: EventView)
    requires
        run.phase == PhaseView::Ready,
        run.pending.len() > 0,
        run.pending.last().kind == EntryKind::Symlink,
    ensures
        next(run, event).run == (RunView { pending: run.pending.drop_last(), ..run }),
        next(run, event).step.request == RequestView::Continue,
        next(run, event).step.outcome == Some(
            OutcomeView::Skipped { path: run.pending.last().path, reason: SkipReason::Symlink },
        ),
{
}

/// A root that is missing, or that is neither a regular file nor a directory,
/// ends the run with that verdict as soon as the probe is answered: nothing
/// else was asked of the filesystem, no times have changed and nothing is
/// reported.
pub proof fn law_refused_root_is_left_alone(
    root: Seq<char>,
    instant: Instant,
    tree: Option<Tree>,
    times: Times,
    rounds: nat,
)
    requires
        rounds >= 2,
        tree matches Some(held) ==> !rooted(held, root),
    ensures
        ({
            let end = play(opening(root, instant, tree, times), rounds);
            let verdict = Err::<(), RootError>(
                if tree matches Some(held) && held.entry.path == root {
                    RootError::UnsupportedType
                } else {
                    RootError::NotFound
                },
            );
            &&& end.run.phase == PhaseView::Done { verdict }
            &&& end.asked == RequestView::Finish { verdict }
            &&& end.times == times
            &&& end.reports == Seq::<OutcomeView>::empty()
        }),
{
    let start = opening(root, instant, tree, times);
    let probing = advance(start);
    let over = advance(probing);
    lemma_play_once(start, 1);
    lemma_play_once(probing, 0);
    let verdict = Err::<(), RootError>(
        if tree matches Some(held) && held.entry.path == root {
            RootError::UnsupportedType
        } else {
            RootError::NotFound
        },
    );
    lemma_over(over, verdict, (rounds - 2) as nat);
    lemma_play_split(start, 2, (rounds - 2) as nat);
}

} // verus!
