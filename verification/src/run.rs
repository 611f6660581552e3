//! A run as a state machine.
//!
//! The machine never touches the filesystem. Each [`Run::step`] hands out one
//! [`Request`]; whoever drives the run performs it and brings the answer back
//! as the [`Event`] of the next step. What a step decides is written once, as
//! the function [`next`] over the views of the state and of the event, and
//! [`Run::step`] is proved to compute exactly that.

use crate::clock::{
    resolve_instant, timestamp_comes_to, wall_time_read, Instant, TimeError, WallTime,
    TIMESTAMP_FORMAT,
};
use crate::entry::{classify, root_kind, Entry, EntryKind, EntryView, RootError};
use crate::report::{Outcome, OutcomeView, SkipReason};
use vstd::prelude::*;

verus! {

/// What the run asks its driver to do next.
#[derive(Debug, PartialEq, Eq)]
pub enum Request {
    /// Find out whether `path` exists and of what kind it is.
    Probe { path: String },
    /// Set the access time and the modification time of `path`.
    SetTimes { path: String, accessed: Instant, modified: Instant },
    /// Enumerate the direct children of the directory `path`.
    ListChildren { path: String },
    /// Nothing to do outside: step again.
    Continue,
    /// The run is over, with this verdict. Only a root that no run can start
    /// from makes it an error; failures of single entries do not.
    Finish { verdict: Result<(), RootError> },
}

/// The mathematical content of a [`Request`].
pub enum RequestView {
    Probe { path: Seq<char> },
    SetTimes { path: Seq<char>, accessed: Instant, modified: Instant },
    ListChildren { path: Seq<char> },
    Continue,
    Finish { verdict: Result<(), RootError> },
}

impl View for Request {
    type V = RequestView;

    open spec fn view(&self) -> RequestView {
        match self {
            Request::Probe { path } => RequestView::Probe { path: path@ },
            Request::SetTimes { path, accessed, modified } => RequestView::SetTimes {
                path: path@,
                accessed: *accessed,
                modified: *modified,
            },
            Request::ListChildren { path } => RequestView::ListChildren { path: path@ },
            Request::Continue => RequestView::Continue,
            Request::Finish { verdict } => RequestView::Finish { verdict: *verdict },
        }
    }
}

/// What the driver reports back.
#[derive(Debug, PartialEq, Eq)]
pub enum Event {
    /// Nothing to report: the answer to [`Request::Continue`], and the event of
    /// the first step.
    Resume,
    /// The answer to [`Request::Probe`].
    Probed { exists: bool, kind: EntryKind },
    /// The answer to [`Request::SetTimes`]: done, or the reason why not.
    TimesSet { result: Result<(), String> },
    /// The answer to [`Request::ListChildren`]: the items of the enumeration in
    /// the order they came, `None` for each one that could not be read.
    Listed { items: Vec<Option<Entry>> },
}

/// The mathematical content of an [`Event`].
pub enum EventView {
    Resume,
    Probed { exists: bool, kind: EntryKind },
    TimesSet { result: Result<(), Seq<char>> },
    Listed { items: Seq<Option<EntryView>> },
}

/// The view of the result of setting an entry's times.
pub open spec fn result_view(result: Result<(), String>) -> Result<(), Seq<char>> {
    match result {
        Ok(_) => Ok(()),
        Err(error) => Err(error@),
    }
}

impl View for Event {
    type V = EventView;

    open spec fn view(&self) -> EventView {
        match self {
            Event::Resume => EventView::Resume,
            Event::Probed { exists, kind } => EventView::Probed { exists: *exists, kind: *kind },
            Event::TimesSet { result } => EventView::TimesSet { result: result_view(*result) },
            Event::Listed { items } => EventView::Listed { items: items.deep_view() },
        }
    }
}

/// What one step yields: the outcome of the entry it finished with, if it
/// finished with one, and the next request.
#[derive(Debug, PartialEq, Eq)]
pub struct Step {
    pub outcome: Option<Outcome>,
    pub request: Request,
}

/// The mathematical content of a [`Step`].
pub struct StepView {
    pub outcome: Option<OutcomeView>,
    pub request: RequestView,
}

impl View for Step {
    type V = StepView;

    open spec fn view(&self) -> StepView {
        StepView { outcome: self.outcome.deep_view(), request: self.request@ }
    }
}

/// Where a run stands.
pub enum PhaseView {
    /// Nothing has been asked yet.
    Start,
    /// The root is being probed.
    Probing,
    /// No request is outstanding; the next entry is taken from the worklist.
    Ready,
    /// The times of `entry` are being set.
    Applying { entry: EntryView },
    /// The children of the directory `entry` are being enumerated.
    Listing { entry: EntryView },
    /// The run is over.
    Done { verdict: Result<(), RootError> },
}

/// The mathematical content of a [`Run`]: the root and the instant it was
/// started with, the worklist of entries still to visit (the last one is next),
/// and the phase.
#[verifier::ext_equal]
pub struct RunView {
    pub root: Seq<char>,
    pub instant: Instant,
    pub pending: Seq<EntryView>,
    pub phase: PhaseView,
}

/// A state and the step that led to it.
pub struct Turn {
    pub run: RunView,
    pub step: StepView,
}

/// The state of a run of which no step has been taken.
pub open spec fn initial(root: Seq<char>, instant: Instant) -> RunView {
    RunView { root, instant, pending: Seq::empty(), phase: PhaseView::Start }
}

/// The request to set both times of `path` to the run's instant.
pub open spec fn set_times(run: RunView, path: Seq<char>) -> RequestView {
    RequestView::SetTimes { path, accessed: run.instant, modified: run.instant }
}

/// A step that reports nothing and asks for `request`.
pub open spec fn asking(request: RequestView) -> StepView {
    StepView { outcome: None, request }
}

/// The end of a run.
pub open spec fn finished(run: RunView, verdict: Result<(), RootError>) -> Turn {
    Turn {
        run: RunView { phase: PhaseView::Done { verdict }, ..run },
        step: asking(RequestView::Finish { verdict }),
    }
}

/// The entries among `items` in the order in which a worklist takes them up:
/// pushed last to first, so that the first one listed is the first one
/// visited. Items that could not be read are dropped.
pub open spec fn stacked<T>(items: Seq<Option<T>>) -> Seq<T>
    decreases items.len(),
{
    if items.len() == 0 {
        Seq::empty()
    } else {
        stacked(items.drop_first()) + match items.first() {
            Some(entry) => seq![entry],
            None => Seq::empty(),
        }
    }
}

/// The outcome of an entry whose times were asked to be set.
pub open spec fn outcome_of(path: Seq<char>, result: Result<(), Seq<char>>) -> OutcomeView {
    match result {
        Ok(_) => OutcomeView::Applied { path },
        Err(error) => OutcomeView::Failed { path, error },
    }
}

/// The first step: the root is probed before anything is changed.
pub open spec fn begin(run: RunView) -> Turn {
    Turn {
        run: RunView { phase: PhaseView::Probing, ..run },
        step: asking(RequestView::Probe { path: run.root }),
    }
}

/// The step that receives the answer to the probe. A root that is a file or a
/// directory becomes the only entry of the worklist; any other root ends the
/// run at once.
pub open spec fn on_probe(run: RunView, event: EventView) -> Turn {
    match event {
        EventView::Probed { exists, kind } => match root_kind(exists, kind) {
            Ok(_) => Turn {
                run: RunView {
                    pending: seq![EntryView { path: run.root, kind }],
                    phase: PhaseView::Ready,
                    ..run
                },
                step: asking(RequestView::Continue),
            },
            Err(error) => finished(run, Err(error)),
        },
        _ => Turn { run, step: asking(RequestView::Probe { path: run.root }) },
    }
}

/// The step that takes up the next entry of the worklist. A symbolic link is
/// skipped: nothing is asked of the filesystem for it. For any other entry the
/// times are asked to be set. An empty worklist ends the run, and ends it
/// well: an entry whose times could not be set was reported when it failed, and
/// does not count against the run.
pub open spec fn take_up(run: RunView) -> Turn {
    if run.pending.len() == 0 {
        finished(run, Ok(()))
    } else {
        let entry = run.pending.last();
        let rest = run.pending.drop_last();
        if entry.kind == EntryKind::Symlink {
            Turn {
                run: RunView { pending: rest, ..run },
                step: StepView {
                    outcome: Some(
                        OutcomeView::Skipped { path: entry.path, reason: SkipReason::Symlink },
                    ),
                    request: RequestView::Continue,
                },
            }
        } else {
            Turn {
                run: RunView { pending: rest, phase: PhaseView::Applying { entry }, ..run },
                step: asking(set_times(run, entry.path)),
            }
        }
    }
}

/// The step that learns how setting the times of `entry` went. Either way the
/// entry has its outcome and the run goes on: into the entry if it is a
/// directory, to the next entry otherwise.
pub open spec fn on_times_set(run: RunView, entry: EntryView, event: EventView) -> Turn {
    match event {
        EventView::TimesSet { result } => {
            let outcome = Some(outcome_of(entry.path, result));
            if entry.kind == EntryKind::Directory {
                Turn {
                    run: RunView { phase: PhaseView::Listing { entry }, ..run },
                    step: StepView {
                        outcome,
                        request: RequestView::ListChildren { path: entry.path },
                    },
                }
            } else {
                Turn {
                    run: RunView { phase: PhaseView::Ready, ..run },
                    step: StepView { outcome, request: RequestView::Continue },
                }
            }
        },
        _ => Turn { run, step: asking(set_times(run, entry.path)) },
    }
}

/// The step that receives the children of `entry`. Those that were read join
/// the worklist; those that were not are passed over.
pub open spec fn on_listed(run: RunView, entry: EntryView, event: EventView) -> Turn {
    match event {
        EventView::Listed { items } => Turn {
            run: RunView {
                pending: run.pending + stacked(items),
                phase: PhaseView::Ready,
                ..run
            },
            step: asking(RequestView::Continue),
        },
        _ => Turn { run, step: asking(RequestView::ListChildren { path: entry.path }) },
    }
}

/// Whether a run is busy with nothing that it must leave alone: the times are
/// never being set on a symbolic link, and nothing but a directory is ever
/// being enumerated.
pub open spec fn spares_links(run: RunView) -> bool {
    match run.phase {
        PhaseView::Applying { entry } => entry.kind != EntryKind::Symlink,
        PhaseView::Listing { entry } => entry.kind == EntryKind::Directory,
        _ => true,
    }
}

/// One step of a run: the state and the event give the next state, the outcome
/// to report and the next request.
///
/// An event that does not answer the outstanding request changes nothing, and
/// the request is made again.
pub open spec fn next(run: RunView, event: EventView) -> Turn {
    match run.phase {
        PhaseView::Start => begin(run),
        PhaseView::Probing => on_probe(run, event),
        PhaseView::Ready => take_up(run),
        PhaseView::Applying { entry } => on_times_set(run, entry, event),
        PhaseView::Listing { entry } => on_listed(run, entry, event),
        PhaseView::Done { verdict } => Turn {
            run,
            step: asking(RequestView::Finish { verdict }),
        },
    }
}

/// Whether `begun` can be what beginning a run on `root` comes to, where
/// `reading` is what the parser finds in the timestamp: a run of which no step
/// has been taken, with an instant that the timestamp can come to, or the
/// error that the timestamp comes to.
pub open spec fn begins(
    root: Seq<char>,
    reading: Option<WallTime>,
    begun: Result<RunView, TimeError>,
) -> bool {
    match begun {
        Ok(run) => run == initial(root, run.instant) && timestamp_comes_to(
            reading,
            Ok(run.instant),
        ),
        Err(error) => timestamp_comes_to(reading, Err(error)),
    }
}

/// The view of what beginning a run came to.
pub open spec fn shown(begun: Result<Run, TimeError>) -> Result<RunView, TimeError> {
    match begun {
        Ok(run) => Ok(run@),
        Err(error) => Err(error),
    }
}

/// The run `run`, busy setting the times of `entry`.
spec fn applying(run: RunView, entry: EntryView) -> RunView {
    RunView { phase: PhaseView::Applying { entry }, ..run }
}

/// The run `run`, busy enumerating `entry`.
spec fn listing(run: RunView, entry: EntryView) -> RunView {
    RunView { phase: PhaseView::Listing { entry }, ..run }
}

/// Where a run stands, with the entry it is busy with.
#[derive(Debug)]
enum Phase {
    Start,
    Probing,
    Ready,
    Applying { entry: Entry },
    Listing { entry: Entry },
    Done { verdict: Result<(), RootError> },
}

impl View for Phase {
    type V = PhaseView;

    closed spec fn view(&self) -> PhaseView {
        match self {
            Phase::Start => PhaseView::Start,
            Phase::Probing => PhaseView::Probing,
            Phase::Ready => PhaseView::Ready,
            Phase::Applying { entry } => PhaseView::Applying { entry: entry@ },
            Phase::Listing { entry } => PhaseView::Listing { entry: entry@ },
            Phase::Done { verdict } => PhaseView::Done { verdict: *verdict },
        }
    }
}

/// One run: the root, the instant to apply, the worklist and the phase.
#[derive(Debug)]
pub struct Run {
    root: String,
    instant: Instant,
    pending: Vec<Entry>,
    phase: Phase,
}

impl View for Run {
    type V = RunView;

    closed spec fn view(&self) -> RunView {
        RunView {
            root: self.root@,
            instant: self.instant,
            pending: self.pending.deep_view(),
            phase: self.phase@,
        }
    }
}

impl Run {
    /// A run that will set the times of `root`, and of all beneath it, to
    /// `instant`. Nothing is asked of the filesystem before the first step.
    ///
    /// The nanoseconds of the instant must be below one second, as those of
    /// [`Instant::new`] are: no filesystem takes any other.
    pub fn new(root: String, instant: Instant) -> (run: Run)
        requires
            instant.wf(),
        ensures
            run@ == initial(root@, instant),
    {
        let run = Run { root, instant, pending: Vec::new(), phase: Phase::Start };
        assert(run.pending.deep_view() =~= Seq::<EntryView>::empty());
        run
    }

    /// A run on `root` with the instant at which the local clock shows
    /// `timestamp`.
    ///
    /// The timestamp is read before anything else happens: where it does not
    /// parse, or names no single instant, there is no run, and so no request
    /// that could reach the filesystem. Where there is a run, no step of it
    /// has been taken, and its instant is one that shows the reading of the
    /// timestamp in some time zone.
    pub fn begin(root: String, timestamp: &str) -> (begun: Result<Run, TimeError>)
        ensures
            begins(root@, wall_time_read(timestamp@, TIMESTAMP_FORMAT@), shown(begun)),
    {
        match resolve_instant(timestamp) {
            Ok(instant) => Ok(Run::new(root, instant)),
            Err(error) => Err(error),
        }
    }

    /// The request to set both times of `path` to the run's instant.
    fn ask_times(&self, path: &String) -> (request: Request)
        ensures
            request@ == set_times(self@, path@),
    {
        Request::SetTimes { path: path.clone(), accessed: self.instant, modified: self.instant }
    }

    /// Ends the run with `verdict`.
    fn finish(&mut self, verdict: Result<(), RootError>) -> (step: Step)
        ensures
            final(self)@ == finished(old(self)@, verdict).run,
            step@ == finished(old(self)@, verdict).step,
    {
        self.phase = Phase::Done { verdict };
        Step { outcome: None, request: Request::Finish { verdict } }
    }

    /// Receives the answer to the probe of the root.
    fn probed(&mut self, event: Event) -> (step: Step)
        requires
            old(self)@.phase == PhaseView::Probing,
        ensures
            final(self)@ == on_probe(old(self)@, event@).run,
            step@ == on_probe(old(self)@, event@).step,
    {
        match event {
            Event::Probed { exists, kind } => match classify(exists, kind) {
                Ok(_) => {
                    let mut pending: Vec<Entry> = Vec::new();
                    pending.push(Entry { path: self.root.clone(), kind });
                    self.pending = pending;
                    self.phase = Phase::Ready;
                    assert(self.pending.deep_view() =~= seq![
                        EntryView { path: self.root@, kind },
                    ]);
                    Step { outcome: None, request: Request::Continue }
                },
                Err(error) => self.finish(Err(error)),
            },
            _ => Step { outcome: None, request: Request::Probe { path: self.root.clone() } },
        }
    }

    /// Takes up the next entry of the worklist.
    fn take_next(&mut self) -> (step: Step)
        requires
            old(self)@.phase == PhaseView::Ready,
        ensures
            final(self)@ == take_up(old(self)@).run,
            step@ == take_up(old(self)@).step,
    {
        match self.pending.pop() {
            None => self.finish(Ok(())),
            Some(entry) => {
                assert(self.pending.deep_view() =~= old(self).pending.deep_view().drop_last());
                assert(entry@ == old(self).pending.deep_view().last());
                match entry.kind {
                    EntryKind::Symlink => Step {
                        outcome: Some(
                            Outcome::Skipped { path: entry.path, reason: SkipReason::Symlink },
                        ),
                        request: Request::Continue,
                    },
                    _ => {
                        let request = self.ask_times(&entry.path);
                        self.phase = Phase::Applying { entry };
                        Step { outcome: None, request }
                    },
                }
            },
        }
    }

    /// Learns how setting the times of `entry` went. The phase is taken from
    /// `entry`, not from the run.
    fn times_set(&mut self, entry: Entry, event: Event) -> (step: Step)
        ensures
            final(self)@ == on_times_set(applying(old(self)@, entry@), entry@, event@).run,
            step@ == on_times_set(applying(old(self)@, entry@), entry@, event@).step,
    {
        match event {
            Event::TimesSet { result } => {
                let path = entry.path.clone();
                let outcome = match result {
                    Ok(_) => Outcome::Applied { path },
                    Err(error) => Outcome::Failed { path, error },
                };
                match entry.kind {
                    EntryKind::Directory => {
                        let request = Request::ListChildren { path: entry.path.clone() };
                        self.phase = Phase::Listing { entry };
                        Step { outcome: Some(outcome), request }
                    },
                    _ => {
                        self.phase = Phase::Ready;
                        Step { outcome: Some(outcome), request: Request::Continue }
                    },
                }
            },
            _ => {
                let request = self.ask_times(&entry.path);
                self.phase = Phase::Applying { entry };
                Step { outcome: None, request }
            },
        }
    }

    /// Receives the children of `entry`. The phase is taken from `entry`, not
    /// from the run.
    fn listed(&mut self, entry: Entry, event: Event) -> (step: Step)
        ensures
            final(self)@ == on_listed(listing(old(self)@, entry@), entry@, event@).run,
            step@ == on_listed(listing(old(self)@, entry@), entry@, event@).step,
    {
        match event {
            Event::Listed { items } => {
                let ghost given = items.deep_view();
                let ghost base = self.pending.deep_view();
                let mut items = items;
                assert(given.subrange(given.len() as int, given.len() as int) =~= Seq::empty());
                assert(self.pending.deep_view() =~= base + Seq::empty());
                // The items are taken from the back, so that the first of them
                // ends up on top of the worklist.
                while items.len() > 0
                    invariant
                        items.len() <= given.len(),
                        items.deep_view() == given.subrange(0, items.len() as int),
                        self.pending.deep_view() == base + stacked(
                            given.subrange(items.len() as int, given.len() as int),
                        ),
                        self.root == old(self).root,
                        self.instant == old(self).instant,
                    decreases items.len(),
                {
                    let ghost left = items.deep_view();
                    let ghost filled = self.pending.deep_view();
                    let ghost taken = given.subrange(items.len() as int, given.len() as int);
                    let item = items.pop().unwrap();
                    let ghost longer = given.subrange(items.len() as int, given.len() as int);
                    assert(item.deep_view() == left.last());
                    assert(items.deep_view() =~= given.subrange(0, items.len() as int));
                    assert(longer.drop_first() =~= taken);
                    assert(longer.first() == item.deep_view());
                    match item {
                        Some(child) => {
                            self.pending.push(child);
                            assert(self.pending.deep_view() =~= filled + seq![child@]);
                        },
                        None => {
                            assert(filled + Seq::<EntryView>::empty() =~= filled);
                        },
                    }
                }
                assert(given.subrange(0, given.len() as int) =~= given);
                self.phase = Phase::Ready;
                Step { outcome: None, request: Request::Continue }
            },
            _ => {
                let request = Request::ListChildren { path: entry.path.clone() };
                self.phase = Phase::Listing { entry };
                Step { outcome: None, request }
            },
        }
    }

    /// Takes one step: `event` answers the request of the step before.
    /// The new state, the outcome and the next request are those of [`next`].
    pub fn step(&mut self, event: Event) -> (step: Step)
        ensures
            final(self)@ == next(old(self)@, event@).run,
            step@ == next(old(self)@, event@).step,
    {
        let mut phase = Phase::Ready;
        core::mem::swap(&mut self.phase, &mut phase);
        match phase {
            Phase::Start => {
                self.phase = Phase::Probing;
                Step { outcome: None, request: Request::Probe { path: self.root.clone() } }
            },
            Phase::Probing => {
                self.phase = Phase::Probing;
                self.probed(event)
            },
            Phase::Ready => self.take_next(),
            Phase::Applying { entry } => self.times_set(entry, event),
            Phase::Listing { entry } => self.listed(entry, event),
            Phase::Done { verdict } => {
                self.phase = Phase::Done { verdict };
                Step { outcome: None, request: Request::Finish { verdict } }
            },
        }
    }
}

} // verus!
