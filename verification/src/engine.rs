//! The order in which repositories are inspected, prepared and updated.
use crate::git::Settings;
use crate::model::{blank_inspection, findings, outcomes};
use crate::model::{Inspection, InspectionView, SyncResult, SyncResultView};
use crate::plan::{PreparedSync, PreparedView, SyncPlan, SyncPlanView};
use vstd::prelude::*;

verus! {

/// What happens to the repository at an index while a run goes on.
#[derive(Debug, PartialEq, Eq)]
pub enum EngineEvent {
    InspectStarted(usize),
    InspectFinished(usize, Inspection),
    SyncFetching(usize),
    SyncPrepared(usize, SyncPlan),
    SyncChecksFinished(usize),
    SyncUpdating(usize, SyncPlan),
    SyncFinished(usize, SyncResult),
}

/// The contents of an [`EngineEvent`].
#[verifier::ext_equal]
pub enum EventView {
    InspectStarted(int),
    InspectFinished(int, InspectionView),
    SyncFetching(int),
    SyncPrepared(int, SyncPlanView),
    SyncChecksFinished(int),
    SyncUpdating(int, SyncPlanView),
    SyncFinished(int, SyncResultView),
}

impl View for EngineEvent {
    type V = EventView;

    open spec fn view(&self) -> EventView {
        match self {
            EngineEvent::InspectStarted(index) => EventView::InspectStarted(*index as int),
            EngineEvent::InspectFinished(index, inspection) => EventView::InspectFinished(
                *index as int,
                inspection@,
            ),
            EngineEvent::SyncFetching(index) => EventView::SyncFetching(*index as int),
            EngineEvent::SyncPrepared(index, plan) => EventView::SyncPrepared(
                *index as int,
                plan@,
            ),
            EngineEvent::SyncChecksFinished(count) => EventView::SyncChecksFinished(*count as int),
            EngineEvent::SyncUpdating(index, plan) => EventView::SyncUpdating(
                *index as int,
                plan@,
            ),
            EngineEvent::SyncFinished(index, result) => EventView::SyncFinished(
                *index as int,
                result@,
            ),
        }
    }
}

impl Clone for EngineEvent {
    fn clone(&self) -> (copy: Self)
        ensures
            copy@ == self@,
    {
        match self {
            EngineEvent::InspectStarted(index) => EngineEvent::InspectStarted(*index),
            EngineEvent::InspectFinished(index, inspection) => EngineEvent::InspectFinished(
                *index,
                inspection.clone(),
            ),
            EngineEvent::SyncFetching(index) => EngineEvent::SyncFetching(*index),
            EngineEvent::SyncPrepared(index, plan) => EngineEvent::SyncPrepared(
                *index,
                plan.clone(),
            ),
            EngineEvent::SyncChecksFinished(count) => EngineEvent::SyncChecksFinished(*count),
            EngineEvent::SyncUpdating(index, plan) => EngineEvent::SyncUpdating(
                *index,
                plan.clone(),
            ),
            EngineEvent::SyncFinished(index, result) => EngineEvent::SyncFinished(
                *index,
                result.clone(),
            ),
        }
    }
}

// ---------------------------------------------------------------------------
// Limiting
// ---------------------------------------------------------------------------

/// Counts the preparations under way. There are never more than the limit.
#[derive(Debug)]
pub struct SyncLimiter {
    active: usize,
    limit: usize,
}

impl SyncLimiter {
    #[verifier::type_invariant]
    spec fn within_limit(self) -> bool {
        self.active <= self.limit && 1 <= self.limit
    }

    /// The number of preparations under way.
    pub closed spec fn in_use(&self) -> nat {
        self.active as nat
    }

    /// The most preparations that may be under way.
    pub closed spec fn capacity(&self) -> nat {
        self.limit as nat
    }

    /// A limiter with nothing under way. A limit of zero counts as one.
    pub fn new(limit: usize) -> (limiter: Self)
        ensures
            limiter.in_use() == 0,
            limiter.capacity() == if limit == 0 {
                1
            } else {
                limit as nat
            },
    {
        SyncLimiter {
            active: 0,
            limit: if limit == 0 {
                1
            } else {
                limit
            },
        }
    }

    /// Takes a place where one is free.
    pub fn acquire(&mut self) -> (taken: bool)
        ensures
            final(self).capacity() == old(self).capacity(),
            taken == (old(self).in_use() < old(self).capacity()),
            final(self).in_use() == old(self).in_use() + if taken {
                1int
            } else {
                0
            },
            final(self).in_use() <= final(self).capacity(),
    {
        proof {
            use_type_invariant(&*self);
        }
        if self.active >= self.limit {
            return false;
        }
        self.active = self.active + 1;
        true
    }

    /// Gives a place back.
    pub fn release(&mut self)
        ensures
            final(self).capacity() == old(self).capacity(),
            final(self).in_use() == if old(self).in_use() == 0 {
                0
            } else {
                (old(self).in_use() - 1) as nat
            },
            final(self).in_use() < final(self).capacity(),
    {
        proof {
            use_type_invariant(&*self);
        }
        if self.active > 0 {
            self.active = self.active - 1;
        }
    }
}

/// The number of workers for `count` repositories.
pub open spec fn worker_count(jobs: usize, count: usize) -> usize {
    if jobs < count {
        jobs
    } else {
        count
    }
}

fn workers_for(jobs: usize, count: usize) -> (workers: usize)
    ensures
        workers == worker_count(jobs, count),
{
    if jobs < count {
        jobs
    } else {
        count
    }
}

// ---------------------------------------------------------------------------
// Inspecting
// ---------------------------------------------------------------------------

/// The inspection of every repository. Workers take indices in turn and hand in what they
/// find in any order.
#[derive(Debug)]
pub struct InspectRun {
    pub workers: usize,
    pub next: usize,
    pub results: Vec<Inspection>,
}

/// The contents of an [`InspectRun`].
#[verifier::ext_equal]
pub struct InspectRunView {
    pub workers: usize,
    pub next: usize,
    pub results: Seq<InspectionView>,
}

impl View for InspectRun {
    type V = InspectRunView;

    open spec fn view(&self) -> InspectRunView {
        InspectRunView {
            workers: self.workers,
            next: self.next,
            results: findings(self.results@),
        }
    }
}

/// A run before anything was inspected.
pub open spec fn fresh_inspections(count: usize, jobs: usize) -> InspectRunView {
    InspectRunView {
        workers: worker_count(jobs, count),
        next: 0,
        results: Seq::new(count as nat, |i: int| blank_inspection()),
    }
}

/// A run after the next inspection began.
pub open spec fn with_start(run: InspectRunView) -> InspectRunView {
    InspectRunView { next: (run.next + 1) as usize, ..run }
}

/// A run with what was found at an index.
pub open spec fn with_finding(
    run: InspectRunView,
    index: int,
    inspection: InspectionView,
) -> InspectRunView {
    InspectRunView { results: run.results.update(index, inspection), ..run }
}

/// Starts the inspection of `count` repositories.
pub fn inspect_all(count: usize, settings: Settings) -> (run: InspectRun)
    ensures
        run@ == fresh_inspections(count, settings.jobs),
{
    let mut results: Vec<Inspection> = Vec::new();
    let mut i: usize = 0;
    while i < count
        invariant
            i <= count,
            findings(results@) == Seq::new(i as nat, |j: int| blank_inspection()),
        decreases count - i,
    {
        let ghost before = results@;
        results.push(Inspection::default());
        proof {
            assert(findings(results@) =~= findings(before).push(blank_inspection()));
        }
        i = i + 1;
    }
    InspectRun { workers: workers_for(settings.jobs, count), next: 0, results }
}

impl InspectRun {
    /// Takes the next index. Each is taken once, from the first to the last.
    pub fn start(&mut self) -> (event: Option<EngineEvent>)
        ensures
            if old(self)@.next < old(self)@.results.len() {
                &&& event is Some
                &&& event->0@ == EventView::InspectStarted(old(self)@.next as int)
                &&& final(self)@ == with_start(old(self)@)
            } else {
                event is None && final(self)@ == old(self)@
            },
    {
        let index: usize = self.next;
        if index >= self.results.len() {
            return None;
        }
        self.next = index + 1;
        Some(EngineEvent::InspectStarted(index))
    }

    /// Keeps what was found at an index.
    pub fn finish(&mut self, index: usize, inspection: Inspection) -> (event: EngineEvent)
        requires
            index < old(self)@.results.len(),
        ensures
            final(self)@ == with_finding(old(self)@, index as int, inspection@),
            event@ == EventView::InspectFinished(index as int, inspection@),
    {
        let event = EngineEvent::InspectFinished(index, inspection.clone());
        self.results.set(index, inspection);
        proof {
            assert(findings(self.results@) =~= findings(old(self).results@).update(
                index as int,
                inspection@,
            ));
        }
        event
    }
}

// ---------------------------------------------------------------------------
// Synchronizing
// ---------------------------------------------------------------------------

/// The preparation of every repository, in any order, and then the updates, one after the
/// other.
#[derive(Debug)]
pub struct SyncRun {
    pub workers: usize,
    pub next: usize,
    pub prepared: Vec<Option<PreparedSync>>,
    pub results: Vec<SyncResult>,
}

/// The contents of a [`SyncRun`].
#[verifier::ext_equal]
pub struct SyncRunView {
    pub workers: usize,
    pub next: usize,
    pub prepared: Seq<Option<PreparedView>>,
    pub results: Seq<SyncResultView>,
}

/// The preparations that a list holds.
pub open spec fn preparations(list: Seq<Option<PreparedSync>>) -> Seq<Option<PreparedView>> {
    list.map_values(
        |item: Option<PreparedSync>|
            match item {
                Some(prepared) => Some(prepared@),
                None => None,
            },
    )
}

impl View for SyncRun {
    type V = SyncRunView;

    open spec fn view(&self) -> SyncRunView {
        SyncRunView {
            workers: self.workers,
            next: self.next,
            prepared: preparations(self.prepared@),
            results: outcomes(self.results@),
        }
    }
}

impl SyncRunView {
    /// Whether every preparation was handed in.
    pub open spec fn all_prepared(self) -> bool {
        forall|i: int| 0 <= i < self.prepared.len() ==> (#[trigger] self.prepared[i]) is Some
    }

    /// Whether the results so far belong to the first repositories, and a repository that
    /// needed no update has the result of its preparation.
    pub open spec fn in_order(self) -> bool {
        &&& self.results.len() <= self.prepared.len()
        &&& forall|i: int|
            0 <= i < self.results.len() ==> match #[trigger] self.prepared[i] {
                Some(PreparedView::Terminal(result)) => self.results[i] == result,
                Some(PreparedView::Update(_)) => true,
                None => false,
            }
    }
}

/// A run before anything was prepared.
pub open spec fn fresh_run(count: usize, jobs: usize) -> SyncRunView {
    SyncRunView {
        workers: worker_count(jobs, count),
        next: 0,
        prepared: Seq::new(count as nat, |i: int| None),
        results: seq![],
    }
}

/// Starts the synchronization of `count` repositories, with a limiter of its own.
pub fn sync_all(count: usize, settings: Settings) -> (start: (SyncRun, SyncLimiter))
    ensures
        start.0@ == fresh_run(count, settings.jobs),
        start.0@.in_order(),
        start.1.in_use() == 0,
        start.1.capacity() == if settings.jobs == 0 {
            1
        } else {
            settings.jobs as nat
        },
{
    (sync_all_with_limiter(count, settings), SyncLimiter::new(settings.jobs))
}

/// Starts the synchronization of `count` repositories whose preparations share a limiter
/// with other runs.
pub fn sync_all_with_limiter(count: usize, settings: Settings) -> (run: SyncRun)
    ensures
        run@ == fresh_run(count, settings.jobs),
        run@.in_order(),
{
    let mut prepared: Vec<Option<PreparedSync>> = Vec::new();
    let mut i: usize = 0;
    while i < count
        invariant
            i <= count,
            preparations(prepared@) == Seq::new(i as nat, |j: int| None::<PreparedView>),
        decreases count - i,
    {
        let ghost before = prepared@;
        prepared.push(None);
        proof {
            assert(preparations(prepared@) =~= preparations(before).push(None));
        }
        i = i + 1;
    }
    let run = SyncRun {
        workers: workers_for(settings.jobs, count),
        next: 0,
        prepared,
        results: Vec::new(),
    };
    proof {
        assert(run@ =~= fresh_run(count, settings.jobs));
    }
    run
}

/// The event that tells how a preparation ended.
pub open spec fn prepared_event(index: int, prepared: PreparedView) -> EventView {
    match prepared {
        PreparedView::Update(plan) => EventView::SyncPrepared(index, plan),
        PreparedView::Terminal(result) => EventView::SyncFinished(index, result),
    }
}

/// The number of updates among the preparations.
pub open spec fn count_updates(prepared: Seq<Option<PreparedView>>) -> nat
    decreases prepared.len(),
{
    if prepared.len() == 0 {
        0
    } else {
        count_updates(prepared.drop_last()) + if prepared.last() matches Some(
            PreparedView::Update(_),
        ) {
            1nat
        } else {
            0nat
        }
    }
}

/// The results after those of all repositories up to the next update.
pub open spec fn results_up_to_update(
    prepared: Seq<Option<PreparedView>>,
    results: Seq<SyncResultView>,
) -> Seq<SyncResultView>
    decreases prepared.len() - results.len(),
{
    if results.len() >= prepared.len() {
        results
    } else {
        match prepared[results.len() as int] {
            Some(PreparedView::Terminal(result)) => results_up_to_update(
                prepared,
                results.push(result),
            ),
            _ => results,
        }
    }
}

/// A run after the next index was taken.
pub open spec fn with_fetch(run: SyncRunView) -> SyncRunView {
    SyncRunView { next: (run.next + 1) as usize, ..run }
}

/// A run with the preparation of an index.
pub open spec fn with_preparation(
    run: SyncRunView,
    index: int,
    prepared: PreparedView,
) -> SyncRunView {
    SyncRunView { prepared: run.prepared.update(index, Some(prepared)), ..run }
}

/// A run with the results of all repositories up to the next update.
pub open spec fn advanced(run: SyncRunView) -> SyncRunView {
    SyncRunView { results: results_up_to_update(run.prepared, run.results), ..run }
}

/// A run with one more result.
pub open spec fn with_result(run: SyncRunView, result: SyncResultView) -> SyncRunView {
    SyncRunView { results: run.results.push(result), ..run }
}

/// Results that are there stay as they are, whatever is added behind them.
pub proof fn results_are_kept(prepared: Seq<Option<PreparedView>>, results: Seq<SyncResultView>)
    ensures
        results.is_prefix_of(results_up_to_update(prepared, results)),
    decreases prepared.len() - results.len(),
{
    if results.len() < prepared.len() {
        if let Some(PreparedView::Terminal(result)) = prepared[results.len() as int] {
            results_are_kept(prepared, results.push(result));
        }
    }
}

/// Updates run one after the other: until the result of an update is kept, going on gives the
/// same update again and adds no result.
pub proof fn updates_are_serial(prepared: Seq<Option<PreparedView>>, results: Seq<SyncResultView>)
    ensures
        results_up_to_update(prepared, results_up_to_update(prepared, results))
            == results_up_to_update(prepared, results),
    decreases prepared.len() - results.len(),
{
    if results.len() < prepared.len() {
        if let Some(PreparedView::Terminal(result)) = prepared[results.len() as int] {
            updates_are_serial(prepared, results.push(result));
        }
    }
}

impl SyncRun {
    /// Takes the next index to prepare, and tells that its fetch begins. Each is taken once,
    /// from the first to the last.
    pub fn take(&mut self) -> (event: Option<EngineEvent>)
        ensures
            if old(self)@.next < old(self)@.prepared.len() {
                &&& event is Some
                &&& event->0@ == EventView::SyncFetching(old(self)@.next as int)
                &&& final(self)@ == with_fetch(old(self)@)
            } else {
                event is None && final(self)@ == old(self)@
            },
    {
        let index: usize = self.next;
        if index >= self.prepared.len() {
            return None;
        }
        self.next = index + 1;
        Some(EngineEvent::SyncFetching(index))
    }

    /// Keeps the preparation of an index and tells how it ended.
    pub fn prepare(&mut self, index: usize, prepared: PreparedSync) -> (event: EngineEvent)
        requires
            index < old(self)@.prepared.len(),
        ensures
            event@ == prepared_event(index as int, prepared@),
            final(self)@ == with_preparation(old(self)@, index as int, prepared@),
            old(self)@.results.len() == 0 ==> final(self)@.in_order(),
    {
        let event = match &prepared {
            PreparedSync::Update(plan) => EngineEvent::SyncPrepared(index, plan.clone()),
            PreparedSync::Terminal(result) => EngineEvent::SyncFinished(index, result.clone()),
        };
        self.prepared.set(index, Some(prepared));
        proof {
            assert(preparations(self.prepared@) =~= preparations(old(self).prepared@).update(
                index as int,
                Some(prepared@),
            ));
        }
        event
    }

    /// Whether every preparation was handed in.
    pub fn complete(&self) -> (answer: bool)
        ensures
            answer == self@.all_prepared(),
    {
        let mut i: usize = 0;
        while i < self.prepared.len()
            invariant
                i <= self.prepared@.len(),
                forall|j: int| 0 <= j < i ==> (#[trigger] self@.prepared[j]) is Some,
            decreases self.prepared@.len() - i,
        {
            if self.prepared[i].is_none() {
                assert(self@.prepared[i as int] is None);
                return false;
            }
            assert(self@.prepared[i as int] is Some);
            i = i + 1;
        }
        true
    }

    /// Tells how many updates are needed. A run without repositories tells nothing.
    pub fn checks_finished(&self) -> (event: Option<EngineEvent>)
        ensures
            match event {
                Some(event) => {
                    &&& self@.prepared.len() > 0
                    &&& event@ == EventView::SyncChecksFinished(
                        count_updates(self@.prepared) as int,
                    )
                },
                None => self@.prepared.len() == 0,
            },
    {
        if self.prepared.len() == 0 {
            return None;
        }
        let mut count: usize = 0;
        let mut i: usize = 0;
        while i < self.prepared.len()
            invariant
                i <= self.prepared@.len(),
                count <= i,
                count == count_updates(self@.prepared.take(i as int)),
            decreases self.prepared@.len() - i,
        {
            proof {
                assert(self@.prepared.take(i + 1).drop_last() =~= self@.prepared.take(i as int));
                assert(self@.prepared.take(i + 1).last() == self@.prepared[i as int]);
            }
            if let Some(PreparedSync::Update(_)) = &self.prepared[i] {
                count = count + 1;
            }
            i = i + 1;
        }
        proof {
            assert(self@.prepared.take(i as int) =~= self@.prepared);
        }
        Some(EngineEvent::SyncChecksFinished(count))
    }

    /// Goes on to the next repository that needs an update, and tells its index and plan.
    /// Where there is none left, every result is there.
    pub fn advance(&mut self) -> (update: Option<(usize, SyncPlan)>)
        requires
            old(self)@.all_prepared(),
            old(self)@.in_order(),
        ensures
            final(self)@ == advanced(old(self)@),
            final(self)@.in_order(),
            match update {
                Some((index, plan)) => {
                    &&& index == final(self)@.results.len()
                    &&& index < final(self)@.prepared.len()
                    &&& final(self)@.prepared[index as int] == Some(PreparedView::Update(plan@))
                },
                None => final(self)@.results.len() == final(self)@.prepared.len(),
            },
    {
        let ghost goal = results_up_to_update(self@.prepared, self@.results);
        while self.results.len() < self.prepared.len()
            invariant
                self@.all_prepared(),
                self@.in_order(),
                self@.workers == old(self)@.workers,
                self@.next == old(self)@.next,
                self@.prepared == old(self)@.prepared,
                goal == results_up_to_update(self@.prepared, self@.results),
                goal == results_up_to_update(old(self)@.prepared, old(self)@.results),
            decreases self.prepared@.len() - self.results@.len(),
        {
            let index: usize = self.results.len();
            let ghost before = self@;
            proof {
                assert(self@.prepared[index as int] is Some);
            }
            match &self.prepared[index] {
                Some(PreparedSync::Update(plan)) => {
                    let plan = plan.clone();
                    proof {
                        assert(self@ =~= (SyncRunView { results: goal, ..old(self)@ }));
                    }
                    return Some((index, plan));
                },
                Some(PreparedSync::Terminal(result)) => {
                    let result = result.clone();
                    self.results.push(result);
                    proof {
                        assert(self@.results =~= before.results.push(result@));
                        assert(self@.prepared == before.prepared);
                    }
                },
                None => {},
            }
        }
        proof {
            assert(self@ =~= (SyncRunView { results: goal, ..old(self)@ }));
        }
        None
    }

    /// The event that tells that an update begins.
    pub fn updating(index: usize, plan: &SyncPlan) -> (event: EngineEvent)
        ensures
            event@ == EventView::SyncUpdating(index as int, plan@),
    {
        EngineEvent::SyncUpdating(index, plan.clone())
    }

    /// Keeps the result of the update that was due.
    pub fn update(&mut self, result: SyncResult) -> (event: EngineEvent)
        requires
            old(self)@.in_order(),
            old(self)@.results.len() < old(self)@.prepared.len(),
            old(self)@.prepared[old(self)@.results.len() as int] matches Some(
                PreparedView::Update(_),
            ),
        ensures
            event@ == EventView::SyncFinished(old(self)@.results.len() as int, result@),
            final(self)@ == with_result(old(self)@, result@),
            final(self)@.in_order(),
    {
        let event = EngineEvent::SyncFinished(self.results.len(), result.clone());
        self.results.push(result);
        proof {
            assert(self@.results =~= old(self)@.results.push(result@));
            assert(self@.prepared == old(self)@.prepared);
        }
        event
    }
}

} // verus!
