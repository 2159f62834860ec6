//! What holds of every run as a whole, in whatever order its workers hand in what they found.
use crate::engine::{
    advanced, count_updates, fresh_inspections, fresh_run, prepared_event, results_are_kept,
    with_fetch, with_finding, with_preparation, with_result, with_start, EventView,
    InspectRunView, SyncRunView,
};
use crate::git::{ReplyView, StepView, Timeout};
use crate::model::{blank_inspection, InspectionView, RepositoryView, SyncResultView};
use crate::plan::{apply_step, prepare_step, PreparedView, SyncPlanView};
use crate::plan_laws::{plan_is_what_was_found, update_reports_its_plan};
use vstd::prelude::*;

verus! {

// ---------------------------------------------------------------------------
// Inspecting
// ---------------------------------------------------------------------------

/// How far the inspections have come: the run, which repositories were inspected, and the
/// events that were told.
#[verifier::ext_equal]
pub struct InspectCourse {
    pub run: InspectRunView,
    pub done: Seq<bool>,
    pub told: Seq<EventView>,
}

/// A step of a worker: it takes the next repository, or hands in what it found.
pub enum InspectStep {
    Start,
    Finish(int, InspectionView),
}

/// Whether a worker can take a step: what was taken is handed in once.
pub open spec fn can_inspect(course: InspectCourse, step: InspectStep) -> bool {
    match step {
        InspectStep::Start => course.run.next < course.run.results.len(),
        InspectStep::Finish(index, _) => 0 <= index < course.run.next && !course.done[index],
    }
}

/// How far the inspections have come after a step.
pub open spec fn inspected(course: InspectCourse, step: InspectStep) -> InspectCourse {
    match step {
        InspectStep::Start => InspectCourse {
            run: with_start(course.run),
            told: course.told.push(EventView::InspectStarted(course.run.next as int)),
            ..course
        },
        InspectStep::Finish(index, inspection) => InspectCourse {
            run: with_finding(course.run, index, inspection),
            done: course.done.update(index, true),
            told: course.told.push(EventView::InspectFinished(index, inspection)),
        },
    }
}

/// How far the inspection of `count` repositories has come after some steps.
pub open spec fn inspect_course(
    count: usize,
    jobs: usize,
    steps: Seq<InspectStep>,
) -> InspectCourse
    decreases steps.len(),
{
    if steps.len() == 0 {
        InspectCourse {
            run: fresh_inspections(count, jobs),
            done: Seq::new(count as nat, |i: int| false),
            told: seq![],
        }
    } else {
        inspected(inspect_course(count, jobs, steps.drop_last()), steps.last())
    }
}

/// Whether workers can take these steps one after the other.
pub open spec fn can_inspect_all(count: usize, jobs: usize, steps: Seq<InspectStep>) -> bool
    decreases steps.len(),
{
    steps.len() > 0 ==> can_inspect_all(count, jobs, steps.drop_last()) && can_inspect(
        inspect_course(count, jobs, steps.drop_last()),
        steps.last(),
    )
}

/// Whether an event belongs to what was done: the start of each repository that was taken, and
/// the end of each that was inspected, with what the run keeps.
pub open spec fn inspection_event(course: InspectCourse, event: EventView) -> bool {
    match event {
        EventView::InspectStarted(index) => 0 <= index < course.run.next,
        EventView::InspectFinished(index, inspection) => 0 <= index < course.done.len()
            && course.done[index] && inspection == course.run.results[index],
        _ => false,
    }
}

/// Repositories are taken in turn, each once. Of each, the start and the end are told once, in
/// this order, and nothing else is told. The results stand in the places of the repositories:
/// those told of the ones that were inspected, and blank ones of the others.
pub proof fn inspections_are_told_once(count: usize, jobs: usize, steps: Seq<InspectStep>)
    requires
        can_inspect_all(count, jobs, steps),
    ensures
        ({
            let course = inspect_course(count, jobs, steps);
            &&& course.run.next <= course.run.results.len() == course.done.len() == count
            &&& course.told.no_duplicates()
            &&& forall|event: EventView| #[trigger]
                course.told.contains(event) <==> inspection_event(course, event)
            &&& forall|j: int|
                0 <= j < course.told.len() ==> ((#[trigger] course.told[j]) matches
                    EventView::InspectFinished(index, _) ==> course.told.take(j).contains(
                    EventView::InspectStarted(index),
                ))
            &&& forall|i: int|
                0 <= i < count && !(#[trigger] course.done[i]) ==> course.run.results[i]
                    == blank_inspection()
        }),
    decreases steps.len(),
{
    let course = inspect_course(count, jobs, steps);
    if steps.len() > 0 {
        let before = inspect_course(count, jobs, steps.drop_last());
        inspections_are_told_once(count, jobs, steps.drop_last());
        let event = course.told.last();
        assert(!inspection_event(before, event));
        told_once_more(before.told, event);
        assert forall|other: EventView| #[trigger]
            course.told.contains(other) <==> inspection_event(course, other) by {
            assert(before.told.contains(other) <==> inspection_event(before, other));
        }
        assert forall|j: int| 0 <= j < course.told.len() implies ((#[trigger] course.told[j])
            matches EventView::InspectFinished(index, _) ==> course.told.take(j).contains(
            EventView::InspectStarted(index),
        )) by {
            if j < before.told.len() {
                assert(before.told[j] == course.told[j]);
                assert(before.told.take(j) =~= course.told.take(j));
            } else {
                assert(course.told.take(j) =~= before.told);
                if let EventView::InspectFinished(index, _) = course.told[j] {
                    assert(before.told.contains(EventView::InspectStarted(index)));
                }
            }
        }
    }
}

proof fn told_once_more(told: Seq<EventView>, event: EventView)
    requires
        told.no_duplicates(),
        !told.contains(event),
    ensures
        told.push(event).no_duplicates(),
        forall|other: EventView| #[trigger]
            told.push(event).contains(other) <==> told.contains(other) || other == event,
{
    let more = told.push(event);
    assert forall|other: EventView| #[trigger] more.contains(other) <==> told.contains(other)
        || other == event by {
        if told.contains(other) {
            let i = choose|i: int| 0 <= i < told.len() && told[i] == other;
            assert(more[i] == other);
        }
        if other == event {
            assert(more[told.len() as int] == other);
        }
        if more.contains(other) && other != event {
            let i = choose|i: int| 0 <= i < more.len() && more[i] == other;
            assert(told[i] == other);
        }
    }
    assert forall|i: int, j: int| 0 <= i < more.len() && 0 <= j < more.len() && i != j implies
        more[i] != more[j] by {
        if i < told.len() {
            assert(told.contains(told[i]));
        }
        if j < told.len() {
            assert(told.contains(told[j]));
        }
    }
}

// ---------------------------------------------------------------------------
// Synchronizing
// ---------------------------------------------------------------------------

/// How far a synchronization has come: the run, where the end of the checks was told, and the
/// events that were told.
#[verifier::ext_equal]
pub struct SyncCourse {
    pub run: SyncRunView,
    pub checked: Option<int>,
    pub told: Seq<EventView>,
}

/// A step of a synchronization: a worker takes the next repository, or hands in what it
/// prepared; the checks end; the next update is carried out.
pub enum SyncStep {
    Fetch,
    Prepare(int, PreparedView),
    Check,
    Update(SyncResultView),
}

/// Whether a step can be taken: what was taken is handed in once, the checks end once all is
/// prepared, and updates follow as long as one is due.
pub open spec fn can_sync(course: SyncCourse, step: SyncStep) -> bool {
    match step {
        SyncStep::Fetch => course.run.next < course.run.prepared.len(),
        SyncStep::Prepare(index, _) => 0 <= index < course.run.next
            && course.run.prepared[index] is None,
        SyncStep::Check => course.checked is None && course.run.all_prepared()
            && course.run.prepared.len() > 0,
        SyncStep::Update(_) => course.checked is Some && !all_ended(course),
    }
}

/// Whether no update is left.
pub open spec fn all_ended(course: SyncCourse) -> bool {
    advanced(course.run).results.len() >= course.run.prepared.len()
}

/// The events of an update.
pub open spec fn update_told(
    prepared: Seq<Option<PreparedView>>,
    index: int,
    result: SyncResultView,
) -> Seq<EventView> {
    match prepared[index] {
        Some(PreparedView::Update(plan)) => seq![
            EventView::SyncUpdating(index, plan),
            EventView::SyncFinished(index, result),
        ],
        _ => seq![],
    }
}

/// How far a synchronization has come after a step.
pub open spec fn synchronized(course: SyncCourse, step: SyncStep) -> SyncCourse {
    match step {
        SyncStep::Fetch => SyncCourse {
            run: with_fetch(course.run),
            told: course.told.push(EventView::SyncFetching(course.run.next as int)),
            ..course
        },
        SyncStep::Prepare(index, prepared) => SyncCourse {
            run: with_preparation(course.run, index, prepared),
            told: course.told.push(prepared_event(index, prepared)),
            ..course
        },
        SyncStep::Check => SyncCourse {
            checked: Some(course.told.len() as int),
            told: course.told.push(
                EventView::SyncChecksFinished(count_updates(course.run.prepared) as int),
            ),
            ..course
        },
        SyncStep::Update(result) => {
            let run = advanced(course.run);
            SyncCourse {
                run: with_result(run, result),
                told: course.told + update_told(run.prepared, run.results.len() as int, result),
                ..course
            }
        },
    }
}

/// How far the synchronization of `count` repositories has come after some steps.
pub open spec fn sync_course(count: usize, jobs: usize, steps: Seq<SyncStep>) -> SyncCourse
    decreases steps.len(),
{
    if steps.len() == 0 {
        SyncCourse { run: fresh_run(count, jobs), checked: None, told: seq![] }
    } else {
        synchronized(sync_course(count, jobs, steps.drop_last()), steps.last())
    }
}

/// Whether these steps can be taken one after the other.
pub open spec fn can_sync_all(count: usize, jobs: usize, steps: Seq<SyncStep>) -> bool
    decreases steps.len(),
{
    steps.len() > 0 ==> can_sync_all(count, jobs, steps.drop_last()) && can_sync(
        sync_course(count, jobs, steps.drop_last()),
        steps.last(),
    )
}

/// Whether an event belongs to the checks that were made: the start of the fetch of each
/// repository that was taken, and how the preparation of each ended.
pub open spec fn check_event(run: SyncRunView, event: EventView) -> bool {
    match event {
        EventView::SyncFetching(index) => 0 <= index < run.next,
        EventView::SyncPrepared(index, plan) => 0 <= index < run.prepared.len()
            && run.prepared[index] == Some(PreparedView::Update(plan)),
        EventView::SyncFinished(index, result) => 0 <= index < run.prepared.len()
            && run.prepared[index] == Some(PreparedView::Terminal(result)),
        _ => false,
    }
}

/// The repository whose preparation ended, where an event tells of one.
pub open spec fn prepared_in(event: EventView) -> Option<int> {
    match event {
        EventView::SyncPrepared(index, _) => Some(index),
        EventView::SyncFinished(index, _) => Some(index),
        _ => None,
    }
}

/// How many updates events announce.
pub open spec fn plans_told(told: Seq<EventView>) -> nat
    decreases told.len(),
{
    if told.len() == 0 {
        0
    } else {
        plans_told(told.drop_last()) + if told.last() is SyncPrepared {
            1nat
        } else {
            0nat
        }
    }
}

/// How often events tell the end of a repository.
pub open spec fn ends_told(told: Seq<EventView>, index: int) -> nat
    decreases told.len(),
{
    if told.len() == 0 {
        0
    } else {
        ends_told(told.drop_last(), index) + if told.last() matches EventView::SyncFinished(i, _)
            && i == index {
            1nat
        } else {
            0nat
        }
    }
}

/// Whether events are those of the checks: the start of each fetch and the end of each
/// preparation are told once, in this order, and nothing else is.
pub open spec fn checks_told(run: SyncRunView, told: Seq<EventView>) -> bool {
    &&& told.no_duplicates()
    &&& forall|event: EventView| #[trigger] told.contains(event) <==> check_event(run, event)
    &&& forall|j: int|
        0 <= j < told.len() ==> (prepared_in(#[trigger] told[j]) matches Some(index)
            ==> told.take(j).contains(EventView::SyncFetching(index)))
}

/// The events of the updates of the first `count` repositories, one after the other.
pub open spec fn updates_told(
    prepared: Seq<Option<PreparedView>>,
    results: Seq<SyncResultView>,
    count: nat,
) -> Seq<EventView>
    decreases count,
{
    if count == 0 {
        seq![]
    } else {
        updates_told(prepared, results, (count - 1) as nat) + update_told(
            prepared,
            count - 1,
            results[count - 1],
        )
    }
}

proof fn earlier_updates_stay(
    prepared: Seq<Option<PreparedView>>,
    results: Seq<SyncResultView>,
    result: SyncResultView,
    count: nat,
)
    requires
        count <= results.len(),
    ensures
        updates_told(prepared, results.push(result), count) == updates_told(
            prepared,
            results,
            count,
        ),
    decreases count,
{
    if count > 0 {
        earlier_updates_stay(prepared, results, result, (count - 1) as nat);
    }
}

proof fn advancing_facts(run: SyncRunView)
    requires
        run.in_order(),
        run.all_prepared(),
    ensures
        advanced(run).in_order(),
        advanced(run).all_prepared(),
        run.results.len() <= advanced(run).results.len() <= run.prepared.len(),
        advanced(run).results.len() < run.prepared.len() ==> run.prepared[advanced(
            run,
        ).results.len() as int] matches Some(PreparedView::Update(_)),
        updates_told(run.prepared, advanced(run).results, advanced(run).results.len())
            == updates_told(run.prepared, run.results, run.results.len()),
    decreases run.prepared.len() - run.results.len(),
{
    let n = run.results.len();
    if n < run.prepared.len() {
        assert(run.prepared[n as int] is Some);
        if let Some(PreparedView::Terminal(result)) = run.prepared[n as int] {
            let next = with_result(run, result);
            assert(next.in_order());
            advancing_facts(next);
            earlier_updates_stay(run.prepared, run.results, result, n);
            assert(advanced(next) == advanced(run));
            assert(update_told(run.prepared, n as int, result) =~= Seq::<EventView>::empty());
            assert(updates_told(run.prepared, next.results, n + 1) =~= updates_told(
                run.prepared,
                run.results,
                n,
            ));
        }
    }
}

proof fn one_more_preparation(
    prepared: Seq<Option<PreparedView>>,
    index: int,
    preparation: PreparedView,
)
    requires
        0 <= index < prepared.len(),
        prepared[index] is None,
    ensures
        count_updates(prepared.update(index, Some(preparation))) == count_updates(prepared)
            + if preparation is Update {
            1nat
        } else {
            0nat
        },
    decreases prepared.len(),
{
    let after = prepared.update(index, Some(preparation));
    if index == prepared.len() - 1 {
        assert(after.drop_last() =~= prepared.drop_last());
    } else {
        assert(after.drop_last() =~= prepared.drop_last().update(index, Some(preparation)));
        one_more_preparation(prepared.drop_last(), index, preparation);
    }
}

proof fn nothing_prepared(count: nat)
    ensures
        count_updates(Seq::new(count, |i: int| None::<PreparedView>)) == 0,
    decreases count,
{
    let none = Seq::new(count, |i: int| None::<PreparedView>);
    if count > 0 {
        nothing_prepared((count - 1) as nat);
        assert(none.drop_last() =~= Seq::new((count - 1) as nat, |i: int| None::<PreparedView>));
    }
}

/// What is known of a synchronization at every moment.
pub open spec fn in_course(course: SyncCourse) -> bool {
    let run = course.run;
    &&& run.next <= run.prepared.len() <= usize::MAX
    &&& forall|i: int|
        0 <= i < run.prepared.len() && (#[trigger] run.prepared[i]) is Some ==> i < run.next
    &&& run.in_order()
    &&& match course.checked {
        None => {
            &&& run.results.len() == 0
            &&& checks_told(run, course.told)
            &&& plans_told(course.told) == count_updates(run.prepared)
        },
        Some(m) => {
            &&& 0 <= m < course.told.len()
            &&& run.all_prepared()
            &&& run.next == run.prepared.len()
            &&& checks_told(run, course.told.take(m))
            &&& plans_told(course.told.take(m)) == count_updates(run.prepared)
            &&& course.told[m] == EventView::SyncChecksFinished(
                count_updates(run.prepared) as int,
            )
            &&& course.told.skip(m + 1) == updates_told(
                run.prepared,
                run.results,
                run.results.len(),
            )
        },
    }
}

proof fn check_step_stays(course: SyncCourse, step: SyncStep)
    requires
        in_course(course),
        can_sync(course, step),
        step is Fetch || step is Prepare,
    ensures
        in_course(synchronized(course, step)),
{
    let after = synchronized(course, step);
    let run = after.run;
    if course.checked is Some {
        // Once the checks ended, all was taken and prepared.
        if let SyncStep::Prepare(index, _) = step {
            assert(course.run.prepared[index] is Some);
        }
        assert(false);
    }
    let event = after.told.last();
    assert(!check_event(course.run, event));
    told_once_more(course.told, event);
    assert(after.told.drop_last() =~= course.told);
    if let SyncStep::Prepare(index, prepared) = step {
        one_more_preparation(course.run.prepared, index, prepared);
        assert(check_event(course.run, EventView::SyncFetching(index)));
        assert(course.told.contains(EventView::SyncFetching(index)));
    }
    assert forall|other: EventView| #[trigger] after.told.contains(other) <==> check_event(
        run,
        other,
    ) by {
        assert(course.told.contains(other) <==> check_event(course.run, other));
    }
    assert forall|j: int| 0 <= j < after.told.len() implies (prepared_in(
        #[trigger] after.told[j],
    ) matches Some(index) ==> after.told.take(j).contains(EventView::SyncFetching(index))) by {
        if j < course.told.len() {
            assert(course.told[j] == after.told[j]);
            assert(course.told.take(j) =~= after.told.take(j));
        } else {
            assert(after.told.take(j) =~= course.told);
        }
    }
}

proof fn later_step_stays(course: SyncCourse, step: SyncStep)
    requires
        in_course(course),
        can_sync(course, step),
        step is Check || step is Update,
    ensures
        in_course(synchronized(course, step)),
{
    let after = synchronized(course, step);
    let run = after.run;
    match step {
        SyncStep::Check => {
            let m = course.told.len() as int;
            assert(run.prepared[run.prepared.len() - 1] is Some);
            assert(after.told.take(m) =~= course.told);
            assert(after.told.skip(m + 1) =~= Seq::<EventView>::empty());
        },
        SyncStep::Update(result) => {
            let m = course.checked->0;
            let going = advanced(course.run);
            let index = going.results.len();
            advancing_facts(course.run);
            earlier_updates_stay(run.prepared, going.results, result, index);
            let more = update_told(run.prepared, index as int, result);
            assert(after.told.take(m) =~= course.told.take(m));
            assert(after.told.skip(m + 1) =~= course.told.skip(m + 1) + more);
        },
        _ => {},
    }
}

/// A synchronization as a whole. Repositories are taken in turn, each once. Of each, the start
/// of its fetch and the end of its preparation are told once, in this order; then, once, how
/// many updates were announced; and then the updates, one repository at a time in the order of
/// the list: each is told to begin and, next, to have ended.
pub proof fn synchronizations_keep_their_course(
    count: usize,
    jobs: usize,
    steps: Seq<SyncStep>,
)
    requires
        can_sync_all(count, jobs, steps),
    ensures
        in_course(sync_course(count, jobs, steps)),
        sync_course(count, jobs, steps).run.prepared.len() == count,
    decreases steps.len(),
{
    if steps.len() == 0 {
        nothing_prepared(count as nat);
    } else {
        let course = sync_course(count, jobs, steps.drop_last());
        synchronizations_keep_their_course(count, jobs, steps.drop_last());
        match steps.last() {
            SyncStep::Fetch | SyncStep::Prepare(_, _) => check_step_stays(course, steps.last()),
            _ => {
                if steps.last() is Update {
                    advancing_facts(course.run);
                }
                later_step_stays(course, steps.last());
            },
        }
    }
}

proof fn ends_add_up(a: Seq<EventView>, b: Seq<EventView>, index: int)
    ensures
        ends_told(a + b, index) == ends_told(a, index) + ends_told(b, index),
    decreases b.len(),
{
    if b.len() == 0 {
        assert(a + b =~= a);
    } else {
        assert((a + b).drop_last() =~= a + b.drop_last());
        ends_add_up(a, b.drop_last(), index);
    }
}

proof fn an_end_told_once(told: Seq<EventView>, index: int, result: SyncResultView)
    requires
        told.no_duplicates(),
        forall|j: int|
            0 <= j < told.len() ==> ((#[trigger] told[j]) matches EventView::SyncFinished(i, _)
                ==> i == index ==> told[j] == EventView::SyncFinished(index, result)),
    ensures
        ends_told(told, index) == if told.contains(EventView::SyncFinished(index, result)) {
            1nat
        } else {
            0nat
        },
    decreases told.len(),
{
    let end = EventView::SyncFinished(index, result);
    if told.len() > 0 {
        let front = told.drop_last();
        assert forall|j: int| 0 <= j < front.len() implies ((#[trigger] front[j]) matches
            EventView::SyncFinished(i, _) ==> i == index ==> front[j] == end) by {
            assert(front[j] == told[j]);
        }
        an_end_told_once(front, index, result);
        assert(told[told.len() - 1] == told.last());
        if told.last() == end {
            assert(!front.contains(end)) by {
                if front.contains(end) {
                    let j = choose|j: int| 0 <= j < front.len() && front[j] == end;
                    assert(told[j] == told[told.len() - 1]);
                }
            }
        } else if told.contains(end) {
            let j = choose|j: int| 0 <= j < told.len() && told[j] == end;
            assert(front[j] == end);
        } else if front.contains(end) {
            let j = choose|j: int| 0 <= j < front.len() && front[j] == end;
            assert(told[j] == end);
        }
    }
}

proof fn ends_of_updates(
    prepared: Seq<Option<PreparedView>>,
    results: Seq<SyncResultView>,
    count: nat,
    index: int,
)
    requires
        count <= prepared.len(),
        count <= results.len(),
    ensures
        ends_told(updates_told(prepared, results, count), index) == if 0 <= index < count && (
        prepared[index] matches Some(PreparedView::Update(_))) {
            1nat
        } else {
            0nat
        },
        0 <= index < count && (prepared[index] matches Some(PreparedView::Update(_)))
            ==> updates_told(prepared, results, count).contains(
            EventView::SyncFinished(index, results[index]),
        ),
        updates_told(prepared, results, count).len() == 2 * count_updates(
            prepared.take(count as int),
        ),
    decreases count,
{
    if count > 0 {
        let before = (count - 1) as nat;
        let front = updates_told(prepared, results, before);
        let more = update_told(prepared, count - 1, results[count - 1]);
        ends_of_updates(prepared, results, before, index);
        ends_add_up(front, more, index);
        reveal_with_fuel(ends_told, 3);
        assert(prepared.take(count as int).drop_last() =~= prepared.take(before as int));
        assert(prepared.take(count as int).last() == prepared[count - 1]);
        if more.len() > 0 {
            assert(more.drop_last() =~= seq![more[0]]);
            assert(more.drop_last().drop_last() =~= Seq::<EventView>::empty());
        }
        if 0 <= index < count && (prepared[index] matches Some(PreparedView::Update(_))) {
            let end = EventView::SyncFinished(index, results[index]);
            if index == count - 1 {
                assert((front + more)[front.len() as int + 1] == end);
            } else {
                let j = choose|j: int| 0 <= j < front.len() && front[j] == end;
                assert((front + more)[j] == end);
            }
        }
    }
}

/// The result of a repository, where it has one.
pub open spec fn result_of(run: SyncRunView, index: int) -> Option<SyncResultView> {
    if 0 <= index < run.prepared.len() {
        match run.prepared[index] {
            Some(PreparedView::Terminal(result)) => Some(result),
            Some(PreparedView::Update(_)) => if index < run.results.len() {
                Some(run.results[index])
            } else {
                None
            },
            None => None,
        }
    } else {
        None
    }
}

/// At every moment of a synchronization the end of each repository that has a result was told
/// once, with that result, and no other end was told.
pub proof fn ends_are_told_once(count: usize, jobs: usize, steps: Seq<SyncStep>, index: int)
    requires
        can_sync_all(count, jobs, steps),
    ensures
        match result_of(sync_course(count, jobs, steps).run, index) {
            Some(result) => {
                &&& ends_told(sync_course(count, jobs, steps).told, index) == 1
                &&& sync_course(count, jobs, steps).told.contains(
                    EventView::SyncFinished(index, result),
                )
            },
            None => ends_told(sync_course(count, jobs, steps).told, index) == 0,
        },
{
    let course = sync_course(count, jobs, steps);
    let run = course.run;
    synchronizations_keep_their_course(count, jobs, steps);
    let checks = match course.checked {
        None => course.told,
        Some(m) => course.told.take(m),
    };
    let known = match result_of(run, index) {
        Some(result) => result,
        None => arbitrary(),
    };
    let end = EventView::SyncFinished(index, known);
    assert forall|j: int| 0 <= j < checks.len() implies ((#[trigger] checks[j]) matches
        EventView::SyncFinished(i, _) ==> i == index ==> checks[j] == end) by {
        assert(checks.contains(checks[j]));
        assert(check_event(run, checks[j]));
    }
    an_end_told_once(checks, index, known);
    assert(checks.contains(end) <==> check_event(run, end));
    if let Some(m) = course.checked {
        let middle = seq![course.told[m]];
        let updates = course.told.skip(m + 1);
        assert(course.told =~= checks + middle + updates);
        ends_add_up(checks + middle, updates, index);
        ends_add_up(checks, middle, index);
        reveal_with_fuel(ends_told, 2);
        assert(middle.drop_last() =~= Seq::<EventView>::empty());
        ends_of_updates(run.prepared, run.results, run.results.len(), index);
        if checks.contains(end) {
            let j = choose|j: int| 0 <= j < checks.len() && checks[j] == end;
            assert(course.told[j] == end);
        }
        if updates.contains(end) {
            let j = choose|j: int| 0 <= j < updates.len() && updates[j] == end;
            assert(course.told[m + 1 + j] == end);
        }
    }
}

/// Once no update is left, there is a result for each repository, in its place: that of its
/// preparation or that of its update. As many updates were carried out as were announced.
pub proof fn every_repository_has_its_result(count: usize, jobs: usize, steps: Seq<SyncStep>)
    requires
        can_sync_all(count, jobs, steps),
        sync_course(count, jobs, steps).checked is Some || count == 0,
        all_ended(sync_course(count, jobs, steps)),
    ensures
        ({
            let course = sync_course(count, jobs, steps);
            let results = advanced(course.run).results;
            &&& results.len() == count
            &&& forall|i: int|
                0 <= i < count ==> result_of(course.run, i) == Some(#[trigger] results[i])
            &&& course.checked matches Some(m) ==> course.told.len() == m + 1 + 2 * plans_told(
                course.told.take(m),
            )
        }),
{
    let course = sync_course(count, jobs, steps);
    let run = course.run;
    synchronizations_keep_their_course(count, jobs, steps);
    if count > 0 {
        let m = course.checked->0;
        let done = advanced(run);
        advancing_facts(run);
        results_are_kept(run.prepared, run.results);
        assert forall|i: int| 0 <= i < count implies result_of(run, i) == Some(
            #[trigger] done.results[i],
        ) by {
            assert(done.prepared[i] is Some);
            if i < run.results.len() {
                assert(done.results[i] == run.results[i]);
            } else if let Some(PreparedView::Update(_)) = run.prepared[i] {
                no_update_is_passed(run, i);
            }
        }
        ends_of_updates(run.prepared, done.results, count as nat, 0);
        assert(run.prepared.take(count as int) =~= run.prepared);
        assert(course.told.skip(m + 1).len() == course.told.len() - m - 1);
    }
}

proof fn no_update_is_passed(run: SyncRunView, index: int)
    requires
        run.results.len() <= index < run.prepared.len(),
        run.prepared[index] matches Some(PreparedView::Update(_)),
    ensures
        advanced(run).results.len() <= index,
    decreases run.prepared.len() - run.results.len(),
{
    if let Some(PreparedView::Terminal(result)) = run.prepared[run.results.len() as int] {
        no_update_is_passed(with_result(run, result), index);
    }
}

/// The repository that was prepared.
pub open spec fn repository_of(prepared: PreparedView) -> RepositoryView {
    match prepared {
        PreparedView::Update(plan) => plan.repository,
        PreparedView::Terminal(result) => result.repository,
    }
}

/// Whether what a step hands in is about the repository of its place in a list.
pub open spec fn carries(list: Seq<RepositoryView>, course: SyncCourse, step: SyncStep) -> bool {
    match step {
        SyncStep::Prepare(index, prepared) => repository_of(prepared) == list[index],
        SyncStep::Update(result) => result.repository == list[advanced(
            course.run,
        ).results.len() as int],
        _ => true,
    }
}

/// Whether what every step hands in is about the repository of its place in a list.
pub open spec fn all_carry(list: Seq<RepositoryView>, jobs: usize, steps: Seq<SyncStep>) -> bool
    decreases steps.len(),
{
    steps.len() > 0 ==> all_carry(list, jobs, steps.drop_last()) && carries(
        list,
        sync_course(list.len() as usize, jobs, steps.drop_last()),
        steps.last(),
    )
}

/// Whether what a run keeps is about the repositories of a list, each in its place.
pub open spec fn run_carries(list: Seq<RepositoryView>, run: SyncRunView) -> bool {
    &&& forall|i: int|
        0 <= i < run.prepared.len() ==> ((#[trigger] run.prepared[i]) matches Some(prepared)
            ==> repository_of(prepared) == list[i])
    &&& forall|i: int|
        0 <= i < run.results.len() ==> (#[trigger] run.results[i]).repository == list[i]
}

proof fn advancing_carries(list: Seq<RepositoryView>, run: SyncRunView)
    requires
        run.in_order(),
        run.all_prepared(),
        run_carries(list, run),
    ensures
        run_carries(list, advanced(run)),
{
    let done = advanced(run);
    advancing_facts(run);
    results_are_kept(run.prepared, run.results);
    assert forall|i: int| 0 <= i < done.results.len() implies (
    #[trigger] done.results[i]).repository == list[i] by {
        assert(done.prepared[i] is Some);
        if i < run.results.len() {
            assert(done.results[i] == run.results[i]);
        } else if let Some(PreparedView::Update(_)) = run.prepared[i] {
            no_update_is_passed(run, i);
        }
    }
}

proof fn step_carries(list: Seq<RepositoryView>, course: SyncCourse, step: SyncStep)
    requires
        in_course(course),
        can_sync(course, step),
        run_carries(list, course.run),
        carries(list, course, step),
    ensures
        run_carries(list, synchronized(course, step).run),
{
    if step is Update {
        advancing_carries(list, course.run);
    }
}

/// Where every preparation and every update is about the repository of its place in a list, so
/// is every result; once no update is left, each repository of the list has its own.
pub proof fn results_carry_their_repositories(
    list: Seq<RepositoryView>,
    jobs: usize,
    steps: Seq<SyncStep>,
)
    requires
        list.len() <= usize::MAX,
        can_sync_all(list.len() as usize, jobs, steps),
        all_carry(list, jobs, steps),
    ensures
        ({
            let course = sync_course(list.len() as usize, jobs, steps);
            let results = advanced(course.run).results;
            &&& run_carries(list, course.run)
            &&& forall|i: int|
                (#[trigger] result_of(course.run, i)) matches Some(result) ==> result.repository
                    == list[i]
            &&& (course.checked is Some || list.len() == 0) && all_ended(course) ==> {
                &&& results.len() == list.len()
                &&& forall|i: int|
                    0 <= i < list.len() ==> (#[trigger] results[i]).repository == list[i]
            }
        }),
    decreases steps.len(),
{
    let count = list.len() as usize;
    let course = sync_course(count, jobs, steps);
    if steps.len() > 0 {
        let before = sync_course(count, jobs, steps.drop_last());
        results_carry_their_repositories(list, jobs, steps.drop_last());
        synchronizations_keep_their_course(count, jobs, steps.drop_last());
        step_carries(list, before, steps.last());
    }
    assert forall|i: int| (#[trigger] result_of(course.run, i)) matches Some(
        result,
    ) ==> result.repository == list[i] by {
        if result_of(course.run, i) is Some {
            assert(course.run.prepared[i] is Some);
        }
    }
    if (course.checked is Some || count == 0) && all_ended(course) {
        every_repository_has_its_result(count, jobs, steps);
        let results = advanced(course.run).results;
        assert forall|i: int| 0 <= i < list.len() implies (#[trigger] results[i]).repository
            == list[i] by {
            assert(result_of(course.run, i) == Some(results[i]));
        }
    }
}

/// Whether what a step hands in is what Git's replies lead to: a preparation of the repository
/// of its place in a list, or the update of the plan that is due.
pub open spec fn from_git(list: Seq<RepositoryView>, course: SyncCourse, step: SyncStep) -> bool {
    match step {
        SyncStep::Prepare(index, prepared) => exists|
            home: Option<Seq<u8>>,
            is_directory: bool,
            attempts: int,
            terminal_prompt: bool,
            timeout: Timeout,
            h: Seq<ReplyView>,
        |
            #[trigger] prepare_step(
                list[index],
                home,
                is_directory,
                attempts,
                terminal_prompt,
                timeout,
                h,
            ) == StepView::Done(prepared),
        SyncStep::Update(result) => exists|plan: SyncPlanView, h: Seq<ReplyView>|
            course.run.prepared[advanced(course.run).results.len() as int] == Some(
                PreparedView::Update(plan),
            ) && #[trigger] apply_step(plan, h) == StepView::Done(result),
        _ => true,
    }
}

/// Whether what every step hands in is what Git's replies lead to.
pub open spec fn all_from_git(list: Seq<RepositoryView>, jobs: usize, steps: Seq<SyncStep>) -> bool
    decreases steps.len(),
{
    steps.len() > 0 ==> all_from_git(list, jobs, steps.drop_last()) && from_git(
        list,
        sync_course(list.len() as usize, jobs, steps.drop_last()),
        steps.last(),
    )
}

/// Preparations and updates are about the repositories of their places, whatever Git answers.
pub proof fn steps_carry_their_repositories(
    list: Seq<RepositoryView>,
    jobs: usize,
    steps: Seq<SyncStep>,
)
    requires
        list.len() <= usize::MAX,
        can_sync_all(list.len() as usize, jobs, steps),
        all_from_git(list, jobs, steps),
    ensures
        all_carry(list, jobs, steps),
    decreases steps.len(),
{
    if steps.len() > 0 {
        let count = list.len() as usize;
        let earlier = steps.drop_last();
        let course = sync_course(count, jobs, earlier);
        steps_carry_their_repositories(list, jobs, earlier);
        results_carry_their_repositories(list, jobs, earlier);
        match steps.last() {
            SyncStep::Prepare(index, prepared) => {
                let (home, is_directory, attempts, terminal_prompt, timeout, h) = choose|
                    home: Option<Seq<u8>>,
                    is_directory: bool,
                    attempts: int,
                    terminal_prompt: bool,
                    timeout: Timeout,
                    h: Seq<ReplyView>,
                |
                    #[trigger] prepare_step(
                        list[index],
                        home,
                        is_directory,
                        attempts,
                        terminal_prompt,
                        timeout,
                        h,
                    ) == StepView::Done(prepared);
                plan_is_what_was_found(
                    list[index],
                    home,
                    is_directory,
                    attempts,
                    terminal_prompt,
                    timeout,
                    h,
                );
            },
            SyncStep::Update(result) => {
                let due = advanced(course.run).results.len() as int;
                let (plan, h) = choose|plan: SyncPlanView, h: Seq<ReplyView>|
                    course.run.prepared[due] == Some(PreparedView::Update(plan))
                        && #[trigger] apply_step(plan, h) == StepView::Done(result);
                update_reports_its_plan(plan, h);
                assert(course.run.prepared[due] == Some(PreparedView::Update(plan)));
            },
            _ => {},
        }
    }
}

/// There are as many workers as jobs are allowed, but no more than repositories. No repository
/// is taken yet, and each has its place.
pub proof fn workers_are_not_idle(count: usize, jobs: usize)
    ensures
        fresh_inspections(count, jobs).workers <= jobs,
        fresh_inspections(count, jobs).workers <= count,
        fresh_inspections(count, jobs).workers == jobs || fresh_inspections(count, jobs).workers
            == count,
        fresh_run(count, jobs).workers == fresh_inspections(count, jobs).workers,
        fresh_inspections(count, jobs).next == 0,
        fresh_run(count, jobs).next == 0,
        fresh_inspections(count, jobs).results.len() == count,
        fresh_run(count, jobs).prepared.len() == count,
        fresh_run(count, jobs).results.len() == 0,
{
}

} // verus!
