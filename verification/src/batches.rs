//! The batches of repositories that are synchronized in the background.
use crate::config::path_result;
use crate::failure::{Failure, FailureView};
use crate::model::{outcomes, RepositoryView, SyncKind, SyncResult, SyncResultView};
use crate::path::{paths, same_path, RawPath};
use crate::rows::{rows, RowState, RowView};
use crate::text::{concat, decimal, number};
use crate::tui::{
    active_views, batch_views, batches_fit, held, members, no_totals, open_items, pending, unmark,
    unmarked, unmarking, ActiveRepository, App, AppView, BatchView, Completion, CompletionView,
    SyncBatch, SyncTotals,
};
use vstd::prelude::*;

verus! {

// ---------------------------------------------------------------------------
// Choosing repositories
// ---------------------------------------------------------------------------

/// The path by which a repository is told from others: what its path resolves to, or its own
/// where it cannot be resolved.
pub open spec fn key_of(own: Seq<u8>, resolved: Result<Seq<u8>, FailureView>) -> Seq<u8> {
    match resolved {
        Ok(path) => path,
        Err(_) => own,
    }
}

/// Whether a path is under way.
pub open spec fn is_active(active: Seq<(Seq<u8>, u64)>, key: Seq<u8>) -> bool {
    exists|i: int| 0 <= i < active.len() && same_path((#[trigger] active[i]).0, key)
}

/// Whether the path of a requested repository was requested before.
pub open spec fn seen_before(requested: Seq<usize>, keys: Seq<Seq<u8>>, at: int) -> bool {
    exists|j: int|
        0 <= j < at && same_path(
            keys[(#[trigger] requested[j]) as int],
            keys[requested[at] as int],
        )
}

/// The requested repositories that are free: none is under way, none is requested twice.
pub open spec fn available(
    requested: Seq<usize>,
    keys: Seq<Seq<u8>>,
    active: Seq<(Seq<u8>, u64)>,
) -> Seq<usize>
    decreases requested.len(),
{
    if requested.len() == 0 {
        seq![]
    } else {
        let front = available(requested.drop_last(), keys, active);
        if is_active(active, keys[requested.last() as int]) || seen_before(
            requested,
            keys,
            requested.len() - 1,
        ) {
            front
        } else {
            front.push(requested.last())
        }
    }
}

/// The free repositories are among those requested; none of them is under way, and no two of
/// them have the same path.
pub proof fn available_are_free(
    requested: Seq<usize>,
    keys: Seq<Seq<u8>>,
    active: Seq<(Seq<u8>, u64)>,
)
    ensures
        available(requested, keys, active).len() <= requested.len(),
        forall|k: int|
            0 <= k < available(requested, keys, active).len() ==> requested.contains(
                #[trigger] available(requested, keys, active)[k],
            ) && !is_active(active, keys[available(requested, keys, active)[k] as int]),
        forall|k: int, l: int|
            0 <= k < l < available(requested, keys, active).len() ==> !same_path(
                keys[(#[trigger] available(requested, keys, active)[k]) as int],
                keys[(#[trigger] available(requested, keys, active)[l]) as int],
            ),
    decreases requested.len(),
{
    if requested.len() > 0 {
        let part = requested.drop_last();
        available_are_free(part, keys, active);
        let front = available(part, keys, active);
        let result = available(requested, keys, active);
        assert forall|k: int| 0 <= k < result.len() implies requested.contains(
            #[trigger] result[k],
        ) && !is_active(active, keys[result[k] as int]) by {
            if k < front.len() {
                assert(result[k] == front[k]);
                let i = choose|i: int| 0 <= i < part.len() && part[i] == front[k];
                assert(requested[i] == result[k]);
            } else {
                assert(requested[requested.len() - 1] == result[k]);
            }
        }
        assert forall|k: int, l: int| 0 <= k < l < result.len() implies !same_path(
            keys[(#[trigger] result[k]) as int],
            keys[(#[trigger] result[l]) as int],
        ) by {
            assert(result[k] == front[k]);
            if l < front.len() {
                assert(result[l] == front[l]);
            } else {
                let i = choose|i: int| 0 <= i < part.len() && part[i] == front[k];
                assert(requested[i] == front[k]);
                assert(requested[requested.len() - 1] == result[l]);
            }
        }
    }
}

fn has_active(active: &Vec<ActiveRepository>, key: &RawPath) -> (answer: bool)
    ensures
        answer == is_active(active_views(active@), key@),
{
    let mut i: usize = 0;
    while i < active.len()
        invariant
            i <= active@.len(),
            forall|j: int|
                0 <= j < i ==> !same_path((#[trigger] active_views(active@)[j]).0, key@),
        decreases active@.len() - i,
    {
        assert(active_views(active@)[i as int].0 == active@[i as int].key@);
        if active[i].key.same(key) {
            return true;
        }
        i = i + 1;
    }
    false
}

fn requested_before(requested: &Vec<usize>, keys: &Vec<RawPath>, at: usize) -> (answer: bool)
    requires
        at < requested@.len(),
        forall|k: int| 0 <= k < requested@.len() ==> (#[trigger] requested@[k]) < keys@.len(),
    ensures
        answer == seen_before(requested@, paths(keys@), at as int),
{
    let mut j: usize = 0;
    while j < at
        invariant
            j <= at < requested@.len(),
            forall|k: int| 0 <= k < requested@.len() ==> (#[trigger] requested@[k]) < keys@.len(),
            forall|k: int|
                0 <= k < j ==> !same_path(
                    paths(keys@)[(#[trigger] requested@[k]) as int],
                    paths(keys@)[requested@[at as int] as int],
                ),
        decreases at - j,
    {
        if keys[requested[j]].same(&keys[requested[at]]) {
            assert(paths(keys@)[requested@[j as int] as int]
                == keys@[requested@[j as int] as int]@);
            return true;
        }
        j = j + 1;
    }
    false
}

impl App {
    /// The path by which a repository is told from others, given what its path resolves to.
    pub fn repository_key(&self, index: usize, resolved: Result<RawPath, Failure>) -> (key: RawPath)
        requires
            index < self@.repositories.len(),
        ensures
            key@ == key_of(self@.repositories[index as int].path, path_result(resolved)),
    {
        match resolved {
            Ok(path) => path,
            Err(_) => self.repositories[index].path.clone(),
        }
    }

    /// The requested repositories that are free, and how many are not. `keys` holds the
    /// resolved path of every repository.
    pub fn available_sync_indices(&self, requested: &Vec<usize>, keys: &Vec<RawPath>) -> (result: (
        Vec<usize>,
        usize,
    ))
        requires
            forall|k: int| 0 <= k < requested@.len() ==> (#[trigger] requested@[k]) < keys@.len(),
        ensures
            result.0@ == available(requested@, paths(keys@), self@.active),
            result.1 == requested@.len() - result.0@.len(),
    {
        let mut free: Vec<usize> = Vec::new();
        let mut skipped: usize = 0;
        let mut i: usize = 0;
        assert(requested@.take(0) =~= Seq::<usize>::empty());
        while i < requested.len()
            invariant
                i <= requested@.len(),
                skipped + free@.len() == i,
                forall|k: int|
                    0 <= k < requested@.len() ==> (#[trigger] requested@[k]) < keys@.len(),
                free@ == available(requested@.take(i as int), paths(keys@), self@.active),
            decreases requested@.len() - i,
        {
            let index: usize = requested[i];
            let taken = has_active(&self.active_repositories, &keys[index]);
            let seen = requested_before(requested, keys, i);
            proof {
                let part = requested@.take(i + 1);
                let all = paths(keys@);
                assert(part.drop_last() =~= requested@.take(i as int));
                assert(part.last() == index);
                assert(all[index as int] == keys@[index as int]@);
                assert(seen_before(part, all, i as int) == seen_before(
                    requested@,
                    all,
                    i as int,
                )) by {
                    if seen_before(requested@, all, i as int) {
                        let j = choose|j: int|
                            0 <= j < i && same_path(
                                all[(#[trigger] requested@[j]) as int],
                                all[requested@[i as int] as int],
                            );
                        assert(part[j] == requested@[j]);
                    }
                    if seen_before(part, all, i as int) {
                        let j = choose|j: int|
                            0 <= j < i && same_path(
                                all[(#[trigger] part[j]) as int],
                                all[part[i as int] as int],
                            );
                        assert(part[j] == requested@[j]);
                    }
                }
            }
            if taken || seen {
                skipped = skipped + 1;
            } else {
                free.push(index);
            }
            i = i + 1;
        }
        assert(requested@.take(i as int) =~= requested@);
        (free, skipped)
    }
}

// ---------------------------------------------------------------------------
// Starting a batch
// ---------------------------------------------------------------------------

/// The paths under way after one more was taken by a batch.
pub open spec fn lock_one(active: Seq<(Seq<u8>, u64)>, key: Seq<u8>, run_id: u64) -> Seq<
    (Seq<u8>, u64),
> {
    if is_active(active, key) {
        Seq::new(
            active.len(),
            |i: int|
                if same_path(active[i].0, key) {
                    (active[i].0, run_id)
                } else {
                    active[i]
                },
        )
    } else {
        active.push((key, run_id))
    }
}

/// The paths under way after those of a batch were taken.
pub open spec fn locked(active: Seq<(Seq<u8>, u64)>, keys: Seq<Seq<u8>>, run_id: u64) -> Seq<
    (Seq<u8>, u64),
>
    decreases keys.len(),
{
    if keys.len() == 0 {
        active
    } else {
        lock_one(locked(active, keys.drop_last(), run_id), keys.last(), run_id)
    }
}

/// The marks without those of some repositories.
pub open spec fn unmarked_all(
    marked: Seq<Seq<char>>,
    repositories: Seq<RepositoryView>,
    indices: Seq<usize>,
) -> Seq<Seq<char>>
    decreases indices.len(),
{
    if indices.len() == 0 {
        marked
    } else {
        unmarked(
            unmarked_all(marked, repositories, indices.drop_last()),
            repositories[indices.last() as int].name,
        )
    }
}

/// Whether an index is in a list.
pub open spec fn listed(indices: Seq<usize>, index: int) -> bool {
    exists|k: int| 0 <= k < indices.len() && #[trigger] indices[k] == index
}

/// The states where some repositories wait.
pub open spec fn waiting_at(states: Seq<RowView>, indices: Seq<usize>) -> Seq<RowView> {
    Seq::new(
        states.len(),
        |i: int|
            if listed(indices, i) {
                RowView::Waiting
            } else {
                states[i]
            },
    )
}

/// The paths of the repositories of a batch.
pub open spec fn batch_keys(keys: Seq<Seq<u8>>, indices: Seq<usize>) -> Seq<Seq<u8>> {
    Seq::new(indices.len(), |k: int| keys[indices[k] as int])
}

/// The state after a batch was started.
pub open spec fn reserved(app: AppView, indices: Seq<usize>, keys: Seq<Seq<u8>>) -> AppView {
    let totals = if app.batches.len() == 0 {
        no_totals()
    } else {
        app.totals
    };
    let run_id = (app.run_id + 1) as u64;
    AppView {
        completion: None,
        totals: SyncTotals { launched: (totals.launched + indices.len()) as usize, ..totals },
        run_id,
        active: locked(app.active, batch_keys(keys, indices), run_id),
        marked: unmarked_all(app.marked, app.repositories, indices),
        states: waiting_at(app.states, indices),
        batches: app.batches.push(
            BatchView {
                run_id,
                indices,
                keys: batch_keys(keys, indices),
                completed: Seq::new(indices.len(), |k: int| false),
            },
        ),
        ..app
    }
}

/// Whether a batch of repositories, none of them twice, can be started.
pub open spec fn can_reserve(app: AppView, indices: Seq<usize>) -> bool {
    &&& app.refresh_run is None
    &&& !app.quit
    &&& !(app.mode is Form) && !(app.mode is ConfirmDelete)
    &&& app.run_id < u64::MAX
    &&& app.totals.launched + indices.len() <= usize::MAX
    &&& indices.len() <= usize::MAX
    &&& indices.no_duplicates()
    &&& forall|k: int| 0 <= k < indices.len() ==> (#[trigger] indices[k]) < app.repositories.len()
}

proof fn all_open(count: nat)
    ensures
        open_items(Seq::new(count, |k: int| false)) == count,
    decreases count,
{
    let all = Seq::new(count, |k: int| false);
    if count > 0 {
        all_open((count - 1) as nat);
        assert(all.drop_last() =~= Seq::new((count - 1) as nat, |k: int| false));
    }
}

proof fn unmarked_all_once(
    marked: Seq<Seq<char>>,
    repositories: Seq<RepositoryView>,
    indices: Seq<usize>,
)
    requires
        marked.no_duplicates(),
    ensures
        unmarked_all(marked, repositories, indices).no_duplicates(),
    decreases indices.len(),
{
    if indices.len() > 0 {
        unmarked_all_once(marked, repositories, indices.drop_last());
        unmarking(
            unmarked_all(marked, repositories, indices.drop_last()),
            repositories[indices.last() as int].name,
        );
    }
}

spec fn distinct(active: Seq<(Seq<u8>, u64)>) -> bool {
    forall|i: int, j: int|
        0 <= i < j < active.len() ==> !same_path((#[trigger] active[i]).0, (#[trigger] active[j]).0)
}

proof fn locked_facts(active: Seq<(Seq<u8>, u64)>, keys: Seq<Seq<u8>>, run_id: u64)
    requires
        distinct(active),
    ensures
        distinct(locked(active, keys, run_id)),
        forall|i: int|
            0 <= i < locked(active, keys, run_id).len() ==> {
                let entry = #[trigger] locked(active, keys, run_id)[i];
                ||| i < active.len() && active[i] == entry
                ||| entry.1 == run_id && exists|k: int|
                    0 <= k < keys.len() && same_path(entry.0, #[trigger] keys[k])
            },
    decreases keys.len(),
{
    if keys.len() > 0 {
        let part = keys.drop_last();
        locked_facts(active, part, run_id);
        let before = locked(active, part, run_id);
        let after = locked(active, keys, run_id);
        let key = keys.last();
        assert(keys[keys.len() - 1] == key);
        assert forall|i: int, j: int| 0 <= i < j < after.len() implies !same_path(
            (#[trigger] after[i]).0,
            (#[trigger] after[j]).0,
        ) by {
            assert(after[i].0 == before[i].0);
            if j < before.len() {
                assert(after[j].0 == before[j].0);
            } else {
                assert(!same_path(before[i].0, key));
            }
        }
        assert forall|i: int| 0 <= i < after.len() implies ({
            let entry = #[trigger] after[i];
            ||| i < active.len() && active[i] == entry
            ||| entry.1 == run_id && exists|k: int|
                0 <= k < keys.len() && same_path(entry.0, #[trigger] keys[k])
        }) by {
            let entry = after[i];
            if i < before.len() && before[i] == entry {
                if !(i < active.len() && active[i] == entry) {
                    let k = choose|k: int|
                        0 <= k < part.len() && same_path(entry.0, #[trigger] part[k]);
                    assert(keys[k] == part[k]);
                }
            } else {
                assert(same_path(entry.0, keys[keys.len() - 1]));
            }
        }
    }
}

/// Starting a batch keeps every invariant.
pub proof fn reserving_is_sound(app: AppView, indices: Seq<usize>, keys: Seq<Seq<u8>>)
    requires
        app.valid(),
        can_reserve(app, indices),
    ensures
        reserved(app, indices, keys).valid(),
{
    let after = reserved(app, indices, keys);
    let batch = after.batches.last();
    all_open(indices.len());
    unmarked_all_once(app.marked, app.repositories, indices);
    locked_facts(app.active, batch_keys(keys, indices), after.run_id);
    assert(after.batches.drop_last() =~= app.batches);
    assert(batches_fit(after.batches, after.repositories.len(), after.run_id)) by {
        assert forall|b: int| 0 <= b < after.batches.len() implies (
        #[trigger] after.batches[b]).fits(after.repositories.len()) && after.batches[b].run_id
            <= after.run_id by {
            if b < app.batches.len() {
                assert(after.batches[b] == app.batches[b]);
            }
        }
        assert forall|b: int, c: int| 0 <= b < c < after.batches.len() implies (
        #[trigger] after.batches[b]).run_id < (#[trigger] after.batches[c]).run_id by {
            assert(after.batches[b] == app.batches[b]);
            if c < app.batches.len() {
                assert(after.batches[c] == app.batches[c]);
            }
        }
    }
    assert forall|i: int| 0 <= i < after.active.len() implies held(
        #[trigger] after.active[i],
        after.batches,
    ) by {
        let entry = after.active[i];
        if i < app.active.len() && app.active[i] == entry {
            assert(held(app.active[i], app.batches));
            let b = choose|b: int|
                0 <= b < app.batches.len() && (#[trigger] app.batches[b]).run_id == entry.1
                    && app.batches[b].holds(entry.0);
            assert(after.batches[b] == app.batches[b]);
        } else {
            assert(after.batches[app.batches.len() as int] == batch);
            assert(batch.holds(entry.0));
        }
    }
}

fn lock(active: &mut Vec<ActiveRepository>, key: &RawPath, run_id: u64)
    ensures
        active_views(final(active)@) == lock_one(active_views(old(active)@), key@, run_id),
{
    let ghost before = active_views(active@);
    let mut found = false;
    let mut i: usize = 0;
    while i < active.len()
        invariant
            i <= active@.len() == before.len(),
            found == exists|j: int| 0 <= j < i && same_path((#[trigger] before[j]).0, key@),
            forall|j: int|
                0 <= j < before.len() ==> #[trigger] active_views(active@)[j] == if j < i
                    && same_path(before[j].0, key@) {
                    (before[j].0, run_id)
                } else {
                    before[j]
                },
        decreases active@.len() - i,
    {
        assert(active_views(active@)[i as int] == before[i as int]);
        if active[i].key.same(key) {
            let ghost prior = active_views(active@);
            let kept = active[i].key.clone();
            active.set(i, ActiveRepository { key: kept, run_id });
            found = true;
            proof {
                assert(same_path(before[i as int].0, key@));
                assert(active_views(active@) =~= prior.update(
                    i as int,
                    (before[i as int].0, run_id),
                ));
            }
        }
        i = i + 1;
    }
    if !found {
        let ghost kept = active_views(active@);
        assert(kept =~= before);
        active.push(ActiveRepository { key: key.clone(), run_id });
        assert(active_views(active@) =~= before.push((key@, run_id)));
    } else {
        assert(is_active(before, key@));
        assert(active_views(active@) =~= lock_one(before, key@, run_id));
    }
}

impl App {
    /// Starts a batch: its repositories are under way, lose their marks and wait. `keys` holds
    /// the resolved path of every repository. Tells the number of the batch.
    pub fn reserve_sync_batch(&mut self, indices: &Vec<usize>, keys: &Vec<RawPath>) -> (run_id: u64)
        requires
            old(self)@.valid(),
            can_reserve(old(self)@, indices@),
            keys@.len() == old(self)@.repositories.len(),
        ensures
            final(self)@ == reserved(old(self)@, indices@, paths(keys@)),
            run_id == final(self)@.run_id,
            final(self)@.valid(),
    {
        let ghost app = self@;
        let ghost all = paths(keys@);
        proof {
            reserving_is_sound(app, indices@, all);
        }
        self.completion = None;
        if self.sync_batches.len() == 0 {
            self.sync_totals =
            SyncTotals { launched: 0, finished: 0, updated: 0, skipped: 0, failed: 0 };
        }
        let ghost totals = self.sync_totals;
        self.run_id = self.run_id + 1;
        let run_id: u64 = self.run_id;
        let mut batch: Vec<RawPath> = Vec::new();
        let mut completed: Vec<bool> = Vec::new();
        let mut i: usize = 0;
        proof {
            assert(indices@.take(0) =~= Seq::<usize>::empty());
            assert(batch_keys(all, indices@.take(0)) =~= Seq::<Seq<u8>>::empty());
            assert(paths(batch@) =~= batch_keys(all, indices@.take(0)));
            assert(waiting_at(app.states, indices@.take(0)) =~= app.states);
        }
        while i < indices.len()
            invariant
                i <= indices@.len(),
                all == paths(keys@),
                keys@.len() == app.repositories.len(),
                can_reserve(app, indices@),
                app.rows_fit(),
                run_id == app.run_id + 1,
                paths(batch@) == batch_keys(all, indices@.take(i as int)),
                completed@ == Seq::new(i as nat, |k: int| false),
                self@ == (AppView {
                    completion: None,
                    totals,
                    run_id,
                    active: locked(
                        app.active,
                        batch_keys(all, indices@.take(i as int)),
                        run_id,
                    ),
                    marked: unmarked_all(app.marked, app.repositories, indices@.take(i as int)),
                    states: waiting_at(app.states, indices@.take(i as int)),
                    ..app
                }),
            decreases indices@.len() - i,
        {
            let index: usize = indices[i];
            let key = &keys[index];
            let ghost before = self@;
            let ghost part = indices@.take(i as int);
            let ghost more = indices@.take(i + 1);
            proof {
                assert(more.drop_last() =~= part);
                assert(more.last() == index);
                assert(batch_keys(all, more) =~= batch_keys(all, part).push(key@));
                assert(batch_keys(all, more).drop_last() =~= batch_keys(all, part));
            }
            lock(&mut self.active_repositories, key, run_id);
            batch.push(key.clone());
            assert(paths(batch@) =~= batch_keys(all, part).push(key@));
            completed.push(false);
            assert(completed@ =~= Seq::new((i + 1) as nat, |k: int| false));
            assert(self@.repositories[index as int].name == self.repositories@[index as int].name@);
            self.marked = unmark(&self.marked, self.repositories[index].name.as_str());
            assert(self.states@.len() == before.states.len());
            self.states.set(index, RowState::Waiting);
            proof {
                assert(rows(self.states@) =~= before.states.update(
                    index as int,
                    RowView::Waiting,
                ));
                assert forall|k: int| 0 <= k < app.states.len() implies listed(more, k) == (
                listed(part, k) || k == index) by {
                    if listed(part, k) {
                        let l = choose|l: int| 0 <= l < part.len() && #[trigger] part[l] == k;
                        assert(more[l] == part[l]);
                    }
                    if listed(more, k) {
                        let l = choose|l: int| 0 <= l < more.len() && #[trigger] more[l] == k;
                        if l < part.len() {
                            assert(more[l] == part[l]);
                        }
                    }
                    assert(more[i as int] == index);
                }
                assert(rows(self.states@) =~= waiting_at(app.states, more));
            }
            i = i + 1;
        }
        proof {
            assert(indices@.take(i as int) =~= indices@);
        }
        self.sync_totals.launched = self.sync_totals.launched + indices.len();
        let ghost earlier = batch_views(self.sync_batches@);
        self.sync_batches.push(
            SyncBatch { run_id, indices: indices.clone(), keys: batch, completed },
        );
        proof {
            assert(batch_views(self.sync_batches@) =~= earlier.push(
                reserved(app, indices@, all).batches.last(),
            ));
            assert(self@ =~= reserved(app, indices@, all));
        }
        run_id
    }
}

// ---------------------------------------------------------------------------
// Progress of a batch
// ---------------------------------------------------------------------------

/// The batch with a number, looked for from the index `from` on.
pub open spec fn find_batch(batches: Seq<BatchView>, run_id: u64, from: int) -> Option<int>
    decreases batches.len() - from,
{
    if from < 0 || from >= batches.len() {
        None
    } else if batches[from].run_id == run_id {
        Some(from)
    } else {
        find_batch(batches, run_id, from + 1)
    }
}

/// The batch with a number.
pub open spec fn batch_of(app: AppView, run_id: u64) -> Option<int> {
    find_batch(app.batches, run_id, 0)
}

/// A batch that was found has the number.
pub proof fn find_batch_facts(batches: Seq<BatchView>, run_id: u64, from: int)
    requires
        0 <= from,
    ensures
        match find_batch(batches, run_id, from) {
            Some(b) => from <= b < batches.len() && batches[b].run_id == run_id,
            None => forall|b: int|
                from <= b < batches.len() ==> (#[trigger] batches[b]).run_id != run_id,
        },
    decreases batches.len() - from,
{
    if from < batches.len() {
        find_batch_facts(batches, run_id, from + 1);
    }
}

/// The repository at a place in a batch.
pub open spec fn global_index(app: AppView, run_id: u64, relative: int) -> Option<int> {
    match batch_of(app, run_id) {
        Some(b) => if 0 <= relative < app.batches[b].indices.len() {
            Some(app.batches[b].indices[relative] as int)
        } else {
            None
        },
        None => None,
    }
}

/// The counts after one more result.
pub open spec fn counted_result(totals: SyncTotals, kind: SyncKind) -> SyncTotals {
    let finished = (totals.finished + 1) as usize;
    match kind {
        SyncKind::Updated => SyncTotals {
            finished,
            updated: (totals.updated + 1) as usize,
            ..totals
        },
        SyncKind::Skipped => SyncTotals {
            finished,
            skipped: (totals.skipped + 1) as usize,
            ..totals
        },
        SyncKind::Failed => SyncTotals {
            finished,
            failed: (totals.failed + 1) as usize,
            ..totals
        },
    }
}

/// The state after a result was counted. Only the first result at a place counts.
pub open spec fn recorded(app: AppView, b: int, relative: int, kind: SyncKind) -> AppView {
    if app.batches[b].completed[relative] {
        app
    } else {
        AppView {
            batches: app.batches.update(
                b,
                BatchView {
                    completed: app.batches[b].completed.update(relative, true),
                    ..app.batches[b]
                },
            ),
            totals: counted_result(app.totals, kind),
            ..app
        }
    }
}

/// The state after the row of a repository changed.
pub open spec fn with_row(app: AppView, index: int, row: RowView) -> AppView {
    AppView { states: app.states.update(index, row), ..app }
}

proof fn fewer_open(completed: Seq<bool>, at: int)
    requires
        0 <= at < completed.len(),
        !completed[at],
    ensures
        open_items(completed.update(at, true)) == open_items(completed) - 1,
        open_items(completed) > 0,
    decreases completed.len(),
{
    let after = completed.update(at, true);
    if at == completed.len() - 1 {
        assert(after.drop_last() =~= completed.drop_last());
    } else {
        assert(after.drop_last() =~= completed.drop_last().update(at, true));
        fewer_open(completed.drop_last(), at);
    }
}

proof fn replaced_batch(batches: Seq<BatchView>, b: int, batch: BatchView)
    requires
        0 <= b < batches.len(),
    ensures
        pending(batches.update(b, batch)) == pending(batches) - open_items(batches[b].completed)
            + open_items(batch.completed),
        members(batches.update(b, batch)) == members(batches) - batches[b].indices.len()
            + batch.indices.len(),
        pending(batches) >= open_items(batches[b].completed),
        members(batches) >= batches[b].indices.len(),
    decreases batches.len(),
{
    let after = batches.update(b, batch);
    if b == batches.len() - 1 {
        assert(after.drop_last() =~= batches.drop_last());
    } else {
        assert(after.drop_last() =~= batches.drop_last().update(b, batch));
        replaced_batch(batches.drop_last(), b, batch);
    }
}

proof fn removed_batch(batches: Seq<BatchView>, b: int)
    requires
        0 <= b < batches.len(),
    ensures
        pending(batches.remove(b)) + open_items(batches[b].completed) == pending(batches),
        members(batches.remove(b)) + batches[b].indices.len() == members(batches),
    decreases batches.len(),
{
    let after = batches.remove(b);
    if b == batches.len() - 1 {
        assert(after =~= batches.drop_last());
    } else {
        assert(after.drop_last() =~= batches.drop_last().remove(b));
        removed_batch(batches.drop_last(), b);
    }
}

/// Counting a result keeps every invariant.
pub proof fn recording_is_sound(app: AppView, b: int, relative: int, kind: SyncKind)
    requires
        app.sound(),
        0 <= b < app.batches.len(),
        0 <= relative < app.batches[b].indices.len(),
    ensures
        recorded(app, b, relative, kind).sound(),
        recorded(app, b, relative, kind).busy() == app.busy(),
        !app.batches[b].completed[relative] ==> app.totals.finished < app.totals.launched,
{
    let after = recorded(app, b, relative, kind);
    assert(app.batches[b].fits(app.repositories.len()));
    if !app.batches[b].completed[relative] {
        fewer_open(app.batches[b].completed, relative);
        replaced_batch(app.batches, b, after.batches[b]);
        assert(batches_fit(after.batches, after.repositories.len(), after.run_id)) by {
            assert forall|c: int| 0 <= c < after.batches.len() implies (
            #[trigger] after.batches[c]).fits(after.repositories.len()) && after.batches[c].run_id
                <= after.run_id by {
                assert(app.batches[c].fits(app.repositories.len()));
            }
            assert forall|c: int, d: int| 0 <= c < d < after.batches.len() implies (
            #[trigger] after.batches[c]).run_id < (#[trigger] after.batches[d]).run_id by {
                assert(app.batches[c].run_id < app.batches[d].run_id);
            }
        }
        assert forall|i: int| 0 <= i < after.active.len() implies held(
            #[trigger] after.active[i],
            after.batches,
        ) by {
            let entry = app.active[i];
            assert(held(app.active[i], app.batches));
            let c = choose|c: int|
                0 <= c < app.batches.len() && (#[trigger] app.batches[c]).run_id == entry.1
                    && app.batches[c].holds(entry.0);
            assert(after.batches[c].keys == app.batches[c].keys);
            let k = choose|k: int|
                0 <= k < app.batches[c].keys.len() && same_path(
                    entry.0,
                    #[trigger] app.batches[c].keys[k],
                );
            assert(same_path(entry.0, after.batches[c].keys[k]));
            assert(after.batches[c].holds(entry.0));
        }
    }
}

/// The paths under way without those of a batch.
pub open spec fn unlocked(active: Seq<(Seq<u8>, u64)>, batch: BatchView) -> Seq<(Seq<u8>, u64)>
    decreases active.len(),
{
    if active.len() == 0 {
        active
    } else {
        let front = unlocked(active.drop_last(), batch);
        if active.last().1 == batch.run_id && batch.holds(active.last().0) {
            front
        } else {
            front.push(active.last())
        }
    }
}

/// The state after a batch ended.
pub open spec fn released(app: AppView, b: int) -> AppView {
    AppView {
        batches: app.batches.remove(b),
        active: unlocked(app.active, app.batches[b]),
        ..app
    }
}

proof fn unlocked_facts(active: Seq<(Seq<u8>, u64)>, batch: BatchView)
    requires
        distinct(active),
    ensures
        distinct(unlocked(active, batch)),
        forall|k: int|
            0 <= k < unlocked(active, batch).len() ==> {
                let entry = #[trigger] unlocked(active, batch)[k];
                active.contains(entry) && !(entry.1 == batch.run_id && batch.holds(entry.0))
            },
    decreases active.len(),
{
    if active.len() > 0 {
        let part = active.drop_last();
        let last = active.last();
        assert forall|i: int, j: int| 0 <= i < j < part.len() implies !same_path(
            (#[trigger] part[i]).0,
            (#[trigger] part[j]).0,
        ) by {
            assert(part[i] == active[i] && part[j] == active[j]);
        }
        unlocked_facts(part, batch);
        let front = unlocked(part, batch);
        let after = unlocked(active, batch);
        assert forall|k: int| 0 <= k < after.len() implies ({
            let entry = #[trigger] after[k];
            active.contains(entry) && !(entry.1 == batch.run_id && batch.holds(entry.0))
        }) by {
            if k < front.len() {
                assert(after[k] == front[k]);
                let i = choose|i: int| 0 <= i < part.len() && part[i] == front[k];
                assert(active[i] == after[k]);
            } else {
                assert(active[active.len() - 1] == after[k]);
            }
        }
        assert forall|i: int, j: int| 0 <= i < j < after.len() implies !same_path(
            (#[trigger] after[i]).0,
            (#[trigger] after[j]).0,
        ) by {
            assert(after[i] == front[i]);
            if j < front.len() {
                assert(after[j] == front[j]);
            } else {
                let k = choose|k: int| 0 <= k < part.len() && part[k] == front[i];
                assert(active[k] == after[i] && active[active.len() - 1] == after[j]);
            }
        }
    }
}

/// The end of a batch keeps every invariant.
pub proof fn releasing_is_sound(app: AppView, b: int)
    requires
        app.sound(),
        0 <= b < app.batches.len(),
    ensures
        released(app, b).sound(),
{
    let after = released(app, b);
    let batch = app.batches[b];
    removed_batch(app.batches, b);
    unlocked_facts(app.active, batch);
    assert(batches_fit(after.batches, after.repositories.len(), after.run_id)) by {
        assert forall|c: int| 0 <= c < after.batches.len() implies (
        #[trigger] after.batches[c]).fits(after.repositories.len()) && after.batches[c].run_id
            <= after.run_id by {
            let d = if c < b {
                c
            } else {
                c + 1
            };
            assert(after.batches[c] == app.batches[d]);
        }
        assert forall|c: int, d: int| 0 <= c < d < after.batches.len() implies (
        #[trigger] after.batches[c]).run_id < (#[trigger] after.batches[d]).run_id by {
            let e = if c < b {
                c
            } else {
                c + 1
            };
            let f = if d < b {
                d
            } else {
                d + 1
            };
            assert(after.batches[c] == app.batches[e] && after.batches[d] == app.batches[f]);
        }
    }
    assert forall|i: int| 0 <= i < after.active.len() implies held(
        #[trigger] after.active[i],
        after.batches,
    ) by {
        let entry = after.active[i];
        let j = choose|j: int| 0 <= j < app.active.len() && app.active[j] == entry;
        assert(held(app.active[j], app.batches));
        let c = choose|c: int|
            0 <= c < app.batches.len() && (#[trigger] app.batches[c]).run_id == entry.1
                && app.batches[c].holds(entry.0);
        assert(c != b);
        if c < b {
            assert(after.batches[c] == app.batches[c]);
        } else {
            assert(after.batches[c - 1] == app.batches[c]);
        }
    }
}

/// Once no batch runs, no path is under way.
pub proof fn idle_means_unlocked(app: AppView)
    requires
        app.sound(),
        app.batches.len() == 0,
    ensures
        app.active.len() == 0,
{
    if app.active.len() > 0 {
        assert(held(app.active[0], app.batches));
    }
}

/// The stages that the status counts.
#[derive(Clone, Copy, Debug, PartialEq, Eq, Structural)]
pub enum Stage {
    Waiting,
    Fetching,
    Queued,
    Pulling,
}

/// Whether a row is in a stage.
pub open spec fn in_stage(row: RowView, stage: Stage) -> bool {
    match stage {
        Stage::Waiting => row is Waiting,
        Stage::Fetching => row is Planning,
        Stage::Queued => row is Prepared,
        Stage::Pulling => row is Updating,
    }
}

/// How many repositories of a batch are in a stage.
pub open spec fn rows_in_stage(states: Seq<RowView>, indices: Seq<usize>, stage: Stage) -> nat
    decreases indices.len(),
{
    if indices.len() == 0 {
        0
    } else {
        rows_in_stage(states, indices.drop_last(), stage) + if in_stage(
            states[indices.last() as int],
            stage,
        ) {
            1nat
        } else {
            0nat
        }
    }
}

/// How many repositories of all batches are in a stage.
pub open spec fn stage_count(states: Seq<RowView>, batches: Seq<BatchView>, stage: Stage) -> nat
    decreases batches.len(),
{
    if batches.len() == 0 {
        0
    } else {
        stage_count(states, batches.drop_last(), stage) + rows_in_stage(
            states,
            batches.last().indices,
            stage,
        )
    }
}

/// What the status says while batches run.
pub open spec fn sync_status(app: AppView) -> Seq<char> {
    "sync "@ + decimal(app.totals.finished as nat) + "/"@ + decimal(app.totals.launched as nat)
        + ": "@ + decimal(stage_count(app.states, app.batches, Stage::Waiting)) + " waiting, "@
        + decimal(stage_count(app.states, app.batches, Stage::Fetching)) + " fetching, "@ + decimal(
        stage_count(app.states, app.batches, Stage::Queued),
    ) + " queued, "@ + decimal(stage_count(app.states, app.batches, Stage::Pulling)) + " pulling"@
}

/// The state with a status that counts the stages.
pub open spec fn with_sync_status(app: AppView) -> AppView {
    AppView { status: sync_status(app), ..app }
}

/// What the status says once every batch ended.
pub open spec fn completion_summary(totals: SyncTotals) -> Seq<char> {
    "Sync complete: "@ + decimal(totals.updated as nat) + " updated, "@ + decimal(
        totals.skipped as nat,
    ) + " skipped, "@ + decimal(totals.failed as nat) + " failed"@
}

/// The end that is shown once every batch ended.
pub open spec fn sync_completion(totals: SyncTotals) -> CompletionView {
    CompletionView {
        title: if totals.failed == 0 {
            "SYNC COMPLETE"@
        } else {
            "SYNC ENDED WITH ERRORS"@
        },
        summary: decimal(totals.finished as nat) + "/"@ + decimal(totals.launched as nat)
            + " repos: "@ + decimal(totals.updated as nat) + " updated, "@ + decimal(
            totals.skipped as nat,
        ) + " skipped, "@ + decimal(totals.failed as nat) + " failed"@,
        failed: totals.failed > 0,
    }
}

/// The state that shows the end of the batches.
pub open spec fn sync_finished(app: AppView) -> AppView {
    AppView {
        status: completion_summary(app.totals),
        completion: Some(sync_completion(app.totals)),
        ..app
    }
}

/// The state after a batch ended: the end of all, or the progress of the others.
pub open spec fn concluded(app: AppView) -> AppView {
    if app.batches.len() == 0 {
        sync_finished(app)
    } else {
        with_sync_status(app)
    }
}

/// The state that is left where that was asked for and nothing runs.
pub open spec fn settled(app: AppView) -> AppView {
    if app.quit_pending && !app.busy() {
        AppView { quit: true, ..app }
    } else {
        app
    }
}

/// The state after the results at the first `count` places of a batch were kept.
pub open spec fn results_kept(
    app: AppView,
    b: int,
    results: Seq<SyncResultView>,
    count: nat,
) -> AppView
    decreases count,
{
    if count == 0 {
        app
    } else {
        let before = results_kept(app, b, results, (count - 1) as nat);
        let relative = count - 1;
        with_row(
            recorded(before, b, relative, results[relative].kind),
            app.batches[b].indices[relative] as int,
            RowView::Finished(results[relative]),
        )
    }
}

/// The state after the repositories without a result at the first `count` places of a batch
/// failed.
pub open spec fn failures_kept(app: AppView, b: int, detail: Seq<char>, count: nat) -> AppView
    decreases count,
{
    if count == 0 {
        app
    } else {
        let before = failures_kept(app, b, detail, (count - 1) as nat);
        let relative = count - 1;
        let index = app.batches[b].indices[relative] as int;
        if before.batches[b].completed[relative] {
            before
        } else {
            with_row(
                recorded(before, b, relative, SyncKind::Failed),
                index,
                RowView::Finished(
                    SyncResultView {
                        repository: app.repositories[index],
                        kind: SyncKind::Failed,
                        dirty: false,
                        detail,
                    },
                ),
            )
        }
    }
}

/// The state after a batch failed as a whole.
pub open spec fn batch_failed(app: AppView, run_id: u64, detail: Seq<char>) -> AppView {
    match batch_of(app, run_id) {
        None => app,
        Some(b) => settled(
            concluded(
                released(failures_kept(app, b, detail, app.batches[b].indices.len()), b),
            ),
        ),
    }
}

/// The state after a batch ended with its results.
pub open spec fn batch_completed(
    app: AppView,
    run_id: u64,
    results: Seq<SyncResultView>,
) -> AppView {
    match batch_of(app, run_id) {
        None => app,
        Some(b) => {
            let count = if results.len() < app.batches[b].indices.len() {
                results.len()
            } else {
                app.batches[b].indices.len()
            };
            settled(concluded(released(results_kept(app, b, results, count), b)))
        },
    }
}

impl App {
    pub(crate) fn find_run(&self, run_id: u64) -> (index: Option<usize>)
        ensures
            match index {
                Some(b) => batch_of(self@, run_id) == Some(b as int) && b
                    < self.sync_batches@.len() && self.sync_batches@[b as int].run_id == run_id,
                None => batch_of(self@, run_id) is None,
            },
    {
        let mut b: usize = 0;
        while b < self.sync_batches.len()
            invariant
                b <= self.sync_batches@.len(),
                batch_of(self@, run_id) == find_batch(self@.batches, run_id, b as int),
            decreases self.sync_batches@.len() - b,
        {
            assert(self@.batches[b as int] == self.sync_batches@[b as int]@);
            if self.sync_batches[b].run_id == run_id {
                return Some(b);
            }
            b = b + 1;
        }
        None
    }

    /// The repository at a place in a batch.
    pub fn sync_global_index(&self, run_id: u64, relative: usize) -> (index: Option<usize>)
        ensures
            match index {
                Some(i) => global_index(self@, run_id, relative as int) == Some(i as int),
                None => global_index(self@, run_id, relative as int) is None,
            },
    {
        match self.find_run(run_id) {
            Some(b) => {
                assert(self@.batches[b as int] == self.sync_batches@[b as int]@);
                if relative < self.sync_batches[b].indices.len() {
                    Some(self.sync_batches[b].indices[relative])
                } else {
                    None
                }
            },
            None => None,
        }
    }

    pub(crate) fn record_sync_result(&mut self, b: usize, relative: usize, kind: SyncKind)
        requires
            old(self)@.sound(),
            b < old(self)@.batches.len(),
            relative < old(self)@.batches[b as int].indices.len(),
        ensures
            final(self)@ == recorded(old(self)@, b as int, relative as int, kind),
            final(self)@.sound(),
            final(self)@.busy() == old(self)@.busy(),
    {
        let ghost app = self@;
        proof {
            recording_is_sound(app, b as int, relative as int, kind);
            assert(app.batches[b as int] == self.sync_batches@[b as int]@);
            assert(app.batches[b as int].fits(app.repositories.len()));
        }
        if self.sync_batches[b].completed[relative] {
            return;
        }
        let mut batch = SyncBatch {
            run_id: self.sync_batches[b].run_id,
            indices: self.sync_batches[b].indices.clone(),
            keys: self.sync_batches[b].keys.clone(),
            completed: self.sync_batches[b].completed.clone(),
        };
        assert(paths(batch.keys@) =~= app.batches[b as int].keys);
        batch.completed.set(relative, true);
        let ghost changed = batch@;
        self.sync_batches.set(b, batch);
        proof {
            assert(changed =~= (BatchView {
                completed: app.batches[b as int].completed.update(relative as int, true),
                ..app.batches[b as int]
            }));
            assert(batch_views(self.sync_batches@) =~= app.batches.update(b as int, changed));
        }
        self.sync_totals.finished = self.sync_totals.finished + 1;
        match kind {
            SyncKind::Updated => self.sync_totals.updated = self.sync_totals.updated + 1,
            SyncKind::Skipped => self.sync_totals.skipped = self.sync_totals.skipped + 1,
            SyncKind::Failed => self.sync_totals.failed = self.sync_totals.failed + 1,
        }
        assert(self@ =~= recorded(app, b as int, relative as int, kind));
    }
}

/// The status and what is shown of the end do not matter for the invariants.
proof fn concluding_is_sound(app: AppView)
    requires
        app.sound(),
        app.refresh_run is None,
    ensures
        concluded(app).sound(),
        concluded(app).busy() == app.busy(),
        settled(concluded(app)).valid(),
{
}

/// Keeping results keeps every invariant, and whose results they are.
pub proof fn results_keep_sound(app: AppView, b: int, results: Seq<SyncResultView>, count: nat)
    requires
        app.sound(),
        0 <= b < app.batches.len(),
        count <= app.batches[b].indices.len(),
    ensures
        results_kept(app, b, results, count).sound(),
        same_run(app, results_kept(app, b, results, count), b),
    decreases count,
{
    if count > 0 {
        results_keep_sound(app, b, results, (count - 1) as nat);
        let before = results_kept(app, b, results, (count - 1) as nat);
        recording_is_sound(before, b, count - 1, results[count - 1].kind);
    }
}

/// Keeping failures keeps every invariant, and whose failures they are.
pub proof fn failures_keep_sound(app: AppView, b: int, detail: Seq<char>, count: nat)
    requires
        app.sound(),
        0 <= b < app.batches.len(),
        count <= app.batches[b].indices.len(),
    ensures
        failures_kept(app, b, detail, count).sound(),
        same_run(app, failures_kept(app, b, detail, count), b),
    decreases count,
{
    if count > 0 {
        failures_keep_sound(app, b, detail, (count - 1) as nat);
        let before = failures_kept(app, b, detail, (count - 1) as nat);
        recording_is_sound(before, b, count - 1, SyncKind::Failed);
    }
}

/// Whether only the results in a batch, the counts and the rows differ.
pub open spec fn same_run(app: AppView, after: AppView, b: int) -> bool {
    &&& after.batches.len() == app.batches.len()
    &&& after.batches[b].indices == app.batches[b].indices
    &&& after.batches[b].keys == app.batches[b].keys
    &&& after.batches[b].run_id == app.batches[b].run_id
    &&& after.repositories == app.repositories
    &&& after.refresh_run == app.refresh_run
    &&& after.run_id == app.run_id
    &&& after.selected == app.selected
    &&& after.marked == app.marked
    &&& after.active == app.active
    &&& after.mode == app.mode
    &&& after.quit == app.quit
    &&& after.quit_pending == app.quit_pending
}

/// The end of a batch, with results or without, keeps every invariant.
pub proof fn ending_is_sound(
    app: AppView,
    run_id: u64,
    results: Seq<SyncResultView>,
    detail: Seq<char>,
)
    requires
        app.valid(),
    ensures
        batch_completed(app, run_id, results).valid(),
        batch_completed(app, run_id, results).repositories == app.repositories,
        batch_completed(app, run_id, results).refresh_run == app.refresh_run,
        batch_failed(app, run_id, detail).valid(),
        batch_failed(app, run_id, detail).repositories == app.repositories,
        batch_failed(app, run_id, detail).refresh_run == app.refresh_run,
{
    find_batch_facts(app.batches, run_id, 0);
    if let Some(b) = batch_of(app, run_id) {
        let count = if results.len() < app.batches[b].indices.len() {
            results.len()
        } else {
            app.batches[b].indices.len()
        };
        results_keep_sound(app, b, results, count);
        releasing_is_sound(results_kept(app, b, results, count), b);
        concluding_is_sound(released(results_kept(app, b, results, count), b));
        let all = app.batches[b].indices.len();
        failures_keep_sound(app, b, detail, all);
        releasing_is_sound(failures_kept(app, b, detail, all), b);
        concluding_is_sound(released(failures_kept(app, b, detail, all), b));
    }
}

fn batch_holds(batch: &SyncBatch, key: &RawPath) -> (answer: bool)
    ensures
        answer == batch@.holds(key@),
{
    let mut k: usize = 0;
    while k < batch.keys.len()
        invariant
            k <= batch.keys@.len(),
            forall|j: int| 0 <= j < k ==> !same_path(key@, #[trigger] batch@.keys[j]),
        decreases batch.keys@.len() - k,
    {
        assert(batch@.keys[k as int] == batch.keys@[k as int]@);
        if key.same(&batch.keys[k]) {
            return true;
        }
        k = k + 1;
    }
    false
}

fn unlock(active: &Vec<ActiveRepository>, batch: &SyncBatch) -> (result: Vec<ActiveRepository>)
    ensures
        active_views(result@) == unlocked(active_views(active@), batch@),
{
    let ghost all = active_views(active@);
    let mut result: Vec<ActiveRepository> = Vec::new();
    let mut i: usize = 0;
    assert(all.take(0) =~= Seq::<(Seq<u8>, u64)>::empty());
    assert(active_views(result@) =~= all.take(0));
    while i < active.len()
        invariant
            i <= active@.len(),
            all == active_views(active@),
            active_views(result@) == unlocked(all.take(i as int), batch@),
        decreases active@.len() - i,
    {
        proof {
            assert(all.take(i + 1).drop_last() =~= all.take(i as int));
            assert(all.take(i + 1).last() == (active@[i as int].key@, active@[i as int].run_id));
        }
        if active[i].run_id != batch.run_id || !batch_holds(batch, &active[i].key) {
            let ghost before = active_views(result@);
            result.push(
                ActiveRepository { key: active[i].key.clone(), run_id: active[i].run_id },
            );
            assert(active_views(result@) =~= before.push(all[i as int]));
        }
        i = i + 1;
    }
    assert(all.take(i as int) =~= all);
    result
}

fn row_in_stage(row: &RowState, stage: Stage) -> (answer: bool)
    ensures
        answer == in_stage(row@, stage),
{
    match stage {
        Stage::Waiting => matches!(row, RowState::Waiting),
        Stage::Fetching => matches!(row, RowState::Planning),
        Stage::Queued => matches!(row, RowState::Prepared(_)),
        Stage::Pulling => matches!(row, RowState::Updating(_)),
    }
}

impl App {
    fn release(&mut self, b: usize) -> (batch: SyncBatch)
        requires
            old(self)@.sound(),
            b < old(self)@.batches.len(),
        ensures
            final(self)@ == released(old(self)@, b as int),
            final(self)@.sound(),
            batch@ == old(self)@.batches[b as int],
    {
        let ghost app = self@;
        proof {
            releasing_is_sound(app, b as int);
        }
        let batch = self.sync_batches.remove(b);
        self.active_repositories = unlock(&self.active_repositories, &batch);
        proof {
            assert(batch_views(self.sync_batches@) =~= app.batches.remove(b as int));
            assert(self@ =~= released(app, b as int));
        }
        batch
    }

    /// Ends a batch: its paths are free again.
    pub fn release_sync_batch(&mut self, run_id: u64) -> (batch: Option<SyncBatch>)
        requires
            old(self)@.sound(),
        ensures
            match batch_of(old(self)@, run_id) {
                Some(b) => batch is Some && batch->0@ == old(self)@.batches[b] && final(self)@
                    == released(old(self)@, b),
                None => batch is None && final(self)@ == old(self)@,
            },
            final(self)@.sound(),
    {
        match self.find_run(run_id) {
            Some(b) => Some(self.release(b)),
            None => None,
        }
    }

    /// How many repositories of all batches are in a stage.
    pub fn count_stage(&self, stage: Stage) -> (count: usize)
        requires
            self@.rows_fit(),
            batches_fit(self@.batches, self@.repositories.len(), self@.run_id),
            members(self@.batches) <= usize::MAX,
        ensures
            count == stage_count(self@.states, self@.batches, stage),
    {
        let ghost batches = self@.batches;
        let ghost states = self@.states;
        let mut count: usize = 0;
        let mut b: usize = 0;
        assert(batches.take(0) =~= Seq::<BatchView>::empty());
        while b < self.sync_batches.len()
            invariant
                b <= self.sync_batches@.len() == batches.len(),
                self@.rows_fit(),
                batches_fit(batches, self@.repositories.len(), self@.run_id),
                batches == self@.batches,
                states == self@.states,
                members(batches) <= usize::MAX,
                count == stage_count(states, batches.take(b as int), stage),
                count <= members(batches.take(b as int)),
            decreases self.sync_batches@.len() - b,
        {
            let batch = &self.sync_batches[b];
            let ghost indices = batch.indices@;
            let ghost earlier = count;
            proof {
                assert(batches[b as int] == batch@);
                assert(batch@.fits(self@.repositories.len()));
                assert(batches.take(b + 1).drop_last() =~= batches.take(b as int));
                assert(batches.take(b + 1).last() == batch@);
                members_grow(batches, b + 1);
                assert(indices.take(0) =~= Seq::<usize>::empty());
            }
            let mut k: usize = 0;
            while k < batch.indices.len()
                invariant
                    k <= batch.indices@.len(),
                    indices == batch.indices@,
                    batch@.fits(self@.repositories.len()),
                    self@.rows_fit(),
                    states == self@.states,
                    count == earlier + rows_in_stage(states, indices.take(k as int), stage),
                    count <= earlier + k,
                    earlier + indices.len() <= usize::MAX,
                decreases batch.indices@.len() - k,
            {
                proof {
                    assert(indices.take(k + 1).drop_last() =~= indices.take(k as int));
                    assert(indices.take(k + 1).last() == indices[k as int]);
                    assert(states[indices[k as int] as int]
                        == self.states@[indices[k as int] as int]@);
                }
                if row_in_stage(&self.states[batch.indices[k]], stage) {
                    count = count + 1;
                }
                k = k + 1;
            }
            assert(indices.take(k as int) =~= indices);
            b = b + 1;
        }
        assert(batches.take(b as int) =~= batches);
        count
    }

    /// Says in the status how the batches stand.
    pub fn update_sync_status(&mut self)
        requires
            old(self)@.sound(),
        ensures
            final(self)@ == with_sync_status(old(self)@),
            final(self)@.sound(),
    {
        let waiting: usize = self.count_stage(Stage::Waiting);
        let fetching: usize = self.count_stage(Stage::Fetching);
        let queued: usize = self.count_stage(Stage::Queued);
        let pulling: usize = self.count_stage(Stage::Pulling);
        let mut text = concat("sync ", number(self.sync_totals.finished as u128).as_str());
        text.append("/");
        text.append(number(self.sync_totals.launched as u128).as_str());
        text.append(": ");
        text.append(number(waiting as u128).as_str());
        text.append(" waiting, ");
        text.append(number(fetching as u128).as_str());
        text.append(" fetching, ");
        text.append(number(queued as u128).as_str());
        text.append(" queued, ");
        text.append(number(pulling as u128).as_str());
        text.append(" pulling");
        self.status = text;
    }

    /// What the status says once every batch ended.
    pub fn sync_completion_summary(&self) -> (text: String)
        ensures
            text@ == completion_summary(self@.totals),
    {
        let mut text = concat(
            "Sync complete: ",
            number(self.sync_totals.updated as u128).as_str(),
        );
        text.append(" updated, ");
        text.append(number(self.sync_totals.skipped as u128).as_str());
        text.append(" skipped, ");
        text.append(number(self.sync_totals.failed as u128).as_str());
        text.append(" failed");
        text
    }

    /// Shows the end of the batches.
    pub fn finish_sync(&mut self)
        ensures
            final(self)@ == sync_finished(old(self)@),
    {
        self.status = self.sync_completion_summary();
        let totals = self.sync_totals;
        let mut summary = number(totals.finished as u128);
        summary.append("/");
        summary.append(number(totals.launched as u128).as_str());
        summary.append(" repos: ");
        summary.append(number(totals.updated as u128).as_str());
        summary.append(" updated, ");
        summary.append(number(totals.skipped as u128).as_str());
        summary.append(" skipped, ");
        summary.append(number(totals.failed as u128).as_str());
        summary.append(" failed");
        let title = if totals.failed == 0 {
            "SYNC COMPLETE".to_owned()
        } else {
            "SYNC ENDED WITH ERRORS".to_owned()
        };
        self.completion = Some(Completion { title, summary, failed: totals.failed > 0 });
    }

    /// Leaves the interface where that was asked for and nothing runs.
    pub fn maybe_finish_quit(&mut self)
        ensures
            final(self)@ == settled(old(self)@),
    {
        if self.quit_pending && !self.has_active_operations() {
            self.quit = true;
        }
    }

    fn conclude(&mut self)
        requires
            old(self)@.sound(),
            old(self)@.refresh_run is None,
        ensures
            final(self)@ == settled(concluded(old(self)@)),
            final(self)@.valid(),
    {
        proof {
            concluding_is_sound(self@);
        }
        if self.sync_batches.len() == 0 {
            self.finish_sync();
        } else {
            self.update_sync_status();
        }
        self.maybe_finish_quit();
    }

    pub(crate) fn set_row(&mut self, index: usize, row: RowState)
        requires
            old(self)@.sound(),
            index < old(self)@.states.len(),
        ensures
            final(self)@ == with_row(old(self)@, index as int, row@),
            final(self)@.sound(),
            final(self)@.busy() == old(self)@.busy(),
    {
        let ghost app = self@;
        self.states.set(index, row);
        proof {
            assert(rows(self.states@) =~= app.states.update(index as int, row@));
            assert(self@ =~= with_row(app, index as int, row@));
        }
    }

    /// Ends a batch whose worker failed: repositories without a result failed too.
    pub fn fail_sync_batch(&mut self, run_id: u64, detail: &str)
        requires
            old(self)@.valid(),
        ensures
            final(self)@ == batch_failed(old(self)@, run_id, detail@),
            final(self)@.valid(),
    {
        let ghost app = self@;
        proof {
            ending_is_sound(app, run_id, seq![], detail@);
        }
        let b: usize = match self.find_run(run_id) {
            Some(b) => b,
            None => return,
        };
        let count: usize = self.sync_batches[b].indices.len();
        let ghost batch = app.batches[b as int];
        assert(batch == self.sync_batches@[b as int]@);
        let mut relative: usize = 0;
        while relative < count
            invariant
                relative <= count == batch.indices.len(),
                app.valid(),
                b < app.batches.len(),
                batch == app.batches[b as int],
                self@ == failures_kept(app, b as int, detail@, relative as nat),
                self@.sound(),
                same_run(app, self@, b as int),
            decreases count - relative,
        {
            let ghost before = self@;
            proof {
                assert(self@.batches[b as int] == self.sync_batches@[b as int]@);
                assert(self@.batches[b as int].fits(self@.repositories.len()));
                failures_keep_sound(app, b as int, detail@, (relative + 1) as nat);
            }
            let index: usize = self.sync_batches[b].indices[relative];
            assert(index == batch.indices[relative as int]);
            if !self.sync_batches[b].completed[relative] {
                assert(self@.repositories[index as int] == self.repositories@[index as int]@);
                let repository = self.repositories[index].clone();
                self.record_sync_result(b, relative, SyncKind::Failed);
                self.set_row(
                    index,
                    RowState::Finished(
                        SyncResult {
                            repository,
                            kind: SyncKind::Failed,
                            dirty: false,
                            detail: detail.to_owned(),
                        },
                    ),
                );
            }
            relative = relative + 1;
        }
        self.release(b);
        self.conclude();
    }

    /// Ends a batch with its results.
    pub fn complete_sync_batch(&mut self, run_id: u64, results: &Vec<SyncResult>)
        requires
            old(self)@.valid(),
        ensures
            final(self)@ == batch_completed(old(self)@, run_id, outcomes(results@)),
            final(self)@.valid(),
    {
        let ghost app = self@;
        let ghost given = outcomes(results@);
        proof {
            ending_is_sound(app, run_id, given, seq![]);
        }
        let b: usize = match self.find_run(run_id) {
            Some(b) => b,
            None => return,
        };
        let ghost batch = app.batches[b as int];
        assert(batch == self.sync_batches@[b as int]@);
        let all: usize = self.sync_batches[b].indices.len();
        let count: usize = if results.len() < all {
            results.len()
        } else {
            all
        };
        let mut relative: usize = 0;
        while relative < count
            invariant
                relative <= count <= batch.indices.len(),
                count <= results@.len(),
                given == outcomes(results@),
                app.valid(),
                b < app.batches.len(),
                batch == app.batches[b as int],
                self@ == results_kept(app, b as int, given, relative as nat),
                self@.sound(),
                same_run(app, self@, b as int),
            decreases count - relative,
        {
            proof {
                assert(self@.batches[b as int] == self.sync_batches@[b as int]@);
                assert(self@.batches[b as int].fits(self@.repositories.len()));
                assert(given[relative as int] == results@[relative as int]@);
                results_keep_sound(app, b as int, given, (relative + 1) as nat);
            }
            let index: usize = self.sync_batches[b].indices[relative];
            assert(index == batch.indices[relative as int]);
            self.record_sync_result(b, relative, results[relative].kind);
            self.set_row(index, RowState::Finished(results[relative].clone()));
            relative = relative + 1;
        }
        self.release(b);
        self.conclude();
    }
}

proof fn members_grow(batches: Seq<BatchView>, count: int)
    requires
        0 <= count <= batches.len(),
    ensures
        members(batches.take(count)) <= members(batches),
    decreases batches.len() - count,
{
    if count < batches.len() {
        members_grow(batches, count + 1);
        assert(batches.take(count + 1).drop_last() =~= batches.take(count));
    } else {
        assert(batches.take(count) =~= batches);
    }
}

} // verus!
