//! What the commands do to the registry and what they tell.
use crate::cli::{
    added, added_repository, after_set, changed, chosen, holds_name, kinds_partition, list_report,
    names_differ, progress_text, removed, result_line, result_lines, selection, succeeded,
    sync_report, target_index, updated, with_strategy, SetView,
};
use crate::config::{name_taken, path_taken};
use crate::engine::EventView;
use crate::failure::{plain, FailureView};
use crate::model::{count_kind, InspectionView, RepositoryView, Strategy, SyncKind, SyncResultView};
use crate::path::{components, displayed, name_of, same_path};
use crate::text::{decimal, lossy_text, padded};
use vstd::prelude::*;
use vstd::utf8::encode_utf8;

verus! {

// ---------------------------------------------------------------------------
// Words
// ---------------------------------------------------------------------------

/// The word for a strategy.
pub open spec fn strategy_word(strategy: Strategy) -> Seq<char> {
    match strategy {
        Strategy::Rebase => "rebase"@,
        Strategy::Merge => "merge"@,
    }
}

/// The word for a yes or no.
pub open spec fn truth_word(value: bool) -> Seq<char> {
    if value {
        "true"@
    } else {
        "false"@
    }
}

/// How a repository is told after a change.
pub open spec fn told(
    verb: Seq<char>,
    repository: RepositoryView,
    home: Option<Seq<u8>>,
) -> Seq<char> {
    verb + repository.name + " -> "@ + displayed(repository.path, home) + " ("@ + strategy_word(
        repository.strategy,
    ) + ", submodules="@ + truth_word(repository.submodules) + ")"@
}

// ---------------------------------------------------------------------------
// Targets
// ---------------------------------------------------------------------------

/// Whether a target means a repository: by its name, by its path, or by the path that the
/// target resolves to.
pub open spec fn means(
    target: Seq<char>,
    canonical: Option<Seq<u8>>,
    repository: RepositoryView,
) -> bool {
    ||| repository.name == target
    ||| components(repository.path) == components(encode_utf8(target))
    ||| canonical matches Some(path) && components(repository.path) == components(path)
}

proof fn target_found_from(
    list: Seq<RepositoryView>,
    target: Seq<char>,
    canonical: Option<Seq<u8>>,
    from: int,
)
    requires
        0 <= from <= list.len(),
    ensures
        match target_index(list, target, canonical, from) {
            Some(index) => {
                &&& from <= index < list.len()
                &&& means(target, canonical, list[index])
                &&& forall|j: int|
                    from <= j < index ==> !means(target, canonical, #[trigger] list[j])
            },
            None => forall|j: int|
                from <= j < list.len() ==> !means(target, canonical, #[trigger] list[j]),
        },
    decreases list.len() - from,
{
    if from < list.len() && !means(target, canonical, list[from]) {
        target_found_from(list, target, canonical, from + 1);
    }
}

/// A target is the first repository that it means, if it means any.
pub proof fn targets_are_found(
    list: Seq<RepositoryView>,
    target: Seq<char>,
    canonical: Option<Seq<u8>>,
)
    ensures
        match target_index(list, target, canonical, 0) {
            Some(index) => {
                &&& 0 <= index < list.len()
                &&& means(target, canonical, list[index])
                &&& forall|j: int| 0 <= j < index ==> !means(target, canonical, #[trigger] list[j])
            },
            None => forall|j: int|
                0 <= j < list.len() ==> !means(target, canonical, #[trigger] list[j]),
        },
{
    target_found_from(list, target, canonical, 0);
}

// ---------------------------------------------------------------------------
// Changing
// ---------------------------------------------------------------------------

/// An option changes its field and no other: a field without an option keeps what it was, and
/// without any option nothing changes.
pub proof fn options_change_their_field(
    repository: RepositoryView,
    name: Option<Seq<char>>,
    path: Option<Seq<u8>>,
    strategy: Option<Strategy>,
    submodules: bool,
    no_submodules: bool,
)
    ensures
        ({
            let after = changed(repository, name, path, strategy, submodules, no_submodules);
            &&& name is None ==> after.name == repository.name
            &&& name matches Some(given) ==> after.name == given
            &&& path is None ==> after.path == repository.path
            &&& path matches Some(given) ==> after.path == given
            &&& strategy is None ==> after.strategy == repository.strategy
            &&& strategy matches Some(given) ==> after.strategy == given
            &&& submodules ==> after.submodules
            &&& no_submodules && !submodules ==> !after.submodules
            &&& !submodules && !no_submodules ==> after.submodules == repository.submodules
        }),
        changed(repository, None, None, None, false, false) == repository,
{
}

/// Whether another repository than that at an index has a name.
pub open spec fn name_elsewhere(list: Seq<RepositoryView>, name: Seq<char>, index: int) -> bool {
    exists|i: int| 0 <= i < list.len() && i != index && (#[trigger] list[i]).name == name
}

/// Whether another repository than that at an index has a path, compared by component.
pub open spec fn path_elsewhere(list: Seq<RepositoryView>, path: Seq<u8>, index: int) -> bool {
    exists|i: int|
        0 <= i < list.len() && i != index && components((#[trigger] list[i]).path) == components(
            path,
        )
}

/// A change puts the new entry in the place of the old one and leaves all others alone. It is
/// made where the path is a repository and neither name nor path is taken by another entry, and
/// refused otherwise.
pub proof fn changes_replace_one_entry(
    list: Seq<RepositoryView>,
    index: int,
    repository: RepositoryView,
    is_repository: bool,
    home: Option<Seq<u8>>,
)
    requires
        0 <= index < list.len(),
    ensures
        match updated(list, index, repository, is_repository, home) {
            Ok(change) => {
                &&& is_repository
                &&& !name_elsewhere(list, repository.name, index)
                &&& !path_elsewhere(list, repository.path, index)
                &&& change.repositories.len() == list.len()
                &&& change.repositories[index] == repository
                &&& forall|i: int|
                    0 <= i < list.len() && i != index ==> #[trigger] change.repositories[i]
                        == list[i]
                &&& change.message == told("Updated: "@, repository, home)
            },
            Err(failure) => {
                &&& failure.cause is None
                &&& if !is_repository {
                    failure.message == "not a git repository: "@ + displayed(
                        repository.path,
                        home,
                    )
                } else if name_elsewhere(list, repository.name, index) {
                    failure.message == "repository name already exists: "@ + repository.name
                } else {
                    path_elsewhere(list, repository.path, index) && failure.message
                        == "repository path already exists: "@ + displayed(repository.path, home)
                }
            },
        },
{
    places(list, repository, index);
}

proof fn places(list: Seq<RepositoryView>, repository: RepositoryView, index: int)
    ensures
        name_taken(list, repository.name, Some(index)) == name_elsewhere(
            list,
            repository.name,
            index,
        ),
        path_taken(list, repository.path, Some(index)) == path_elsewhere(
            list,
            repository.path,
            index,
        ),
        index < 0 ==> name_taken(list, repository.name, None) == name_elsewhere(
            list,
            repository.name,
            index,
        ),
        index < 0 ==> path_taken(list, repository.path, None) == path_elsewhere(
            list,
            repository.path,
            index,
        ),
{
    if name_elsewhere(list, repository.name, index) {
        let i = choose|i: int|
            0 <= i < list.len() && i != index && (#[trigger] list[i]).name == repository.name;
        assert(list[i].name == repository.name);
    }
    if path_elsewhere(list, repository.path, index) {
        let i = choose|i: int|
            0 <= i < list.len() && i != index && components((#[trigger] list[i]).path)
                == components(repository.path);
        assert(same_path(list[i].path, repository.path));
    }
}

/// A change without any option, to a list without conflicts, leaves the list as it was.
pub proof fn empty_changes_change_nothing(
    list: Seq<RepositoryView>,
    index: int,
    home: Option<Seq<u8>>,
)
    requires
        0 <= index < list.len(),
        names_differ(list),
        forall|i: int, j: int|
            0 <= i < j < list.len() ==> components((#[trigger] list[i]).path) != components(
                (#[trigger] list[j]).path,
            ),
    ensures
        updated(
            list,
            index,
            changed(list[index], None, None, None, false, false),
            true,
            home,
        ) matches Ok(change) && change.repositories == list,
{
    changes_replace_one_entry(list, index, list[index], true, home);
    if name_elsewhere(list, list[index].name, index) {
        let i = choose|i: int|
            0 <= i < list.len() && i != index && (#[trigger] list[i]).name == list[index].name;
        assert(false);
    }
    if path_elsewhere(list, list[index].path, index) {
        let i = choose|i: int|
            0 <= i < list.len() && i != index && components((#[trigger] list[i]).path)
                == components(list[index].path);
        assert(false);
    }
    assert(list.update(index, list[index]) =~= list);
}

/// A change that is made keeps every entry but that of the target, and of that every field for
/// which no option is given; the fields with an option have what is given.
pub proof fn fields_without_an_option_stay(
    list: Seq<RepositoryView>,
    asked: SetView,
    canonical: Option<Seq<u8>>,
    is_repository: bool,
    home: Option<Seq<u8>>,
)
    ensures
        match after_set(list, asked, canonical, is_repository, home) {
            Ok(change) => exists|index: int|
                {
                    let before = #[trigger] list[index];
                    let after = change.repositories[index];
                    &&& 0 <= index < list.len()
                    &&& means(asked.target, canonical, before)
                    &&& forall|j: int|
                        0 <= j < index ==> !means(asked.target, canonical, #[trigger] list[j])
                    &&& change.repositories.len() == list.len()
                    &&& forall|j: int|
                        0 <= j < list.len() && j != index ==> #[trigger] change.repositories[j]
                            == list[j]
                    &&& after.name == match asked.name {
                        Some(name) => name,
                        None => before.name,
                    }
                    &&& after.path == match asked.path {
                        Some(path) => path,
                        None => before.path,
                    }
                    &&& after.strategy == match asked.strategy {
                        Some(strategy) => strategy,
                        None => before.strategy,
                    }
                    &&& asked.submodules ==> after.submodules
                    &&& !asked.submodules && asked.no_submodules ==> !after.submodules
                    &&& !asked.submodules && !asked.no_submodules ==> after.submodules
                        == before.submodules
                    &&& change.message == told("Updated: "@, after, home)
                },
            Err(failure) => (forall|j: int|
                0 <= j < list.len() ==> !means(asked.target, canonical, #[trigger] list[j]))
                ==> failure == plain("repository not registered: "@ + asked.target),
        },
{
    targets_are_found(list, asked.target, canonical);
    if let Some(index) = target_index(list, asked.target, canonical, 0) {
        let after = changed(
            list[index],
            asked.name,
            asked.path,
            asked.strategy,
            asked.submodules,
            asked.no_submodules,
        );
        changes_replace_one_entry(list, index, after, is_repository, home);
        assert(means(asked.target, canonical, list[index]));
    }
}

/// A new entry has the given name, or that of its directory, the given strategy and path, and
/// submodules where they are asked for or, without a word on them, found.
pub proof fn entries_are_as_asked_for(
    name: Option<Seq<char>>,
    strategy: Strategy,
    submodules: bool,
    no_submodules: bool,
    path: Seq<u8>,
    has_submodules: bool,
)
    ensures
        ({
            let entry = added_repository(
                name,
                strategy,
                submodules,
                no_submodules,
                path,
                has_submodules,
            );
            &&& entry.path == path
            &&& entry.strategy == strategy
            &&& name matches Some(given) ==> entry.name == given
            &&& name is None ==> (name_of(path) matches Some(last) ==> entry.name == lossy_text(
                last,
            ))
            &&& name is None && name_of(path) is None ==> entry.name == lossy_text(path)
            &&& submodules ==> entry.submodules
            &&& no_submodules && !submodules ==> !entry.submodules
            &&& !submodules && !no_submodules ==> entry.submodules == has_submodules
        }),
{
}

/// An addition puts the new entry behind all others and leaves them alone. It is made where the
/// path is a repository and neither name nor path is taken, and refused otherwise.
pub proof fn additions_come_last(
    list: Seq<RepositoryView>,
    repository: RepositoryView,
    is_repository: bool,
    home: Option<Seq<u8>>,
)
    ensures
        match added(list, repository, is_repository, home) {
            Ok(change) => {
                &&& is_repository
                &&& !name_elsewhere(list, repository.name, -1)
                &&& !path_elsewhere(list, repository.path, -1)
                &&& change.repositories.len() == list.len() + 1
                &&& change.repositories.last() == repository
                &&& change.repositories.drop_last() == list
                &&& change.message == told("Added: "@, repository, home)
            },
            Err(failure) => {
                &&& failure.cause is None
                &&& if !is_repository {
                    failure.message == "not a git repository: "@ + displayed(
                        repository.path,
                        home,
                    )
                } else if name_elsewhere(list, repository.name, -1) {
                    failure.message == "repository name already exists: "@ + repository.name
                } else {
                    path_elsewhere(list, repository.path, -1) && failure.message
                        == "repository path already exists: "@ + displayed(repository.path, home)
                }
            },
        },
{
    places(list, repository, -1);
    assert(list.push(repository).drop_last() =~= list);
}

/// A removal takes out the entry that the target means, and keeps the others in their order. A
/// target that means nothing is refused.
pub proof fn removals_take_out_the_target(
    list: Seq<RepositoryView>,
    target: Seq<char>,
    canonical: Option<Seq<u8>>,
    home: Option<Seq<u8>>,
)
    ensures
        match removed(list, target, canonical, home) {
            Ok(change) => exists|index: int|
                {
                    &&& 0 <= index < list.len()
                    &&& means(target, canonical, #[trigger] list[index])
                    &&& forall|j: int|
                        0 <= j < index ==> !means(target, canonical, #[trigger] list[j])
                    &&& change.repositories == list.take(index) + list.skip(index + 1)
                    &&& change.message == "Removed: "@ + list[index].name + " -> "@ + displayed(
                        list[index].path,
                        home,
                    )
                },
            Err(failure) => {
                &&& forall|j: int|
                    0 <= j < list.len() ==> !means(target, canonical, #[trigger] list[j])
                &&& failure == plain("repository not registered: "@ + target)
            },
        },
{
    targets_are_found(list, target, canonical);
    if let Some(index) = target_index(list, target, canonical, 0) {
        assert(means(target, canonical, list[index]));
        assert(list.remove(index) =~= list.take(index) + list.skip(index + 1));
    }
}

// ---------------------------------------------------------------------------
// Selecting
// ---------------------------------------------------------------------------

proof fn chosen_facts(
    list: Seq<RepositoryView>,
    targets: Seq<Seq<char>>,
    canonical: Seq<Option<Seq<u8>>>,
    from: int,
    found: Seq<RepositoryView>,
)
    requires
        0 <= from <= targets.len(),
        targets.len() == canonical.len(),
        names_differ(list),
        forall|k: int| 0 <= k < found.len() ==> list.contains(#[trigger] found[k]),
    ensures
        match chosen(list, targets, canonical, from, found) {
            Ok(all) => {
                &&& found.is_prefix_of(all)
                &&& forall|k: int| 0 <= k < all.len() ==> list.contains(#[trigger] all[k])
                &&& forall|k: int|
                    found.len() <= k < all.len() ==> meant_by_any(
                        targets,
                        canonical,
                        from,
                        #[trigger] all[k],
                    )
                &&& forall|t: int|
                    from <= t < targets.len() ==> target_index(
                        list,
                        #[trigger] targets[t],
                        canonical[t],
                        0,
                    ) is Some && all.contains(
                        list[target_index(list, targets[t], canonical[t], 0)->0],
                    )
            },
            Err(failure) => exists|t: int|
                {
                    &&& from <= t < targets.len()
                    &&& failure == plain("repository not registered: "@ + #[trigger] targets[t])
                    &&& target_index(list, targets[t], canonical[t], 0) is None
                },
        },
    decreases targets.len() - from,
{
    if from < targets.len() {
        targets_are_found(list, targets[from], canonical[from]);
        if let Some(index) = target_index(list, targets[from], canonical[from], 0) {
            let entry = list[index];
            assert(list.contains(entry));
            let more = if holds_name(found, entry.name) {
                found
            } else {
                found.push(entry)
            };
            assert(more.contains(entry)) by {
                if holds_name(found, entry.name) {
                    let k = choose|k: int|
                        0 <= k < found.len() && (#[trigger] found[k]).name == entry.name;
                    assert(list.contains(found[k]));
                    let i = choose|i: int| 0 <= i < list.len() && list[i] == found[k];
                    assert(list[i].name == list[index].name);
                    assert(i == index);
                    assert(found[k] == entry);
                } else {
                    assert(more[found.len() as int] == entry);
                }
            }
            assert forall|k: int| 0 <= k < more.len() implies list.contains(#[trigger] more[k]) by {
                if k < found.len() {
                    assert(more[k] == found[k]);
                }
            }
            chosen_facts(list, targets, canonical, from + 1, more);
            if let Ok(all) = chosen(list, targets, canonical, from, found) {
                assert(found.is_prefix_of(all));
                let e = choose|e: int| 0 <= e < more.len() && more[e] == entry;
                assert(all[e] == more[e]);
                assert(all.contains(entry));
                assert forall|k: int| found.len() <= k < all.len() implies meant_by_any(
                    targets,
                    canonical,
                    from,
                    #[trigger] all[k],
                ) by {
                    if k < more.len() {
                        assert(all[k] == more[k]);
                        assert(means(targets[from], canonical[from], all[k]));
                    } else {
                        assert(meant_by_any(targets, canonical, from + 1, all[k]));
                    }
                }
            }
        } else {
            assert(chosen(list, targets, canonical, from, found) == Err::<
                Seq<RepositoryView>,
                FailureView,
            >(plain("repository not registered: "@ + targets[from])));
        }
    }
}

/// Whether any of the targets means a repository.
pub open spec fn meant_by_any(
    targets: Seq<Seq<char>>,
    canonical: Seq<Option<Seq<u8>>>,
    from: int,
    repository: RepositoryView,
) -> bool {
    exists|t: int|
        from <= t < targets.len() && means(#[trigger] targets[t], canonical[t], repository)
}

/// Whether two repositories differ at most in their strategy.
pub open spec fn same_but_strategy(a: RepositoryView, b: RepositoryView) -> bool {
    a.name == b.name && a.path == b.path && a.submodules == b.submodules
}

/// Without targets all repositories are selected, in their order; with targets exactly those
/// that the targets mean. A target that means none is refused. A strategy that is given replaces
/// that of every selected repository, and without one each keeps its own.
pub proof fn selections_are_what_is_meant(
    list: Seq<RepositoryView>,
    targets: Seq<Seq<char>>,
    canonical: Seq<Option<Seq<u8>>>,
    strategy: Option<Strategy>,
)
    requires
        targets.len() == canonical.len(),
        names_differ(list),
    ensures
        match selection(list, targets, canonical, strategy) {
            Ok(selected) => {
                &&& targets.len() == 0 ==> selected.len() == list.len() && forall|k: int|
                    0 <= k < list.len() ==> same_but_strategy(#[trigger] selected[k], list[k]) && (
                    strategy is None ==> selected[k] == list[k])
                &&& forall|k: int|
                    0 <= k < selected.len() ==> (strategy matches Some(given) ==> (
                    #[trigger] selected[k]).strategy == given)
                &&& targets.len() > 0 ==> forall|k: int|
                    0 <= k < selected.len() ==> selected_from(
                        list,
                        targets,
                        canonical,
                        strategy,
                        #[trigger] selected[k],
                    )
                &&& forall|t: int|
                    0 <= t < targets.len() ==> (target_index(
                        list,
                        #[trigger] targets[t],
                        canonical[t],
                        0,
                    ) matches Some(index) && is_selected(selected, list[index]))
            },
            Err(failure) => exists|t: int|
                {
                    &&& 0 <= t < targets.len()
                    &&& failure == plain("repository not registered: "@ + #[trigger] targets[t])
                    &&& forall|j: int|
                        0 <= j < list.len() ==> !means(targets[t], canonical[t], #[trigger] list[j])
                },
        },
{
    if targets.len() > 0 {
        chosen_facts(list, targets, canonical, 0, seq![]);
        match chosen(list, targets, canonical, 0, seq![]) {
            Ok(found) => {
                let selected = with_strategy(found, strategy);
                assert forall|k: int| 0 <= k < selected.len() implies selected_from(
                    list,
                    targets,
                    canonical,
                    strategy,
                    #[trigger] selected[k],
                ) by {
                    assert(list.contains(found[k]));
                    let i = choose|i: int| 0 <= i < list.len() && list[i] == found[k];
                    assert(meant_by_any(targets, canonical, 0, list[i]));
                    assert(same_but_strategy(selected[k], list[i]));
                }
                assert forall|t: int| 0 <= t < targets.len() implies (target_index(
                    list,
                    #[trigger] targets[t],
                    canonical[t],
                    0,
                ) matches Some(index) && is_selected(selected, list[index])) by {
                    let index = target_index(list, targets[t], canonical[t], 0)->0;
                    let k = choose|k: int| 0 <= k < found.len() && found[k] == list[index];
                    assert(same_but_strategy(selected[k], list[index]));
                }
            },
            Err(failure) => {
                let t = choose|t: int|
                    {
                        &&& 0 <= t < targets.len()
                        &&& failure == plain(
                            "repository not registered: "@ + #[trigger] targets[t],
                        )
                        &&& target_index(list, targets[t], canonical[t], 0) is None
                    };
                targets_are_found(list, targets[t], canonical[t]);
                assert(failure == plain("repository not registered: "@ + targets[t]));
            },
        }
    }
}

/// Whether a selected repository is one of the list that a target means.
pub open spec fn selected_from(
    list: Seq<RepositoryView>,
    targets: Seq<Seq<char>>,
    canonical: Seq<Option<Seq<u8>>>,
    strategy: Option<Strategy>,
    repository: RepositoryView,
) -> bool {
    exists|i: int|
        {
            &&& 0 <= i < list.len()
            &&& same_but_strategy(repository, #[trigger] list[i])
            &&& strategy is None ==> repository == list[i]
            &&& meant_by_any(targets, canonical, 0, list[i])
        }
}

/// Whether a repository is selected, with whatever strategy.
pub open spec fn is_selected(selected: Seq<RepositoryView>, repository: RepositoryView) -> bool {
    exists|k: int| 0 <= k < selected.len() && same_but_strategy(#[trigger] selected[k], repository)
}

// ---------------------------------------------------------------------------
// Telling
// ---------------------------------------------------------------------------

/// The results of a kind, in their order.
pub open spec fn of_kind(results: Seq<SyncResultView>, kind: SyncKind) -> Seq<SyncResultView> {
    results.filter(|result: SyncResultView| result.kind == kind)
}

proof fn kinds_are_filtered(
    results: Seq<SyncResultView>,
    kind: SyncKind,
    home: Option<Seq<u8>>,
)
    ensures
        count_kind(results, kind) == of_kind(results, kind).len(),
        result_lines(results, kind, home) == of_kind(results, kind).map_values(
            |result: SyncResultView| told_result(result, home),
        ),
    decreases results.len(),
{
    reveal(Seq::filter);
    let line = |result: SyncResultView| told_result(result, home);
    if results.len() > 0 {
        kinds_are_filtered(results.drop_last(), kind, home);
        detail_lengths(results.last(), home);
        let front = of_kind(results.drop_last(), kind);
        if results.last().kind == kind {
            assert(front.push(results.last()).map_values(line) =~= front.map_values(line).push(
                line(results.last()),
            ));
            assert(of_kind(results, kind) == front.push(results.last()));
        } else {
            assert(of_kind(results, kind) == front);
        }
    } else {
        assert(result_lines(results, kind, home) =~= of_kind(results, kind).map_values(line));
    }
}

/// How a result is told: the name, the path and, where there is one, the detail, behind the word
/// on local changes.
pub open spec fn told_result(result: SyncResultView, home: Option<Seq<u8>>) -> Seq<char> {
    let start = "  "@ + padded(result.repository.name, 24) + "  "@ + displayed(
        result.repository.path,
        home,
    );
    if result.dirty && result.detail.len() > 0 {
        start + "  | "@ + ("local dirty"@ + "; "@ + result.detail)
    } else if result.dirty {
        start + "  | "@ + "local dirty"@
    } else if result.detail.len() > 0 {
        start + "  | "@ + result.detail
    } else {
        start
    }
}

/// How the results of a kind are told.
pub open spec fn told_section(
    title: Seq<char>,
    kind: SyncKind,
    results: Seq<SyncResultView>,
    home: Option<Seq<u8>>,
) -> Seq<Seq<char>> {
    let some = of_kind(results, kind);
    seq![title + " ("@ + decimal(some.len()) + "):"@] + if some.len() == 0 {
        seq!["  none"@]
    } else {
        some.map_values(|result: SyncResultView| told_result(result, home))
    }
}

proof fn detail_lengths(result: SyncResultView, home: Option<Seq<u8>>)
    ensures
        result_line(result, home) == told_result(result, home),
{
    reveal_strlit("local dirty");
}

/// A report tells the updated, the skipped and the failed results, each with their number, and
/// then whether any failed and how many there are of each. It is a success where none failed.
pub proof fn reports_tell_every_result(
    results: Seq<SyncResultView>,
    selected: nat,
    home: Option<Seq<u8>>,
)
    ensures
        sync_report(results, selected, home) == seq![""@] + told_section(
            "Updated"@,
            SyncKind::Updated,
            results,
            home,
        ) + told_section("Skipped"@, SyncKind::Skipped, results, home) + told_section(
            "Failed"@,
            SyncKind::Failed,
            results,
            home,
        ) + seq![
            "\n=== "@ + (if of_kind(results, SyncKind::Failed).len() == 0 {
                "SYNC COMPLETE"@
            } else {
                "SYNC ENDED WITH ERRORS"@
            }) + " ==="@,
            decimal(results.len()) + "/"@ + decimal(selected) + " repos finished: "@ + decimal(
                of_kind(results, SyncKind::Updated).len(),
            ) + " updated, "@ + decimal(of_kind(results, SyncKind::Skipped).len())
                + " skipped, "@ + decimal(of_kind(results, SyncKind::Failed).len()) + " failed"@,
        ],
        count_kind(results, SyncKind::Failed) == 0 <==> forall|i: int|
            0 <= i < results.len() ==> (#[trigger] results[i]).kind != SyncKind::Failed,
{
    reveal_strlit("local dirty");
    assert forall|result: SyncResultView| #[trigger] result_line(result, home) == told_result(
        result,
        home,
    ) by {
        detail_lengths(result, home);
    }
    kinds_are_filtered(results, SyncKind::Updated, home);
    kinds_are_filtered(results, SyncKind::Skipped, home);
    kinds_are_filtered(results, SyncKind::Failed, home);
    kinds_partition(results);
    none_of_kind(results, SyncKind::Failed);
}

proof fn none_of_kind(results: Seq<SyncResultView>, kind: SyncKind)
    ensures
        count_kind(results, kind) == 0 <==> forall|i: int|
            0 <= i < results.len() ==> (#[trigger] results[i]).kind != kind,
    decreases results.len(),
{
    if results.len() > 0 {
        let front = results.drop_last();
        none_of_kind(front, kind);
        if count_kind(front, kind) == 0 {
            assert forall|i: int| 0 <= i < results.len() - 1 implies (#[trigger] results[i]).kind
                != kind by {
                assert(front[i] == results[i]);
            }
        } else {
            let i = choose|i: int| 0 <= i < front.len() && (#[trigger] front[i]).kind == kind;
            assert(results[i].kind == kind);
        }
        assert(results.last() == results[results.len() - 1]);
    }
}

/// The list tells where the registry is, and of each repository the name, the strategy, whether
/// there are submodules, whether there are updates, and the path.
pub proof fn lists_tell_every_repository(
    list: Seq<RepositoryView>,
    inspections: Seq<InspectionView>,
    config: Seq<u8>,
    home: Option<Seq<u8>>,
    index: int,
)
    requires
        list.len() == inspections.len(),
    ensures
        list.len() == 0 ==> list_report(list, inspections, config, home) == seq![
            "No repositories registered. Config: "@ + displayed(config, home),
        ],
        list.len() > 0 ==> {
            let lines = list_report(list, inspections, config, home);
            &&& lines.len() == list.len() + 3
            &&& lines[0] == "Config: "@ + displayed(config, home)
            &&& lines[1] == padded("name"@, 24) + "  "@ + padded("strategy"@, 8) + "  "@ + padded(
                "submodules"@,
                10,
            ) + "  "@ + padded("updates"@, 10) + "  "@ + "path"@
            &&& lines[2] == padded("----"@, 24) + "  "@ + padded("--------"@, 8) + "  "@ + padded(
                "----------"@,
                10,
            ) + "  "@ + padded("-------"@, 10) + "  "@ + "----"@
        },
        0 <= index < list.len() ==> {
            let found = inspections[index];
            let word = if found.error is Some {
                "unknown"@
            } else if found.dirty {
                "dirty"@
            } else if found.updates matches Some(count) && count > 0 {
                "yes"@
            } else {
                "no"@
            };
            list_report(list, inspections, config, home)[3 + index] == padded(
                list[index].name,
                24,
            ) + "  "@ + strategy_word(list[index].strategy) + "  "@ + padded(
                truth_word(list[index].submodules),
                10,
            ) + "  "@ + padded(word, 10) + "  "@ + displayed(list[index].path, home)
        },
{
}

/// What is told while repositories are synchronized.
pub proof fn progress_is_told(event: EventView, names: Seq<Seq<char>>)
    ensures
        match event {
            EventView::SyncFetching(index) => progress_text(event, names) == Some(
                "  Fetching: "@ + names[index],
            ),
            EventView::SyncChecksFinished(count) => progress_text(event, names) == Some(
                "\nPhase 2: serial updates ("@ + decimal(count as nat) + " repos)\n"@,
            ),
            EventView::SyncUpdating(_, plan) => progress_text(event, names) == Some(
                (if plan.update_count > 0 {
                    "  Pulling: "@
                } else {
                    "  Syncing submodules: "@
                }) + plan.repository.name,
            ),
            EventView::SyncFinished(_, result) => progress_text(event, names) == Some(
                "  "@ + (match result.kind {
                    SyncKind::Updated => "Updated"@,
                    SyncKind::Skipped => "Skipped"@,
                    SyncKind::Failed => "Failed"@,
                }) + ": "@ + result.repository.name,
            ),
            _ => progress_text(event, names) is None,
        },
{
}

/// A synchronization is a success exactly where no result is a failure, and its report says so.
pub proof fn success_means_no_failure(
    results: Seq<SyncResultView>,
    selected: nat,
    home: Option<Seq<u8>>,
)
    ensures
        succeeded(results) <==> forall|i: int|
            0 <= i < results.len() ==> (#[trigger] results[i]).kind != SyncKind::Failed,
        ({
            let lines = sync_report(results, selected, home);
            &&& succeeded(results) ==> lines[lines.len() - 2] == "\n=== "@ + "SYNC COMPLETE"@
                + " ==="@
            &&& !succeeded(results) ==> lines[lines.len() - 2] == "\n=== "@
                + "SYNC ENDED WITH ERRORS"@ + " ==="@
        }),
{
    failures_are_counted(results);
}

proof fn failures_are_counted(results: Seq<SyncResultView>)
    ensures
        count_kind(results, SyncKind::Failed) == 0 <==> forall|i: int|
            0 <= i < results.len() ==> (#[trigger] results[i]).kind != SyncKind::Failed,
    decreases results.len(),
{
    if results.len() > 0 {
        let front = results.drop_last();
        failures_are_counted(front);
        assert forall|i: int| 0 <= i < front.len() implies front[i] == results[i] by {}
        assert(results.last() == results[results.len() - 1]);
    }
}

} // verus!
