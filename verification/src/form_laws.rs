//! What a form saves, and what keys do to it.
use crate::cli::names_differ;
use crate::cli_laws::{name_elsewhere, path_elsewhere};
use crate::config::{name_taken, path_taken};
use crate::failure::{plain, FailureView};
use crate::form::{
    add_form, checked_path, edit_form, edited, edited_index, first_named, form_candidate,
    form_fault, FormSubmodules, FormView, Key,
};
use crate::model::{RepositoryView, Strategy};
use crate::path::{components, displayed, same_path};
use crate::text::{lossy_text, trimmed};
use crate::text_laws::{blank, blanks_are_trimmed};
use vstd::prelude::*;

verus! {

/// Whether an entry holds what a form shows, without blanks around the name. What the form
/// leaves open about submodules is what was found.
pub open spec fn as_shown(
    entry: RepositoryView,
    form: FormView,
    path: Seq<u8>,
    has_submodules: bool,
) -> bool {
    &&& entry.name == trimmed(form.name)
    &&& entry.path == path
    &&& entry.strategy == form.strategy
    &&& form.submodules == FormSubmodules::Enabled ==> entry.submodules
    &&& form.submodules == FormSubmodules::Disabled ==> !entry.submodules
    &&& form.submodules == FormSubmodules::Auto ==> entry.submodules == has_submodules
}

proof fn named_from(list: Seq<RepositoryView>, name: Seq<char>, from: int)
    requires
        0 <= from <= list.len(),
    ensures
        match first_named(list, name, from) {
            Some(index) => {
                &&& from <= index < list.len()
                &&& list[index].name == name
                &&& forall|j: int| from <= j < index ==> (#[trigger] list[j]).name != name
            },
            None => forall|j: int| from <= j < list.len() ==> (#[trigger] list[j]).name != name,
        },
    decreases list.len() - from,
{
    if from < list.len() && list[from].name != name {
        named_from(list, name, from + 1);
    }
}

/// The entry that a form edits is the first with the name it was opened with.
pub proof fn forms_edit_their_entry(form: FormView, list: Seq<RepositoryView>)
    ensures
        form.editing_name is None ==> edited_index(form, list) is None,
        form.editing_name matches Some(name) ==> match edited_index(form, list) {
            Some(index) => {
                &&& 0 <= index < list.len()
                &&& list[index].name == name
                &&& forall|j: int| 0 <= j < index ==> (#[trigger] list[j]).name != name
            },
            None => forall|j: int| 0 <= j < list.len() ==> (#[trigger] list[j]).name != name,
        },
{
    if let Some(name) = form.editing_name {
        named_from(list, name, 0);
    }
}

/// A form that is saved adds an entry behind the others, or replaces the one that it edits, with
/// what it shows. All other entries stay.
pub proof fn forms_save_what_they_show(
    form: FormView,
    list: Seq<RepositoryView>,
    path: Seq<u8>,
    is_repository: bool,
    has_submodules: bool,
    home: Option<Seq<u8>>,
)
    ensures
        form_candidate(form, list, path, is_repository, has_submodules, home) matches Ok(after)
            ==> {
            &&& is_repository
            &&& trimmed(form.name).len() > 0
            &&& trimmed(form.path).len() > 0
            &&& form.editing_name is None ==> {
                &&& after.len() == list.len() + 1
                &&& after.drop_last() == list
                &&& as_shown(after.last(), form, path, has_submodules)
            }
            &&& form.editing_name is Some ==> {
                let index = edited_index(form, list)->0;
                &&& edited_index(form, list) is Some
                &&& after.len() == list.len()
                &&& as_shown(after[index], form, path, has_submodules)
                &&& forall|i: int|
                    0 <= i < list.len() && i != index ==> #[trigger] after[i] == list[i]
            }
        },
{
    forms_edit_their_entry(form, list);
    if let Ok(after) = form_candidate(form, list, path, is_repository, has_submodules, home) {
        if form.editing_name is None {
            assert(after.drop_last() =~= list);
        }
    }
}

/// The place of the edited entry, or none where an entry is added.
pub open spec fn kept_out(form: FormView, list: Seq<RepositoryView>) -> int {
    match edited_index(form, list) {
        Some(index) => index,
        None => -1,
    }
}

proof fn taken_elsewhere(form: FormView, list: Seq<RepositoryView>, path: Seq<u8>)
    ensures
        name_taken(list, trimmed(form.name), edited_index(form, list)) == name_elsewhere(
            list,
            trimmed(form.name),
            kept_out(form, list),
        ),
        path_taken(list, path, edited_index(form, list)) == path_elsewhere(
            list,
            path,
            kept_out(form, list),
        ),
{
    forms_edit_their_entry(form, list);
    let at = kept_out(form, list);
    if name_elsewhere(list, trimmed(form.name), at) {
        let i = choose|i: int|
            0 <= i < list.len() && i != at && (#[trigger] list[i]).name == trimmed(form.name);
        assert(list[i].name == trimmed(form.name));
    }
    if path_elsewhere(list, path, at) {
        let i = choose|i: int|
            0 <= i < list.len() && i != at && components((#[trigger] list[i]).path)
                == components(path);
        assert(same_path(list[i].path, path));
    }
}

/// A form is refused where its name or path is blank, its path is no repository, its entry is
/// gone, or its name or path is taken by another entry, and in no other case.
pub proof fn forms_are_refused(
    form: FormView,
    list: Seq<RepositoryView>,
    path: Seq<u8>,
    is_repository: bool,
    has_submodules: bool,
    home: Option<Seq<u8>>,
)
    ensures
        form_candidate(form, list, path, is_repository, has_submodules, home) is Err <==> {
            ||| trimmed(form.name).len() == 0
            ||| trimmed(form.path).len() == 0
            ||| !is_repository
            ||| form.editing_name is Some && edited_index(form, list) is None
            ||| name_elsewhere(list, trimmed(form.name), kept_out(form, list))
            ||| path_elsewhere(list, path, kept_out(form, list))
        },
        form_candidate(form, list, path, is_repository, has_submodules, home) matches Err(failure)
            ==> failure == plain(
            if trimmed(form.name).len() == 0 {
                "repository name cannot be empty"@
            } else if trimmed(form.path).len() == 0 {
                "repository path cannot be empty"@
            } else if !is_repository {
                "not a git repository: "@ + displayed(path, home)
            } else if form.editing_name is Some && edited_index(form, list) is None {
                "repository was removed; close this form and reopen the registry entry"@
            } else if name_elsewhere(list, trimmed(form.name), kept_out(form, list)) {
                "repository name already exists: "@ + trimmed(form.name)
            } else {
                "repository path already exists: "@ + displayed(path, home)
            },
        ),
        form_fault(form) is Some <==> trimmed(form.name).len() == 0 || trimmed(form.path).len()
            == 0,
{
    taken_elsewhere(form, list, path);
}

/// A form that was opened on an entry and saved unchanged leaves the list as it was. The name
/// has no blanks around it, and the path is not blank.
pub proof fn unchanged_forms_change_nothing(
    list: Seq<RepositoryView>,
    index: int,
    has_submodules: bool,
    home: Option<Seq<u8>>,
)
    requires
        0 <= index < list.len(),
        names_differ(list),
        forall|i: int, j: int|
            0 <= i < j < list.len() ==> components((#[trigger] list[i]).path) != components(
                (#[trigger] list[j]).path,
            ),
        list[index].name.len() > 0,
        trimmed(list[index].name) == list[index].name,
        trimmed(lossy_text(list[index].path)).len() > 0,
    ensures
        form_candidate(
            edit_form(list[index]),
            list,
            list[index].path,
            true,
            has_submodules,
            home,
        ) == Ok::<Seq<RepositoryView>, FailureView>(list),
{
    let form = edit_form(list[index]);
    let path = list[index].path;
    forms_edit_their_entry(form, list);
    let at = edited_index(form, list)->0;
    assert(edited_index(form, list) is Some) by {
        assert(list[index].name == form.editing_name->0);
    }
    assert(at == index) by {
        assert(list[at].name == list[index].name);
    }
    forms_are_refused(form, list, path, true, has_submodules, home);
    if name_elsewhere(list, trimmed(form.name), index) {
        let i = choose|i: int|
            0 <= i < list.len() && i != index && (#[trigger] list[i]).name == list[index].name;
        assert(false);
    }
    if path_elsewhere(list, path, index) {
        let i = choose|i: int|
            0 <= i < list.len() && i != index && components((#[trigger] list[i]).path)
                == components(path);
        assert(false);
    }
    forms_save_what_they_show(form, list, path, true, has_submodules, home);
    let after = form_candidate(form, list, path, true, has_submodules, home)->Ok_0;
    assert(after[index] == list[index]);
    assert(after =~= list);
}

/// A new form is empty; one on an entry shows that entry, its path as text, and says about
/// submodules what the entry says.
pub proof fn forms_open_on_their_entry(repository: RepositoryView)
    ensures
        add_form().editing_name is None,
        add_form().name.len() == 0 && add_form().path.len() == 0,
        add_form().strategy == Strategy::Rebase,
        add_form().submodules == FormSubmodules::Auto,
        add_form().field == 0 && add_form().error is None,
        ({
            let form = edit_form(repository);
            &&& form.editing_name == Some(repository.name)
            &&& form.name == repository.name
            &&& form.path == lossy_text(repository.path)
            &&& form.strategy == repository.strategy
            &&& form.submodules == FormSubmodules::Enabled <==> repository.submodules
            &&& form.submodules != FormSubmodules::Auto
            &&& form.field == 0 && form.error is None
        }),
{
}

// ---------------------------------------------------------------------------
// Keys
// ---------------------------------------------------------------------------

/// A character is added to the name or the path, whichever is edited, and the key that deletes
/// takes it away again. Nothing else changes.
pub proof fn typing_can_be_undone(form: FormView, c: char)
    requires
        form.field < 2,
    ensures
        edited(edited(form, Key::Char(c)), Key::Backspace) == form,
        form.field == 0 ==> edited(form, Key::Char(c)) == (FormView {
            name: form.name.push(c),
            ..form
        }),
        form.field == 1 ==> edited(form, Key::Char(c)) == (FormView {
            path: form.path.push(c),
            ..form
        }),
{
    assert(form.name.push(c).drop_last() =~= form.name);
    assert(form.path.push(c).drop_last() =~= form.path);
}

/// The key that deletes takes the last character of the edited text, where there is one.
pub proof fn deleting_takes_the_last(form: FormView)
    ensures
        form.field == 0 && form.name.len() > 0 ==> edited(form, Key::Backspace).name
            == form.name.take(form.name.len() - 1),
        form.field == 1 && form.path.len() > 0 ==> edited(form, Key::Backspace).path
            == form.path.take(form.path.len() - 1),
        form.field != 0 || form.name.len() == 0 ==> edited(form, Key::Backspace).name == form.name,
        form.field != 1 || form.path.len() == 0 ==> edited(form, Key::Backspace).path == form.path,
        edited(form, Key::Backspace).strategy == form.strategy,
        edited(form, Key::Backspace).submodules == form.submodules,
        edited(form, Key::Backspace).field == form.field,
{
    if form.name.len() > 0 {
        assert(form.name.drop_last() =~= form.name.take(form.name.len() - 1));
    }
    if form.path.len() > 0 {
        assert(form.path.drop_last() =~= form.path.take(form.path.len() - 1));
    }
}

/// The keys that go on lead through the four fields, in order and round again; those that go
/// back undo them. The contents stay.
pub proof fn fields_are_visited_in_turn(form: FormView)
    requires
        form.field < 4,
    ensures
        edited(form, Key::Tab) == edited(form, Key::Down),
        edited(form, Key::BackTab) == edited(form, Key::Up),
        edited(edited(form, Key::Tab), Key::BackTab) == form,
        edited(form, Key::Tab).field == if form.field == 3 {
            0
        } else {
            form.field + 1
        },
        edited(form, Key::Tab) == (FormView { field: edited(form, Key::Tab).field, ..form }),
{
}

/// The keys that change a choice change the strategy or the word on submodules, whichever is
/// edited, and nothing in a field of text. The blank is one of them outside of text, and with the
/// control key everywhere.
pub proof fn choices_are_changed(form: FormView, key: Key)
    requires
        key == Key::Left || key == Key::Right || key == Key::Control(' ') || (form.field >= 2
            && key == Key::Char(' ')),
    ensures
        ({
            let after = edited(form, key);
            &&& form.field < 2 || form.field > 3 ==> after == form
            &&& form.field == 2 ==> after.strategy != form.strategy && after == (FormView {
                strategy: after.strategy,
                ..form
            })
            &&& form.field == 3 ==> after == (FormView { submodules: after.submodules, ..form })
                && after.submodules == match form.submodules {
                FormSubmodules::Auto => FormSubmodules::Enabled,
                FormSubmodules::Enabled => FormSubmodules::Disabled,
                FormSubmodules::Disabled => FormSubmodules::Auto,
            }
        }),
{
}

/// No other key does anything to a form: not a character in a field of choices, nor one with the
/// control key.
pub proof fn other_keys_do_nothing(form: FormView, c: char)
    requires
        c != ' ',
    ensures
        form.field >= 2 ==> edited(form, Key::Char(c)) == form,
        edited(form, Key::Control(c)) == form,
        edited(form, Key::Other) == form,
{
}

/// Name and path have to be filled in, with more than blanks. The path is then taken without the
/// blanks around it.
pub proof fn names_and_paths_are_filled_in(form: FormView)
    ensures
        blank(form.name) ==> checked_path(form) == Err::<Seq<char>, FailureView>(
            plain("repository name cannot be empty"@),
        ),
        !blank(form.name) && blank(form.path) ==> checked_path(form) == Err::<
            Seq<char>,
            FailureView,
        >(plain("repository path cannot be empty"@)),
        !blank(form.name) && !blank(form.path) ==> checked_path(form) == Ok::<
            Seq<char>,
            FailureView,
        >(trimmed(form.path)) && trimmed(form.path).len() > 0,
{
    blanks_are_trimmed(form.name);
    blanks_are_trimmed(form.path);
}

} // verus!
