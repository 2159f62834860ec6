//! The registry of repositories: its file format, its rules and where it is kept.
use crate::failure::{plain, Failure, FailureView};
use crate::model::{
    bool_text, bool_word, entries, strategy_named, strategy_text, Repository,
    RepositoryView, Strategy,
};
use crate::path::{
    borrowed_path, byte_lists, display_path, displayed, joined_path, maybe_path, name_of,
    parent_of, same_bytes, same_path, with_extension_of, RawPath,
};
use crate::text::{
    comes_before, concat, contains_break, decimal, decode_strict, fields, fields_of, from_chars,
    has_break, lines_after, lossy_text, number, precedes, same_text, texts, to_chars, trim, trimmed,
    without_return,
};
use vstd::prelude::*;
use vstd::utf8::{decode_utf8, encode_utf8, valid_utf8};

verus! {

// ---------------------------------------------------------------------------
// Rules
// ---------------------------------------------------------------------------

/// What is wrong with one repository.
pub open spec fn repository_fault(repository: RepositoryView) -> Option<Seq<char>> {
    if repository.name.len() == 0 {
        Some("repository name cannot be empty"@)
    } else if has_break(repository.name) {
        Some("repository name cannot contain tabs or newlines"@)
    } else if has_break(lossy_text(repository.path)) {
        Some("repository path cannot contain tabs or newlines"@)
    } else {
        None
    }
}

/// The failure that a fault gives.
pub open spec fn fault_result(fault: Option<Seq<char>>) -> Result<(), FailureView> {
    match fault {
        Some(text) => Err(plain(text)),
        None => Ok(()),
    }
}

/// The view of a check.
pub open spec fn check_result(result: Result<(), Failure>) -> Result<(), FailureView> {
    match result {
        Ok(()) => Ok(()),
        Err(failure) => Err(failure@),
    }
}

/// Checks one repository.
pub fn validate_repository(repository: &Repository) -> (result: Result<(), Failure>)
    ensures
        check_result(result) == fault_result(repository_fault(repository@)),
{
    if repository.name.unicode_len() == 0 {
        return Err(Failure::of("repository name cannot be empty"));
    }
    if contains_break(repository.name.as_str()) {
        return Err(Failure::of("repository name cannot contain tabs or newlines"));
    }
    let path = repository.path.to_text();
    if contains_break(path.as_str()) {
        return Err(Failure::of("repository path cannot contain tabs or newlines"));
    }
    Ok(())
}

/// Whether a list holds a name, besides at the index `except`.
pub open spec fn name_taken(
    list: Seq<RepositoryView>,
    name: Seq<char>,
    except: Option<int>,
) -> bool {
    exists|i: int|
        0 <= i < list.len() && except != Some(i) && (#[trigger] list[i]).name == name
}

/// Whether a list holds a path, besides at the index `except`.
pub open spec fn path_taken(list: Seq<RepositoryView>, path: Seq<u8>, except: Option<int>) -> bool {
    exists|i: int|
        0 <= i < list.len() && except != Some(i) && same_path((#[trigger] list[i]).path, path)
}

/// The index in an option, as a mathematical one.
pub open spec fn maybe_index(index: Option<usize>) -> Option<int> {
    match index {
        Some(value) => Some(value as int),
        None => None,
    }
}

/// What is wrong with a repository beside those of a list.
pub open spec fn conflict(
    list: Seq<RepositoryView>,
    repository: RepositoryView,
    except: Option<int>,
    home: Option<Seq<u8>>,
) -> Option<Seq<char>> {
    if name_taken(list, repository.name, except) {
        Some("repository name already exists: "@ + repository.name)
    } else if path_taken(list, repository.path, except) {
        Some("repository path already exists: "@ + displayed(repository.path, home))
    } else {
        None
    }
}

/// Looks among the first `count` repositories for the name or the path of another one.
pub(crate) fn check_conflict(
    list: &Vec<Repository>,
    count: usize,
    repository: &Repository,
    except: Option<usize>,
    home: Option<&RawPath>,
) -> (result: Result<(), Failure>)
    requires
        count <= list@.len(),
    ensures
        check_result(result) == fault_result(
            conflict(
                entries(list@).take(count as int),
                repository@,
                maybe_index(except),
                borrowed_path(home),
            ),
        ),
{
    let ghost all = entries(list@).take(count as int);
    let ghost skipped = maybe_index(except);
    let mut i: usize = 0;
    while i < count
        invariant
            i <= count <= list@.len(),
            all == entries(list@).take(count as int),
            skipped == maybe_index(except),
            forall|j: int|
                0 <= j < i && skipped != Some(j) ==> (#[trigger] all[j]).name != repository.name@,
        decreases count - i,
    {
        assert(all[i as int] == list@[i as int]@);
        if except != Some(i) && same_text(list[i].name.as_str(), repository.name.as_str()) {
            assert(name_taken(all, repository.name@, skipped));
            return Err(
                Failure::new(
                    concat("repository name already exists: ", repository.name.as_str()),
                ),
            );
        }
        i = i + 1;
    }
    let mut i: usize = 0;
    while i < count
        invariant
            i <= count <= list@.len(),
            all == entries(list@).take(count as int),
            skipped == maybe_index(except),
            !name_taken(all, repository.name@, skipped),
            forall|j: int|
                0 <= j < i && skipped != Some(j) ==> !same_path(
                    (#[trigger] all[j]).path,
                    repository.path@,
                ),
        decreases count - i,
    {
        assert(all[i as int] == list@[i as int]@);
        if except != Some(i) && list[i].path.same(&repository.path) {
            assert(path_taken(all, repository.path@, skipped));
            let text = display_path(&repository.path, home);
            return Err(
                Failure::new(concat("repository path already exists: ", text.as_str())),
            );
        }
        i = i + 1;
    }
    Ok(())
}

/// What is wrong with a list of repositories, looked for from the index `from` on.
pub open spec fn list_fault(
    list: Seq<RepositoryView>,
    from: int,
    home: Option<Seq<u8>>,
) -> Option<Seq<char>>
    decreases list.len() - from,
{
    if from < 0 || from >= list.len() {
        None
    } else if repository_fault(list[from]) is Some {
        repository_fault(list[from])
    } else if conflict(list.take(from), list[from], None, home) is Some {
        conflict(list.take(from), list[from], None, home)
    } else {
        list_fault(list, from + 1, home)
    }
}

/// Checks every repository of a list, and that no name or path occurs twice.
pub fn validate_all(repositories: &Vec<Repository>, home: Option<&RawPath>) -> (result: Result<
    (),
    Failure,
>)
    ensures
        check_result(result) == fault_result(
            list_fault(entries(repositories@), 0, borrowed_path(home)),
        ),
{
    let ghost list = entries(repositories@);
    let ghost place = borrowed_path(home);
    let mut i: usize = 0;
    while i < repositories.len()
        invariant
            i <= repositories@.len(),
            list == entries(repositories@),
            place == borrowed_path(home),
            list_fault(list, 0, place) == list_fault(list, i as int, place),
        decreases repositories@.len() - i,
    {
        let repository = &repositories[i];
        assert(list[i as int] == repository@);
        validate_repository(repository)?;
        check_conflict(repositories, i, repository, None, home)?;
        i = i + 1;
    }
    Ok(())
}

/// Whether a list meets every rule: each repository can be written down, and no name or
/// path occurs twice.
pub open spec fn well_formed(list: Seq<RepositoryView>) -> bool {
    &&& forall|i: int| 0 <= i < list.len() ==> repository_fault(#[trigger] list[i]) is None
    &&& forall|i: int, j: int|
        0 <= i < j < list.len() ==> (#[trigger] list[i]).name != (#[trigger] list[j]).name
            && !same_path(list[i].path, list[j].path)
}

// ---------------------------------------------------------------------------
// Order
// ---------------------------------------------------------------------------

/// An ordered list with one more repository, behind those whose name is not greater.
pub open spec fn inserted(
    list: Seq<RepositoryView>,
    repository: RepositoryView,
) -> Seq<RepositoryView>
    decreases list.len(),
{
    if list.len() > 0 && precedes(repository.name, list.last().name) {
        inserted(list.drop_last(), repository).push(list.last())
    } else {
        list.push(repository)
    }
}

/// A list in the order of the names. Equal names keep their order.
pub open spec fn sorted(list: Seq<RepositoryView>) -> Seq<RepositoryView>
    decreases list.len(),
{
    if list.len() == 0 {
        seq![]
    } else {
        inserted(sorted(list.drop_last()), list.last())
    }
}

/// A copy of a list in the order of the names.
pub fn sort_by_name(list: &Vec<Repository>) -> (result: Vec<Repository>)
    ensures
        entries(result@) == sorted(entries(list@)),
        result@.len() == list@.len(),
{
    let ghost all = entries(list@);
    let mut result: Vec<Repository> = Vec::new();
    let mut i: usize = 0;
    assert(all.take(0) =~= Seq::<RepositoryView>::empty());
    while i < list.len()
        invariant
            i <= list@.len(),
            result@.len() == i,
            all == entries(list@),
            entries(result@) == sorted(all.take(i as int)),
        decreases list@.len() - i,
    {
        let repository = list[i].clone();
        let ghost before = entries(result@);
        let ghost goal = inserted(before, repository@);
        let mut k: usize = result.len();
        assert(before.take(k as int) =~= before);
        assert(goal =~= inserted(before.take(k as int), repository@) + before.skip(k as int));
        while k > 0 && comes_before(repository.name.as_str(), result[k - 1].name.as_str())
            invariant
                k <= result@.len(),
                before == entries(result@),
                goal == inserted(before.take(k as int), repository@) + before.skip(k as int),
            decreases k,
        {
            proof {
                let part = before.take(k as int);
                assert(part.drop_last() =~= before.take(k - 1));
                assert(part.last() == before[k - 1]);
                assert(before.skip(k - 1) =~= seq![before[k - 1]] + before.skip(k as int));
                assert(inserted(part.drop_last(), repository@).push(part.last()) + before.skip(
                    k as int,
                ) =~= inserted(part.drop_last(), repository@) + before.skip(k - 1));
            }
            k = k - 1;
        }
        proof {
            let part = before.take(k as int);
            if k > 0 {
                assert(part.last() == before[k - 1]);
            }
            assert(inserted(part, repository@) == part.push(repository@));
            assert(part.push(repository@) + before.skip(k as int) =~= before.insert(
                k as int,
                repository@,
            ));
            assert(all.take(i + 1).drop_last() =~= all.take(i as int));
        }
        result.insert(k, repository);
        assert(entries(result@) =~= before.insert(k as int, repository@));
        i = i + 1;
    }
    assert(all.take(i as int) =~= all);
    result
}

/// Whether two repositories are alike; paths are compared part by part.
pub open spec fn same_repository(a: RepositoryView, b: RepositoryView) -> bool {
    a.name == b.name && same_path(a.path, b.path) && a.strategy == b.strategy && a.submodules
        == b.submodules
}

/// Whether two lists are alike.
pub open spec fn same_list(a: Seq<RepositoryView>, b: Seq<RepositoryView>) -> bool {
    a.len() == b.len() && forall|i: int|
        0 <= i < a.len() ==> same_repository(#[trigger] a[i], b[i])
}

fn lists_match(a: &Vec<Repository>, b: &Vec<Repository>) -> (answer: bool)
    ensures
        answer == same_list(entries(a@), entries(b@)),
{
    if a.len() != b.len() {
        return false;
    }
    let mut i: usize = 0;
    while i < a.len()
        invariant
            i <= a@.len() == b@.len(),
            forall|j: int|
                0 <= j < i ==> same_repository(#[trigger] entries(a@)[j], entries(b@)[j]),
        decreases a@.len() - i,
    {
        assert(entries(a@)[i as int] == a@[i as int]@ && entries(b@)[i as int] == b@[i as int]@);
        if !same_text(a[i].name.as_str(), b[i].name.as_str()) || !a[i].path.same(&b[i].path)
            || a[i].strategy != b[i].strategy || a[i].submodules != b[i].submodules {
            return false;
        }
        i = i + 1;
    }
    true
}

// ---------------------------------------------------------------------------
// File format
// ---------------------------------------------------------------------------

/// The line for a repository, without its end.
pub open spec fn entry_line(repository: RepositoryView) -> Seq<char> {
    repository.name + "\t"@ + lossy_text(repository.path) + "\t"@ + strategy_text(
        repository.strategy,
    ) + "\t"@ + bool_text(repository.submodules)
}

/// The registry file for a list in its order.
pub open spec fn rendered(list: Seq<RepositoryView>) -> Seq<char>
    decreases list.len(),
{
    if list.len() == 0 {
        seq![]
    } else {
        rendered(list.drop_last()) + entry_line(list.last()) + "\n"@
    }
}

fn render(list: &Vec<Repository>) -> (text: String)
    ensures
        text@ == rendered(entries(list@)),
{
    let ghost all = entries(list@);
    let mut text = String::new();
    let mut i: usize = 0;
    assert(all.take(0) =~= Seq::<RepositoryView>::empty());
    assert(text@ =~= rendered(all.take(0)));
    while i < list.len()
        invariant
            i <= list@.len(),
            all == entries(list@),
            text@ == rendered(all.take(i as int)),
        decreases list@.len() - i,
    {
        let repository = &list[i];
        let ghost before = text@;
        text.append(repository.name.as_str());
        text.append("\t");
        text.append(repository.path.to_text().as_str());
        text.append("\t");
        text.append(repository.strategy.to_text());
        text.append("\t");
        text.append(bool_word(repository.submodules));
        text.append("\n");
        proof {
            assert(all.take(i + 1).drop_last() =~= all.take(i as int));
            assert(text@ =~= before + entry_line(repository@) + "\n"@);
        }
        i = i + 1;
    }
    assert(all.take(i as int) =~= all);
    text
}

/// The truth value that a word stands for.
pub open spec fn bool_named(word: Seq<char>) -> Option<bool> {
    if word == "true"@ {
        Some(true)
    } else if word == "false"@ {
        Some(false)
    } else {
        None
    }
}

/// The repository on a line, whose number counts from one.
pub open spec fn parsed_entry(line: Seq<char>, number: nat) -> Result<RepositoryView, FailureView> {
    let parts = fields_of(line, '\t');
    if parts.len() != 4 {
        Err(
            plain(
                "invalid config line "@ + decimal(number) + ": expected 4 tab-separated fields"@,
            ),
        )
    } else {
        match strategy_named(parts[2]) {
            None => Err(
                plain("strategy must be rebase or merge"@).within(
                    "invalid strategy on config line "@ + decimal(number),
                ),
            ),
            Some(strategy) => match bool_named(parts[3]) {
                None => Err(plain("invalid submodules value on config line "@ + decimal(number))),
                Some(submodules) => Ok(
                    RepositoryView {
                        name: parts[0],
                        path: encode_utf8(parts[1]),
                        strategy,
                        submodules,
                    },
                ),
            },
        }
    }
}

/// The view of one parsed repository.
pub open spec fn entry_result(result: Result<Repository, Failure>) -> Result<
    RepositoryView,
    FailureView,
> {
    match result {
        Ok(repository) => Ok(repository@),
        Err(failure) => Err(failure@),
    }
}

fn parse_entry(line: &str, line_number: usize) -> (result: Result<Repository, Failure>)
    ensures
        entry_result(result) == parsed_entry(line@, line_number as nat),
{
    let parts = fields(line, '\t');
    let digits = number(line_number as u128);
    assert(parts@.len() == texts(parts@).len());
    if parts.len() != 4 {
        let mut text = concat("invalid config line ", digits.as_str());
        text.append(": expected 4 tab-separated fields");
        return Err(Failure::new(text));
    }
    assert(texts(parts@)[2] == parts@[2]@ && texts(parts@)[3] == parts@[3]@);
    let strategy = match Strategy::parse(parts[2].as_str()) {
        Ok(strategy) => strategy,
        Err(failure) => {
            let text = concat("invalid strategy on config line ", digits.as_str());
            return Err(failure.context(text.as_str()));
        },
    };
    let submodules = if same_text(parts[3].as_str(), "true") {
        true
    } else if same_text(parts[3].as_str(), "false") {
        false
    } else {
        return Err(
            Failure::new(concat("invalid submodules value on config line ", digits.as_str())),
        );
    };
    assert(bool_named(parts@[3]@) == Some(submodules)) by {
        reveal_strlit("true");
        reveal_strlit("false");
        assert("true"@.len() != "false"@.len());
    }
    Ok(
        Repository {
            name: parts[0].clone(),
            path: RawPath::from_text(parts[1].as_str()),
            strategy,
            submodules,
        },
    )
}

/// The repositories on the lines from the one with the index `from` on, after those found so
/// far. Blank lines are skipped.
pub open spec fn parsed_lines(
    lines: Seq<Seq<u8>>,
    from: int,
    found: Seq<RepositoryView>,
) -> Result<Seq<RepositoryView>, FailureView>
    decreases lines.len() - from,
{
    if from < 0 || from >= lines.len() {
        Ok(found)
    } else if !valid_utf8(lines[from]) {
        Err(plain("stream did not contain valid UTF-8"@))
    } else if trimmed(decode_utf8(lines[from])).len() == 0 {
        parsed_lines(lines, from + 1, found)
    } else {
        match parsed_entry(decode_utf8(lines[from]), (from + 1) as nat) {
            Ok(repository) => parsed_lines(lines, from + 1, found.push(repository)),
            Err(failure) => Err(failure),
        }
    }
}

/// The lines of a file.
pub open spec fn byte_lines(contents: Seq<u8>) -> Seq<Seq<u8>> {
    lines_after(seq![], contents, 10u8, 13u8)
}

fn copy_range(bytes: &Vec<u8>, from: usize, to: usize) -> (result: Vec<u8>)
    requires
        from <= to <= bytes@.len(),
    ensures
        result@ == bytes@.subrange(from as int, to as int),
{
    let mut result: Vec<u8> = Vec::new();
    let mut i: usize = from;
    while i < to
        invariant
            from <= i <= to <= bytes@.len(),
            result@ == bytes@.subrange(from as int, i as int),
        decreases to - i,
    {
        result.push(bytes[i]);
        assert(result@ =~= bytes@.subrange(from as int, i + 1));
        i = i + 1;
    }
    result
}

fn split_lines(contents: &Vec<u8>) -> (result: Vec<Vec<u8>>)
    ensures
        byte_lists(result@) == byte_lines(contents@),
{
    let mut result: Vec<Vec<u8>> = Vec::new();
    let mut start: usize = 0;
    let mut i: usize = 0;
    proof {
        assert(contents@.skip(0) =~= contents@);
        assert(contents@.subrange(0, 0) =~= Seq::<u8>::empty());
        assert(byte_lists(result@) =~= Seq::<Seq<u8>>::empty());
    }
    while i < contents.len()
        invariant
            start <= i <= contents@.len(),
            byte_lines(contents@) =~= byte_lists(result@) + lines_after(
                contents@.subrange(start as int, i as int),
                contents@.skip(i as int),
                10u8,
                13u8,
            ),
        decreases contents@.len() - i,
    {
        let ghost line = contents@.subrange(start as int, i as int);
        let ghost before = byte_lists(result@);
        proof {
            assert(contents@.skip(i as int).skip(1) =~= contents@.skip(i + 1));
            assert(line.push(contents@[i as int]) =~= contents@.subrange(start as int, i + 1));
            assert(contents@.subrange(i + 1, i + 1) =~= Seq::<u8>::empty());
        }
        if contents[i] == 10 {
            let end: usize = if i > start && contents[i - 1] == 13 {
                i - 1
            } else {
                i
            };
            proof {
                if i > start {
                    assert(line.last() == contents@[i - 1]);
                    assert(line.drop_last() =~= contents@.subrange(start as int, i - 1));
                }
            }
            result.push(copy_range(contents, start, end));
            proof {
                assert(byte_lists(result@) =~= before.push(without_return(line, 13u8)));
            }
            start = i + 1;
        }
        i = i + 1;
    }
    if start < i {
        let ghost before = byte_lists(result@);
        result.push(copy_range(contents, start, i));
        assert(byte_lists(result@) =~= before.push(contents@.subrange(start as int, i as int)));
    }
    result
}

/// The repositories in a registry file.
pub open spec fn loaded(contents: Seq<u8>, home: Option<Seq<u8>>) -> Result<
    Seq<RepositoryView>,
    FailureView,
> {
    match parsed_lines(byte_lines(contents), 0, seq![]) {
        Err(failure) => Err(failure),
        Ok(list) => match list_fault(list, 0, home) {
            Some(text) => Err(plain(text)),
            None => Ok(list),
        },
    }
}

/// The view of the contents of a file or the failure to open it.
pub open spec fn contents_result(result: Result<Vec<u8>, Failure>) -> Result<
    Seq<u8>,
    FailureView,
> {
    match result {
        Ok(contents) => Ok(contents@),
        Err(failure) => Err(failure@),
    }
}

/// The repositories in the registry file `path`, where it could be opened.
pub open spec fn loaded_from(
    path: Seq<u8>,
    contents: Result<Seq<u8>, FailureView>,
    home: Option<Seq<u8>>,
) -> Result<Seq<RepositoryView>, FailureView> {
    match contents {
        Ok(contents) => loaded(contents, home),
        Err(failure) => Err(failure.within("cannot read config file: "@ + displayed(path, home))),
    }
}

/// The view of a list or the failure to get one.
pub open spec fn list_result(result: Result<Vec<Repository>, Failure>) -> Result<
    Seq<RepositoryView>,
    FailureView,
> {
    match result {
        Ok(list) => Ok(entries(list@)),
        Err(failure) => Err(failure@),
    }
}

fn parse_lines(lines: &Vec<Vec<u8>>) -> (result: Result<Vec<Repository>, Failure>)
    ensures
        list_result(result) == parsed_lines(byte_lists(lines@), 0, seq![]),
{
    let ghost all = byte_lists(lines@);
    let mut list: Vec<Repository> = Vec::new();
    let mut i: usize = 0;
    assert(entries(list@) =~= Seq::<RepositoryView>::empty());
    while i < lines.len()
        invariant
            i <= lines@.len(),
            all == byte_lists(lines@),
            parsed_lines(all, 0, seq![]) == parsed_lines(all, i as int, entries(list@)),
        decreases lines@.len() - i,
    {
        assert(all[i as int] == lines@[i as int]@);
        let line = match decode_strict(lines[i].as_slice()) {
            Some(line) => line,
            None => return Err(Failure::of("stream did not contain valid UTF-8")),
        };
        if trim(line.as_str()).unicode_len() > 0 {
            let repository = parse_entry(line.as_str(), i + 1)?;
            let ghost before = entries(list@);
            list.push(repository);
            assert(entries(list@) =~= before.push(repository@));
        }
        i = i + 1;
    }
    Ok(list)
}

// ---------------------------------------------------------------------------
// The store
// ---------------------------------------------------------------------------

/// Where the registry is kept.
#[derive(Debug)]
pub struct ConfigStore {
    path: RawPath,
}

impl View for ConfigStore {
    type V = Seq<u8>;

    closed spec fn view(&self) -> Seq<u8> {
        self.path@
    }
}

impl Clone for ConfigStore {
    fn clone(&self) -> (copy: Self)
        ensures
            copy@ == self@,
    {
        ConfigStore { path: self.path.clone() }
    }
}

/// What came of a step to make sure that the registry file is there.
#[derive(Debug)]
pub enum EnsureReply {
    Succeeded,
    AlreadyThere,
    Failed(Failure),
}

/// The contents of an [`EnsureReply`].
#[verifier::ext_equal]
pub enum EnsureReplyView {
    Succeeded,
    AlreadyThere,
    Failed(FailureView),
}

impl View for EnsureReply {
    type V = EnsureReplyView;

    open spec fn view(&self) -> EnsureReplyView {
        match self {
            EnsureReply::Succeeded => EnsureReplyView::Succeeded,
            EnsureReply::AlreadyThere => EnsureReplyView::AlreadyThere,
            EnsureReply::Failed(failure) => EnsureReplyView::Failed(failure@),
        }
    }
}

/// The replies in a list.
pub open spec fn ensure_replies(list: Seq<EnsureReply>) -> Seq<EnsureReplyView> {
    Seq::new(list.len(), |i: int| list[i]@)
}

/// The next step to make sure that the registry file is there: create a directory with its
/// parents, tell whether the file is there, or create it where it is not.
#[derive(Debug)]
pub enum EnsureStep {
    CreateDirectory(RawPath),
    CheckFile,
    CreateFile,
    Done(Result<(), Failure>),
}

/// The contents of an [`EnsureStep`].
#[verifier::ext_equal]
pub enum EnsureStepView {
    CreateDirectory(Seq<u8>),
    CheckFile,
    CreateFile,
    Done(Result<(), FailureView>),
}

impl View for EnsureStep {
    type V = EnsureStepView;

    open spec fn view(&self) -> EnsureStepView {
        match self {
            EnsureStep::CreateDirectory(path) => EnsureStepView::CreateDirectory(path@),
            EnsureStep::CheckFile => EnsureStepView::CheckFile,
            EnsureStep::CreateFile => EnsureStepView::CreateFile,
            EnsureStep::Done(result) => EnsureStepView::Done(check_result(*result)),
        }
    }
}

/// The next step to make sure that the file `path` is there.
pub open spec fn ensure_step(
    path: Seq<u8>,
    home: Option<Seq<u8>>,
    h: Seq<EnsureReplyView>,
) -> EnsureStepView {
    match parent_of(path) {
        None => EnsureStepView::Done(
            Err(plain("configuration file has no parent directory"@)),
        ),
        Some(parent) => if h.len() == 0 {
            EnsureStepView::CreateDirectory(parent)
        } else if h[0] is Failed {
            EnsureStepView::Done(
                Err(
                    h[0]->Failed_0.within("cannot create config dir: "@ + displayed(parent, home)),
                ),
            )
        } else if h.len() == 1 {
            EnsureStepView::CheckFile
        } else if h[1] is AlreadyThere {
            EnsureStepView::Done(Ok(()))
        } else if h.len() == 2 {
            EnsureStepView::CreateFile
        } else if h[2] is Failed {
            EnsureStepView::Done(
                Err(h[2]->Failed_0.within("cannot write config file: "@ + displayed(path, home))),
            )
        } else {
            EnsureStepView::Done(Ok(()))
        },
    }
}

/// A registry file about to be replaced: the whole text, and the file that holds it until
/// then.
#[derive(Debug)]
pub struct Replacement {
    pub temporary: RawPath,
    pub text: String,
}

/// The contents of a [`Replacement`].
#[verifier::ext_equal]
pub struct ReplacementView {
    pub temporary: Seq<u8>,
    pub text: Seq<char>,
}

impl View for Replacement {
    type V = ReplacementView;

    open spec fn view(&self) -> ReplacementView {
        ReplacementView { temporary: self.temporary@, text: self.text@ }
    }
}

/// The name of a temporary file.
pub open spec fn temporary_name(process: nat, nonce: nat) -> Seq<char> {
    "repos."@ + decimal(process) + "."@ + decimal(nonce) + ".tmp"@
}

/// What is written for a list of repositories.
pub open spec fn written(
    path: Seq<u8>,
    list: Seq<RepositoryView>,
    home: Option<Seq<u8>>,
    process: nat,
    nonce: nat,
) -> Result<ReplacementView, FailureView> {
    match list_fault(list, 0, home) {
        Some(text) => Err(plain(text)),
        None => match parent_of(path) {
            None => Err(plain("config file has no parent directory"@)),
            Some(parent) => Ok(
                ReplacementView {
                    temporary: joined_path(parent, encode_utf8(temporary_name(process, nonce))),
                    text: rendered(sorted(list)),
                },
            ),
        },
    }
}

/// The view of a replacement or the failure to make one.
pub open spec fn written_result(result: Result<Replacement, Failure>) -> Result<
    ReplacementView,
    FailureView,
> {
    match result {
        Ok(replacement) => Ok(replacement@),
        Err(failure) => Err(failure@),
    }
}

/// What is written for a list of repositories where the file still holds those expected.
pub open spec fn written_if_unchanged(
    path: Seq<u8>,
    contents: Result<Seq<u8>, FailureView>,
    expected: Seq<RepositoryView>,
    list: Seq<RepositoryView>,
    home: Option<Seq<u8>>,
    process: nat,
    nonce: nat,
) -> Result<ReplacementView, FailureView> {
    match loaded_from(path, contents, home) {
        Err(failure) => Err(failure),
        Ok(current) => if same_list(sorted(current), sorted(expected)) {
            written(path, list, home, process, nonce)
        } else {
            Err(plain("Registry changed in another process; reload and retry your change."@))
        },
    }
}

/// Whether a repository is the one meant by a target: its name, its path, or the path that
/// the target resolves to.
pub open spec fn is_target(
    repository: RepositoryView,
    target: Seq<char>,
    canonical: Option<Seq<u8>>,
) -> bool {
    ||| repository.name == target
    ||| same_path(repository.path, encode_utf8(target))
    ||| canonical is Some && same_path(repository.path, canonical->0)
}

/// The directory of the project whose build a program is, where its path looks like that.
pub open spec fn project_of(executable: Seq<u8>) -> Option<Seq<u8>> {
    match parent_of(executable) {
        None => None,
        Some(parent) => if name_of(parent) == Some(encode_utf8("debug"@)) || name_of(parent) == Some(
            encode_utf8("release"@),
        ) {
            match parent_of(parent) {
                None => None,
                Some(target) => if name_of(target) == Some(encode_utf8("target"@)) {
                    parent_of(target)
                } else {
                    None
                },
            }
        } else {
            None
        },
    }
}

/// The directory of the registry beside a program, or in the project whose build it is.
pub open spec fn default_directory(executable: Seq<u8>, manifest_present: bool) -> Result<
    Seq<u8>,
    FailureView,
> {
    match parent_of(executable) {
        None => Err(plain("repo-sync executable has no parent directory"@)),
        Some(parent) => {
            let base = match project_of(executable) {
                Some(project) => if manifest_present {
                    project
                } else {
                    parent
                },
                None => parent,
            };
            Ok(joined_path(base, encode_utf8("repo-sync-data"@)))
        },
    }
}

/// The view of a path or the failure to get one.
pub open spec fn path_result(result: Result<RawPath, Failure>) -> Result<Seq<u8>, FailureView> {
    match result {
        Ok(path) => Ok(path@),
        Err(failure) => Err(failure@),
    }
}

fn is_named(name: &Option<RawPath>, text: &str) -> (answer: bool)
    ensures
        answer == (name is Some && name->0@ == encode_utf8(text@)),
{
    match name {
        Some(name) => same_bytes(name.as_bytes(), RawPath::from_text(text).as_bytes()),
        None => false,
    }
}

/// The directory of the project whose build a program is, where its path looks like that.
/// A manifest there makes it the place of the registry.
pub fn cargo_root(executable: &RawPath) -> (root: Option<RawPath>)
    ensures
        maybe_path(root) == project_of(executable@),
{
    let parent = match executable.parent() {
        Some(parent) => parent,
        None => return None,
    };
    let name = parent.file_name();
    if !is_named(&name, "debug") && !is_named(&name, "release") {
        return None;
    }
    let target = match parent.parent() {
        Some(target) => target,
        None => return None,
    };
    if !is_named(&target.file_name(), "target") {
        return None;
    }
    target.parent()
}

/// The directory of the registry of a program. `manifest_present` tells whether the
/// directory that [`cargo_root`] names holds a manifest.
pub fn default_config_directory(executable: &RawPath, manifest_present: bool) -> (result: Result<
    RawPath,
    Failure,
>)
    ensures
        path_result(result) == default_directory(executable@, manifest_present),
{
    let parent = match executable.parent() {
        Some(parent) => parent,
        None => return Err(Failure::of("repo-sync executable has no parent directory")),
    };
    let data = RawPath::from_text("repo-sync-data");
    if manifest_present {
        if let Some(root) = cargo_root(executable) {
            return Ok(root.join(&data));
        }
    }
    Ok(parent.join(&data))
}

/// The path that a user means: a leading `~` stands for the home directory.
pub open spec fn expanded(input: Seq<char>, home: Option<Seq<u8>>) -> Seq<u8> {
    match home {
        None => encode_utf8(input),
        Some(directory) => if input == "~"@ {
            directory
        } else if input.len() >= 2 && input.take(2) == "~/"@ {
            joined_path(directory, encode_utf8(input.skip(2)))
        } else {
            encode_utf8(input)
        },
    }
}

/// The path that a user means: a leading `~` stands for the home directory.
pub fn expand_path(input: &str, home: Option<&RawPath>) -> (path: RawPath)
    ensures
        path@ == expanded(input@, borrowed_path(home)),
{
    let directory = match home {
        None => return RawPath::from_text(input),
        Some(directory) => directory,
    };
    if same_text(input, "~") {
        return directory.clone();
    }
    let chars = to_chars(input);
    proof {
        reveal_strlit("~/");
        if input@.len() >= 2 {
            assert(input@.take(2) == "~/"@ <==> input@[0] == '~' && input@[1] == '/') by {
                assert("~/"@ =~= seq!['~', '/']);
                assert(input@.take(2) =~= seq![input@[0], input@[1]]);
            }
        }
    }
    if chars.len() >= 2 && chars[0] == '~' && chars[1] == '/' {
        let rest = from_chars(&chars, 2, chars.len());
        assert(rest@ =~= input@.skip(2));
        return directory.join(&RawPath::from_text(rest.as_str()));
    }
    RawPath::from_text(input)
}

/// The absolute path that a user means, given what became of resolving it.
pub open spec fn resolved_path(
    input: Seq<char>,
    home: Option<Seq<u8>>,
    resolved: Result<Seq<u8>, FailureView>,
) -> Result<Seq<u8>, FailureView> {
    match resolved {
        Ok(path) => Ok(path),
        Err(failure) => Err(
            failure.within("cannot resolve path: "@ + displayed(expanded(input, home), home)),
        ),
    }
}

/// The absolute path that a user means. `resolved` is what became of resolving the path that
/// [`expand_path`] gives.
pub fn absolute_path(
    input: &str,
    home: Option<&RawPath>,
    resolved: Result<RawPath, Failure>,
) -> (result: Result<RawPath, Failure>)
    ensures
        path_result(result) == resolved_path(input@, borrowed_path(home), path_result(resolved)),
{
    match resolved {
        Ok(path) => Ok(path),
        Err(failure) => {
            let text = display_path(&expand_path(input, home), home);
            Err(failure.context(concat("cannot resolve path: ", text.as_str()).as_str()))
        },
    }
}

/// The file of a registry that was found.
pub open spec fn store_result(result: Result<ConfigStore, Failure>) -> Result<
    Seq<u8>,
    FailureView,
> {
    match result {
        Ok(store) => Ok(store@),
        Err(failure) => Err(failure@),
    }
}

/// The file of the registry.
pub open spec fn registry_path(
    configured: Option<Seq<u8>>,
    executable: Result<Seq<u8>, FailureView>,
    manifest_present: bool,
) -> Result<Seq<u8>, FailureView> {
    match configured {
        Some(directory) => Ok(joined_path(directory, encode_utf8("repos.tsv"@))),
        None => match executable {
            Err(failure) => Err(failure.within("cannot locate the repo-sync executable"@)),
            Ok(program) => match default_directory(program, manifest_present) {
                Ok(directory) => Ok(joined_path(directory, encode_utf8("repos.tsv"@))),
                Err(failure) => Err(failure),
            },
        },
    }
}

impl ConfigStore {
    /// The registry in the configured directory, or in that of the program.
    pub fn discover(
        configured: Option<RawPath>,
        executable: Result<RawPath, Failure>,
        manifest_present: bool,
    ) -> (result: Result<Self, Failure>)
        ensures
            store_result(result) == registry_path(
                maybe_path(configured),
                path_result(executable),
                manifest_present,
            ),
    {
        let directory = match configured {
            Some(directory) => directory,
            None => match executable {
                Err(failure) => return Err(
                    failure.context("cannot locate the repo-sync executable"),
                ),
                Ok(program) => match default_config_directory(&program, manifest_present) {
                    Ok(directory) => directory,
                    Err(failure) => return Err(failure),
                },
            },
        };
        Ok(ConfigStore::at(directory.join(&RawPath::from_text("repos.tsv"))))
    }

    /// The registry in a file.
    pub fn at(path: RawPath) -> (store: Self)
        ensures
            store@ == path@,
    {
        ConfigStore { path }
    }

    /// The registry file.
    pub fn path(&self) -> (path: &RawPath)
        ensures
            path@ == self@,
    {
        &self.path
    }

    /// The file whose lock guards the registry. It stays while the registry is replaced.
    pub fn lock_path(&self) -> (path: RawPath)
        ensures
            path@ == with_extension_of(self@, encode_utf8("lock"@)),
    {
        self.path.with_extension("lock")
    }

    /// Makes sure that the registry file is there. `replies` tells what came of the steps
    /// taken so far.
    pub fn ensure(&self, home: Option<&RawPath>, replies: &Vec<EnsureReply>) -> (step: EnsureStep)
        ensures
            step@ == ensure_step(self@, borrowed_path(home), ensure_replies(replies@)),
    {
        let parent = match self.path.parent() {
            Some(parent) => parent,
            None => return EnsureStep::Done(
                Err(Failure::of("configuration file has no parent directory")),
            ),
        };
        if replies.len() == 0 {
            return EnsureStep::CreateDirectory(parent);
        }
        if let EnsureReply::Failed(failure) = &replies[0] {
            let text = concat(
                "cannot create config dir: ",
                display_path(&parent, home).as_str(),
            );
            return EnsureStep::Done(Err(failure.context(text.as_str())));
        }
        if replies.len() == 1 {
            return EnsureStep::CheckFile;
        }
        if let EnsureReply::AlreadyThere = &replies[1] {
            return EnsureStep::Done(Ok(()));
        }
        if replies.len() == 2 {
            return EnsureStep::CreateFile;
        }
        if let EnsureReply::Failed(failure) = &replies[2] {
            let text = concat(
                "cannot write config file: ",
                display_path(&self.path, home).as_str(),
            );
            return EnsureStep::Done(Err(failure.context(text.as_str())));
        }
        EnsureStep::Done(Ok(()))
    }

    /// The repositories in the registry. `contents` is what its file holds, or the failure to
    /// open it.
    pub fn load(
        &self,
        contents: &Result<Vec<u8>, Failure>,
        home: Option<&RawPath>,
    ) -> (result: Result<Vec<Repository>, Failure>)
        ensures
            list_result(result) == loaded_from(
                self@,
                contents_result(*contents),
                borrowed_path(home),
            ),
    {
        let contents = match contents {
            Ok(contents) => contents,
            Err(failure) => {
                let text = concat(
                    "cannot read config file: ",
                    display_path(&self.path, home).as_str(),
                );
                return Err(failure.context(text.as_str()));
            },
        };
        let list = parse_lines(&split_lines(contents))?;
        validate_all(&list, home)?;
        Ok(list)
    }

    /// What to write for a list of repositories: checked, in the order of the names.
    pub fn save(
        &self,
        repositories: &Vec<Repository>,
        home: Option<&RawPath>,
        process: u32,
        nonce: u128,
    ) -> (result: Result<Replacement, Failure>)
        ensures
            written_result(result) == written(
                self@,
                entries(repositories@),
                borrowed_path(home),
                process as nat,
                nonce as nat,
            ),
    {
        validate_all(repositories, home)?;
        let parent = match self.path.parent() {
            Some(parent) => parent,
            None => return Err(Failure::of("config file has no parent directory")),
        };
        let mut name = concat("repos.", number(process as u128).as_str());
        name.append(".");
        name.append(number(nonce).as_str());
        name.append(".tmp");
        Ok(
            Replacement {
                temporary: parent.join(&RawPath::from_text(name.as_str())),
                text: render(&sort_by_name(repositories)),
            },
        )
    }

    /// What to write for a list of repositories where the file, whose contents are given,
    /// still holds those that were read before.
    pub fn save_if_unchanged(
        &self,
        contents: &Result<Vec<u8>, Failure>,
        expected: &Vec<Repository>,
        repositories: &Vec<Repository>,
        home: Option<&RawPath>,
        process: u32,
        nonce: u128,
    ) -> (result: Result<Replacement, Failure>)
        ensures
            written_result(result) == written_if_unchanged(
                self@,
                contents_result(*contents),
                entries(expected@),
                entries(repositories@),
                borrowed_path(home),
                process as nat,
                nonce as nat,
            ),
    {
        let current = match self.load(contents, home) {
            Ok(list) => list,
            Err(failure) => return Err(failure),
        };
        if !lists_match(&sort_by_name(&current), &sort_by_name(expected)) {
            return Err(
                Failure::of(
                    "Registry changed in another process; reload and retry your change.",
                ),
            );
        }
        self.save(repositories, home, process, nonce)
    }

    /// The first repository that a target means. `canonical` is the path that the target
    /// resolves to.
    pub fn find_index(
        repositories: &Vec<Repository>,
        target: &str,
        canonical: Option<&RawPath>,
    ) -> (index: Option<usize>)
        ensures
            match index {
                Some(i) => {
                    &&& i < repositories@.len()
                    &&& is_target(repositories@[i as int]@, target@, borrowed_path(canonical))
                    &&& forall|j: int|
                        0 <= j < i ==> !is_target(
                            #[trigger] repositories@[j]@,
                            target@,
                            borrowed_path(canonical),
                        )
                },
                None => forall|j: int|
                    0 <= j < repositories@.len() ==> !is_target(
                        #[trigger] repositories@[j]@,
                        target@,
                        borrowed_path(canonical),
                    ),
            },
    {
        let path = RawPath::from_text(target);
        let mut i: usize = 0;
        while i < repositories.len()
            invariant
                i <= repositories@.len(),
                path@ == encode_utf8(target@),
                forall|j: int|
                    0 <= j < i ==> !is_target(
                        #[trigger] repositories@[j]@,
                        target@,
                        borrowed_path(canonical),
                    ),
            decreases repositories@.len() - i,
        {
            let repository = &repositories[i];
            let resolved = match canonical {
                Some(canonical) => repository.path.same(canonical),
                None => false,
            };
            if same_text(repository.name.as_str(), target) || repository.path.same(&path)
                || resolved {
                return Some(i);
            }
            i = i + 1;
        }
        None
    }
}

} // verus!
