//! What holds of paths: where parts lead, and how paths are told and read.
use crate::config::{
    default_directory, ensure_step, expanded, project_of, registry_path, resolved_path,
    EnsureReplyView, EnsureStepView,
};
use crate::failure::FailureView;
use crate::path::{
    components, displayed, dot, finished_part, first_slash, joined_path, lead, name_of, name_start,
    parent_of, parts_after, relative_to, same_path, significant, skip_parts, slash, stem_before,
    tidy, with_extension_of,
};
use crate::text::lossy_text;
use vstd::prelude::*;
use vstd::utf8::encode_utf8;

verus! {

/// Whether bytes are one part of a path that leads down.
pub open spec fn one_part(part: Seq<u8>) -> bool {
    &&& part.len() > 0
    &&& forall|i: int| 0 <= i < part.len() ==> #[trigger] part[i] != 47u8
    &&& part != seq![46u8]
    &&& part != seq![46u8, 46u8]
}

proof fn parts_of_one_more(part: Seq<u8>, s: Seq<u8>, last: u8)
    requires
        last == 47u8 || (last == 46u8 && s.len() > 0 && s.last() == 47u8),
    ensures
        parts_after(part, s.push(last)) == parts_after(part, s),
    decreases s.len(),
{
    let more = s.push(last);
    if s.len() == 0 {
        assert(more[0] == last);
        assert(more.skip(1) =~= Seq::<u8>::empty());
        assert(!significant(Seq::<u8>::empty()));
        reveal_with_fuel(parts_after, 2);
        assert(parts_after(part, more) =~= parts_after(part, s));
    } else {
        assert(more[0] == s[0]);
        assert(more.skip(1) =~= s.skip(1).push(last));
        if s.len() == 1 && last == 46u8 {
            assert(s[0] == 47u8);
            assert(s.skip(1) =~= Seq::<u8>::empty());
            let rest = s.skip(1).push(last);
            assert(rest[0] == 46u8);
            assert(rest.skip(1) =~= Seq::<u8>::empty());
            assert(Seq::<u8>::empty().push(46u8) =~= seq![dot()]);
            assert(!significant(seq![dot()]));
            assert(!significant(Seq::<u8>::empty()));
            reveal_with_fuel(parts_after, 3);
            assert(parts_after(seq![], rest) =~= parts_after(seq![], s.skip(1)));
        } else {
            assert(s.skip(1).len() > 0 ==> s.skip(1).last() == s.last());
            if s[0] == 47u8 {
                parts_of_one_more(seq![], s.skip(1), last);
            } else {
                parts_of_one_more(part.push(s[0]), s.skip(1), last);
            }
        }
    }
}

/// Slashes and dots at the end of a path do not change where it leads.
pub proof fn ends_are_cut_off(p: Seq<u8>)
    ensures
        same_path(tidy(p), p),
    decreases p.len(),
{
    if p.len() > 1 && (p.last() == slash() || (p.last() == dot() && p[p.len() - 2] == slash())) {
        let front = p.drop_last();
        assert(front.push(p.last()) =~= p);
        assert(front.last() == p[p.len() - 2]);
        parts_of_one_more(seq![], front, p.last());
        assert(lead(front) == lead(p));
        ends_are_cut_off(front);
    }
}

proof fn name_starts_behind(base: Seq<u8>, part: Seq<u8>)
    requires
        forall|i: int| 0 <= i < part.len() ==> #[trigger] part[i] != 47u8,
        base.len() == 0 || base.last() == 47u8,
    ensures
        name_start(base + part) == base.len(),
    decreases part.len(),
{
    if part.len() == 0 {
        assert(base + part =~= base);
    } else {
        assert((base + part).drop_last() =~= base + part.drop_last());
        assert((base + part).last() == part.last());
        assert(part.last() == part[part.len() - 1]);
        assert(forall|i: int|
            0 <= i < part.drop_last().len() ==> part.drop_last()[i] == #[trigger] part[i]);
        name_starts_behind(base, part.drop_last());
    }
}

/// A part that is put behind a directory is the name of the result, and the directory its
/// parent. A path that starts at the root replaces the directory.
pub proof fn parts_lead_down(base: Seq<u8>, part: Seq<u8>)
    requires
        base.len() > 0,
        one_part(part),
    ensures
        name_of(joined_path(base, part)) == Some(part),
        parent_of(joined_path(base, part)) is Some,
        same_path(parent_of(joined_path(base, part))->0, base),
        joined_path(base, seq![47u8] + part) == seq![47u8] + part,
{
    let ended = if base.last() == 47u8 {
        base
    } else {
        base.push(47u8)
    };
    let whole = joined_path(base, part);
    assert(part[0] != 47u8);
    assert(whole =~= ended + part);
    assert(whole.last() == part[part.len() - 1]);
    assert(tidy(whole) == whole) by {
        if part.len() == 1 && part[0] == 46u8 {
            assert(part =~= seq![46u8]);
        }
        if part.len() > 1 {
            assert(whole[whole.len() - 2] == part[part.len() - 2]);
        }
    }
    name_starts_behind(ended, part);
    assert(whole.skip(ended.len() as int) =~= part);
    assert(whole.take(ended.len() as int) =~= ended);
    ends_are_cut_off(ended);
    if base.last() != 47u8 {
        assert(ended.drop_last() =~= base);
        parts_of_one_more(seq![], base, 47u8);
        assert(lead(ended) == lead(base));
    }
    assert((seq![47u8] + part)[0] == 47u8);
    assert(whole.len() > 1);
}

/// The home directory is told as `~`, and a path is told as it is without a home, or where home
/// is the root or the path does not lead through it.
pub proof fn homes_are_abbreviated(p: Seq<u8>, home: Seq<u8>)
    ensures
        displayed(p, None) == lossy_text(p),
        components(home) == components(seq![47u8]) ==> displayed(p, Some(home)) == lossy_text(p),
        components(home) != components(seq![47u8]) && components(p) == components(home)
            ==> displayed(p, Some(home)) == "~"@,
        components(home).len() > components(p).len() || components(p).take(
            components(home).len() as int,
        ) != components(home) ==> displayed(p, Some(home)) == lossy_text(p),
{
    assert(components(p).take(components(p).len() as int) =~= components(p));
}

proof fn parts_up_to_slash(part: Seq<u8>, s: Seq<u8>)
    ensures
        0 <= first_slash(s) <= s.len(),
        first_slash(s) < s.len() ==> s[first_slash(s)] == 47u8,
        first_slash(s) < s.len() ==> parts_after(part, s) == finished_part(
            part + s.take(first_slash(s)),
        ) + parts_after(seq![], s.skip(first_slash(s) + 1)),
        forall|i: int| 0 <= i < first_slash(s) ==> #[trigger] s[i] != 47u8,
    decreases s.len(),
{
    if s.len() > 0 && s[0] != 47u8 {
        let rest = s.skip(1);
        parts_up_to_slash(part.push(s[0]), rest);
        let cut = first_slash(rest);
        assert(forall|i: int| 0 <= i < rest.len() ==> rest[i] == #[trigger] s[i + 1]);
        assert forall|i: int| 0 <= i < first_slash(s) implies #[trigger] s[i] != 47u8 by {
            if i > 0 {
                assert(rest[i - 1] == s[i]);
            }
        }
        if cut < rest.len() {
            assert(part.push(s[0]) + rest.take(cut) =~= part + s.take(cut + 1));
            assert(rest.skip(cut + 1) =~= s.skip(cut + 2));
        }
    } else if s.len() > 0 {
        assert(part + s.take(0) =~= part);
    }
}

proof fn slashes_stay(ended: Seq<u8>, part: Seq<u8>)
    requires
        ended.len() > 0,
        ended.last() == 47u8,
    ensures
        first_slash(ended) < ended.len(),
        first_slash(ended + part) == first_slash(ended),
    decreases ended.len(),
{
    let s = ended + part;
    assert(s[0] == ended[0]);
    if ended[0] != 47u8 {
        assert(ended.len() > 1);
        assert(s.skip(1) =~= ended.skip(1) + part);
        slashes_stay(ended.skip(1), part);
    }
}

proof fn one_more_part(ended: Seq<u8>, part: Seq<u8>)
    requires
        ended.len() == 0 || ended.last() == 47u8,
        one_part(part),
    ensures
        parts_after(seq![], ended + part) == parts_after(seq![], ended).push(part),
        skip_parts(ended + part, parts_after(seq![], ended).len()) == part,
    decreases ended.len(),
{
    let s = ended + part;
    let none = Seq::<u8>::empty();
    if ended.len() == 0 {
        assert(s =~= part);
        parts_up_to_slash(none, part);
        assert(first_slash(part) == part.len()) by {
            if first_slash(part) < part.len() {
                assert(part[first_slash(part)] == 47u8);
            }
        }
        assert(part.take(part.len() as int) =~= part);
        assert(significant(part));
        whole_part(none, part);
        assert(none + part =~= part);
        assert(!significant(none));
        assert(parts_after(none, ended) =~= Seq::<Seq<u8>>::empty());
        assert(parts_after(none, s) =~= seq![part]);
        assert(parts_after(none, ended).push(part) =~= seq![part]);
    } else {
        slashes_stay(ended, part);
        let cut = first_slash(ended);
        let rest = ended.skip(cut + 1);
        parts_up_to_slash(none, ended);
        parts_up_to_slash(none, s);
        assert(s.take(cut) =~= ended.take(cut));
        assert(s.skip(cut + 1) =~= rest + part);
        assert(none + ended.take(cut) =~= ended.take(cut));
        if rest.len() > 0 {
            assert(rest.last() == ended.last());
        }
        one_more_part(rest, part);
        let first = finished_part(ended.take(cut));
        let others = parts_after(none, rest);
        assert((first + others).push(part) =~= first + others.push(part));
        assert(parts_after(none, ended) == first + others);
        if significant(ended.take(cut)) {
            assert(parts_after(none, ended).len() == others.len() + 1);
        } else {
            assert(parts_after(none, ended).len() == others.len());
        }
    }
}

proof fn whole_part(part: Seq<u8>, s: Seq<u8>)
    requires
        forall|i: int| 0 <= i < s.len() ==> #[trigger] s[i] != 47u8,
    ensures
        parts_after(part, s) == finished_part(part + s),
    decreases s.len(),
{
    if s.len() == 0 {
        assert(part + s =~= part);
    } else {
        assert(forall|i: int| 0 <= i < s.skip(1).len() ==> s.skip(1)[i] == #[trigger] s[i + 1]);
        assert forall|i: int| 0 <= i < s.skip(1).len() implies #[trigger] s.skip(1)[i] != 47u8 by {
            assert(s[i + 1] != 47u8);
        }
        whole_part(part.push(s[0]), s.skip(1));
        assert(part.push(s[0]) + s.skip(1) =~= part + s);
    }
}

/// What is in the home directory is told with `~/` before its name.
pub proof fn names_in_home_are_abbreviated(home: Seq<u8>, part: Seq<u8>)
    requires
        home.len() > 0,
        components(home) != components(seq![47u8]),
        one_part(part),
    ensures
        displayed(joined_path(home, part), Some(home)) == "~/"@ + lossy_text(part),
{
    let ended = if home.last() == 47u8 {
        home
    } else {
        home.push(47u8)
    };
    let p = joined_path(home, part);
    assert(part[0] != 47u8);
    assert(p =~= ended + part);
    one_more_part(ended, part);
    if home.last() != 47u8 {
        parts_of_one_more(seq![], home, 47u8);
    }
    assert(lead(p) == lead(home)) by {
        assert(p[0] == home[0]);
        if home.len() > 1 {
            assert(p[1] == home[1]);
        } else if home.last() != 47u8 {
            assert(p[1] == 47u8);
        }
    }
    let mine = components(p);
    let theirs = components(home);
    assert(mine =~= theirs.push(part));
    assert(mine.take(theirs.len() as int) =~= theirs);
    assert(tidy(part) == part) by {
        assert(part.last() == part[part.len() - 1]);
        if part.len() > 1 {
            assert(part[part.len() - 2] != 47u8);
        }
    }
    assert(theirs.len() >= lead(p).len());
    if theirs.len() == 0 {
        assert(home.len() > 0);
        relative_home_has_parts(home);
    }
}

proof fn relative_home_has_parts(home: Seq<u8>)
    requires
        home.len() > 0,
    ensures
        components(home).len() > 0,
{
    if home[0] != 47u8 && !(home[0] == 46u8 && (home.len() == 1 || home[1] == 47u8)) {
        parts_up_to_slash(seq![], home);
        let cut = first_slash(home);
        let none = Seq::<u8>::empty();
        if cut < home.len() {
            assert(none + home.take(cut) =~= home.take(cut));
            assert(home.take(cut)[0] == home[0]);
            if home.take(cut) == seq![dot()] {
                assert(cut == 1);
            }
            assert(significant(home.take(cut)));
        } else {
            assert forall|i: int| 0 <= i < home.len() implies #[trigger] home[i] != 47u8 by {}
            whole_part(none, home);
            assert(none + home =~= home);
            if home == seq![dot()] {
                assert(home.len() == 1 && home[0] == 46u8);
            }
            assert(significant(home));
        }
    }
}

/// A leading `~` stands for the home directory, alone or before a slash, and for nothing where
/// there is no home. Every other text is a path as it is.
pub proof fn homes_are_filled_in(input: Seq<char>, home: Seq<u8>)
    ensures
        expanded(input, None) == encode_utf8(input),
        expanded("~"@, Some(home)) == home,
        expanded("~/"@ + input, Some(home)) == joined_path(home, encode_utf8(input)),
        input.len() == 0 || input[0] != '~' ==> expanded(input, Some(home)) == encode_utf8(input),
{
    reveal_strlit("~");
    reveal_strlit("~/");
    assert("~/"@ + input != "~"@) by {
        assert(("~/"@ + input).len() >= 2);
    }
    assert(("~/"@ + input).take(2) =~= "~/"@);
    assert(("~/"@ + input).skip(2) =~= input);
    if input.len() > 0 && input[0] != '~' {
        assert("~"@[0] == '~');
        if input.len() >= 2 {
            assert(input.take(2)[0] == input[0]);
            assert("~/"@[0] == '~');
        }
    }
}

/// The registry of a program is beside it, in a directory of its own, unless the program is a
/// build of a project: then it is in the project.
pub proof fn registries_are_beside_the_program(
    executable: Seq<u8>,
    directory: Seq<u8>,
    manifest_present: bool,
)
    requires
        parent_of(executable) == Some(directory),
    ensures
        !manifest_present || project_of(executable) is None ==> default_directory(
            executable,
            manifest_present,
        ) == Ok::<Seq<u8>, FailureView>(joined_path(directory, encode_utf8("repo-sync-data"@))),
        manifest_present ==> (project_of(executable) matches Some(project) ==> default_directory(
            executable,
            manifest_present,
        ) == Ok::<Seq<u8>, FailureView>(joined_path(project, encode_utf8("repo-sync-data"@)))),
        name_of(directory) != Some(encode_utf8("debug"@)) && name_of(directory) != Some(
            encode_utf8("release"@),
        ) ==> project_of(executable) is None,
        (name_of(directory) == Some(encode_utf8("debug"@)) || name_of(directory) == Some(
            encode_utf8("release"@),
        )) ==> (parent_of(directory) matches Some(target) ==> (if name_of(target) == Some(
            encode_utf8("target"@),
        ) {
            project_of(executable) == parent_of(target)
        } else {
            project_of(executable) is None
        })),
{
}

/// The registry file is made sure of step by step: its directory is created, then the file is
/// looked for, and it is created where it is not there. A step that fails is told with its
/// reason.
pub proof fn registries_are_made_sure_of(
    path: Seq<u8>,
    home: Option<Seq<u8>>,
    directory: Seq<u8>,
    first: EnsureReplyView,
    second: EnsureReplyView,
    third: EnsureReplyView,
)
    requires
        parent_of(path) == Some(directory),
    ensures
        ensure_step(path, home, seq![]) == EnsureStepView::CreateDirectory(directory),
        first matches EnsureReplyView::Failed(failure) ==> ensure_step(path, home, seq![first])
            == EnsureStepView::Done(
            Err(
                FailureView {
                    message: "cannot create config dir: "@ + displayed(directory, home),
                    cause: Some(failure.full_text()),
                },
            ),
        ),
        !(first is Failed) ==> ensure_step(path, home, seq![first]) is CheckFile,
        !(first is Failed) && second is AlreadyThere ==> ensure_step(
            path,
            home,
            seq![first, second],
        ) == EnsureStepView::Done(Ok(())),
        !(first is Failed) && !(second is AlreadyThere) ==> ensure_step(
            path,
            home,
            seq![first, second],
        ) is CreateFile,
        !(first is Failed) && !(second is AlreadyThere) ==> (third matches EnsureReplyView::Failed(
            failure,
        ) ==> ensure_step(path, home, seq![first, second, third]) == EnsureStepView::Done(
            Err(
                FailureView {
                    message: "cannot write config file: "@ + displayed(path, home),
                    cause: Some(failure.full_text()),
                },
            ),
        )),
        !(first is Failed) && !(second is AlreadyThere) && !(third is Failed) ==> ensure_step(
            path,
            home,
            seq![first, second, third],
        ) == EnsureStepView::Done(Ok(())),
{
}

proof fn stem_ends_before(stem: Seq<u8>, old: Seq<u8>, end: int)
    requires
        stem.len() > 0,
        forall|i: int| 0 <= i < old.len() ==> #[trigger] old[i] != 46u8,
        stem.len() < end <= stem.len() + 1 + old.len(),
    ensures
        stem_before(stem + seq![46u8] + old, end) == stem.len(),
    decreases end,
{
    let name = stem + seq![46u8] + old;
    if end > stem.len() + 1 {
        assert(name[end - 1] == old[end - 2 - stem.len()]);
        stem_ends_before(stem, old, end - 1);
    } else {
        assert(name[end - 1] == 46u8);
    }
}

/// Another ending takes the place of what stands behind the last dot of a name. The directory
/// and the rest of the name stay.
pub proof fn endings_are_replaced(
    directory: Seq<u8>,
    stem: Seq<u8>,
    old: Seq<u8>,
    ending: Seq<u8>,
)
    requires
        directory.len() > 0,
        stem.len() > 0,
        forall|i: int| 0 <= i < old.len() ==> #[trigger] old[i] != 46u8,
        one_part(stem + seq![46u8] + old),
    ensures
        with_extension_of(joined_path(directory, stem + seq![46u8] + old), ending) == joined_path(
            directory,
            stem,
        ) + seq![46u8] + ending,
{
    let name = stem + seq![46u8] + old;
    let whole = joined_path(directory, name);
    let ended = if directory.last() == 47u8 {
        directory
    } else {
        directory.push(47u8)
    };
    assert(name[0] == stem[0] && name[0] != 47u8);
    parts_lead_down(directory, name);
    assert(whole =~= ended + name);
    assert(joined_path(directory, stem) =~= ended + stem);
    assert(tidy(whole) == whole) by {
        assert(whole.last() == name[name.len() - 1]);
        assert(whole[whole.len() - 2] == name[name.len() - 2]);
        assert(name[name.len() - 2] != 47u8);
    }
    name_starts_behind(ended, name);
    stem_ends_before(stem, old, name.len() as int);
    assert(whole.take((ended + stem).len() as int) =~= ended + stem);
}

/// The way up is no name.
pub proof fn ways_up_have_no_name(directory: Seq<u8>)
    requires
        directory.len() > 0,
    ensures
        name_of(joined_path(directory, seq![46u8, 46u8])) is None,
{
    let part = seq![46u8, 46u8];
    let ended = if directory.last() == 47u8 {
        directory
    } else {
        directory.push(47u8)
    };
    let whole = joined_path(directory, part);
    assert(whole =~= ended + part);
    assert(tidy(whole) == whole) by {
        assert(whole.last() == part[1] && whole[whole.len() - 2] == part[0]);
    }
    name_starts_behind(ended, part);
    assert(whole.skip(ended.len() as int) =~= part);
}

/// A configured directory goes before that of the program, wherever the program is. Without one
/// the registry is in the directory of the program; where the program cannot be found, that is
/// told.
pub proof fn configured_directories_go_first(
    directory: Seq<u8>,
    executable: Result<Seq<u8>, FailureView>,
    program: Seq<u8>,
    manifest_present: bool,
    failure: FailureView,
)
    ensures
        registry_path(Some(directory), executable, manifest_present) == Ok::<
            Seq<u8>,
            FailureView,
        >(joined_path(directory, encode_utf8("repos.tsv"@))),
        default_directory(program, manifest_present) matches Ok(own) ==> registry_path(
            None,
            Ok(program),
            manifest_present,
        ) == registry_path(Some(own), executable, manifest_present),
        default_directory(program, manifest_present) matches Err(told) ==> registry_path(
            None,
            Ok(program),
            manifest_present,
        ) == Err::<Seq<u8>, FailureView>(told),
        registry_path(None, Err(failure), manifest_present) matches Err(told) && told.full_text()
            == "cannot locate the repo-sync executable"@ + ": "@ + failure.full_text(),
{
}

/// Where a path leads is taken as it was found. Otherwise the path that was meant is told, and
/// what was wrong.
pub proof fn paths_are_resolved(
    input: Seq<char>,
    home: Option<Seq<u8>>,
    path: Seq<u8>,
    failure: FailureView,
)
    ensures
        resolved_path(input, home, Ok(path)) == Ok::<Seq<u8>, FailureView>(path),
        resolved_path(input, home, Err(failure)) matches Err(told) && told.full_text()
            == "cannot resolve path: "@ + displayed(expanded(input, home), home) + ": "@
            + failure.full_text(),
{
}

/// Nothing is cut off of a path where nothing is to be. A directory can be cut off exactly where
/// the path begins with its parts.
pub proof fn bases_are_cut_off(p: Seq<u8>, base: Seq<u8>)
    ensures
        relative_to(p, seq![]) matches Some(rest) && same_path(rest, p),
        relative_to(p, base) is Some <==> components(base).len() <= components(p).len()
            && components(p).take(components(base).len() as int) == components(base),
{
    reveal_with_fuel(parts_after, 2);
    assert(components(Seq::<u8>::empty()) =~= Seq::<Seq<u8>>::empty());
    assert(components(p).take(0) =~= Seq::<Seq<u8>>::empty());
    ends_are_cut_off(p);
}

} // verus!
