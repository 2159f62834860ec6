//! What holds of every registry: what is saved is read back, in the order of the names.
use crate::config::{
    bool_named, byte_lines, conflict, entry_line, inserted, list_fault, loaded, name_taken,
    loaded_from, parsed_entry, parsed_lines, rendered, repository_fault, same_list,
    same_repository, sorted, well_formed, written, written_if_unchanged, ReplacementView,
};
use crate::failure::{plain, FailureView};
use crate::model::{bool_text, strategy_round_trip, strategy_text, RepositoryView, Strategy};
use crate::path::{components, displayed, joined_path, parent_of, same_path};
use crate::text::{
    codes_differ, decimal, fields_after, fields_of, has_break, is_break, is_space, joined,
    lines_after, lossy_text, precedes, precedes_irreflexive, precedes_total, precedes_transitive,
    trim_front, trimmed, without_return,
};
use crate::text_laws::{blanks_are_trimmed, joined_fields_are_found};
use vstd::prelude::*;
use vstd::utf8::{
    decode_utf8, decode_utf8_encode_utf8, encode_scalar, encode_utf8, encode_utf8_decode_utf8,
    encode_utf8_valid_utf8, valid_utf8,
};

verus! {

// ---------------------------------------------------------------------------
// Rules
// ---------------------------------------------------------------------------

proof fn no_fault_from(list: Seq<RepositoryView>, from: int, home: Option<Seq<u8>>)
    requires
        0 <= from <= list.len(),
    ensures
        list_fault(list, from, home) is None <==> {
            &&& forall|i: int|
                from <= i < list.len() ==> repository_fault(#[trigger] list[i]) is None
            &&& forall|i: int, j: int|
                0 <= i < j < list.len() && from <= j ==> (#[trigger] list[i]).name != (
                #[trigger] list[j]).name && !same_path(list[i].path, list[j].path)
        },
    decreases list.len() - from,
{
    if from < list.len() {
        no_fault_from(list, from + 1, home);
        let before = list.take(from);
        assert(forall|i: int| 0 <= i < from ==> before[i] == list[i]);
        if conflict(before, list[from], None, home) is Some {
            if name_taken(before, list[from].name, None) {
                let i = choose|i: int|
                    0 <= i < before.len() && (#[trigger] before[i]).name == list[from].name;
                assert(list[i].name == list[from].name);
            } else {
                let i = choose|i: int|
                    0 <= i < before.len() && same_path(
                        (#[trigger] before[i]).path,
                        list[from].path,
                    );
                assert(same_path(list[i].path, list[from].path));
            }
        } else {
            assert forall|i: int| 0 <= i < from implies (#[trigger] list[i]).name
                != list[from].name && !same_path(list[i].path, list[from].path) by {
                assert(before[i] == list[i]);
            }
        }
    }
}

/// A list is accepted exactly where it meets every rule.
pub proof fn accepted_means_well_formed(list: Seq<RepositoryView>, home: Option<Seq<u8>>)
    ensures
        list_fault(list, 0, home) is None <==> well_formed(list),
{
    no_fault_from(list, 0, home);
}

// ---------------------------------------------------------------------------
// Order
// ---------------------------------------------------------------------------

/// Whether no name comes before an earlier one.
pub open spec fn ordered(list: Seq<RepositoryView>) -> bool {
    forall|i: int, j: int|
        0 <= i < j < list.len() ==> !precedes((#[trigger] list[j]).name, (#[trigger] list[i]).name)
}

proof fn not_before(a: Seq<char>, b: Seq<char>, c: Seq<char>)
    requires
        !precedes(b, a),
        !precedes(c, b),
    ensures
        !precedes(c, a),
{
    if precedes(c, a) {
        precedes_total(a, b);
        precedes_total(b, c);
        if a == b {
        } else if b == c {
        } else {
            precedes_transitive(a, b, c);
            precedes_transitive(a, c, a);
            precedes_irreflexive(a);
        }
    }
}

proof fn inserted_facts(list: Seq<RepositoryView>, repository: RepositoryView)
    requires
        ordered(list),
    ensures
        ordered(inserted(list, repository)),
        inserted(list, repository).len() == list.len() + 1,
        inserted(list, repository).to_multiset() == list.to_multiset().insert(repository),
        forall|k: int|
            0 <= k < inserted(list, repository).len() ==> {
                let item = #[trigger] inserted(list, repository)[k];
                item == repository || exists|i: int| 0 <= i < list.len() && list[i] == item
            },
    decreases list.len(),
{
    broadcast use vstd::seq_lib::group_to_multiset_ensures;

    let result = inserted(list, repository);
    if list.len() > 0 && precedes(repository.name, list.last().name) {
        let front = list.drop_last();
        assert forall|i: int, j: int| 0 <= i < j < front.len() implies !precedes(
            (#[trigger] front[j]).name,
            (#[trigger] front[i]).name,
        ) by {
            assert(front[j] == list[j] && front[i] == list[i]);
        }
        inserted_facts(front, repository);
        let shorter = inserted(front, repository);
        assert(result == shorter.push(list.last()));
        assert(front.push(list.last()) =~= list);
        assert(result.to_multiset() =~= list.to_multiset().insert(repository));
        assert forall|i: int, j: int| 0 <= i < j < result.len() implies !precedes(
            (#[trigger] result[j]).name,
            (#[trigger] result[i]).name,
        ) by {
            if j == shorter.len() {
                let item = shorter[i];
                if item == repository {
                    precedes_irreflexive(repository.name);
                    if precedes(list.last().name, repository.name) {
                        precedes_transitive(
                            repository.name,
                            list.last().name,
                            repository.name,
                        );
                    }
                } else {
                    let k = choose|k: int| 0 <= k < front.len() && front[k] == item;
                    assert(list[k] == item);
                    assert(list[list.len() - 1] == list.last());
                }
            } else {
                assert(result[i] == shorter[i] && result[j] == shorter[j]);
            }
        }
        assert forall|k: int| 0 <= k < result.len() implies ({
            let item = #[trigger] result[k];
            item == repository || exists|i: int| 0 <= i < list.len() && list[i] == item
        }) by {
            if k == shorter.len() {
                assert(list[list.len() - 1] == result[k]);
            } else {
                let item = shorter[k];
                assert(result[k] == item);
                if item != repository {
                    let i = choose|i: int| 0 <= i < front.len() && front[i] == item;
                    assert(list[i] == item);
                }
            }
        }
    } else {
        assert(result == list.push(repository));
        assert forall|i: int, j: int| 0 <= i < j < result.len() implies !precedes(
            (#[trigger] result[j]).name,
            (#[trigger] result[i]).name,
        ) by {
            if j == list.len() {
                assert(result[i] == list[i]);
                let last = list[list.len() - 1];
                if i < list.len() - 1 {
                    assert(!precedes(last.name, list[i].name));
                    not_before(list[i].name, last.name, repository.name);
                }
            } else {
                assert(result[i] == list[i] && result[j] == list[j]);
            }
        }
        assert forall|k: int| 0 <= k < result.len() implies ({
            let item = #[trigger] result[k];
            item == repository || exists|i: int| 0 <= i < list.len() && list[i] == item
        }) by {
            if k < list.len() {
                assert(list[k] == result[k]);
            }
        }
    }
}

/// Sorting puts the names in order, and neither adds nor loses a repository.
pub proof fn sorting_orders_the_list(list: Seq<RepositoryView>)
    ensures
        ordered(sorted(list)),
        sorted(list).to_multiset() == list.to_multiset(),
        sorted(list).len() == list.len(),
    decreases list.len(),
{
    broadcast use vstd::seq_lib::group_to_multiset_ensures;

    if list.len() == 0 {
        assert(sorted(list) =~= list);
    } else {
        sorting_orders_the_list(list.drop_last());
        inserted_facts(sorted(list.drop_last()), list.last());
        assert(list.drop_last().push(list.last()) =~= list);
    }
}

/// The repositories of a list that have a name.
pub open spec fn with_name(list: Seq<RepositoryView>, name: Seq<char>) -> Seq<RepositoryView>
    decreases list.len(),
{
    if list.len() == 0 {
        seq![]
    } else if list.last().name == name {
        with_name(list.drop_last(), name).push(list.last())
    } else {
        with_name(list.drop_last(), name)
    }
}

proof fn inserting_is_stable(
    list: Seq<RepositoryView>,
    repository: RepositoryView,
    name: Seq<char>,
)
    ensures
        with_name(inserted(list, repository), name) == with_name(list.push(repository), name),
    decreases list.len(),
{
    if list.len() > 0 && precedes(repository.name, list.last().name) {
        let front = list.drop_last();
        inserting_is_stable(front, repository, name);
        let result = inserted(front, repository).push(list.last());
        assert(result.drop_last() =~= inserted(front, repository));
        assert(list.push(repository).drop_last() =~= list);
        assert(front.push(repository).drop_last() =~= front);
        precedes_irreflexive(repository.name);
        reveal_with_fuel(with_name, 3);
    }
}

/// Sorting keeps the order of repositories with equal names.
pub proof fn sorting_is_stable(list: Seq<RepositoryView>, name: Seq<char>)
    ensures
        with_name(sorted(list), name) == with_name(list, name),
    decreases list.len(),
{
    if list.len() > 0 {
        let front = list.drop_last();
        sorting_is_stable(front, name);
        inserting_is_stable(sorted(front), list.last(), name);
        assert(sorted(front).push(list.last()).drop_last() =~= sorted(front));
    }
}

/// Sorting an ordered list changes nothing.
pub proof fn sorting_an_ordered_list(list: Seq<RepositoryView>)
    requires
        ordered(list),
    ensures
        sorted(list) == list,
    decreases list.len(),
{
    if list.len() > 0 {
        let front = list.drop_last();
        assert forall|i: int, j: int| 0 <= i < j < front.len() implies !precedes(
            (#[trigger] front[j]).name,
            (#[trigger] front[i]).name,
        ) by {
            assert(front[j] == list[j] && front[i] == list[i]);
        }
        sorting_an_ordered_list(front);
        if front.len() > 0 {
            assert(front.last() == list[list.len() - 2]);
            assert(list.last() == list[list.len() - 1]);
        }
        assert(front.push(list.last()) =~= list);
    } else {
        assert(sorted(list) =~= list);
    }
}

proof fn inserted_well_formed(list: Seq<RepositoryView>, repository: RepositoryView)
    requires
        well_formed(list.push(repository)),
    ensures
        well_formed(inserted(list, repository)),
        inserted(list, repository).len() == list.len() + 1,
        forall|k: int|
            0 <= k < inserted(list, repository).len() ==> list.push(repository).contains(
                #[trigger] inserted(list, repository)[k],
            ),
    decreases list.len(),
{
    let whole = list.push(repository);
    let result = inserted(list, repository);
    if list.len() > 0 && precedes(repository.name, list.last().name) {
        let front = list.drop_last();
        let part = front.push(repository);
        let last = list.last();
        assert(whole[list.len() - 1] == last);
        assert(whole[list.len() as int] == repository);
        assert(forall|i: int| 0 <= i < front.len() ==> part[i] == whole[i]);
        assert(part[front.len() as int] == repository);
        assert(well_formed(part)) by {
            assert forall|i: int| 0 <= i < part.len() implies repository_fault(
                #[trigger] part[i],
            ) is None by {
                if i < front.len() {
                    assert(whole[i] == part[i]);
                }
            }
            assert forall|i: int, j: int| 0 <= i < j < part.len() implies (
            #[trigger] part[i]).name != (#[trigger] part[j]).name && !same_path(
                part[i].path,
                part[j].path,
            ) by {
                assert(whole[i] == part[i]);
                if j < front.len() {
                    assert(whole[j] == part[j]);
                }
            }
        }
        inserted_well_formed(front, repository);
        let shorter = inserted(front, repository);
        assert forall|k: int| 0 <= k < shorter.len() implies shorter[k].name != last.name
            && !same_path(shorter[k].path, last.path) && whole.contains(#[trigger] shorter[k]) by {
            let i = choose|i: int| 0 <= i < part.len() && part[i] == shorter[k];
            if i < front.len() {
                assert(whole[i] == shorter[k]);
            } else {
                assert(whole[list.len() as int] == shorter[k]);
            }
        }
        assert forall|i: int| 0 <= i < result.len() implies repository_fault(
            #[trigger] result[i],
        ) is None by {
            if i < shorter.len() {
                assert(result[i] == shorter[i]);
            }
        }
        assert forall|i: int, j: int| 0 <= i < j < result.len() implies (#[trigger] result[i]).name
            != (#[trigger] result[j]).name && !same_path(result[i].path, result[j].path) by {
            assert(result[i] == shorter[i]);
            if j < shorter.len() {
                assert(result[j] == shorter[j]);
            }
        }
        assert forall|k: int| 0 <= k < result.len() implies whole.contains(
            #[trigger] result[k],
        ) by {
            if k < shorter.len() {
                assert(result[k] == shorter[k]);
            }
        }
    }
}

/// Sorting keeps every rule, and every repository of the sorted list is one of the list.
pub proof fn sorting_keeps_the_rules(list: Seq<RepositoryView>)
    requires
        well_formed(list),
    ensures
        well_formed(sorted(list)),
        forall|k: int| 0 <= k < sorted(list).len() ==> list.contains(#[trigger] sorted(list)[k]),
    decreases list.len(),
{
    if list.len() > 0 {
        let front = list.drop_last();
        assert(forall|i: int| 0 <= i < front.len() ==> front[i] == list[i]);
        assert(well_formed(front)) by {
            assert forall|i: int| 0 <= i < front.len() implies repository_fault(
                #[trigger] front[i],
            ) is None by {
                assert(front[i] == list[i]);
            }
            assert forall|i: int, j: int| 0 <= i < j < front.len() implies (
            #[trigger] front[i]).name != (#[trigger] front[j]).name && !same_path(
                front[i].path,
                front[j].path,
            ) by {
                assert(front[i] == list[i] && front[j] == list[j]);
            }
        }
        sorting_keeps_the_rules(front);
        let part = sorted(front);
        let whole = part.push(list.last());
        assert forall|k: int| 0 <= k < whole.len() implies list.contains(#[trigger] whole[k]) by {
            if k < part.len() {
                assert(whole[k] == part[k]);
                let i = choose|i: int| 0 <= i < front.len() && front[i] == part[k];
                assert(list[i] == whole[k]);
            } else {
                assert(list[list.len() - 1] == whole[k]);
            }
        }
        assert(well_formed(whole)) by {
            let n = list.len() - 1;
            assert forall|i: int| 0 <= i < whole.len() implies repository_fault(
                #[trigger] whole[i],
            ) is None by {
                if i < part.len() {
                    assert(whole[i] == part[i]);
                } else {
                    assert(list[n] == whole[i]);
                }
            }
            assert forall|i: int, j: int| 0 <= i < j < whole.len() implies (
            #[trigger] whole[i]).name != (#[trigger] whole[j]).name && !same_path(
                whole[i].path,
                whole[j].path,
            ) by {
                assert(whole[i] == part[i]);
                if j < part.len() {
                    assert(whole[j] == part[j]);
                } else {
                    let k = choose|k: int| 0 <= k < front.len() && front[k] == part[i];
                    assert(list[k] == whole[i] && list[n] == whole[j]);
                }
            }
        }
        inserted_well_formed(part, list.last());
        assert forall|k: int| 0 <= k < sorted(list).len() implies list.contains(
            #[trigger] sorted(list)[k],
        ) by {
            let i = choose|i: int| 0 <= i < whole.len() && whole[i] == sorted(list)[k];
            assert(list.contains(whole[i]));
        }
    }
}

// ---------------------------------------------------------------------------
// Reading back what was written
// ---------------------------------------------------------------------------

proof fn encoding_joins(a: Seq<char>, b: Seq<char>)
    ensures
        encode_utf8(a + b) == encode_utf8(a) + encode_utf8(b),
    decreases a.len(),
{
    if a.len() == 0 {
        assert(a + b =~= b);
    } else {
        encoding_joins(a.drop_first(), b);
        assert((a + b).drop_first() =~= a.drop_first() + b);
    }
}

proof fn plain_scalar(scalar: u32)
    requires
        scalar != 10,
        scalar != 13,
    ensures
        forall|i: int|
            0 <= i < encode_scalar(scalar).len() ==> (#[trigger] encode_scalar(scalar)[i]) != 10
                && encode_scalar(scalar)[i] != 13,
{
    assert(scalar <= 0x7f && scalar != 10 && scalar != 13 ==> (scalar & 0x7f) as u8 != 10 && (
    scalar & 0x7f) as u8 != 13) by (bit_vector);
    assert((0xc0u8 | ((scalar >> 6) & 0x1f) as u8) >= 0x80) by (bit_vector);
    assert((0xe0u8 | ((scalar >> 12) & 0x0f) as u8) >= 0x80) by (bit_vector);
    assert((0xf0u8 | ((scalar >> 18) & 0x07) as u8) >= 0x80) by (bit_vector);
    assert((0x80u8 | (scalar & 0x3f) as u8) >= 0x80) by (bit_vector);
    assert((0x80u8 | ((scalar >> 6) & 0x3f) as u8) >= 0x80) by (bit_vector);
    assert((0x80u8 | ((scalar >> 12) & 0x3f) as u8) >= 0x80) by (bit_vector);
}

/// Whether bytes hold neither a newline nor a carriage return.
spec fn on_one_line(bytes: Seq<u8>) -> bool {
    forall|i: int| 0 <= i < bytes.len() ==> (#[trigger] bytes[i]) != 10 && bytes[i] != 13
}

spec fn no_ends(s: Seq<char>) -> bool {
    forall|i: int| 0 <= i < s.len() ==> (#[trigger] s[i]) != '\n' && s[i] != '\r'
}

proof fn encoded_on_one_line(s: Seq<char>)
    requires
        no_ends(s),
    ensures
        on_one_line(encode_utf8(s)),
    decreases s.len(),
{
    if s.len() > 0 {
        let rest = s.drop_first();
        assert forall|i: int| 0 <= i < rest.len() implies (#[trigger] rest[i]) != '\n' && rest[i]
            != '\r' by {
            assert(rest[i] == s[i + 1]);
        }
        encoded_on_one_line(rest);
        let c = s[0];
        assert(c != '\n' && c != '\r');
        codes_differ(c, '\n');
        codes_differ(c, '\r');
        plain_scalar(c as u32);
    }
}

proof fn line_is_read(line: Seq<u8>, bytes: Seq<u8>, rest: Seq<u8>)
    requires
        on_one_line(line),
        on_one_line(bytes),
    ensures
        lines_after(line, bytes + seq![10u8] + rest, 10u8, 13u8) == seq![line + bytes]
            + lines_after(seq![], rest, 10u8, 13u8),
    decreases bytes.len(),
{
    let s = bytes + seq![10u8] + rest;
    if bytes.len() == 0 {
        assert(s[0] == 10);
        assert(s.skip(1) =~= rest);
        assert(line + bytes =~= line);
        if line.len() > 0 {
            assert(line[line.len() - 1] != 13);
        }
        assert(without_return(line, 13u8) == line);
    } else {
        let tail = bytes.skip(1);
        assert(s[0] == bytes[0]);
        assert(bytes[0] != 10 && bytes[0] != 13);
        assert(s.skip(1) =~= tail + seq![10u8] + rest);
        assert(on_one_line(line.push(bytes[0])));
        assert forall|i: int| 0 <= i < tail.len() implies (#[trigger] tail[i]) != 10 && tail[i]
            != 13 by {
            assert(tail[i] == bytes[i + 1]);
        }
        line_is_read(line.push(bytes[0]), tail, rest);
        assert(line.push(bytes[0]) + tail =~= line + bytes);
    }
}

/// The lines of a registry, encoded.
spec fn encoded_lines(list: Seq<RepositoryView>) -> Seq<Seq<u8>> {
    Seq::new(list.len(), |i: int| encode_utf8(entry_line(list[i])))
}

proof fn encoded_newline()
    ensures
        encode_utf8("\n"@) == seq![10u8],
{
    reveal_strlit("\n");
    assert("\n"@ =~= seq!['\n']);
    reveal_with_fuel(encode_utf8, 2);
    assert((10u32 & 0x7f) as u8 == 10u8) by (bit_vector);
    assert("\n"@.drop_first() =~= Seq::<char>::empty());
    assert(encode_utf8("\n"@) =~= seq![10u8]);
}

proof fn rendered_lines(list: Seq<RepositoryView>, rest: Seq<u8>)
    requires
        forall|i: int| 0 <= i < list.len() ==> no_ends(#[trigger] entry_line(list[i])),
    ensures
        lines_after(seq![], encode_utf8(rendered(list)) + rest, 10u8, 13u8) == encoded_lines(list)
            + lines_after(seq![], rest, 10u8, 13u8),
    decreases list.len(),
{
    if list.len() == 0 {
        assert(encode_utf8(rendered(list)) + rest =~= rest);
        assert(encoded_lines(list) + lines_after(seq![], rest, 10u8, 13u8) =~= lines_after(
            seq![],
            rest,
            10u8,
            13u8,
        ));
    } else {
        let front = list.drop_last();
        let line = entry_line(list.last());
        let bytes = encode_utf8(line);
        encoding_joins(rendered(front) + line, "\n"@);
        encoding_joins(rendered(front), line);
        encoded_newline();
        let more = bytes + seq![10u8] + rest;
        assert(encode_utf8(rendered(list)) + rest =~= encode_utf8(rendered(front)) + more);
        assert forall|i: int| 0 <= i < front.len() implies no_ends(
            #[trigger] entry_line(front[i]),
        ) by {
            assert(front[i] == list[i]);
            assert(no_ends(entry_line(list[i])));
        }
        rendered_lines(front, more);
        assert(no_ends(entry_line(list[list.len() - 1])));
        encoded_on_one_line(line);
        line_is_read(seq![], bytes, rest);
        assert(Seq::<u8>::empty() + bytes =~= bytes);
        assert(encoded_lines(list) =~= encoded_lines(front).push(bytes));
        assert(encoded_lines(front) + (seq![bytes] + lines_after(seq![], rest, 10u8, 13u8))
            =~= encoded_lines(list) + lines_after(seq![], rest, 10u8, 13u8));
    }
}

proof fn field_is_read(field: Seq<char>, s: Seq<char>, rest: Seq<char>)
    requires
        forall|i: int| 0 <= i < s.len() ==> s[i] != '\t',
    ensures
        fields_after(field, s + seq!['\t'] + rest, '\t') == seq![field + s] + fields_after(
            seq![],
            rest,
            '\t',
        ),
    decreases s.len(),
{
    let whole = s + seq!['\t'] + rest;
    if s.len() == 0 {
        assert(whole[0] == '\t');
        assert(whole.skip(1) =~= rest);
        assert(field + s =~= field);
    } else {
        let tail = s.skip(1);
        assert(whole[0] == s[0]);
        assert(whole.skip(1) =~= tail + seq!['\t'] + rest);
        assert forall|i: int| 0 <= i < tail.len() implies tail[i] != '\t' by {
            assert(tail[i] == s[i + 1]);
        }
        field_is_read(field.push(s[0]), tail, rest);
        assert(field.push(s[0]) + tail =~= field + s);
    }
}

proof fn last_field_is_read(field: Seq<char>, s: Seq<char>)
    requires
        forall|i: int| 0 <= i < s.len() ==> s[i] != '\t',
    ensures
        fields_after(field, s, '\t') == seq![field + s],
    decreases s.len(),
{
    if s.len() == 0 {
        assert(field + s =~= field);
    } else {
        let tail = s.skip(1);
        assert forall|i: int| 0 <= i < tail.len() implies tail[i] != '\t' by {
            assert(tail[i] == s[i + 1]);
        }
        last_field_is_read(field.push(s[0]), tail);
        assert(field.push(s[0]) + tail =~= field + s);
    }
}

proof fn words_are_plain(strategy: Strategy, value: bool)
    ensures
        !has_break(strategy_text(strategy)),
        !has_break(bool_text(value)),
        bool_text(value).len() > 0,
        !is_space(bool_text(value).last()),
        bool_named(bool_text(value)) == Some(value),
{
    reveal_strlit("rebase");
    reveal_strlit("merge");
    reveal_strlit("true");
    reveal_strlit("false");
    assert("true"@.len() != "false"@.len());
}

proof fn visible_end(s: Seq<char>)
    requires
        s.len() > 0,
        !is_space(s.last()),
    ensures
        trimmed(s).len() > 0,
{
    visible_after_front(s);
}

proof fn visible_after_front(s: Seq<char>)
    requires
        s.len() > 0,
        !is_space(s.last()),
    ensures
        trim_front(s).len() > 0,
        trim_front(s).last() == s.last(),
    decreases s.len(),
{
    if is_space(s[0]) {
        assert(s.len() > 1);
        assert(s.skip(1).last() == s.last());
        visible_after_front(s.skip(1));
    }
}

/// The line of a repository is read back as that repository. Its path has to be text.
pub proof fn entry_round_trip(repository: RepositoryView, number: nat)
    requires
        repository_fault(repository) is None,
        valid_utf8(repository.path),
    ensures
        parsed_entry(entry_line(repository), number) == Ok::<RepositoryView, FailureView>(
            repository,
        ),
        trimmed(entry_line(repository)).len() > 0,
{
    entry_facts(repository);
    let name = repository.name;
    let path = lossy_text(repository.path);
    let strategy = strategy_text(repository.strategy);
    let flag = bool_text(repository.submodules);
    reveal_strlit("\t");
    assert("\t"@ =~= seq!['\t']);
    let tab = seq!['\t'];
    words_are_plain(repository.strategy, repository.submodules);
    assert(forall|i: int| 0 <= i < name.len() ==> !is_break(#[trigger] name[i]));
    assert(forall|i: int| 0 <= i < path.len() ==> !is_break(#[trigger] path[i]));
    assert(forall|i: int| 0 <= i < strategy.len() ==> !is_break(#[trigger] strategy[i]));
    assert(forall|i: int| 0 <= i < flag.len() ==> !is_break(#[trigger] flag[i]));
    let empty = Seq::<char>::empty();
    assert(entry_line(repository) =~= name + tab + (path + tab + (strategy + tab + flag)));
    field_is_read(empty, name, path + tab + (strategy + tab + flag));
    field_is_read(empty, path, strategy + tab + flag);
    field_is_read(empty, strategy, flag);
    last_field_is_read(empty, flag);
    assert(empty + name =~= name && empty + path =~= path && empty + strategy =~= strategy && empty
        + flag =~= flag);
    assert(fields_of(entry_line(repository), '\t') =~= seq![name, path, strategy, flag]);
    strategy_round_trip(repository.strategy);
    decode_utf8_encode_utf8(repository.path);
}

proof fn entry_facts(repository: RepositoryView)
    requires
        repository_fault(repository) is None,
    ensures
        no_ends(entry_line(repository)),
        trimmed(entry_line(repository)).len() > 0,
{
    let line = entry_line(repository);
    let name = repository.name;
    let path = lossy_text(repository.path);
    let strategy = strategy_text(repository.strategy);
    let flag = bool_text(repository.submodules);
    words_are_plain(repository.strategy, repository.submodules);
    reveal_strlit("\t");
    assert(line.last() == flag.last());
    visible_end(line);
    assert forall|i: int| 0 <= i < line.len() implies (#[trigger] line[i]) != '\n' && line[i]
        != '\r' by {
        let a = name.len() as int;
        let b = a + 1 + path.len();
        let c = b + 1 + strategy.len();
        if i < a {
            assert(line[i] == name[i]);
            assert(!is_break(name[i]));
        } else if i == a {
            assert(line[i] == '\t');
        } else if i < b {
            assert(line[i] == path[i - a - 1]);
            assert(!is_break(path[i - a - 1]));
        } else if i == b {
            assert(line[i] == '\t');
        } else if i < c {
            assert(line[i] == strategy[i - b - 1]);
            assert(!is_break(strategy[i - b - 1]));
        } else if i == c {
            assert(line[i] == '\t');
        } else {
            assert(line[i] == flag[i - c - 1]);
            assert(!is_break(flag[i - c - 1]));
        }
    }
}

proof fn entries_are_read(list: Seq<RepositoryView>, from: int)
    requires
        0 <= from <= list.len(),
        forall|i: int|
            0 <= i < list.len() ==> repository_fault(#[trigger] list[i]) is None && valid_utf8(
                list[i].path,
            ),
    ensures
        parsed_lines(encoded_lines(list), from, list.take(from)) == Ok::<
            Seq<RepositoryView>,
            FailureView,
        >(list),
    decreases list.len() - from,
{
    if from < list.len() {
        let line = entry_line(list[from]);
        encode_utf8_valid_utf8(line);
        encode_utf8_decode_utf8(line);
        assert(encoded_lines(list)[from] == encode_utf8(line));
        entry_round_trip(list[from], (from + 1) as nat);
        assert(list.take(from).push(list[from]) =~= list.take(from + 1));
        entries_are_read(list, from + 1);
    } else {
        assert(list.take(from) =~= list);
    }
}

/// What is saved is read back: the same repositories, in the order of the names. Their paths
/// have to be text.
pub proof fn registry_round_trip(list: Seq<RepositoryView>, home: Option<Seq<u8>>)
    requires
        well_formed(list),
        forall|i: int| 0 <= i < list.len() ==> valid_utf8((#[trigger] list[i]).path),
    ensures
        loaded(encode_utf8(rendered(sorted(list))), home) == Ok::<
            Seq<RepositoryView>,
            FailureView,
        >(sorted(list)),
{
    let result = sorted(list);
    sorting_keeps_the_rules(list);
    assert forall|i: int| 0 <= i < result.len() implies valid_utf8((#[trigger] result[i]).path)
        && repository_fault(result[i]) is None && no_ends(entry_line(result[i])) by {
        let k = choose|k: int| 0 <= k < list.len() && list[k] == result[i];
        assert(valid_utf8(list[k].path));
        entry_facts(result[i]);
    }
    let bytes = encode_utf8(rendered(result));
    rendered_lines(result, seq![]);
    assert(bytes + Seq::<u8>::empty() =~= bytes);
    assert(byte_lines(bytes) =~= encoded_lines(result));
    entries_are_read(result, 0);
    assert(result.take(0) =~= Seq::<RepositoryView>::empty());
    accepted_means_well_formed(result, home);
}

proof fn lists_are_like_themselves(list: Seq<RepositoryView>)
    ensures
        same_list(list, list),
{
    assert forall|i: int| 0 <= i < list.len() implies same_repository(
        #[trigger] list[i],
        list[i],
    ) by {
        assert(same_path(list[i].path, list[i].path));
    }
}

/// What a repository is compared by: the name, the components of the path, and the settings.
pub open spec fn identity(repository: RepositoryView) -> (
    Seq<char>,
    Seq<Seq<u8>>,
    Strategy,
    bool,
) {
    (
        repository.name,
        components(repository.path),
        repository.strategy,
        repository.submodules,
    )
}

/// What the repositories of a list are compared by.
pub open spec fn identities(list: Seq<RepositoryView>) -> Seq<
    (Seq<char>, Seq<Seq<u8>>, Strategy, bool),
> {
    Seq::new(list.len(), |i: int| identity(list[i]))
}

/// Whether two lists hold the same repositories, each as often, in whatever order.
pub open spec fn permuted(a: Seq<RepositoryView>, b: Seq<RepositoryView>) -> bool {
    identities(a).to_multiset() == identities(b).to_multiset()
}

proof fn inserting_permutes(list: Seq<RepositoryView>, repository: RepositoryView)
    ensures
        identities(inserted(list, repository)).to_multiset() == identities(
            list,
        ).to_multiset().insert(identity(repository)),
    decreases list.len(),
{
    broadcast use vstd::seq_lib::group_to_multiset_ensures;

    if list.len() > 0 && precedes(repository.name, list.last().name) {
        let front = list.drop_last();
        inserting_permutes(front, repository);
        assert(identities(inserted(list, repository)) =~= identities(
            inserted(front, repository),
        ).push(identity(list.last())));
        assert(identities(list) =~= identities(front).push(identity(list.last())));
        assert(identities(front).to_multiset().insert(identity(repository)).insert(
            identity(list.last()),
        ) =~= identities(front).to_multiset().insert(identity(list.last())).insert(
            identity(repository),
        ));
    } else {
        assert(identities(list.push(repository)) =~= identities(list).push(identity(repository)));
    }
}

proof fn sorting_permutes(list: Seq<RepositoryView>)
    ensures
        permuted(sorted(list), list),
    decreases list.len(),
{
    broadcast use vstd::seq_lib::group_to_multiset_ensures;

    if list.len() == 0 {
        assert(sorted(list) =~= list);
    } else {
        let front = list.drop_last();
        sorting_permutes(front);
        inserting_permutes(sorted(front), list.last());
        assert(identities(list) =~= identities(front).push(identity(list.last())));
    }
}

/// Two ordered lists with the same repositories are alike, where no name occurs twice.
proof fn ordered_lists_agree(a: Seq<RepositoryView>, b: Seq<RepositoryView>)
    requires
        ordered(a),
        ordered(b),
        forall|i: int, j: int|
            0 <= i < j < a.len() ==> (#[trigger] a[i]).name != (#[trigger] a[j]).name,
        permuted(a, b),
    ensures
        identities(a) == identities(b),
    decreases a.len(),
{
    broadcast use vstd::seq_lib::group_to_multiset_ensures;

    let x = identities(a);
    let y = identities(b);
    assert(x.to_multiset().len() == a.len() && y.to_multiset().len() == b.len());
    if a.len() == 0 {
        assert(x =~= y);
    } else {
        let n = a.len() - 1;
        assert(x.contains(x[n]) && y.contains(y[n]));
        assert(y.contains(x[n])) by {
            assert(y.to_multiset().count(x[n]) > 0);
        }
        assert(x.contains(y[n])) by {
            assert(x.to_multiset().count(y[n]) > 0);
        }
        let j = choose|j: int| 0 <= j < x.len() && x[j] == y[n];
        let k = choose|k: int| 0 <= k < y.len() && y[k] == x[n];
        assert(a[j].name == b[n].name && b[k].name == a[n].name);
        if k < n {
            assert(!precedes(b[n].name, b[k].name));
        } else {
            precedes_irreflexive(b[n].name);
        }
        if j < n {
            assert(!precedes(a[n].name, a[j].name));
            precedes_total(a[n].name, b[n].name);
            assert(a[j].name != a[n].name);
        }
        assert(x[n] == y[n]);
        let front = a.drop_last();
        let other = b.drop_last();
        assert(identities(front) =~= x.drop_last());
        assert(identities(other) =~= y.drop_last());
        assert(x.drop_last().push(x[n]) =~= x);
        assert(y.drop_last().push(y[n]) =~= y);
        assert(x.drop_last().to_multiset() =~= x.to_multiset().remove(x[n]));
        assert(y.drop_last().to_multiset() =~= y.to_multiset().remove(y[n]));
        assert(forall|i: int| 0 <= i < front.len() ==> front[i] == a[i]);
        assert(forall|i: int| 0 <= i < other.len() ==> other[i] == b[i]);
        ordered_lists_agree(front, other);
        assert(x =~= y);
    }
}

/// A list that meets every rule and another are alike once sorted exactly where they hold the
/// same repositories, in whatever order.
pub proof fn unchanged_means_permuted(current: Seq<RepositoryView>, expected: Seq<RepositoryView>)
    requires
        well_formed(current),
    ensures
        same_list(sorted(current), sorted(expected)) <==> permuted(current, expected),
{
    let a = sorted(current);
    let b = sorted(expected);
    sorting_permutes(current);
    sorting_permutes(expected);
    if permuted(current, expected) {
        sorting_orders_the_list(current);
        sorting_orders_the_list(expected);
        sorting_keeps_the_rules(current);
        ordered_lists_agree(a, b);
        assert(identities(a).len() == identities(b).len());
        assert forall|i: int| 0 <= i < a.len() implies same_repository(#[trigger] a[i], b[i]) by {
            assert(identities(a)[i] == identities(b)[i]);
        }
    }
    if same_list(a, b) {
        assert(identities(a) =~= identities(b));
    }
}

/// What the registry file holds after a save: the new text, or what it held before where there
/// is nothing to write.
pub open spec fn contents_after(
    contents: Seq<u8>,
    result: Result<ReplacementView, FailureView>,
) -> Seq<u8> {
    match result {
        Ok(replacement) => encode_utf8(replacement.text),
        Err(_) => contents,
    }
}

/// A save over a snapshot. It is refused where the snapshot is not what the file holds, in
/// whatever order, and where the new list breaks a rule; the file then holds what it held.
/// Otherwise the file holds the new list in the order of the names. Its paths have to be text.
pub proof fn saves_rest_on_the_snapshot(
    path: Seq<u8>,
    contents: Seq<u8>,
    current: Seq<RepositoryView>,
    expected: Seq<RepositoryView>,
    list: Seq<RepositoryView>,
    home: Option<Seq<u8>>,
    process: nat,
    nonce: nat,
)
    requires
        loaded(contents, home) == Ok::<Seq<RepositoryView>, FailureView>(current),
    ensures
        ({
            let result = written_if_unchanged(
                path,
                Ok(contents),
                expected,
                list,
                home,
                process,
                nonce,
            );
            let after = loaded(contents_after(contents, result), home);
            &&& result is Ok <==> permuted(current, expected) && well_formed(list) && parent_of(
                path,
            ) is Some
            &&& !permuted(current, expected) ==> result == Err::<ReplacementView, FailureView>(
                plain("Registry changed in another process; reload and retry your change."@),
            )
            &&& result is Err ==> after == Ok::<Seq<RepositoryView>, FailureView>(current)
            &&& result is Ok && (forall|i: int|
                0 <= i < list.len() ==> valid_utf8((#[trigger] list[i]).path)) ==> after == Ok::<
                Seq<RepositoryView>,
                FailureView,
            >(sorted(list))
        }),
{
    only_well_formed_lists_are_read(contents, home);
    unchanged_means_permuted(current, expected);
    accepted_means_well_formed(list, home);
    if well_formed(list) && (forall|i: int|
        0 <= i < list.len() ==> valid_utf8((#[trigger] list[i]).path)) {
        registry_round_trip(list, home);
    }
}

/// What two saves over one snapshot give, one after the other, and what the registry file holds
/// after them.
pub open spec fn saved_twice(
    path: Seq<u8>,
    contents: Seq<u8>,
    snapshot: Seq<RepositoryView>,
    first: Seq<RepositoryView>,
    second: Seq<RepositoryView>,
    home: Option<Seq<u8>>,
    names: (nat, nat, nat, nat),
) -> (Result<ReplacementView, FailureView>, Result<ReplacementView, FailureView>, Seq<u8>) {
    let one = written_if_unchanged(path, Ok(contents), snapshot, first, home, names.0, names.1);
    let between = contents_after(contents, one);
    let two = written_if_unchanged(path, Ok(between), snapshot, second, home, names.2, names.3);
    (one, two, contents_after(between, two))
}

proof fn the_second_save_is_refused(
    path: Seq<u8>,
    contents: Seq<u8>,
    snapshot: Seq<RepositoryView>,
    first: Seq<RepositoryView>,
    second: Seq<RepositoryView>,
    home: Option<Seq<u8>>,
    names: (nat, nat, nat, nat),
)
    requires
        loaded(contents, home) matches Ok(current) && permuted(current, snapshot),
        parent_of(path) is Some,
        well_formed(first),
        forall|i: int| 0 <= i < first.len() ==> valid_utf8((#[trigger] first[i]).path),
        !permuted(first, snapshot),
    ensures
        ({
            let (one, two, after) = saved_twice(
                path,
                contents,
                snapshot,
                first,
                second,
                home,
                names,
            );
            &&& one is Ok
            &&& two == Err::<ReplacementView, FailureView>(
                plain("Registry changed in another process; reload and retry your change."@),
            )
            &&& loaded(after, home) == Ok::<Seq<RepositoryView>, FailureView>(sorted(first))
        }),
{
    let current = loaded(contents, home)->Ok_0;
    let one = written_if_unchanged(path, Ok(contents), snapshot, first, home, names.0, names.1);
    let between = contents_after(contents, one);
    saves_rest_on_the_snapshot(
        path,
        contents,
        current,
        snapshot,
        first,
        home,
        names.0,
        names.1,
    );
    sorting_permutes(first);
    saves_rest_on_the_snapshot(
        path,
        between,
        sorted(first),
        snapshot,
        second,
        home,
        names.2,
        names.3,
    );
}

/// Of two saves that change the same snapshot, in whichever order they come, the first is
/// written and the second is refused, and the file holds the list of the first. The paths have
/// to be text.
pub proof fn one_of_two_saves_is_written(
    path: Seq<u8>,
    contents: Seq<u8>,
    snapshot: Seq<RepositoryView>,
    a: Seq<RepositoryView>,
    b: Seq<RepositoryView>,
    home: Option<Seq<u8>>,
    names: (nat, nat, nat, nat),
)
    requires
        loaded(contents, home) matches Ok(current) && permuted(current, snapshot),
        parent_of(path) is Some,
        well_formed(a),
        well_formed(b),
        forall|i: int| 0 <= i < a.len() ==> valid_utf8((#[trigger] a[i]).path),
        forall|i: int| 0 <= i < b.len() ==> valid_utf8((#[trigger] b[i]).path),
        !permuted(a, snapshot),
        !permuted(b, snapshot),
    ensures
        ({
            let changed = Err::<ReplacementView, FailureView>(
                plain("Registry changed in another process; reload and retry your change."@),
            );
            let (one, two, after) = saved_twice(path, contents, snapshot, a, b, home, names);
            let (other_one, other_two, other_after) = saved_twice(
                path,
                contents,
                snapshot,
                b,
                a,
                home,
                names,
            );
            &&& one is Ok && two == changed
            &&& loaded(after, home) == Ok::<Seq<RepositoryView>, FailureView>(sorted(a))
            &&& other_one is Ok && other_two == changed
            &&& loaded(other_after, home) == Ok::<Seq<RepositoryView>, FailureView>(sorted(b))
        }),
{
    the_second_save_is_refused(path, contents, snapshot, a, b, home, names);
    the_second_save_is_refused(path, contents, snapshot, b, a, home, names);
}

/// A change that rests on what was saved last is written.
pub proof fn current_snapshot_is_accepted(
    path: Seq<u8>,
    snapshot: Seq<RepositoryView>,
    list: Seq<RepositoryView>,
    home: Option<Seq<u8>>,
    process: nat,
    nonce: nat,
)
    requires
        well_formed(snapshot),
        forall|i: int| 0 <= i < snapshot.len() ==> valid_utf8((#[trigger] snapshot[i]).path),
    ensures
        written_if_unchanged(
            path,
            Ok(encode_utf8(rendered(sorted(snapshot)))),
            snapshot,
            list,
            home,
            process,
            nonce,
        ) == written(path, list, home, process, nonce),
{
    registry_round_trip(snapshot, home);
    sorting_orders_the_list(snapshot);
    sorting_an_ordered_list(sorted(snapshot));
    lists_are_like_themselves(sorted(snapshot));
}

/// A change that rests on other repositories than those saved last is refused, and nothing is
/// written.
pub proof fn stale_snapshot_is_refused(
    path: Seq<u8>,
    saved: Seq<RepositoryView>,
    snapshot: Seq<RepositoryView>,
    list: Seq<RepositoryView>,
    home: Option<Seq<u8>>,
    process: nat,
    nonce: nat,
)
    requires
        well_formed(saved),
        forall|i: int| 0 <= i < saved.len() ==> valid_utf8((#[trigger] saved[i]).path),
        !permuted(saved, snapshot),
    ensures
        written_if_unchanged(
            path,
            Ok(encode_utf8(rendered(sorted(saved)))),
            snapshot,
            list,
            home,
            process,
            nonce,
        ) == Err::<ReplacementView, FailureView>(
            plain("Registry changed in another process; reload and retry your change."@),
        ),
{
    registry_round_trip(saved, home);
    sorting_orders_the_list(saved);
    sorting_an_ordered_list(sorted(saved));
    unchanged_means_permuted(saved, snapshot);
}

/// What is written always meets every rule.
pub proof fn only_well_formed_lists_are_written(
    path: Seq<u8>,
    list: Seq<RepositoryView>,
    home: Option<Seq<u8>>,
    process: nat,
    nonce: nat,
)
    ensures
        written(path, list, home, process, nonce) is Ok ==> well_formed(list),
        written(path, list, home, process, nonce) matches Ok(replacement) ==> replacement.text
            == rendered(sorted(list)),
{
    accepted_means_well_formed(list, home);
}

/// What is read always meets every rule.
pub proof fn only_well_formed_lists_are_read(contents: Seq<u8>, home: Option<Seq<u8>>)
    ensures
        loaded(contents, home) matches Ok(list) ==> well_formed(list),
{
    if let Ok(list) = parsed_lines(byte_lines(contents), 0, seq![]) {
        accepted_means_well_formed(list, home);
    }
}

// ---------------------------------------------------------------------------
// Words
// ---------------------------------------------------------------------------

/// Whether a text can stand in a field of a line.
pub open spec fn fits_a_field(s: Seq<char>) -> bool {
    !s.contains('\t') && !s.contains('\n') && !s.contains('\r')
}

proof fn breaks_are_these(s: Seq<char>)
    ensures
        has_break(s) <==> !fits_a_field(s),
{
    if has_break(s) {
        let i = choose|i: int| 0 <= i < s.len() && is_break(#[trigger] s[i]);
        assert(s.contains(s[i]));
    }
    if s.contains('\t') {
        let i = choose|i: int| 0 <= i < s.len() && s[i] == '\t';
        assert(is_break(s[i]));
    }
    if s.contains('\n') {
        let i = choose|i: int| 0 <= i < s.len() && s[i] == '\n';
        assert(is_break(s[i]));
    }
    if s.contains('\r') {
        let i = choose|i: int| 0 <= i < s.len() && s[i] == '\r';
        assert(is_break(s[i]));
    }
}

/// A repository can be written down where it has a name, and neither the name nor the path, as
/// text, holds a tab or an end of line. Anything else is refused by what is wrong.
pub proof fn entries_fit_a_line(repository: RepositoryView)
    ensures
        repository_fault(repository) == if repository.name.len() == 0 {
            Some("repository name cannot be empty"@)
        } else if !fits_a_field(repository.name) {
            Some("repository name cannot contain tabs or newlines"@)
        } else if !fits_a_field(lossy_text(repository.path)) {
            Some("repository path cannot contain tabs or newlines"@)
        } else {
            None
        },
{
    breaks_are_these(repository.name);
    breaks_are_these(lossy_text(repository.path));
}

/// The fields of the line for a repository: name, path, strategy and whether there are
/// submodules, each by its word.
pub open spec fn line_fields(repository: RepositoryView) -> Seq<Seq<char>> {
    seq![
        repository.name,
        lossy_text(repository.path),
        match repository.strategy {
            Strategy::Rebase => "rebase"@,
            Strategy::Merge => "merge"@,
        },
        if repository.submodules {
            "true"@
        } else {
            "false"@
        },
    ]
}

proof fn words_have_no_tab()
    ensures
        !"rebase"@.contains('\t'),
        !"merge"@.contains('\t'),
        !"true"@.contains('\t'),
        !"false"@.contains('\t'),
        "\t"@ == seq!['\t'],
        "\n"@ == seq!['\n'],
{
    reveal_strlit("rebase");
    reveal_strlit("merge");
    reveal_strlit("true");
    reveal_strlit("false");
    reveal_strlit("\t");
    reveal_strlit("\n");
    assert("\t"@ =~= seq!['\t']);
    assert("\n"@ =~= seq!['\n']);
}

/// A line has the fields of its repository with tabs between them, and such fields are read as
/// that repository. Other words for a strategy or for submodules, or another number of fields,
/// are refused by the number of the line.
pub proof fn lines_have_four_fields(repository: RepositoryView, number: nat)
    requires
        fits_a_field(repository.name),
        fits_a_field(lossy_text(repository.path)),
    ensures
        entry_line(repository) == joined(line_fields(repository), seq!['\t']),
        fields_of(entry_line(repository), '\t') == line_fields(repository),
        parsed_entry(joined(line_fields(repository), seq!['\t']), number) == Ok::<
            RepositoryView,
            FailureView,
        >(
            RepositoryView {
                path: encode_utf8(lossy_text(repository.path)),
                ..repository
            },
        ),
{
    words_have_no_tab();
    strategy_round_trip(repository.strategy);
    let fields = line_fields(repository);
    assert(joined(fields, seq!['\t']) == entry_line(repository)) by {
        reveal_with_fuel(joined, 4);
        assert(fields.drop_last() =~= seq![fields[0], fields[1], fields[2]]);
        assert(fields.drop_last().drop_last() =~= seq![fields[0], fields[1]]);
        assert(fields.drop_last().drop_last().drop_last() =~= seq![fields[0]]);
        assert(joined(fields, seq!['\t']) =~= entry_line(repository));
    }
    assert forall|i: int| 0 <= i < fields.len() implies !(#[trigger] fields[i]).contains(
        '\t',
    ) by {}
    joined_fields_are_found(fields, '\t');
    reveal_strlit("true");
    reveal_strlit("false");
    assert("true"@.len() != "false"@.len());
}

/// A line that is not that of a repository is refused with the number of the line.
pub proof fn other_lines_are_refused(line: Seq<char>, number: nat)
    ensures
        ({
            let fields = fields_of(line, '\t');
            let entry = parsed_entry(line, number);
            &&& fields.len() != 4 ==> entry == Err::<RepositoryView, FailureView>(
                plain(
                    "invalid config line "@ + decimal(number)
                        + ": expected 4 tab-separated fields"@,
                ),
            )
            &&& fields.len() == 4 && fields[2] != "rebase"@ && fields[2] != "merge"@ ==> entry
                == Err::<RepositoryView, FailureView>(
                FailureView {
                    message: "invalid strategy on config line "@ + decimal(number),
                    cause: Some("strategy must be rebase or merge"@),
                },
            )
            &&& fields.len() == 4 && (fields[2] == "rebase"@ || fields[2] == "merge"@) && fields[3]
                != "true"@ && fields[3] != "false"@ ==> entry == Err::<
                RepositoryView,
                FailureView,
            >(plain("invalid submodules value on config line "@ + decimal(number)))
        }),
{
}

/// The file has one line for each repository, in the order of the list, each with its end. It is
/// written to a file of its own beside it first.
pub proof fn files_have_a_line_for_each(
    path: Seq<u8>,
    directory: Seq<u8>,
    list: Seq<RepositoryView>,
    last: RepositoryView,
    home: Option<Seq<u8>>,
    process: nat,
    nonce: nat,
)
    requires
        parent_of(path) == Some(directory),
        well_formed(list),
    ensures
        rendered(seq![]).len() == 0,
        rendered(list.push(last)) == rendered(list) + joined(line_fields(last), seq!['\t']) + seq![
            '\n',
        ] || !fits_a_field(last.name) || !fits_a_field(lossy_text(last.path)),
        written(path, list, home, process, nonce) == Ok::<ReplacementView, FailureView>(
            ReplacementView {
                temporary: joined_path(
                    directory,
                    encode_utf8(
                        "repos."@ + decimal(process) + "."@ + decimal(nonce) + ".tmp"@,
                    ),
                ),
                text: rendered(sorted(list)),
            },
        ),
{
    words_have_no_tab();
    accepted_means_well_formed(list, home);
    assert(list.push(last).drop_last() =~= list);
    if fits_a_field(last.name) && fits_a_field(lossy_text(last.path)) {
        lines_have_four_fields(last, 0);
    }
}

/// A line of blanks is passed over.
pub proof fn blank_lines_are_passed_over(
    lines: Seq<Seq<u8>>,
    at: int,
    found: Seq<RepositoryView>,
)
    requires
        0 <= at < lines.len(),
        valid_utf8(lines[at]),
        forall|i: int|
            0 <= i < decode_utf8(lines[at]).len() ==> {
                let c = #[trigger] decode_utf8(lines[at])[i];
                c == ' ' || c == '\t'
            },
    ensures
        parsed_lines(lines, at, found) == parsed_lines(lines, at + 1, found),
{
    blanks_are_trimmed(decode_utf8(lines[at]));
}

/// A file that cannot be read is told by its name and what was wrong.
pub proof fn unreadable_files_are_told(
    path: Seq<u8>,
    failure: FailureView,
    contents: Seq<u8>,
    home: Option<Seq<u8>>,
)
    ensures
        loaded_from(path, Ok(contents), home) == loaded(contents, home),
        loaded_from(path, Err(failure), home) matches Err(told) && told.message
            == "cannot read config file: "@ + displayed(path, home) && told.cause == Some(
            failure.full_text(),
        ),
{
}

/// A file without a directory is not written.
pub proof fn files_need_a_directory(
    path: Seq<u8>,
    list: Seq<RepositoryView>,
    home: Option<Seq<u8>>,
    process: nat,
    nonce: nat,
)
    requires
        parent_of(path) is None,
        well_formed(list),
    ensures
        written(path, list, home, process, nonce) == Err::<ReplacementView, FailureView>(
            plain("config file has no parent directory"@),
        ),
{
    accepted_means_well_formed(list, home);
}

} // verus!
