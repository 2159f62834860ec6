//! What holds of texts: what is written is read back, and what is cut off is blank.
use crate::config::byte_lines;
use crate::failure::{plain, FailureView};
use crate::text::{
    after_colon, at_most, decimal, digit_char, digits_value, fields_after, fields_of, is_digit,
    is_space, joined, lines_after, lines_of, lower, padded, parsed_number, precedes,
    same_but_case, summarized, trim_back,
    trim_front, trimmed, words_after, words_of, NumberError,
};
use vstd::prelude::*;

verus! {

proof fn digits_go_on(value: nat, s: Seq<char>, digit: nat, max: nat)
    requires
        digit < 10,
        digits_value(value, s, max) is Ok,
        digits_value(value, s, max)->Ok_0 * 10 + digit <= max,
    ensures
        digits_value(value, s.push(digit_char(digit)), max) == Ok::<nat, NumberError>(
            digits_value(value, s, max)->Ok_0 * 10 + digit,
        ),
    decreases s.len(),
{
    let c = digit_char(digit);
    let more = s.push(c);
    assert(c as u32 == '0' as u32 + digit);
    if s.len() == 0 {
        assert(more.skip(1) =~= Seq::<char>::empty());
        assert(more[0] == c);
        reveal_with_fuel(digits_value, 2);
    } else {
        let next = value * 10 + (s[0] as u32 - '0' as u32) as nat;
        assert(more.skip(1) =~= s.skip(1).push(c));
        assert(more[0] == s[0]);
        digits_go_on(next, s.skip(1), digit, max);
    }
}

/// A number that was written in decimal is read back, up to the greatest number allowed.
pub proof fn numbers_are_read_back(number: nat, max: nat)
    ensures
        number <= max ==> parsed_number(decimal(number), max) == Ok::<nat, NumberError>(number),
        decimal(number).len() > 0,
        is_digit(decimal(number)[0]),
{
    if number <= max {
        decimal_value(number, max);
    }
    decimal_starts_with_a_digit(number);
}

proof fn decimal_starts_with_a_digit(number: nat)
    ensures
        decimal(number).len() > 0,
        is_digit(decimal(number)[0]),
        decimal(number)[0] != '+',
    decreases number,
{
    if number >= 10 {
        decimal_starts_with_a_digit(number / 10);
    } else {
        assert(digit_char(number) as u32 == '0' as u32 + number);
    }
}

proof fn decimal_value(number: nat, max: nat)
    requires
        number <= max,
    ensures
        digits_value(0, decimal(number), max) == Ok::<nat, NumberError>(number),
        parsed_number(decimal(number), max) == Ok::<nat, NumberError>(number),
    decreases number,
{
    decimal_starts_with_a_digit(number);
    if number < 10 {
        let c = digit_char(number);
        assert(c as u32 == '0' as u32 + number);
        assert(decimal(number).skip(1) =~= Seq::<char>::empty());
        reveal_with_fuel(digits_value, 2);
    } else {
        decimal_value(number / 10, max);
        digits_go_on(0, decimal(number / 10), number % 10, max);
    }
}

/// Whether all characters of a text are blanks.
pub open spec fn blank(s: Seq<char>) -> bool {
    forall|i: int| 0 <= i < s.len() ==> is_space(#[trigger] s[i])
}

proof fn front_is_blank(s: Seq<char>)
    ensures
        trim_front(s).len() <= s.len(),
        trim_front(s) == s.skip(s.len() - trim_front(s).len()),
        blank(s.take(s.len() - trim_front(s).len())),
        trim_front(s).len() > 0 ==> !is_space(trim_front(s)[0]),
    decreases s.len(),
{
    if s.len() > 0 && is_space(s[0]) {
        let rest = s.skip(1);
        front_is_blank(rest);
        let cut = s.len() - trim_front(s).len();
        assert(rest.skip(cut - 1) =~= s.skip(cut));
        assert forall|i: int| 0 <= i < cut implies is_space(#[trigger] s.take(cut)[i]) by {
            if i > 0 {
                assert(rest.take(cut - 1)[i - 1] == s[i]);
            }
        }
    } else {
        assert(s.skip(0) =~= s);
        assert(s.take(0).len() == 0);
    }
}

proof fn back_is_blank(s: Seq<char>)
    ensures
        trim_back(s).len() <= s.len(),
        trim_back(s) == s.take(trim_back(s).len() as int),
        blank(s.skip(trim_back(s).len() as int)),
        trim_back(s).len() > 0 ==> !is_space(trim_back(s).last()),
    decreases s.len(),
{
    if s.len() > 0 && is_space(s.last()) {
        let rest = s.drop_last();
        back_is_blank(rest);
        let end = trim_back(s).len() as int;
        assert(rest.take(end) =~= s.take(end));
        assert forall|i: int| 0 <= i < s.skip(end).len() implies is_space(
            #[trigger] s.skip(end)[i],
        ) by {
            if end + i < rest.len() {
                assert(rest.skip(end)[i] == s[end + i]);
            }
        }
    } else {
        assert(s.take(s.len() as int) =~= s);
    }
}

/// Trimming takes blanks from both ends, all of them, and nothing else.
pub proof fn trimming_takes_outer_blanks(s: Seq<char>)
    ensures
        exists|front: Seq<char>, back: Seq<char>|
            blank(front) && blank(back) && s == #[trigger] (front + trimmed(s) + back),
        trimmed(s).len() > 0 ==> !is_space(trimmed(s)[0]) && !is_space(trimmed(s).last()),
{
    let rest = trim_front(s);
    front_is_blank(s);
    back_is_blank(rest);
    let front = s.take(s.len() - rest.len());
    let back = rest.skip(trimmed(s).len() as int);
    assert(rest =~= trimmed(s) + back);
    assert(s =~= front + rest);
    assert(s =~= front + trimmed(s) + back);
    if trimmed(s).len() > 0 {
        assert(trimmed(s)[0] == rest[0]);
    }
}

/// A padded text begins with the text, and blanks fill it up to its width.
pub proof fn padding_fills_up(s: Seq<char>, width: nat)
    ensures
        padded(s, width).take(s.len() as int) == s,
        padded(s, width).len() == if s.len() < width {
            width
        } else {
            s.len()
        },
        forall|i: int|
            s.len() <= i < padded(s, width).len() ==> #[trigger] padded(s, width)[i] == ' ',
{
    assert(padded(s, width).take(s.len() as int) =~= s);
}

proof fn fields_behind(field: Seq<char>, part: Seq<char>, rest: Seq<char>, separator: char)
    requires
        !part.contains(separator),
    ensures
        fields_after(field, part, separator) == seq![field + part],
        fields_after(field, part + seq![separator] + rest, separator) == seq![field + part]
            + fields_after(seq![], rest, separator),
    decreases part.len(),
{
    let whole = part + seq![separator] + rest;
    if part.len() == 0 {
        assert(field + part =~= field);
        assert(whole.skip(1) =~= rest);
        assert(whole[0] == separator);
    } else {
        let shorter = part.skip(1);
        assert(part.contains(part[0]));
        assert(whole[0] == part[0]);
        assert(!shorter.contains(separator)) by {
            if shorter.contains(separator) {
                let i = choose|i: int| 0 <= i < shorter.len() && shorter[i] == separator;
                assert(part[i + 1] == separator);
            }
        }
        fields_behind(field.push(part[0]), shorter, rest, separator);
        assert(field.push(part[0]) + shorter =~= field + part);
        assert(whole.skip(1) =~= shorter + seq![separator] + rest);
    }
}

proof fn joined_from_the_front(parts: Seq<Seq<char>>, separator: Seq<char>)
    requires
        parts.len() > 1,
    ensures
        joined(parts, separator) == parts[0] + separator + joined(parts.skip(1), separator),
    decreases parts.len(),
{
    reveal_with_fuel(joined, 2);
    if parts.len() == 2 {
        assert(parts.drop_last() =~= seq![parts[0]]);
        assert(parts.skip(1) =~= seq![parts[1]]);
    } else {
        let front = parts.drop_last();
        joined_from_the_front(front, separator);
        assert(parts.skip(1).drop_last() =~= front.skip(1));
        assert(parts.skip(1).last() == parts.last());
        let middle = joined(front.skip(1), separator);
        assert(parts[0] + separator + middle + separator + parts.last() =~= parts[0] + separator + (
        middle + separator + parts.last()));
    }
}

/// Texts that are joined by a character that none of them has are found again as the fields
/// between it.
pub proof fn joined_fields_are_found(parts: Seq<Seq<char>>, separator: char)
    requires
        parts.len() > 0,
        forall|i: int| 0 <= i < parts.len() ==> !(#[trigger] parts[i]).contains(separator),
    ensures
        fields_of(joined(parts, seq![separator]), separator) == parts,
    decreases parts.len(),
{
    let none = Seq::<char>::empty();
    if parts.len() == 1 {
        fields_behind(none, parts[0], none, separator);
        assert(none + parts[0] =~= parts[0]);
        assert(parts =~= seq![parts[0]]);
    } else {
        let rest = parts.skip(1);
        assert(forall|i: int| 0 <= i < rest.len() ==> rest[i] == #[trigger] parts[i + 1]);
        assert forall|i: int| 0 <= i < rest.len() implies !(#[trigger] rest[i]).contains(
            separator,
        ) by {
            assert(!parts[i + 1].contains(separator));
        }
        joined_fields_are_found(rest, separator);
        joined_from_the_front(parts, seq![separator]);
        fields_behind(none, parts[0], joined(rest, seq![separator]), separator);
        assert(none + parts[0] =~= parts[0]);
        assert(seq![parts[0]] + rest =~= parts);
    }
}

proof fn words_are_whole(word: Seq<char>, s: Seq<char>)
    requires
        forall|i: int| 0 <= i < word.len() ==> !is_space(#[trigger] word[i]),
    ensures
        forall|k: int|
            0 <= k < words_after(word, s).len() ==> is_word(#[trigger] words_after(word, s)[k]),
    decreases s.len(),
{
    if s.len() > 0 {
        if is_space(s[0]) {
            words_are_whole(seq![], s.skip(1));
            let rest = words_after(seq![], s.skip(1));
            let all = words_after(word, s);
            assert forall|k: int| 0 <= k < all.len() implies is_word(#[trigger] all[k]) by {
                if word.len() == 0 {
                    assert(all[k] == rest[k]);
                } else if k > 0 {
                    assert(all[k] == rest[k - 1]);
                } else {
                    assert(all[k] == word);
                }
            }
        } else {
            words_are_whole(word.push(s[0]), s.skip(1));
            assert(words_after(word, s) == words_after(word.push(s[0]), s.skip(1)));
        }
    } else if word.len() > 0 {
        assert(words_after(word, s)[0] == word);
    }
}

/// Whether a text is a word: not empty and without blanks.
pub open spec fn is_word(s: Seq<char>) -> bool {
    s.len() > 0 && forall|i: int| 0 <= i < s.len() ==> !is_space(#[trigger] s[i])
}

proof fn words_behind(word: Seq<char>, part: Seq<char>, rest: Seq<char>)
    requires
        forall|i: int| 0 <= i < part.len() ==> !is_space(#[trigger] part[i]),
        word.len() + part.len() > 0,
    ensures
        words_after(word, part) == seq![word + part],
        words_after(word, part + seq![' '] + rest) == seq![word + part] + words_after(
            seq![],
            rest,
        ),
    decreases part.len(),
{
    let whole = part + seq![' '] + rest;
    if part.len() == 0 {
        assert(word + part =~= word);
        assert(whole.skip(1) =~= rest);
        assert(whole[0] == ' ');
        assert(is_space(' '));
    } else {
        let shorter = part.skip(1);
        assert(whole[0] == part[0]);
        assert forall|i: int| 0 <= i < shorter.len() implies !is_space(#[trigger] shorter[i]) by {
            assert(!is_space(part[i + 1]));
        }
        words_behind(word.push(part[0]), shorter, rest);
        assert(word.push(part[0]) + shorter =~= word + part);
        assert(whole.skip(1) =~= shorter + seq![' '] + rest);
    }
}

/// Words that are joined by blanks are found again.
pub proof fn joined_words_are_found(words: Seq<Seq<char>>)
    requires
        forall|i: int| 0 <= i < words.len() ==> is_word(#[trigger] words[i]),
    ensures
        words_of(joined(words, seq![' '])) == words,
    decreases words.len(),
{
    let none = Seq::<char>::empty();
    if words.len() == 0 {
        assert(words_of(joined(words, seq![' '])) =~= words);
    } else if words.len() == 1 {
        assert(is_word(words[0]));
        words_behind(none, words[0], none);
        assert(none + words[0] =~= words[0]);
        assert(words =~= seq![words[0]]);
    } else {
        let rest = words.skip(1);
        assert forall|i: int| 0 <= i < rest.len() implies is_word(#[trigger] rest[i]) by {
            assert(is_word(words[i + 1]));
        }
        assert(is_word(words[0]));
        joined_words_are_found(rest);
        joined_from_the_front(words, seq![' ']);
        words_behind(none, words[0], joined(rest, seq![' ']));
        assert(none + words[0] =~= words[0]);
        assert(seq![words[0]] + rest =~= words);
    }
}

proof fn one_line(line: Seq<char>, s: Seq<char>)
    requires
        !s.contains('\n'),
    ensures
        lines_after(line, s, '\n', '\r') == if line.len() + s.len() == 0 {
            Seq::<Seq<char>>::empty()
        } else {
            seq![line + s]
        },
    decreases s.len(),
{
    if s.len() == 0 {
        assert(line + s =~= line);
    } else {
        assert(s.contains(s[0]));
        assert(!s.skip(1).contains('\n')) by {
            if s.skip(1).contains('\n') {
                let i = choose|i: int| 0 <= i < s.skip(1).len() && s.skip(1)[i] == '\n';
                assert(s[i + 1] == '\n');
            }
        }
        one_line(line.push(s[0]), s.skip(1));
        assert(line.push(s[0]) + s.skip(1) =~= line + s);
    }
}

/// A summary is made of whole words with one blank between them. That of a single line has all
/// of its words.
pub proof fn summaries_are_words(s: Seq<char>)
    ensures
        exists|words: Seq<Seq<char>>|
            summarized(s) == #[trigger] joined(words, seq![' ']) && (forall|k: int|
                0 <= k < words.len() ==> is_word(#[trigger] words[k])),
        !s.contains('\n') ==> words_of(summarized(s)) == words_of(s),
{
    let none = Seq::<char>::empty();
    let text = joined(at_most(lines_of(s), 3), seq![' ']);
    words_are_whole(none, text);
    let words = words_of(text);
    assert(summarized(s) == joined(words, seq![' ']));
    joined_words_are_found(words);
    if !s.contains('\n') {
        one_line(none, s);
        assert(none + s =~= s);
        if s.len() == 0 {
            assert(text =~= s);
        } else {
            assert(lines_of(s) =~= seq![s]);
            assert(text =~= s);
        }
    }
}

proof fn colon_behind(whole: Seq<char>, label: Seq<char>, rest: Seq<char>)
    requires
        forall|i: int| 0 <= i < label.len() ==> #[trigger] label[i] != ':',
    ensures
        after_colon(whole, label + seq![':', ' '] + rest) == rest,
    decreases label.len(),
{
    let s = label + seq![':', ' '] + rest;
    if label.len() == 0 {
        assert(s[0] == ':' && s[1] == ' ');
        assert(s.skip(2) =~= rest);
    } else {
        let shorter = label.skip(1);
        assert(s[0] == label[0]);
        assert forall|i: int| 0 <= i < shorter.len() implies #[trigger] shorter[i] != ':' by {
            assert(label[i + 1] != ':');
        }
        assert(s.skip(1) =~= shorter + seq![':', ' '] + rest);
        colon_behind(whole, shorter, rest);
    }
}

/// What stands behind the first colon and blank of a text is found.
pub proof fn labels_are_cut_off(label: Seq<char>, rest: Seq<char>)
    requires
        forall|i: int| 0 <= i < label.len() ==> #[trigger] label[i] != ':',
    ensures
        ({
            let s = label + seq![':', ' '] + rest;
            after_colon(s, s) == rest
        }),
{
    colon_behind(label + seq![':', ' '] + rest, label, rest);
}

proof fn line_behind(line: Seq<char>, part: Seq<char>, rest: Seq<char>)
    requires
        !part.contains('\n'),
        line.len() + part.len() > 0 ==> (line + part).last() != '\r',
    ensures
        lines_after(line, part + seq!['\n'] + rest, '\n', '\r') == seq![line + part]
            + lines_after(seq![], rest, '\n', '\r'),
    decreases part.len(),
{
    let whole = part + seq!['\n'] + rest;
    if part.len() == 0 {
        assert(line + part =~= line);
        assert(whole[0] == '\n');
        assert(whole.skip(1) =~= rest);
    } else {
        let shorter = part.skip(1);
        assert(part.contains(part[0]));
        assert(whole[0] == part[0]);
        assert(!shorter.contains('\n')) by {
            if shorter.contains('\n') {
                let i = choose|i: int| 0 <= i < shorter.len() && shorter[i] == '\n';
                assert(part[i + 1] == '\n');
            }
        }
        assert(line.push(part[0]) + shorter =~= line + part);
        line_behind(line.push(part[0]), shorter, rest);
        assert(whole.skip(1) =~= shorter + seq!['\n'] + rest);
    }
}

/// Whether a text is one line.
pub open spec fn is_line(s: Seq<char>) -> bool {
    !s.contains('\n') && !s.contains('\r')
}

/// A summary tells three lines as one, and nothing of what comes behind them.
pub proof fn summaries_take_three_lines(
    a: Seq<char>,
    b: Seq<char>,
    c: Seq<char>,
    rest: Seq<char>,
)
    requires
        is_line(a),
        is_line(b),
        is_line(c),
    ensures
        summarized(a + seq!['\n'] + (b + seq!['\n'] + (c + seq!['\n'] + rest))) == summarized(
            a + seq![' '] + b + seq![' '] + c,
        ),
{
    let none = Seq::<char>::empty();
    let third = c + seq!['\n'] + rest;
    let second = b + seq!['\n'] + third;
    let whole = a + seq!['\n'] + second;
    assert(none + a =~= a && none + b =~= b && none + c =~= c);
    assert(a.len() > 0 ==> a.contains(a.last()));
    assert(b.len() > 0 ==> b.contains(b.last()));
    assert(c.len() > 0 ==> c.contains(c.last()));
    line_behind(none, a, second);
    line_behind(none, b, third);
    line_behind(none, c, rest);
    let lines = lines_of(whole);
    let first = seq![a, b, c];
    assert(lines =~= first + lines_of(rest));
    assert(lines.take(3) =~= first);
    assert(at_most(lines, 3) =~= first);
    let told = a + seq![' '] + b + seq![' '] + c;
    assert(joined(first, seq![' ']) == told) by {
        reveal_with_fuel(joined, 3);
        assert(first.drop_last() =~= seq![a, b]);
        assert(seq![a, b].drop_last() =~= seq![a]);
    }
    assert(!told.contains('\n')) by {
        if told.contains('\n') {
            let i = choose|i: int| 0 <= i < told.len() && told[i] == '\n';
            if i < a.len() {
                assert(a[i] == '\n');
            } else if i > a.len() && i - a.len() - 1 < b.len() {
                assert(b[i - a.len() - 1] == '\n');
            } else if i > a.len() + b.len() + 1 {
                assert(c[i - a.len() - b.len() - 2] == '\n');
            }
        }
    }
    one_line(none, told);
    assert(none + told =~= told);
    assert(lines_of(told) =~= seq![told]);
    assert(at_most(lines_of(told), 3) =~= seq![told]);
}

/// A failure tells its message and then, behind a colon, everything that the failure behind it
/// tells.
pub proof fn causes_are_told_last(failure: FailureView, message: Seq<char>)
    ensures
        failure.within(message).full_text() == message + ": "@ + failure.full_text(),
        failure.within(message).message == message,
        plain(message).full_text() == message,
        failure.cause matches Some(cause) ==> failure.full_text() == failure.message + ": "@ + cause,
{
}

/// The blanks of a keyboard and the ends of lines are blanks, and what can be seen is none.
pub proof fn blanks_cannot_be_seen(c: char)
    ensures
        is_space(' '),
        is_space('\t'),
        is_space('\n'),
        is_space('\r'),
        is_space('\u{b}'),
        is_space('\u{c}'),
        is_space('\u{85}'),
        is_space('\u{a0}'),
        is_space('\u{2003}'),
        is_space('\u{2028}'),
        is_space('\u{2029}'),
        is_space('\u{3000}'),
        '!' as u32 <= c as u32 <= '~' as u32 ==> !is_space(c),
        !is_space('\u{200b}'),
        !is_space('\u{feff}'),
{
}

/// Of two texts the one comes first whose character is less where they first differ, and a text
/// comes before those that go on behind it.
pub proof fn first_difference_decides(
    common: Seq<char>,
    c: char,
    left: Seq<char>,
    d: char,
    right: Seq<char>,
)
    ensures
        c != d ==> (precedes(common + seq![c] + left, common + seq![d] + right) <==> (c as u32) < (
        d as u32)),
        precedes(common, common + seq![d] + right),
        !precedes(common + seq![d] + right, common),
        !precedes(common, common),
    decreases common.len(),
{
    let first = common + seq![c] + left;
    let second = common + seq![d] + right;
    if common.len() > 0 {
        let shorter = common.skip(1);
        first_difference_decides(shorter, c, left, d, right);
        assert(first[0] == common[0] && second[0] == common[0]);
        assert(first.skip(1) =~= shorter + seq![c] + left);
        assert(second.skip(1) =~= shorter + seq![d] + right);
    } else {
        assert(first[0] == c && second[0] == d);
    }
}

/// Capital and small letters of the same kind are alike, and nothing else is.
pub proof fn only_cases_are_alike(c: char, d: char)
    ensures
        same_but_case(seq![c], seq![d]) <==> c == d || (65 <= c as u32 <= 90 && d as u32 == c as u32
            + 32) || (65 <= d as u32 <= 90 && c as u32 == d as u32 + 32),
{
    let (left, right) = (seq![c], seq![d]);
    assert(left[0] == c && right[0] == d);
    if same_but_case(left, right) {
        assert(lower(left[0]) == lower(right[0]));
    }
}

/// A number may have a plus before it, and nothing else. Without digits, and beyond the greatest
/// number allowed, there is none.
pub proof fn numbers_may_have_a_plus(number: nat, max: nat, c: char, rest: Seq<char>)
    ensures
        number <= max ==> parsed_number(seq!['+'] + decimal(number), max) == Ok::<
            nat,
            NumberError,
        >(number),
        parsed_number(seq![], max) == Err::<nat, NumberError>(NumberError::Empty),
        parsed_number(seq!['+'], max) == Err::<nat, NumberError>(NumberError::InvalidDigit),
        c != '+' && !('0' as u32 <= c as u32 <= '9' as u32) ==> parsed_number(seq![c] + rest, max)
            == Err::<nat, NumberError>(NumberError::InvalidDigit),
{
    let signed = seq!['+'] + decimal(number);
    assert(signed.skip(1) =~= decimal(number));
    decimal_starts_with_a_digit(number);
    if number <= max {
        decimal_value(number, max);
    }
    assert((seq![c] + rest)[0] == c);
}

proof fn line_ends_behind<T>(line: Seq<T>, part: Seq<T>, rest: Seq<T>, newline: T, back: T)
    requires
        !part.contains(newline),
        newline != back,
    ensures
        lines_after(line, part + seq![back, newline] + rest, newline, back) == seq![line + part]
            + lines_after(seq![], rest, newline, back),
    decreases part.len(),
{
    let whole = part + seq![back, newline] + rest;
    if part.len() == 0 {
        assert(line + part =~= line);
        assert(whole[0] == back);
        let behind = whole.skip(1);
        assert(behind[0] == newline);
        assert(behind.skip(1) =~= rest);
        assert(line.push(back).drop_last() =~= line);
        assert(lines_after(line, whole, newline, back) == lines_after(
            line.push(back),
            behind,
            newline,
            back,
        ));
    } else {
        let shorter = part.skip(1);
        assert(part.contains(part[0]));
        assert(whole[0] == part[0]);
        assert(!shorter.contains(newline)) by {
            if shorter.contains(newline) {
                let i = choose|i: int| 0 <= i < shorter.len() && shorter[i] == newline;
                assert(part[i + 1] == newline);
            }
        }
        assert(line.push(part[0]) + shorter =~= line + part);
        line_ends_behind(line.push(part[0]), shorter, rest, newline, back);
        assert(whole.skip(1) =~= shorter + seq![back, newline] + rest);
    }
}

/// A carriage return before the end of a line belongs to the end.
pub proof fn line_ends_may_have_a_return(line: Seq<char>, rest: Seq<char>)
    requires
        !line.contains('\n'),
    ensures
        lines_of(line + seq!['\r', '\n'] + rest) == seq![line] + lines_of(rest),
{
    line_ends_behind(seq![], line, rest, '\n', '\r');
    assert(Seq::<char>::empty() + line =~= line);
}

/// The same of the lines of a file.
pub proof fn file_lines_may_have_a_return(line: Seq<u8>, rest: Seq<u8>)
    requires
        !line.contains(10u8),
    ensures
        byte_lines(line + seq![13u8, 10u8] + rest) == seq![line] + byte_lines(rest),
{
    line_ends_behind(seq![], line, rest, 10u8, 13u8);
    assert(Seq::<u8>::empty() + line =~= line);
}

/// Nothing is left of a text of blanks.
pub proof fn blanks_are_trimmed(s: Seq<char>)
    ensures
        trimmed(s).len() == 0 <==> forall|i: int| 0 <= i < s.len() ==> is_space(#[trigger] s[i]),
{
    front_is_blank(s);
    back_is_blank(trim_front(s));
    let front = trim_front(s);
    if blank(s) && front.len() > 0 {
        assert(front[0] == s[s.len() - front.len()]);
    }
    if trimmed(s).len() == 0 {
        if front.len() > 0 {
            assert(front.skip(0)[0] == front[0]);
        }
        assert(s.take(s.len() as int) =~= s);
    }
}

} // verus!
