//! Text helpers whose contracts are stated over sequences of characters.
use vstd::prelude::*;
use vstd::utf8::{decode_utf8, valid_utf8};

verus! {

/// `String::push` appends one character at the end of the string.
pub assume_specification[ String::push ](text: &mut String, character: char)
    ensures
        final(text)@ == old(text)@.push(character),
;

/// What `String::from_utf8_lossy` makes of bytes that are not valid UTF-8.
pub uninterp spec fn repaired_utf8(bytes: Seq<u8>) -> Seq<char>;

/// The text shown for raw bytes: decoded where they are valid UTF-8, repaired otherwise.
pub open spec fn lossy_text(bytes: Seq<u8>) -> Seq<char> {
    if valid_utf8(bytes) {
        decode_utf8(bytes)
    } else {
        repaired_utf8(bytes)
    }
}

/// Calls `String::from_utf8_lossy`. Valid UTF-8 is decoded; the replacement of invalid
/// sequences depends on the bytes alone and is named, not spelled out.
#[verifier::external_body]
pub(crate) fn decode_lossy(bytes: &[u8]) -> (text: String)
    ensures
        valid_utf8(bytes@) ==> text@ == decode_utf8(bytes@),
        !valid_utf8(bytes@) ==> text@ == repaired_utf8(bytes@),
{
    String::from_utf8_lossy(bytes).into_owned()
}

/// Calls `str::from_utf8`, which succeeds exactly on valid UTF-8 and then decodes it.
#[verifier::external_body]
pub(crate) fn decode_strict(bytes: &[u8]) -> (text: Option<String>)
    ensures
        text is Some <==> valid_utf8(bytes@),
        text matches Some(decoded) ==> decoded@ == decode_utf8(bytes@),
{
    std::str::from_utf8(bytes).ok().map(|text| text.to_owned())
}

/// The characters of each string of a list.
pub open spec fn texts(list: Seq<String>) -> Seq<Seq<char>> {
    Seq::new(list.len(), |i: int| list[i]@)
}

/// The characters of each string slice of a list.
pub open spec fn slices(list: Seq<&str>) -> Seq<Seq<char>> {
    Seq::new(list.len(), |i: int| list[i]@)
}

/// The text of an optional string.
pub open spec fn maybe_text(text: Option<String>) -> Option<Seq<char>> {
    match text {
        Some(value) => Some(value@),
        None => None,
    }
}

/// The characters of a string, in order.
pub fn to_chars(text: &str) -> (chars: Vec<char>)
    ensures
        chars@ == text@,
{
    let mut chars: Vec<char> = Vec::new();
    for character in it: text.chars()
        invariant
            it.seq() == text@,
            chars@ == text@.take(it.index() as int),
    {
        chars.push(character);
    }
    chars
}

/// The string made of the characters from `from` up to `to`.
pub fn from_chars(chars: &Vec<char>, from: usize, to: usize) -> (text: String)
    requires
        from <= to <= chars@.len(),
    ensures
        text@ == chars@.subrange(from as int, to as int),
{
    let mut text = String::new();
    let mut i: usize = from;
    while i < to
        invariant
            from <= i <= to <= chars@.len(),
            text@ == chars@.subrange(from as int, i as int),
        decreases to - i,
    {
        text.push(chars[i]);
        i = i + 1;
    }
    text
}

/// Whether two texts hold the same characters.
pub fn same_text(left: &str, right: &str) -> (same: bool)
    ensures
        same == (left@ == right@),
{
    left.to_owned() == right.to_owned()
}

/// Owned copies of a list of string slices.
pub fn owned(list: &[&str]) -> (strings: Vec<String>)
    ensures
        texts(strings@) == slices(list@),
{
    let mut strings: Vec<String> = Vec::new();
    let mut i: usize = 0;
    while i < list.len()
        invariant
            0 <= i <= list@.len(),
            strings@.len() == i,
            forall|k: int| 0 <= k < i ==> strings@[k]@ == list@[k]@,
        decreases list@.len() - i,
    {
        strings.push(list[i].to_owned());
        i = i + 1;
    }
    assert(texts(strings@) =~= slices(list@));
    strings
}

/// A copy of an optional string.
pub fn copy_option(text: &Option<String>) -> (copy: Option<String>)
    ensures
        maybe_text(copy) == maybe_text(*text),
{
    match text {
        Some(value) => Some(value.clone()),
        None => None,
    }
}

/// Two texts, one after the other.
pub fn concat(left: &str, right: &str) -> (text: String)
    ensures
        text@ == left@ + right@,
{
    let mut text = left.to_owned();
    text.append(right);
    text
}

// ---------------------------------------------------------------------------
// White space, lines and words
// ---------------------------------------------------------------------------

/// The characters with the Unicode property White_Space.
pub open spec fn is_space(c: char) -> bool {
    let code = c as u32;
    ||| 0x9 <= code <= 0xd
    ||| code == 0x20
    ||| code == 0x85
    ||| code == 0xa0
    ||| code == 0x1680
    ||| 0x2000 <= code <= 0x200a
    ||| code == 0x2028
    ||| code == 0x2029
    ||| code == 0x202f
    ||| code == 0x205f
    ||| code == 0x3000
}

/// Whether a character is white space.
pub fn space(c: char) -> (answer: bool)
    ensures
        answer == is_space(c),
{
    let code: u32 = c as u32;
    (0x9 <= code && code <= 0xd) || code == 0x20 || code == 0x85 || code == 0xa0 || code == 0x1680
        || (0x2000 <= code && code <= 0x200a) || code == 0x2028 || code == 0x2029 || code == 0x202f
        || code == 0x205f || code == 0x3000
}

/// The text without its leading white space.
pub open spec fn trim_front(s: Seq<char>) -> Seq<char>
    decreases s.len(),
{
    if s.len() > 0 && is_space(s[0]) {
        trim_front(s.skip(1))
    } else {
        s
    }
}

/// The text without its trailing white space.
pub open spec fn trim_back(s: Seq<char>) -> Seq<char>
    decreases s.len(),
{
    if s.len() > 0 && is_space(s.last()) {
        trim_back(s.drop_last())
    } else {
        s
    }
}

/// The text without leading and trailing white space.
pub open spec fn trimmed(s: Seq<char>) -> Seq<char> {
    trim_back(trim_front(s))
}

/// Removes leading and trailing white space.
pub fn trim(text: &str) -> (result: String)
    ensures
        result@ == trimmed(text@),
{
    let chars = to_chars(text);
    let mut start: usize = 0;
    proof {
        assert(chars@.skip(0) =~= chars@);
    }
    while start < chars.len() && space(chars[start])
        invariant
            0 <= start <= chars@.len(),
            trim_front(chars@) == trim_front(chars@.skip(start as int)),
        decreases chars@.len() - start,
    {
        proof {
            assert(chars@.skip(start as int).skip(1) =~= chars@.skip(start + 1));
        }
        start = start + 1;
    }
    let ghost body = chars@.skip(start as int);
    assert(trim_front(chars@) == body);
    let mut end: usize = chars.len();
    proof {
        assert(chars@.subrange(start as int, end as int) =~= body);
    }
    while end > start && space(chars[end - 1])
        invariant
            start <= end <= chars@.len(),
            trim_back(body) == trim_back(chars@.subrange(start as int, end as int)),
        decreases end,
    {
        proof {
            let part = chars@.subrange(start as int, end as int);
            assert(part.last() == chars@[end - 1]);
            assert(part.drop_last() =~= chars@.subrange(start as int, end - 1));
        }
        end = end - 1;
    }
    proof {
        let part = chars@.subrange(start as int, end as int);
        if end > start {
            assert(part.last() == chars@[end - 1]);
        }
        assert(trim_back(part) == part);
    }
    from_chars(&chars, start, end)
}

/// A line without one trailing carriage return.
pub open spec fn without_return<T>(line: Seq<T>, carriage_return: T) -> Seq<T> {
    if line.len() > 0 && line.last() == carriage_return {
        line.drop_last()
    } else {
        line
    }
}

/// The lines of `s`, where `line` holds what was read of the current one. A line ends at
/// a newline, before which one carriage return is dropped; the last line needs no newline.
pub open spec fn lines_after<T>(line: Seq<T>, s: Seq<T>, newline: T, carriage_return: T) -> Seq<
    Seq<T>,
>
    decreases s.len(),
{
    if s.len() == 0 {
        if line.len() == 0 {
            seq![]
        } else {
            seq![line]
        }
    } else if s[0] == newline {
        seq![without_return(line, carriage_return)] + lines_after(
            seq![],
            s.skip(1),
            newline,
            carriage_return,
        )
    } else {
        lines_after(line.push(s[0]), s.skip(1), newline, carriage_return)
    }
}

/// The lines of a text.
pub open spec fn lines_of(s: Seq<char>) -> Seq<Seq<char>> {
    lines_after(seq![], s, '\n', '\r')
}

/// Splits a text into its lines.
pub fn lines(text: &str) -> (result: Vec<String>)
    ensures
        texts(result@) == lines_of(text@),
{
    let chars = to_chars(text);
    let mut result: Vec<String> = Vec::new();
    let mut start: usize = 0;
    let mut i: usize = 0;
    proof {
        assert(chars@.skip(0) =~= chars@);
        assert(chars@.subrange(0, 0) =~= Seq::<char>::empty());
        assert(texts(result@) =~= Seq::<Seq<char>>::empty());
    }
    while i < chars.len()
        invariant
            start <= i <= chars@.len(),
            lines_of(chars@) =~= texts(result@) + lines_after(
                chars@.subrange(start as int, i as int),
                chars@.skip(i as int),
                '\n',
                '\r',
            ),
        decreases chars@.len() - i,
    {
        let ghost line = chars@.subrange(start as int, i as int);
        let ghost before = texts(result@);
        proof {
            assert(chars@.skip(i as int).skip(1) =~= chars@.skip(i + 1));
            assert(line.push(chars@[i as int]) =~= chars@.subrange(start as int, i + 1));
            assert(chars@.subrange(i + 1, i + 1) =~= Seq::<char>::empty());
        }
        if chars[i] == '\n' {
            let end: usize = if i > start && chars[i - 1] == '\r' {
                i - 1
            } else {
                i
            };
            proof {
                if i > start {
                    assert(line.last() == chars@[i - 1]);
                    assert(line.drop_last() =~= chars@.subrange(start as int, i - 1));
                }
            }
            result.push(from_chars(&chars, start, end));
            proof {
                assert(texts(result@) =~= before.push(without_return(line, '\r')));
            }
            start = i + 1;
        }
        i = i + 1;
    }
    if start < i {
        let ghost before = texts(result@);
        result.push(from_chars(&chars, start, i));
        assert(texts(result@) =~= before.push(chars@.subrange(start as int, i as int)));
    }
    result
}

/// A finished word, if it holds anything.
pub open spec fn finished_word(word: Seq<char>) -> Seq<Seq<char>> {
    if word.len() == 0 {
        seq![]
    } else {
        seq![word]
    }
}

/// The words of `s`, where `word` holds what was read of the current one.
pub open spec fn words_after(word: Seq<char>, s: Seq<char>) -> Seq<Seq<char>>
    decreases s.len(),
{
    if s.len() == 0 {
        finished_word(word)
    } else if is_space(s[0]) {
        finished_word(word) + words_after(seq![], s.skip(1))
    } else {
        words_after(word.push(s[0]), s.skip(1))
    }
}

/// The runs of characters between white space.
pub open spec fn words_of(s: Seq<char>) -> Seq<Seq<char>> {
    words_after(seq![], s)
}

/// Splits a text at white space.
pub fn words(text: &str) -> (result: Vec<String>)
    ensures
        texts(result@) == words_of(text@),
{
    let chars = to_chars(text);
    let mut result: Vec<String> = Vec::new();
    let mut start: usize = 0;
    let mut i: usize = 0;
    proof {
        assert(chars@.skip(0) =~= chars@);
        assert(chars@.subrange(0, 0) =~= Seq::<char>::empty());
        assert(texts(result@) =~= Seq::<Seq<char>>::empty());
    }
    while i < chars.len()
        invariant
            start <= i <= chars@.len(),
            words_of(chars@) =~= texts(result@) + words_after(
                chars@.subrange(start as int, i as int),
                chars@.skip(i as int),
            ),
        decreases chars@.len() - i,
    {
        let ghost word = chars@.subrange(start as int, i as int);
        let ghost before = texts(result@);
        proof {
            assert(chars@.skip(i as int).skip(1) =~= chars@.skip(i + 1));
            assert(word.push(chars@[i as int]) =~= chars@.subrange(start as int, i + 1));
            assert(chars@.subrange(i + 1, i + 1) =~= Seq::<char>::empty());
        }
        if space(chars[i]) {
            if start < i {
                result.push(from_chars(&chars, start, i));
                assert(texts(result@) =~= before + finished_word(word));
            }
            start = i + 1;
        }
        i = i + 1;
    }
    if start < i {
        let ghost before = texts(result@);
        result.push(from_chars(&chars, start, i));
        assert(texts(result@) =~= before.push(chars@.subrange(start as int, i as int)));
    }
    result
}

/// The texts joined by a separator.
pub open spec fn joined(parts: Seq<Seq<char>>, separator: Seq<char>) -> Seq<char>
    decreases parts.len(),
{
    if parts.len() == 0 {
        seq![]
    } else if parts.len() == 1 {
        parts[0]
    } else {
        joined(parts.drop_last(), separator) + separator + parts.last()
    }
}

/// Joins texts by a separator.
pub fn join(parts: &Vec<String>, separator: &str) -> (result: String)
    ensures
        result@ == joined(texts(parts@), separator@),
{
    let mut result = String::new();
    let mut i: usize = 0;
    proof {
        assert(texts(parts@).take(0) =~= Seq::<Seq<char>>::empty());
    }
    while i < parts.len()
        invariant
            0 <= i <= parts@.len(),
            result@ == joined(texts(parts@).take(i as int), separator@),
        decreases parts@.len() - i,
    {
        proof {
            let more = texts(parts@).take(i + 1);
            assert(more.drop_last() =~= texts(parts@).take(i as int));
            assert(more.last() == parts@[i as int]@);
        }
        if i == 0 {
            result = parts[0].clone();
        } else {
            result.append(separator);
            result.append(parts[i].as_str());
        }
        i = i + 1;
    }
    proof {
        assert(texts(parts@).take(i as int) =~= texts(parts@));
    }
    result
}

/// The first `count` elements, or all where there are fewer.
pub open spec fn at_most<T>(s: Seq<T>, count: nat) -> Seq<T> {
    if s.len() > count {
        s.take(count as int)
    } else {
        s
    }
}

/// The first three lines as one line, with single spaces between the words.
pub open spec fn summarized(s: Seq<char>) -> Seq<char> {
    joined(words_of(joined(at_most(lines_of(s), 3), seq![' '])), seq![' '])
}

/// Shortens command output to the words of its first three lines.
pub fn summary(output: &str) -> (result: String)
    ensures
        result@ == summarized(output@),
{
    let mut head = lines(output);
    let ghost all = texts(head@);
    head.truncate(3);
    proof {
        assert(texts(head@) =~= at_most(all, 3));
        reveal_strlit(" ");
        assert(" "@ =~= seq![' ']);
    }
    let line = join(&head, " ");
    join(&words(line.as_str()), " ")
}

/// The fields of `s`, where `field` holds what was read of the current one.
pub open spec fn fields_after(field: Seq<char>, s: Seq<char>, separator: char) -> Seq<Seq<char>>
    decreases s.len(),
{
    if s.len() == 0 {
        seq![field]
    } else if s[0] == separator {
        seq![field] + fields_after(seq![], s.skip(1), separator)
    } else {
        fields_after(field.push(s[0]), s.skip(1), separator)
    }
}

/// The fields of a text between separators.
pub open spec fn fields_of(s: Seq<char>, separator: char) -> Seq<Seq<char>> {
    fields_after(seq![], s, separator)
}

/// Splits a text at every separator.
pub fn fields(text: &str, separator: char) -> (result: Vec<String>)
    ensures
        texts(result@) == fields_of(text@, separator),
{
    let chars = to_chars(text);
    let mut result: Vec<String> = Vec::new();
    let mut start: usize = 0;
    let mut i: usize = 0;
    proof {
        assert(chars@.skip(0) =~= chars@);
        assert(chars@.subrange(0, 0) =~= Seq::<char>::empty());
        assert(texts(result@) =~= Seq::<Seq<char>>::empty());
    }
    while i < chars.len()
        invariant
            start <= i <= chars@.len(),
            fields_of(chars@, separator) =~= texts(result@) + fields_after(
                chars@.subrange(start as int, i as int),
                chars@.skip(i as int),
                separator,
            ),
        decreases chars@.len() - i,
    {
        let ghost field = chars@.subrange(start as int, i as int);
        let ghost before = texts(result@);
        proof {
            assert(chars@.skip(i as int).skip(1) =~= chars@.skip(i + 1));
            assert(field.push(chars@[i as int]) =~= chars@.subrange(start as int, i + 1));
            assert(chars@.subrange(i + 1, i + 1) =~= Seq::<char>::empty());
        }
        if chars[i] == separator {
            result.push(from_chars(&chars, start, i));
            assert(texts(result@) =~= before.push(field));
            start = i + 1;
        }
        i = i + 1;
    }
    let ghost before = texts(result@);
    result.push(from_chars(&chars, start, i));
    assert(texts(result@) =~= before.push(chars@.subrange(start as int, i as int)));
    result
}

/// Characters that would break a line of the registry.
pub open spec fn is_break(c: char) -> bool {
    c == '\t' || c == '\n' || c == '\r'
}

/// Whether a text holds a tab, a newline or a carriage return.
pub open spec fn has_break(s: Seq<char>) -> bool {
    exists|i: int| 0 <= i < s.len() && is_break(#[trigger] s[i])
}

/// Looks for a tab, a newline or a carriage return.
pub fn contains_break(text: &str) -> (answer: bool)
    ensures
        answer == has_break(text@),
{
    let chars = to_chars(text);
    let mut i: usize = 0;
    while i < chars.len()
        invariant
            0 <= i <= chars@.len(),
            chars@ == text@,
            forall|k: int| 0 <= k < i ==> !is_break(#[trigger] text@[k]),
        decreases chars@.len() - i,
    {
        let c = chars[i];
        if c == '\t' || c == '\n' || c == '\r' {
            assert(is_break(text@[i as int]));
            return true;
        }
        i = i + 1;
    }
    false
}

/// The text before the last character, where there is one.
pub open spec fn shortened(s: Seq<char>) -> Seq<char> {
    if s.len() == 0 {
        s
    } else {
        s.drop_last()
    }
}

/// A text without its last character.
pub fn without_last(text: &str) -> (result: String)
    ensures
        result@ == shortened(text@),
{
    let chars = to_chars(text);
    if chars.len() == 0 {
        String::new()
    } else {
        let result = from_chars(&chars, 0, chars.len() - 1);
        assert(result@ =~= text@.drop_last());
        result
    }
}

// ---------------------------------------------------------------------------
// Numbers
// ---------------------------------------------------------------------------

/// The character of a decimal digit.
pub open spec fn digit_char(digit: nat) -> char {
    (('0' as u32) + digit) as char
}

/// The decimal digits of a number.
pub open spec fn decimal(n: nat) -> Seq<char>
    decreases n,
{
    if n < 10 {
        seq![digit_char(n)]
    } else {
        decimal(n / 10).push(digit_char(n % 10))
    }
}

fn digit(value: u128) -> (c: char)
    requires
        value < 10,
    ensures
        c == digit_char(value as nat),
{
    match value {
        0 => '0',
        1 => '1',
        2 => '2',
        3 => '3',
        4 => '4',
        5 => '5',
        6 => '6',
        7 => '7',
        8 => '8',
        _ => '9',
    }
}

/// Writes a number in decimal.
pub fn number(n: u128) -> (text: String)
    ensures
        text@ == decimal(n as nat),
    decreases n,
{
    if n < 10 {
        let mut text = String::new();
        text.push(digit(n));
        assert(text@ =~= seq![digit_char(n as nat)]);
        text
    } else {
        let mut text = number(n / 10);
        text.push(digit(n % 10));
        text
    }
}

/// Why a text is not a number in range.
#[derive(Clone, Copy, Debug, PartialEq, Eq, Structural)]
pub enum NumberError {
    Empty,
    InvalidDigit,
    TooLarge,
}

/// Whether a character is an ASCII digit.
pub open spec fn is_digit(c: char) -> bool {
    '0' as u32 <= c as u32 <= '9' as u32
}

/// The value of a run of digits that continues `value`, read from the left. The first
/// character that is no digit, or that takes the value past `max`, decides the error.
pub open spec fn digits_value(value: nat, s: Seq<char>, max: nat) -> Result<nat, NumberError>
    decreases s.len(),
{
    if s.len() == 0 {
        Ok(value)
    } else if !is_digit(s[0]) {
        Err(NumberError::InvalidDigit)
    } else {
        let next = value * 10 + (s[0] as u32 - '0' as u32) as nat;
        if next > max {
            Err(NumberError::TooLarge)
        } else {
            digits_value(next, s.skip(1), max)
        }
    }
}

/// The unsigned number that a text stands for: digits after at most one plus sign.
pub open spec fn parsed_number(s: Seq<char>, max: nat) -> Result<nat, NumberError> {
    if s.len() == 0 {
        Err(NumberError::Empty)
    } else if s[0] == '+' {
        if s.len() == 1 {
            Err(NumberError::InvalidDigit)
        } else {
            digits_value(0, s.skip(1), max)
        }
    } else {
        digits_value(0, s, max)
    }
}

proof fn digits_bounded(value: nat, s: Seq<char>, max: nat)
    requires
        value <= max,
    ensures
        digits_value(value, s, max) matches Ok(result) ==> result <= max,
    decreases s.len(),
{
    if s.len() > 0 && is_digit(s[0]) {
        let next = value * 10 + (s[0] as u32 - '0' as u32) as nat;
        if next <= max {
            digits_bounded(next, s.skip(1), max);
        }
    }
}

/// A number that was read is at most `max`.
pub proof fn numbers_are_bounded(s: Seq<char>, max: nat)
    ensures
        parsed_number(s, max) matches Ok(result) ==> result <= max,
{
    digits_bounded(0, s, max);
    if s.len() > 0 {
        digits_bounded(0, s.skip(1), max);
    }
}

/// Reads an unsigned number that is at most `max`.
pub fn parse_number(text: &str, max: u64) -> (result: Result<u64, NumberError>)
    ensures
        match result {
            Ok(value) => parsed_number(text@, max as nat) == Ok::<nat, NumberError>(value as nat),
            Err(error) => parsed_number(text@, max as nat) == Err::<nat, NumberError>(error),
        },
        result matches Ok(value) ==> value <= max,
{
    let chars = to_chars(text);
    if chars.len() == 0 {
        return Err(NumberError::Empty);
    }
    let mut i: usize = 0;
    if chars[0] == '+' {
        if chars.len() == 1 {
            return Err(NumberError::InvalidDigit);
        }
        i = 1;
    }
    let mut value: u64 = 0;
    proof {
        assert(chars@.skip(0) =~= chars@);
    }
    while i < chars.len()
        invariant
            0 <= i <= chars@.len(),
            value <= max,
            parsed_number(chars@, max as nat) == digits_value(
                value as nat,
                chars@.skip(i as int),
                max as nat,
            ),
            chars@ == text@,
        decreases chars@.len() - i,
    {
        let c = chars[i];
        let code: u32 = c as u32;
        if code < 48 || code > 57 {
            return Err(NumberError::InvalidDigit);
        }
        let next: u128 = (value as u128) * 10 + (code - 48) as u128;
        if next > max as u128 {
            return Err(NumberError::TooLarge);
        }
        proof {
            assert(chars@.skip(i as int).skip(1) =~= chars@.skip(i + 1));
        }
        value = next as u64;
        i = i + 1;
    }
    Ok(value)
}

// ---------------------------------------------------------------------------
// Columns and comparison
// ---------------------------------------------------------------------------

/// The text followed by spaces up to a width, which a longer text exceeds.
pub open spec fn padded(s: Seq<char>, width: nat) -> Seq<char> {
    if s.len() >= width {
        s
    } else {
        s + Seq::new((width - s.len()) as nat, |i: int| ' ')
    }
}

/// Fills a text with spaces up to a width.
pub fn pad(text: &str, width: usize) -> (result: String)
    ensures
        result@ == padded(text@, width as nat),
{
    let mut result = text.to_owned();
    let mut length: usize = text.unicode_len();
    while length < width
        invariant
            result@.len() == length,
            text@.len() <= width ==> length <= width,
            text@.len() > width ==> result@ == text@,
            result@ == text@ + Seq::new((length - text@.len()) as nat, |i: int| ' '),
            text@.len() <= length,
        decreases width - length,
    {
        result.push(' ');
        length = length + 1;
        assert(result@ =~= text@ + Seq::new((length - text@.len()) as nat, |i: int| ' '));
    }
    assert(result@ =~= padded(text@, width as nat));
    result
}

/// Whether `left` comes before `right` in the order of their code points.
pub open spec fn precedes(left: Seq<char>, right: Seq<char>) -> bool
    decreases left.len(),
{
    if right.len() == 0 {
        false
    } else if left.len() == 0 {
        true
    } else if left[0] != right[0] {
        (left[0] as u32) < (right[0] as u32)
    } else {
        precedes(left.skip(1), right.skip(1))
    }
}

/// Compares two texts by their code points.
pub fn comes_before(left: &str, right: &str) -> (answer: bool)
    ensures
        answer == precedes(left@, right@),
{
    let a = to_chars(left);
    let b = to_chars(right);
    let mut i: usize = 0;
    proof {
        assert(a@.skip(0) =~= a@);
        assert(b@.skip(0) =~= b@);
    }
    while i < a.len() && i < b.len()
        invariant
            0 <= i <= a@.len(),
            i <= b@.len(),
            precedes(a@, b@) == precedes(a@.skip(i as int), b@.skip(i as int)),
            a@ == left@,
            b@ == right@,
        decreases a@.len() - i,
    {
        if a[i] != b[i] {
            return (a[i] as u32) < (b[i] as u32);
        }
        proof {
            assert(a@.skip(i as int).skip(1) =~= a@.skip(i + 1));
            assert(b@.skip(i as int).skip(1) =~= b@.skip(i + 1));
        }
        i = i + 1;
    }
    i < b.len()
}

/// No text comes before itself.
pub proof fn precedes_irreflexive(s: Seq<char>)
    ensures
        !precedes(s, s),
    decreases s.len(),
{
    if s.len() > 0 {
        precedes_irreflexive(s.skip(1));
    }
}

/// The order of texts is transitive.
pub proof fn precedes_transitive(a: Seq<char>, b: Seq<char>, c: Seq<char>)
    requires
        precedes(a, b),
        precedes(b, c),
    ensures
        precedes(a, c),
    decreases a.len(),
{
    if a.len() > 0 && a[0] == b[0] && b[0] == c[0] {
        precedes_transitive(a.skip(1), b.skip(1), c.skip(1));
    }
}

/// Different characters have different codes.
pub(crate) proof fn codes_differ(x: char, y: char)
    requires
        x != y,
    ensures
        x as u32 != y as u32,
{
}

/// Of two different texts one comes before the other.
pub proof fn precedes_total(a: Seq<char>, b: Seq<char>)
    ensures
        a == b || precedes(a, b) || precedes(b, a),
    decreases a.len(),
{
    if a.len() > 0 && b.len() > 0 && a[0] == b[0] {
        precedes_total(a.skip(1), b.skip(1));
        if a.skip(1) == b.skip(1) {
            assert(a =~= seq![a[0]] + a.skip(1));
            assert(b =~= seq![b[0]] + b.skip(1));
        }
    } else if a.len() == 0 && b.len() == 0 {
        assert(a =~= b);
    } else if a.len() > 0 && b.len() > 0 {
        codes_differ(a[0], b[0]);
    }
}

/// The ASCII lower case of a character; other characters are kept.
pub open spec fn lower(c: char) -> char {
    if 'A' as u32 <= c as u32 <= 'Z' as u32 {
        (c as u32 + 32) as char
    } else {
        c
    }
}

/// Whether two texts are the same but for the case of ASCII letters.
pub open spec fn same_but_case(left: Seq<char>, right: Seq<char>) -> bool {
    &&& left.len() == right.len()
    &&& forall|i: int| 0 <= i < left.len() ==> lower(#[trigger] left[i]) == lower(right[i])
}

fn lower_code(c: char) -> (code: u32)
    ensures
        code == lower(c) as u32,
{
    let code: u32 = c as u32;
    if 65 <= code && code <= 90 {
        code + 32
    } else {
        code
    }
}

/// Compares two texts without regard to the case of ASCII letters.
pub fn matches_ignoring_case(left: &str, right: &str) -> (answer: bool)
    ensures
        answer == same_but_case(left@, right@),
{
    let a = to_chars(left);
    let b = to_chars(right);
    if a.len() != b.len() {
        return false;
    }
    let mut i: usize = 0;
    while i < a.len()
        invariant
            a@.len() == b@.len(),
            0 <= i <= a@.len(),
            a@ == left@,
            b@ == right@,
            forall|k: int| 0 <= k < i ==> lower(#[trigger] left@[k]) == lower(right@[k]),
        decreases a@.len() - i,
    {
        if lower_code(a[i]) != lower_code(b[i]) {
            assert(lower(left@[i as int]) != lower(right@[i as int]));
            return false;
        }
        i = i + 1;
    }
    true
}

/// What follows the first colon and space, or the whole text where there is none.
pub open spec fn after_colon(whole: Seq<char>, s: Seq<char>) -> Seq<char>
    decreases s.len(),
{
    if s.len() < 2 {
        whole
    } else if s[0] == ':' && s[1] == ' ' {
        s.skip(2)
    } else {
        after_colon(whole, s.skip(1))
    }
}

/// Drops everything up to the first colon and space.
pub fn drop_heading(text: &str) -> (result: String)
    ensures
        result@ == after_colon(text@, text@),
{
    let chars = to_chars(text);
    let mut i: usize = 0;
    proof {
        assert(chars@.skip(0) =~= chars@);
    }
    while i < chars.len() && chars.len() - i >= 2
        invariant
            0 <= i <= chars@.len(),
            after_colon(chars@, chars@) == after_colon(chars@, chars@.skip(i as int)),
            chars@ == text@,
        decreases chars@.len() - i,
    {
        if chars[i] == ':' && chars[i + 1] == ' ' {
            let result = from_chars(&chars, i + 2, chars.len());
            assert(result@ =~= chars@.skip(i as int).skip(2));
            return result;
        }
        proof {
            assert(chars@.skip(i as int).skip(1) =~= chars@.skip(i + 1));
        }
        i = i + 1;
    }
    text.to_owned()
}

} // verus!
