//! Paths as raw bytes, with `/` between their components, as Unix systems have them.
use crate::text::{concat, decode_lossy, lossy_text};
use vstd::prelude::*;
use vstd::utf8::encode_utf8;

verus! {

/// A path in the bytes that the operating system uses for it.
///
/// Two paths are equal when their components are: repeated and trailing slashes do not
/// count, nor does a `.` that is not the start of a relative path.
#[derive(Debug)]
pub struct RawPath {
    bytes: Vec<u8>,
}

impl View for RawPath {
    type V = Seq<u8>;

    closed spec fn view(&self) -> Seq<u8> {
        self.bytes@
    }
}

/// The view of an optional path.
pub open spec fn maybe_path(path: Option<RawPath>) -> Option<Seq<u8>> {
    match path {
        Some(value) => Some(value@),
        None => None,
    }
}

/// The view of a borrowed optional path.
pub open spec fn borrowed_path(path: Option<&RawPath>) -> Option<Seq<u8>> {
    match path {
        Some(value) => Some(value@),
        None => None,
    }
}

/// The views of a list of paths.
pub open spec fn paths(list: Seq<RawPath>) -> Seq<Seq<u8>> {
    Seq::new(list.len(), |i: int| list[i]@)
}

pub open spec fn slash() -> u8 {
    47
}

pub open spec fn dot() -> u8 {
    46
}

/// A component other than an empty one or `.`.
pub open spec fn significant(part: Seq<u8>) -> bool {
    part.len() != 0 && part != seq![dot()]
}

/// A finished component, if it counts.
pub open spec fn finished_part(part: Seq<u8>) -> Seq<Seq<u8>> {
    if significant(part) {
        seq![part]
    } else {
        seq![]
    }
}

/// The components in `s`, where `part` holds what was read of the current one.
pub open spec fn parts_after(part: Seq<u8>, s: Seq<u8>) -> Seq<Seq<u8>>
    decreases s.len(),
{
    if s.len() == 0 {
        finished_part(part)
    } else if s[0] == slash() {
        finished_part(part) + parts_after(seq![], s.skip(1))
    } else {
        parts_after(part.push(s[0]), s.skip(1))
    }
}

/// The start of a path: the root, an explicit current directory, or nothing.
pub open spec fn lead(p: Seq<u8>) -> Seq<Seq<u8>> {
    if p.len() > 0 && p[0] == slash() {
        seq![seq![slash()]]
    } else if p.len() > 0 && p[0] == dot() && (p.len() == 1 || p[1] == slash()) {
        seq![seq![dot()]]
    } else {
        seq![]
    }
}

/// The components of a path; the root and a leading `.` count as components.
pub open spec fn components(p: Seq<u8>) -> Seq<Seq<u8>> {
    lead(p) + parts_after(seq![], p)
}

/// Whether two paths have the same components.
pub open spec fn same_path(a: Seq<u8>, b: Seq<u8>) -> bool {
    components(a) == components(b)
}

/// A path without trailing slashes and trailing `.` components.
pub open spec fn tidy(p: Seq<u8>) -> Seq<u8>
    decreases p.len(),
{
    if p.len() > 1 && (p.last() == slash() || (p.last() == dot() && p[p.len() - 2] == slash())) {
        tidy(p.drop_last())
    } else {
        p
    }
}

/// Where the part after the last slash begins.
pub open spec fn name_start(p: Seq<u8>) -> int
    decreases p.len(),
{
    if p.len() == 0 || p.last() == slash() {
        p.len() as int
    } else {
        name_start(p.drop_last())
    }
}

/// The path without its last component; the root and the empty path have none.
pub open spec fn parent_of(p: Seq<u8>) -> Option<Seq<u8>> {
    let whole = tidy(p);
    if whole.len() == 0 || whole == seq![slash()] {
        None
    } else {
        Some(tidy(whole.take(name_start(whole))))
    }
}

/// The last component, unless it is the root, `.` or `..`.
pub open spec fn name_of(p: Seq<u8>) -> Option<Seq<u8>> {
    let whole = tidy(p);
    let name = whole.skip(name_start(whole));
    if significant(name) && name != seq![dot(), dot()] {
        Some(name)
    } else {
        None
    }
}

/// The path of `part` seen from `base`; an absolute `part` stands alone.
pub open spec fn joined_path(base: Seq<u8>, part: Seq<u8>) -> Seq<u8> {
    if part.len() > 0 && part[0] == slash() {
        part
    } else if base.len() > 0 && base.last() != slash() {
        base + seq![slash()] + part
    } else {
        base + part
    }
}

/// Where the first slash stands, or the length where there is none.
pub open spec fn first_slash(s: Seq<u8>) -> int
    decreases s.len(),
{
    if s.len() == 0 || s[0] == slash() {
        0
    } else {
        1 + first_slash(s.skip(1))
    }
}

/// What follows the first `count` components of `s`, from the next one on.
pub open spec fn skip_parts(s: Seq<u8>, count: nat) -> Seq<u8>
    decreases s.len(),
{
    if s.len() == 0 {
        s
    } else {
        let cut = first_slash(s);
        let rest = if 0 <= cut < s.len() {
            s.skip(cut + 1)
        } else {
            seq![]
        };
        if !significant(s.take(cut)) {
            skip_parts(rest, count)
        } else if count == 0 {
            s
        } else {
            skip_parts(rest, (count - 1) as nat)
        }
    }
}

/// The path of `p` relative to `base`, where `base` leads to it.
pub open spec fn relative_to(p: Seq<u8>, base: Seq<u8>) -> Option<Seq<u8>> {
    let mine = components(p);
    let theirs = components(base);
    if theirs.len() > mine.len() || mine.take(theirs.len() as int) != theirs {
        None
    } else if theirs.len() == 0 {
        Some(tidy(p))
    } else {
        Some(tidy(skip_parts(p, (theirs.len() - lead(p).len()) as nat)))
    }
}

/// Where the extension of a file name begins: at its last dot, unless that is its first
/// character.
pub open spec fn stem_length(name: Seq<u8>) -> int
    decreases name.len(),
{
    if name.len() == 0 {
        0
    } else {
        stem_before(name, name.len() as int)
    }
}

/// The position of the last dot before `end`, but not at the start; the length of the
/// name where there is none.
pub open spec fn stem_before(name: Seq<u8>, end: int) -> int
    decreases end,
{
    if end <= 1 {
        name.len() as int
    } else if name[end - 1] == dot() {
        end - 1
    } else {
        stem_before(name, end - 1)
    }
}

/// The path with the extension of its last component replaced.
pub open spec fn with_extension_of(p: Seq<u8>, extension: Seq<u8>) -> Seq<u8> {
    match name_of(p) {
        None => p,
        Some(name) => {
            let whole = tidy(p);
            whole.take(name_start(whole) + stem_length(name)) + seq![dot()] + extension
        },
    }
}

/// The text shown for a path: the home directory is written `~`.
pub open spec fn displayed(p: Seq<u8>, home: Option<Seq<u8>>) -> Seq<char> {
    match home {
        None => lossy_text(p),
        Some(directory) => {
            if same_path(directory, seq![slash()]) {
                lossy_text(p)
            } else if same_path(p, directory) {
                "~"@
            } else {
                match relative_to(p, directory) {
                    Some(relative) => "~/"@ + lossy_text(relative),
                    None => lossy_text(p),
                }
            }
        },
    }
}

proof fn first_slash_is(s: Seq<u8>, at: int)
    requires
        0 <= at <= s.len(),
        at < s.len() ==> s[at] == slash(),
        forall|i: int| 0 <= i < at ==> s[i] != slash(),
    ensures
        first_slash(s) == at,
    decreases s.len(),
{
    if s.len() > 0 && at > 0 {
        assert forall|i: int| 0 <= i < at - 1 implies s.skip(1)[i] != slash() by {
            assert(s.skip(1)[i] == s[i + 1]);
        }
        first_slash_is(s.skip(1), at - 1);
    }
}

fn sub_bytes(bytes: &Vec<u8>, from: usize, to: usize) -> (result: Vec<u8>)
    requires
        from <= to <= bytes@.len(),
    ensures
        result@ == bytes@.subrange(from as int, to as int),
{
    let mut result: Vec<u8> = Vec::new();
    let mut i: usize = from;
    while i < to
        invariant
            from <= i <= to <= bytes@.len(),
            result@ == bytes@.subrange(from as int, i as int),
        decreases to - i,
    {
        result.push(bytes[i]);
        i = i + 1;
    }
    result
}

/// A copy of a byte string.
pub(crate) fn copy_bytes(bytes: &Vec<u8>) -> (result: Vec<u8>)
    ensures
        result@ == bytes@,
{
    let result = sub_bytes(bytes, 0, bytes.len());
    assert(result@ =~= bytes@);
    result
}

/// Whether two byte strings are equal.
pub(crate) fn same_bytes(a: &Vec<u8>, b: &Vec<u8>) -> (same: bool)
    ensures
        same == (a@ == b@),
{
    if a.len() != b.len() {
        return false;
    }
    let mut i: usize = 0;
    while i < a.len()
        invariant
            a@.len() == b@.len(),
            0 <= i <= a@.len(),
            forall|k: int| 0 <= k < i ==> a@[k] == b@[k],
        decreases a@.len() - i,
    {
        if a[i] != b[i] {
            return false;
        }
        i = i + 1;
    }
    assert(a@ =~= b@);
    true
}

/// The views of a list of byte strings.
pub open spec fn byte_lists(list: Seq<Vec<u8>>) -> Seq<Seq<u8>> {
    Seq::new(list.len(), |i: int| list[i]@)
}

fn is_significant(part: &Vec<u8>) -> (answer: bool)
    ensures
        answer == significant(part@),
{
    let answer = part.len() != 0 && !(part.len() == 1 && part[0] == 46);
    proof {
        if part@.len() == 1 && part@[0] == dot() {
            assert(part@ =~= seq![dot()]);
        }
    }
    answer
}

fn split_components(bytes: &Vec<u8>) -> (result: Vec<Vec<u8>>)
    ensures
        byte_lists(result@) == components(bytes@),
{
    let mut result: Vec<Vec<u8>> = Vec::new();
    if bytes.len() > 0 && bytes[0] == 47 {
        let mut root: Vec<u8> = Vec::new();
        root.push(47);
        assert(root@ =~= seq![slash()]);
        result.push(root);
    } else if bytes.len() > 0 && bytes[0] == 46 && (bytes.len() == 1 || bytes[1] == 47) {
        let mut here: Vec<u8> = Vec::new();
        here.push(46);
        assert(here@ =~= seq![dot()]);
        result.push(here);
    }
    let mut start: usize = 0;
    let mut i: usize = 0;
    proof {
        assert(byte_lists(result@) =~= lead(bytes@));
        assert(bytes@.skip(0) =~= bytes@);
        assert(bytes@.subrange(0, 0) =~= Seq::<u8>::empty());
    }
    while i < bytes.len()
        invariant
            start <= i <= bytes@.len(),
            components(bytes@) =~= byte_lists(result@) + parts_after(
                bytes@.subrange(start as int, i as int),
                bytes@.skip(i as int),
            ),
        decreases bytes@.len() - i,
    {
        let ghost part = bytes@.subrange(start as int, i as int);
        let ghost before = byte_lists(result@);
        proof {
            assert(bytes@.skip(i as int).skip(1) =~= bytes@.skip(i + 1));
            assert(part.push(bytes@[i as int]) =~= bytes@.subrange(start as int, i + 1));
            assert(bytes@.subrange(i + 1, i + 1) =~= Seq::<u8>::empty());
        }
        if bytes[i] == 47 {
            let piece = sub_bytes(bytes, start, i);
            if is_significant(&piece) {
                result.push(piece);
                assert(byte_lists(result@) =~= before + finished_part(part));
            }
            start = i + 1;
        }
        i = i + 1;
    }
    let ghost before = byte_lists(result@);
    let piece = sub_bytes(bytes, start, i);
    let ghost part = piece@;
    assert(bytes@.skip(i as int) =~= Seq::<u8>::empty());
    if is_significant(&piece) {
        result.push(piece);
        assert(byte_lists(result@) =~= before + finished_part(part));
    }
    result
}

fn same_lists(a: &Vec<Vec<u8>>, b: &Vec<Vec<u8>>, count: usize) -> (same: bool)
    requires
        count <= a@.len(),
        count <= b@.len(),
    ensures
        same == (byte_lists(a@).take(count as int) == byte_lists(b@).take(count as int)),
{
    let mut i: usize = 0;
    while i < count
        invariant
            0 <= i <= count,
            count <= a@.len(),
            count <= b@.len(),
            forall|k: int| 0 <= k < i ==> a@[k]@ == b@[k]@,
        decreases count - i,
    {
        if !same_bytes(&a[i], &b[i]) {
            proof {
                assert(byte_lists(a@).take(count as int)[i as int] == a@[i as int]@);
                assert(byte_lists(b@).take(count as int)[i as int] == b@[i as int]@);
            }
            return false;
        }
        i = i + 1;
    }
    assert(byte_lists(a@).take(count as int) =~= byte_lists(b@).take(count as int));
    true
}

fn tidy_length(bytes: &Vec<u8>, length: usize) -> (end: usize)
    requires
        length <= bytes@.len(),
    ensures
        end <= length,
        tidy(bytes@.take(length as int)) == bytes@.take(end as int),
{
    let mut end: usize = length;
    while end > 1 && (bytes[end - 1] == 47 || (bytes[end - 1] == 46 && bytes[end - 2] == 47))
        invariant
            end <= length <= bytes@.len(),
            tidy(bytes@.take(length as int)) == tidy(bytes@.take(end as int)),
        decreases end,
    {
        proof {
            let part = bytes@.take(end as int);
            assert(part.last() == bytes@[end - 1]);
            assert(part[end - 2] == bytes@[end - 2]);
            assert(part.drop_last() =~= bytes@.take(end - 1));
        }
        end = end - 1;
    }
    proof {
        let part = bytes@.take(end as int);
        if end > 1 {
            assert(part.last() == bytes@[end - 1]);
            assert(part[end - 2] == bytes@[end - 2]);
        }
        assert(tidy(part) == part);
    }
    end
}

fn find_name(bytes: &Vec<u8>, length: usize) -> (start: usize)
    requires
        length <= bytes@.len(),
    ensures
        start <= length,
        start == name_start(bytes@.take(length as int)),
{
    let mut start: usize = length;
    while start > 0 && bytes[start - 1] != 47
        invariant
            start <= length <= bytes@.len(),
            name_start(bytes@.take(length as int)) == name_start(bytes@.take(start as int)),
        decreases start,
    {
        proof {
            let part = bytes@.take(start as int);
            assert(part.last() == bytes@[start - 1]);
            assert(part.drop_last() =~= bytes@.take(start - 1));
        }
        start = start - 1;
    }
    proof {
        let part = bytes@.take(start as int);
        if start > 0 {
            assert(part.last() == bytes@[start - 1]);
        }
    }
    start
}

fn skip_components(bytes: &Vec<u8>, count: usize) -> (start: usize)
    ensures
        start <= bytes@.len(),
        bytes@.skip(start as int) == skip_parts(bytes@, count as nat),
{
    let mut left: usize = count;
    let mut start: usize = 0;
    proof {
        assert(bytes@.skip(0) =~= bytes@);
    }
    while start < bytes.len()
        invariant
            0 <= start <= bytes@.len(),
            skip_parts(bytes@, count as nat) == skip_parts(bytes@.skip(start as int), left as nat),
        decreases bytes@.len() - start,
    {
        let ghost s = bytes@.skip(start as int);
        let mut end: usize = start;
        while end < bytes.len() && bytes[end] != 47
            invariant
                start <= end <= bytes@.len(),
                s == bytes@.skip(start as int),
                forall|i: int| 0 <= i < end - start ==> s[i] != slash(),
            decreases bytes@.len() - end,
        {
            assert(s[end - start] == bytes@[end as int]);
            end = end + 1;
        }
        proof {
            if end < bytes@.len() {
                assert(s[end - start] == bytes@[end as int]);
            }
            first_slash_is(s, end - start);
            assert(s.take(end - start) =~= bytes@.subrange(start as int, end as int));
            if end < bytes@.len() {
                assert(s.skip(end - start + 1) =~= bytes@.skip(end + 1));
            } else {
                assert(bytes@.skip(end as int) =~= Seq::<u8>::empty());
            }
        }
        let part = sub_bytes(bytes, start, end);
        if is_significant(&part) {
            if left == 0 {
                return start;
            }
            left = left - 1;
        }
        if end < bytes.len() {
            start = end + 1;
        } else {
            start = end;
        }
    }
    start
}

impl RawPath {
    /// The path with the given bytes.
    pub fn from_bytes(bytes: Vec<u8>) -> (path: Self)
        ensures
            path@ == bytes@,
    {
        RawPath { bytes }
    }

    /// The path written as a text.
    pub fn from_text(text: &str) -> (path: Self)
        ensures
            path@ == encode_utf8(text@),
    {
        RawPath { bytes: text.as_bytes_vec() }
    }

    /// The bytes of the path.
    pub fn as_bytes(&self) -> (bytes: &Vec<u8>)
        ensures
            bytes@ == self@,
    {
        &self.bytes
    }

    /// The path as text, with what is not valid UTF-8 replaced.
    pub fn to_text(&self) -> (text: String)
        ensures
            text@ == lossy_text(self@),
    {
        decode_lossy(self.bytes.as_slice())
    }

    /// Whether the components of both paths are the same.
    pub fn same(&self, other: &RawPath) -> (answer: bool)
        ensures
            answer == same_path(self@, other@),
    {
        let mine = split_components(&self.bytes);
        let theirs = split_components(&other.bytes);
        if mine.len() != theirs.len() {
            assert(byte_lists(mine@).len() != byte_lists(theirs@).len());
            return false;
        }
        proof {
            assert(byte_lists(mine@).take(mine@.len() as int) =~= byte_lists(mine@));
            assert(byte_lists(theirs@).take(mine@.len() as int) =~= byte_lists(theirs@));
        }
        same_lists(&mine, &theirs, mine.len())
    }

    /// The path without its last component.
    pub fn parent(&self) -> (result: Option<RawPath>)
        ensures
            maybe_path(result) == parent_of(self@),
    {
        let length = tidy_length(&self.bytes, self.bytes.len());
        proof {
            assert(self.bytes@.take(self.bytes@.len() as int) =~= self.bytes@);
        }
        let ghost whole = self.bytes@.take(length as int);
        if length == 0 {
            return None;
        }
        if length == 1 && self.bytes[0] == 47 {
            assert(whole =~= seq![slash()]);
            return None;
        }
        proof {
            if whole == seq![slash()] {
                assert(whole[0] == slash());
            }
        }
        let start = find_name(&self.bytes, length);
        let end = tidy_length(&self.bytes, start);
        proof {
            assert(whole.take(start as int) =~= self.bytes@.take(start as int));
        }
        let bytes = sub_bytes(&self.bytes, 0, end);
        assert(bytes@ =~= self.bytes@.take(end as int));
        Some(RawPath { bytes })
    }

    /// The last component, unless it is the root, `.` or `..`.
    pub fn file_name(&self) -> (result: Option<RawPath>)
        ensures
            maybe_path(result) == name_of(self@),
    {
        let length = tidy_length(&self.bytes, self.bytes.len());
        proof {
            assert(self.bytes@.take(self.bytes@.len() as int) =~= self.bytes@);
        }
        let ghost whole = self.bytes@.take(length as int);
        let start = find_name(&self.bytes, length);
        let name = sub_bytes(&self.bytes, start, length);
        assert(name@ =~= whole.skip(start as int));
        let upward = name.len() == 2 && name[0] == 46 && name[1] == 46;
        proof {
            if upward {
                assert(name@ =~= seq![dot(), dot()]);
            }
        }
        if is_significant(&name) && !upward {
            Some(RawPath { bytes: name })
        } else {
            None
        }
    }

    /// The path of `part` seen from this directory.
    pub fn join(&self, part: &RawPath) -> (result: RawPath)
        ensures
            result@ == joined_path(self@, part@),
    {
        if part.bytes.len() > 0 && part.bytes[0] == 47 {
            return RawPath { bytes: copy_bytes(&part.bytes) };
        }
        let mut bytes = copy_bytes(&self.bytes);
        if bytes.len() > 0 && bytes[bytes.len() - 1] != 47 {
            bytes.push(47);
        }
        let ghost before = bytes@;
        let mut i: usize = 0;
        while i < part.bytes.len()
            invariant
                0 <= i <= part.bytes@.len(),
                bytes@ =~= before + part.bytes@.take(i as int),
            decreases part.bytes@.len() - i,
        {
            bytes.push(part.bytes[i]);
            i = i + 1;
        }
        assert(bytes@ =~= joined_path(self@, part@));
        RawPath { bytes }
    }

    /// The path seen from `base`, where `base` leads to it.
    pub fn strip_prefix(&self, base: &RawPath) -> (result: Option<RawPath>)
        ensures
            maybe_path(result) == relative_to(self@, base@),
    {
        let mine = split_components(&self.bytes);
        let theirs = split_components(&base.bytes);
        if theirs.len() > mine.len() {
            return None;
        }
        proof {
            assert(byte_lists(theirs@).take(theirs@.len() as int) =~= byte_lists(theirs@));
        }
        if !same_lists(&mine, &theirs, theirs.len()) {
            return None;
        }
        proof {
            assert(self.bytes@.take(self.bytes@.len() as int) =~= self.bytes@);
        }
        let end = tidy_length(&self.bytes, self.bytes.len());
        if theirs.len() == 0 {
            let bytes = sub_bytes(&self.bytes, 0, end);
            assert(bytes@ =~= self.bytes@.take(end as int));
            return Some(RawPath { bytes });
        }
        let led = self.bytes.len() > 0 && (self.bytes[0] == 47 || (self.bytes[0] == 46 && (
        self.bytes.len() == 1 || self.bytes[1] == 47)));
        let count: usize = if led {
            theirs.len() - 1
        } else {
            theirs.len()
        };
        let start = skip_components(&self.bytes, count);
        let rest = sub_bytes(&self.bytes, start, self.bytes.len());
        assert(rest@ =~= self.bytes@.skip(start as int));
        let length = tidy_length(&rest, rest.len());
        proof {
            assert(rest@.take(rest@.len() as int) =~= rest@);
        }
        let bytes = sub_bytes(&rest, 0, length);
        assert(bytes@ =~= rest@.take(length as int));
        Some(RawPath { bytes })
    }

    /// The path with the extension of its last component replaced.
    pub fn with_extension(&self, extension: &str) -> (result: RawPath)
        ensures
            result@ == with_extension_of(self@, encode_utf8(extension@)),
    {
        let length = tidy_length(&self.bytes, self.bytes.len());
        proof {
            assert(self.bytes@.take(self.bytes@.len() as int) =~= self.bytes@);
        }
        let ghost whole = self.bytes@.take(length as int);
        let start = find_name(&self.bytes, length);
        let name = match self.file_name() {
            Some(name) => name,
            None => return RawPath { bytes: copy_bytes(&self.bytes) },
        };
        assert(name@ =~= whole.skip(start as int));
        let mut end: usize = name.bytes.len();
        while end > 1 && name.bytes[end - 1] != 46
            invariant
                end <= name.bytes@.len(),
                stem_length(name@) == stem_before(name@, end as int) || name@.len() == 0,
                name@ == name.bytes@,
            decreases end,
        {
            end = end - 1;
        }
        let stem: usize = if end > 1 {
            end - 1
        } else {
            name.bytes.len()
        };
        assert(stem == stem_length(name@));
        let mut bytes = sub_bytes(&self.bytes, 0, start + stem);
        assert(bytes@ =~= whole.take(start + stem));
        bytes.push(46);
        let ghost before = bytes@;
        let suffix = extension.as_bytes_vec();
        let mut i: usize = 0;
        while i < suffix.len()
            invariant
                0 <= i <= suffix@.len(),
                bytes@ =~= before + suffix@.take(i as int),
            decreases suffix@.len() - i,
        {
            bytes.push(suffix[i]);
            i = i + 1;
        }
        assert(bytes@ =~= whole.take(start + stem) + seq![dot()] + suffix@);
        RawPath { bytes }
    }
}

impl Clone for RawPath {
    fn clone(&self) -> (copy: Self)
        ensures
            copy@ == self@,
    {
        RawPath { bytes: copy_bytes(&self.bytes) }
    }
}

impl PartialEq for RawPath {
    fn eq(&self, other: &Self) -> (answer: bool) {
        self.same(other)
    }
}

impl vstd::std_specs::cmp::PartialEqSpecImpl for RawPath {
    open spec fn obeys_eq_spec() -> bool {
        true
    }

    open spec fn eq_spec(&self, other: &Self) -> bool {
        same_path(self@, other@)
    }
}

impl Eq for RawPath {

}

/// The text shown for a path, given the home directory.
pub fn display_path(path: &RawPath, home: Option<&RawPath>) -> (text: String)
    ensures
        text@ == displayed(path@, borrowed_path(home)),
{
    let directory = match home {
        None => return path.to_text(),
        Some(directory) => directory,
    };
    let mut root: Vec<u8> = Vec::new();
    root.push(47);
    assert(root@ =~= seq![slash()]);
    if directory.same(&RawPath { bytes: root }) {
        return path.to_text();
    }
    if path.same(directory) {
        return "~".to_owned();
    }
    match path.strip_prefix(directory) {
        Some(relative) => concat("~/", relative.to_text().as_str()),
        None => path.to_text(),
    }
}

} // verus!
