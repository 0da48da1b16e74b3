//! Magnet links: what is handed to the torrent session for the link that a user gives.
use crate::number::{parse_u64, parsed};
use crate::text::{
    chars_of, cut_at, occurs_in, pieces, same_text, split, split_once, starts_with, strip_prefix,
    texts,
};
use vstd::prelude::*;

verus! {

/// What a magnet link holds, where it can be read: the parameters that name its content, the
/// trackers, and the parameter that selects files, empty where all are meant. Where it cannot be
/// read, the reason.
pub uninterp spec fn parsed_magnet(url: Seq<char>) -> Result<
    (Seq<char>, Seq<Seq<char>>, Seq<char>),
    Seq<char>,
>;

/// The parameters that name trackers.
pub open spec fn tracker_parameters(trackers: Seq<Seq<char>>) -> Seq<char>
    decreases trackers.len(),
{
    if trackers.len() == 0 {
        Seq::empty()
    } else {
        tracker_parameters(trackers.drop_last()) + "&tr="@ + trackers.last()
    }
}

/// The text of a magnet link.
pub open spec fn magnet_text(
    content: Seq<char>,
    trackers: Seq<Seq<char>>,
    selection: Seq<char>,
) -> Seq<char> {
    "magnet:?"@ + content + tracker_parameters(trackers) + selection
}

/// `librqbit::Magnet::parse`, and its `trackers`: those that the link names, in order, or the text
/// of the error. Both are a function of the link alone, which has to be one on which parsing does
/// not panic. The files that a link selects are taken to fit in memory where a `Vec` can address
/// them.
#[verifier::external_body]
fn magnet_trackers(url: &str) -> (trackers: Result<Vec<String>, String>)
    requires
        "magnet:?"@.is_prefix_of(url@),
        !parse_panics(url@),
    ensures
        match trackers {
            Ok(trackers) => parsed_magnet(url@) matches Ok((_, found, _)) && texts(trackers@)
                == found,
            Err(reason) => parsed_magnet(url@) matches Err(given) && reason@ == given,
        },
{
    match librqbit::Magnet::parse(url) {
        Ok(magnet) => Ok(magnet.trackers),
        Err(error) => Err(error.to_string()),
    }
}

/// `librqbit::Magnet::parse` and the `Display` of a `librqbit::Magnet`: the link with `trackers` in
/// place of its own, or the text of the error. The link is written as the parameters that name its
/// content, then one parameter per tracker, then the selection of files.
#[verifier::external_body]
fn magnet_with_trackers(url: &str, trackers: Vec<String>) -> (link: Result<String, String>)
    requires
        "magnet:?"@.is_prefix_of(url@),
        !parse_panics(url@),
    ensures
        match link {
            Ok(link) => parsed_magnet(url@) matches Ok((content, _, selection)) && link@
                == magnet_text(content, texts(trackers@), selection),
            Err(reason) => parsed_magnet(url@) matches Err(given) && reason@ == given,
        },
{
    match librqbit::Magnet::parse(url) {
        Ok(mut magnet) => {
            magnet.trackers = trackers;
            Ok(magnet.to_string())
        },
        Err(error) => Err(error.to_string()),
    }
}

/// The value of a hexadecimal digit.
pub open spec fn hex_digit(c: char) -> Option<u8> {
    if '0' <= c <= '9' {
        Some((c as u8 - 48) as u8)
    } else if 'a' <= c <= 'f' {
        Some((c as u8 - 87) as u8)
    } else if 'A' <= c <= 'F' {
        Some((c as u8 - 55) as u8)
    } else {
        None
    }
}

/// A part of a query with its escapes undone: `%` and two hexadecimal digits stand for a byte, and
/// `+` for a space.
pub open spec fn unescaped(s: Seq<char>) -> Seq<char>
    decreases s.len(),
{
    if s.len() == 0 {
        Seq::empty()
    } else if s[0] == '%' && s.len() >= 3 && hex_digit(s[1]) is Some && hex_digit(s[2]) is Some {
        seq![(hex_digit(s[1])->0 * 16 + hex_digit(s[2])->0) as char] + unescaped(s.skip(3))
    } else if s[0] == '+' {
        seq![' '] + unescaped(s.skip(1))
    } else {
        seq![s[0]] + unescaped(s.skip(1))
    }
}

/// A link without the control characters and spaces at its end.
pub open spec fn unpadded(s: Seq<char>) -> Seq<char>
    decreases s.len(),
{
    if s.len() > 0 && s.last() <= ' ' {
        unpadded(s.drop_last())
    } else {
        s
    }
}

/// Whether a character inside a link is passed over: a tab or a line break.
pub open spec fn is_passed_over(c: char) -> bool {
    c == '\t' || c == '\n' || c == '\r'
}

/// What stands before the fragment of a link, without tabs and line breaks.
pub open spec fn before_fragment(s: Seq<char>) -> Seq<char>
    decreases s.len(),
{
    if s.len() == 0 || s[0] == '#' {
        Seq::empty()
    } else if is_passed_over(s[0]) {
        before_fragment(s.skip(1))
    } else {
        seq![s[0]] + before_fragment(s.skip(1))
    }
}

/// The query of a magnet link.
pub open spec fn query_of(url: Seq<char>) -> Seq<char> {
    before_fragment(unpadded(url).skip("magnet:?"@.len() as int))
}

/// The value of a base-32 digit.
pub open spec fn base32_digit(c: char) -> Option<int> {
    if 'A' <= c <= 'Z' {
        Some(c as int - 65)
    } else if '2' <= c <= '7' {
        Some(c as int - 24)
    } else {
        None
    }
}

/// How many characters of a group hold data: all but the padding at its end.
pub open spec fn data_length(group: Seq<char>) -> nat
    decreases group.len(),
{
    if group.len() > 0 && group.last() == '=' {
        data_length(group.drop_last())
    } else {
        group.len()
    }
}

/// Of which number the last digit of a group is a multiple when the bits that fill no byte are
/// zero: `n` digits have five bits each.
pub open spec fn trailing_unit(n: nat) -> int {
    if n == 2 {
        4
    } else if n == 4 {
        16
    } else if n == 5 {
        2
    } else if n == 7 {
        8
    } else {
        1
    }
}

/// How many bytes a group of eight base-32 characters stands for, where it is one.
pub open spec fn group_bytes(group: Seq<char>) -> Option<nat> {
    let n = data_length(group);
    if (n == 2 || n == 4 || n == 5 || n == 7 || n == 8) && (forall|i: int|
        0 <= i < n ==> base32_digit(#[trigger] group[i]) is Some) && base32_digit(
        group[n - 1],
    )->0 % trailing_unit(n) == 0 {
        Some(5 * n / 8)
    } else {
        None
    }
}

/// How many bytes a base-32 text stands for, where it is one: it is made of groups.
pub open spec fn base32_bytes(text: Seq<char>) -> Option<nat>
    decreases text.len(),
{
    if text.len() < 8 {
        Some(0)
    } else {
        match (base32_bytes(text.take(text.len() - 8)), group_bytes(text.skip(text.len() - 8))) {
            (Some(before), Some(n)) => Some(before + n),
            _ => None,
        }
    }
}

/// What becomes of a part of a link that is parsed.
pub enum Verdict {
    Passed,
    /// Parsing ends with an error.
    Refused,
    /// Parsing panics.
    Fatal,
}

/// What becomes of the name of a content, which stands for `size` bytes: it is read as hexadecimal
/// or as base 32, by its length. The bytes of a base-32 name are copied to where just `size` fit.
pub open spec fn name_verdict(name: Seq<char>, size: nat) -> Verdict {
    if name.len() == 2 * size {
        if forall|i: int| 0 <= i < name.len() ==> hex_digit(#[trigger] name[i]) is Some {
            Verdict::Passed
        } else {
            Verdict::Refused
        }
    } else if name.len() == (size + 4) / 5 * 8 {
        match base32_bytes(name) {
            Some(n) => if n == size {
                Verdict::Passed
            } else {
                Verdict::Fatal
            },
            None => Verdict::Refused,
        }
    } else {
        Verdict::Refused
    }
}

/// What becomes of a parameter that names a content.
pub open spec fn content_verdict(value: Seq<char>) -> Verdict {
    if "urn:btih:"@.is_prefix_of(value) {
        name_verdict(value.skip("urn:btih:"@.len() as int), 20)
    } else if "urn:btmh:1220"@.is_prefix_of(value) {
        name_verdict(value.skip("urn:btmh:1220"@.len() as int), 32)
    } else {
        Verdict::Refused
    }
}

/// The index that a text writes.
pub open spec fn index_in(text: Seq<char>) -> Option<u64> {
    match parsed(text) {
        Some(n) => if n <= usize::MAX {
            Some(n)
        } else {
            None
        },
        None => None,
    }
}

/// How many files a choice selects: one, or those of a range.
pub open spec fn chosen(choice: Seq<char>) -> nat {
    match cut_at(choice, '-') {
        Some((first, last)) => match (index_in(first), index_in(last)) {
            (Some(first), Some(last)) => if first <= last {
                (last - first + 1) as nat
            } else {
                0
            },
            _ => 0,
        },
        None => if index_in(choice) is Some {
            1
        } else {
            0
        },
    }
}

/// How many files a list of choices selects.
pub open spec fn selected(choices: Seq<Seq<char>>) -> nat
    decreases choices.len(),
{
    if choices.len() == 0 {
        0
    } else {
        selected(choices.drop_last()) + chosen(choices.last())
    }
}

/// How many indices a `Vec` can address.
pub open spec fn most_indices() -> int {
    isize::MAX as int / (usize::BITS as int / 8)
}

/// How far parsing has come.
pub enum Walk {
    /// It goes on, with so many files selected.
    Going(nat),
    /// It has ended with an error.
    Refused,
    /// It has panicked.
    Fatal,
}

/// A parameter as name and value.
pub open spec fn named_value(parameter: Seq<char>) -> (Seq<char>, Seq<char>) {
    match cut_at(parameter, '=') {
        Some((name, value)) => (unescaped(name), unescaped(value)),
        None => (unescaped(parameter), Seq::empty()),
    }
}

/// How far parsing has come after one parameter more, with `files` selected before.
pub open spec fn stepped(files: nat, parameter: Seq<char>) -> Walk {
    let (name, value) = named_value(parameter);
    if name == "xt"@ {
        match content_verdict(value) {
            Verdict::Passed => Walk::Going(files),
            Verdict::Refused => Walk::Refused,
            Verdict::Fatal => Walk::Fatal,
        }
    } else if name == "so"@ {
        let all = files + selected(pieces(value, seq![',']));
        if all <= most_indices() {
            Walk::Going(all)
        } else {
            Walk::Fatal
        }
    } else {
        Walk::Going(files)
    }
}

/// How far parsing has come after a list of parameters: it stops at the first that is refused.
pub open spec fn walked(parameters: Seq<Seq<char>>) -> Walk
    decreases parameters.len(),
{
    if parameters.len() == 0 {
        Walk::Going(0)
    } else {
        match walked(parameters.drop_last()) {
            Walk::Going(files) => stepped(files, parameters.last()),
            stopped => stopped,
        }
    }
}

/// How many bytes a character takes in UTF-8.
pub open spec fn utf8_length(c: char) -> nat {
    if c <= '\u{7f}' {
        1
    } else if c <= '\u{7ff}' {
        2
    } else if c <= '\u{ffff}' {
        3
    } else {
        4
    }
}

/// How many bytes a character of a query takes when it is written with escapes.
pub open spec fn escaped_length(c: char) -> nat {
    if '!' <= c <= '~' && c != '"' && c != '<' && c != '>' {
        1
    } else {
        3 * utf8_length(c)
    }
}

/// How many bytes a query takes when it is written with escapes.
pub open spec fn query_length(query: Seq<char>) -> nat
    decreases query.len(),
{
    if query.len() == 0 {
        0
    } else {
        query_length(query.drop_last()) + escaped_length(query.last())
    }
}

/// Whether a link is refused for its size, before its parameters are read: the place of a fragment
/// has to fit in 32 bits.
pub open spec fn is_oversized(url: Seq<char>) -> bool {
    unpadded(url).skip("magnet:?"@.len() as int).contains('#') && "magnet:?"@.len() + query_length(
        query_of(url),
    ) > u32::MAX
}

/// Whether parsing panics on a link: it is a magnet link that gets past the parameters before one
/// whose name has too few or too many bytes, or whose selection of files no `Vec` can address.
pub open spec fn parse_panics(url: Seq<char>) -> bool {
    &&& "magnet:?"@.is_prefix_of(url)
    &&& !is_oversized(url)
    &&& walked(pieces(query_of(url), seq!['&'])) is Fatal
}

/// The value of a hexadecimal digit.
fn hex_value(c: char) -> (value: Option<u8>)
    ensures
        value == hex_digit(c),
        value matches Some(v) ==> v < 16,
{
    if '0' <= c && c <= '9' {
        Some(c as u8 - 48)
    } else if 'a' <= c && c <= 'f' {
        Some(c as u8 - 87)
    } else if 'A' <= c && c <= 'F' {
        Some(c as u8 - 55)
    } else {
        None
    }
}

/// A part of a query with its escapes undone.
fn unescape(s: &str) -> (out: String)
    ensures
        out@ == unescaped(s@),
{
    let chars = chars_of(s);
    let mut out = String::new();
    let mut i: usize = 0;
    assert(s@.skip(0) =~= s@);
    while i < chars.len()
        invariant
            chars@ == s@,
            i <= s@.len(),
            out@ + unescaped(s@.skip(i as int)) == unescaped(s@),
        decreases s@.len() - i,
    {
        let ghost rest = s@.skip(i as int);
        let ghost before = out@;
        let c = chars[i];
        let mut byte: Option<u8> = None;
        if c == '%' && chars.len() - i >= 3 {
            if let (Some(high), Some(low)) = (hex_value(chars[i + 1]), hex_value(chars[i + 2])) {
                byte = Some(high * 16 + low);
            }
        }
        match byte {
            Some(b) => {
                out.push(b as char);
                i += 3;
                assert(rest.skip(3) =~= s@.skip(i as int));
                assert(before + (seq![b as char] + unescaped(rest.skip(3))) =~= out@ + unescaped(
                    s@.skip(i as int),
                ));
            },
            None => {
                let shown = if c == '+' { ' ' } else { c };
                out.push(shown);
                i += 1;
                assert(rest.skip(1) =~= s@.skip(i as int));
                assert(before + (seq![shown] + unescaped(rest.skip(1))) =~= out@ + unescaped(
                    s@.skip(i as int),
                ));
            },
        }
    }
    assert(s@.skip(i as int) =~= Seq::empty());
    assert(out@ =~= unescaped(s@));
    out
}

/// Blanks at the end of a link that starts as a magnet link stand behind that start.
proof fn lemma_unpadded_keeps_prefix(s: Seq<char>)
    requires
        "magnet:?"@.is_prefix_of(s),
    ensures
        "magnet:?"@.is_prefix_of(unpadded(s)),
    decreases s.len(),
{
    reveal_strlit("magnet:?");
    if s.len() > 0 && s.last() <= ' ' {
        if s.len() == "magnet:?"@.len() {
            assert(s.last() == "magnet:?"@.last());
        }
        assert("magnet:?"@.is_prefix_of(s.drop_last()));
        lemma_unpadded_keeps_prefix(s.drop_last());
    }
}

/// The query of a magnet link.
fn query_text(url: &str) -> (query: String)
    requires
        "magnet:?"@.is_prefix_of(url@),
    ensures
        query@ == query_of(url@),
{
    let chars = chars_of(url);
    let mut end: usize = chars.len();
    assert(url@.take(end as int) =~= url@);
    while end > 0 && chars[end - 1] <= ' '
        invariant
            chars@ == url@,
            end <= url@.len(),
            unpadded(url@.take(end as int)) == unpadded(url@),
        decreases end,
    {
        assert(url@.take(end as int).drop_last() =~= url@.take(end - 1));
        end -= 1;
    }
    let ghost link = url@.take(end as int);
    proof {
        assert(link == unpadded(url@));
        lemma_unpadded_keeps_prefix(url@);
        reveal_strlit("magnet:?");
    }
    let mut query = String::new();
    let mut i: usize = 8;
    while i < end && chars[i] != '#'
        invariant
            chars@ == url@,
            link == url@.take(end as int),
            8 <= i <= end <= url@.len(),
            query@ + before_fragment(link.skip(i as int)) == before_fragment(link.skip(8)),
        decreases end - i,
    {
        let ghost before = query@;
        let ghost rest = link.skip(i as int);
        let c = chars[i];
        assert(rest[0] == c);
        assert(rest.skip(1) =~= link.skip(i + 1));
        if c != '\t' && c != '\n' && c != '\r' {
            query.push(c);
            assert(before + (seq![c] + before_fragment(rest.skip(1))) =~= query@ + before_fragment(
                rest.skip(1),
            ));
        }
        i += 1;
    }
    assert(before_fragment(link.skip(i as int)) =~= Seq::empty()) by {
        if i < end {
            assert(link.skip(i as int)[0] == '#');
        }
    }
    assert(query@ =~= query_of(url@));
    query
}

/// The value of a base-32 digit.
fn base32_value(c: char) -> (value: Option<u8>)
    ensures
        match value {
            Some(v) => base32_digit(c) == Some(v as int),
            None => base32_digit(c) is None,
        },
{
    if 'A' <= c && c <= 'Z' {
        Some(c as u8 - 65)
    } else if '2' <= c && c <= '7' {
        Some(c as u8 - 24)
    } else {
        None
    }
}

/// How many bytes the group of eight characters at `from` stands for, where it is one.
fn group_size(text: &[char], from: usize) -> (size: Option<usize>)
    requires
        from + 8 <= text@.len(),
    ensures
        match size {
            Some(n) => group_bytes(text@.subrange(from as int, from + 8)) == Some(n as nat) && n
                <= 5,
            None => group_bytes(text@.subrange(from as int, from + 8)) is None,
        },
{
    let ghost group = text@.subrange(from as int, from + 8);
    let end: usize = text.len();
    let mut n: usize = 8;
    assert(group.take(8) =~= group);
    while n > 0 && text[from + n - 1] == '='
        invariant
            group == text@.subrange(from as int, from + 8),
            from + 8 <= end == text@.len(),
            n <= 8,
            data_length(group.take(n as int)) == data_length(group),
        decreases n,
    {
        assert(group.take(n as int).last() == text@[from + n - 1]);
        assert(group.take(n as int).drop_last() =~= group.take(n - 1));
        n -= 1;
    }
    assert(data_length(group) == n) by {
        if n > 0 {
            assert(group.take(n as int).last() == text@[from + n - 1]);
        }
    }
    if !(n == 2 || n == 4 || n == 5 || n == 7 || n == 8) {
        return None;
    }
    let mut last: u8 = 0;
    for i in 0..n
        invariant
            group == text@.subrange(from as int, from + 8),
            from + 8 <= end == text@.len(),
            n <= 8,
            data_length(group) == n,
            forall|j: int| 0 <= j < i ==> base32_digit(#[trigger] group[j]) is Some,
            i > 0 ==> base32_digit(group[i - 1]) == Some(last as int),
    {
        assert(group[i as int] == text@[from + i]);
        match base32_value(text[from + i]) {
            Some(value) => {
                last = value;
            },
            None => return None,
        }
    }
    let unit: u8 = if n == 2 {
        4
    } else if n == 4 {
        16
    } else if n == 5 {
        2
    } else if n == 7 {
        8
    } else {
        1
    };
    if last % unit == 0 {
        Some(5 * n / 8)
    } else {
        None
    }
}

/// A text of which one group is no base 32 is none.
proof fn lemma_bad_group_spoils(text: Seq<char>, at: int)
    requires
        0 <= at,
        8 * at + 8 <= text.len(),
        text.len() % 8 == 0,
        group_bytes(text.subrange(8 * at, 8 * at + 8)) is None,
    ensures
        base32_bytes(text) is None,
    decreases text.len(),
{
    let before = text.take(text.len() - 8);
    if 8 * at + 8 == text.len() {
        assert(text.skip(text.len() - 8) =~= text.subrange(8 * at, 8 * at + 8));
    } else {
        assert(before.subrange(8 * at, 8 * at + 8) =~= text.subrange(8 * at, 8 * at + 8));
        lemma_bad_group_spoils(before, at);
    }
}

/// How many bytes a base-32 text of whole groups stands for, where it is one.
fn base32_size(text: &[char]) -> (size: Option<usize>)
    requires
        text@.len() % 8 == 0,
    ensures
        match size {
            Some(n) => base32_bytes(text@) == Some(n as nat),
            None => base32_bytes(text@) is None,
        },
{
    let groups: usize = text.len() / 8;
    let mut size: usize = 0;
    for i in 0..groups
        invariant
            groups == text@.len() / 8,
            text@.len() % 8 == 0,
            text@.len() <= usize::MAX,
            size <= 5 * i,
            base32_bytes(text@.take(8 * i)) == Some(size as nat),
    {
        let from: usize = 8 * i;
        match group_size(text, from) {
            Some(n) => {
                proof {
                    let grown = text@.take(8 * i + 8);
                    assert(grown.take(grown.len() - 8) =~= text@.take(8 * i));
                    assert(grown.skip(grown.len() - 8) =~= text@.subrange(8 * i, 8 * i + 8));
                }
                size = size + n;
            },
            None => {
                proof {
                    lemma_bad_group_spoils(text@, i as int);
                }
                return None;
            },
        }
    }
    assert(text@.take(8 * groups) =~= text@);
    Some(size)
}

/// What becomes of the name of a content that stands for `size` bytes.
fn judge_name(name: &str, size: usize) -> (verdict: Verdict)
    requires
        size <= 32,
    ensures
        verdict == name_verdict(name@, size as nat),
{
    let chars = chars_of(name);
    if chars.len() == 2 * size {
        for i in 0..chars.len()
            invariant
                chars@ == name@,
                chars@.len() == 2 * size,
                forall|j: int| 0 <= j < i ==> hex_digit(#[trigger] name@[j]) is Some,
        {
            if hex_value(chars[i]).is_none() {
                assert(hex_digit(name@[i as int]) is None);
                return Verdict::Refused;
            }
        }
        Verdict::Passed
    } else if chars.len() == (size + 4) / 5 * 8 {
        match base32_size(&chars) {
            Some(n) => if n == size {
                Verdict::Passed
            } else {
                Verdict::Fatal
            },
            None => Verdict::Refused,
        }
    } else {
        Verdict::Refused
    }
}

/// What becomes of a parameter that names a content.
fn judge_content(value: &str) -> (verdict: Verdict)
    ensures
        verdict == content_verdict(value@),
{
    if let Some(short) = strip_prefix(value, "urn:btih:") {
        judge_name(short.as_str(), 20)
    } else if let Some(long) = strip_prefix(value, "urn:btmh:1220") {
        judge_name(long.as_str(), 32)
    } else {
        Verdict::Refused
    }
}

/// The index that a text writes.
fn index_of(text: &str) -> (index: Option<u64>)
    ensures
        index == index_in(text@),
{
    match parse_u64(text) {
        Some(n) => if n <= usize::MAX as u64 {
            Some(n)
        } else {
            None
        },
        None => None,
    }
}

/// How many files a choice selects.
fn count_chosen(choice: &str) -> (n: u128)
    ensures
        n == chosen(choice@),
        n <= 0x1_0000_0000_0000_0000,
{
    match split_once(choice, '-') {
        Some((first, last)) => match (index_of(first.as_str()), index_of(last.as_str())) {
            (Some(first), Some(last)) => if first <= last {
                (last - first) as u128 + 1
            } else {
                0
            },
            _ => 0,
        },
        None => if index_of(choice).is_some() {
            1
        } else {
            0
        },
    }
}

/// More choices never select fewer files.
proof fn lemma_selected_grows(choices: Seq<Seq<char>>, n: int)
    requires
        0 <= n <= choices.len(),
    ensures
        selected(choices.take(n)) <= selected(choices),
    decreases choices.len() - n,
{
    if n == choices.len() {
        assert(choices.take(n) =~= choices);
    } else {
        assert(choices.take(n + 1).drop_last() =~= choices.take(n));
        lemma_selected_grows(choices, n + 1);
    }
}

/// The number of files selected after a selection more, where a `Vec` can address them.
fn count_selected(files: u128, value: &str) -> (all: Option<u128>)
    requires
        files <= most_indices(),
    ensures
        ({
            let sum = files + selected(pieces(value@, seq![',']));
            match all {
                Some(n) => n == sum && sum <= most_indices(),
                None => sum > most_indices(),
            }
        }),
{
    let seps: [char; 1] = [','];
    assert(seps@ =~= seq![',']);
    let choices = split(value, &seps);
    let ghost texts_of = pieces(value@, seq![',']);
    let most: u128 = (isize::MAX as usize / (usize::BITS as usize / 8)) as u128;
    let mut all: u128 = files;
    assert(texts_of.take(0) =~= Seq::empty());
    for i in 0..choices.len()
        invariant
            most == most_indices(),
            texts_of == pieces(value@, seq![',']),
            texts(choices@) == texts_of,
            all == files + selected(texts_of.take(i as int)),
            all <= most <= 0x1_0000_0000_0000_0000,
    {
        assert(texts_of[i as int] == choices@[i as int]@);
        assert(texts_of.take(i + 1).drop_last() =~= texts_of.take(i as int));
        all = all + count_chosen(choices[i].as_str());
        if all > most {
            proof {
                lemma_selected_grows(texts_of, i + 1);
            }
            return None;
        }
    }
    assert(texts_of.take(choices@.len() as int) =~= texts_of);
    Some(all)
}

/// A parameter as name and value.
fn name_and_value(parameter: &str) -> (pair: (String, String))
    ensures
        (pair.0@, pair.1@) == named_value(parameter@),
{
    match split_once(parameter, '=') {
        Some((name, value)) => (unescape(name.as_str()), unescape(value.as_str())),
        None => (unescape(parameter), String::new()),
    }
}

/// Where parsing has stopped it stays.
proof fn lemma_stopped_stays(parameters: Seq<Seq<char>>, n: int)
    requires
        0 <= n <= parameters.len(),
        !(walked(parameters.take(n)) is Going),
    ensures
        walked(parameters) == walked(parameters.take(n)),
    decreases parameters.len() - n,
{
    if n == parameters.len() {
        assert(parameters.take(n) =~= parameters);
    } else {
        assert(parameters.take(n + 1).drop_last() =~= parameters.take(n));
        lemma_stopped_stays(parameters, n + 1);
    }
}

/// How many bytes a query takes when it is written with escapes.
fn count_query(query: &str) -> (n: u128)
    ensures
        n == query_length(query@),
{
    let chars = chars_of(query);
    let mut n: u128 = 0;
    for i in 0..chars.len()
        invariant
            chars@ == query@,
            n == query_length(query@.take(i as int)),
            n <= 12 * i,
    {
        assert(query@.take(i + 1).drop_last() =~= query@.take(i as int));
        let c = chars[i];
        let bytes: u128 = if c <= '\u{7f}' {
            1
        } else if c <= '\u{7ff}' {
            2
        } else if c <= '\u{ffff}' {
            3
        } else {
            4
        };
        if '!' <= c && c <= '~' && c != '"' && c != '<' && c != '>' {
            n = n + 1;
        } else {
            n = n + 3 * bytes;
        }
    }
    assert(query@.take(chars@.len() as int) =~= query@);
    n
}

/// Whether a magnet link has a fragment.
fn has_fragment(url: &str) -> (yes: bool)
    requires
        "magnet:?"@.is_prefix_of(url@),
    ensures
        yes == unpadded(url@).skip("magnet:?"@.len() as int).contains('#'),
{
    let chars = chars_of(url);
    let ghost link = unpadded(url@);
    proof {
        reveal_strlit("magnet:?");
        lemma_unpadded_keeps_prefix(url@);
        lemma_unpadded_keeps_signs(url@);
    }
    for i in 8..chars.len()
        invariant
            chars@ == url@,
            8 <= i <= url@.len(),
            link == unpadded(url@),
            "magnet:?"@.len() == 8,
            8 <= link.len(),
            link.is_prefix_of(url@),
            forall|j: int| link.len() <= j < url@.len() ==> #[trigger] url@[j] <= ' ',
            forall|j: int| 8 <= j < i ==> url@[j] != '#',
    {
        if chars[i] == '#' {
            assert(link.skip(8)[i - 8] == '#');
            return true;
        }
    }
    assert forall|j: int| 0 <= j < link.skip(8).len() implies #[trigger] link.skip(8)[j] != '#' by {
        assert(link[j + 8] == url@[j + 8]);
    }
    false
}

/// What is cut off the end of a link are blanks.
proof fn lemma_unpadded_keeps_signs(s: Seq<char>)
    ensures
        unpadded(s).is_prefix_of(s),
        forall|j: int| unpadded(s).len() <= j < s.len() ==> #[trigger] s[j] <= ' ',
    decreases s.len(),
{
    if s.len() > 0 && s.last() <= ' ' {
        lemma_unpadded_keeps_signs(s.drop_last());
        assert forall|j: int| unpadded(s).len() <= j < s.len() implies #[trigger] s[j] <= ' ' by {
            if j < s.len() - 1 {
                assert(s.drop_last()[j] == s[j]);
            }
        }
    }
}

/// Whether parsing panics on a link.
pub fn panics_on(url: &str) -> (yes: bool)
    ensures
        yes == parse_panics(url@),
{
    if !starts_with(url, "magnet:?") {
        return false;
    }
    let query = query_text(url);
    proof {
        reveal_strlit("magnet:?");
    }
    if has_fragment(url) && count_query(query.as_str()) > u32::MAX as u128 - 8 {
        return false;
    }
    let seps: [char; 1] = ['&'];
    assert(seps@ =~= seq!['&']);
    let parameters = split(query.as_str(), &seps);
    let ghost all = pieces(query_of(url@), seq!['&']);
    let mut files: u128 = 0;
    assert(all.take(0) =~= Seq::empty());
    for i in 0..parameters.len()
        invariant
            "magnet:?"@.is_prefix_of(url@),
            !is_oversized(url@),
            all == pieces(query_of(url@), seq!['&']),
            texts(parameters@) == all,
            walked(all.take(i as int)) == Walk::Going(files as nat),
            files <= most_indices(),
    {
        assert(all[i as int] == parameters@[i as int]@);
        assert(all.take(i + 1).drop_last() =~= all.take(i as int));
        assert(all.take(i + 1).last() == all[i as int]);
        let (name, value) = name_and_value(parameters[i].as_str());
        if same_text(name.as_str(), "xt") {
            match judge_content(value.as_str()) {
                Verdict::Passed => {},
                Verdict::Refused => {
                    proof {
                        lemma_stopped_stays(all, i + 1);
                    }
                    return false;
                },
                Verdict::Fatal => {
                    proof {
                        lemma_stopped_stays(all, i + 1);
                    }
                    return true;
                },
            }
        } else if same_text(name.as_str(), "so") {
            match count_selected(files, value.as_str()) {
                Some(n) => {
                    files = n;
                },
                None => {
                    proof {
                        lemma_stopped_stays(all, i + 1);
                    }
                    return true;
                },
            }
        }
    }
    assert(all.take(parameters@.len() as int) =~= all);
    false
}

/// The trackers that every link is given.
pub open spec fn default_trackers() -> Seq<Seq<char>> {
    seq![
        "udp://tracker.opentrackr.org:1337/announce"@,
        "udp://open.demonii.com:1337/announce"@,
        "udp://tracker.openbittorrent.com:80/announce"@,
        "udp://exodus.desync.com:6969/announce"@,
        "udp://tracker.torrent.eu.org:451/announce"@,
        "udp://9.rarbg.com:2810/announce"@,
        "udp://tracker.dler.org:6969/announce"@,
    ]
}

/// `trackers`, and behind them those of `more` that are missing.
pub open spec fn completed(trackers: Seq<Seq<char>>, more: Seq<Seq<char>>) -> Seq<Seq<char>>
    decreases more.len(),
{
    if more.len() == 0 {
        trackers
    } else {
        let before = completed(trackers, more.drop_last());
        if before.contains(more.last()) {
            before
        } else {
            before.push(more.last())
        }
    }
}

/// Whether `tracker` is among `trackers`.
fn has_tracker(trackers: &[String], tracker: &str) -> (yes: bool)
    ensures
        yes == texts(trackers@).contains(tracker@),
{
    let ghost all = texts(trackers@);
    for i in 0..trackers.len()
        invariant
            all == texts(trackers@),
            forall|j: int| 0 <= j < i ==> all[j] != tracker@,
    {
        if same_text(trackers[i].as_str(), tracker) {
            assert(all[i as int] == tracker@);
            return true;
        }
    }
    false
}

/// `trackers`, and behind them those that every link is given, where they are missing.
pub fn add_default_trackers(trackers: Vec<String>) -> (all: Vec<String>)
    ensures
        texts(all@) == completed(texts(trackers@), default_trackers()),
{
    let defaults: [&str; 7] = [
        "udp://tracker.opentrackr.org:1337/announce",
        "udp://open.demonii.com:1337/announce",
        "udp://tracker.openbittorrent.com:80/announce",
        "udp://exodus.desync.com:6969/announce",
        "udp://tracker.torrent.eu.org:451/announce",
        "udp://9.rarbg.com:2810/announce",
        "udp://tracker.dler.org:6969/announce",
    ];
    let ghost wanted = default_trackers();
    let mut all = trackers;
    assert(wanted.take(0) =~= Seq::empty());
    for i in 0..7
        invariant
            wanted == default_trackers(),
            forall|j: int| 0 <= j < 7 ==> wanted[j] == #[trigger] defaults@[j]@,
            texts(all@) == completed(texts(trackers@), wanted.take(i as int)),
    {
        assert(wanted.take(i + 1).drop_last() =~= wanted.take(i as int));
        let tracker = defaults[i];
        assert(wanted.take(i + 1).last() == tracker@);
        if !has_tracker(&all, tracker) {
            let ghost before = all@;
            all.push(tracker.to_string());
            assert(texts(all@) =~= texts(before).push(tracker@));
        }
    }
    assert(wanted.take(7) =~= wanted);
    all
}

/// Why a link is not handed on.
#[derive(Debug)]
pub enum MagnetError {
    /// It does not start as a magnet link.
    Format,
    /// It cannot be read, for the reason given.
    Invalid(String),
}

impl MagnetError {
    /// The reason as it is shown.
    pub open spec fn text(self) -> Seq<char> {
        match self {
            MagnetError::Format => "Invalid magnet link format"@,
            MagnetError::Invalid(reason) => "Invalid magnet link: "@ + reason@,
        }
    }

    /// The reason as it is shown.
    pub fn message(&self) -> (out: String)
        ensures
            out@ == self.text(),
    {
        match self {
            MagnetError::Format => "Invalid magnet link format".to_string(),
            MagnetError::Invalid(reason) => {
                let mut out = "Invalid magnet link: ".to_string();
                out.append(reason.as_str());
                out
            },
        }
    }
}

/// The link that is handed to the session for a magnet link: the same content and selection of
/// files, with its own trackers and those that every link is given.
pub fn complete_magnet(url: &str) -> (link: Result<String, MagnetError>)
    requires
        !parse_panics(url@),
    ensures
        match link {
            Ok(link) => {
                &&& "magnet:?"@.is_prefix_of(url@)
                &&& parsed_magnet(url@) matches Ok((content, trackers, selection)) && link@
                    == magnet_text(content, completed(trackers, default_trackers()), selection)
            },
            Err(MagnetError::Format) => !"magnet:?"@.is_prefix_of(url@),
            Err(MagnetError::Invalid(reason)) => {
                &&& "magnet:?"@.is_prefix_of(url@)
                &&& parsed_magnet(url@) == Err::<
                    (Seq<char>, Seq<Seq<char>>, Seq<char>),
                    Seq<char>,
                >(reason@)
            },
        },
{
    if !starts_with(url, "magnet:?") {
        return Err(MagnetError::Format);
    }
    let trackers = match magnet_trackers(url) {
        Ok(trackers) => trackers,
        Err(reason) => return Err(MagnetError::Invalid(reason)),
    };
    match magnet_with_trackers(url, add_default_trackers(trackers)) {
        Ok(link) => Ok(link),
        Err(reason) => Err(MagnetError::Invalid(reason)),
    }
}

/// Completing a list of trackers keeps those that are there, in their places, and leaves none out
/// that was to be added.
pub proof fn law_completed_holds_all(trackers: Seq<Seq<char>>, more: Seq<Seq<char>>)
    ensures
        trackers.is_prefix_of(completed(trackers, more)),
        forall|i: int|
            0 <= i < more.len() ==> completed(trackers, more).contains(#[trigger] more[i]),
    decreases more.len(),
{
    let all = completed(trackers, more);
    if more.len() > 0 {
        let before = completed(trackers, more.drop_last());
        law_completed_holds_all(trackers, more.drop_last());
        assert forall|i: int| 0 <= i < more.len() implies all.contains(#[trigger] more[i]) by {
            if i < more.len() - 1 {
                assert(more.drop_last()[i] == more[i]);
                let at = choose|at: int| 0 <= at < before.len() && before[at] == more[i];
                assert(all[at] == more[i]);
            } else if !before.contains(more.last()) {
                assert(all[before.len() as int] == more[i]);
            }
        }
    }
}

/// A list that holds all that was to be added stays as it is; so completing it once more changes
/// nothing.
pub proof fn law_completing_twice_is_once(trackers: Seq<Seq<char>>, more: Seq<Seq<char>>)
    ensures
        completed(completed(trackers, more), more) == completed(trackers, more),
{
    law_completed_holds_all(trackers, more);
    lemma_complete_list_stays(completed(trackers, more), more);
}

proof fn lemma_complete_list_stays(trackers: Seq<Seq<char>>, more: Seq<Seq<char>>)
    requires
        forall|i: int| 0 <= i < more.len() ==> trackers.contains(#[trigger] more[i]),
    ensures
        completed(trackers, more) == trackers,
    decreases more.len(),
{
    if more.len() > 0 {
        assert forall|i: int| 0 <= i < more.len() - 1 implies trackers.contains(
            #[trigger] more.drop_last()[i],
        ) by {
            assert(more[i] == more.drop_last()[i]);
        }
        lemma_complete_list_stays(trackers, more.drop_last());
        assert(more[more.len() - 1] == more.last());
    }
}

/// No tracker comes twice where none did before.
pub proof fn law_completing_adds_no_duplicate(trackers: Seq<Seq<char>>, more: Seq<Seq<char>>)
    requires
        trackers.no_duplicates(),
    ensures
        completed(trackers, more).no_duplicates(),
    decreases more.len(),
{
    if more.len() > 0 {
        law_completing_adds_no_duplicate(trackers, more.drop_last());
    }
}

/// Every tracker of a link stands in its text.
pub proof fn law_link_names_its_trackers(
    content: Seq<char>,
    trackers: Seq<Seq<char>>,
    selection: Seq<char>,
    i: int,
)
    requires
        0 <= i < trackers.len(),
    ensures
        occurs_in("&tr="@ + trackers[i], magnet_text(content, trackers, selection)),
{
    let part = "&tr="@ + trackers[i];
    let parameters = tracker_parameters(trackers);
    lemma_parameters_name_tracker(trackers, i);
    let at = choose|at: int|
        0 <= at <= parameters.len() - part.len() && #[trigger] parameters.subrange(
            at,
            at + part.len(),
        ) == part;
    let head = "magnet:?"@ + content;
    let text = magnet_text(content, trackers, selection);
    assert(text.subrange(head.len() + at, head.len() + at + part.len()) =~= parameters.subrange(
        at,
        at + part.len(),
    ));
}

proof fn lemma_parameters_name_tracker(trackers: Seq<Seq<char>>, i: int)
    requires
        0 <= i < trackers.len(),
    ensures
        occurs_in("&tr="@ + trackers[i], tracker_parameters(trackers)),
    decreases trackers.len(),
{
    let part = "&tr="@ + trackers[i];
    let all = tracker_parameters(trackers);
    let before = tracker_parameters(trackers.drop_last());
    if i == trackers.len() - 1 {
        let at = before.len() as int;
        assert(all.subrange(at, at + part.len()) =~= part);
    } else {
        lemma_parameters_name_tracker(trackers.drop_last(), i);
        assert(trackers.drop_last()[i] == trackers[i]);
        let at = choose|at: int|
            0 <= at <= before.len() - part.len() && #[trigger] before.subrange(
                at,
                at + part.len(),
            ) == part;
        assert(all.subrange(at, at + part.len()) =~= before.subrange(at, at + part.len()));
    }
}

/// Every tracker that a link is to be given stands in the link that is handed on, whatever trackers
/// it had.
pub proof fn law_link_names_default_trackers(
    content: Seq<char>,
    trackers: Seq<Seq<char>>,
    selection: Seq<char>,
    i: int,
)
    requires
        0 <= i < default_trackers().len(),
    ensures
        occurs_in(
            "&tr="@ + default_trackers()[i],
            magnet_text(content, completed(trackers, default_trackers()), selection),
        ),
{
    let all = completed(trackers, default_trackers());
    law_completed_holds_all(trackers, default_trackers());
    assert(all.contains(default_trackers()[i]));
    let at = choose|at: int| 0 <= at < all.len() && all[at] == default_trackers()[i];
    law_link_names_its_trackers(content, all, selection, at);
}

/// Completing a list adds only what was to be added and was missing.
pub proof fn law_completing_adds_only_what_is_missing(
    trackers: Seq<Seq<char>>,
    more: Seq<Seq<char>>,
    i: int,
)
    requires
        trackers.len() <= i < completed(trackers, more).len(),
    ensures
        more.contains(completed(trackers, more)[i]),
        !trackers.contains(completed(trackers, more)[i]),
        forall|j: int|
            0 <= j < i ==> #[trigger] completed(trackers, more)[j] != completed(trackers, more)[i],
    decreases more.len(),
{
    let all = completed(trackers, more);
    let before = completed(trackers, more.drop_last());
    law_completed_holds_all(trackers, more.drop_last());
    if i < before.len() {
        law_completing_adds_only_what_is_missing(trackers, more.drop_last(), i);
        let at = choose|at: int|
            0 <= at < more.drop_last().len() && more.drop_last()[at] == before[i];
        assert(more[at] == all[i]);
    } else {
        assert(all[i] == more.last());
        assert(more[more.len() - 1] == all[i]);
        assert forall|j: int| 0 <= j < i implies #[trigger] all[j] != all[i] by {
            assert(before[j] == all[j]);
        }
        assert(!trackers.contains(all[i])) by {
            if trackers.contains(all[i]) {
                let at = choose|at: int| 0 <= at < trackers.len() && trackers[at] == all[i];
                assert(before[at] == trackers[at]);
            }
        }
    }
}

/// The trackers that every link is given are seven, all different, and each is reached by UDP.
pub proof fn law_default_trackers_are_seven(i: int, j: int)
    requires
        0 <= i < j < 7,
    ensures
        default_trackers().len() == 7,
        default_trackers()[i] != default_trackers()[j],
        "udp://"@.is_prefix_of(default_trackers()[i]),
        "udp://"@.is_prefix_of(default_trackers()[j]),
{
    let all = default_trackers();
    reveal_strlit("udp://tracker.opentrackr.org:1337/announce");
    reveal_strlit("udp://open.demonii.com:1337/announce");
    reveal_strlit("udp://tracker.openbittorrent.com:80/announce");
    reveal_strlit("udp://exodus.desync.com:6969/announce");
    reveal_strlit("udp://tracker.torrent.eu.org:451/announce");
    reveal_strlit("udp://9.rarbg.com:2810/announce");
    reveal_strlit("udp://tracker.dler.org:6969/announce");
    reveal_strlit("udp://");
    assert(all[i].subrange(0, 6) =~= "udp://"@);
    assert(all[j].subrange(0, 6) =~= "udp://"@);
    assert(all[0].len() == 42 && all[1].len() == 36 && all[2].len() == 44 && all[3].len() == 37
        && all[4].len() == 41 && all[5].len() == 31 && all[6].len() == 36);
    assert(all[1][6] == 'o' && all[6][6] == 't');
}

} // verus!
