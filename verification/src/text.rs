//! Text as a sequence of characters: comparing, cutting and joining.
use vstd::prelude::*;

verus! {

/// `String::push`: the character stands behind what the text held before.
pub assume_specification[ String::push ](s: &mut String, c: char)
    ensures
        final(s)@ == old(s)@.push(c),
;

/// The texts of a list of strings.
pub open spec fn texts(parts: Seq<String>) -> Seq<Seq<char>> {
    parts.map_values(|p: String| p@)
}

/// The text of a string, where there is one.
pub open spec fn text_in(s: Option<String>) -> Option<Seq<char>> {
    match s {
        Some(s) => Some(s@),
        None => None,
    }
}

/// Whether `part` stands somewhere in `s`.
pub open spec fn occurs_in(part: Seq<char>, s: Seq<char>) -> bool {
    exists|at: int|
        0 <= at <= s.len() - part.len() && #[trigger] s.subrange(at, at + part.len()) == part
}

/// The pieces of `s` between the characters of `seps`: one more than there are separators.
pub open spec fn pieces(s: Seq<char>, seps: Seq<char>) -> Seq<Seq<char>>
    decreases s.len(),
{
    if s.len() == 0 {
        seq![Seq::empty()]
    } else {
        let before = pieces(s.drop_last(), seps);
        if seps.contains(s.last()) {
            before.push(Seq::empty())
        } else {
            before.drop_last().push(before.last().push(s.last()))
        }
    }
}

/// What stands before and behind the first `sep` of `s`, where there is one.
pub open spec fn cut_at(s: Seq<char>, sep: char) -> Option<(Seq<char>, Seq<char>)> {
    if s.contains(sep) {
        let at = s.index_of_first(sep)->0;
        Some((s.take(at), s.skip(at + 1)))
    } else {
        None
    }
}

/// `parts` one behind the other, with `sep` between neighbours.
pub open spec fn joined(parts: Seq<Seq<char>>, sep: Seq<char>) -> Seq<char>
    decreases parts.len(),
{
    if parts.len() == 0 {
        Seq::empty()
    } else if parts.len() == 1 {
        parts[0]
    } else {
        joined(parts.drop_last(), sep) + sep + parts.last()
    }
}

/// The characters of `s`, in order.
pub fn chars_of(s: &str) -> (out: Vec<char>)
    ensures
        out@ == s@,
{
    let mut out: Vec<char> = Vec::new();
    for c in it: s.chars()
        invariant
            out@ == it.seq().take(it.index()),
            it.seq() == s@,
    {
        out.push(c);
    }
    out
}

/// The text made of the characters `from..to` of `chars`.
pub fn text_of(chars: &[char], from: usize, to: usize) -> (out: String)
    requires
        from <= to <= chars@.len(),
    ensures
        out@ == chars@.subrange(from as int, to as int),
{
    let mut out = String::new();
    for i in from..to
        invariant
            from <= i <= to <= chars@.len(),
            out@ == chars@.subrange(from as int, i as int),
    {
        out.push(chars[i]);
    }
    out
}

/// Whether `part` stands in `s` at `at`.
fn stands_at(s: &[char], part: &[char], at: usize) -> (yes: bool)
    requires
        at + part@.len() <= s@.len(),
    ensures
        yes == (s@.subrange(at as int, at + part@.len()) == part@),
{
    let end: usize = s.len();
    for i in 0..part.len()
        invariant
            end == s@.len(),
            at + part@.len() <= end,
            forall|j: int| 0 <= j < i ==> s@[at + j] == part@[j],
    {
        if s[at + i] != part[i] {
            assert(s@.subrange(at as int, at + part@.len())[i as int] != part@[i as int]);
            return false;
        }
    }
    assert(s@.subrange(at as int, at + part@.len()) =~= part@);
    true
}

/// Whether the two texts are the same.
pub fn same_text(a: &str, b: &str) -> (yes: bool)
    ensures
        yes == (a@ == b@),
{
    let a = chars_of(a);
    let b = chars_of(b);
    if a.len() != b.len() {
        return false;
    }
    assert(a@.subrange(0, a@.len() as int) =~= a@);
    stands_at(&a, &b, 0)
}

/// Whether `s` starts with `prefix`.
pub fn starts_with(s: &str, prefix: &str) -> (yes: bool)
    ensures
        yes == prefix@.is_prefix_of(s@),
{
    let s = chars_of(s);
    let prefix = chars_of(prefix);
    prefix.len() <= s.len() && stands_at(&s, &prefix, 0)
}

/// Whether `s` ends with `suffix`.
pub fn ends_with(s: &str, suffix: &str) -> (yes: bool)
    ensures
        yes == suffix@.is_suffix_of(s@),
{
    let s = chars_of(s);
    let suffix = chars_of(suffix);
    suffix.len() <= s.len() && stands_at(&s, &suffix, s.len() - suffix.len())
}

/// Whether `part` stands somewhere in `s`.
pub fn contains(s: &str, part: &str) -> (yes: bool)
    ensures
        yes == occurs_in(part@, s@),
{
    let chars = chars_of(s);
    let part_chars = chars_of(part);
    if part_chars.len() > chars.len() {
        return false;
    }
    let last: usize = chars.len() - part_chars.len();
    let mut at: usize = 0;
    while at <= last
        invariant
            chars@ == s@,
            part_chars@ == part@,
            last == s@.len() - part@.len(),
            forall|j: int| 0 <= j < at ==> #[trigger] s@.subrange(j, j + part@.len()) != part@,
        decreases last + 1 - at,
    {
        if stands_at(&chars, &part_chars, at) {
            return true;
        }
        if at == last {
            return false;
        }
        at += 1;
    }
    false
}

/// What follows `prefix` in `s`, where `s` starts with it.
pub fn strip_prefix(s: &str, prefix: &str) -> (rest: Option<String>)
    ensures
        match rest {
            Some(rest) => prefix@.is_prefix_of(s@) && rest@ == s@.skip(prefix@.len() as int),
            None => !prefix@.is_prefix_of(s@),
        },
{
    let chars = chars_of(s);
    let prefix = chars_of(prefix);
    if prefix.len() <= chars.len() && stands_at(&chars, &prefix, 0) {
        Some(text_of(&chars, prefix.len(), chars.len()))
    } else {
        None
    }
}

/// Whether `c` is among `seps`.
fn is_among(c: char, seps: &[char]) -> (yes: bool)
    ensures
        yes == seps@.contains(c),
{
    for i in 0..seps.len()
        invariant
            forall|j: int| 0 <= j < i ==> seps@[j] != c,
    {
        if seps[i] == c {
            return true;
        }
    }
    false
}

/// Text is never cut into nothing: there is always a piece.
pub proof fn lemma_pieces_nonempty(s: Seq<char>, seps: Seq<char>)
    ensures
        pieces(s, seps).len() >= 1,
    decreases s.len(),
{
    if s.len() > 0 {
        lemma_pieces_nonempty(s.drop_last(), seps);
    }
}

/// Text without a separator is one piece.
pub proof fn lemma_one_piece(s: Seq<char>, seps: Seq<char>)
    requires
        forall|i: int| 0 <= i < s.len() ==> !seps.contains(#[trigger] s[i]),
    ensures
        pieces(s, seps) == seq![s],
    decreases s.len(),
{
    if s.len() == 0 {
        assert(s =~= Seq::empty());
    } else {
        lemma_one_piece(s.drop_last(), seps);
        assert(s.drop_last().push(s.last()) =~= s);
        assert(pieces(s, seps) =~= seq![s]);
    }
}

/// A separator parts the pieces before it from those behind it.
pub proof fn lemma_pieces_of_two(a: Seq<char>, sep: char, b: Seq<char>, seps: Seq<char>)
    requires
        seps.contains(sep),
    ensures
        pieces(a.push(sep) + b, seps) == pieces(a, seps) + pieces(b, seps),
    decreases b.len(),
{
    let s = a.push(sep) + b;
    lemma_pieces_nonempty(b, seps);
    if b.len() == 0 {
        assert(s =~= a.push(sep));
        assert(s.drop_last() =~= a);
        assert(pieces(s, seps) =~= pieces(a, seps) + pieces(b, seps));
    } else {
        lemma_pieces_of_two(a, sep, b.drop_last(), seps);
        lemma_pieces_nonempty(b.drop_last(), seps);
        assert(s.drop_last() =~= a.push(sep) + b.drop_last());
        assert(s.last() == b.last());
        assert(pieces(s, seps) =~= pieces(a, seps) + pieces(b, seps));
    }
}

/// The pieces of `s` between the characters of `seps`.
pub fn split(s: &str, seps: &[char]) -> (parts: Vec<String>)
    ensures
        texts(parts@) == pieces(s@, seps@),
        parts@.len() >= 1,
{
    let chars = chars_of(s);
    let mut parts: Vec<String> = Vec::new();
    let mut piece = String::new();
    assert(s@.take(0) =~= Seq::empty());
    for i in 0..chars.len()
        invariant
            chars@ == s@,
            texts(parts@).push(piece@) == pieces(s@.take(i as int), seps@),
    {
        proof {
            let grown = s@.take(i + 1);
            assert(grown.drop_last() =~= s@.take(i as int));
            assert(grown.last() == s@[i as int]);
            assert(texts(parts@).push(piece@).drop_last() =~= texts(parts@));
        }
        if is_among(chars[i], seps) {
            let ghost before = parts@;
            let ghost closed = piece@;
            parts.push(piece);
            piece = String::new();
            assert(texts(parts@) =~= texts(before).push(closed));
        } else {
            piece.push(chars[i]);
        }
    }
    assert(s@.take(chars@.len() as int) =~= s@);
    let ghost before = parts@;
    let ghost closed = piece@;
    parts.push(piece);
    assert(texts(parts@) =~= texts(before).push(closed));
    parts
}

/// What stands before and behind the first `sep` of `s`, where there is one.
pub fn split_once(s: &str, sep: char) -> (cut: Option<(String, String)>)
    ensures
        match cut {
            Some((head, tail)) => cut_at(s@, sep) == Some((head@, tail@)),
            None => cut_at(s@, sep) is None,
        },
{
    let chars = chars_of(s);
    for i in 0..chars.len()
        invariant
            chars@ == s@,
            forall|j: int| 0 <= j < i ==> s@[j] != sep,
    {
        if chars[i] == sep {
            proof {
                s@.index_of_first_ensures(sep);
                assert(s@.contains(sep));
                assert(s@.index_of_first(sep)->0 == i);
            }
            let head = text_of(&chars, 0, i);
            let tail = text_of(&chars, i + 1, chars.len());
            assert(head@ =~= s@.take(i as int));
            assert(tail@ =~= s@.skip(i + 1));
            return Some((head, tail));
        }
    }
    None
}

/// `parts` one behind the other, with `sep` between neighbours.
pub fn join(parts: &[String], sep: &str) -> (out: String)
    ensures
        out@ == joined(texts(parts@), sep@),
{
    let mut out = String::new();
    let ghost all = texts(parts@);
    assert(all.take(0) =~= Seq::empty());
    for i in 0..parts.len()
        invariant
            all == texts(parts@),
            out@ == joined(all.take(i as int), sep@),
    {
        proof {
            assert(all.take(i + 1).drop_last() =~= all.take(i as int));
            assert(all.take(i + 1).last() == parts@[i as int]@);
            if i == 0 {
                assert(Seq::<char>::empty() + parts@[0]@ =~= parts@[0]@);
            }
        }
        if i > 0 {
            out.append(sep);
        }
        out.append(parts[i].as_str());
    }
    assert(all.take(parts@.len() as int) =~= all);
    out
}

/// Whether a file name may not hold `c`.
pub open spec fn is_forbidden(c: char) -> bool {
    c == '/' || c == '\\' || c == ':' || c == '*' || c == '?' || c == '"' || c == '<' || c == '>'
        || c == '|'
}

/// What stands for a character in a file name.
pub open spec fn file_char(c: char) -> char {
    if is_forbidden(c) {
        '_'
    } else {
        c
    }
}

/// A text as a file name: an underscore for every character that may not stand there.
pub open spec fn sanitized(s: Seq<char>) -> Seq<char> {
    s.map_values(|c: char| file_char(c))
}

/// A text as a file name.
pub fn sanitize(s: &str) -> (name: String)
    ensures
        name@ == sanitized(s@),
{
    let chars = chars_of(s);
    let mut name = String::new();
    for i in 0..chars.len()
        invariant
            chars@ == s@,
            name@ == sanitized(s@.take(i as int)),
    {
        let c = chars[i];
        if c == '/' || c == '\\' || c == ':' || c == '*' || c == '?' || c == '"' || c == '<' || c
            == '>' || c == '|' {
            name.push('_');
        } else {
            name.push(c);
        }
        assert(name@ =~= sanitized(s@.take(i + 1)));
    }
    assert(s@.take(chars@.len() as int) =~= s@);
    name
}

/// A file name made of a text holds no character that may not stand there, so that it never leads
/// into another directory; it is as long as the text, and making it once more changes nothing.
pub proof fn law_sanitized_is_a_file_name(s: Seq<char>)
    ensures
        forall|i: int| 0 <= i < sanitized(s).len() ==> !is_forbidden(#[trigger] sanitized(s)[i]),
        sanitized(s).len() == s.len(),
        sanitized(sanitized(s)) == sanitized(s),
{
    assert(sanitized(sanitized(s)) =~= sanitized(s));
}

/// Whether a character is white space.
pub open spec fn is_space(c: char) -> bool {
    ||| '\u{9}' <= c <= '\u{d}'
    ||| c == ' '
    ||| c == '\u{85}'
    ||| c == '\u{a0}'
    ||| c == '\u{1680}'
    ||| '\u{2000}' <= c <= '\u{200a}'
    ||| c == '\u{2028}'
    ||| c == '\u{2029}'
    ||| c == '\u{202f}'
    ||| c == '\u{205f}'
    ||| c == '\u{3000}'
}

/// A text without the white space at its start.
pub open spec fn trimmed_start(s: Seq<char>) -> Seq<char>
    decreases s.len(),
{
    if s.len() > 0 && is_space(s[0]) {
        trimmed_start(s.skip(1))
    } else {
        s
    }
}

/// A text without the white space at its end.
pub open spec fn trimmed_end(s: Seq<char>) -> Seq<char>
    decreases s.len(),
{
    if s.len() > 0 && is_space(s.last()) {
        trimmed_end(s.drop_last())
    } else {
        s
    }
}

/// A text without the white space around it.
pub open spec fn trimmed(s: Seq<char>) -> Seq<char> {
    trimmed_end(trimmed_start(s))
}

/// Whether a character is white space.
fn is_white(c: char) -> (yes: bool)
    ensures
        yes == is_space(c),
{
    ('\u{9}' <= c && c <= '\u{d}') || c == ' ' || c == '\u{85}' || c == '\u{a0}' || c == '\u{1680}'
        || ('\u{2000}' <= c && c <= '\u{200a}') || c == '\u{2028}' || c == '\u{2029}' || c
        == '\u{202f}' || c == '\u{205f}' || c == '\u{3000}'
}

/// A text without the white space around it.
pub fn trim(s: &str) -> (out: String)
    ensures
        out@ == trimmed(s@),
{
    let chars = chars_of(s);
    let mut from: usize = 0;
    assert(s@.skip(0) =~= s@);
    while from < chars.len() && is_white(chars[from])
        invariant
            chars@ == s@,
            from <= s@.len(),
            trimmed_start(s@.skip(from as int)) == trimmed_start(s@),
        decreases s@.len() - from,
    {
        assert(s@.skip(from as int).skip(1) =~= s@.skip(from + 1));
        from += 1;
    }
    let ghost rest = s@.skip(from as int);
    assert(rest == trimmed_start(s@));
    let mut to: usize = chars.len();
    assert(s@.subrange(from as int, to as int) =~= rest);
    while to > from && is_white(chars[to - 1])
        invariant
            chars@ == s@,
            from <= to <= s@.len(),
            trimmed_end(s@.subrange(from as int, to as int)) == trimmed_end(rest),
        decreases to,
    {
        assert(s@.subrange(from as int, to as int).drop_last() =~= s@.subrange(
            from as int,
            to - 1,
        ));
        to -= 1;
    }
    text_of(&chars, from, to)
}

/// Trimmed text has white space at neither end.
pub proof fn law_trimmed_has_no_space_around(s: Seq<char>)
    ensures
        trimmed(s).len() > 0 ==> !is_space(trimmed(s)[0]) && !is_space(trimmed(s).last()),
{
    lemma_trimmed_start(s);
    lemma_trimmed_end(trimmed_start(s));
}

proof fn lemma_trimmed_start(s: Seq<char>)
    ensures
        trimmed_start(s).len() > 0 ==> !is_space(trimmed_start(s)[0]),
    decreases s.len(),
{
    if s.len() > 0 && is_space(s[0]) {
        lemma_trimmed_start(s.skip(1));
    }
}

proof fn lemma_trimmed_end(s: Seq<char>)
    ensures
        trimmed_end(s).is_prefix_of(s),
        trimmed_end(s).len() > 0 ==> !is_space(trimmed_end(s).last()),
    decreases s.len(),
{
    if s.len() > 0 && is_space(s.last()) {
        lemma_trimmed_end(s.drop_last());
    }
}

/// A text stands in every text that has it between two others.
pub proof fn law_text_stands_between(a: Seq<char>, part: Seq<char>, b: Seq<char>)
    ensures
        occurs_in(part, a + part + b),
{
    let s = a + part + b;
    assert(s.subrange(a.len() as int, (a.len() + part.len()) as int) =~= part);
}

/// A text that stands in another has something before it and something behind it there, maybe
/// nothing.
pub proof fn law_occurrence_parts_the_text(part: Seq<char>, s: Seq<char>)
    requires
        occurs_in(part, s),
    ensures
        exists|a: Seq<char>, b: Seq<char>| #[trigger] (a + part + b) == s,
{
    let at = choose|at: int|
        0 <= at <= s.len() - part.len() && #[trigger] s.subrange(at, at + part.len()) == part;
    let a = s.take(at);
    let b = s.skip(at + part.len());
    assert(a + part + b =~= s);
}

/// Pieces hold no separator, and joined by it they give the text again.
pub proof fn law_pieces_make_up_the_text(s: Seq<char>, sep: char)
    ensures
        joined(pieces(s, seq![sep]), seq![sep]) == s,
        forall|i: int|
            0 <= i < pieces(s, seq![sep]).len() ==> !(#[trigger] pieces(s, seq![sep])[i]).contains(
                sep,
            ),
    decreases s.len(),
{
    let seps = seq![sep];
    let all = pieces(s, seps);
    assert(seps.contains(sep)) by {
        assert(seps[0] == sep);
    }
    if s.len() > 0 {
        let before = pieces(s.drop_last(), seps);
        law_pieces_make_up_the_text(s.drop_last(), sep);
        lemma_pieces_nonempty(s.drop_last(), seps);
        assert(s.drop_last().push(s.last()) =~= s);
        if s.last() == sep {
            assert(all.drop_last() =~= before);
            assert(s.drop_last() + seps + Seq::<char>::empty() =~= s);
        } else {
            assert(!seps.contains(s.last()));
            let last = before.last().push(s.last());
            assert(all.drop_last() =~= before.drop_last());
            assert(all.last() == last);
            if before.len() > 1 {
                let head = joined(before.drop_last(), seps) + seps;
                assert(head + before.last() == s.drop_last());
                assert(head + last =~= s);
            }
            assert(!before[before.len() - 1].contains(sep));
            assert forall|i: int| 0 <= i < last.len() implies last[i] != sep by {
                if i < before.last().len() {
                    assert(before.last()[i] == last[i]);
                }
            }
        }
    } else {
        assert(joined(all, seps) =~= s);
    }
}

/// Behind its first separator a text is cut, and only there.
pub proof fn law_text_is_cut_at_the_first(head: Seq<char>, sep: char, tail: Seq<char>)
    requires
        !head.contains(sep),
    ensures
        cut_at(head.push(sep) + tail, sep) == Some((head, tail)),
        cut_at(head, sep) is None,
{
    let s = head.push(sep) + tail;
    assert(s[head.len() as int] == sep);
    assert forall|i: int| 0 <= i < head.len() implies s[i] != sep by {
        assert(head[i] != sep);
    }
    s.index_of_first_ensures(sep);
    assert(s.index_of_first(sep)->0 == head.len());
    assert(s.take(head.len() as int) =~= head);
    assert(s.skip(head.len() as int + 1) =~= tail);
}

/// In a file name an underscore stands for each of the nine characters that may not stand there,
/// and every other character for itself.
pub proof fn law_file_name_keeps_the_rest(s: Seq<char>, i: int)
    requires
        0 <= i < s.len(),
    ensures
        "/\\:*?\"<>|"@.contains(s[i]) ==> sanitized(s)[i] == '_',
        !"/\\:*?\"<>|"@.contains(s[i]) ==> sanitized(s)[i] == s[i],
{
    reveal_strlit("/\\:*?\"<>|");
    let all = "/\\:*?\"<>|"@;
    assert(all.len() == 9);
    let c = s[i];
    if is_forbidden(c) {
        assert(all[0] == '/' && all[1] == '\\' && all[2] == ':' && all[3] == '*' && all[4] == '?'
            && all[5] == '"' && all[6] == '<' && all[7] == '>' && all[8] == '|');
        assert(all.contains(c));
    }
}

/// What trimming takes away is white space, at the ends only.
pub proof fn law_trimming_takes_only_space(s: Seq<char>)
    ensures
        exists|a: Seq<char>, b: Seq<char>| #[trigger]
            (a + trimmed(s) + b) == s && (forall|i: int| 0 <= i < a.len() ==> is_space(a[i])) && (
            forall|i: int| 0 <= i < b.len() ==> is_space(b[i])),
{
    let rest = trimmed_start(s);
    let a = lemma_cut_from_start(s);
    let b = lemma_cut_from_end(rest);
    assert(a + trimmed(s) + b =~= s);
}

proof fn lemma_cut_from_start(s: Seq<char>) -> (a: Seq<char>)
    ensures
        a + trimmed_start(s) == s,
        forall|i: int| 0 <= i < a.len() ==> is_space(a[i]),
    decreases s.len(),
{
    if s.len() > 0 && is_space(s[0]) {
        let rest = lemma_cut_from_start(s.skip(1));
        let a = seq![s[0]] + rest;
        assert(a + trimmed_start(s) =~= seq![s[0]] + (rest + trimmed_start(s.skip(1))));
        assert(seq![s[0]] + s.skip(1) =~= s);
        a
    } else {
        assert(Seq::<char>::empty() + s =~= s);
        Seq::empty()
    }
}

proof fn lemma_cut_from_end(s: Seq<char>) -> (b: Seq<char>)
    ensures
        trimmed_end(s) + b == s,
        forall|i: int| 0 <= i < b.len() ==> is_space(b[i]),
    decreases s.len(),
{
    if s.len() > 0 && is_space(s.last()) {
        let rest = lemma_cut_from_end(s.drop_last());
        let b = rest.push(s.last());
        assert(trimmed_end(s) + b =~= (trimmed_end(s.drop_last()) + rest).push(s.last()));
        assert(s.drop_last().push(s.last()) =~= s);
        b
    } else {
        assert(s + Seq::<char>::empty() =~= s);
        Seq::empty()
    }
}

/// Where a text has two pieces or more, the last stands behind the last separator.
pub proof fn law_last_piece_stands_behind_the_last_separator(s: Seq<char>, sep: char)
    ensures
        ({
            let parts = pieces(s, seq![sep]);
            &&& parts.len() >= 2 ==> {
                let n = parts.last().len();
                &&& n < s.len()
                &&& s[s.len() - n - 1] == sep
                &&& s.skip(s.len() - n) == parts.last()
            }
            &&& parts.len() < 2 ==> !s.contains(sep)
        }),
    decreases s.len(),
{
    let seps = seq![sep];
    let parts = pieces(s, seps);
    assert(seps.contains(sep)) by {
        assert(seps[0] == sep);
    }
    if s.len() > 0 {
        let before = pieces(s.drop_last(), seps);
        law_last_piece_stands_behind_the_last_separator(s.drop_last(), sep);
        lemma_pieces_nonempty(s.drop_last(), seps);
        if s.last() == sep {
            assert(s.skip(s.len() as int) =~= Seq::empty());
        } else {
            assert(!seps.contains(s.last()));
            assert(parts.last() == before.last().push(s.last()));
            if parts.len() >= 2 {
                let n = before.last().len();
                assert(s.skip(s.len() - n - 1) =~= s.drop_last().skip(s.len() - 1 - n).push(
                    s.last(),
                ));
            } else {
                assert forall|i: int| 0 <= i < s.len() implies s[i] != sep by {
                    if i < s.len() - 1 {
                        assert(s.drop_last()[i] == s[i]);
                    }
                }
            }
        }
    }
}

} // verus!
