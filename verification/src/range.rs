//! Byte ranges: what a player asks for, and which bytes answer it.
use crate::number::{
    decimal, is_digit, law_parse_of_decimal, lemma_decimal_is_number, parse_u64, parsed,
    push_decimal,
};
use crate::text::{lemma_one_piece, lemma_pieces_of_two, pieces, split, strip_prefix, texts};
use vstd::prelude::*;

verus! {

/// The two numbers of a range header of the form `bytes=first-last`, each where it can be read.
/// Any other form asks for nothing in particular.
pub open spec fn requested(header: Seq<char>) -> Option<(Option<u64>, Option<u64>)> {
    let parts = pieces(header.skip("bytes="@.len() as int), seq!['-']);
    if "bytes="@.is_prefix_of(header) && parts.len() == 2 {
        Some((parsed(parts[0]), parsed(parts[1])))
    } else {
        None
    }
}

/// The two numbers that a range header asks for.
pub fn parse_range(header: &str) -> (asked: Option<(Option<u64>, Option<u64>)>)
    ensures
        asked == requested(header@),
{
    match strip_prefix(header, "bytes=") {
        None => None,
        Some(value) => {
            let seps: [char; 1] = ['-'];
            assert(seps@ =~= seq!['-']);
            let parts = split(value.as_str(), &seps);
            assert(texts(parts@).len() == parts@.len());
            if parts.len() == 2 {
                Some((parse_u64(parts[0].as_str()), parse_u64(parts[1].as_str())))
            } else {
                None
            }
        },
    }
}

/// A run of bytes of a file, from `start` to `end`, both included.
#[derive(Clone, Copy, Debug, PartialEq, Eq, Structural)]
pub struct ByteSpan {
    pub start: u64,
    pub end: u64,
}

/// The position of the last byte of a file of `size` bytes, and zero of an empty one.
pub open spec fn last_byte(size: u64) -> u64 {
    if size == 0 {
        0
    } else {
        (size - 1) as u64
    }
}

/// The lesser of two numbers.
pub open spec fn lesser(a: u64, b: u64) -> u64 {
    if a < b {
        a
    } else {
        b
    }
}

/// The span that answers the numbers asked for, of a file of `size` bytes: a start that cannot be
/// read is the first byte, an end that cannot be read or lies beyond the file is the last.
pub open spec fn span_for(asked: (Option<u64>, Option<u64>), size: u64) -> ByteSpan {
    ByteSpan {
        start: match asked.0 {
            Some(start) => start,
            None => 0,
        },
        end: match asked.1 {
            Some(end) => lesser(end, last_byte(size)),
            None => last_byte(size),
        },
    }
}

/// The span that answers a request: the one asked for, or the whole file.
pub open spec fn answered(header: Option<Seq<char>>, size: u64) -> ByteSpan {
    match header {
        Some(header) => match requested(header) {
            Some(asked) => span_for(asked, size),
            None => ByteSpan { start: 0, end: last_byte(size) },
        },
        None => ByteSpan { start: 0, end: last_byte(size) },
    }
}

impl ByteSpan {
    /// How many bytes are sent for a span; one that ends before it starts counts as one byte.
    pub open spec fn spec_length(self) -> int {
        if self.start <= self.end {
            self.end - self.start + 1
        } else {
            1
        }
    }

    /// How many bytes are sent for the span.
    pub fn length(&self) -> (n: u64)
        requires
            self.end < u64::MAX,
        ensures
            n == self.spec_length(),
    {
        if self.start <= self.end {
            self.end - self.start + 1
        } else {
            1
        }
    }
}

/// The span that answers the numbers asked for.
pub fn clamp_range(asked: (Option<u64>, Option<u64>), size: u64) -> (span: ByteSpan)
    ensures
        span == span_for(asked, size),
        span.end < u64::MAX,
{
    let last: u64 = if size == 0 { 0 } else { size - 1 };
    let start: u64 = match asked.0 {
        Some(start) => start,
        None => 0,
    };
    let end: u64 = match asked.1 {
        Some(end) => if end < last { end } else { last },
        None => last,
    };
    ByteSpan { start, end }
}

/// The span that answers a request for a file of `size` bytes.
pub fn answer_range(header: Option<&str>, size: u64) -> (span: ByteSpan)
    ensures
        span == answered(
            match header {
                Some(header) => Some(header@),
                None => None,
            },
            size,
        ),
        span.end < u64::MAX,
{
    match header {
        Some(header) => match parse_range(header) {
            Some(asked) => clamp_range(asked, size),
            None => clamp_range((None, None), size),
        },
        None => clamp_range((None, None), size),
    }
}

/// The value of a range header that asks for `start` to `end`.
pub open spec fn range_header(start: u64, end: u64) -> Seq<char> {
    "bytes="@ + decimal(start as nat) + "-"@ + decimal(end as nat)
}

/// The value of a range header that asks for `start` to `end`.
pub fn range_header_text(start: u64, end: u64) -> (out: String)
    ensures
        out@ == range_header(start, end),
{
    let mut out = String::new();
    out.append("bytes=");
    assert(out@ =~= "bytes="@);
    push_decimal(&mut out, start);
    out.append("-");
    push_decimal(&mut out, end);
    out
}

/// The value of a content range header: the bytes sent, and the size of the file.
pub open spec fn content_range(span: ByteSpan, size: u64) -> Seq<char> {
    "bytes "@ + decimal(span.start as nat) + "-"@ + decimal(span.end as nat) + "/"@ + decimal(
        size as nat,
    )
}

/// The value of a content range header.
pub fn content_range_text(span: ByteSpan, size: u64) -> (out: String)
    ensures
        out@ == content_range(span, size),
{
    let mut out = String::new();
    out.append("bytes ");
    assert(out@ =~= "bytes "@);
    push_decimal(&mut out, span.start);
    out.append("-");
    push_decimal(&mut out, span.end);
    out.append("/");
    push_decimal(&mut out, size);
    out
}

/// A number holds no dash.
proof fn lemma_number_is_one_piece(n: nat)
    ensures
        pieces(decimal(n), seq!['-']) == seq![decimal(n)],
{
    lemma_decimal_is_number(n);
    assert forall|i: int| 0 <= i < decimal(n).len() implies !seq!['-'].contains(
        #[trigger] decimal(n)[i],
    ) by {
        assert(is_digit(decimal(n)[i]));
    }
    lemma_one_piece(decimal(n), seq!['-']);
}

/// A header that asks for `start` to `end` is read as just that.
pub proof fn law_range_header_is_read_back(start: u64, end: u64)
    ensures
        requested(range_header(start, end)) == Some((Some(start), Some(end))),
{
    let header = range_header(start, end);
    let a = decimal(start as nat);
    let b = decimal(end as nat);
    reveal_strlit("bytes=");
    reveal_strlit("-");
    assert("-"@ =~= seq!['-']);
    assert(header.skip("bytes="@.len() as int) =~= a.push('-') + b);
    assert("bytes="@.is_prefix_of(header));
    assert(seq!['-'].contains('-')) by {
        assert(seq!['-'][0] == '-');
    }
    lemma_pieces_of_two(a, '-', b, seq!['-']);
    lemma_number_is_one_piece(start as nat);
    lemma_number_is_one_piece(end as nat);
    law_parse_of_decimal(start);
    law_parse_of_decimal(end);
}

/// A header that names only a start, as a player sends it when it seeks, is answered from there to
/// the end of the file.
pub proof fn law_open_range_runs_to_the_end(start: u64, size: u64)
    ensures
        answered(Some("bytes="@ + decimal(start as nat) + "-"@), size) == (ByteSpan {
            start,
            end: last_byte(size),
        }),
{
    let header = "bytes="@ + decimal(start as nat) + "-"@;
    let a = decimal(start as nat);
    let none = Seq::<char>::empty();
    reveal_strlit("bytes=");
    reveal_strlit("-");
    assert("-"@ =~= seq!['-']);
    assert(header.skip("bytes="@.len() as int) =~= a.push('-') + none);
    assert("bytes="@.is_prefix_of(header));
    assert(seq!['-'].contains('-')) by {
        assert(seq!['-'][0] == '-');
    }
    lemma_pieces_of_two(a, '-', none, seq!['-']);
    lemma_number_is_one_piece(start as nat);
    lemma_one_piece(none, seq!['-']);
    law_parse_of_decimal(start);
    assert(parsed(none) is None);
}

/// A range that lies in the file is answered exactly: from its first byte to its last.
pub proof fn law_range_in_file_is_exact(start: u64, end: u64, size: u64)
    requires
        start <= end < size,
    ensures
        answered(Some(range_header(start, end)), size) == (ByteSpan { start, end }),
        (ByteSpan { start, end }).spec_length() == end - start + 1,
{
    law_range_header_is_read_back(start, end);
}

/// Whatever is asked for, the answer ends inside a file that holds a byte, and where it starts
/// before its end it sends just the bytes from the one to the other.
pub proof fn law_answer_stays_in_file(header: Option<Seq<char>>, size: u64)
    requires
        size > 0,
    ensures
        answered(header, size).end < size,
        answered(header, size).spec_length() >= 1,
        answered(header, size).start <= answered(header, size).end ==> answered(header, size).start
            + answered(header, size).spec_length() == answered(header, size).end + 1,
        answered(header, size).start < size ==> answered(header, size).start + answered(
            header,
            size,
        ).spec_length() <= size,
{
}

/// Asking again for the span that was answered gives the same span.
pub proof fn law_answer_is_stable(header: Option<Seq<char>>, size: u64)
    ensures
        answered(
            Some(range_header(answered(header, size).start, answered(header, size).end)),
            size,
        ) == answered(header, size),
{
    let span = answered(header, size);
    law_range_header_is_read_back(span.start, span.end);
}

/// The bytes of a span are counted from its first to its last; a span that ends before it starts is
/// one byte long.
pub proof fn law_length_counts_the_bytes(start: u64, end: u64)
    ensures
        start <= end ==> (ByteSpan { start, end }).spec_length() == end - start + 1,
        start > end ==> (ByteSpan { start, end }).spec_length() == 1,
{
}

/// A range is answered from where it starts to where it ends, or to the last byte of the file where
/// it ends beyond.
pub proof fn law_range_is_cut_at_the_last_byte(start: u64, end: u64, size: u64)
    requires
        size > 0,
    ensures
        ({
            let span = answered(Some(range_header(start, end)), size);
            &&& span.start == start
            &&& end <= size - 1 ==> span.end == end
            &&& end > size - 1 ==> span.end == size - 1
        }),
{
    law_range_header_is_read_back(start, end);
}

/// Of a range that names only an end, the answer starts at the first byte.
pub proof fn law_range_without_start_begins_the_file(end: u64, size: u64)
    requires
        size > 0,
    ensures
        ({
            let header = "bytes=-"@ + decimal(end as nat);
            let span = answered(Some(header), size);
            &&& requested(header) == Some((None::<u64>, Some(end)))
            &&& span.start == 0
            &&& end <= size - 1 ==> span.end == end
            &&& end > size - 1 ==> span.end == size - 1
        }),
{
    let header = "bytes=-"@ + decimal(end as nat);
    let b = decimal(end as nat);
    let none = Seq::<char>::empty();
    reveal_strlit("bytes=");
    reveal_strlit("bytes=-");
    assert(header.skip("bytes="@.len() as int) =~= none.push('-') + b);
    assert("bytes="@.is_prefix_of(header)) by {
        assert(header.subrange(0, 6) =~= "bytes="@);
    }
    assert(seq!['-'].contains('-')) by {
        assert(seq!['-'][0] == '-');
    }
    lemma_pieces_of_two(none, '-', b, seq!['-']);
    lemma_one_piece(none, seq!['-']);
    lemma_number_is_one_piece(end as nat);
    law_parse_of_decimal(end);
    assert(parsed(none) is None);
}

/// A range that names only a start is answered to the last byte of the file.
pub proof fn law_range_without_end_ends_the_file(start: u64, size: u64)
    requires
        size > 0,
    ensures
        answered(Some("bytes="@ + decimal(start as nat) + "-"@), size).start == start,
        answered(Some("bytes="@ + decimal(start as nat) + "-"@), size).end == size - 1,
{
    law_open_range_runs_to_the_end(start, size);
}

/// Whoever asks for nothing, in another unit, or for anything but two ends with one dash between
/// them, is answered by the whole file.
pub proof fn law_everything_else_is_answered_by_the_whole(
    header: Seq<char>,
    value: Seq<char>,
    size: u64,
)
    requires
        size > 0,
        !"bytes="@.is_prefix_of(header),
        pieces(value, seq!['-']).len() != 2,
    ensures
        requested(header) is None,
        requested("bytes="@ + value) is None,
        answered(None, size) == (ByteSpan { start: 0, end: (size - 1) as u64 }),
        answered(Some(header), size) == (ByteSpan { start: 0, end: (size - 1) as u64 }),
        answered(Some("bytes="@ + value), size) == (ByteSpan { start: 0, end: (size - 1) as u64 }),
{
    assert(("bytes="@ + value).skip("bytes="@.len() as int) =~= value);
}

/// Ends that cannot be read count as not named.
pub proof fn law_unreadable_ends_are_left_open(a: Seq<char>, b: Seq<char>, size: u64)
    requires
        size > 0,
        !a.contains('-'),
        !b.contains('-'),
    ensures
        ({
            let header = "bytes="@ + a.push('-') + b;
            let span = answered(Some(header), size);
            &&& requested(header) == Some((parsed(a), parsed(b)))
            &&& parsed(a) is None ==> span.start == 0
            &&& parsed(a) matches Some(start) ==> span.start == start
            &&& parsed(b) is None ==> span.end == size - 1
            &&& parsed(b) matches Some(end) ==> span.end <= end && (span.end == end || span.end
                == size - 1) && span.end <= size - 1
        }),
{
    let header = "bytes="@ + a.push('-') + b;
    assert(header.skip("bytes="@.len() as int) =~= a.push('-') + b);
    assert("bytes="@.is_prefix_of(header)) by {
        assert(header.subrange(0, "bytes="@.len() as int) =~= "bytes="@);
    }
    assert(seq!['-'].contains('-')) by {
        assert(seq!['-'][0] == '-');
    }
    lemma_pieces_of_two(a, '-', b, seq!['-']);
    assert forall|i: int| 0 <= i < a.len() implies !seq!['-'].contains(#[trigger] a[i]) by {
        assert(a[i] != '-');
    }
    assert forall|i: int| 0 <= i < b.len() implies !seq!['-'].contains(#[trigger] b[i]) by {
        assert(b[i] != '-');
    }
    lemma_one_piece(a, seq!['-']);
    lemma_one_piece(b, seq!['-']);
}

/// A content range names the first byte, the last byte and the size, in this order.
pub proof fn law_content_range_is_read_back(span: ByteSpan, size: u64)
    ensures
        ({
            let text = content_range(span, size);
            let halves = pieces(text.skip(6), seq!['/']);
            let ends = pieces(halves[0], seq!['-']);
            &&& "bytes "@.is_prefix_of(text)
            &&& halves.len() == 2
            &&& ends.len() == 2
            &&& parsed(ends[0]) == Some(span.start)
            &&& parsed(ends[1]) == Some(span.end)
            &&& parsed(halves[1]) == Some(size)
        }),
{
    let text = content_range(span, size);
    let a = decimal(span.start as nat);
    let b = decimal(span.end as nat);
    let c = decimal(size as nat);
    reveal_strlit("bytes ");
    reveal_strlit("-");
    reveal_strlit("/");
    let head = a.push('-') + b;
    assert(text.skip(6) =~= head.push('/') + c);
    assert("bytes "@.is_prefix_of(text)) by {
        assert(text.subrange(0, 6) =~= "bytes "@);
    }
    assert(seq!['-'].contains('-')) by {
        assert(seq!['-'][0] == '-');
    }
    assert(seq!['/'].contains('/')) by {
        assert(seq!['/'][0] == '/');
    }
    lemma_decimal_is_number(span.start as nat);
    lemma_decimal_is_number(span.end as nat);
    lemma_decimal_is_number(size as nat);
    assert forall|i: int| 0 <= i < head.len() implies !seq!['/'].contains(#[trigger] head[i]) by {
        if i < a.len() {
            assert(is_digit(a[i]));
        } else if i > a.len() {
            assert(is_digit(b[i - a.len() - 1]));
        }
    }
    assert forall|i: int| 0 <= i < c.len() implies !seq!['/'].contains(#[trigger] c[i]) by {
        assert(is_digit(c[i]));
    }
    lemma_pieces_of_two(head, '/', c, seq!['/']);
    lemma_one_piece(head, seq!['/']);
    lemma_one_piece(c, seq!['/']);
    lemma_pieces_of_two(a, '-', b, seq!['-']);
    lemma_number_is_one_piece(span.start as nat);
    lemma_number_is_one_piece(span.end as nat);
    law_parse_of_decimal(span.start);
    law_parse_of_decimal(span.end);
    law_parse_of_decimal(size);
}

/// Of a file without a byte, and of one whose size is unknown, every answer ends at the first byte.
pub proof fn law_empty_file_ends_at_its_start(header: Seq<char>, start: u64, end: u64)
    ensures
        answered(None, 0) == (ByteSpan { start: 0, end: 0 }),
        answered(Some(header), 0).end == 0,
        requested(header) is None ==> answered(Some(header), 0).start == 0,
        answered(Some(range_header(start, end)), 0).start == start,
        answered(Some("bytes="@ + decimal(start as nat) + "-"@), 0).start == start,
        answered(Some(header), 0).spec_length() == 1,
{
    law_range_header_is_read_back(start, end);
    law_open_range_runs_to_the_end(start, 0);
}

} // verus!
