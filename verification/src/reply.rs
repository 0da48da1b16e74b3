//! Answers to a player: their status and their headers.
use crate::number::{
    decimal, decimal_text, is_digit, law_parse_of_decimal, lemma_decimal_is_number, parsed,
    push_decimal,
};
use crate::range::{
    content_range, content_range_text, law_range_header_is_read_back, range_header, requested,
    ByteSpan,
};
use crate::text::{lemma_one_piece, lemma_pieces_of_two, pieces, text_in};
use vstd::prelude::*;

verus! {

/// The outcomes of a request.
#[derive(Clone, Copy, Debug, PartialEq, Eq, Structural)]
pub enum Status {
    Whole,
    Part,
    BadRequest,
    NotFound,
    Failed,
}

impl Status {
    /// The number of the status.
    pub open spec fn spec_code(self) -> u16 {
        match self {
            Status::Whole => 200,
            Status::Part => 206,
            Status::BadRequest => 400,
            Status::NotFound => 404,
            Status::Failed => 500,
        }
    }

    /// The number of the status.
    pub fn code(&self) -> (n: u16)
        ensures
            n == self.spec_code(),
    {
        match self {
            Status::Whole => 200,
            Status::Part => 206,
            Status::BadRequest => 400,
            Status::NotFound => 404,
            Status::Failed => 500,
        }
    }
}

/// Whether a header value may hold `c`: a tab, or anything from the space on but delete.
pub open spec fn header_char(c: char) -> bool {
    c == '\t' || (' ' <= c && c != '\u{7f}')
}

/// Whether a header can carry `text`.
pub open spec fn is_header_text(text: Seq<char>) -> bool {
    forall|i: int| 0 <= i < text.len() ==> header_char(#[trigger] text[i])
}

/// `axum::http::HeaderValue::from_str`: it takes `text` exactly where every byte of it is a tab, or
/// is at least 32 and not 127. Bytes of other than ASCII characters are all above 127.
#[verifier::external_body]
fn header_takes(text: &str) -> (yes: bool)
    ensures
        yes == is_header_text(text@),
{
    axum::http::HeaderValue::from_str(text).is_ok()
}

/// The media type that is guessed from the extension of a file name.
pub uninterp spec fn guessed_mime(filename: Seq<char>) -> Seq<char>;

/// `mime_guess::from_path` and `MimeGuess::first_or_octet_stream`: the first media type listed for
/// the extension of `filename`, or `application/octet-stream`, as for every name without a dot. No
/// file is touched.
#[verifier::external_body]
fn guess_mime(filename: &str) -> (mime: String)
    ensures
        mime@ == guessed_mime(filename@),
        !filename@.contains('.') ==> mime@ == "application/octet-stream"@,
{
    mime_guess::from_path(filename).first_or_octet_stream().as_ref().to_string()
}

/// The content type sent for a media type: the type itself, where a header can carry it.
pub open spec fn sent_type(mime: Seq<char>) -> Seq<char> {
    if is_header_text(mime) {
        mime
    } else {
        "video/mp4"@
    }
}

/// The content type sent for a media type.
pub fn content_type_for(mime: String) -> (sent: String)
    ensures
        sent@ == sent_type(mime@),
        is_header_text(sent@),
{
    if header_takes(mime.as_str()) {
        mime
    } else {
        proof {
            reveal_strlit("video/mp4");
        }
        "video/mp4".to_string()
    }
}

/// The content type sent for a file.
pub fn get_mime_type_from_filename(filename: &str) -> (sent: String)
    ensures
        sent@ == sent_type(guessed_mime(filename@)),
        is_header_text(sent@),
        !filename@.contains('.') ==> sent@ == "application/octet-stream"@,
{
    proof {
        reveal_strlit("application/octet-stream");
    }
    content_type_for(guess_mime(filename))
}

/// Whether a byte of a header value is visible: a tab, or between the space and the tilde.
pub open spec fn is_visible(b: u8) -> bool {
    b == 9 || 32 <= b < 127
}

/// The text of a header value, where all of it is visible.
pub open spec fn visible(bytes: Seq<u8>) -> Option<Seq<char>> {
    if forall|i: int| 0 <= i < bytes.len() ==> is_visible(#[trigger] bytes[i]) {
        Some(bytes.map_values(|b: u8| b as char))
    } else {
        None
    }
}

/// The text of a header value, where all of it is visible.
pub fn visible_text(bytes: &[u8]) -> (text: Option<String>)
    ensures
        text_in(text) == visible(bytes@),
{
    let mut text = String::new();
    for i in 0..bytes.len()
        invariant
            text@ == bytes@.take(i as int).map_values(|b: u8| b as char),
            forall|j: int| 0 <= j < i ==> is_visible(#[trigger] bytes@[j]),
    {
        let b: u8 = bytes[i];
        if !(b == 9 || (32 <= b && b < 127)) {
            assert(!is_visible(bytes@[i as int]));
            return None;
        }
        text.push(b as char);
        assert(text@ =~= bytes@.take(i + 1).map_values(|b: u8| b as char));
    }
    assert(bytes@.take(bytes@.len() as int) =~= bytes@);
    Some(text)
}

/// The text of a range header, where there is one that can be read.
pub open spec fn readable_range(range: Option<&[u8]>) -> Option<Seq<char>> {
    match range {
        Some(bytes) => visible(bytes@),
        None => None,
    }
}

/// The headers of an answer that carries bytes.
#[derive(Debug)]
pub struct Headers {
    pub content_type: String,
    pub content_range: Option<String>,
    pub content_length: String,
    /// In what ranges can be asked for: always in bytes.
    pub accept_ranges: String,
}

/// The texts of the headers.
pub struct HeadersView {
    pub content_type: Seq<char>,
    pub content_range: Option<Seq<char>>,
    pub content_length: Seq<char>,
    pub accept_ranges: Seq<char>,
}

impl View for Headers {
    type V = HeadersView;

    open spec fn view(&self) -> HeadersView {
        HeadersView {
            content_type: self.content_type@,
            content_range: text_in(self.content_range),
            content_length: self.content_length@,
            accept_ranges: self.accept_ranges@,
        }
    }
}

/// The headers of an answer that carries a span of a file of `size` bytes.
pub open spec fn part_headers(content_type: Seq<char>, span: ByteSpan, size: u64) -> HeadersView {
    HeadersView {
        content_type,
        content_range: Some(content_range(span, size)),
        content_length: decimal(span.spec_length() as nat),
        accept_ranges: "bytes"@,
    }
}

/// The headers of an answer that carries a whole file of `size` bytes.
pub open spec fn whole_headers(content_type: Seq<char>, size: u64) -> HeadersView {
    HeadersView {
        content_type,
        content_range: None,
        content_length: decimal(size as nat),
        accept_ranges: "bytes"@,
    }
}

/// The headers of an answer that carries a span of a file of `size` bytes.
pub fn headers_for_part(content_type: String, span: ByteSpan, size: u64) -> (headers: Headers)
    requires
        span.end < u64::MAX,
    ensures
        headers@ == part_headers(content_type@, span, size),
{
    Headers {
        content_type,
        content_range: Some(content_range_text(span, size)),
        content_length: decimal_text(span.length()),
        accept_ranges: "bytes".to_string(),
    }
}

/// The headers of an answer that carries a whole file of `size` bytes.
pub fn headers_for_whole(content_type: String, size: u64) -> (headers: Headers)
    ensures
        headers@ == whole_headers(content_type@, size),
{
    Headers {
        content_type,
        content_range: None,
        content_length: decimal_text(size),
        accept_ranges: "bytes".to_string(),
    }
}

/// A number can stand in a header.
proof fn lemma_decimal_is_header_text(n: nat)
    ensures
        is_header_text(decimal(n)),
{
    lemma_decimal_is_number(n);
    assert forall|i: int| 0 <= i < decimal(n).len() implies header_char(
        #[trigger] decimal(n)[i],
    ) by {
        assert(is_digit(decimal(n)[i]));
    }
}

/// Whether all of an answer's headers can be carried.
pub open spec fn can_be_carried(headers: HeadersView) -> bool {
    &&& is_header_text(headers.content_type)
    &&& headers.content_range matches Some(range) ==> is_header_text(range)
    &&& is_header_text(headers.content_length)
    &&& is_header_text(headers.accept_ranges)
}

/// The headers of every answer can be carried, whatever its media type, span and size.
pub proof fn law_headers_can_be_carried(mime: Seq<char>, span: ByteSpan, size: u64)
    ensures
        can_be_carried(part_headers(sent_type(mime), span, size)),
        can_be_carried(whole_headers(sent_type(mime), size)),
{
    reveal_strlit("video/mp4");
    reveal_strlit("bytes");
    reveal_strlit("bytes ");
    reveal_strlit("-");
    reveal_strlit("/");
    lemma_decimal_is_header_text(span.start as nat);
    lemma_decimal_is_header_text(span.end as nat);
    lemma_decimal_is_header_text(size as nat);
    lemma_decimal_is_header_text(span.spec_length() as nat);
    let text = content_range(span, size);
    let a = decimal(span.start as nat);
    let b = decimal(span.end as nat);
    let c = decimal(size as nat);
    assert forall|i: int| 0 <= i < text.len() implies header_char(#[trigger] text[i]) by {
        let head = 6 + a.len();
        if i < 6 {
            assert(text[i] == "bytes "@[i]);
        } else if i < head {
            assert(text[i] == a[i - 6]);
        } else if i == head {
            assert(text[i] == '-');
        } else if i < head + 1 + b.len() {
            assert(text[i] == b[i - head - 1]);
        } else if i == head + 1 + b.len() {
            assert(text[i] == '/');
        } else {
            assert(text[i] == c[i - head - b.len() - 2]);
        }
    }
}

/// The address under which the server at `port` gives a file of a task.
pub open spec fn stream_address(port: u16, task: usize, file: usize) -> Seq<char> {
    "http://127.0.0.1:"@ + decimal(port as nat) + "/stream/"@ + decimal(task as nat) + "/"@
        + decimal(file as nat)
}

/// The address under which the server at `port` gives a file of a task.
pub fn stream_url(port: u16, task: usize, file: usize) -> (url: String)
    ensures
        url@ == stream_address(port, task, file),
{
    let mut url = "http://127.0.0.1:".to_string();
    push_decimal(&mut url, port as u64);
    url.append("/stream/");
    push_decimal(&mut url, task as u64);
    url.append("/");
    push_decimal(&mut url, file as u64);
    url
}

/// A number holds no slash.
proof fn lemma_number_is_one_step(n: nat)
    ensures
        pieces(decimal(n), seq!['/']) == seq![decimal(n)],
{
    lemma_decimal_is_number(n);
    assert forall|i: int| 0 <= i < decimal(n).len() implies !seq!['/'].contains(
        #[trigger] decimal(n)[i],
    ) by {
        assert(is_digit(decimal(n)[i]));
    }
    lemma_one_piece(decimal(n), seq!['/']);
}

/// The last two steps of the address of a file are the numbers of its task and of the file.
pub proof fn law_address_names_task_and_file(port: u16, task: usize, file: usize)
    ensures
        ({
            let steps = pieces(stream_address(port, task, file), seq!['/']);
            &&& steps.len() >= 2
            &&& steps[steps.len() - 2] == decimal(task as nat)
            &&& steps[steps.len() - 1] == decimal(file as nat)
        }),
{
    let seps = seq!['/'];
    let url = stream_address(port, task, file);
    let server = "http://127.0.0.1:"@ + decimal(port as nat);
    let a = decimal(task as nat);
    let b = decimal(file as nat);
    reveal_strlit("/stream/");
    reveal_strlit("/");
    let middle = "/stream/"@.drop_last();
    assert(seps.contains('/')) by {
        assert(seps[0] == '/');
    }
    assert(url =~= (server + middle).push('/') + (a.push('/') + b));
    lemma_pieces_of_two(server + middle, '/', a.push('/') + b, seps);
    lemma_pieces_of_two(a, '/', b, seps);
    lemma_number_is_one_step(task as nat);
    lemma_number_is_one_step(file as nat);
}

/// No two files have the same address at one server.
pub proof fn law_addresses_differ(port: u16, task: usize, file: usize, task2: usize, file2: usize)
    requires
        stream_address(port, task, file) == stream_address(port, task2, file2),
    ensures
        task == task2,
        file == file2,
{
    law_address_names_task_and_file(port, task, file);
    law_address_names_task_and_file(port, task2, file2);
    lemma_decimal_is_number(task as nat);
    lemma_decimal_is_number(task2 as nat);
    lemma_decimal_is_number(file as nat);
    lemma_decimal_is_number(file2 as nat);
}

/// The numbers of the outcomes are those of HTTP.
pub proof fn law_outcomes_have_their_numbers()
    ensures
        Status::Whole.spec_code() == 200,
        Status::Part.spec_code() == 206,
        Status::BadRequest.spec_code() == 400,
        Status::NotFound.spec_code() == 404,
        Status::Failed.spec_code() == 500,
{
}

/// A media type is sent as it is where a header can carry it, which is where every character of it
/// is a tab, or comes after the control characters and is not delete.
pub proof fn law_content_type_is_the_media_type(mime: Seq<char>)
    ensures
        (forall|i: int|
            0 <= i < mime.len() ==> mime[i] == '\t' || (#[trigger] mime[i] >= ' ' && mime[i]
                != '\u{7f}')) ==> sent_type(mime) == mime,
        (exists|i: int|
            0 <= i < mime.len() && mime[i] != '\t' && (#[trigger] mime[i] < ' ' || mime[i]
                == '\u{7f}')) ==> sent_type(mime) == "video/mp4"@,
{
    if exists|i: int|
        0 <= i < mime.len() && mime[i] != '\t' && (#[trigger] mime[i] < ' ' || mime[i]
            == '\u{7f}') {
        let i = choose|i: int|
            0 <= i < mime.len() && mime[i] != '\t' && (#[trigger] mime[i] < ' ' || mime[i]
                == '\u{7f}');
        assert(!header_char(mime[i]));
    }
}

/// The bytes by which a header carries an ASCII text.
pub open spec fn header_bytes(text: Seq<char>) -> Seq<u8> {
    text.map_values(|c: char| c as u8)
}

/// A header is read as the text that was put in it, where that is made of tabs and of characters
/// from the space to the tilde.
pub proof fn law_header_is_read_back(text: Seq<char>)
    requires
        forall|i: int| 0 <= i < text.len() ==> text[i] == '\t' || ' ' <= #[trigger] text[i] <= '~',
    ensures
        visible(header_bytes(text)) == Some(text),
{
    let bytes = header_bytes(text);
    assert forall|i: int| 0 <= i < bytes.len() implies is_visible(#[trigger] bytes[i]) by {
        assert(bytes[i] == text[i] as u8);
    }
    assert(bytes.map_values(|b: u8| b as char) =~= text);
}

/// A header that holds any other byte is not read at all, and one that is read has a character for
/// every byte, of the same number.
pub proof fn law_header_is_read_byte_by_byte(bytes: &[u8], i: int)
    requires
        0 <= i < bytes@.len(),
    ensures
        bytes@[i] != 9 && (bytes@[i] < 32 || bytes@[i] > 126) ==> visible(bytes@) is None,
        visible(bytes@) matches Some(text) ==> text.len() == bytes@.len() && text[i] as int
            == bytes@[i] as int,
        readable_range(Some(bytes)) == visible(bytes@),
        readable_range(None) is None,
{
    if bytes@[i] != 9 && (bytes@[i] < 32 || bytes@[i] > 126) {
        assert(!is_visible(bytes@[i]));
    }
}

/// A header that asks for a range is made of visible characters.
proof fn lemma_range_header_is_visible(start: u64, end: u64)
    ensures
        visible(header_bytes(range_header(start, end))) == Some(range_header(start, end)),
{
    let text = range_header(start, end);
    let a = decimal(start as nat);
    let b = decimal(end as nat);
    reveal_strlit("bytes=");
    reveal_strlit("-");
    lemma_decimal_is_number(start as nat);
    lemma_decimal_is_number(end as nat);
    assert forall|i: int| 0 <= i < text.len() implies text[i] == '\t' || ' ' <= #[trigger] text[i]
        <= '~' by {
        let head = 6 + a.len();
        if i < 6 {
            assert(text[i] == "bytes="@[i]);
        } else if i < head {
            assert(text[i] == a[i - 6]);
            assert(is_digit(a[i - 6]));
        } else if i == head {
            assert(text[i] == '-');
        } else {
            assert(text[i] == b[i - head - 1]);
            assert(is_digit(b[i - head - 1]));
        }
    }
    law_header_is_read_back(text);
}

/// A request for the bytes from `start` to `end` is understood as just that, from its bytes on.
pub proof fn law_range_request_is_understood(start: u64, end: u64)
    ensures
        ({
            let bytes = header_bytes(range_header(start, end));
            &&& visible(bytes) is Some
            &&& requested(visible(bytes)->0) == Some((Some(start), Some(end)))
        }),
{
    lemma_range_header_is_visible(start, end);
    law_range_header_is_read_back(start, end);
}

/// The headers of a part tell what is sent: as many bytes as the span has, from its first to its
/// last, out of `size`.
pub proof fn law_part_headers_tell_what_is_sent(
    content_type: Seq<char>,
    start: u64,
    end: u64,
    size: u64,
)
    requires
        end < u64::MAX,
    ensures
        ({
            let headers = part_headers(content_type, ByteSpan { start, end }, size);
            &&& start <= end ==> parsed(headers.content_length) == Some((end - start + 1) as u64)
            &&& start > end ==> parsed(headers.content_length) == Some(1u64)
            &&& headers.content_range == Some(
                "bytes "@ + decimal(start as nat) + "-"@ + decimal(end as nat) + "/"@ + decimal(
                    size as nat,
                ),
            )
            &&& headers.content_type == content_type
            &&& headers.accept_ranges == "bytes"@
        }),
{
    law_parse_of_decimal((ByteSpan { start, end }).spec_length() as u64);
}

/// The headers of a whole file tell its size, and name no range.
pub proof fn law_whole_headers_tell_the_size(content_type: Seq<char>, size: u64)
    ensures
        parsed(whole_headers(content_type, size).content_length) == Some(size),
        whole_headers(content_type, size).content_range is None,
        whole_headers(content_type, size).content_type == content_type,
        whole_headers(content_type, size).accept_ranges == "bytes"@,
{
    law_parse_of_decimal(size);
}

/// The address of a file leads to this machine, to the port of the server, and there below
/// `stream` to the task and the file.
pub proof fn law_address_leads_to_the_server(port: u16, task: usize, file: usize)
    ensures
        ({
            let steps = pieces(stream_address(port, task, file), seq!['/']);
            &&& steps.len() == 6
            &&& steps[0] == "http:"@
            &&& steps[1].len() == 0
            &&& steps[2] == "127.0.0.1:"@ + decimal(port as nat)
            &&& steps[3] == "stream"@
            &&& parsed(steps[4]) == Some(task as u64)
            &&& parsed(steps[5]) == Some(file as u64)
        }),
{
    let seps = seq!['/'];
    let url = stream_address(port, task, file);
    let p = decimal(port as nat);
    let a = decimal(task as nat);
    let b = decimal(file as nat);
    reveal_strlit("http://127.0.0.1:");
    reveal_strlit("http:");
    reveal_strlit("127.0.0.1:");
    reveal_strlit("/stream/");
    reveal_strlit("stream");
    reveal_strlit("/");
    let none = Seq::<char>::empty();
    let host = "127.0.0.1:"@ + p;
    let t4 = a.push('/') + b;
    let t3 = "stream"@.push('/') + t4;
    let t2 = host.push('/') + t3;
    let t1 = none.push('/') + t2;
    assert(seps.contains('/')) by {
        assert(seps[0] == '/');
    }
    assert(url =~= "http:"@.push('/') + t1);
    lemma_pieces_of_two("http:"@, '/', t1, seps);
    lemma_pieces_of_two(none, '/', t2, seps);
    lemma_pieces_of_two(host, '/', t3, seps);
    lemma_pieces_of_two("stream"@, '/', t4, seps);
    lemma_pieces_of_two(a, '/', b, seps);
    lemma_decimal_is_number(port as nat);
    assert forall|i: int| 0 <= i < host.len() implies !seps.contains(#[trigger] host[i]) by {
        if i < 10 {
            assert(host[i] == "127.0.0.1:"@[i]);
        } else {
            assert(host[i] == p[i - 10]);
            assert(is_digit(p[i - 10]));
        }
    }
    lemma_one_piece("http:"@, seps);
    lemma_one_piece(none, seps);
    lemma_one_piece(host, seps);
    lemma_one_piece("stream"@, seps);
    lemma_number_is_one_step(task as nat);
    lemma_number_is_one_step(file as nat);
    law_parse_of_decimal(task as u64);
    law_parse_of_decimal(file as u64);
    assert(pieces(url, seps) =~= seq!["http:"@, none, host, "stream"@, a, b]);
}

} // verus!
