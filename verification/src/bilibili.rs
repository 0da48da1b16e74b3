//! Questions to Bilibili: which video a link names, where it is described and where it plays.
use crate::number::{
    decimal, digits_value, is_digit, is_number, law_parse_of_decimal, lemma_decimal_is_number,
    parsed, push_decimal,
};
use crate::text::{
    law_file_name_keeps_the_rest, lemma_one_piece, lemma_pieces_of_two, pieces, same_text,
    sanitize, sanitized, split,
    starts_with, text_in, texts,
};
use vstd::prelude::*;

verus! {

/// Whether the piece at `at` is the first of `parts` that is the number of a video.
pub open spec fn is_first_bvid(parts: Seq<Seq<char>>, at: int) -> bool {
    &&& 0 <= at < parts.len()
    &&& "BV"@.is_prefix_of(parts[at])
    &&& forall|i: int| 0 <= i < at ==> !"BV"@.is_prefix_of(#[trigger] parts[i])
}

/// The pieces of a link between its slashes and question marks.
pub open spec fn link_pieces(url: Seq<char>) -> Seq<Seq<char>> {
    pieces(url, seq!['/', '?'])
}

/// The number of the video that a link names.
pub fn extract_bvid(url: &str) -> (bvid: Result<String, BilibiliError>)
    ensures
        match bvid {
            Ok(bvid) => exists|at: int| #[trigger]
                is_first_bvid(link_pieces(url@), at) && bvid@ == link_pieces(url@)[at],
            Err(error) => error == BilibiliError::NoBvid && forall|i: int|
                0 <= i < link_pieces(url@).len() ==> !"BV"@.is_prefix_of(
                    #[trigger] link_pieces(url@)[i],
                ),
        },
{
    let seps: [char; 2] = ['/', '?'];
    assert(seps@ =~= seq!['/', '?']);
    let parts = split(url, &seps);
    let ghost all = link_pieces(url@);
    for i in 0..parts.len()
        invariant
            all == link_pieces(url@),
            texts(parts@) == all,
            forall|j: int| 0 <= j < i ==> !"BV"@.is_prefix_of(#[trigger] all[j]),
    {
        assert(all[i as int] == parts@[i as int]@);
        if starts_with(parts[i].as_str(), "BV") {
            assert(is_first_bvid(all, i as int));
            return Ok(parts[i].clone());
        }
    }
    assert(all.len() == parts@.len());
    Err(BilibiliError::NoBvid)
}

/// Why a question has no answer.
#[derive(Clone, Copy, Debug, PartialEq, Eq, Structural)]
pub enum BilibiliError {
    NoBvid,
    /// The description was refused with a code.
    View(i64),
    NoCid,
    /// The source was refused with a code.
    Play(i64),
    NoUrl,
}

/// A whole number in decimal, with a minus sign where it is negative.
pub open spec fn signed_decimal(n: i64) -> Seq<char> {
    if n < 0 {
        "-"@ + decimal((-n) as nat)
    } else {
        decimal(n as nat)
    }
}

/// `n` written behind what `out` holds.
fn push_signed(out: &mut String, n: i64)
    ensures
        final(out)@ == old(out)@ + signed_decimal(n),
{
    if n < 0 {
        out.append("-");
        let size: u64 = if n == i64::MIN { 0x8000_0000_0000_0000 } else { (-n) as u64 };
        push_decimal(out, size);
    } else {
        push_decimal(out, n as u64);
    }
    assert(out@ =~= old(out)@ + signed_decimal(n));
}

impl BilibiliError {
    /// The reason as it is shown.
    pub open spec fn text(self) -> Seq<char> {
        match self {
            BilibiliError::NoBvid => "Failed to extract BVID from URL"@,
            BilibiliError::View(code) => "Bilibili API error: code "@ + signed_decimal(code),
            BilibiliError::NoCid => "Failed to get cid"@,
            BilibiliError::Play(code) => "Bilibili playurl API error: code "@ + signed_decimal(
                code,
            ),
            BilibiliError::NoUrl => "Failed to get download url"@,
        }
    }

    /// The reason as it is shown.
    pub fn message(&self) -> (out: String)
        ensures
            out@ == self.text(),
    {
        match self {
            BilibiliError::NoBvid => "Failed to extract BVID from URL".to_string(),
            BilibiliError::View(code) => {
                let mut out = "Bilibili API error: code ".to_string();
                push_signed(&mut out, *code);
                out
            },
            BilibiliError::NoCid => "Failed to get cid".to_string(),
            BilibiliError::Play(code) => {
                let mut out = "Bilibili playurl API error: code ".to_string();
                push_signed(&mut out, *code);
                out
            },
            BilibiliError::NoUrl => "Failed to get download url".to_string(),
        }
    }
}

/// A reply, as far as it is read.
#[derive(Debug)]
pub enum Reply {
    /// A whole number.
    Number(i64),
    Text(String),
    List(Vec<Reply>),
    /// The fields of an object, by name.
    Fields(Vec<(String, Reply)>),
    /// Anything else.
    Other,
}

/// The last of `fields` that has a name.
pub open spec fn found(fields: Seq<(String, Reply)>, name: Seq<char>) -> Option<Reply>
    decreases fields.len(),
{
    if fields.len() == 0 {
        None
    } else if fields.last().0@ == name {
        Some(fields.last().1)
    } else {
        found(fields.drop_last(), name)
    }
}

impl Reply {
    /// The field of a name, where the reply is an object that has it.
    pub open spec fn spec_field(self, name: Seq<char>) -> Option<Reply> {
        match self {
            Reply::Fields(fields) => found(fields@, name),
            _ => None,
        }
    }

    /// The item at a place, where the reply is a list that reaches there.
    pub open spec fn spec_item(self, at: int) -> Option<Reply> {
        match self {
            Reply::List(items) => if 0 <= at < items@.len() {
                Some(items@[at])
            } else {
                None
            },
            _ => None,
        }
    }

    /// The field of a name.
    pub fn field(&self, name: &str) -> (value: Option<&Reply>)
        ensures
            match value {
                Some(value) => self.spec_field(name@) == Some(*value),
                None => self.spec_field(name@) is None,
            },
    {
        match self {
            Reply::Fields(fields) => {
                let mut i: usize = fields.len();
                assert(fields@.take(i as int) =~= fields@);
                while i > 0
                    invariant
                        i <= fields@.len(),
                        found(fields@.take(i as int), name@) == self.spec_field(name@),
                    decreases i,
                {
                    i -= 1;
                    assert(fields@.take(i + 1).drop_last() =~= fields@.take(i as int));
                    if same_text(fields[i].0.as_str(), name) {
                        return Some(&fields[i].1);
                    }
                }
                None
            },
            _ => None,
        }
    }

    /// The item at a place.
    pub fn item(&self, at: usize) -> (value: Option<&Reply>)
        ensures
            match value {
                Some(value) => self.spec_item(at as int) == Some(*value),
                None => self.spec_item(at as int) is None,
            },
    {
        match self {
            Reply::List(items) => if at < items.len() {
                Some(&items[at])
            } else {
                None
            },
            _ => None,
        }
    }
}

/// The number that a value is, where it is one.
pub open spec fn number_in(value: Option<Reply>) -> Option<i64> {
    match value {
        Some(Reply::Number(n)) => Some(n),
        _ => None,
    }
}

/// The text that a value is, where it is one.
pub open spec fn words_in(value: Option<Reply>) -> Option<Seq<char>> {
    match value {
        Some(Reply::Text(text)) => Some(text@),
        _ => None,
    }
}

/// A field of the data of a reply.
pub open spec fn data_field(reply: Reply, name: Seq<char>) -> Option<Reply> {
    match reply.spec_field("data"@) {
        Some(data) => data.spec_field(name),
        None => None,
    }
}

/// The code of a reply; one that gives none counts as refused.
pub open spec fn code_of(reply: Reply) -> i64 {
    match number_in(reply.spec_field("code"@)) {
        Some(code) => code,
        None => (-1) as i64,
    }
}

/// The content number that a description gives.
pub open spec fn cid_of(reply: Reply) -> Option<i64> {
    number_in(data_field(reply, "cid"@))
}

/// The first address that a reply lists.
pub open spec fn source_of(reply: Reply) -> Option<Seq<char>> {
    match data_field(reply, "durl"@) {
        Some(list) => match list.spec_item(0) {
            Some(first) => words_in(first.spec_field("url"@)),
            None => None,
        },
        None => None,
    }
}

/// A field of the data of a reply.
fn field_of_data<'a>(reply: &'a Reply, name: &str) -> (value: Option<&'a Reply>)
    ensures
        match value {
            Some(value) => data_field(*reply, name@) == Some(*value),
            None => data_field(*reply, name@) is None,
        },
{
    match reply.field("data") {
        Some(data) => data.field(name),
        None => None,
    }
}

/// The code of a reply.
pub fn reply_code(reply: &Reply) -> (code: i64)
    ensures
        code == code_of(*reply),
{
    match reply.field("code") {
        Some(Reply::Number(code)) => *code,
        _ => -1,
    }
}

/// The content number that a description gives.
pub fn content_number(reply: &Reply) -> (cid: Option<i64>)
    ensures
        cid == cid_of(*reply),
{
    match field_of_data(reply, "cid") {
        Some(Reply::Number(cid)) => Some(*cid),
        _ => None,
    }
}

/// Whether a reply lists addresses.
pub fn lists_sources(reply: &Reply) -> (yes: bool)
    ensures
        yes == (data_field(*reply, "durl"@) matches Some(Reply::List(_))),
{
    match field_of_data(reply, "durl") {
        Some(Reply::List(_)) => true,
        _ => false,
    }
}

/// The first address that a reply lists.
pub fn first_source(reply: &Reply) -> (url: Option<String>)
    ensures
        text_in(url) == source_of(*reply),
{
    match field_of_data(reply, "durl") {
        Some(list) => match list.item(0) {
            Some(first) => match first.field("url") {
                Some(Reply::Text(url)) => Some(url.clone()),
                _ => None,
            },
            None => None,
        },
        None => None,
    }
}

/// Where a video is described.
pub open spec fn view_address(bvid: Seq<char>) -> Seq<char> {
    "https://api.bilibili.com/x/web-interface/view?bvid="@ + bvid
}

/// Where a video is described.
pub fn view_url(bvid: &str) -> (url: String)
    ensures
        url@ == view_address(bvid@),
{
    let mut url = "https://api.bilibili.com/x/web-interface/view?bvid=".to_string();
    url.append(bvid);
    url
}

/// The content that a description names, or why it names none.
pub open spec fn content_in(reply: Reply) -> Result<i64, BilibiliError> {
    if code_of(reply) != 0 {
        Err(BilibiliError::View(code_of(reply)))
    } else {
        match cid_of(reply) {
            Some(cid) => Ok(cid),
            None => Err(BilibiliError::NoCid),
        }
    }
}

/// The content that a description names.
pub fn described(reply: &Reply) -> (content: Result<i64, BilibiliError>)
    ensures
        content == content_in(*reply),
{
    let code: i64 = reply_code(reply);
    if code != 0 {
        return Err(BilibiliError::View(code));
    }
    match content_number(reply) {
        Some(cid) => Ok(cid),
        None => Err(BilibiliError::NoCid),
    }
}

/// The title that a description gives, as a file name.
pub open spec fn name_in(reply: Reply) -> Seq<char> {
    match words_in(data_field(reply, "title"@)) {
        Some(title) => sanitized(title),
        None => sanitized("bilibili_video"@),
    }
}

/// The title that a description gives, as a file name.
pub fn title_for(reply: &Reply) -> (name: String)
    ensures
        name@ == name_in(*reply),
{
    match field_of_data(reply, "title") {
        Some(Reply::Text(title)) => sanitize(title.as_str()),
        _ => sanitize("bilibili_video"),
    }
}

/// Where the source of a video's content is asked for.
pub open spec fn play_address(bvid: Seq<char>, cid: i64) -> Seq<char> {
    "https://api.bilibili.com/x/player/playurl?bvid="@ + bvid + "&cid="@ + signed_decimal(cid)
        + "&qn=80&fnval=1"@
}

/// Where the source of a video's content is asked for.
pub fn play_url(bvid: &str, cid: i64) -> (url: String)
    ensures
        url@ == play_address(bvid@, cid),
{
    let mut url = "https://api.bilibili.com/x/player/playurl?bvid=".to_string();
    url.append(bvid);
    url.append("&cid=");
    push_signed(&mut url, cid);
    url.append("&qn=80&fnval=1");
    url
}

/// The source that a reply names, or why it names none.
pub open spec fn source_in(reply: Reply) -> Result<Seq<char>, BilibiliError> {
    if code_of(reply) != 0 {
        Err(BilibiliError::Play(code_of(reply)))
    } else {
        match source_of(reply) {
            Some(url) => Ok(url),
            None => Err(BilibiliError::NoUrl),
        }
    }
}

/// The source that a reply names.
pub fn playable(reply: &Reply) -> (source: Result<String, BilibiliError>)
    ensures
        match source {
            Ok(source) => code_of(*reply) == 0 && source_of(*reply) == Some(source@),
            Err(error) => if code_of(*reply) != 0 {
                error == BilibiliError::Play(code_of(*reply))
            } else {
                source_of(*reply) is None && error == BilibiliError::NoUrl
            },
        },
        match source {
            Ok(source) => source_in(*reply) == Ok::<Seq<char>, BilibiliError>(source@),
            Err(error) => source_in(*reply) == Err::<Seq<char>, BilibiliError>(error),
        },
{
    let code: i64 = reply_code(reply);
    if code != 0 {
        return Err(BilibiliError::Play(code));
    }
    match first_source(reply) {
        Some(url) => Ok(url),
        None => Err(BilibiliError::NoUrl),
    }
}

/// What starts with another letter is not the number of a video.
proof fn lemma_not_bvid(s: Seq<char>)
    requires
        s.len() == 0 || s[0] != 'B',
    ensures
        !"BV"@.is_prefix_of(s),
{
    reveal_strlit("BV");
    if s.len() >= 2 {
        assert(s.subrange(0, 2)[0] != "BV"@[0]);
    }
}

/// The pieces of the site in front of a page: none of the four is the number of a video.
proof fn lemma_site_pieces(tail: Seq<char>)
    ensures
        ({
            let seps = seq!['/', '?'];
            let before = pieces("https://www.bilibili.com/video"@, seps);
            &&& before.len() == 4
            &&& forall|i: int| 0 <= i < 4 ==> !"BV"@.is_prefix_of(#[trigger] before[i])
            &&& pieces("https://www.bilibili.com/video/"@ + tail, seps) == before + pieces(
                tail,
                seps,
            )
        }),
{
    let seps = seq!['/', '?'];
    let site = "https://www.bilibili.com/video"@;
    reveal_strlit("https://www.bilibili.com/video");
    reveal_strlit("https://www.bilibili.com/video/");
    assert(seps.contains('/')) by {
        assert(seps[0] == '/');
    }
    let a = site.subrange(0, 6);
    let none = Seq::<char>::empty();
    let b = site.subrange(8, 24);
    let c = site.subrange(25, 30);
    assert("https://www.bilibili.com/video/"@ =~= site.push('/'));
    lemma_pieces_of_two(site, '/', tail, seps);
    assert(site =~= a.push('/') + (none.push('/') + (b.push('/') + c)));
    lemma_pieces_of_two(a, '/', none.push('/') + (b.push('/') + c), seps);
    lemma_pieces_of_two(none, '/', b.push('/') + c, seps);
    lemma_pieces_of_two(b, '/', c, seps);
    lemma_one_piece(a, seps);
    lemma_one_piece(none, seps);
    lemma_one_piece(b, seps);
    lemma_one_piece(c, seps);
    assert(pieces(site, seps) =~= seq![a, none, b, c]);
    lemma_not_bvid(a);
    lemma_not_bvid(none);
    lemma_not_bvid(b);
    lemma_not_bvid(c);
}

/// A number that is a video's, and holds neither a slash nor a question mark, is read back from
/// the link of its page, whatever follows the question mark.
pub proof fn law_bvid_is_read_back(bvid: Seq<char>, query: Seq<char>)
    requires
        "BV"@.is_prefix_of(bvid),
        forall|i: int|
            0 <= i < bvid.len() ==> !seq!['/', '?'].contains(#[trigger] bvid[i]),
    ensures
        ({
            let url = "https://www.bilibili.com/video/"@ + bvid + "/?"@ + query;
            exists|at: int| #[trigger]
                is_first_bvid(link_pieces(url), at) && link_pieces(url)[at] == bvid
        }),
{
    let seps = seq!['/', '?'];
    let url = "https://www.bilibili.com/video/"@ + bvid + "/?"@ + query;
    let rest = seq!['?'] + query;
    let tail = bvid.push('/') + rest;
    reveal_strlit("/?");
    assert(url =~= "https://www.bilibili.com/video/"@ + tail);
    assert(seps.contains('/')) by {
        assert(seps[0] == '/');
    }
    lemma_site_pieces(tail);
    lemma_pieces_of_two(bvid, '/', rest, seps);
    lemma_one_piece(bvid, seps);
    let all = link_pieces(url);
    let before = pieces("https://www.bilibili.com/video"@, seps);
    assert(all =~= before.push(bvid) + pieces(rest, seps));
    assert forall|i: int| 0 <= i < 4 implies !"BV"@.is_prefix_of(#[trigger] all[i]) by {
        assert(all[i] == before[i]);
    }
    assert(is_first_bvid(all, 4));
}

/// The field of a name is found where it stands, and none is where no field has the name.
pub proof fn law_field_is_found_by_its_name(
    fields: Seq<(String, Reply)>,
    name: Seq<char>,
    at: int,
)
    ensures
        0 <= at < fields.len() && fields[at].0@ == name && (forall|i: int|
            at < i < fields.len() ==> (#[trigger] fields[i]).0@ != name) ==> found(fields, name)
            == Some(fields[at].1),
        (forall|i: int| 0 <= i < fields.len() ==> (#[trigger] fields[i]).0@ != name) ==> found(
            fields,
            name,
        ) is None,
    decreases fields.len(),
{
    if fields.len() > 0 {
        let before = fields.drop_last();
        law_field_is_found_by_its_name(before, name, at);
        assert(fields.last() == fields[fields.len() - 1]);
        assert forall|i: int| 0 <= i < before.len() implies #[trigger] before[i] == fields[i] by {}
    }
}

/// A reply is read by the names of its fields: its code, and below its data the content number and
/// the address of the first source. A reply without a code counts as refused.
pub proof fn law_reply_is_read_by_names(reply: Reply, n: i64, text: String, data: Reply)
    ensures
        reply.spec_field("code"@) == Some(Reply::Number(n)) ==> code_of(reply) == n,
        !(reply.spec_field("code"@) matches Some(Reply::Number(_))) ==> code_of(reply) == -1,
        reply.spec_field("data"@) == Some(data) ==> {
            &&& data.spec_field("cid"@) == Some(Reply::Number(n)) ==> cid_of(reply) == Some(n)
            &&& !(data.spec_field("cid"@) matches Some(Reply::Number(_))) ==> cid_of(reply) is None
            &&& data.spec_field("title"@) == Some(Reply::Text(text)) ==> words_in(
                data_field(reply, "title"@),
            ) == Some(text@)
            &&& data.spec_field("durl"@) matches Some(Reply::List(items)) ==> {
                &&& items@.len() == 0 ==> source_of(reply) is None
                &&& items@.len() > 0 && items@[0].spec_field("url"@) == Some(Reply::Text(text))
                    ==> source_of(reply) == Some(text@)
                &&& items@.len() > 0 && !(items@[0].spec_field("url"@) matches Some(Reply::Text(_)))
                    ==> source_of(reply) is None
            }
            &&& !(data.spec_field("durl"@) matches Some(Reply::List(_))) ==> source_of(reply)
                is None
        },
        reply.spec_field("data"@) is None ==> cid_of(reply) is None && source_of(reply) is None,
{
}

/// A whole number is written in digits, with a minus sign in front exactly where it is negative.
pub proof fn law_whole_number_is_read_back(n: i64)
    ensures
        n >= 0 ==> parsed(signed_decimal(n)) == Some(n as u64),
        n < 0 ==> signed_decimal(n)[0] == '-' && is_number(signed_decimal(n).skip(1))
            && digits_value(signed_decimal(n).skip(1)) == -n,
{
    reveal_strlit("-");
    if n < 0 {
        assert(signed_decimal(n).skip(1) =~= decimal((-n) as nat));
        lemma_decimal_is_number((-n) as nat);
    } else {
        law_parse_of_decimal(n as u64);
    }
}

/// The source of a content is asked for by the numbers of the video and of the content, each in a
/// parameter of its own; the description of a video by its number alone.
pub proof fn law_questions_name_what_is_asked_for(bvid: Seq<char>, cid: i64)
    requires
        forall|i: int| 0 <= i < bvid.len() ==> #[trigger] bvid[i] != '&',
    ensures
        ({
            let parameters = pieces(play_address(bvid, cid), seq!['&']);
            &&& parameters.len() == 4
            &&& parameters[0] == "https://api.bilibili.com/x/player/playurl?bvid="@ + bvid
            &&& parameters[1] == "cid="@ + signed_decimal(cid)
            &&& parameters[2] == "qn=80"@
            &&& parameters[3] == "fnval=1"@
        }),
        bvid.is_suffix_of(view_address(bvid)),
        "https://api.bilibili.com/x/web-interface/view?bvid="@.is_prefix_of(view_address(bvid)),
        view_address(bvid).len() == "https://api.bilibili.com/x/web-interface/view?bvid="@.len()
            + bvid.len(),
{
    let seps = seq!['&'];
    let site = "https://api.bilibili.com/x/player/playurl?bvid="@;
    let head = site + bvid;
    let number = signed_decimal(cid);
    let content = "cid="@ + number;
    reveal_strlit("https://api.bilibili.com/x/player/playurl?bvid=");
    reveal_strlit("&cid=");
    reveal_strlit("cid=");
    reveal_strlit("&qn=80&fnval=1");
    reveal_strlit("qn=80");
    reveal_strlit("fnval=1");
    reveal_strlit("-");
    let t2 = "qn=80"@.push('&') + "fnval=1"@;
    let t1 = content.push('&') + t2;
    assert(play_address(bvid, cid) =~= head.push('&') + t1);
    assert(seps.contains('&')) by {
        assert(seps[0] == '&');
    }
    assert forall|i: int| 0 <= i < head.len() implies !seps.contains(#[trigger] head[i]) by {
        if i < site.len() {
            assert(head[i] == site[i]);
        } else {
            assert(head[i] == bvid[i - site.len()]);
        }
    }
    let size = if cid < 0 {
        (-cid) as nat
    } else {
        cid as nat
    };
    lemma_decimal_is_number(size);
    assert forall|i: int| 0 <= i < content.len() implies !seps.contains(#[trigger] content[i]) by {
        if i < 4 {
            assert(content[i] == "cid="@[i]);
        } else if cid < 0 && i == 4 {
            assert(content[i] == '-');
        } else if cid < 0 {
            assert(content[i] == decimal(size)[i - 5]);
            assert(is_digit(decimal(size)[i - 5]));
        } else {
            assert(content[i] == decimal(size)[i - 4]);
            assert(is_digit(decimal(size)[i - 4]));
        }
    }
    lemma_pieces_of_two(head, '&', t1, seps);
    lemma_pieces_of_two(content, '&', t2, seps);
    lemma_pieces_of_two("qn=80"@, '&', "fnval=1"@, seps);
    lemma_one_piece(head, seps);
    lemma_one_piece(content, seps);
    lemma_one_piece("qn=80"@, seps);
    lemma_one_piece("fnval=1"@, seps);
    assert(pieces(play_address(bvid, cid), seps) =~= seq![head, content, "qn=80"@, "fnval=1"@]);
    let view = view_address(bvid);
    let front = "https://api.bilibili.com/x/web-interface/view?bvid="@;
    assert(view.subrange(view.len() - bvid.len(), view.len() as int) =~= bvid);
    assert(view.subrange(0, front.len() as int) =~= front);
}

/// The number that a link names is the first of its pieces, between slashes and question marks, that
/// starts as one.
pub proof fn law_first_number_counts(url: Seq<char>, parts: Seq<Seq<char>>, at: int, other: int)
    requires
        parts == pieces(url, seq!['/', '?']),
        is_first_bvid(link_pieces(url), at),
        is_first_bvid(link_pieces(url), other),
    ensures
        at == other,
        0 <= at < parts.len(),
        "BV"@.is_prefix_of(parts[at]),
        forall|i: int| 0 <= i < at ==> !"BV"@.is_prefix_of(#[trigger] parts[i]),
{
    if at < other {
        assert(!"BV"@.is_prefix_of(link_pieces(url)[at]));
    } else if other < at {
        assert(!"BV"@.is_prefix_of(link_pieces(url)[other]));
    }
}

/// A description that was not refused names its content, where it gives a number for it; one that
/// was refused is turned down with its code.
pub proof fn law_description_names_its_content(reply: Reply, cid: i64)
    ensures
        code_of(reply) == 0 && cid_of(reply) == Some(cid) ==> content_in(reply) == Ok::<
            i64,
            BilibiliError,
        >(cid),
        code_of(reply) == 0 && cid_of(reply) is None ==> content_in(reply) == Err::<
            i64,
            BilibiliError,
        >(BilibiliError::NoCid),
        code_of(reply) != 0 ==> content_in(reply) == Err::<i64, BilibiliError>(
            BilibiliError::View(code_of(reply)),
        ),
{
}

/// A reply that was not refused names the first source that it lists; one that was refused is turned
/// down with its code.
pub proof fn law_reply_names_its_source(reply: Reply, url: Seq<char>)
    ensures
        code_of(reply) == 0 && source_of(reply) == Some(url) ==> source_in(reply) == Ok::<
            Seq<char>,
            BilibiliError,
        >(url),
        code_of(reply) == 0 && source_of(reply) is None ==> source_in(reply) == Err::<
            Seq<char>,
            BilibiliError,
        >(BilibiliError::NoUrl),
        code_of(reply) != 0 ==> source_in(reply) == Err::<Seq<char>, BilibiliError>(
            BilibiliError::Play(code_of(reply)),
        ),
{
}

/// A video is named by its title, with an underscore for what no file name holds, and without a
/// title by a name of its own.
pub proof fn law_video_is_named_by_its_title(reply: Reply, title: Seq<char>, i: int)
    requires
        words_in(data_field(reply, "title"@)) == Some(title),
        0 <= i < title.len(),
    ensures
        name_in(reply).len() == title.len(),
        "/\\:*?\"<>|"@.contains(title[i]) ==> name_in(reply)[i] == '_',
        !"/\\:*?\"<>|"@.contains(title[i]) ==> name_in(reply)[i] == title[i],
        name_in(Reply::Other) == sanitized("bilibili_video"@),
{
    law_file_name_keeps_the_rest(title, i);
}

} // verus!
