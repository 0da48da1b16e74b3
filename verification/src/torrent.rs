//! The torrent backend: what is told of a torrent, where its files lie, and how a file is served.
use crate::magnet::{
    complete_magnet, completed, default_trackers, magnet_text, parse_panics, parsed_magnet,
    MagnetError,
};
use crate::media::{
    ends_as_video, file_views, has_video, is_main_of, is_video_file,
    law_main_video_is_the_largest, lowercase, main_video_file, progress, progress_of, video_files,
    videos_of, DownloadStats, FileInfo, FileView, Progress, Rate, StatsView,
};
use crate::number::{decimal, law_parse_of_decimal, parsed};
use crate::range::{
    answered, clamp_range, law_range_header_is_read_back, parse_range, range_header, requested,
    span_for,
};
use crate::reply::{
    get_mime_type_from_filename, guessed_mime, header_bytes, headers_for_part, headers_for_whole,
    is_visible,
    law_header_is_read_back, law_range_request_is_understood, part_headers, sent_type,
    stream_address, stream_url, visible, visible_text, whole_headers, Headers, HeadersView, Status,
};
use crate::text::{join, joined, pieces, starts_with, text_in, texts};
use vstd::prelude::*;
use vstd::utf8::{decode_utf8, valid_utf8};

verus! {

/// A file as a torrent describes it.
#[derive(Debug)]
pub struct TorrentFile {
    /// The steps of its path, as bytes.
    pub path: Vec<Vec<u8>>,
    pub length: u64,
}

/// What a torrent describes: a list of files, or one file by name and length.
#[derive(Debug)]
pub struct TorrentMetadata {
    pub files: Option<Vec<TorrentFile>>,
    pub name: Option<Vec<u8>>,
    pub length: Option<u64>,
}

/// What the session tells of a torrent that is being transferred. The speeds are in mebibytes per
/// second, as the bits of double-precision numbers.
#[derive(Clone, Copy, Debug)]
pub struct LiveTransfer {
    pub download_mbps_bits: u64,
    pub upload_mbps_bits: u64,
    pub peers: usize,
}

/// What the session tells of a torrent.
#[derive(Debug)]
pub struct Torrent {
    pub name: Option<String>,
    pub progress_bytes: u64,
    pub total_bytes: u64,
    pub finished: bool,
    pub error: Option<String>,
    pub file_progress: Vec<u64>,
    pub live: Option<LiveTransfer>,
    /// Missing until it has been received.
    pub metadata: Option<TorrentMetadata>,
}

/// Why the backend turns a request down.
#[derive(Clone, Copy, Debug, PartialEq, Eq, Structural)]
pub enum TorrentError {
    NotStarted,
    NotFound,
    NoMetadata,
    BadIndex,
    NoVideo,
    ListOnly,
    NotAdded,
    NotPaused,
    NotResumed,
    NotDeleted,
}

impl TorrentError {
    /// The reason as it is shown.
    pub open spec fn text(self) -> Seq<char> {
        match self {
            TorrentError::NotStarted => "HTTP server not started"@,
            TorrentError::NotFound => "Torrent not found"@,
            TorrentError::NoMetadata => "Failed to get metadata"@,
            TorrentError::BadIndex => "Invalid file index"@,
            TorrentError::NoVideo => "No video file found"@,
            TorrentError::ListOnly => "List-only mode not supported"@,
            TorrentError::NotAdded => "Failed to add torrent"@,
            TorrentError::NotPaused => "Failed to pause download"@,
            TorrentError::NotResumed => "Failed to resume download"@,
            TorrentError::NotDeleted => "Failed to delete torrent"@,
        }
    }

    /// The reason as it is shown.
    pub fn message(&self) -> (out: String)
        ensures
            out@ == self.text(),
    {
        match self {
            TorrentError::NotStarted => "HTTP server not started".to_string(),
            TorrentError::NotFound => "Torrent not found".to_string(),
            TorrentError::NoMetadata => "Failed to get metadata".to_string(),
            TorrentError::BadIndex => "Invalid file index".to_string(),
            TorrentError::NoVideo => "No video file found".to_string(),
            TorrentError::ListOnly => "List-only mode not supported".to_string(),
            TorrentError::NotAdded => "Failed to add torrent".to_string(),
            TorrentError::NotPaused => "Failed to pause download".to_string(),
            TorrentError::NotResumed => "Failed to resume download".to_string(),
            TorrentError::NotDeleted => "Failed to delete torrent".to_string(),
        }
    }
}

/// What the session answers when it is given a torrent.
#[derive(Clone, Copy, Debug, PartialEq, Eq, Structural)]
pub enum AddOutcome {
    AlreadyManaged(usize),
    ListOnly,
    Added(usize),
}

/// Bytes as text, whatever cannot be read replaced.
pub uninterp spec fn lossy(bytes: Seq<u8>) -> Seq<char>;

/// `String::from_utf8_lossy`: `bytes` as text, a function of `bytes` alone. Bytes that are UTF-8
/// are decoded as such; invalid ones come out as replacement characters.
#[verifier::external_body]
fn lossy_text(bytes: &[u8]) -> (text: String)
    ensures
        text@ == lossy(bytes@),
        valid_utf8(bytes@) ==> text@ == decode_utf8(bytes@),
{
    String::from_utf8_lossy(bytes).into_owned()
}

/// The steps of a path as text.
pub open spec fn step_texts(path: Seq<Vec<u8>>) -> Seq<Seq<char>> {
    path.map_values(|step: Vec<u8>| lossy(step@))
}

/// The name of a file: the steps of its path, with slashes between them.
pub open spec fn file_name(path: Seq<Vec<u8>>) -> Seq<char> {
    joined(step_texts(path), "/"@)
}

/// How much of the file at `index` is there.
pub open spec fn progress_at(progress: Seq<u64>, index: int) -> u64 {
    if 0 <= index < progress.len() {
        progress[index]
    } else {
        0
    }
}

/// A file under a name; whether it is a video goes by the name.
pub open spec fn named_file(
    index: usize,
    name: Seq<char>,
    size: u64,
    downloaded: u64,
) -> FileView {
    FileView { index, name, size, downloaded, is_video: ends_as_video(lowercase(name)) }
}

/// The files of a torrent that has been described.
pub open spec fn listed(torrent: Torrent, metadata: TorrentMetadata) -> Seq<FileView> {
    match metadata.files {
        Some(files) => Seq::new(
            files@.len(),
            |i: int|
                named_file(
                    i as usize,
                    file_name(files@[i].path@),
                    files@[i].length,
                    progress_at(torrent.file_progress@, i),
                ),
        ),
        None => seq![
            named_file(
                0,
                match metadata.name {
                    Some(name) => lossy(name@),
                    None => "unknown"@,
                },
                match metadata.length {
                    Some(length) => length,
                    None => 0,
                },
                torrent.progress_bytes,
            ),
        ],
    }
}

/// The files of a torrent, where it is there and described.
pub open spec fn files_of(torrent: Option<&Torrent>) -> Result<Seq<FileView>, TorrentError> {
    match torrent {
        None => Err(TorrentError::NotFound),
        Some(torrent) => match torrent.metadata {
            None => Err(TorrentError::NoMetadata),
            Some(metadata) => Ok(listed(*torrent, metadata)),
        },
    }
}

/// The name of a torrent, empty where it has none.
pub open spec fn torrent_name(torrent: Torrent) -> Seq<char> {
    match torrent.name {
        Some(name) => name@,
        None => Seq::empty(),
    }
}

/// Where a file of a torrent lies, as steps below the download directory: under the torrent's name
/// where it is the only one, else under its own name below the torrent's.
pub open spec fn path_of(torrent: Option<&Torrent>, index: usize) -> Result<
    Seq<Seq<char>>,
    TorrentError,
> {
    match files_of(torrent) {
        Err(error) => Err(error),
        Ok(files) => if index >= files.len() {
            Err(TorrentError::BadIndex)
        } else if files.len() == 1 {
            Ok(seq![torrent_name(*torrent->0)])
        } else {
            Ok(seq![torrent_name(*torrent->0), files[index as int].name])
        },
    }
}

/// A list of steps, or why there is none.
pub open spec fn steps_in(path: Result<Vec<String>, TorrentError>) -> Result<
    Seq<Seq<char>>,
    TorrentError,
> {
    match path {
        Ok(steps) => Ok(texts(steps@)),
        Err(error) => Err(error),
    }
}

/// A list of files, or why there is none.
pub open spec fn files_in(files: Result<Vec<FileInfo>, TorrentError>) -> Result<
    Seq<FileView>,
    TorrentError,
> {
    match files {
        Ok(files) => Ok(file_views(files@)),
        Err(error) => Err(error),
    }
}

/// What the torrent backend reports of a torrent.
pub open spec fn torrent_stats(torrent: Torrent) -> StatsView {
    StatsView {
        progress: progress_of(torrent.progress_bytes, torrent.total_bytes),
        downloaded_bytes: torrent.progress_bytes,
        total_bytes: torrent.total_bytes,
        download_speed: match torrent.live {
            Some(live) => Rate::Reported { mbps_bits: live.download_mbps_bits },
            None => Rate::Zero,
        },
        upload_speed: match torrent.live {
            Some(live) => Rate::Reported { mbps_bits: live.upload_mbps_bits },
            None => Rate::Zero,
        },
        is_finished: torrent.finished,
        error: text_in(torrent.error),
        peers_count: match torrent.live {
            Some(live) => live.peers,
            None => 0,
        },
    }
}

/// Whether every step of a path is UTF-8.
pub open spec fn is_utf8_path(path: Seq<Vec<u8>>) -> bool {
    forall|i: int| 0 <= i < path.len() ==> valid_utf8(#[trigger] path[i]@)
}

/// The name of a file whose path is UTF-8: the steps decoded, with slashes between them.
pub open spec fn decoded_name(path: Seq<Vec<u8>>) -> Seq<char> {
    joined(path.map_values(|step: Vec<u8>| decode_utf8(step@)), "/"@)
}

/// Whether every file whose description is UTF-8 bears its name decoded.
pub open spec fn names_are_decoded(metadata: TorrentMetadata, files: Seq<FileView>) -> bool {
    match metadata.files {
        Some(described) => forall|i: int|
            0 <= i < described@.len() && is_utf8_path((#[trigger] described@[i]).path@)
                ==> files[i].name == decoded_name(described@[i].path@),
        None => metadata.name matches Some(name) ==> valid_utf8(name@) ==> files[0].name
            == decode_utf8(name@),
    }
}

/// Whether every file is listed with the length that its description gives.
pub open spec fn sizes_are_described(metadata: TorrentMetadata, files: Seq<FileView>) -> bool {
    match metadata.files {
        Some(described) => {
            &&& files.len() == described@.len()
            &&& forall|i: int|
                0 <= i < described@.len() ==> files[i].size == (#[trigger] described@[i]).length
        },
        None => files.len() == 1 && (metadata.length matches Some(length) ==> files[0].size
            == length),
    }
}

/// A file under a name; whether it is a video goes by the name.
pub fn file_entry(index: usize, name: String, size: u64, downloaded: u64) -> (file: FileInfo)
    ensures
        file@ == named_file(index, name@, size, downloaded),
{
    let is_video = is_video_file(name.as_str());
    FileInfo { index, name, size, downloaded, is_video }
}

/// The name of a file.
fn path_name(path: &[Vec<u8>]) -> (name: String)
    ensures
        name@ == file_name(path@),
        is_utf8_path(path@) ==> name@ == decoded_name(path@),
{
    let ghost decoded = path@.map_values(|step: Vec<u8>| decode_utf8(step@));
    let mut steps: Vec<String> = Vec::new();
    for i in 0..path.len()
        invariant
            decoded == path@.map_values(|step: Vec<u8>| decode_utf8(step@)),
            texts(steps@) == step_texts(path@).take(i as int),
            is_utf8_path(path@) ==> texts(steps@) == decoded.take(i as int),
    {
        let ghost before = steps@;
        let step = lossy_text(&path[i]);
        let ghost text = step@;
        steps.push(step);
        assert(texts(steps@) =~= texts(before).push(text));
        assert(step_texts(path@).take(i + 1) =~= step_texts(path@).take(i as int).push(text));
        assert(valid_utf8(path@[i as int]@) ==> text == decoded[i as int]);
        assert(is_utf8_path(path@) ==> decoded.take(i + 1) =~= decoded.take(i as int).push(text));
    }
    assert(step_texts(path@).take(path@.len() as int) =~= step_texts(path@));
    assert(decoded.take(path@.len() as int) =~= decoded);
    join(&steps, "/")
}

/// The files of a torrent that has been described.
fn list_files(torrent: &Torrent, metadata: &TorrentMetadata) -> (list: Vec<FileInfo>)
    ensures
        file_views(list@) == listed(*torrent, *metadata),
        names_are_decoded(*metadata, file_views(list@)),
        sizes_are_described(*metadata, file_views(list@)),
{
    let mut list: Vec<FileInfo> = Vec::new();
    let ghost wanted = listed(*torrent, *metadata);
    match &metadata.files {
        Some(files) => {
            for i in 0..files.len()
                invariant
                    wanted == listed(*torrent, *metadata),
                    metadata.files == Some(*files),
                    file_views(list@) == wanted.take(i as int),
                    forall|j: int|
                        0 <= j < i && is_utf8_path((#[trigger] files@[j]).path@) ==> wanted[j].name
                            == decoded_name(files@[j].path@),
            {
                let downloaded: u64 = if i < torrent.file_progress.len() {
                    torrent.file_progress[i]
                } else {
                    0
                };
                let file = file_entry(i, path_name(&files[i].path), files[i].length, downloaded);
                let ghost before = list@;
                let ghost view = file@;
                list.push(file);
                assert(file_views(list@) =~= file_views(before).push(view));
                assert(wanted.take(i + 1) =~= wanted.take(i as int).push(view));
            }
            assert(wanted.take(files@.len() as int) =~= wanted);
        },
        None => {
            let name = match &metadata.name {
                Some(name) => lossy_text(name),
                None => "unknown".to_string(),
            };
            let size: u64 = match metadata.length {
                Some(length) => length,
                None => 0,
            };
            let file = file_entry(0, name, size, torrent.progress_bytes);
            let ghost view = file@;
            list.push(file);
            assert(file_views(list@) =~= seq![view]);
        },
    }
    list
}

/// The answer to a request for a file that is there.
#[derive(Debug)]
pub enum StreamPlan {
    /// No bytes are sent.
    Refused(Status),
    /// The whole file is sent.
    Whole(Headers),
    /// `length` bytes are sent from `start` on.
    Part { start: u64, length: u64, headers: Headers },
}

/// The values of an answer.
pub enum PlanView {
    Refused(Status),
    Whole(HeadersView),
    Part { start: u64, length: int, headers: HeadersView },
}

impl View for StreamPlan {
    type V = PlanView;

    open spec fn view(&self) -> PlanView {
        match self {
            StreamPlan::Refused(status) => PlanView::Refused(*status),
            StreamPlan::Whole(headers) => PlanView::Whole(headers@),
            StreamPlan::Part { start, length, headers } => PlanView::Part {
                start: *start,
                length: *length as int,
                headers: headers@,
            },
        }
    }
}

/// The status of an answer: a failure where the bytes to be sent could not be had.
pub open spec fn plan_status(plan: PlanView, ready: bool) -> Status {
    match plan {
        PlanView::Refused(status) => status,
        PlanView::Whole(_) => if ready {
            Status::Whole
        } else {
            Status::Failed
        },
        PlanView::Part { .. } => if ready {
            Status::Part
        } else {
            Status::Failed
        },
    }
}

impl StreamPlan {
    /// The status of the answer: a failure where the bytes to be sent could not be had.
    pub fn status(&self, ready: bool) -> (status: Status)
        ensures
            status == plan_status(self@, ready),
    {
        match self {
            StreamPlan::Refused(status) => *status,
            StreamPlan::Whole(_) => if ready {
                Status::Whole
            } else {
                Status::Failed
            },
            StreamPlan::Part { .. } => if ready {
                Status::Part
            } else {
                Status::Failed
            },
        }
    }
}

/// The answer to a request for the file at `path`, of `size` bytes: refused where the range cannot
/// be read as text, a part where it asks for one, else the whole file.
pub open spec fn planned(path: Seq<char>, size: u64, range: Option<Seq<u8>>) -> PlanView {
    let content_type = sent_type(guessed_mime(path));
    let whole = PlanView::Whole(whole_headers(content_type, size));
    match range {
        None => whole,
        Some(bytes) => match visible(bytes) {
            None => PlanView::Refused(Status::BadRequest),
            Some(header) => match requested(header) {
                None => whole,
                Some(asked) => {
                    let span = span_for(asked, size);
                    PlanView::Part {
                        start: span.start,
                        length: span.spec_length(),
                        headers: part_headers(content_type, span, size),
                    }
                },
            },
        },
    }
}

/// Whether a request asks for a part of a file.
pub open spec fn asks_for_part(range: Option<Seq<u8>>) -> bool {
    range matches Some(bytes) && visible(bytes) matches Some(header) && requested(header) is Some
}

/// The size of a file that was looked up, or the status of the answer where there is none.
pub open spec fn size_found(present: bool, size: Option<u64>) -> Result<u64, Status> {
    if !present {
        Err(Status::NotFound)
    } else {
        match size {
            Some(size) => Ok(size),
            None => Err(Status::Failed),
        }
    }
}

/// Bytes of a header, where it is there.
pub open spec fn bytes_in(range: Option<&[u8]>) -> Option<Seq<u8>> {
    match range {
        Some(bytes) => Some(bytes@),
        None => None,
    }
}

/// The address under which the server at `port` gives a file of a torrent, where it has started and
/// the file is there.
pub open spec fn address(
    port: u16,
    torrent: Option<&Torrent>,
    id: usize,
    index: usize,
) -> Result<Seq<char>, TorrentError> {
    if port == 0 {
        Err(TorrentError::NotStarted)
    } else {
        match path_of(torrent, index) {
            Ok(_) => Ok(stream_address(port, id, index)),
            Err(error) => Err(error),
        }
    }
}

/// Whether the backend takes a link: it takes magnet links.
pub open spec fn takes(url: Seq<char>) -> bool {
    "magnet:?"@.is_prefix_of(url)
}

/// The torrent backend. Its server gets a port when it starts.
pub struct TorrentStreamer {
    server_port: u16,
}

impl TorrentStreamer {
    /// The port of the server, zero before it has started.
    pub closed spec fn port(self) -> u16 {
        self.server_port
    }

    /// A backend whose server has not started.
    pub fn new() -> (streamer: Self)
        ensures
            streamer.port() == 0,
    {
        TorrentStreamer { server_port: 0 }
    }

    /// Notes the port of the server.
    pub fn set_server_port(&mut self, port: u16)
        ensures
            final(self).port() == port,
    {
        self.server_port = port;
    }

    /// Whether the backend takes a link: it takes magnet links.
    pub fn supports(url: &str) -> (yes: bool)
        ensures
            yes == takes(url@),
    {
        starts_with(url, "magnet:?")
    }

    /// The link that the session is given for a magnet link.
    pub fn add_magnet(magnet_url: &str) -> (link: Result<String, MagnetError>)
        requires
            !parse_panics(magnet_url@),
        ensures
            match link {
                Ok(link) => {
                    &&& "magnet:?"@.is_prefix_of(magnet_url@)
                    &&& parsed_magnet(magnet_url@) matches Ok((content, trackers, selection))
                        && link@ == magnet_text(
                        content,
                        completed(trackers, default_trackers()),
                        selection,
                    )
                },
                Err(MagnetError::Format) => !"magnet:?"@.is_prefix_of(magnet_url@),
                Err(MagnetError::Invalid(reason)) => {
                    &&& "magnet:?"@.is_prefix_of(magnet_url@)
                    &&& parsed_magnet(magnet_url@) == Err::<
                        (Seq<char>, Seq<Seq<char>>, Seq<char>),
                        Seq<char>,
                    >(reason@)
                },
            },
    {
        complete_magnet(magnet_url)
    }

    /// The number of the torrent that the session took, from its answer, where it gave one.
    pub fn added(outcome: Option<AddOutcome>) -> (id: Result<usize, TorrentError>)
        ensures
            id == match outcome {
                Some(AddOutcome::AlreadyManaged(id)) => Ok(id),
                Some(AddOutcome::ListOnly) => Err(TorrentError::ListOnly),
                Some(AddOutcome::Added(id)) => Ok(id),
                None => Err(TorrentError::NotAdded),
            },
    {
        match outcome {
            Some(AddOutcome::AlreadyManaged(id)) => Ok(id),
            Some(AddOutcome::ListOnly) => Err(TorrentError::ListOnly),
            Some(AddOutcome::Added(id)) => Ok(id),
            None => Err(TorrentError::NotAdded),
        }
    }

    /// The outcome of pausing a torrent. `paused` is whether the session did so, where it has the
    /// torrent.
    pub fn pause(paused: Option<bool>) -> (done: Result<(), TorrentError>)
        ensures
            done == match paused {
                None => Err(TorrentError::NotFound),
                Some(true) => Ok(()),
                Some(false) => Err(TorrentError::NotPaused),
            },
    {
        match paused {
            None => Err(TorrentError::NotFound),
            Some(true) => Ok(()),
            Some(false) => Err(TorrentError::NotPaused),
        }
    }

    /// The outcome of letting a torrent go on. `resumed` is whether the session did so, where it
    /// has the torrent.
    pub fn resume(resumed: Option<bool>) -> (done: Result<(), TorrentError>)
        ensures
            done == match resumed {
                None => Err(TorrentError::NotFound),
                Some(true) => Ok(()),
                Some(false) => Err(TorrentError::NotResumed),
            },
    {
        match resumed {
            None => Err(TorrentError::NotFound),
            Some(true) => Ok(()),
            Some(false) => Err(TorrentError::NotResumed),
        }
    }

    /// The outcome of removing a torrent. `deleted` is whether the session did so.
    pub fn remove(deleted: bool) -> (done: Result<(), TorrentError>)
        ensures
            done == if deleted {
                Ok(())
            } else {
                Err(TorrentError::NotDeleted)
            },
    {
        if deleted {
            Ok(())
        } else {
            Err(TorrentError::NotDeleted)
        }
    }

    /// What is reported of a torrent.
    pub fn get_stats(torrent: Option<&Torrent>) -> (stats: Result<DownloadStats, TorrentError>)
        ensures
            match stats {
                Ok(stats) => torrent matches Some(torrent) && stats@ == torrent_stats(*torrent)
                    && stats.downloaded_bytes == torrent.progress_bytes && stats.total_bytes
                    == torrent.total_bytes,
                Err(error) => torrent is None && error == TorrentError::NotFound,
            },
    {
        match torrent {
            None => Err(TorrentError::NotFound),
            Some(torrent) => {
                let (download_speed, upload_speed, peers_count) = match torrent.live {
                    Some(live) => (
                        Rate::Reported { mbps_bits: live.download_mbps_bits },
                        Rate::Reported { mbps_bits: live.upload_mbps_bits },
                        live.peers,
                    ),
                    None => (Rate::Zero, Rate::Zero, 0),
                };
                Ok(
                    DownloadStats {
                        progress: progress(torrent.progress_bytes, torrent.total_bytes),
                        downloaded_bytes: torrent.progress_bytes,
                        total_bytes: torrent.total_bytes,
                        download_speed,
                        upload_speed,
                        is_finished: torrent.finished,
                        error: match &torrent.error {
                            Some(error) => Some(error.clone()),
                            None => None,
                        },
                        peers_count,
                    },
                )
            },
        }
    }

    /// The files of a torrent, each with the length that its description gives. Names that are
    /// UTF-8 are decoded as such.
    pub fn get_files(torrent: Option<&Torrent>) -> (files: Result<Vec<FileInfo>, TorrentError>)
        ensures
            files_in(files) == files_of(torrent),
            files matches Ok(list) ==> names_are_decoded(
                (torrent->0).metadata->0,
                file_views(list@),
            ) && sizes_are_described((torrent->0).metadata->0, file_views(list@)),
    {
        match torrent {
            None => Err(TorrentError::NotFound),
            Some(torrent) => match &torrent.metadata {
                None => Err(TorrentError::NoMetadata),
                Some(metadata) => Ok(list_files(torrent, metadata)),
            },
        }
    }

    /// The videos of a torrent.
    pub fn get_video_files(torrent: Option<&Torrent>) -> (files: Result<
        Vec<FileInfo>,
        TorrentError,
    >)
        ensures
            match files_of(torrent) {
                Ok(all) => files matches Ok(videos) && file_views(videos@) == videos_of(all),
                Err(error) => files matches Err(given) && given == error,
            },
    {
        match Self::get_files(torrent) {
            Ok(files) => Ok(video_files(&files)),
            Err(error) => Err(error),
        }
    }

    /// The main video of a torrent: the largest, and the last of those that are equally large.
    pub fn get_main_video_file(torrent: Option<&Torrent>) -> (main: Result<FileInfo, TorrentError>)
        ensures
            match files_of(torrent) {
                Ok(all) => match main {
                    Ok(main) => is_main_of(all, main@),
                    Err(error) => error == TorrentError::NoVideo && !has_video(all),
                },
                Err(error) => main matches Err(given) && given == error,
            },
    {
        match Self::get_files(torrent) {
            Ok(files) => match main_video_file(&files) {
                Some(main) => Ok(main),
                None => Err(TorrentError::NoVideo),
            },
            Err(error) => Err(error),
        }
    }

    /// Where a file of a torrent lies, as steps below the download directory.
    pub fn get_file_path(torrent: Option<&Torrent>, file_index: usize) -> (path: Result<
        Vec<String>,
        TorrentError,
    >)
        ensures
            steps_in(path) == path_of(torrent, file_index),
    {
        let files = match Self::get_files(torrent) {
            Ok(files) => files,
            Err(error) => return Err(error),
        };
        assert(file_views(files@).len() == files@.len());
        if file_index >= files.len() {
            return Err(TorrentError::BadIndex);
        }
        let name = match torrent {
            Some(torrent) => match &torrent.name {
                Some(name) => name.clone(),
                None => String::new(),
            },
            None => String::new(),
        };
        let ghost first = name@;
        let mut steps: Vec<String> = Vec::new();
        steps.push(name);
        if files.len() > 1 {
            steps.push(files[file_index].name.clone());
            assert(texts(steps@) =~= seq![first, files@[file_index as int].name@]);
        } else {
            assert(texts(steps@) =~= seq![first]);
        }
        Ok(steps)
    }

    /// The address under which a file of a torrent is served.
    pub fn get_stream_url(
        &self,
        torrent: Option<&Torrent>,
        torrent_id: usize,
        file_index: usize,
    ) -> (url: Result<String, TorrentError>)
        ensures
            match url {
                Ok(url) => self.port() != 0 && path_of(torrent, file_index) is Ok && url@
                    == stream_address(self.port(), torrent_id, file_index),
                Err(error) => if self.port() == 0 {
                    error == TorrentError::NotStarted
                } else {
                    path_of(torrent, file_index) == Err::<Seq<Seq<char>>, TorrentError>(error)
                },
            },
            match url {
                Ok(url) => address(self.port(), torrent, torrent_id, file_index) == Ok::<
                    Seq<char>,
                    TorrentError,
                >(url@),
                Err(error) => address(self.port(), torrent, torrent_id, file_index) == Err::<
                    Seq<char>,
                    TorrentError,
                >(error),
            },
    {
        if self.server_port == 0 {
            return Err(TorrentError::NotStarted);
        }
        match Self::get_file_path(torrent, file_index) {
            Ok(_) => Ok(stream_url(self.server_port, torrent_id, file_index)),
            Err(error) => Err(error),
        }
    }

    /// The file that a request names, as steps below the download directory, or the status of the
    /// answer where there is none.
    pub fn locate(torrent: Option<&Torrent>, file_index: usize) -> (path: Result<
        Vec<String>,
        Status,
    >)
        ensures
            match path {
                Ok(steps) => path_of(torrent, file_index) == Ok::<Seq<Seq<char>>, TorrentError>(
                    texts(steps@),
                ),
                Err(status) => path_of(torrent, file_index) is Err && status == Status::NotFound,
            },
    {
        match Self::get_file_path(torrent, file_index) {
            Ok(steps) => Ok(steps),
            Err(_) => Err(Status::NotFound),
        }
    }

    /// The size of a file that was looked up, or the status of the answer: a file that is not there
    /// is not found, and one that cannot be examined is a failure.
    pub fn examined(present: bool, size: Option<u64>) -> (found: Result<u64, Status>)
        ensures
            found == size_found(present, size),
    {
        if !present {
            return Err(Status::NotFound);
        }
        match size {
            Some(size) => Ok(size),
            None => Err(Status::Failed),
        }
    }

    /// The answer to a request for the file at `path`. A part can be asked for only of a file that
    /// holds a byte.
    pub fn plan_stream(path: &str, size: u64, range: Option<&[u8]>) -> (plan: StreamPlan)
        requires
            asks_for_part(bytes_in(range)) ==> size > 0,
        ensures
            plan@ == planned(path@, size, bytes_in(range)),
            plan matches StreamPlan::Part { start, length, headers } ==> parsed(
                headers.content_length@,
            ) == Some(length),
    {
        proof {
            lemma_part_tells_its_length(path@, size, bytes_in(range));
        }
        if let Some(bytes) = range {
            let header = match visible_text(bytes) {
                Some(header) => header,
                None => return StreamPlan::Refused(Status::BadRequest),
            };
            if let Some(asked) = parse_range(header.as_str()) {
                let span = clamp_range(asked, size);
                return StreamPlan::Part {
                    start: span.start,
                    length: span.length(),
                    headers: headers_for_part(get_mime_type_from_filename(path), span, size),
                };
            }
        }
        StreamPlan::Whole(headers_for_whole(get_mime_type_from_filename(path), size))
    }

    /// Whether a request asks for a part of a file.
    pub fn wants_part(range: Option<&[u8]>) -> (yes: bool)
        ensures
            yes == asks_for_part(bytes_in(range)),
    {
        match range {
            Some(bytes) => match visible_text(bytes) {
                Some(header) => parse_range(header.as_str()).is_some(),
                None => false,
            },
            None => false,
        }
    }
}

/// The status of the answer to a request, from what was found: where the file lies, whether it is
/// there under the path `name`, its size, and whether its bytes could be had.
pub open spec fn request_status(
    path: Result<Seq<Seq<char>>, TorrentError>,
    name: Seq<char>,
    present: bool,
    size: Option<u64>,
    range: Option<Seq<u8>>,
    ready: bool,
) -> Status {
    match path {
        Err(_) => Status::NotFound,
        Ok(_) => match size_found(present, size) {
            Err(status) => status,
            Ok(size) => plan_status(planned(name, size, range), ready),
        },
    }
}

/// Every request has one outcome. It is not found where the torrent has no such file or the file is
/// not there; of a file that can be examined it is a bad one where the range cannot be read as
/// text; else, where the bytes can be had, it is answered by a part where it asks for one and by
/// the whole file where it does not; whatever is left has failed.
pub proof fn law_every_request_has_one_outcome(
    path: Result<Seq<Seq<char>>, TorrentError>,
    name: Seq<char>,
    present: bool,
    size: Option<u64>,
    range: Option<Seq<u8>>,
    ready: bool,
)
    ensures
        ({
            let status = request_status(path, name, present, size, range, ready);
            let examined = path is Ok && present && size is Some;
            let unreadable = range matches Some(bytes) && visible(bytes) is None;
            &&& status == Status::NotFound <==> path is Err || !present
            &&& status == Status::BadRequest <==> examined && unreadable
            &&& status == Status::Part <==> examined && ready && asks_for_part(range)
            &&& status == Status::Whole <==> examined && ready && !unreadable && !asks_for_part(
                range,
            )
        }),
{
}

/// A player that asks for the bytes from `start` to `end` is sent those, up to the last byte of the
/// file. The headers tell how many bytes are sent and which ones, out of how many.
pub proof fn law_range_request_is_answered(
    plan: StreamPlan,
    path: Seq<char>,
    size: u64,
    start: u64,
    end: u64,
)
    requires
        size > 0,
        plan@ == planned(
            path,
            size,
            Some(header_bytes("bytes="@ + decimal(start as nat) + "-"@ + decimal(end as nat))),
        ),
    ensures
        ({
            let last = if end <= size - 1 {
                end as int
            } else {
                size - 1
            };
            &&& plan is Part
            &&& plan->start == start
            &&& plan->length == if start <= last {
                last - start + 1
            } else {
                1
            }
            &&& parsed(plan->headers.content_length@) == Some(plan->length)
            &&& plan->headers.content_range is Some
            &&& (plan->headers.content_range->0)@ == "bytes "@ + decimal(start as nat) + "-"@
                + decimal(last as nat) + "/"@ + decimal(size as nat)
            &&& plan->headers.accept_ranges@ == "bytes"@
            &&& plan->headers.content_type@ == sent_type(guessed_mime(path))
            &&& plan_status(plan@, true) == Status::Part
        }),
{
    law_range_request_is_understood(start, end);
    law_range_header_is_read_back(start, end);
    let header = range_header(start, end);
    assert("bytes="@ + decimal(start as nat) + "-"@ + decimal(end as nat) == header);
    assert(requested(visible(header_bytes(header))->0) == Some((Some(start), Some(end))));
    let span = span_for((Some(start), Some(end)), size);
    law_parse_of_decimal(span.spec_length() as u64);
}

/// The length that the headers of a part tell is that of the part.
proof fn lemma_part_tells_its_length(path: Seq<char>, size: u64, range: Option<Seq<u8>>)
    ensures
        planned(path, size, range) matches PlanView::Part { start, length, headers } ==> parsed(
            headers.content_length,
        ) == Some(length as u64),
{
    if asks_for_part(range) {
        let asked = requested(visible(range->0)->0)->0;
        law_parse_of_decimal(span_for(asked, size).spec_length() as u64);
    }
}

/// Of every answer that carries a part, the length that the headers tell is the number of bytes that
/// are sent. There is at least one, and none behind the end of the file where the part starts in
/// it.
pub proof fn law_part_is_as_long_as_it_says(
    plan: StreamPlan,
    path: Seq<char>,
    size: u64,
    range: Option<Seq<u8>>,
)
    requires
        size > 0,
        plan@ == planned(path, size, range),
    ensures
        plan matches StreamPlan::Part { start, length, headers } ==> {
            &&& parsed(headers.content_length@) == Some(length)
            &&& length >= 1
            &&& start < size ==> start + length <= size
            &&& headers.content_range is Some
        },
{
    lemma_part_tells_its_length(path, size, range);
}

/// A player that asks for no range is sent the whole file, and told its size; so is one that asks
/// for something else than bytes.
pub proof fn law_other_requests_are_answered_by_the_whole(
    plan: StreamPlan,
    path: Seq<char>,
    size: u64,
    text: Seq<char>,
)
    requires
        forall|i: int| 0 <= i < text.len() ==> ' ' <= #[trigger] text[i] <= '~',
        !"bytes="@.is_prefix_of(text) || pieces(text.skip(6), seq!['-']).len() != 2,
        plan@ == planned(path, size, None) || plan@ == planned(
            path,
            size,
            Some(header_bytes(text)),
        ),
    ensures
        plan matches StreamPlan::Whole(headers) && {
            &&& parsed(headers.content_length@) == Some(size)
            &&& headers.content_range is None
            &&& headers.accept_ranges@ == "bytes"@
            &&& headers.content_type@ == sent_type(guessed_mime(path))
        },
        plan_status(plan@, true) == Status::Whole,
{
    reveal_strlit("bytes=");
    law_header_is_read_back(text);
    law_parse_of_decimal(size);
}

/// A range header that holds a byte that is no text is a bad request, of which nothing is sent.
pub proof fn law_unreadable_range_is_refused(
    plan: StreamPlan,
    path: Seq<char>,
    size: u64,
    bytes: Seq<u8>,
    i: int,
    ready: bool,
)
    requires
        0 <= i < bytes.len(),
        bytes[i] != 9 && (bytes[i] < 32 || bytes[i] > 126),
        plan@ == planned(path, size, Some(bytes)),
    ensures
        plan matches StreamPlan::Refused(status) && status == Status::BadRequest,
        plan_status(plan@, ready) == Status::BadRequest,
{
    assert(!is_visible(bytes[i]));
}

/// Where the bytes cannot be had, an answer that was to carry them is a failure.
pub proof fn law_missing_bytes_are_a_failure(plan: PlanView)
    ensures
        plan is Part || plan is Whole ==> plan_status(plan, false) == Status::Failed,
        plan is Part ==> plan_status(plan, true) == Status::Part,
        plan is Whole ==> plan_status(plan, true) == Status::Whole,
{
}

/// What was looked up decides: a file that is not there is not found, one that cannot be examined is
/// a failure, and every other has the size that was seen.
pub proof fn law_file_has_the_size_that_was_seen(size: u64)
    ensures
        size_found(true, Some(size)) == Ok::<u64, Status>(size),
        size_found(true, None) == Err::<u64, Status>(Status::Failed),
        size_found(false, Some(size)) == Err::<u64, Status>(Status::NotFound),
        size_found(false, None) == Err::<u64, Status>(Status::NotFound),
{
}

/// The report of a torrent gives the figures of the session: what is there of what there is, the
/// speeds and the peers while it is transferred, whether it has finished, and its error.
pub proof fn law_report_gives_the_figures_of_the_session(torrent: Torrent, stats: DownloadStats)
    requires
        stats@ == torrent_stats(torrent),
    ensures
        stats.downloaded_bytes == torrent.progress_bytes,
        stats.total_bytes == torrent.total_bytes,
        torrent.total_bytes > 0 ==> stats.progress == (Progress::Ratio {
            done: torrent.progress_bytes,
            total: torrent.total_bytes,
        }),
        torrent.total_bytes == 0 ==> stats.progress is Zero,
        stats.is_finished == torrent.finished,
        stats.error is Some <==> torrent.error is Some,
        stats.error is Some ==> (stats.error->0)@ == (torrent.error->0)@,
        torrent.live matches Some(live) ==> {
            &&& stats.download_speed == (Rate::Reported { mbps_bits: live.download_mbps_bits })
            &&& stats.upload_speed == (Rate::Reported { mbps_bits: live.upload_mbps_bits })
            &&& stats.peers_count == live.peers
        },
        torrent.live is None ==> stats.download_speed is Zero && stats.upload_speed is Zero
            && stats.peers_count == 0,
{
    assert(text_in(stats.error) == text_in(torrent.error));
}

/// A torrent is listed file by file as it is described: the file at a place has that place as its
/// index, the length described there, the steps of its path as its name, and as much of it is
/// there as the session says.
pub proof fn law_files_are_listed_as_described(
    torrent: Torrent,
    metadata: TorrentMetadata,
    list: Vec<FileInfo>,
    i: int,
)
    requires
        file_views(list@) == listed(torrent, metadata),
        metadata.files is Some,
        0 <= i < (metadata.files->0)@.len(),
    ensures
        ({
            let files = (metadata.files->0)@;
            &&& list@.len() == files.len()
            &&& list@[i].index == i
            &&& list@[i].size == files[i].length
            &&& list@[i].name@ == joined(
                files[i].path@.map_values(|step: Vec<u8>| lossy(step@)),
                "/"@,
            )
            &&& i < torrent.file_progress@.len() ==> list@[i].downloaded
                == torrent.file_progress@[i]
            &&& i >= torrent.file_progress@.len() ==> list@[i].downloaded == 0
            &&& list@[i].is_video == ends_as_video(lowercase(list@[i].name@))
        }),
{
    assert((metadata.files->0).len() == (metadata.files->0)@.len());
    assert(file_views(list@).len() == list@.len());
    assert(file_views(list@)[i] == list@[i]@);
}

/// A torrent that is one file is listed as such: with its own name, its length, and all that has
/// come of the torrent.
pub proof fn law_single_file_is_listed_as_described(
    torrent: Torrent,
    metadata: TorrentMetadata,
    list: Vec<FileInfo>,
)
    requires
        file_views(list@) == listed(torrent, metadata),
        metadata.files is None,
    ensures
        list@.len() == 1,
        list@[0].index == 0,
        metadata.length matches Some(length) ==> list@[0].size == length,
        metadata.length is None ==> list@[0].size == 0,
        metadata.name matches Some(name) ==> list@[0].name@ == lossy(name@),
        metadata.name is None ==> list@[0].name@ == "unknown"@,
        list@[0].downloaded == torrent.progress_bytes,
        list@[0].is_video == ends_as_video(lowercase(list@[0].name@)),
{
    assert(file_views(list@).len() == list@.len());
    assert(file_views(list@)[0] == list@[0]@);
}

/// The name of a file is made of the steps of its path, with a slash between two.
pub proof fn law_file_name_is_made_of_steps(path: Seq<Vec<u8>>, step: Vec<u8>)
    ensures
        file_name(seq![step]) == lossy(step@),
        path.len() > 0 ==> file_name(path.push(step)) == file_name(path) + "/"@ + lossy(step@),
{
    assert(step_texts(seq![step]) =~= seq![lossy(step@)]);
    assert(step_texts(path.push(step)) =~= step_texts(path).push(lossy(step@)));
    assert(step_texts(path).push(lossy(step@)).drop_last() =~= step_texts(path));
}

/// The main video of a torrent is one of its files, with the length described for it. No file whose
/// name is that of a video is longer, and none behind it is as long.
pub proof fn law_main_video_is_the_longest_described(
    torrent: Torrent,
    metadata: TorrentMetadata,
    main: FileInfo,
)
    requires
        metadata.files is Some,
        is_main_of(listed(torrent, metadata), main@),
    ensures
        ({
            let files = (metadata.files->0)@;
            &&& main.is_video
            &&& 0 <= main.index < files.len()
            &&& main.size == files[main.index as int].length
            &&& main.name@ == file_name(files[main.index as int].path@)
            &&& forall|i: int|
                0 <= i < files.len() && ends_as_video(
                    lowercase(file_name((#[trigger] files[i]).path@)),
                ) ==> files[i].length < files[main.index as int].length || (files[i].length
                    == files[main.index as int].length && i <= main.index)
        }),
{
    let files = (metadata.files->0)@;
    let all = listed(torrent, metadata);
    assert((metadata.files->0).len() == files.len());
    law_main_video_is_the_largest(all, main@);
    let at = choose|at: int|
        0 <= at < all.len() && #[trigger] all[at] == main@ && (forall|i: int|
            0 <= i < all.len() && (#[trigger] all[i]).is_video ==> all[i].size < main@.size || (
            all[i].size == main@.size && i <= at));
    assert(all[at].index == at);
    assert forall|i: int|
        0 <= i < files.len() && ends_as_video(
            lowercase(file_name((#[trigger] files[i]).path@)),
        ) implies files[i].length < files[main.index as int].length || (files[i].length
        == files[main.index as int].length && i <= main.index) by {
        assert(all[i].is_video);
        assert(all[i].size == files[i].length);
    }
}

/// Nothing is told of the files of a torrent that is not there or not yet described.
pub proof fn law_files_wait_for_the_description(torrent: Torrent, index: usize)
    ensures
        files_of(None) == Err::<Seq<FileView>, TorrentError>(TorrentError::NotFound),
        path_of(None, index) == Err::<Seq<Seq<char>>, TorrentError>(TorrentError::NotFound),
        torrent.metadata is None ==> {
            &&& files_of(Some(&torrent)) == Err::<Seq<FileView>, TorrentError>(
                TorrentError::NoMetadata,
            )
            &&& path_of(Some(&torrent), index) == Err::<Seq<Seq<char>>, TorrentError>(
                TorrentError::NoMetadata,
            )
        },
        torrent.metadata matches Some(metadata) ==> files_of(Some(&torrent)) == Ok::<
            Seq<FileView>,
            TorrentError,
        >(listed(torrent, metadata)),
{
}

/// A file of a torrent of several lies below the torrent's name, under its own; the only file of a
/// torrent lies under the torrent's name. A place that the torrent does not have is refused.
pub proof fn law_file_lies_below_its_torrent(
    torrent: Torrent,
    metadata: TorrentMetadata,
    index: usize,
)
    requires
        torrent.metadata == Some(metadata),
    ensures
        ({
            let name = match torrent.name {
                Some(name) => name@,
                None => Seq::empty(),
            };
            let path = path_of(Some(&torrent), index);
            match metadata.files {
                Some(files) => {
                    &&& index >= files@.len() ==> path == Err::<Seq<Seq<char>>, TorrentError>(
                        TorrentError::BadIndex,
                    )
                    &&& index < files@.len() ==> path is Ok && (path->Ok_0)[0] == name
                    &&& files@.len() == 1 && index == 0 ==> (path->Ok_0).len() == 1
                    &&& files@.len() > 1 && index < files@.len() ==> (path->Ok_0).len() == 2 && (
                    path->Ok_0)[1] == file_name(files@[index as int].path@)
                },
                None => {
                    &&& index == 0 ==> path is Ok && (path->Ok_0).len() == 1 && (path->Ok_0)[0]
                        == name
                    &&& index > 0 ==> path == Err::<Seq<Seq<char>>, TorrentError>(
                        TorrentError::BadIndex,
                    )
                },
            }
        }),
{
}

/// What is handed in and out is taken as it is: the bytes of a header, lists of files and of steps,
/// and the reasons why there are none.
pub proof fn law_answers_are_taken_as_they_are(
    bytes: &[u8],
    files: Vec<FileInfo>,
    steps: Vec<String>,
    error: TorrentError,
)
    ensures
        bytes_in(Some(bytes)) == Some(bytes@),
        bytes_in(None) is None,
        files_in(Ok(files)) == Ok::<Seq<FileView>, TorrentError>(file_views(files@)),
        files_in(Err(error)) == Err::<Seq<FileView>, TorrentError>(error),
        steps_in(Ok(steps)) == Ok::<Seq<Seq<char>>, TorrentError>(
            steps@.map_values(|step: String| step@),
        ),
        steps_in(Err(error)) == Err::<Seq<Seq<char>>, TorrentError>(error),
{
    assert(texts(steps@) =~= steps@.map_values(|step: String| step@));
}

/// A player asks for a part exactly where its range header is text and names two ends of bytes. It
/// is sent the span that answers it, and told that span.
pub proof fn law_every_part_is_the_span_that_answers(
    plan: StreamPlan,
    path: Seq<char>,
    size: u64,
    bytes: Seq<u8>,
    header: Seq<char>,
)
    requires
        visible(bytes) == Some(header),
        plan@ == planned(path, size, Some(bytes)),
    ensures
        ({
            let span = answered(Some(header), size);
            &&& asks_for_part(Some(bytes)) <==> requested(header) is Some
            &&& !asks_for_part(None)
            &&& plan is Part <==> requested(header) is Some
            &&& plan is Whole <==> requested(header) is None
            &&& plan is Part ==> {
                &&& plan->start == span.start
                &&& plan->length == if span.start <= span.end {
                    span.end - span.start + 1
                } else {
                    1
                }
                &&& parsed(plan->headers.content_length@) == Some(plan->length)
                &&& plan->headers.content_range is Some
                &&& (plan->headers.content_range->0)@ == "bytes "@ + decimal(span.start as nat)
                    + "-"@ + decimal(span.end as nat) + "/"@ + decimal(size as nat)
                &&& plan->headers.accept_ranges@ == "bytes"@
                &&& plan->headers.content_type@ == sent_type(guessed_mime(path))
            }
        }),
{
    lemma_part_tells_its_length(path, size, Some(bytes));
}

/// Every link that starts as a magnet link is taken, whatever follows, and no other.
pub proof fn law_magnet_links_are_taken(rest: Seq<char>, url: Seq<char>)
    ensures
        takes("magnet:?"@ + rest),
        takes(url) ==> exists|tail: Seq<char>| #[trigger] ("magnet:?"@ + tail) == url,
{
    assert(("magnet:?"@ + rest).subrange(0, "magnet:?"@.len() as int) =~= "magnet:?"@);
    if takes(url) {
        let tail = url.skip("magnet:?"@.len() as int);
        assert("magnet:?"@ + tail =~= url);
    }
}

/// A file of a torrent has an address exactly where the server has started and the torrent is
/// described and has that file.
pub proof fn law_address_needs_server_and_file(
    port: u16,
    torrent: Torrent,
    metadata: TorrentMetadata,
    id: usize,
    index: usize,
)
    requires
        torrent.metadata == Some(metadata),
    ensures
        ({
            let count = match metadata.files {
                Some(files) => files@.len(),
                None => 1,
            };
            let url = address(port, Some(&torrent), id, index);
            &&& port != 0 && index < count ==> url == Ok::<Seq<char>, TorrentError>(
                stream_address(port, id, index),
            )
            &&& port != 0 && index >= count ==> url == Err::<Seq<char>, TorrentError>(
                TorrentError::BadIndex,
            )
            &&& port == 0 ==> url == Err::<Seq<char>, TorrentError>(TorrentError::NotStarted)
            &&& port != 0 ==> address(port, None, id, index) == Err::<Seq<char>, TorrentError>(
                TorrentError::NotFound,
            )
        }),
{
}

} // verus!
