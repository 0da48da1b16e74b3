//! The backend for YouTube: a video is downloaded to a file and played from what is there, or from
//! its source where that is not enough.
use crate::ids::{following, next_id};
use crate::media::{
    blank_stats, file_views, has_video, is_main_of, is_main_video, progress, progress_of,
    DownloadStats, FileInfo, FileView, Progress, Rate, StatsView,
};
use crate::meter::{after_all, bytes_of, law_every_byte_is_counted_once, Chunk};
use crate::number::{decimal, law_parse_of_decimal, parse_u64, parsed};
use crate::range::{
    answer_range, answered, content_range, last_byte, law_open_range_runs_to_the_end,
    law_range_header_is_read_back, lesser, range_header, range_header_text, requested, ByteSpan,
};
use crate::reply::{
    get_mime_type_from_filename, guessed_mime, header_bytes, headers_for_part,
    law_range_request_is_understood, part_headers, readable_range, sent_type, stream_address,
    stream_url, visible_text, Headers, HeadersView,
    Status,
};
use crate::text::{
    contains, is_forbidden, law_file_name_keeps_the_rest, law_occurrence_parts_the_text,
    law_sanitized_is_a_file_name, law_text_stands_between, occurs_in, sanitize, sanitized, text_in,
};
use std::collections::HashMap;
use vstd::prelude::*;

verus! {

broadcast use vstd::std_specs::hash::group_hash_axioms;

/// A video that is downloaded.
#[derive(Debug)]
pub struct YouTubeTask {
    pub url: String,
    pub file_name: String,
    pub total_size: u64,
    pub download_url: String,
}

/// The values of a task.
pub struct TaskView {
    pub url: Seq<char>,
    pub file_name: Seq<char>,
    pub total_size: u64,
    pub download_url: Seq<char>,
}

impl View for YouTubeTask {
    type V = TaskView;

    open spec fn view(&self) -> TaskView {
        TaskView {
            url: self.url@,
            file_name: self.file_name@,
            total_size: self.total_size,
            download_url: self.download_url@,
        }
    }
}

/// How far a download has come.
#[derive(Debug)]
pub struct TaskState {
    pub downloaded: u64,
    pub speed: Rate,
    pub is_finished: bool,
    pub error: Option<String>,
}

/// The values of a state.
pub struct StateView {
    pub downloaded: u64,
    pub speed: Rate,
    pub is_finished: bool,
    pub error: Option<Seq<char>>,
}

impl View for TaskState {
    type V = StateView;

    open spec fn view(&self) -> StateView {
        StateView {
            downloaded: self.downloaded,
            speed: self.speed,
            is_finished: self.is_finished,
            error: text_in(self.error),
        }
    }
}

impl StateView {
    /// Nothing has come yet.
    pub open spec fn initial() -> Self {
        StateView { downloaded: 0, speed: Rate::Zero, is_finished: false, error: None }
    }

    /// So much has come, at this speed.
    pub open spec fn noted(self, downloaded: u64, speed: Rate) -> Self {
        StateView { downloaded, speed, ..self }
    }

    /// All has come.
    pub open spec fn finished(self, downloaded: u64) -> Self {
        StateView { downloaded, speed: Rate::Zero, is_finished: true, ..self }
    }

    /// Nothing more will come.
    pub open spec fn failed(self, error: Seq<char>) -> Self {
        StateView { error: Some(error), is_finished: true, ..self }
    }
}

impl Default for TaskState {
    fn default() -> (state: Self)
        ensures
            state@ == StateView::initial(),
    {
        TaskState { downloaded: 0, speed: Rate::Zero, is_finished: false, error: None }
    }
}

/// Why the backend turns a request down.
#[derive(Clone, Copy, Debug, PartialEq, Eq, Structural)]
pub enum YouTubeError {
    TaskNotFound,
    NotStarted,
    CannotPause,
    CannotResume,
}

impl YouTubeError {
    /// The reason as it is shown.
    pub open spec fn text(self) -> Seq<char> {
        match self {
            YouTubeError::TaskNotFound => "Task not found"@,
            YouTubeError::NotStarted => "HTTP server not started"@,
            YouTubeError::CannotPause => "Pause not supported for HTTP streams yet"@,
            YouTubeError::CannotResume => "Resume not supported for HTTP streams yet"@,
        }
    }

    /// The reason as it is shown.
    pub fn message(&self) -> (out: String)
        ensures
            out@ == self.text(),
    {
        match self {
            YouTubeError::TaskNotFound => "Task not found".to_string(),
            YouTubeError::NotStarted => "HTTP server not started".to_string(),
            YouTubeError::CannotPause => "Pause not supported for HTTP streams yet".to_string(),
            YouTubeError::CannotResume => "Resume not supported for HTTP streams yet".to_string(),
        }
    }
}

/// The answer to a request for a video.
#[derive(Debug)]
pub enum VideoPlan {
    /// There is no such task.
    NotFound,
    /// `length` bytes of the downloaded file are sent from `start` on.
    Local { file_name: String, start: u64, length: u64, headers: Headers },
    /// The source is asked for `range`, and what it sends is passed on.
    Remote { download_url: String, range: String, headers: Headers },
}

/// The values of an answer.
pub enum VideoPlanView {
    NotFound,
    Local { file_name: Seq<char>, start: u64, length: int, headers: HeadersView },
    Remote { download_url: Seq<char>, range: Seq<char>, headers: HeadersView },
}

impl View for VideoPlan {
    type V = VideoPlanView;

    open spec fn view(&self) -> VideoPlanView {
        match self {
            VideoPlan::NotFound => VideoPlanView::NotFound,
            VideoPlan::Local { file_name, start, length, headers } => VideoPlanView::Local {
                file_name: file_name@,
                start: *start,
                length: *length as int,
                headers: headers@,
            },
            VideoPlan::Remote { download_url, range, headers } => VideoPlanView::Remote {
                download_url: download_url@,
                range: range@,
                headers: headers@,
            },
        }
    }
}

/// The status of an answer: a failure where the bytes to be sent could not be had.
pub open spec fn plan_status(plan: VideoPlanView, ready: bool) -> Status {
    if plan is NotFound {
        Status::NotFound
    } else if ready {
        Status::Part
    } else {
        Status::Failed
    }
}

impl VideoPlan {
    /// The status of the answer: a failure where the bytes to be sent could not be had.
    pub fn status(&self, ready: bool) -> (status: Status)
        ensures
            status == plan_status(self@, ready),
    {
        match self {
            VideoPlan::NotFound => Status::NotFound,
            _ => if ready {
                Status::Part
            } else {
                Status::Failed
            },
        }
    }
}

/// The span of `span` that is there when `downloaded` bytes are.
pub open spec fn present_span(span: ByteSpan, downloaded: u64) -> ByteSpan {
    ByteSpan { start: span.start, end: lesser(span.end, last_byte(downloaded)) }
}

/// The answer for a task of which `downloaded` bytes are there: from the file where it reaches the
/// start of the span, else from the source.
pub open spec fn video_plan(
    task: TaskView,
    downloaded: u64,
    range: Option<Seq<char>>,
) -> VideoPlanView {
    let span = answered(range, task.total_size);
    let content_type = sent_type(guessed_mime(task.url));
    if span.start < downloaded {
        let present = present_span(span, downloaded);
        VideoPlanView::Local {
            file_name: task.file_name,
            start: span.start,
            length: present.spec_length(),
            headers: part_headers(content_type, present, task.total_size),
        }
    } else {
        VideoPlanView::Remote {
            download_url: task.download_url,
            range: range_header(span.start, span.end),
            headers: part_headers(content_type, span, task.total_size),
        }
    }
}

/// The size that a source gives, zero where it gives none that can be read.
pub open spec fn stated_size(content_length: Option<Seq<char>>) -> u64 {
    match content_length {
        Some(text) => match parsed(text) {
            Some(size) => size,
            None => 0,
        },
        None => 0,
    }
}

/// The name of the file for a video of a title.
pub open spec fn video_file_name(title: Seq<char>) -> Seq<char> {
    sanitized(title + ".mp4"@)
}

/// The task for a video: the link it was given by, a file of its title, the size that its source
/// gives, and where it is downloaded from.
pub open spec fn new_task(
    url: Seq<char>,
    title: Seq<char>,
    download_url: Seq<char>,
    content_length: Option<Seq<char>>,
) -> TaskView {
    TaskView {
        url,
        file_name: video_file_name(title),
        total_size: stated_size(content_length),
        download_url,
    }
}

/// Whether the backend takes a link: one that names YouTube.
pub open spec fn takes(url: Seq<char>) -> bool {
    occurs_in("youtube.com"@, url) || occurs_in("youtu.be"@, url)
}

/// The tasks of the backend and their states.
pub struct YouTubeStreamer {
    tasks: HashMap<usize, YouTubeTask>,
    states: HashMap<usize, TaskState>,
    next_id: usize,
    server_port: u16,
}

/// The contents of the backend.
pub struct YouTubeView {
    pub tasks: Map<usize, TaskView>,
    pub states: Map<usize, StateView>,
    pub next: usize,
    pub port: u16,
}

impl View for YouTubeStreamer {
    type V = YouTubeView;

    closed spec fn view(&self) -> YouTubeView {
        YouTubeView {
            tasks: self.tasks@.map_values(|t: YouTubeTask| t@),
            states: self.states@.map_values(|s: TaskState| s@),
            next: self.next_id,
            port: self.server_port,
        }
    }
}

impl YouTubeView {
    /// Every task has a state, and every state belongs to a task.
    pub open spec fn wf(self) -> bool {
        self.tasks.dom() == self.states.dom()
    }

    /// The tasks bear numbers from one up to the next.
    pub open spec fn numbered(self) -> bool {
        forall|id: usize| #[trigger] self.tasks.contains_key(id) ==> 1 <= id < self.next
    }

    /// With a task under the next number, of which nothing has come.
    pub open spec fn added(self, task: TaskView) -> Self {
        YouTubeView {
            tasks: self.tasks.insert(self.next, task),
            states: self.states.insert(self.next, StateView::initial()),
            next: following(self.next),
            ..self
        }
    }

    /// Without a task and its state.
    pub open spec fn removed(self, id: usize) -> Self {
        YouTubeView { tasks: self.tasks.remove(id), states: self.states.remove(id), ..self }
    }

    /// With another state of a task, where it has one.
    pub open spec fn changed(self, id: usize, state: StateView) -> Self {
        if self.states.contains_key(id) {
            YouTubeView { states: self.states.insert(id, state), ..self }
        } else {
            self
        }
    }

    /// How much of a task is there.
    pub open spec fn downloaded(self, id: usize) -> u64 {
        if self.states.contains_key(id) {
            self.states[id].downloaded
        } else {
            0
        }
    }

    /// The size of a task.
    pub open spec fn total_size(self, id: usize) -> u64 {
        if self.tasks.contains_key(id) {
            self.tasks[id].total_size
        } else {
            0
        }
    }

    /// What is reported of a task that is there.
    pub open spec fn stats(self, id: usize) -> StatsView {
        let state = self.states[id];
        StatsView {
            progress: progress_of(state.downloaded, self.total_size(id)),
            downloaded_bytes: state.downloaded,
            total_bytes: self.total_size(id),
            download_speed: state.speed,
            upload_speed: Rate::Zero,
            is_finished: state.is_finished,
            error: state.error,
            peers_count: 1,
        }
    }

    /// The answer to a request for a task.
    pub open spec fn served(self, id: usize, range: Option<Seq<char>>) -> VideoPlanView {
        if self.tasks.contains_key(id) {
            video_plan(self.tasks[id], self.downloaded(id), range)
        } else {
            VideoPlanView::NotFound
        }
    }

    /// The address under which a task is served, once the server has started.
    pub open spec fn address(self, id: usize, file: usize) -> Result<Seq<char>, YouTubeError> {
        if self.port == 0 {
            Err(YouTubeError::NotStarted)
        } else {
            Ok(stream_address(self.port, id, file))
        }
    }

    /// The file that goes with a task when it is removed, where files are to be deleted.
    pub open spec fn file_to_delete(self, id: usize, delete_files: bool) -> Option<Seq<char>> {
        if delete_files && self.tasks.contains_key(id) {
            Some(self.tasks[id].file_name)
        } else {
            None
        }
    }

    /// The only file of a task.
    pub open spec fn file(self, id: usize) -> FileView {
        FileView {
            index: 0,
            name: self.tasks[id].file_name,
            size: self.tasks[id].total_size,
            downloaded: self.downloaded(id),
            is_video: true,
        }
    }
}

impl YouTubeStreamer {
    /// A backend without tasks, whose server has not started.
    pub fn new() -> (streamer: Self)
        ensures
            streamer@.tasks == Map::<usize, TaskView>::empty(),
            streamer@.states == Map::<usize, StateView>::empty(),
            streamer@.next == 1,
            streamer@.port == 0,
            streamer@.wf(),
    {
        let streamer = YouTubeStreamer {
            tasks: HashMap::new(),
            states: HashMap::new(),
            next_id: 1,
            server_port: 0,
        };
        assert(streamer@.tasks =~= Map::empty());
        assert(streamer@.states =~= Map::empty());
        streamer
    }

    /// Notes the port of the server.
    pub fn set_server_port(&mut self, port: u16)
        ensures
            final(self)@ == (YouTubeView { port, ..old(self)@ }),
    {
        self.server_port = port;
    }

    /// Whether the backend takes a link: one that names YouTube.
    pub fn supports(url: &str) -> (yes: bool)
        ensures
            yes == takes(url@),
    {
        contains(url, "youtube.com") || contains(url, "youtu.be")
    }

    /// The name of the file for a video of a title.
    pub fn file_name_for(title: &str) -> (name: String)
        ensures
            name@ == video_file_name(title@),
            forall|i: int| 0 <= i < name@.len() ==> !is_forbidden(#[trigger] name@[i]),
    {
        let mut name = title.to_string();
        name.append(".mp4");
        proof {
            law_sanitized_is_a_file_name(title@ + ".mp4"@);
        }
        sanitize(name.as_str())
    }

    /// Takes a video: the link it was given by, its title, where it is downloaded from, and the
    /// size that the source gives. Gives the number of the task.
    pub fn add_task(
        &mut self,
        url: &str,
        title: &str,
        download_url: &str,
        content_length: Option<&str>,
    ) -> (id: usize)
        ensures
            id == old(self)@.next,
            final(self)@ == old(self)@.added(
                new_task(
                    url@,
                    title@,
                    download_url@,
                    match content_length {
                        Some(text) => Some(text@),
                        None => None,
                    },
                ),
            ),
            old(self)@.wf() ==> final(self)@.wf(),
    {
        let total_size: u64 = match content_length {
            Some(text) => match parse_u64(text) {
                Some(size) => size,
                None => 0,
            },
            None => 0,
        };
        let task = YouTubeTask {
            url: url.to_string(),
            file_name: Self::file_name_for(title),
            total_size,
            download_url: download_url.to_string(),
        };
        let id: usize = self.next_id;
        let ghost added = old(self)@.added(task@);
        self.tasks.insert(id, task);
        self.states.insert(id, TaskState::default());
        self.next_id = next_id(id);
        assert(self@.tasks =~= added.tasks);
        assert(self@.states =~= added.states);
        assert(old(self)@.wf() ==> self@.tasks.dom() =~= self@.states.dom());
        id
    }

    /// What is reported of a task.
    pub fn get_stats(&self, task_id: usize) -> (stats: Result<DownloadStats, YouTubeError>)
        ensures
            match stats {
                Ok(stats) => self@.states.contains_key(task_id) && stats@ == self@.stats(task_id),
                Err(error) => !self@.states.contains_key(task_id) && error
                    == YouTubeError::TaskNotFound,
            },
            self@.wf() ==> (stats is Ok <==> self@.tasks.contains_key(task_id)),
    {
        assert(self@.wf() ==> self@.tasks.dom().contains(task_id) == self@.states.dom().contains(
            task_id,
        ));
        let total_size: u64 = match self.tasks.get(&task_id) {
            Some(task) => task.total_size,
            None => 0,
        };
        match self.states.get(&task_id) {
            Some(state) => Ok(
                DownloadStats {
                    progress: progress(state.downloaded, total_size),
                    downloaded_bytes: state.downloaded,
                    total_bytes: total_size,
                    download_speed: state.speed,
                    upload_speed: Rate::Zero,
                    is_finished: state.is_finished,
                    error: match &state.error {
                        Some(error) => Some(error.clone()),
                        None => None,
                    },
                    peers_count: 1,
                },
            ),
            None => Err(YouTubeError::TaskNotFound),
        }
    }

    /// How much of a task is there.
    fn downloaded(&self, task_id: usize) -> (n: u64)
        ensures
            n == self@.downloaded(task_id),
    {
        match self.states.get(&task_id) {
            Some(state) => state.downloaded,
            None => 0,
        }
    }

    /// The files of a task: the video.
    pub fn get_files(&self, task_id: usize) -> (files: Result<Vec<FileInfo>, YouTubeError>)
        ensures
            match files {
                Ok(files) => self@.tasks.contains_key(task_id) && file_views(files@) == seq![
                    self@.file(task_id),
                ],
                Err(error) => !self@.tasks.contains_key(task_id) && error
                    == YouTubeError::TaskNotFound,
            },
    {
        match self.tasks.get(&task_id) {
            Some(task) => {
                let file = FileInfo {
                    index: 0,
                    name: task.file_name.clone(),
                    size: task.total_size,
                    downloaded: self.downloaded(task_id),
                    is_video: true,
                };
                let mut files: Vec<FileInfo> = Vec::new();
                let ghost view = file@;
                files.push(file);
                assert(file_views(files@) =~= seq![view]);
                Ok(files)
            },
            None => Err(YouTubeError::TaskNotFound),
        }
    }

    /// The address under which a task is served.
    pub fn get_stream_url(&self, task_id: usize, file_index: usize) -> (url: Result<
        String,
        YouTubeError,
    >)
        ensures
            match url {
                Ok(url) => self@.port != 0 && url@ == stream_address(
                    self@.port,
                    task_id,
                    file_index,
                ),
                Err(error) => self@.port == 0 && error == YouTubeError::NotStarted,
            },
            match url {
                Ok(url) => self@.address(task_id, file_index) == Ok::<Seq<char>, YouTubeError>(url@),
                Err(error) => self@.address(task_id, file_index) == Err::<Seq<char>, YouTubeError>(
                    error,
                ),
            },
    {
        if self.server_port == 0 {
            return Err(YouTubeError::NotStarted);
        }
        Ok(stream_url(self.server_port, task_id, file_index))
    }

    /// A download cannot be paused.
    pub fn pause(&self, task_id: usize) -> (done: Result<(), YouTubeError>)
        ensures
            done == Err::<(), YouTubeError>(YouTubeError::CannotPause),
    {
        Err(YouTubeError::CannotPause)
    }

    /// A download cannot be resumed.
    pub fn resume(&self, task_id: usize) -> (done: Result<(), YouTubeError>)
        ensures
            done == Err::<(), YouTubeError>(YouTubeError::CannotResume),
    {
        Err(YouTubeError::CannotResume)
    }

    /// Forgets a task. Gives the name of its file where that is to be deleted.
    pub fn remove(&mut self, task_id: usize, delete_files: bool) -> (file: Option<String>)
        ensures
            final(self)@ == old(self)@.removed(task_id),
            text_in(file) == old(self)@.file_to_delete(task_id, delete_files),
            old(self)@.wf() ==> final(self)@.wf(),
    {
        let ghost gone = old(self)@.removed(task_id);
        self.states.remove(&task_id);
        let task = self.tasks.remove(&task_id);
        assert(self@.tasks =~= gone.tasks);
        assert(self@.states =~= gone.states);
        assert(old(self)@.wf() ==> self@.tasks.dom() =~= self@.states.dom());
        match task {
            Some(task) => if delete_files {
                Some(task.file_name)
            } else {
                None
            },
            None => None,
        }
    }

    /// Notes how much of a task has come, and how fast.
    pub fn report(&mut self, task_id: usize, downloaded: u64, speed: Rate)
        ensures
            final(self)@ == old(self)@.changed(
                task_id,
                old(self)@.states[task_id].noted(downloaded, speed),
            ),
            old(self)@.wf() ==> final(self)@.wf(),
    {
        if let Some(state) = self.states.remove(&task_id) {
            let changed = TaskState { downloaded, speed, ..state };
            self.states.insert(task_id, changed);
        }
        proof {
            let view = old(self)@.states[task_id].noted(downloaded, speed);
            assert(self@.states =~= old(self)@.changed(task_id, view).states);
            assert(self@.states.dom() =~= old(self)@.states.dom());
        }
    }

    /// Notes that all of a task has come.
    pub fn finish(&mut self, task_id: usize, downloaded: u64)
        ensures
            final(self)@ == old(self)@.changed(
                task_id,
                old(self)@.states[task_id].finished(downloaded),
            ),
            old(self)@.wf() ==> final(self)@.wf(),
    {
        if let Some(state) = self.states.remove(&task_id) {
            let changed = TaskState {
                downloaded,
                speed: Rate::Zero,
                is_finished: true,
                ..state
            };
            self.states.insert(task_id, changed);
        }
        proof {
            let view = old(self)@.states[task_id].finished(downloaded);
            assert(self@.states =~= old(self)@.changed(task_id, view).states);
            assert(self@.states.dom() =~= old(self)@.states.dom());
        }
    }

    /// Notes that a download has failed.
    pub fn fail(&mut self, task_id: usize, error: &str)
        ensures
            final(self)@ == old(self)@.changed(
                task_id,
                old(self)@.states[task_id].failed(error@),
            ),
            old(self)@.wf() ==> final(self)@.wf(),
    {
        if let Some(state) = self.states.remove(&task_id) {
            let changed = TaskState { error: Some(error.to_string()), is_finished: true, ..state };
            self.states.insert(task_id, changed);
        }
        proof {
            let view = old(self)@.states[task_id].failed(error@);
            assert(self@.states =~= old(self)@.changed(task_id, view).states);
            assert(self@.states.dom() =~= old(self)@.states.dom());
        }
    }

    /// The answer to a request for a task.
    pub fn serve(&self, task_id: usize, range: Option<&[u8]>) -> (plan: VideoPlan)
        ensures
            plan@ == self@.served(task_id, readable_range(range)),
    {
        let task = match self.tasks.get(&task_id) {
            Some(task) => task,
            None => return VideoPlan::NotFound,
        };
        let downloaded: u64 = self.downloaded(task_id);
        let header = match range {
            Some(bytes) => visible_text(bytes),
            None => None,
        };
        let span = match &header {
            Some(header) => answer_range(Some(header.as_str()), task.total_size),
            None => answer_range(None, task.total_size),
        };
        let content_type = get_mime_type_from_filename(task.url.as_str());
        if span.start < downloaded {
            let last: u64 = downloaded - 1;
            let present = ByteSpan {
                start: span.start,
                end: if span.end < last { span.end } else { last },
            };
            VideoPlan::Local {
                file_name: task.file_name.clone(),
                start: span.start,
                length: present.length(),
                headers: headers_for_part(content_type, present, task.total_size),
            }
        } else {
            VideoPlan::Remote {
                download_url: task.download_url.clone(),
                range: range_header_text(span.start, span.end),
                headers: headers_for_part(content_type, span, task.total_size),
            }
        }
    }
}

/// Only bytes that are there are sent from the file, whatever is asked for.
pub proof fn law_only_present_bytes_are_sent(
    task: TaskView,
    downloaded: u64,
    range: Option<Seq<char>>,
)
    ensures
        video_plan(task, downloaded, range) matches VideoPlanView::Local { start, length, .. }
            ==> length >= 1 && start + length <= downloaded,
{
}

/// The source is asked for just the bytes that the answer is said to carry.
pub proof fn law_source_is_asked_for_the_answer(
    task: TaskView,
    downloaded: u64,
    range: Option<Seq<char>>,
)
    ensures
        video_plan(task, downloaded, range) matches VideoPlanView::Remote {
            range: asked,
            headers,
            ..
        } ==> {
            let span = answered(range, task.total_size);
            &&& requested(asked) == Some((Some(span.start), Some(span.end)))
            &&& answered(Some(asked), task.total_size) == span
            &&& headers.content_range == Some(content_range(span, task.total_size))
        },
{
    let span = answered(range, task.total_size);
    law_range_header_is_read_back(span.start, span.end);
}

/// Once all of a video is there, every request that starts in it is answered from the file, with
/// the whole of the span that it asks for.
pub proof fn law_finished_video_is_served_whole(task: TaskView, range: Option<Seq<char>>)
    requires
        answered(range, task.total_size).start < task.total_size,
    ensures
        ({
            let span = answered(range, task.total_size);
            video_plan(task, task.total_size, range) == (VideoPlanView::Local {
                file_name: task.file_name,
                start: span.start,
                length: span.spec_length(),
                headers: part_headers(sent_type(guessed_mime(task.url)), span, task.total_size),
            })
        }),
{
    let span = answered(range, task.total_size);
    assert(present_span(span, task.total_size) == span);
}

/// A task that was added is there under its number, with nothing of it downloaded; every other
/// number stands for what it stood for.
pub proof fn law_added_task_is_reported(backend: YouTubeView, task: TaskView, other: usize)
    ensures
        ({
            let now = backend.added(task);
            &&& now.tasks.contains_key(backend.next) && now.states.contains_key(backend.next)
            &&& now.tasks[backend.next] == task
            &&& now.stats(backend.next) == (StatsView {
                progress: progress_of(0, task.total_size),
                total_bytes: task.total_size,
                peers_count: 1,
                ..blank_stats(None)
            })
            &&& other != backend.next ==> {
                &&& now.states.contains_key(other) == backend.states.contains_key(other)
                &&& now.stats(other) == backend.stats(other)
            }
        }),
{
}

/// What is noted of one task changes no other, and no task's name, size or source.
pub proof fn law_notes_touch_one_task(
    backend: YouTubeView,
    id: usize,
    state: StateView,
    other: usize,
)
    ensures
        backend.changed(id, state).tasks == backend.tasks,
        backend.changed(id, state).states.contains_key(other) == backend.states.contains_key(other),
        other != id ==> backend.changed(id, state).stats(other) == backend.stats(other),
        backend.wf() ==> backend.changed(id, state).wf(),
{
    assert(backend.states.contains_key(id) ==> backend.states.insert(id, state).dom()
        =~= backend.states.dom());
}

/// The backend after the chunks of a task have come, each report noted as it is due.
pub open spec fn after_chunks(backend: YouTubeView, id: usize, chunks: Seq<Chunk>) -> YouTubeView
    decreases chunks.len(),
{
    if chunks.len() == 0 {
        backend
    } else {
        let before = after_chunks(backend, id, chunks.drop_last());
        match after_all(chunks.drop_last()).report(chunks.last()) {
            Some(rate) => before.changed(
                id,
                before.states[id].noted(after_all(chunks).downloaded, rate),
            ),
            None => before,
        }
    }
}

/// While a task is downloaded, every byte that has come is shown or waits for the next report, so
/// that never more is shown than has come. Once all has come, all of it is shown.
pub proof fn law_download_shows_what_came(backend: YouTubeView, id: usize, chunks: Seq<Chunk>)
    requires
        backend.states.contains_key(id),
        backend.states[id].downloaded == 0,
        bytes_of(chunks) <= u64::MAX,
    ensures
        ({
            let now = after_chunks(backend, id, chunks);
            let end = now.changed(id, now.states[id].finished(after_all(chunks).downloaded));
            &&& now.tasks == backend.tasks
            &&& now.states.contains_key(id)
            &&& now.states[id].is_finished == backend.states[id].is_finished
            &&& now.downloaded(id) + after_all(chunks).pending == bytes_of(chunks)
            &&& end.tasks == backend.tasks
            &&& end.stats(id).downloaded_bytes == bytes_of(chunks)
            &&& end.stats(id).is_finished
            &&& end.stats(id).download_speed == Rate::Zero
        }),
    decreases chunks.len(),
{
    law_every_byte_is_counted_once(chunks);
    if chunks.len() > 0 {
        law_download_shows_what_came(backend, id, chunks.drop_last());
    }
}

/// A download that failed is over, shows why, and keeps showing what had come.
pub proof fn law_failed_download_keeps_what_came(
    backend: YouTubeView,
    id: usize,
    error: Seq<char>,
)
    requires
        backend.states.contains_key(id),
    ensures
        backend.changed(id, backend.states[id].failed(error)).stats(id) == (StatsView {
            error: Some(error),
            is_finished: true,
            ..backend.stats(id)
        }),
{
}

/// Until the numbers run out, whatever is done keeps the tasks numbered below the next number, so
/// that the next number is always free.
pub proof fn law_next_number_is_free(
    backend: YouTubeView,
    task: TaskView,
    id: usize,
    state: StateView,
)
    requires
        backend.numbered(),
        1 <= backend.next < usize::MAX,
    ensures
        !backend.tasks.contains_key(backend.next),
        backend.added(task).numbered(),
        backend.removed(id).numbered(),
        backend.changed(id, state).numbered(),
{
}

/// A task that was removed leaves nothing behind, whatever a download that still runs notes of it,
/// and removing the one just added leaves the tasks as they were.
pub proof fn law_removed_task_is_gone(
    backend: YouTubeView,
    task: TaskView,
    id: usize,
    state: StateView,
)
    ensures
        !backend.removed(id).tasks.contains_key(id),
        !backend.removed(id).states.contains_key(id),
        backend.removed(id).changed(id, state) == backend.removed(id),
        backend.wf() && !backend.tasks.contains_key(backend.next) ==> {
            &&& backend.added(task).removed(backend.next).tasks == backend.tasks
            &&& backend.added(task).removed(backend.next).states == backend.states
        },
{
    if backend.wf() && !backend.tasks.contains_key(backend.next) {
        assert(!backend.states.contains_key(backend.next)) by {
            assert(backend.tasks.dom().contains(backend.next) == backend.states.dom().contains(
                backend.next,
            ));
        }
        assert(backend.added(task).removed(backend.next).tasks =~= backend.tasks);
        assert(backend.added(task).removed(backend.next).states =~= backend.states);
    }
}

/// A request that is read as one for the bytes from `start` to `end`.
proof fn lemma_request_is_read(bytes: &[u8], start: u64, end: u64)
    requires
        bytes@ == header_bytes("bytes="@ + decimal(start as nat) + "-"@ + decimal(end as nat)),
    ensures
        readable_range(Some(bytes)) is Some,
        requested(readable_range(Some(bytes))->0) == Some((Some(start), Some(end))),
{
    law_range_request_is_understood(start, end);
    assert(bytes@ == header_bytes(range_header(start, end)));
}

/// A range that is there is answered exactly, however much of the video is: from its first byte to
/// its last, out of the file, and the headers tell just that.
pub proof fn law_downloaded_range_is_answered_exactly(
    plan: VideoPlan,
    task: TaskView,
    downloaded: u64,
    bytes: &[u8],
    start: u64,
    end: u64,
)
    requires
        start <= end < downloaded,
        end < task.total_size,
        bytes@ == header_bytes("bytes="@ + decimal(start as nat) + "-"@ + decimal(end as nat)),
        plan@ == video_plan(task, downloaded, readable_range(Some(bytes))),
    ensures
        plan matches VideoPlan::Local { file_name, start: from, length, headers } && {
            &&& file_name@ == task.file_name
            &&& from == start
            &&& length == end - start + 1
            &&& parsed(headers.content_length@) == Some(length)
            &&& headers.content_range is Some
            &&& (headers.content_range->0)@ == "bytes "@ + decimal(start as nat) + "-"@ + decimal(
                end as nat,
            ) + "/"@ + decimal(task.total_size as nat)
            &&& headers.accept_ranges@ == "bytes"@
            &&& headers.content_type@ == sent_type(guessed_mime(task.url))
        },
{
    lemma_request_is_read(bytes, start, end);
    law_parse_of_decimal((end - start + 1) as u64);
}

/// Of a range that starts in what is there and ends behind it, what is there is sent.
pub proof fn law_range_is_cut_at_what_is_there(
    plan: VideoPlan,
    task: TaskView,
    downloaded: u64,
    bytes: &[u8],
    start: u64,
    end: u64,
)
    requires
        start < downloaded <= end,
        downloaded <= task.total_size,
        bytes@ == header_bytes("bytes="@ + decimal(start as nat) + "-"@ + decimal(end as nat)),
        plan@ == video_plan(task, downloaded, readable_range(Some(bytes))),
    ensures
        plan matches VideoPlan::Local { file_name, start: from, length, headers } && {
            &&& file_name@ == task.file_name
            &&& from == start
            &&& length == downloaded - start
            &&& parsed(headers.content_length@) == Some(length)
            &&& headers.content_range is Some
            &&& (headers.content_range->0)@ == "bytes "@ + decimal(start as nat) + "-"@ + decimal(
                (downloaded - 1) as nat,
            ) + "/"@ + decimal(task.total_size as nat)
            &&& headers.content_type@ == sent_type(guessed_mime(task.url))
        },
{
    lemma_request_is_read(bytes, start, end);
    law_parse_of_decimal((downloaded - start) as u64);
}

/// A range that starts behind what is there is asked of the source, up to the last byte of the
/// video, and the headers tell what is asked for.
pub proof fn law_missing_range_comes_from_the_source(
    plan: VideoPlan,
    task: TaskView,
    downloaded: u64,
    bytes: &[u8],
    start: u64,
    end: u64,
)
    requires
        downloaded <= start,
        task.total_size > 0,
        bytes@ == header_bytes("bytes="@ + decimal(start as nat) + "-"@ + decimal(end as nat)),
        plan@ == video_plan(task, downloaded, readable_range(Some(bytes))),
    ensures
        ({
            let last = if end <= task.total_size - 1 {
                end as int
            } else {
                task.total_size - 1
            };
            plan matches VideoPlan::Remote { download_url, range, headers } && {
                &&& download_url@ == task.download_url
                &&& range@ == "bytes="@ + decimal(start as nat) + "-"@ + decimal(last as nat)
                &&& parsed(headers.content_length@) == Some(
                    if start <= last {
                        (last - start + 1) as u64
                    } else {
                        1
                    },
                )
                &&& headers.content_range is Some
                &&& (headers.content_range->0)@ == "bytes "@ + decimal(start as nat) + "-"@
                    + decimal(last as nat) + "/"@ + decimal(task.total_size as nat)
                &&& headers.content_type@ == sent_type(guessed_mime(task.url))
            }
        }),
{
    lemma_request_is_read(bytes, start, end);
    let span = answered(readable_range(Some(bytes)), task.total_size);
    law_parse_of_decimal(span.spec_length() as u64);
}

/// A player that asks for nothing is sent all that is there from the first byte on; before anything
/// is there, the source is asked for the whole video.
pub proof fn law_without_range_all_that_is_there_is_sent(
    plan: VideoPlan,
    task: TaskView,
    downloaded: u64,
)
    requires
        task.total_size > 0,
        downloaded <= task.total_size,
        plan@ == video_plan(task, downloaded, readable_range(None)),
    ensures
        downloaded > 0 ==> (plan matches VideoPlan::Local { file_name, start, length, headers } && {
            &&& file_name@ == task.file_name
            &&& start == 0
            &&& length == downloaded
            &&& parsed(headers.content_length@) == Some(downloaded)
        }),
        downloaded == 0 ==> (plan matches VideoPlan::Remote { download_url, range, headers } && {
            &&& download_url@ == task.download_url
            &&& requested(range@) == Some((Some(0u64), Some((task.total_size - 1) as u64)))
            &&& parsed(headers.content_length@) == Some(task.total_size)
        }),
{
    law_parse_of_decimal(downloaded);
    law_parse_of_decimal(task.total_size);
    law_range_header_is_read_back(0, (task.total_size - 1) as u64);
}

/// A player that seeks asks for everything from a place on: it is sent what is there behind that
/// place, or the source is asked for the rest of the video.
pub proof fn law_seeking_goes_on_from_there(
    plan: VideoPlan,
    task: TaskView,
    downloaded: u64,
    start: u64,
)
    requires
        start < task.total_size,
        downloaded <= task.total_size,
        plan@ == video_plan(
            task,
            downloaded,
            Some("bytes="@ + decimal(start as nat) + "-"@),
        ),
    ensures
        start < downloaded ==> (plan matches VideoPlan::Local { start: from, length, .. } && from
            == start && length == downloaded - start),
        start >= downloaded ==> (plan matches VideoPlan::Remote { range, headers, .. } && requested(
            range@,
        ) == Some((Some(start), Some((task.total_size - 1) as u64))) && parsed(
            headers.content_length@,
        ) == Some((task.total_size - start) as u64)),
{
    law_open_range_runs_to_the_end(start, task.total_size);
    law_range_header_is_read_back(start, (task.total_size - 1) as u64);
    law_parse_of_decimal((task.total_size - start) as u64);
}

/// No byte behind the end that was asked for is sent, and none that is not there; the length that
/// the headers tell is the number of bytes that are sent.
pub proof fn law_no_byte_behind_the_end_is_sent(
    plan: VideoPlan,
    task: TaskView,
    downloaded: u64,
    header: Seq<char>,
    first: Option<u64>,
    end: u64,
)
    requires
        requested(header) == Some((first, Some(end))),
        first is None || first->0 <= end,
        plan@ == video_plan(task, downloaded, Some(header)),
    ensures
        plan matches VideoPlan::Local { start, length, headers, .. } ==> {
            &&& first matches Some(asked) ==> start == asked
            &&& first is None ==> start == 0
            &&& start < task.total_size ==> start + length - 1 <= end
            &&& start + length <= downloaded
            &&& length >= 1
            &&& parsed(headers.content_length@) == Some(length)
        },
{
    let span = answered(Some(header), task.total_size);
    law_parse_of_decimal(present_span(span, downloaded).spec_length() as u64);
}

/// The report of a task gives what was last noted of it, and the size of the video.
pub proof fn law_report_gives_what_was_noted(
    backend: YouTubeView,
    id: usize,
    stats: DownloadStats,
)
    requires
        backend.tasks.contains_key(id),
        backend.states.contains_key(id),
        stats@ == backend.stats(id),
    ensures
        stats.downloaded_bytes == backend.states[id].downloaded,
        stats.total_bytes == backend.tasks[id].total_size,
        stats.total_bytes > 0 ==> stats.progress == (Progress::Ratio {
            done: stats.downloaded_bytes,
            total: stats.total_bytes,
        }),
        stats.total_bytes == 0 ==> stats.progress is Zero,
        stats.download_speed == backend.states[id].speed,
        stats.upload_speed is Zero,
        stats.is_finished == backend.states[id].is_finished,
        text_in(stats.error) == backend.states[id].error,
        stats.peers_count == 1,
{
}

/// What is noted of a download is what is then reported of it: while it runs, how much has come and
/// how fast; at its end, all that has come; and neither touches its error.
pub proof fn law_notes_are_reported(
    backend: YouTubeView,
    id: usize,
    downloaded: u64,
    speed: Rate,
)
    requires
        backend.states.contains_key(id),
    ensures
        ({
            let running = backend.changed(id, backend.states[id].noted(downloaded, speed));
            let done = backend.changed(id, backend.states[id].finished(downloaded));
            &&& running.states[id].downloaded == downloaded
            &&& running.states[id].speed == speed
            &&& running.states[id].is_finished == backend.states[id].is_finished
            &&& running.states[id].error == backend.states[id].error
            &&& done.states[id].downloaded == downloaded
            &&& done.states[id].speed is Zero
            &&& done.states[id].is_finished
            &&& done.states[id].error == backend.states[id].error
            &&& running.downloaded(id) == downloaded && done.downloaded(id) == downloaded
        }),
{
}

/// A task has one file, which is its main video: the downloaded one, with the size of the video.
pub proof fn law_file_of_a_task_is_its_main_video(
    backend: YouTubeView,
    id: usize,
    list: Vec<FileInfo>,
)
    requires
        backend.tasks.contains_key(id),
        backend.states.contains_key(id),
        file_views(list@) == seq![backend.file(id)],
    ensures
        list@.len() == 1,
        list@[0].index == 0,
        list@[0].name@ == backend.tasks[id].file_name,
        list@[0].size == backend.tasks[id].total_size,
        list@[0].downloaded == backend.states[id].downloaded,
        list@[0].is_video,
        is_main_of(file_views(list@), list@[0]@),
        has_video(file_views(list@)),
{
    assert(file_views(list@).len() == list@.len());
    assert(file_views(list@)[0] == list@[0]@);
    assert(is_main_video(file_views(list@), 0));
}

/// The size of a video is the number that the source gives, and zero where it gives none.
pub proof fn law_size_is_the_one_stated(size: u64, text: Seq<char>)
    ensures
        stated_size(Some(decimal(size as nat))) == size,
        stated_size(None) == 0,
        parsed(text) is None ==> stated_size(Some(text)) == 0,
        parsed(text) matches Some(n) ==> stated_size(Some(text)) == n,
{
    law_parse_of_decimal(size);
}

/// The file of a video bears its title, with an underscore for what no file name holds, and ends in
/// `.mp4`.
pub proof fn law_file_bears_the_title(title: Seq<char>, i: int)
    requires
        0 <= i < title.len(),
    ensures
        ({
            let name = video_file_name(title);
            &&& name.len() == title.len() + 4
            &&& name.skip(title.len() as int) == ".mp4"@
            &&& "/\\:*?\"<>|"@.contains(title[i]) ==> name[i] == '_'
            &&& !"/\\:*?\"<>|"@.contains(title[i]) ==> name[i] == title[i]
        }),
{
    let whole = title + ".mp4"@;
    reveal_strlit(".mp4");
    assert(whole[i] == title[i]);
    law_file_name_keeps_the_rest(whole, i);
    assert(video_file_name(title).skip(title.len() as int) =~= ".mp4"@);
}

/// Every request is answered by the span that answers it. Where that starts in what is there, it is
/// sent from the file, up to its end or to the end of what is there; else the source is asked for
/// it. The headers tell what is sent.
pub proof fn law_every_answer_is_the_span_that_answers(
    plan: VideoPlan,
    task: TaskView,
    downloaded: u64,
    range: Option<Seq<char>>,
)
    requires
        plan@ == video_plan(task, downloaded, range),
    ensures
        ({
            let span = answered(range, task.total_size);
            let last = if span.start < downloaded && downloaded <= span.end {
                downloaded - 1
            } else {
                span.end as int
            };
            let length = if span.start <= last {
                last - span.start + 1
            } else {
                1
            };
            let told = "bytes "@ + decimal(span.start as nat) + "-"@ + decimal(last as nat) + "/"@
                + decimal(task.total_size as nat);
            &&& span.start < downloaded ==> (plan matches VideoPlan::Local {
                file_name,
                start,
                length: sent,
                headers,
            } && {
                &&& file_name@ == task.file_name
                &&& start == span.start
                &&& sent == length
                &&& parsed(headers.content_length@) == Some(sent)
                &&& headers.content_range is Some && (headers.content_range->0)@ == told
                &&& headers.accept_ranges@ == "bytes"@
                &&& headers.content_type@ == sent_type(guessed_mime(task.url))
            })
            &&& span.start >= downloaded ==> (plan matches VideoPlan::Remote {
                download_url,
                range: asked,
                headers,
            } && {
                &&& download_url@ == task.download_url
                &&& asked@ == "bytes="@ + decimal(span.start as nat) + "-"@ + decimal(
                    span.end as nat,
                )
                &&& parsed(headers.content_length@) == Some(length as u64)
                &&& headers.content_range is Some && (headers.content_range->0)@ == told
                &&& headers.accept_ranges@ == "bytes"@
                &&& headers.content_type@ == sent_type(guessed_mime(task.url))
            })
        }),
{
    let span = answered(range, task.total_size);
    law_parse_of_decimal(span.spec_length() as u64);
    law_parse_of_decimal(present_span(span, downloaded).spec_length() as u64);
}

/// What is done to one task leaves every other as it was, and the server where it is; only adding a
/// task uses up a number.
pub proof fn law_tasks_do_not_touch_each_other(
    backend: YouTubeView,
    task: TaskView,
    id: usize,
    state: StateView,
    other: usize,
)
    requires
        other != id,
        other != backend.next,
    ensures
        ({
            let added = backend.added(task);
            let removed = backend.removed(id);
            let changed = backend.changed(id, state);
            &&& added.tasks.contains_key(other) == backend.tasks.contains_key(other)
            &&& removed.tasks.contains_key(other) == backend.tasks.contains_key(other)
            &&& removed.states.contains_key(other) == backend.states.contains_key(other)
            &&& backend.tasks.contains_key(other) ==> {
                &&& added.tasks[other] == backend.tasks[other]
                &&& removed.tasks[other] == backend.tasks[other]
                &&& changed.tasks[other] == backend.tasks[other]
            }
            &&& backend.states.contains_key(other) ==> {
                &&& added.states[other] == backend.states[other]
                &&& removed.states[other] == backend.states[other]
                &&& changed.states[other] == backend.states[other]
            }
            &&& added.port == backend.port && removed.port == backend.port && changed.port
                == backend.port
            &&& removed.next == backend.next && changed.next == backend.next
            &&& backend.next < usize::MAX ==> added.next == backend.next + 1
        }),
{
}

/// A video becomes a task of what is known of it: its link, its source, the size that the source
/// gives, and a file that bears its title.
pub proof fn law_task_holds_what_is_known(
    url: Seq<char>,
    title: Seq<char>,
    download_url: Seq<char>,
    size: u64,
)
    ensures
        ({
            let task = new_task(url, title, download_url, Some(decimal(size as nat)));
            let unsized_task = new_task(url, title, download_url, None);
            &&& task.url == url && unsized_task.url == url
            &&& task.download_url == download_url && unsized_task.download_url == download_url
            &&& task.total_size == size && unsized_task.total_size == 0
            &&& task.file_name == unsized_task.file_name
            &&& task.file_name == video_file_name(title)
        }),
{
    law_parse_of_decimal(size);
}

/// Every link with one of YouTube's names in it is taken, whatever stands around the name, and no
/// other.
pub proof fn law_links_to_youtube_are_taken(a: Seq<char>, b: Seq<char>, url: Seq<char>)
    ensures
        takes(a + "youtube.com"@ + b),
        takes(a + "youtu.be"@ + b),
        takes(url) ==> (exists|c: Seq<char>, d: Seq<char>| #[trigger] (c + "youtube.com"@ + d)
            == url) || (exists|c: Seq<char>, d: Seq<char>| #[trigger] (c + "youtu.be"@ + d) == url),
{
    law_text_stands_between(a, "youtube.com"@, b);
    law_text_stands_between(a, "youtu.be"@, b);
    if occurs_in("youtube.com"@, url) {
        law_occurrence_parts_the_text("youtube.com"@, url);
    } else if occurs_in("youtu.be"@, url) {
        law_occurrence_parts_the_text("youtu.be"@, url);
    }
}

/// A file is deleted along with a video that is removed only where that is wished and the video is
/// there; then it is the file of that video and no other.
pub proof fn law_only_the_file_of_the_task_is_deleted(
    backend: YouTubeView,
    id: usize,
    wished: bool,
)
    ensures
        !wished ==> backend.file_to_delete(id, wished) is None,
        !backend.tasks.contains_key(id) ==> backend.file_to_delete(id, wished) is None,
        wished && backend.tasks.contains_key(id) ==> backend.file_to_delete(id, wished) == Some(
            backend.tasks[id].file_name,
        ),
        backend.removed(id).file_to_delete(id, wished) is None,
{
}

/// How much of a task is there is what was noted of it, and its size is the one it was given.
pub proof fn law_figures_of_a_task_are_its_own(backend: YouTubeView, id: usize)
    ensures
        backend.states.contains_key(id) ==> backend.downloaded(id)
            == backend.states[id].downloaded,
        !backend.states.contains_key(id) ==> backend.downloaded(id) == 0,
        backend.tasks.contains_key(id) ==> backend.total_size(id) == backend.tasks[id].total_size,
        !backend.tasks.contains_key(id) ==> backend.total_size(id) == 0,
{
}

/// A task that is not there is not found; an answer that carries bytes is a part, and a failure
/// where the bytes could not be had.
pub proof fn law_status_follows_the_answer(plan: VideoPlanView, ready: bool)
    ensures
        plan is NotFound ==> plan_status(plan, ready) == Status::NotFound,
        !(plan is NotFound) ==> plan_status(plan, true) == Status::Part,
        !(plan is NotFound) ==> plan_status(plan, false) == Status::Failed,
{
}

/// Bytes that were noted as there are sent from the file when they are asked for, and those behind
/// them come from the source. A task that is not there, or no more, is not found.
pub proof fn law_noted_bytes_are_served(
    backend: YouTubeView,
    id: usize,
    downloaded: u64,
    speed: Rate,
    start: u64,
    end: u64,
)
    requires
        backend.tasks.contains_key(id),
        backend.states.contains_key(id),
        start <= end < backend.tasks[id].total_size,
    ensures
        ({
            let range = Some("bytes="@ + decimal(start as nat) + "-"@ + decimal(end as nat));
            let running = backend.changed(id, backend.states[id].noted(downloaded, speed));
            let done = backend.changed(id, backend.states[id].finished(downloaded));
            &&& end < downloaded ==> {
                &&& running.served(id, range) matches VideoPlanView::Local {
                    file_name,
                    start: from,
                    length,
                    ..
                } && file_name == backend.tasks[id].file_name && from == start && length == end
                    - start + 1
                &&& done.served(id, range) == running.served(id, range)
            }
            &&& start >= downloaded ==> {
                &&& running.served(id, range) matches VideoPlanView::Remote {
                    download_url,
                    range: asked,
                    ..
                } && download_url == backend.tasks[id].download_url && Some(asked) == range
            }
            &&& backend.removed(id).served(id, range) is NotFound
        }),
{
    law_range_header_is_read_back(start, end);
    assert("bytes="@ + decimal(start as nat) + "-"@ + decimal(end as nat) == range_header(
        start,
        end,
    ));
}

/// A task has an address exactly once the server has started, and it leads to that server.
pub proof fn law_address_waits_for_the_server(backend: YouTubeView, id: usize, file: usize)
    ensures
        backend.port == 0 ==> backend.address(id, file) == Err::<Seq<char>, YouTubeError>(
            YouTubeError::NotStarted,
        ),
        backend.port != 0 ==> backend.address(id, file) == Ok::<Seq<char>, YouTubeError>(
            stream_address(backend.port, id, file),
        ),
{
}

} // verus!
