//! The backend for files that are already here.
use crate::ids::{following, next_id};
use crate::media::{
    file_views, has_video, is_main_of, is_main_video, DownloadStats, FileInfo, FileView, Progress,
    Rate, StatsView,
};
use crate::number::{decimal, law_parse_of_decimal, parsed};
use crate::range::{
    answer_range, answered, law_open_range_runs_to_the_end, law_range_header_is_read_back,
    range_header,
};
use crate::reply::{
    get_mime_type_from_filename, guessed_mime, header_bytes, headers_for_part,
    law_range_request_is_understood, part_headers, readable_range, sent_type, stream_address,
    stream_url, visible_text, Headers, HeadersView,
    Status,
};
use crate::text::{
    lemma_one_piece, lemma_pieces_of_two, pieces, same_text, split, starts_with, strip_prefix,
    text_in, texts,
};
use std::collections::HashMap;
use vstd::prelude::*;

verus! {

broadcast use vstd::std_specs::hash::group_hash_axioms;

/// A file that is played.
#[derive(Debug)]
pub struct LocalTask {
    pub file_path: String,
    pub file_name: String,
    pub total_size: u64,
}

/// The values of a task.
pub struct LocalTaskView {
    pub file_path: Seq<char>,
    pub file_name: Seq<char>,
    pub total_size: u64,
}

impl View for LocalTask {
    type V = LocalTaskView;

    open spec fn view(&self) -> LocalTaskView {
        LocalTaskView {
            file_path: self.file_path@,
            file_name: self.file_name@,
            total_size: self.total_size,
        }
    }
}

/// Why the backend turns a request down.
#[derive(Clone, Copy, Debug, PartialEq, Eq, Structural)]
pub enum LocalError {
    Missing,
    TaskNotFound,
}

impl LocalError {
    /// The reason as it is shown.
    pub open spec fn text(self) -> Seq<char> {
        match self {
            LocalError::Missing => "Local file does not exist"@,
            LocalError::TaskNotFound => "Task not found"@,
        }
    }

    /// The reason as it is shown.
    pub fn message(&self) -> (out: String)
        ensures
            out@ == self.text(),
    {
        match self {
            LocalError::Missing => "Local file does not exist".to_string(),
            LocalError::TaskNotFound => "Task not found".to_string(),
        }
    }
}

/// The answer to a request for a file: always a part, though it may be all of it.
#[derive(Debug)]
pub enum FilePlan {
    /// There is no such task.
    NotFound,
    /// `length` bytes of the file are sent from `start` on.
    Part { file_path: String, start: u64, length: u64, headers: Headers },
}

/// The values of an answer.
pub enum FilePlanView {
    NotFound,
    Part { file_path: Seq<char>, start: u64, length: int, headers: HeadersView },
}

impl View for FilePlan {
    type V = FilePlanView;

    open spec fn view(&self) -> FilePlanView {
        match self {
            FilePlan::NotFound => FilePlanView::NotFound,
            FilePlan::Part { file_path, start, length, headers } => FilePlanView::Part {
                file_path: file_path@,
                start: *start,
                length: *length as int,
                headers: headers@,
            },
        }
    }
}

/// The status of an answer: a failure where the bytes to be sent could not be had.
pub open spec fn plan_status(plan: FilePlanView, ready: bool) -> Status {
    if plan is NotFound {
        Status::NotFound
    } else if ready {
        Status::Part
    } else {
        Status::Failed
    }
}

impl FilePlan {
    /// The status of the answer: a failure where the bytes to be sent could not be had.
    pub fn status(&self, ready: bool) -> (status: Status)
        ensures
            status == plan_status(self@, ready),
    {
        match self {
            FilePlan::NotFound => Status::NotFound,
            _ => if ready {
                Status::Part
            } else {
                Status::Failed
            },
        }
    }
}

/// The answer for a task, with a range header that could be read.
pub open spec fn file_plan(task: LocalTaskView, range: Option<Seq<char>>) -> FilePlanView {
    let span = answered(range, task.total_size);
    FilePlanView::Part {
        file_path: task.file_path,
        start: span.start,
        length: span.spec_length(),
        headers: part_headers(sent_type(guessed_mime(task.file_name)), span, task.total_size),
    }
}

/// The path that a link stands for: what follows `file://`, or the link itself.
pub open spec fn path_in(url: Seq<char>) -> Seq<char> {
    if "file://"@.is_prefix_of(url) {
        url.skip("file://"@.len() as int)
    } else {
        url
    }
}

/// The last step of a path that leads somewhere: an empty one and a single dot stay where they are.
pub open spec fn step_in(steps: Seq<Seq<char>>) -> Option<Seq<char>>
    decreases steps.len(),
{
    if steps.len() == 0 {
        None
    } else if steps.last().len() == 0 || steps.last() == "."@ {
        step_in(steps.drop_last())
    } else {
        Some(steps.last())
    }
}

/// The name of the file at a path: its last step, and none where that leads up.
pub open spec fn last_step(path: Seq<char>) -> Seq<char> {
    match step_in(pieces(path, seq!['/'])) {
        Some(step) => if step == ".."@ {
            Seq::empty()
        } else {
            step
        },
        None => Seq::empty(),
    }
}

/// The task for the file that a link stands for.
pub open spec fn new_task(url: Seq<char>, size: u64) -> LocalTaskView {
    LocalTaskView {
        file_path: path_in(url),
        file_name: last_step(path_in(url)),
        total_size: size,
    }
}

/// Whether the backend takes a link: a file link, or the path of a file that is there.
pub open spec fn takes(url: Seq<char>, present: bool) -> bool {
    "file://"@.is_prefix_of(url) || present
}

/// The tasks of the backend.
pub struct LocalFileStreamer {
    tasks: HashMap<usize, LocalTask>,
    next_id: usize,
    server_port: u16,
}

/// The contents of the backend.
pub struct LocalView {
    pub tasks: Map<usize, LocalTaskView>,
    pub next: usize,
    pub port: u16,
}

impl View for LocalFileStreamer {
    type V = LocalView;

    closed spec fn view(&self) -> LocalView {
        LocalView {
            tasks: self.tasks@.map_values(|t: LocalTask| t@),
            next: self.next_id,
            port: self.server_port,
        }
    }
}

impl LocalView {
    /// The tasks bear numbers from one up to the next.
    pub open spec fn numbered(self) -> bool {
        forall|id: usize| #[trigger] self.tasks.contains_key(id) ==> 1 <= id < self.next
    }

    /// With a task under the next number.
    pub open spec fn added(self, task: LocalTaskView) -> Self {
        LocalView {
            tasks: self.tasks.insert(self.next, task),
            next: following(self.next),
            ..self
        }
    }

    /// Without a task.
    pub open spec fn removed(self, id: usize) -> Self {
        LocalView { tasks: self.tasks.remove(id), ..self }
    }

    /// What is reported of a task that is there: all of its file is.
    pub open spec fn stats(self, id: usize) -> StatsView {
        StatsView {
            progress: Progress::Complete,
            downloaded_bytes: self.tasks[id].total_size,
            total_bytes: self.tasks[id].total_size,
            download_speed: Rate::Zero,
            upload_speed: Rate::Zero,
            is_finished: true,
            error: None,
            peers_count: 0,
        }
    }

    /// The answer to a request for a task.
    pub open spec fn served(self, id: usize, range: Option<Seq<char>>) -> FilePlanView {
        if self.tasks.contains_key(id) {
            file_plan(self.tasks[id], range)
        } else {
            FilePlanView::NotFound
        }
    }

    /// The only file of a task.
    pub open spec fn file(self, id: usize) -> FileView {
        FileView {
            index: 0,
            name: self.tasks[id].file_name,
            size: self.tasks[id].total_size,
            downloaded: self.tasks[id].total_size,
            is_video: true,
        }
    }
}

impl LocalFileStreamer {
    /// A backend without tasks, whose server has not started.
    pub fn new() -> (streamer: Self)
        ensures
            streamer@ == (LocalView {
                tasks: Map::<usize, LocalTaskView>::empty(),
                next: 1,
                port: 0,
            }),
    {
        let streamer = LocalFileStreamer { tasks: HashMap::new(), next_id: 1, server_port: 0 };
        assert(streamer@.tasks =~= Map::empty());
        streamer
    }

    /// Notes the port of the server.
    pub fn set_server_port(&mut self, port: u16)
        ensures
            final(self)@ == (LocalView { port, ..old(self)@ }),
    {
        self.server_port = port;
    }

    /// Whether the backend takes a link: a file link, or the path of a file that is there.
    pub fn supports(url: &str, present: bool) -> (yes: bool)
        ensures
            yes == takes(url@, present),
    {
        starts_with(url, "file://") || present
    }

    /// The path that a link stands for.
    pub fn path_of(url: &str) -> (path: String)
        ensures
            path@ == path_in(url@),
    {
        match strip_prefix(url, "file://") {
            Some(path) => path,
            None => url.to_string(),
        }
    }

    /// The name of the file at a path.
    pub fn name_of(path: &str) -> (name: String)
        ensures
            name@ == last_step(path@),
    {
        let seps: [char; 1] = ['/'];
        assert(seps@ =~= seq!['/']);
        let steps = split(path, &seps);
        let ghost all = pieces(path@, seq!['/']);
        let mut n: usize = steps.len();
        assert(all.len() == steps@.len());
        assert(all.take(n as int) =~= all);
        while n > 0
            invariant
                texts(steps@) == all,
                all == pieces(path@, seq!['/']),
                n <= steps@.len(),
                step_in(all.take(n as int)) == step_in(all),
            decreases n,
        {
            assert(all.take(n as int).last() == steps@[n - 1]@);
            assert(all.take(n as int).drop_last() =~= all.take(n - 1));
            let step = steps[n - 1].as_str();
            if step.is_empty() || same_text(step, ".") {
                n -= 1;
            } else if same_text(step, "..") {
                return String::new();
            } else {
                return step.to_string();
            }
        }
        String::new()
    }

    /// Takes the file that a link stands for; `size` is its size, where it is there. Gives the
    /// number of the task.
    pub fn add_task(&mut self, url: &str, size: Option<u64>) -> (id: Result<usize, LocalError>)
        ensures
            match size {
                Some(size) => id == Ok::<usize, LocalError>(old(self)@.next) && final(self)@
                    == old(self)@.added(
                    new_task(url@, size),
                ),
                None => id == Err::<usize, LocalError>(LocalError::Missing) && final(self)@ == old(
                    self,
                )@,
            },
    {
        match size {
            Some(total_size) => {
                let file_path = Self::path_of(url);
                let file_name = Self::name_of(file_path.as_str());
                let task = LocalTask { file_path, file_name, total_size };
                let id: usize = self.next_id;
                let ghost added = old(self)@.added(task@);
                self.tasks.insert(id, task);
                self.next_id = next_id(id);
                assert(self@.tasks =~= added.tasks);
                Ok(id)
            },
            None => Err(LocalError::Missing),
        }
    }

    /// What is reported of a task.
    pub fn get_stats(&self, task_id: usize) -> (stats: Result<DownloadStats, LocalError>)
        ensures
            match stats {
                Ok(stats) => self@.tasks.contains_key(task_id) && stats@ == self@.stats(task_id),
                Err(error) => !self@.tasks.contains_key(task_id) && error
                    == LocalError::TaskNotFound,
            },
    {
        match self.tasks.get(&task_id) {
            Some(task) => Ok(
                DownloadStats {
                    progress: Progress::Complete,
                    downloaded_bytes: task.total_size,
                    total_bytes: task.total_size,
                    download_speed: Rate::Zero,
                    upload_speed: Rate::Zero,
                    is_finished: true,
                    error: None,
                    peers_count: 0,
                },
            ),
            None => Err(LocalError::TaskNotFound),
        }
    }

    /// The files of a task: the one it plays.
    pub fn get_files(&self, task_id: usize) -> (files: Result<Vec<FileInfo>, LocalError>)
        ensures
            match files {
                Ok(files) => self@.tasks.contains_key(task_id) && file_views(files@) == seq![
                    self@.file(task_id),
                ],
                Err(error) => !self@.tasks.contains_key(task_id) && error
                    == LocalError::TaskNotFound,
            },
    {
        match self.tasks.get(&task_id) {
            Some(task) => {
                let file = FileInfo {
                    index: 0,
                    name: task.file_name.clone(),
                    size: task.total_size,
                    downloaded: task.total_size,
                    is_video: true,
                };
                let mut files: Vec<FileInfo> = Vec::new();
                let ghost view = file@;
                files.push(file);
                assert(file_views(files@) =~= seq![view]);
                Ok(files)
            },
            None => Err(LocalError::TaskNotFound),
        }
    }

    /// The address under which a task is served.
    pub fn get_stream_url(&self, task_id: usize, file_index: usize) -> (url: String)
        ensures
            url@ == stream_address(self@.port, task_id, file_index),
    {
        stream_url(self.server_port, task_id, file_index)
    }

    /// Forgets a task; its file stays.
    pub fn remove(&mut self, task_id: usize)
        ensures
            final(self)@ == old(self)@.removed(task_id),
    {
        let ghost gone = old(self)@.removed(task_id);
        self.tasks.remove(&task_id);
        assert(self@.tasks =~= gone.tasks);
    }

    /// The answer to a request for a task.
    pub fn serve(&self, task_id: usize, range: Option<&[u8]>) -> (plan: FilePlan)
        ensures
            plan@ == self@.served(task_id, readable_range(range)),
    {
        let task = match self.tasks.get(&task_id) {
            Some(task) => task,
            None => return FilePlan::NotFound,
        };
        let header = match range {
            Some(bytes) => visible_text(bytes),
            None => None,
        };
        let span = match &header {
            Some(header) => answer_range(Some(header.as_str()), task.total_size),
            None => answer_range(None, task.total_size),
        };
        let content_type = get_mime_type_from_filename(task.file_name.as_str());
        FilePlan::Part {
            file_path: task.file_path.clone(),
            start: span.start,
            length: span.length(),
            headers: headers_for_part(content_type, span, task.total_size),
        }
    }
}

/// The file link of a path stands for that path; so does the path itself, unless it starts as a
/// file link.
pub proof fn law_file_link_stands_for_its_path(path: Seq<char>)
    ensures
        path_in("file://"@ + path) == path,
        !"file://"@.is_prefix_of(path) ==> path_in(path) == path,
{
    assert(("file://"@ + path).skip("file://"@.len() as int) =~= path);
}

/// A file that was added is there under its number, all of it, and no other task is touched.
pub proof fn law_added_file_is_there(backend: LocalView, task: LocalTaskView, other: usize)
    ensures
        backend.added(task).tasks.contains_key(backend.next),
        backend.added(task).tasks[backend.next] == task,
        backend.added(task).stats(backend.next).downloaded_bytes == task.total_size,
        other != backend.next ==> {
            &&& backend.added(task).tasks.contains_key(other) == backend.tasks.contains_key(other)
            &&& backend.added(task).stats(other) == backend.stats(other)
        },
{
}

/// Until the numbers run out, whatever is done keeps the tasks numbered below the next number, so
/// that the next number is always free.
pub proof fn law_next_number_is_free(backend: LocalView, task: LocalTaskView, id: usize)
    requires
        backend.numbered(),
        1 <= backend.next < usize::MAX,
    ensures
        !backend.tasks.contains_key(backend.next),
        backend.added(task).numbered(),
        backend.removed(id).numbered(),
{
}

/// A task that was removed is gone, and removing the one just added leaves the tasks as they were.
pub proof fn law_removed_file_is_gone(backend: LocalView, task: LocalTaskView, id: usize)
    ensures
        !backend.removed(id).tasks.contains_key(id),
        !backend.tasks.contains_key(backend.next) ==> backend.added(task).removed(
            backend.next,
        ).tasks == backend.tasks,
{
    if !backend.tasks.contains_key(backend.next) {
        assert(backend.added(task).removed(backend.next).tasks =~= backend.tasks);
    }
}

/// A player that asks for the bytes from `start` to `end` is sent those, up to the last byte of the
/// file. The headers tell how many bytes are sent and which ones, out of how many.
pub proof fn law_range_request_is_answered(
    plan: FilePlan,
    task: LocalTaskView,
    bytes: &[u8],
    start: u64,
    end: u64,
)
    requires
        task.total_size > 0,
        bytes@ == header_bytes("bytes="@ + decimal(start as nat) + "-"@ + decimal(end as nat)),
        plan@ == file_plan(task, readable_range(Some(bytes))),
    ensures
        ({
            let last = if end <= task.total_size - 1 {
                end as int
            } else {
                task.total_size - 1
            };
            plan matches FilePlan::Part { file_path, start: from, length, headers } && {
                &&& file_path@ == task.file_path
                &&& from == start
                &&& length == if start <= last {
                    last - start + 1
                } else {
                    1
                }
                &&& parsed(headers.content_length@) == Some(length)
                &&& headers.content_range is Some
                &&& (headers.content_range->0)@ == "bytes "@ + decimal(start as nat) + "-"@
                    + decimal(last as nat) + "/"@ + decimal(task.total_size as nat)
                &&& headers.accept_ranges@ == "bytes"@
                &&& headers.content_type@ == sent_type(guessed_mime(task.file_name))
            }
        }),
{
    law_range_request_is_understood(start, end);
    assert(bytes@ == header_bytes(range_header(start, end)));
    let span = answered(readable_range(Some(bytes)), task.total_size);
    law_parse_of_decimal(span.spec_length() as u64);
}

/// Of every answer, the length that the headers tell is the number of bytes that are sent, and none
/// is sent behind the end of the file where the part starts in it.
pub proof fn law_part_is_as_long_as_it_says(
    plan: FilePlan,
    task: LocalTaskView,
    range: Option<Seq<char>>,
)
    requires
        plan@ == file_plan(task, range),
    ensures
        plan matches FilePlan::Part { file_path, start, length, headers } && {
            &&& file_path@ == task.file_path
            &&& parsed(headers.content_length@) == Some(length)
            &&& length >= 1
            &&& start < task.total_size ==> start + length <= task.total_size
        },
{
    law_parse_of_decimal(answered(range, task.total_size).spec_length() as u64);
}

/// A player that asks for nothing is sent the whole file; one that seeks, the rest of it.
pub proof fn law_open_requests_run_to_the_end(plan: FilePlan, task: LocalTaskView, start: u64)
    requires
        start < task.total_size,
        plan@ == file_plan(task, Some("bytes="@ + decimal(start as nat) + "-"@)) || (start == 0
            && plan@ == file_plan(task, readable_range(None))),
    ensures
        plan matches FilePlan::Part { file_path, start: from, length, headers } && {
            &&& file_path@ == task.file_path
            &&& from == start
            &&& length == task.total_size - start
            &&& parsed(headers.content_length@) == Some(length)
        },
{
    law_open_range_runs_to_the_end(start, task.total_size);
    law_parse_of_decimal((task.total_size - start) as u64);
}

/// A task has one file, which is its main video: the file itself, all of it there.
pub proof fn law_file_of_a_task_is_its_main_video(
    backend: LocalView,
    id: usize,
    list: Vec<FileInfo>,
)
    requires
        backend.tasks.contains_key(id),
        file_views(list@) == seq![backend.file(id)],
    ensures
        list@.len() == 1,
        list@[0].index == 0,
        list@[0].name@ == backend.tasks[id].file_name,
        list@[0].size == backend.tasks[id].total_size,
        list@[0].downloaded == backend.tasks[id].total_size,
        list@[0].is_video,
        is_main_of(file_views(list@), list@[0]@),
        has_video(file_views(list@)),
{
    assert(file_views(list@).len() == list@.len());
    assert(file_views(list@)[0] == list@[0]@);
    assert(is_main_video(file_views(list@), 0));
}

/// A file that is here is reported as complete: all of its bytes, finished, and nothing moving.
pub proof fn law_local_file_is_complete(backend: LocalView, id: usize, stats: DownloadStats)
    requires
        backend.tasks.contains_key(id),
        stats@ == backend.stats(id),
    ensures
        stats.progress is Complete,
        stats.downloaded_bytes == backend.tasks[id].total_size,
        stats.total_bytes == backend.tasks[id].total_size,
        stats.download_speed is Zero,
        stats.upload_speed is Zero,
        stats.is_finished,
        stats.error is None,
        stats.peers_count == 0,
{
    assert(text_in(stats.error) is None);
}

/// A file bears the name that its path ends in, whatever directory it is in; slashes behind it and
/// steps that stay where they are do not count, and a path that ends upwards names no file.
pub proof fn law_name_is_what_the_path_ends_in(dir: Seq<char>, name: Seq<char>, path: Seq<char>)
    requires
        name.len() > 0,
        !name.contains('/'),
        name != "."@,
        name != ".."@,
    ensures
        last_step(name) == name,
        last_step(dir.push('/') + name) == name,
        last_step(path.push('/')) == last_step(path),
        last_step(path.push('/') + "."@) == last_step(path),
        last_step(path.push('/') + ".."@).len() == 0,
{
    let seps = seq!['/'];
    let none = Seq::<char>::empty();
    reveal_strlit(".");
    reveal_strlit("..");
    assert(seps.contains('/')) by {
        assert(seps[0] == '/');
    }
    assert forall|i: int| 0 <= i < name.len() implies !seps.contains(#[trigger] name[i]) by {
        assert(name[i] != '/');
    }
    lemma_one_piece(name, seps);
    lemma_one_piece(none, seps);
    lemma_one_piece("."@, seps);
    lemma_one_piece(".."@, seps);
    lemma_pieces_of_two(dir, '/', name, seps);
    lemma_pieces_of_two(path, '/', none, seps);
    lemma_pieces_of_two(path, '/', "."@, seps);
    lemma_pieces_of_two(path, '/', ".."@, seps);
    let before = pieces(path, seps);
    assert(path.push('/') + none =~= path.push('/'));
    assert(pieces(dir, seps) + seq![name] =~= pieces(dir, seps).push(name));
    assert(before + seq![none] =~= before.push(none));
    assert(before + seq!["."@] =~= before.push("."@));
    assert(before + seq![".."@] =~= before.push(".."@));
    assert(before.push(none).drop_last() =~= before);
    assert(before.push("."@).drop_last() =~= before);
    assert(before.push(".."@).last() == ".."@);
    assert(".."@.len() == 2 && "."@.len() == 1);
    assert(seq![name].last() == name);
}

/// Every request is answered by the span that answers it, out of the file, and the headers tell what
/// is sent.
pub proof fn law_every_answer_is_the_span_that_answers(
    plan: FilePlan,
    task: LocalTaskView,
    range: Option<Seq<char>>,
)
    requires
        plan@ == file_plan(task, range),
    ensures
        ({
            let span = answered(range, task.total_size);
            plan matches FilePlan::Part { file_path, start, length, headers } && {
                &&& file_path@ == task.file_path
                &&& start == span.start
                &&& length == if span.start <= span.end {
                    span.end - span.start + 1
                } else {
                    1
                }
                &&& parsed(headers.content_length@) == Some(length)
                &&& headers.content_range is Some
                &&& (headers.content_range->0)@ == "bytes "@ + decimal(span.start as nat) + "-"@
                    + decimal(span.end as nat) + "/"@ + decimal(task.total_size as nat)
                &&& headers.accept_ranges@ == "bytes"@
                &&& headers.content_type@ == sent_type(guessed_mime(task.file_name))
            }
        }),
{
    law_parse_of_decimal(answered(range, task.total_size).spec_length() as u64);
}

/// What is done to one task leaves every other as it was, and the server where it is; only adding a
/// task uses up a number.
pub proof fn law_tasks_do_not_touch_each_other(
    backend: LocalView,
    task: LocalTaskView,
    id: usize,
    other: usize,
)
    requires
        other != id,
        other != backend.next,
    ensures
        ({
            let added = backend.added(task);
            let removed = backend.removed(id);
            &&& added.tasks.contains_key(other) == backend.tasks.contains_key(other)
            &&& removed.tasks.contains_key(other) == backend.tasks.contains_key(other)
            &&& backend.tasks.contains_key(other) ==> added.tasks[other] == backend.tasks[other]
                && removed.tasks[other] == backend.tasks[other]
            &&& added.port == backend.port && removed.port == backend.port
            &&& removed.next == backend.next
            &&& backend.next < usize::MAX ==> added.next == backend.next + 1
        }),
{
}

/// The task of a file link, and that of a path, plays the file there, under the name that the path
/// ends in, with the size that was seen.
pub proof fn law_task_plays_the_file_of_the_link(
    dir: Seq<char>,
    name: Seq<char>,
    size: u64,
)
    requires
        name.len() > 0,
        !name.contains('/'),
        name != "."@,
        name != ".."@,
        !"file://"@.is_prefix_of(dir.push('/') + name),
    ensures
        ({
            let path = dir.push('/') + name;
            let linked = new_task("file://"@ + path, size);
            let named = new_task(path, size);
            &&& linked == named
            &&& named.file_path == path
            &&& named.file_name == name
            &&& named.total_size == size
        }),
{
    let path = dir.push('/') + name;
    law_file_link_stands_for_its_path(path);
    law_name_is_what_the_path_ends_in(dir, name, path);
}

/// File links are taken whether or not the file is there, which is found out later; everything else
/// only where a file is there.
pub proof fn law_file_links_are_taken(path: Seq<char>, url: Seq<char>, present: bool)
    ensures
        takes("file://"@ + path, present),
        takes(url, true),
        takes(url, false) ==> exists|rest: Seq<char>| #[trigger] ("file://"@ + rest) == url,
{
    assert(("file://"@ + path).subrange(0, "file://"@.len() as int) =~= "file://"@);
    if takes(url, false) {
        let rest = url.skip("file://"@.len() as int);
        assert("file://"@ + rest =~= url);
    }
}

/// A task that is not there is not found; an answer that carries bytes is a part, and a failure
/// where the bytes could not be had.
pub proof fn law_status_follows_the_answer(plan: FilePlanView, ready: bool)
    ensures
        plan is NotFound ==> plan_status(plan, ready) == Status::NotFound,
        !(plan is NotFound) ==> plan_status(plan, true) == Status::Part,
        !(plan is NotFound) ==> plan_status(plan, false) == Status::Failed,
{
}

/// A file that was added is served: a range in it exactly. A task that is not there, or no more, is
/// not found.
pub proof fn law_added_file_is_served(
    backend: LocalView,
    task: LocalTaskView,
    start: u64,
    end: u64,
    id: usize,
)
    requires
        start <= end < task.total_size,
    ensures
        ({
            let range = Some("bytes="@ + decimal(start as nat) + "-"@ + decimal(end as nat));
            &&& backend.added(task).served(backend.next, range) matches FilePlanView::Part {
                file_path,
                start: from,
                length,
                ..
            } && file_path == task.file_path && from == start && length == end - start + 1
            &&& backend.removed(id).served(id, range) is NotFound
            &&& !backend.tasks.contains_key(id) ==> backend.served(id, range) is NotFound
        }),
{
    law_range_header_is_read_back(start, end);
    assert("bytes="@ + decimal(start as nat) + "-"@ + decimal(end as nat) == range_header(
        start,
        end,
    ));
}

} // verus!
