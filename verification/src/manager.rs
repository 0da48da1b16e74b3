//! The list of backends and the tasks that were given to them.
use crate::ids::{following, law_ids_never_repeat, next_id, nth_id};
use crate::media::{
    blank_stats, file_views, has_video, is_main_of, law_main_video_is_the_largest,
    main_video_file, DownloadStats, FileInfo,
};
use crate::number::{decimal, law_parse_of_decimal, parsed, push_decimal};
use std::collections::HashMap;
use vstd::prelude::*;

verus! {

broadcast use vstd::std_specs::hash::group_hash_axioms;

/// Why the manager turns a request down.
#[derive(Debug)]
pub enum ManagerError {
    /// No backend takes this link.
    Unsupported(String),
    /// No task has the number.
    InvalidTask(usize),
}

impl ManagerError {
    /// The reason as it is shown.
    pub open spec fn text(self) -> Seq<char> {
        match self {
            ManagerError::Unsupported(_) => "No supported streamer backend for this URL"@,
            ManagerError::InvalidTask(id) => "无效的任务 ID: "@ + decimal(id as nat),
        }
    }

    /// The reason as it is shown.
    pub fn message(&self) -> (out: String)
        ensures
            out@ == self.text(),
    {
        match self {
            ManagerError::Unsupported(_) => {
                "No supported streamer backend for this URL".to_string()
            },
            ManagerError::InvalidTask(id) => {
                let mut out = "无效的任务 ID: ".to_string();
                push_decimal(&mut out, *id as u64);
                out
            },
        }
    }
}

/// Why a question about a task has no answer.
#[derive(Debug)]
pub enum TaskError<E> {
    /// There is no such task.
    Manager(ManagerError),
    /// Its backend gave none.
    Backend(E),
    /// None of its files is a video.
    NoVideo,
}

impl TaskError<String> {
    /// The reason as it is shown, where the backend gives its own as text.
    pub open spec fn text(self) -> Seq<char> {
        match self {
            TaskError::Manager(error) => error.text(),
            TaskError::Backend(reason) => reason@,
            TaskError::NoVideo => "No video file found"@,
        }
    }

    /// The reason as it is shown.
    pub fn message(&self) -> (out: String)
        ensures
            out@ == self.text(),
    {
        match self {
            TaskError::Manager(error) => error.message(),
            TaskError::Backend(reason) => reason.clone(),
            TaskError::NoVideo => "No video file found".to_string(),
        }
    }
}

/// Whether `stats` is what is shown of a task whose backend answered `answer`: its report, or else
/// nothing but the reason why there is none.
pub open spec fn is_shown_report(
    answer: Result<DownloadStats, String>,
    stats: DownloadStats,
) -> bool {
    match answer {
        Ok(report) => stats == report,
        Err(reason) => stats@ == blank_stats(Some(reason@)),
    }
}

/// What a backend answered, passed on.
pub open spec fn passed_on<E>(answer: Result<Vec<FileInfo>, E>) -> Result<
    Vec<FileInfo>,
    TaskError<E>,
> {
    match answer {
        Ok(files) => Ok(files),
        Err(error) => Err(TaskError::Backend(error)),
    }
}

/// Whether `main` is the answer for the main video of a task whose backend answered `files`.
pub open spec fn is_main_answer<E>(
    files: Result<Vec<FileInfo>, E>,
    main: Result<FileInfo, TaskError<E>>,
) -> bool {
    match files {
        Ok(files) => match main {
            Ok(main) => is_main_of(file_views(files@), main@),
            Err(error) => error is NoVideo && !has_video(file_views(files@)),
        },
        Err(error) => main == Err::<FileInfo, TaskError<E>>(TaskError::Backend(error)),
    }
}

/// The backends in the order in which they are asked, and the tasks: each number stands for a
/// backend and the number that this backend gave the task.
pub struct StreamerManager<B> {
    backends: Vec<B>,
    task_map: HashMap<usize, (usize, usize)>,
    next_task_id: usize,
}

/// The contents of a manager.
pub struct ManagerView<B> {
    pub backends: Seq<B>,
    pub tasks: Map<usize, (usize, usize)>,
    pub next: usize,
}

impl<B> View for StreamerManager<B> {
    type V = ManagerView<B>;

    closed spec fn view(&self) -> ManagerView<B> {
        ManagerView {
            backends: self.backends@,
            tasks: self.task_map@,
            next: self.next_task_id,
        }
    }
}

impl<B> ManagerView<B> {
    /// No backend, no task, and one as the first number.
    pub open spec fn initial() -> Self {
        ManagerView { backends: Seq::empty(), tasks: Map::empty(), next: 1 }
    }

    /// With one more backend, asked last.
    pub open spec fn registered(self, backend: B) -> Self {
        ManagerView { backends: self.backends.push(backend), ..self }
    }

    /// With a task of a backend under the next number.
    pub open spec fn added(self, backend: usize, backend_task: usize) -> Self {
        ManagerView {
            tasks: self.tasks.insert(self.next, (backend, backend_task)),
            next: following(self.next),
            ..self
        }
    }

    /// Without the task of a number.
    pub open spec fn removed(self, id: usize) -> Self {
        ManagerView { tasks: self.tasks.remove(id), ..self }
    }

    /// After its backend was asked to remove a task: without it, where the backend did so.
    pub open spec fn after_removal(self, id: usize, backend_removed: bool) -> Self {
        if backend_removed {
            self.removed(id)
        } else {
            self
        }
    }

    /// The backend of a task, by its place, and the number the task has there.
    pub open spec fn route(self, id: usize) -> Option<(usize, usize)> {
        if self.tasks.contains_key(id) && self.tasks[id].0 < self.backends.len() {
            Some(self.tasks[id])
        } else {
            None
        }
    }

    /// Every task belongs to a backend that is there.
    pub open spec fn wf(self) -> bool {
        forall|id: usize| #[trigger]
            self.tasks.contains_key(id) ==> self.tasks[id].0 < self.backends.len()
    }
}

impl<B> StreamerManager<B> {
    /// A manager without backends.
    pub fn new() -> (manager: Self)
        ensures
            manager@ == ManagerView::<B>::initial(),
            manager@.wf(),
    {
        StreamerManager { backends: Vec::new(), task_map: HashMap::new(), next_task_id: 1 }
    }

    /// Takes one more backend, which is asked after those that are there.
    pub fn register_backend(&mut self, backend: B)
        ensures
            final(self)@ == old(self)@.registered(backend),
            old(self)@.wf() ==> final(self)@.wf(),
    {
        self.backends.push(backend);
        assert(self@.tasks == old(self)@.tasks);
    }

    /// The place of the first backend that takes the link `url`. `supports` asks a backend; once
    /// one takes the link, those behind it are not asked.
    pub fn select_backend<F: Fn(&B, &str) -> bool>(&self, url: &str, supports: F) -> (chosen: Result<
        usize,
        ManagerError,
    >)
        requires
            forall|i: int|
                0 <= i < self@.backends.len() ==> call_requires(
                    supports,
                    (&#[trigger] self@.backends[i], url),
                ),
        ensures
            match chosen {
                Ok(at) => {
                    &&& at < self@.backends.len()
                    &&& call_ensures(supports, (&self@.backends[at as int], url), true)
                    &&& forall|i: int|
                        0 <= i < at ==> call_ensures(
                            supports,
                            (&#[trigger] self@.backends[i], url),
                            false,
                        )
                },
                Err(error) => {
                    &&& error matches ManagerError::Unsupported(link) && link@ == url@
                    &&& forall|i: int|
                        0 <= i < self@.backends.len() ==> call_ensures(
                            supports,
                            (&#[trigger] self@.backends[i], url),
                            false,
                        )
                },
            },
    {
        for i in 0..self.backends.len()
            invariant
                forall|j: int|
                    0 <= j < self@.backends.len() ==> call_requires(
                        supports,
                        (&#[trigger] self@.backends[j], url),
                    ),
                forall|j: int|
                    0 <= j < i ==> call_ensures(
                        supports,
                        (&#[trigger] self@.backends[j], url),
                        false,
                    ),
        {
            assert(self@.backends[i as int] == self.backends@[i as int]);
            if supports(&self.backends[i], url) {
                return Ok(i);
            }
        }
        Err(ManagerError::Unsupported(url.to_string()))
    }

    /// The backend at a place that `select_backend` gave.
    pub fn backend(&self, at: usize) -> (backend: Option<&B>)
        ensures
            match backend {
                Some(backend) => at < self@.backends.len() && *backend == self@.backends[at as int],
                None => at >= self@.backends.len(),
            },
    {
        if at < self.backends.len() {
            Some(&self.backends[at])
        } else {
            None
        }
    }

    /// Records that the backend at `backend` took a task under the number `backend_task_id`, and
    /// gives the number of the task here.
    pub fn add_task(&mut self, backend: usize, backend_task_id: usize) -> (id: usize)
        ensures
            id == old(self)@.next,
            final(self)@ == old(self)@.added(backend, backend_task_id),
            old(self)@.wf() && backend < old(self)@.backends.len() ==> final(self)@.wf(),
    {
        let id: usize = self.next_task_id;
        self.task_map.insert(id, (backend, backend_task_id));
        self.next_task_id = next_id(id);
        id
    }

    /// Records what the backend at `backend` answered when it was asked to add a task: the task,
    /// where it took it under the number that it gave. A failure is handed on, and nothing is
    /// recorded of it: no number is used up.
    pub fn record<E>(&mut self, backend: usize, answer: Result<usize, E>) -> (id: Result<usize, E>)
        ensures
            match answer {
                Ok(task) => {
                    &&& id == Ok::<usize, E>(old(self)@.next)
                    &&& final(self)@ == old(self)@.added(backend, task)
                },
                Err(error) => id == Err::<usize, E>(error) && final(self)@ == old(self)@,
            },
            old(self)@.wf() && backend < old(self)@.backends.len() ==> final(self)@.wf(),
    {
        match answer {
            Ok(task) => Ok(self.add_task(backend, task)),
            Err(error) => Err(error),
        }
    }

    /// The backend of a task, and the number the task has there.
    pub fn get_backend(&self, global_id: usize) -> (found: Result<(&B, usize), ManagerError>)
        ensures
            match found {
                Ok((backend, backend_task_id)) => {
                    &&& self@.route(global_id) matches Some((at, task)) && backend_task_id == task
                        && *backend == self@.backends[at as int]
                },
                Err(error) => self@.route(global_id) is None && error
                    == ManagerError::InvalidTask(global_id),
            },
    {
        if let Some(place) = self.task_map.get(&global_id) {
            if place.0 < self.backends.len() {
                return Ok((&self.backends[place.0], place.1));
            }
        }
        Err(ManagerError::InvalidTask(global_id))
    }

    /// Asks the backend of a task, by its number there.
    fn ask<R, F: FnOnce(&B, usize) -> R>(&self, global_id: usize, question: F) -> (answer: Result<
        R,
        ManagerError,
    >)
        requires
            forall|at: int, task: usize|
                0 <= at < self@.backends.len() ==> #[trigger] call_requires(
                    question,
                    (&self@.backends[at], task),
                ),
        ensures
            match self@.route(global_id) {
                Some((at, task)) => answer matches Ok(given) && call_ensures(
                    question,
                    (&self@.backends[at as int], task),
                    given,
                ),
                None => answer == Err::<R, ManagerError>(ManagerError::InvalidTask(global_id)),
            },
    {
        match self.get_backend(global_id) {
            Ok((backend, task)) => {
                proof {
                    let at = (self@.route(global_id)->0).0;
                    assert(call_requires(question, (&self@.backends[at as int], task)));
                }
                Ok(question(backend, task))
            },
            Err(error) => Err(error),
        }
    }

    /// What the backend of a task reports of it; `report` asks the backend, which gives a reason
    /// where it has no report. Of a number without a task the report is that there is none.
    pub fn get_stats<F: Fn(&B, usize) -> Result<DownloadStats, String>>(
        &self,
        global_id: usize,
        report: F,
    ) -> (stats: DownloadStats)
        requires
            forall|at: int, task: usize|
                0 <= at < self@.backends.len() ==> #[trigger] call_requires(
                    report,
                    (&self@.backends[at], task),
                ),
        ensures
            match self@.route(global_id) {
                Some((at, task)) => exists|answer: Result<DownloadStats, String>| #[trigger]
                    call_ensures(report, (&self@.backends[at as int], task), answer)
                        && is_shown_report(answer, stats),
                None => stats@ == blank_stats(Some("任务未找到"@)),
            },
    {
        match self.ask(global_id, report) {
            Ok(answer) => {
                let ghost given = answer;
                let stats = match answer {
                    Ok(stats) => stats,
                    Err(reason) => DownloadStats::failed(reason.as_str()),
                };
                assert(is_shown_report(given, stats));
                stats
            },
            Err(_) => DownloadStats::failed("任务未找到"),
        }
    }

    /// The files of a task; `list` asks its backend.
    pub fn get_files<E, F: Fn(&B, usize) -> Result<Vec<FileInfo>, E>>(
        &self,
        global_id: usize,
        list: F,
    ) -> (files: Result<Vec<FileInfo>, TaskError<E>>)
        requires
            forall|at: int, task: usize|
                0 <= at < self@.backends.len() ==> #[trigger] call_requires(
                    list,
                    (&self@.backends[at], task),
                ),
        ensures
            match self@.route(global_id) {
                Some((at, task)) => exists|answer: Result<Vec<FileInfo>, E>| #[trigger]
                    call_ensures(list, (&self@.backends[at as int], task), answer) && files
                        == passed_on(answer),
                None => files == Err::<Vec<FileInfo>, TaskError<E>>(
                    TaskError::Manager(ManagerError::InvalidTask(global_id)),
                ),
            },
    {
        match self.ask(global_id, list) {
            Ok(answer) => {
                let ghost given = answer;
                let files = match answer {
                    Ok(files) => Ok(files),
                    Err(error) => Err(TaskError::Backend(error)),
                };
                assert(files == passed_on(given));
                files
            },
            Err(error) => Err(TaskError::Manager(error)),
        }
    }

    /// The main video of a task: the largest, and the last of those that are equally large; `list`
    /// asks the backend for the files.
    pub fn get_main_video_file<E, F: Fn(&B, usize) -> Result<Vec<FileInfo>, E>>(
        &self,
        global_id: usize,
        list: F,
    ) -> (main: Result<FileInfo, TaskError<E>>)
        requires
            forall|at: int, task: usize|
                0 <= at < self@.backends.len() ==> #[trigger] call_requires(
                    list,
                    (&self@.backends[at], task),
                ),
        ensures
            match self@.route(global_id) {
                Some((at, task)) => exists|files: Result<Vec<FileInfo>, E>| #[trigger]
                    call_ensures(list, (&self@.backends[at as int], task), files) && is_main_answer(
                        files,
                        main,
                    ),
                None => main == Err::<FileInfo, TaskError<E>>(
                    TaskError::Manager(ManagerError::InvalidTask(global_id)),
                ),
            },
    {
        match self.ask(global_id, list) {
            Ok(files) => {
                let ghost answer = files;
                let main = match files {
                    Ok(files) => match main_video_file(&files) {
                        Some(main) => Ok(main),
                        None => Err(TaskError::NoVideo),
                    },
                    Err(error) => Err(TaskError::Backend(error)),
                };
                assert(is_main_answer(answer, main));
                main
            },
            Err(error) => Err(TaskError::Manager(error)),
        }
    }

    /// What the backend of a task answers when it is asked for the address of a file; `address`
    /// asks the backend.
    pub fn get_stream_url<R, F: FnOnce(&B, usize, usize) -> R>(
        &self,
        global_id: usize,
        file_index: usize,
        address: F,
    ) -> (answer: Result<R, ManagerError>)
        requires
            forall|at: int, task: usize|
                0 <= at < self@.backends.len() ==> #[trigger] call_requires(
                    address,
                    (&self@.backends[at], task, file_index),
                ),
        ensures
            match self@.route(global_id) {
                Some((at, task)) => answer matches Ok(given) && call_ensures(
                    address,
                    (&self@.backends[at as int], task, file_index),
                    given,
                ),
                None => answer == Err::<R, ManagerError>(ManagerError::InvalidTask(global_id)),
            },
    {
        let question = |backend: &B, task: usize| -> (given: R)
            requires
                call_requires(address, (backend, task, file_index)),
            ensures
                call_ensures(address, (backend, task, file_index), given),
            { address(backend, task, file_index) };
        self.ask(global_id, question)
    }

    /// What the backend of a task answers when it is asked to pause it; `pause` asks the backend.
    pub fn pause<R, F: FnOnce(&B, usize) -> R>(&self, global_id: usize, pause: F) -> (answer: Result<
        R,
        ManagerError,
    >)
        requires
            forall|at: int, task: usize|
                0 <= at < self@.backends.len() ==> #[trigger] call_requires(
                    pause,
                    (&self@.backends[at], task),
                ),
        ensures
            match self@.route(global_id) {
                Some((at, task)) => answer matches Ok(given) && call_ensures(
                    pause,
                    (&self@.backends[at as int], task),
                    given,
                ),
                None => answer == Err::<R, ManagerError>(ManagerError::InvalidTask(global_id)),
            },
    {
        self.ask(global_id, pause)
    }

    /// What the backend of a task answers when it is asked to go on with it; `resume` asks the
    /// backend.
    pub fn resume<R, F: FnOnce(&B, usize) -> R>(&self, global_id: usize, resume: F) -> (answer:
        Result<R, ManagerError>)
        requires
            forall|at: int, task: usize|
                0 <= at < self@.backends.len() ==> #[trigger] call_requires(
                    resume,
                    (&self@.backends[at], task),
                ),
        ensures
            match self@.route(global_id) {
                Some((at, task)) => answer matches Ok(given) && call_ensures(
                    resume,
                    (&self@.backends[at as int], task),
                    given,
                ),
                None => answer == Err::<R, ManagerError>(ManagerError::InvalidTask(global_id)),
            },
    {
        self.ask(global_id, resume)
    }

    /// What the backend of a task answers when it is asked to remove it, along with its files where
    /// `delete_files` says so; `ask` asks the backend.
    pub fn ask_removal<R, F: FnOnce(&B, usize, bool) -> R>(
        &self,
        global_id: usize,
        delete_files: bool,
        ask: F,
    ) -> (answer: Result<R, ManagerError>)
        requires
            forall|at: int, task: usize|
                0 <= at < self@.backends.len() ==> #[trigger] call_requires(
                    ask,
                    (&self@.backends[at], task, delete_files),
                ),
        ensures
            match self@.route(global_id) {
                Some((at, task)) => answer matches Ok(given) && call_ensures(
                    ask,
                    (&self@.backends[at as int], task, delete_files),
                    given,
                ),
                None => answer == Err::<R, ManagerError>(ManagerError::InvalidTask(global_id)),
            },
    {
        let question = |backend: &B, task: usize| -> (given: R)
            requires
                call_requires(ask, (backend, task, delete_files)),
            ensures
                call_ensures(ask, (backend, task, delete_files), given),
            { ask(backend, task, delete_files) };
        self.ask(global_id, question)
    }

    /// Forgets a task after its backend was asked to remove it, where the backend did so.
    pub fn remove(&mut self, global_id: usize, backend_removed: bool)
        ensures
            final(self)@ == old(self)@.after_removal(global_id, backend_removed),
            old(self)@.wf() ==> final(self)@.wf(),
    {
        if backend_removed {
            self.task_map.remove(&global_id);
        }
    }
}

/// A task that was added is found again: its number leads to the backend that took it and to the
/// number that it got there. Every other number leads where it led before.
pub proof fn law_added_task_is_found<B>(
    manager: ManagerView<B>,
    backend: usize,
    task: usize,
    other: usize,
)
    requires
        backend < manager.backends.len(),
    ensures
        manager.added(backend, task).route(manager.next) == Some((backend, task)),
        other != manager.next ==> manager.added(backend, task).route(other) == manager.route(other),
{
}

/// A task that was removed is not found, and no other task is touched.
pub proof fn law_removed_task_is_gone<B>(manager: ManagerView<B>, id: usize, other: usize)
    ensures
        manager.removed(id).route(id) is None,
        other != id ==> manager.removed(id).route(other) == manager.route(other),
{
}

/// Removing the task that was just added leaves the tasks as they were.
pub proof fn law_remove_undoes_add<B>(manager: ManagerView<B>, backend: usize, task: usize)
    requires
        !manager.tasks.contains_key(manager.next),
    ensures
        manager.added(backend, task).removed(manager.next).tasks == manager.tasks,
{
    assert(manager.added(backend, task).removed(manager.next).tasks =~= manager.tasks);
}

/// Where every task belongs to a backend that is there, each number of a task leads to one.
pub proof fn law_every_task_is_found<B>(manager: ManagerView<B>, id: usize)
    requires
        manager.wf(),
    ensures
        manager.route(id) is Some <==> manager.tasks.contains_key(id),
{
}

/// A backend that comes later changes no route that leads to a backend.
pub proof fn law_registering_keeps_routes<B>(manager: ManagerView<B>, backend: B, id: usize)
    requires
        manager.wf(),
    ensures
        manager.registered(backend).route(id) == manager.route(id),
        manager.registered(backend).wf(),
{
}

impl<B> ManagerView<B> {
    /// The tasks bear numbers from one up to the next.
    pub open spec fn numbered(self) -> bool {
        forall|id: usize| #[trigger] self.tasks.contains_key(id) ==> 1 <= id < self.next
    }
}

/// Until the numbers run out, every step keeps the tasks numbered below the next number, so that
/// the next number is always free.
pub proof fn law_next_number_is_free<B>(manager: ManagerView<B>, step: Step<B>)
    requires
        manager.numbered(),
        1 <= manager.next < usize::MAX,
    ensures
        !manager.tasks.contains_key(manager.next),
        after(manager, step).numbered(),
        1 <= after(manager, step).next,
        ManagerView::<B>::initial().numbered(),
{
}

/// What can be done to a manager.
pub enum Step<B> {
    Register(B),
    Add(usize, usize),
    Remove(usize),
}

/// A manager after a step.
pub open spec fn after<B>(manager: ManagerView<B>, step: Step<B>) -> ManagerView<B> {
    match step {
        Step::Register(backend) => manager.registered(backend),
        Step::Add(backend, task) => manager.added(backend, task),
        Step::Remove(id) => manager.removed(id),
    }
}

/// The numbers handed out along `steps`.
pub open spec fn ids_given<B>(manager: ManagerView<B>, steps: Seq<Step<B>>) -> Seq<usize>
    decreases steps.len(),
{
    if steps.len() == 0 {
        Seq::empty()
    } else {
        let rest = ids_given(after(manager, steps[0]), steps.skip(1));
        if steps[0] is Add {
            seq![manager.next] + rest
        } else {
            rest
        }
    }
}

/// The numbers handed out follow each other, whatever else is done in between.
proof fn lemma_ids_given<B>(manager: ManagerView<B>, steps: Seq<Step<B>>, n: int)
    requires
        0 <= n < ids_given(manager, steps).len(),
    ensures
        ids_given(manager, steps)[n] == nth_id(manager.next, n as nat),
    decreases steps.len(),
{
    let later = after(manager, steps[0]);
    let rest = ids_given(later, steps.skip(1));
    if steps[0] is Add {
        if n > 0 {
            lemma_ids_given(later, steps.skip(1), n - 1);
            lemma_nth_id_shift(manager.next, (n - 1) as nat);
        }
    } else {
        lemma_ids_given(later, steps.skip(1), n);
    }
}

proof fn lemma_nth_id_shift(first: usize, n: nat)
    ensures
        nth_id(following(first), n) == nth_id(first, n + 1),
    decreases n,
{
    if n > 0 {
        lemma_nth_id_shift(first, (n - 1) as nat);
    } else {
        assert(nth_id(first, 0) == first);
        assert(nth_id(first, 1) == following(nth_id(first, 0)));
    }
}

/// Task numbers are unique: along any steps that add no more tasks than there are numbers, no two
/// tasks get the same number, removed tasks included.
pub proof fn law_task_ids_are_unique<B>(
    manager: ManagerView<B>,
    steps: Seq<Step<B>>,
    i: int,
    j: int,
)
    requires
        0 <= i < j < ids_given(manager, steps).len(),
        j - i <= usize::MAX,
    ensures
        ids_given(manager, steps)[i] != ids_given(manager, steps)[j],
{
    lemma_ids_given(manager, steps, i);
    lemma_ids_given(manager, steps, j);
    law_ids_never_repeat(manager.next, i as nat, j as nat);
}

/// A manager starts with no backend and no task.
pub proof fn law_manager_starts_empty<B>(id: usize)
    ensures
        ManagerView::<B>::initial().backends.len() == 0,
        ManagerView::<B>::initial().route(id) is None,
        ManagerView::<B>::initial().next == 1,
        ManagerView::<B>::initial().wf(),
{
}

/// A backend that is registered is asked last, and the others as before.
pub proof fn law_registered_backend_is_asked_last<B>(manager: ManagerView<B>, backend: B)
    ensures
        manager.registered(backend).backends.len() == manager.backends.len() + 1,
        manager.registered(backend).backends[manager.backends.len() as int] == backend,
        forall|i: int|
            0 <= i < manager.backends.len() ==> #[trigger] manager.registered(backend).backends[i]
                == manager.backends[i],
        manager.registered(backend).tasks == manager.tasks,
        manager.registered(backend).next == manager.next,
{
}

/// Adding and removing tasks changes no backend; adding moves on to the next number, and removing
/// gives none back.
pub proof fn law_tasks_leave_backends_alone<B>(
    manager: ManagerView<B>,
    backend: usize,
    task: usize,
    id: usize,
)
    ensures
        manager.added(backend, task).backends == manager.backends,
        manager.removed(id).backends == manager.backends,
        manager.next < usize::MAX ==> manager.added(backend, task).next == manager.next + 1,
        manager.removed(id).next == manager.next,
{
}

/// What a backend answers reaches the one who asked: its files, its report, or its failure.
pub proof fn law_answers_are_passed_on<E>(
    files: Vec<FileInfo>,
    error: E,
    report: DownloadStats,
    reason: String,
    stats: DownloadStats,
)
    ensures
        passed_on(Ok::<Vec<FileInfo>, E>(files)) == Ok::<Vec<FileInfo>, TaskError<E>>(files),
        passed_on(Err::<Vec<FileInfo>, E>(error)) == Err::<Vec<FileInfo>, TaskError<E>>(
            TaskError::Backend(error),
        ),
        is_shown_report(Ok::<DownloadStats, String>(report), stats) ==> stats == report,
        is_shown_report(Err::<DownloadStats, String>(reason), stats) ==> {
            &&& stats@.error == Some(reason@)
            &&& stats@.downloaded_bytes == 0 && stats@.total_bytes == 0
            &&& !stats@.is_finished
        },
{
}

/// The main video of a task is the largest of the videos that its backend lists, the last of
/// those that are as large; without a video the answer is that there is none, and a failure of
/// the backend is handed on.
pub proof fn law_main_answer_is_the_largest_video<E>(
    files: Vec<FileInfo>,
    error: E,
    main: Result<FileInfo, TaskError<E>>,
)
    ensures
        is_main_answer(Ok::<Vec<FileInfo>, E>(files), main) && main is Ok ==> {
            &&& (main->Ok_0).is_video
            &&& exists|at: int|
                0 <= at < files@.len() && (#[trigger] files@[at])@ == (main->Ok_0)@ && (forall|i: int|
                    0 <= i < files@.len() && (#[trigger] files@[i]).is_video ==> files@[i].size < (
                    main->Ok_0).size || (files@[i].size == (main->Ok_0).size && i <= at))
        },
        is_main_answer(Ok::<Vec<FileInfo>, E>(files), main) && main is Err ==> {
            &&& main->Err_0 is NoVideo
            &&& forall|i: int| 0 <= i < files@.len() ==> !(#[trigger] files@[i]).is_video
        },
        is_main_answer(Err::<Vec<FileInfo>, E>(error), main) ==> main == Err::<
            FileInfo,
            TaskError<E>,
        >(TaskError::Backend(error)),
{
    let views = file_views(files@);
    if is_main_answer(Ok::<Vec<FileInfo>, E>(files), main) {
        if main is Ok {
            law_main_video_is_the_largest(views, (main->Ok_0)@);
            let at = choose|at: int|
                0 <= at < views.len() && #[trigger] views[at] == (main->Ok_0)@ && (forall|i: int|
                    0 <= i < views.len() && (#[trigger] views[i]).is_video ==> views[i].size < (
                    main->Ok_0)@.size || (views[i].size == (main->Ok_0)@.size && i <= at));
            assert(files@[at]@ == views[at]);
            assert forall|i: int| 0 <= i < files@.len() && (#[trigger] files@[i]).is_video implies
                files@[i].size < (main->Ok_0).size || (files@[i].size == (main->Ok_0).size && i
                <= at) by {
                assert(views[i] == files@[i]@);
                assert(views[i].is_video);
            }
        } else {
            assert forall|i: int| 0 <= i < files@.len() implies !(#[trigger] files@[i]).is_video by {
                assert(views[i] == files@[i]@);
            }
        }
    }
}

/// The reason for turning down a number names that number.
pub proof fn law_refusal_names_the_task(id: usize)
    ensures
        "无效的任务 ID: "@.is_prefix_of(ManagerError::InvalidTask(id).text()),
        parsed(
            ManagerError::InvalidTask(id).text().skip("无效的任务 ID: "@.len() as int),
        ) == Some(id as u64),
{
    let head = "无效的任务 ID: "@;
    let text = ManagerError::InvalidTask(id).text();
    assert(text.skip(head.len() as int) =~= decimal(id as nat));
    assert(text.subrange(0, head.len() as int) =~= head);
    law_parse_of_decimal(id as u64);
}

/// A task is forgotten exactly where its backend removed it, and every other is found as before.
pub proof fn law_task_is_forgotten_once_removed<B>(
    manager: ManagerView<B>,
    id: usize,
    other: usize,
    backend_removed: bool,
)
    ensures
        backend_removed ==> manager.after_removal(id, backend_removed).route(id) is None,
        !backend_removed ==> manager.after_removal(id, backend_removed) == manager,
        other != id ==> manager.after_removal(id, backend_removed).route(other) == manager.route(
            other,
        ),
        manager.after_removal(id, backend_removed).next == manager.next,
        manager.after_removal(id, backend_removed).backends == manager.backends,
{
}

} // verus!
