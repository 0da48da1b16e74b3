//! The player window: what it shows, and how playing a link proceeds.
use crate::local_file::{law_file_link_stands_for_its_path, path_in};
use crate::media::{blank_stats, DownloadStats, FileInfo, FileView, StatsView};
use crate::number::{decimal, law_parse_of_decimal, parsed, push_decimal};
use crate::size::{format_bytes, readable};
use crate::text::{is_space, law_trimmed_has_no_space_around, text_in, trim, trimmed};
use vstd::prelude::*;

verus! {

/// How long to wait between two questions for a report, in nanoseconds.
pub const POLL_INTERVAL: u128 = 1_000_000_000;

/// News for the window.
#[derive(Debug)]
pub enum AppMessage {
    TaskAdded(usize),
    /// The address to play, and the title.
    StreamUrlReady(String, String),
    Error(String),
    StatsUpdated(DownloadStats),
    /// The path of a file that was picked.
    FileSelected(String),
}

/// The values of news.
pub enum MessageView {
    TaskAdded(usize),
    StreamUrlReady(Seq<char>, Seq<char>),
    Error(Seq<char>),
    StatsUpdated(StatsView),
    FileSelected(Seq<char>),
}

impl View for AppMessage {
    type V = MessageView;

    open spec fn view(&self) -> MessageView {
        match self {
            AppMessage::TaskAdded(id) => MessageView::TaskAdded(*id),
            AppMessage::StreamUrlReady(url, title) => MessageView::StreamUrlReady(url@, title@),
            AppMessage::Error(text) => MessageView::Error(text@),
            AppMessage::StatsUpdated(stats) => MessageView::StatsUpdated(stats@),
            AppMessage::FileSelected(path) => MessageView::FileSelected(path@),
        }
    }
}

/// What the window shows.
#[derive(Debug)]
pub struct PlayerState {
    pub input_url: String,
    pub status: String,
    pub current_task_id: Option<usize>,
    pub stats: DownloadStats,
}

/// The values that the window shows.
pub struct PlayerView {
    pub input_url: Seq<char>,
    pub status: Seq<char>,
    pub current_task_id: Option<usize>,
    pub stats: StatsView,
}

impl View for PlayerState {
    type V = PlayerView;

    open spec fn view(&self) -> PlayerView {
        PlayerView {
            input_url: self.input_url@,
            status: self.status@,
            current_task_id: self.current_task_id,
            stats: self.stats@,
        }
    }
}

impl PlayerView {
    /// The window after news.
    pub open spec fn after(self, message: MessageView) -> Self {
        match message {
            MessageView::TaskAdded(id) => PlayerView {
                current_task_id: Some(id),
                status: "✅ 任务添加成功, 获取流地址..."@,
                ..self
            },
            MessageView::StreamUrlReady(_, title) => PlayerView {
                status: "🎬 正在播放: "@ + title,
                ..self
            },
            MessageView::Error(text) => PlayerView { status: text, current_task_id: None, ..self },
            MessageView::StatsUpdated(stats) => PlayerView { stats, ..self },
            MessageView::FileSelected(path) => PlayerView {
                input_url: "file://"@ + path,
                ..self
            },
        }
    }

    /// The link that is played when that is asked for: what was put in, without the white space
    /// around it, where there is any.
    pub open spec fn link_to_play(self) -> Option<Seq<char>> {
        if trimmed(self.input_url).len() > 0 {
            Some(trimmed(self.input_url))
        } else {
            None
        }
    }

    /// The task whose report is to be asked for when the last question was asked `elapsed_nanos`
    /// ago.
    pub open spec fn task_due(self, elapsed_nanos: u128) -> Option<usize> {
        if elapsed_nanos > POLL_INTERVAL {
            self.current_task_id
        } else {
            None
        }
    }

    /// How much has come, of how much.
    pub open spec fn downloaded_text(self) -> Seq<char> {
        "已下载: "@ + readable(self.stats.downloaded_bytes) + " / "@ + readable(
            self.stats.total_bytes,
        )
    }

    /// How many peers there are.
    pub open spec fn peers_text(self) -> Seq<char> {
        "连接数: "@ + decimal(self.stats.peers_count as nat)
    }

    /// The window after a row of news.
    pub open spec fn after_all(self, messages: Seq<MessageView>) -> Self
        decreases messages.len(),
    {
        if messages.len() == 0 {
            self
        } else {
            self.after_all(messages.drop_last()).after(messages.last())
        }
    }
}

/// The address that news asks to play.
pub open spec fn address_in(message: MessageView) -> Option<Seq<char>> {
    match message {
        MessageView::StreamUrlReady(url, _) => Some(url),
        _ => None,
    }
}

/// `head` and `tail`, one behind the other.
fn concat(head: &str, tail: &str) -> (out: String)
    ensures
        out@ == head@ + tail@,
{
    let mut out = head.to_string();
    out.append(tail);
    out
}

impl PlayerState {
    /// A window that has just opened.
    pub fn new() -> (state: Self)
        ensures
            state@ == (PlayerView {
                input_url: Seq::<char>::empty(),
                status: "准备就绪"@,
                current_task_id: None,
                stats: blank_stats(None),
            }),
    {
        PlayerState {
            input_url: String::new(),
            status: "准备就绪".to_string(),
            current_task_id: None,
            stats: DownloadStats::default(),
        }
    }

    /// Starts to play the link that was put in. Gives the link, without white space around it,
    /// where there is one; what plays until then is stopped.
    pub fn start_playback(&mut self) -> (url: Option<String>)
        ensures
            ({
                let link = trimmed(old(self)@.input_url);
                &&& text_in(url) == old(self)@.link_to_play()
                &&& match url {
                    Some(url) => url@ == link && link.len() > 0 && final(self)@ == (PlayerView {
                        status: "🚀 正在初始化..."@,
                        ..old(self)@
                    }),
                    None => link.len() == 0 && final(self)@ == (PlayerView {
                        status: "❌ 请输入有效的链接"@,
                        ..old(self)@
                    }),
                }
            }),
    {
        let url = trim(self.input_url.as_str());
        if url.as_str().is_empty() {
            self.status = "❌ 请输入有效的链接".to_string();
            None
        } else {
            self.status = "🚀 正在初始化...".to_string();
            Some(url)
        }
    }

    /// Takes news. Gives the address that is to be played, where the news brings one.
    pub fn handle(&mut self, message: AppMessage) -> (play: Option<String>)
        ensures
            final(self)@ == old(self)@.after(message@),
            match play {
                Some(url) => address_in(message@) == Some(url@),
                None => address_in(message@) is None,
            },
    {
        match message {
            AppMessage::TaskAdded(id) => {
                self.current_task_id = Some(id);
                self.status = "✅ 任务添加成功, 获取流地址...".to_string();
                None
            },
            AppMessage::StreamUrlReady(url, title) => {
                self.status = concat("🎬 正在播放: ", title.as_str());
                Some(url)
            },
            AppMessage::Error(text) => {
                self.status = text;
                self.current_task_id = None;
                None
            },
            AppMessage::StatsUpdated(stats) => {
                self.stats = stats;
                None
            },
            AppMessage::FileSelected(path) => {
                self.input_url = concat("file://", path.as_str());
                None
            },
        }
    }

    /// Notes that sound could not be had for what was to be played.
    pub fn audio_failed(&mut self, reason: &str)
        ensures
            final(self)@ == (PlayerView {
                status: "❌ 音频初始化失败: "@ + reason@,
                ..old(self)@
            }),
    {
        self.status = concat("❌ 音频初始化失败: ", reason);
    }

    /// Notes that an address could not be played.
    pub fn player_failed(&mut self, reason: &str)
        ensures
            final(self)@ == (PlayerView {
                status: "❌ 播放器初始化失败: "@ + reason@,
                ..old(self)@
            }),
    {
        self.status = concat("❌ 播放器初始化失败: ", reason);
    }

    /// The task whose report is to be asked for when the last question was asked `elapsed_nanos`
    /// ago.
    pub fn task_to_poll(&self, elapsed_nanos: u128) -> (task: Option<usize>)
        ensures
            task == self@.task_due(elapsed_nanos),
    {
        if elapsed_nanos > POLL_INTERVAL {
            self.current_task_id
        } else {
            None
        }
    }

    /// How much has come, of how much.
    pub fn downloaded_label(&self) -> (label: String)
        ensures
            label@ == self@.downloaded_text(),
    {
        let mut label = "已下载: ".to_string();
        label.append(format_bytes(self.stats.downloaded_bytes).as_str());
        label.append(" / ");
        label.append(format_bytes(self.stats.total_bytes).as_str());
        label
    }

    /// How many peers there are.
    pub fn peers_label(&self) -> (label: String)
        ensures
            label@ == self@.peers_text(),
    {
        let mut label = "连接数: ".to_string();
        push_decimal(&mut label, self.stats.peers_count as u64);
        label
    }
}

/// A speed of whole bytes per second.
pub open spec fn speed_text(bytes_per_second: u64) -> Seq<char> {
    "速度: "@ + readable(bytes_per_second) + "/s"@
}

/// A speed of whole bytes per second.
pub fn speed_label(bytes_per_second: u64) -> (label: String)
    ensures
        label@ == speed_text(bytes_per_second),
{
    let mut label = concat("速度: ", format_bytes(bytes_per_second).as_str());
    label.append("/s");
    label
}

/// The text on the button that pauses and goes on.
pub open spec fn toggle_text(playing: bool) -> Seq<char> {
    if playing {
        "⏸ 暂停"@
    } else {
        "▶ 继续"@
    }
}

/// The text on the button that pauses and goes on.
pub fn toggle_label(playing: bool) -> (label: String)
    ensures
        label@ == toggle_text(playing),
{
    if playing {
        "⏸ 暂停".to_string()
    } else {
        "▶ 继续".to_string()
    }
}

/// The news that adding a task brings.
pub open spec fn added_news(added: Result<usize, Seq<char>>) -> MessageView {
    match added {
        Ok(id) => MessageView::TaskAdded(id),
        Err(reason) => MessageView::Error("❌ 任务添加失败: "@ + reason),
    }
}

/// The news that the address of a video brings, or its lack.
pub open spec fn resolved_news(
    main: Option<FileView>,
    resolved: Result<Seq<char>, Seq<char>>,
) -> MessageView {
    match main {
        Some(file) => match resolved {
            Ok(url) => MessageView::StreamUrlReady(url, file.name),
            Err(reason) => MessageView::Error("⚠️ 无法获取流 URL: "@ + reason),
        },
        None => MessageView::Error("⚠️ 未找到视频文件"@),
    }
}

/// A text or the reason why there is none.
pub open spec fn either_text(result: Result<String, String>) -> Result<Seq<char>, Seq<char>> {
    match result {
        Ok(text) => Ok(text@),
        Err(reason) => Err(reason@),
    }
}

/// The first step of playing a link: the news after the task was to be added, and the task whose
/// main video is to be found, where it was.
pub fn after_adding(added: Result<usize, String>) -> (step: (AppMessage, Option<usize>))
    ensures
        step.0@ == added_news(
            match added {
                Ok(id) => Ok(id),
                Err(reason) => Err(reason@),
            },
        ),
        step.1 == match added {
            Ok(id) => Some(id),
            Err(_) => None,
        },
{
    match added {
        Ok(id) => (AppMessage::TaskAdded(id), Some(id)),
        Err(reason) => (AppMessage::Error(concat("❌ 任务添加失败: ", reason.as_str())), None),
    }
}

/// The second step: the file whose address is to be found, or the news that there is none.
pub fn after_choosing(main: Option<&FileInfo>) -> (step: Result<usize, AppMessage>)
    ensures
        match main {
            Some(file) => step matches Ok(index) && index == file@.index,
            None => step matches Err(news) && forall|resolved: Result<Seq<char>, Seq<char>>|
                news@ == #[trigger] resolved_news(None, resolved),
        },
{
    match main {
        Some(file) => Ok(file.index),
        None => Err(AppMessage::Error("⚠️ 未找到视频文件".to_string())),
    }
}

/// The last step: the news after the address of the main video was to be found.
pub fn after_resolving(main: FileInfo, resolved: Result<String, String>) -> (news: AppMessage)
    ensures
        news@ == resolved_news(Some(main@), either_text(resolved)),
{
    match resolved {
        Ok(url) => AppMessage::StreamUrlReady(url, main.name),
        Err(reason) => AppMessage::Error(concat("⚠️ 无法获取流 URL: ", reason.as_str())),
    }
}

/// The news of one link that is played, in order.
pub open spec fn news_of(
    added: Result<usize, Seq<char>>,
    main: Option<FileView>,
    resolved: Result<Seq<char>, Seq<char>>,
) -> Seq<MessageView> {
    match added {
        Ok(_) => seq![added_news(added), resolved_news(main, resolved)],
        Err(_) => seq![added_news(added)],
    }
}

/// Playing a link ends with an address to play or with an error, and with nothing before that asks
/// to play. After an address the window follows the task; after an error it follows none.
pub proof fn law_playback_ends_in_video_or_error(
    window: PlayerView,
    added: Result<usize, Seq<char>>,
    main: Option<FileView>,
    resolved: Result<Seq<char>, Seq<char>>,
)
    ensures
        ({
            let news = news_of(added, main, resolved);
            let shown = window.after_all(news);
            &&& news.len() > 0
            &&& (news.last() is StreamUrlReady || news.last() is Error)
            &&& forall|i: int| 0 <= i < news.len() - 1 ==> address_in(#[trigger] news[i]) is None
            &&& news.last() is StreamUrlReady ==> added is Ok && shown.current_task_id == Some(
                added->Ok_0,
            )
            &&& news.last() is Error ==> shown.current_task_id is None
        }),
{
    let news = news_of(added, main, resolved);
    reveal_with_fuel(PlayerView::after_all, 3);
    if added is Ok {
        assert(news.drop_last() =~= seq![added_news(added)]);
        assert(news.drop_last().drop_last() =~= Seq::empty());
    } else {
        assert(news.drop_last() =~= Seq::empty());
    }
}

/// A file that was picked is the one that is played: its path comes out of the link put in for it.
pub proof fn law_picked_file_is_played(window: PlayerView, path: Seq<char>)
    ensures
        path_in(window.after(MessageView::FileSelected(path)).input_url) == path,
{
    law_file_link_stands_for_its_path(path);
}

/// A report changes nothing but the report shown.
pub proof fn law_report_changes_only_report(window: PlayerView, stats: StatsView)
    ensures
        window.after(MessageView::StatsUpdated(stats)) == (PlayerView { stats, ..window }),
{
}

/// A task that was added is the one the window follows from then on.
pub proof fn law_added_task_is_followed(window: PlayerView, id: usize)
    ensures
        window.after(MessageView::TaskAdded(id)).current_task_id == Some(id),
        window.after(MessageView::TaskAdded(id)).input_url == window.input_url,
        window.after(MessageView::TaskAdded(id)).stats == window.stats,
        address_in(MessageView::TaskAdded(id)) is None,
{
}

/// An address that is ready is the one that is played. The window shows its title and goes on
/// following the task.
pub proof fn law_ready_address_is_played(window: PlayerView, url: Seq<char>, title: Seq<char>)
    ensures
        address_in(MessageView::StreamUrlReady(url, title)) == Some(url),
        title.is_suffix_of(window.after(MessageView::StreamUrlReady(url, title)).status),
        window.after(MessageView::StreamUrlReady(url, title)).current_task_id
            == window.current_task_id,
        window.after(MessageView::StreamUrlReady(url, title)).input_url == window.input_url,
        window.after(MessageView::StreamUrlReady(url, title)).stats == window.stats,
{
    let status = window.after(MessageView::StreamUrlReady(url, title)).status;
    assert(status.subrange(status.len() - title.len(), status.len() as int) =~= title);
}

/// An error is shown as it is, and no task is followed after it.
pub proof fn law_error_is_shown(window: PlayerView, text: Seq<char>)
    ensures
        window.after(MessageView::Error(text)).status == text,
        window.after(MessageView::Error(text)).current_task_id is None,
        window.after(MessageView::Error(text)).input_url == window.input_url,
        window.after(MessageView::Error(text)).stats == window.stats,
        address_in(MessageView::Error(text)) is None,
{
}

/// A file that was picked is put in as its link, and nothing else changes.
pub proof fn law_picked_file_is_put_in(window: PlayerView, path: Seq<char>, stats: StatsView)
    ensures
        window.after(MessageView::FileSelected(path)).input_url == "file://"@ + path,
        window.after(MessageView::FileSelected(path)).status == window.status,
        window.after(MessageView::FileSelected(path)).current_task_id == window.current_task_id,
        window.after(MessageView::FileSelected(path)).stats == window.stats,
        address_in(MessageView::FileSelected(path)) is None,
        window.after(MessageView::StatsUpdated(stats)).stats == stats,
        address_in(MessageView::StatsUpdated(stats)) is None,
{
}

/// The news of a link that is played tells what happened: the task that was added, the address and
/// the name of its main video, or the reason why there is none.
pub proof fn law_news_tell_what_happened(
    id: usize,
    reason: Seq<char>,
    file: FileView,
    url: Seq<char>,
    resolved: Result<Seq<char>, Seq<char>>,
)
    ensures
        added_news(Ok(id)) == MessageView::TaskAdded(id),
        added_news(Err(reason)) matches MessageView::Error(text) && reason.is_suffix_of(text),
        resolved_news(Some(file), Ok(url)) == MessageView::StreamUrlReady(url, file.name),
        resolved_news(Some(file), Err(reason)) matches MessageView::Error(text)
            && reason.is_suffix_of(text),
        resolved_news(None, resolved) is Error,
{
    let a = "❌ 任务添加失败: "@ + reason;
    let b = "⚠️ 无法获取流 URL: "@ + reason;
    assert(a.subrange(a.len() - reason.len(), a.len() as int) =~= reason);
    assert(b.subrange(b.len() - reason.len(), b.len() as int) =~= reason);
}

/// Of a link that is played to the end, the address that was found is played, and the window
/// follows the task that was added.
pub proof fn law_played_link_plays_its_main_video(
    window: PlayerView,
    id: usize,
    file: FileView,
    url: Seq<char>,
)
    ensures
        ({
            let news = news_of(Ok(id), Some(file), Ok(url));
            let shown = window.after_all(news);
            &&& news.len() == 2
            &&& address_in(news[0]) is None
            &&& address_in(news[1]) == Some(url)
            &&& shown.current_task_id == Some(id)
            &&& file.name.is_suffix_of(shown.status)
            &&& shown.input_url == window.input_url
            &&& shown.stats == window.stats
        }),
{
    let news = news_of(Ok(id), Some(file), Ok(url));
    reveal_with_fuel(PlayerView::after_all, 3);
    assert(news.drop_last() =~= seq![MessageView::TaskAdded(id)]);
    assert(news.drop_last().drop_last() =~= Seq::empty());
    let before = window.after(MessageView::TaskAdded(id));
    law_ready_address_is_played(before, url, file.name);
}

/// A text that was found, and the reason why none was, are told as they are.
pub proof fn law_answers_are_told_as_they_are(text: String, reason: String)
    ensures
        either_text(Ok(text)) == Ok::<Seq<char>, Seq<char>>(text@),
        either_text(Err(reason)) == Err::<Seq<char>, Seq<char>>(reason@),
{
}

/// A link is played without white space around it, and there is none to play exactly where nothing
/// but white space was put in.
pub proof fn law_link_is_played_without_space_around(window: PlayerView)
    ensures
        window.link_to_play() matches Some(link) ==> link.len() > 0 && !is_space(link[0])
            && !is_space(link.last()) && link == trimmed(window.input_url),
        window.link_to_play() is None <==> trimmed(window.input_url).len() == 0,
{
    law_trimmed_has_no_space_around(window.input_url);
}

/// Reports are asked for of the task that is followed, once more than a second has passed since the
/// last question.
pub proof fn law_reports_are_asked_for_every_second(window: PlayerView, elapsed_nanos: u128)
    ensures
        elapsed_nanos <= 1_000_000_000 ==> window.task_due(elapsed_nanos) is None,
        elapsed_nanos > 1_000_000_000 ==> window.task_due(elapsed_nanos) == window.current_task_id,
{
}

/// The labels show the report: first what has come, then all there is, each as people read sizes,
/// and the number of peers.
pub proof fn law_labels_show_the_report(window: PlayerView)
    ensures
        ({
            let text = window.downloaded_text();
            let done = readable(window.stats.downloaded_bytes);
            let all = readable(window.stats.total_bytes);
            let head = "已下载: "@.len() as int;
            &&& text.len() == head + done.len() + 3 + all.len()
            &&& text.subrange(head, head + done.len()) == done
            &&& text.skip(head + done.len() + 3) == all
            &&& parsed(window.peers_text().skip("连接数: "@.len() as int)) == Some(
                window.stats.peers_count as u64,
            )
        }),
{
    let text = window.downloaded_text();
    let done = readable(window.stats.downloaded_bytes);
    let all = readable(window.stats.total_bytes);
    let head = "已下载: "@.len() as int;
    reveal_strlit(" / ");
    assert(text.subrange(head, head + done.len()) =~= done);
    assert(text.skip(head + done.len() + 3) =~= all);
    assert(window.peers_text().skip("连接数: "@.len() as int) =~= decimal(
        window.stats.peers_count as nat,
    ));
    law_parse_of_decimal(window.stats.peers_count as u64);
}

/// A speed is shown as people read sizes, per second.
pub proof fn law_speed_is_shown_per_second(bytes_per_second: u64)
    ensures
        ({
            let text = speed_text(bytes_per_second);
            let size = readable(bytes_per_second);
            let head = "速度: "@.len() as int;
            &&& text.subrange(head, head + size.len()) == size
            &&& text.skip(head + size.len()) == "/s"@
        }),
{
    let text = speed_text(bytes_per_second);
    let size = readable(bytes_per_second);
    let head = "速度: "@.len() as int;
    assert(text.subrange(head, head + size.len()) =~= size);
    assert(text.skip(head + size.len()) =~= "/s"@);
}

} // verus!
