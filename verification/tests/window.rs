use magnet_player::local_file::LocalFileStreamer;
use magnet_player::media::{DownloadStats, FileInfo};
use magnet_player::player::{
    after_adding, after_choosing, after_resolving, speed_label, toggle_label, AppMessage,
    PlayerState,
};

fn video() -> FileInfo {
    FileInfo { index: 3, name: "e1.mkv".to_string(), size: 9, downloaded: 0, is_video: true }
}

#[test]
fn window_starts_ready() {
    let state = PlayerState::new();
    assert_eq!((state.input_url.as_str(), state.status.as_str()), ("", "准备就绪"));
    assert_eq!(state.current_task_id, None);
}

#[test]
fn playing_needs_a_link() {
    let mut state = PlayerState::new();
    state.input_url = " \n".to_string();
    assert_eq!(state.start_playback(), None);
    assert_eq!(state.status, "❌ 请输入有效的链接");
    state.input_url = "  magnet:?x ".to_string();
    assert_eq!(state.start_playback(), Some("magnet:?x".to_string()));
    assert_eq!(state.status, "🚀 正在初始化...");
    assert_eq!(state.input_url, "  magnet:?x ");
}

#[test]
fn playing_a_link_to_the_end() {
    let mut state = PlayerState::new();
    let (news, task) = after_adding(Ok(7));
    assert_eq!(task, Some(7));
    assert_eq!(state.handle(news), None);
    assert_eq!(state.current_task_id, Some(7));
    assert_eq!(state.status, "✅ 任务添加成功, 获取流地址...");
    assert_eq!(after_choosing(Some(&video())).unwrap(), 3);
    let news = after_resolving(video(), Ok("http://x".to_string()));
    assert_eq!(state.handle(news), Some("http://x".to_string()));
    assert_eq!(state.status, "🎬 正在播放: e1.mkv");
    assert_eq!(state.current_task_id, Some(7));
}

#[test]
fn playing_a_link_can_fail_at_every_step() {
    let mut state = PlayerState::new();
    let (news, task) = after_adding(Err("no".to_string()));
    assert_eq!(task, None);
    assert_eq!(state.handle(news), None);
    assert_eq!(state.status, "❌ 任务添加失败: no");

    state.handle(AppMessage::TaskAdded(1));
    let news = after_choosing(None).unwrap_err();
    state.handle(news);
    assert_eq!((state.status.as_str(), state.current_task_id), ("⚠️ 未找到视频文件", None));

    state.handle(AppMessage::TaskAdded(1));
    state.handle(after_resolving(video(), Err("no port".to_string())));
    assert_eq!(state.status, "⚠️ 无法获取流 URL: no port");
    assert_eq!(state.current_task_id, None);

    state.audio_failed("a");
    assert_eq!(state.status, "❌ 音频初始化失败: a");
    state.player_failed("p");
    assert_eq!(state.status, "❌ 播放器初始化失败: p");
}

#[test]
fn picked_file_is_the_one_played() {
    let mut state = PlayerState::new();
    assert_eq!(state.handle(AppMessage::FileSelected("/v/a b.mp4".to_string())), None);
    assert_eq!(state.input_url, "file:///v/a b.mp4");
    let url = state.start_playback().unwrap();
    assert_eq!(LocalFileStreamer::path_of(&url), "/v/a b.mp4");
}

#[test]
fn reports_are_asked_for_once_a_second() {
    let mut state = PlayerState::new();
    assert_eq!(state.task_to_poll(u128::MAX), None);
    state.handle(AppMessage::TaskAdded(4));
    assert_eq!(state.task_to_poll(1_000_000_000), None);
    assert_eq!(state.task_to_poll(1_000_000_001), Some(4));
}

#[test]
fn labels() {
    let mut state = PlayerState::new();
    let stats = DownloadStats {
        downloaded_bytes: 1536,
        total_bytes: 1 << 20,
        peers_count: 12,
        ..DownloadStats::default()
    };
    assert_eq!(state.handle(AppMessage::StatsUpdated(stats)), None);
    assert_eq!(state.downloaded_label(), "已下载: 1.50 KB / 1.00 MB");
    assert_eq!(state.peers_label(), "连接数: 12");
    assert_eq!(speed_label(0), "速度: 0 B/s");
    assert_eq!(toggle_label(true), "⏸ 暂停");
    assert_eq!(toggle_label(false), "▶ 继续");
}
