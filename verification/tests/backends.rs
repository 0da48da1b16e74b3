use magnet_player::local_file::{FilePlan, LocalError, LocalFileStreamer};
use magnet_player::manager::{ManagerError, StreamerManager, TaskError};
use magnet_player::media::{
    has_video_ending, is_video_file, main_video_file, progress, video_files, DownloadStats,
    FileInfo, Progress, Rate,
};
use magnet_player::meter::DownloadMeter;
use magnet_player::reply::Status;
use magnet_player::youtube::{VideoPlan, YouTubeError, YouTubeStreamer};

fn file(index: usize, size: u64, is_video: bool) -> FileInfo {
    FileInfo { index, name: format!("f{index}"), size, downloaded: 0, is_video }
}

#[test]
fn test_is_video_file() {
    assert!(is_video_file("test.mp4"));
    assert!(is_video_file("test.MKV"));
    assert!(is_video_file("test.avi"));
    assert!(!is_video_file("test.txt"));
}

#[test]
fn every_video_ending_counts() {
    for ending in [
        "mp4", "mkv", "avi", "mov", "wmv", "flv", "webm", "m4v", "mpg", "mpeg", "3gp", "ts", "m2ts",
    ] {
        assert!(is_video_file(&format!("电影.{ending}")));
        assert!(is_video_file(&format!("X.{}", ending.to_uppercase())));
        assert!(has_video_ending(&format!("x.{ending}")));
        assert!(!is_video_file(&format!("x.{ending}.part")));
        assert!(!is_video_file(&ending.replace('.', "")));
    }
    assert!(!has_video_ending("x.MP4"));
    for (a, b) in [("ΑΣ.mP4", "ΑΣ.Mp4"), ("ΣA.TS", "Σa.ts"), ("İ.tXt", "İ.TxT")] {
        assert_eq!(is_video_file(a), is_video_file(b));
        assert_eq!(a.to_lowercase(), b.to_lowercase());
    }
    assert!(is_video_file("ΑΣ.mP4"));
}

#[test]
fn main_video_is_the_last_of_the_largest() {
    let files = vec![
        file(0, 50, true),
        file(1, 900, false),
        file(2, 80, true),
        file(3, 80, true),
        file(4, 10, true),
    ];
    assert_eq!(main_video_file(&files).unwrap().index, 3);
    assert_eq!(main_video_file(&files[..3]).unwrap().index, 2);
    assert!(main_video_file(&files[1..2]).is_none());
    assert!(main_video_file(&[]).is_none());
    let videos: Vec<usize> = video_files(&files).iter().map(|f| f.index).collect();
    assert_eq!(videos, vec![0, 2, 3, 4]);
}

#[test]
fn blank_and_failed_reports() {
    let blank = DownloadStats::default();
    assert_eq!(blank.progress, Progress::Zero);
    assert_eq!(blank.download_speed, Rate::Zero);
    assert_eq!((blank.total_bytes, blank.peers_count, blank.is_finished), (0, 0, false));
    assert_eq!(blank.error, None);
    assert_eq!(DownloadStats::failed("x").error, Some("x".to_string()));
    assert_eq!(progress(5, 0), Progress::Zero);
    assert_eq!(progress(5, 10), Progress::Ratio { done: 5, total: 10 });
}

#[test]
fn first_backend_that_takes_a_link_gets_it() {
    let mut manager: StreamerManager<&'static str> = StreamerManager::new();
    manager.register_backend("magnet:");
    manager.register_backend("http:");
    manager.register_backend("http");
    let takes = |b: &&'static str, url: &str| url.starts_with(*b);
    assert_eq!(manager.select_backend("magnet:?x", takes).unwrap(), 0);
    assert_eq!(manager.select_backend("http://x", takes).unwrap(), 1);
    assert_eq!(manager.select_backend("https://x", takes).unwrap(), 2);
    assert_eq!(manager.backend(2), Some(&"http"));
    assert_eq!(manager.backend(3), None);
    let error = manager.select_backend("ftp://x", takes).unwrap_err();
    assert_eq!(error.message(), "No supported streamer backend for this URL");
}

#[test]
fn backends_behind_the_first_that_takes_a_link_are_not_asked() {
    let mut manager: StreamerManager<u8> = StreamerManager::new();
    for b in 0..4 {
        manager.register_backend(b);
    }
    let asked = std::cell::RefCell::new(Vec::new());
    let chosen = manager.select_backend("x", |b: &u8, _: &str| {
        asked.borrow_mut().push(*b);
        *b == 1
    });
    assert_eq!(chosen.unwrap(), 1);
    assert_eq!(*asked.borrow(), vec![0, 1]);
}

#[test]
fn tasks_are_found_until_they_are_removed() {
    let mut manager: StreamerManager<&'static str> = StreamerManager::new();
    manager.register_backend("a");
    manager.register_backend("b");
    let first = manager.add_task(1, 77);
    let second = manager.add_task(0, 77);
    assert_eq!((first, second), (1, 2));
    assert_eq!(manager.get_backend(first).unwrap(), (&"b", 77));
    assert_eq!(manager.get_backend(second).unwrap(), (&"a", 77));
    manager.remove(first, false);
    assert!(manager.get_backend(first).is_ok());
    manager.remove(first, true);
    assert_eq!(manager.get_backend(first).unwrap_err().message(), "无效的任务 ID: 1");
    assert!(manager.get_backend(second).is_ok());
    assert_eq!(manager.add_task(0, 5), 3);
}

#[test]
fn task_of_a_missing_backend_is_not_found() {
    let mut manager: StreamerManager<&'static str> = StreamerManager::new();
    let id = manager.add_task(0, 1);
    assert!(matches!(manager.get_backend(id), Err(ManagerError::InvalidTask(1))));
    manager.register_backend("a");
    assert!(manager.get_backend(id).is_ok());
}

#[test]
fn reports_and_files_come_from_the_backend() {
    let mut manager: StreamerManager<u64> = StreamerManager::new();
    manager.register_backend(1000);
    let id = manager.add_task(0, 9);
    let report = |b: &u64, task: usize| {
        Ok(DownloadStats { total_bytes: *b + task as u64, ..DownloadStats::default() })
    };
    assert_eq!(manager.get_stats(id, report).total_bytes, 1009);
    let lost = |_: &u64, _: usize| Err("Torrent not found".to_string());
    assert_eq!(manager.get_stats(id, lost).error, Some("Torrent not found".to_string()));
    assert_eq!(manager.get_stats(id, lost).total_bytes, 0);
    assert_eq!(manager.get_stats(99, report).error, Some("任务未找到".to_string()));

    let list = |_: &u64, task: usize| -> Result<Vec<FileInfo>, String> {
        Ok(vec![file(task, 1, true), file(3, 8, true)])
    };
    assert_eq!(manager.get_files(id, list).unwrap().len(), 2);
    assert_eq!(manager.get_main_video_file(id, list).unwrap().index, 3);
    assert!(matches!(
        manager.get_files(99, list),
        Err(TaskError::Manager(ManagerError::InvalidTask(99)))
    ));
    assert!(matches!(manager.get_main_video_file(99, list), Err(TaskError::Manager(_))));

    let none = |_: &u64, _: usize| -> Result<Vec<FileInfo>, String> { Ok(vec![file(0, 1, false)]) };
    assert!(matches!(manager.get_main_video_file(id, none), Err(TaskError::NoVideo)));
    let broken = |_: &u64, _: usize| -> Result<Vec<FileInfo>, String> { Err("gone".to_string()) };
    assert!(matches!(manager.get_files(id, broken), Err(TaskError::Backend(e)) if e == "gone"));
    assert!(matches!(
        manager.get_main_video_file(id, broken),
        Err(TaskError::Backend(e)) if e == "gone"
    ));
    let message = |e: TaskError<String>| e.message();
    assert_eq!(manager.get_files(id, broken).map_err(message).unwrap_err(), "gone");
    assert_eq!(manager.get_files(99, list).map_err(message).unwrap_err(), "无效的任务 ID: 99");
    assert_eq!(
        manager.get_main_video_file(id, none).map_err(message).unwrap_err(),
        "No video file found"
    );
}

#[test]
fn questions_reach_the_backend() {
    let mut manager: StreamerManager<&'static str> = StreamerManager::new();
    manager.register_backend("a");
    manager.register_backend("b");
    manager.add_task(0, 5);
    let id = manager.add_task(1, 6);
    let url = manager.get_stream_url(id, 3, |b: &&'static str, task: usize, file: usize| {
        format!("{b}/{task}/{file}")
    });
    assert_eq!(url.unwrap(), "b/6/3");
    assert_eq!(manager.pause(id, |b: &&'static str, task: usize| (*b, task)).unwrap(), ("b", 6));
    assert_eq!(manager.resume(1, |b: &&'static str, task: usize| (*b, task)).unwrap(), ("a", 5));
    let none = |_: &&'static str, _: usize| panic!("asked");
    assert!(matches!(manager.pause(9, none), Err(ManagerError::InvalidTask(9))));
    assert!(matches!(manager.resume(9, none), Err(ManagerError::InvalidTask(9))));
    let url = manager.get_stream_url(9, 0, |_: &&'static str, _: usize, _: usize| 0);
    assert!(matches!(url, Err(ManagerError::InvalidTask(9))));
}

#[test]
fn failed_addition_leaves_no_trace() {
    let mut manager: StreamerManager<&'static str> = StreamerManager::new();
    manager.register_backend("a");
    manager.register_backend("b");
    assert_eq!(manager.record(0, Ok::<usize, String>(5)), Ok(1));
    assert_eq!(manager.record(1, Err("refused".to_string())), Err("refused".to_string()));
    assert_eq!(manager.get_backend(1).unwrap(), (&"a", 5));
    assert!(matches!(manager.get_backend(2), Err(ManagerError::InvalidTask(2))));
    assert_eq!(manager.record(1, Ok::<usize, String>(6)), Ok(2));
    assert_eq!(manager.get_backend(2).unwrap(), (&"b", 6));
}

#[test]
fn wish_to_delete_files_reaches_the_backend() {
    let mut manager: StreamerManager<&'static str> = StreamerManager::new();
    manager.register_backend("a");
    manager.register_backend("b");
    let id = manager.add_task(1, 6);
    for delete_files in [true, false] {
        let asked = manager.ask_removal(id, delete_files, |b: &&'static str, task: usize, d: bool| {
            (*b, task, d)
        });
        assert_eq!(asked.unwrap(), ("b", 6, delete_files));
    }
    assert!(manager.get_backend(id).is_ok());
    let asked = manager.ask_removal(9, true, |_: &&'static str, _: usize, _: bool| -> u8 {
        panic!("asked")
    });
    assert!(matches!(asked, Err(ManagerError::InvalidTask(9))));
}

#[test]
fn youtube_links_and_names() {
    assert!(YouTubeStreamer::supports("https://www.youtube.com/watch?v=1"));
    assert!(YouTubeStreamer::supports("https://youtu.be/1"));
    assert!(!YouTubeStreamer::supports("https://example.com"));
    assert_eq!(YouTubeStreamer::file_name_for("A/B: \"C\"?"), "A_B_ _C__.mp4");
}

#[test]
fn youtube_task_from_start_to_end() {
    let mut youtube = YouTubeStreamer::new();
    assert_eq!(youtube.get_stream_url(1, 0), Err(YouTubeError::NotStarted));
    youtube.set_server_port(4000);
    let id = youtube.add_task("https://youtu.be/1", "T", "https://cdn/1", Some("1000"));
    assert_eq!(id, 1);
    assert_eq!(youtube.get_stream_url(id, 0).unwrap(), "http://127.0.0.1:4000/stream/1/0");

    let stats = youtube.get_stats(id).unwrap();
    assert_eq!(stats.progress, Progress::Ratio { done: 0, total: 1000 });
    assert_eq!((stats.peers_count, stats.is_finished), (1, false));

    let rate = Rate::Measured { bytes: 400, nanos: 1_000_000_000 };
    youtube.report(id, 400, rate);
    let stats = youtube.get_stats(id).unwrap();
    assert_eq!((stats.downloaded_bytes, stats.download_speed), (400, rate));
    let files = youtube.get_files(id).unwrap();
    assert_eq!(files.len(), 1);
    assert_eq!((files[0].name.as_str(), files[0].size, files[0].downloaded), ("T.mp4", 1000, 400));
    assert!(files[0].is_video);

    youtube.finish(id, 1000);
    let stats = youtube.get_stats(id).unwrap();
    assert_eq!(stats.progress, Progress::Ratio { done: 1000, total: 1000 });
    assert_eq!((stats.download_speed, stats.is_finished), (Rate::Zero, true));
    assert_eq!(stats.error, None);

    assert_eq!(youtube.remove(id, true), Some("T.mp4".to_string()));
    assert_eq!(youtube.remove(id, true), None);
    youtube.report(id, 77, rate);
    youtube.finish(id, 88);
    assert_eq!(youtube.get_files(id).unwrap_err(), YouTubeError::TaskNotFound);
    assert_eq!(youtube.get_stats(id).unwrap_err(), YouTubeError::TaskNotFound);
    assert_eq!(youtube.add_task("u", "t", "d", None), 2);
    assert_eq!(youtube.remove(2, false), None);
}

#[test]
fn youtube_failure_keeps_what_has_come() {
    let mut youtube = YouTubeStreamer::new();
    let id = youtube.add_task("u", "t", "d", Some("not a number"));
    youtube.report(id, 30, Rate::Zero);
    youtube.fail(id, "Failed to read chunk");
    let stats = youtube.get_stats(id).unwrap();
    assert_eq!(stats.error, Some("Failed to read chunk".to_string()));
    assert_eq!((stats.downloaded_bytes, stats.total_bytes, stats.is_finished), (30, 0, true));
    assert_eq!(stats.progress, Progress::Zero);
    youtube.fail(99, "nothing");
    assert_eq!(youtube.get_stats(99).unwrap_err(), YouTubeError::TaskNotFound);
    assert_eq!(youtube.pause(id).unwrap_err().message(), "Pause not supported for HTTP streams yet");
    assert_eq!(
        youtube.resume(id).unwrap_err().message(),
        "Resume not supported for HTTP streams yet"
    );
    assert_eq!(YouTubeError::TaskNotFound.message(), "Task not found");
    assert_eq!(YouTubeError::NotStarted.message(), "HTTP server not started");
}

#[test]
fn youtube_serves_what_is_there_and_asks_for_the_rest() {
    let mut youtube = YouTubeStreamer::new();
    let id = youtube.add_task("https://youtu.be/1", "T", "https://cdn/1", Some("1000"));
    youtube.report(id, 400, Rate::Zero);
    assert!(matches!(youtube.serve(9, None), VideoPlan::NotFound));
    assert_eq!(youtube.serve(9, None).status(true), Status::NotFound);
    assert_eq!(youtube.serve(id, None).status(true), Status::Part);
    assert_eq!(youtube.serve(id, Some(b"bytes=900-")).status(false), Status::Failed);
    match youtube.serve(id, Some(b"bytes=100-")) {
        VideoPlan::Local { file_name, start, length, headers } => {
            assert_eq!((file_name.as_str(), start, length), ("T.mp4", 100, 300));
            assert_eq!(headers.content_range, Some("bytes 100-399/1000".to_string()));
            assert_eq!(headers.content_length, "300");
            assert_eq!(headers.content_type, "application/octet-stream");
        }
        other => panic!("{other:?}"),
    }
    match youtube.serve(id, Some(b"bytes=400-499")) {
        VideoPlan::Remote { download_url, range, headers } => {
            assert_eq!((download_url.as_str(), range.as_str()), ("https://cdn/1", "bytes=400-499"));
            assert_eq!(headers.content_range, Some("bytes 400-499/1000".to_string()));
            assert_eq!(headers.content_length, "100");
        }
        other => panic!("{other:?}"),
    }
    match youtube.serve(id, Some(b"bytes=300-200")) {
        VideoPlan::Local { start, length, .. } => assert_eq!((start, length), (300, 1)),
        other => panic!("{other:?}"),
    }
    match youtube.serve(id, Some(b"bytes=\xff-1")) {
        VideoPlan::Local { start, length, .. } => assert_eq!((start, length), (0, 400)),
        other => panic!("{other:?}"),
    }
    youtube.finish(id, 1000);
    match youtube.serve(id, Some(b"bytes=990-2000")) {
        VideoPlan::Local { start, length, .. } => assert_eq!((start, length), (990, 10)),
        other => panic!("{other:?}"),
    }
}

#[test]
fn local_links_and_paths() {
    assert!(LocalFileStreamer::supports("file:///tmp/a.mp4", false));
    assert!(LocalFileStreamer::supports("/tmp/a.mp4", true));
    assert!(!LocalFileStreamer::supports("/tmp/a.mp4", false));
    assert_eq!(LocalFileStreamer::path_of("file:///tmp/a.mp4"), "/tmp/a.mp4");
    assert_eq!(LocalFileStreamer::path_of("/tmp/a.mp4"), "/tmp/a.mp4");
}

#[test]
fn local_names_are_last_steps() {
    assert_eq!(LocalFileStreamer::name_of("/v/电影 1.mp4"), "电影 1.mp4");
    for path in [
        "", "/", ".", "..", "a", "a/", "a//", "a/.", "a/./", "a/..", "a/../", "./a", "../a", "/..", "/.",
        "//a//b", "a/b/...", "/x/y.mp4/.", "./", "././.", "..a", "a.", "a b/c:d\\e",
    ] {
        let name = std::path::Path::new(path).file_name().unwrap_or_default();
        assert_eq!(LocalFileStreamer::name_of(path), name.to_string_lossy(), "{path}");
    }
}

#[test]
fn local_task_from_start_to_end() {
    let mut local = LocalFileStreamer::new();
    local.set_server_port(5000);
    assert_eq!(local.add_task("file:///gone", None), Err(LocalError::Missing));
    let id = local.add_task("file:///tmp/a.mp4", Some(500)).unwrap();
    assert_eq!(id, 1);
    assert_eq!(local.get_stream_url(id, 0), "http://127.0.0.1:5000/stream/1/0");
    let stats = local.get_stats(id).unwrap();
    assert_eq!((stats.progress, stats.downloaded_bytes), (Progress::Complete, 500));
    assert!(stats.is_finished);
    let files = local.get_files(id).unwrap();
    assert_eq!((files[0].name.as_str(), files[0].downloaded), ("a.mp4", 500));
    match local.serve(id, None) {
        FilePlan::Part { file_path, start, length, headers } => {
            assert_eq!((file_path.as_str(), start, length), ("/tmp/a.mp4", 0, 500));
            assert_eq!(headers.content_range, Some("bytes 0-499/500".to_string()));
            assert_eq!(headers.content_type, "video/mp4");
        }
        other => panic!("{other:?}"),
    }
    match local.serve(id, Some(b"bytes=490-")) {
        FilePlan::Part { start, length, .. } => assert_eq!((start, length), (490, 10)),
        other => panic!("{other:?}"),
    }
    assert_eq!(local.serve(id, None).status(true), Status::Part);
    assert_eq!(local.serve(id, None).status(false), Status::Failed);
    local.remove(id);
    assert_eq!(local.serve(id, None).status(true), Status::NotFound);
    assert!(matches!(local.serve(id, None), FilePlan::NotFound));
    assert_eq!(local.get_files(id).unwrap_err(), LocalError::TaskNotFound);
    assert_eq!(local.get_stats(id).unwrap_err(), LocalError::TaskNotFound);
    assert_eq!(LocalError::Missing.message(), "Local file does not exist");
    assert_eq!(LocalError::TaskNotFound.message(), "Task not found");
}

#[test]
fn local_empty_file_is_served_as_one_byte() {
    let mut local = LocalFileStreamer::new();
    let id = local.add_task("/tmp/e", Some(0)).unwrap();
    match local.serve(id, Some(b"bytes=0-")) {
        FilePlan::Part { start, length, headers, .. } => {
            assert_eq!((start, length), (0, 1));
            assert_eq!(headers.content_range, Some("bytes 0-0/0".to_string()));
        }
        other => panic!("{other:?}"),
    }
}

#[test]
fn meter_reports_once_a_second() {
    let mut meter = DownloadMeter::new();
    assert_eq!(meter.count(100, 400_000_000), None);
    assert_eq!(meter.count(50, 999_999_999), None);
    assert_eq!(
        meter.count(10, 1_000_000_000),
        Some(Rate::Measured { bytes: 160, nanos: 1_000_000_000 })
    );
    assert_eq!((meter.downloaded, meter.pending), (160, 0));
    assert_eq!(meter.count(5, 1), None);
    assert_eq!((meter.downloaded, meter.pending), (165, 5));
    assert_eq!(
        meter.count(0, 2_000_000_000),
        Some(Rate::Measured { bytes: 5, nanos: 2_000_000_000 })
    );
}

#[test]
fn download_shows_what_came() {
    let mut youtube = YouTubeStreamer::new();
    let id = youtube.add_task("u", "t", "d", Some("100"));
    let mut meter = DownloadMeter::new();
    let mut came = 0;
    for (length, elapsed) in [(10, 1), (20, 1_500_000_000), (5, 7), (25, 1_000_000_000), (40, 3)] {
        came += length;
        if let Some(rate) = meter.count(length, elapsed) {
            youtube.report(id, meter.downloaded, rate);
        }
        assert_eq!(youtube.get_stats(id).unwrap().downloaded_bytes + meter.pending, came);
        assert!(!youtube.get_stats(id).unwrap().is_finished);
    }
    assert_eq!(youtube.get_stats(id).unwrap().downloaded_bytes, 60);
    assert_eq!(
        youtube.get_stats(id).unwrap().download_speed,
        Rate::Measured { bytes: 30, nanos: 1_000_000_000 }
    );
    youtube.finish(id, meter.downloaded);
    assert_eq!(youtube.get_stats(id).unwrap().downloaded_bytes, 100);
    assert!(youtube.get_stats(id).unwrap().is_finished);
}

#[test]
fn task_numbers_differ() {
    let mut manager: StreamerManager<u8> = StreamerManager::new();
    manager.register_backend(0);
    let mut seen = std::collections::HashSet::new();
    for round in 0..100 {
        let id = manager.add_task(0, 0);
        assert!(seen.insert(id));
        if round % 3 == 0 {
            manager.remove(id, true);
        }
    }
    let mut local = LocalFileStreamer::new();
    let first = local.add_task("/a", Some(1)).unwrap();
    local.remove(first);
    assert_ne!(local.add_task("/a", Some(1)).unwrap(), first);
}
