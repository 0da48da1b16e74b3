use magnet_player::downloader::{accepted, can_start, DownloadEvent, DownloadState};
use magnet_player::magnet::{
    add_default_trackers, complete_magnet, panics_on, MagnetError,
};
use magnet_player::media::{Progress, Rate};
use magnet_player::reply::Status;
use magnet_player::torrent::{
    file_entry, AddOutcome, LiveTransfer, StreamPlan, Torrent, TorrentError, TorrentFile,
    TorrentMetadata, TorrentStreamer,
};

const HASH: &str = "a621779b5e3d486e127c3efbca9b6f8d135f52e5";

const TRACKERS: [&str; 7] = [
    "udp://tracker.opentrackr.org:1337/announce",
    "udp://open.demonii.com:1337/announce",
    "udp://tracker.openbittorrent.com:80/announce",
    "udp://exodus.desync.com:6969/announce",
    "udp://tracker.torrent.eu.org:451/announce",
    "udp://9.rarbg.com:2810/announce",
    "udp://tracker.dler.org:6969/announce",
];

fn bytes(steps: &[&str]) -> Vec<Vec<u8>> {
    steps.iter().map(|s| s.as_bytes().to_vec()).collect()
}

fn torrent(metadata: Option<TorrentMetadata>) -> Torrent {
    Torrent {
        name: Some("Show".to_string()),
        progress_bytes: 30,
        total_bytes: 120,
        finished: false,
        error: None,
        file_progress: vec![10, 20],
        live: None,
        metadata,
    }
}

fn show() -> Torrent {
    torrent(Some(TorrentMetadata {
        files: Some(vec![
            TorrentFile { path: bytes(&["a.txt"]), length: 90 },
            TorrentFile { path: bytes(&["season", "e1.mkv"]), length: 20 },
            TorrentFile { path: bytes(&["season", "e2.MKV"]), length: 20 },
        ]),
        name: Some(b"Show".to_vec()),
        length: None,
    }))
}

fn single(name: Option<Vec<u8>>, length: Option<u64>) -> Torrent {
    torrent(Some(TorrentMetadata { files: None, name, length }))
}

#[test]
fn magnet_links_get_the_default_trackers() {
    let link = complete_magnet(&format!("magnet:?xt=urn:btih:{HASH}")).unwrap();
    let mut wanted = format!("magnet:?xt=urn:btih:{HASH}");
    for tracker in TRACKERS {
        wanted.push_str(&format!("&tr={tracker}"));
    }
    assert_eq!(link, wanted);
}

#[test]
fn magnet_links_keep_their_trackers_and_selection() {
    let url = format!(
        "magnet:?xt=urn:btih:{HASH}&dn=Name&tr=udp%3A%2F%2Fmine%3A1&tr={}&so=1,3-4",
        TRACKERS[0]
    );
    let link = TorrentStreamer::add_magnet(&url).unwrap();
    assert!(link.starts_with(&format!(
        "magnet:?xt=urn:btih:{HASH}&tr=udp://mine:1&tr={}&tr={}",
        TRACKERS[0], TRACKERS[1]
    )));
    assert!(link.ends_with("&so=1,3,4"));
    assert_eq!(link.matches(TRACKERS[0]).count(), 1);
    assert_eq!(link.matches("&tr=").count(), 8);
}

#[test]
fn magnet_link_that_is_complete_stays() {
    let once = complete_magnet(&format!("magnet:?xt=urn:btih:{HASH}")).unwrap();
    assert_eq!(complete_magnet(&once).unwrap(), once);
}

#[test]
fn other_links_are_turned_down() {
    let error = complete_magnet("https://example.com").unwrap_err();
    assert!(matches!(error, MagnetError::Format));
    assert_eq!(error.message(), "Invalid magnet link format");
    let error = complete_magnet("magnet:?dn=nothing").unwrap_err();
    assert_eq!(error.message(), "Invalid magnet link: did not find infohash");
    let error = complete_magnet("magnet:?xt=urn:btih:zz").unwrap_err();
    assert!(matches!(error, MagnetError::Invalid(_)));
}

#[test]
fn default_trackers_are_not_doubled() {
    let all = add_default_trackers(vec!["udp://mine:1".to_string(), TRACKERS[6].to_string()]);
    assert_eq!(all.len(), 8);
    assert_eq!(all[0], "udp://mine:1");
    assert_eq!(all[1], TRACKERS[6]);
    assert_eq!(all[2], TRACKERS[0]);
    assert_eq!(add_default_trackers(all.clone()), all);
    assert_eq!(add_default_trackers(vec![]), TRACKERS.map(|t| t.to_string()).to_vec());
}

#[test]
fn names_on_which_parsing_panics_are_told_apart() {
    let short = |name: &str| format!("magnet:?xt=urn:btih:{name}");
    assert!(!panics_on(&short(HASH)));
    assert!(!panics_on(&short(&"A".repeat(32))));
    assert!(complete_magnet(&short(&"A".repeat(32))).is_ok());
    for name in [
        format!("{}======", "A".repeat(26)),
        format!("{}=", "A".repeat(31)),
        format!("AA======{}", "A".repeat(24)),
        format!("{}AE======", "A".repeat(24)),
        "AAAAAAA=".repeat(4),
    ] {
        assert!(panics_on(&short(&name)), "{name}");
    }
    assert!(panics_on(&format!("magnet:?xt=urn%3Abtih%3A{}%3D", "A".repeat(31))));
    for name in [
        format!("{}==A", "A".repeat(29)),
        format!("{}==", "A".repeat(30)),
        format!("{}AB======", "A".repeat(24)),
        format!("{}=", "a".repeat(31)),
        "=".repeat(32),
        format!("{}=", "A".repeat(30)),
        "é".repeat(16),
        "g".repeat(40),
    ] {
        assert!(!panics_on(&short(&name)), "{name}");
        assert!(matches!(complete_magnet(&short(&name)), Err(MagnetError::Invalid(_))), "{name}");
    }

    let long = |name: &str| format!("magnet:?xt=urn:btmh:1220{name}");
    assert!(panics_on(&long(&"A".repeat(56))));
    assert!(!panics_on(&long(&"a".repeat(56))));
    for name in [
        format!("{}====", "A".repeat(52)),
        format!("AAAA===={}", "A".repeat(48)),
        format!("{}AAAA===={}", "A".repeat(16), "A".repeat(32)),
        "0f".repeat(32),
    ] {
        assert!(!panics_on(&long(&name)), "{name}");
        assert!(complete_magnet(&long(&name)).is_ok(), "{name}");
    }
}

#[test]
fn selections_on_which_parsing_panics_are_told_apart() {
    let link = |so: &str| format!("magnet:?xt=urn:btih:{HASH}&so={so}");
    let most = isize::MAX as usize / (usize::BITS as usize / 8);
    assert!(!panics_on("https://example.com/?so=0-18446744073709551615"));
    assert!(!panics_on(&link("0,5-9,x-y,9-2,-5,5-")));
    assert!(panics_on(&link("0-18446744073709551615")));
    assert!(!panics_on(&link(&format!("1-{most}"))));
    assert!(panics_on(&link(&format!("0-{most}"))));
    assert!(panics_on(&link(&format!("1-{most},7"))));
    assert!(panics_on(&format!("{}&so=7", link(&format!("1-{most}")))));
    assert!(panics_on(&format!("magnet:?xt=urn:btih:{HASH}&%73%6F=7,0%2D18446744073709551615")));
    assert!(panics_on(&format!("magnet:?xt=urn:btih:{HASH}&s\to=0-18446744073709551615 \n")));
    assert!(!panics_on(&format!("magnet:?xt=urn:btih:{HASH}#&so=0-18446744073709551615")));
    assert!(!panics_on(&format!("magnet:?xt=urn:btih:{HASH}&dn=so=0-18446744073709551615")));
}

#[test]
fn parsing_stops_at_the_first_refusal() {
    for first in ["xt=urn:sha1:x", "xt=urn:btih:zz", "xt", "xt=urn:btih:%3D"] {
        let link = format!("magnet:?{first}&so=0-18446744073709551615&xt=urn:btih:{}=", "A".repeat(31));
        assert!(!panics_on(&link), "{link}");
        assert!(matches!(complete_magnet(&link), Err(MagnetError::Invalid(_))), "{link}");
    }
    let link = format!("magnet:?dn=x&&tr=y&xt=urn:btih:{HASH}&xt=urn:btih:{}=", "A".repeat(31));
    assert!(panics_on(&link));
}

#[test]
fn session_answers() {
    assert_eq!(TorrentStreamer::added(Some(AddOutcome::Added(4))), Ok(4));
    assert_eq!(TorrentStreamer::added(Some(AddOutcome::AlreadyManaged(5))), Ok(5));
    let error = TorrentStreamer::added(Some(AddOutcome::ListOnly)).unwrap_err();
    assert_eq!(error.message(), "List-only mode not supported");
    let error = TorrentStreamer::added(None).unwrap_err();
    assert_eq!(error.message(), "Failed to add torrent");
    assert_eq!(TorrentStreamer::pause(Some(true)), Ok(()));
    assert_eq!(TorrentStreamer::pause(None), Err(TorrentError::NotFound));
    let error = TorrentStreamer::pause(Some(false)).unwrap_err();
    assert_eq!(error.message(), "Failed to pause download");
    assert_eq!(TorrentStreamer::resume(Some(true)), Ok(()));
    assert_eq!(TorrentStreamer::resume(None), Err(TorrentError::NotFound));
    let error = TorrentStreamer::resume(Some(false)).unwrap_err();
    assert_eq!(error.message(), "Failed to resume download");
    assert_eq!(TorrentStreamer::remove(true), Ok(()));
    let error = TorrentStreamer::remove(false).unwrap_err();
    assert_eq!(error.message(), "Failed to delete torrent");
    assert!(TorrentStreamer::supports("magnet:?xt=1"));
    assert!(!TorrentStreamer::supports("http://x/magnet:?"));
}

#[test]
fn files_of_a_torrent() {
    let files = TorrentStreamer::get_files(Some(&show())).unwrap();
    let names: Vec<&str> = files.iter().map(|f| f.name.as_str()).collect();
    assert_eq!(names, vec!["a.txt", "season/e1.mkv", "season/e2.MKV"]);
    let indices: Vec<usize> = files.iter().map(|f| f.index).collect();
    assert_eq!(indices, vec![0, 1, 2]);
    let downloaded: Vec<u64> = files.iter().map(|f| f.downloaded).collect();
    assert_eq!(downloaded, vec![10, 20, 0]);
    let videos: Vec<bool> = files.iter().map(|f| f.is_video).collect();
    assert_eq!(videos, vec![false, true, true]);
    assert_eq!(TorrentStreamer::get_video_files(Some(&show())).unwrap().len(), 2);
    assert_eq!(TorrentStreamer::get_main_video_file(Some(&show())).unwrap().index, 2);
}

#[test]
fn file_of_a_single_file_torrent() {
    let files = TorrentStreamer::get_files(Some(&single(Some(b"m.mp4".to_vec()), Some(7)))).unwrap();
    assert_eq!(files.len(), 1);
    assert_eq!((files[0].name.as_str(), files[0].size, files[0].downloaded), ("m.mp4", 7, 30));
    assert!(files[0].is_video);
    let files = TorrentStreamer::get_files(Some(&single(None, None))).unwrap();
    assert_eq!((files[0].name.as_str(), files[0].size), ("unknown", 0));
    let files = TorrentStreamer::get_files(Some(&single(Some(vec![b'a', 0xff]), None))).unwrap();
    assert_eq!(files[0].name, "a\u{fffd}");
    let entry = file_entry(3, "x.ts".to_string(), 5, 4);
    assert_eq!((entry.index, entry.size, entry.downloaded, entry.is_video), (3, 5, 4, true));
}

#[test]
fn paths_below_the_download_directory() {
    let path = TorrentStreamer::get_file_path(Some(&show()), 1).unwrap();
    assert_eq!(path, vec!["Show", "season/e1.mkv"]);
    let path = TorrentStreamer::get_file_path(Some(&single(Some(b"m.mp4".to_vec()), None)), 0);
    assert_eq!(path.unwrap(), vec!["Show"]);
    let mut nameless = show();
    nameless.name = None;
    assert_eq!(TorrentStreamer::get_file_path(Some(&nameless), 0).unwrap(), vec!["", "a.txt"]);
    assert_eq!(TorrentStreamer::get_file_path(Some(&show()), 3), Err(TorrentError::BadIndex));
    assert_eq!(TorrentStreamer::locate(Some(&show()), 3), Err(Status::NotFound));
    assert_eq!(TorrentStreamer::locate(None, 0), Err(Status::NotFound));
    assert_eq!(TorrentStreamer::locate(Some(&show()), 0).unwrap(), vec!["Show", "a.txt"]);
}

#[test]
fn torrents_that_cannot_answer() {
    assert_eq!(TorrentStreamer::get_files(None).unwrap_err(), TorrentError::NotFound);
    let bare = torrent(None);
    assert_eq!(TorrentStreamer::get_files(Some(&bare)).unwrap_err(), TorrentError::NoMetadata);
    assert_eq!(TorrentStreamer::get_video_files(None).unwrap_err(), TorrentError::NotFound);
    let text = single(Some(b"a.txt".to_vec()), None);
    assert_eq!(
        TorrentStreamer::get_main_video_file(Some(&text)).unwrap_err(),
        TorrentError::NoVideo
    );
    assert_eq!(TorrentError::NotFound.message(), "Torrent not found");
    assert_eq!(TorrentError::NoMetadata.message(), "Failed to get metadata");
    assert_eq!(TorrentError::BadIndex.message(), "Invalid file index");
    assert_eq!(TorrentError::NoVideo.message(), "No video file found");
    assert_eq!(TorrentError::NotStarted.message(), "HTTP server not started");
}

#[test]
fn torrent_addresses() {
    let mut streamer = TorrentStreamer::new();
    assert_eq!(streamer.get_stream_url(Some(&show()), 4, 1), Err(TorrentError::NotStarted));
    streamer.set_server_port(7000);
    assert_eq!(
        streamer.get_stream_url(Some(&show()), 4, 1).unwrap(),
        "http://127.0.0.1:7000/stream/4/1"
    );
    assert_eq!(streamer.get_stream_url(Some(&show()), 4, 9), Err(TorrentError::BadIndex));
    assert_eq!(streamer.get_stream_url(None, 4, 9), Err(TorrentError::NotFound));
}

#[test]
fn torrent_reports() {
    assert_eq!(TorrentStreamer::get_stats(None).unwrap_err(), TorrentError::NotFound);
    let mut t = show();
    let stats = TorrentStreamer::get_stats(Some(&t)).unwrap();
    assert_eq!(stats.progress, Progress::Ratio { done: 30, total: 120 });
    assert_eq!((stats.download_speed, stats.peers_count), (Rate::Zero, 0));
    t.live = Some(LiveTransfer { download_mbps_bits: 1, upload_mbps_bits: 2, peers: 6 });
    t.error = Some("disk".to_string());
    t.finished = true;
    t.total_bytes = 0;
    let stats = TorrentStreamer::get_stats(Some(&t)).unwrap();
    assert_eq!(stats.progress, Progress::Zero);
    assert_eq!(stats.download_speed, Rate::Reported { mbps_bits: 1 });
    assert_eq!(stats.upload_speed, Rate::Reported { mbps_bits: 2 });
    assert_eq!((stats.peers_count, stats.is_finished), (6, true));
    assert_eq!(stats.error, Some("disk".to_string()));
}

#[test]
fn torrent_files_are_served() {
    assert_eq!(TorrentStreamer::examined(false, Some(1)), Err(Status::NotFound));
    assert_eq!(TorrentStreamer::examined(true, None), Err(Status::Failed));
    assert_eq!(TorrentStreamer::examined(true, Some(9)), Ok(9));
    match TorrentStreamer::plan_stream("/d/m.mp4", 1000, None) {
        StreamPlan::Whole(headers) => {
            assert_eq!(headers.content_length, "1000");
            assert_eq!(headers.content_type, "video/mp4");
            assert_eq!(headers.content_range, None);
        }
        other => panic!("{other:?}"),
    }
    match TorrentStreamer::plan_stream("/d/m.mkv", 1000, Some(b"bytes=10-19")) {
        StreamPlan::Part { start, length, headers } => {
            assert_eq!((start, length), (10, 10));
            assert_eq!(headers.content_range, Some("bytes 10-19/1000".to_string()));
            assert_eq!(headers.content_type, "video/x-matroska");
        }
        other => panic!("{other:?}"),
    }
    assert!(matches!(
        TorrentStreamer::plan_stream("/d/m", 1000, Some(b"bytes=\xff")),
        StreamPlan::Refused(Status::BadRequest)
    ));
    assert!(matches!(
        TorrentStreamer::plan_stream("/d/m", 0, Some(b"bytes=5")),
        StreamPlan::Whole(_)
    ));
    let whole = TorrentStreamer::plan_stream("/d/m", 9, None);
    assert_eq!(whole.status(true), Status::Whole);
    assert_eq!(whole.status(false), Status::Failed);
    let part = TorrentStreamer::plan_stream("/d/m", 9, Some(b"bytes=1-"));
    assert_eq!(part.status(true), Status::Part);
    assert_eq!(part.status(false), Status::Failed);
    let refused = TorrentStreamer::plan_stream("/d/m", 9, Some(b"\xff"));
    assert_eq!(refused.status(true), Status::BadRequest);
    assert!(TorrentStreamer::wants_part(Some(b"bytes=5-")));
    assert!(!TorrentStreamer::wants_part(Some(b"bytes=5")));
    assert!(!TorrentStreamer::wants_part(Some(b"bytes=5-\n")));
    assert!(!TorrentStreamer::wants_part(None));
}

#[test]
fn download_window() {
    assert!(can_start("magnet:?", "."));
    assert!(!can_start("", "."));
    assert!(!can_start("magnet:?", ""));
    assert_eq!(DownloadState::Idle.label(), "准备就绪，输入链接开始下载。");
    let (state, goes_on) = DownloadState::after(DownloadEvent::Requested);
    assert!(goes_on);
    assert_eq!(state.progress(), Progress::Zero);
    assert_eq!(state.label(), "0 / 0 bytes");
    let (state, goes_on) =
        DownloadState::after(DownloadEvent::Polled { downloaded: 5, total: 20 });
    assert!(goes_on);
    assert_eq!(state.progress(), Progress::Ratio { done: 5, total: 20 });
    assert_eq!(state.label(), "5 / 20 bytes");
    let (state, goes_on) = DownloadState::after(DownloadEvent::Completed);
    assert!(!goes_on);
    assert_eq!(state.label(), "下载完成！");
    assert_eq!(accepted(AddOutcome::Added(2)).unwrap(), 2);
    assert_eq!(accepted(AddOutcome::AlreadyManaged(3)).unwrap(), 3);
    let failure = accepted(AddOutcome::ListOnly).unwrap_err();
    let (state, goes_on) = DownloadState::after(failure);
    assert!(!goes_on);
    assert_eq!(state.label(), "错误: 不支持 List only 模式");
}
