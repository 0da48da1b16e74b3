use magnet_player::bilibili::{
    content_number, described, extract_bvid, first_source, lists_sources, play_url, playable,
    reply_code, title_for, view_url, BilibiliError, Reply,
};
use magnet_player::number::{decimal_text, parse_u64};
use magnet_player::size::format_bytes;
use magnet_player::text::{
    contains, ends_with, join, same_text, sanitize, split, split_once, starts_with, strip_prefix,
    trim,
};

#[test]
fn comparing_text() {
    assert!(same_text("视频", "视频"));
    assert!(!same_text("a", "ab"));
    assert!(starts_with("magnet:?xt", "magnet:?"));
    assert!(!starts_with("magnet", "magnet:?"));
    assert!(ends_with("movie.mp4", ".mp4"));
    assert!(!ends_with("mp4", ".mp4"));
    assert!(contains("https://www.youtube.com/watch", "youtube.com"));
    assert!(contains("youtu.be", "youtu.be"));
    assert!(!contains("youtu.b", "youtu.be"));
    assert!(contains("anything", ""));
}

#[test]
fn cutting_and_joining_text() {
    assert_eq!(strip_prefix("bytes=0-1", "bytes="), Some("0-1".to_string()));
    assert_eq!(strip_prefix("byte=0-1", "bytes="), None);
    assert_eq!(split("a-b--c", &['-']), vec!["a", "b", "", "c"]);
    assert_eq!(split("", &['-']), vec![""]);
    assert_eq!(split_once("k=v=w", '='), Some(("k".to_string(), "v=w".to_string())));
    assert_eq!(split_once("kv", '='), None);
    assert_eq!(join(&["a".to_string(), "b".to_string()], "/"), "a/b");
    assert_eq!(join(&[], "/"), "");
}

#[test]
fn trimming_agrees_with_std_on_every_character() {
    for code in 0..=0x10ffffu32 {
        if let Some(c) = char::from_u32(code) {
            let s = format!("{c}x{c}");
            assert_eq!(trim(&s), s.trim(), "{code:x}");
        }
    }
    assert_eq!(trim(" \t\u{3000} "), "");
    assert_eq!(trim("  a b\n"), "a b");
}

#[test]
fn file_names_hold_no_forbidden_characters() {
    assert_eq!(sanitize("a/b\\c:d*e?f\"g<h>i|j"), "a_b_c_d_e_f_g_h_i_j");
    assert_eq!(sanitize("视频 1"), "视频 1");
    let once = sanitize("../x:y");
    assert_eq!(once, ".._x_y");
    assert_eq!(sanitize(&once), once);
}

#[test]
fn numbers_agree_with_std() {
    for n in [0u64, 7, 10, 99, 100, 12345, u64::MAX - 1, u64::MAX] {
        assert_eq!(decimal_text(n), n.to_string());
        assert_eq!(parse_u64(&decimal_text(n)), Some(n));
    }
    for s in [
        "", "+", "-", "0", "007", "+5", "++5", "-5", " 5", "5 ", "5a", "٣", "18446744073709551615",
        "18446744073709551616", "99999999999999999999999", "00000000000000000000000012",
    ] {
        assert_eq!(parse_u64(s), s.parse::<u64>().ok(), "{s}");
    }
}

/// The size as floating point gives it.
fn float_format(bytes: u64) -> String {
    const UNITS: &[&str] = &["B", "KB", "MB", "GB", "TB"];
    if bytes == 0 {
        return "0 B".to_string();
    }
    let exp = (bytes as f64).log(1024.0).min(UNITS.len() as f64 - 1.0) as usize;
    let value = bytes as f64 / 1024_f64.powi(exp as i32);
    format!("{:.2} {}", value, UNITS[exp])
}

#[test]
fn sizes_for_people() {
    assert_eq!(format_bytes(0), "0 B");
    assert_eq!(format_bytes(1), "1.00 B");
    assert_eq!(format_bytes(1023), "1023.00 B");
    assert_eq!(format_bytes(1024), "1.00 KB");
    assert_eq!(format_bytes(1152), "1.12 KB");
    assert_eq!(format_bytes(1536), "1.50 KB");
    assert_eq!(format_bytes(1024 * 1024 - 1), "1024.00 KB");
    assert_eq!(format_bytes(5 * 1024 * 1024), "5.00 MB");
    assert_eq!(format_bytes(3 << 30), "3.00 GB");
    assert_eq!(format_bytes(1 << 40), "1.00 TB");
    assert_eq!(format_bytes(u64::MAX), "16777216.00 TB");
}

#[test]
fn sizes_agree_with_floating_point() {
    for bytes in 0..300_000u64 {
        assert_eq!(format_bytes(bytes), float_format(bytes), "{bytes}");
    }
    for power in 0..64 {
        let base = 1u64 << power;
        for near in 0..2000u64 {
            for bytes in [base.wrapping_add(near), base.wrapping_sub(near)] {
                assert_eq!(format_bytes(bytes), float_format(bytes), "{bytes}");
            }
        }
    }
    let mut state = 1u64;
    for round in 0..200_000u32 {
        state = state.wrapping_mul(6364136223846793005).wrapping_add(1442695040888963407);
        let bytes = state >> (round % 64);
        assert_eq!(format_bytes(bytes), float_format(bytes), "{bytes}");
    }
    // Halves of a hundredth, which go to the even neighbour.
    for unit in [1u64 << 10, 1 << 20, 1 << 30, 1 << 40] {
        for eighths in 8..4000u64 {
            let bytes = unit / 8 * eighths;
            assert_eq!(format_bytes(bytes), float_format(bytes), "{bytes}");
        }
    }
}

#[test]
fn bilibili_links_name_videos() {
    let url = "https://www.bilibili.com/video/BV1uMQwB7EAi/?spm_id_from=333.337.search-card.all.click&vd_source=2c6659819a74487da2c4783813500a8b";
    assert_eq!(extract_bvid(url), Ok("BV1uMQwB7EAi".to_string()));
    assert_eq!(extract_bvid("https://b23.tv/BV1x?p=2"), Ok("BV1x".to_string()));
    let error = extract_bvid("https://www.bilibili.com/video/av170001").unwrap_err();
    assert_eq!(error, BilibiliError::NoBvid);
    assert_eq!(error.message(), "Failed to extract BVID from URL");
}

#[test]
fn bilibili_questions_and_answers() {
    assert_eq!(
        view_url("BV1x"),
        "https://api.bilibili.com/x/web-interface/view?bvid=BV1x"
    );
    assert_eq!(
        play_url("BV1x", 42),
        "https://api.bilibili.com/x/player/playurl?bvid=BV1x&cid=42&qn=80&fnval=1"
    );
    assert!(play_url("b", i64::MIN).contains("&cid=-9223372036854775808&"));
}

fn object(fields: Vec<(&str, Reply)>) -> Reply {
    Reply::Fields(fields.into_iter().map(|(name, value)| (name.to_string(), value)).collect())
}

fn text(s: &str) -> Reply {
    Reply::Text(s.to_string())
}

#[test]
fn bilibili_descriptions() {
    let data = || object(vec![("cid", Reply::Number(7)), ("title", text("a/b"))]);
    let reply = object(vec![("code", Reply::Number(0)), ("data", data())]);
    assert_eq!(reply_code(&reply), 0);
    assert_eq!(content_number(&reply), Some(7));
    assert_eq!(described(&reply), Ok(7));
    assert_eq!(title_for(&reply), "a_b");
    let refused = object(vec![("code", Reply::Number(-404)), ("data", data())]);
    assert_eq!(described(&refused), Err(BilibiliError::View(-404)));
    let silent = object(vec![("data", data())]);
    assert_eq!(described(&silent), Err(BilibiliError::View(-1)));
    assert_eq!(reply_code(&object(vec![("code", text("0"))])), -1);
    let bare = object(vec![("code", Reply::Number(0)), ("data", Reply::Other)]);
    assert_eq!(described(&bare), Err(BilibiliError::NoCid));
    assert_eq!(title_for(&bare), "bilibili_video");
    assert_eq!(content_number(&Reply::List(vec![])), None);
    assert_eq!(BilibiliError::View(-404).message(), "Bilibili API error: code -404");
    assert_eq!(BilibiliError::NoCid.message(), "Failed to get cid");
}

#[test]
fn bilibili_sources() {
    let reply = |list: Reply| {
        object(vec![("code", Reply::Number(0)), ("data", object(vec![("durl", list)]))])
    };
    let sources = Reply::List(vec![object(vec![("url", text("u"))]), object(vec![("url", text("v"))])]);
    let good = reply(sources);
    assert!(lists_sources(&good));
    assert_eq!(first_source(&good), Some("u".to_string()));
    assert_eq!(playable(&good), Ok("u".to_string()));
    let empty = reply(Reply::List(vec![]));
    assert!(lists_sources(&empty));
    assert_eq!(playable(&empty), Err(BilibiliError::NoUrl));
    let named = reply(object(vec![("0", object(vec![("url", text("u"))]))]));
    assert!(!lists_sources(&named));
    assert_eq!(first_source(&named), None);
    assert_eq!(playable(&Reply::Other), Err(BilibiliError::Play(-1)));
    assert_eq!(BilibiliError::Play(3).message(), "Bilibili playurl API error: code 3");
    assert_eq!(BilibiliError::NoUrl.message(), "Failed to get download url");
}
