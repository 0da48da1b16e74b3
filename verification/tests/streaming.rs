use magnet_player::range::{
    answer_range, clamp_range, content_range_text, parse_range, range_header_text, ByteSpan,
};
use magnet_player::reply::{
    content_type_for, get_mime_type_from_filename, headers_for_part, headers_for_whole, stream_url,
    visible_text, Status,
};

#[test]
fn range_headers_are_read() {
    assert_eq!(parse_range("bytes=0-1023"), Some((Some(0), Some(1023))));
    assert_eq!(parse_range("bytes=500-"), Some((Some(500), None)));
    assert_eq!(parse_range("bytes=-500"), Some((None, Some(500))));
    assert_eq!(parse_range("bytes=-"), Some((None, None)));
    assert_eq!(parse_range("bytes=x-y"), Some((None, None)));
    assert_eq!(parse_range("bytes=0-1-2"), None);
    assert_eq!(parse_range("bytes=0"), None);
    assert_eq!(parse_range("items=0-1"), None);
    assert_eq!(parse_range(""), None);
}

#[test]
fn ranges_are_answered() {
    let whole = ByteSpan { start: 0, end: 999 };
    assert_eq!(answer_range(None, 1000), whole);
    assert_eq!(answer_range(Some("nonsense"), 1000), whole);
    assert_eq!(answer_range(Some("bytes=0-"), 1000), whole);
    assert_eq!(answer_range(Some("bytes=100-199"), 1000), ByteSpan { start: 100, end: 199 });
    assert_eq!(answer_range(Some("bytes=100-5000"), 1000), ByteSpan { start: 100, end: 999 });
    assert_eq!(answer_range(Some("bytes=2000-"), 1000), ByteSpan { start: 2000, end: 999 });
    assert_eq!(answer_range(Some("bytes=-10"), 1000), ByteSpan { start: 0, end: 10 });
    assert_eq!(answer_range(None, 0), ByteSpan { start: 0, end: 0 });
    assert_eq!(clamp_range((Some(3), Some(7)), u64::MAX), ByteSpan { start: 3, end: 7 });
}

#[test]
fn lengths_of_spans() {
    assert_eq!(ByteSpan { start: 100, end: 199 }.length(), 100);
    assert_eq!(ByteSpan { start: 5, end: 5 }.length(), 1);
    assert_eq!(ByteSpan { start: 2000, end: 999 }.length(), 1);
    assert_eq!(ByteSpan { start: 0, end: u64::MAX - 1 }.length(), u64::MAX);
}

#[test]
fn range_header_is_read_back() {
    assert_eq!(range_header_text(100, 199), "bytes=100-199");
    assert_eq!(parse_range(&range_header_text(0, u64::MAX)), Some((Some(0), Some(u64::MAX))));
    let span = answer_range(Some("bytes=7-"), 50);
    assert_eq!(answer_range(Some(&range_header_text(span.start, span.end)), 50), span);
}

#[test]
fn headers_of_answers() {
    let span = ByteSpan { start: 100, end: 199 };
    assert_eq!(content_range_text(span, 1000), "bytes 100-199/1000");
    let part = headers_for_part("video/mp4".to_string(), span, 1000);
    assert_eq!(part.content_type, "video/mp4");
    assert_eq!(part.content_range, Some("bytes 100-199/1000".to_string()));
    assert_eq!(part.content_length, "100");
    assert_eq!(part.accept_ranges, "bytes");
    let whole = headers_for_whole("video/mp4".to_string(), 1000);
    assert_eq!(whole.content_range, None);
    assert_eq!(whole.content_length, "1000");
    assert_eq!(whole.accept_ranges, "bytes");
}

#[test]
fn written_headers_can_be_carried() {
    for span in [
        ByteSpan { start: 0, end: 0 },
        ByteSpan { start: u64::MAX, end: u64::MAX - 1 },
    ] {
        let headers = headers_for_part("video/mp4".to_string(), span, u64::MAX);
        for text in [headers.content_range.unwrap(), headers.content_length] {
            assert!(axum::http::HeaderValue::from_str(&text).is_ok());
        }
    }
}

#[test]
fn content_types_go_by_extension() {
    assert_eq!(get_mime_type_from_filename("movie.mp4"), "video/mp4");
    assert_eq!(get_mime_type_from_filename("a/b/movie.MKV"), "video/x-matroska");
    assert_eq!(get_mime_type_from_filename("movie.webm"), "video/webm");
    assert_eq!(get_mime_type_from_filename("notes"), "application/octet-stream");
    assert_eq!(
        get_mime_type_from_filename("https://www.youtube.com/watch?v=abc"),
        "application/octet-stream"
    );
}

#[test]
fn content_type_that_no_header_takes_is_replaced() {
    assert_eq!(content_type_for("text/plain".to_string()), "text/plain");
    assert_eq!(content_type_for("text/plain\n".to_string()), "video/mp4");
    assert_eq!(content_type_for("a\u{7f}b".to_string()), "video/mp4");
    assert_eq!(content_type_for("a\tb".to_string()), "a\tb");
    assert_eq!(content_type_for("文".to_string()), "文");
}

#[test]
fn header_bytes_as_text() {
    assert_eq!(visible_text(b"bytes=0-1"), Some("bytes=0-1".to_string()));
    assert_eq!(visible_text(b"a\tb"), Some("a\tb".to_string()));
    assert_eq!(visible_text(b""), Some(String::new()));
    for b in 0..=255u8 {
        let accepted = axum::http::HeaderValue::from_bytes(&[b])
            .ok()
            .and_then(|v| v.to_str().ok().map(|s| s.to_string()));
        let visible = visible_text(&[b]);
        if accepted.is_some() || axum::http::HeaderValue::from_bytes(&[b]).is_ok() {
            assert_eq!(visible, accepted, "{b}");
        }
    }
}

#[test]
fn status_numbers() {
    assert_eq!(Status::Whole.code(), 200);
    assert_eq!(Status::Part.code(), 206);
    assert_eq!(Status::BadRequest.code(), 400);
    assert_eq!(Status::NotFound.code(), 404);
    assert_eq!(Status::Failed.code(), 500);
}

#[test]
fn addresses_name_task_and_file() {
    assert_eq!(stream_url(8080, 3, 0), "http://127.0.0.1:8080/stream/3/0");
    assert_eq!(stream_url(1, 12, 34), "http://127.0.0.1:1/stream/12/34");
    assert_ne!(stream_url(1, 1, 23), stream_url(1, 12, 3));
    let url = stream_url(9, usize::MAX, 7);
    let steps: Vec<&str> = url.split('/').collect();
    assert_eq!(steps[steps.len() - 2], usize::MAX.to_string());
    assert_eq!(steps[steps.len() - 1], "7");
}
