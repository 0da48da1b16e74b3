//! Files and downloads as every backend reports them.
use crate::text::{
    ends_with, law_last_piece_stands_behind_the_last_separator, lemma_one_piece,
    lemma_pieces_nonempty, lemma_pieces_of_two, pieces, text_in,
};
use vstd::prelude::*;
use vstd::utf8::is_ascii_chars;

verus! {

/// How far a download has come.
#[derive(Clone, Copy, Debug, PartialEq, Eq, Structural)]
pub enum Progress {
    /// Nothing is known of it yet.
    Zero,
    /// `done` of `total` bytes, of which there is at least one.
    Ratio { done: u64, total: u64 },
    /// Everything is there.
    Complete,
}

/// How fast bytes come or go.
#[derive(Clone, Copy, Debug, PartialEq, Eq, Structural)]
pub enum Rate {
    /// They stand still.
    Zero,
    /// `bytes` within `nanos` nanoseconds.
    Measured { bytes: u64, nanos: u128 },
    /// A figure in mebibytes per second, as the bits of a double-precision number.
    Reported { mbps_bits: u64 },
}

/// What a backend reports of a task.
#[derive(Debug)]
pub struct DownloadStats {
    pub progress: Progress,
    pub downloaded_bytes: u64,
    pub total_bytes: u64,
    pub download_speed: Rate,
    pub upload_speed: Rate,
    pub is_finished: bool,
    pub error: Option<String>,
    pub peers_count: usize,
}

/// The values of a report.
pub struct StatsView {
    pub progress: Progress,
    pub downloaded_bytes: u64,
    pub total_bytes: u64,
    pub download_speed: Rate,
    pub upload_speed: Rate,
    pub is_finished: bool,
    pub error: Option<Seq<char>>,
    pub peers_count: usize,
}

impl View for DownloadStats {
    type V = StatsView;

    open spec fn view(&self) -> StatsView {
        StatsView {
            progress: self.progress,
            downloaded_bytes: self.downloaded_bytes,
            total_bytes: self.total_bytes,
            download_speed: self.download_speed,
            upload_speed: self.upload_speed,
            is_finished: self.is_finished,
            error: text_in(self.error),
            peers_count: self.peers_count,
        }
    }
}

/// A report of nothing, but for an error.
pub open spec fn blank_stats(error: Option<Seq<char>>) -> StatsView {
    StatsView {
        progress: Progress::Zero,
        downloaded_bytes: 0,
        total_bytes: 0,
        download_speed: Rate::Zero,
        upload_speed: Rate::Zero,
        is_finished: false,
        error,
        peers_count: 0,
    }
}

impl Default for DownloadStats {
    fn default() -> (stats: Self)
        ensures
            stats@ == blank_stats(None),
    {
        DownloadStats {
            progress: Progress::Zero,
            downloaded_bytes: 0,
            total_bytes: 0,
            download_speed: Rate::Zero,
            upload_speed: Rate::Zero,
            is_finished: false,
            error: None,
            peers_count: 0,
        }
    }
}

impl DownloadStats {
    /// A report of nothing but an error.
    pub fn failed(error: &str) -> (stats: Self)
        ensures
            stats@ == blank_stats(Some(error@)),
    {
        DownloadStats { error: Some(error.to_string()), ..DownloadStats::default() }
    }
}

/// `done` of `total` bytes; of a download whose size is unknown nothing counts as done.
pub open spec fn progress_of(done: u64, total: u64) -> Progress {
    if total > 0 {
        Progress::Ratio { done, total }
    } else {
        Progress::Zero
    }
}

/// How far a download of `total` bytes has come when `done` are there.
pub fn progress(done: u64, total: u64) -> (p: Progress)
    ensures
        p == progress_of(done, total),
{
    if total > 0 {
        Progress::Ratio { done, total }
    } else {
        Progress::Zero
    }
}

/// A file of a task.
#[derive(Debug)]
pub struct FileInfo {
    pub index: usize,
    pub name: String,
    pub size: u64,
    pub downloaded: u64,
    pub is_video: bool,
}

/// The values of a file of a task.
pub struct FileView {
    pub index: usize,
    pub name: Seq<char>,
    pub size: u64,
    pub downloaded: u64,
    pub is_video: bool,
}

impl View for FileInfo {
    type V = FileView;

    open spec fn view(&self) -> FileView {
        FileView {
            index: self.index,
            name: self.name@,
            size: self.size,
            downloaded: self.downloaded,
            is_video: self.is_video,
        }
    }
}

impl Clone for FileInfo {
    fn clone(&self) -> (copy: Self)
        ensures
            copy == *self,
    {
        FileInfo {
            index: self.index,
            name: self.name.clone(),
            size: self.size,
            downloaded: self.downloaded,
            is_video: self.is_video,
        }
    }
}

/// The values of a list of files.
pub open spec fn file_views(files: Seq<FileInfo>) -> Seq<FileView> {
    files.map_values(|f: FileInfo| f@)
}

/// The lower-case form of a text.
pub uninterp spec fn lowercase(s: Seq<char>) -> Seq<char>;

/// A character with the letters `A` to `Z` in lower case.
pub open spec fn ascii_lower(c: char) -> char {
    if 'A' <= c <= 'Z' {
        (c as u32 + 32) as char
    } else {
        c
    }
}

/// A text with the letters `A` to `Z` in lower case.
pub open spec fn ascii_lowered(s: Seq<char>) -> Seq<char> {
    s.map_values(|c: char| ascii_lower(c))
}

/// `str::to_lowercase`: the lower-case form of `s`, a function of `s` alone. The case of the letters
/// `A` to `Z` makes no difference to it, and where `s` is ASCII it puts just these in lower case.
#[verifier::external_body]
fn to_lowercase(s: &str) -> (lower: String)
    ensures
        lower@ == lowercase(s@),
        lower@ == lowercase(ascii_lowered(s@)),
        is_ascii_chars(s@) ==> lower@ == ascii_lowered(s@),
{
    s.to_lowercase()
}

/// Whether a name in lower case ends as the name of a video file does.
pub open spec fn ends_as_video(lower: Seq<char>) -> bool {
    ||| ".mp4"@.is_suffix_of(lower)
    ||| ".mkv"@.is_suffix_of(lower)
    ||| ".avi"@.is_suffix_of(lower)
    ||| ".mov"@.is_suffix_of(lower)
    ||| ".wmv"@.is_suffix_of(lower)
    ||| ".flv"@.is_suffix_of(lower)
    ||| ".webm"@.is_suffix_of(lower)
    ||| ".m4v"@.is_suffix_of(lower)
    ||| ".mpg"@.is_suffix_of(lower)
    ||| ".mpeg"@.is_suffix_of(lower)
    ||| ".3gp"@.is_suffix_of(lower)
    ||| ".ts"@.is_suffix_of(lower)
    ||| ".m2ts"@.is_suffix_of(lower)
}

/// Whether a name in lower case ends as the name of a video file does.
pub fn has_video_ending(lower: &str) -> (yes: bool)
    ensures
        yes == ends_as_video(lower@),
{
    ends_with(lower, ".mp4") || ends_with(lower, ".mkv") || ends_with(lower, ".avi") || ends_with(
        lower,
        ".mov",
    ) || ends_with(lower, ".wmv") || ends_with(lower, ".flv") || ends_with(lower, ".webm")
        || ends_with(lower, ".m4v") || ends_with(lower, ".mpg") || ends_with(lower, ".mpeg")
        || ends_with(lower, ".3gp") || ends_with(lower, ".ts") || ends_with(lower, ".m2ts")
}

/// Whether `name` is the name of a video file: its ending counts, in either case. Names that differ
/// only in the case of the letters `A` to `Z` are judged alike.
pub fn is_video_file(name: &str) -> (yes: bool)
    ensures
        yes == ends_as_video(lowercase(name@)),
        yes == ends_as_video(lowercase(ascii_lowered(name@))),
        is_ascii_chars(name@) ==> yes == ends_as_video(ascii_lowered(name@)),
{
    let lower = to_lowercase(name);
    has_video_ending(lower.as_str())
}

/// Names that differ only in the case of the letters `A` to `Z` are judged alike, whatever other
/// characters they hold.
pub proof fn law_letter_case_does_not_count(a: Seq<char>, b: Seq<char>)
    requires
        a.len() == b.len(),
        forall|i: int| 0 <= i < a.len() ==> ascii_lower(#[trigger] a[i]) == ascii_lower(b[i]),
    ensures
        ends_as_video(lowercase(ascii_lowered(a))) == ends_as_video(lowercase(ascii_lowered(b))),
{
    assert(ascii_lowered(a) =~= ascii_lowered(b));
}

/// Whether the file at `at` is the main video of `files`: no video is larger, and none behind it
/// is as large.
pub open spec fn is_main_video(files: Seq<FileView>, at: int) -> bool {
    &&& 0 <= at < files.len()
    &&& files[at].is_video
    &&& forall|i: int|
        0 <= i < files.len() && (#[trigger] files[i]).is_video ==> files[i].size <= files[at].size
    &&& forall|i: int|
        at < i < files.len() && (#[trigger] files[i]).is_video ==> files[i].size < files[at].size
}

/// Whether `main` is the main video of `files`.
pub open spec fn is_main_of(files: Seq<FileView>, main: FileView) -> bool {
    exists|at: int| #[trigger] is_main_video(files, at) && main == files[at]
}

/// Whether any of `files` is a video.
pub open spec fn has_video(files: Seq<FileView>) -> bool {
    exists|i: int| 0 <= i < files.len() && (#[trigger] files[i]).is_video
}

/// Looking at one file more: the main video is the one so far, or the new one where it is a video
/// and at least as large.
proof fn lemma_main_video_grows(files: Seq<FileView>, best: Option<int>, next: FileView)
    requires
        match best {
            Some(at) => is_main_video(files, at),
            None => !has_video(files),
        },
    ensures
        match best {
            Some(at) => if next.is_video && next.size >= files[at].size {
                is_main_video(files.push(next), files.len() as int)
            } else {
                is_main_video(files.push(next), at)
            },
            None => if next.is_video {
                is_main_video(files.push(next), files.len() as int)
            } else {
                !has_video(files.push(next))
            },
        },
{
    let grown = files.push(next);
    assert forall|i: int| 0 <= i < files.len() implies #[trigger] grown[i] == files[i] by {}
    assert(grown[files.len() as int] == next);
}

/// The main video of a task's files: the largest, and the last of those that are equally large.
pub fn main_video_file(files: &[FileInfo]) -> (main: Option<FileInfo>)
    ensures
        match main {
            Some(main) => is_main_of(file_views(files@), main@),
            None => !has_video(file_views(files@)),
        },
{
    let ghost all = file_views(files@);
    let mut best: Option<usize> = None;
    for i in 0..files.len()
        invariant
            all == file_views(files@),
            match best {
                Some(at) => at < i && is_main_video(all.take(i as int), at as int),
                None => !has_video(all.take(i as int)),
            },
    {
        proof {
            let so_far = match best {
                Some(at) => Some(at as int),
                None => None,
            };
            lemma_main_video_grows(all.take(i as int), so_far, all[i as int]);
            assert(all.take(i as int).push(all[i as int]) =~= all.take(i + 1));
        }
        if files[i].is_video {
            match best {
                Some(at) => {
                    assert(all.take(i as int)[at as int] == files@[at as int]@);
                    if files[i].size >= files[at].size {
                        best = Some(i);
                    }
                },
                None => {
                    best = Some(i);
                },
            }
        }
    }
    assert(all.take(files@.len() as int) =~= all);
    match best {
        Some(at) => {
            assert(is_main_video(all, at as int));
            assert(files@[at as int]@ == all[at as int]);
            Some(files[at].clone())
        },
        None => None,
    }
}

/// There is at most one main video.
pub proof fn law_main_video_is_unique(files: Seq<FileView>, a: int, b: int)
    requires
        is_main_video(files, a),
        is_main_video(files, b),
    ensures
        a == b,
{
}

/// There is a main video wherever there is a video.
pub proof fn law_main_video_exists(files: Seq<FileView>)
    requires
        has_video(files),
    ensures
        exists|at: int| is_main_video(files, at),
    decreases files.len(),
{
    let before = files.drop_last();
    let next = files.last();
    assert(before.push(next) =~= files);
    if has_video(before) {
        law_main_video_exists(before);
        let at = choose|at: int| is_main_video(before, at);
        lemma_main_video_grows(before, Some(at), next);
    } else {
        lemma_main_video_grows(before, None, next);
    }
}

/// The videos of a list of files.
pub open spec fn videos_of(files: Seq<FileView>) -> Seq<FileView> {
    files.filter(|f: FileView| f.is_video)
}

/// The videos among `files`, in their order.
pub fn video_files(files: &[FileInfo]) -> (videos: Vec<FileInfo>)
    ensures
        file_views(videos@) == videos_of(file_views(files@)),
{
    let ghost all = file_views(files@);
    let mut videos: Vec<FileInfo> = Vec::new();
    assert(videos_of(all.take(0)) =~= Seq::empty()) by {
        reveal(Seq::filter);
    }
    for i in 0..files.len()
        invariant
            all == file_views(files@),
            file_views(videos@) == videos_of(all.take(i as int)),
    {
        proof {
            reveal(Seq::filter);
            assert(all.take(i + 1).drop_last() =~= all.take(i as int));
            assert(all.take(i + 1).last() == files@[i as int]@);
        }
        if files[i].is_video {
            let ghost before = videos@;
            let file = files[i].clone();
            let ghost view = file@;
            videos.push(file);
            assert(file_views(videos@) =~= file_views(before).push(view));
        }
    }
    assert(all.take(files@.len() as int) =~= all);
    videos
}

/// Progress is counted in the bytes that are there of those that there are, once it is known that
/// there are any.
pub proof fn law_progress_counts_bytes(there: u64, all: u64)
    ensures
        all == 0 ==> progress_of(there, all) is Zero,
        all > 0 ==> (progress_of(there, all) matches Progress::Ratio { done, total } && done == there
            && total == all),
{
}

/// A blank report tells of nothing, but for its error.
pub proof fn law_blank_report_tells_nothing(reason: Option<Seq<char>>)
    ensures
        ({
            let stats = blank_stats(reason);
            &&& stats.progress is Zero
            &&& stats.downloaded_bytes == 0 && stats.total_bytes == 0
            &&& stats.download_speed is Zero && stats.upload_speed is Zero
            &&& !stats.is_finished
            &&& stats.error == reason
            &&& stats.peers_count == 0
        }),
{
}

/// A name ends in a dot and `ext`, which holds no dot, where `ext` is its last piece.
proof fn lemma_name_ends_in(name: Seq<char>, ext: Seq<char>)
    requires
        !ext.contains('.'),
    ensures
        (seq!['.'] + ext).is_suffix_of(name) <==> pieces(name, seq!['.']).len() >= 2 && pieces(
            name,
            seq!['.'],
        ).last() == ext,
{
    let seps = seq!['.'];
    let ending = seq!['.'] + ext;
    let parts = pieces(name, seps);
    law_last_piece_stands_behind_the_last_separator(name, '.');
    if ending.is_suffix_of(name) {
        let head = name.take(name.len() - ending.len());
        assert(name =~= head.push('.') + ext) by {
            assert(name =~= head + ending);
        }
        assert(seps.contains('.')) by {
            assert(seps[0] == '.');
        }
        lemma_pieces_of_two(head, '.', ext, seps);
        lemma_pieces_nonempty(head, seps);
        assert forall|i: int| 0 <= i < ext.len() implies !seps.contains(#[trigger] ext[i]) by {
            assert(ext[i] != '.');
        }
        lemma_one_piece(ext, seps);
        assert(parts.last() == ext);
    }
    if parts.len() >= 2 && parts.last() == ext {
        let at = name.len() - ext.len() - 1;
        assert(name.skip(at + 1) == ext);
        assert(name.subrange(at, name.len() as int) =~= ending) by {
            assert forall|i: int| 0 <= i < ending.len() implies name.subrange(
                at,
                name.len() as int,
            )[i] == ending[i] by {
                if i > 0 {
                    assert(name.skip(at + 1)[i - 1] == ext[i - 1]);
                }
            }
        }
        assert(ending.is_suffix_of(name));
    }
}

/// A name in lower case is that of a video exactly where what stands behind its last dot is one of
/// thirteen extensions.
pub proof fn law_videos_are_told_by_extension(lower: Seq<char>)
    ensures
        ends_as_video(lower) <==> ({
            let parts = pieces(lower, seq!['.']);
            let ext = parts.last();
            &&& parts.len() >= 2
            &&& {
                ||| ext == "mp4"@
                ||| ext == "mkv"@
                ||| ext == "avi"@
                ||| ext == "mov"@
                ||| ext == "wmv"@
                ||| ext == "flv"@
                ||| ext == "webm"@
                ||| ext == "m4v"@
                ||| ext == "mpg"@
                ||| ext == "mpeg"@
                ||| ext == "3gp"@
                ||| ext == "ts"@
                ||| ext == "m2ts"@
            }
        }),
{
    reveal_strlit(".mp4");
    reveal_strlit("mp4");
    assert(".mp4"@ =~= seq!['.'] + "mp4"@);
    lemma_name_ends_in(lower, "mp4"@);
    reveal_strlit(".mkv");
    reveal_strlit("mkv");
    assert(".mkv"@ =~= seq!['.'] + "mkv"@);
    lemma_name_ends_in(lower, "mkv"@);
    reveal_strlit(".avi");
    reveal_strlit("avi");
    assert(".avi"@ =~= seq!['.'] + "avi"@);
    lemma_name_ends_in(lower, "avi"@);
    reveal_strlit(".mov");
    reveal_strlit("mov");
    assert(".mov"@ =~= seq!['.'] + "mov"@);
    lemma_name_ends_in(lower, "mov"@);
    reveal_strlit(".wmv");
    reveal_strlit("wmv");
    assert(".wmv"@ =~= seq!['.'] + "wmv"@);
    lemma_name_ends_in(lower, "wmv"@);
    reveal_strlit(".flv");
    reveal_strlit("flv");
    assert(".flv"@ =~= seq!['.'] + "flv"@);
    lemma_name_ends_in(lower, "flv"@);
    reveal_strlit(".webm");
    reveal_strlit("webm");
    assert(".webm"@ =~= seq!['.'] + "webm"@);
    lemma_name_ends_in(lower, "webm"@);
    reveal_strlit(".m4v");
    reveal_strlit("m4v");
    assert(".m4v"@ =~= seq!['.'] + "m4v"@);
    lemma_name_ends_in(lower, "m4v"@);
    reveal_strlit(".mpg");
    reveal_strlit("mpg");
    assert(".mpg"@ =~= seq!['.'] + "mpg"@);
    lemma_name_ends_in(lower, "mpg"@);
    reveal_strlit(".mpeg");
    reveal_strlit("mpeg");
    assert(".mpeg"@ =~= seq!['.'] + "mpeg"@);
    lemma_name_ends_in(lower, "mpeg"@);
    reveal_strlit(".3gp");
    reveal_strlit("3gp");
    assert(".3gp"@ =~= seq!['.'] + "3gp"@);
    lemma_name_ends_in(lower, "3gp"@);
    reveal_strlit(".ts");
    reveal_strlit("ts");
    assert(".ts"@ =~= seq!['.'] + "ts"@);
    lemma_name_ends_in(lower, "ts"@);
    reveal_strlit(".m2ts");
    reveal_strlit("m2ts");
    assert(".m2ts"@ =~= seq!['.'] + "m2ts"@);
    lemma_name_ends_in(lower, "m2ts"@);
}

/// The main video is one of the files and a video. No video is larger, and of those that are as
/// large it is the last.
pub proof fn law_main_video_is_the_largest(files: Seq<FileView>, main: FileView)
    requires
        is_main_of(files, main),
    ensures
        main.is_video,
        exists|at: int|
            0 <= at < files.len() && #[trigger] files[at] == main && (forall|i: int|
                0 <= i < files.len() && (#[trigger] files[i]).is_video ==> files[i].size < main.size
                    || (files[i].size == main.size && i <= at)),
{
    let at = choose|at: int| #[trigger] is_main_video(files, at) && main == files[at];
    assert(files[at] == main);
}

/// There is no main video exactly where no file is a video.
pub proof fn law_main_video_is_missing_without_videos(files: Seq<FileView>)
    ensures
        has_video(files) <==> exists|main: FileView| is_main_of(files, main),
        has_video(files) <==> !(forall|i: int|
            0 <= i < files.len() ==> !(#[trigger] files[i]).is_video),
{
    if has_video(files) {
        law_main_video_exists(files);
        let at = choose|at: int| is_main_video(files, at);
        assert(is_main_of(files, files[at]));
    }
    if exists|main: FileView| is_main_of(files, main) {
        let main = choose|main: FileView| is_main_of(files, main);
        let at = choose|at: int| #[trigger] is_main_video(files, at) && main == files[at];
        assert(files[at].is_video);
    }
}

/// The videos of a list are the files marked as such, each once, in their order.
pub proof fn law_videos_are_those_marked(files: Seq<FileView>, next: FileView)
    ensures
        videos_of(Seq::<FileView>::empty()) == Seq::<FileView>::empty(),
        next.is_video ==> videos_of(files.push(next)) == videos_of(files).push(next),
        !next.is_video ==> videos_of(files.push(next)) == videos_of(files),
{
    reveal(Seq::filter);
    assert(files.push(next).drop_last() =~= files);
    assert(videos_of(Seq::<FileView>::empty()) =~= Seq::<FileView>::empty());
}

/// Files and reports are read off field by field.
pub proof fn law_values_are_the_fields(files: Seq<FileInfo>, i: int, stats: DownloadStats)
    requires
        0 <= i < files.len(),
    ensures
        file_views(files).len() == files.len(),
        file_views(files)[i].index == files[i].index,
        file_views(files)[i].name == files[i].name@,
        file_views(files)[i].size == files[i].size,
        file_views(files)[i].downloaded == files[i].downloaded,
        file_views(files)[i].is_video == files[i].is_video,
        stats@.progress == stats.progress,
        stats@.downloaded_bytes == stats.downloaded_bytes,
        stats@.total_bytes == stats.total_bytes,
        stats@.download_speed == stats.download_speed,
        stats@.upload_speed == stats.upload_speed,
        stats@.is_finished == stats.is_finished,
        stats@.error == (match stats.error {
            Some(error) => Some(error@),
            None => None,
        }),
        stats@.peers_count == stats.peers_count,
{
}

} // verus!
