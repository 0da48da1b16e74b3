//! The download window: one magnet link at a time, saved below a directory.
use crate::media::{progress, progress_of, Progress};
use crate::number::{
    decimal, is_digit, law_parse_of_decimal, lemma_decimal_is_number, parsed, push_decimal,
};
use crate::text::{lemma_one_piece, lemma_pieces_of_two, pieces};
use crate::torrent::AddOutcome;
use vstd::prelude::*;

verus! {

/// How a download stands.
#[derive(Debug)]
pub enum DownloadState {
    Idle,
    Downloading { downloaded: u64, total: u64 },
    Finished,
    Error(String),
}

/// The values of a state.
pub enum DownloadView {
    Idle,
    Downloading { downloaded: u64, total: u64 },
    Finished,
    Error(Seq<char>),
}

impl View for DownloadState {
    type V = DownloadView;

    open spec fn view(&self) -> DownloadView {
        match self {
            DownloadState::Idle => DownloadView::Idle,
            DownloadState::Downloading { downloaded, total } => DownloadView::Downloading {
                downloaded: *downloaded,
                total: *total,
            },
            DownloadState::Finished => DownloadView::Finished,
            DownloadState::Error(reason) => DownloadView::Error(reason@),
        }
    }
}

/// What happens to a download.
#[derive(Debug)]
pub enum DownloadEvent {
    /// A link was handed in.
    Requested,
    /// The session was asked how far it has come.
    Polled { downloaded: u64, total: u64 },
    /// Everything has come.
    Completed,
    /// The session could not start, or refused the link.
    Failed(String),
}

/// The state after an event.
pub open spec fn state_after(event: DownloadEvent) -> DownloadView {
    match event {
        DownloadEvent::Requested => DownloadView::Downloading { downloaded: 0, total: 0 },
        DownloadEvent::Polled { downloaded, total } => DownloadView::Downloading {
            downloaded,
            total,
        },
        DownloadEvent::Completed => DownloadView::Finished,
        DownloadEvent::Failed(reason) => DownloadView::Error(reason@),
    }
}

/// Whether a download goes on after an event.
pub open spec fn goes_on(event: DownloadEvent) -> bool {
    event is Requested || event is Polled
}

/// How far a download has come.
pub open spec fn progress_shown(state: DownloadView) -> Progress {
    match state {
        DownloadView::Downloading { downloaded, total } => progress_of(downloaded, total),
        _ => Progress::Zero,
    }
}

impl DownloadState {
    /// The state after an event, and whether the download goes on.
    pub fn after(event: DownloadEvent) -> (step: (DownloadState, bool))
        ensures
            step.0@ == state_after(event),
            step.1 == goes_on(event),
    {
        match event {
            DownloadEvent::Requested => (
                DownloadState::Downloading { downloaded: 0, total: 0 },
                true,
            ),
            DownloadEvent::Polled { downloaded, total } => (
                DownloadState::Downloading { downloaded, total },
                true,
            ),
            DownloadEvent::Completed => (DownloadState::Finished, false),
            DownloadEvent::Failed(reason) => (DownloadState::Error(reason), false),
        }
    }

    /// How far the download has come.
    pub fn progress(&self) -> (p: Progress)
        ensures
            p == progress_shown(self@),
    {
        match self {
            DownloadState::Downloading { downloaded, total } => progress(*downloaded, *total),
            _ => Progress::Zero,
        }
    }

    /// What is written below the window's form.
    pub open spec fn text(self) -> Seq<char> {
        match self {
            DownloadState::Idle => "准备就绪，输入链接开始下载。"@,
            DownloadState::Downloading { downloaded, total } => decimal(downloaded as nat) + " / "@
                + decimal(total as nat) + " bytes"@,
            DownloadState::Finished => "下载完成！"@,
            DownloadState::Error(reason) => "错误: "@ + reason@,
        }
    }

    /// What is written below the window's form.
    pub fn label(&self) -> (out: String)
        ensures
            out@ == self.text(),
    {
        match self {
            DownloadState::Idle => "准备就绪，输入链接开始下载。".to_string(),
            DownloadState::Downloading { downloaded, total } => {
                let mut out = String::new();
                push_decimal(&mut out, *downloaded);
                assert(out@ =~= decimal(*downloaded as nat));
                out.append(" / ");
                push_decimal(&mut out, *total);
                out.append(" bytes");
                out
            },
            DownloadState::Finished => "下载完成！".to_string(),
            DownloadState::Error(reason) => {
                let mut out = "错误: ".to_string();
                out.append(reason.as_str());
                out
            },
        }
    }
}

/// Whether a download can start: it needs a link and a directory.
pub fn can_start(magnet: &str, save_path: &str) -> (yes: bool)
    ensures
        yes == (magnet@.len() > 0 && save_path@.len() > 0),
{
    !magnet.is_empty() && !save_path.is_empty()
}

/// What the session's answer to a link means: the number of a torrent that is being downloaded, or
/// the failure of a mode that downloads nothing.
pub fn accepted(outcome: AddOutcome) -> (torrent: Result<usize, DownloadEvent>)
    ensures
        match outcome {
            AddOutcome::Added(id) => torrent matches Ok(given) && given == id,
            AddOutcome::AlreadyManaged(id) => torrent matches Ok(given) && given == id,
            AddOutcome::ListOnly => torrent matches Err(DownloadEvent::Failed(reason)) && reason@
                == "不支持 List only 模式"@,
        },
{
    match outcome {
        AddOutcome::Added(id) => Ok(id),
        AddOutcome::AlreadyManaged(id) => Ok(id),
        AddOutcome::ListOnly => Err(DownloadEvent::Failed("不支持 List only 模式".to_string())),
    }
}

/// Once asked to, a download never stands still: it goes on, or it has finished or failed.
pub proof fn law_download_ends_finished_or_failed(event: DownloadEvent)
    ensures
        !(state_after(event) is Idle),
        goes_on(event) <==> state_after(event) is Downloading,
        !goes_on(event) ==> state_after(event) is Finished || state_after(event) is Error,
{
}

/// The window shows what the session was last heard of: how much has come of how much, that all has
/// come, or why nothing does. A link that is handed in starts from nothing.
pub proof fn law_window_shows_the_download(downloaded: u64, total: u64, reason: String)
    ensures
        state_after(DownloadEvent::Polled { downloaded, total }) == (DownloadView::Downloading {
            downloaded,
            total,
        }),
        state_after(DownloadEvent::Requested) == (DownloadView::Downloading {
            downloaded: 0,
            total: 0,
        }),
        state_after(DownloadEvent::Completed) is Finished,
        state_after(DownloadEvent::Failed(reason)) == DownloadView::Error(reason@),
        goes_on(DownloadEvent::Polled { downloaded, total }),
        goes_on(DownloadEvent::Requested),
        !goes_on(DownloadEvent::Completed),
        !goes_on(DownloadEvent::Failed(reason)),
{
}

/// The text of a download that runs gives the bytes that have come and those that there are; that
/// of one that failed ends in the reason.
pub proof fn law_text_gives_the_figures(downloaded: u64, total: u64, reason: String)
    ensures
        ({
            let words = pieces(
                (DownloadState::Downloading { downloaded, total }).text(),
                seq![' '],
            );
            &&& words.len() == 4
            &&& parsed(words[0]) == Some(downloaded)
            &&& words[1] == "/"@
            &&& parsed(words[2]) == Some(total)
            &&& words[3] == "bytes"@
        }),
        reason@.is_suffix_of(DownloadState::Error(reason).text()),
{
    let seps = seq![' '];
    let a = decimal(downloaded as nat);
    let b = decimal(total as nat);
    let text = (DownloadState::Downloading { downloaded, total }).text();
    reveal_strlit(" / ");
    reveal_strlit(" bytes");
    reveal_strlit("/");
    reveal_strlit("bytes");
    let t2 = b.push(' ') + "bytes"@;
    let t1 = "/"@.push(' ') + t2;
    assert(text =~= a.push(' ') + t1);
    assert(seps.contains(' ')) by {
        assert(seps[0] == ' ');
    }
    lemma_decimal_is_number(downloaded as nat);
    lemma_decimal_is_number(total as nat);
    assert forall|i: int| 0 <= i < a.len() implies !seps.contains(#[trigger] a[i]) by {
        assert(is_digit(a[i]));
    }
    assert forall|i: int| 0 <= i < b.len() implies !seps.contains(#[trigger] b[i]) by {
        assert(is_digit(b[i]));
    }
    lemma_pieces_of_two(a, ' ', t1, seps);
    lemma_pieces_of_two("/"@, ' ', t2, seps);
    lemma_pieces_of_two(b, ' ', "bytes"@, seps);
    lemma_one_piece(a, seps);
    lemma_one_piece("/"@, seps);
    lemma_one_piece(b, seps);
    lemma_one_piece("bytes"@, seps);
    assert(pieces(text, seps) =~= seq![a, "/"@, b, "bytes"@]);
    law_parse_of_decimal(downloaded);
    law_parse_of_decimal(total);
    let failed = DownloadState::Error(reason).text();
    assert(failed.subrange(failed.len() - reason@.len(), failed.len() as int) =~= reason@);
}

/// The progress shown is that of the bytes last heard of.
pub proof fn law_progress_is_that_of_the_bytes(downloaded: u64, total: u64)
    ensures
        total > 0 ==> progress_shown(state_after(DownloadEvent::Polled { downloaded, total })) == (
        Progress::Ratio { done: downloaded, total }),
        progress_shown(state_after(DownloadEvent::Polled { downloaded, total: 0 })) is Zero,
        progress_shown(DownloadView::Idle) is Zero,
{
}

} // verus!
