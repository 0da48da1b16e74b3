//! Measuring a download as it comes in, chunk by chunk.
use crate::media::Rate;
use vstd::prelude::*;

verus! {

/// How long to wait between two reports, in nanoseconds.
pub const REPORT_INTERVAL: u128 = 1_000_000_000;

/// How much has come, and how much of it since the last report.
#[derive(Clone, Copy, Debug, PartialEq, Eq, Structural)]
pub struct DownloadMeter {
    pub downloaded: u64,
    pub pending: u64,
}

/// A chunk: how many bytes it holds, and how long after the last report it came.
pub struct Chunk {
    pub length: u64,
    pub elapsed_nanos: u128,
}

impl DownloadMeter {
    /// What came since the last report is part of what came.
    pub open spec fn wf(self) -> bool {
        self.pending <= self.downloaded
    }

    /// The meter after a chunk: a report is due once the interval has passed, and starts the
    /// count since the last report anew.
    pub open spec fn after(self, chunk: Chunk) -> Self {
        DownloadMeter {
            downloaded: (self.downloaded + chunk.length) as u64,
            pending: if chunk.elapsed_nanos >= REPORT_INTERVAL {
                0
            } else {
                (self.pending + chunk.length) as u64
            },
        }
    }

    /// The report that a chunk brings, where one is due: the average rate since the last.
    pub open spec fn report(self, chunk: Chunk) -> Option<Rate> {
        if chunk.elapsed_nanos >= REPORT_INTERVAL {
            Some(
                Rate::Measured {
                    bytes: (self.pending + chunk.length) as u64,
                    nanos: chunk.elapsed_nanos,
                },
            )
        } else {
            None
        }
    }

    /// A meter before the first chunk.
    pub fn new() -> (meter: Self)
        ensures
            meter.downloaded == 0,
            meter.pending == 0,
            meter.wf(),
    {
        DownloadMeter { downloaded: 0, pending: 0 }
    }

    /// Counts a chunk of `length` bytes that came `elapsed_nanos` after the last report. Gives the
    /// rate to report, where a report is due; the time of the next one counts from now.
    pub fn count(&mut self, length: u64, elapsed_nanos: u128) -> (due: Option<Rate>)
        requires
            old(self).wf(),
            old(self).downloaded + length <= u64::MAX,
        ensures
            *final(self) == old(self).after((Chunk { length, elapsed_nanos })),
            due == old(self).report((Chunk { length, elapsed_nanos })),
            final(self).wf(),
    {
        self.downloaded = self.downloaded + length;
        self.pending = self.pending + length;
        if elapsed_nanos >= REPORT_INTERVAL {
            let rate = Rate::Measured { bytes: self.pending, nanos: elapsed_nanos };
            self.pending = 0;
            Some(rate)
        } else {
            None
        }
    }
}

/// The bytes of a row of chunks.
pub open spec fn bytes_of(chunks: Seq<Chunk>) -> nat
    decreases chunks.len(),
{
    if chunks.len() == 0 {
        0
    } else {
        bytes_of(chunks.drop_last()) + chunks.last().length as nat
    }
}

/// A meter after a row of chunks.
pub open spec fn after_all(chunks: Seq<Chunk>) -> DownloadMeter
    decreases chunks.len(),
{
    if chunks.len() == 0 {
        DownloadMeter { downloaded: 0, pending: 0 }
    } else {
        after_all(chunks.drop_last()).after(chunks.last())
    }
}

/// The bytes that the reports along a row of chunks account for.
pub open spec fn reported(chunks: Seq<Chunk>) -> nat
    decreases chunks.len(),
{
    if chunks.len() == 0 {
        0
    } else {
        reported(chunks.drop_last()) + match after_all(chunks.drop_last()).report(chunks.last()) {
            Some(Rate::Measured { bytes, .. }) => bytes as nat,
            _ => 0,
        }
    }
}

/// Every byte is counted once: the meter shows the bytes of all chunks, and each of them is in one
/// report or waits for the next.
pub proof fn law_every_byte_is_counted_once(chunks: Seq<Chunk>)
    requires
        bytes_of(chunks) <= u64::MAX,
    ensures
        after_all(chunks).downloaded == bytes_of(chunks),
        reported(chunks) + after_all(chunks).pending == bytes_of(chunks),
        after_all(chunks).wf(),
    decreases chunks.len(),
{
    if chunks.len() > 0 {
        law_every_byte_is_counted_once(chunks.drop_last());
    }
}

/// A report is due with the first chunk that comes a second or more after the last one. It tells
/// the bytes that came since then, this chunk among them, and the time they took; after it the
/// count starts anew.
pub proof fn law_report_is_due_after_a_second(meter: DownloadMeter, chunk: Chunk)
    requires
        meter.wf(),
        meter.downloaded + chunk.length <= u64::MAX,
    ensures
        meter.after(chunk).downloaded == meter.downloaded + chunk.length,
        chunk.elapsed_nanos < 1_000_000_000 ==> {
            &&& meter.report(chunk) is None
            &&& meter.after(chunk).pending == meter.pending + chunk.length
        },
        chunk.elapsed_nanos >= 1_000_000_000 ==> {
            &&& meter.after(chunk).pending == 0
            &&& meter.report(chunk) matches Some(Rate::Measured { bytes, nanos }) && bytes
                == meter.pending + chunk.length && nanos == chunk.elapsed_nanos
        },
{
}

} // verus!
