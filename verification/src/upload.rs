//! The decisions of the loop that copies an archive to the host chunk by chunk.

use vstd::prelude::*;

verus! {

/// The number of bytes that are read and written at a time.
pub const CHUNK_SIZE: usize = 65536;

/// The number of bytes after which progress is reported.
pub const PROGRESS_INTERVAL: usize = 4194304;

/// The number of chunks after which progress is reported.
pub const CHUNKS_PER_REPORT: u64 = 64;

/// What to do with one chunk that was read from the local archive.
#[derive(Clone, Copy, Debug, PartialEq, Eq, Structural)]
pub struct ChunkDecision {
    /// The number of bytes to write to the host, from the start of the buffer.
    pub write: usize,
    /// Whether to report progress after the write.
    pub report: bool,
    /// Whether the archive ends with this chunk.
    pub last: bool,
}

/// How far an upload has come.
#[derive(Clone, Copy, Debug, PartialEq, Eq, Structural)]
pub struct UploadProgress {
    /// The number of chunks since progress was last due, below `CHUNKS_PER_REPORT`.
    pub since_report: u64,
    /// The number of bytes handed to the host, held at `u64::MAX` once it is reached.
    pub sent: u64,
    /// Whether progress is reported at all.
    pub verbose: bool,
}

/// The progress after a chunk of `read` bytes.
pub open spec fn spec_after_chunk(progress: UploadProgress, read: usize) -> UploadProgress {
    UploadProgress {
        since_report: ((progress.since_report + 1) % (CHUNKS_PER_REPORT as int)) as u64,
        sent: if progress.sent + read > u64::MAX {
            u64::MAX
        } else {
            (progress.sent + read) as u64
        },
        verbose: progress.verbose,
    }
}

/// What to do with a chunk of `read` bytes.
///
/// All of it is written, in one write. The archive ends with the first read
/// that does not fill the buffer. Progress is due each time
/// `PROGRESS_INTERVAL` bytes' worth of chunks have gone by.
pub open spec fn spec_decide(progress: UploadProgress, read: usize) -> ChunkDecision {
    ChunkDecision {
        write: read,
        report: progress.verbose && spec_after_chunk(progress, read).since_report == 0,
        last: read != CHUNK_SIZE,
    }
}

impl UploadProgress {
    /// The progress of an upload of which nothing was read yet.
    pub fn new(verbose: bool) -> (progress: UploadProgress)
        ensures
            progress == (UploadProgress { since_report: 0, sent: 0, verbose }),
    {
        UploadProgress { since_report: 0, sent: 0, verbose }
    }

    /// Takes in a chunk of `read` bytes and says what to do with it.
    pub fn chunk(&mut self, read: usize) -> (decision: ChunkDecision)
        ensures
            *final(self) == spec_after_chunk(*old(self), read),
            decision == spec_decide(*old(self), read),
    {
        let since_report: u64 = if self.since_report >= CHUNKS_PER_REPORT - 1 {
            (self.since_report % CHUNKS_PER_REPORT + 1) % CHUNKS_PER_REPORT
        } else {
            self.since_report + 1
        };
        let sent: u64 = self.sent.saturating_add(read as u64);
        self.since_report = since_report;
        self.sent = sent;
        ChunkDecision { write: read, report: self.verbose && since_report == 0, last: read != CHUNK_SIZE }
    }
}

/// The chunks between two reports hold `PROGRESS_INTERVAL` bytes.
pub proof fn lemma_report_interval()
    ensures
        CHUNKS_PER_REPORT * CHUNK_SIZE == PROGRESS_INTERVAL,
{
}

/// After `CHUNKS_PER_REPORT` chunks the count of chunks since the last
/// report is what it was: progress is due once in every such run.
pub proof fn lemma_report_is_periodic(progress: UploadProgress, read: usize)
    requires
        progress.since_report < CHUNKS_PER_REPORT,
    ensures
        spec_after_chunk(progress, read).since_report < CHUNKS_PER_REPORT,
        spec_after_chunk(progress, read).since_report == 0 <==> progress.since_report
            == CHUNKS_PER_REPORT - 1,
        progress.since_report < CHUNKS_PER_REPORT - 1 ==> spec_after_chunk(
            progress,
            read,
        ).since_report == progress.since_report + 1,
{
}

} // verus!
