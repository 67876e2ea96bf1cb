//! The flow-controlled telemetry download.
//!
//! The device streams fixed-size batches; the host persists the valid frames
//! of each batch, notes the highest timestamp for progress reporting, and
//! sends one acknowledgement byte to request the next batch.  A batch whose
//! sentinel is non-zero ends the stream: nothing of it is written and no
//! acknowledgement is owed.

use vstd::prelude::*;

use crate::wire::{Frame, SensorBuf, FRAMES_PER_BATCH};

verus! {

/// What the device promises of every batch it sends: all 42 slots present
/// and a valid-frame count that fits in them.
pub open spec fn spec_batch_wf(b: SensorBuf) -> bool {
    b.frames@.len() == FRAMES_PER_BATCH && b.sample_count as int <= FRAMES_PER_BATCH as int
}

/// Checks a decoded batch before it is processed.
pub fn batch_wf(b: &SensorBuf) -> (r: bool)
    ensures
        r == spec_batch_wf(*b),
{
    b.frames.len() == FRAMES_PER_BATCH && (b.sample_count as usize) <= FRAMES_PER_BATCH
}

/// The highest timestamp among the first `n` frames; zero when there are
/// none.
pub open spec fn spec_batch_max_time(frames: Seq<Frame>, n: int) -> u32
    decreases n,
{
    if n <= 0 {
        0
    } else {
        let m = spec_batch_max_time(frames, n - 1);
        if frames[n - 1].time > m {
            frames[n - 1].time
        } else {
            m
        }
    }
}

/// What one received batch tells the downloader.
pub enum BatchStep {
    /// Non-zero sentinel: the stream has ended; nothing is written and no
    /// acknowledgement is owed.
    EndOfStream,
    /// The frames to persist and the progress timestamp; one
    /// acknowledgement is owed before the next batch will come.
    Rows { frames: Vec<Frame>, max_time: u32 },
}

/// Turns one decoded batch into the downloader's next action: end of stream
/// exactly when the sentinel is non-zero, otherwise the first `sample_count`
/// frames and their highest timestamp.
pub fn process_batch(buf: &SensorBuf) -> (r: BatchStep)
    requires
        spec_batch_wf(*buf),
    ensures
        buf.zero != 0 ==> r == BatchStep::EndOfStream,
        buf.zero == 0 ==> (r matches BatchStep::Rows { frames, max_time } && frames@
            == buf.frames@.take(buf.sample_count as int) && max_time == spec_batch_max_time(
            buf.frames@,
            buf.sample_count as int,
        )),
{
    if buf.zero != 0 {
        return BatchStep::EndOfStream;
    }
    let count = buf.sample_count as usize;
    let mut frames: Vec<Frame> = Vec::new();
    let mut t: u32 = 0;
    let mut i: usize = 0;
    while i < count
        invariant
            count <= buf.frames@.len(),
            i <= count,
            frames@ == buf.frames@.take(i as int),
            t == spec_batch_max_time(buf.frames@, i as int),
        decreases count - i,
    {
        let f = buf.frames[i];
        frames.push(f);
        if f.time > t {
            t = f.time;
        }
        proof {
            assert(frames@ =~= buf.frames@.take(i as int + 1));
        }
        i = i + 1;
    }
    BatchStep::Rows { frames, max_time: t }
}

/// The index of the first terminal batch (non-zero sentinel) at or after
/// `i`, or the total count when none is terminal.
pub open spec fn spec_stop_index(bs: Seq<SensorBuf>, i: int) -> int
    decreases bs.len() - i,
{
    if i < 0 || i >= bs.len() {
        bs.len() as int
    } else if bs[i].zero != 0 {
        i
    } else {
        spec_stop_index(bs, i + 1)
    }
}

/// The total number of valid frames in the first `n` batches.
pub open spec fn spec_rows_total(bs: Seq<SensorBuf>, n: int) -> int
    decreases n,
{
    if n <= 0 {
        0
    } else {
        spec_rows_total(bs, n - 1) + bs[n - 1].sample_count
    }
}

/// The frames the first `n` batches contribute, in stream order.
pub open spec fn spec_rows_frames(bs: Seq<SensorBuf>, n: int) -> Seq<Frame>
    decreases n,
{
    if n <= 0 {
        Seq::empty()
    } else {
        spec_rows_frames(bs, n - 1) + bs[n - 1].frames@.take(bs[n - 1].sample_count as int)
    }
}

/// The accounting of one download: how many rows were persisted, how many
/// acknowledgement bytes were sent, and whether the terminal batch arrived.
pub struct DownloadSession {
    pub rows_written: u64,
    pub acks_sent: u64,
    pub finished: bool,
}

/// Drives one whole download over the batches as they arrive, in order.
/// The loop ends exactly at the first batch whose sentinel is non-zero —
/// or after the last batch when none is terminal — having persisted exactly
/// the frames of every prior batch (the sum of their counts) and sent one
/// acknowledgement per prior batch, the last non-terminal one included.
pub fn run_download(batches: &Vec<SensorBuf>) -> (r: (DownloadSession, Vec<Frame>))
    requires
        forall|k: int| 0 <= k < batches@.len() ==> #[trigger] spec_batch_wf(batches@[k]),
        batches@.len() <= 100_000_000,
    ensures
        ({
            let stop = spec_stop_index(batches@, 0);
            &&& r.0.finished == (stop < batches@.len())
            &&& r.0.acks_sent as int == stop
            &&& r.0.rows_written as int == spec_rows_total(batches@, stop)
            &&& r.1@ == spec_rows_frames(batches@, stop)
        }),
{
    let n = batches.len();
    let mut out: Vec<Frame> = Vec::new();
    let mut rows: u64 = 0;
    let mut acks: u64 = 0;
    let mut finished: bool = false;
    let mut i: usize = 0;
    while i < n && !finished
        invariant
            n == batches@.len(),
            n <= 100_000_000,
            forall|k: int| 0 <= k < batches@.len() ==> #[trigger] spec_batch_wf(batches@[k]),
            i <= n,
            rows as int <= 42 * (i as int),
            acks as int <= i as int,
            !finished ==> spec_stop_index(batches@, 0) == spec_stop_index(batches@, i as int),
            !finished ==> rows as int == spec_rows_total(batches@, i as int),
            !finished ==> acks as int == i as int,
            !finished ==> out@ == spec_rows_frames(batches@, i as int),
            finished ==> 1 <= i && spec_stop_index(batches@, 0) == i - 1,
            finished ==> rows as int == spec_rows_total(batches@, i as int - 1),
            finished ==> acks as int == i as int - 1,
            finished ==> out@ == spec_rows_frames(batches@, i as int - 1),
        decreases n - i,
    {
        match process_batch(&batches[i]) {
            BatchStep::EndOfStream => {
                finished = true;
            },
            BatchStep::Rows { frames, max_time: _ } => {
                let mut f = frames;
                let added = f.len();
                proof {
                    assert(spec_batch_wf(batches@[i as int]));
                    assert(batches@[i as int].zero == 0);
                    assert(f@ == batches@[i as int].frames@.take(
                        batches@[i as int].sample_count as int,
                    ));
                    assert(added == batches@[i as int].sample_count);
                }
                out.append(&mut f);
                rows = rows + (added as u64);
                acks = acks + 1;
                proof {
                    assert(spec_stop_index(batches@, i as int) == spec_stop_index(
                        batches@,
                        i as int + 1,
                    ));
                }
            },
        }
        i = i + 1;
    }
    (DownloadSession { rows_written: rows, acks_sent: acks, finished }, out)
}

} // verus!
