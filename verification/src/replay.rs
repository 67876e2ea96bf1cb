//! The chunked replay upload.
//!
//! Replay steps go to the device in fixed groups of eight; a short final
//! group is padded with sentinel entries whose delay is `-1`.  The device
//! paces the push by sending one acknowledgement byte before each group.

use vstd::prelude::*;

use crate::wire::{encode_replay_into, spec_replay_bytes, ReplayData, REPLAY_STEP_SIZE};

verus! {

/// Steps per uploaded group.
pub const REPLAY_CHUNK_LEN: usize = 8;

/// Bytes per uploaded group.
pub const REPLAY_CHUNK_SIZE: usize = 64;

/// The padding entry: no step here.
pub open spec fn spec_replay_padding() -> ReplayData {
    ReplayData { delay: -1i32, servo: 0u32 }
}

/// Number of groups: one per begun group of eight steps.
pub open spec fn spec_chunk_count(n: int) -> int {
    n / 8 + if n % 8 != 0 {
        1int
    } else {
        0int
    }
}

/// Splits the steps into groups of exactly eight, padding the trailing
/// slots of the last group with `-1`-delay entries.  An empty input gives
/// no groups at all.
pub fn replay_chunks(data: &Vec<ReplayData>) -> (r: Vec<Vec<ReplayData>>)
    requires
        data@.len() <= 100_000_000,
    ensures
        r@.len() == spec_chunk_count(data@.len() as int),
        forall|c: int| 0 <= c < r@.len() ==> #[trigger] r@[c]@.len() == REPLAY_CHUNK_LEN,
        forall|c: int, j: int|
            0 <= c < r@.len() && 0 <= j < REPLAY_CHUNK_LEN ==> #[trigger] r@[c]@[j] == (if 8 * c + j
                < data@.len() {
                data@[8 * c + j]
            } else {
                spec_replay_padding()
            }),
{
    let n = data.len();
    let nchunks = n / 8 + if n % 8 != 0 {
        1
    } else {
        0
    };
    let mut r: Vec<Vec<ReplayData>> = Vec::new();
    let mut c: usize = 0;
    while c < nchunks
        invariant
            n == data@.len(),
            n <= 100_000_000,
            nchunks == spec_chunk_count(n as int),
            nchunks <= 100_000_000,
            c <= nchunks,
            r@.len() == c,
            forall|k: int| 0 <= k < c ==> #[trigger] r@[k]@.len() == REPLAY_CHUNK_LEN,
            forall|k: int, j: int|
                0 <= k < c && 0 <= j < REPLAY_CHUNK_LEN ==> #[trigger] r@[k]@[j] == (if 8 * k + j
                    < data@.len() {
                    data@[8 * k + j]
                } else {
                    spec_replay_padding()
                }),
        decreases nchunks - c,
    {
        let mut chunk: Vec<ReplayData> = Vec::new();
        let mut j: usize = 0;
        while j < REPLAY_CHUNK_LEN
            invariant
                n == data@.len(),
                c < nchunks,
                nchunks <= 100_000_000,
                j <= REPLAY_CHUNK_LEN,
                chunk@.len() == j,
                forall|m: int|
                    0 <= m < j ==> #[trigger] chunk@[m] == (if 8 * (c as int) + m < data@.len() {
                        data@[8 * (c as int) + m]
                    } else {
                        spec_replay_padding()
                    }),
            decreases REPLAY_CHUNK_LEN - j,
        {
            let idx = 8 * c + j;
            if idx < n {
                chunk.push(data[idx]);
            } else {
                chunk.push(ReplayData { delay: -1, servo: 0 });
            }
            j = j + 1;
        }
        r.push(chunk);
        c = c + 1;
    }
    r
}

/// The wire image of one group: the eight step images in order.
pub open spec fn spec_replay_chunk_bytes(s: Seq<ReplayData>) -> Seq<u8>
    decreases s.len(),
{
    if s.len() == 0 {
        Seq::empty()
    } else {
        spec_replay_chunk_bytes(s.drop_last()) + spec_replay_bytes(s.last())
    }
}

/// Encodes one full group of eight steps into its 64 wire bytes.
pub fn encode_replay_chunk(chunk: &Vec<ReplayData>) -> (r: Vec<u8>)
    requires
        chunk@.len() == REPLAY_CHUNK_LEN,
    ensures
        r@ == spec_replay_chunk_bytes(chunk@),
        r@.len() == REPLAY_CHUNK_SIZE,
{
    let mut out: Vec<u8> = Vec::new();
    let mut i: usize = 0;
    while i < REPLAY_CHUNK_LEN
        invariant
            chunk@.len() == REPLAY_CHUNK_LEN,
            i <= REPLAY_CHUNK_LEN,
            out@ == spec_replay_chunk_bytes(chunk@.take(i as int)),
            out@.len() == (REPLAY_STEP_SIZE as int) * i,
        decreases REPLAY_CHUNK_LEN - i,
    {
        encode_replay_into(&mut out, &chunk[i]);
        proof {
            assert(chunk@.take(i as int + 1).drop_last() =~= chunk@.take(i as int));
            assert(chunk@.take(i as int + 1).last() == chunk@[i as int]);
        }
        i = i + 1;
    }
    proof {
        assert(chunk@.take(REPLAY_CHUNK_LEN as int) =~= chunk@);
    }
    out
}

} // verus!
