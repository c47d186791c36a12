//! Block-range planning and chronological accumulation for the
//! historical scanner.
//!
//! A scan walks the most recent `window_blocks` blocks of one chain in
//! fixed-size chunks, oldest first. The indexer is asked for each
//! chunk's logs in turn (it returns them in ascending nonce order);
//! survivors of the matching list are appended to the chain's
//! accumulator, so the accumulator is in ascending chronological order
//! throughout. Presentation reverses it to newest-first at the end.

use vstd::prelude::*;

use crate::errors::CliError;
use crate::matching::{ElementModel, LogRecord, MatchingList, list_admits_message};

verus! {

/// An inclusive block range.
#[derive(PartialEq, Eq, Structural, Clone, Copy, Debug)]
pub struct BlockRange {
    pub start: u64,
    pub end: u64,
}

pub open spec fn sat_sub(a: int, b: int) -> int {
    if a >= b {
        a - b
    } else {
        0
    }
}

/// How many chunks cover a window: `ceil(window / chunk)`.
pub open spec fn chunk_count(window: int, chunk: int) -> int {
    (window + chunk - 1) / chunk
}

/// Upper end of the chunk whose distance from the newest chunk is
/// `dist`, clamped at zero.
pub open spec fn range_end_at(finalized: int, chunk: int, dist: int) -> int {
    sat_sub(finalized, dist * chunk)
}

/// Lower end of a chunk: `end - chunk + 1`, clamped at zero.
pub open spec fn range_start_of(end: int, chunk: int) -> int {
    sat_sub(end + 1, chunk)
}

/// Plans the chunk ranges of one scan, oldest first: the `j`-th of `n`
/// ranges ends at distance `n - 1 - j` chunks below the finalized
/// height, and starts one chunk lower, both clamped at zero.
pub fn plan_ranges(finalized: u64, window_blocks: u64, chunk_blocks: u64) -> (r: Vec<BlockRange>)
    requires
        chunk_blocks >= 1,
    ensures
        r@.len() == chunk_count(window_blocks as int, chunk_blocks as int),
        forall|j: int|
            0 <= j < r@.len() ==> (#[trigger] r@[j]).end == range_end_at(
                finalized as int,
                chunk_blocks as int,
                r@.len() - 1 - j,
            ) && r@[j].start == range_start_of(r@[j].end as int, chunk_blocks as int),
{
    if window_blocks == 0 {
        proof {
            assert((chunk_blocks as int - 1) / chunk_blocks as int == 0) by (nonlinear_arith)
                requires
                    chunk_blocks >= 1,
            ;
        }
        let out: Vec<BlockRange> = Vec::new();
        return out;
    }
    let n: u64 = (window_blocks - 1) / chunk_blocks + 1;
    proof {
        assert(n == chunk_count(window_blocks as int, chunk_blocks as int)) by (nonlinear_arith)
            requires
                chunk_blocks >= 1,
                window_blocks >= 1,
                n == (window_blocks - 1) as int / chunk_blocks as int + 1,
        ;
    }
    let mut out: Vec<BlockRange> = Vec::new();
    let mut j: u64 = 0;
    while j < n
        invariant
            chunk_blocks >= 1,
            window_blocks >= 1,
            n == chunk_count(window_blocks as int, chunk_blocks as int),
            n == (window_blocks - 1) as int / chunk_blocks as int + 1,
            n >= 1,
            0 <= j <= n,
            out@.len() == j,
            forall|k: int|
                0 <= k < j ==> (#[trigger] out@[k]).end == range_end_at(
                    finalized as int,
                    chunk_blocks as int,
                    n - 1 - k,
                ) && out@[k].start == range_start_of(out@[k].end as int, chunk_blocks as int),
        decreases n - j,
    {
        let dist: u64 = n - 1 - j;
        proof {
            assert(dist * chunk_blocks <= (window_blocks - 1) as int) by (nonlinear_arith)
                requires
                    chunk_blocks >= 1,
                    window_blocks >= 1,
                    n == (window_blocks - 1) as int / chunk_blocks as int + 1,
                    0 <= dist <= n - 1,
            ;
        }
        let offset: u64 = dist * chunk_blocks;
        let range_end: u64 = if finalized >= offset {
            finalized - offset
        } else {
            0
        };
        let range_start: u64 = if range_end >= chunk_blocks {
            range_end - chunk_blocks + 1
        } else {
            0
        };
        out.push(BlockRange { start: range_start, end: range_end });
        j += 1;
    }
    out
}

/// When the window is a whole number of chunks and the chain is tall
/// enough, the planned ranges exactly tile the most recent `window`
/// blocks `[finalized - window + 1, finalized]`: each range is one
/// chunk wide, consecutive ranges abut, the oldest range starts at the
/// window's lower edge and the newest ends at the finalized height.
pub proof fn lemma_ranges_tile(finalized: int, window: int, chunk: int)
    requires
        chunk >= 1,
        window >= 1,
        window % chunk == 0,
        finalized >= window - 1,
    ensures
        chunk_count(window, chunk) == window / chunk,
        ({
            let n = chunk_count(window, chunk);
            forall|j: int|
                0 <= j < n ==> #[trigger] range_end_at(finalized, chunk, n - 1 - j) == finalized
                    - (n - 1 - j) * chunk
        }),
        ({
            let n = chunk_count(window, chunk);
            forall|j: int|
                0 <= j < n ==> #[trigger] range_start_of(
                    range_end_at(finalized, chunk, n - 1 - j),
                    chunk,
                ) == finalized - (n - 1 - j) * chunk - chunk + 1
        }),
        range_start_of(range_end_at(finalized, chunk, chunk_count(window, chunk) - 1), chunk)
            == finalized - window + 1,
        range_end_at(finalized, chunk, 0) == finalized,
{
    let n = chunk_count(window, chunk);
    assert(n == window / chunk && n * chunk == window) by (nonlinear_arith)
        requires
            chunk >= 1,
            window >= 1,
            window % chunk == 0,
            n == (window + chunk - 1) / chunk,
    ;
    assert forall|j: int| 0 <= j < n implies #[trigger] range_end_at(finalized, chunk, n - 1 - j)
        == finalized - (n - 1 - j) * chunk && range_start_of(
        range_end_at(finalized, chunk, n - 1 - j),
        chunk,
    ) == finalized - (n - 1 - j) * chunk - chunk + 1 by {
        let d = n - 1 - j;
        assert(0 <= d * chunk && d * chunk + chunk <= window) by (nonlinear_arith)
            requires
                chunk >= 1,
                0 <= d,
                d + 1 <= n,
                n * chunk == window,
        ;
        assert(finalized - d * chunk >= chunk - 1);
    }
    assert((n - 1) * chunk + chunk == window) by (nonlinear_arith)
        requires
            n * chunk == window,
    ;
    assert(range_end_at(finalized, chunk, n - 1) == finalized - (n - 1) * chunk);
    assert(range_start_of(finalized - (n - 1) * chunk, chunk) == finalized - window + 1);
}

/// The records of `logs` admitted by the list, in their given order.
pub open spec fn admitted(l: Seq<ElementModel>, logs: Seq<LogRecord>) -> Seq<LogRecord>
    decreases logs.len(),
{
    if logs.len() == 0 {
        Seq::empty()
    } else {
        let head = if list_admits_message(l, logs[0]@) {
            seq![logs[0]]
        } else {
            Seq::empty()
        };
        head + admitted(l, logs.skip(1))
    }
}

/// Splitting the admitted records at the head of a suffix.
proof fn lemma_admitted_step(l: Seq<ElementModel>, s: Seq<LogRecord>, i: int)
    requires
        0 <= i < s.len(),
    ensures
        admitted(l, s.skip(i)) == (if list_admits_message(l, s[i]@) {
            seq![s[i]]
        } else {
            Seq::<LogRecord>::empty()
        }) + admitted(l, s.skip(i + 1)),
{
    assert(s.skip(i)[0] == s[i]);
    assert(s.skip(i).skip(1) =~= s.skip(i + 1));
}

/// Any indexer failure while scanning a chain aborts that chain's
/// scan and is reported under the chain's name; no chunk is retried.
pub fn indexer_failure(chain_name: String) -> (r: CliError)
    ensures
        r matches CliError::IndexerError { chain } && chain@ == chain_name@,
{
    CliError::IndexerError { chain: chain_name }
}

/// One chain's accumulator: the admitted records of the chunks fed so
/// far, oldest chunk first, each chunk's records in their given order.
pub struct ScanAccumulator {
    pub logs: Vec<LogRecord>,
}

impl ScanAccumulator {
    pub fn new() -> (r: ScanAccumulator)
        ensures
            r.logs@.len() == 0,
    {
        ScanAccumulator { logs: Vec::new() }
    }

    /// Feeds one chunk's logs through the matching list and appends the
    /// survivors, in order, after everything accumulated so far.
    pub fn feed(&mut self, list: &MatchingList, chunk: Vec<LogRecord>)
        ensures
            final(self).logs@ == old(self).logs@ + admitted(list@, chunk@),
    {
        let ghost all = chunk@;
        let mut rest = chunk;
        proof {
            assert(all.skip(0) =~= all);
        }
        while rest.len() > 0
            invariant
                rest@.len() <= all.len(),
                rest@ == all.skip(all.len() - rest@.len()),
                self.logs@ + admitted(list@, rest@) == old(self).logs@ + admitted(list@, all),
            decreases rest@.len(),
        {
            let ghost i = all.len() - rest@.len();
            let record = rest.remove(0);
            proof {
                assert(record == all.skip(i)[0]);
                assert(rest@ =~= all.skip(i + 1));
                lemma_admitted_step(list@, all, i as int);
            }
            if list.message_matches(&record, false) {
                self.logs.push(record);
            }
            proof {
                assert(self.logs@ + admitted(list@, rest@) =~= old(self).logs@ + admitted(
                    list@,
                    all,
                ));
            }
        }
        proof {
            assert(admitted(list@, rest@) =~= Seq::<LogRecord>::empty());
            assert(self.logs@ =~= old(self).logs@ + admitted(list@, all));
        }
    }

    /// The accumulated records, newest first: presentation order.
    pub fn into_newest_first(self) -> (r: Vec<LogRecord>)
        ensures
            r@ == self.logs@.reverse(),
    {
        let orig = self.logs;
        let ghost whole = orig@;
        let mut rest = orig;
        let mut out: Vec<LogRecord> = Vec::new();
        proof {
            assert(out@ =~= whole.reverse().take(0));
        }
        while rest.len() > 0
            invariant
                rest@.len() <= whole.len(),
                rest@ == whole.take(rest@.len() as int),
                out@ == whole.reverse().take(whole.len() - rest@.len()),
            decreases rest@.len(),
        {
            let ghost k = whole.len() - rest@.len();
            let popped = rest.pop();
            let record = popped.unwrap();
            proof {
                assert(record == whole[whole.len() - k - 1]);
                assert(record == whole.reverse()[k as int]);
                assert(rest@ =~= whole.take(rest@.len() as int));
            }
            out.push(record);
            proof {
                assert(out@ =~= whole.reverse().take(k + 1));
            }
        }
        proof {
            assert(out@ =~= whole.reverse());
        }
        out
    }
}

} // verus!
