use vstd::prelude::*;

use crate::primitives::Chain;

verus! {

/// Upper bound on block heights, await buffers and chunk sizes accepted by
/// the loop; keeps every sum of two in-range values, and the end of a burst,
/// inside `u64`.
pub const MAX_HEIGHT: u64 = 0x2000_0000_0000_0000;

/// Durable per-chain progress cursor: the highest height fully processed, the
/// most recently observed chain tip, and the reorg-safety buffer kept below
/// the tip.
pub struct ParserState {
    pub chain: Chain,
    pub current_block: u64,
    pub latest_block: u64,
    pub await_blocks: u64,
}

impl ParserState {
    /// Heights and buffers the loop accepts: small enough that no sum of two
    /// of them can overflow.
    pub open spec fn wf(self) -> bool {
        &&& self.current_block <= MAX_HEIGHT
        &&& self.latest_block <= MAX_HEIGHT
        &&& self.await_blocks <= MAX_HEIGHT
    }
}

/// What one cycle does after the tip was refreshed: sleep because the cursor
/// is within the safety buffer of the tip, or process the inclusive height
/// range of one bounded catch-up burst.
#[derive(Clone, Copy, Debug, PartialEq, Eq, Structural)]
pub enum CycleDecision {
    Wait,
    CatchUp { start: u64, end: u64 },
}

/// Record a freshly observed chain tip: `latest_block` is refreshed
/// independently of `current_block`, so the loop can detect when it has
/// caught up.
pub fn refresh(state: &ParserState, observed_tip: u64) -> (r: ParserState)
    ensures
        r.chain == state.chain,
        r.current_block == state.current_block,
        r.latest_block == observed_tip,
        r.await_blocks == state.await_blocks,
{
    ParserState {
        chain: state.chain,
        current_block: state.current_block,
        latest_block: observed_tip,
        await_blocks: state.await_blocks,
    }
}

/// Last height of a catch-up burst that starts above `current`: the tip, or
/// the next multiple of `chunk` above `current`, whichever comes first.
pub open spec fn spec_burst_end(current: u64, latest: u64, chunk: u64) -> u64
    recommends
        current <= MAX_HEIGHT,
        1 <= chunk <= MAX_HEIGHT,
{
    let boundary = (current / chunk + 1) * chunk;
    if boundary <= latest {
        boundary as u64
    } else {
        latest
    }
}

/// The decision taken by one cycle after Refresh: wait inside the safety
/// buffer, else catch up from the next unprocessed height through one
/// bounded burst.
pub open spec fn spec_plan_cycle(state: ParserState, chunk: u64) -> CycleDecision
    recommends
        state.wf(),
        1 <= chunk <= MAX_HEIGHT,
{
    if state.current_block + state.await_blocks >= state.latest_block {
        CycleDecision::Wait
    } else {
        CycleDecision::CatchUp {
            start: (state.current_block + 1) as u64,
            end: spec_burst_end(state.current_block, state.latest_block, chunk),
        }
    }
}

/// Decide what the cycle does once the tip has been refreshed. No block is
/// fetched when the cursor is within `await_blocks` of the tip; otherwise the
/// burst covers heights `current_block + 1 ..= end`, where `end` stops at the
/// tip or at the next `chunk` boundary so the tip is re-checked periodically
/// instead of processing an unbounded backlog against a stale snapshot.
pub fn plan_cycle(state: &ParserState, chunk: u64) -> (r: CycleDecision)
    requires
        state.wf(),
        1 <= chunk <= MAX_HEIGHT,
    ensures
        r == spec_plan_cycle(*state, chunk),
{
    if state.current_block + state.await_blocks >= state.latest_block {
        CycleDecision::Wait
    } else {
        proof {
            lemma_chunk_boundary(state.current_block, chunk);
        }
        let boundary = (state.current_block / chunk + 1) * chunk;
        let end = if boundary <= state.latest_block {
            boundary
        } else {
            state.latest_block
        };
        CycleDecision::CatchUp { start: state.current_block + 1, end }
    }
}

/// The next multiple of `chunk` above `current` lies in `(current, current + chunk]`.
proof fn lemma_chunk_boundary(current: u64, chunk: u64)
    requires
        current <= MAX_HEIGHT,
        1 <= chunk <= MAX_HEIGHT,
    ensures
        current < (current / chunk + 1) * chunk <= current + chunk,
        ((current / chunk + 1) * chunk) % (chunk as int) == 0,
{
    let c = current as int;
    let k = chunk as int;
    let q = c / k;
    vstd::arithmetic::div_mod::lemma_fundamental_div_mod(c, k);
    vstd::arithmetic::div_mod::lemma_mod_bound(c, k);
    assert((q + 1) * k == q * k + k) by (nonlinear_arith);
    assert(q * k == k * q) by (nonlinear_arith);
    vstd::arithmetic::div_mod::lemma_mod_multiples_basic(q + 1, k);
    assert((q + 1) * k == (q + 1) * k + 0);
}

/// Advance the progress cursor after one height has been fully processed and
/// its results persisted. Heights advance strictly in order, one at a time,
/// and never past the observed tip.
pub fn advance_after_height(state: &mut ParserState, height: u64)
    requires
        old(state).wf(),
        height == old(state).current_block + 1,
        height <= old(state).latest_block,
    ensures
        final(state).chain == old(state).chain,
        final(state).current_block == height,
        final(state).latest_block == old(state).latest_block,
        final(state).await_blocks == old(state).await_blocks,
        final(state).wf(),
        old(state).current_block <= final(state).current_block <= old(state).latest_block,
{
    state.current_block = height;
}

/// Progress monotonicity: a catch-up burst only ever covers heights above the
/// cursor, and never a height beyond the tip observed at this cycle's
/// refresh; so the cursor never moves backwards and never past that tip.
pub proof fn lemma_progress_monotonic(state: ParserState, chunk: u64)
    requires
        state.wf(),
        1 <= chunk <= MAX_HEIGHT,
    ensures
        match spec_plan_cycle(state, chunk) {
            CycleDecision::Wait => true,
            CycleDecision::CatchUp { start, end } => {
                &&& state.current_block < start
                &&& start <= end
                &&& end <= state.latest_block
            },
        },
{
    if state.current_block + state.await_blocks < state.latest_block {
        lemma_chunk_boundary(state.current_block, chunk);
    }
}

/// Where the cursor stands after one cycle in which every planned height
/// succeeded: unchanged on Wait, at the burst's end after catch-up.
pub open spec fn spec_cycle_current_after(state: ParserState, chunk: u64) -> u64 {
    match spec_plan_cycle(state, chunk) {
        CycleDecision::Wait => state.current_block,
        CycleDecision::CatchUp { start, end } => end,
    }
}

/// Progress monotonicity over a whole cycle: after a successful cycle the
/// cursor is at least where it was, and a catch-up cycle never leaves it
/// beyond the tip observed at that cycle's refresh.
pub proof fn lemma_cycle_progress(state: ParserState, chunk: u64)
    requires
        state.wf(),
        1 <= chunk <= MAX_HEIGHT,
    ensures
        state.current_block <= spec_cycle_current_after(state, chunk),
        spec_plan_cycle(state, chunk) is CatchUp ==> spec_cycle_current_after(state, chunk)
            <= state.latest_block,
{
    lemma_progress_monotonic(state, chunk);
}

/// The loop waits exactly when the cursor is within the reorg-safety buffer
/// of the observed tip (or ahead of it); no block is fetched in that case.
pub proof fn lemma_wait_exactly_in_buffer(state: ParserState, chunk: u64)
    requires
        state.wf(),
        1 <= chunk <= MAX_HEIGHT,
    ensures
        (spec_plan_cycle(state, chunk) is Wait) <==> state.current_block + state.await_blocks
            >= state.latest_block,
{
}

/// Reorg buffer at burst entry: when a catch-up burst begins, its first
/// height lies at least `await_blocks` below the observed tip.
pub proof fn lemma_reorg_buffer_at_entry(state: ParserState, chunk: u64)
    requires
        state.wf(),
        1 <= chunk <= MAX_HEIGHT,
    ensures
        match spec_plan_cycle(state, chunk) {
            CycleDecision::Wait => true,
            CycleDecision::CatchUp { start, end } => state.latest_block - start
                >= state.await_blocks,
        },
{
}

/// Reorg buffer over a whole burst, for a loop run without a safety buffer:
/// with `await_blocks == 0`, no height of the burst ever exceeds the observed
/// tip. (With a nonzero buffer a burst may legitimately run up to the tip
/// itself once it is past the buffer check at entry.)
pub proof fn lemma_reorg_buffer_whole_burst(state: ParserState, chunk: u64, h: u64)
    requires
        state.wf(),
        1 <= chunk <= MAX_HEIGHT,
        state.await_blocks == 0,
    ensures
        match spec_plan_cycle(state, chunk) {
            CycleDecision::Wait => true,
            CycleDecision::CatchUp { start, end } => start <= h <= end
                ==> state.latest_block - h >= state.await_blocks,
        },
{
    lemma_progress_monotonic(state, chunk);
}

} // verus!
