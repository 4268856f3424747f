//! The search over the scratch words (Y, X) of the bootcode window.
//!
//! The host prepares a frozen state after round 1002, patches it for each Y
//! (rounds 1003 to 1006 and the data-independent half of round 1007), and
//! hands it to the GPU kernel, which tries every non-zero X in batches.

use vstd::prelude::*;
use crate::checksum::{
    State, calc_init_value, calc_step, calc_step_1007_indep, init_value, initial_state,
    round_head, rounds, step,
};

verus! {

/// Number of words of the bootcode window that the checksum reads.
pub const BOOTCODE_WORDS: usize = 1008;

/// Candidate X values each GPU thread tries (the kernel has the same number).
pub const GPU_BATCH_COUNT: u32 = 128;

/// Workgroups per grid side of one dispatch.
pub const GPU_GROUP_SIZE_XY: u32 = 512;

/// Candidate X values covered by one dispatch.
pub const GPU_STEP_SIZE: u32 = GPU_GROUP_SIZE_XY * GPU_GROUP_SIZE_XY * GPU_BATCH_COUNT;

/// The window with its first word set so that the seed cancels out of the
/// initial state.
pub open spec fn prepared_window(seed: u32, data: Seq<u32>) -> Seq<u32> {
    data.update(0, init_value(seed))
}

/// The frozen state after rounds 1 to 1002 of the prepared window.
pub open spec fn starting_state(seed: u32, data: Seq<u32>) -> Seq<u32> {
    let d = prepared_window(seed, data);
    rounds(initial_state(seed, d[0]), d, 1, 1002)
}

/// The word written at index 1003 so that word 12 of the state cancels out.
pub open spec fn compensator(start12: u32, y: u32) -> u32 {
    0u32.wrapping_sub(start12).wrapping_sub(y)
}

/// The window with the scratch words of one Y written in.
pub open spec fn patched_window(data: Seq<u32>, start12: u32, y: u32) -> Seq<u32> {
    data.update(1003, compensator(start12, y)).update(1004, y).update(1005, 0).update(1006, 0)
}

/// The state handed to the GPU: rounds 1003 to 1006 from the frozen state,
/// then the data-independent half of round 1007.
pub open spec fn patched_state(start: Seq<u32>, data: Seq<u32>) -> Seq<u32> {
    round_head(rounds(start, data, 1003, 1006), 0, 0, 1007)
}

/// The words that the GPU kernel takes to be zero.
pub open spec fn handoff_ready(s: Seq<u32>) -> bool {
    &&& s[1] == 0
    &&& s[7] == 0
    &&& s[8] == 0
    &&& s[12] == 0
    &&& s[14] == 0
    &&& s[15] == 0
}

/// Sets the first word of the window and returns the frozen state after
/// round 1002.
pub fn prepare_starting_state(seed: u32, data: &mut [u32]) -> (r: State)
    requires
        old(data)@.len() >= BOOTCODE_WORDS,
    ensures
        final(data)@ == prepared_window(seed, old(data)@),
        r.buffer@ == starting_state(seed, old(data)@),
{
    data[0] = calc_init_value(seed);
    let mut state = State::new(seed, data);
    crate::checksum::calc(&mut state, data, 1, 1002);
    state
}

/// Writes the scratch words of `y` into the window and returns the state that
/// the GPU kernel finishes.
pub fn patch_state(starting: &State, data: &mut [u32], y: u32) -> (r: State)
    requires
        old(data)@.len() >= BOOTCODE_WORDS,
    ensures
        final(data)@ == patched_window(old(data)@, starting.buffer@[12], y),
        r.buffer@ == patched_state(starting.buffer@, final(data)@),
{
    let mut state = *starting;
    data[1003] = 0u32.wrapping_sub(state.buffer[12]).wrapping_sub(y);
    data[1004] = y;
    data[1005] = 0;
    data[1006] = 0;
    calc_step(&mut state, data, 1003);
    calc_step(&mut state, data, 1004);
    calc_step(&mut state, data, 1005);
    calc_step(&mut state, data, 1006);
    calc_step_1007_indep(&mut state);
    proof {
        reveal_with_fuel(rounds, 5);
    }
    state
}

/// Whether the words that the GPU kernel takes to be zero are zero.
pub fn is_handoff_ready(state: &State) -> (r: bool)
    ensures
        r == handoff_ready(state.buffer@),
{
    state.buffer[1] == 0 && state.buffer[7] == 0 && state.buffer[8] == 0 && state.buffer[12] == 0
        && state.buffer[14] == 0 && state.buffer[15] == 0
}


/// First X of batch `k`: the dispatches step through `1..0xFFFF_FFFF`.
pub open spec fn batch_offset(k: int) -> int {
    1 + k * GPU_STEP_SIZE
}

/// The X-base pushed to each dispatch of one Y, in order.
pub fn batch_offsets() -> (r: Vec<u32>)
    ensures
        r@.len() * GPU_STEP_SIZE >= 0xffff_fffe,
        (r@.len() - 1) * GPU_STEP_SIZE < 0xffff_fffe,
        forall|k: int| 0 <= k < r@.len() ==> r@[k] == batch_offset(k),
{
    let mut r: Vec<u32> = Vec::new();
    let mut x: u64 = 1;
    assert(GPU_STEP_SIZE == 0x200_0000);
    while x < 0xffff_ffff
        invariant
            GPU_STEP_SIZE == 0x200_0000,
            x == 1 + r@.len() * GPU_STEP_SIZE,
            x <= 0xffff_ffff + GPU_STEP_SIZE,
            r@.len() == 0 || (r@.len() - 1) * GPU_STEP_SIZE < 0xffff_fffe,
            forall|k: int| 0 <= k < r@.len() ==> r@[k] == batch_offset(k),
        decreases 0xffff_ffff + GPU_STEP_SIZE - x,
    {
        r.push(x as u32);
        x = x + GPU_STEP_SIZE as u64;
    }
    r
}

/// What the search does after the result of one Y has been read back.
#[derive(Clone, Copy, Debug, PartialEq, Eq, Structural)]
pub enum Outcome {
    /// The kernel reported a match: `x` has been written into the window.
    Found { y: u32, x: u32 },
    /// No match for this Y; `report` asks for a progress line.
    Continue { report: bool },
}

/// Progress of the search over Y.
pub struct Search {
    /// The frozen state after round 1002.
    pub starting: State,
    /// The first Y tried.
    pub y_start: u32,
    /// The Y tried next; `0xFFFF_FFFF` once the space is exhausted.
    pub y: u64,
    /// Candidate (Y, X) pairs tried so far.
    pub total_hash_count: u64,
}

impl Search {
    /// The counters agree with each other.
    pub open spec fn wf(&self) -> bool {
        &&& 1 <= self.y_start <= self.y <= 0xffff_ffff
        &&& self.total_hash_count == (self.y - self.y_start) * 0xffff_ffff
    }

    /// Prepares the window for `seed` and starts at `offset` (Y is never zero:
    /// a zero offset starts at 1).
    pub fn new(seed: u32, offset: u32, data: &mut [u32]) -> (r: Search)
        requires
            old(data)@.len() >= BOOTCODE_WORDS,
        ensures
            r.wf(),
            final(data)@ == prepared_window(seed, old(data)@),
            r.starting.buffer@ == starting_state(seed, old(data)@),
            r.y_start == if offset == 0 { 1 } else { offset },
            r.y == r.y_start,
            r.total_hash_count == 0,
    {
        let starting = prepare_starting_state(seed, data);
        let y_start: u32 = if offset == 0 { 1 } else { offset };
        Search { starting, y_start, y: y_start as u64, total_hash_count: 0 }
    }

    /// Patches the window for the current Y and returns the state to upload,
    /// or `None` once every Y below `0xFFFF_FFFF` has been tried.
    pub fn begin(&self, data: &mut [u32]) -> (r: Option<State>)
        requires
            self.wf(),
            old(data)@.len() >= BOOTCODE_WORDS,
        ensures
            self.y == 0xffff_ffff ==> r is None && final(data)@ == old(data)@,
            self.y < 0xffff_ffff ==> {
                &&& final(data)@ == patched_window(
                    old(data)@,
                    self.starting.buffer@[12],
                    self.y as u32,
                )
                &&& r matches Some(s) && s.buffer@ == patched_state(
                    self.starting.buffer@,
                    final(data)@,
                )
            },
    {
        if self.y >= 0xffff_ffff {
            return None;
        }
        Some(patch_state(&self.starting, data, self.y as u32))
    }

    /// Takes the result words read back after all dispatches of the current Y
    /// (`[success_flag, found_hash_hi, found_x, reserved]`). On a match, writes
    /// X into the window; otherwise moves on to the next Y.
    pub fn finish(&mut self, data: &mut [u32], result: [u32; 4]) -> (r: Outcome)
        requires
            old(self).wf(),
            old(self).y < 0xffff_ffff,
            old(data)@.len() >= BOOTCODE_WORDS,
        ensures
            final(self).wf(),
            result[0] != 0 ==> {
                &&& r == (Outcome::Found { y: old(self).y as u32, x: result[2] })
                &&& final(data)@ == old(data)@.update(1007, result[2])
                &&& *final(self) == *old(self)
            },
            result[0] == 0 ==> {
                &&& r == (Outcome::Continue { report: (old(self).y - old(self).y_start) % 4 == 0 })
                &&& final(data)@ == old(data)@
                &&& final(self).starting == old(self).starting
                &&& final(self).y_start == old(self).y_start
                &&& final(self).y == old(self).y + 1
                &&& final(self).total_hash_count == old(self).total_hash_count + 0xffff_ffff
            },
    {
        if result[0] != 0 {
            let x = result[2];
            data[1007] = x;
            return Outcome::Found { y: self.y as u32, x };
        }
        let report = (self.y - self.y_start as u64) % 4 == 0;
        proof {
            let n = self.y - self.y_start;
            assert((n + 1) * 0xffff_ffff == n * 0xffff_ffff + 0xffff_ffff) by (nonlinear_arith);
            assert(n * 0xffff_ffff <= 0xffff_fffe * 0xffff_ffff) by (nonlinear_arith)
                requires
                    n <= 0xffff_fffe,
            ;
        }
        self.total_hash_count = self.total_hash_count + 0xffff_ffff;
        self.y = self.y + 1;
        Outcome::Continue { report }
    }
}

/// Relies on fastrand::u32: a value drawn from `0..bound`.
#[verifier::external_body]
fn random_below(bound: u32) -> (r: u32)
    requires
        bound > 0,
    ensures
        r < bound,
{
    fastrand::u32(..bound)
}

/// Bound of the random default for the first Y.
pub const RANDOM_Y_BOUND: u32 = 0xffff_0000;

/// The first Y: the given offset, or a random one below `RANDOM_Y_BOUND`.
pub fn choose_y_start(offset: Option<u32>) -> (r: u32)
    ensures
        offset matches Some(o) ==> r == o,
        offset is None ==> r < RANDOM_Y_BOUND,
{
    match offset {
        Some(o) => o,
        None => random_below(RANDOM_Y_BOUND),
    }
}


/// A word that no round changes.
pub open spec fn idle_word(i: int) -> bool {
    i == 1 || i == 7 || i == 8 || i == 14 || i == 15
}

proof fn lemma_rounds_keep_idle(s: Seq<u32>, data: Seq<u32>, first: int, last: int)
    requires
        s.len() == 16,
    ensures
        rounds(s, data, first, last).len() == 16,
        forall|i: int| idle_word(i) ==> #[trigger] rounds(s, data, first, last)[i] == s[i],
    decreases last - first + 1,
{
    if last >= first {
        lemma_rounds_keep_idle(s, data, first, last - 1);
    }
}

proof fn lemma_step_word12(s: Seq<u32>, data: Seq<u32>, round: u32)
    requires
        s.len() == 16,
        1 <= round < 1008,
        round < data.len(),
    ensures
        step(s, data, round).len() == 16,
        step(s, data, round)[12] == s[12].wrapping_add(data[round - 1]),
{
}

/// After the per-Y patch of a prepared window whose word 1002 is zero, the six
/// words that the GPU kernel takes to be zero are zero, for every seed and Y.
pub proof fn lemma_patch_zeroes_idle_words(seed: u32, data: Seq<u32>, y: u32)
    requires
        data.len() >= BOOTCODE_WORDS,
        data[1002] == 0,
    ensures
        ({
            let start = starting_state(seed, data);
            handoff_ready(patched_state(start, patched_window(prepared_window(seed, data), start[12], y)))
        }),
{
    let d = prepared_window(seed, data);
    let init = initial_state(seed, d[0]);
    assert(forall|w: u32| #[trigger] (w ^ w) == 0) by (bit_vector);
    assert(forall|i: int| 0 <= i < 16 ==> #[trigger] init[i] == 0);
    lemma_rounds_keep_idle(init, d, 1, 1002);
    let start = starting_state(seed, data);
    let p = patched_window(d, start[12], y);
    lemma_rounds_keep_idle(start, p, 1003, 1006);
    let s3 = rounds(start, p, 1003, 1003);
    let s4 = rounds(start, p, 1003, 1004);
    let s5 = rounds(start, p, 1003, 1005);
    let s6 = rounds(start, p, 1003, 1006);
    assert(rounds(start, p, 1003, 1002) == start);
    lemma_step_word12(start, p, 1003);
    lemma_step_word12(s3, p, 1004);
    lemma_step_word12(s4, p, 1005);
    lemma_step_word12(s5, p, 1006);
    let a = start[12];
    assert(a.wrapping_add(0).wrapping_add(0u32.wrapping_sub(a).wrapping_sub(y)).wrapping_add(
        y,
    ).wrapping_add(0) == 0);
    assert(s6[12] == 0);
}

/// Every non-zero X lies in the range of batch `(X - 1) / GPU_STEP_SIZE`, which
/// is one of those that `batch_offsets` lists.
pub proof fn lemma_batches_cover(x: u32)
    requires
        x != 0,
    ensures
        ({
            let k = (x - 1) / GPU_STEP_SIZE as int;
            &&& 0 <= k
            &&& k * GPU_STEP_SIZE < 0xffff_fffe
            &&& batch_offset(k) <= x < batch_offset(k) + GPU_STEP_SIZE
        }),
{
    assert(GPU_STEP_SIZE == 0x200_0000);
}

} // verus!
