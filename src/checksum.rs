//! The bootcode checksum: mixing primitives and the per-round state update.

use vstd::prelude::*;

verus! {

/// Multiplier of the checksum's mixing function.
pub const MAGIC_NUMBER: u32 = 0x6c07_8965;

/// `high32(p) - low32(p)` for the 64-bit product `p = base * main`, where a
/// zero `main` is replaced by `alt`; a zero difference yields `base`.
pub open spec fn mul_diff(base: u32, main: u32, alt: u32) -> u32 {
    let factor: u32 = if main == 0 { alt } else { main };
    let prod: int = base as int * factor as int;
    let diff: u32 = ((prod / 0x1_0000_0000) as u32).wrapping_sub((prod % 0x1_0000_0000) as u32);
    if diff == 0 { base } else { diff }
}

/// `MAGIC_NUMBER * (seed & 0xFF) + 1`, modulo 2^32.
pub open spec fn init_value(seed: u32) -> u32 {
    ((MAGIC_NUMBER as int * (seed & 0xff) as int + 1) % 0x1_0000_0000) as u32
}

/// The checksum's mixing primitive: see [`mul_diff`].
pub fn hash_mul_diff(factor_base: u32, factor_main: u32, factor_alt: u32) -> (r: u32)
    ensures
        r == mul_diff(factor_base, factor_main, factor_alt),
{
    let factor: u32 = if factor_main == 0 { factor_alt } else { factor_main };
    assert(factor_base as int * factor as int <= 0xffff_ffff * 0xffff_ffff) by (nonlinear_arith);
    let prod: u64 = factor_base as u64 * factor as u64;
    let high: u32 = #[verifier::truncate] ((prod >> 32) as u32);
    let low: u32 = #[verifier::truncate] (prod as u32);
    assert(high == (prod / 0x1_0000_0000) as u32 && low == (prod % 0x1_0000_0000) as u32)
        by (bit_vector)
        requires
            high == (prod >> 32) as u32,
            low == prod as u32,
    ;
    let diff: u32 = high.wrapping_sub(low);
    if diff == 0 {
        factor_base
    } else {
        diff
    }
}

/// Value for the first bootcode word that makes the initial state all zero.
pub fn calc_init_value(seed: u32) -> (r: u32)
    ensures
        r == init_value(seed),
{
    let low: u32 = seed & 0xff;
    assert(low <= 0xff) by (bit_vector)
        requires low == seed & 0xff;
    assert(MAGIC_NUMBER as int * low as int + 1 < 0x1_0000_0000 * 0x100) by (nonlinear_arith)
        requires low <= 0xff;
    let prod: u64 = MAGIC_NUMBER as u64 * low as u64 + 1;
    let r: u32 = #[verifier::truncate] (prod as u32);
    assert(r == (prod % 0x1_0000_0000) as u32) by (bit_vector)
        requires r == prod as u32;
    r
}


/// Rotation of `x` right by `n` bits, for `n < 32`.
pub open spec fn rotr(x: u32, n: u32) -> u32
    recommends
        n < 32,
{
    if n == 0 {
        x
    } else {
        (x >> n) | (x << (32 - n) as u32)
    }
}

/// Rotation of `x` left by `n` bits, for `n < 32`.
pub open spec fn rotl(x: u32, n: u32) -> u32
    recommends
        n < 32,
{
    if n == 0 {
        x
    } else {
        (x << n) | (x >> (32 - n) as u32)
    }
}

fn rotate_right(x: u32, n: u32) -> (r: u32)
    requires
        n < 32,
    ensures
        r == rotr(x, n),
{
    if n == 0 {
        x
    } else {
        (x >> n) | (x << (32 - n))
    }
}

fn rotate_left(x: u32, n: u32) -> (r: u32)
    requires
        n < 32,
    ensures
        r == rotl(x, n),
{
    if n == 0 {
        x
    } else {
        (x << n) | (x >> (32 - n))
    }
}

/// The sixteen-word checksum state.
#[derive(Clone, Copy)]
pub struct State {
    pub buffer: [u32; 16],
}

/// The state that a seed and the first data word start from: every word is
/// `init_value(seed) ^ first`.
pub open spec fn initial_state(seed: u32, first: u32) -> Seq<u32> {
    Seq::new(16, |_i: int| init_value(seed) ^ first)
}

/// The part of a round that reads the current and the previous data word:
/// words 0, 2, 3, 4, 5, 6 and 9.
pub open spec fn round_head(s: Seq<u32>, cur: u32, last: u32, round: u32) -> Seq<u32> {
    let b0 = s[0].wrapping_add(mul_diff(1007u32.wrapping_sub(round), cur, round));
    let b2 = s[2] ^ cur;
    let b3 = s[3].wrapping_add(mul_diff(cur.wrapping_add(5), MAGIC_NUMBER, round));
    let b4 = s[4].wrapping_add(rotr(cur, last & 31));
    let b5 = s[5].wrapping_add(rotl(cur, last >> 27u32));
    let b6 = if cur < s[6] {
        b3.wrapping_add(s[6]) ^ cur.wrapping_add(round)
    } else {
        b4.wrapping_add(cur) ^ s[6]
    };
    let b9 = if last < cur {
        mul_diff(s[9], cur, round)
    } else {
        s[9].wrapping_add(cur)
    };
    s.update(0, b0).update(2, b2).update(3, b3).update(4, b4).update(5, b5).update(6, b6).update(
        9,
        b9,
    )
}

/// The part of a round that reads the next data word: words 10 to 13.
pub open spec fn round_tail(s: Seq<u32>, cur: u32, next: u32, round: u32) -> Seq<u32> {
    let b10 = mul_diff(s[10].wrapping_add(cur), next, round);
    let b11 = mul_diff(s[11] ^ cur, next, round);
    let b12 = s[12].wrapping_add(cur);
    let b13 = s[13].wrapping_add(rotr(cur, cur & 31).wrapping_add(rotr(next, next & 31)));
    s.update(10, b10).update(11, b11).update(12, b12).update(13, b13)
}

/// Round `round` (1 to 1008) of the checksum over `data`. The last round has
/// no next word and skips the tail.
pub open spec fn step(s: Seq<u32>, data: Seq<u32>, round: u32) -> Seq<u32> {
    let cur = data[round - 1];
    let last = if round == 1 { data[0] } else { data[round - 2] };
    let head = round_head(s, cur, last, round);
    if round == 1008 {
        head
    } else {
        round_tail(head, cur, data[round as int], round)
    }
}

/// Rounds `first` to `last` applied in order; no round when `last < first`.
pub open spec fn rounds(s: Seq<u32>, data: Seq<u32>, first: int, last: int) -> Seq<u32>
    decreases last - first + 1,
{
    if last < first {
        s
    } else {
        step(rounds(s, data, first, last - 1), data, last as u32)
    }
}

/// What a round needs of the data: the current word, and the next one unless
/// it is the last round.
pub open spec fn round_readable(data_len: int, round: u32) -> bool {
    &&& 1 <= round <= 1008
    &&& round <= data_len
    &&& round < 1008 ==> round < data_len
}

impl State {
    /// The initial state for `seed`, with every word `init_value(seed) ^ data[0]`.
    pub fn new(seed: u32, data: &[u32]) -> (r: Self)
        requires
            data@.len() >= 1,
        ensures
            r.buffer@ == initial_state(seed, data@[0]),
            forall|i: int| 0 <= i < 16 ==> r.buffer@[i] == init_value(seed) ^ data@[0],
    {
        let init: u32 = calc_init_value(seed);
        let r = State { buffer: [init ^ data[0];16] };
        assert(r.buffer@ =~= initial_state(seed, data@[0]));
        r
    }
}

/// The first half of round 1007, which does not depend on `data[1007]`:
/// with `data[1005] == data[1006] == 0` only words 3 and 6 change.
pub fn calc_step_1007_indep(state: &mut State)
    ensures
        final(state).buffer@ == round_head(old(state).buffer@, 0, 0, 1007),
{
    let ghost s = state.buffer@;
    state.buffer[3] = state.buffer[3].wrapping_add(hash_mul_diff(5, MAGIC_NUMBER, 1007));
    if 0 < state.buffer[6] {
        state.buffer[6] = state.buffer[3].wrapping_add(state.buffer[6]) ^ 1007;
    } else {
        state.buffer[6] = state.buffer[4] ^ state.buffer[6];
    }
    assert(0u32 & 31 == 0 && 0u32 >> 27u32 == 0) by (bit_vector);
    assert(forall|w: u32| #[trigger] (w ^ 0) == w) by (bit_vector);
    assert(state.buffer[6] == s[4] ^ s[6] ==> state.buffer[6] == s[4].wrapping_add(0) ^ s[6]);
    assert(final(state).buffer@ =~= round_head(s, 0, 0, 1007));
}

/// Applies round `round` of the checksum to `state`.
pub fn calc_step(state: &mut State, data: &[u32], round: u32)
    requires
        round_readable(data@.len() as int, round),
    ensures
        final(state).buffer@ == step(old(state).buffer@, data@, round),
{
    let ghost s = state.buffer@;
    let data_last = data[if round == 1 { 0 } else { (round - 2) as usize }];
    let data_curr = data[(round - 1) as usize];
    assert(data_last & 31 < 32 && data_last >> 27u32 < 32) by (bit_vector);

    state.buffer[0] = state.buffer[0].wrapping_add(
        hash_mul_diff(1007u32.wrapping_sub(round), data_curr, round),
    );
    state.buffer[2] = state.buffer[2] ^ data_curr;
    state.buffer[3] = state.buffer[3].wrapping_add(
        hash_mul_diff(data_curr.wrapping_add(5), MAGIC_NUMBER, round),
    );
    state.buffer[4] = state.buffer[4].wrapping_add(rotate_right(data_curr, data_last & 31));
    state.buffer[5] = state.buffer[5].wrapping_add(rotate_left(data_curr, data_last >> 27));
    if data_curr < state.buffer[6] {
        state.buffer[6] = state.buffer[3].wrapping_add(state.buffer[6]) ^ data_curr.wrapping_add(
            round,
        );
    } else {
        state.buffer[6] = state.buffer[4].wrapping_add(data_curr) ^ state.buffer[6];
    }
    if data_last < data_curr {
        state.buffer[9] = hash_mul_diff(state.buffer[9], data_curr, round);
    } else {
        state.buffer[9] = state.buffer[9].wrapping_add(data_curr);
    }
    assert(state.buffer@ =~= round_head(s, data_curr, data_last, round));
    if round == 1008 {
        return ;
    }
    let ghost head = state.buffer@;
    let data_next = data[round as usize];
    assert(data_curr & 31 < 32 && data_next & 31 < 32) by (bit_vector);
    state.buffer[10] = hash_mul_diff(state.buffer[10].wrapping_add(data_curr), data_next, round);
    state.buffer[11] = hash_mul_diff(state.buffer[11] ^ data_curr, data_next, round);
    state.buffer[12] = state.buffer[12].wrapping_add(data_curr);
    state.buffer[13] = state.buffer[13].wrapping_add(
        rotate_right(data_curr, data_curr & 31).wrapping_add(rotate_right(data_next, data_next & 31)),
    );
    assert(state.buffer@ =~= round_tail(head, data_curr, data_next, round));
}

/// Applies rounds `round_start` to `round_end` of the checksum to `state`.
pub fn calc(state: &mut State, data: &[u32], round_start: u32, round_end: u32)
    requires
        1 <= round_start,
        round_end < round_start || round_readable(data@.len() as int, round_end),
    ensures
        final(state).buffer@ == rounds(old(state).buffer@, data@, round_start as int, round_end as int),
{
    let ghost s = state.buffer@;
    let mut round: u32 = round_start;
    while round <= round_end
        invariant
            1 <= round_start <= round,
            round <= round_end + 1 || round == round_start,
            round_end < round_start || round_readable(data@.len() as int, round_end),
            state.buffer@ == rounds(s, data@, round_start as int, round - 1),
        decreases round_end + 1 - round,
    {
        calc_step(state, data, round);
        round = round + 1;
    }
}


/// A zero main factor is replaced by the alternative one:
/// `mul_diff(b, 0, a) == mul_diff(b, a, a)`; a non-zero main factor ignores it.
pub proof fn lemma_mul_diff_zero_main(b: u32, m: u32, a: u32)
    ensures
        mul_diff(b, 0, a) == mul_diff(b, a, a),
        m != 0 ==> forall|a2: u32| mul_diff(b, m, a) == #[trigger] mul_diff(b, m, a2),
{
}

/// The last round reads no word past index 1007: two windows that agree on
/// their first 1008 words give the same round 1008, and a window of exactly
/// 1008 words is enough for it.
pub proof fn lemma_last_round_stays_in_window(s: Seq<u32>, d1: Seq<u32>, d2: Seq<u32>)
    requires
        d1.len() >= 1008,
        d2.len() >= 1008,
        d1.subrange(0, 1008) == d2.subrange(0, 1008),
    ensures
        step(s, d1, 1008) == step(s, d2, 1008),
        round_readable(1008, 1008),
{
    assert(d1[1007] == d1.subrange(0, 1008)[1007]);
    assert(d2[1007] == d2.subrange(0, 1008)[1007]);
    assert(d1[1006] == d1.subrange(0, 1008)[1006]);
    assert(d2[1006] == d2.subrange(0, 1008)[1006]);
}

/// Round 1007 with `data[1005] == data[1006] == 0` is its data-independent
/// half (what `calc_step_1007_indep` applies) followed by the tail that reads
/// `data[1007]`.
pub proof fn lemma_round_1007_split(s: Seq<u32>, data: Seq<u32>)
    requires
        data.len() >= 1008,
        data[1005] == 0,
        data[1006] == 0,
    ensures
        step(s, data, 1007) == round_tail(round_head(s, 0, 0, 1007), 0, data[1007], 1007),
{
}

} // verus!
