use ipl3_bruteforce::checksum::{
    calc_init_value, calc_step, calc_step_1007_indep, hash_mul_diff, State, MAGIC_NUMBER,
};

#[test]
fn init_value_of_seed_9191() {
    // 0x6C078965 * 0x91 + 1, modulo 2^32
    assert_eq!(calc_init_value(0x9191), 0x3044_D236);
}

#[test]
fn init_value_uses_low_byte_only() {
    assert_eq!(calc_init_value(0), 1);
    assert_eq!(calc_init_value(0x100), 1);
    assert_eq!(calc_init_value(0xFFFF_FF01), MAGIC_NUMBER.wrapping_add(1));
    assert_eq!(calc_init_value(0x91), calc_init_value(0x9191));
    for seed in [0x3f_u32, 0x78, 0x85, 0x91, 0xff, 0xdead_beef] {
        let expected = MAGIC_NUMBER.wrapping_mul(seed & 0xff).wrapping_add(1);
        assert_eq!(calc_init_value(seed), expected);
    }
}

#[test]
fn mul_diff_of_magic() {
    // 5 * 0x6C078965 = 0x2_1C25_AEF9: 2 - 0x1C25AEF9
    assert_eq!(hash_mul_diff(5, MAGIC_NUMBER, 1007), 0xE3DA_5109);
}

#[test]
fn mul_diff_zero_main_uses_alt() {
    assert_eq!(hash_mul_diff(7, 0, 42), 0xFFFF_FEDA);
    assert_eq!(hash_mul_diff(7, 0, 42), hash_mul_diff(7, 42, 42));
}

#[test]
fn mul_diff_zero_difference_returns_base() {
    // 641 * 6700417 = 0x1_0000_0001: high and low halves are equal
    assert_eq!(hash_mul_diff(641, 6_700_417, 9), 641);
    assert_eq!(hash_mul_diff(0, 5, 1), 0);
}

#[test]
fn mul_diff_nonzero_main_ignores_alt() {
    assert_eq!(hash_mul_diff(0x1234, 0x5678, 1), hash_mul_diff(0x1234, 0x5678, 99));
    // 0x1234 * 0x5678 = 0x6260060: 0 - 0x6260060
    assert_eq!(hash_mul_diff(0x1234, 0x5678, 1), 0xF9D9_FFA0);
}

#[test]
fn new_state_cancels_seed() {
    let data = [0x3044_D236_u32, 5, 6];
    let s = State::new(0x9191, &data);
    assert_eq!(s.buffer, [0_u32; 16]);
}

#[test]
fn new_state_fills_every_word() {
    let data = [0x1111_1111_u32];
    let s = State::new(0x3f, &data);
    let expected = calc_init_value(0x3f) ^ 0x1111_1111;
    assert_ne!(expected, 0);
    assert_eq!(s.buffer, [expected; 16]);
}

fn sample_data() -> Vec<u32> {
    let mut d = vec![0x1234_5678_u32, 0x9abc_def0, 0x0fed_cba9];
    d.resize(1008, 0);
    d
}

#[test]
fn first_round_from_zero_state() {
    let data = sample_data();
    let mut s = State { buffer: [0; 16] };
    calc_step(&mut s, &data, 1);
    assert_eq!(
        s.buffer,
        [
            0x7654_34b7, 0, 0x1234_5678, 0xbd54_995f, 0x3456_7812, 0x48d1_59e0, 0x468a_ce8a, 0, 0,
            0x1234_5678, 0xe6d3_c9ce, 0xe6d3_c9ce, 0x1234_5678, 0x1347_12ce, 0, 0
        ]
    );
}

#[test]
fn second_round_from_zero_state() {
    let data = sample_data();
    let mut s = State { buffer: [0; 16] };
    calc_step(&mut s, &data, 2);
    assert_eq!(
        s.buffer,
        [
            0x8888_ce2f, 0, 0x9abc_def0, 0xacc4_289c, 0xbcde_f09a, 0x6af3_7bc2, 0x579b_cf8a, 0, 0,
            0, 0xa9f9_5094, 0xa9f9_5094, 0x9abc_def0, 0xb378_91a1, 0, 0
        ]
    );
}

fn counting_state() -> State {
    let mut buffer = [0_u32; 16];
    for (i, w) in buffer.iter_mut().enumerate() {
        *w = 3 * i as u32;
    }
    State { buffer }
}

#[test]
fn last_round_reads_only_the_window() {
    let data: Vec<u32> = (0..1008_u32).map(|i| i.wrapping_mul(0x0101_0101).wrapping_add(7)).collect();
    let mut s = counting_state();
    calc_step(&mut s, &data, 1008);
    assert_eq!(
        s.buffer,
        [
            0xe5e5_e5eb, 3, 0xf2f2_f2f0, 0xffc6_758c, 0x9797_b7a3, 0xbcbc_bccc, 0x8a8a_aa8b, 0x15,
            0x18, 0x6060_6027, 0x1e, 0x21, 0x24, 0x27, 0x2a, 0x2d
        ]
    );
}

#[test]
fn independent_half_of_round_1007() {
    let mut s = counting_state();
    calc_step_1007_indep(&mut s);
    assert_eq!(
        s.buffer,
        [0, 3, 6, 0xe3da_5112, 0xc, 0xf, 0xe3da_52cb, 0x15, 0x18, 0x1b, 0x1e, 0x21, 0x24, 0x27, 0x2a, 0x2d]
    );
    let mut z = State { buffer: [0; 16] };
    calc_step_1007_indep(&mut z);
    let mut expected = [0_u32; 16];
    expected[3] = 0xe3da_5109;
    assert_eq!(z.buffer, expected);
}

#[test]
fn independent_half_agrees_with_full_round() {
    let mut data = sample_data();
    data[1005] = 0;
    data[1006] = 0;
    data[1007] = 0xCAFE_F00D;
    let mut full = counting_state();
    calc_step(&mut full, &data, 1007);
    let mut half = counting_state();
    calc_step_1007_indep(&mut half);
    for i in 0..16 {
        if !(10..=13).contains(&i) {
            assert_eq!(full.buffer[i], half.buffer[i], "word {}", i);
        }
    }
}

#[test]
fn calc_runs_rounds_in_order() {
    let data = sample_data();
    let mut a = State { buffer: [0; 16] };
    ipl3_bruteforce::checksum::calc(&mut a, &data, 1, 3);
    let mut b = State { buffer: [0; 16] };
    calc_step(&mut b, &data, 1);
    calc_step(&mut b, &data, 2);
    calc_step(&mut b, &data, 3);
    assert_eq!(a.buffer, b.buffer);
    let mut c = counting_state();
    ipl3_bruteforce::checksum::calc(&mut c, &data, 5, 4);
    assert_eq!(c.buffer, counting_state().buffer);
}
