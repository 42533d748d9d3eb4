use engine::delay::{base_delay, delay_ratio, delay_times_for_rate, DelayBank, MAX_DELAY_LENGTH, NUM_DELAYS};

const TIMES_44100: [usize; 8] = [1309, 1636, 1812, 1927, 2341, 2967, 3514, 4282];

#[test]
fn base_delay_is_capacity_at_reference_rate() {
    assert_eq!(base_delay(44100), 44100);
    assert_eq!(base_delay(48000), 40516);
    assert_eq!(base_delay(22050), 88200);
}

#[test]
fn ratios_increase_across_lines() {
    let ratios: Vec<u64> = (0..NUM_DELAYS).map(delay_ratio).collect();
    assert_eq!(ratios, vec![297, 371, 411, 437, 531, 673, 797, 971]);
}

#[test]
fn delay_times_at_44100() {
    assert_eq!(delay_times_for_rate(44100), Some(TIMES_44100.to_vec()));
}

#[test]
fn delay_times_at_48000() {
    assert_eq!(
        delay_times_for_rate(48000),
        Some(vec![1203, 1503, 1665, 1770, 2151, 2726, 3229, 3934])
    );
}

#[test]
fn zero_rate_is_refused() {
    assert_eq!(delay_times_for_rate(0), None);
    assert!(DelayBank::new(0, 0.0f32).is_none());
}

#[test]
fn rate_too_low_for_the_buffers_is_refused() {
    // base delay 486202: the longest line would need 47210 samples
    assert_eq!(delay_times_for_rate(4000), None);
    assert!(delay_times_for_rate(8000).is_some());
}

#[test]
fn rate_too_high_for_a_one_sample_line_is_refused() {
    // base delay 19: the shortest line would be empty
    assert_eq!(delay_times_for_rate(100_000_000), None);
}

#[test]
fn fresh_bank_is_silent_at_cursor_zero() {
    let bank = DelayBank::new(44100, 0.0f32).unwrap();
    for line in 0..NUM_DELAYS {
        assert_eq!(bank.position(line), 0);
        assert_eq!(bank.delay_time(line), TIMES_44100[line]);
        assert_eq!(bank.read(line), 0.0);
        assert!(bank.delay_time(line) < MAX_DELAY_LENGTH);
    }
}

#[test]
fn same_rate_gives_same_delay_times() {
    let a = DelayBank::new(48000, 0.0f32).unwrap();
    let b = DelayBank::new(48000, 0.0f32).unwrap();
    for line in 0..NUM_DELAYS {
        assert_eq!(a.delay_time(line), b.delay_time(line));
    }
}

#[test]
fn cursor_wraps_after_delay_time() {
    let mut bank = DelayBank::new(44100, 0i32).unwrap();
    let t = bank.delay_time(0);
    for k in 0..t - 1 {
        bank.write_and_advance(0, 0);
        assert_eq!(bank.position(0), k + 1);
    }
    bank.write_and_advance(0, 0);
    assert_eq!(bank.position(0), 0);
    assert_eq!(bank.position(1), 0);
}

#[test]
fn impulse_echoes_after_each_delay_time() {
    let mut bank = DelayBank::new(44100, 0.0f32).unwrap();
    for line in 0..NUM_DELAYS {
        let t = bank.delay_time(line);
        bank.write_and_advance(line, 1.0);
        for _ in 1..t {
            assert_eq!(bank.read(line), 0.0);
            bank.write_and_advance(line, 0.0);
        }
        assert_eq!(bank.read(line), 1.0);
        assert_eq!(t, TIMES_44100[line]);
    }
}

#[test]
fn writes_to_one_line_leave_others_alone() {
    let mut bank = DelayBank::new(44100, 5u8).unwrap();
    for _ in 0..100 {
        bank.write_and_advance(3, 9);
    }
    assert_eq!(bank.position(3), 100);
    for line in 0..NUM_DELAYS {
        if line != 3 {
            assert_eq!(bank.position(line), 0);
            assert_eq!(bank.read(line), 5);
        }
    }
}
