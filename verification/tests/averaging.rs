use contact_core::interrupt::{compute_amplitude, compute_partial_sums, AlignedAverages, BURST_SIZE};

/// A burst whose four interleaved streams hold the four given levels.
fn burst_of_streams(levels: [u8; 4]) -> Vec<u8> {
    let mut burst = Vec::with_capacity(BURST_SIZE);
    for i in 0..BURST_SIZE {
        burst.push(levels[i % 4]);
    }
    burst
}

#[test]
fn partial_sums_of_streams() {
    let burst = burst_of_streams([1, 2, 3, 4]);
    let sums = compute_partial_sums(&burst);
    assert_eq!(sums, [1000, 2000, 3000, 4000]);
}

#[test]
fn partial_sums_of_extremes() {
    let burst = burst_of_streams([0, 255, 0, 255]);
    let sums = compute_partial_sums(&burst);
    assert_eq!(sums, [0, 255000, 0, 255000]);
}

#[test]
fn align_picks_two_highest() {
    let avgs = AlignedAverages::align_signal_timing(&[4000, 1000, 3000, 2000]);
    // High mean (4000 + 3000) / 2000 = 3, low mean (1000 + 2000) / 2000 = 1.
    assert_eq!(avgs.get_delta(), 2);
}

#[test]
fn align_tie_break_delta_zero() {
    // All four sums equal: the chosen pair is the first two and the delta
    // vanishes.
    let avgs = AlignedAverages::align_signal_timing(&[7000, 7000, 7000, 7000]);
    assert_eq!(avgs.get_delta(), 0);
}

#[test]
fn align_rounds_down() {
    let avgs = AlignedAverages::align_signal_timing(&[3999, 1000, 3000, 2000]);
    // (3999 + 3000) / 2000 = 3 and (1000 + 2000) / 2000 = 1.
    assert_eq!(avgs.get_delta(), 2);
}

#[test]
fn constant_burst_gives_zero() {
    for level in [0u8, 1, 128, 255] {
        let burst = vec![level; BURST_SIZE];
        assert_eq!(compute_amplitude(&burst), 0);
    }
}

#[test]
fn two_high_streams_give_difference() {
    // Whichever two stream positions are high, the amplitude is the level
    // difference.
    let pairs = [
        [200u8, 200, 50, 50],
        [200, 50, 200, 50],
        [200, 50, 50, 200],
        [50, 200, 200, 50],
        [50, 200, 50, 200],
        [50, 50, 200, 200],
    ];
    for levels in pairs {
        let burst = burst_of_streams(levels);
        assert_eq!(compute_amplitude(&burst), 150);
    }
}

#[test]
fn full_swing_gives_full_scale() {
    let burst = burst_of_streams([255, 0, 255, 0]);
    assert_eq!(compute_amplitude(&burst), 255);
}

#[test]
fn amplitude_is_always_a_byte() {
    // A few uneven bursts: the estimate always lies in [0, 255] by type,
    // and never exceeds the largest sample level.
    let mut burst = Vec::with_capacity(BURST_SIZE);
    for i in 0..BURST_SIZE {
        burst.push((i % 251) as u8);
    }
    let delta = compute_amplitude(&burst);
    assert!(delta <= 250);
}

#[test]
fn mixed_streams_use_unchosen_pair_for_low() {
    // Streams hold 10, 20, 30, 40: high mean (30 + 40 choose) and low mean
    // from the remaining pair.
    let burst = burst_of_streams([10, 20, 30, 40]);
    // High mean (30000 + 40000) / 2000 = 35, low (10000 + 20000) / 2000 = 15.
    assert_eq!(compute_amplitude(&burst), 20);
}
