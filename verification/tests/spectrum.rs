//! The fixed-point bar pipeline: bin ranges, averaging, the peak
//! follower, normalization, smoothing, and the ring buffer.

use listenmoe::viz::{
    bar_norm, bins_to_bars, clear_spectrum, isqrt64, peak_step, smooth_step, VizState,
    BAR_SCALE, FFT_SIZE, HOP,
};

#[test]
fn isqrt_is_the_floored_square_root() {
    assert_eq!(isqrt64(0), 0);
    assert_eq!(isqrt64(1), 1);
    assert_eq!(isqrt64(3), 1);
    assert_eq!(isqrt64(4), 2);
    assert_eq!(isqrt64(65535 * 65535), 65535);
    assert_eq!(isqrt64(0xFFFF_FFFF), 65535);
    assert_eq!(isqrt64(0x1_0000_0000), 65536);
}

#[test]
fn bins_to_bars_output_length_equals_bar_count() {
    // Whatever raw bin pairs the log mapping produced, one bar per pair
    // comes out, each averaging a well-formed [lo, hi) range.
    let mags: Vec<u32> = vec![10, 20, 30, 40];
    let raw: Vec<(usize, usize)> = vec![(0, 2), (2, 4), (5, 9), (3, 1)];
    let bars = bins_to_bars(&mags, &raw);
    assert_eq!(bars.len(), 4);
    assert_eq!(bars[0], 15); // avg of 10, 20
    assert_eq!(bars[1], 35); // avg of 30, 40
    assert_eq!(bars[2], 40); // lo clamps to 3, hi to 4
    assert_eq!(bars[3], 40); // hi clamps up to lo + 1
}

#[test]
fn bins_to_bars_collapsed_range_averages_one_bin() {
    // A raw pair with lo == hi still averages exactly one bin.
    let mags: Vec<u32> = vec![7, 9, 11];
    let bars = bins_to_bars(&mags, &vec![(1, 1)]);
    assert_eq!(bars, vec![9]);
}

#[test]
fn peak_follower_attacks_toward_rising_values() {
    // Rising: the peak blends 35% of the gap, never overshooting.
    assert_eq!(peak_step(100, 50), 50 + (100 - 50) * 35 / 100);
    let p = peak_step(1_000_000, 1);
    assert!((1..=1_000_000).contains(&p));
}

#[test]
fn peak_follower_decays_and_never_drops_below_floor() {
    // Falling: multiplicative 0.995 decay.
    assert_eq!(peak_step(10, 1000), 995);
    // The floor: even from zero input the peak stays positive.
    assert_eq!(peak_step(0, 0), 1);
    assert_eq!(peak_step(0, 1), 1);
    // Any long all-zero run keeps the peak at the floor.
    let mut p = 0u64;
    for _ in 0..100 {
        p = peak_step(0, p);
        assert!(p >= 1);
    }
}

#[test]
fn peak_follower_seeds_on_first_observation() {
    // First nonzero observation seeds the peak, then decays once.
    assert_eq!(peak_step(400, 0), 400 * 995 / 1000);
}

#[test]
fn normalized_bars_stay_in_unit_range() {
    // The gain/clamp/curve step lands in [0, 1] for any inputs.
    for &(v, p) in &[(0u64, 0u64), (1, 1), (1000, 1), (1, 1000), (0xFFFF_FFFF, 1), (
        0xFFFF_FFFF,
        0xFFFF_FFFF,
    )] {
        let x = bar_norm(v, p);
        assert!(x <= BAR_SCALE);
    }
    // A value at its peak normalizes to full scale (gain saturates).
    assert_eq!(bar_norm(1000, 999), BAR_SCALE);
}

#[test]
fn smoothing_is_four_fifths_old_one_fifth_new() {
    assert_eq!(smooth_step(0, 65536), 13107);
    assert_eq!(smooth_step(65536, 0), 52428);
    assert_eq!(smooth_step(65536, 65536), 65536);
    assert_eq!(smooth_step(0, 0), 0);
}

#[test]
fn downmix_averages_channels_into_the_ring() {
    let mut viz = VizState::new();
    viz.downmix(&vec![100, 200, 300, -100], 2);
    let block = viz.ring_block();
    assert!(block.is_none()); // fewer than FFT_SIZE samples buffered
    // Fill up to a full window and read it back.
    let mono: Vec<i32> = (0..FFT_SIZE as i32).collect();
    viz.downmix(&mono, 1);
    let block = viz.ring_block().expect("a full window is buffered");
    assert_eq!(block.len(), FFT_SIZE);
    assert_eq!(block[0], 150); // avg(100, 200)
    assert_eq!(block[1], 100); // avg(300, -100)
    assert_eq!(block[2], 0);
    assert_eq!(block[3], 1);
}

#[test]
fn ring_advances_by_one_hop() {
    let mut viz = VizState::new();
    let mono: Vec<i32> = (0..(FFT_SIZE + 100) as i32).collect();
    viz.downmix(&mono, 1);
    viz.advance_ring();
    // After one hop the window starts HOP samples later.
    let block = viz.ring_block();
    assert!(block.is_none()); // 1124 - 512 = 612 < FFT_SIZE
    let more: Vec<i32> = (0..512).collect();
    viz.downmix(&more, 1);
    let block = viz.ring_block().expect("refilled");
    assert_eq!(block[0], HOP as i32);
}

#[test]
fn apply_bars_publishes_only_when_enabled() {
    let mut viz = VizState::new();
    let bars: Vec<u64> = vec![5000; 48];
    viz.apply_bars(&bars, false);
    assert!(viz.published().iter().all(|&v| v == 0));
    viz.apply_bars(&bars, true);
    assert!(viz.published().iter().any(|&v| v > 0));
    assert!(viz.published().iter().all(|&v| v <= BAR_SCALE));
}

#[test]
fn reset_zeroes_everything() {
    let mut viz = VizState::new();
    viz.downmix(&vec![1000; 64], 1);
    viz.apply_bars(&vec![5000; 48], true);
    viz.reset();
    assert!(viz.published().iter().all(|&v| v == 0));
    assert!(viz.ring_block().is_none());
    // After a reset the peak follower reseeds from the next frame.
    viz.apply_bars(&vec![400; 48], true);
}

#[test]
fn clear_spectrum_zeroes_every_cell() {
    let mut buf: Vec<u32> = vec![1, 2, 3, 65536];
    clear_spectrum(&mut buf);
    assert_eq!(buf, vec![0, 0, 0, 0]);
}
