use hks_shell::renderer::layout::{
    icon_top, physical, row_top, ICON_INNER, ICON_LEFT, ICON_LEFT_HALVES, ICON_SIZE, RESULTS_TOP,
    ROW_H,
};
use hks_shell::single::round_to_single;

/// Numbers of all magnitudes, from a linear congruential generator.
fn samples(count: usize) -> Vec<u64> {
    let mut state: u64 = 0x2545_f491_4f6c_dd1d;
    let mut list = Vec::new();
    for i in 0..count {
        state = state.wrapping_mul(6364136223846793005).wrapping_add(1442695040888963407);
        list.push(state >> (i % 64));
    }
    list
}

fn scaled(logical: u32) -> u32 {
    ((logical as f32) * 1.2f32).round().max(1.0) as u32
}

#[test]
fn numbers_are_rounded_like_singles() {
    for n in samples(100_000) {
        assert_eq!(round_to_single(n as u128) as f64, (n as f32) as f64, "{n}");
    }
    for n in [0, 1, 0xff_ffff, 0x100_0000, 0x100_0001, 0x100_0003, 0x1ff_ffff, u64::MAX] {
        assert_eq!(round_to_single(n as u128) as f64, (n as f32) as f64, "{n}");
    }
    assert_eq!(round_to_single(0x100_0001), 0x100_0000);
    assert_eq!(round_to_single(0x100_0003), 0x100_0004);
}

#[test]
fn buffers_have_the_scaled_size() {
    assert_eq!(physical(0), 1);
    assert_eq!(physical(1), 1);
    assert_eq!(physical(2), 2);
    assert_eq!(physical(50), 60);
    assert_eq!(physical(200), 240);
    assert_eq!(physical(400), 480);
    assert_eq!(physical(546), 655);
    assert_eq!(physical(u32::MAX), u32::MAX);
}

#[test]
fn buffer_sizes_are_those_of_single_precision() {
    for logical in 0..1_000_000 {
        assert_eq!(physical(logical), scaled(logical), "{logical}");
    }
    for n in samples(1_000_000) {
        let logical = n as u32;
        assert_eq!(physical(logical), scaled(logical), "{logical}");
    }
}

#[test]
fn small_panels_scale_by_six_fifths() {
    for logical in 1..=800_000u32 {
        assert_eq!(physical(logical) as u64, (logical as u64 * 12 + 5) / 10);
    }
}

#[test]
fn rows_are_where_single_precision_puts_them() {
    assert_eq!(row_top(0), 58);
    assert_eq!(row_top(1), 106);
    assert_eq!(row_top(9), 490);
    for n in samples(200_000).into_iter().chain(0..1000) {
        let row = n as usize;
        let top = 58.0f32 + row as f32 * 48.0f32;
        assert_eq!(row_top(row) as f64, top as f64, "{row}");
    }
}

#[test]
fn logos_are_where_single_precision_puts_them() {
    assert_eq!(icon_top(0), 70);
    assert_eq!(icon_top(9), 502);
    for n in samples(200_000).into_iter().chain(0..1000) {
        let row = n as usize;
        let top = 58.0f32 + row as f32 * 48.0f32 + (48.0f32 - 24.0f32) * 0.5f32;
        assert_eq!(icon_top(row) as f64, top as f64, "{row}");
    }
    assert_eq!(ICON_LEFT_HALVES as f32 / 2.0, 20.0f32 + (33.0f32 - 24.0f32) * 0.5f32);
    assert_eq!(ICON_LEFT_HALVES, 2 * ICON_LEFT + (ICON_SIZE - ICON_INNER));
}

#[test]
fn rows_follow_one_another() {
    for row in [0usize, 1, 9, 100, 349_523] {
        assert_eq!(row_top(row), (RESULTS_TOP as u128) + (ROW_H as u128) * row as u128);
        assert!(row_top(row) < icon_top(row));
    }
    for row in 0..100 {
        assert!(icon_top(row) + (ICON_INNER as u128) < row_top(row + 1));
    }
}
