use vox3d::renderer::fps_display::{FpsDisplay, WINDOW_SAMPLES};

#[test]
fn fps_starts_at_zero() {
    let display = FpsDisplay::new();
    assert_eq!(display.fps(), 0);
    assert_eq!(WINDOW_SAMPLES, 10);
}

#[test]
fn fps_shows_the_mean_rounded_down() {
    let mut display = FpsDisplay::new();
    display.update(60, false);
    assert_eq!(display.fps(), 60);
    display.update(30, false);
    assert_eq!(display.fps(), 45);
    display.update(31, false);
    assert_eq!(display.fps(), 40);
    display.update(0, false);
    assert_eq!(display.fps(), 30);
}

#[test]
fn fps_keeps_every_sample_while_the_window_runs() {
    let mut display = FpsDisplay::new();
    for _ in 0..20 {
        display.update(10, false);
    }
    display.update(220, false);
    assert_eq!(display.fps(), (20 * 10 + 220) / 21);
}

#[test]
fn fps_drops_the_oldest_sample_at_the_end_of_a_window() {
    let mut display = FpsDisplay::new();
    display.update(1000, false);
    for _ in 0..9 {
        display.update(10, false);
    }
    assert_eq!(display.fps(), (1000 + 90) / 10);
    display.update(10, true);
    assert_eq!(display.fps(), 10);
}

#[test]
fn fps_keeps_ten_samples_at_the_end_of_a_window() {
    let mut display = FpsDisplay::new();
    display.update(1000, false);
    for _ in 0..8 {
        display.update(10, false);
    }
    display.update(10, true);
    assert_eq!(display.fps(), (1000 + 90) / 10);
}

#[test]
fn fps_drops_one_sample_for_each_window() {
    let mut display = FpsDisplay::new();
    for sample in 1..=12u32 {
        display.update(sample * 100, false);
    }
    display.update(1300, true);
    assert_eq!(display.fps(), (200..=1300).step_by(100).sum::<u32>() / 12);
    display.update(1400, true);
    assert_eq!(display.fps(), (300..=1400).step_by(100).sum::<u32>() / 12);
}

#[test]
fn fps_mean_of_the_largest_rates_does_not_overflow() {
    let mut display = FpsDisplay::new();
    display.update(u32::MAX, false);
    display.update(u32::MAX, false);
    display.update(u32::MAX, true);
    assert_eq!(display.fps(), u32::MAX);
    display.update(0, false);
    assert_eq!(display.fps(), ((u32::MAX as u64 * 3) / 4) as u32);
}
