//! The fade-out arithmetic of the HUD, which the app does in floating point:
//! the number of ticks for the default fade and the alpha along the way.

const DEFAULT_HUD_FADE_DURATION_SECS: f64 = 0.3;
const FADE_TICK_INTERVAL_SECS: f64 = 1.0 / 60.0;

fn total_ticks() -> u32 {
    (DEFAULT_HUD_FADE_DURATION_SECS / FADE_TICK_INTERVAL_SECS).ceil() as u32
}

fn alpha_at(elapsed: u32, total: u32) -> f64 {
    1.0 - (elapsed as f64 / total as f64)
}

#[test]
fn app_fade_total_ticks_calculation_is_exact() {
    assert_eq!(total_ticks(), 18);
}

#[test]
fn app_fade_alpha_is_positive_at_penultimate_tick() {
    let total: u32 = 18;
    let alpha = alpha_at(total - 1, total);
    assert!(alpha > 0.0, "alpha should be > 0.0, got {alpha}");
    assert!((alpha - 1.0 / total as f64).abs() < 1e-10, "alpha={alpha}");
}

#[test]
fn app_fade_alpha_is_half_at_midpoint() {
    let alpha = alpha_at(9, 18);
    assert!((alpha - 0.5).abs() < 1e-10, "alpha={alpha}");
}

#[test]
fn hud_show_fade_total_ticks_calculation_is_exact() {
    assert_eq!(total_ticks(), 18);
}

#[test]
fn hud_show_fade_alpha_is_positive_at_penultimate_tick() {
    let total: u32 = 18;
    let alpha = alpha_at(total - 1, total);
    assert!(alpha > 0.0, "alpha should be > 0.0, got {alpha}");
    assert!((alpha - 1.0 / total as f64).abs() < 1e-10, "alpha={alpha}");
}

#[test]
fn hud_show_fade_alpha_is_half_at_midpoint() {
    let alpha = alpha_at(9, 18);
    assert!((alpha - 0.5).abs() < 1e-10, "alpha={alpha}");
}
