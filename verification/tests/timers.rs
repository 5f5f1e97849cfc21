use cliip_show::timers::{
    clipboard_change, config_check_step, config_check_tick, fade_tick_step,
    CONFIG_CHECK_EVERY_N_POLLS,
};

#[test]
fn config_file_is_checked_on_every_tenth_poll() {
    let mut counter = 0;
    let mut checked_on = Vec::new();
    for poll in 1..=25u32 {
        let (next, check) = config_check_tick(counter);
        counter = next;
        if check {
            checked_on.push(poll);
        }
    }
    assert_eq!(CONFIG_CHECK_EVERY_N_POLLS, 10);
    assert_eq!(checked_on, vec![10, 20]);
    assert_eq!(counter, 5);
}

#[test]
fn config_check_counter_wraps_like_u32_addition() {
    assert_eq!(config_check_tick(u32::MAX), (0, false));
    assert_eq!(config_check_tick(9), (0, true));
    assert_eq!(config_check_tick(3), (4, false));
}

#[test]
fn unchanged_clipboard_is_not_shown() {
    assert_eq!(clipboard_change(7, 7, false), (7, false));
}

#[test]
fn changed_clipboard_is_shown_unless_paused() {
    assert_eq!(clipboard_change(7, 8, false), (8, true));
    assert_eq!(clipboard_change(7, 8, true), (8, false));
}

#[test]
fn copy_made_during_a_pause_stays_hidden_after_it() {
    let (last, shown) = clipboard_change(1, 2, true);
    assert!(!shown);
    let (_, shown) = clipboard_change(last, 2, false);
    assert!(!shown);
}

#[test]
fn fade_of_eighteen_ticks_ends_on_the_eighteenth() {
    let total: u32 = 18;
    let mut elapsed = 0;
    for tick in 1..=total {
        let (next, done) = fade_tick_step(elapsed, total);
        elapsed = next;
        assert_eq!(elapsed, tick);
        assert_eq!(done, tick == total);
    }
}

#[test]
fn fade_tick_counter_wraps_like_u32_addition() {
    assert_eq!(fade_tick_step(u32::MAX, 18), (0, false));
}

#[test]
fn failed_config_reload_is_retried() {
    assert_eq!(config_check_step(false, true), (false, false));
    assert_eq!(config_check_step(true, false), (false, false));
    assert_eq!(config_check_step(true, true), (true, true));
}
