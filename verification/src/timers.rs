//! The decisions of the application's timers: on each clipboard poll, when
//! the config file is looked at again and whether a change of the clipboard
//! is shown; on each tick of the HUD's fade-out, whether it is over.

use vstd::prelude::*;

verus! {

/// The config file is looked at on every this many polls (about three
/// seconds at the default interval).
pub const CONFIG_CHECK_EVERY_N_POLLS: u32 = 10;

/// The counter after one more poll, and whether the config file is looked
/// at on that poll. (The counter wraps around as `u32` addition does.)
pub open spec fn next_config_check(counter: u32) -> (u32, bool) {
    let next: int = if counter == u32::MAX {
        0
    } else {
        counter + 1
    };
    if next < CONFIG_CHECK_EVERY_N_POLLS {
        (next as u32, false)
    } else {
        (0, true)
    }
}

/// Counts one poll: returns the new counter and whether to look at the
/// config file now.
pub fn config_check_tick(counter: u32) -> (r: (u32, bool))
    ensures
        r == next_config_check(counter),
{
    let next = counter.wrapping_add(1);
    if next < CONFIG_CHECK_EVERY_N_POLLS {
        (next, false)
    } else {
        (0, true)
    }
}

/// The counter after `k` polls from the start.
pub open spec fn counter_after(k: nat) -> u32
    decreases k,
{
    if k == 0 {
        0
    } else {
        next_config_check(counter_after((k - 1) as nat)).0
    }
}

/// From the start, the config file is looked at on every
/// `CONFIG_CHECK_EVERY_N_POLLS`-th poll and on no other.
pub proof fn lemma_config_checked_every_n_polls(k: nat)
    ensures
        counter_after(k) == k % (CONFIG_CHECK_EVERY_N_POLLS as nat),
        next_config_check(counter_after(k)).1 <==> (k + 1) % (CONFIG_CHECK_EVERY_N_POLLS as nat) == 0,
    decreases k,
{
    if k > 0 {
        lemma_config_checked_every_n_polls((k - 1) as nat);
        let j: int = k - 1;
        assert(j % 10 + 1 < 10 ==> (j + 1) % 10 == j % 10 + 1) by (nonlinear_arith)
            requires
                j >= 0,
        ;
        assert(j % 10 + 1 == 10 ==> (j + 1) % 10 == 0) by (nonlinear_arith)
            requires
                j >= 0,
        ;
    }
    assert(k % 10 + 1 == 10 <==> (k + 1) % 10 == 0) by (nonlinear_arith)
        requires
            k >= 0,
    ;
}

/// What a poll does about the clipboard's change count `current`: the count
/// to remember, and whether to show the clipboard. While paused the count is
/// still followed, so that nothing copied during the pause is shown once it
/// ends.
pub open spec fn clipboard_poll(last: isize, current: isize, paused: bool) -> (isize, bool) {
    (current, current != last && !paused)
}

pub fn clipboard_change(last: isize, current: isize, paused: bool) -> (r: (isize, bool))
    ensures
        r == clipboard_poll(last, current, paused),
{
    (current, current != last && !paused)
}

/// A copy made during a pause is not shown when the pause ends: once a
/// paused poll has seen the change, a later poll that sees no newer change
/// shows nothing.
pub proof fn lemma_paused_copy_stays_hidden(last: isize, current: isize)
    ensures
        !clipboard_poll(last, current, true).1,
        !clipboard_poll(clipboard_poll(last, current, true).0, current, false).1,
{
}

/// One tick of the fade-out: the ticks elapsed after it (wrapping around as
/// `u32` addition does) and whether the fade is over, when the HUD is
/// hidden; until then its opacity is `1 - elapsed / total`.
pub open spec fn next_fade_tick(elapsed: u32, total: u32) -> (u32, bool) {
    let next: int = if elapsed == u32::MAX {
        0
    } else {
        elapsed + 1
    };
    (next as u32, next >= total)
}

pub fn fade_tick_step(elapsed: u32, total: u32) -> (r: (u32, bool))
    ensures
        r == next_fade_tick(elapsed, total),
{
    let next = elapsed.wrapping_add(1);
    (next, next >= total)
}

/// The ticks elapsed after `k` ticks of a fade, and whether the last of them
/// ended it.
pub open spec fn fade_after(k: nat, total: u32) -> (u32, bool)
    decreases k,
{
    if k == 0 {
        (0, false)
    } else {
        next_fade_tick(fade_after((k - 1) as nat, total).0, total)
    }
}

/// A fade of `total` ticks ends on its `total`-th tick and not before, and
/// until then the elapsed ticks stay below `total`, so the HUD's opacity
/// stays above zero.
pub proof fn lemma_fade_ends_after_total_ticks(k: nat, total: u32)
    requires
        1 <= k <= total,
    ensures
        fade_after(k, total).0 == k,
        fade_after(k, total).1 <==> k == total,
        k < total ==> fade_after(k, total).0 < total,
    decreases k,
{
    if k > 1 {
        lemma_fade_ends_after_total_ticks((k - 1) as nat, total);
    } else {
        assert(fade_after(0, total) == (0u32, false));
    }
    assert(fade_after(k, total) == next_fade_tick(fade_after((k - 1) as nat, total).0, total));
}

/// What a look at the config file does, given whether its modification
/// time differs from the one recorded and whether reading it succeeded:
/// whether to record the new time, and whether to apply what was read. A
/// failed read records nothing, so that the next look tries again.
pub open spec fn config_check_effect(changed: bool, loaded: bool) -> (bool, bool) {
    if changed && loaded {
        (true, true)
    } else {
        (false, false)
    }
}

pub fn config_check_step(changed: bool, loaded: bool) -> (r: (bool, bool))
    ensures
        r == config_check_effect(changed, loaded),
{
    if changed && loaded {
        (true, true)
    } else {
        (false, false)
    }
}

/// The modification time recorded after a look at a file whose time is
/// `current`, when `known` was recorded before.
pub open spec fn recorded_after(known: int, current: int, loaded: bool) -> int {
    if config_check_effect(current != known, loaded).0 {
        current
    } else {
        known
    }
}

/// A change whose reading failed is not lost: the recorded time stays, so
/// the next look at the same file sees the change again and applies it once
/// it can be read; a change that was applied is not applied again.
pub proof fn lemma_failed_reload_is_retried(known: int, current: int)
    requires
        current != known,
    ensures
        recorded_after(known, current, false) == known,
        config_check_effect(current != recorded_after(known, current, false), true) == (true, true),
        recorded_after(known, current, true) == current,
        config_check_effect(current != recorded_after(known, current, true), true) == (false, false),
{
}

} // verus!
