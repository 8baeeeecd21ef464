//! The two countdowns that a background ticker runs: one that counts words
//! and saves automatically a while after the last edit, and one that fades
//! the console message a while after it was shown.

use vstd::prelude::*;

verus! {

/// The time between two ticks, in milliseconds.
pub const TICK_MILLIS: u64 = 50;

/// Ticks from the last edit to the word count and automatic save.
pub const WORD_COUNT_DELAY_TICKS: u16 = 7;

/// Ticks from a console message to its fading.
pub const CONSOLE_FADE_TICKS: u16 = 20;

/// One countdown after a tick: a reset received on the tick replaces the
/// count, then a count above zero goes down by one and fires when it reaches
/// zero. Gives the new count and whether it fired.
pub open spec fn countdown_step(count: u16, reset: Option<u16>) -> (u16, bool) {
    let start = match reset {
        Some(v) => v,
        None => count,
    };
    if start > 0 {
        ((start - 1) as u16, start == 1)
    } else {
        (0, false)
    }
}

/// The two countdowns.
pub struct Timers {
    /// Ticks left until the word count and automatic save.
    pub countdown: u16,
    /// Ticks left until the console message fades.
    pub console_countdown: u16,
}

/// What is due after a tick.
pub struct TickActions {
    /// Count the words and save automatically.
    pub refresh: bool,
    /// Fade the console message.
    pub fade_console: bool,
}

/// Runs one countdown for a tick.
pub fn step_countdown(count: u16, reset: Option<u16>) -> (r: (u16, bool))
    ensures
        r == countdown_step(count, reset),
{
    let start = match reset {
        Some(v) => v,
        None => count,
    };
    if start > 0 {
        let next = start - 1;
        (next, next == 0)
    } else {
        (0, false)
    }
}

impl Timers {
    /// Both countdowns stopped.
    pub fn new() -> (t: Self)
        ensures
            t.countdown == 0,
            t.console_countdown == 0,
    {
        Timers { countdown: 0, console_countdown: 0 }
    }

    /// One tick, with the resets that arrived since the last one for the
    /// word-count countdown and for the console countdown.
    pub fn tick(&mut self, text_reset: Option<u16>, console_reset: Option<u16>) -> (a: TickActions)
        ensures
            (final(self).countdown, a.refresh) == countdown_step(old(self).countdown, text_reset),
            (final(self).console_countdown, a.fade_console) == countdown_step(
                old(self).console_countdown,
                console_reset,
            ),
    {
        let (c, refresh) = step_countdown(self.countdown, text_reset);
        let (k, fade) = step_countdown(self.console_countdown, console_reset);
        self.countdown = c;
        self.console_countdown = k;
        TickActions { refresh, fade_console: fade }
    }
}

/// The count after `k` ticks that bring no reset.
pub open spec fn after_quiet_ticks(count: u16, k: nat) -> u16
    decreases k,
{
    if k == 0 {
        count
    } else {
        countdown_step(after_quiet_ticks(count, (k - 1) as nat), None).0
    }
}

/// The countdown fires on the `k`-th of a row of ticks that bring no reset.
pub open spec fn fires_on_quiet_tick(count: u16, k: nat) -> bool {
    k >= 1 && countdown_step(after_quiet_ticks(count, (k - 1) as nat), None).1
}

/// Left alone, a countdown goes down by one per tick until it rests at zero,
/// and fires exactly once: on the tick on which it reaches zero.
pub proof fn lemma_quiet_countdown(count: u16, k: nat)
    ensures
        after_quiet_ticks(count, k) == if k <= count {
            (count - k) as u16
        } else {
            0u16
        },
        fires_on_quiet_tick(count, k) <==> (k >= 1 && k == count),
    decreases k,
{
    if k > 0 {
        lemma_quiet_countdown(count, (k - 1) as nat);
    }
}

/// A reset to `n` restarts the countdown: whatever it held, it fires on the
/// `n`-th tick counted from the one that brought the reset, provided no
/// later reset arrives, and on no tick before; a reset to zero stops it.
pub proof fn lemma_reset_restarts(count: u16, n: u16, k: nat)
    ensures
        ({
            let (after, fired) = countdown_step(count, Some(n));
            &&& (fired <==> n == 1)
            &&& (fires_on_quiet_tick(after, k) <==> (n >= 2 && k == n - 1))
        }),
{
    let after = countdown_step(count, Some(n)).0;
    lemma_quiet_countdown(after, k);
}

} // verus!
