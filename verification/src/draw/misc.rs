//! The refresh-rate button: `- {ms}ms +`, adjustable by mouse and keys.

use vstd::prelude::*;
use crate::decimal::{dec_digits, pow10, push_dec};
use crate::text::string_from_chars;
use crate::ui::{MouseInput, MouseKind, Rect};

verus! {

/// What a click on the refresh-rate button asks for.
#[derive(Debug, PartialEq, Eq, Structural, Clone, Copy)]
pub enum TickCounter {
    Increment,
    Decrement,
    NoChange,
}

/// The refresh interval in milliseconds, and where the button was drawn.
pub struct TickButton {
    duration_ms: u64,
    last_render_area: Option<Rect>,
}

pub const MIN_TICK_RATE_MS: u64 = 1000;
pub const MAX_TICK_RATE_MS: u64 = 5000;
pub const TICK_RATE_STEP_MS: u64 = 100;

/// The interval after one increment: one step more, unless that passes
/// the maximum.
pub open spec fn incremented(d: u64) -> u64 {
    if d + TICK_RATE_STEP_MS <= MAX_TICK_RATE_MS {
        (d + TICK_RATE_STEP_MS) as u64
    } else {
        d
    }
}

/// The interval after one decrement: one step less (stopping at zero),
/// unless that falls below the minimum.
pub open spec fn decremented(d: u64) -> u64 {
    let lower = if d >= TICK_RATE_STEP_MS {
        (d - TICK_RATE_STEP_MS) as u64
    } else {
        0u64
    };
    if lower >= MIN_TICK_RATE_MS {
        lower
    } else {
        d
    }
}

/// The width of the button's text `" - {ms}ms  + "`.
pub open spec fn button_text_len(d: u64) -> nat {
    dec_digits(d as nat).len() + 9
}

/// What a mouse event on the button asks for, the button being drawn at
/// `area` with interval `d`.
pub open spec fn click_effect(area: Option<Rect>, d: u64, m: MouseInput) -> TickCounter {
    match area {
        Some(a) => if m.kind == MouseKind::LeftDown && a.contains_spec(m.column, m.row) {
            if m.column - a.x < 3 {
                TickCounter::Decrement
            } else if m.column - a.x >= button_text_len(d) - 3 {
                TickCounter::Increment
            } else {
                TickCounter::NoChange
            }
        } else {
            TickCounter::NoChange
        },
        None => TickCounter::NoChange,
    }
}

/// The number of decimal digits of `n`.
pub fn digit_count(n: u64) -> (k: u64)
    ensures
        k == dec_digits(n as nat).len(),
        1 <= k <= 20,
{
    let mut k: u64 = 1;
    let mut t: u64 = n;
    proof {
        assert(pow10(20) == 100_000_000_000_000_000_000) by {
            reveal_with_fuel(pow10, 21);
        }
        lemma_digits_len_bound(n as nat, 20);
    }
    while t >= 10
        invariant
            k + dec_digits(t as nat).len() == dec_digits(n as nat).len() + 1,
            dec_digits(n as nat).len() <= 20,
            k >= 1,
        decreases t,
    {
        proof {
            assert(dec_digits(t as nat) == dec_digits((t / 10) as nat).push(
                crate::decimal::digit_char((t % 10) as nat),
            ));
        }
        t = t / 10;
        k = k + 1;
    }
    k
}

/// A number below `10^k` has at most `k` digits.
proof fn lemma_digits_len_bound(n: nat, k: nat)
    requires
        k >= 1,
        n < pow10(k),
    ensures
        dec_digits(n).len() <= k,
    decreases n,
{
    if n >= 10 {
        assert(k >= 2) by {
            if k == 1 {
                assert(pow10(1) == 10) by {
                    reveal_with_fuel(pow10, 2);
                }
            }
        }
        assert(n / 10 < pow10((k - 1) as nat));
        lemma_digits_len_bound(n / 10, (k - 1) as nat);
    }
}

impl TickButton {
    #[verifier::type_invariant]
    spec fn inv(self) -> bool {
        self.last_render_area matches Some(a) ==> a.fits()
    }

    /// The interval in milliseconds.
    pub closed spec fn duration_spec(self) -> u64 {
        self.duration_ms
    }

    /// Where the button was last drawn.
    pub closed spec fn area_spec(self) -> Option<Rect> {
        self.last_render_area
    }

    /// A button with the given interval, not drawn yet.
    pub fn new(duration_ms: u64) -> (b: Self)
        ensures
            b.duration_spec() == duration_ms,
            b.area_spec() is None,
    {
        TickButton { duration_ms, last_render_area: None }
    }

    /// Records where the button is drawn.
    pub fn set_render_area(&mut self, area: Rect)
        requires
            area.fits(),
        ensures
            final(self).duration_spec() == old(self).duration_spec(),
            final(self).area_spec() == Some(area),
    {
        self.last_render_area = Some(area);
    }

    /// What a mouse event asks for: a left click on the first three cells
    /// decrements, one on the last three cells of the text increments.
    pub fn duration_click(&self, mouse_event: MouseInput) -> (r: TickCounter)
        ensures
            r == click_effect(self.area_spec(), self.duration_spec(), mouse_event),
    {
        proof {
            use_type_invariant(self);
        }
        if let Some(area) = self.last_render_area {
            if mouse_event.kind == MouseKind::LeftDown {
                let col = mouse_event.column;
                let row = mouse_event.row;
                if area.contains(col, row) {
                    let relative_col = col - area.x;
                    if relative_col < 3 {
                        return TickCounter::Decrement;
                    }
                    let text_len = digit_count(self.duration_ms) + 9;
                    if relative_col as u64 >= text_len - 3 {
                        return TickCounter::Increment;
                    }
                }
            }
        }
        TickCounter::NoChange
    }

    /// One step longer, unless that passes the maximum.
    pub fn increment(&mut self)
        ensures
            final(self).duration_spec() == incremented(old(self).duration_spec()),
            final(self).area_spec() == old(self).area_spec(),
    {
        proof {
            use_type_invariant(&*self);
        }
        if self.duration_ms <= MAX_TICK_RATE_MS - TICK_RATE_STEP_MS {
            self.duration_ms = self.duration_ms + TICK_RATE_STEP_MS;
        }
    }

    /// One step shorter, unless that falls below the minimum.
    pub fn decrement(&mut self)
        ensures
            final(self).duration_spec() == decremented(old(self).duration_spec()),
            final(self).area_spec() == old(self).area_spec(),
    {
        proof {
            use_type_invariant(&*self);
        }
        let new_rate = self.duration_ms.saturating_sub(TICK_RATE_STEP_MS);
        if new_rate >= MIN_TICK_RATE_MS {
            self.duration_ms = new_rate;
        }
    }

    /// The middle of the button's text: `" {ms}ms "`.
    pub fn duration_text(&self) -> (s: String)
        ensures
            s@ == seq![' '] + dec_digits(self.duration_spec() as nat) + seq!['m', 's', ' '],
    {
        let mut out: Vec<char> = Vec::new();
        out.push(' ');
        push_dec(self.duration_ms as u128, &mut out);
        out.push('m');
        out.push('s');
        out.push(' ');
        string_from_chars(&out)
    }

    /// The interval in milliseconds.
    pub fn get_duration(&self) -> (d: u64)
        ensures
            d == self.duration_spec(),
    {
        self.duration_ms
    }
}

/// Every interval between the minimum and the maximum stays there after
/// an increment or a decrement.
pub proof fn lemma_tick_range_kept(d: u64)
    requires
        MIN_TICK_RATE_MS <= d <= MAX_TICK_RATE_MS,
    ensures
        MIN_TICK_RATE_MS <= incremented(d) <= MAX_TICK_RATE_MS,
        MIN_TICK_RATE_MS <= decremented(d) <= MAX_TICK_RATE_MS,
{
}

/// A decrement undoes an increment that took effect, and an increment
/// undoes a decrement that took effect.
pub proof fn lemma_tick_steps_undo(d: u64)
    requires
        MIN_TICK_RATE_MS <= d <= MAX_TICK_RATE_MS,
    ensures
        incremented(d) != d ==> decremented(incremented(d)) == d,
        decremented(d) != d ==> incremented(decremented(d)) == d,
{
}

/// An increment never lowers the interval and a decrement never raises it.
pub proof fn lemma_tick_monotone(d: u64)
    ensures
        incremented(d) >= d,
        decremented(d) <= d,
        incremented(d) <= MAX_TICK_RATE_MS || incremented(d) == d,
        decremented(d) >= MIN_TICK_RATE_MS || decremented(d) == d,
{
}

} // verus!
