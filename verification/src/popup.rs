//! The window entrance animation: a freshly prepared window is scaled from
//! zero to full size, then handed over to typing.

use vstd::prelude::*;
use crate::layout::sat_add;
use crate::window::{MessageWindow, PopupType, WindowState};

verus! {

/// Full window scale, in micro-units.
pub const SCALE_ONE: u64 = 1_000_000;

/// Per-window record of a running scale-up: how much scale each millisecond
/// adds.  Removed once full size is reached.
#[derive(Clone, Copy, Debug, PartialEq, Eq, Structural)]
pub struct ScalingUp {
    pub add_per_msec: u64,
}

/// The scale-up rate for a popup of the given duration: full size spread over
/// its milliseconds; a zero duration is treated as nearly instant.
pub open spec fn popup_rate(msec: u64) -> u64 {
    if msec == 0 {
        SCALE_ONE
    } else {
        SCALE_ONE / msec
    }
}

/// `a * b` clamped into `u64`.
pub open spec fn sat_mul(a: u64, b: u64) -> u64 {
    if a * b > u64::MAX {
        u64::MAX
    } else {
        (a * b) as u64
    }
}

/// Saturating multiplication.
pub fn mul_sat(a: u64, b: u64) -> (r: u64)
    ensures
        r == sat_mul(a, b),
{
    match a.checked_mul(b) {
        Some(v) => v,
        None => u64::MAX,
    }
}

/// What the popup trigger does to one window: a freshly prepared current
/// window becomes visible at scale zero, gets its per-window scale-up rate,
/// and moves on to popping up; any other window is left alone.
pub open spec fn popper_step(o: MessageWindow, n: MessageWindow) -> bool {
    if o.state == WindowState::Preparing && o.is_current {
        match o.popup_type {
            PopupType::Scale { msec } => n == (MessageWindow {
                state: WindowState::PoppingUp,
                visible: true,
                scale: 0,
                scaling: Some(ScalingUp { add_per_msec: popup_rate(msec) }),
                ..o
            }),
        }
    } else {
        n == o
    }
}

/// Starts the entrance animation of a freshly prepared current window; see
/// `popper_step`.
pub fn window_popper(w: &mut MessageWindow)
    ensures
        popper_step(*old(w), *final(w)),
{
    if w.state == WindowState::Preparing && w.is_current {
        match w.popup_type {
            PopupType::Scale { msec } => {
                w.scale = 0;
                let rate: u64 = if msec == 0 {
                    SCALE_ONE
                } else {
                    SCALE_ONE / msec
                };
                w.scaling = Some(ScalingUp { add_per_msec: rate });
            },
        }
        w.visible = true;
        w.state = WindowState::PoppingUp;
    }
}

/// What one animation step of `delta_msec` milliseconds does to one window:
/// with no running scale-up it is left alone; otherwise the scale grows by
/// the elapsed time times the rate, and the moment it reaches full size it is
/// clamped to exactly full size in the same call — it is never observed
/// overshot — the rate record is removed and the window moves on to typing.
pub open spec fn scaling_step(o: MessageWindow, n: MessageWindow, delta_msec: u64) -> bool {
    match o.scaling {
        None => n == o,
        Some(s) => {
            let grown = sat_add(o.scale, sat_mul(delta_msec, s.add_per_msec));
            if grown >= SCALE_ONE {
                n == (MessageWindow {
                    scale: SCALE_ONE,
                    state: WindowState::Typing,
                    scaling: None,
                    ..o
                })
            } else {
                n == (MessageWindow { scale: grown, ..o })
            }
        },
    }
}

/// Advances a running scale-up by `delta_msec` milliseconds of simulated
/// time; see `scaling_step`.
pub fn scaling_up(w: &mut MessageWindow, delta_msec: u64)
    ensures
        scaling_step(*old(w), *final(w), delta_msec),
{
    let rate: u64 = match &w.scaling {
        Some(s) => s.add_per_msec,
        None => {
            return ;
        },
    };
    let grow = mul_sat(delta_msec, rate);
    let grown: u64 = if w.scale <= u64::MAX - grow {
        w.scale + grow
    } else {
        u64::MAX
    };
    if grown >= SCALE_ONE {
        w.scale = SCALE_ONE;
        w.state = WindowState::Typing;
        w.scaling = None;
    } else {
        w.scale = grown;
    }
}

} // verus!
