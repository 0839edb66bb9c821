//! The motion engine: a state machine that ingests touch, release and timer
//! events and integrates a decaying-velocity cursor trajectory.
//!
//! The engine has two logical states. While a touch is in progress it tracks
//! the finger through a sliding two-sample window and holds no velocity;
//! after a release it either coasts (velocity present, decaying on every
//! tick) or rests (velocity absent). The platform collaborators read the
//! clock and the cursor port and hand their readings in as plain values.

use vstd::prelude::*;
use crate::fixed::{
    advance_coord, clamp_coord, div_to_zero, scale_velocity, sdiv, COORD_LIMIT,
    DECAY_RATE_PER_SECOND, MICROS_PER_SECOND, STOP_SPEED, TIME_LIMIT, VEL_LIMIT,
};
use vstd::arithmetic::mul::lemma_mul_upper_bound;

verus! {

/// Contact state code the touch hardware reports for a finger that is
/// currently pressing the surface.
pub const TOUCHING_STATE_CODE: i32 = 4;

/// A touch position with its timestamp: coordinates in position units,
/// timestamp in microseconds. Immutable once recorded.
#[derive(Clone, Copy, Debug, PartialEq, Eq, Structural)]
pub struct Sample {
    pub x: i64,
    pub y: i64,
    pub t: i64,
}

/// A signed rate in position units per second.
#[derive(Clone, Copy, Debug, PartialEq, Eq, Structural)]
pub struct Velocity {
    pub x: i64,
    pub y: i64,
}

/// The engine's persistent record.
#[derive(Debug)]
pub struct App {
    /// Older end of the two-sample window; only filled while tracking.
    pub previous_sample: Option<Sample>,
    /// Newer end of the two-sample window; only filled while tracking.
    pub latest_sample: Option<Sample>,
    /// Present exactly while coasting; cleared by every touch.
    pub velocity: Option<Velocity>,
    /// The monotonic clock reading of the previous tick, in microseconds.
    pub last_tick_time: i64,
}

/// Mathematical image of a [`Sample`].
pub ghost struct SampleView {
    pub x: int,
    pub y: int,
    pub t: int,
}

/// Mathematical image of a [`Velocity`].
pub ghost struct VelocityView {
    pub x: int,
    pub y: int,
}

/// Mathematical image of the whole engine state; every contract and law is
/// stated over this record and the step functions below.
pub ghost struct AppView {
    pub previous_sample: Option<SampleView>,
    pub latest_sample: Option<SampleView>,
    pub velocity: Option<VelocityView>,
    pub last_tick_time: int,
}

impl View for Sample {
    type V = SampleView;

    open spec fn view(&self) -> SampleView {
        SampleView { x: self.x as int, y: self.y as int, t: self.t as int }
    }
}

impl View for Velocity {
    type V = VelocityView;

    open spec fn view(&self) -> VelocityView {
        VelocityView { x: self.x as int, y: self.y as int }
    }
}

impl View for App {
    type V = AppView;

    open spec fn view(&self) -> AppView {
        AppView {
            previous_sample: match self.previous_sample {
                Some(s) => Some(s@),
                None => None,
            },
            latest_sample: match self.latest_sample {
                Some(s) => Some(s@),
                None => None,
            },
            velocity: match self.velocity {
                Some(v) => Some(v@),
                None => None,
            },
            last_tick_time: self.last_tick_time as int,
        }
    }
}

/// A sample whose coordinates and timestamp lie in the engine's range.
pub open spec fn sample_within_range(s: SampleView) -> bool {
    &&& -(COORD_LIMIT as int) <= s.x <= COORD_LIMIT as int
    &&& -(COORD_LIMIT as int) <= s.y <= COORD_LIMIT as int
    &&& 0 <= s.t <= TIME_LIMIT as int
}

/// A velocity both of whose components lie in the engine's range.
pub open spec fn velocity_within_range(v: VelocityView) -> bool {
    &&& -(VEL_LIMIT as int) <= v.x <= VEL_LIMIT as int
    &&& -(VEL_LIMIT as int) <= v.y <= VEL_LIMIT as int
}

/// The squared magnitude of a velocity, in squared units per second.
pub open spec fn speed_squared(v: VelocityView) -> int {
    v.x * v.x + v.y * v.y
}

/// Well-formedness of an engine state: every stored number is in range, a
/// previous sample exists only beside a latest one, and no velocity is held
/// while a touch is in progress (a sample window is open).
pub open spec fn state_wf(m: AppView) -> bool {
    &&& match m.previous_sample {
        Some(s) => sample_within_range(s),
        None => true,
    }
    &&& match m.latest_sample {
        Some(s) => sample_within_range(s),
        None => true,
    }
    &&& match m.velocity {
        Some(v) => velocity_within_range(v),
        None => true,
    }
    &&& 0 <= m.last_tick_time <= TIME_LIMIT as int
    &&& m.previous_sample is Some ==> m.latest_sample is Some
    &&& m.latest_sample is Some ==> m.velocity is None
}

/// The state the engine is created in: both windows empty, no velocity,
/// the tick clock at zero.
pub open spec fn init_state() -> AppView {
    AppView { previous_sample: None, latest_sample: None, velocity: None, last_tick_time: 0 }
}

/// What `touch` does: slide the window if the position moved, record the
/// fresh sample in any case, and cancel any in-flight momentum.
pub open spec fn touch_step(m: AppView, t: int, x: int, y: int) -> AppView {
    AppView {
        previous_sample: match m.latest_sample {
            Some(l) => if l.x != x || l.y != y {
                m.latest_sample
            } else {
                m.previous_sample
            },
            None => m.previous_sample,
        },
        latest_sample: Some(SampleView { x: x, y: y, t: t }),
        velocity: None,
        last_tick_time: m.last_tick_time,
    }
}

/// What `release` does: with a full window and a positive elapsed time,
/// estimate the velocity as displacement over time and reset the window;
/// with a full window but no reliable time delta, just reset the window;
/// otherwise leave the state alone.
pub open spec fn release_step(m: AppView) -> AppView {
    match (m.previous_sample, m.latest_sample) {
        (Some(p), Some(l)) => AppView {
            previous_sample: None,
            latest_sample: None,
            velocity: if l.t - p.t >= 1 {
                Some(
                    VelocityView {
                        x: sdiv((l.x - p.x) * (MICROS_PER_SECOND as int), l.t - p.t),
                        y: sdiv((l.y - p.y) * (MICROS_PER_SECOND as int), l.t - p.t),
                    },
                )
            } else {
                None
            },
            last_tick_time: m.last_tick_time,
        },
        _ => m,
    }
}

/// A velocity after decaying for `dt` microseconds: scaled by
/// `1 - DECAY_RATE_PER_SECOND * dt` seconds-worth, floored at zero.
pub open spec fn decayed_velocity(v: VelocityView, dt: int) -> VelocityView {
    if DECAY_RATE_PER_SECOND * dt >= MICROS_PER_SECOND {
        VelocityView { x: 0, y: 0 }
    } else {
        VelocityView {
            x: sdiv(v.x * (MICROS_PER_SECOND - DECAY_RATE_PER_SECOND * dt), MICROS_PER_SECOND as int),
            y: sdiv(v.y * (MICROS_PER_SECOND - DECAY_RATE_PER_SECOND * dt), MICROS_PER_SECOND as int),
        }
    }
}

/// What `tick` does: advance the tick clock always; while coasting, also
/// request the cursor position reached in the elapsed time, decay the
/// velocity, and come to rest once it falls below the stop threshold.
/// The second component is the position handed to the cursor port, if any.
pub open spec fn tick_step(m: AppView, now: int, x: int, y: int) -> (AppView, Option<(int, int)>) {
    match m.velocity {
        None => (
            AppView {
                previous_sample: m.previous_sample,
                latest_sample: m.latest_sample,
                velocity: None,
                last_tick_time: now,
            },
            None,
        ),
        Some(v) => {
            let dt = now - m.last_tick_time;
            let target_x = clamp_coord(x + sdiv(v.x * dt, MICROS_PER_SECOND as int));
            let target_y = clamp_coord(y + sdiv(v.y * dt, MICROS_PER_SECOND as int));
            let w = decayed_velocity(v, dt);
            let vel = if speed_squared(w) < (STOP_SPEED as int) * (STOP_SPEED as int) {
                None
            } else {
                Some(w)
            };
            (
                AppView {
                    previous_sample: m.previous_sample,
                    latest_sample: m.latest_sample,
                    velocity: vel,
                    last_tick_time: now,
                },
                Some((target_x, target_y)),
            )
        },
    }
}

impl Velocity {
    /// This velocity scaled by `factor / MICROS_PER_SECOND`, each component
    /// rounded toward zero.
    pub fn scaled(&self, factor: i64) -> (w: Velocity)
        requires
            -VEL_LIMIT <= self.x <= VEL_LIMIT,
            -VEL_LIMIT <= self.y <= VEL_LIMIT,
            0 <= factor <= MICROS_PER_SECOND,
        ensures
            w@ == (VelocityView {
                x: sdiv(self.x as int * factor as int, MICROS_PER_SECOND as int),
                y: sdiv(self.y as int * factor as int, MICROS_PER_SECOND as int),
            }),
            -VEL_LIMIT <= w.x <= VEL_LIMIT,
            -VEL_LIMIT <= w.y <= VEL_LIMIT,
    {
        Velocity { x: scale_velocity(self.x, factor), y: scale_velocity(self.y, factor) }
    }

    /// Whether this velocity is slower than the stop threshold, compared on
    /// squared magnitudes so no root is needed.
    pub fn is_below_stop_speed(&self) -> (r: bool)
        requires
            -VEL_LIMIT <= self.x <= VEL_LIMIT,
            -VEL_LIMIT <= self.y <= VEL_LIMIT,
        ensures
            r == (speed_squared(self@) < (STOP_SPEED as int) * (STOP_SPEED as int)),
    {
        let xm: u128 = if self.x >= 0 {
            self.x as u128
        } else {
            (-self.x) as u128
        };
        let ym: u128 = if self.y >= 0 {
            self.y as u128
        } else {
            (-self.y) as u128
        };
        proof {
            lemma_mul_upper_bound(
                xm as int,
                2_000_000_000_000_000_000,
                xm as int,
                2_000_000_000_000_000_000,
            );
            lemma_mul_upper_bound(
                ym as int,
                2_000_000_000_000_000_000,
                ym as int,
                2_000_000_000_000_000_000,
            );
            assert(xm as int * xm as int == self.x as int * self.x as int) by (nonlinear_arith)
                requires
                    xm as int == self.x as int || xm as int == -(self.x as int),
            ;
            assert(ym as int * ym as int == self.y as int * self.y as int) by (nonlinear_arith)
                requires
                    ym as int == self.y as int || ym as int == -(self.y as int),
            ;
        }
        let sq: u128 = xm * xm + ym * ym;
        sq < (STOP_SPEED as u128) * (STOP_SPEED as u128)
    }
}

impl Default for App {
    /// A fresh engine at rest, created once at process start.
    fn default() -> (a: App)
        ensures
            a@ == init_state(),
            state_wf(a@),
    {
        App { previous_sample: None, latest_sample: None, velocity: None, last_tick_time: 0 }
    }
}

impl App {
    /// A finger is on the surface: record where the cursor is now, at the
    /// hardware timestamp `t`. The caller reads `(x, y)` from the cursor
    /// port at the moment of the event.
    ///
    /// A touch always cancels momentum, so after this call no velocity is
    /// held and ticks move nothing.
    pub fn touch(&mut self, t: i64, x: i64, y: i64)
        requires
            state_wf(old(self)@),
            0 <= t <= TIME_LIMIT,
            -COORD_LIMIT <= x <= COORD_LIMIT,
            -COORD_LIMIT <= y <= COORD_LIMIT,
        ensures
            final(self)@ == touch_step(old(self)@, t as int, x as int, y as int),
            state_wf(final(self)@),
            final(self).velocity is None,
    {
        if let Some(l) = self.latest_sample {
            if l.x != x || l.y != y {
                self.previous_sample = self.latest_sample;
            }
        }
        self.latest_sample = Some(Sample { x: x, y: y, t: t });
        self.velocity = None;
    }

    /// The finger left the surface: estimate the velocity from the two
    /// recorded samples and reset the window. With fewer than two samples
    /// this is a no-op; with a zero or backwards time delta no velocity is
    /// produced (the hardware may report equal or out-of-order timestamps).
    pub fn release(&mut self)
        requires
            state_wf(old(self)@),
        ensures
            final(self)@ == release_step(old(self)@),
            state_wf(final(self)@),
    {
        if let (Some(p), Some(l)) = (self.previous_sample, self.latest_sample) {
            let dt = l.t - p.t;
            if dt >= 1 {
                let vx = div_to_zero((l.x - p.x) * MICROS_PER_SECOND, dt);
                let vy = div_to_zero((l.y - p.y) * MICROS_PER_SECOND, dt);
                self.velocity = Some(Velocity { x: vx, y: vy });
            } else {
                self.velocity = None;
            }
            self.previous_sample = None;
            self.latest_sample = None;
        }
    }

    /// A timer fired: `now` is the monotonic clock in microseconds and
    /// `(x, y)` the cursor position read from the port. Returns the position
    /// the caller should write back through the port, or `None` when the
    /// cursor is at rest or a touch is in progress.
    ///
    /// The elapsed time is measured from the previous tick, so an irregular
    /// scheduler cadence is self-correcting: displacement and decay both
    /// scale with the time that actually passed.
    pub fn tick(&mut self, now: i64, x: i64, y: i64) -> (target: Option<(i64, i64)>)
        requires
            state_wf(old(self)@),
            old(self).last_tick_time <= now <= TIME_LIMIT,
            -COORD_LIMIT <= x <= COORD_LIMIT,
            -COORD_LIMIT <= y <= COORD_LIMIT,
        ensures
            ({
                let step = tick_step(old(self)@, now as int, x as int, y as int);
                &&& final(self)@ == step.0
                &&& match (target, step.1) {
                    (Option::None, Option::None) => true,
                    (Option::Some(rp), Option::Some(sp)) => rp.0 == sp.0 && rp.1 == sp.1,
                    _ => false,
                }
            }),
            state_wf(final(self)@),
            final(self).velocity is Some ==> old(self).velocity is Some,
    {
        let dt = now - self.last_tick_time;
        self.last_tick_time = now;
        match self.velocity {
            None => None,
            Some(v) => {
                let tx = advance_coord(x, v.x, dt);
                let ty = advance_coord(y, v.y, dt);
                let scaled_rate = DECAY_RATE_PER_SECOND * dt;
                let w = if scaled_rate >= MICROS_PER_SECOND {
                    Velocity { x: 0, y: 0 }
                } else {
                    v.scaled(MICROS_PER_SECOND - scaled_rate)
                };
                let at_rest = w.is_below_stop_speed();
                self.velocity = if at_rest {
                    None
                } else {
                    Some(w)
                };
                Some((tx, ty))
            },
        }
    }

    /// One hardware contact-frame report: a finger on the surface is a
    /// touch at the frame's timestamp and the current cursor position, a
    /// frame without one is a release.
    pub fn contact_frame(&mut self, touched: bool, t: i64, x: i64, y: i64)
        requires
            state_wf(old(self)@),
            0 <= t <= TIME_LIMIT,
            -COORD_LIMIT <= x <= COORD_LIMIT,
            -COORD_LIMIT <= y <= COORD_LIMIT,
        ensures
            final(self)@ == if touched {
                touch_step(old(self)@, t as int, x as int, y as int)
            } else {
                release_step(old(self)@)
            },
            state_wf(final(self)@),
    {
        if touched {
            self.touch(t, x, y);
        } else {
            self.release();
        }
    }
}

/// Whether any contact in a frame carries the touching state code; the
/// caller extracts the per-contact state codes from the raw frame.
pub fn any_touching(states: &Vec<i32>) -> (r: bool)
    ensures
        r == exists|i: int| 0 <= i < states@.len() && states@[i] == TOUCHING_STATE_CODE,
{
    let mut idx: usize = 0;
    while idx < states.len()
        invariant
            idx <= states.len(),
            forall|i: int| 0 <= i < idx ==> states@[i] != TOUCHING_STATE_CODE,
        decreases states.len() - idx,
    {
        if states[idx] == TOUCHING_STATE_CODE {
            proof {
                assert(states@[idx as int] == TOUCHING_STATE_CODE);
            }
            return true;
        }
        idx += 1;
    }
    false
}

} // verus!
