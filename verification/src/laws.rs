//! The engine's laws: properties that relate several operations, proved
//! once and for all over the step functions of [`crate::app`].

use vstd::prelude::*;
use crate::app::{
    decayed_velocity, release_step, speed_squared, state_wf, tick_step, touch_step, AppView,
    SampleView, VelocityView,
};
use crate::fixed::{
    abs_val, clamp_coord, lemma_sdiv_exact, lemma_sdiv_scale, lemma_square_le_abs,
    lemma_square_lt_abs, sdiv, COORD_LIMIT, DECAY_RATE_PER_SECOND, MICROS_PER_SECOND, STOP_SPEED,
};
use vstd::arithmetic::div_mod::{lemma_div_nonincreasing, lemma_div_pos_is_pos};

verus! {

/// Law: two touches at distinct positions with increasing timestamps,
/// followed by a release, produce exactly the velocity
/// displacement-over-elapsed-time — whatever state the engine started in —
/// and leave the sample window empty.
pub proof fn lemma_two_touch_release_velocity(
    m: AppView,
    t1: int,
    x1: int,
    y1: int,
    t2: int,
    x2: int,
    y2: int,
)
    requires
        t2 > t1,
        x1 != x2 || y1 != y2,
    ensures
        ({
            let after = release_step(touch_step(touch_step(m, t1, x1, y1), t2, x2, y2));
            &&& after.velocity == Some(
                VelocityView {
                    x: sdiv((x2 - x1) * (MICROS_PER_SECOND as int), t2 - t1),
                    y: sdiv((y2 - y1) * (MICROS_PER_SECOND as int), t2 - t1),
                },
            )
            &&& after.previous_sample is None
            &&& after.latest_sample is None
        }),
{
    let m1 = touch_step(m, t1, x1, y1);
    let m2 = touch_step(m1, t2, x2, y2);
    assert(m1.latest_sample == Some(SampleView { x: x1, y: y1, t: t1 }));
    assert(m2.previous_sample == Some(SampleView { x: x1, y: y1, t: t1 }));
    assert(m2.latest_sample == Some(SampleView { x: x2, y: y2, t: t2 }));
}

/// Law: a release with fewer than two recorded samples is a no-op; in
/// particular, when no momentum was in flight none appears, so no motion
/// starts.
pub proof fn lemma_release_without_window(m: AppView)
    requires
        m.previous_sample is None || m.latest_sample is None,
    ensures
        release_step(m) == m,
        m.velocity is None ==> release_step(m).velocity is None,
{
}

/// Law: while coasting, a tick after any positive elapsed time either
/// strictly reduces the squared speed or brings the cursor to rest.
/// Together with [`lemma_rest_stays_at_rest`] and the momentum-cancelling
/// contract of `touch`, once the speed crosses the stop threshold the
/// velocity stays absent until the next release.
pub proof fn lemma_tick_strictly_decays(m: AppView, now: int, x: int, y: int)
    requires
        state_wf(m),
        m.velocity is Some,
        now >= m.last_tick_time + 1,
    ensures
        ({
            let next = tick_step(m, now, x, y).0;
            match (m.velocity, next.velocity) {
                (Some(v), Some(w)) => speed_squared(w) < speed_squared(v),
                (Some(v), None) => true,
                _ => false,
            }
        }),
        ({
            let next = tick_step(m, now, x, y).0;
            match next.velocity {
                Some(w) => speed_squared(w) >= (STOP_SPEED as int) * (STOP_SPEED as int),
                None => true,
            }
        }),
{
    match m.velocity {
        Some(v) => {
            let dt = now - m.last_tick_time;
            let next = tick_step(m, now, x, y).0;
            let w = decayed_velocity(v, dt);
            if DECAY_RATE_PER_SECOND * dt >= MICROS_PER_SECOND {
                assert(speed_squared(w) == 0) by (nonlinear_arith)
                    requires
                        w.x == 0 && w.y == 0,
                ;
                assert(next.velocity is None);
            } else {
                let f = MICROS_PER_SECOND - DECAY_RATE_PER_SECOND * dt;
                assert(1 <= f < MICROS_PER_SECOND as int);
                lemma_sdiv_scale(v.x, f, MICROS_PER_SECOND as int);
                lemma_sdiv_scale(v.y, f, MICROS_PER_SECOND as int);
                if next.velocity is Some {
                    lemma_square_le_abs(w.x, v.x);
                    lemma_square_le_abs(w.y, v.y);
                    if v.x != 0 {
                        lemma_square_lt_abs(w.x, v.x);
                    } else if v.y != 0 {
                        lemma_square_lt_abs(w.y, v.y);
                    } else {
                        assert(abs_val(w.x) <= 0 && abs_val(w.y) <= 0);
                        assert(speed_squared(w) == 0) by (nonlinear_arith)
                            requires
                                w.x == 0 && w.y == 0,
                        ;
                        assert(false);
                    }
                }
            }
        },
        None => {
        },
    }
}

/// Law: with no velocity in flight — at rest, or while a touch is in
/// progress — a tick only advances its clock: it requests no cursor
/// movement and produces no velocity. Only a release creates momentum.
pub proof fn lemma_rest_stays_at_rest(m: AppView, now: int, x: int, y: int)
    requires
        m.velocity is None,
    ensures
        tick_step(m, now, x, y).0.velocity is None,
        tick_step(m, now, x, y).1 is None,
{
}

/// Law: a touch always overrides momentum: whatever the engine was doing,
/// after a touch no velocity is held and the following tick requests no
/// cursor movement — a coast-then-touch sequence halts displacement.
pub proof fn lemma_touch_halts_coasting(
    m: AppView,
    t: int,
    x: int,
    y: int,
    now: int,
    cx: int,
    cy: int,
)
    ensures
        touch_step(m, t, x, y).velocity is None,
        tick_step(touch_step(m, t, x, y), now, cx, cy).1 is None,
{
}

/// Law: the tick clock only ever advances: touch and release never move
/// it, and a tick sets it to the (monotonic, hence no smaller) reading it
/// was handed.
pub proof fn lemma_clock_only_advances(m: AppView, now: int, t: int, x: int, y: int)
    requires
        now >= m.last_tick_time,
    ensures
        touch_step(m, t, x, y).last_tick_time == m.last_tick_time,
        release_step(m).last_tick_time == m.last_tick_time,
        tick_step(m, now, x, y).0.last_tick_time == now,
        tick_step(m, now, x, y).0.last_tick_time >= m.last_tick_time,
{
}

/// Law: a tick with no elapsed time moves nothing: the requested position
/// is exactly the position read from the port, and the decay factor is a
/// no-op — a velocity at or above the stop threshold is kept bit for bit
/// (one already below it comes to rest).
pub proof fn lemma_tick_zero_elapsed(m: AppView, x: int, y: int)
    requires
        state_wf(m),
        -(COORD_LIMIT as int) <= x <= COORD_LIMIT as int,
        -(COORD_LIMIT as int) <= y <= COORD_LIMIT as int,
    ensures
        ({
            let step = tick_step(m, m.last_tick_time, x, y);
            &&& m.velocity is Some ==> step.1 == Some((x, y))
            &&& m.velocity is None ==> step.1 is None
            &&& match m.velocity {
                Some(v) => step.0.velocity == if speed_squared(v) < (STOP_SPEED as int) * (
                STOP_SPEED as int) {
                    None
                } else {
                    Some(v)
                },
                None => step.0.velocity is None,
            }
        }),
{
    match m.velocity {
        Some(v) => {
            let dt = m.last_tick_time - m.last_tick_time;
            assert(v.x * dt == 0) by (nonlinear_arith)
                requires
                    dt == 0,
            ;
            assert(v.y * dt == 0) by (nonlinear_arith)
                requires
                    dt == 0,
            ;
            assert(sdiv(0, MICROS_PER_SECOND as int) == 0) by {
                lemma_div_pos_is_pos(0, MICROS_PER_SECOND as int);
                lemma_div_nonincreasing(0, MICROS_PER_SECOND as int);
            }
            assert(clamp_coord(x + 0) == x);
            assert(MICROS_PER_SECOND - DECAY_RATE_PER_SECOND * dt == MICROS_PER_SECOND as int);
            lemma_sdiv_exact(v.x, MICROS_PER_SECOND as int);
            lemma_sdiv_exact(v.y, MICROS_PER_SECOND as int);
            assert(decayed_velocity(v, dt) == v);
        },
        None => {
        },
    }
}

} // verus!

