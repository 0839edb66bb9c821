//! Behavioural tests for the motion engine, driven through the public
//! operations exactly as the platform collaborators would drive them.
//! Positions are in position units (1000 per pixel), times in microseconds.

use antifriction_trackpad::app::{any_touching, App, Sample, Velocity};
use antifriction_trackpad::fixed::{
    advance_coord, div_to_zero, scale_velocity, COORD_LIMIT, STOP_SPEED, VEL_LIMIT,
};

#[test]
fn fresh_engine_is_at_rest() {
    let app = App::default();
    assert_eq!(app.previous_sample, None);
    assert_eq!(app.latest_sample, None);
    assert_eq!(app.velocity, None);
    assert_eq!(app.last_tick_time, 0);
}

#[test]
fn two_touches_and_release_estimate_velocity_exactly() {
    let mut app = App::default();
    app.touch(0, 100_000, 100_000);
    app.touch(100_000, 110_000, 100_000);
    app.release();
    // 10 pixels in 0.1 s: 100 pixels per second, exactly.
    assert_eq!(app.velocity, Some(Velocity { x: 100_000, y: 0 }));
    assert_eq!(app.previous_sample, None);
    assert_eq!(app.latest_sample, None);
}

#[test]
fn velocity_estimate_rounds_toward_zero() {
    let mut app = App::default();
    app.touch(0, 0, 0);
    app.touch(3, -10, 0);
    app.release();
    // -10 units over 3 microseconds: -10_000_000 / 3 truncated toward zero.
    assert_eq!(app.velocity, Some(Velocity { x: -3_333_333, y: 0 }));
}

#[test]
fn release_without_any_sample_is_a_no_op() {
    let mut app = App::default();
    app.release();
    assert_eq!(app.velocity, None);
    assert_eq!(app.previous_sample, None);
    assert_eq!(app.latest_sample, None);
}

#[test]
fn release_with_a_single_sample_starts_no_motion() {
    let mut app = App::default();
    app.touch(0, 5_000, 5_000);
    app.release();
    assert_eq!(app.velocity, None);
    // The no-op leaves the lone sample in place.
    assert_eq!(app.latest_sample, Some(Sample { x: 5_000, y: 5_000, t: 0 }));
}

#[test]
fn touches_at_the_same_position_never_fill_the_window() {
    let mut app = App::default();
    app.touch(0, 7_000, 8_000);
    app.touch(50_000, 7_000, 8_000);
    // The window did not slide, only the timestamp was refreshed.
    assert_eq!(app.previous_sample, None);
    assert_eq!(app.latest_sample, Some(Sample { x: 7_000, y: 8_000, t: 50_000 }));
    app.release();
    assert_eq!(app.velocity, None);
}

#[test]
fn equal_timestamps_give_no_velocity() {
    let mut app = App::default();
    app.touch(1_000, 0, 0);
    app.touch(1_000, 9_000, 0);
    app.release();
    assert_eq!(app.velocity, None);
    assert_eq!(app.latest_sample, None);
}

#[test]
fn out_of_order_timestamps_give_no_velocity() {
    let mut app = App::default();
    app.touch(5, 0, 0);
    app.touch(3, 9_000, 0);
    app.release();
    assert_eq!(app.velocity, None);
}

#[test]
fn end_to_end_coast_moves_then_decays() {
    let mut app = App::default();
    app.touch(0, 100_000, 100_000);
    app.touch(100_000, 110_000, 100_000);
    app.release();
    assert_eq!(app.velocity, Some(Velocity { x: 100_000, y: 0 }));
    // One tick 0.1 s later: ten more pixels, velocity scaled by 1 - 5 * 0.1.
    let target = app.tick(100_000, 110_000, 100_000);
    assert_eq!(target, Some((120_000, 100_000)));
    assert_eq!(app.velocity, Some(Velocity { x: 50_000, y: 0 }));
    assert_eq!(app.last_tick_time, 100_000);
}

#[test]
fn repeated_ticks_strictly_slow_the_coast_until_rest() {
    let mut app = App::default();
    app.touch(0, 0, 0);
    app.touch(100_000, 10_000, -10_000);
    app.release();
    let mut speed2 = {
        let v = app.velocity.unwrap();
        (v.x as i128) * (v.x as i128) + (v.y as i128) * (v.y as i128)
    };
    let mut now = 0i64;
    let mut pos = (10_000i64, -10_000i64);
    let mut rounds = 0usize;
    while let Some(v) = app.velocity {
        assert!(rounds < 1_000);
        rounds += 1;
        now += 10_000;  // a 10 ms scheduler cadence
        let _ = v;
        if let Some(next) = app.tick(now, pos.0, pos.1) {
            pos = next;
        }
        if let Some(w) = app.velocity {
            let s = (w.x as i128) * (w.x as i128) + (w.y as i128) * (w.y as i128);
            assert!(s < speed2, "squared speed must strictly decrease");
            speed2 = s;
        }
    }
    // Once at rest, further ticks request no movement and produce none.
    assert_eq!(app.tick(now + 10_000, pos.0, pos.1), None);
    assert_eq!(app.velocity, None);
}

#[test]
fn touching_while_coasting_halts_displacement() {
    let mut app = App::default();
    app.touch(0, 0, 0);
    app.touch(100_000, 50_000, 0);
    app.release();
    assert!(app.velocity.is_some());
    // A finger lands again: momentum dies at once.
    app.touch(150_000, 50_000, 0);
    assert_eq!(app.velocity, None);
    assert_eq!(app.tick(200_000, 50_000, 0), None);
}

#[test]
fn zero_elapsed_tick_moves_nothing_and_keeps_the_velocity() {
    let mut app = App::default();
    app.touch(0, 0, 0);
    app.touch(100_000, 10_000, 20_000);
    app.release();
    let v = app.velocity.unwrap();
    app.tick(40_000, 10_000, 20_000);
    let after_first = app.velocity.unwrap();
    // Same clock reading again: the position request is the input position
    // and the velocity is kept bit for bit.
    let target = app.tick(40_000, 10_000, 20_000);
    assert_eq!(target, Some((10_000, 20_000)));
    assert_eq!(app.velocity, Some(after_first));
    assert!(after_first.x.abs() <= v.x.abs());
}

#[test]
fn slow_velocity_is_cleared_at_the_stop_threshold() {
    let mut app = App::default();
    // 4.999 pixels per second: below the 5 pixel-per-second stop speed.
    app.touch(0, 0, 0);
    app.touch(1_000_000, STOP_SPEED - 1, 0);
    app.release();
    assert_eq!(app.velocity, Some(Velocity { x: STOP_SPEED - 1, y: 0 }));
    let target = app.tick(0, STOP_SPEED - 1, 0);
    assert_eq!(target, Some((STOP_SPEED - 1, 0)));
    assert_eq!(app.velocity, None);
}

#[test]
fn velocity_at_the_stop_threshold_keeps_coasting() {
    let mut app = App::default();
    app.touch(0, 0, 0);
    app.touch(1_000_000, STOP_SPEED, 0);
    app.release();
    let target = app.tick(0, STOP_SPEED, 0);
    assert_eq!(target, Some((STOP_SPEED, 0)));
    assert_eq!(app.velocity, Some(Velocity { x: STOP_SPEED, y: 0 }));
}

#[test]
fn a_long_gap_between_ticks_floors_the_decay_at_zero() {
    let mut app = App::default();
    app.touch(0, 0, 0);
    app.touch(100_000, 10_000, 0);
    app.release();
    assert_eq!(app.velocity, Some(Velocity { x: 100_000, y: 0 }));
    // 0.4 seconds without a tick: 1 - 5 * 0.4 < 0, so the coast ends, but
    // the displacement for the elapsed time is still requested.
    let target = app.tick(400_000, 10_000, 0);
    assert_eq!(target, Some((50_000, 0)));
    assert_eq!(app.velocity, None);
}

#[test]
fn requested_positions_are_clamped_to_the_coordinate_range() {
    let mut app = App::default();
    app.touch(0, -COORD_LIMIT, 0);
    app.touch(1, COORD_LIMIT, 0);
    app.release();
    assert_eq!(app.velocity, Some(Velocity { x: VEL_LIMIT, y: 0 }));
    // One full second at the largest representable speed overshoots any
    // coordinate; the request saturates instead of overflowing.
    let target = app.tick(1_000_000, COORD_LIMIT, 0);
    assert_eq!(target, Some((COORD_LIMIT, 0)));
}

#[test]
fn contact_frames_drive_touch_and_release() {
    let mut app = App::default();
    app.contact_frame(true, 0, 1_000, 2_000);
    app.contact_frame(true, 10_000, 2_000, 2_000);
    assert!(app.latest_sample.is_some());
    app.contact_frame(false, 0, 0, 0);
    assert_eq!(app.velocity, Some(Velocity { x: 100_000, y: 0 }));
    assert_eq!(app.latest_sample, None);
}

#[test]
fn any_touching_finds_the_touching_state_code() {
    assert!(!any_touching(&vec![]));
    assert!(!any_touching(&vec![0, 1, 2, 3, 5, 7]));
    assert!(any_touching(&vec![4]));
    assert!(any_touching(&vec![0, 0, 4]));
    assert!(any_touching(&vec![4, 0, 0]));
}

#[test]
fn velocity_helpers_scale_and_compare_exactly() {
    let v = Velocity { x: 100, y: -100 };
    let half = v.scaled(500_000);
    assert_eq!(half, Velocity { x: 50, y: -50 });
    // Scaling rounds toward zero on both signs.
    let tiny = Velocity { x: 999_999, y: -999_999 }.scaled(1);
    assert_eq!(tiny, Velocity { x: 0, y: 0 });
    // 3-4-5: a speed of exactly STOP_SPEED is not below the threshold.
    assert!(!Velocity { x: 3_000, y: 4_000 }.is_below_stop_speed());
    assert!(Velocity { x: 3_000, y: 3_999 }.is_below_stop_speed());
}

#[test]
fn fixed_point_division_truncates_toward_zero() {
    assert_eq!(div_to_zero(7, 2), 3);
    assert_eq!(div_to_zero(-7, 2), -3);
    assert_eq!(div_to_zero(0, 5), 0);
    assert_eq!(scale_velocity(-999, 1), 0);
    // Half a second at -1 pixel per second moves half a pixel backwards.
    assert_eq!(advance_coord(0, -1_000_000, 500_000), -500_000);
}
