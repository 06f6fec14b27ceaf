use pursuit::monster::Monster;
use pursuit::monster::MonsterAgro;
use pursuit::perception::perceive;
use pursuit::speaker::Speaker;
use pursuit::steering::accel;
use pursuit::steering::clamp_speed;
use pursuit::steering::facing_direction;
use pursuit::steering::hover;
use pursuit::steering::rotate_z;
use pursuit::steering::turn_angle;
use pursuit::steering::turn_bias;
use pursuit::steering::MAX_STALK_SPEED_SQ;
use pursuit::steering::MIN_STALK_SPEED_SQ;
use pursuit::steering::TWO_PI_MILLI;
use pursuit::vec3::Vec3;
use pursuit::fxp::cos_milli;
use pursuit::fxp::isqrt;
use pursuit::fxp::sin_milli;

fn vec(x: i64, y: i64, z: i64) -> Vec3 {
    Vec3::new(x, y, z)
}

fn norm_sq_of(v: Vec3) -> i64 {
    v.x * v.x + v.y * v.y + v.z * v.z
}

// ------------------------------------------------------------------
// Scalar helpers.

#[test]
fn isqrt_exact_squares_and_neighbours() {
    assert_eq!(isqrt(0), 0);
    assert_eq!(isqrt(1), 1);
    assert_eq!(isqrt(3), 1);
    assert_eq!(isqrt(4), 2);
    assert_eq!(isqrt(999_999), 999);
    assert_eq!(isqrt(1_000_000), 1000);
    assert_eq!(isqrt(i64::MAX), 3_037_000_499);
}

#[test]
fn sine_cosine_small_angle_values() {
    assert_eq!(sin_milli(0), 0);
    assert_eq!(cos_milli(0), 1000);
    // 628 milli-radians: the largest per-tick turn the law produces.
    assert_eq!(sin_milli(628), 587);
    assert_eq!(cos_milli(628), 809);
    assert_eq!(sin_milli(-628), -587);
    assert_eq!(cos_milli(-628), 809);
}

// ------------------------------------------------------------------
// Loudness law.

#[test]
fn loudness_at_zero_distance_is_volume() {
    let s = Speaker { volume: 4000, active: true };
    // 4.0 / 10^0 = 4.0, i.e. 4_000_000 micro-units.
    assert_eq!(s.loudness(&vec(0, 0, 0)), 4_000_000);
}

#[test]
fn loudness_at_one_unit_is_a_tenth() {
    let s = Speaker { volume: 4000, active: true };
    // 4.0 / 10^1 = 0.4, i.e. 400_000 micro-units.
    assert_eq!(s.loudness(&vec(0, 1000, 0)), 400_000);
}

#[test]
fn loudness_interpolates_between_powers() {
    let s = Speaker { volume: 4000, active: true };
    // Half a unit away: 4.0 / 5.5 with the linear fractional interpolation.
    assert_eq!(s.loudness(&vec(0, 500, 0)), 727_272);
}

#[test]
fn loudness_of_inactive_speaker_is_zero() {
    let s = Speaker { volume: 4000, active: false };
    assert_eq!(s.loudness(&vec(0, 0, 0)), 0);
    assert_eq!(s.loudness(&vec(0, 1000, 0)), 0);
}

#[test]
fn loudness_vanishes_far_away() {
    let s = Speaker { volume: 4000, active: true };
    // Ten units: 4.0 / 10^10 truncates to zero in micro-units.
    assert_eq!(s.loudness(&vec(0, 10_000, 0)), 0);
}

#[test]
fn default_speaker_is_active_at_four() {
    let s = Speaker::default();
    assert_eq!(s.volume, 4000);
    assert!(s.active);
}

// ------------------------------------------------------------------
// Perception.

#[test]
fn perceive_empty_set_selects_nothing() {
    let sounds: Vec<(Speaker, Vec3)> = vec![];
    assert!(perceive(vec(0, 0, 0), &sounds).is_none());
}

#[test]
fn perceive_all_inactive_selects_nothing() {
    let off = Speaker { volume: 4000, active: false };
    let sounds = vec![(off, vec(1000, 0, 0)), (off, vec(0, 2000, 0))];
    assert!(perceive(vec(0, 0, 0), &sounds).is_none());
}

#[test]
fn perceive_selects_loudest_active() {
    let pos = vec(0, 0, 0);
    // The ear sits half a unit below the position.
    let quiet = (Speaker { volume: 4000, active: true }, vec(0, 2000, -500));
    let loud = (Speaker { volume: 4000, active: true }, vec(0, 1000, -500));
    let sounds = vec![quiet, loud];
    let (l, i, rel) = perceive(pos, &sounds).unwrap();
    assert_eq!(i, 1);
    assert_eq!(rel, vec(0, 1000, 0));
    assert_eq!(l, 400_000);
}

#[test]
fn perceive_ignores_inactive_even_when_nearest() {
    let pos = vec(0, 0, 0);
    let near_off = (Speaker { volume: 4000, active: false }, vec(0, 500, -500));
    let far_on = (Speaker { volume: 4000, active: true }, vec(0, 2000, -500));
    let sounds = vec![near_off, far_on];
    let (_, i, _) = perceive(pos, &sounds).unwrap();
    assert_eq!(i, 1);
}

#[test]
fn perceive_tie_keeps_first() {
    let pos = vec(0, 0, 0);
    let a = (Speaker { volume: 4000, active: true }, vec(0, 1000, -500));
    let b = (Speaker { volume: 4000, active: true }, vec(1000, 0, -500));
    let sounds = vec![a, b];
    let (_, i, rel) = perceive(pos, &sounds).unwrap();
    assert_eq!(i, 0);
    assert_eq!(rel, vec(0, 1000, 0));
}

#[test]
fn perceive_exponential_decay_dominates_base_volume() {
    // One emitter ten units up, one a single unit away: the closer one is
    // selected although the far one is equally loud at the source, and
    // even if the far one is louder at the source.
    let pos = vec(0, 0, 0);
    let far = (Speaker { volume: 4000, active: true }, vec(0, 0, 9500));
    let near = (Speaker { volume: 4000, active: true }, vec(0, 1000, -500));
    let sounds = vec![far, near];
    let (l, i, _) = perceive(pos, &sounds).unwrap();
    assert_eq!(i, 1);
    assert_eq!(l, 400_000);

    let very_loud_far = (Speaker { volume: 900_000, active: true }, vec(0, 0, 9500));
    let sounds2 = vec![very_loud_far, near];
    let (l2, i2, _) = perceive(pos, &sounds2).unwrap();
    assert_eq!(i2, 1);
    assert_eq!(l2, 400_000);
}

// ------------------------------------------------------------------
// Speed clamp.

#[test]
fn clamp_speed_leaves_zero_alone() {
    assert_eq!(clamp_speed(vec(0, 0, 0)), vec(0, 0, 0));
}

#[test]
fn clamp_speed_leaves_band_speeds_alone() {
    let v = vec(0, 8000, 0);
    assert_eq!(clamp_speed(v), v);
    let w = vec(3000, 4000, 5000);
    assert_eq!(clamp_speed(w), w);
}

#[test]
fn clamp_speed_raises_slow_speeds_into_band() {
    let r = clamp_speed(vec(0, 2000, 0));
    let m2 = norm_sq_of(r);
    assert!(MIN_STALK_SPEED_SQ <= m2 && m2 <= MAX_STALK_SPEED_SQ);
    // Direction is preserved: still pure +y.
    assert_eq!(r.x, 0);
    assert_eq!(r.z, 0);
    assert!(r.y > 0);
}

#[test]
fn clamp_speed_lowers_fast_speeds_into_band() {
    let r = clamp_speed(vec(0, 20_000, 0));
    assert_eq!(r, vec(0, 11_110, 0));
    let m2 = norm_sq_of(r);
    assert!(MIN_STALK_SPEED_SQ <= m2 && m2 <= MAX_STALK_SPEED_SQ);
}

#[test]
fn clamp_speed_handles_tiny_and_skew_vectors() {
    // A crawl of one milli-unit per second straight down.
    let r = clamp_speed(vec(0, 0, -1));
    let m2 = norm_sq_of(r);
    assert!(MIN_STALK_SPEED_SQ <= m2 && m2 <= MAX_STALK_SPEED_SQ);
    assert_eq!(r.x, 0);
    assert_eq!(r.y, 0);
    assert!(r.z < 0);

    let r2 = clamp_speed(vec(300_000, -400_000, 120_000));
    let m2b = norm_sq_of(r2);
    assert!(MIN_STALK_SPEED_SQ <= m2b && m2b <= MAX_STALK_SPEED_SQ);
    assert!(r2.x > 0 && r2.y < 0 && r2.z > 0);
}

// ------------------------------------------------------------------
// Heading bias walk.

#[test]
fn turn_bias_clamps_at_both_ends() {
    assert_eq!(turn_bias(TWO_PI_MILLI, 1000), TWO_PI_MILLI);
    assert_eq!(turn_bias(-TWO_PI_MILLI, -1000), -TWO_PI_MILLI);
    assert_eq!(turn_bias(0, 700), 700);
    assert_eq!(turn_bias(6000, 700), TWO_PI_MILLI);
    assert_eq!(turn_bias(-6000, -700), -TWO_PI_MILLI);
}

#[test]
fn bias_walk_stays_in_band_under_extreme_injection() {
    let mut d: i64 = 0;
    for i in 0..1000 {
        let p = if i % 3 == 0 { 1000 } else if i % 3 == 1 { -1000 } else { 999 };
        d = turn_bias(d, p);
        assert!(-TWO_PI_MILLI <= d && d <= TWO_PI_MILLI);
    }
}

// ------------------------------------------------------------------
// Hover correction.

#[test]
fn hover_above_height_adds_nothing() {
    // Probe 12.5 units: raw clearance 8.5 over the 8.0 hover height.
    let (snap, vz) = hover(0, Some(12_500), 1000);
    assert_eq!(snap, 0);
    assert_eq!(vz, 0);
}

#[test]
fn hover_below_height_pushes_up_quadratically() {
    // Raw clearance 6.0: deficit 2.0 -> impulse 2^2 * dt.
    let (snap, vz) = hover(0, Some(10_000), 1000);
    assert_eq!(snap, 0);
    assert_eq!(vz, 4_000);
    // Twice the deficit quadruples the impulse: raw clearance 4.0.
    let (_, vz2) = hover(0, Some(8_000), 1000);
    assert_eq!(vz2, 16_000);
    // The impulse scales with the tick.
    let (_, vz3) = hover(0, Some(10_000), 500);
    assert_eq!(vz3, 2_000);
}

#[test]
fn hover_snaps_up_out_of_the_floor() {
    // Probe shorter than its pre-length: the agent is snapped upward.
    let (snap, _) = hover(0, Some(1_500), 1000);
    assert_eq!(snap, 2_500);
    let (snap2, _) = hover(0, Some(4_000), 1000);
    assert_eq!(snap2, 0);
}

#[test]
fn hover_no_hit_counts_as_deep_deficit() {
    // No hit reads as -10.0; raw clearance -14.0, snap 14.0,
    // deficit 22.0 -> impulse 484 * dt.
    let (snap, vz) = hover(0, None, 1000);
    assert_eq!(snap, 14_000);
    assert_eq!(vz, 484_000);
}

#[test]
fn hover_counts_current_vertical_velocity() {
    // Rising at 2.0/s closes the deficit of a 6.0 clearance to nothing.
    let (_, vz) = hover(2000, Some(10_000), 1000);
    assert_eq!(vz, 2000);
}

// ------------------------------------------------------------------
// Rotation and facing.

#[test]
fn rotate_zero_angle_is_identity() {
    let v = vec(5000, -3000, 777);
    assert_eq!(rotate_z(v, 0), v);
}

#[test]
fn rotate_quarterish_angle_turns_left() {
    // At 628 milli-radians: cos 0.809, sin 0.587.
    let r = rotate_z(vec(10_000, 0, 5), 628);
    assert_eq!(r, vec(8_090, 5_870, 5));
}

#[test]
fn turn_angle_couples_bias_and_tick() {
    assert_eq!(turn_angle(6283, 1000), 628);
    assert_eq!(turn_angle(-6283, 1000), -628);
    assert_eq!(turn_angle(3000, 500), 150);
    assert_eq!(turn_angle(3000, 0), 0);
}

#[test]
fn facing_is_opposite_to_motion() {
    assert_eq!(facing_direction(vec(0, 5000, 0)), Some(vec(0, -1000, 0)));
    assert_eq!(facing_direction(vec(3000, 4000, 0)), Some(vec(-600, -800, 0)));
    assert_eq!(facing_direction(vec(0, 0, 0)), None);
}

#[test]
fn facing_round_trip_recovers_direction() {
    // Negating the facing gives exactly the unit direction of motion.
    let v = vec(3000, 4000, 0);
    let f = facing_direction(v).unwrap();
    let back = vec(-f.x, -f.y, -f.z);
    assert_eq!(back, vec(600, 800, 0));
    // And the unit direction of motion is the facing of the negated velocity.
    assert_eq!(facing_direction(vec(-v.x, -v.y, -v.z)), Some(back));
}

// ------------------------------------------------------------------
// Acceleration.

#[test]
fn accel_pulls_toward_the_sound() {
    // Ten units away, one-second tick: 10 * 5 * 1 = 50 milli-units/s^2... in
    // milli terms 10_000 * 5 * 1000 * 1000 / 10^6 = 50_000.
    let r = accel(vec(0, 0, 0), vec(0, 10_000, 0), 1000);
    assert_eq!(r, vec(0, 50_000, 0));
    // A shorter tick scales with dt^2.
    let r2 = accel(vec(100, 0, 0), vec(0, 10_000, 0), 500);
    assert_eq!(r2, vec(100, 12_500, 0));
    // Toward, not away: negative offsets pull negatively.
    let r3 = accel(vec(0, 0, 0), vec(-10_000, 0, 0), 1000);
    assert_eq!(r3, vec(-50_000, 0, 0));
}

// ------------------------------------------------------------------
// The whole behavior tick.

#[test]
fn behavior_goes_bored_when_nothing_is_heard() {
    let mut m = Monster::new(vec(0, 8000, 0));
    let sounds: Vec<(Speaker, Vec3)> = vec![];
    let out = m.behavior_with_turn(1000, vec(0, 0, 0), Some(12_000), &sounds, 500);
    assert_eq!(m.agro, MonsterAgro::Bored);
    assert_eq!(m.velocity, vec(0, 8000, 0));
    assert_eq!(m.direction, 0);
    assert_eq!(out.snap_up, 0);
    assert!(out.facing.is_none());
}

#[test]
fn behavior_goes_bored_when_all_speakers_are_silent() {
    let mut m = Monster::new(vec(0, 8000, 0));
    let sounds = vec![(Speaker { volume: 4000, active: false }, vec(0, 1000, 0))];
    m.behavior_with_turn(1000, vec(0, 0, 0), Some(12_000), &sounds, 500);
    assert_eq!(m.agro, MonsterAgro::Bored);
}

#[test]
fn behavior_placeholder_states_do_nothing() {
    let mut m = Monster::new(vec(0, 8000, 0));
    m.agro = MonsterAgro::Bored;
    let sounds = vec![(Speaker { volume: 4000, active: true }, vec(0, 1000, -500))];
    let out = m.behavior_with_turn(1000, vec(0, 0, 0), Some(12_000), &sounds, 500);
    assert_eq!(m.agro, MonsterAgro::Bored);
    assert_eq!(m.velocity, vec(0, 8000, 0));
    assert_eq!(m.direction, 0);
    assert_eq!(out.snap_up, 0);
    assert!(out.facing.is_none());

    let mut h = Monster::new(vec(0, 8000, 0));
    h.agro = MonsterAgro::Hunting;
    h.behavior_with_turn(1000, vec(0, 0, 0), Some(12_000), &sounds, 500);
    assert_eq!(h.agro, MonsterAgro::Hunting);
    assert_eq!(h.velocity, vec(0, 8000, 0));
}

#[test]
fn behavior_stalking_tick_exact() {
    // A zero-length tick isolates the speed clamp, the floor snap and the
    // facing: no acceleration, no hover impulse, no yaw.
    let mut m = Monster::new(vec(0, 20_000, 0));
    let sounds = vec![(Speaker { volume: 4000, active: true }, vec(0, 1000, -500))];
    let out = m.behavior_with_turn(0, vec(0, 0, 0), Some(1_500), &sounds, 700);
    assert_eq!(m.agro, MonsterAgro::Stalking);
    assert_eq!(m.direction, 700);
    assert_eq!(m.velocity, vec(0, 11_110, 0));
    assert_eq!(out.snap_up, 2_500);
    assert_eq!(out.facing, Some(vec(0, -1000, 0)));
}

#[test]
fn behavior_stalking_full_tick() {
    // One full second toward a speaker ten units ahead, floor comfortably
    // below, starting at rest: accelerate to (0, 50.0, 0) in milli-units,
    // clamp down into the stalking band, hover-correct, yaw by the bias.
    let mut m = Monster::new(vec(0, 0, 0));
    let sounds = vec![(Speaker { volume: 4000, active: true }, vec(0, 10_000, -500))];
    let out = m.behavior_with_turn(1000, vec(0, 0, 0), Some(12_500), &sounds, 200);
    assert_eq!(m.agro, MonsterAgro::Stalking);
    assert_eq!(m.direction, 200);
    // Accelerated to (0, 50_000, 0), clamped to (0, 11_110, 0); clearance
    // 8.5 exceeds the hover height, so no impulse; yaw by
    // 200 * 1000 / 10_000 = 20 milli-radians: sin 19, cos 999 after the
    // series truncation... cos(20 mrad) = 1000 - 400/2000 = 1000.
    assert_eq!(out.snap_up, 0);
    let v = m.velocity;
    assert_eq!(v.z, 0);
    assert_eq!(v, vec(-222, 11_110, 0));
    assert_eq!(out.facing, Some(facing_direction(v).unwrap()));
}

#[test]
fn behavior_at_world_extremes_keeps_invariants() {
    // Agent and speaker at opposite corners of the modelled world, the
    // probe at both of its bounds, the longest admissible tick.
    let mut m = Monster::new(vec(0, 0, 0));
    let sounds =
        vec![(Speaker { volume: 1_000_000_000, active: true }, vec(-10_000_000, -10_000_000, -10_000_000))];
    let pos = vec(10_000_000, 10_000_000, 10_000_000);
    for ground in [Some(1_000_000), Some(-1_000_000), None] {
        let out = m.behavior_with_turn(1000, pos, ground, &sounds, -1000);
        assert!(out.snap_up >= 0);
        assert!(m.direction >= -TWO_PI_MILLI && m.direction <= TWO_PI_MILLI);
        assert!(m.velocity.x.abs() <= 1_100_000_000);
        assert!(m.velocity.y.abs() <= 1_100_000_000);
        assert!(m.velocity.z.abs() <= 1_100_000_000);
    }
}

#[test]
fn behavior_deep_probe_snaps_and_kicks() {
    // The probe bottoms out a kilometre below: the agent is snapped up by
    // the full penetration and the hover spring kicks hard.
    let mut m = Monster::new(vec(0, 8000, 0));
    let sounds = vec![(Speaker { volume: 4000, active: true }, vec(0, 1000, -500))];
    let out = m.behavior_with_turn(0, vec(0, 0, 0), Some(-1_000_000), &sounds, 0);
    // raw clearance = -1_000_000 - 4_000; the snap undoes the penetration.
    assert_eq!(out.snap_up, 1_004_000);
    // deficit 8_000 + 1_004_000 over a zero tick: no impulse this time.
    assert_eq!(m.velocity, vec(0, 8000, 0));
}

#[test]
fn behavior_random_walk_keeps_invariants() {
    let mut m = Monster::new(vec(0, 8000, 0));
    let sounds = vec![
        (Speaker { volume: 4000, active: true }, vec(5_000, 5_000, 0)),
        (Speaker { volume: 4000, active: true }, vec(-4_000, 2_000, 500)),
    ];
    for _ in 0..500 {
        let out = m.behavior(1000, vec(0, 0, 0), Some(9_000), &sounds);
        assert!(m.direction >= -TWO_PI_MILLI && m.direction <= TWO_PI_MILLI);
        assert!(out.snap_up >= 0);
        assert!(m.velocity.x.abs() <= 1_100_000_000);
        assert!(m.velocity.y.abs() <= 1_100_000_000);
        assert!(m.velocity.z.abs() <= 1_100_000_000);
        assert_eq!(m.agro, MonsterAgro::Stalking);
    }
}
