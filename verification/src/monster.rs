//! The monster agent: perception of the loudest speaker, then one tick of
//! the stalking steering law.

use vstd::prelude::*;

use crate::perception::spec_perceive;
use crate::perception::lemma_perceive_selects;
use crate::perception::perceive;
use crate::perception::spec_offset;
use crate::speaker::Speaker;
use crate::speaker::VOLUME_LIMIT_MILLI;
use crate::speaker::POSITION_LIMIT_MILLI;
use crate::steering::spec_turn_bias;
use crate::steering::turn_bias;
use crate::steering::spec_accel;
use crate::steering::lemma_accel_within;
use crate::steering::lemma_clamp_speed_band;
use crate::steering::lemma_rotate_zero;
use crate::steering::accel;
use crate::steering::spec_clamp_speed;
use crate::steering::clamp_speed;
use crate::steering::spec_hover;
use crate::steering::hover;
use crate::steering::spec_turn_angle;
use crate::steering::turn_angle;
use crate::steering::spec_rotate_z;
use crate::steering::rotate_z;
use crate::steering::spec_facing;
use crate::steering::facing_direction;
use crate::steering::TWO_PI_MILLI;
use crate::steering::MIN_STALK_SPEED_SQ;
use crate::steering::MAX_STALK_SPEED_SQ;
use crate::steering::MAX_TICK_MILLIS;
use crate::steering::PROBE_LIMIT_MILLI;
use crate::steering::VELOCITY_LIMIT_MILLI;
use crate::vec3::Vec3;
use crate::vec3::within;
use crate::vec3::norm_sq;

verus! {

/// The agent's aggression state.  Only stalking has steering behavior;
/// the other two are placeholders that leave the agent's state alone.
#[derive(Clone, Copy, Debug, PartialEq, Eq, Structural)]
pub enum MonsterAgro {
    Stalking,
    Hunting,
    Bored,
}

impl Default for MonsterAgro {
    fn default() -> (r: MonsterAgro)
        ensures
            r is Stalking,
    {
        MonsterAgro::Stalking
    }
}

/// One monster agent: aggression state, the persistent heading bias
/// (milli-radians, a clamped random walk) and the owned velocity vector
/// (milli-units per second).
#[derive(Clone, Copy, Debug, PartialEq, Eq, Structural)]
pub struct Monster {
    pub agro: MonsterAgro,
    pub direction: i64,
    pub velocity: Vec3,
}

/// What one behavior tick hands back to the embedding engine besides the
/// mutated agent: how far to snap the agent up so the ground probe clears
/// the floor, and the direction to face (none when standing still or when
/// nothing was heard).
#[derive(Clone, Copy, Debug)]
pub struct BehaviorOutput {
    pub snap_up: i64,
    pub facing: Option<Vec3>,
}

/// The agent invariant every behavior tick preserves.
pub open spec fn monster_wf(m: Monster) -> bool {
    &&& -TWO_PI_MILLI <= m.direction <= TWO_PI_MILLI
    &&& within(m.velocity, VELOCITY_LIMIT_MILLI as int)
}

/// The world-side inputs a behavior tick is specified for: bounded
/// positions and volumes, a bounded ground probe and a bounded tick.
pub open spec fn behavior_inputs_ok(
    pos: Vec3,
    ground: Option<i64>,
    sounds: Seq<(Speaker, Vec3)>,
    dt: int,
) -> bool {
    &&& within(pos, POSITION_LIMIT_MILLI as int)
    &&& (ground matches Some(d) ==> -PROBE_LIMIT_MILLI <= d <= PROBE_LIMIT_MILLI)
    &&& 0 <= dt <= MAX_TICK_MILLIS
    &&& forall|j: int|
        0 <= j < sounds.len() ==> within(#[trigger] sounds[j].1, POSITION_LIMIT_MILLI as int) && 0
            <= sounds[j].0.volume <= VOLUME_LIMIT_MILLI
}

/// One whole behavior tick as a function of the agent, the world sample
/// and the turn perturbation `p`: the successor agent, the upward snap and
/// the new facing.  Nothing is heard: the agent goes bored and nothing
/// else changes.  A non-stalking agent that hears something stays as it
/// is, the placeholder states having no behavior of their own.  A stalking
/// agent runs the steering law: heading-bias walk, acceleration toward the
/// sound, speed clamp, hover correction, yaw rotation, and faces away from
/// its velocity.
pub open spec fn spec_behavior(
    m: Monster,
    dt: int,
    pos: Vec3,
    ground: Option<i64>,
    sounds: Seq<(Speaker, Vec3)>,
    p: int,
) -> (Monster, int, Option<Vec3>) {
    match spec_perceive(pos, sounds) {
        None => (
            Monster { agro: MonsterAgro::Bored, direction: m.direction, velocity: m.velocity },
            0,
            Option::None,
        ),
        Some((l, i, rel)) => if !(m.agro is Stalking) {
            (m, 0, Option::None)
        } else {
            let dir2 = spec_turn_bias(m.direction as int, p);
            let v1 = spec_accel(m.velocity, rel, dt);
            let v2 = spec_clamp_speed(v1);
            let hv = spec_hover(v2.z as int, ground, dt);
            let v3 = Vec3 { x: v2.x, y: v2.y, z: hv.1 as i64 };
            let angle = spec_turn_angle(dir2, dt);
            let v4 = spec_rotate_z(v3, angle);
            (
                Monster { agro: m.agro, direction: dir2 as i64, velocity: v4 },
                hv.0,
                spec_facing(v4),
            )
        },
    }
}

/// The relation a behavior tick establishes between the old agent, the
/// inputs, the perturbation that was applied, the new agent and the output.
pub open spec fn spec_behavior_matches(
    m0: Monster,
    dt: int,
    pos: Vec3,
    ground: Option<i64>,
    sounds: Seq<(Speaker, Vec3)>,
    p: int,
    m1: Monster,
    out: BehaviorOutput,
) -> bool {
    let r = spec_behavior(m0, dt, pos, ground, sounds, p);
    &&& m1 == r.0
    &&& out.snap_up == r.1
    &&& out.facing == r.2
}

/// The relative offset of the selected speaker (zero when nothing is
/// heard).
pub open spec fn spec_selected_offset(pos: Vec3, sounds: Seq<(Speaker, Vec3)>) -> Vec3 {
    match spec_perceive(pos, sounds) {
        Some((l, i, rel)) => rel,
        None => Vec3 { x: 0, y: 0, z: 0 },
    }
}

/// The velocity a stalking tick hands to the speed clamp: the old
/// velocity accelerated toward the selected speaker.
pub open spec fn spec_pre_clamp_velocity(
    m: Monster,
    dt: int,
    pos: Vec3,
    sounds: Seq<(Speaker, Vec3)>,
) -> Vec3 {
    spec_accel(m.velocity, spec_selected_offset(pos, sounds), dt)
}

/// The speed clamp law over a whole stalking tick: when a speaker was
/// selected and the velocity entering the clamp is nonzero, and neither
/// the hover correction nor the yaw move the vector this tick (the
/// correction is quiet, the yaw is below the fixed-point resolution), the
/// updated speed lies within the stalking band.  The hover impulse and the
/// yaw are excluded because both run after the clamp and displace the
/// velocity out of the band by design.
pub proof fn lemma_stalking_tick_speed_band(
    m: Monster,
    dt: int,
    pos: Vec3,
    ground: Option<i64>,
    sounds: Seq<(Speaker, Vec3)>,
    p: int,
)
    requires
        monster_wf(m),
        behavior_inputs_ok(pos, ground, sounds, dt),
        m.agro is Stalking,
        spec_perceive(pos, sounds) is Some,
        norm_sq(spec_pre_clamp_velocity(m, dt, pos, sounds)) >= 1,
        ({
            let v2 = spec_clamp_speed(spec_pre_clamp_velocity(m, dt, pos, sounds));
            spec_hover(v2.z as int, ground, dt).1 == v2.z as int
        }),
        spec_turn_angle(spec_turn_bias(m.direction as int, p), dt) == 0,
    ensures
        MIN_STALK_SPEED_SQ <= norm_sq(spec_behavior(m, dt, pos, ground, sounds, p).0.velocity)
            <= MAX_STALK_SPEED_SQ,
{
    lemma_perceive_selects(pos, sounds);
    match spec_perceive(pos, sounds) {
        Some((l, i, rel)) => {
            assert(within(sounds[i].1, 10_000_000));
            assert(within(rel, 20_000_500));
            lemma_accel_within(m.velocity, rel, dt);
            let v1 = spec_pre_clamp_velocity(m, dt, pos, sounds);
            lemma_clamp_speed_band(v1);
            let v2 = spec_clamp_speed(v1);
            let hv = spec_hover(v2.z as int, ground, dt);
            let v3 = Vec3 { x: v2.x, y: v2.y, z: hv.1 as i64 };
            assert(v3 == v2);
            lemma_rotate_zero(v3);
        },
        None => {
            assert(false);
        },
    }
}

/// When every speaker is inactive or the set is empty, the tick selects
/// nothing: the agent goes bored and neither its velocity, its heading
/// bias, the snap nor the facing change.
pub proof fn lemma_behavior_bored(
    m: Monster,
    dt: int,
    pos: Vec3,
    ground: Option<i64>,
    sounds: Seq<(Speaker, Vec3)>,
    p: int,
)
    requires
        forall|j: int| 0 <= j < sounds.len() ==> !(#[trigger] sounds[j]).0.active,
    ensures
        ({
            let r = spec_behavior(m, dt, pos, ground, sounds, p);
            &&& r.0.agro is Bored
            &&& r.0.velocity == m.velocity
            &&& r.0.direction == m.direction
            &&& r.1 == 0
            &&& r.2 is None
        }),
{
    lemma_perceive_selects(pos, sounds);
}

/// Relies on rand::random_range: a uniformly random value within the
/// given nonempty inclusive range.
#[verifier::external_body]
fn random_turn_milli() -> (r: i64)
    ensures
        -1000 <= r <= 1000,
{
    rand::random_range(-1000i64..=1000i64)
}

impl Monster {
    /// A freshly spawned monster stalks with no heading bias.
    pub fn new(velocity: Vec3) -> (m: Monster)
        requires
            within(velocity, VELOCITY_LIMIT_MILLI as int),
        ensures
            m.agro is Stalking,
            m.direction == 0,
            m.velocity == velocity,
            monster_wf(m),
    {
        Monster { agro: MonsterAgro::Stalking, direction: 0, velocity }
    }

    /// One behavior tick with the turn perturbation passed in, so that the
    /// whole tick is a function of its arguments.
    pub fn behavior_with_turn(
        &mut self,
        dt: i64,
        pos: Vec3,
        ground: Option<i64>,
        sounds: &Vec<(Speaker, Vec3)>,
        p: i64,
    ) -> (out: BehaviorOutput)
        requires
            monster_wf(*old(self)),
            behavior_inputs_ok(pos, ground, sounds@, dt as int),
            -1000 <= p <= 1000,
        ensures
            spec_behavior_matches(
                *old(self),
                dt as int,
                pos,
                ground,
                sounds@,
                p as int,
                *final(self),
                out,
            ),
            monster_wf(*final(self)),
            out.snap_up >= 0,
    {
        proof {
            lemma_perceive_selects(pos, sounds@);
        }
        let sel = perceive(pos, sounds);
        match sel {
            None => {
                self.agro = MonsterAgro::Bored;
                BehaviorOutput { snap_up: 0, facing: None }
            },
            Some((_loud, idx, rel)) => {
                match self.agro {
                    MonsterAgro::Stalking => {},
                    _ => {
                        return BehaviorOutput { snap_up: 0, facing: None };
                    },
                }
                proof {
                    assert(rel == spec_offset(pos, sounds@[idx as int].1));
                    assert(within(sounds@[idx as int].1, 10_000_000));
                    assert(within(rel, 20_000_500));
                }
                let dir2 = turn_bias(self.direction, p);
                self.direction = dir2;
                let v1 = accel(self.velocity, rel, dt);
                let v2 = clamp_speed(v1);
                let hv = hover(v2.z, ground, dt);
                let v3 = Vec3 { x: v2.x, y: v2.y, z: hv.1 };
                let ang = turn_angle(dir2, dt);
                let v4 = rotate_z(v3, ang);
                self.velocity = v4;
                let face = facing_direction(v4);
                BehaviorOutput { snap_up: hv.0, facing: face }
            },
        }
    }

    /// One behavior tick, drawing the turn perturbation from the process
    /// randomness: whatever value comes back, the tick is the steering law
    /// applied with some perturbation within one milli-radian-per-tick
    /// unit, and the agent invariant holds afterwards.
    pub fn behavior(
        &mut self,
        dt: i64,
        pos: Vec3,
        ground: Option<i64>,
        sounds: &Vec<(Speaker, Vec3)>,
    ) -> (out: BehaviorOutput)
        requires
            monster_wf(*old(self)),
            behavior_inputs_ok(pos, ground, sounds@, dt as int),
        ensures
            monster_wf(*final(self)),
            out.snap_up >= 0,
            exists|p: int|
                -1000 <= p <= 1000 && spec_behavior_matches(
                    *old(self),
                    dt as int,
                    pos,
                    ground,
                    sounds@,
                    p,
                    *final(self),
                    out,
                ),
    {
        let p = random_turn_milli();
        let out = self.behavior_with_turn(dt, pos, ground, sounds, p);
        proof {
            assert(spec_behavior_matches(
                *old(self),
                dt as int,
                pos,
                ground,
                sounds@,
                p as int,
                *final(self),
                out,
            ));
        }
        out
    }
}

} // verus!
