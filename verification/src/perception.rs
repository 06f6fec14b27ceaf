//! Perception pass: score every speaker by loudness at the agent's ear and
//! select the loudest active one, the earliest winning ties.

use vstd::prelude::*;

use crate::speaker::Speaker;
use crate::speaker::spec_loudness;
use crate::speaker::VOLUME_LIMIT_MILLI;
use crate::speaker::POSITION_LIMIT_MILLI;
use crate::vec3::Vec3;
use crate::vec3::spec_minus;
use crate::vec3::within;

verus! {

/// The agent listens half a unit below its position.
pub const EAR_HEIGHT_MILLI: i64 = 500;

/// The listening point of an agent positioned at `pos`.
pub open spec fn spec_ear(pos: Vec3) -> Vec3 {
    Vec3 { x: pos.x, y: pos.y, z: (pos.z - EAR_HEIGHT_MILLI) as i64 }
}

/// Relative offset from the ear of an agent at `pos` to a point `p`.
pub open spec fn spec_offset(pos: Vec3, p: Vec3) -> Vec3 {
    spec_minus(p, spec_ear(pos))
}

/// The loudness with which an agent at `pos` hears the entry `e`.
pub open spec fn spec_heard(pos: Vec3, e: (Speaker, Vec3)) -> int {
    spec_loudness(e.0, spec_offset(pos, e.1))
}

/// What the perception pass selects from `sounds` for an agent at `pos`:
/// `None` when no speaker is active, otherwise the loudness, index and
/// relative offset of the first active speaker of maximal loudness (the
/// left fold keeps the earliest entry on ties).
pub open spec fn spec_perceive(pos: Vec3, sounds: Seq<(Speaker, Vec3)>) -> Option<
    (int, int, Vec3),
>
    decreases sounds.len(),
{
    if sounds.len() == 0 {
        None
    } else {
        let prefix = spec_perceive(pos, sounds.drop_last());
        let last = sounds.last();
        let j = sounds.len() - 1;
        if !last.0.active {
            prefix
        } else {
            let l = spec_heard(pos, last);
            match prefix {
                None => Some((l, j as int, spec_offset(pos, last.1))),
                Some((bl, bi, bv)) => if l > bl {
                    Some((l, j as int, spec_offset(pos, last.1)))
                } else {
                    Some((bl, bi, bv))
                },
            }
        }
    }
}

/// Perception returns no selection exactly on sets without an active
/// speaker, and otherwise selects an active speaker whose loudness is
/// maximal, earlier equally loud speakers winning.
pub proof fn lemma_perceive_selects(pos: Vec3, sounds: Seq<(Speaker, Vec3)>)
    ensures
        (spec_perceive(pos, sounds) is None) <==> (forall|j: int|
            0 <= j < sounds.len() ==> !sounds[j].0.active),
        spec_perceive(pos, sounds) matches Some((l, i, v)) ==> {
            &&& 0 <= i < sounds.len()
            &&& sounds[i].0.active
            &&& l == spec_heard(pos, sounds[i])
            &&& v == spec_offset(pos, sounds[i].1)
            &&& forall|j: int|
                0 <= j < sounds.len() && sounds[j].0.active ==> spec_heard(pos, sounds[j]) <= l
            &&& forall|j: int|
                0 <= j < i && sounds[j].0.active ==> spec_heard(pos, sounds[j]) < l
        },
    decreases sounds.len(),
{
    if sounds.len() == 0 {
    } else {
        let prefix = sounds.drop_last();
        lemma_perceive_selects(pos, prefix);
        assert(forall|j: int| 0 <= j < prefix.len() ==> sounds[j] == prefix[j]);
    }
}

/// One perception pass: offsets are measured from the agent's ear and the
/// loudest active speaker wins, the earliest on ties.
pub fn perceive(pos: Vec3, sounds: &Vec<(Speaker, Vec3)>) -> (r: Option<(i64, usize, Vec3)>)
    requires
        within(pos, POSITION_LIMIT_MILLI as int),
        forall|j: int|
            0 <= j < sounds@.len() ==> within(#[trigger] sounds@[j].1, POSITION_LIMIT_MILLI as int)
                && 0 <= sounds@[j].0.volume <= VOLUME_LIMIT_MILLI,
    ensures
        r is None ==> spec_perceive(pos, sounds@) is None,
        r matches Some((l, i, v)) ==> spec_perceive(pos, sounds@) == Some((l as int, i as int, v)),
{
    let ear = Vec3 { x: pos.x, y: pos.y, z: pos.z - EAR_HEIGHT_MILLI };
    assert(ear == spec_ear(pos));
    let mut best: Option<(i64, usize, Vec3)> = None;
    let n = sounds.len();
    let mut i: usize = 0;
    while i < n
        invariant
            n == sounds@.len(),
            0 <= i <= n,
            within(pos, POSITION_LIMIT_MILLI as int),
            ear == spec_ear(pos),
            forall|j: int|
                0 <= j < sounds@.len() ==> within(
                    #[trigger] sounds@[j].1,
                    POSITION_LIMIT_MILLI as int,
                ) && 0 <= sounds@[j].0.volume <= VOLUME_LIMIT_MILLI,
            best is None ==> spec_perceive(pos, sounds@.subrange(0, i as int)) is None,
            best matches Some((l, bi, v)) ==> bi < i && spec_perceive(
                pos,
                sounds@.subrange(0, i as int),
            ) == Some((l as int, bi as int, v)),
        decreases n - i,
    {
        let entry = &sounds[i];
        proof {
            assert(sounds@.subrange(0, i + 1 as int).drop_last() =~= sounds@.subrange(
                0,
                i as int,
            ));
            assert(sounds@.subrange(0, i + 1 as int).last() == sounds@[i as int]);
        }
        if entry.0.active {
            let rel = entry.1.minus(ear);
            assert(rel == spec_offset(pos, sounds@[i as int].1));
            let loud = entry.0.loudness(&rel);
            assert(loud == spec_heard(pos, sounds@[i as int]));
            match best {
                None => {
                    best = Some((loud, i, rel));
                },
                Some((bl, _, _)) => {
                    if loud > bl {
                        best = Some((loud, i, rel));
                    }
                },
            }
        }
        i = i + 1;
    }
    proof {
        assert(sounds@.subrange(0, n as int) =~= sounds@);
    }
    best
}

} // verus!
