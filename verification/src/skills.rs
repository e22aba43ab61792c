//! The skill catalog and cooldown arithmetic. Skills form a closed,
//! statically known catalog: a sensor-type skill repositions a pooled
//! sensor collider, a ray-type skill casts a ray and damages the first
//! entity hit. Buff magnitudes are in parts per thousand; the strongest
//! unexpired cooldown-reduction buff scales the effective cooldown.

use vstd::prelude::*;
use crate::store::PlayerBuffRow;

verus! {

/// The buff type that reduces cooldowns.
pub const CD_REDUCTION_BUFF_TYPE: u8 = 1;
/// The one designated stacking buff type: a reapplication increments the
/// stack counter and refreshes the expiry instead of inserting a row.
pub const STACKING_BUFF_TYPE: u8 = 4;
/// The buff type an aura contact applies.
pub const AURA_BUFF_TYPE: u8 = 2;
/// Id of the sensor-type skill.
pub const SENSOR_SKILL_ID: u8 = 1;
/// Id of the ray-type skill.
pub const RAY_SKILL_ID: u8 = 6;
/// Base cooldown of every cataloged skill, in milliseconds.
pub const SKILL_BASE_COOLDOWN_MS: u32 = 1000;
/// A full-strength magnitude: one thousand parts per thousand.
pub const MAGNITUDE_FULL: u32 = 1000;

/// The closed set of skill effects.
#[derive(Clone, Copy, Debug, PartialEq, Eq, Structural)]
pub enum SkillKind {
    /// Repositions and reactivates a pooled sensor collider at the cast
    /// origin.
    Sensor,
    /// Casts a ray and applies damage to the first entity hit.
    Ray,
}

/// The effect of a skill id, if the id is cataloged.
pub open spec fn spec_skill_kind(skill_id: u8) -> Option<SkillKind> {
    if skill_id == SENSOR_SKILL_ID {
        Some(SkillKind::Sensor)
    } else if skill_id == RAY_SKILL_ID {
        Some(SkillKind::Ray)
    } else {
        None
    }
}

/// Look a skill id up in the catalog.
pub fn skill_kind(skill_id: u8) -> (r: Option<SkillKind>)
    ensures
        r == spec_skill_kind(skill_id),
{
    if skill_id == SENSOR_SKILL_ID {
        Some(SkillKind::Sensor)
    } else if skill_id == RAY_SKILL_ID {
        Some(SkillKind::Ray)
    } else {
        None
    }
}

/// A magnitude clamped to at most the full thousand parts.
pub open spec fn spec_clamp_magnitude(m: u32) -> u32 {
    if m > MAGNITUDE_FULL {
        MAGNITUDE_FULL
    } else {
        m
    }
}

/// A base duration scaled down by a reduction magnitude, rounded to the
/// nearest millisecond: the fraction is clamped to at most one, so the
/// result never exceeds the base and a full-strength reduction gives
/// zero.
pub open spec fn spec_reduced_cooldown(base_ms: u32, magnitude: u32) -> u32 {
    ((base_ms * (MAGNITUDE_FULL - spec_clamp_magnitude(magnitude)) + 500) / 1000) as u32
}

/// Scale a base cooldown by a reduction magnitude.
pub fn apply_cd_reduction(base_ms: u32, magnitude: u32) -> (r: u32)
    ensures
        r == spec_reduced_cooldown(base_ms, magnitude),
        r <= base_ms,
{
    let m: u64 = if magnitude > MAGNITUDE_FULL {
        MAGNITUDE_FULL as u64
    } else {
        magnitude as u64
    };
    let d: u64 = 1000 - m;
    proof {
        assert((base_ms as u64) * d <= 0xFFFF_FFFFu64 * 1000 && (base_ms as u64) * d <= (
        base_ms as u64) * 1000) by (nonlinear_arith)
            requires
                d <= 1000 && base_ms <= 0xFFFF_FFFFu64,
        ;
    }
    let scaled: u64 = (base_ms as u64) * d + 500;
    proof {
        assert(scaled / 1000 <= base_ms) by (nonlinear_arith)
            requires
                scaled <= (base_ms as u64) * 1000 + 500,
        ;
    }
    (scaled / 1000) as u32
}

/// The largest magnitude among the player's unexpired cooldown-reduction
/// buffs; zero when there is none (a zero reduction leaves the base
/// cooldown unchanged).
pub open spec fn spec_max_cd_magnitude(s: Seq<PlayerBuffRow>, player: u128, now: i64) -> u32
    decreases s.len(),
{
    if s.len() == 0 {
        0
    } else {
        let rest = spec_max_cd_magnitude(s.drop_last(), player, now);
        let b = s.last();
        if b.player_id == player && b.buff_type == CD_REDUCTION_BUFF_TYPE && b.expires_at > now
            && b.magnitude > rest {
            b.magnitude
        } else {
            rest
        }
    }
}

/// The largest magnitude among a player's unexpired cooldown-reduction
/// buffs in the buff table, zero when there is none.
pub fn max_cd_magnitude(buffs: &Vec<PlayerBuffRow>, player: u128, now: i64) -> (r: u32)
    ensures
        r == spec_max_cd_magnitude(buffs@, player, now),
{
    let mut r: u32 = 0;
    let mut i: usize = 0;
    while i < buffs.len()
        invariant
            i <= buffs@.len(),
            r == spec_max_cd_magnitude(buffs@.take(i as int), player, now),
        decreases buffs@.len() - i,
    {
        let b = buffs[i];
        proof {
            assert(buffs@.take(i as int + 1).drop_last() =~= buffs@.take(i as int));
            assert(buffs@.take(i as int + 1).last() == b);
        }
        if b.player_id == player && b.buff_type == CD_REDUCTION_BUFF_TYPE && b.expires_at > now
            && b.magnitude > r {
            r = b.magnitude;
        }
        i = i + 1;
    }
    proof {
        assert(buffs@.take(buffs@.len() as int) =~= buffs@);
    }
    r
}

/// A skill is ready when the milliseconds elapsed since its last use
/// reach the effective cooldown; time never elapses backwards.
pub open spec fn spec_is_ready(last_used: i64, effective_ms: u32, now: i64) -> bool {
    (if now >= last_used {
        (now - last_used) / 1000
    } else {
        0
    }) >= effective_ms
}

/// Check a cooldown against the clock.
pub fn is_ready(last_used: i64, effective_ms: u32, now: i64) -> (r: bool)
    ensures
        r == spec_is_ready(last_used, effective_ms, now),
{
    let wide_diff: i128 = (now as i128) - (last_used as i128);
    let elapsed_us: i64 = if now < last_used {
        0
    } else if wide_diff > i64::MAX as i128 {
        i64::MAX
    } else {
        wide_diff as i64
    };
    proof {
        if now >= last_used && now - last_used > i64::MAX {
            assert(elapsed_us == i64::MAX);
            assert(i64::MAX / 1000 >= u32::MAX as i64);
            assert((now - last_used) / 1000 >= i64::MAX / 1000) by (nonlinear_arith)
                requires
                    now - last_used >= i64::MAX > 0,
            ;
        }
    }
    let elapsed_ms: i64 = elapsed_us / 1000;
    elapsed_ms >= 0 && (elapsed_ms as u64) >= (effective_ms as u64)
}

} // verus!
