use vstd::prelude::*;
use crate::components::{CombatStats, MAX_STAT};
use crate::melee_combat_system::damage_amounts;
use crate::world::World;

verus! {

/// Applies queued damage entries to a hit-point total, one after the other,
/// flooring at `-MAX_STAT` (far below any death threshold) so the stats stay
/// inside their bounds.
pub open spec fn apply_damage(hp: int, amounts: Seq<i32>) -> int
    decreases amounts.len(),
{
    if amounts.len() == 0 {
        hp
    } else {
        let h = hp - amounts[0];
        let floored = if h < -MAX_STAT {
            -MAX_STAT as int
        } else {
            h
        };
        apply_damage(floored, amounts.skip(1))
    }
}

/// The stats block after its queued damage is applied.
pub open spec fn stats_after_damage(opt: Option<CombatStats>, amounts: Seq<i32>) -> Option<
    CombatStats,
> {
    match opt {
        Option::None => Option::None,
        Option::Some(s) => Option::Some(
            CombatStats { hp: apply_damage(s.hp as int, amounts) as i32, ..s },
        ),
    }
}

/// Sums and applies the pending damage of every entity, then clears the
/// accumulators.
pub struct DamageSystem {}

/// Exactly what one damage-application pass does: every stats block takes
/// its queued amounts, the accumulators drain, everything else is untouched.
pub open spec fn damage_rel(a: World, b: World) -> bool {
    &&& b.n() == a.n()
    &&& forall|i: int|
        0 <= i < a.n() ==> #[trigger] b.combat_stats@[i]
            == stats_after_damage(
            a.combat_stats@[i],
            damage_amounts(a.suffer_damage@[i]),
        )
    &&& forall|i: int| 0 <= i < b.n() ==> (#[trigger] b.suffer_damage@[i]) is None
    &&& b.gens@ == a.gens@
    &&& b.alive@ == a.alive@
    &&& b.positions@ == a.positions@
    &&& b.renderables@ == a.renderables@
    &&& b.players@ == a.players@
    &&& b.monsters@ == a.monsters@
    &&& b.blockers@ == a.blockers@
    &&& b.fovs@ == a.fovs@
    &&& b.names@ == a.names@
    &&& b.items@ == a.items@
    &&& b.potions@ == a.potions@
    &&& b.equippables@ == a.equippables@
    &&& b.equipped@ == a.equipped@
    &&& b.backpacks@ == a.backpacks@
    &&& b.attack_intents@ == a.attack_intents@
    &&& b.pickup_intents@ == a.pickup_intents@
    &&& b.drink_intents@ == a.drink_intents@
    &&& b.drop_intents@ == a.drop_intents@
    &&& b.doomed@ == a.doomed@
    &&& b.map == a.map
    &&& b.log == a.log
    &&& b.player_entity == a.player_entity
    &&& b.player_pos == a.player_pos
    &&& b.run_state == a.run_state
}

impl DamageSystem {
    /// Every entity with pending damage has the amounts subtracted from its
    /// hp (which may go negative, down to the `-MAX_STAT` floor); every
    /// accumulator is cleared. Nothing is deleted here: corpse removal runs
    /// once per tick, separately.
    pub fn run(&self, ecs: &mut World)
        requires
            old(ecs).wf(),
        ensures
            final(ecs).wf(),
            damage_rel(*old(ecs), *final(ecs)),
    {
        let n = ecs.gens.len();
        let mut i: usize = 0;
        while i < n
            invariant
                i <= n,
                n == ecs.n(),
                ecs.wf(),
                ecs.n() == old(ecs).n(),
                forall|j: int|
                    0 <= j < i ==> #[trigger] ecs.combat_stats@[j] == stats_after_damage(
                        old(ecs).combat_stats@[j],
                        damage_amounts(old(ecs).suffer_damage@[j]),
                    ),
                forall|j: int| 0 <= j < i ==> (#[trigger] ecs.suffer_damage@[j]) is None,
                forall|j: int|
                    i <= j < old(ecs).n() ==> #[trigger] ecs.combat_stats@[j] == old(
                        ecs,
                    ).combat_stats@[j],
                forall|j: int|
                    i <= j < old(ecs).n() ==> #[trigger] ecs.suffer_damage@[j] == old(
                        ecs,
                    ).suffer_damage@[j],
                ecs.gens@ == old(ecs).gens@,
                ecs.alive@ == old(ecs).alive@,
                ecs.positions@ == old(ecs).positions@,
                ecs.renderables@ == old(ecs).renderables@,
                ecs.players@ == old(ecs).players@,
                ecs.monsters@ == old(ecs).monsters@,
                ecs.blockers@ == old(ecs).blockers@,
                ecs.fovs@ == old(ecs).fovs@,
                ecs.names@ == old(ecs).names@,
                ecs.items@ == old(ecs).items@,
                ecs.potions@ == old(ecs).potions@,
                ecs.equippables@ == old(ecs).equippables@,
                ecs.equipped@ == old(ecs).equipped@,
                ecs.backpacks@ == old(ecs).backpacks@,
                ecs.attack_intents@ == old(ecs).attack_intents@,
                ecs.pickup_intents@ == old(ecs).pickup_intents@,
                ecs.drink_intents@ == old(ecs).drink_intents@,
                ecs.drop_intents@ == old(ecs).drop_intents@,
                ecs.doomed@ == old(ecs).doomed@,
                ecs.map == old(ecs).map,
                ecs.log == old(ecs).log,
                ecs.player_entity == old(ecs).player_entity,
                ecs.player_pos == old(ecs).player_pos,
                ecs.run_state == old(ecs).run_state,
            decreases n - i,
        {
            let stats_opt: Option<CombatStats> = match &ecs.combat_stats[i] {
                Option::Some(s) => Some(*s),
                Option::None => None,
            };
            if let Option::Some(s) = stats_opt {
                let mut hp = s.hp;
                let ghost amounts_full: Seq<i32> = damage_amounts(ecs.suffer_damage@[i as int]);
                match &ecs.suffer_damage[i] {
                    Option::Some(d) => {
                        let m = d.amounts.len();
                        let mut k: usize = 0;
                        proof {
                            assert(amounts_full.skip(0) =~= amounts_full);
                        }
                        while k < m
                            invariant
                                k <= m,
                                m == d.amounts@.len(),
                                amounts_full == d.amounts@,
                                forall|q: int|
                                    0 <= q < m ==> 0 <= #[trigger] d.amounts@[q] <= MAX_STAT,
                                -MAX_STAT <= hp <= s.hp <= MAX_STAT,
                                apply_damage(s.hp as int, amounts_full) == apply_damage(
                                    hp as int,
                                    amounts_full.skip(k as int),
                                ),
                            decreases m - k,
                        {
                            let amt = d.amounts[k];
                            let ghost pre_hp = hp;
                            if hp >= -MAX_STAT + amt {
                                hp = hp - amt;
                            } else {
                                hp = -MAX_STAT;
                            }
                            proof {
                                assert(amounts_full.skip(k as int)[0] == d.amounts@[k as int]);
                                assert(amounts_full.skip(k as int).skip(1) =~= amounts_full.skip(
                                    k as int + 1,
                                ));
                            }
                            k = k + 1;
                        }
                        proof {
                            assert(amounts_full.skip(m as int) =~= Seq::<i32>::empty());
                        }
                    },
                    Option::None => {
                        proof {
                            assert(amounts_full =~= Seq::<i32>::empty());
                            assert(amounts_full.skip(0) =~= amounts_full);
                        }
                    },
                }
                proof {
                    assert(apply_damage(s.hp as int, amounts_full) == hp as int);
                }
                proof {
                    assert(-MAX_STAT <= hp <= s.hp);
                }
                ecs.combat_stats.set(i, Some(CombatStats { hp, ..s }));
            }
            ecs.suffer_damage.set(i, None);
            proof {
                let ghost cur = *ecs;
                assert forall|q: int|
                    0 <= q < cur.n() implies (#[trigger] cur.combat_stats@[q] matches Some(st)
                    ==> st.valid()) by {}
                assert forall|q: int|
                    0 <= q < cur.n() implies (#[trigger] cur.suffer_damage@[q] matches Some(dd)
                    ==> forall|k2: int|
                        0 <= k2 < dd.amounts@.len() ==> 0 <= #[trigger] dd.amounts@[k2]
                            <= MAX_STAT) by {}
            }
            i = i + 1;
        }
    }
}

/// Exactly what the corpse sweep does: every live non-player entity whose
/// hit points are spent is destroyed, everything else is untouched.
pub open spec fn corpse_rel(a: World, b: World) -> bool {
    &&& b.n() == a.n()
    &&& forall|i: int|
        0 <= i < a.n() && a.alive@[i] && i != a.player_entity.id as int && (
        a.combat_stats@[i] matches Some(s)
            && s.hp < 1) ==> #[trigger] b.slot_cleared(i)
    &&& forall|i: int|
        0 <= i < a.n() && !(a.alive@[i] && i != a.player_entity.id as int && (
        a.combat_stats@[i] matches Some(s)
            && s.hp < 1)) ==> #[trigger] b.slot_eq(a, i)
    &&& b.doomed@ == a.doomed@
    &&& b.map == a.map
    &&& b.log == a.log
    &&& b.player_entity == a.player_entity
    &&& b.player_pos == a.player_pos
    &&& b.run_state == a.run_state
}

/// The per-tick corpse sweep, run after all systems and UI handling.
///
/// Deletes every entity whose hit points have reached zero or less — except
/// the player: this library's explicit player-death policy is to keep the
/// player entity and report the death through the returned flag, so the
/// orchestrator can steer to its game-over handling instead of leaving a
/// dangling player reference behind.
pub fn corpse_removal(ecs: &mut World) -> (player_dead: bool)
    requires
        old(ecs).wf(),
    ensures
        final(ecs).wf(),
        player_dead == (old(ecs).combat_stats@[old(ecs).player_entity.id as int] matches Some(s)
            && s.hp < 1),
        corpse_rel(*old(ecs), *final(ecs)),
{
    let n = ecs.gens.len();
    let player_id = ecs.player_entity.id;
    let mut i: usize = 0;
    while i < n
        invariant
            i <= n,
            n == ecs.n(),
            ecs.wf(),
            ecs.n() == old(ecs).n(),
            player_id == old(ecs).player_entity.id,
            forall|j: int|
                0 <= j < i && old(ecs).alive@[j] && j != old(ecs).player_entity.id as int && (old(
                    ecs,
                ).combat_stats@[j] matches Some(s)
                    && s.hp < 1) ==> #[trigger] ecs.slot_cleared(j),
            forall|j: int|
                0 <= j < old(ecs).n() && !(0 <= j < i && old(ecs).alive@[j] && j != old(
                    ecs,
                ).player_entity.id as int && (old(ecs).combat_stats@[j] matches Some(s)
                    && s.hp < 1)) ==> #[trigger] ecs.slot_eq(*old(ecs), j),
            ecs.doomed@ == old(ecs).doomed@,
            ecs.map == old(ecs).map,
            ecs.log == old(ecs).log,
            ecs.player_entity == old(ecs).player_entity,
            ecs.player_pos == old(ecs).player_pos,
            ecs.run_state == old(ecs).run_state,
        decreases n - i,
    {
        let ghost pre = *ecs;
        let dead = match &ecs.combat_stats[i] {
            Option::Some(s) => s.hp < 1,
            Option::None => false,
        };
        if dead && ecs.alive[i] && i != player_id {
            ecs.kill_slot(i);
            proof {
                assert(ecs.slot_eq(pre, old(ecs).player_entity.id as int));
                assert forall|j: int| 0 <= j < pre.n() implies #[trigger] ecs.slot_eq(pre, j)
                    || ecs.slot_cleared(j) by {}
                crate::world::lemma_wf_pointwise(pre, *ecs);
                assert forall|j: int|
                    0 <= j < i + 1 && old(ecs).alive@[j] && j != old(ecs).player_entity.id as int
                        && (old(ecs).combat_stats@[j] matches Some(s) && s.hp < 1) implies #[trigger] ecs.slot_cleared(
                    j,
                ) by {
                    if j != i {
                        assert(ecs.slot_eq(pre, j));
                        assert(pre.slot_cleared(j));
                    }
                }
                assert forall|j: int|
                    0 <= j < old(ecs).n() && !(0 <= j < i + 1 && old(ecs).alive@[j] && j != old(
                        ecs,
                    ).player_entity.id as int && (old(ecs).combat_stats@[j] matches Some(s)
                        && s.hp < 1)) implies #[trigger] ecs.slot_eq(*old(ecs), j) by {
                    if j == i {
                        assert(pre.slot_eq(*old(ecs), j));
                        assert(false);
                    } else {
                        assert(ecs.slot_eq(pre, j));
                        assert(pre.slot_eq(*old(ecs), j));
                    }
                }
            }
        } else {
            proof {
                let ii = i as int;
                assert(ecs.slot_eq(*old(ecs), ii));
                if old(ecs).alive@[ii] && ii != old(ecs).player_entity.id as int && (old(
                    ecs,
                ).combat_stats@[ii] matches Some(s2)
                    && s2.hp < 1) {
                    assert(false);
                }
            }
        }
        i = i + 1;
    }
    let player_dead = match &ecs.combat_stats[player_id] {
        Option::Some(s) => s.hp < 1,
        Option::None => false,
    };
    proof {
        assert(ecs.slot_eq(*old(ecs), old(ecs).player_entity.id as int));
    }
    player_dead
}

} // verus!
