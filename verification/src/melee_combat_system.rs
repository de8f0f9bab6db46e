use vstd::prelude::*;
use crate::components::{SufferDamage, MAX_STAT};
use crate::gamelog::{hits_message, log_view, msg_hits, msg_unable, unable_message};
use crate::world::World;

verus! {

/// The melee damage formula: attack power minus target defense, never
/// negative.
pub open spec fn spec_melee_damage(power: int, defense: int) -> int {
    if power - defense > 0 {
        power - defense
    } else {
        0
    }
}

/// Computes melee damage: `max(0, power - defense)`.
pub fn melee_damage(power: i32, defense: i32) -> (r: i32)
    requires
        0 <= power <= MAX_STAT,
        0 <= defense <= MAX_STAT,
    ensures
        r == spec_melee_damage(power as int, defense as int),
        0 <= r <= MAX_STAT,
{
    if power > defense {
        power - defense
    } else {
        0
    }
}

/// The queued damage of one slot, as a sequence of amounts.
pub open spec fn damage_amounts(opt: Option<SufferDamage>) -> Seq<i32> {
    match opt {
        Option::None => Seq::empty(),
        Option::Some(d) => d.amounts@,
    }
}

/// Slot `i` holds a live attacker that will be processed: it has an attack
/// intent, a name, stats, and is not itself dying.
pub open spec fn attacker_ready(w: World, i: int) -> bool {
    &&& 0 <= i < w.n()
    &&& w.alive@[i]
    &&& w.attack_intents@[i] is Some
    &&& w.names@[i] is Some
    &&& w.combat_stats@[i] is Some
    &&& w.combat_stats@[i]->0.hp > 0
}

/// Well-formed attack intents: every live attacker's target is a valid
/// entity that has stats and a name (the data model guarantees this; a world
/// that broke it would already be corrupt).
pub open spec fn attack_intents_wf(w: World) -> bool {
    forall|i: int|
        attacker_ready(w, i) ==> {
            let t = (#[trigger] w.attack_intents@[i])->0.target;
            &&& w.valid(t)
            &&& w.combat_stats@[t.id as int] is Some
            &&& w.names@[t.id as int] is Some
        }
}

/// The attack in slot `i` connects: the attacker is ready and the target is
/// not already dying this turn.
pub open spec fn attack_lands(w: World, i: int) -> bool {
    &&& attacker_ready(w, i)
    &&& attack_intents_wf(w)
    &&& w.combat_stats@[w.attack_intents@[i]->0.target.id as int]->0.hp > 0
}

/// The damage the attack in slot `i` would deal.
pub open spec fn attack_damage(w: World, i: int) -> int {
    spec_melee_damage(
        w.combat_stats@[i]->0.power as int,
        w.combat_stats@[w.attack_intents@[i]->0.target.id as int]->0.defense as int,
    )
}

/// What the attack in slot `i` appends to the pending damage of slot `t`.
pub open spec fn damage_contrib(w: World, i: int, t: int) -> Seq<i32> {
    if attack_lands(w, i) && w.attack_intents@[i]->0.target.id == t && attack_damage(w, i) > 0 {
        seq![attack_damage(w, i) as i32]
    } else {
        Seq::empty()
    }
}

/// All damage appended to slot `t` by the attackers in slots `0 .. k`, in
/// slot order.
pub open spec fn contribs_up_to(w: World, t: int, k: int) -> Seq<i32>
    decreases k,
{
    if k <= 0 {
        Seq::empty()
    } else {
        contribs_up_to(w, t, k - 1) + damage_contrib(w, k - 1, t)
    }
}

/// What the attack in slot `i` writes to the log.
pub open spec fn attack_msg(w: World, i: int) -> Seq<Seq<char>> {
    if attack_lands(w, i) {
        let t = w.attack_intents@[i]->0.target.id as int;
        if attack_damage(w, i) == 0 {
            seq![msg_unable(w.names@[i]->0.name@, w.names@[t]->0.name@)]
        } else {
            seq![msg_hits(w.names@[i]->0.name@, w.names@[t]->0.name@, attack_damage(w, i))]
        }
    } else {
        Seq::empty()
    }
}

/// The log lines produced by the attackers in slots `0 .. k`, in slot order.
pub open spec fn attack_msgs_up_to(w: World, k: int) -> Seq<Seq<char>>
    decreases k,
{
    if k <= 0 {
        Seq::empty()
    } else {
        attack_msgs_up_to(w, k - 1) + attack_msg(w, k - 1)
    }
}

fn copy_amounts(v: &Vec<i32>) -> (r: Vec<i32>)
    ensures
        r@ == v@,
{
    let mut r: Vec<i32> = Vec::new();
    let n = v.len();
    let mut i: usize = 0;
    while i < n
        invariant
            i <= n,
            n == v@.len(),
            r@ == v@.subrange(0, i as int),
        decreases n - i,
    {
        r.push(v[i]);
        i = i + 1;
    }
    proof {
        assert(r@ =~= v@);
    }
    r
}

/// Appends one pending-damage entry to slot `t`.
fn push_damage(table: &mut Vec<Option<SufferDamage>>, t: usize, dmg: i32)
    requires
        t < old(table)@.len(),
    ensures
        final(table)@.len() == old(table)@.len(),
        final(table)@[t as int] is Some,
        damage_amounts(final(table)@[t as int]) == damage_amounts(old(table)@[t as int]).push(dmg),
        forall|j: int|
            0 <= j < old(table)@.len() && j != t ==> final(table)@[j] == #[trigger] old(
                table,
            )@[j],
    {
    let mut amounts: Vec<i32> = match &table[t] {
        Option::Some(d) => copy_amounts(&d.amounts),
        Option::None => Vec::new(),
    };
    amounts.push(dmg);
    proof {
        assert(amounts@ =~= damage_amounts(old(table)@[t as int]).push(dmg));
    }
    table.set(t, Some(SufferDamage { amounts }));
}

/// Converts every pending attack intent into damage events and log lines.
pub struct MeleeCombatSystem {}

/// Exactly what one melee pass does: damage and log lines per attacker in
/// slot order, all attack intents drained, everything else untouched.
pub open spec fn melee_rel(a: World, b: World) -> bool {
    &&& b.n() == a.n()
    &&& forall|t: int|
        0 <= t < a.n() ==> damage_amounts(#[trigger] b.suffer_damage@[t])
            == damage_amounts(a.suffer_damage@[t]) + contribs_up_to(
            a,
            t,
            a.n(),
        )
    &&& log_view(b.log) == log_view(a.log) + attack_msgs_up_to(
        a,
        a.n(),
    )
    &&& forall|i: int| 0 <= i < b.n() ==> (#[trigger] b.attack_intents@[i]) is None
    &&& b.gens@ == a.gens@
    &&& b.alive@ == a.alive@
    &&& b.positions@ == a.positions@
    &&& b.renderables@ == a.renderables@
    &&& b.players@ == a.players@
    &&& b.monsters@ == a.monsters@
    &&& b.blockers@ == a.blockers@
    &&& b.fovs@ == a.fovs@
    &&& b.names@ == a.names@
    &&& b.combat_stats@ == a.combat_stats@
    &&& b.items@ == a.items@
    &&& b.potions@ == a.potions@
    &&& b.equippables@ == a.equippables@
    &&& b.equipped@ == a.equipped@
    &&& b.backpacks@ == a.backpacks@
    &&& b.pickup_intents@ == a.pickup_intents@
    &&& b.drink_intents@ == a.drink_intents@
    &&& b.drop_intents@ == a.drop_intents@
    &&& b.doomed@ == a.doomed@
    &&& b.map == a.map
    &&& b.player_entity == a.player_entity
    &&& b.player_pos == a.player_pos
    &&& b.run_state == a.run_state
}

impl MeleeCombatSystem {
    /// For every live attacker with an intent: skip targets already dying;
    /// otherwise compute `max(0, power - defense)`; log a miss when it is
    /// zero and log a hit and queue the damage when it is positive. All
    /// attack intents are cleared, whatever happened.
    pub fn run(&self, ecs: &mut World)
        requires
            old(ecs).wf(),
            attack_intents_wf(*old(ecs)),
        ensures
            final(ecs).wf(),
            melee_rel(*old(ecs), *final(ecs)),
    {
        let ghost ow = *old(ecs);
        let n = ecs.gens.len();
        let mut i: usize = 0;
        while i < n
            invariant
                i <= n,
                n == ecs.n(),
                ecs.wf(),
                attack_intents_wf(*old(ecs)),
                ecs.n() == old(ecs).n(),
                ow == *old(ecs),
                forall|t: int|
                    0 <= t < old(ecs).n() ==> damage_amounts(#[trigger] ecs.suffer_damage@[t])
                        == damage_amounts(old(ecs).suffer_damage@[t]) + contribs_up_to(
                        ow,
                        t,
                        i as int,
                    ),
                log_view(ecs.log) == log_view(old(ecs).log) + attack_msgs_up_to(ow, i as int),
                ecs.gens@ == old(ecs).gens@,
                ecs.alive@ == old(ecs).alive@,
                ecs.positions@ == old(ecs).positions@,
                ecs.renderables@ == old(ecs).renderables@,
                ecs.players@ == old(ecs).players@,
                ecs.monsters@ == old(ecs).monsters@,
                ecs.blockers@ == old(ecs).blockers@,
                ecs.fovs@ == old(ecs).fovs@,
                ecs.names@ == old(ecs).names@,
                ecs.combat_stats@ == old(ecs).combat_stats@,
                ecs.items@ == old(ecs).items@,
                ecs.potions@ == old(ecs).potions@,
                ecs.equippables@ == old(ecs).equippables@,
                ecs.equipped@ == old(ecs).equipped@,
                ecs.backpacks@ == old(ecs).backpacks@,
                ecs.attack_intents@ == old(ecs).attack_intents@,
                ecs.pickup_intents@ == old(ecs).pickup_intents@,
                ecs.drink_intents@ == old(ecs).drink_intents@,
                ecs.drop_intents@ == old(ecs).drop_intents@,
                ecs.doomed@ == old(ecs).doomed@,
                ecs.map == old(ecs).map,
                ecs.player_entity == old(ecs).player_entity,
                ecs.player_pos == old(ecs).player_pos,
                ecs.run_state == old(ecs).run_state,
            decreases n - i,
        {
            let ghost pre = *ecs;
            let mut landed = false;
            let mut target_id: usize = 0;
            let mut dmg: i32 = 0;
            if ecs.alive[i] {
                let has_all = match (&ecs.attack_intents[i], &ecs.names[i], &ecs.combat_stats[i]) {
                    (Option::Some(_), Option::Some(_), Option::Some(s)) => s.hp > 0,
                    _ => false,
                };
                if has_all {
                    let target = match &ecs.attack_intents[i] {
                        Option::Some(a) => a.target,
                        Option::None => unreached(),
                    };
                    let t_id = target.id;
                    let target_hp = match &ecs.combat_stats[t_id] {
                        Option::Some(s) => s.hp,
                        Option::None => unreached(),
                    };
                    if target_hp > 0 {
                        let power = match &ecs.combat_stats[i] {
                            Option::Some(s) => s.power,
                            Option::None => unreached(),
                        };
                        let defense = match &ecs.combat_stats[t_id] {
                            Option::Some(s) => s.defense,
                            Option::None => unreached(),
                        };
                        landed = true;
                        target_id = t_id;
                        dmg = melee_damage(power, defense);
                    }
                }
            }
            proof {
                assert(landed == attack_lands(ow, i as int));
                if landed {
                    assert(target_id == ow.attack_intents@[i as int]->0.target.id);
                    assert(dmg == attack_damage(ow, i as int));
                }
            }
            if landed {
                let a_name = match &ecs.names[i] {
                    Option::Some(nm) => nm.name.clone(),
                    Option::None => unreached(),
                };
                let t_name = match &ecs.names[target_id] {
                    Option::Some(nm) => nm.name.clone(),
                    Option::None => unreached(),
                };
                if dmg == 0 {
                    let msg = unable_message(&a_name, &t_name);
                    ecs.log.push(msg);
                } else {
                    let msg = hits_message(&a_name, &t_name, dmg);
                    ecs.log.push(msg);
                    push_damage(&mut ecs.suffer_damage, target_id, dmg);
                    proof {
                        assert forall|q: int|
                            0 <= q < ecs.n() implies (#[trigger] ecs.suffer_damage@[q] matches Some(
                            d,
                        ) ==> forall|k2: int|
                            0 <= k2 < d.amounts@.len() ==> 0 <= #[trigger] d.amounts@[k2]
                                <= MAX_STAT) by {
                            if q != target_id {
                                assert(ecs.suffer_damage@[q] == pre.suffer_damage@[q]);
                            } else {
                                assert(damage_amounts(ecs.suffer_damage@[q]) == damage_amounts(
                                    pre.suffer_damage@[q],
                                ).push(dmg));
                                assert(ecs.suffer_damage@[q] matches Some(d) ==> d.amounts@
                                    == damage_amounts(pre.suffer_damage@[q]).push(dmg));
                            }
                        }
                    }
                }
            }
            i = i + 1;
            proof {
                let ii = i as int;
                assert forall|t: int|
                    0 <= t < old(ecs).n() implies damage_amounts(#[trigger] ecs.suffer_damage@[t])
                    == damage_amounts(old(ecs).suffer_damage@[t]) + contribs_up_to(ow, t, ii) by {
                    assert(contribs_up_to(ow, t, ii) == contribs_up_to(ow, t, ii - 1)
                        + damage_contrib(ow, ii - 1, t));
                    if landed && dmg > 0 && t == target_id {
                        assert(damage_contrib(ow, ii - 1, t) =~= seq![dmg]);
                        assert(damage_amounts(ecs.suffer_damage@[t]) == damage_amounts(
                            pre.suffer_damage@[t],
                        ).push(dmg));
                        assert(damage_amounts(pre.suffer_damage@[t]) == damage_amounts(
                            old(ecs).suffer_damage@[t],
                        ) + contribs_up_to(ow, t, ii - 1));
                        assert(damage_amounts(ecs.suffer_damage@[t]) =~= damage_amounts(
                            old(ecs).suffer_damage@[t],
                        ) + contribs_up_to(ow, t, ii));
                    } else {
                        assert(damage_contrib(ow, ii - 1, t) =~= Seq::<i32>::empty());
                        assert(ecs.suffer_damage@[t] == pre.suffer_damage@[t]);
                        assert(damage_amounts(pre.suffer_damage@[t]) == damage_amounts(
                            old(ecs).suffer_damage@[t],
                        ) + contribs_up_to(ow, t, ii - 1));
                        assert(damage_amounts(ecs.suffer_damage@[t]) =~= damage_amounts(
                            old(ecs).suffer_damage@[t],
                        ) + contribs_up_to(ow, t, ii));
                    }
                }
                assert(log_view(ecs.log) =~= log_view(old(ecs).log) + attack_msgs_up_to(ow, ii));
            }
        }
        // All intents are consumed, whatever came of them.
        let mut j: usize = 0;
        while j < n
            invariant
                j <= n,
                n == ecs.n(),
                ecs.wf(),
                ecs.n() == old(ecs).n(),
                ow == *old(ecs),
                forall|t: int|
                    0 <= t < old(ecs).n() ==> damage_amounts(#[trigger] ecs.suffer_damage@[t])
                        == damage_amounts(old(ecs).suffer_damage@[t]) + contribs_up_to(
                        ow,
                        t,
                        old(ecs).n(),
                    ),
                log_view(ecs.log) == log_view(old(ecs).log) + attack_msgs_up_to(ow, old(ecs).n()),
                forall|k: int| 0 <= k < j ==> (#[trigger] ecs.attack_intents@[k]) is None,
                forall|k: int|
                    j <= k < old(ecs).n() ==> #[trigger] ecs.attack_intents@[k] == old(
                        ecs,
                    ).attack_intents@[k],
                ecs.gens@ == old(ecs).gens@,
                ecs.alive@ == old(ecs).alive@,
                ecs.positions@ == old(ecs).positions@,
                ecs.renderables@ == old(ecs).renderables@,
                ecs.players@ == old(ecs).players@,
                ecs.monsters@ == old(ecs).monsters@,
                ecs.blockers@ == old(ecs).blockers@,
                ecs.fovs@ == old(ecs).fovs@,
                ecs.names@ == old(ecs).names@,
                ecs.combat_stats@ == old(ecs).combat_stats@,
                ecs.items@ == old(ecs).items@,
                ecs.potions@ == old(ecs).potions@,
                ecs.equippables@ == old(ecs).equippables@,
                ecs.equipped@ == old(ecs).equipped@,
                ecs.backpacks@ == old(ecs).backpacks@,
                ecs.pickup_intents@ == old(ecs).pickup_intents@,
                ecs.drink_intents@ == old(ecs).drink_intents@,
                ecs.drop_intents@ == old(ecs).drop_intents@,
                ecs.doomed@ == old(ecs).doomed@,
                ecs.map == old(ecs).map,
                ecs.player_entity == old(ecs).player_entity,
                ecs.player_pos == old(ecs).player_pos,
                ecs.run_state == old(ecs).run_state,
            decreases n - j,
        {
            ecs.attack_intents.set(j, None);
            j = j + 1;
        }
    }
}

} // verus!
