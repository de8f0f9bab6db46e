use vstd::prelude::*;
use crate::components::{CombatStats, Entity, EquipmentSlot, Equipped, InBackpack};
use crate::gamelog::{drink_message, equip_message, log_view, unequip_message};
use crate::world::World;

verus! {

/// Slot `i` holds a live entity with stats and a consume/equip intent.
pub open spec fn drinks(w: World, i: int) -> bool {
    &&& 0 <= i < w.n()
    &&& w.alive@[i]
    &&& w.drink_intents@[i] is Some
    &&& w.combat_stats@[i] is Some
}

/// The item the intent in slot `i` names.
pub open spec fn pot_of(w: World, i: int) -> Entity {
    w.drink_intents@[i]->0.potion
}

/// The intent in slot `i` names a live potion: it will heal and be destroyed.
pub open spec fn pot_live(w: World, i: int) -> bool {
    &&& drinks(w, i)
    &&& w.valid(pot_of(w, i))
    &&& w.potions@[pot_of(w, i).id as int] is Some
}

/// The intent in slot `i` names a live equippable item: it will be worn.
pub open spec fn equips(w: World, i: int) -> bool {
    &&& drinks(w, i)
    &&& w.valid(pot_of(w, i))
    &&& w.equippables@[pot_of(w, i).id as int] is Some
}

pub open spec fn slot_of(w: World, i: int) -> EquipmentSlot {
    w.equippables@[pot_of(w, i).id as int]->0.slot
}

/// Stats after drinking: healing is capped at max_hp.
pub open spec fn healed(s: CombatStats, heal: int) -> CombatStats {
    CombatStats {
        hp: if s.hp + heal > s.max_hp {
            s.max_hp
        } else {
            (s.hp + heal) as i32
        },
        ..s
    }
}

/// Well-formed consume intents: a named, live potion is not the player; an
/// equippable one additionally sits in the drinker's own backpack; no two
/// intents name one item; everything worn has a name.
pub open spec fn drink_intents_wf(w: World) -> bool {
    &&& forall|i: int|
        drinks(w, i) && w.valid(#[trigger] pot_of(w, i)) ==> {
            let p = pot_of(w, i).id as int;
            &&& w.names@[p] is Some
            &&& p != w.player_entity.id as int
            &&& (w.equippables@[p] is Some ==> {
                &&& w.backpacks@[p] == Some(InBackpack { owner: w.ent_at(i) })
                &&& w.items@[p]
                &&& p != i
            })
        }
    &&& forall|i1: int, i2: int|
        drinks(w, i1) && drinks(w, i2) && i1 != i2 ==> (#[trigger] pot_of(w, i1)).id != (
        #[trigger] pot_of(w, i2)).id
    &&& forall|j: int|
        0 <= j < w.n() && (#[trigger] w.equipped@[j]) is Some ==> w.names@[j] is Some
}

/// The potions queued for destruction by the drinkers in slots `0 .. k`.
pub open spec fn doom_adds(w: World, k: int) -> Seq<Entity>
    decreases k,
{
    if k <= 0 {
        Seq::empty()
    } else {
        doom_adds(w, k - 1) + (if pot_live(w, k - 1) {
            seq![pot_of(w, k - 1)]
        } else {
            Seq::empty()
        })
    }
}

/// Some drinker among slots `0 .. k` will wear item slot `j`.
pub open spec fn equip_target_before(w: World, j: int, k: int) -> bool {
    exists|i: int| 0 <= i < k && #[trigger] equips(w, i) && pot_of(w, i).id == j
}

/// Some drinker among slots `0 .. k` will take worn item `j` off (it hangs in
/// the drinker's slot that the new item goes into).
pub open spec fn unequip_target_before(w: World, j: int, k: int) -> bool {
    exists|i: int|
        0 <= i < k && #[trigger] equips(w, i) && 0 <= j < w.n() && w.equipped@[j] == Some(
            Equipped { owner: w.ent_at(i), slot: slot_of(w, i) },
        ) && j != pot_of(w, i).id
}

/// Consumes requested items: a potion heals its drinker (capped at max_hp)
/// and is queued for destruction; an equippable item is worn, displacing any
/// item already worn in that slot back into the backpack. The two paths are
/// independent: one item may do both.
pub struct PotionUseSystem {}

/// Exactly what one consume/equip pass does: drinkers healed (capped),
/// potions queued for destruction, equippables worn displacing same-slot
/// gear, intents drained.
pub open spec fn drink_rel(a: World, b: World) -> bool {
    &&& b.n() == a.n()
    &&& forall|i: int|
        0 <= i < a.n() ==> #[trigger] b.combat_stats@[i] == (
        if pot_live(a, i) {
            Some(
                healed(
                    a.combat_stats@[i]->0,
                    a.potions@[pot_of(a, i).id as int]->0.heal_amount as int,
                ),
            )
        } else {
            a.combat_stats@[i]
        })
    &&& b.doomed@ == a.doomed@ + doom_adds(a, a.n())
    &&& forall|i: int|
        #[trigger] equips(a, i) ==> {
            &&& b.equipped@[pot_of(a, i).id as int] == Some(
                Equipped {
                    owner: a.ent_at(i),
                    slot: slot_of(a, i),
                },
            )
            &&& b.backpacks@[pot_of(a, i).id as int] is None
        }
    &&& forall|i: int, j: int|
        #![trigger equips(a, i), a.equipped@[j]]
        equips(a, i) && 0 <= j < a.n() && a.equipped@[j] == Some(
            Equipped { owner: a.ent_at(i), slot: slot_of(a, i) },
        ) && j != pot_of(a, i).id as int ==> {
            &&& b.equipped@[j] is None
            &&& b.backpacks@[j] == Some(InBackpack { owner: a.ent_at(i) })
        }
    &&& forall|j: int|
        #![trigger equip_target_before(a, j, a.n() as int)]
        #![trigger unequip_target_before(a, j, a.n() as int)]
        0 <= j < a.n() && !equip_target_before(a, j, a.n() as int)
            && !unequip_target_before(a, j, a.n() as int) ==> {
            &&& b.equipped@[j] == a.equipped@[j]
            &&& b.backpacks@[j] == a.backpacks@[j]
        }
    &&& forall|i: int| 0 <= i < b.n() ==> (#[trigger] b.drink_intents@[i]) is None
    &&& log_view(a.log).is_prefix_of(log_view(b.log))
    &&& b.gens@ == a.gens@
    &&& b.alive@ == a.alive@
    &&& b.positions@ == a.positions@
    &&& b.renderables@ == a.renderables@
    &&& b.players@ == a.players@
    &&& b.monsters@ == a.monsters@
    &&& b.blockers@ == a.blockers@
    &&& b.fovs@ == a.fovs@
    &&& b.names@ == a.names@
    &&& b.items@ == a.items@
    &&& b.potions@ == a.potions@
    &&& b.equippables@ == a.equippables@
    &&& b.attack_intents@ == a.attack_intents@
    &&& b.pickup_intents@ == a.pickup_intents@
    &&& b.drop_intents@ == a.drop_intents@
    &&& b.suffer_damage@ == a.suffer_damage@
    &&& b.map == a.map
    &&& b.player_entity == a.player_entity
    &&& b.player_pos == a.player_pos
    &&& b.run_state == a.run_state
}

impl PotionUseSystem {
    #[verifier::rlimit(100)]
    pub fn run(&self, ecs: &mut World)
        requires
            old(ecs).wf(),
            drink_intents_wf(*old(ecs)),
        ensures
            final(ecs).wf(),
            drink_rel(*old(ecs), *final(ecs)),
    {
        let ghost ow = *old(ecs);
        let n = ecs.gens.len();
        let mut i: usize = 0;
        while i < n
            invariant
                i <= n,
                n == ecs.n(),
                ecs.wf(),
                ow.wf(),
                drink_intents_wf(ow),
                ow == *old(ecs),
                ecs.n() == old(ecs).n(),
                forall|q: int|
                    0 <= q < old(ecs).n() ==> #[trigger] ecs.combat_stats@[q] == (
                    if pot_live(ow, q) && q < i {
                        Some(
                            healed(
                                old(ecs).combat_stats@[q]->0,
                                old(ecs).potions@[pot_of(ow, q).id as int]->0.heal_amount as int,
                            ),
                        )
                    } else {
                        old(ecs).combat_stats@[q]
                    }),
                ecs.doomed@ == old(ecs).doomed@ + doom_adds(ow, i as int),
                forall|q: int|
                    #[trigger] equips(ow, q) && q < i ==> {
                        &&& ecs.equipped@[pot_of(ow, q).id as int] == Some(
                            Equipped { owner: ow.ent_at(q), slot: slot_of(ow, q) },
                        )
                        &&& ecs.backpacks@[pot_of(ow, q).id as int] is None
                    },
                forall|q: int, j: int|
                    #![trigger equips(ow, q), ow.equipped@[j]]
                    equips(ow, q) && q < i && 0 <= j < old(ecs).n() && ow.equipped@[j] == Some(
                        Equipped { owner: ow.ent_at(q), slot: slot_of(ow, q) },
                    ) && j != pot_of(ow, q).id as int ==> {
                        &&& ecs.equipped@[j] is None
                        &&& ecs.backpacks@[j] == Some(InBackpack { owner: ow.ent_at(q) })
                    },
                forall|j: int|
                    #![trigger equip_target_before(ow, j, i as int)]
                    #![trigger unequip_target_before(ow, j, i as int)]
                    0 <= j < old(ecs).n() && !equip_target_before(ow, j, i as int)
                        && !unequip_target_before(ow, j, i as int) ==> {
                        &&& ecs.equipped@[j] == old(ecs).equipped@[j]
                        &&& ecs.backpacks@[j] == old(ecs).backpacks@[j]
                    },
                forall|k: int| 0 <= k < i ==> (#[trigger] ecs.drink_intents@[k]) is None,
                forall|k: int|
                    i <= k < ecs.n() ==> #[trigger] ecs.drink_intents@[k] == old(
                        ecs,
                    ).drink_intents@[k],
                log_view(old(ecs).log).is_prefix_of(log_view(ecs.log)),
                ecs.gens@ == old(ecs).gens@,
                ecs.alive@ == old(ecs).alive@,
                ecs.positions@ == old(ecs).positions@,
                ecs.renderables@ == old(ecs).renderables@,
                ecs.players@ == old(ecs).players@,
                ecs.monsters@ == old(ecs).monsters@,
                ecs.blockers@ == old(ecs).blockers@,
                ecs.fovs@ == old(ecs).fovs@,
                ecs.names@ == old(ecs).names@,
                ecs.items@ == old(ecs).items@,
                ecs.potions@ == old(ecs).potions@,
                ecs.equippables@ == old(ecs).equippables@,
                ecs.attack_intents@ == old(ecs).attack_intents@,
                ecs.pickup_intents@ == old(ecs).pickup_intents@,
                ecs.drop_intents@ == old(ecs).drop_intents@,
                ecs.suffer_damage@ == old(ecs).suffer_damage@,
                ecs.map == old(ecs).map,
                ecs.player_entity == old(ecs).player_entity,
                ecs.player_pos == old(ecs).player_pos,
                ecs.run_state == old(ecs).run_state,
            decreases n - i,
        {
            let ghost mut scan_pre = *ecs;
            let ghost mut eqp_done = *ecs;
            let intent = if ecs.alive[i] {
                match (&ecs.drink_intents[i], &ecs.combat_stats[i]) {
                    (Option::Some(d), Option::Some(_)) => Some(*d),
                    _ => None,
                }
            } else {
                None
            };
            proof {
                assert(intent is Some <==> drinks(ow, i as int));
            }
            if let Option::Some(d) = intent {
                let pot = d.potion;
                let pot_valid = pot.id < ecs.gens.len() && ecs.gens[pot.id] == pot.gen
                    && ecs.alive[pot.id];
                proof {
                    assert(pot_valid <==> ow.valid(pot_of(ow, i as int)));
                }
                if pot_valid {
                    let heal_opt: Option<i32> = match &ecs.potions[pot.id] {
                        Option::Some(p) => Some(p.heal_amount),
                        Option::None => None,
                    };
                    if let Option::Some(heal) = heal_opt {
                        let s = match &ecs.combat_stats[i] {
                            Option::Some(s) => *s,
                            Option::None => unreached(),
                        };
                        let new_hp = if s.hp + heal > s.max_hp {
                            s.max_hp
                        } else {
                            s.hp + heal
                        };
                        ecs.combat_stats.set(i, Some(CombatStats { hp: new_hp, ..s }));
                        if i == ecs.player_entity.id {
                            let pot_name = match &ecs.names[pot.id] {
                                Option::Some(nm) => nm.name.clone(),
                                Option::None => unreached(),
                            };
                            let msg = drink_message(&pot_name, heal);
                            let ghost lv = log_view(ecs.log);
                            ecs.log.push(msg);
                            proof {
                                crate::gamelog::lemma_log_prefix_push(
                                    log_view(old(ecs).log),
                                    lv,
                                    msg@,
                                );
                            }
                        }
                        ecs.doomed.push(pot);
                    }
                    let slot_opt: Option<EquipmentSlot> = match &ecs.equippables[pot.id] {
                        Option::Some(e) => Some(e.slot),
                        Option::None => None,
                    };
                    if let Option::Some(slot) = slot_opt {
                        proof {
                            assert(equips(ow, i as int));
                            assert(slot == slot_of(ow, i as int));
                        }
                        let me = Entity { id: i, gen: ecs.gens[i] };
                        proof {
                            assert(me == ow.ent_at(i as int));
                        }
                        proof {
                            scan_pre = *ecs;
                        }
                        proof {
                            let ii0 = i as int;
                            let worn_by_me = Equipped {
                                owner: ow.ent_at(ii0),
                                slot: slot_of(ow, ii0),
                            };
                            assert forall|jj: int|
                                0 <= jj < ecs.n() implies (#[trigger] scan_pre.equipped@[jj]
                                == Some(worn_by_me) <==> ow.equipped@[jj] == Some(worn_by_me)) by {
                                if equip_target_before(ow, jj, ii0) {
                                    let q = choose|q: int|
                                        0 <= q < ii0 && #[trigger] equips(ow, q) && pot_of(
                                            ow,
                                            q,
                                        ).id == jj;
                                    assert(scan_pre.equipped@[jj] == Some(
                                        Equipped { owner: ow.ent_at(q), slot: slot_of(ow, q) },
                                    ));
                                    assert(ow.ent_at(q).id != ow.ent_at(ii0).id);
                                    assert(ow.backpacks@[jj] == Some(
                                        InBackpack { owner: ow.ent_at(q) },
                                    ));
                                    assert(ow.items@[jj]);
                                    assert(ow.items_exclusive());
                                    assert(ow.equipped@[jj] is None);
                                } else if unequip_target_before(ow, jj, ii0) {
                                    let q = choose|q: int|
                                        0 <= q < ii0 && #[trigger] equips(ow, q) && 0 <= jj
                                            < ow.n() && ow.equipped@[jj] == Some(
                                            Equipped { owner: ow.ent_at(q), slot: slot_of(ow, q) },
                                        ) && jj != pot_of(ow, q).id as int;
                                    assert(scan_pre.equipped@[jj] is None);
                                    assert(ow.ent_at(q).id != ow.ent_at(ii0).id);
                                } else {
                                    assert(scan_pre.equipped@[jj] == ow.equipped@[jj]);
                                }
                            }
                        }
                        let mut j: usize = 0;
                        while j < n
                            invariant
                                j <= n,
                                n == ecs.n(),
                                ecs.wf(),
                                ow.wf(),
                                drink_intents_wf(ow),
                                ow == *old(ecs),
                                ecs.n() == old(ecs).n(),
                                equips(ow, i as int),
                                i < n,
                                me == ow.ent_at(i as int),
                                slot == slot_of(ow, i as int),
                                pot == pot_of(ow, i as int),
                                scan_pre.n() == ecs.n(),
                                forall|jj: int|
                                    #![trigger ow.equipped@[jj]]
                                    0 <= jj < ecs.n() && !(ow.equipped@[jj] == Some(
                                        Equipped { owner: ow.ent_at(i as int), slot: slot_of(ow, i as int) },
                                    ) && jj < j && jj != pot_of(ow, i as int).id as int) ==> {
                                        &&& ecs.equipped@[jj] == scan_pre.equipped@[jj]
                                        &&& ecs.backpacks@[jj] == scan_pre.backpacks@[jj]
                                    },
                                forall|jj: int|
                                    #![trigger ow.equipped@[jj]]
                                    0 <= jj < j && ow.equipped@[jj] == Some(
                                        Equipped { owner: ow.ent_at(i as int), slot: slot_of(ow, i as int) },
                                    ) && jj != pot_of(ow, i as int).id as int ==> {
                                        &&& ecs.equipped@[jj] is None
                                        &&& ecs.backpacks@[jj] == Some(
                                            InBackpack { owner: ow.ent_at(i as int) },
                                        )
                                    },
                                forall|jj: int|
                                    #![trigger scan_pre.equipped@[jj]]
                                    0 <= jj < ecs.n() ==> (scan_pre.equipped@[jj] == Some(
                                        Equipped { owner: ow.ent_at(i as int), slot: slot_of(ow, i as int) },
                                    ) <==> ow.equipped@[jj] == Some(
                                        Equipped { owner: ow.ent_at(i as int), slot: slot_of(ow, i as int) },
                                    )),
                                ecs.combat_stats@ == scan_pre.combat_stats@,
                                ecs.doomed@ == scan_pre.doomed@,
                                ecs.drink_intents@ == scan_pre.drink_intents@,
                                log_view(old(ecs).log).is_prefix_of(log_view(ecs.log)),
                                ecs.gens@ == old(ecs).gens@,
                                ecs.alive@ == old(ecs).alive@,
                                ecs.positions@ == old(ecs).positions@,
                                ecs.renderables@ == old(ecs).renderables@,
                                ecs.players@ == old(ecs).players@,
                                ecs.monsters@ == old(ecs).monsters@,
                                ecs.blockers@ == old(ecs).blockers@,
                                ecs.fovs@ == old(ecs).fovs@,
                                ecs.names@ == old(ecs).names@,
                                ecs.items@ == old(ecs).items@,
                                ecs.potions@ == old(ecs).potions@,
                                ecs.equippables@ == old(ecs).equippables@,
                                ecs.attack_intents@ == old(ecs).attack_intents@,
                                ecs.pickup_intents@ == old(ecs).pickup_intents@,
                                ecs.drop_intents@ == old(ecs).drop_intents@,
                                ecs.suffer_damage@ == old(ecs).suffer_damage@,
                                ecs.map == old(ecs).map,
                                ecs.player_entity == old(ecs).player_entity,
                                ecs.player_pos == old(ecs).player_pos,
                                ecs.run_state == old(ecs).run_state,
                            decreases n - j,
                        {
                            let ghost sp = *ecs;
                            let worn = match &ecs.equipped[j] {
                                Option::Some(e) => *e == (Equipped { owner: me, slot })
                                    && j != pot.id,
                                Option::None => false,
                            };
                            if worn {
                                ecs.equipped.set(j, None);
                                ecs.backpacks.set(j, Some(InBackpack { owner: me }));
                                if i == ecs.player_entity.id {
                                    let worn_name = match &ecs.names[j] {
                                        Option::Some(nm) => nm.name.clone(),
                                        Option::None => unreached(),
                                    };
                                    let msg = unequip_message(&worn_name);
                                    let ghost lv = log_view(ecs.log);
                                    ecs.log.push(msg);
                                    proof {
                                        crate::gamelog::lemma_log_prefix_push(
                                            log_view(old(ecs).log),
                                            lv,
                                            msg@,
                                        );
                                    }
                                }
                            }
                            j = j + 1;
                            proof {
                                let jj1 = j as int;
                                let wm = Equipped { owner: ow.ent_at(i as int), slot: slot_of(ow, i as int) };
                                assert forall|jj: int|
                                    0 <= jj < ecs.n() && !(ow.equipped@[jj] == Some(wm) && jj
                                        < jj1 && jj != pot_of(ow, i as int).id as int) implies {
                                    &&& #[trigger] ecs.equipped@[jj] == scan_pre.equipped@[jj]
                                    &&& ecs.backpacks@[jj] == scan_pre.backpacks@[jj]
                                } by {
                                    assert(sp.equipped@[jj] == scan_pre.equipped@[jj]
                                        && sp.backpacks@[jj] == scan_pre.backpacks@[jj]);
                                    if jj == jj1 - 1 && worn {
                                        assert(sp.equipped@[jj] == Some(wm));
                                        assert(ow.equipped@[jj] == Some(wm));
                                        assert(false);
                                    }
                                }
                                assert forall|jj: int|
                                    0 <= jj < jj1 && ow.equipped@[jj] == Some(wm) && jj != pot_of(
                                    ow,
                                    i as int,
                                ).id as int implies {
                                    &&& #[trigger] ecs.equipped@[jj] is None
                                    &&& ecs.backpacks@[jj] == Some(
                                        InBackpack { owner: ow.ent_at(i as int) },
                                    )
                                } by {
                                    if jj == jj1 - 1 {
                                        assert(sp.equipped@[jj] == scan_pre.equipped@[jj]);
                                        assert(scan_pre.equipped@[jj] == Some(wm));
                                        assert(worn);
                                    } else {
                                        assert(sp.equipped@[jj] is None && sp.backpacks@[jj]
                                            == Some(InBackpack { owner: ow.ent_at(i as int) }));
                                        if worn {
                                            assert(jj != jj1 - 1);
                                        }
                                    }
                                }
                            }
                        }
                        let ghost scan_exit = *ecs;
                        ecs.equipped.set(pot.id, Some(Equipped { owner: me, slot }));
                        ecs.backpacks.set(pot.id, None);
                        proof {
                            eqp_done = *ecs;
                        }
                        proof {
                            let ii0 = i as int;
                            let worn_by_me = Equipped {
                                owner: ow.ent_at(ii0),
                                slot: slot_of(ow, ii0),
                            };
                            assert forall|x: int| 0 <= x < ecs.n() implies {
                                &&& #[trigger] eqp_done.equipped@[x] == (if x == pot_of(ow, ii0).id as int {
                                    Some(worn_by_me)
                                } else if ow.equipped@[x] == Some(worn_by_me) {
                                    None
                                } else {
                                    scan_pre.equipped@[x]
                                })
                                &&& eqp_done.backpacks@[x] == (if x == pot_of(ow, ii0).id as int {
                                    None
                                } else if ow.equipped@[x] == Some(worn_by_me) {
                                    Some(InBackpack { owner: ow.ent_at(ii0) })
                                } else {
                                    scan_pre.backpacks@[x]
                                })
                            } by {
                                assert(scan_exit.equipped@[x] == (if ow.equipped@[x] == Some(
                                    worn_by_me,
                                ) && x != pot_of(ow, ii0).id as int {
                                    None
                                } else {
                                    scan_pre.equipped@[x]
                                }));
                                if ow.equipped@[x] == Some(worn_by_me) && x == pot_of(
                                    ow,
                                    ii0,
                                ).id as int {
                                    assert(ow.backpacks@[x] == Some(
                                        InBackpack { owner: ow.ent_at(ii0) },
                                    ));
                                    assert(ow.items@[x]);
                                    assert(false);
                                }
                            }
                        }
                        if i == ecs.player_entity.id {
                            let pot_name = match &ecs.names[pot.id] {
                                Option::Some(nm) => nm.name.clone(),
                                Option::None => unreached(),
                            };
                            let msg = equip_message(&pot_name);
                            let ghost lv = log_view(ecs.log);
                            ecs.log.push(msg);
                            proof {
                                crate::gamelog::lemma_log_prefix_push(
                                    log_view(old(ecs).log),
                                    lv,
                                    msg@,
                                );
                            }
                        }
                    }
                }
            }
            ecs.drink_intents.set(i, None);
            i = i + 1;
            proof {
                let ii = i as int;
                assert(ecs.doomed@ =~= old(ecs).doomed@ + doom_adds(ow, ii));

                assert forall|q: int|
                    #[trigger] equips(ow, q) && q < ii implies {
                    &&& ecs.equipped@[pot_of(ow, q).id as int] == Some(
                        Equipped { owner: ow.ent_at(q), slot: slot_of(ow, q) },
                    )
                    &&& ecs.backpacks@[pot_of(ow, q).id as int] is None
                } by {
                    let pq = pot_of(ow, q).id as int;
                    if q < ii - 1 {
                        assert(ow.backpacks@[pq] == Some(InBackpack { owner: ow.ent_at(q) }));
                        if equips(ow, ii - 1) {
                            assert(pot_of(ow, q).id != pot_of(ow, ii - 1).id);
                            assert(ow.items@[pq] && ow.backpacks@[pq] is Some);
                            assert(ow.items_exclusive());
                            assert(!(ow.equipped@[pq] is Some));
                        }
                    }
                }
                assert forall|q: int, j: int|
                    #![trigger equips(ow, q), ow.equipped@[j]]
                    equips(ow, q) && q < ii && 0 <= j < old(ecs).n() && ow.equipped@[j] == Some(
                        Equipped { owner: ow.ent_at(q), slot: slot_of(ow, q) },
                    ) && j != pot_of(ow, q).id as int implies {
                    &&& ecs.equipped@[j] is None
                    &&& ecs.backpacks@[j] == Some(InBackpack { owner: ow.ent_at(q) })
                } by {
                    if q < ii - 1 {
                        if equips(ow, ii - 1) {
                            assert(ow.ent_at(q).id != ow.ent_at(ii - 1).id);
                            assert(ow.backpacks@[pot_of(ow, ii - 1).id as int] is Some);
                            assert(ow.items@[pot_of(ow, ii - 1).id as int]);
                            assert(ow.items_exclusive());
                            assert(!(ow.equipped@[pot_of(ow, ii - 1).id as int] is Some));
                            assert(j != pot_of(ow, ii - 1).id as int);
                        }
                    }
                }
                assert forall|j: int|
                    #![trigger ecs.equipped@[j]]
                    0 <= j < old(ecs).n() && !equip_target_before(ow, j, ii)
                        && !unequip_target_before(ow, j, ii) implies {
                    &&& ecs.equipped@[j] == old(ecs).equipped@[j]
                    &&& ecs.backpacks@[j] == old(ecs).backpacks@[j]
                } by {
                    if equip_target_before(ow, j, ii - 1) {
                        let q = choose|q: int|
                            0 <= q < ii - 1 && #[trigger] equips(ow, q) && pot_of(ow, q).id == j;
                        assert(equip_target_before(ow, j, ii));
                        assert(false);
                    }
                    if unequip_target_before(ow, j, ii - 1) {
                        let q = choose|q: int|
                            0 <= q < ii - 1 && #[trigger] equips(ow, q) && 0 <= j < ow.n()
                                && ow.equipped@[j] == Some(
                                Equipped { owner: ow.ent_at(q), slot: slot_of(ow, q) },
                            ) && j != pot_of(ow, q).id as int;
                        assert(unequip_target_before(ow, j, ii));
                        assert(false);
                    }
                    if equips(ow, ii - 1) {
                        assert(ow.items_exclusive());
                        assert(j != pot_of(ow, ii - 1).id as int);
                        assert(!(ow.equipped@[j] == Some(
                            Equipped { owner: ow.ent_at(ii - 1), slot: slot_of(ow, ii - 1) },
                        )));
                        assert(eqp_done.equipped@[j] == scan_pre.equipped@[j]
                            && eqp_done.backpacks@[j] == scan_pre.backpacks@[j]);
                        assert(ecs.equipped@[j] == eqp_done.equipped@[j] && ecs.backpacks@[j]
                            == eqp_done.backpacks@[j]);
                    }
                }
            }
        }
    }
}

} // verus!
