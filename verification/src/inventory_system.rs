use vstd::prelude::*;
use crate::components::InBackpack;
use crate::gamelog::{dropped_message, log_view, msg_dropped, msg_picked_up, picked_up_message};
use crate::world::World;

verus! {

/// Slot `i` holds a live entity with a pickup intent.
pub open spec fn picks(w: World, i: int) -> bool {
    &&& 0 <= i < w.n()
    &&& w.alive@[i]
    &&& w.pickup_intents@[i] is Some
}

/// The slot of the item named by the pickup intent in slot `i`.
pub open spec fn picked_item(w: World, i: int) -> int {
    w.pickup_intents@[i]->0.item.id as int
}

/// Well-formed pickup intents: each names a valid, named item that lies on
/// the ground (it is not the player), and no two intents fight over one item.
pub open spec fn pickup_intents_wf(w: World) -> bool {
    forall|i: int|
        picks(w, i) ==> {
            let p = (#[trigger] w.pickup_intents@[i])->0;
            &&& w.valid(p.item)
            &&& w.items@[p.item.id as int]
            &&& w.positions@[p.item.id as int] is Some
            &&& w.names@[p.item.id as int] is Some
            &&& p.item.id != w.player_entity.id
            &&& forall|i2: int|
                picks(w, i2) && i2 != i ==> picked_item(w, i2) != p.item.id as int
        }
}

/// Whether some intent in the slots `0 .. k` names item slot `j`.
pub open spec fn item_picked_before(w: World, j: int, k: int) -> bool {
    exists|i: int| 0 <= i < k && #[trigger] picks(w, i) && picked_item(w, i) == j
}

/// What the pickup in slot `i` writes to the log: only the player announces.
pub open spec fn pickup_msg(w: World, i: int) -> Seq<Seq<char>> {
    if picks(w, i) && w.pickup_intents@[i]->0.collected_by == w.player_entity {
        seq![msg_picked_up(w.names@[picked_item(w, i)]->0.name@)]
    } else {
        Seq::empty()
    }
}

pub open spec fn pickup_msgs_up_to(w: World, k: int) -> Seq<Seq<char>>
    decreases k,
{
    if k <= 0 {
        Seq::empty()
    } else {
        pickup_msgs_up_to(w, k - 1) + pickup_msg(w, k - 1)
    }
}

/// Moves requested items off the ground into their collectors' backpacks.
pub struct ItemCollectionSystem {}

/// Exactly what one pickup pass does: requested items move off the ground
/// into their collectors' backpacks, the player's pickups are logged, the
/// intents drain, everything else is untouched.
pub open spec fn pickup_rel(a: World, b: World) -> bool {
    &&& b.n() == a.n()
    &&& forall|i: int|
        #[trigger] picks(a, i) ==> {
            &&& b.positions@[picked_item(a, i)] is None
            &&& b.backpacks@[picked_item(a, i)] == Some(
                InBackpack { owner: a.pickup_intents@[i]->0.collected_by },
            )
        }
    &&& forall|j: int|
        #![trigger item_picked_before(a, j, a.n() as int)]
        0 <= j < a.n() && !item_picked_before(a, j, a.n() as int) ==> {
            &&& b.positions@[j] == a.positions@[j]
            &&& b.backpacks@[j] == a.backpacks@[j]
        }
    &&& log_view(b.log) == log_view(a.log) + pickup_msgs_up_to(
        a,
        a.n(),
    )
    &&& forall|i: int| 0 <= i < b.n() ==> (#[trigger] b.pickup_intents@[i]) is None
    &&& b.gens@ == a.gens@
    &&& b.alive@ == a.alive@
    &&& b.renderables@ == a.renderables@
    &&& b.players@ == a.players@
    &&& b.monsters@ == a.monsters@
    &&& b.blockers@ == a.blockers@
    &&& b.fovs@ == a.fovs@
    &&& b.names@ == a.names@
    &&& b.combat_stats@ == a.combat_stats@
    &&& b.items@ == a.items@
    &&& b.potions@ == a.potions@
    &&& b.equippables@ == a.equippables@
    &&& b.equipped@ == a.equipped@
    &&& b.attack_intents@ == a.attack_intents@
    &&& b.drink_intents@ == a.drink_intents@
    &&& b.drop_intents@ == a.drop_intents@
    &&& b.suffer_damage@ == a.suffer_damage@
    &&& b.doomed@ == a.doomed@
    &&& b.map == a.map
    &&& b.player_entity == a.player_entity
    &&& b.player_pos == a.player_pos
    &&& b.run_state == a.run_state
}

/// Exactly what one drop pass does: requested items leave the backpack for
/// the dropper's feet, the player's drops are logged, the intents drain,
/// everything else is untouched.
pub open spec fn drop_rel(a: World, b: World) -> bool {
    &&& b.n() == a.n()
    &&& forall|i: int|
        #[trigger] drops(a, i) ==> {
            &&& b.positions@[dropped_item(a, i)] == a.positions@[i]
            &&& b.backpacks@[dropped_item(a, i)] is None
        }
    &&& forall|j: int|
        #![trigger item_dropped_before(a, j, a.n() as int)]
        0 <= j < a.n() && !item_dropped_before(a, j, a.n() as int) ==> {
            &&& b.positions@[j] == a.positions@[j]
            &&& b.backpacks@[j] == a.backpacks@[j]
        }
    &&& log_view(b.log) == log_view(a.log) + drop_msgs_up_to(
        a,
        a.n(),
    )
    &&& forall|i: int| 0 <= i < b.n() ==> (#[trigger] b.drop_intents@[i]) is None
    &&& b.gens@ == a.gens@
    &&& b.alive@ == a.alive@
    &&& b.renderables@ == a.renderables@
    &&& b.players@ == a.players@
    &&& b.monsters@ == a.monsters@
    &&& b.blockers@ == a.blockers@
    &&& b.fovs@ == a.fovs@
    &&& b.names@ == a.names@
    &&& b.combat_stats@ == a.combat_stats@
    &&& b.items@ == a.items@
    &&& b.potions@ == a.potions@
    &&& b.equippables@ == a.equippables@
    &&& b.equipped@ == a.equipped@
    &&& b.attack_intents@ == a.attack_intents@
    &&& b.pickup_intents@ == a.pickup_intents@
    &&& b.drink_intents@ == a.drink_intents@
    &&& b.suffer_damage@ == a.suffer_damage@
    &&& b.doomed@ == a.doomed@
    &&& b.map == a.map
    &&& b.player_entity == a.player_entity
    &&& b.player_pos == a.player_pos
    &&& b.run_state == a.run_state
}

impl ItemCollectionSystem {
    /// Every requested item loses its Position and gains InBackpack with its
    /// collector as owner; the player's pickups are logged; the intents are
    /// cleared; nothing else changes.
    pub fn run(&self, ecs: &mut World)
        requires
            old(ecs).wf(),
            pickup_intents_wf(*old(ecs)),
        ensures
            final(ecs).wf(),
            pickup_rel(*old(ecs), *final(ecs)),
    {
        let ghost ow = *old(ecs);
        let n = ecs.gens.len();
        let mut i: usize = 0;
        while i < n
            invariant
                i <= n,
                n == ecs.n(),
                ecs.wf(),
                pickup_intents_wf(ow),
                ow == *old(ecs),
                ecs.n() == old(ecs).n(),
                forall|q: int|
                    #[trigger] picks(ow, q) && q < i ==> {
                        &&& ecs.positions@[picked_item(ow, q)] is None
                        &&& ecs.backpacks@[picked_item(ow, q)] == Some(
                            InBackpack { owner: ow.pickup_intents@[q]->0.collected_by },
                        )
                    },
                forall|j: int|
                    #![trigger item_picked_before(ow, j, i as int)]
                    0 <= j < old(ecs).n() && !item_picked_before(ow, j, i as int) ==> {
                        &&& ecs.positions@[j] == old(ecs).positions@[j]
                        &&& ecs.backpacks@[j] == old(ecs).backpacks@[j]
                    },
                log_view(ecs.log) == log_view(old(ecs).log) + pickup_msgs_up_to(ow, i as int),
                ecs.gens@ == old(ecs).gens@,
                ecs.alive@ == old(ecs).alive@,
                ecs.renderables@ == old(ecs).renderables@,
                ecs.players@ == old(ecs).players@,
                ecs.monsters@ == old(ecs).monsters@,
                ecs.blockers@ == old(ecs).blockers@,
                ecs.fovs@ == old(ecs).fovs@,
                ecs.names@ == old(ecs).names@,
                ecs.combat_stats@ == old(ecs).combat_stats@,
                ecs.items@ == old(ecs).items@,
                ecs.potions@ == old(ecs).potions@,
                ecs.equippables@ == old(ecs).equippables@,
                ecs.equipped@ == old(ecs).equipped@,
                ecs.attack_intents@ == old(ecs).attack_intents@,
                forall|k: int| 0 <= k < i ==> (#[trigger] ecs.pickup_intents@[k]) is None,
                forall|k: int|
                    i <= k < ecs.n() ==> #[trigger] ecs.pickup_intents@[k] == old(
                        ecs,
                    ).pickup_intents@[k],
                ecs.drink_intents@ == old(ecs).drink_intents@,
                ecs.drop_intents@ == old(ecs).drop_intents@,
                ecs.suffer_damage@ == old(ecs).suffer_damage@,
                ecs.doomed@ == old(ecs).doomed@,
                ecs.map == old(ecs).map,
                ecs.player_entity == old(ecs).player_entity,
                ecs.player_pos == old(ecs).player_pos,
                ecs.run_state == old(ecs).run_state,
            decreases n - i,
        {
            let ghost pre = *ecs;
            let intent = if ecs.alive[i] {
                match &ecs.pickup_intents[i] {
                    Option::Some(p) => Some(*p),
                    Option::None => None,
                }
            } else {
                None
            };
            if let Option::Some(p) = intent {
                proof {
                    assert(picks(ow, i as int));
                    assert(!item_picked_before(ow, p.item.id as int, i as int));
                }
                ecs.positions.set(p.item.id, None);
                ecs.backpacks.set(p.item.id, Some(InBackpack { owner: p.collected_by }));
                if p.collected_by == ecs.player_entity {
                    let item_name = match &ecs.names[p.item.id] {
                        Option::Some(nm) => nm.name.clone(),
                        Option::None => unreached(),
                    };
                    let msg = picked_up_message(&item_name);
                    ecs.log.push(msg);
                }
            }
            ecs.pickup_intents.set(i, None);
            i = i + 1;
            proof {
                let ii = i as int;
                assert forall|q: int|
                    #[trigger] picks(ow, q) && q < ii implies {
                    &&& ecs.positions@[picked_item(ow, q)] is None
                    &&& ecs.backpacks@[picked_item(ow, q)] == Some(
                        InBackpack { owner: ow.pickup_intents@[q]->0.collected_by },
                    )
                } by {
                    if q < ii - 1 && picks(ow, ii - 1) {
                        assert(ow.pickup_intents@[q] is Some);
                        assert(picked_item(ow, q) != picked_item(ow, ii - 1));
                    }
                }
                assert forall|j: int|
                    0 <= j < old(ecs).n() && !item_picked_before(ow, j, ii) implies {
                    &&& ecs.positions@[j] == old(ecs).positions@[j]
                    &&& ecs.backpacks@[j] == old(ecs).backpacks@[j]
                } by {
                    if item_picked_before(ow, j, ii - 1) {
                        let q = choose|q: int|
                            0 <= q < ii - 1 && #[trigger] picks(ow, q) && picked_item(ow, q) == j;
                        assert(0 <= q < ii && picks(ow, q) && picked_item(ow, q) == j);
                        assert(false);
                    }
                    if picks(ow, ii - 1) && picked_item(ow, ii - 1) == j {
                        assert(item_picked_before(ow, j, ii));
                        assert(false);
                    }
                    assert(!item_picked_before(ow, j, ii - 1));
                }
                assert(log_view(ecs.log) =~= log_view(old(ecs).log) + pickup_msgs_up_to(ow, ii));
            }
        }
    }
}

/// Slot `i` holds a live, positioned entity with a drop intent.
pub open spec fn drops(w: World, i: int) -> bool {
    &&& 0 <= i < w.n()
    &&& w.alive@[i]
    &&& w.drop_intents@[i] is Some
    &&& w.positions@[i] is Some
}

/// The slot of the item named by the drop intent in slot `i`.
pub open spec fn dropped_item(w: World, i: int) -> int {
    w.drop_intents@[i]->0.item.id as int
}

/// Well-formed drop intents: every intent holder stands somewhere (a
/// positionless dropper would be a corrupt world, which the data model rules
/// out rather than skips), each intent names a valid, named item sitting in
/// the dropper's own backpack, and no two intents fight over one item.
pub open spec fn drop_intents_wf(w: World) -> bool {
    &&& forall|i: int|
        0 <= i < w.n() && w.alive@[i] && (#[trigger] w.drop_intents@[i]) is Some
            ==> w.positions@[i] is Some
    &&& forall|i: int|
        drops(w, i) ==> {
            let p = (#[trigger] w.drop_intents@[i])->0;
            &&& w.valid(p.item)
            &&& w.items@[p.item.id as int]
            &&& w.backpacks@[p.item.id as int] == Some(InBackpack { owner: w.ent_at(i) })
            &&& w.names@[p.item.id as int] is Some
            &&& p.item.id != w.player_entity.id
            &&& p.item.id != i
            &&& w.drop_intents@[p.item.id as int] is None
            &&& forall|i2: int|
                drops(w, i2) && i2 != i ==> dropped_item(w, i2) != p.item.id as int
        }
}

/// Whether some drop intent in the slots `0 .. k` names item slot `j`.
pub open spec fn item_dropped_before(w: World, j: int, k: int) -> bool {
    exists|i: int| 0 <= i < k && #[trigger] drops(w, i) && dropped_item(w, i) == j
}

/// What the drop in slot `i` writes to the log: only the player announces.
pub open spec fn drop_msg(w: World, i: int) -> Seq<Seq<char>> {
    if drops(w, i) && i == w.player_entity.id as int {
        seq![msg_dropped(w.names@[dropped_item(w, i)]->0.name@)]
    } else {
        Seq::empty()
    }
}

pub open spec fn drop_msgs_up_to(w: World, k: int) -> Seq<Seq<char>>
    decreases k,
{
    if k <= 0 {
        Seq::empty()
    } else {
        drop_msgs_up_to(w, k - 1) + drop_msg(w, k - 1)
    }
}

/// Moves requested items out of backpacks onto the ground at their dropper's
/// feet.
pub struct ItemDropSystem {}

impl ItemDropSystem {
    /// Every requested item loses InBackpack and gains the dropper's current
    /// Position; the player's drops are logged; the intents are cleared;
    /// nothing else changes.
    pub fn run(&self, ecs: &mut World)
        requires
            old(ecs).wf(),
            drop_intents_wf(*old(ecs)),
        ensures
            final(ecs).wf(),
            drop_rel(*old(ecs), *final(ecs)),
    {
        let ghost ow = *old(ecs);
        let n = ecs.gens.len();
        let mut i: usize = 0;
        while i < n
            invariant
                i <= n,
                n == ecs.n(),
                ecs.wf(),
                drop_intents_wf(ow),
                ow == *old(ecs),
                ecs.n() == old(ecs).n(),
                forall|q: int|
                    #[trigger] drops(ow, q) && q < i ==> {
                        &&& ecs.positions@[dropped_item(ow, q)] == old(ecs).positions@[q]
                        &&& ecs.backpacks@[dropped_item(ow, q)] is None
                    },
                forall|j: int|
                    #![trigger item_dropped_before(ow, j, i as int)]
                    0 <= j < old(ecs).n() && !item_dropped_before(ow, j, i as int) ==> {
                        &&& ecs.positions@[j] == old(ecs).positions@[j]
                        &&& ecs.backpacks@[j] == old(ecs).backpacks@[j]
                    },
                log_view(ecs.log) == log_view(old(ecs).log) + drop_msgs_up_to(ow, i as int),
                ecs.gens@ == old(ecs).gens@,
                ecs.alive@ == old(ecs).alive@,
                ecs.renderables@ == old(ecs).renderables@,
                ecs.players@ == old(ecs).players@,
                ecs.monsters@ == old(ecs).monsters@,
                ecs.blockers@ == old(ecs).blockers@,
                ecs.fovs@ == old(ecs).fovs@,
                ecs.names@ == old(ecs).names@,
                ecs.combat_stats@ == old(ecs).combat_stats@,
                ecs.items@ == old(ecs).items@,
                ecs.potions@ == old(ecs).potions@,
                ecs.equippables@ == old(ecs).equippables@,
                ecs.equipped@ == old(ecs).equipped@,
                ecs.attack_intents@ == old(ecs).attack_intents@,
                ecs.pickup_intents@ == old(ecs).pickup_intents@,
                ecs.drink_intents@ == old(ecs).drink_intents@,
                forall|k: int| 0 <= k < i ==> (#[trigger] ecs.drop_intents@[k]) is None,
                forall|k: int|
                    i <= k < ecs.n() ==> #[trigger] ecs.drop_intents@[k] == old(
                        ecs,
                    ).drop_intents@[k],
                ecs.suffer_damage@ == old(ecs).suffer_damage@,
                ecs.doomed@ == old(ecs).doomed@,
                ecs.map == old(ecs).map,
                ecs.player_entity == old(ecs).player_entity,
                ecs.player_pos == old(ecs).player_pos,
                ecs.run_state == old(ecs).run_state,
            decreases n - i,
        {
            let ghost pre = *ecs;
            let intent = if ecs.alive[i] {
                match (&ecs.drop_intents[i], &ecs.positions[i]) {
                    (Option::Some(p), Option::Some(_)) => Some(*p),
                    _ => None,
                }
            } else {
                None
            };
            if let Option::Some(p) = intent {
                proof {
                    let ii0 = i as int;
                    if item_dropped_before(ow, ii0, ii0) {
                        let q = choose|q: int|
                            0 <= q < ii0 && #[trigger] drops(ow, q) && dropped_item(ow, q) == ii0;
                        assert(ow.drop_intents@[q] is Some);
                        assert(ow.drop_intents@[ii0] is None);
                        assert(false);
                    }
                    assert(ecs.positions@[ii0] == old(ecs).positions@[ii0]);
                    assert(drops(ow, ii0));
                    if item_dropped_before(ow, p.item.id as int, ii0) {
                        let q = choose|q: int|
                            0 <= q < ii0 && #[trigger] drops(ow, q) && dropped_item(ow, q)
                                == p.item.id as int;
                        assert(ow.drop_intents@[ii0] is Some);
                        assert(false);
                    }
                }
                let dropper_pos = match &ecs.positions[i] {
                    Option::Some(q) => *q,
                    Option::None => unreached(),
                };
                ecs.positions.set(p.item.id, Some(dropper_pos));
                ecs.backpacks.set(p.item.id, None);
                if i == ecs.player_entity.id {
                    let item_name = match &ecs.names[p.item.id] {
                        Option::Some(nm) => nm.name.clone(),
                        Option::None => unreached(),
                    };
                    let msg = dropped_message(&item_name);
                    ecs.log.push(msg);
                }
            }
            ecs.drop_intents.set(i, None);
            i = i + 1;
            proof {
                let ii = i as int;
                assert forall|q: int|
                    #[trigger] drops(ow, q) && q < ii implies {
                    &&& ecs.positions@[dropped_item(ow, q)] == old(ecs).positions@[q]
                    &&& ecs.backpacks@[dropped_item(ow, q)] is None
                } by {
                    if q < ii - 1 && drops(ow, ii - 1) {
                        assert(ow.drop_intents@[q] is Some);
                        assert(dropped_item(ow, q) != dropped_item(ow, ii - 1));
                    }
                    if q == ii - 1 && intent is None {
                        if item_dropped_before(ow, q, ii - 1) {
                            let q2 = choose|q2: int|
                                0 <= q2 < ii - 1 && #[trigger] drops(ow, q2) && dropped_item(
                                    ow,
                                    q2,
                                ) == q;
                            assert(pre.positions@[q] == old(ecs).positions@[q2]);
                            assert(pre.positions@[q] is Some);
                        } else {
                            assert(pre.positions@[q] == old(ecs).positions@[q]);
                        }
                        assert(false);
                    }
                }
                assert forall|j: int|
                    0 <= j < old(ecs).n() && !item_dropped_before(ow, j, ii) implies {
                    &&& ecs.positions@[j] == old(ecs).positions@[j]
                    &&& ecs.backpacks@[j] == old(ecs).backpacks@[j]
                } by {
                    if item_dropped_before(ow, j, ii - 1) {
                        let q = choose|q: int|
                            0 <= q < ii - 1 && #[trigger] drops(ow, q) && dropped_item(ow, q) == j;
                        assert(0 <= q < ii && drops(ow, q) && dropped_item(ow, q) == j);
                        assert(false);
                    }
                    if drops(ow, ii - 1) && dropped_item(ow, ii - 1) == j {
                        assert(item_dropped_before(ow, j, ii));
                        assert(false);
                    }
                    assert(!item_dropped_before(ow, j, ii - 1));
                }
                assert(log_view(ecs.log) =~= log_view(old(ecs).log) + drop_msgs_up_to(ow, ii));
            }
        }
    }
}

} // verus!
