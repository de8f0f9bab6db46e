use vstd::prelude::*;
use crate::components::{Entity, Position};
use crate::damage_system::{corpse_removal, DamageSystem};
use crate::fov::FovSystem;
use crate::gamelog::log_view;
use crate::gui::MenuSelection;
use crate::inventory_system::{
    drop_intents_wf, drops, item_dropped_before, item_picked_before, pickup_intents_wf, picks,
    ItemCollectionSystem, ItemDropSystem,
};
use crate::map::GameMap;
use crate::map_indexing::MapIndexSystem;
use crate::melee_combat_system::{attack_intents_wf, attacker_ready, MeleeCombatSystem};
use crate::monster_ai_system::MonsterAI;
use crate::player::Command;
use crate::potion_system::{drink_intents_wf, drinks, equips, pot_live, PotionUseSystem};
use crate::world::World;

verus! {

/// The turn/state machine's states. The orchestrator advances them once per
/// tick.
#[derive(PartialEq, Eq, Structural, Copy, Clone, Debug)]
pub enum RunState {
    AwaitingInput,
    PreRun,
    PlayerTurn,
    MonsterTurn,
    ShowInventory,
    ShowDropItem,
    Menu { selection: MenuSelection },
    NextLevel,
}

/// The whole game state: the world and everything in it.
pub struct State {
    pub ecs: World,
}

pub open spec fn no_pickups(w: World) -> bool {
    forall|i: int| 0 <= i < w.n() ==> (#[trigger] w.pickup_intents@[i]) is None
}

pub open spec fn no_drinks(w: World) -> bool {
    forall|i: int| 0 <= i < w.n() ==> (#[trigger] w.drink_intents@[i]) is None
}

pub open spec fn no_drops(w: World) -> bool {
    forall|i: int| 0 <= i < w.n() ==> (#[trigger] w.drop_intents@[i]) is None
}

pub open spec fn no_attacks(w: World) -> bool {
    forall|i: int| 0 <= i < w.n() ==> (#[trigger] w.attack_intents@[i]) is None
}

/// At most one kind of player-issued item intent is pending: the input layer
/// files one request per turn.
pub open spec fn one_intent_kind(w: World) -> bool {
    &&& (no_pickups(w) || (no_drinks(w) && no_drops(w)))
    &&& (no_drinks(w) || no_drops(w))
}

/// All the intent tables are sound for the consuming systems.
pub open spec fn intents_ok(w: World) -> bool {
    &&& attack_intents_wf(w)
    &&& pickup_intents_wf(w)
    &&& drink_intents_wf(w)
    &&& drop_intents_wf(w)
    &&& one_intent_kind(w)
}

/// The consuming systems only need these tables to judge attack intents.
proof fn lemma_attack_wf_frame(a: World, b: World)
    requires
        attack_intents_wf(a),
        b.n() == a.n(),
        b.gens@ == a.gens@,
        b.alive@ == a.alive@,
        b.attack_intents@ == a.attack_intents@,
        b.names@ == a.names@,
        b.combat_stats@ == a.combat_stats@,
    ensures
        attack_intents_wf(b),
{
    assert forall|i: int| attacker_ready(b, i) implies {
        let t = (#[trigger] b.attack_intents@[i])->0.target;
        &&& b.valid(t)
        &&& b.combat_stats@[t.id as int] is Some
        &&& b.names@[t.id as int] is Some
    } by {
        assert(attacker_ready(a, i));
        assert(a.attack_intents@[i] == b.attack_intents@[i]);
    }
}

/// The pickup system only needs these tables (and position someness) to judge
/// pickup intents.
proof fn lemma_pickup_wf_frame(a: World, b: World)
    requires
        pickup_intents_wf(a),
        b.n() == a.n(),
        b.gens@ == a.gens@,
        b.alive@ == a.alive@,
        b.pickup_intents@ == a.pickup_intents@,
        b.items@ == a.items@,
        b.names@ == a.names@,
        b.player_entity == a.player_entity,
        forall|i: int|
            0 <= i < a.n() ==> ((#[trigger] b.positions@[i]) is Some <==> a.positions@[i] is Some),
    ensures
        pickup_intents_wf(b),
{
    assert forall|i: int| picks(b, i) implies {
        let p = (#[trigger] b.pickup_intents@[i])->0;
        &&& b.valid(p.item)
        &&& b.items@[p.item.id as int]
        &&& b.positions@[p.item.id as int] is Some
        &&& b.names@[p.item.id as int] is Some
        &&& p.item.id != b.player_entity.id
        &&& forall|i2: int|
            picks(b, i2) && i2 != i ==> crate::inventory_system::picked_item(b, i2)
                != p.item.id as int
    } by {
        assert(picks(a, i));
        assert(a.pickup_intents@[i] == b.pickup_intents@[i]);
        assert forall|i2: int|
            picks(b, i2) && i2 != i implies crate::inventory_system::picked_item(b, i2) != (
        b.pickup_intents@[i])->0.item.id as int by {
            assert(picks(a, i2));
        }
    }
}

/// Every potion queued for destruction this turn is an item, never the
/// player.
proof fn lemma_doom_adds_not_player(w: World, k: int)
    requires
        drink_intents_wf(w),
        k <= w.n(),
    ensures
        forall|j: int|
            0 <= j < crate::potion_system::doom_adds(w, k).len() ==> (
            #[trigger] crate::potion_system::doom_adds(w, k)[j]).id != w.player_entity.id,
    decreases k,
{
    if k > 0 {
        lemma_doom_adds_not_player(w, k - 1);
        if pot_live(w, k - 1) {
            assert(w.valid(crate::potion_system::pot_of(w, k - 1)));
            assert(crate::potion_system::pot_of(w, k - 1).id != w.player_entity.id);
        }
        let prefix = crate::potion_system::doom_adds(w, k - 1);
        assert forall|j: int|
            0 <= j < crate::potion_system::doom_adds(w, k).len() implies (
        #[trigger] crate::potion_system::doom_adds(w, k)[j]).id != w.player_entity.id by {
            if j < prefix.len() {
                assert(crate::potion_system::doom_adds(w, k)[j] == prefix[j]);
            } else {
                assert(crate::potion_system::doom_adds(w, k)[j] == crate::potion_system::pot_of(
                    w,
                    k - 1,
                ));
            }
        }
    }
}

/// The player's hit points are spent: the game-over condition the corpse
/// sweep reports.
pub open spec fn player_down(w: World) -> bool {
    w.combat_stats@[w.player_entity.id as int] matches Some(s) && s.hp < 1
}

/// The §state-machine transition table: where one tick takes the machine
/// from each state on each decoded key (before the game-over check).
pub open spec fn next_state(w: World, cmd: Command) -> RunState {
    match w.run_state {
        RunState::PreRun => RunState::AwaitingInput,
        RunState::PlayerTurn => RunState::MonsterTurn,
        RunState::MonsterTurn => RunState::AwaitingInput,
        RunState::NextLevel => RunState::PreRun,
        RunState::AwaitingInput => awaiting_target(w, cmd),
        RunState::ShowInventory => menu_pick_target(w, cmd),
        RunState::ShowDropItem => menu_pick_target(w, cmd),
        RunState::Menu { selection } => menu_target(selection, cmd),
    }
}

pub open spec fn awaiting_target(w: World, cmd: Command) -> RunState {
    match cmd {
        Command::Move { .. } => RunState::PlayerTurn,
        Command::SkipTurn => RunState::PlayerTurn,
        Command::Pickup => RunState::AwaitingInput,
        Command::ShowInventory => RunState::ShowInventory,
        Command::ShowDropItem => RunState::ShowDropItem,
        Command::Descend => if crate::player::on_stairs(w) {
            RunState::NextLevel
        } else {
            RunState::AwaitingInput
        },
        _ => RunState::AwaitingInput,
    }
}

pub open spec fn menu_pick_target(w: World, cmd: Command) -> RunState {
    match cmd {
        Command::Cancel => RunState::AwaitingInput,
        Command::Select { idx } => if idx < crate::gui::pack_list(w, w.n()).len() {
            RunState::PlayerTurn
        } else {
            w.run_state
        },
        _ => w.run_state,
    }
}

pub open spec fn menu_target(selection: MenuSelection, cmd: Command) -> RunState {
    match cmd {
        Command::Confirm => RunState::PreRun,
        Command::MenuUp => RunState::Menu {
            selection: (if selection == MenuSelection::NewGame {
                MenuSelection::Quit
            } else {
                MenuSelection::NewGame
            }),
        },
        Command::MenuDown => RunState::Menu {
            selection: (if selection == MenuSelection::NewGame {
                MenuSelection::Quit
            } else {
                MenuSelection::NewGame
            }),
        },
        Command::Cancel => RunState::Menu { selection: MenuSelection::Quit },
        _ => RunState::Menu { selection },
    }
}

impl State {
    /// Runs the fixed per-turn pipeline, in order: visibility, monster
    /// decisions, spatial indexing, melee resolution, damage application,
    /// pickups, consumption/equipping, drops — then commits queued
    /// destructions.
    ///
    /// All intent tables are drained; the grid itself (tiles, rooms, size,
    /// depth) and the player handle survive; the log only grows; already
    /// revealed tiles stay revealed.
    pub fn run_systems(&mut self) -> (trace: Ghost<
        (World, World, World, World, World, World, World, World),
    >)
        requires
            old(self).ecs.wf(),
            old(self).ecs.doomed@.len() == 0,
            intents_ok(old(self).ecs),
        ensures
            final(self).ecs.wf(),
            final(self).ecs.n() == old(self).ecs.n(),
            no_attacks(final(self).ecs),
            no_pickups(final(self).ecs),
            no_drinks(final(self).ecs),
            no_drops(final(self).ecs),
            intents_ok(final(self).ecs),
            final(self).ecs.doomed@.len() == 0,
            final(self).ecs.map.tiles@ == old(self).ecs.map.tiles@,
            final(self).ecs.map.rooms@ == old(self).ecs.map.rooms@,
            final(self).ecs.map.width == old(self).ecs.map.width,
            final(self).ecs.map.height == old(self).ecs.map.height,
            final(self).ecs.map.depth == old(self).ecs.map.depth,
            forall|idx: int|
                0 <= idx < old(self).ecs.map.tiles@.len() && old(self).ecs.map.revealed_tiles@[idx]
                    ==> #[trigger] final(self).ecs.map.revealed_tiles@[idx],
            log_view(old(self).ecs.log).is_prefix_of(log_view(final(self).ecs.log)),
            final(self).ecs.player_entity == old(self).ecs.player_entity,
            final(self).ecs.run_state == old(self).ecs.run_state,
            // the pipeline's own content: the final world is reached from the
            // initial one by the eight passes in their fixed order, then the
            // destruction commit
            crate::fov::fov_rel(old(self).ecs, trace@.0),
            crate::monster_ai_system::ai_rel(trace@.0, trace@.1),
            crate::map_indexing::index_rel(trace@.1, trace@.2),
            crate::melee_combat_system::melee_rel(trace@.2, trace@.3),
            crate::damage_system::damage_rel(trace@.3, trace@.4),
            crate::inventory_system::pickup_rel(trace@.4, trace@.5),
            crate::potion_system::drink_rel(trace@.5, trace@.6),
            crate::inventory_system::drop_rel(trace@.6, trace@.7),
            crate::world::maintain_rel(trace@.7, final(self).ecs),
    {
        let ghost w0 = old(self).ecs;
        let fov = FovSystem {  };
        fov.run(&mut self.ecs);
        let ghost w1 = self.ecs;
        proof {
            lemma_attack_wf_frame(w0, w1);
        }
        let mob = MonsterAI {  };
        mob.run(&mut self.ecs);
        let ghost w2 = self.ecs;
        let mapidx = MapIndexSystem {  };
        mapidx.run(&mut self.ecs);
        let ghost w3 = self.ecs;
        proof {
            lemma_attack_wf_frame(w2, w3);
        }
        let melee = MeleeCombatSystem {  };
        melee.run(&mut self.ecs);
        let ghost w4 = self.ecs;
        let damage = DamageSystem {  };
        damage.run(&mut self.ecs);
        let ghost w5 = self.ecs;
        proof {
            assert forall|i: int|
                0 <= i < w0.n() implies ((#[trigger] w5.positions@[i]) is Some <==> w0.positions@[
                i
            ] is Some) by {}
            lemma_pickup_wf_frame(w0, w5);
        }
        let pickup = ItemCollectionSystem {  };
        pickup.run(&mut self.ecs);
        let ghost w6 = self.ecs;
        proof {
            // consuming and dropping never race a pickup of the same item:
            // at most one intent kind is pending this turn
            if !no_drinks(w0) {
                assert(no_pickups(w0));
                assert forall|j: int|
                    #![trigger w6.backpacks@[j]]
                    0 <= j < w6.n() implies w6.backpacks@[j] == w5.backpacks@[j]
                        && w6.equipped@[j] == w5.equipped@[j] by {
                    if item_picked_before(w5, j, w5.n() as int) {
                        let q = choose|q: int|
                            0 <= q < w5.n() && #[trigger] picks(w5, q)
                                && crate::inventory_system::picked_item(w5, q) == j;
                        assert(w5.pickup_intents@[q] is Some);
                        assert(w0.pickup_intents@[q] is None);
                        assert(false);
                    }
                }
                assert forall|i: int| drinks(w6, i) && w6.valid(#[trigger] crate::potion_system::pot_of(w6, i)) implies {
                    let p = crate::potion_system::pot_of(w6, i).id as int;
                    &&& w6.names@[p] is Some
                    &&& p != w6.player_entity.id as int
                    &&& (w6.equippables@[p] is Some ==> {
                        &&& w6.backpacks@[p] == Some(
                            crate::components::InBackpack { owner: w6.ent_at(i) },
                        )
                        &&& w6.items@[p]
                        &&& p != i
                    })
                } by {
                    assert(w6.drink_intents@[i] == w0.drink_intents@[i]);
                    assert(w6.combat_stats@[i] == crate::damage_system::stats_after_damage(
                        w4.combat_stats@[i],
                        crate::melee_combat_system::damage_amounts(w4.suffer_damage@[i]),
                    ));
                    assert(drinks(w0, i));
                    let p = crate::potion_system::pot_of(w0, i).id as int;
                    assert(crate::potion_system::pot_of(w0, i) == crate::potion_system::pot_of(
                        w6,
                        i,
                    ));
                    assert(w0.valid(crate::potion_system::pot_of(w0, i)));
                    assert(w6.backpacks@[p] == w5.backpacks@[p]);
                }
                assert forall|i1: int, i2: int|
                    drinks(w6, i1) && drinks(w6, i2) && i1 != i2 implies (
                #[trigger] crate::potion_system::pot_of(w6, i1)).id != (
                #[trigger] crate::potion_system::pot_of(w6, i2)).id by {
                    assert(w6.drink_intents@[i1] == w0.drink_intents@[i1]);
                    assert(w6.drink_intents@[i2] == w0.drink_intents@[i2]);
                    assert(w6.combat_stats@[i1] == crate::damage_system::stats_after_damage(
                        w4.combat_stats@[i1],
                        crate::melee_combat_system::damage_amounts(w4.suffer_damage@[i1]),
                    ));
                    assert(w6.combat_stats@[i2] == crate::damage_system::stats_after_damage(
                        w4.combat_stats@[i2],
                        crate::melee_combat_system::damage_amounts(w4.suffer_damage@[i2]),
                    ));
                    assert(drinks(w0, i1) && drinks(w0, i2));
                    assert((crate::potion_system::pot_of(w0, i1)).id != (
                    crate::potion_system::pot_of(w0, i2)).id);
                    assert(crate::potion_system::pot_of(w0, i1) == crate::potion_system::pot_of(
                        w6,
                        i1,
                    ));
                    assert(crate::potion_system::pot_of(w0, i2) == crate::potion_system::pot_of(
                        w6,
                        i2,
                    ));
                }
            }
            assert forall|j: int|
                0 <= j < w6.n() && (#[trigger] w6.equipped@[j]) is Some implies w6.names@[j] is Some by {}
            assert(drink_intents_wf(w6));
        }
        let potions = PotionUseSystem {  };
        potions.run(&mut self.ecs);
        let ghost w7 = self.ecs;
        proof {
            if !no_drops(w0) {
                assert(no_pickups(w0) && no_drinks(w0));
                // with no pickups and no drinks pending, neither system moved
                // anything between ground, backpacks and bodies
                assert forall|j: int|
                    #![trigger w7.backpacks@[j]]
                    #![trigger w7.positions@[j]]
                    0 <= j < w7.n() implies w7.backpacks@[j] == w5.backpacks@[j]
                        && w7.positions@[j] == w5.positions@[j] by {
                    if item_picked_before(w5, j, w5.n() as int) {
                        let q = choose|q: int|
                            0 <= q < w5.n() && #[trigger] picks(w5, q)
                                && crate::inventory_system::picked_item(w5, q) == j;
                        assert(w5.pickup_intents@[q] is Some);
                        assert(w0.pickup_intents@[q] is None);
                        assert(false);
                    }
                    if crate::potion_system::equip_target_before(w6, j, w6.n() as int) {
                        let q = choose|q: int|
                            0 <= q < w6.n() && #[trigger] equips(w6, q)
                                && crate::potion_system::pot_of(w6, q).id == j;
                        assert(w6.drink_intents@[q] is Some);
                        assert(w0.drink_intents@[q] is None);
                        assert(false);
                    }
                    if crate::potion_system::unequip_target_before(w6, j, w6.n() as int) {
                        let q = choose|q: int|
                            0 <= q < w6.n() && #[trigger] equips(w6, q) && 0 <= j < w6.n()
                                && w6.equipped@[j] == Some(
                                crate::components::Equipped {
                                    owner: w6.ent_at(q),
                                    slot: crate::potion_system::slot_of(w6, q),
                                },
                            ) && j != crate::potion_system::pot_of(w6, q).id;
                        assert(w6.drink_intents@[q] is Some);
                        assert(w0.drink_intents@[q] is None);
                        assert(false);
                    }
                }
                assert forall|i: int|
                    0 <= i < w7.n() && w7.alive@[i] && (#[trigger] w7.drop_intents@[i]) is Some implies w7.positions@[
                    i
                ] is Some by {
                    assert(w7.drop_intents@[i] == w0.drop_intents@[i]);
                    assert(w7.backpacks@[i] == w5.backpacks@[i] && w7.positions@[i]
                        == w5.positions@[i]);
                    assert(w5.positions@[i] is Some <==> w0.positions@[i] is Some);
                }
                assert forall|i: int| drops(w7, i) implies {
                    let p = (#[trigger] w7.drop_intents@[i])->0;
                    &&& w7.valid(p.item)
                    &&& w7.items@[p.item.id as int]
                    &&& w7.backpacks@[p.item.id as int] == Some(
                        crate::components::InBackpack { owner: w7.ent_at(i) },
                    )
                    &&& w7.names@[p.item.id as int] is Some
                    &&& p.item.id != w7.player_entity.id
                    &&& p.item.id != i
                    &&& w7.drop_intents@[p.item.id as int] is None
                    &&& forall|i2: int|
                        drops(w7, i2) && i2 != i ==> crate::inventory_system::dropped_item(w7, i2)
                            != p.item.id as int
                } by {
                    assert(w7.drop_intents@[i] == w0.drop_intents@[i]);
                    assert(w7.backpacks@[i] == w5.backpacks@[i] && w7.positions@[i]
                        == w5.positions@[i]);
                    assert(w5.positions@[i] is Some <==> w0.positions@[i] is Some);
                    assert(drops(w0, i));
                    let p = (w0.drop_intents@[i])->0;
                    assert(w0.valid(p.item) && w0.items@[p.item.id as int]);
                    assert(w7.backpacks@[p.item.id as int] == w5.backpacks@[p.item.id as int]);
                    assert(w7.drop_intents@[p.item.id as int] == w0.drop_intents@[
                        p.item.id as int
                    ]);
                    assert(w7.ent_at(i) == w0.ent_at(i));
                    assert forall|i2: int|
                        drops(w7, i2) && i2 != i implies crate::inventory_system::dropped_item(
                        w7,
                        i2,
                    ) != (w7.drop_intents@[i])->0.item.id as int by {
                        assert(w7.drop_intents@[i2] == w0.drop_intents@[i2]);
                        assert(w7.backpacks@[i2] == w5.backpacks@[i2] && w7.positions@[i2]
                            == w5.positions@[i2]);
                        assert(w5.positions@[i2] is Some <==> w0.positions@[i2] is Some);
                        assert(drops(w0, i2));
                        assert(crate::inventory_system::dropped_item(w0, i2)
                            != crate::inventory_system::dropped_item(w0, i));
                    }
                }
            }
            assert(drop_intents_wf(w7));
        }
        let drop_items = ItemDropSystem {  };
        drop_items.run(&mut self.ecs);
        let ghost w7d = self.ecs;
        self.ecs.maintain();
        let ghost w8 = self.ecs;
        proof {
            crate::gamelog::lemma_log_prefix_concat(
                log_view(w3.log),
                crate::melee_combat_system::attack_msgs_up_to(w3, w3.n()),
            );
            assert(log_view(w3.log).is_prefix_of(log_view(w4.log)));
            crate::gamelog::lemma_log_prefix_concat(
                log_view(w5.log),
                crate::inventory_system::pickup_msgs_up_to(w5, w5.n()),
            );
            assert(log_view(w5.log).is_prefix_of(log_view(w6.log)));
            crate::gamelog::lemma_log_prefix_concat(
                log_view(w7.log),
                crate::inventory_system::drop_msgs_up_to(w7, w7.n()),
            );
            assert(log_view(w7.log).is_prefix_of(log_view(w8.log)));
            crate::gamelog::lemma_log_prefix_trans(
                log_view(w0.log),
                log_view(w4.log),
                log_view(w6.log),
            );
            crate::gamelog::lemma_log_prefix_trans(
                log_view(w0.log),
                log_view(w6.log),
                log_view(w7.log),
            );
            crate::gamelog::lemma_log_prefix_trans(
                log_view(w0.log),
                log_view(w7.log),
                log_view(w8.log),
            );
            // the player's slot is never queued for destruction: only potions are
            if crate::world::World::doomed_hits(
                w7d.doomed@,
                w7d.gens@,
                w7d.alive@,
                w7d.doomed@.len() as int,
                w7d.player_entity.id as int,
            ) {
                let j = choose|j: int|
                    0 <= j < w7d.doomed@.len() && (#[trigger] w7d.doomed@[j]).id
                        == w7d.player_entity.id as int && w7d.doomed@[j].gen == w7d.gens@[
                        w7d.player_entity.id as int
                    ] && w7d.alive@[w7d.player_entity.id as int];
                assert(w7d.doomed@ == w0.doomed@ + crate::potion_system::doom_adds(w6, w6.n()));
                assert(w7d.doomed@[j] == crate::potion_system::doom_adds(w6, w6.n())[j]);
                lemma_doom_adds_not_player(w6, w6.n() as int);
                assert(false);
            }
            assert(w8.slot_eq(w7d, w7d.player_entity.id as int));
            crate::world::lemma_wf_pointwise(w7d, w8);
            assert forall|i: int|
                0 <= i < w8.n() implies w8.slot_cleared(i) || #[trigger] w8.slot_eq(w7d, i) by {
                if crate::world::World::doomed_hits(
                    w7d.doomed@,
                    w7d.gens@,
                    w7d.alive@,
                    w7d.doomed@.len() as int,
                    i,
                ) {
                    assert(w8.slot_cleared(i));
                } else {
                    assert(w8.slot_eq(w7d, i));
                }
            }
            assert forall|i: int|
                0 <= i < w8.n() implies (#[trigger] w8.attack_intents@[i]) is None by {
                assert(w8.slot_cleared(i) || w8.slot_eq(w7d, i));
            }
            assert forall|i: int|
                0 <= i < w8.n() implies (#[trigger] w8.pickup_intents@[i]) is None by {
                assert(w8.slot_cleared(i) || w8.slot_eq(w7d, i));
                assert(w7d.pickup_intents@[i] == w6.pickup_intents@[i]);
            }
            assert forall|i: int|
                0 <= i < w8.n() implies (#[trigger] w8.drink_intents@[i]) is None by {
                assert(w8.slot_cleared(i) || w8.slot_eq(w7d, i));
                assert(w7d.drink_intents@[i] == w7.drink_intents@[i]);
            }
            assert forall|i: int|
                0 <= i < w8.n() implies (#[trigger] w8.drop_intents@[i]) is None by {
                assert(w8.slot_cleared(i) || w8.slot_eq(w7d, i));
            }
            assert forall|i: int| attacker_ready(w8, i) implies false by {
                assert(w8.attack_intents@[i] is None);
            }
            assert(attack_intents_wf(w8));
            assert forall|i: int| picks(w8, i) implies false by {
                assert(w8.pickup_intents@[i] is None);
            }
            assert(pickup_intents_wf(w8));
            assert forall|i: int| drinks(w8, i) implies false by {
                assert(w8.drink_intents@[i] is None);
            }
            assert forall|j: int|
                0 <= j < w8.n() && (#[trigger] w8.equipped@[j]) is Some implies w8.names@[j] is Some by {
                assert(w8.slot_cleared(j) || w8.slot_eq(w7d, j));
                if w8.slot_eq(w7d, j) {
                    assert(w7d.equipped@[j] == w7.equipped@[j] && w7d.names@[j] == w7.names@[j]);
                    if crate::potion_system::equip_target_before(w6, j, w6.n() as int) {
                        let q = choose|q: int|
                            0 <= q < w6.n() && #[trigger] equips(w6, q)
                                && crate::potion_system::pot_of(w6, q).id == j;
                        assert(w6.names@[j] is Some);
                    } else if crate::potion_system::unequip_target_before(w6, j, w6.n() as int) {
                        assert(w7.equipped@[j] is None);
                    } else {
                        assert(w7.equipped@[j] == w6.equipped@[j] && w7.backpacks@[j]
                            == w6.backpacks@[j]);
                    }
                }
            }
            assert(drink_intents_wf(w8));
            assert forall|i: int| drops(w8, i) implies false by {
                assert(w8.drop_intents@[i] is None);
            }
            assert(drop_intents_wf(w8));
        }
        Ghost((w1, w2, w3, w4, w5, w6, w7, w7d))
    }

    /// Everything except the player and the player's backpack is marked for
    /// deletion at a level change.
    pub fn clean_level_change(&self) -> (r: Vec<Entity>)
        requires
            self.ecs.wf(),
        ensures
            forall|k: int|
                0 <= k < r@.len() ==> {
                    let e = #[trigger] r@[k];
                    &&& self.ecs.valid(e)
                    &&& e.id != self.ecs.player_entity.id
                    &&& !(self.ecs.backpacks@[e.id as int] matches Some(b) && b.owner
                        == self.ecs.player_entity)
                },
            forall|i: int|
                #![trigger self.ecs.ent_at(i)]
                0 <= i < self.ecs.n() && self.ecs.alive@[i] && i
                    != self.ecs.player_entity.id as int && !(self.ecs.backpacks@[i] matches Some(b)
                    && b.owner == self.ecs.player_entity) ==> exists|k: int|
                    0 <= k < r@.len() && (#[trigger] r@[k]) == self.ecs.ent_at(i),
    {
        let n = self.ecs.gens.len();
        let mut to_delete: Vec<Entity> = Vec::new();
        let mut i: usize = 0;
        while i < n
            invariant
                i <= n,
                n == self.ecs.n(),
                self.ecs.wf(),
                forall|k: int|
                    0 <= k < to_delete@.len() ==> {
                        let e = #[trigger] to_delete@[k];
                        &&& self.ecs.valid(e)
                        &&& e.id != self.ecs.player_entity.id
                        &&& !(self.ecs.backpacks@[e.id as int] matches Some(b) && b.owner
                            == self.ecs.player_entity)
                    },
                forall|q: int|
                    0 <= q < i && self.ecs.alive@[q] && q != self.ecs.player_entity.id as int && !(
                    self.ecs.backpacks@[q] matches Some(b) && b.owner
                        == self.ecs.player_entity) ==> exists|k: int|
                        0 <= k < to_delete@.len() && (#[trigger] to_delete@[k]) == self.ecs.ent_at(
                            q,
                        ),
            decreases n - i,
        {
            let ghost pre = to_delete@;
            if self.ecs.alive[i] && i != self.ecs.player_entity.id {
                let keep = match &self.ecs.backpacks[i] {
                    Option::Some(b) => b.owner == self.ecs.player_entity,
                    Option::None => false,
                };
                if !keep {
                    let e = Entity { id: i, gen: self.ecs.gens[i] };
                    to_delete.push(e);
                }
            }
            proof {
                assert forall|q: int|
                    0 <= q < i + 1 && self.ecs.alive@[q] && q != self.ecs.player_entity.id as int
                        && !(self.ecs.backpacks@[q] matches Some(b) && b.owner
                        == self.ecs.player_entity) implies exists|k: int|
                        0 <= k < to_delete@.len() && (#[trigger] to_delete@[k]) == self.ecs.ent_at(
                            q,
                        ) by {
                    if q < i {
                        let k = choose|k: int|
                            0 <= k < pre.len() && (#[trigger] pre[k]) == self.ecs.ent_at(q);
                        assert(to_delete@[k] == self.ecs.ent_at(q));
                    } else {
                        assert(to_delete@[to_delete@.len() - 1] == self.ecs.ent_at(q));
                    }
                }
            }
            i = i + 1;
        }
        to_delete
    }

    /// The level transition: everything but the player and the player's
    /// backpack is destroyed, the freshly generated deeper grid is installed,
    /// its rooms (beyond the first, where the player lands) are populated,
    /// the player moves to the first room's center with its sight marked for
    /// recomputation, and the descent is logged.
    pub fn next_level(&mut self, new_map: GameMap)
        requires
            old(self).ecs.wf(),
            old(self).ecs.doomed@.len() == 0,
            forall|i: int|
                0 <= i < old(self).ecs.n() && old(self).ecs.alive@[i] && (#[trigger] old(
                    self,
                ).ecs.backpacks@[i]) is Some ==> old(self).ecs.positions@[i] is None,
            forall|i: int|
                0 <= i < old(self).ecs.n() && (#[trigger] old(self).ecs.positions@[i]) is Some
                    ==> old(self).ecs.alive@[i],
            new_map.wf(),
            new_map.rooms@.len() >= 1,
            new_map.depth == old(self).ecs.map.depth + 1,
        ensures
            final(self).ecs.wf(),
            final(self).ecs.map.tiles@ == new_map.tiles@,
            final(self).ecs.map.depth == old(self).ecs.map.depth + 1,
            final(self).ecs.player_entity == old(self).ecs.player_entity,
            // the player survives with stats and backpack intact
            final(self).ecs.valid(final(self).ecs.player_entity),
            final(self).ecs.combat_stats@[old(self).ecs.player_entity.id as int] == old(
                self,
            ).ecs.combat_stats@[old(self).ecs.player_entity.id as int],
            // every entity that is neither the player nor carried by the
            // player is gone; the carried ones survive untouched
            forall|i: int|
                0 <= i < old(self).ecs.n() && old(self).ecs.alive@[i] && i != old(
                    self,
                ).ecs.player_entity.id as int && !(old(self).ecs.backpacks@[i] matches Some(b)
                    && b.owner == old(self).ecs.player_entity)
                    ==> #[trigger] final(self).ecs.slot_cleared(i),
            forall|i: int|
                0 <= i < old(self).ecs.n() && old(self).ecs.alive@[i] && (old(
                    self,
                ).ecs.backpacks@[i] matches Some(b) && b.owner == old(self).ecs.player_entity)
                    ==> #[trigger] final(self).ecs.backpacks@[i] == old(self).ecs.backpacks@[i]
                    && final(self).ecs.alive@[i] && final(self).ecs.names@[i]
                    == old(self).ecs.names@[i],
            // the player lands at the first room's center, eyes open, and the
            // descent is the one new log line
            final(self).ecs.player_pos == (Position {
                x: ((new_map.rooms@[0].x1 + new_map.rooms@[0].x2) / 2) as i32,
                y: ((new_map.rooms@[0].y1 + new_map.rooms@[0].y2) / 2) as i32,
            }),
            final(self).ecs.positions@[old(self).ecs.player_entity.id as int] == Some(
                final(self).ecs.player_pos,
            ),
            final(self).ecs.fovs@[old(self).ecs.player_entity.id as int] matches Some(f)
                && f.dirty,
            log_view(final(self).ecs.log) =~= log_view(old(self).ecs.log).push("You descend."@),
            // everything born on the new level is a spawned monster or ground
            // item standing inside one of the deeper rooms past the first
            forall|i: int|
                old(self).ecs.n() <= i < final(self).ecs.n()
                    ==> crate::spawner::monster_arch(final(self).ecs, i)
                    || crate::spawner::item_arch(final(self).ecs, i),
            forall|i: int|
                #![trigger final(self).ecs.positions@[i]]
                old(self).ecs.n() <= i < final(self).ecs.n() ==> exists|r: int|
                    #![trigger new_map.rooms@[r]]
                    1 <= r < new_map.rooms@.len() && (final(self).ecs.positions@[i] matches Some(
                        pp,
                    ) && new_map.rooms@[r].x1 < pp.x <= new_map.rooms@[r].x2
                        && new_map.rooms@[r].y1 < pp.y <= new_map.rooms@[r].y2),
            log_view(old(self).ecs.log).is_prefix_of(log_view(final(self).ecs.log)),
    {
        let ghost w0 = old(self).ecs;
        let n0 = self.ecs.gens.len();
        proof {
            assert(w0.n() == n0 as int);
        }
        let to_delete = self.clean_level_change();
        let m = to_delete.len();
        let mut k: usize = 0;
        while k < m
            invariant
                k <= m,
                m == to_delete@.len(),
                self.ecs.wf(),
                self.ecs == (World { doomed: self.ecs.doomed, ..w0 }),
                self.ecs.doomed@ == w0.doomed@ + to_delete@.subrange(0, k as int),
            decreases m - k,
        {
            let e = to_delete[k];
            self.ecs.doomed.push(e);
            proof {
                assert(self.ecs.doomed@ =~= w0.doomed@ + to_delete@.subrange(0, k as int + 1));
            }
            k = k + 1;
        }
        proof {
            assert(to_delete@.subrange(0, m as int) =~= to_delete@);
        }
        let ghost pre_m = self.ecs;
        self.ecs.maintain();
        let ghost w1 = self.ecs;
        proof {
            // the player was never queued, so it survives the commit
            assert(pre_m.doomed@ == w0.doomed@ + to_delete@);
            if crate::world::World::doomed_hits(
                w0.doomed@ + to_delete@,
                w0.gens@,
                w0.alive@,
                (w0.doomed@ + to_delete@).len() as int,
                w0.player_entity.id as int,
            ) {
                let j = choose|j: int|
                    0 <= j < (w0.doomed@ + to_delete@).len() && (#[trigger] (w0.doomed@
                        + to_delete@)[j]).id == w0.player_entity.id as int && (w0.doomed@
                        + to_delete@)[j].gen == w0.gens@[w0.player_entity.id as int] && w0.alive@[
                        w0.player_entity.id as int
                    ];
                assert((w0.doomed@ + to_delete@)[j] == to_delete@[j - w0.doomed@.len()]);
                assert(false);
            }
            assert(w1.slot_eq(pre_m, w0.player_entity.id as int));
            assert(w1.slot_eq(w0, w0.player_entity.id as int));
        }
        // install the deeper grid; the player lands at the center of the first
        // room, eyes open
        self.ecs.map = new_map;
        let first = self.ecs.map.rooms[0];
        let (px, py) = first.center();
        let pid = self.ecs.player_entity.id;
        self.ecs.positions.set(pid, Some(crate::components::Position { x: px, y: py }));
        self.ecs.player_pos = crate::components::Position { x: px, y: py };
        let (vis, range) = match &self.ecs.fovs[pid] {
            Option::Some(f) => (crate::player::copy_tiles(&f.visible_tiles), f.range),
            Option::None => unreached(),
        };
        self.ecs.fovs.set(
            pid,
            Some(crate::components::Fov { visible_tiles: vis, range, dirty: true }),
        );
        let ghost w2 = self.ecs;
        proof {
            let pidi = pid as int;
            assert forall|i: int|
                0 <= i < w2.n() && i != pidi implies #[trigger] w2.slot_eq(w1, i) by {}
            assert forall|i: int|
                0 <= i < w1.n() implies w1.slot_cleared(i) || #[trigger] w1.slot_eq(w0, i) by {
                if crate::world::World::doomed_hits(
                    pre_m.doomed@,
                    pre_m.gens@,
                    pre_m.alive@,
                    pre_m.doomed@.len() as int,
                    i,
                ) {
                    assert(w1.slot_cleared(i));
                } else {
                    assert(w1.slot_eq(pre_m, i));
                }
            }
            assert forall|i: int|
                0 <= i < w2.n() implies (#[trigger] w2.combat_stats@[i] matches Some(s2)
                ==> s2.valid()) by {
                if i != pidi {
                    assert(w2.slot_eq(w1, i));
                    assert(w1.slot_cleared(i) || w1.slot_eq(w0, i));
                }
            }
            assert forall|i: int|
                0 <= i < w2.n() implies (#[trigger] w2.potions@[i] matches Some(p2) ==> 0
                <= p2.heal_amount <= crate::components::MAX_STAT) by {
                if i != pidi {
                    assert(w2.slot_eq(w1, i));
                    assert(w1.slot_cleared(i) || w1.slot_eq(w0, i));
                }
            }
            assert forall|i: int|
                0 <= i < w2.n() implies (#[trigger] w2.suffer_damage@[i] matches Some(d2)
                ==> forall|k2: int|
                    0 <= k2 < d2.amounts@.len() ==> 0 <= #[trigger] d2.amounts@[k2]
                        <= crate::components::MAX_STAT) by {
                if i != pidi {
                    assert(w2.slot_eq(w1, i));
                    assert(w1.slot_cleared(i) || w1.slot_eq(w0, i));
                }
            }
            assert forall|i: int|
                0 <= i < w2.n() implies (#[trigger] w2.positions@[i] matches Some(p2)
                ==> w2.map.in_bounds(p2.x as int, p2.y as int)) by {
                if i != pidi {
                    assert(w2.slot_eq(w1, i));
                    assert(w1.slot_cleared(i) || w1.slot_eq(w0, i));
                    if !w1.slot_cleared(i) && w2.positions@[i] is Some {
                        // a survivor with a position would have to be carried,
                        // which the caller rules out
                        assert(w0.positions@[i] is Some);
                        assert(old(self).ecs.positions@[i] == w0.positions@[i]);
                        assert(old(self).ecs.alive@[i] && w0.alive@[i]);
                        assert(old(self).ecs.backpacks@[i] == w0.backpacks@[i]);
                        assert(w0.backpacks@[i] is None);
                        assert(old(self).ecs.ent_at(i) == w0.ent_at(i));
                        assert(exists|k: int|
                            0 <= k < to_delete@.len() && (#[trigger] to_delete@[k]) == old(
                                self,
                            ).ecs.ent_at(i));
                        let k = choose|k: int|
                            0 <= k < to_delete@.len() && (#[trigger] to_delete@[k]) == w0.ent_at(
                                i,
                            );
                        assert((w0.doomed@ + to_delete@)[w0.doomed@.len() + k] == w0.ent_at(i));
                        assert(pre_m.doomed@ == w0.doomed@ + to_delete@);
                        assert(pre_m.doomed@[w0.doomed@.len() + k] == w0.ent_at(i));
                        assert(pre_m.gens@ == w0.gens@ && pre_m.alive@ == w0.alive@);
                        assert(0 <= i < n0 as int && (i as usize) as int == i);
                        assert((pre_m.doomed@[w0.doomed@.len() + k]).id == i && (pre_m.doomed@[
                            w0.doomed@.len() + k
                        ]).gen == pre_m.gens@[i]);
                        assert(crate::world::World::doomed_hits(
                            pre_m.doomed@,
                            pre_m.gens@,
                            pre_m.alive@,
                            pre_m.doomed@.len() as int,
                            i,
                        ));
                        assert(w1.slot_cleared(i));
                        assert(false);
                    }
                }
            }
            assert forall|i: int|
                0 <= i < w2.n() && #[trigger] w2.items@[i] implies {
                &&& !(w2.positions@[i] is Some && w2.backpacks@[i] is Some)
                &&& !(w2.positions@[i] is Some && w2.equipped@[i] is Some)
                &&& !(w2.backpacks@[i] is Some && w2.equipped@[i] is Some)
                &&& (w2.alive@[i] ==> w2.positions@[i] is Some || w2.backpacks@[i] is Some
                    || w2.equipped@[i] is Some)
            } by {
                if i != pidi {
                    assert(w2.slot_eq(w1, i));
                    assert(w1.slot_cleared(i) || w1.slot_eq(w0, i));
                }
            }
            assert forall|i: int|
                0 <= i < w2.n() implies (#[trigger] w2.fovs@[i] matches Some(f2) ==> 0 <= f2.range
                <= 0x1000) by {
                if i != pidi {
                    assert(w2.slot_eq(w1, i));
                    assert(w1.slot_cleared(i) || w1.slot_eq(w0, i));
                }
            }
            assert forall|i: int|
                0 <= i < w2.n() && #[trigger] w2.players@[i] && w2.alive@[i] implies i == pidi by {
                if i != pidi {
                    assert(w2.slot_eq(w1, i));
                    assert(w1.slot_cleared(i) || w1.slot_eq(w0, i));
                }
            }
            assert(w2.wf());
        }
        // populate the deeper rooms; the first one stays clear for the player
        let room_count = self.ecs.map.rooms.len();
        let mut r: usize = 1;
        while r < room_count
            invariant
                1 <= r <= room_count,
                room_count == self.ecs.map.rooms@.len(),
                self.ecs.wf(),
                self.ecs.map.tiles@ == new_map.tiles@,
                self.ecs.map.rooms@ == new_map.rooms@,
                self.ecs.map.depth == new_map.depth,
                self.ecs.player_entity == w0.player_entity,
                self.ecs.n() >= w2.n(),
                w2.n() == w1.n(),
                forall|i: int| 0 <= i < w2.n() ==> self.ecs.slot_eq(w2, i),
                forall|i: int|
                    w2.n() <= i < self.ecs.n() ==> crate::spawner::monster_arch(self.ecs, i)
                        || crate::spawner::item_arch(self.ecs, i),
                forall|i: int|
                    #![trigger self.ecs.positions@[i]]
                    w2.n() <= i < self.ecs.n() ==> exists|r2: int|
                        #![trigger new_map.rooms@[r2]]
                        1 <= r2 < new_map.rooms@.len() && (self.ecs.positions@[i] matches Some(
                            pp,
                        ) && new_map.rooms@[r2].x1 < pp.x <= new_map.rooms@[r2].x2
                            && new_map.rooms@[r2].y1 < pp.y <= new_map.rooms@[r2].y2),
                log_view(self.ecs.log) == log_view(w0.log),
                self.ecs.doomed@.len() == 0,
            decreases room_count - r,
        {
            let ghost pre = self.ecs;
            let room = self.ecs.map.rooms[r];
            crate::spawner::spawn_room(&mut self.ecs, &room);
            proof {
                assert forall|i: int| 0 <= i < w2.n() implies self.ecs.slot_eq(w2, i) by {
                    assert(self.ecs.slot_eq(pre, i));
                    assert(pre.slot_eq(w2, i));
                }
                assert forall|i: int|
                    w2.n() <= i < self.ecs.n() implies crate::spawner::monster_arch(self.ecs, i)
                        || crate::spawner::item_arch(self.ecs, i) by {
                    if i < pre.n() {
                        assert(self.ecs.slot_eq(pre, i));
                        assert(crate::spawner::monster_arch(pre, i) || crate::spawner::item_arch(
                            pre,
                            i,
                        ));
                    }
                }
                assert forall|i: int|
                    #![trigger self.ecs.positions@[i]]
                    w2.n() <= i < self.ecs.n() implies exists|r2: int|
                        #![trigger new_map.rooms@[r2]]
                        1 <= r2 < new_map.rooms@.len() && (self.ecs.positions@[i] matches Some(
                            pp,
                        ) && new_map.rooms@[r2].x1 < pp.x <= new_map.rooms@[r2].x2
                            && new_map.rooms@[r2].y1 < pp.y <= new_map.rooms@[r2].y2) by {
                    if i < pre.n() {
                        assert(self.ecs.slot_eq(pre, i));
                        let r0 = choose|r2: int|
                            #![trigger new_map.rooms@[r2]]
                            1 <= r2 < new_map.rooms@.len() && (pre.positions@[i] matches Some(pp)
                                && new_map.rooms@[r2].x1 < pp.x <= new_map.rooms@[r2].x2
                                && new_map.rooms@[r2].y1 < pp.y <= new_map.rooms@[r2].y2);
                        assert(new_map.rooms@[r0] == new_map.rooms@[r0]);
                    } else {
                        assert(self.ecs.positions@[i] matches Some(pp) && room.x1 < pp.x
                            <= room.x2 && room.y1 < pp.y <= room.y2);
                        assert(room == new_map.rooms@[r as int]);
                        assert(new_map.rooms@[r as int] == new_map.rooms@[r as int]);
                    }
                }
            }
            r = r + 1;
        }
        let msg = String::from_str("You descend.");
        let ghost lv = log_view(self.ecs.log);
        let ghost w3 = self.ecs;
        self.ecs.log.push(msg);
        proof {
            crate::gamelog::lemma_log_prefix_push(log_view(w0.log), lv, msg@);
            assert(log_view(self.ecs.log) =~= log_view(w0.log).push(msg@));
            let pidi = w0.player_entity.id as int;
            assert(w3.slot_eq(w2, pidi));
            assert(self.ecs.positions@[pidi] == w2.positions@[pidi]);
            assert(self.ecs.fovs@[pidi] == w2.fovs@[pidi]);
            assert forall|i: int|
                w0.n() <= i < self.ecs.n() implies crate::spawner::monster_arch(self.ecs, i)
                    || crate::spawner::item_arch(self.ecs, i) by {
                assert(crate::spawner::monster_arch(w3, i) || crate::spawner::item_arch(w3, i));
            }
            assert(w3.slot_eq(w2, pidi));
            assert(w2.combat_stats@[pidi] == w1.combat_stats@[pidi]);
            assert(w1.slot_eq(w0, pidi));
            assert(self.ecs.combat_stats@[pidi] == w0.combat_stats@[pidi]);
            assert forall|i: int|
                0 <= i < w0.n() && w0.alive@[i] && i != w0.player_entity.id as int && !(
                w0.backpacks@[i] matches Some(b) && b.owner == w0.player_entity) implies #[trigger] self.ecs.slot_cleared(
                i,
            ) by {
                assert(old(self).ecs.ent_at(i) == w0.ent_at(i));
                assert(exists|k: int|
                    0 <= k < to_delete@.len() && (#[trigger] to_delete@[k]) == old(
                        self,
                    ).ecs.ent_at(i));
                let k = choose|k: int|
                    0 <= k < to_delete@.len() && (#[trigger] to_delete@[k]) == old(
                        self,
                    ).ecs.ent_at(i);
                assert((w0.doomed@ + to_delete@)[w0.doomed@.len() + k] == w0.ent_at(i));
                assert(pre_m.doomed@ == w0.doomed@ + to_delete@);
                assert(pre_m.doomed@[w0.doomed@.len() + k] == w0.ent_at(i));
                assert(pre_m.gens@ == w0.gens@ && pre_m.alive@ == w0.alive@);
                assert(0 <= i < n0 as int && (i as usize) as int == i);
                assert((pre_m.doomed@[w0.doomed@.len() + k]).id == i && (pre_m.doomed@[
                    w0.doomed@.len() + k
                ]).gen == pre_m.gens@[i]);
                assert(crate::world::World::doomed_hits(
                    pre_m.doomed@,
                    pre_m.gens@,
                    pre_m.alive@,
                    pre_m.doomed@.len() as int,
                    i,
                ));
                assert(w1.slot_cleared(i));
                assert(i != pid as int);
                assert(w2.slot_eq(w1, i));
                assert(w3.slot_eq(w2, i));
                assert(self.ecs.slot_eq(w2, i));
            }
            assert forall|i: int|
                0 <= i < w0.n() && w0.alive@[i] && (w0.backpacks@[i] matches Some(b) && b.owner
                    == w0.player_entity) implies #[trigger] self.ecs.backpacks@[i]
                == w0.backpacks@[i] && self.ecs.alive@[i] && self.ecs.names@[i] == w0.names@[i] by {
                if crate::world::World::doomed_hits(
                    w0.doomed@ + to_delete@,
                    w0.gens@,
                    w0.alive@,
                    (w0.doomed@ + to_delete@).len() as int,
                    i,
                ) {
                    let j = choose|j: int|
                        0 <= j < (w0.doomed@ + to_delete@).len() && (#[trigger] (w0.doomed@
                            + to_delete@)[j]).id == i && (w0.doomed@ + to_delete@)[j].gen
                            == w0.gens@[i] && w0.alive@[i];
                    assert(w0.doomed@.len() == 0);
                    assert((w0.doomed@ + to_delete@)[j] == to_delete@[j - w0.doomed@.len()]);
                    assert(false);
                }
                assert(pre_m.doomed@ == w0.doomed@ + to_delete@);
                assert(pre_m.gens@ == w0.gens@ && pre_m.alive@ == w0.alive@);
                if crate::world::World::doomed_hits(
                    pre_m.doomed@,
                    pre_m.gens@,
                    pre_m.alive@,
                    pre_m.doomed@.len() as int,
                    i,
                ) {
                    assert(crate::world::World::doomed_hits(
                        w0.doomed@ + to_delete@,
                        w0.gens@,
                        w0.alive@,
                        (w0.doomed@ + to_delete@).len() as int,
                        i,
                    ));
                    assert(false);
                }
                assert(w1.slot_eq(pre_m, i));
                if i != pid as int {
                    assert(w2.slot_eq(w1, i));
                    assert(w3.slot_eq(w2, i));
                    assert(self.ecs.slot_eq(w2, i));
                }
            }
        }
    }

    /// One step of the turn/state machine. The caller hands in the decoded
    /// key and, when a descent is due, the freshly generated deeper grid.
    /// Returns true exactly when the player confirmed quitting from the menu.
    ///
    /// The corpse sweep runs at the end of every tick; if the player's own
    /// hit points are gone, the machine falls back to the main menu — this
    /// library's explicit game-over policy.
    pub fn tick(&mut self, cmd: Command, new_map: Option<GameMap>) -> (quit: bool)
        requires
            old(self).ecs.wf(),
            old(self).ecs.doomed@.len() == 0,
            intents_ok(old(self).ecs),
            cmd matches Command::Move { dx, dy } ==> -1 <= dx <= 1 && -1 <= dy <= 1,
            old(self).ecs.run_state is NextLevel ==> (new_map matches Some(m) && m.wf()
                && m.rooms@.len() >= 1 && m.depth == old(self).ecs.map.depth + 1) && (forall|i: int|
                0 <= i < old(self).ecs.n() && old(self).ecs.alive@[i]
                    && (#[trigger] old(self).ecs.backpacks@[i]) is Some ==> old(
                    self,
                ).ecs.positions@[i] is None) && (forall|i: int|
                0 <= i < old(self).ecs.n() && (#[trigger] old(self).ecs.positions@[i]) is Some
                    ==> old(self).ecs.alive@[i]),
            old(self).ecs.run_state is AwaitingInput && cmd is Pickup ==> forall|i: int|
                0 <= i < old(self).ecs.n() && old(self).ecs.alive@[i]
                    && #[trigger] old(self).ecs.items@[i] ==> old(self).ecs.names@[i] is Some
                    && !old(self).ecs.players@[i],
        ensures
            final(self).ecs.wf(),
            // the transition table is followed exactly; the one escape — back
            // to the main menu — happens exactly when the player is dead
            !quit ==> final(self).ecs.run_state == (if player_down(final(self).ecs) {
                RunState::Menu { selection: MenuSelection::NewGame }
            } else {
                next_state(old(self).ecs, cmd)
            }),
            quit <==> ((old(self).ecs.run_state matches RunState::Menu { selection }
                && selection == MenuSelection::Quit) && cmd is Confirm),
            // the corpse sweep ran: no live entity but the player is left dying
            forall|i: int|
                0 <= i < final(self).ecs.n() && final(self).ecs.alive@[i] && i
                    != final(self).ecs.player_entity.id as int ==> !((
                #[trigger] final(self).ecs.combat_stats@[i]) matches Some(s) && s.hp < 1),
            // running the pipeline drains every intent table and leaves them
            // sound for the next turn
            (old(self).ecs.run_state is PreRun || old(self).ecs.run_state is PlayerTurn || old(
                self,
            ).ecs.run_state is MonsterTurn) ==> no_attacks(final(self).ecs) && no_pickups(
                final(self).ecs,
            ) && no_drinks(final(self).ecs) && no_drops(final(self).ecs) && intents_ok(
                final(self).ecs,
            ),
            // an item chosen in a menu attaches the matching intent to the player
            (old(self).ecs.run_state is ShowInventory && (cmd matches Command::Select { idx }
                && idx < crate::gui::pack_list(old(self).ecs, old(self).ecs.n()).len()))
                ==> (final(self).ecs.drink_intents@[old(self).ecs.player_entity.id as int] matches Some(
                d,
            ) && (cmd matches Command::Select { idx } && d.potion == crate::gui::pack_list(
                old(self).ecs,
                old(self).ecs.n(),
            )[idx as int])),
            (old(self).ecs.run_state is ShowDropItem && (cmd matches Command::Select { idx }
                && idx < crate::gui::pack_list(old(self).ecs, old(self).ecs.n()).len()))
                ==> (final(self).ecs.drop_intents@[old(self).ecs.player_entity.id as int] matches Some(
                d,
            ) && (cmd matches Command::Select { idx } && d.item == crate::gui::pack_list(
                old(self).ecs,
                old(self).ecs.n(),
            )[idx as int])),
            // a descent installs the deeper grid
            old(self).ecs.run_state is NextLevel ==> final(self).ecs.map.depth
                == old(self).ecs.map.depth + 1 && final(self).ecs.valid(
                final(self).ecs.player_entity,
            ),
            final(self).ecs.player_entity == old(self).ecs.player_entity,
            // menu handling never touches the player's stats, so a live
            // player stays on the transition table through menu ticks
            (old(self).ecs.run_state is ShowInventory || old(self).ecs.run_state is ShowDropItem
                || old(self).ecs.run_state matches RunState::Menu { .. }) ==> (player_down(
                final(self).ecs,
            ) <==> player_down(old(self).ecs)),
    {
        let state0 = self.ecs.run_state;
        let mut quit = false;
        let mut newrunstate = state0;
        match state0 {
            RunState::PreRun => {
                self.run_systems();
                newrunstate = RunState::AwaitingInput;
            },
            RunState::AwaitingInput => {
                newrunstate = crate::player::keyboard(self, cmd);
            },
            RunState::PlayerTurn => {
                self.run_systems();
                newrunstate = RunState::MonsterTurn;
            },
            RunState::MonsterTurn => {
                self.run_systems();
                newrunstate = RunState::AwaitingInput;
            },
            RunState::NextLevel => {
                let m = match new_map {
                    Option::Some(m) => m,
                    Option::None => unreached(),
                };
                self.next_level(m);
                newrunstate = RunState::PreRun;
            },
            RunState::ShowInventory => {
                let (result, chosen) = crate::gui::item_menu_choice(&self.ecs, cmd);
                match result {
                    crate::gui::ItemMenuResult::Cancel => {
                        newrunstate = RunState::AwaitingInput;
                    },
                    crate::gui::ItemMenuResult::NoResponse => {},
                    crate::gui::ItemMenuResult::Selected => {
                        let item = match chosen {
                            Option::Some(e) => e,
                            Option::None => unreached(),
                        };
                        let pid = self.ecs.player_entity.id;
                        self.ecs.drink_intents.set(
                            pid,
                            Some(crate::components::WantsToDrinkPotion { potion: item }),
                        );
                        newrunstate = RunState::PlayerTurn;
                    },
                }
            },
            RunState::ShowDropItem => {
                let (result, chosen) = crate::gui::item_menu_choice(&self.ecs, cmd);
                match result {
                    crate::gui::ItemMenuResult::Cancel => {
                        newrunstate = RunState::AwaitingInput;
                    },
                    crate::gui::ItemMenuResult::NoResponse => {},
                    crate::gui::ItemMenuResult::Selected => {
                        let item = match chosen {
                            Option::Some(e) => e,
                            Option::None => unreached(),
                        };
                        let pid = self.ecs.player_entity.id;
                        self.ecs.drop_intents.set(
                            pid,
                            Some(crate::components::WantsToDropItem { item }),
                        );
                        newrunstate = RunState::PlayerTurn;
                    },
                }
            },
            RunState::Menu { selection } => {
                let result = crate::gui::menu_choice(selection, cmd);
                match result {
                    crate::gui::MenuResult::NoSelection { selected } => {
                        newrunstate = RunState::Menu { selection: selected };
                    },
                    crate::gui::MenuResult::Selection { selected } => {
                        match selected {
                            MenuSelection::NewGame => {
                                newrunstate = RunState::PreRun;
                            },
                            MenuSelection::Quit => {
                                quit = true;
                            },
                        }
                    },
                }
            },
        }
        proof {
            if !quit {
                assert(newrunstate == next_state(old(self).ecs, cmd));
            }
        }
        self.ecs.run_state = newrunstate;
        let ghost wp = self.ecs;
        let player_dead = corpse_removal(&mut self.ecs);
        let ghost wc = self.ecs;
        if player_dead {
            self.ecs.run_state = RunState::Menu { selection: MenuSelection::NewGame };
        }
        proof {
            let w0 = old(self).ecs;
            assert(wp.player_entity == w0.player_entity);
            let pid = wp.player_entity.id as int;
            assert(wc.slot_eq(wp, pid));
            assert(player_down(self.ecs) == player_dead);
            assert forall|i: int|
                0 <= i < self.ecs.n() && self.ecs.alive@[i] && i
                    != self.ecs.player_entity.id as int implies !((
            #[trigger] self.ecs.combat_stats@[i]) matches Some(s) && s.hp < 1) by {
                if wp.alive@[i] && i != wp.player_entity.id as int && (
                wp.combat_stats@[i] matches Some(s2) && s2.hp < 1) {
                    assert(wc.slot_cleared(i));
                } else {
                    assert(wc.slot_eq(wp, i));
                }
            }
            if w0.run_state is PreRun || w0.run_state is PlayerTurn || w0.run_state
                is MonsterTurn {
                assert forall|i: int|
                    0 <= i < self.ecs.n() implies (#[trigger] self.ecs.attack_intents@[i]) is None by {
                    if wp.alive@[i] && i != wp.player_entity.id as int && (
                    wp.combat_stats@[i] matches Some(s2) && s2.hp < 1) {
                        assert(wc.slot_cleared(i));
                    } else {
                        assert(wc.slot_eq(wp, i));
                        assert(wp.attack_intents@[i] is None);
                    }
                }
                assert forall|i: int|
                    0 <= i < self.ecs.n() implies (#[trigger] self.ecs.pickup_intents@[i]) is None by {
                    if wp.alive@[i] && i != wp.player_entity.id as int && (
                    wp.combat_stats@[i] matches Some(s2) && s2.hp < 1) {
                        assert(wc.slot_cleared(i));
                    } else {
                        assert(wc.slot_eq(wp, i));
                        assert(wp.pickup_intents@[i] is None);
                    }
                }
                assert forall|i: int|
                    0 <= i < self.ecs.n() implies (#[trigger] self.ecs.drink_intents@[i]) is None by {
                    if wp.alive@[i] && i != wp.player_entity.id as int && (
                    wp.combat_stats@[i] matches Some(s2) && s2.hp < 1) {
                        assert(wc.slot_cleared(i));
                    } else {
                        assert(wc.slot_eq(wp, i));
                        assert(wp.drink_intents@[i] is None);
                    }
                }
                assert forall|i: int|
                    0 <= i < self.ecs.n() implies (#[trigger] self.ecs.drop_intents@[i]) is None by {
                    if wp.alive@[i] && i != wp.player_entity.id as int && (
                    wp.combat_stats@[i] matches Some(s2) && s2.hp < 1) {
                        assert(wc.slot_cleared(i));
                    } else {
                        assert(wc.slot_eq(wp, i));
                        assert(wp.drop_intents@[i] is None);
                    }
                }
                // with the tables drained, each intent judgement is vacuous;
                // only the named-gear clause carries over the corpse sweep
                assert forall|i: int| attacker_ready(self.ecs, i) implies false by {
                    assert(self.ecs.attack_intents@[i] is None);
                }
                assert(attack_intents_wf(self.ecs));
                assert forall|i: int| picks(self.ecs, i) implies false by {
                    assert(self.ecs.pickup_intents@[i] is None);
                }
                assert(pickup_intents_wf(self.ecs));
                assert forall|i: int| drinks(self.ecs, i) implies false by {
                    assert(self.ecs.drink_intents@[i] is None);
                }
                assert forall|j: int|
                    0 <= j < self.ecs.n() && (#[trigger] self.ecs.equipped@[j]) is Some implies self.ecs.names@[
                    j
                ] is Some by {
                    if wp.alive@[j] && j != wp.player_entity.id as int && (
                    wp.combat_stats@[j] matches Some(s2) && s2.hp < 1) {
                        assert(wc.slot_cleared(j));
                    } else {
                        assert(wc.slot_eq(wp, j));
                    }
                }
                assert(drink_intents_wf(self.ecs));
                assert forall|i: int| drops(self.ecs, i) implies false by {
                    assert(self.ecs.drop_intents@[i] is None);
                }
                assert(drop_intents_wf(self.ecs));
            }
            if w0.run_state is ShowInventory || w0.run_state is ShowDropItem {
                assert(wc.slot_eq(wp, pid));
            }
        }
        quit
    }
}

} // verus!
