use vstd::prelude::*;
use crate::components::{
    AttackIntent, CombatStats, Entity, Equippable, Equipped, Fov, InBackpack, Name, Position,
    Potion, Renderable, SufferDamage, WantsToDrinkPotion, WantsToDropItem, WantsToPickupItem,
    MAX_STAT,
};
use crate::gamelog::Gamelog;
use crate::map::GameMap;
use crate::state::RunState;

verus! {

/// The shared world state: one slot per entity ever created, a typed table
/// per component, and the resource slots (grid, log, random source, player
/// handle, turn state) that the systems share.
///
/// A slot is never reused: destroying an entity clears its components, drops
/// its `alive` flag and advances its generation, so a stale `Entity` handle
/// can never pass for a later one.
pub struct World {
    pub gens: Vec<u64>,
    pub alive: Vec<bool>,
    pub positions: Vec<Option<Position>>,
    pub renderables: Vec<Option<Renderable>>,
    pub players: Vec<bool>,
    pub monsters: Vec<bool>,
    pub blockers: Vec<bool>,
    pub fovs: Vec<Option<Fov>>,
    pub names: Vec<Option<Name>>,
    pub combat_stats: Vec<Option<CombatStats>>,
    pub items: Vec<bool>,
    pub potions: Vec<Option<Potion>>,
    pub equippables: Vec<Option<Equippable>>,
    pub equipped: Vec<Option<Equipped>>,
    pub backpacks: Vec<Option<InBackpack>>,
    pub attack_intents: Vec<Option<AttackIntent>>,
    pub pickup_intents: Vec<Option<WantsToPickupItem>>,
    pub drink_intents: Vec<Option<WantsToDrinkPotion>>,
    pub drop_intents: Vec<Option<WantsToDropItem>>,
    pub suffer_damage: Vec<Option<SufferDamage>>,
    /// Entities queued for destruction; committed by `maintain`.
    pub doomed: Vec<Entity>,
    pub map: GameMap,
    pub log: Gamelog,
    pub rng: rltk::RandomNumberGenerator,
    pub player_entity: Entity,
    pub player_pos: Position,
    pub run_state: RunState,
}

impl World {
    /// Number of entity slots ever created.
    pub open spec fn n(self) -> int {
        self.gens@.len() as int
    }

    /// Every component table has one row per entity slot.
    pub open spec fn lens_ok(self) -> bool {
        &&& self.alive@.len() == self.n()
        &&& self.positions@.len() == self.n()
        &&& self.renderables@.len() == self.n()
        &&& self.players@.len() == self.n()
        &&& self.monsters@.len() == self.n()
        &&& self.blockers@.len() == self.n()
        &&& self.fovs@.len() == self.n()
        &&& self.names@.len() == self.n()
        &&& self.combat_stats@.len() == self.n()
        &&& self.items@.len() == self.n()
        &&& self.potions@.len() == self.n()
        &&& self.equippables@.len() == self.n()
        &&& self.equipped@.len() == self.n()
        &&& self.backpacks@.len() == self.n()
        &&& self.attack_intents@.len() == self.n()
        &&& self.pickup_intents@.len() == self.n()
        &&& self.drink_intents@.len() == self.n()
        &&& self.drop_intents@.len() == self.n()
        &&& self.suffer_damage@.len() == self.n()
    }

    /// A handle is valid when it points at a live slot of the same
    /// generation.
    pub open spec fn valid(self, e: Entity) -> bool {
        &&& e.id < self.n()
        &&& self.gens@[e.id as int] == e.gen
        &&& self.alive@[e.id as int]
    }

    /// The current handle for slot `i`.
    pub open spec fn ent_at(self, i: int) -> Entity {
        Entity { id: i as usize, gen: self.gens@[i] }
    }

    /// All combat stats and heal amounts stay inside [`MAX_STAT`], and hp
    /// never exceeds max_hp.
    pub open spec fn stats_ok(self) -> bool {
        &&& forall|i: int|
            0 <= i < self.n() ==> (#[trigger] self.combat_stats@[i] matches Some(s) ==> s.valid())
        &&& forall|i: int|
            0 <= i < self.n() ==> (#[trigger] self.potions@[i] matches Some(p) ==> 0
                <= p.heal_amount <= MAX_STAT)
        &&& forall|i: int|
            0 <= i < self.n() ==> (#[trigger] self.suffer_damage@[i] matches Some(d)
                ==> forall|k: int| 0 <= k < d.amounts@.len() ==> 0 <= #[trigger] d.amounts@[k] <= MAX_STAT)
    }

    /// Every positioned entity stands on the grid.
    pub open spec fn positions_ok(self) -> bool {
        forall|i: int|
            0 <= i < self.n() ==> (#[trigger] self.positions@[i] matches Some(p)
                ==> self.map.in_bounds(p.x as int, p.y as int))
    }

    /// A live item is in exactly one of its three places: on the ground
    /// (Position), carried (InBackpack) or worn (Equipped) — never two at
    /// once, and never in limbo.
    pub open spec fn items_exclusive(self) -> bool {
        forall|i: int|
            0 <= i < self.n() && #[trigger] self.items@[i] ==> {
                &&& !(self.positions@[i] is Some && self.backpacks@[i] is Some)
                &&& !(self.positions@[i] is Some && self.equipped@[i] is Some)
                &&& !(self.backpacks@[i] is Some && self.equipped@[i] is Some)
                &&& (self.alive@[i] ==> self.positions@[i] is Some || self.backpacks@[i] is Some
                    || self.equipped@[i] is Some)
            }
    }

    /// There is exactly one live player-tagged entity: the one the
    /// `player_entity` resource names. It always has stats, sight, a position
    /// and a name, and the `player_pos` resource mirrors its position.
    pub open spec fn player_ok(self) -> bool {
        &&& self.valid(self.player_entity)
        &&& self.players@[self.player_entity.id as int]
        &&& forall|i: int|
            0 <= i < self.n() && #[trigger] self.players@[i] && self.alive@[i] ==> i
                == self.player_entity.id as int
        &&& self.combat_stats@[self.player_entity.id as int] is Some
        &&& self.fovs@[self.player_entity.id as int] is Some
        &&& self.positions@[self.player_entity.id as int] is Some
        &&& self.names@[self.player_entity.id as int] is Some
        &&& self.positions@[self.player_entity.id as int] matches Some(p) && p == self.player_pos
    }

    /// Every sight range is modest, so view rectangles stay inside machine
    /// bounds.
    pub open spec fn fovs_ok(self) -> bool {
        forall|i: int|
            0 <= i < self.n() ==> (#[trigger] self.fovs@[i] matches Some(f) ==> 0 <= f.range
                <= 0x1000)
    }

    /// Well-formedness without the player: holds already while the world is
    /// being populated.
    pub open spec fn base_wf(self) -> bool {
        &&& self.lens_ok()
        &&& self.map.wf()
        &&& self.stats_ok()
        &&& self.positions_ok()
        &&& self.items_exclusive()
        &&& self.fovs_ok()
    }

    /// Full well-formedness of a running game world.
    pub open spec fn wf(self) -> bool {
        &&& self.base_wf()
        &&& self.player_ok()
    }

    /// Slot `i` carries exactly the same entity and components in `self` as
    /// in `other`.
    pub open spec fn slot_eq(self, other: World, i: int) -> bool {
        &&& self.gens@[i] == other.gens@[i]
        &&& self.alive@[i] == other.alive@[i]
        &&& self.positions@[i] == other.positions@[i]
        &&& self.renderables@[i] == other.renderables@[i]
        &&& self.players@[i] == other.players@[i]
        &&& self.monsters@[i] == other.monsters@[i]
        &&& self.blockers@[i] == other.blockers@[i]
        &&& self.fovs@[i] == other.fovs@[i]
        &&& self.names@[i] == other.names@[i]
        &&& self.combat_stats@[i] == other.combat_stats@[i]
        &&& self.items@[i] == other.items@[i]
        &&& self.potions@[i] == other.potions@[i]
        &&& self.equippables@[i] == other.equippables@[i]
        &&& self.equipped@[i] == other.equipped@[i]
        &&& self.backpacks@[i] == other.backpacks@[i]
        &&& self.attack_intents@[i] == other.attack_intents@[i]
        &&& self.pickup_intents@[i] == other.pickup_intents@[i]
        &&& self.drink_intents@[i] == other.drink_intents@[i]
        &&& self.drop_intents@[i] == other.drop_intents@[i]
        &&& self.suffer_damage@[i] == other.suffer_damage@[i]
    }

    /// Slot `i` is empty: dead, with no components attached.
    pub open spec fn slot_cleared(self, i: int) -> bool {
        &&& !self.alive@[i]
        &&& self.positions@[i] is None
        &&& self.renderables@[i] is None
        &&& !self.players@[i]
        &&& !self.monsters@[i]
        &&& !self.blockers@[i]
        &&& self.fovs@[i] is None
        &&& self.names@[i] is None
        &&& self.combat_stats@[i] is None
        &&& !self.items@[i]
        &&& self.potions@[i] is None
        &&& self.equippables@[i] is None
        &&& self.equipped@[i] is None
        &&& self.backpacks@[i] is None
        &&& self.attack_intents@[i] is None
        &&& self.pickup_intents@[i] is None
        &&& self.drink_intents@[i] is None
        &&& self.drop_intents@[i] is None
        &&& self.suffer_damage@[i] is None
    }

    /// The same world with only the random source swapped: what a dice roll
    /// leaves behind.
    pub open spec fn with_rng(self, rng: rltk::RandomNumberGenerator) -> World {
        World { rng, ..self }
    }

    /// A fresh world around a generated map: no entities yet, an empty
    /// destruction queue, and a greeting in the log.
    pub fn new(map: GameMap, rng: rltk::RandomNumberGenerator, run_state: RunState) -> (r: World)
        requires
            map.wf(),
        ensures
            r.base_wf(),
            r.n() == 0,
            r.doomed@.len() == 0,
            r.map == map,
            r.run_state == run_state,
            crate::gamelog::log_view(r.log) =~= seq!["Welcome to Belsin!"@],
    {
        let mut log = Gamelog::new();
        log.push(String::from_str("Welcome to Belsin!"));
        World {
            gens: Vec::new(),
            alive: Vec::new(),
            positions: Vec::new(),
            renderables: Vec::new(),
            players: Vec::new(),
            monsters: Vec::new(),
            blockers: Vec::new(),
            fovs: Vec::new(),
            names: Vec::new(),
            combat_stats: Vec::new(),
            items: Vec::new(),
            potions: Vec::new(),
            equippables: Vec::new(),
            equipped: Vec::new(),
            backpacks: Vec::new(),
            attack_intents: Vec::new(),
            pickup_intents: Vec::new(),
            drink_intents: Vec::new(),
            drop_intents: Vec::new(),
            suffer_damage: Vec::new(),
            doomed: Vec::new(),
            map,
            log,
            rng,
            player_entity: Entity { id: 0, gen: 0 },
            player_pos: Position { x: 0, y: 0 },
            run_state,
        }
    }

    /// Creates a fresh, component-less entity in a brand-new slot and hands
    /// back its handle.
    pub fn create_entity(&mut self) -> (r: Entity)
        requires
            old(self).lens_ok(),
        ensures
            final(self).lens_ok(),
            final(self).n() == old(self).n() + 1,
            r.id == old(self).n(),
            r.gen == 0,
            final(self).valid(r),
            final(self).alive@[r.id as int],
            final(self).gens@[r.id as int] == 0,
            final(self).positions@[r.id as int] is None,
            final(self).renderables@[r.id as int] is None,
            !final(self).players@[r.id as int],
            !final(self).monsters@[r.id as int],
            !final(self).blockers@[r.id as int],
            final(self).fovs@[r.id as int] is None,
            final(self).names@[r.id as int] is None,
            final(self).combat_stats@[r.id as int] is None,
            !final(self).items@[r.id as int],
            final(self).potions@[r.id as int] is None,
            final(self).equippables@[r.id as int] is None,
            final(self).equipped@[r.id as int] is None,
            final(self).backpacks@[r.id as int] is None,
            final(self).attack_intents@[r.id as int] is None,
            final(self).pickup_intents@[r.id as int] is None,
            final(self).drink_intents@[r.id as int] is None,
            final(self).drop_intents@[r.id as int] is None,
            final(self).suffer_damage@[r.id as int] is None,
            forall|i: int| 0 <= i < old(self).n() ==> final(self).slot_eq(*old(self), i),
            final(self).doomed@ == old(self).doomed@,
            final(self).map == old(self).map,
            final(self).log == old(self).log,
            final(self).player_entity == old(self).player_entity,
            final(self).player_pos == old(self).player_pos,
            final(self).run_state == old(self).run_state,
    {
        let id = self.gens.len();
        self.gens.push(0);
        self.alive.push(true);
        self.positions.push(None);
        self.renderables.push(None);
        self.players.push(false);
        self.monsters.push(false);
        self.blockers.push(false);
        self.fovs.push(None);
        self.names.push(None);
        self.combat_stats.push(None);
        self.items.push(false);
        self.potions.push(None);
        self.equippables.push(None);
        self.equipped.push(None);
        self.backpacks.push(None);
        self.attack_intents.push(None);
        self.pickup_intents.push(None);
        self.drink_intents.push(None);
        self.drop_intents.push(None);
        self.suffer_damage.push(None);
        Entity { id, gen: 0 }
    }

    /// Destroys the live entity in slot `i` right now: clears every
    /// component, drops the alive flag and advances the generation.
    pub fn kill_slot(&mut self, i: usize)
        requires
            old(self).lens_ok(),
            i < old(self).n(),
        ensures
            final(self).lens_ok(),
            final(self).n() == old(self).n(),
            final(self).slot_cleared(i as int),
            final(self).gens@[i as int] == if old(self).gens@[i as int] < u64::MAX {
                old(self).gens@[i as int] + 1
            } else {
                old(self).gens@[i as int] as int
            },
            forall|j: int| 0 <= j < old(self).n() && j != i ==> final(self).slot_eq(*old(self), j),
            final(self).doomed@ == old(self).doomed@,
            final(self).map == old(self).map,
            final(self).log == old(self).log,
            final(self).player_entity == old(self).player_entity,
            final(self).player_pos == old(self).player_pos,
            final(self).run_state == old(self).run_state,
    {
        let g = self.gens[i];
        if g < u64::MAX {
            self.gens.set(i, g + 1);
        }
        self.alive.set(i, false);
        self.positions.set(i, None);
        self.renderables.set(i, None);
        self.players.set(i, false);
        self.monsters.set(i, false);
        self.blockers.set(i, false);
        self.fovs.set(i, None);
        self.names.set(i, None);
        self.combat_stats.set(i, None);
        self.items.set(i, false);
        self.potions.set(i, None);
        self.equippables.set(i, None);
        self.equipped.set(i, None);
        self.backpacks.set(i, None);
        self.attack_intents.set(i, None);
        self.pickup_intents.set(i, None);
        self.drink_intents.set(i, None);
        self.drop_intents.set(i, None);
        self.suffer_damage.set(i, None);
    }

    /// Whether some handle in the prefix `queue[..k]` validly named slot `i`
    /// (against generations `gens` and liveness `alive`).
    pub open spec fn doomed_hits(
        queue: Seq<Entity>,
        gens: Seq<u64>,
        alive: Seq<bool>,
        k: int,
        i: int,
    ) -> bool {
        exists|j: int|
            0 <= j < k && (#[trigger] queue[j]).id == i && queue[j].gen == gens[i] && alive[i]
    }

    /// The commit point for deferred destruction: every queued handle that is
    /// still valid has its entity destroyed; stale handles (including
    /// duplicates of an entity already destroyed here) are ignored; the queue
    /// empties.
    #[verifier::loop_isolation(false)]
    pub fn maintain(&mut self)
        requires
            old(self).lens_ok(),
        ensures
            final(self).lens_ok(),
            final(self).n() == old(self).n(),
            final(self).doomed@.len() == 0,
            forall|i: int|
                0 <= i < old(self).n() && World::doomed_hits(
                    old(self).doomed@,
                    old(self).gens@,
                    old(self).alive@,
                    old(self).doomed@.len() as int,
                    i,
                ) ==> final(self).slot_cleared(i),
            forall|i: int|
                0 <= i < old(self).n() && !World::doomed_hits(
                    old(self).doomed@,
                    old(self).gens@,
                    old(self).alive@,
                    old(self).doomed@.len() as int,
                    i,
                ) ==> #[trigger] final(self).slot_eq(*old(self), i),
            final(self).map == old(self).map,
            final(self).log == old(self).log,
            final(self).player_entity == old(self).player_entity,
            final(self).player_pos == old(self).player_pos,
            final(self).run_state == old(self).run_state,
            maintain_rel(*old(self), *final(self)),
    {
        let m = self.doomed.len();
        let mut k: usize = 0;
        while k < m
            invariant
                self.lens_ok(),
                self.n() == old(self).n(),
                k <= m,
                m == self.doomed@.len(),
                self.doomed@ == old(self).doomed@,
                forall|i: int|
                    0 <= i < old(self).n() && World::doomed_hits(
                        old(self).doomed@,
                        old(self).gens@,
                        old(self).alive@,
                        k as int,
                        i,
                    ) ==> self.slot_cleared(i),
                forall|i: int|
                    0 <= i < old(self).n() && !World::doomed_hits(
                        old(self).doomed@,
                        old(self).gens@,
                        old(self).alive@,
                        k as int,
                        i,
                    ) ==> #[trigger] self.slot_eq(*old(self), i),
                self.map == old(self).map,
                self.log == old(self).log,
                self.player_entity == old(self).player_entity,
                self.player_pos == old(self).player_pos,
                self.run_state == old(self).run_state,
            decreases m - k,
        {
            let ghost pre = *self;
            let ghost oq = old(self).doomed@;
            let ghost og = old(self).gens@;
            let ghost oa = old(self).alive@;
            let e = self.doomed[k];
            if e.id < self.gens.len() {
                let live = self.alive[e.id];
                let g = self.gens[e.id];
                if live && g == e.gen {
                    self.kill_slot(e.id);
                }
            }
            k = k + 1;
            proof {
                let ki: int = k as int;
                assert(e == oq[ki - 1]);
                assert forall|i: int|
                    0 <= i < old(self).n() && World::doomed_hits(oq, og, oa, ki, i) implies self.slot_cleared(i) by {
                    assert(exists|j: int|
                        0 <= j < ki && (#[trigger] oq[j]).id == i && oq[j].gen == og[i] && oa[i]);
                    let j = choose|j: int|
                        0 <= j < ki && (#[trigger] oq[j]).id == i && oq[j].gen == og[i] && oa[i];
                    if e.id != i {
                        assert(self.slot_eq(pre, i));
                        if j < ki - 1 {
                            assert(World::doomed_hits(oq, og, oa, ki - 1, i));
                            assert(pre.slot_cleared(i));
                        } else {
                            assert(oq[ki - 1].id == i);
                            assert(false);
                        }
                    } else {
                        if World::doomed_hits(oq, og, oa, ki - 1, i) {
                            assert(pre.slot_cleared(i));
                            assert(!pre.alive@[i]);
                        } else {
                            assert(#[trigger] pre.slot_eq(*old(self), i));
                            assert(pre.alive@[i] == oa[i] && pre.gens@[i] == og[i]);
                            if j < ki - 1 {
                                assert(World::doomed_hits(oq, og, oa, ki - 1, i));
                                assert(false);
                            }
                            assert(oq[ki - 1].gen == og[i] && oa[i]);
                            assert(pre.alive@[i] && pre.gens@[i] == e.gen);
                            assert(self.slot_cleared(i));
                        }
                    }
                }
                assert forall|i: int|
                    0 <= i < old(self).n() && !World::doomed_hits(oq, og, oa, ki, i) implies #[trigger] self.slot_eq(
                    *old(self),
                    i,
                ) by {
                    if World::doomed_hits(oq, og, oa, ki - 1, i) {
                        let j = choose|j: int|
                            0 <= j < ki - 1 && (#[trigger] oq[j]).id == i && oq[j].gen == og[i] && oa[i];
                        assert(0 <= j < ki && oq[j].id == i && oq[j].gen == og[i] && oa[i]);
                        assert(World::doomed_hits(oq, og, oa, ki, i));
                    }
                    assert(pre.slot_eq(*old(self), i));
                    if e.id == i {
                        if pre.alive@[i] && pre.gens@[i] == e.gen {
                            assert(oq[ki - 1].id == i && oq[ki - 1].gen == og[i] && oa[i]);
                            assert(World::doomed_hits(oq, og, oa, ki, i));
                            assert(false);
                        }
                    } else {
                        assert(self.slot_eq(pre, i));
                    }
                }
            }
        }
        let ghost before_clear = *self;
        self.doomed.clear();
        proof {
            assert forall|i: int|
                0 <= i < old(self).n() && World::doomed_hits(
                    old(self).doomed@,
                    old(self).gens@,
                    old(self).alive@,
                    old(self).doomed@.len() as int,
                    i,
                ) implies self.slot_cleared(i) by {
                assert(before_clear.slot_cleared(i));
            }
            assert forall|i: int|
                0 <= i < old(self).n() && !World::doomed_hits(
                    old(self).doomed@,
                    old(self).gens@,
                    old(self).alive@,
                    old(self).doomed@.len() as int,
                    i,
                ) implies #[trigger] self.slot_eq(*old(self), i) by {
                assert(before_clear.slot_eq(*old(self), i));
            }
        }
    }
}


/// Exactly what the destruction commit does: every validly queued entity's
/// slot is emptied, stale handles are ignored, the queue drains, and nothing
/// else changes.
pub open spec fn maintain_rel(a: World, b: World) -> bool {
    &&& b.n() == a.n()
    &&& b.doomed@.len() == 0
    &&& forall|i: int|
        0 <= i < a.n() && World::doomed_hits(
            a.doomed@,
            a.gens@,
            a.alive@,
            a.doomed@.len() as int,
            i,
        ) ==> b.slot_cleared(i)
    &&& forall|i: int|
        0 <= i < a.n() && !World::doomed_hits(
            a.doomed@,
            a.gens@,
            a.alive@,
            a.doomed@.len() as int,
            i,
        ) ==> #[trigger] b.slot_eq(a, i)
    &&& b.map == a.map
    &&& b.log == a.log
    &&& b.player_entity == a.player_entity
    &&& b.player_pos == a.player_pos
    &&& b.run_state == a.run_state
}

/// Well-formedness survives any change that, slot by slot, either leaves the
/// slot as it was or clears it entirely — as long as the player's slot is
/// among the untouched ones.
pub proof fn lemma_wf_pointwise(a: World, b: World)
    requires
        a.wf(),
        b.lens_ok(),
        b.n() == a.n(),
        b.map == a.map,
        b.player_entity == a.player_entity,
        b.player_pos == a.player_pos,
        forall|i: int| 0 <= i < a.n() ==> #[trigger] b.slot_eq(a, i) || b.slot_cleared(i),
        b.slot_eq(a, a.player_entity.id as int),
    ensures
        b.wf(),
{
    assert forall|i: int|
        0 <= i < b.n() implies (#[trigger] b.combat_stats@[i] matches Some(s) ==> s.valid()) by {
        assert(b.slot_eq(a, i) || b.slot_cleared(i));
    }
    assert forall|i: int|
        0 <= i < b.n() implies (#[trigger] b.potions@[i] matches Some(p) ==> 0 <= p.heal_amount
            <= MAX_STAT) by {
        assert(b.slot_eq(a, i) || b.slot_cleared(i));
    }
    assert forall|i: int|
        0 <= i < b.n() implies (#[trigger] b.suffer_damage@[i] matches Some(d) ==> forall|k: int|
            0 <= k < d.amounts@.len() ==> 0 <= #[trigger] d.amounts@[k] <= MAX_STAT) by {
        assert(b.slot_eq(a, i) || b.slot_cleared(i));
    }
    assert forall|i: int|
        0 <= i < b.n() implies (#[trigger] b.positions@[i] matches Some(p) ==> b.map.in_bounds(
            p.x as int,
            p.y as int,
        )) by {
        assert(b.slot_eq(a, i) || b.slot_cleared(i));
    }
    assert forall|i: int|
        0 <= i < b.n() implies (#[trigger] b.fovs@[i] matches Some(f) ==> 0 <= f.range <= 0x1000) by {
        assert(b.slot_eq(a, i) || b.slot_cleared(i));
    }
    assert forall|i: int|
        0 <= i < b.n() && #[trigger] b.items@[i] implies {
        &&& !(b.positions@[i] is Some && b.backpacks@[i] is Some)
        &&& !(b.positions@[i] is Some && b.equipped@[i] is Some)
        &&& !(b.backpacks@[i] is Some && b.equipped@[i] is Some)
        &&& (b.alive@[i] ==> b.positions@[i] is Some || b.backpacks@[i] is Some || b.equipped@[i] is Some)
    } by {
        assert(b.slot_eq(a, i) || b.slot_cleared(i));
    }
    assert forall|i: int|
        0 <= i < b.n() && #[trigger] b.players@[i] && b.alive@[i] implies i
        == b.player_entity.id as int by {
        assert(b.slot_eq(a, i) || b.slot_cleared(i));
    }
}

} // verus!
