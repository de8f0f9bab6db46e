use vstd::prelude::*;
use crate::components::Entity;
use crate::world::World;

verus! {

/// Some entity in slots `0 .. k` is a positioned blocker standing on tile
/// `idx`.
pub open spec fn blocker_on(w: World, idx: int, k: int) -> bool {
    exists|i: int|
        0 <= i < k && w.alive@[i] && w.blockers@[i] && ((#[trigger] w.positions@[i]) matches Some(
            p,
        ) && w.map.idx_of(p.x as int, p.y as int) == idx)
}

/// The occupant list of tile `idx` built from the entities in slots `0 .. k`,
/// in slot order.
pub open spec fn occupants(w: World, idx: int, k: int) -> Seq<Entity>
    decreases k,
{
    if k <= 0 {
        Seq::empty()
    } else {
        occupants(w, idx, k - 1) + (if w.alive@[k - 1] && ((w.positions@[k - 1]) matches Some(p)
            && w.map.idx_of(p.x as int, p.y as int) == idx) {
            seq![w.ent_at(k - 1)]
        } else {
            Seq::empty()
        })
    }
}

/// Rebuilds the per-tile obstruction bitset and occupant lists from the
/// current entity positions.
pub struct MapIndexSystem {}

/// Exactly what one spatial-index pass does: the obstruction bitset and
/// occupant lists rebuilt from current positions, everything else untouched.
pub open spec fn index_rel(a: World, b: World) -> bool {
    &&& b.n() == a.n()
    &&& forall|idx: int|
        0 <= idx < a.map.tiles@.len() ==> #[trigger] b.map.blocked@[idx]
            == (a.map.tiles@[idx] is Wall || blocker_on(
            a,
            idx,
            a.n(),
        ))
    &&& forall|idx: int|
        0 <= idx < a.map.tiles@.len() ==> (#[trigger] b.map.tile_content@[idx])@
            == occupants(a, idx, a.n())
    &&& b.map.tiles@ == a.map.tiles@
    &&& b.map.rooms@ == a.map.rooms@
    &&& b.map.width == a.map.width
    &&& b.map.height == a.map.height
    &&& b.map.revealed_tiles@ == a.map.revealed_tiles@
    &&& b.map.visible_tiles@ == a.map.visible_tiles@
    &&& b.map.depth == a.map.depth
    &&& b.gens@ == a.gens@
    &&& b.alive@ == a.alive@
    &&& b.positions@ == a.positions@
    &&& b.renderables@ == a.renderables@
    &&& b.players@ == a.players@
    &&& b.monsters@ == a.monsters@
    &&& b.blockers@ == a.blockers@
    &&& b.fovs@ == a.fovs@
    &&& b.names@ == a.names@
    &&& b.combat_stats@ == a.combat_stats@
    &&& b.items@ == a.items@
    &&& b.potions@ == a.potions@
    &&& b.equippables@ == a.equippables@
    &&& b.equipped@ == a.equipped@
    &&& b.backpacks@ == a.backpacks@
    &&& b.attack_intents@ == a.attack_intents@
    &&& b.pickup_intents@ == a.pickup_intents@
    &&& b.drink_intents@ == a.drink_intents@
    &&& b.drop_intents@ == a.drop_intents@
    &&& b.suffer_damage@ == a.suffer_damage@
    &&& b.doomed@ == a.doomed@
    &&& b.log == a.log
    &&& b.player_entity == a.player_entity
    &&& b.player_pos == a.player_pos
    &&& b.run_state == a.run_state
}

impl MapIndexSystem {
    /// After the run, a tile is blocked exactly when it is a wall or some
    /// live blocking entity stands on it, and each tile's occupant list holds
    /// exactly the live positioned entities on it, in slot order. Nothing
    /// else changes.
    pub fn run(&self, ecs: &mut World)
        requires
            old(ecs).wf(),
        ensures
            final(ecs).wf(),
            index_rel(*old(ecs), *final(ecs)),
    {
        let ghost ow = *old(ecs);
        ecs.map.populate_blocked();
        ecs.map.clear_content_index();
        let n = ecs.gens.len();
        let mut i: usize = 0;
        while i < n
            invariant
                i <= n,
                n == ecs.n(),
                ecs.wf(),
                ow == *old(ecs),
                ecs.n() == old(ecs).n(),
                forall|idx: int|
                    0 <= idx < old(ecs).map.tiles@.len() ==> #[trigger] ecs.map.blocked@[idx] == (
                    old(ecs).map.tiles@[idx] is Wall || blocker_on(ow, idx, i as int)),
                forall|idx: int|
                    0 <= idx < old(ecs).map.tiles@.len() ==> (#[trigger] ecs.map.tile_content@[
                        idx
                    ])@ == occupants(ow, idx, i as int),
                ecs.map.tiles@ == old(ecs).map.tiles@,
                ecs.map.rooms@ == old(ecs).map.rooms@,
                ecs.map.width == old(ecs).map.width,
                ecs.map.height == old(ecs).map.height,
                ecs.map.revealed_tiles@ == old(ecs).map.revealed_tiles@,
                ecs.map.visible_tiles@ == old(ecs).map.visible_tiles@,
                ecs.map.depth == old(ecs).map.depth,
                ecs.renderables@ == old(ecs).renderables@,
                ecs.players@ == old(ecs).players@,
                ecs.monsters@ == old(ecs).monsters@,
                ecs.fovs@ == old(ecs).fovs@,
                ecs.names@ == old(ecs).names@,
                ecs.combat_stats@ == old(ecs).combat_stats@,
                ecs.items@ == old(ecs).items@,
                ecs.potions@ == old(ecs).potions@,
                ecs.equippables@ == old(ecs).equippables@,
                ecs.equipped@ == old(ecs).equipped@,
                ecs.backpacks@ == old(ecs).backpacks@,
                ecs.attack_intents@ == old(ecs).attack_intents@,
                ecs.pickup_intents@ == old(ecs).pickup_intents@,
                ecs.drink_intents@ == old(ecs).drink_intents@,
                ecs.drop_intents@ == old(ecs).drop_intents@,
                ecs.suffer_damage@ == old(ecs).suffer_damage@,
                ecs.gens@ == old(ecs).gens@,
                ecs.alive@ == old(ecs).alive@,
                ecs.positions@ == old(ecs).positions@,
                ecs.blockers@ == old(ecs).blockers@,
                ecs.doomed@ == old(ecs).doomed@,
                ecs.log == old(ecs).log,
                ecs.player_entity == old(ecs).player_entity,
                ecs.player_pos == old(ecs).player_pos,
                ecs.run_state == old(ecs).run_state,
            decreases n - i,
        {
            let pos_opt = if ecs.alive[i] {
                match &ecs.positions[i] {
                    Option::Some(p) => Some(*p),
                    Option::None => None,
                }
            } else {
                None
            };
            if let Option::Some(p) = pos_opt {
                let idx = ecs.map.xy_idx(p.x, p.y);
                if ecs.blockers[i] {
                    ecs.map.blocked.set(idx, true);
                }
                let ent = Entity { id: i, gen: ecs.gens[i] };
                let mut content: Vec<Entity> = Vec::new();
                let cur = &ecs.map.tile_content[idx];
                let m = cur.len();
                let mut k: usize = 0;
                while k < m
                    invariant
                        k <= m,
                        m == cur@.len(),
                        content@ == cur@.subrange(0, k as int),
                    decreases m - k,
                {
                    content.push(cur[k]);
                    k = k + 1;
                }
                proof {
                    assert(content@ =~= ecs.map.tile_content@[idx as int]@);
                }
                content.push(ent);
                ecs.map.tile_content.set(idx, content);
            }
            i = i + 1;
            proof {
                let ii = i as int;
                assert forall|idx: int|
                    0 <= idx < old(ecs).map.tiles@.len() implies #[trigger] ecs.map.blocked@[idx]
                    == (old(ecs).map.tiles@[idx] is Wall || blocker_on(ow, idx, ii)) by {
                    if blocker_on(ow, idx, ii) && !blocker_on(ow, idx, ii - 1) {
                        let q = choose|q: int|
                            0 <= q < ii && ow.alive@[q] && ow.blockers@[q] && ((
                            #[trigger] ow.positions@[q]) matches Some(p) && ow.map.idx_of(
                                p.x as int,
                                p.y as int,
                            ) == idx);
                        assert(q == ii - 1);
                    }
                }
                assert forall|idx: int|
                    0 <= idx < old(ecs).map.tiles@.len() implies (#[trigger] ecs.map.tile_content@[
                    idx
                ])@ == occupants(ow, idx, ii) by {
                    assert(occupants(ow, idx, ii) == occupants(ow, idx, ii - 1) + (if ow.alive@[ii
                        - 1] && ((ow.positions@[ii - 1]) matches Some(p) && ow.map.idx_of(
                        p.x as int,
                        p.y as int,
                    ) == idx) {
                        seq![ow.ent_at(ii - 1)]
                    } else {
                        Seq::empty()
                    }));
                    assert((ecs.map.tile_content@[idx])@ =~= occupants(ow, idx, ii));
                }
            }
        }
    }
}

} // verus!
