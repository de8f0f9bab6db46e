use vstd::prelude::*;
use crate::components::InBackpack;
use crate::fov::{has_tile, player_recomputes, sighted, visible_spec};
use crate::world::World;

verus! {

/// A live item is in exactly one of its three places — on the ground, in a
/// backpack, or worn: never two at once, never none — in every well-formed
/// world, hence at every turn boundary: each system both demands and
/// re-establishes well-formedness.
pub proof fn law_item_states_exclusive(w: World, i: int)
    requires
        w.wf(),
        0 <= i < w.n(),
        w.items@[i],
    ensures
        !(w.positions@[i] is Some && w.backpacks@[i] is Some),
        !(w.positions@[i] is Some && w.equipped@[i] is Some),
        !(w.backpacks@[i] is Some && w.equipped@[i] is Some),
        w.alive@[i] ==> (w.positions@[i] is Some || w.backpacks@[i] is Some || w.equipped@[i] is Some),
{
}

/// The heart of the visibility pass, as its contract states it: what one run
/// does to the views and the transient visibility bitset.
pub open spec fn fov_pass(a: World, b: World) -> bool {
    &&& b.n() == a.n()
    &&& forall|q: int|
        #![trigger b.fovs@[q]]
        0 <= q < a.n() ==> (if sighted(a, q) && a.fovs@[q]->0.dirty {
            &&& b.fovs@[q] is Some
            &&& !b.fovs@[q]->0.dirty
            &&& b.fovs@[q]->0.range == a.fovs@[q]->0.range
            &&& forall|tx: int, ty: int|
                has_tile(b.fovs@[q]->0.visible_tiles@, tx, ty) <==> visible_spec(
                    a.map,
                    a.positions@[q]->0.x as int,
                    a.positions@[q]->0.y as int,
                    tx,
                    ty,
                    a.fovs@[q]->0.range as int,
                )
        } else {
            b.fovs@[q] == a.fovs@[q]
        })
    &&& (!player_recomputes(a) ==> b.map.visible_tiles@ == a.map.visible_tiles@)
    &&& b.positions@ == a.positions@
    &&& b.alive@ == a.alive@
    &&& b.player_entity == a.player_entity
}

/// One visibility run (its full contract `fov_rel`) gives the slice of it
/// that the idempotence law needs.
pub proof fn lemma_fov_rel_gives_pass(a: World, b: World)
    requires
        crate::fov::fov_rel(a, b),
    ensures
        fov_pass(a, b),
{
    assert forall|q: int|
        #![trigger b.fovs@[q]]
        0 <= q < a.n() implies (if sighted(a, q) && a.fovs@[q]->0.dirty {
        &&& b.fovs@[q] is Some
        &&& !b.fovs@[q]->0.dirty
        &&& b.fovs@[q]->0.range == a.fovs@[q]->0.range
        &&& forall|tx: int, ty: int|
            has_tile(b.fovs@[q]->0.visible_tiles@, tx, ty) <==> visible_spec(
                a.map,
                a.positions@[q]->0.x as int,
                a.positions@[q]->0.y as int,
                tx,
                ty,
                a.fovs@[q]->0.range as int,
            )
    } else {
        b.fovs@[q] == a.fovs@[q]
    }) by {
        assert(a.fovs@[q] == a.fovs@[q]);
    }
}

/// Visibility recomputation is idempotent once the dirty flags are spent:
/// two passes without intervening movement leave, after the first, every
/// view and the transient visibility bitset exactly as they were.
///
/// `fov_pass` is what `FovSystem::run` ensures of each run, so this law
/// speaks about running the visibility system twice in a row.
pub proof fn law_fov_idempotent(a: World, b: World, c: World)
    requires
        fov_pass(a, b),
        fov_pass(b, c),
    ensures
        forall|q: int| 0 <= q < b.n() ==> #[trigger] c.fovs@[q] == b.fovs@[q],
        c.map.visible_tiles@ == b.map.visible_tiles@,
{
    assert forall|q: int| 0 <= q < b.n() implies #[trigger] c.fovs@[q] == b.fovs@[q] by {
        assert(b.fovs@[q] == b.fovs@[q]);
        if sighted(b, q) && b.fovs@[q]->0.dirty {
            assert(sighted(a, q));
            if sighted(a, q) && a.fovs@[q]->0.dirty {
                assert(!b.fovs@[q]->0.dirty);
            } else {
                assert(b.fovs@[q] == a.fovs@[q]);
                assert(sighted(a, q) && a.fovs@[q]->0.dirty);
            }
        }
    }
    assert(!player_recomputes(b)) by {
        let pid = b.player_entity.id as int;
        if player_recomputes(b) {
            assert(sighted(b, pid) && b.fovs@[pid]->0.dirty);
            assert(sighted(a, pid));
            if a.fovs@[pid]->0.dirty {
                assert(!b.fovs@[pid]->0.dirty);
            } else {
                assert(b.fovs@[pid] == a.fovs@[pid]);
            }
            assert(false);
        }
    }
}

/// Dropping an item and picking it back up restores the backpack state with
/// the same owner and no position left behind: one drop pass (`drop_rel`,
/// what `ItemDropSystem::run` ensures) followed by one pickup pass
/// (`pickup_rel`, what `ItemCollectionSystem::run` ensures) in which the
/// owner takes the same item back.
pub proof fn law_drop_pickup_roundtrip(a: World, b: World, c: World, i: int, j: int, item: int)
    requires
        // the drop pass: slot i drops the item it carries
        crate::inventory_system::drops(a, i),
        crate::inventory_system::dropped_item(a, i) == item,
        a.backpacks@[item] == Some(InBackpack { owner: a.ent_at(i) }),
        crate::inventory_system::drop_rel(a, b),
        // the pickup pass: the dropper files a pickup for the same item
        crate::inventory_system::picks(b, j),
        crate::inventory_system::picked_item(b, j) == item,
        b.pickup_intents@[j]->0.collected_by == a.ent_at(i),
        crate::inventory_system::pickup_rel(b, c),
    ensures
        c.backpacks@[item] == a.backpacks@[item],
        c.positions@[item] is None,
{
    assert(b.positions@[item] == a.positions@[i] && b.backpacks@[item] is None);
    assert(c.positions@[item] is None && c.backpacks@[item] == Some(
        InBackpack { owner: b.pickup_intents@[j]->0.collected_by },
    ));
}

} // verus!
