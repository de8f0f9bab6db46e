use vstd::prelude::*;
use crate::components::{
    Color, CombatStats, Entity, EquipmentSlot, Equippable, Fov, Name, Position, Potion, Renderable,
};
use crate::map::Rect;
use crate::rng::roll_dice;
use crate::spawn_table::SpawnTable;
use crate::world::World;

verus! {

/// Slot `i` holds a freshly spawned monster: blocking, sighted, hostile, with
/// the standard monster statistics.
pub open spec fn monster_arch(w: World, i: int) -> bool {
    &&& w.alive@[i]
    &&& w.positions@[i] is Some
    &&& w.monsters@[i]
    &&& w.blockers@[i]
    &&& w.names@[i] is Some
    &&& w.fovs@[i] is Some && w.fovs@[i]->0.range == 8 && w.fovs@[i]->0.dirty
    &&& w.combat_stats@[i] == Some(CombatStats { max_hp: 16, hp: 16, defense: 1, power: 4 })
    &&& !w.players@[i]
    &&& !w.items@[i]
}

/// Slot `i` holds a freshly spawned item lying on the ground.
pub open spec fn item_arch(w: World, i: int) -> bool {
    &&& w.alive@[i]
    &&& w.positions@[i] is Some
    &&& w.items@[i]
    &&& w.names@[i] is Some
    &&& !w.players@[i]
    &&& !w.monsters@[i]
    &&& !w.blockers@[i]
    &&& w.backpacks@[i] is None
    &&& w.equipped@[i] is None
    &&& w.combat_stats@[i] is None
}

/// Slot `i` holds exactly a spawned goblin.
pub open spec fn goblin_at(b: World, i: int) -> bool {
    &&& monster_arch(b, i)
    &&& b.names@[i] is Some && b.names@[i]->0.name@ == "Goblin"@
}

/// Slot `i` holds exactly a spawned orc.
pub open spec fn orc_at(b: World, i: int) -> bool {
    &&& monster_arch(b, i)
    &&& b.names@[i] is Some && b.names@[i]->0.name@ == "Orc"@
}

/// Slot `i` holds exactly a spawned healing potion.
pub open spec fn potion_at(b: World, i: int) -> bool {
    &&& item_arch(b, i)
    &&& b.names@[i] is Some && b.names@[i]->0.name@ == "Health Potion"@
    &&& b.potions@[i] == Some(Potion { heal_amount: 8 })
    &&& b.equippables@[i] is None
}

/// Slot `i` holds exactly a spawned dagger.
pub open spec fn dagger_at(b: World, i: int) -> bool {
    &&& item_arch(b, i)
    &&& b.names@[i] is Some && b.names@[i]->0.name@ == "Dagger"@
    &&& b.potions@[i] is None
    &&& b.equippables@[i] == Some(Equippable { slot: EquipmentSlot::Weapon })
}

/// Slot `i` holds exactly a spawned shield.
pub open spec fn shield_at(b: World, i: int) -> bool {
    &&& item_arch(b, i)
    &&& b.names@[i] is Some && b.names@[i]->0.name@ == "Shield"@
    &&& b.potions@[i] is None
    &&& b.equippables@[i] == Some(Equippable { slot: EquipmentSlot::OffHand })
}

/// Slot `i` holds one of the five things the spawn table offers.
pub open spec fn spawn_of(b: World, i: int) -> bool {
    ||| goblin_at(b, i)
    ||| orc_at(b, i)
    ||| potion_at(b, i)
    ||| dagger_at(b, i)
    ||| shield_at(b, i)
}

/// Every slot born into `b` after `a` is exactly one of the five spawnable
/// things, standing strictly inside the given room, and no two of them share
/// a tile.
pub open spec fn spawned_in_room(a: World, b: World, room: Rect) -> bool {
    &&& forall|i: int|
        a.n() <= i < b.n() ==> {
            &&& spawn_of(b, i)
            &&& (#[trigger] b.positions@[i]) matches Some(p) && room.x1 < p.x <= room.x2
                && room.y1 < p.y <= room.y2
        }
    &&& forall|i1: int, i2: int|
        a.n() <= i1 < i2 < b.n() ==> #[trigger] b.positions@[i1] != #[trigger] b.positions@[i2]
}

/// Whatever a roll against the room table lands on is one of its five names.
pub proof fn lemma_room_roll_names(t: SpawnTable, k: int)
    requires
        t.wf(),
        t.entries@.len() == 5,
        t.entries@[0].name@ == "Goblin"@ && t.entries@[0].weight == 11,
        t.entries@[1].name@ == "Orc"@,
        t.entries@[2].name@ == "Health Potion"@ && t.entries@[2].weight == 7,
        t.entries@[3].name@ == "Shield"@ && t.entries@[3].weight == 3,
        t.entries@[4].name@ == "Dagger"@ && t.entries@[4].weight == 3,
        1 <= k <= t.total_weight,
    ensures
        crate::spawn_table::spec_roll(t.entries@, k) == "Goblin"@ || crate::spawn_table::spec_roll(
            t.entries@,
            k,
        ) == "Orc"@ || crate::spawn_table::spec_roll(t.entries@, k) == "Health Potion"@
            || crate::spawn_table::spec_roll(t.entries@, k) == "Shield"@
            || crate::spawn_table::spec_roll(t.entries@, k) == "Dagger"@,
{
    let s = t.entries@;
    let s1 = s.skip(1);
    let s2 = s.skip(2);
    let s3 = s.skip(3);
    let s4 = s.skip(4);
    assert(s1[0] == s[1] && s2[0] == s[2] && s3[0] == s[3] && s4[0] == s[4]);
    assert(s1.skip(1) =~= s2 && s2.skip(1) =~= s3 && s3.skip(1) =~= s4);
    assert(s4.skip(1) =~= s.skip(5));
    assert(s.skip(5) =~= Seq::<crate::spawn_table::Entry>::empty());
    assert(t.total_weight == crate::spawn_table::sum_weights(s));
    assert(crate::spawn_table::sum_weights(s) == s[0].weight + crate::spawn_table::sum_weights(
        s1,
    ));
    assert(crate::spawn_table::sum_weights(s1) == s[1].weight + crate::spawn_table::sum_weights(
        s2,
    ));
    assert(crate::spawn_table::sum_weights(s2) == s[2].weight + crate::spawn_table::sum_weights(
        s3,
    ));
    assert(crate::spawn_table::sum_weights(s3) == s[3].weight + crate::spawn_table::sum_weights(
        s4,
    ));
    assert(crate::spawn_table::sum_weights(s4) == s[4].weight + crate::spawn_table::sum_weights(
        s.skip(5),
    ));
    assert(crate::spawn_table::sum_weights(s.skip(5)) == 0);
    if k <= s[0].weight {
        assert(crate::spawn_table::spec_roll(s, k) == s[0].name@);
    } else {
        let k1 = k - s[0].weight;
        assert(crate::spawn_table::spec_roll(s, k) == crate::spawn_table::spec_roll(s1, k1));
        if k1 <= s[1].weight {
            assert(crate::spawn_table::spec_roll(s1, k1) == s[1].name@);
        } else {
            let k2 = k1 - s[1].weight;
            assert(crate::spawn_table::spec_roll(s1, k1) == crate::spawn_table::spec_roll(
                s2,
                k2,
            ));
            if k2 <= s[2].weight {
                assert(crate::spawn_table::spec_roll(s2, k2) == s[2].name@);
            } else {
                let k3 = k2 - s[2].weight;
                assert(crate::spawn_table::spec_roll(s2, k2) == crate::spawn_table::spec_roll(
                    s3,
                    k3,
                ));
                if k3 <= s[3].weight {
                    assert(crate::spawn_table::spec_roll(s3, k3) == s[3].name@);
                } else {
                    let k4 = k3 - s[3].weight;
                    assert(crate::spawn_table::spec_roll(s3, k3) == crate::spawn_table::spec_roll(
                        s4,
                        k4,
                    ));
                    assert(1 <= k4 <= s[4].weight);
                    assert(crate::spawn_table::spec_roll(s4, k4) == s[4].name@);
                }
            }
        }
    }
}

/// Spawns the player: sighted, named, fighting with the standard starting
/// statistics, and installed as the world's one player entity.
pub fn player(ecs: &mut World, player_x: i32, player_y: i32) -> (r: Entity)
    requires
        old(ecs).base_wf(),
        old(ecs).map.in_bounds(player_x as int, player_y as int),
        forall|i: int| 0 <= i < old(ecs).n() ==> !(#[trigger] old(ecs).players@[i]),
    ensures
        final(ecs).wf(),
        final(ecs).n() == old(ecs).n() + 1,
        r.id == old(ecs).n(),
        final(ecs).valid(r),
        final(ecs).player_entity == r,
        final(ecs).player_pos == (Position { x: player_x, y: player_y }),
        final(ecs).positions@[r.id as int] == Some(Position { x: player_x, y: player_y }),
        final(ecs).players@[r.id as int],
        final(ecs).combat_stats@[r.id as int] == Some(
            CombatStats { max_hp: 30, hp: 30, defense: 2, power: 5 },
        ),
        final(ecs).fovs@[r.id as int] matches Some(f) && f.range == 8 && f.dirty,
        final(ecs).names@[r.id as int] matches Some(nm) && nm.name@ == "Player"@,
        forall|i: int| 0 <= i < old(ecs).n() ==> final(ecs).slot_eq(*old(ecs), i),
        final(ecs).map == old(ecs).map,
        final(ecs).log == old(ecs).log,
        final(ecs).doomed@ == old(ecs).doomed@,
        final(ecs).run_state == old(ecs).run_state,
{
    let e = ecs.create_entity();
    let ghost mid = *ecs;
    ecs.positions.set(e.id, Some(Position { x: player_x, y: player_y }));
    ecs.renderables.set(
        e.id,
        Some(Renderable { glyph: 64, fg: Color::Yellow, bg: Color::Black, render_order: 0 }),
    );
    ecs.players.set(e.id, true);
    ecs.fovs.set(e.id, Some(Fov { visible_tiles: Vec::new(), range: 8, dirty: true }));
    ecs.names.set(e.id, Some(Name { name: String::from_str("Player") }));
    ecs.combat_stats.set(e.id, Some(CombatStats { max_hp: 30, hp: 30, defense: 2, power: 5 }));
    ecs.player_entity = e;
    ecs.player_pos = Position { x: player_x, y: player_y };
    proof {
        assert forall|i: int| 0 <= i < old(ecs).n() implies ecs.slot_eq(*old(ecs), i) by {
            assert(mid.slot_eq(*old(ecs), i));
        }
        assert forall|i: int|
            0 <= i < ecs.n() implies (#[trigger] ecs.combat_stats@[i] matches Some(s2)
            ==> s2.valid()) by {
            if i < old(ecs).n() {
                assert(ecs.slot_eq(*old(ecs), i));
            }
        }
        assert forall|i: int|
            0 <= i < ecs.n() implies (#[trigger] ecs.potions@[i] matches Some(p2) ==> 0
            <= p2.heal_amount <= crate::components::MAX_STAT) by {
            if i < old(ecs).n() {
                assert(ecs.slot_eq(*old(ecs), i));
            }
        }
        assert forall|i: int|
            0 <= i < ecs.n() implies (#[trigger] ecs.suffer_damage@[i] matches Some(d2)
            ==> forall|k2: int|
                0 <= k2 < d2.amounts@.len() ==> 0 <= #[trigger] d2.amounts@[k2]
                    <= crate::components::MAX_STAT) by {
            if i < old(ecs).n() {
                assert(ecs.slot_eq(*old(ecs), i));
            }
        }
        assert forall|i: int|
            0 <= i < ecs.n() implies (#[trigger] ecs.positions@[i] matches Some(p2)
            ==> ecs.map.in_bounds(p2.x as int, p2.y as int)) by {
            if i < old(ecs).n() {
                assert(ecs.slot_eq(*old(ecs), i));
            }
        }
        assert forall|i: int|
            0 <= i < ecs.n() && #[trigger] ecs.items@[i] implies {
            &&& !(ecs.positions@[i] is Some && ecs.backpacks@[i] is Some)
            &&& !(ecs.positions@[i] is Some && ecs.equipped@[i] is Some)
            &&& !(ecs.backpacks@[i] is Some && ecs.equipped@[i] is Some)
            &&& (ecs.alive@[i] ==> ecs.positions@[i] is Some || ecs.backpacks@[i] is Some
                || ecs.equipped@[i] is Some)
        } by {
            if i < old(ecs).n() {
                assert(ecs.slot_eq(*old(ecs), i));
            }
        }
        assert forall|i: int|
            0 <= i < ecs.n() implies (#[trigger] ecs.fovs@[i] matches Some(f2) ==> 0 <= f2.range
            <= 0x1000) by {
            if i < old(ecs).n() {
                assert(ecs.slot_eq(*old(ecs), i));
            }
        }
        assert forall|i: int|
            0 <= i < ecs.n() && #[trigger] ecs.players@[i] && ecs.alive@[i] implies i
            == ecs.player_entity.id as int by {
            if i < old(ecs).n() {
                assert(ecs.slot_eq(*old(ecs), i));
            }
        }
    }
    e
}

/// Spawns one hostile monster of the given look and name at (x, y).
pub fn monster(ecs: &mut World, x: i32, y: i32, glyph: u16, name: String)
    requires
        old(ecs).base_wf(),
        old(ecs).map.in_bounds(x as int, y as int),
    ensures
        final(ecs).base_wf(),
        old(ecs).player_ok() ==> final(ecs).wf(),
        final(ecs).n() == old(ecs).n() + 1,
        monster_arch(*final(ecs), old(ecs).n()),
        final(ecs).positions@[old(ecs).n()] == Some(Position { x, y }),
        final(ecs).names@[old(ecs).n()] matches Some(nm) && nm.name@ == name@,
        forall|i: int| 0 <= i < old(ecs).n() ==> final(ecs).slot_eq(*old(ecs), i),
        final(ecs).map == old(ecs).map,
        final(ecs).log == old(ecs).log,
        final(ecs).doomed@ == old(ecs).doomed@,
        final(ecs).player_entity == old(ecs).player_entity,
        final(ecs).player_pos == old(ecs).player_pos,
        final(ecs).run_state == old(ecs).run_state,
{
    let e = ecs.create_entity();
    let ghost mid = *ecs;
    ecs.positions.set(e.id, Some(Position { x, y }));
    ecs.renderables.set(
        e.id,
        Some(Renderable { glyph, fg: Color::Red, bg: Color::Black, render_order: 1 }),
    );
    ecs.fovs.set(e.id, Some(Fov { visible_tiles: Vec::new(), range: 8, dirty: true }));
    ecs.monsters.set(e.id, true);
    ecs.names.set(e.id, Some(Name { name }));
    ecs.blockers.set(e.id, true);
    ecs.combat_stats.set(e.id, Some(CombatStats { max_hp: 16, hp: 16, defense: 1, power: 4 }));
    proof {
        assert forall|i: int| 0 <= i < old(ecs).n() implies ecs.slot_eq(*old(ecs), i) by {
            assert(mid.slot_eq(*old(ecs), i));
        }
        assert forall|i: int|
            0 <= i < ecs.n() implies (#[trigger] ecs.combat_stats@[i] matches Some(s2)
            ==> s2.valid()) by {
            if i < old(ecs).n() {
                assert(ecs.slot_eq(*old(ecs), i));
            }
        }
        assert forall|i: int|
            0 <= i < ecs.n() implies (#[trigger] ecs.potions@[i] matches Some(p2) ==> 0
            <= p2.heal_amount <= crate::components::MAX_STAT) by {
            if i < old(ecs).n() {
                assert(ecs.slot_eq(*old(ecs), i));
            }
        }
        assert forall|i: int|
            0 <= i < ecs.n() implies (#[trigger] ecs.suffer_damage@[i] matches Some(d2)
            ==> forall|k2: int|
                0 <= k2 < d2.amounts@.len() ==> 0 <= #[trigger] d2.amounts@[k2]
                    <= crate::components::MAX_STAT) by {
            if i < old(ecs).n() {
                assert(ecs.slot_eq(*old(ecs), i));
            }
        }
        assert forall|i: int|
            0 <= i < ecs.n() implies (#[trigger] ecs.positions@[i] matches Some(p2)
            ==> ecs.map.in_bounds(p2.x as int, p2.y as int)) by {
            if i < old(ecs).n() {
                assert(ecs.slot_eq(*old(ecs), i));
            }
        }
        assert forall|i: int|
            0 <= i < ecs.n() && #[trigger] ecs.items@[i] implies {
            &&& !(ecs.positions@[i] is Some && ecs.backpacks@[i] is Some)
            &&& !(ecs.positions@[i] is Some && ecs.equipped@[i] is Some)
            &&& !(ecs.backpacks@[i] is Some && ecs.equipped@[i] is Some)
            &&& (ecs.alive@[i] ==> ecs.positions@[i] is Some || ecs.backpacks@[i] is Some
                || ecs.equipped@[i] is Some)
        } by {
            if i < old(ecs).n() {
                assert(ecs.slot_eq(*old(ecs), i));
            }
        }
        assert forall|i: int|
            0 <= i < ecs.n() implies (#[trigger] ecs.fovs@[i] matches Some(f2) ==> 0 <= f2.range
            <= 0x1000) by {
            if i < old(ecs).n() {
                assert(ecs.slot_eq(*old(ecs), i));
            }
        }
        if old(ecs).player_ok() {
            assert(ecs.slot_eq(*old(ecs), old(ecs).player_entity.id as int));
            assert forall|i: int|
                0 <= i < ecs.n() && #[trigger] ecs.players@[i] && ecs.alive@[i] implies i
                == ecs.player_entity.id as int by {
                if i < old(ecs).n() {
                    assert(ecs.slot_eq(*old(ecs), i));
                }
            }
        }
    }
}

/// Spawns an orc.
pub fn orc(ecs: &mut World, x: i32, y: i32)
    requires
        old(ecs).base_wf(),
        old(ecs).map.in_bounds(x as int, y as int),
    ensures
        final(ecs).base_wf(),
        old(ecs).player_ok() ==> final(ecs).wf(),
        final(ecs).n() == old(ecs).n() + 1,
        monster_arch(*final(ecs), old(ecs).n()),
        final(ecs).positions@[old(ecs).n()] == Some(Position { x, y }),
        final(ecs).names@[old(ecs).n()] matches Some(nm) && nm.name@ == "Orc"@,
        forall|i: int| 0 <= i < old(ecs).n() ==> final(ecs).slot_eq(*old(ecs), i),
        final(ecs).map == old(ecs).map,
        final(ecs).log == old(ecs).log,
        final(ecs).doomed@ == old(ecs).doomed@,
        final(ecs).player_entity == old(ecs).player_entity,
        final(ecs).player_pos == old(ecs).player_pos,
        final(ecs).run_state == old(ecs).run_state,
{
    monster(ecs, x, y, 111, String::from_str("Orc"));
}

/// Spawns a goblin.
pub fn goblin(ecs: &mut World, x: i32, y: i32)
    requires
        old(ecs).base_wf(),
        old(ecs).map.in_bounds(x as int, y as int),
    ensures
        final(ecs).base_wf(),
        old(ecs).player_ok() ==> final(ecs).wf(),
        final(ecs).n() == old(ecs).n() + 1,
        monster_arch(*final(ecs), old(ecs).n()),
        final(ecs).positions@[old(ecs).n()] == Some(Position { x, y }),
        final(ecs).names@[old(ecs).n()] matches Some(nm) && nm.name@ == "Goblin"@,
        forall|i: int| 0 <= i < old(ecs).n() ==> final(ecs).slot_eq(*old(ecs), i),
        final(ecs).map == old(ecs).map,
        final(ecs).log == old(ecs).log,
        final(ecs).doomed@ == old(ecs).doomed@,
        final(ecs).player_entity == old(ecs).player_entity,
        final(ecs).player_pos == old(ecs).player_pos,
        final(ecs).run_state == old(ecs).run_state,
{
    monster(ecs, x, y, 103, String::from_str("Goblin"));
}

/// Spawns a ground item; potion data and equippable data are optional extras.
fn spawn_item(
    ecs: &mut World,
    x: i32,
    y: i32,
    glyph: u16,
    fg: Color,
    name: String,
    potion: Option<Potion>,
    equippable: Option<Equippable>,
)
    requires
        old(ecs).base_wf(),
        old(ecs).map.in_bounds(x as int, y as int),
        potion matches Some(p) ==> 0 <= p.heal_amount <= crate::components::MAX_STAT,
    ensures
        final(ecs).base_wf(),
        old(ecs).player_ok() ==> final(ecs).wf(),
        final(ecs).n() == old(ecs).n() + 1,
        item_arch(*final(ecs), old(ecs).n()),
        final(ecs).positions@[old(ecs).n()] == Some(Position { x, y }),
        final(ecs).names@[old(ecs).n()] matches Some(nm) && nm.name@ == name@,
        final(ecs).potions@[old(ecs).n()] == potion,
        final(ecs).equippables@[old(ecs).n()] == equippable,
        forall|i: int| 0 <= i < old(ecs).n() ==> final(ecs).slot_eq(*old(ecs), i),
        final(ecs).map == old(ecs).map,
        final(ecs).log == old(ecs).log,
        final(ecs).doomed@ == old(ecs).doomed@,
        final(ecs).player_entity == old(ecs).player_entity,
        final(ecs).player_pos == old(ecs).player_pos,
        final(ecs).run_state == old(ecs).run_state,
{
    let e = ecs.create_entity();
    let ghost mid = *ecs;
    ecs.positions.set(e.id, Some(Position { x, y }));
    ecs.renderables.set(
        e.id,
        Some(Renderable { glyph, fg, bg: Color::Black, render_order: 2 }),
    );
    ecs.names.set(e.id, Some(Name { name }));
    ecs.items.set(e.id, true);
    ecs.potions.set(e.id, potion);
    ecs.equippables.set(e.id, equippable);
    proof {
        assert forall|i: int| 0 <= i < old(ecs).n() implies ecs.slot_eq(*old(ecs), i) by {
            assert(mid.slot_eq(*old(ecs), i));
        }
        assert forall|i: int|
            0 <= i < ecs.n() implies (#[trigger] ecs.combat_stats@[i] matches Some(s2)
            ==> s2.valid()) by {
            if i < old(ecs).n() {
                assert(ecs.slot_eq(*old(ecs), i));
            }
        }
        assert forall|i: int|
            0 <= i < ecs.n() implies (#[trigger] ecs.potions@[i] matches Some(p2) ==> 0
            <= p2.heal_amount <= crate::components::MAX_STAT) by {
            if i < old(ecs).n() {
                assert(ecs.slot_eq(*old(ecs), i));
            }
        }
        assert forall|i: int|
            0 <= i < ecs.n() implies (#[trigger] ecs.suffer_damage@[i] matches Some(d2)
            ==> forall|k2: int|
                0 <= k2 < d2.amounts@.len() ==> 0 <= #[trigger] d2.amounts@[k2]
                    <= crate::components::MAX_STAT) by {
            if i < old(ecs).n() {
                assert(ecs.slot_eq(*old(ecs), i));
            }
        }
        assert forall|i: int|
            0 <= i < ecs.n() implies (#[trigger] ecs.positions@[i] matches Some(p2)
            ==> ecs.map.in_bounds(p2.x as int, p2.y as int)) by {
            if i < old(ecs).n() {
                assert(ecs.slot_eq(*old(ecs), i));
            }
        }
        assert forall|i: int|
            0 <= i < ecs.n() && #[trigger] ecs.items@[i] implies {
            &&& !(ecs.positions@[i] is Some && ecs.backpacks@[i] is Some)
            &&& !(ecs.positions@[i] is Some && ecs.equipped@[i] is Some)
            &&& !(ecs.backpacks@[i] is Some && ecs.equipped@[i] is Some)
            &&& (ecs.alive@[i] ==> ecs.positions@[i] is Some || ecs.backpacks@[i] is Some
                || ecs.equipped@[i] is Some)
        } by {
            if i < old(ecs).n() {
                assert(ecs.slot_eq(*old(ecs), i));
            }
        }
        assert forall|i: int|
            0 <= i < ecs.n() implies (#[trigger] ecs.fovs@[i] matches Some(f2) ==> 0 <= f2.range
            <= 0x1000) by {
            if i < old(ecs).n() {
                assert(ecs.slot_eq(*old(ecs), i));
            }
        }
        if old(ecs).player_ok() {
            assert(ecs.slot_eq(*old(ecs), old(ecs).player_entity.id as int));
            assert forall|i: int|
                0 <= i < ecs.n() && #[trigger] ecs.players@[i] && ecs.alive@[i] implies i
                == ecs.player_entity.id as int by {
                if i < old(ecs).n() {
                    assert(ecs.slot_eq(*old(ecs), i));
                }
            }
        }
    }
}

/// Spawns a healing potion.
pub fn health_potion(ecs: &mut World, x: i32, y: i32)
    requires
        old(ecs).base_wf(),
        old(ecs).map.in_bounds(x as int, y as int),
    ensures
        final(ecs).base_wf(),
        old(ecs).player_ok() ==> final(ecs).wf(),
        final(ecs).n() == old(ecs).n() + 1,
        item_arch(*final(ecs), old(ecs).n()),
        final(ecs).positions@[old(ecs).n()] == Some(Position { x, y }),
        final(ecs).names@[old(ecs).n()] matches Some(nm) && nm.name@ == "Health Potion"@,
        final(ecs).potions@[old(ecs).n()] == Some(Potion { heal_amount: 8 }),
        final(ecs).equippables@[old(ecs).n()] is None,
        forall|i: int| 0 <= i < old(ecs).n() ==> final(ecs).slot_eq(*old(ecs), i),
        final(ecs).map == old(ecs).map,
        final(ecs).log == old(ecs).log,
        final(ecs).doomed@ == old(ecs).doomed@,
        final(ecs).player_entity == old(ecs).player_entity,
        final(ecs).player_pos == old(ecs).player_pos,
        final(ecs).run_state == old(ecs).run_state,
{
    spawn_item(
        ecs,
        x,
        y,
        33,
        Color::Magenta,
        String::from_str("Health Potion"),
        Some(Potion { heal_amount: 8 }),
        None,
    );
}

/// Spawns a dagger, equippable in the weapon hand.
pub fn dagger(ecs: &mut World, x: i32, y: i32)
    requires
        old(ecs).base_wf(),
        old(ecs).map.in_bounds(x as int, y as int),
    ensures
        final(ecs).base_wf(),
        old(ecs).player_ok() ==> final(ecs).wf(),
        final(ecs).n() == old(ecs).n() + 1,
        item_arch(*final(ecs), old(ecs).n()),
        final(ecs).positions@[old(ecs).n()] == Some(Position { x, y }),
        final(ecs).names@[old(ecs).n()] matches Some(nm) && nm.name@ == "Dagger"@,
        final(ecs).potions@[old(ecs).n()] is None,
        final(ecs).equippables@[old(ecs).n()] == Some(
            Equippable { slot: EquipmentSlot::Weapon },
        ),
        forall|i: int| 0 <= i < old(ecs).n() ==> final(ecs).slot_eq(*old(ecs), i),
        final(ecs).map == old(ecs).map,
        final(ecs).log == old(ecs).log,
        final(ecs).doomed@ == old(ecs).doomed@,
        final(ecs).player_entity == old(ecs).player_entity,
        final(ecs).player_pos == old(ecs).player_pos,
        final(ecs).run_state == old(ecs).run_state,
{
    spawn_item(
        ecs,
        x,
        y,
        47,
        Color::Yellow,
        String::from_str("Dagger"),
        None,
        Some(Equippable { slot: EquipmentSlot::Weapon }),
    );
}

/// Spawns a shield, equippable in the off hand.
pub fn shield(ecs: &mut World, x: i32, y: i32)
    requires
        old(ecs).base_wf(),
        old(ecs).map.in_bounds(x as int, y as int),
    ensures
        final(ecs).base_wf(),
        old(ecs).player_ok() ==> final(ecs).wf(),
        final(ecs).n() == old(ecs).n() + 1,
        item_arch(*final(ecs), old(ecs).n()),
        final(ecs).positions@[old(ecs).n()] == Some(Position { x, y }),
        final(ecs).names@[old(ecs).n()] matches Some(nm) && nm.name@ == "Shield"@,
        final(ecs).potions@[old(ecs).n()] is None,
        final(ecs).equippables@[old(ecs).n()] == Some(
            Equippable { slot: EquipmentSlot::OffHand },
        ),
        forall|i: int| 0 <= i < old(ecs).n() ==> final(ecs).slot_eq(*old(ecs), i),
        final(ecs).map == old(ecs).map,
        final(ecs).log == old(ecs).log,
        final(ecs).doomed@ == old(ecs).doomed@,
        final(ecs).player_entity == old(ecs).player_entity,
        final(ecs).player_pos == old(ecs).player_pos,
        final(ecs).run_state == old(ecs).run_state,
{
    spawn_item(
        ecs,
        x,
        y,
        93,
        Color::Yellow,
        String::from_str("Shield"),
        None,
        Some(Equippable { slot: EquipmentSlot::OffHand }),
    );
}

/// The weighted spawn chances for one room at the given depth: goblins are
/// common, orcs grow with depth, potions and gear are occasional.
pub fn room_table(depth: i32) -> (r: SpawnTable)
    requires
        1 <= depth <= 100_000,
    ensures
        r.wf(),
        r.entries@.len() == 5,
        r.entries@[0].name@ == "Goblin"@ && r.entries@[0].weight == 11,
        r.entries@[1].name@ == "Orc"@ && r.entries@[1].weight == 1 + depth,
        r.entries@[2].name@ == "Health Potion"@ && r.entries@[2].weight == 7,
        r.entries@[3].name@ == "Shield"@ && r.entries@[3].weight == 3,
        r.entries@[4].name@ == "Dagger"@ && r.entries@[4].weight == 3,
        r.total_weight == 25 + depth,
{
    SpawnTable::new().add(String::from_str("Goblin"), 11).add(
        String::from_str("Orc"),
        1 + depth,
    ).add(String::from_str("Health Potion"), 7).add(String::from_str("Shield"), 3).add(
        String::from_str("Dagger"),
        3,
    )
}

/// The five names the room table offers.
pub open spec fn table_name(nm: Seq<char>) -> bool {
    ||| nm == "Goblin"@
    ||| nm == "Orc"@
    ||| nm == "Health Potion"@
    ||| nm == "Shield"@
    ||| nm == "Dagger"@
}

/// The shape `room_table` always returns: the five entries with their fixed
/// names, and the fixed weights of all but the depth-scaled orc.
pub open spec fn room_table_shape(t: SpawnTable) -> bool {
    &&& t.wf()
    &&& t.total_weight >= 26
    &&& t.entries@.len() == 5
    &&& t.entries@[0].name@ == "Goblin"@ && t.entries@[0].weight == 11
    &&& t.entries@[1].name@ == "Orc"@
    &&& t.entries@[2].name@ == "Health Potion"@ && t.entries@[2].weight == 7
    &&& t.entries@[3].name@ == "Shield"@ && t.entries@[3].weight == 3
    &&& t.entries@[4].name@ == "Dagger"@ && t.entries@[4].weight == 3
}

/// Populates one room: rolls how many things to place, picks pairwise
/// distinct spots inside the room, rolls each spawn from the depth's table,
/// and creates the chosen monsters and items. Whatever the dice said, every
/// new entity is exactly one of the five table offerings on its own in-room
/// tile, every old entity is untouched — and from depth four on, at least
/// one thing is always placed.
pub fn spawn_room(ecs: &mut World, room: &Rect)
    requires
        old(ecs).wf(),
        old(ecs).map.valid_room(*room),
    ensures
        final(ecs).wf(),
        final(ecs).n() >= old(ecs).n(),
        old(ecs).map.depth >= 4 ==> final(ecs).n() > old(ecs).n(),
        spawned_in_room(*old(ecs), *final(ecs), *room),
        forall|i: int| 0 <= i < old(ecs).n() ==> final(ecs).slot_eq(*old(ecs), i),
        final(ecs).map == old(ecs).map,
        final(ecs).log == old(ecs).log,
        final(ecs).doomed@ == old(ecs).doomed@,
        final(ecs).player_entity == old(ecs).player_entity,
        final(ecs).player_pos == old(ecs).player_pos,
        final(ecs).run_state == old(ecs).run_state,
{
    let ghost ow = *old(ecs);
    let depth = ecs.map.depth;
    let table = room_table(depth);
    proof {
        reveal_strlit("Goblin");
        reveal_strlit("Orc");
        reveal_strlit("Health Potion");
        reveal_strlit("Shield");
        reveal_strlit("Dagger");
    }
    // pick the spawn spots and what stands on them
    let mut chosen: Vec<(i32, i32, String)> = Vec::new();
    let num_spawns = roll_dice(&mut ecs.rng, 1, 7) + depth - 4;
    let mut s: i32 = 0;
    let ghost x1 = room.x1 as int;
    let ghost x2 = room.x2 as int;
    let ghost y1 = room.y1 as int;
    let ghost y2 = room.y2 as int;
    while s < num_spawns
        invariant
            *ecs == ow.with_rng(ecs.rng),
            ow.wf(),
            room_table_shape(table),
            ow.map.valid_room(*room),
            x1 == room.x1 as int && x2 == room.x2 as int && y1 == room.y1 as int && y2
                == room.y2 as int,
            num_spawns <= 100_003,
            s >= 1 ==> chosen@.len() >= 1,
            forall|q: int|
                0 <= q < chosen@.len() ==> {
                    &&& x1 < (#[trigger] chosen@[q]).0 <= x2
                    &&& y1 < chosen@[q].1 <= y2
                    &&& table_name(chosen@[q].2@)
                },
            forall|p1: int, p2: int|
                0 <= p1 < p2 < chosen@.len() ==> ((#[trigger] chosen@[p1]).0 != (
                #[trigger] chosen@[p2]).0 || chosen@[p1].1 != chosen@[p2].1),
        decreases num_spawns - s,
    {
        let mut added = false;
        let mut tries: i32 = 0;
        while !added && tries < 20
            invariant
                *ecs == ow.with_rng(ecs.rng),
                ow.wf(),
                room_table_shape(table),
                ow.map.valid_room(*room),
                x1 == room.x1 as int && x2 == room.x2 as int && y1 == room.y1 as int && y2
                    == room.y2 as int,
                0 <= tries <= 20,
                tries > 0 ==> chosen@.len() >= 1,
                added ==> chosen@.len() >= 1,
                forall|q: int|
                    0 <= q < chosen@.len() ==> {
                        &&& x1 < (#[trigger] chosen@[q]).0 <= x2
                        &&& y1 < chosen@[q].1 <= y2
                        &&& table_name(chosen@[q].2@)
                    },
                forall|p1: int, p2: int|
                    0 <= p1 < p2 < chosen@.len() ==> ((#[trigger] chosen@[p1]).0 != (
                    #[trigger] chosen@[p2]).0 || chosen@[p1].1 != chosen@[p2].1),
            decreases 20 - tries + (if added {
                0int
            } else {
                1int
            }),
        {
            let x = room.x1 + roll_dice(&mut ecs.rng, 1, room.x2 - room.x1);
            let y = room.y1 + roll_dice(&mut ecs.rng, 1, room.y2 - room.y1);
            let mut taken = false;
            let m = chosen.len();
            let mut q: usize = 0;
            while q < m
                invariant
                    q <= m,
                    m == chosen@.len(),
                    taken <==> exists|q2: int|
                        0 <= q2 < q && (#[trigger] chosen@[q2]).0 == x && chosen@[q2].1 == y,
                decreases m - q,
            {
                let (cx, cy, _) = &chosen[q];
                if *cx == x && *cy == y {
                    taken = true;
                }
                q = q + 1;
            }
            if !taken {
                let name = table.roll(&mut ecs.rng);
                proof {
                    assert(table.total_weight > 0);
                    assert(exists|k: int|
                        1 <= k <= table.total_weight && name@
                            == #[trigger] crate::spawn_table::spec_roll(table.entries@, k));
                    let k = choose|k: int|
                        1 <= k <= table.total_weight && name@
                            == #[trigger] crate::spawn_table::spec_roll(table.entries@, k);
                    lemma_room_roll_names(table, k);
                    assert(table_name(name@));
                }
                let ghost pre_c = chosen@;
                chosen.push((x, y, name));
                added = true;
                proof {
                    assert forall|p1: int, p2: int|
                        0 <= p1 < p2 < chosen@.len() implies ((#[trigger] chosen@[p1]).0 != (
                    #[trigger] chosen@[p2]).0 || chosen@[p1].1 != chosen@[p2].1) by {
                        if p2 == chosen@.len() - 1 {
                            assert(chosen@[p1] == pre_c[p1]);
                            assert(!(pre_c[p1].0 == x && pre_c[p1].1 == y));
                        } else {
                            assert(chosen@[p1] == pre_c[p1] && chosen@[p2] == pre_c[p2]);
                        }
                    }
                }
            } else {
                tries = tries + 1;
            }
        }
        s = s + 1;
    }
    proof {
        if ow.map.depth >= 4 {
            assert(num_spawns >= 1);
            assert(chosen@.len() >= 1);
        }
    }
    // place what the dice chose: each spot gets exactly its rolled thing
    let m = chosen.len();
    let mut q: usize = 0;
    let goblin_name = String::from_str("Goblin");
    let orc_name = String::from_str("Orc");
    let potion_name = String::from_str("Health Potion");
    let shield_name = String::from_str("Shield");
    let dagger_name = String::from_str("Dagger");
    while q < m
        invariant
            q <= m,
            m == chosen@.len(),
            ecs.wf(),
            ecs.n() == ow.n() + q,
            ow.map.valid_room(*room),
            x1 == room.x1 as int && x2 == room.x2 as int && y1 == room.y1 as int && y2
                == room.y2 as int,
            goblin_name@ == "Goblin"@ && orc_name@ == "Orc"@ && potion_name@ == "Health Potion"@
                && shield_name@ == "Shield"@ && dagger_name@ == "Dagger"@,
            forall|p: int|
                0 <= p < chosen@.len() ==> {
                    &&& x1 < (#[trigger] chosen@[p]).0 <= x2
                    &&& y1 < chosen@[p].1 <= y2
                    &&& table_name(chosen@[p].2@)
                },
            forall|p1: int, p2: int|
                0 <= p1 < p2 < chosen@.len() ==> ((#[trigger] chosen@[p1]).0 != (
                #[trigger] chosen@[p2]).0 || chosen@[p1].1 != chosen@[p2].1),
            forall|p: int|
                0 <= p < q ==> #[trigger] ecs.positions@[ow.n() + p] == Some(
                    Position { x: (#[trigger] chosen@[p]).0, y: chosen@[p].1 },
                ),
            spawned_in_room(ow, *ecs, *room),
            forall|i: int| 0 <= i < ow.n() ==> ecs.slot_eq(ow, i),
            ecs.map == ow.map,
            ecs.log == ow.log,
            ecs.doomed@ == ow.doomed@,
            ecs.player_entity == ow.player_entity,
            ecs.player_pos == ow.player_pos,
            ecs.run_state == ow.run_state,
        decreases m - q,
    {
        let ghost pre = *ecs;
        proof {
            reveal_strlit("Goblin");
            reveal_strlit("Orc");
            reveal_strlit("Health Potion");
            reveal_strlit("Shield");
            reveal_strlit("Dagger");
        }
        let (x, y, name) = {
            let t = &chosen[q];
            (t.0, t.1, t.2.clone())
        };
        proof {
            assert(table_name(chosen@[q as int].2@));
            assert(name@ == chosen@[q as int].2@);
        }
        if name == goblin_name {
            goblin(ecs, x, y);
        } else if name == orc_name {
            orc(ecs, x, y);
        } else if name == potion_name {
            health_potion(ecs, x, y);
        } else if name == shield_name {
            shield(ecs, x, y);
        } else {
            proof {
                assert(name@ == "Dagger"@);
            }
            dagger(ecs, x, y);
        }
        q = q + 1;
        proof {
            let qq = q as int;
            assert(ecs.n() == ow.n() + qq);
            assert forall|i: int| 0 <= i < ow.n() implies ecs.slot_eq(ow, i) by {
                assert(ecs.slot_eq(pre, i));
                assert(pre.slot_eq(ow, i));
            }
            assert forall|p: int|
                0 <= p < qq implies #[trigger] ecs.positions@[ow.n() + p] == Some(
                Position { x: (#[trigger] chosen@[p]).0, y: chosen@[p].1 },
            ) by {
                if p < qq - 1 {
                    assert(ecs.slot_eq(pre, ow.n() + p));
                    assert(pre.positions@[ow.n() + p] == Some(
                        Position { x: chosen@[p].0, y: chosen@[p].1 },
                    ));
                }
            }
            assert forall|i: int|
                ow.n() <= i < ecs.n() implies {
                &&& spawn_of(*ecs, i)
                &&& (#[trigger] ecs.positions@[i]) matches Some(pp) && room.x1 < pp.x <= room.x2
                    && room.y1 < pp.y <= room.y2
            } by {
                if i < pre.n() {
                    assert(ecs.slot_eq(pre, i));
                    assert(spawn_of(pre, i));
                    assert(pre.positions@[i] == ecs.positions@[i]);
                } else {
                    assert(i == ow.n() + (qq - 1));
                    assert(table_name(chosen@[qq - 1].2@));
                }
            }
            assert forall|i1: int, i2: int|
                ow.n() <= i1 < i2 < ecs.n() implies #[trigger] ecs.positions@[i1]
                != #[trigger] ecs.positions@[i2] by {
                if i2 < pre.n() {
                    assert(ecs.slot_eq(pre, i1) && ecs.slot_eq(pre, i2));
                    assert(pre.positions@[i1] != pre.positions@[i2]);
                } else {
                    let p1 = i1 - ow.n();
                    assert(ecs.positions@[ow.n() + p1] == Some(
                        Position { x: chosen@[p1].0, y: chosen@[p1].1 },
                    ));
                    assert(ecs.positions@[ow.n() + (qq - 1)] == Some(
                        Position { x: chosen@[qq - 1].0, y: chosen@[qq - 1].1 },
                    ));
                    assert(chosen@[p1].0 != chosen@[qq - 1].0 || chosen@[p1].1 != chosen@[qq
                        - 1].1);
                }
            }
        }
    }
}

} // verus!
