use vstd::prelude::*;
use crate::components::{AttackIntent, Entity, Fov, Position, WantsToPickupItem};
use crate::gamelog::log_view;
use crate::map::TileType;
use crate::state::{RunState, State};
use crate::world::World;

verus! {

/// What one keypress amounts to, as decoded by the input layer.
#[derive(Clone, Copy, PartialEq, Eq, Structural, Debug)]
pub enum Command {
    Move { dx: i32, dy: i32 },
    SkipTurn,
    Pickup,
    ShowInventory,
    ShowDropItem,
    Descend,
    MenuUp,
    MenuDown,
    Select { idx: usize },
    Confirm,
    Cancel,
    NoInput,
}

/// The first live entity with combat stats in the occupant list `c`, if any:
/// the melee target a mover bumps into.
pub open spec fn first_combat_target(w: World, c: Seq<Entity>) -> Option<Entity>
    decreases c.len(),
{
    if c.len() == 0 {
        Option::None
    } else if w.valid(c[0]) && w.combat_stats@[c[0].id as int] is Some {
        Option::Some(c[0])
    } else {
        first_combat_target(w, c.skip(1))
    }
}

/// Everything except positions, fovs, attack intents and the player-position
/// resource is as it was: the frame of a player move.
pub open spec fn move_frame(a: World, b: World) -> bool {
    &&& b.n() == a.n()
    &&& b.gens@ == a.gens@
    &&& b.alive@ == a.alive@
    &&& b.renderables@ == a.renderables@
    &&& b.players@ == a.players@
    &&& b.monsters@ == a.monsters@
    &&& b.blockers@ == a.blockers@
    &&& b.names@ == a.names@
    &&& b.combat_stats@ == a.combat_stats@
    &&& b.items@ == a.items@
    &&& b.potions@ == a.potions@
    &&& b.equippables@ == a.equippables@
    &&& b.equipped@ == a.equipped@
    &&& b.backpacks@ == a.backpacks@
    &&& b.pickup_intents@ == a.pickup_intents@
    &&& b.drink_intents@ == a.drink_intents@
    &&& b.drop_intents@ == a.drop_intents@
    &&& b.suffer_damage@ == a.suffer_damage@
    &&& b.doomed@ == a.doomed@
    &&& b.map == a.map
    &&& b.log == a.log
    &&& b.player_entity == a.player_entity
    &&& b.run_state == a.run_state
}

/// Exactly how a player move from `a` leads to `b`.
pub open spec fn player_move_rel(a: World, b: World, dx: int, dy: int) -> bool {
    let pid = a.player_entity.id as int;
    let nx = a.player_pos.x + dx;
    let ny = a.player_pos.y + dy;
    let dest = a.map.idx_of(nx, ny);
    &&& move_frame(a, b)
    &&& if !(1 <= nx <= a.map.width - 1 && 1 <= ny <= a.map.height - 1) {
        // walking off the inner field does nothing
        &&& b.positions@ == a.positions@
        &&& b.fovs@ == a.fovs@
        &&& b.attack_intents@ == a.attack_intents@
        &&& b.player_pos == a.player_pos
    } else if first_combat_target(a, a.map.tile_content@[dest]@) is Some {
        // bump attack: intent instead of motion
        &&& b.attack_intents@ == a.attack_intents@.update(
            pid,
            Some(
                AttackIntent { target: first_combat_target(a, a.map.tile_content@[dest]@)->0 },
            ),
        )
        &&& b.positions@ == a.positions@
        &&& b.fovs@ == a.fovs@
        &&& b.player_pos == a.player_pos
    } else if !a.map.blocked@[dest] {
        // step onto the free tile, sight needs recomputation
        &&& b.positions@ == a.positions@.update(
            pid,
            Some(Position { x: nx as i32, y: ny as i32 }),
        )
        &&& b.player_pos == (Position { x: nx as i32, y: ny as i32 })
        &&& b.fovs@[pid] is Some
        &&& b.fovs@[pid]->0.dirty
        &&& b.fovs@[pid]->0.range == a.fovs@[pid]->0.range
        &&& b.fovs@[pid]->0.visible_tiles@ == a.fovs@[pid]->0.visible_tiles@
        &&& forall|q: int| 0 <= q < a.n() && q != pid ==> #[trigger] b.fovs@[q] == a.fovs@[q]
        &&& b.attack_intents@ == a.attack_intents@
    } else {
        // bumped into an obstacle
        &&& b.positions@ == a.positions@
        &&& b.fovs@ == a.fovs@
        &&& b.attack_intents@ == a.attack_intents@
        &&& b.player_pos == a.player_pos
    }
}

pub(crate) fn copy_tiles(v: &Vec<Position>) -> (r: Vec<Position>)
    ensures
        r@ == v@,
{
    let mut r: Vec<Position> = Vec::new();
    let n = v.len();
    let mut i: usize = 0;
    while i < n
        invariant
            i <= n,
            n == v@.len(),
            r@ == v@.subrange(0, i as int),
        decreases n - i,
    {
        r.push(v[i]);
        i = i + 1;
    }
    proof {
        assert(r@ =~= v@);
    }
    r
}

/// Attempts to move the player one step. A target on the destination tile
/// turns the move into a melee intent; an obstacle swallows it; otherwise the
/// player steps over, and its view is marked for recomputation.
pub fn player_move(dx: i32, dy: i32, ecs: &mut World)
    requires
        old(ecs).wf(),
        -1 <= dx <= 1,
        -1 <= dy <= 1,
    ensures
        final(ecs).wf(),
        player_move_rel(*old(ecs), *final(ecs), dx as int, dy as int),
{
    let ghost ow = *old(ecs);
    let pid = ecs.player_entity.id;
    let px = ecs.player_pos.x;
    let py = ecs.player_pos.y;
    let nx = px + dx;
    let ny = py + dy;
    if nx < 1 || nx > ecs.map.width - 1 || ny < 1 || ny > ecs.map.height - 1 {
        return ;
    }
    let dest = ecs.map.xy_idx(nx, ny);
    // scan the occupants for something that can be fought
    let c = &ecs.map.tile_content[dest];
    let m = c.len();
    let mut target: Option<Entity> = None;
    let mut k: usize = 0;
    proof {
        assert(c@.skip(0) =~= c@);
    }
    while k < m
        invariant
            k <= m,
            m == c@.len(),
            *ecs == ow,
            ow.wf(),
            match target {
                Option::Some(t) => first_combat_target(ow, c@) == Some(t),
                Option::None => first_combat_target(ow, c@) == first_combat_target(
                    ow,
                    c@.skip(k as int),
                ),
            },
        decreases m - k,
    {
        if target.is_none() {
            let e = c[k];
            let hit = e.id < ecs.gens.len() && ecs.gens[e.id] == e.gen && ecs.alive[e.id]
                && matches!(&ecs.combat_stats[e.id], Option::Some(_));
            proof {
                assert(c@.skip(k as int)[0] == c@[k as int]);
                assert(c@.skip(k as int).skip(1) =~= c@.skip(k as int + 1));
                assert(hit == (ow.valid(c@[k as int]) && ow.combat_stats@[c@[k as int].id as int] is Some));
            }
            if hit {
                target = Some(e);
            }
        }
        k = k + 1;
    }
    proof {
        if target is None {
            assert(c@.skip(m as int) =~= Seq::<Entity>::empty());
            assert(first_combat_target(ow, c@.skip(m as int)) == first_combat_target(
                ow,
                Seq::<Entity>::empty(),
            ));
            assert(first_combat_target(ow, c@) is None);
        }
    }
    if let Option::Some(t) = target {
        ecs.attack_intents.set(pid, Some(AttackIntent { target: t }));
        return ;
    }
    if !ecs.map.blocked[dest] {
        let (vis, range) = match &ecs.fovs[pid] {
            Option::Some(f) => (copy_tiles(&f.visible_tiles), f.range),
            Option::None => unreached(),
        };
        ecs.positions.set(pid, Some(Position { x: nx, y: ny }));
        ecs.fovs.set(pid, Some(Fov { visible_tiles: vis, range, dirty: true }));
        ecs.player_pos = Position { x: nx, y: ny };
    }
}

/// Slot `i` holds a live item lying at the player's feet.
pub open spec fn item_here(w: World, i: int) -> bool {
    &&& 0 <= i < w.n()
    &&& w.alive@[i]
    &&& w.items@[i]
    &&& w.positions@[i] == Some(w.player_pos)
}

/// The item the pickup key would grab: the last matching slot, as the
/// original scan kept overwriting its candidate.
pub open spec fn last_item_here(w: World, k: int) -> Option<int>
    decreases k,
{
    if k <= 0 {
        Option::None
    } else if item_here(w, k - 1) {
        Option::Some(k - 1)
    } else {
        last_item_here(w, k - 1)
    }
}

/// Exactly what the pickup key does to the world: files an intent for
/// the item found at the player's feet, or logs that there is nothing.
pub open spec fn get_item_rel(a: World, b: World) -> bool {
    &&& b.n() == a.n()
    &&& match last_item_here(a, a.n()) {
            Option::Some(j) => {
                &&& b.pickup_intents@ == a.pickup_intents@.update(
                    a.player_entity.id as int,
                    Some(
                        WantsToPickupItem {
                            collected_by: a.player_entity,
                            item: a.ent_at(j),
                        },
                    ),
                )
                &&& b.log == a.log
            },
            Option::None => {
                &&& b.pickup_intents@ == a.pickup_intents@
                &&& log_view(b.log) =~= log_view(a.log).push(
                    "There is nothing here to pick up."@,
                )
            },
        }
    &&& b.gens@ == a.gens@
    &&& b.alive@ == a.alive@
    &&& b.positions@ == a.positions@
    &&& b.renderables@ == a.renderables@
    &&& b.players@ == a.players@
    &&& b.monsters@ == a.monsters@
    &&& b.blockers@ == a.blockers@
    &&& b.fovs@ == a.fovs@
    &&& b.names@ == a.names@
    &&& b.combat_stats@ == a.combat_stats@
    &&& b.items@ == a.items@
    &&& b.potions@ == a.potions@
    &&& b.equippables@ == a.equippables@
    &&& b.equipped@ == a.equipped@
    &&& b.backpacks@ == a.backpacks@
    &&& b.attack_intents@ == a.attack_intents@
    &&& b.drink_intents@ == a.drink_intents@
    &&& b.drop_intents@ == a.drop_intents@
    &&& b.suffer_damage@ == a.suffer_damage@
    &&& b.doomed@ == a.doomed@
    &&& b.map == a.map
    &&& b.player_entity == a.player_entity
    &&& b.player_pos == a.player_pos
    &&& b.run_state == a.run_state
}

/// Tries to pick up an item at the player's feet: files a pickup intent for
/// the item found there, or logs that there is nothing.
pub fn get_item(ecs: &mut World)
    requires
        old(ecs).wf(),
    ensures
        final(ecs).wf(),
        get_item_rel(*old(ecs), *final(ecs)),
{
    let ghost ow = *old(ecs);
    let n = ecs.gens.len();
    let mut found: Option<usize> = None;
    let mut i: usize = 0;
    while i < n
        invariant
            i <= n,
            n == ecs.n(),
            *ecs == ow,
            ow.wf(),
            match found {
                Option::Some(j) => j < i && last_item_here(ow, i as int) == Some(j as int),
                Option::None => last_item_here(ow, i as int) is None,
            },
        decreases n - i,
    {
        let here = if ecs.alive[i] && ecs.items[i] {
            match &ecs.positions[i] {
                Option::Some(p) => p.x == ecs.player_pos.x && p.y == ecs.player_pos.y,
                Option::None => false,
            }
        } else {
            false
        };
        if here {
            found = Some(i);
        }
        i = i + 1;
    }
    match found {
        Option::None => {
            let msg = String::from_str("There is nothing here to pick up.");
            ecs.log.push(msg);
        },
        Option::Some(j) => {
            let item = Entity { id: j, gen: ecs.gens[j] };
            let me = ecs.player_entity;
            ecs.pickup_intents.set(me.id, Some(WantsToPickupItem { collected_by: me, item }));
        },
    }
}

/// Whether the player stands on a down-staircase.
pub open spec fn on_stairs(w: World) -> bool {
    w.map.tiles@[w.map.idx_of(w.player_pos.x as int, w.player_pos.y as int)] is DownStairs
}

/// What a failed descent leaves behind: one log line, nothing else.
pub open spec fn descend_fail_rel(a: World, b: World) -> bool {

    &&& log_view(b.log) =~= log_view(a.log).push(
        "There is no stairs to go down from here."@,
    )
    &&& b.gens@ == a.gens@
    &&& b.alive@ == a.alive@
    &&& b.positions@ == a.positions@
    &&& b.renderables@ == a.renderables@
    &&& b.players@ == a.players@
    &&& b.monsters@ == a.monsters@
    &&& b.blockers@ == a.blockers@
    &&& b.fovs@ == a.fovs@
    &&& b.names@ == a.names@
    &&& b.combat_stats@ == a.combat_stats@
    &&& b.items@ == a.items@
    &&& b.potions@ == a.potions@
    &&& b.equippables@ == a.equippables@
    &&& b.equipped@ == a.equipped@
    &&& b.backpacks@ == a.backpacks@
    &&& b.attack_intents@ == a.attack_intents@
    &&& b.pickup_intents@ == a.pickup_intents@
    &&& b.drink_intents@ == a.drink_intents@
    &&& b.drop_intents@ == a.drop_intents@
    &&& b.suffer_damage@ == a.suffer_damage@
    &&& b.doomed@ == a.doomed@
    &&& b.map == a.map
    &&& b.player_entity == a.player_entity
    &&& b.player_pos == a.player_pos
    &&& b.run_state == a.run_state
}

/// Checks for a staircase under the player: true means the descent may
/// proceed; otherwise only a log line is produced and nothing changes.
pub fn climb_down(ecs: &mut World) -> (r: bool)
    requires
        old(ecs).wf(),
    ensures
        final(ecs).wf(),
        r == on_stairs(*old(ecs)),
        r ==> *final(ecs) == *old(ecs),
        !r ==> descend_fail_rel(*old(ecs), *final(ecs)),
{
    let idx = ecs.map.xy_idx(ecs.player_pos.x, ecs.player_pos.y);
    let stairs = match ecs.map.tiles[idx] {
        TileType::DownStairs => true,
        _ => false,
    };
    if stairs {
        true
    } else {
        let msg = String::from_str("There is no stairs to go down from here.");
        ecs.log.push(msg);
        false
    }
}

/// The occupant list at `idx` holds a live monster.
pub open spec fn monster_in(w: World, c: Seq<Entity>) -> bool {
    exists|k: int|
        0 <= k < c.len() && w.valid(#[trigger] c[k]) && w.monsters@[c[k].id as int]
}

/// A monster stands somewhere in the player's currently visible tiles, so
/// resting is unsafe.
pub open spec fn monster_visible(w: World) -> bool {
    exists|k: int|
        #![trigger w.fovs@[w.player_entity.id as int]->0.visible_tiles@[k]]
        {
            let tiles = w.fovs@[w.player_entity.id as int]->0.visible_tiles@;
            &&& 0 <= k < tiles.len()
            &&& w.map.in_bounds(tiles[k].x as int, tiles[k].y as int)
            &&& monster_in(
                w,
                w.map.tile_content@[w.map.idx_of(tiles[k].x as int, tiles[k].y as int)]@,
            )
        }
}

/// Exactly what resting does to the world: one hit point back, capped at
/// max_hp, and only when no monster is anywhere in the player's sight.
pub open spec fn skip_rel(a: World, b: World) -> bool {
    &&& ({
            let pid = a.player_entity.id as int;
            let s = a.combat_stats@[pid]->0;
            if !monster_visible(a) {
                b.combat_stats@ == a.combat_stats@.update(
                    pid,
                    Some(
                        crate::components::CombatStats {
                            hp: if s.hp + 1 > s.max_hp {
                                s.max_hp
                            } else {
                                (s.hp + 1) as i32
                            },
                            ..s
                        },
                    ),
                )
            } else {
                b.combat_stats@ == a.combat_stats@
            }
        })
    &&& b.gens@ == a.gens@
    &&& b.alive@ == a.alive@
    &&& b.positions@ == a.positions@
    &&& b.renderables@ == a.renderables@
    &&& b.players@ == a.players@
    &&& b.monsters@ == a.monsters@
    &&& b.blockers@ == a.blockers@
    &&& b.fovs@ == a.fovs@
    &&& b.names@ == a.names@
    &&& b.items@ == a.items@
    &&& b.potions@ == a.potions@
    &&& b.equippables@ == a.equippables@
    &&& b.equipped@ == a.equipped@
    &&& b.backpacks@ == a.backpacks@
    &&& b.attack_intents@ == a.attack_intents@
    &&& b.pickup_intents@ == a.pickup_intents@
    &&& b.drink_intents@ == a.drink_intents@
    &&& b.drop_intents@ == a.drop_intents@
    &&& b.suffer_damage@ == a.suffer_damage@
    &&& b.doomed@ == a.doomed@
    &&& b.map == a.map
    &&& b.log == a.log
    &&& b.player_entity == a.player_entity
    &&& b.player_pos == a.player_pos
    &&& b.run_state == a.run_state
}

/// Rests for a turn: heals the player one hit point (capped at max_hp), but
/// only when no monster is anywhere in sight.
pub fn skip_turn(ecs: &mut World) -> (r: RunState)
    requires
        old(ecs).wf(),
    ensures
        final(ecs).wf(),
        r == RunState::PlayerTurn,
        skip_rel(*old(ecs), *final(ecs)),
{
    let ghost ow = *old(ecs);
    let pid = ecs.player_entity.id;
    let mut can_heal = true;
    let m = match &ecs.fovs[pid] {
        Option::Some(f) => f.visible_tiles.len(),
        Option::None => unreached(),
    };
    let mut k: usize = 0;
    while k < m
        invariant
            k <= m,
            *ecs == ow,
            ow.wf(),
            pid == ow.player_entity.id,
            ow.fovs@[pid as int] is Some,
            m == ow.fovs@[pid as int]->0.visible_tiles@.len(),
            can_heal <==> !(exists|q: int|
                #![trigger ow.fovs@[ow.player_entity.id as int]->0.visible_tiles@[q]]
                {
                    let tiles = ow.fovs@[ow.player_entity.id as int]->0.visible_tiles@;
                    &&& 0 <= q < k
                    &&& ow.map.in_bounds(tiles[q].x as int, tiles[q].y as int)
                    &&& monster_in(
                        ow,
                        ow.map.tile_content@[ow.map.idx_of(
                            tiles[q].x as int,
                            tiles[q].y as int,
                        )]@,
                    )
                }),
        decreases m - k,
    {
        let tile = match &ecs.fovs[pid] {
            Option::Some(f) => f.visible_tiles[k],
            Option::None => unreached(),
        };
        if tile.x >= 0 && tile.x < ecs.map.width && tile.y >= 0 && tile.y < ecs.map.height {
            let idx = ecs.map.xy_idx(tile.x, tile.y);
            let c = &ecs.map.tile_content[idx];
            let cm = c.len();
            let mut j: usize = 0;
            let mut found = false;
            while j < cm
                invariant
                    j <= cm,
                    cm == c@.len(),
                    *ecs == ow,
                    ow.wf(),
                    found <==> (exists|q: int|
                        0 <= q < j && ow.valid(#[trigger] c@[q]) && ow.monsters@[c@[q].id as int]),
                decreases cm - j,
            {
                let e = c[j];
                let is_mon = e.id < ecs.gens.len() && ecs.gens[e.id] == e.gen && ecs.alive[e.id]
                    && ecs.monsters[e.id];
                if is_mon {
                    found = true;
                }
                j = j + 1;
            }
            proof {
                assert(found == monster_in(ow, c@));
            }
            if found {
                can_heal = false;
            }
        }
        k = k + 1;
    }
    proof {
        assert(can_heal <==> !monster_visible(ow));
    }
    if can_heal {
        let s = match &ecs.combat_stats[pid] {
            Option::Some(s) => *s,
            Option::None => unreached(),
        };
        let new_hp = if s.hp + 1 > s.max_hp {
            s.max_hp
        } else {
            s.hp + 1
        };
        ecs.combat_stats.set(pid, Some(crate::components::CombatStats { hp: new_hp, ..s }));
    }
    RunState::PlayerTurn
}

/// Dispatches one decoded key while awaiting input: moves and resting consume
/// the turn, picking up files an intent but costs none by itself, menus open,
/// and the descend key only leaves the level when stairs are underfoot.
pub fn keyboard(gs: &mut State, cmd: Command) -> (r: RunState)
    requires
        old(gs).ecs.wf(),
        cmd matches Command::Move { dx, dy } ==> -1 <= dx <= 1 && -1 <= dy <= 1,
    ensures
        final(gs).ecs.wf(),
        match cmd {
            Command::Move { dx, dy } => r == RunState::PlayerTurn && player_move_rel(
                old(gs).ecs,
                final(gs).ecs,
                dx as int,
                dy as int,
            ),
            Command::SkipTurn => r == RunState::PlayerTurn && skip_rel(old(gs).ecs, final(gs).ecs),
            Command::Pickup => r == RunState::AwaitingInput && get_item_rel(
                old(gs).ecs,
                final(gs).ecs,
            ),
            Command::ShowInventory => r == RunState::ShowInventory && final(gs).ecs == old(gs).ecs,
            Command::ShowDropItem => r == RunState::ShowDropItem && final(gs).ecs == old(gs).ecs,
            Command::Descend => if on_stairs(old(gs).ecs) {
                r == RunState::NextLevel && final(gs).ecs == old(gs).ecs
            } else {
                r == RunState::AwaitingInput && descend_fail_rel(old(gs).ecs, final(gs).ecs)
            },
            _ => r == RunState::AwaitingInput && final(gs).ecs == old(gs).ecs,
        },
{
    match cmd {
        Command::Move { dx, dy } => {
            player_move(dx, dy, &mut gs.ecs);
            RunState::PlayerTurn
        },
        Command::SkipTurn => skip_turn(&mut gs.ecs),
        Command::Pickup => {
            get_item(&mut gs.ecs);
            RunState::AwaitingInput
        },
        Command::ShowInventory => RunState::ShowInventory,
        Command::ShowDropItem => RunState::ShowDropItem,
        Command::Descend => {
            if climb_down(&mut gs.ecs) {
                RunState::NextLevel
            } else {
                RunState::AwaitingInput
            }
        },
        _ => RunState::AwaitingInput,
    }
}

} // verus!
