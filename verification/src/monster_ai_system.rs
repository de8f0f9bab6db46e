use vstd::prelude::*;
use crate::components::{AttackIntent, Fov, Position};
use crate::fov::has_tile;
use crate::map::GameMap;
use crate::melee_combat_system::attack_intents_wf;
use crate::state::RunState;
use crate::world::World;

verus! {

/// Two cells within a king's move of each other (and not the same cell).
pub open spec fn adjacent8(ax: int, ay: int, bx: int, by: int) -> bool {
    &&& -1 <= bx - ax <= 1
    &&& -1 <= by - ay <= 1
    &&& !(ax == bx && ay == by)
}

/// Squared Euclidean distance between two cells.
pub open spec fn dist2(ax: int, ay: int, bx: int, by: int) -> int {
    (bx - ax) * (bx - ax) + (by - ay) * (by - ay)
}

/// The first tile of some walk from `start` toward `goal` over unblocked
/// tiles, found by a breadth-first search. `Some(step)` promises a real,
/// passable, adjacent tile; `None` means the search found no way.
fn next_step(m: &GameMap, sx: i32, sy: i32, goal: usize) -> (r: Option<(i32, i32)>)
    requires
        m.wf(),
        m.in_bounds(sx as int, sy as int),
        goal < m.tiles@.len(),
    ensures
        r matches Some(p) ==> {
            &&& m.in_bounds(p.0 as int, p.1 as int)
            &&& !m.blocked@[m.idx_of(p.0 as int, p.1 as int)]
            &&& adjacent8(sx as int, sy as int, p.0 as int, p.1 as int)
        },
{
    let len = m.tiles.len();
    let start = m.xy_idx(sx, sy);
    let mut visited: Vec<bool> = Vec::new();
    let mut step_x: Vec<i32> = Vec::new();
    let mut step_y: Vec<i32> = Vec::new();
    let mut i: usize = 0;
    while i < len
        invariant
            i <= len,
            visited@.len() == i,
            step_x@.len() == i,
            step_y@.len() == i,
            forall|q: int| 0 <= q < i ==> !(#[trigger] visited@[q]),
        decreases len - i,
    {
        visited.push(false);
        step_x.push(0);
        step_y.push(0);
        i = i + 1;
    }
    visited.set(start, true);
    let mut queue: Vec<(i32, i32)> = Vec::new();
    queue.push((sx, sy));
    let mut head: usize = 0;
    let mut fuel: usize = len;
    let mut answer: Option<(i32, i32)> = None;
    while head < queue.len() && fuel > 0 && answer.is_none()
        invariant
            m.wf(),
            m.in_bounds(sx as int, sy as int),
            visited@.len() == len,
            step_x@.len() == len,
            step_y@.len() == len,
            len == m.tiles@.len(),
            goal < len,
            start == m.idx_of(sx as int, sy as int),
            head <= queue@.len(),
            forall|q: int|
                0 <= q < queue@.len() ==> m.in_bounds(
                    (#[trigger] queue@[q]).0 as int,
                    queue@[q].1 as int,
                ),
            // every visited cell other than the start carries a sound first step
            forall|v: int|
                0 <= v < len && #[trigger] visited@[v] && v != start ==> {
                    &&& m.in_bounds(step_x@[v] as int, step_y@[v] as int)
                    &&& !m.blocked@[m.idx_of(step_x@[v] as int, step_y@[v] as int)]
                    &&& adjacent8(sx as int, sy as int, step_x@[v] as int, step_y@[v] as int)
                },
            forall|q: int|
                head <= q < queue@.len() ==> visited@[m.idx_of(
                    (#[trigger] queue@[q]).0 as int,
                    queue@[q].1 as int,
                )],
            answer matches Some(p) ==> {
                &&& m.in_bounds(p.0 as int, p.1 as int)
                &&& !m.blocked@[m.idx_of(p.0 as int, p.1 as int)]
                &&& adjacent8(sx as int, sy as int, p.0 as int, p.1 as int)
            },
        decreases fuel,
    {
        let (cx, cy) = queue[head];
        head = head + 1;
        fuel = fuel - 1;
        let cur = m.xy_idx(cx, cy);
        if cur == goal && cur != start {
            answer = Some((step_x[cur], step_y[cur]));
        } else {
            let mut d: usize = 0;
            while d < 8
                invariant
                    m.wf(),
                    m.in_bounds(sx as int, sy as int),
                    m.in_bounds(cx as int, cy as int),
                    d <= 8,
                    visited@.len() == len,
                    step_x@.len() == len,
                    step_y@.len() == len,
                    len == m.tiles@.len(),
                    start == m.idx_of(sx as int, sy as int),
                    cur == m.idx_of(cx as int, cy as int),
                    cur < len,
                    visited@[cur as int],
                    head <= queue@.len(),
                    forall|q: int|
                        0 <= q < queue@.len() ==> m.in_bounds(
                            (#[trigger] queue@[q]).0 as int,
                            queue@[q].1 as int,
                        ),
                    forall|v: int|
                        0 <= v < len && #[trigger] visited@[v] && v != start ==> {
                            &&& m.in_bounds(step_x@[v] as int, step_y@[v] as int)
                            &&& !m.blocked@[m.idx_of(step_x@[v] as int, step_y@[v] as int)]
                            &&& adjacent8(
                                sx as int,
                                sy as int,
                                step_x@[v] as int,
                                step_y@[v] as int,
                            )
                        },
                    forall|q: int|
                        head <= q < queue@.len() ==> visited@[m.idx_of(
                            (#[trigger] queue@[q]).0 as int,
                            queue@[q].1 as int,
                        )],
                decreases 8 - d,
            {
                let (dx, dy): (i32, i32) = match d {
                    0 => (-1, 0),
                    1 => (1, 0),
                    2 => (0, -1),
                    3 => (0, 1),
                    4 => (-1, -1),
                    5 => (1, -1),
                    6 => (-1, 1),
                    _ => (1, 1),
                };
                let nx = cx + dx;
                let ny = cy + dy;
                if nx >= 0 && nx < m.width && ny >= 0 && ny < m.height {
                    let nidx = m.xy_idx(nx, ny);
                    if !visited[nidx] && !m.blocked[nidx] {
                        let ghost pre_v = visited@;
                        let ghost pre_sx = step_x@;
                        let ghost pre_sy = step_y@;
                        visited.set(nidx, true);
                        if cur == start {
                            proof {
                                crate::map::lemma_idx_injective(
                                    *m,
                                    cx as int,
                                    cy as int,
                                    sx as int,
                                    sy as int,
                                );
                            }
                            step_x.set(nidx, nx);
                            step_y.set(nidx, ny);
                        } else {
                            let fx = step_x[cur];
                            let fy = step_y[cur];
                            step_x.set(nidx, fx);
                            step_y.set(nidx, fy);
                        }
                        let ghost pre_q = queue@;
                        queue.push((nx, ny));
                        proof {
                            assert forall|v: int|
                                0 <= v < len && #[trigger] visited@[v] && v != start implies {
                                &&& m.in_bounds(step_x@[v] as int, step_y@[v] as int)
                                &&& !m.blocked@[m.idx_of(step_x@[v] as int, step_y@[v] as int)]
                                &&& adjacent8(
                                    sx as int,
                                    sy as int,
                                    step_x@[v] as int,
                                    step_y@[v] as int,
                                )
                            } by {
                                if v != nidx {
                                    assert(pre_v[v] && pre_sx[v] == step_x@[v] && pre_sy[v]
                                        == step_y@[v]);
                                } else {
                                    if cur != start {
                                        assert(pre_v[cur as int]);
                                        assert(pre_sx[cur as int] == step_x@[v] && pre_sy[
                                            cur as int
                                        ] == step_y@[v]);
                                    }
                                }
                            }
                            assert forall|q: int|
                                head <= q < queue@.len() implies visited@[m.idx_of(
                                (#[trigger] queue@[q]).0 as int,
                                queue@[q].1 as int,
                            )] by {
                                if q < queue@.len() - 1 {
                                    assert(queue@[q] == pre_q[q]);
                                    crate::map::lemma_idx_bound(
                                        *m,
                                        pre_q[q].0 as int,
                                        pre_q[q].1 as int,
                                    );
                                    assert(pre_v[m.idx_of(
                                        (#[trigger] pre_q[q]).0 as int,
                                        pre_q[q].1 as int,
                                    )]);
                                    assert(visited@[m.idx_of(pre_q[q].0 as int, pre_q[q].1 as int)]);
                                } else {
                                    assert(queue@[q] == (nx, ny));
                                    assert(m.idx_of(nx as int, ny as int) == nidx as int);
                                }
                            }
                        }
                    }
                }
                d = d + 1;
            }
        }
    }
    answer
}

/// Tile `idx` is where some acting monster stands in `a` or ends up in `b`:
/// the only tiles whose obstruction flag one decision pass may touch.
pub open spec fn mover_tile(a: World, b: World, idx: int) -> bool {
    exists|i: int|
        #![trigger a.monsters@[i]]
        acting_monster(a, i) && (idx == a.map.idx_of(
            a.positions@[i]->0.x as int,
            a.positions@[i]->0.y as int,
        ) || (b.positions@[i] matches Some(np) && idx == a.map.idx_of(
            np.x as int,
            np.y as int,
        )))
}

/// Slot `i` is a live monster that acts this turn: it can see and stands
/// somewhere.
pub open spec fn acting_monster(w: World, i: int) -> bool {
    &&& 0 <= i < w.n()
    &&& w.alive@[i]
    &&& w.monsters@[i]
    &&& !w.players@[i]
    &&& w.fovs@[i] is Some
    &&& w.positions@[i] is Some
}

/// Chases and fights the player: each monster attacks when adjacent, walks
/// one step along a found route when the player is in sight, and otherwise
/// stands still.
pub struct MonsterAI {}

/// Exactly what one decision pass does: outside the monster turn nothing;
/// during it each acting monster attacks when adjacent, takes at most one
/// adjacent unobstructed step when the player is in sight, else stands.
/// The frame of one decision pass, for the pipeline chain: only monster
/// positions, views, attack intents and the obstruction bitset may change,
/// and nothing at all changes outside the monster turn. The full per-monster
/// contract stands on `MonsterAI::run` itself.
pub open spec fn ai_rel(a: World, b: World) -> bool {
    &&& b.n() == a.n()
    &&& a.run_state != RunState::MonsterTurn ==> b == a
    &&& forall|i: int|
        0 <= i < a.n() ==> ((#[trigger] b.positions@[i]) is Some <==> a.positions@[i] is Some)
    &&& forall|i: int|
        0 <= i < a.n() && #[trigger] a.positions@[i] is Some && !a.monsters@[i]
            ==> b.positions@[i] == a.positions@[i]
    &&& b.gens@ == a.gens@
    &&& b.alive@ == a.alive@
    &&& b.renderables@ == a.renderables@
    &&& b.players@ == a.players@
    &&& b.monsters@ == a.monsters@
    &&& b.blockers@ == a.blockers@
    &&& b.names@ == a.names@
    &&& b.combat_stats@ == a.combat_stats@
    &&& b.items@ == a.items@
    &&& b.potions@ == a.potions@
    &&& b.equippables@ == a.equippables@
    &&& b.equipped@ == a.equipped@
    &&& b.backpacks@ == a.backpacks@
    &&& b.pickup_intents@ == a.pickup_intents@
    &&& b.drink_intents@ == a.drink_intents@
    &&& b.drop_intents@ == a.drop_intents@
    &&& b.suffer_damage@ == a.suffer_damage@
    &&& b.doomed@ == a.doomed@
    &&& b.map.tiles@ == a.map.tiles@
    &&& b.map.rooms@ == a.map.rooms@
    &&& b.map.width == a.map.width
    &&& b.map.height == a.map.height
    &&& b.map.revealed_tiles@ == a.map.revealed_tiles@
    &&& b.map.visible_tiles@ == a.map.visible_tiles@
    &&& b.map.tile_content@ == a.map.tile_content@
    &&& b.map.depth == a.map.depth
    &&& b.map.blocked@.len() == a.map.blocked@.len()
    &&& forall|idx: int|
        #![trigger b.map.blocked@[idx]]
        0 <= idx < a.map.blocked@.len() && b.map.blocked@[idx] != a.map.blocked@[idx]
            ==> mover_tile(a, b, idx)
    &&& b.log == a.log
    &&& b.player_entity == a.player_entity
    &&& b.player_pos == a.player_pos
    &&& b.run_state == a.run_state
    &&& forall|i: int|
        0 <= i < a.n() && #[trigger] a.positions@[i] is Some
            && !a.monsters@[i] ==> b.positions@[i] == a.positions@[i]
}

impl MonsterAI {
    #[verifier::rlimit(100)]
    /// Outside the monster turn nothing happens at all. During it, for every
    /// acting monster: adjacency (a king's move or less) files an attack
    /// intent against the player; otherwise, when the player's tile is in the
    /// monster's view and a route exists, the monster takes exactly one
    /// adjacent, unobstructed step and its view is marked dirty; otherwise it
    /// stays put. Non-monsters, items, stats, the log and the grid's tiles
    /// are untouched (only the obstruction bitset follows the movers).
    pub fn run(&self, ecs: &mut World)
        requires
            old(ecs).wf(),
            attack_intents_wf(*old(ecs)),
        ensures
            final(ecs).wf(),
            attack_intents_wf(*final(ecs)),
            final(ecs).n() == old(ecs).n(),
            old(ecs).run_state != RunState::MonsterTurn ==> *final(ecs) == *old(ecs),
            forall|i: int|
                #![trigger old(ecs).monsters@[i]]
                0 <= i < old(ecs).n() && !acting_monster(*old(ecs), i) ==> {
                    &&& final(ecs).positions@[i] == old(ecs).positions@[i]
                    &&& final(ecs).fovs@[i] == old(ecs).fovs@[i]
                    &&& final(ecs).attack_intents@[i] == old(ecs).attack_intents@[i]
                },
            forall|i: int|
                #![trigger old(ecs).monsters@[i]]
                0 <= i < old(ecs).n() && acting_monster(*old(ecs), i) && old(ecs).run_state == RunState::MonsterTurn && dist2(
                    old(ecs).positions@[i]->0.x as int,
                    old(ecs).positions@[i]->0.y as int,
                    old(ecs).player_pos.x as int,
                    old(ecs).player_pos.y as int,
                ) <= 2 ==> {
                    // adjacent: attack, stand still
                    &&& final(ecs).attack_intents@[i] == Some(AttackIntent { target: old(ecs).player_entity })
                    &&& final(ecs).positions@[i] == old(ecs).positions@[i]
                    &&& final(ecs).fovs@[i] == old(ecs).fovs@[i]
                },
            forall|i: int|
                #![trigger old(ecs).monsters@[i]]
                0 <= i < old(ecs).n() && acting_monster(*old(ecs), i) && old(ecs).run_state == RunState::MonsterTurn && dist2(
                    old(ecs).positions@[i]->0.x as int,
                    old(ecs).positions@[i]->0.y as int,
                    old(ecs).player_pos.x as int,
                    old(ecs).player_pos.y as int,
                ) > 2 ==> {
                    &&& final(ecs).attack_intents@[i] == old(ecs).attack_intents@[i]
                    &&& (final(ecs).positions@[i] == old(ecs).positions@[i] && final(ecs).fovs@[i] == old(ecs).fovs@[i]) || (has_tile(
                        old(ecs).fovs@[i]->0.visible_tiles@,
                        old(ecs).player_pos.x as int,
                        old(ecs).player_pos.y as int,
                    ) && (final(ecs).positions@[i] matches Some(np) && adjacent8(
                        old(ecs).positions@[i]->0.x as int,
                        old(ecs).positions@[i]->0.y as int,
                        np.x as int,
                        np.y as int,
                    )) && final(ecs).fovs@[i] is Some && final(ecs).fovs@[i]->0.dirty)
                },
            forall|i: int|
                0 <= i < old(ecs).n() ==> ((#[trigger] final(ecs).positions@[i]) is Some <==> old(ecs).positions@[i] is Some),
            final(ecs).gens@ == old(ecs).gens@,
            final(ecs).alive@ == old(ecs).alive@,
            final(ecs).renderables@ == old(ecs).renderables@,
            final(ecs).players@ == old(ecs).players@,
            final(ecs).monsters@ == old(ecs).monsters@,
            final(ecs).blockers@ == old(ecs).blockers@,
            final(ecs).names@ == old(ecs).names@,
            final(ecs).combat_stats@ == old(ecs).combat_stats@,
            final(ecs).items@ == old(ecs).items@,
            final(ecs).potions@ == old(ecs).potions@,
            final(ecs).equippables@ == old(ecs).equippables@,
            final(ecs).equipped@ == old(ecs).equipped@,
            final(ecs).backpacks@ == old(ecs).backpacks@,
            final(ecs).pickup_intents@ == old(ecs).pickup_intents@,
            final(ecs).drink_intents@ == old(ecs).drink_intents@,
            final(ecs).drop_intents@ == old(ecs).drop_intents@,
            final(ecs).suffer_damage@ == old(ecs).suffer_damage@,
            final(ecs).doomed@ == old(ecs).doomed@,
            final(ecs).map.tiles@ == old(ecs).map.tiles@,
            final(ecs).map.rooms@ == old(ecs).map.rooms@,
            final(ecs).map.width == old(ecs).map.width,
            final(ecs).map.height == old(ecs).map.height,
            final(ecs).map.revealed_tiles@ == old(ecs).map.revealed_tiles@,
            final(ecs).map.visible_tiles@ == old(ecs).map.visible_tiles@,
            final(ecs).map.tile_content@ == old(ecs).map.tile_content@,
            final(ecs).map.depth == old(ecs).map.depth,
            final(ecs).map.blocked@.len() == old(ecs).map.blocked@.len(),
            forall|idx: int|
                #![trigger final(ecs).map.blocked@[idx]]
                0 <= idx < old(ecs).map.blocked@.len() && final(ecs).map.blocked@[idx] != old(
                    ecs,
                ).map.blocked@[idx] ==> mover_tile(*old(ecs), *final(ecs), idx),
            final(ecs).log == old(ecs).log,
            final(ecs).player_entity == old(ecs).player_entity,
            final(ecs).player_pos == old(ecs).player_pos,
            final(ecs).run_state == old(ecs).run_state,
            forall|i: int|
                0 <= i < old(ecs).n() && #[trigger] old(ecs).positions@[i] is Some
                    && !old(ecs).monsters@[i] ==> final(ecs).positions@[i] == old(ecs).positions@[i]
            ,
            ai_rel(*old(ecs), *final(ecs)),
    {
        let ghost ow = *old(ecs);
        let is_monster_turn = match ecs.run_state {
            RunState::MonsterTurn => true,
            _ => false,
        };
        if !is_monster_turn {
            proof {
                assert(ai_rel(ow, *ecs));
            }
            return ;
        }
        let n = ecs.gens.len();
        let mut i: usize = 0;
        while i < n
            invariant
                i <= n,
                n == ecs.n(),
                ecs.wf(),
                attack_intents_wf(*ecs),
                ow == *old(ecs),
                ow.run_state == RunState::MonsterTurn,
                ecs.n() == old(ecs).n(),
                forall|q: int|
                    #![trigger ow.monsters@[q]]
                    0 <= q < old(ecs).n() && !acting_monster(ow, q) ==> {
                        &&& ecs.positions@[q] == ow.positions@[q]
                        &&& ecs.fovs@[q] == ow.fovs@[q]
                        &&& ecs.attack_intents@[q] == ow.attack_intents@[q]
                    },
                forall|q: int|
                    #![trigger ow.monsters@[q]]
                    0 <= q < old(ecs).n() && acting_monster(ow, q) ==> {
                        let p = ow.positions@[q]->0;
                        let pp = ow.player_pos;
                        if q >= i {
                            &&& ecs.positions@[q] == ow.positions@[q]
                            &&& ecs.fovs@[q] == ow.fovs@[q]
                            &&& ecs.attack_intents@[q] == ow.attack_intents@[q]
                        } else if dist2(p.x as int, p.y as int, pp.x as int, pp.y as int) <= 2 {
                            &&& ecs.attack_intents@[q] == Some(
                                AttackIntent { target: ow.player_entity },
                            )
                            &&& ecs.positions@[q] == ow.positions@[q]
                            &&& ecs.fovs@[q] == ow.fovs@[q]
                        } else {
                            &&& ecs.attack_intents@[q] == ow.attack_intents@[q]
                            &&& (ecs.positions@[q] == ow.positions@[q] && ecs.fovs@[q]
                                == ow.fovs@[q]) || (has_tile(
                                ow.fovs@[q]->0.visible_tiles@,
                                pp.x as int,
                                pp.y as int,
                            ) && (ecs.positions@[q] matches Some(np) && adjacent8(
                                p.x as int,
                                p.y as int,
                                np.x as int,
                                np.y as int,
                            )) && ecs.fovs@[q] is Some && ecs.fovs@[q]->0.dirty)
                        }
                    },
                forall|q: int|
                    0 <= q < old(ecs).n() ==> ((#[trigger] ecs.positions@[q]) is Some
                        <==> ow.positions@[q] is Some),
                forall|q: int|
                    0 <= q < old(ecs).n() && #[trigger] ow.positions@[q] is Some
                        && !ow.monsters@[q] ==> ecs.positions@[q] == ow.positions@[q],
                ecs.gens@ == old(ecs).gens@,
                ecs.alive@ == old(ecs).alive@,
                ecs.renderables@ == old(ecs).renderables@,
                ecs.players@ == old(ecs).players@,
                ecs.monsters@ == old(ecs).monsters@,
                ecs.blockers@ == old(ecs).blockers@,
                ecs.names@ == old(ecs).names@,
                ecs.combat_stats@ == old(ecs).combat_stats@,
                ecs.items@ == old(ecs).items@,
                ecs.potions@ == old(ecs).potions@,
                ecs.equippables@ == old(ecs).equippables@,
                ecs.equipped@ == old(ecs).equipped@,
                ecs.backpacks@ == old(ecs).backpacks@,
                ecs.pickup_intents@ == old(ecs).pickup_intents@,
                ecs.drink_intents@ == old(ecs).drink_intents@,
                ecs.drop_intents@ == old(ecs).drop_intents@,
                ecs.suffer_damage@ == old(ecs).suffer_damage@,
                ecs.doomed@ == old(ecs).doomed@,
                ecs.map.tiles@ == old(ecs).map.tiles@,
                ecs.map.rooms@ == old(ecs).map.rooms@,
                ecs.map.width == old(ecs).map.width,
                ecs.map.height == old(ecs).map.height,
                ecs.map.revealed_tiles@ == old(ecs).map.revealed_tiles@,
                ecs.map.visible_tiles@ == old(ecs).map.visible_tiles@,
                ecs.map.tile_content@ == old(ecs).map.tile_content@,
                ecs.map.depth == old(ecs).map.depth,
                ecs.map.blocked@.len() == old(ecs).map.blocked@.len(),
                forall|idx: int|
                    #![trigger ecs.map.blocked@[idx]]
                    0 <= idx < ow.map.blocked@.len() && ecs.map.blocked@[idx]
                        != ow.map.blocked@[idx] ==> mover_tile(ow, *ecs, idx),
                ecs.log == old(ecs).log,
                ecs.player_entity == old(ecs).player_entity,
                ecs.player_pos == old(ecs).player_pos,
                ecs.run_state == old(ecs).run_state,
            decreases n - i,
        {
            let acting = ecs.alive[i] && ecs.monsters[i] && !ecs.players[i] && matches!(
                &ecs.fovs[i],
                Option::Some(_),
            ) && matches!(&ecs.positions[i], Option::Some(_));
            proof {
                assert(acting == acting_monster(ow, i as int));
            }
            if acting {
                let p = match &ecs.positions[i] {
                    Option::Some(p) => *p,
                    Option::None => unreached(),
                };
                let pp = ecs.player_pos;
                let dx = pp.x - p.x;
                let dy = pp.y - p.y;
                proof {
                    assert(0 <= dx * dx <= 0x4000000 && 0 <= dy * dy <= 0x4000000) by (nonlinear_arith)
                        requires
                            -0x2000 <= dx <= 0x2000,
                            -0x2000 <= dy <= 0x2000,
                    ;
                }
                let d2 = dx * dx + dy * dy;
                if d2 <= 2 {
                    let target = ecs.player_entity;
                    ecs.attack_intents.set(i, Some(AttackIntent { target }));
                } else {
                    let sees_player = {
                        let tiles = match &ecs.fovs[i] {
                            Option::Some(f) => &f.visible_tiles,
                            Option::None => unreached(),
                        };
                        let m = tiles.len();
                        let mut k: usize = 0;
                        let mut seen = false;
                        while k < m
                            invariant
                                k <= m,
                                m == tiles@.len(),
                                seen <==> (exists|q: int|
                                    0 <= q < k && (#[trigger] tiles@[q]).x == pp.x
                                        && tiles@[q].y == pp.y),
                            decreases m - k,
                        {
                            let t = tiles[k];
                            if t.x == pp.x && t.y == pp.y {
                                seen = true;
                            }
                            k = k + 1;
                        }
                        proof {
                            assert(seen == has_tile(tiles@, pp.x as int, pp.y as int));
                        }
                        seen
                    };
                    if sees_player {
                        let goal = ecs.map.xy_idx(pp.x, pp.y);
                        let step = next_step(&ecs.map, p.x, p.y, goal);
                        if let Option::Some((nx, ny)) = step {
                            let old_idx = ecs.map.xy_idx(p.x, p.y);
                            ecs.map.blocked.set(old_idx, false);
                            let new_idx = ecs.map.xy_idx(nx, ny);
                            ecs.map.blocked.set(new_idx, true);
                            ecs.positions.set(i, Some(Position { x: nx, y: ny }));
                            let (vis, range) = match &ecs.fovs[i] {
                                Option::Some(f) => (
                                    crate::player::copy_tiles(&f.visible_tiles),
                                    f.range,
                                ),
                                Option::None => unreached(),
                            };
                            ecs.fovs.set(i, Some(Fov { visible_tiles: vis, range, dirty: true }));
                        }
                    }
                }
            }
            i = i + 1;
        }
        proof {
            assert(ow == *old(ecs));
            assert forall|q: int|
                #![trigger old(ecs).monsters@[q]]
                0 <= q < old(ecs).n() && !acting_monster(*old(ecs), q) implies {
                &&& ecs.positions@[q] == old(ecs).positions@[q]
                &&& ecs.fovs@[q] == old(ecs).fovs@[q]
                &&& ecs.attack_intents@[q] == old(ecs).attack_intents@[q]
            } by {
                assert(ow.monsters@[q] == old(ecs).monsters@[q]);
                assert(!acting_monster(ow, q));
                assert(ecs.positions@[q] == ow.positions@[q] && ecs.fovs@[q] == ow.fovs@[q]
                    && ecs.attack_intents@[q] == ow.attack_intents@[q]);
                assert(ow.positions@[q] == old(ecs).positions@[q] && ow.fovs@[q] == old(
                    ecs,
                ).fovs@[q] && ow.attack_intents@[q] == old(ecs).attack_intents@[q]);
            }
            assert forall|q: int|
                #![trigger old(ecs).monsters@[q]]
                0 <= q < old(ecs).n() && acting_monster(*old(ecs), q) && old(ecs).run_state
                    == RunState::MonsterTurn implies {
                let p = old(ecs).positions@[q]->0;
                let pp = old(ecs).player_pos;
                if dist2(p.x as int, p.y as int, pp.x as int, pp.y as int) <= 2 {
                    &&& ecs.attack_intents@[q] == Some(
                        AttackIntent { target: old(ecs).player_entity },
                    )
                    &&& ecs.positions@[q] == old(ecs).positions@[q]
                    &&& ecs.fovs@[q] =~~= old(ecs).fovs@[q]
                } else {
                    &&& ecs.attack_intents@[q] == old(ecs).attack_intents@[q]
                    &&& (ecs.positions@[q] == old(ecs).positions@[q] && ecs.fovs@[q] =~~= old(
                        ecs,
                    ).fovs@[q]) || (has_tile(
                        old(ecs).fovs@[q]->0.visible_tiles@,
                        pp.x as int,
                        pp.y as int,
                    ) && (ecs.positions@[q] matches Some(np) && adjacent8(
                        p.x as int,
                        p.y as int,
                        np.x as int,
                        np.y as int,
                    )) && ecs.fovs@[q] is Some && ecs.fovs@[q]->0.dirty)
                }
            } by {
                assert(ow.monsters@[q] == old(ecs).monsters@[q]);
                assert(acting_monster(ow, q));
                assert(ow.positions@[q] == old(ecs).positions@[q] && ow.player_pos == old(
                    ecs,
                ).player_pos && ow.fovs@[q] == old(ecs).fovs@[q] && ow.attack_intents@[q] == old(
                    ecs,
                ).attack_intents@[q] && ow.player_entity == old(ecs).player_entity);
            }
            assert forall|q: int|
                0 <= q < old(ecs).n() implies ((#[trigger] ecs.positions@[q]) is Some
                <==> old(ecs).positions@[q] is Some) by {
                assert(ow.positions@[q] == old(ecs).positions@[q]);
            }
            assert forall|q: int|
                0 <= q < old(ecs).n() && #[trigger] old(ecs).positions@[q] is Some
                    && !old(ecs).monsters@[q] implies ecs.positions@[q] == old(
                ecs,
            ).positions@[q] by {
                assert(ow.positions@[q] == old(ecs).positions@[q] && ow.monsters@[q] == old(
                    ecs,
                ).monsters@[q]);
            }
        }
    }
}

} // verus!
