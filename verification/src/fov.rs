use vstd::prelude::*;
use crate::components::{Fov, Position};
use crate::map::GameMap;
use crate::world::World;

verus! {

pub open spec fn sgn(d: int) -> int {
    if d > 0 {
        1
    } else if d < 0 {
        -1
    } else {
        0
    }
}

pub open spec fn abs_of(d: int) -> int {
    if d >= 0 {
        d
    } else {
        -d
    }
}

/// The straight ray from (fx, fy) to (tx, ty), stepped one cell at a time
/// toward the target on both axes, meets no sight-blocking cell before the
/// target.
pub open spec fn line_clear(m: GameMap, fx: int, fy: int, tx: int, ty: int) -> bool
    decreases abs_of(tx - fx) + abs_of(ty - fy),
{
    if fx == tx && fy == ty {
        true
    } else {
        !m.blocks_sight(fx, fy) && line_clear(m, fx + sgn(tx - fx), fy + sgn(ty - fy), tx, ty)
    }
}

/// Cell (tx, ty) is visible from (px, py) at the given sight radius: it lies
/// on the grid, within Euclidean range, and an unobstructed ray reaches it.
pub open spec fn visible_spec(m: GameMap, px: int, py: int, tx: int, ty: int, range: int) -> bool {
    &&& m.in_bounds(tx, ty)
    &&& (tx - px) * (tx - px) + (ty - py) * (ty - py) <= range * range
    &&& line_clear(m, px, py, tx, ty)
}

/// Sight lines depend only on the tile grid, not on the mutable bitsets.
pub proof fn lemma_line_clear_eq(m1: GameMap, m2: GameMap, fx: int, fy: int, tx: int, ty: int)
    requires
        m1.tiles@ == m2.tiles@,
        m1.width == m2.width,
        m1.height == m2.height,
    ensures
        line_clear(m1, fx, fy, tx, ty) == line_clear(m2, fx, fy, tx, ty),
    decreases abs_of(tx - fx) + abs_of(ty - fy),
{
    if !(fx == tx && fy == ty) {
        lemma_line_clear_eq(m1, m2, fx + sgn(tx - fx), fy + sgn(ty - fy), tx, ty);
    }
}

pub proof fn lemma_visible_eq(m1: GameMap, m2: GameMap, px: int, py: int, range: int)
    requires
        m1.tiles@ == m2.tiles@,
        m1.width == m2.width,
        m1.height == m2.height,
    ensures
        forall|tx: int, ty: int|
            #![trigger visible_spec(m1, px, py, tx, ty, range)]
            visible_spec(m1, px, py, tx, ty, range) == visible_spec(m2, px, py, tx, ty, range),
{
    assert forall|tx: int, ty: int|
        #![trigger visible_spec(m1, px, py, tx, ty, range)]
        visible_spec(m1, px, py, tx, ty, range) == visible_spec(m2, px, py, tx, ty, range) by {
        lemma_line_clear_eq(m1, m2, px, py, tx, ty);
    }
}

/// The tile list `s` holds cell (tx, ty).
pub open spec fn has_tile(s: Seq<Position>, tx: int, ty: int) -> bool {
    exists|k: int| 0 <= k < s.len() && (#[trigger] s[k]).x == tx && s[k].y == ty
}

/// Walks the ray and reports whether it is clear of obstructions.
fn line_clear_exec(m: &GameMap, fx: i32, fy: i32, tx: i32, ty: i32) -> (r: bool)
    requires
        m.wf(),
        m.in_bounds(fx as int, fy as int),
        m.in_bounds(tx as int, ty as int),
    ensures
        r == line_clear(*m, fx as int, fy as int, tx as int, ty as int),
{
    let mut x = fx;
    let mut y = fy;
    loop
        invariant
            m.wf(),
            m.in_bounds(x as int, y as int),
            m.in_bounds(tx as int, ty as int),
            line_clear(*m, fx as int, fy as int, tx as int, ty as int) == line_clear(
                *m,
                x as int,
                y as int,
                tx as int,
                ty as int,
            ),
        ensures
            line_clear(*m, fx as int, fy as int, tx as int, ty as int) == line_clear(
                *m,
                x as int,
                y as int,
                tx as int,
                ty as int,
            ),
            (x == tx && y == ty) || m.blocks_sight(x as int, y as int),
        decreases abs_of(tx - x) + abs_of(ty - y),
    {
        if x == tx && y == ty {
            break ;
        }
        let idx = m.xy_idx(x, y);
        let is_wall = match m.tiles[idx] {
            crate::map::TileType::Wall => true,
            _ => false,
        };
        if is_wall {
            break ;
        }
        if x < tx {
            x = x + 1;
        } else if x > tx {
            x = x - 1;
        }
        if y < ty {
            y = y + 1;
        } else if y > ty {
            y = y - 1;
        }
    }
    if x == tx && y == ty {
        true
    } else {
        false
    }
}

/// Computes the set of cells visible from (px, py) within `range`, clipped
/// to the grid.
pub fn compute_fov(m: &GameMap, px: i32, py: i32, range: i32) -> (r: Vec<Position>)
    requires
        m.wf(),
        m.in_bounds(px as int, py as int),
        0 <= range <= 0x1000,
    ensures
        forall|tx: int, ty: int|
            has_tile(r@, tx, ty) <==> visible_spec(*m, px as int, py as int, tx, ty, range as int),
        forall|k: int|
            0 <= k < r@.len() ==> m.in_bounds((#[trigger] r@[k]).x as int, r@[k].y as int),
{
    let mut r: Vec<Position> = Vec::new();
    let y_lo: i32 = if py >= range {
        py - range
    } else {
        0
    };
    let y_hi_raw = py + range;
    let y_hi: i32 = if y_hi_raw < m.height - 1 {
        y_hi_raw
    } else {
        m.height - 1
    };
    let x_lo: i32 = if px >= range {
        px - range
    } else {
        0
    };
    let x_hi_raw = px + range;
    let x_hi: i32 = if x_hi_raw < m.width - 1 {
        x_hi_raw
    } else {
        m.width - 1
    };
    let mut ty = y_lo;
    proof {
        assert forall|ax: int, ay: int|
            has_tile(r@, ax, ay) <==> (visible_spec(*m, px as int, py as int, ax, ay, range as int)
                && ay < y_lo) by {
            if visible_spec(*m, px as int, py as int, ax, ay, range as int) && ay < y_lo {
                assert(abs_of(ax - px) <= range && abs_of(ay - py) <= range) by (nonlinear_arith)
                    requires
                        (ax - px) * (ax - px) + (ay - py) * (ay - py) <= range * range,
                        range >= 0,
                ;
            }
        }
    }
    while ty <= y_hi
        invariant
            m.wf(),
            m.in_bounds(px as int, py as int),
            0 <= range <= 0x1000,
            y_lo == (if py - range >= 0 {
                py - range
            } else {
                0
            }),
            y_hi == (if py + range < m.height - 1 {
                py + range
            } else {
                m.height - 1
            }),
            x_lo == (if px - range >= 0 {
                px - range
            } else {
                0
            }),
            x_hi == (if px + range < m.width - 1 {
                px + range
            } else {
                m.width - 1
            }),
            y_lo <= ty,
            ty <= y_hi + 1,
            forall|ax: int, ay: int|
                has_tile(r@, ax, ay) <==> (visible_spec(*m, px as int, py as int, ax, ay, range as int)
                    && ay < ty),
            forall|k: int|
                0 <= k < r@.len() ==> m.in_bounds((#[trigger] r@[k]).x as int, r@[k].y as int),
        decreases y_hi + 1 - ty,
    {
        let mut tx = x_lo;
        proof {
            assert forall|ax: int, ay: int|
                has_tile(r@, ax, ay) <==> (visible_spec(
                    *m,
                    px as int,
                    py as int,
                    ax,
                    ay,
                    range as int,
                ) && (ay < ty || (ay == ty && ax < x_lo))) by {
                if visible_spec(*m, px as int, py as int, ax, ay, range as int) && ay == ty && ax
                    < x_lo {
                    assert(abs_of(ax - px) <= range && abs_of(ay - py) <= range) by (nonlinear_arith)
                        requires
                            (ax - px) * (ax - px) + (ay - py) * (ay - py) <= range * range,
                            range >= 0,
                    ;
                }
            }
        }
        while tx <= x_hi
            invariant
                m.wf(),
                m.in_bounds(px as int, py as int),
                0 <= range <= 0x1000,
                y_lo == (if py - range >= 0 {
                    py - range
                } else {
                    0
                }),
                y_hi == (if py + range < m.height - 1 {
                    py + range
                } else {
                    m.height - 1
                }),
                x_lo == (if px - range >= 0 {
                    px - range
                } else {
                    0
                }),
                x_hi == (if px + range < m.width - 1 {
                    px + range
                } else {
                    m.width - 1
                }),
                y_lo <= ty <= y_hi,
                x_lo <= tx,
                tx <= x_hi + 1,
                forall|ax: int, ay: int|
                    has_tile(r@, ax, ay) <==> (visible_spec(*m, px as int, py as int, ax, ay, range as int)
                        && (ay < ty || (ay == ty && ax < tx))),
                forall|k: int|
                    0 <= k < r@.len() ==> m.in_bounds((#[trigger] r@[k]).x as int, r@[k].y as int),
            decreases x_hi + 1 - tx,
        {
            let dx = tx - px;
            let dy = ty - py;
            proof {
                assert(0 <= dx * dx <= 0x4000000 && 0 <= dy * dy <= 0x4000000 && 0 <= range
                    * range <= 0x1000000) by (nonlinear_arith)
                    requires
                        -0x2000 <= dx <= 0x2000,
                        -0x2000 <= dy <= 0x2000,
                        0 <= range <= 0x1000,
                ;
            }
            let d2 = dx * dx + dy * dy;
            let r2 = range * range;
            let ghost r_before = r@;
            if d2 <= r2 {
                if line_clear_exec(m, px, py, tx, ty) {
                    r.push(Position { x: tx, y: ty });
                }
            }
            proof {
                assert forall|ax: int, ay: int|
                    has_tile(r@, ax, ay) <==> (visible_spec(
                        *m,
                        px as int,
                        py as int,
                        ax,
                        ay,
                        range as int,
                    ) && (ay < ty || (ay == ty && ax < tx + 1))) by {
                    if has_tile(r@, ax, ay) && !has_tile(r_before, ax, ay) {
                        let k = choose|k: int|
                            0 <= k < r@.len() && (#[trigger] r@[k]).x == ax && r@[k].y == ay;
                        assert(k == r@.len() - 1);
                        assert(ax == tx && ay == ty);
                    }
                    if has_tile(r_before, ax, ay) {
                        let k = choose|k: int|
                            0 <= k < r_before.len() && (#[trigger] r_before[k]).x == ax
                                && r_before[k].y == ay;
                        assert(r@[k] == r_before[k]);
                        assert(has_tile(r@, ax, ay));
                    }
                    if visible_spec(*m, px as int, py as int, ax, ay, range as int) && ax == tx
                        && ay == ty {
                        assert(r@[r@.len() - 1] == (Position { x: tx, y: ty }));
                        assert(has_tile(r@, ax, ay));
                    }
                }
            }
            tx = tx + 1;
        }
        proof {
            assert forall|ax: int, ay: int|
                has_tile(r@, ax, ay) <==> (visible_spec(
                    *m,
                    px as int,
                    py as int,
                    ax,
                    ay,
                    range as int,
                ) && ay < ty + 1) by {
                if visible_spec(*m, px as int, py as int, ax, ay, range as int) && ay == ty {
                    assert(abs_of(ax - px) <= range && abs_of(ay - py) <= range) by (nonlinear_arith)
                        requires
                            (ax - px) * (ax - px) + (ay - py) * (ay - py) <= range * range,
                            range >= 0,
                    ;
                    assert(x_lo <= ax <= x_hi);
                }
            }
        }
        ty = ty + 1;
    }
    proof {
        assert forall|ax: int, ay: int|
            has_tile(r@, ax, ay) <==> visible_spec(*m, px as int, py as int, ax, ay, range as int) by {
            if visible_spec(*m, px as int, py as int, ax, ay, range as int) {
                assert(abs_of(ax - px) <= range && abs_of(ay - py) <= range) by (nonlinear_arith)
                    requires
                        (ax - px) * (ax - px) + (ay - py) * (ay - py) <= range * range,
                        range >= 0,
                ;
                assert(y_lo <= ay <= y_hi);
            }
        }
    }
    r
}

/// Recomputes dirty fields of view; the player's fresh view feeds the map's
/// transient visibility bitset and the permanent fog-of-war bitset.
pub struct FovSystem {}

/// Slot `i` carries a sighted, positioned entity whose view is recomputed
/// this pass.
pub open spec fn sighted(w: World, i: int) -> bool {
    &&& 0 <= i < w.n()
    &&& w.alive@[i]
    &&& w.fovs@[i] is Some
    &&& w.positions@[i] is Some
}

/// The player's view is recomputed this pass.
pub open spec fn player_recomputes(w: World) -> bool {
    &&& sighted(w, w.player_entity.id as int)
    &&& w.fovs@[w.player_entity.id as int]->0.dirty
}

/// Cell (tx, ty) is visible to the player after its view is recomputed.
pub open spec fn player_sees(w: World, tx: int, ty: int) -> bool {
    visible_spec(
        w.map,
        w.positions@[w.player_entity.id as int]->0.x as int,
        w.positions@[w.player_entity.id as int]->0.y as int,
        tx,
        ty,
        w.fovs@[w.player_entity.id as int]->0.range as int,
    )
}

/// Exactly what one visibility pass does: dirty views recomputed against
/// the sight-line model, fog only growing, bitsets stable without a player
/// recompute, everything else untouched.
pub open spec fn fov_rel(a: World, b: World) -> bool {
    &&& b.n() == a.n()
    &&& forall|q: int|
        #![trigger b.fovs@[q]]
        0 <= q < a.n() ==> (if sighted(a, q) && a.fovs@[q]->0.dirty {
            &&& b.fovs@[q] is Some
            &&& !b.fovs@[q]->0.dirty
            &&& b.fovs@[q]->0.range == a.fovs@[q]->0.range
            &&& forall|tx: int, ty: int|
                has_tile(b.fovs@[q]->0.visible_tiles@, tx, ty) <==> visible_spec(
                    a.map,
                    a.positions@[q]->0.x as int,
                    a.positions@[q]->0.y as int,
                    tx,
                    ty,
                    a.fovs@[q]->0.range as int,
                )
        } else {
            b.fovs@[q] == a.fovs@[q]
        })
    &&& forall|idx: int|
        #![trigger a.map.revealed_tiles@[idx]]
        0 <= idx < a.map.tiles@.len() && a.map.revealed_tiles@[idx]
            ==> b.map.revealed_tiles@[idx]
    &&& b.map.revealed_tiles@.len() == a.map.revealed_tiles@.len()
    &&& b.map.visible_tiles@.len() == a.map.visible_tiles@.len()
    &&& !player_recomputes(a) ==> b.map.visible_tiles@ == a.map.visible_tiles@
    &&& !player_recomputes(a) ==> b.map.revealed_tiles@ == a.map.revealed_tiles@
    &&& player_recomputes(a) ==> forall|idx: int|
        #![trigger b.map.visible_tiles@[idx]]
        0 <= idx < a.map.tiles@.len() ==> (b.map.visible_tiles@[idx] <==> exists|tx: int, ty: int|
            a.map.in_bounds(tx, ty) && a.map.idx_of(tx, ty) == idx && #[trigger] player_sees(
                a,
                tx,
                ty,
            ))
    &&& player_recomputes(a) ==> forall|idx: int|
        #![trigger b.map.revealed_tiles@[idx]]
        0 <= idx < a.map.tiles@.len() ==> (b.map.revealed_tiles@[idx] <==> (
        a.map.revealed_tiles@[idx] || exists|tx: int, ty: int|
            a.map.in_bounds(tx, ty) && a.map.idx_of(tx, ty) == idx && #[trigger] player_sees(
                a,
                tx,
                ty,
            )))
    &&& b.map.tiles@ == a.map.tiles@
    &&& b.map.rooms@ == a.map.rooms@
    &&& b.map.width == a.map.width
    &&& b.map.height == a.map.height
    &&& b.map.blocked@ == a.map.blocked@
    &&& b.map.tile_content@ == a.map.tile_content@
    &&& b.map.depth == a.map.depth
    &&& b.gens@ == a.gens@
    &&& b.alive@ == a.alive@
    &&& b.positions@ == a.positions@
    &&& b.renderables@ == a.renderables@
    &&& b.players@ == a.players@
    &&& b.monsters@ == a.monsters@
    &&& b.blockers@ == a.blockers@
    &&& b.names@ == a.names@
    &&& b.combat_stats@ == a.combat_stats@
    &&& b.items@ == a.items@
    &&& b.potions@ == a.potions@
    &&& b.equippables@ == a.equippables@
    &&& b.equipped@ == a.equipped@
    &&& b.backpacks@ == a.backpacks@
    &&& b.attack_intents@ == a.attack_intents@
    &&& b.pickup_intents@ == a.pickup_intents@
    &&& b.drink_intents@ == a.drink_intents@
    &&& b.drop_intents@ == a.drop_intents@
    &&& b.suffer_damage@ == a.suffer_damage@
    &&& b.doomed@ == a.doomed@
    &&& b.log == a.log
    &&& b.player_entity == a.player_entity
    &&& b.player_pos == a.player_pos
    &&& b.run_state == a.run_state
}

impl FovSystem {
    /// Every dirty sighted entity gets a freshly computed, grid-clipped view
    /// and a cleared dirty flag; clean entities keep their view untouched.
    /// When the player's view is recomputed, the seen tiles are stamped into
    /// the map's two visibility bitsets: the permanent one only ever grows
    /// (fog of war never un-reveals), and the transient one is left alone
    /// whenever no recomputation happened.
    pub fn run(&self, ecs: &mut World)
        requires
            old(ecs).wf(),
        ensures
            final(ecs).wf(),
            fov_rel(*old(ecs), *final(ecs)),
    {
        let ghost ow = *old(ecs);
        let n = ecs.gens.len();
        let mut i: usize = 0;
        while i < n
            invariant
                i <= n,
                n == ecs.n(),
                ecs.wf(),
                ow == *old(ecs),
                ecs.n() == old(ecs).n(),
                forall|q: int|
                    #![trigger ow.fovs@[q]]
                    0 <= q < old(ecs).n() ==> (if sighted(ow, q) && ow.fovs@[q]->0.dirty && q
                        < i {
                        &&& ecs.fovs@[q] is Some
                        &&& !ecs.fovs@[q]->0.dirty
                        &&& ecs.fovs@[q]->0.range == ow.fovs@[q]->0.range
                        &&& forall|tx: int, ty: int|
                            has_tile(ecs.fovs@[q]->0.visible_tiles@, tx, ty) <==> visible_spec(
                                ow.map,
                                ow.positions@[q]->0.x as int,
                                ow.positions@[q]->0.y as int,
                                tx,
                                ty,
                                ow.fovs@[q]->0.range as int,
                            )
                    } else {
                        ecs.fovs@[q] == ow.fovs@[q]
                    }),
                forall|idx: int|
                    #![trigger ow.map.revealed_tiles@[idx]]
                    0 <= idx < old(ecs).map.tiles@.len() && ow.map.revealed_tiles@[idx]
                        ==> ecs.map.revealed_tiles@[idx],
                ecs.map.revealed_tiles@.len() == ow.map.revealed_tiles@.len(),
                ecs.map.visible_tiles@.len() == ow.map.visible_tiles@.len(),
                !(player_recomputes(ow) && ow.player_entity.id < i) ==> ecs.map.visible_tiles@
                    == ow.map.visible_tiles@,
                !(player_recomputes(ow) && ow.player_entity.id < i) ==> ecs.map.revealed_tiles@
                    == ow.map.revealed_tiles@,
                (player_recomputes(ow) && ow.player_entity.id < i) ==> forall|idx: int|
                    #![trigger ecs.map.visible_tiles@[idx]]
                    0 <= idx < ow.map.tiles@.len() ==> (ecs.map.visible_tiles@[idx] <==> exists|
                        tx: int,
                        ty: int,
                    |
                        ow.map.in_bounds(tx, ty) && ow.map.idx_of(tx, ty) == idx
                            && #[trigger] player_sees(ow, tx, ty)),
                (player_recomputes(ow) && ow.player_entity.id < i) ==> forall|idx: int|
                    #![trigger ecs.map.revealed_tiles@[idx]]
                    0 <= idx < ow.map.tiles@.len() ==> (ecs.map.revealed_tiles@[idx] <==> (
                    ow.map.revealed_tiles@[idx] || exists|tx: int, ty: int|
                        ow.map.in_bounds(tx, ty) && ow.map.idx_of(tx, ty) == idx
                            && #[trigger] player_sees(ow, tx, ty))),
                ecs.map.tiles@ == old(ecs).map.tiles@,
                ecs.map.rooms@ == old(ecs).map.rooms@,
                ecs.map.width == old(ecs).map.width,
                ecs.map.height == old(ecs).map.height,
                ecs.map.blocked@ == old(ecs).map.blocked@,
                ecs.map.tile_content@ == old(ecs).map.tile_content@,
                ecs.map.depth == old(ecs).map.depth,
                ecs.gens@ == old(ecs).gens@,
                ecs.alive@ == old(ecs).alive@,
                ecs.positions@ == old(ecs).positions@,
                ecs.renderables@ == old(ecs).renderables@,
                ecs.players@ == old(ecs).players@,
                ecs.monsters@ == old(ecs).monsters@,
                ecs.blockers@ == old(ecs).blockers@,
                ecs.names@ == old(ecs).names@,
                ecs.combat_stats@ == old(ecs).combat_stats@,
                ecs.items@ == old(ecs).items@,
                ecs.potions@ == old(ecs).potions@,
                ecs.equippables@ == old(ecs).equippables@,
                ecs.equipped@ == old(ecs).equipped@,
                ecs.backpacks@ == old(ecs).backpacks@,
                ecs.attack_intents@ == old(ecs).attack_intents@,
                ecs.pickup_intents@ == old(ecs).pickup_intents@,
                ecs.drink_intents@ == old(ecs).drink_intents@,
                ecs.drop_intents@ == old(ecs).drop_intents@,
                ecs.suffer_damage@ == old(ecs).suffer_damage@,
                ecs.doomed@ == old(ecs).doomed@,
                ecs.log == old(ecs).log,
                ecs.player_entity == old(ecs).player_entity,
                ecs.player_pos == old(ecs).player_pos,
                ecs.run_state == old(ecs).run_state,
            decreases n - i,
        {
            let work: Option<(Position, i32)> = if ecs.alive[i] {
                match (&ecs.fovs[i], &ecs.positions[i]) {
                    (Option::Some(f), Option::Some(p)) => if f.dirty {
                        Some((*p, f.range))
                    } else {
                        None
                    },
                    _ => None,
                }
            } else {
                None
            };
            proof {
                assert(work is Some <==> (sighted(ow, i as int) && ow.fovs@[i as int]->0.dirty));
            }
            let ghost m_call = ecs.map;
            if let Option::Some((p, range)) = work {
                proof {
                    assert(sighted(ow, i as int) && ow.fovs@[i as int]->0.dirty);
                    assert(p == ow.positions@[i as int]->0);
                    assert(range == ow.fovs@[i as int]->0.range);
                    assert(0 <= range <= 0x1000);
                }
                let vis = compute_fov(&ecs.map, p.x, p.y, range);
                let is_player = i == ecs.player_entity.id;
                if is_player {
                    proof {
                        assert(ecs.map.visible_tiles@ == ow.map.visible_tiles@
                            && ecs.map.revealed_tiles@ == ow.map.revealed_tiles@);
                        assert(i as int == ow.player_entity.id as int);
                        assert(p == ow.positions@[ow.player_entity.id as int]->0);
                        assert(range == ow.fovs@[ow.player_entity.id as int]->0.range);
                    }
                    // wipe the transient visibility, then stamp the new view
                    let len = ecs.map.visible_tiles.len();
                    let mut t: usize = 0;
                    while t < len
                        invariant
                            t <= len,
                            len == ecs.map.visible_tiles@.len(),
                            forall|q: int| 0 <= q < t ==> !(#[trigger] ecs.map.visible_tiles@[q]),
                            ecs.map.wf(),
                            ecs.wf(),
                            ecs.n() == old(ecs).n(),
                            i < ecs.n(),
                            ecs.gens@ == old(ecs).gens@,
                            ecs.alive@ == old(ecs).alive@,
                            ecs.positions@ == old(ecs).positions@,
                            ecs.renderables@ == old(ecs).renderables@,
                            ecs.players@ == old(ecs).players@,
                            ecs.monsters@ == old(ecs).monsters@,
                            ecs.blockers@ == old(ecs).blockers@,
                            forall|q: int|
                                #![trigger ow.fovs@[q]]
                                0 <= q < old(ecs).n() ==> (if sighted(ow, q) && ow.fovs@[q]->0.dirty
                                    && q < i {
                                    &&& ecs.fovs@[q] is Some
                                    &&& !ecs.fovs@[q]->0.dirty
                                    &&& ecs.fovs@[q]->0.range == ow.fovs@[q]->0.range
                                    &&& forall|tx: int, ty: int|
                                        has_tile(ecs.fovs@[q]->0.visible_tiles@, tx, ty)
                                            <==> visible_spec(
                                            ow.map,
                                            ow.positions@[q]->0.x as int,
                                            ow.positions@[q]->0.y as int,
                                            tx,
                                            ty,
                                            ow.fovs@[q]->0.range as int,
                                        )
                                } else {
                                    ecs.fovs@[q] == ow.fovs@[q]
                                }),
                            ecs.names@ == old(ecs).names@,
                            ecs.combat_stats@ == old(ecs).combat_stats@,
                            ecs.items@ == old(ecs).items@,
                            ecs.potions@ == old(ecs).potions@,
                            ecs.equippables@ == old(ecs).equippables@,
                            ecs.equipped@ == old(ecs).equipped@,
                            ecs.backpacks@ == old(ecs).backpacks@,
                            ecs.attack_intents@ == old(ecs).attack_intents@,
                            ecs.pickup_intents@ == old(ecs).pickup_intents@,
                            ecs.drink_intents@ == old(ecs).drink_intents@,
                            ecs.drop_intents@ == old(ecs).drop_intents@,
                            ecs.suffer_damage@ == old(ecs).suffer_damage@,
                            ecs.doomed@ == old(ecs).doomed@,
                            ecs.log == old(ecs).log,
                            ecs.player_entity == old(ecs).player_entity,
                            ecs.player_pos == old(ecs).player_pos,
                            ecs.run_state == old(ecs).run_state,
                            ecs.map.visible_tiles@.len() == ow.map.visible_tiles@.len(),
                            ecs.map.tiles@ == ow.map.tiles@,
                            ecs.map.rooms@ == ow.map.rooms@,
                            ecs.map.width == ow.map.width,
                            ecs.map.height == ow.map.height,
                            ecs.map.blocked@ == ow.map.blocked@,
                            ecs.map.tile_content@ == ow.map.tile_content@,
                            ecs.map.depth == ow.map.depth,
                            ecs.map.revealed_tiles@ == ow.map.revealed_tiles@,
                            ecs.map.revealed_tiles@.len() == ow.map.revealed_tiles@.len(),
                        decreases len - t,
                    {
                        ecs.map.visible_tiles.set(t, false);
                        t = t + 1;
                    }
                    let m = vis.len();
                    let mut k: usize = 0;
                    proof {
                        assert forall|idx: int|
                            0 <= idx < ow.map.tiles@.len() implies !(
                        #[trigger] ecs.map.visible_tiles@[idx]) by {}
                    }
                    while k < m
                        invariant
                            k <= m,
                            m == vis@.len(),
                            ecs.map.wf(),
                            ecs.wf(),
                            ecs.n() == old(ecs).n(),
                            i < ecs.n(),
                            ecs.gens@ == old(ecs).gens@,
                            ecs.alive@ == old(ecs).alive@,
                            ecs.positions@ == old(ecs).positions@,
                            ecs.renderables@ == old(ecs).renderables@,
                            ecs.players@ == old(ecs).players@,
                            ecs.monsters@ == old(ecs).monsters@,
                            ecs.blockers@ == old(ecs).blockers@,
                            forall|q: int|
                                #![trigger ow.fovs@[q]]
                                0 <= q < old(ecs).n() ==> (if sighted(ow, q) && ow.fovs@[q]->0.dirty
                                    && q < i {
                                    &&& ecs.fovs@[q] is Some
                                    &&& !ecs.fovs@[q]->0.dirty
                                    &&& ecs.fovs@[q]->0.range == ow.fovs@[q]->0.range
                                    &&& forall|tx: int, ty: int|
                                        has_tile(ecs.fovs@[q]->0.visible_tiles@, tx, ty)
                                            <==> visible_spec(
                                            ow.map,
                                            ow.positions@[q]->0.x as int,
                                            ow.positions@[q]->0.y as int,
                                            tx,
                                            ty,
                                            ow.fovs@[q]->0.range as int,
                                        )
                                } else {
                                    ecs.fovs@[q] == ow.fovs@[q]
                                }),
                            ecs.names@ == old(ecs).names@,
                            ecs.combat_stats@ == old(ecs).combat_stats@,
                            ecs.items@ == old(ecs).items@,
                            ecs.potions@ == old(ecs).potions@,
                            ecs.equippables@ == old(ecs).equippables@,
                            ecs.equipped@ == old(ecs).equipped@,
                            ecs.backpacks@ == old(ecs).backpacks@,
                            ecs.attack_intents@ == old(ecs).attack_intents@,
                            ecs.pickup_intents@ == old(ecs).pickup_intents@,
                            ecs.drink_intents@ == old(ecs).drink_intents@,
                            ecs.drop_intents@ == old(ecs).drop_intents@,
                            ecs.suffer_damage@ == old(ecs).suffer_damage@,
                            ecs.doomed@ == old(ecs).doomed@,
                            ecs.log == old(ecs).log,
                            ecs.player_entity == old(ecs).player_entity,
                            ecs.player_pos == old(ecs).player_pos,
                            ecs.run_state == old(ecs).run_state,
                            forall|q: int|
                                0 <= q < vis@.len() ==> ecs.map.in_bounds(
                                    (#[trigger] vis@[q]).x as int,
                                    vis@[q].y as int,
                                ),
                            ecs.map.visible_tiles@.len() == ow.map.visible_tiles@.len(),
                            ecs.map.revealed_tiles@.len() == ow.map.revealed_tiles@.len(),
                            forall|idx: int|
                                #![trigger ow.map.revealed_tiles@[idx]]
                                0 <= idx < ow.map.tiles@.len() && ow.map.revealed_tiles@[idx]
                                    ==> ecs.map.revealed_tiles@[idx],
                            forall|idx: int|
                                #![trigger ecs.map.visible_tiles@[idx]]
                                0 <= idx < ow.map.tiles@.len() ==> (ecs.map.visible_tiles@[idx]
                                    <==> exists|q: int|
                                    0 <= q < k && ow.map.idx_of(
                                        (#[trigger] vis@[q]).x as int,
                                        vis@[q].y as int,
                                    ) == idx),
                            forall|idx: int|
                                #![trigger ecs.map.revealed_tiles@[idx]]
                                0 <= idx < ow.map.tiles@.len() ==> (ecs.map.revealed_tiles@[idx]
                                    <==> (ow.map.revealed_tiles@[idx] || exists|q: int|
                                    0 <= q < k && ow.map.idx_of(
                                        (#[trigger] vis@[q]).x as int,
                                        vis@[q].y as int,
                                    ) == idx)),
                            ecs.map.tiles@ == ow.map.tiles@,
                            ecs.map.rooms@ == ow.map.rooms@,
                            ecs.map.width == ow.map.width,
                            ecs.map.height == ow.map.height,
                            ecs.map.blocked@ == ow.map.blocked@,
                            ecs.map.tile_content@ == ow.map.tile_content@,
                            ecs.map.depth == ow.map.depth,
                        decreases m - k,
                    {
                        let v = vis[k];
                        let tgt = ecs.map.xy_idx(v.x, v.y);
                        ecs.map.revealed_tiles.set(tgt, true);
                        ecs.map.visible_tiles.set(tgt, true);
                        k = k + 1;
                        proof {
                            let kk = k as int;
                            assert(tgt == ow.map.idx_of(vis@[kk - 1].x as int, vis@[kk - 1].y as int));
                            assert forall|idx: int|
                                #![trigger ecs.map.visible_tiles@[idx]]
                                0 <= idx < ow.map.tiles@.len() implies (ecs.map.visible_tiles@[
                                idx
                            ] <==> exists|q: int|
                                0 <= q < kk && ow.map.idx_of(
                                    (#[trigger] vis@[q]).x as int,
                                    vis@[q].y as int,
                                ) == idx) by {
                                if idx == tgt {
                                    assert(0 <= kk - 1 < kk && ow.map.idx_of(
                                        (vis@[kk - 1]).x as int,
                                        vis@[kk - 1].y as int,
                                    ) == idx);
                                } else if exists|q: int|
                                    0 <= q < kk && ow.map.idx_of(
                                        (#[trigger] vis@[q]).x as int,
                                        vis@[q].y as int,
                                    ) == idx {
                                    let q = choose|q: int|
                                        0 <= q < kk && ow.map.idx_of(
                                            (#[trigger] vis@[q]).x as int,
                                            vis@[q].y as int,
                                        ) == idx;
                                    assert(q < kk - 1);
                                }
                            }
                            assert forall|idx: int|
                                #![trigger ecs.map.revealed_tiles@[idx]]
                                0 <= idx < ow.map.tiles@.len() implies (ecs.map.revealed_tiles@[
                                idx
                            ] <==> (ow.map.revealed_tiles@[idx] || exists|q: int|
                                0 <= q < kk && ow.map.idx_of(
                                    (#[trigger] vis@[q]).x as int,
                                    vis@[q].y as int,
                                ) == idx)) by {
                                if idx == tgt {
                                    assert(0 <= kk - 1 < kk && ow.map.idx_of(
                                        (vis@[kk - 1]).x as int,
                                        vis@[kk - 1].y as int,
                                    ) == idx);
                                } else if exists|q: int|
                                    0 <= q < kk && ow.map.idx_of(
                                        (#[trigger] vis@[q]).x as int,
                                        vis@[q].y as int,
                                    ) == idx {
                                    let q = choose|q: int|
                                        0 <= q < kk && ow.map.idx_of(
                                            (#[trigger] vis@[q]).x as int,
                                            vis@[q].y as int,
                                        ) == idx;
                                    assert(q < kk - 1);
                                }
                            }
                        }
                    }
                    proof {
                        assert forall|idx: int|
                            #![trigger ecs.map.visible_tiles@[idx]]
                            0 <= idx < ow.map.tiles@.len() implies (ecs.map.visible_tiles@[idx]
                            <==> exists|tx: int, ty: int|
                            ow.map.in_bounds(tx, ty) && ow.map.idx_of(tx, ty) == idx
                                && #[trigger] player_sees(ow, tx, ty)) by {
                            if exists|q: int|
                                0 <= q < vis@.len() && ow.map.idx_of(
                                    (#[trigger] vis@[q]).x as int,
                                    vis@[q].y as int,
                                ) == idx {
                                let q = choose|q: int|
                                    0 <= q < vis@.len() && ow.map.idx_of(
                                        (#[trigger] vis@[q]).x as int,
                                        vis@[q].y as int,
                                    ) == idx;
                                let tx = vis@[q].x as int;
                                let ty = vis@[q].y as int;
                                assert(has_tile(vis@, tx, ty));
                                lemma_visible_eq(m_call, ow.map, p.x as int, p.y as int, range as int);
                                assert(visible_spec(m_call, p.x as int, p.y as int, tx, ty, range as int));
                                assert(player_sees(ow, tx, ty));
                            }
                            if exists|tx: int, ty: int|
                                ow.map.in_bounds(tx, ty) && ow.map.idx_of(tx, ty) == idx
                                    && #[trigger] player_sees(ow, tx, ty) {
                                let (tx, ty) = choose|tx: int, ty: int|
                                    ow.map.in_bounds(tx, ty) && ow.map.idx_of(tx, ty) == idx
                                        && #[trigger] player_sees(ow, tx, ty);
                                lemma_visible_eq(m_call, ow.map, p.x as int, p.y as int, range as int);
                                assert(visible_spec(m_call, p.x as int, p.y as int, tx, ty, range as int));
                                assert(has_tile(vis@, tx, ty));
                                let k2 = choose|k2: int|
                                    0 <= k2 < vis@.len() && (#[trigger] vis@[k2]).x == tx
                                        && vis@[k2].y == ty;
                                assert(ow.map.idx_of(vis@[k2].x as int, vis@[k2].y as int) == idx);
                            }
                        }
                        assert forall|idx: int|
                            #![trigger ecs.map.revealed_tiles@[idx]]
                            0 <= idx < ow.map.tiles@.len() implies (ecs.map.revealed_tiles@[idx]
                            <==> (ow.map.revealed_tiles@[idx] || exists|tx: int, ty: int|
                            ow.map.in_bounds(tx, ty) && ow.map.idx_of(tx, ty) == idx
                                && #[trigger] player_sees(ow, tx, ty))) by {
                            if exists|q: int|
                                0 <= q < vis@.len() && ow.map.idx_of(
                                    (#[trigger] vis@[q]).x as int,
                                    vis@[q].y as int,
                                ) == idx {
                                let q = choose|q: int|
                                    0 <= q < vis@.len() && ow.map.idx_of(
                                        (#[trigger] vis@[q]).x as int,
                                        vis@[q].y as int,
                                    ) == idx;
                                let tx = vis@[q].x as int;
                                let ty = vis@[q].y as int;
                                assert(has_tile(vis@, tx, ty));
                                lemma_visible_eq(m_call, ow.map, p.x as int, p.y as int, range as int);
                                assert(visible_spec(m_call, p.x as int, p.y as int, tx, ty, range as int));
                                assert(player_sees(ow, tx, ty));
                            }
                            if exists|tx: int, ty: int|
                                ow.map.in_bounds(tx, ty) && ow.map.idx_of(tx, ty) == idx
                                    && #[trigger] player_sees(ow, tx, ty) {
                                let (tx, ty) = choose|tx: int, ty: int|
                                    ow.map.in_bounds(tx, ty) && ow.map.idx_of(tx, ty) == idx
                                        && #[trigger] player_sees(ow, tx, ty);
                                lemma_visible_eq(m_call, ow.map, p.x as int, p.y as int, range as int);
                                assert(visible_spec(m_call, p.x as int, p.y as int, tx, ty, range as int));
                                assert(has_tile(vis@, tx, ty));
                                let k2 = choose|k2: int|
                                    0 <= k2 < vis@.len() && (#[trigger] vis@[k2]).x == tx
                                        && vis@[k2].y == ty;
                                assert(ow.map.idx_of(vis@[k2].x as int, vis@[k2].y as int) == idx);
                            }
                        }
                    }
                }
                ecs.fovs.set(i, Some(Fov { visible_tiles: vis, range, dirty: false }));
                proof {
                    let ii0 = i as int;
                    lemma_visible_eq(m_call, ow.map, p.x as int, p.y as int, range as int);
                    assert forall|tx: int, ty: int|
                        has_tile(ecs.fovs@[ii0]->0.visible_tiles@, tx, ty) <==> visible_spec(
                            ow.map,
                            ow.positions@[ii0]->0.x as int,
                            ow.positions@[ii0]->0.y as int,
                            tx,
                            ty,
                            ow.fovs@[ii0]->0.range as int,
                        ) by {
                        assert(has_tile(vis@, tx, ty) <==> visible_spec(
                            m_call,
                            p.x as int,
                            p.y as int,
                            tx,
                            ty,
                            range as int,
                        ));
                        assert(visible_spec(m_call, p.x as int, p.y as int, tx, ty, range as int)
                            == visible_spec(ow.map, p.x as int, p.y as int, tx, ty, range as int));
                    }
                }
            }
            i = i + 1;
            proof {
                let ii = i as int;
                assert forall|q: int|
                    #![trigger ow.fovs@[q]]
                    0 <= q < old(ecs).n() implies (if sighted(ow, q) && ow.fovs@[q]->0.dirty && q
                    < ii {
                    &&& ecs.fovs@[q] is Some
                    &&& !ecs.fovs@[q]->0.dirty
                    &&& ecs.fovs@[q]->0.range == ow.fovs@[q]->0.range
                    &&& forall|tx: int, ty: int|
                        has_tile(ecs.fovs@[q]->0.visible_tiles@, tx, ty) <==> visible_spec(
                            ow.map,
                            ow.positions@[q]->0.x as int,
                            ow.positions@[q]->0.y as int,
                            tx,
                            ty,
                            ow.fovs@[q]->0.range as int,
                        )
                } else {
                    ecs.fovs@[q] == ow.fovs@[q]
                }) by {
                    assert(ow.fovs@[q] == ow.fovs@[q]);
                }
            }
        }
        proof {
            assert forall|q: int|
                #![trigger final(ecs).fovs@[q]]
                0 <= q < old(ecs).n() implies (if sighted(*old(ecs), q) && old(ecs).fovs@[
                q
            ]->0.dirty {
                &&& ecs.fovs@[q] is Some
                &&& !ecs.fovs@[q]->0.dirty
                &&& ecs.fovs@[q]->0.range == old(ecs).fovs@[q]->0.range
                &&& forall|tx: int, ty: int|
                    has_tile(ecs.fovs@[q]->0.visible_tiles@, tx, ty) <==> visible_spec(
                        old(ecs).map,
                        old(ecs).positions@[q]->0.x as int,
                        old(ecs).positions@[q]->0.y as int,
                        tx,
                        ty,
                        old(ecs).fovs@[q]->0.range as int,
                    )
            } else {
                ecs.fovs@[q] == old(ecs).fovs@[q]
            }) by {
                assert(ow.fovs@[q] == ow.fovs@[q]);
            }
            assert forall|idx: int|
                #![trigger old(ecs).map.revealed_tiles@[idx]]
                0 <= idx < old(ecs).map.tiles@.len() && old(ecs).map.revealed_tiles@[idx] implies
                final(ecs).map.revealed_tiles@[idx] by {
                assert(ow.map.revealed_tiles@[idx] == ow.map.revealed_tiles@[idx]);
            }
        }
    }
}

} // verus!
