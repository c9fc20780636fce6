//! The visibility engine: a recomputable field of view over the tile grid
//! from an observer position, and the monotonic `explored` flag it drives.
//! Line of sight walks the greedy diagonal ray toward each candidate tile;
//! a tile is visible when it is inside the radius, the ray is unobstructed,
//! and — for sight-blocking tiles — wall lighting is enabled.

use vstd::prelude::*;
use crate::tiles::{grid, map_wf, Game, Tile, MAX_DIM};

verus! {

/// The unit step from one coordinate toward another.
pub open spec fn spec_sign(d: int) -> int {
    if d > 0 {
        1
    } else if d < 0 {
        -1
    } else {
        0
    }
}

/// Chebyshev distance: the number of greedy diagonal steps between points.
pub open spec fn cheb(ax: int, ay: int, bx: int, by: int) -> int {
    let dx = if bx >= ax {
        bx - ax
    } else {
        ax - bx
    };
    let dy = if by >= ay {
        by - ay
    } else {
        ay - by
    };
    if dx >= dy {
        dx
    } else {
        dy
    }
}

/// Line of sight from `(ax, ay)` to `(bx, by)` over transparency grid `t`:
/// walk one greedy diagonal step at a time; every cell strictly between the
/// endpoints must be transparent. The endpoints themselves may be opaque.
pub open spec fn los_clear(t: Seq<Seq<bool>>, ax: int, ay: int, bx: int, by: int) -> bool
    decreases cheb(ax, ay, bx, by),
{
    if ax == bx && ay == by {
        true
    } else {
        let nx = ax + spec_sign(bx - ax);
        let ny = ay + spec_sign(by - ay);
        if nx == bx && ny == by {
            true
        } else {
            t[nx][ny] && los_clear(t, nx, ny, bx, by)
        }
    }
}

/// The visible set: a tile is in view from `(ox, oy)` exactly when it lies
/// inside the grid and the squared radius, its line of sight is clear, and
/// it is either transparent itself or wall lighting is on.
pub open spec fn spec_visible(
    t: Seq<Seq<bool>>,
    ox: int,
    oy: int,
    x: int,
    y: int,
    radius: int,
    light_walls: bool,
) -> bool {
    &&& 0 <= x < t.len()
    &&& 0 <= y < t[0].len()
    &&& (x - ox) * (x - ox) + (y - oy) * (y - oy) <= radius * radius
    &&& los_clear(t, ox, oy, x, y)
    &&& (t[x][y] || light_walls)
}

/// The field-of-view state: per-cell transparency copied from the grid, and
/// the per-cell visible set recomputed from an observer position.
pub struct FovMap {
    pub transparent: Vec<Vec<bool>>,
    pub visible: Vec<Vec<bool>>,
}

impl FovMap {
    /// Both layers are rectangular, bounded, and of equal dimensions.
    pub open spec fn wf(self) -> bool {
        let t = grid(self.transparent@);
        let v = grid(self.visible@);
        &&& 3 <= t.len() <= MAX_DIM
        &&& 3 <= t[0].len() <= MAX_DIM
        &&& forall|x: int| 0 <= x < t.len() ==> (#[trigger] t[x]).len() == t[0].len()
        &&& v.len() == t.len()
        &&& forall|x: int| 0 <= x < v.len() ==> (#[trigger] v[x]).len() == t[0].len()
    }

    pub open spec fn spec_width(self) -> int {
        grid(self.transparent@).len() as int
    }

    pub open spec fn spec_height(self) -> int {
        grid(self.transparent@)[0].len() as int
    }
}

/// A rectangular boolean layer of the given dimensions, all `false`.
fn flag_grid(width: i32, height: i32) -> (m: Vec<Vec<bool>>)
    requires
        3 <= width <= MAX_DIM,
        3 <= height <= MAX_DIM,
    ensures
        grid(m@).len() == width,
        forall|x: int| 0 <= x < width ==> (#[trigger] grid(m@)[x]).len() == height,
        forall|x: int, y: int| 0 <= x < width && 0 <= y < height ==> !(#[trigger] grid(m@)[x][y]),
{
    let mut m: Vec<Vec<bool>> = Vec::new();
    let mut x: i32 = 0;
    while x < width
        invariant
            0 <= x <= width,
            3 <= height <= MAX_DIM,
            m@.len() == x,
            forall|i: int| 0 <= i < x ==> (#[trigger] m@[i]@).len() == height,
            forall|i: int, j: int| 0 <= i < x && 0 <= j < height ==> !(#[trigger] m@[i]@[j]),
        decreases width - x,
    {
        let mut col: Vec<bool> = Vec::new();
        let mut y: i32 = 0;
        while y < height
            invariant
                0 <= y <= height,
                col@.len() == y,
                forall|j: int| 0 <= j < y ==> !(#[trigger] col@[j]),
            decreases height - y,
        {
            col.push(false);
            y = y + 1;
        }
        m.push(col);
        x = x + 1;
    }
    m
}

/// Write one flag of a boolean layer, leaving everything else unchanged.
fn set_flag(m: &mut Vec<Vec<bool>>, x: usize, y: usize, b: bool)
    requires
        x < grid(old(m)@).len(),
        y < grid(old(m)@)[x as int].len(),
    ensures
        grid(final(m)@).len() == grid(old(m)@).len(),
        forall|a: int|
            0 <= a < grid(old(m)@).len() ==> (#[trigger] grid(final(m)@)[a]).len() == grid(
                old(m)@,
            )[a].len(),
        forall|a: int, b2: int|
            0 <= a < grid(old(m)@).len() && 0 <= b2 < grid(old(m)@)[a].len()
                ==> #[trigger] grid(final(m)@)[a][b2] == if a == x && b2 == y {
                b
            } else {
                grid(old(m)@)[a][b2]
            },
{
    proof {
        assert(grid(m@)[x as int] == m@[x as int]@);
    }
    m[x][y] = b;
    proof {
        assert forall|a: int| 0 <= a < grid(old(m)@).len() implies (#[trigger] grid(m@)[a]).len()
            == grid(old(m)@)[a].len() by {
            assert(grid(m@)[a] == m@[a]@);
            assert(grid(old(m)@)[a] == old(m)@[a]@);
        }
        assert forall|a: int, b2: int|
            0 <= a < grid(old(m)@).len() && 0 <= b2 < grid(old(m)@)[a].len() implies (
        #[trigger] grid(m@)[a][b2]) == if a == x && b2 == y {
            b
        } else {
            grid(old(m)@)[a][b2]
        } by {
            assert(grid(m@)[a] == m@[a]@);
            assert(grid(old(m)@)[a] == old(m)@[a]@);
        }
    }
}

impl FovMap {
    /// An all-opaque, nothing-visible field of view of the given dimensions.
    pub fn new(width: i32, height: i32) -> (fov: FovMap)
        requires
            3 <= width <= MAX_DIM,
            3 <= height <= MAX_DIM,
        ensures
            fov.wf(),
            fov.spec_width() == width,
            fov.spec_height() == height,
            forall|x: int, y: int|
                0 <= x < width && 0 <= y < height ==> !(#[trigger] grid(fov.visible@)[x][y]),
    {
        FovMap { transparent: flag_grid(width, height), visible: flag_grid(width, height) }
    }

    /// Whether the tile at `(x, y)` was in view at the last recomputation.
    pub fn is_in_fov(&self, x: i32, y: i32) -> (b: bool)
        requires
            self.wf(),
            0 <= x < self.spec_width(),
            0 <= y < self.spec_height(),
        ensures
            b == grid(self.visible@)[x as int][y as int],
    {
        proof {
            assert(grid(self.visible@)[x as int] == self.visible@[x as int]@);
        }
        self.visible[x as usize][y as usize]
    }
}

/// Copy the grid's sight-blocking flags into the field of view: a cell is
/// transparent exactly when its tile does not block sight. The visible
/// layer is untouched.
pub fn init_fov_map(fov: &mut FovMap, game: &Game)
    requires
        old(fov).wf(),
        map_wf(grid(game.map@)),
        old(fov).spec_width() == grid(game.map@).len(),
        old(fov).spec_height() == grid(game.map@)[0].len(),
    ensures
        final(fov).wf(),
        final(fov).spec_width() == old(fov).spec_width(),
        final(fov).spec_height() == old(fov).spec_height(),
        final(fov).visible == old(fov).visible,
        forall|x: int, y: int|
            0 <= x < grid(game.map@).len() && 0 <= y < grid(game.map@)[0].len()
                ==> #[trigger] grid(final(fov).transparent@)[x][y] == !grid(
                game.map@,
            )[x][y].block_sight,
{
    let width = game.map.len();
    let mut x: usize = 0;
    while x < width
        invariant
            width == grid(game.map@).len(),
            map_wf(grid(game.map@)),
            0 <= x <= width,
            fov.visible == old(fov).visible,
            grid(fov.transparent@).len() == width,
            forall|a: int|
                0 <= a < width ==> (#[trigger] grid(fov.transparent@)[a]).len() == grid(
                    game.map@,
                )[0].len(),
            forall|a: int, b: int|
                0 <= a < x && 0 <= b < grid(game.map@)[0].len() ==> #[trigger] grid(
                    fov.transparent@,
                )[a][b] == !grid(game.map@)[a][b].block_sight,
            forall|a: int, b: int|
                x <= a < width && 0 <= b < grid(game.map@)[0].len() ==> #[trigger] grid(
                    fov.transparent@,
                )[a][b] == grid(old(fov).transparent@)[a][b],
        decreases width - x,
    {
        proof {
            assert(grid(game.map@)[x as int] == game.map@[x as int]@);
            assert(grid(game.map@)[x as int].len() == grid(game.map@)[0].len());
        }
        let height = game.map[x].len();
        let mut y: usize = 0;
        while y < height
            invariant
                width == grid(game.map@).len(),
                map_wf(grid(game.map@)),
                0 <= x < width,
                height == grid(game.map@)[0].len(),
                0 <= y <= height,
                fov.visible == old(fov).visible,
                grid(fov.transparent@).len() == width,
                forall|a: int|
                    0 <= a < width ==> (#[trigger] grid(fov.transparent@)[a]).len() == grid(
                        game.map@,
                    )[0].len(),
                forall|a: int, b: int|
                    0 <= a < x && 0 <= b < height ==> #[trigger] grid(fov.transparent@)[a][b]
                        == !grid(game.map@)[a][b].block_sight,
                forall|b: int|
                    0 <= b < y ==> #[trigger] grid(fov.transparent@)[x as int][b] == !grid(
                        game.map@,
                    )[x as int][b].block_sight,
                forall|a: int, b: int|
                    x < a < width && 0 <= b < height ==> #[trigger] grid(fov.transparent@)[a][b]
                        == grid(old(fov).transparent@)[a][b],
                forall|b: int|
                    y <= b < height ==> #[trigger] grid(fov.transparent@)[x as int][b] == grid(
                        old(fov).transparent@,
                    )[x as int][b],
            decreases height - y,
        {
            proof {
                assert(grid(game.map@)[x as int] == game.map@[x as int]@);
            }
            let block_sight = game.map[x][y].block_sight;
            set_flag(&mut fov.transparent, x, y, !block_sight);
            y = y + 1;
        }
        x = x + 1;
    }
}

/// Walk the greedy diagonal ray from `(ax, ay)` to `(bx, by)`, checking
/// that every strictly intermediate cell is transparent.
fn los_clear_exec(t: &Vec<Vec<bool>>, ax: i32, ay: i32, bx: i32, by: i32) -> (r: bool)
    requires
        grid(t@).len() <= MAX_DIM,
        grid(t@)[0].len() <= MAX_DIM,
        forall|a: int| 0 <= a < grid(t@).len() ==> (#[trigger] grid(t@)[a]).len() == grid(t@)[0].len(),
        0 <= ax < grid(t@).len(),
        0 <= bx < grid(t@).len(),
        0 <= ay < grid(t@)[0].len(),
        0 <= by < grid(t@)[0].len(),
    ensures
        r == los_clear(grid(t@), ax as int, ay as int, bx as int, by as int),
{
    let ghost g = grid(t@);
    let mut cx = ax;
    let mut cy = ay;
    while !(cx == bx && cy == by)
        invariant
            g == grid(t@),
            grid(t@).len() <= MAX_DIM,
            forall|a: int| 0 <= a < g.len() ==> (#[trigger] g[a]).len() == g[0].len(),
            0 <= cx < g.len(),
            0 <= bx < g.len(),
            0 <= cy < g[0].len(),
            0 <= by < g[0].len(),
            los_clear(g, ax as int, ay as int, bx as int, by as int) == los_clear(
                g,
                cx as int,
                cy as int,
                bx as int,
                by as int,
            ),
        decreases cheb(cx as int, cy as int, bx as int, by as int),
    {
        let sx: i32 = if bx > cx {
            1
        } else if bx < cx {
            -1
        } else {
            0
        };
        let sy: i32 = if by > cy {
            1
        } else if by < cy {
            -1
        } else {
            0
        };
        let nx = cx + sx;
        let ny = cy + sy;
        if nx == bx && ny == by {
            return true;
        }
        proof {
            assert(grid(t@)[nx as int] == t@[nx as int]@);
            assert(g[nx as int].len() == g[0].len());
        }
        if !t[nx as usize][ny as usize] {
            return false;
        }
        cx = nx;
        cy = ny;
    }
    true
}

impl FovMap {
    /// Recompute the visible set from the observer at `(ox, oy)`: afterward
    /// every cell's visible flag says exactly whether it is in view for the
    /// given radius and wall-lighting rule. Transparency is untouched.
    pub fn compute_fov(&mut self, ox: i32, oy: i32, radius: i32, light_walls: bool)
        requires
            old(self).wf(),
            0 <= ox < old(self).spec_width(),
            0 <= oy < old(self).spec_height(),
            0 <= radius <= MAX_DIM,
        ensures
            final(self).wf(),
            final(self).transparent == old(self).transparent,
            forall|x: int, y: int|
                0 <= x < old(self).spec_width() && 0 <= y < old(self).spec_height()
                    ==> #[trigger] grid(final(self).visible@)[x][y] == spec_visible(
                    grid(old(self).transparent@),
                    ox as int,
                    oy as int,
                    x,
                    y,
                    radius as int,
                    light_walls,
                ),
    {
        let ghost t = grid(self.transparent@);
        let width = self.transparent.len();
        let mut x: usize = 0;
        while x < width
            invariant
                t == grid(self.transparent@),
                self.transparent == old(self).transparent,
                old(self).wf(),
                width == t.len(),
                0 <= x <= width,
                0 <= ox < t.len(),
                0 <= oy < t[0].len(),
                0 <= radius <= MAX_DIM,
                grid(self.visible@).len() == t.len(),
                forall|a: int|
                    0 <= a < t.len() ==> (#[trigger] grid(self.visible@)[a]).len() == t[0].len(),
                forall|a: int, b: int|
                    0 <= a < x && 0 <= b < t[0].len() ==> #[trigger] grid(self.visible@)[a][b]
                        == spec_visible(
                        t,
                        ox as int,
                        oy as int,
                        a,
                        b,
                        radius as int,
                        light_walls,
                    ),
            decreases width - x,
        {
            let height = self.transparent[x].len();
            proof {
                assert(grid(self.transparent@)[x as int] == self.transparent@[x as int]@);
                assert(t[x as int].len() == t[0].len());
            }
            let mut y: usize = 0;
            while y < height
                invariant
                    t == grid(self.transparent@),
                    self.transparent == old(self).transparent,
                    old(self).wf(),
                    width == t.len(),
                    0 <= x < width,
                    height == t[0].len(),
                    0 <= y <= height,
                    0 <= ox < t.len(),
                    0 <= oy < t[0].len(),
                    0 <= radius <= MAX_DIM,
                    grid(self.visible@).len() == t.len(),
                    forall|a: int|
                        0 <= a < t.len() ==> (#[trigger] grid(self.visible@)[a]).len() == t[0].len(),
                    forall|a: int, b: int|
                        0 <= a < x && 0 <= b < t[0].len() ==> #[trigger] grid(self.visible@)[a][b]
                            == spec_visible(
                            t,
                            ox as int,
                            oy as int,
                            a,
                            b,
                            radius as int,
                            light_walls,
                        ),
                    forall|b: int|
                        0 <= b < y ==> #[trigger] grid(self.visible@)[x as int][b] == spec_visible(
                            t,
                            ox as int,
                            oy as int,
                            x as int,
                            b,
                            radius as int,
                            light_walls,
                        ),
                decreases height - y,
            {
                let dx: i64 = x as i64 - ox as i64;
                let dy: i64 = y as i64 - oy as i64;
                let r64: i64 = radius as i64;
                proof {
                    assert(0 <= dx * dx <= 0x1000_0000 && 0 <= dy * dy <= 0x1000_0000 && 0 <= r64
                        * r64 <= 0x1000_0000) by (nonlinear_arith)
                        requires
                            -0x1000 <= dx <= 0x1000,
                            -0x1000 <= dy <= 0x1000,
                            0 <= r64 <= 0x1000,
                    {
                    }
                }
                let in_radius = dx * dx + dy * dy <= r64 * r64;
                let vis: bool = if in_radius {
                    if los_clear_exec(&self.transparent, ox, oy, x as i32, y as i32) {
                        proof {
                            assert(t[x as int] == self.transparent@[x as int]@);
                        }
                        let transparent_here = self.transparent[x][y];
                        transparent_here || light_walls
                    } else {
                        false
                    }
                } else {
                    false
                };
                set_flag(&mut self.visible, x, y, vis);
                y = y + 1;
            }
            x = x + 1;
        }
    }
}

/// The per-recomputation update of one tile: visibility may set the
/// explored flag, and nothing else about the tile ever changes.
pub open spec fn spec_explore_tile(t: Tile, vis: bool) -> Tile {
    Tile { explored: t.explored || vis, ..t }
}

/// Mark every currently visible tile explored. Every tile becomes exactly
/// `spec_explore_tile` of its old value, so terrain, colors and already-set
/// explored flags are all preserved.
pub fn update_explored(game: &mut Game, fov: &FovMap)
    requires
        map_wf(grid(old(game).map@)),
        fov.wf(),
        fov.spec_width() == grid(old(game).map@).len(),
        fov.spec_height() == grid(old(game).map@)[0].len(),
    ensures
        final(game).messages == old(game).messages,
        grid(final(game).map@).len() == grid(old(game).map@).len(),
        forall|a: int|
            0 <= a < grid(old(game).map@).len() ==> (#[trigger] grid(final(game).map@)[a]).len()
                == grid(old(game).map@)[a].len(),
        map_wf(grid(final(game).map@)),
        forall|x: int, y: int|
            0 <= x < grid(old(game).map@).len() && 0 <= y < grid(old(game).map@)[0].len()
                ==> #[trigger] grid(final(game).map@)[x][y] == spec_explore_tile(
                grid(old(game).map@)[x][y],
                grid(fov.visible@)[x][y],
            ),
{
    let ghost m0 = grid(old(game).map@);
    let width = game.map.len();
    let mut x: usize = 0;
    while x < width
        invariant
            m0 == grid(old(game).map@),
            map_wf(m0),
            fov.wf(),
            fov.spec_width() == m0.len(),
            fov.spec_height() == m0[0].len(),
            width == m0.len(),
            0 <= x <= width,
            game.messages == old(game).messages,
            grid(game.map@).len() == m0.len(),
            forall|a: int| 0 <= a < m0.len() ==> (#[trigger] grid(game.map@)[a]).len() == m0[a].len(),
            forall|a: int, b: int|
                0 <= a < x && 0 <= b < m0[0].len() ==> #[trigger] grid(game.map@)[a][b]
                    == spec_explore_tile(m0[a][b], grid(fov.visible@)[a][b]),
            forall|a: int, b: int|
                x <= a < m0.len() && 0 <= b < m0[0].len() ==> #[trigger] grid(game.map@)[a][b]
                    == m0[a][b],
        decreases width - x,
    {
        proof {
            assert(grid(game.map@)[x as int] == game.map@[x as int]@);
            assert(m0[x as int].len() == m0[0].len());
        }
        let height = game.map[x].len();
        let mut y: usize = 0;
        while y < height
            invariant
                m0 == grid(old(game).map@),
                map_wf(m0),
                fov.wf(),
                fov.spec_width() == m0.len(),
                fov.spec_height() == m0[0].len(),
                width == m0.len(),
                0 <= x < width,
                height == m0[0].len(),
                0 <= y <= height,
                game.messages == old(game).messages,
                grid(game.map@).len() == m0.len(),
                forall|a: int|
                    0 <= a < m0.len() ==> (#[trigger] grid(game.map@)[a]).len() == m0[a].len(),
                forall|a: int, b: int|
                    0 <= a < x && 0 <= b < m0[0].len() ==> #[trigger] grid(game.map@)[a][b]
                        == spec_explore_tile(m0[a][b], grid(fov.visible@)[a][b]),
                forall|b: int|
                    0 <= b < y ==> #[trigger] grid(game.map@)[x as int][b] == spec_explore_tile(
                        m0[x as int][b],
                        grid(fov.visible@)[x as int][b],
                    ),
                forall|b: int|
                    y <= b < m0[0].len() ==> #[trigger] grid(game.map@)[x as int][b] == m0[x
                        as int][b],
                forall|a: int, b: int|
                    x < a < m0.len() && 0 <= b < m0[0].len() ==> #[trigger] grid(game.map@)[a][b]
                        == m0[a][b],
            decreases height - y,
        {
            proof {
                assert(grid(game.map@)[x as int] == game.map@[x as int]@);
                assert(grid(fov.visible@)[x as int] == fov.visible@[x as int]@);
                assert(grid(fov.visible@)[x as int].len() == m0[0].len());
            }
            let visible = fov.visible[x][y];
            if visible {
                let mut tile = game.map[x][y];
                tile.explored = true;
                proof {
                    assert(grid(game.map@)[x as int].len() == m0[x as int].len());
                }
                crate::mapgen::set_tile(&mut game.map, x, y, tile);
            }
            y = y + 1;
        }
        x = x + 1;
    }
}

/// A tile's state after a whole chain of visibility recomputations, given
/// the visibility value each recomputation assigned to it.
pub open spec fn spec_explore_chain(t: Tile, vs: Seq<bool>) -> Tile
    decreases vs.len(),
{
    if vs.len() == 0 {
        t
    } else {
        spec_explore_chain(spec_explore_tile(t, vs[0]), vs.drop_first())
    }
}

/// Exploration is monotonic: once a tile's `explored` flag is true, no
/// sequence of further visibility recomputations — whatever visibility
/// values they assign — ever resets it to false.
pub proof fn lemma_explored_monotonic(t: Tile, vs: Seq<bool>)
    requires
        t.explored,
    ensures
        spec_explore_chain(t, vs).explored,
    decreases vs.len(),
{
    if vs.len() > 0 {
        lemma_explored_monotonic(spec_explore_tile(t, vs[0]), vs.drop_first());
    }
}

} // verus!
