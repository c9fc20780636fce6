//! What the renderer should draw, computed but never drawn here: per-tile
//! display colors under the visibility rules, the draw order of entities,
//! and the player's status-bar snapshot.

use vstd::prelude::*;
use crate::config::PLAYER;
use crate::fov::FovMap;
use crate::objects::Object;
use crate::tiles::{grid, Color, Tile};

verus! {

/// A color dimmed toward black for tiles that are explored but not
/// currently visible: each channel drops to three fifths.
pub open spec fn spec_darken(c: Color) -> Color {
    Color { r: (c.r * 3 / 5) as u8, g: (c.g * 3 / 5) as u8, b: (c.b * 3 / 5) as u8 }
}

pub fn darken(c: Color) -> (d: Color)
    ensures
        d == spec_darken(c),
{
    Color {
        r: (c.r as u16 * 3 / 5) as u8,
        g: (c.g as u16 * 3 / 5) as u8,
        b: (c.b as u16 * 3 / 5) as u8,
    }
}

/// The color a tile should be rendered with: its base color while visible,
/// a darkened version while merely explored, nothing at all while still
/// undiscovered.
pub open spec fn spec_display_color(t: Tile, visible: bool) -> Option<Color> {
    if visible {
        Some(t.color)
    } else if t.explored {
        Some(spec_darken(t.color))
    } else {
        None
    }
}

pub fn display_color(t: Tile, visible: bool) -> (c: Option<Color>)
    ensures
        c == spec_display_color(t, visible),
{
    if visible {
        Some(t.color)
    } else if t.explored {
        Some(darken(t.color))
    } else {
        None
    }
}

/// The indices, in store order from `i` on, of the visible entities whose
/// blocking flag equals `want_blocks`.
pub open spec fn spec_draw_indices(
    objs: Seq<Object>,
    vis: Seq<Seq<bool>>,
    want_blocks: bool,
    i: int,
) -> Seq<usize>
    decreases objs.len() - i
    when 0 <= i
{
    if i >= objs.len() {
        Seq::empty()
    } else {
        let rest = spec_draw_indices(objs, vis, want_blocks, i + 1);
        if vis[objs[i].x as int][objs[i].y as int] && objs[i].blocks == want_blocks {
            seq![i as usize] + rest
        } else {
            rest
        }
    }
}

/// The order entities should be drawn in: only those inside the visible
/// set, all non-blocking ones (corpses, items) before all blocking ones, so
/// a corpse never occludes a standing creature; stable within each group.
pub open spec fn spec_draw_order(objs: Seq<Object>, vis: Seq<Seq<bool>>) -> Seq<usize> {
    spec_draw_indices(objs, vis, false, 0) + spec_draw_indices(objs, vis, true, 0)
}

/// Collect the indices of visible entities with the given blocking flag.
fn collect_draw_indices(
    objects: &Vec<Object>,
    fov: &FovMap,
    want_blocks: bool,
    r: &mut Vec<usize>,
)
    requires
        fov.wf(),
        forall|i: int|
            0 <= i < objects@.len() ==> 0 <= (#[trigger] objects@[i]).x < fov.spec_width() && 0
                <= objects@[i].y < fov.spec_height(),
    ensures
        final(r)@ == old(r)@ + spec_draw_indices(objects@, grid(fov.visible@), want_blocks, 0),
{
    let ghost objs = objects@;
    let ghost vis = grid(fov.visible@);
    let ghost r0 = r@;
    let mut i: usize = 0;
    while i < objects.len()
        invariant
            0 <= i <= objs.len(),
            objects@ == objs,
            vis == grid(fov.visible@),
            fov.wf(),
            forall|k: int|
                0 <= k < objs.len() ==> 0 <= (#[trigger] objs[k]).x < fov.spec_width() && 0
                    <= objs[k].y < fov.spec_height(),
            r0 + spec_draw_indices(objs, vis, want_blocks, 0) == r@ + spec_draw_indices(
                objs,
                vis,
                want_blocks,
                i as int,
            ),
        decreases objs.len() - i,
    {
        let o_x = objects[i].x;
        let o_y = objects[i].y;
        let ghost r_pre = r@;
        if fov.is_in_fov(o_x, o_y) && objects[i].blocks == want_blocks {
            r.push(i);
            proof {
                assert(r@ =~= r_pre + seq![i as usize]);
                assert(r_pre + (seq![i as usize] + spec_draw_indices(
                    objs,
                    vis,
                    want_blocks,
                    i as int + 1,
                )) =~= (r_pre + seq![i as usize]) + spec_draw_indices(
                    objs,
                    vis,
                    want_blocks,
                    i as int + 1,
                ));
            }
        }
        i = i + 1;
    }
    proof {
        assert(spec_draw_indices(objs, vis, want_blocks, objs.len() as int) =~= Seq::<
            usize,
        >::empty());
        assert(r@ + Seq::<usize>::empty() =~= r@);
    }
}

/// Compute the order in which the renderer should draw entities.
pub fn draw_order(objects: &Vec<Object>, fov: &FovMap) -> (r: Vec<usize>)
    requires
        fov.wf(),
        forall|i: int|
            0 <= i < objects@.len() ==> 0 <= (#[trigger] objects@[i]).x < fov.spec_width() && 0
                <= objects@[i].y < fov.spec_height(),
    ensures
        r@ == spec_draw_order(objects@, grid(fov.visible@)),
{
    let mut r: Vec<usize> = Vec::new();
    collect_draw_indices(objects, fov, false, &mut r);
    collect_draw_indices(objects, fov, true, &mut r);
    r
}

/// The player's current and maximum hit points, for status-bar rendering.
pub fn player_stats(objects: &Vec<Object>) -> (s: Option<(i32, i32)>)
    requires
        objects@.len() >= 1,
    ensures
        s == match objects@[PLAYER as int].fighter {
            Some(f) => Some((f.hp, f.max_hp)),
            None => None::<(i32, i32)>,
        },
{
    match objects[PLAYER].fighter {
        Some(f) => Some((f.hp, f.max_hp)),
        None => None,
    }
}

} // verus!
