//! What to draw for a list of UFOs, and in which order.

use vstd::prelude::*;
use crate::strategy::{Color, Strategy};
use crate::ufo::{TrailPoint, Ufo};

verus! {

/// Radius of a UFO's body, in units.
pub const BODY_RADIUS: i64 = 20_000;

/// Radius of a trail point, in units.
pub const TRAIL_RADIUS: i64 = 5_000;

/// The outline of a drawn shape.
#[derive(Clone, Copy, Debug, PartialEq, Eq, Structural)]
pub enum Shape {
    /// A regular pentagon.
    Pentagon,
    /// A filled circle.
    Disc,
}

/// One filled shape to draw.
#[derive(Clone, Copy, Debug, PartialEq, Eq, Structural)]
pub struct Sprite {
    pub shape: Shape,
    pub x: i64,
    pub y: i64,
    pub radius: i64,
    pub color: Color,
}

/// The body of a UFO: a pentagon for the player, a disc for the others.
pub open spec fn body_sprite(u: Ufo) -> Sprite {
    Sprite {
        shape: if u.movement == Strategy::Player { Shape::Pentagon } else { Shape::Disc },
        x: u.x,
        y: u.y,
        radius: BODY_RADIUS,
        color: u.color,
    }
}

/// A small disc in the colour recorded with the trail point.
pub open spec fn trail_sprite(p: TrailPoint) -> Sprite {
    Sprite { shape: Shape::Disc, x: p.0, y: p.1, radius: TRAIL_RADIUS, color: p.2 }
}

pub open spec fn trail_sprites(t: Seq<TrailPoint>) -> Seq<Sprite> {
    t.map_values(|p: TrailPoint| trail_sprite(p))
}

/// A UFO's body, then its trail from oldest to newest.
pub open spec fn ufo_sprites(u: Ufo) -> Seq<Sprite> {
    seq![body_sprite(u)] + trail_sprites(u.after_images@)
}

/// The sprites of all UFOs, in list order.
pub open spec fn draw_list_of(s: Seq<Ufo>) -> Seq<Sprite>
    decreases s.len(),
{
    if s.len() == 0 {
        Seq::empty()
    } else {
        draw_list_of(s.drop_last()) + ufo_sprites(s.last())
    }
}

/// The sprites to draw for the UFOs: for each, in list order, its body and
/// then its trail points from oldest to newest.
pub fn draw_list(ufos: &Vec<Ufo>) -> (out: Vec<Sprite>)
    ensures
        out@ == draw_list_of(ufos@),
{
    let mut out: Vec<Sprite> = Vec::new();
    let mut i: usize = 0;
    while i < ufos.len()
        invariant
            i <= ufos@.len(),
            out@ == draw_list_of(ufos@.subrange(0, i as int)),
        decreases ufos@.len() - i,
    {
        let u = &ufos[i];
        let shape = if u.movement == Strategy::Player { Shape::Pentagon } else { Shape::Disc };
        let base = Ghost(out@);
        out.push(Sprite { shape, x: u.x, y: u.y, radius: BODY_RADIUS, color: u.color });
        let mut j: usize = 0;
        while j < u.after_images.len()
            invariant
                u == ufos@[i as int],
                j <= u.after_images@.len(),
                out@ == base@ + seq![body_sprite(*u)] + trail_sprites(u.after_images@.subrange(0, j as int)),
            decreases u.after_images@.len() - j,
        {
            let p = u.after_images[j];
            out.push(Sprite { shape: Shape::Disc, x: p.0, y: p.1, radius: TRAIL_RADIUS, color: p.2 });
            assert(u.after_images@.subrange(0, j + 1) == u.after_images@.subrange(0, j as int).push(p));
            assert(trail_sprites(u.after_images@.subrange(0, j + 1)) =~= trail_sprites(
                u.after_images@.subrange(0, j as int),
            ).push(trail_sprite(p)));
            j = j + 1;
        }
        assert(u.after_images@.subrange(0, j as int) == u.after_images@);
        assert(ufos@.subrange(0, i + 1).drop_last() == ufos@.subrange(0, i as int));
        assert(out@ =~= draw_list_of(ufos@.subrange(0, i + 1)));
        i = i + 1;
    }
    assert(ufos@.subrange(0, i as int) == ufos@);
    out
}

} // verus!
