//! One frame of the simulation over the list of UFOs, phase by phase:
//! spawning, steering, moving, and recolouring on collision.

use vstd::prelude::*;
use crate::SPEED;
use crate::chance::{draw_below, random_color, random_speed};
use crate::geometry::{close, heading, heading_toward, in_coord_range, is_close, length, on_course, COORD_LIMIT};
use crate::strategy::{strategy_color, Color, Strategy};
use crate::ufo::{in_spawn_band, trail_push, Ufo};

verus! {

/// Range of the per-frame spawn roll, in thousandths: the roll stands for a
/// number in `[0, 1000)`.
pub const ROLL_RANGE: i64 = 1_000_000;

/// A roll at or above this (994 in thousandths) spawns an enemy.
pub const SPAWN_THRESHOLD: i64 = 994_000;

/// Every UFO is well formed.
pub open spec fn all_wf(s: Seq<Ufo>) -> bool {
    forall|i: int| 0 <= i < s.len() ==> #[trigger] s[i].wf()
}

/// `b` is `a` with only the colour replaced by `c`.
pub open spec fn recolored(a: Ufo, b: Ufo, c: Color) -> bool {
    &&& b.x == a.x
    &&& b.y == a.y
    &&& b.xspeed == a.xspeed
    &&& b.yspeed == a.yspeed
    &&& b.movement == a.movement
    &&& b.after_images@ == a.after_images@
    &&& b.color == c
}

/// `b` is `a` with only the velocity replaced by `(vx, vy)`.
pub open spec fn with_velocity(a: Ufo, b: Ufo, vx: int, vy: int) -> bool {
    &&& b.x == a.x
    &&& b.y == a.y
    &&& b.color == a.color
    &&& b.movement == a.movement
    &&& b.after_images@ == a.after_images@
    &&& b.xspeed == vx
    &&& b.yspeed == vy
}

/// `b` is `a` moved by its velocity, with the new position in its trail.
pub open spec fn advanced(a: Ufo, b: Ufo) -> bool {
    &&& b.x == a.x + a.xspeed
    &&& b.y == a.y + a.yspeed
    &&& b.color == a.color
    &&& b.xspeed == a.xspeed
    &&& b.yspeed == a.yspeed
    &&& b.movement == a.movement
    &&& b.after_images@ == trail_push(a.after_images@, (b.x, b.y, a.color))
}

/// The velocity a strategy gives a UFO at `(x, y)`, with the pointer at
/// `(px, py)`, `sway` standing for `SPEED * sin(x / 100 pixels)` and
/// `jitter` for the random drift.
pub open spec fn steering(
    movement: Strategy,
    x: int,
    y: int,
    px: int,
    py: int,
    sway: int,
    jitter: (i64, i64),
) -> (int, int) {
    match movement {
        Strategy::Player => heading(px - x, py - y, length(px - x, py - y)),
        Strategy::Linear => (-SPEED as int, 0),
        Strategy::Sine => (-SPEED as int, sway),
        Strategy::Random => (jitter.0 as int, jitter.1 as int),
    }
}

/// Some other UFO in `s` is within the collision distance of the `i`-th.
pub open spec fn has_neighbor(s: Seq<Ufo>, i: int) -> bool {
    exists|j: int|
        0 <= j < s.len() && j != i && #[trigger] close(s[i].x as int, s[i].y as int, s[j].x as int, s[j].y as int)
}

/// Whether a spawn roll spawns an enemy.
pub fn spawn_due(roll: i64) -> (r: bool)
    ensures
        r == (roll >= SPAWN_THRESHOLD),
{
    roll >= SPAWN_THRESHOLD
}

/// Appends `enemy` if the roll spawns one.
pub fn spawn_enemy_with(ufos: &mut Vec<Ufo>, roll: i64, enemy: Ufo)
    ensures
        final(ufos)@ == (if roll >= SPAWN_THRESHOLD {
            old(ufos)@.push(enemy)
        } else {
            old(ufos)@
        }),
{
    if spawn_due(roll) {
        ufos.push(enemy);
    }
}

/// Rolls for a spawn, and on success appends a random enemy at the right edge
/// of a screen of the given size.
pub fn spawn_enemy(ufos: &mut Vec<Ufo>, width: i64, height: i64)
    requires
        0 <= width <= COORD_LIMIT,
        0 <= height <= COORD_LIMIT,
        all_wf(old(ufos)@),
    ensures
        all_wf(final(ufos)@),
        final(ufos)@ == old(ufos)@ || {
            let e = final(ufos)@.last();
            &&& final(ufos)@ == old(ufos)@.push(e)
            &&& e.x == width
            &&& in_spawn_band(e.y as int, height as int)
            &&& e.movement != Strategy::Player
            &&& e.color == strategy_color(e.movement)
            &&& e.xspeed == -SPEED
            &&& e.yspeed == 0
            &&& e.after_images@.len() == 0
        },
{
    let roll = draw_below(ROLL_RANGE);
    if spawn_due(roll) {
        let enemy = Ufo::enemy(width, height);
        spawn_enemy_with(ufos, roll, enemy);
        assert(ufos@.last() == enemy);
    }
}

/// The velocity of one UFO under its strategy.
pub fn steer_one(u: &Ufo, px: i64, py: i64, sway: i64, jitter: (i64, i64)) -> (v: (i64, i64))
    requires
        u.wf(),
        in_coord_range(px as int),
        in_coord_range(py as int),
        -SPEED <= sway <= SPEED,
        -SPEED <= jitter.0 <= SPEED,
        -SPEED <= jitter.1 <= SPEED,
    ensures
        (v.0 as int, v.1 as int) == steering(u.movement, u.x as int, u.y as int, px as int, py as int, sway as int, jitter),
        -SPEED <= v.0 <= SPEED,
        -SPEED <= v.1 <= SPEED,
        u.movement == Strategy::Player && (u.x != px || u.y != py) ==> on_course(
            v.0 as int,
            v.1 as int,
            px - u.x,
            py - u.y,
        ),
{
    match u.movement {
        Strategy::Player => heading_toward(px - u.x, py - u.y),
        Strategy::Linear => (-SPEED, 0),
        Strategy::Sine => (-SPEED, sway),
        Strategy::Random => jitter,
    }
}

/// Sets every UFO's velocity from its strategy. `sways[i]` and `jitters[i]`
/// are the sine-wave speed and the random drift for the `i`-th UFO.
pub fn steer_with(ufos: &mut Vec<Ufo>, px: i64, py: i64, sways: &Vec<i64>, jitters: &Vec<(i64, i64)>)
    requires
        all_wf(old(ufos)@),
        in_coord_range(px as int),
        in_coord_range(py as int),
        sways@.len() == old(ufos)@.len(),
        jitters@.len() == old(ufos)@.len(),
        forall|i: int| 0 <= i < sways@.len() ==> -SPEED <= #[trigger] sways@[i] <= SPEED,
        forall|i: int| 0 <= i < jitters@.len() ==> -SPEED <= (#[trigger] jitters@[i]).0 <= SPEED
            && -SPEED <= jitters@[i].1 <= SPEED,
    ensures
        final(ufos)@.len() == old(ufos)@.len(),
        all_wf(final(ufos)@),
        forall|i: int| 0 <= i < old(ufos)@.len() ==> {
            let a = #[trigger] old(ufos)@[i];
            let v = steering(a.movement, a.x as int, a.y as int, px as int, py as int, sways@[i] as int, jitters@[i]);
            with_velocity(a, final(ufos)@[i], v.0, v.1)
        },
        forall|i: int| 0 <= i < old(ufos)@.len() ==> {
            let a = #[trigger] old(ufos)@[i];
            let b = final(ufos)@[i];
            a.movement == Strategy::Player && (a.x != px || a.y != py) ==> on_course(
                b.xspeed as int,
                b.yspeed as int,
                px - a.x,
                py - a.y,
            )
        },
{
    let n = ufos.len();
    let mut i: usize = 0;
    while i < n
        invariant
            n == ufos@.len(),
            n == old(ufos)@.len(),
            i <= n,
            sways@.len() == n,
            jitters@.len() == n,
            in_coord_range(px as int),
            in_coord_range(py as int),
            all_wf(ufos@),
            forall|i: int| 0 <= i < sways@.len() ==> -SPEED <= #[trigger] sways@[i] <= SPEED,
            forall|i: int| 0 <= i < jitters@.len() ==> -SPEED <= (#[trigger] jitters@[i]).0 <= SPEED
                && -SPEED <= jitters@[i].1 <= SPEED,
            forall|k: int| 0 <= k < i ==> {
                let a = #[trigger] old(ufos)@[k];
                let v = steering(a.movement, a.x as int, a.y as int, px as int, py as int, sways@[k] as int, jitters@[k]);
                with_velocity(a, ufos@[k], v.0, v.1)
            },
            forall|k: int| 0 <= k < i ==> {
                let a = #[trigger] old(ufos)@[k];
                let b = ufos@[k];
                a.movement == Strategy::Player && (a.x != px || a.y != py) ==> on_course(
                    b.xspeed as int,
                    b.yspeed as int,
                    px - a.x,
                    py - a.y,
                )
            },
            forall|k: int| i <= k < n ==> #[trigger] ufos@[k] == old(ufos)@[k],
        decreases n - i,
    {
        let v = steer_one(&ufos[i], px, py, sways[i], jitters[i]);
        assert(ufos@[i as int].wf());
        ufos[i].xspeed = v.0;
        ufos[i].yspeed = v.1;
        i = i + 1;
    }
}

/// Sets every UFO's velocity from its strategy, drawing the random drift of
/// the randomly moving ones. `sways[i]` is the sine-wave speed of the `i`-th.
pub fn steer_ufos(ufos: &mut Vec<Ufo>, px: i64, py: i64, sways: &Vec<i64>)
    requires
        all_wf(old(ufos)@),
        in_coord_range(px as int),
        in_coord_range(py as int),
        sways@.len() == old(ufos)@.len(),
        forall|i: int| 0 <= i < sways@.len() ==> -SPEED <= #[trigger] sways@[i] <= SPEED,
    ensures
        final(ufos)@.len() == old(ufos)@.len(),
        all_wf(final(ufos)@),
        forall|i: int| 0 <= i < old(ufos)@.len() ==> {
            let a = #[trigger] old(ufos)@[i];
            let b = final(ufos)@[i];
            let v = steering(a.movement, a.x as int, a.y as int, px as int, py as int, sways@[i] as int, (0, 0));
            if a.movement == Strategy::Random {
                with_velocity(a, b, b.xspeed as int, b.yspeed as int)
                    && -SPEED <= b.xspeed < SPEED && -SPEED <= b.yspeed < SPEED
            } else {
                with_velocity(a, b, v.0, v.1)
            }
        },
        forall|i: int| 0 <= i < old(ufos)@.len() ==> {
            let a = #[trigger] old(ufos)@[i];
            let b = final(ufos)@[i];
            a.movement == Strategy::Player && (a.x != px || a.y != py) ==> on_course(
                b.xspeed as int,
                b.yspeed as int,
                px - a.x,
                py - a.y,
            )
        },
{
    let n = ufos.len();
    let mut jitters: Vec<(i64, i64)> = Vec::new();
    let mut i: usize = 0;
    while i < n
        invariant
            n == ufos@.len(),
            i <= n,
            jitters@.len() == i,
            forall|k: int| 0 <= k < i ==> {
                let j = #[trigger] jitters@[k];
                &&& -SPEED <= j.0 < SPEED
                &&& -SPEED <= j.1 < SPEED
                &&& ufos@[k].movement != Strategy::Random ==> j == (0i64, 0i64)
            },
        decreases n - i,
    {
        if ufos[i].movement == Strategy::Random {
            let jx = random_speed();
            let jy = random_speed();
            jitters.push((jx, jy));
        } else {
            jitters.push((0, 0));
        }
        i = i + 1;
    }
    steer_with(ufos, px, py, sways, &jitters);
}

/// Every UFO can take its next step without leaving the coordinate range.
pub open spec fn all_can_advance(s: Seq<Ufo>) -> bool {
    forall|i: int| 0 <= i < s.len() ==> #[trigger] s[i].can_advance()
}

/// Whether every UFO can take its next step without leaving the coordinate range.
pub fn fits_after_move(ufos: &Vec<Ufo>) -> (r: bool)
    requires
        all_wf(ufos@),
    ensures
        r == all_can_advance(ufos@),
{
    let mut i: usize = 0;
    while i < ufos.len()
        invariant
            i <= ufos@.len(),
            all_wf(ufos@),
            forall|k: int| 0 <= k < i ==> #[trigger] ufos@[k].can_advance(),
        decreases ufos@.len() - i,
    {
        let u = &ufos[i];
        assert(u.wf());
        if u.x + u.xspeed < -COORD_LIMIT || u.x + u.xspeed > COORD_LIMIT
            || u.y + u.yspeed < -COORD_LIMIT || u.y + u.yspeed > COORD_LIMIT {
            assert(!ufos@[i as int].can_advance());
            return false;
        }
        i = i + 1;
    }
    true
}

/// Moves every UFO by its velocity and records the new positions in the trails.
pub fn move_ufos(ufos: &mut Vec<Ufo>)
    requires
        all_wf(old(ufos)@),
        all_can_advance(old(ufos)@),
    ensures
        final(ufos)@.len() == old(ufos)@.len(),
        all_wf(final(ufos)@),
        forall|i: int| 0 <= i < old(ufos)@.len() ==> advanced(#[trigger] old(ufos)@[i], final(ufos)@[i]),
{
    let n = ufos.len();
    let mut i: usize = 0;
    while i < n
        invariant
            n == ufos@.len(),
            n == old(ufos)@.len(),
            i <= n,
            all_wf(ufos@),
            forall|k: int| 0 <= k < i ==> advanced(#[trigger] old(ufos)@[k], ufos@[k]),
            forall|k: int| i <= k < n ==> #[trigger] ufos@[k] == old(ufos)@[k],
            all_can_advance(old(ufos)@),
        decreases n - i,
    {
        assert(old(ufos)@[i as int].can_advance());
        ufos[i].advance();
        i = i + 1;
    }
}

/// Whether some other UFO is within the collision distance of the `i`-th.
pub fn neighbor_of(ufos: &Vec<Ufo>, i: usize) -> (r: bool)
    requires
        all_wf(ufos@),
        i < ufos@.len(),
    ensures
        r == has_neighbor(ufos@, i as int),
{
    let s = Ghost(ufos@);
    let mut j: usize = 0;
    assert(ufos@[i as int].wf());
    while j < ufos.len()
        invariant
            s@ == ufos@,
            i < ufos@.len(),
            j <= ufos@.len(),
            all_wf(ufos@),
            forall|k: int| 0 <= k < j && k != i ==> !close(s@[i as int].x as int, s@[i as int].y as int, #[trigger] s@[k].x as int, s@[k].y as int),
        decreases ufos@.len() - j,
    {
        assert(ufos@[j as int].wf());
        assert(ufos@[i as int].wf());
        if j != i && is_close(ufos[i].x, ufos[i].y, ufos[j].x, ufos[j].y) {
            return true;
        }
        j = j + 1;
    }
    proof {
        if has_neighbor(ufos@, i as int) {
            let k = choose|k: int| 0 <= k < s@.len() && k != i && #[trigger] close(s@[i as int].x as int, s@[i as int].y as int, s@[k].x as int, s@[k].y as int);
            assert(!close(s@[i as int].x as int, s@[i as int].y as int, s@[k].x as int, s@[k].y as int));
        }
    }
    false
}

/// Gives every UFO that has another within the collision distance its colour
/// from `fresh`; the others keep theirs.
pub fn recolor_collisions(ufos: &mut Vec<Ufo>, fresh: &Vec<Color>)
    requires
        all_wf(old(ufos)@),
        fresh@.len() == old(ufos)@.len(),
    ensures
        final(ufos)@.len() == old(ufos)@.len(),
        all_wf(final(ufos)@),
        forall|i: int| 0 <= i < old(ufos)@.len() ==> recolored(
            #[trigger] old(ufos)@[i],
            final(ufos)@[i],
            if has_neighbor(old(ufos)@, i) { fresh@[i] } else { old(ufos)@[i].color },
        ),
{
    let n = ufos.len();
    let mut hits: Vec<bool> = Vec::new();
    let mut i: usize = 0;
    while i < n
        invariant
            n == ufos@.len(),
            ufos@ == old(ufos)@,
            all_wf(ufos@),
            i <= n,
            hits@.len() == i,
            forall|k: int| 0 <= k < i ==> #[trigger] hits@[k] == has_neighbor(old(ufos)@, k),
        decreases n - i,
    {
        let hit = neighbor_of(ufos, i);
        hits.push(hit);
        i = i + 1;
    }
    let mut i: usize = 0;
    while i < n
        invariant
            n == ufos@.len(),
            n == old(ufos)@.len(),
            fresh@.len() == n,
            hits@.len() == n,
            i <= n,
            all_wf(ufos@),
            forall|k: int| 0 <= k < n ==> #[trigger] hits@[k] == has_neighbor(old(ufos)@, k),
            forall|k: int| 0 <= k < i ==> recolored(
                #[trigger] old(ufos)@[k],
                ufos@[k],
                if has_neighbor(old(ufos)@, k) { fresh@[k] } else { old(ufos)@[k].color },
            ),
            forall|k: int| i <= k < n ==> #[trigger] ufos@[k] == old(ufos)@[k],
        decreases n - i,
    {
        if hits[i] {
            ufos[i].color = fresh[i];
        }
        assert(ufos@[i as int].wf());
        i = i + 1;
    }
}

/// Gives every UFO that has another within the collision distance a fresh
/// random colour; the others keep theirs.
pub fn check_collision(ufos: &mut Vec<Ufo>)
    requires
        all_wf(old(ufos)@),
    ensures
        final(ufos)@.len() == old(ufos)@.len(),
        all_wf(final(ufos)@),
        forall|i: int| 0 <= i < old(ufos)@.len() ==> {
            let a = #[trigger] old(ufos)@[i];
            let b = final(ufos)@[i];
            if has_neighbor(old(ufos)@, i) {
                recolored(a, b, b.color) && b.color is Rgb
            } else {
                recolored(a, b, a.color)
            }
        },
{
    let n = ufos.len();
    let mut fresh: Vec<Color> = Vec::new();
    let mut i: usize = 0;
    while i < n
        invariant
            n == ufos@.len(),
            i <= n,
            fresh@.len() == i,
            forall|k: int| 0 <= k < i ==> #[trigger] fresh@[k] is Rgb,
        decreases n - i,
    {
        fresh.push(random_color());
        i = i + 1;
    }
    recolor_collisions(ufos, &fresh);
}

} // verus!
