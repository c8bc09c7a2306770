//! General properties of the simulation, stated over the functions' models.

use vstd::prelude::*;
use crate::AFTER_IMAGE_COUNT;
use crate::geometry::close;
use crate::strategy::{Color, Strategy};
use crate::ufo::{trail_push, TrailPoint, Ufo};
use crate::world::{has_neighbor, recolored, steering, with_velocity};

verus! {

/// The trail after recording each of `pts` in turn, starting from `t`.
pub open spec fn trail_after(t: Seq<TrailPoint>, pts: Seq<TrailPoint>) -> Seq<TrailPoint>
    decreases pts.len(),
{
    if pts.len() == 0 {
        t
    } else {
        trail_push(trail_after(t, pts.drop_last()), pts.last())
    }
}

/// However many points are recorded, a trail never holds more than
/// `AFTER_IMAGE_COUNT` of them.
pub proof fn lemma_trail_bounded(t: Seq<TrailPoint>, pts: Seq<TrailPoint>)
    requires
        t.len() <= AFTER_IMAGE_COUNT,
    ensures
        trail_after(t, pts).len() <= AFTER_IMAGE_COUNT,
    decreases pts.len(),
{
    if pts.len() > 0 {
        lemma_trail_bounded(t, pts.drop_last());
    }
}

/// A trail started empty holds exactly the latest `AFTER_IMAGE_COUNT` points
/// recorded (all of them if fewer), oldest first.
pub proof fn lemma_trail_keeps_latest(pts: Seq<TrailPoint>)
    ensures
        trail_after(Seq::empty(), pts) == (if pts.len() <= AFTER_IMAGE_COUNT {
            pts
        } else {
            pts.subrange(pts.len() - AFTER_IMAGE_COUNT, pts.len() as int)
        }),
    decreases pts.len(),
{
    if pts.len() > 0 {
        let prev = pts.drop_last();
        lemma_trail_keeps_latest(prev);
        if pts.len() <= AFTER_IMAGE_COUNT {
            assert(prev.push(pts.last()) == pts);
        } else {
            let start = pts.len() - AFTER_IMAGE_COUNT;
            if prev.len() <= AFTER_IMAGE_COUNT {
                assert(prev.push(pts.last()).drop_first() =~= pts.subrange(start, pts.len() as int));
            } else {
                assert(prev.subrange(prev.len() - AFTER_IMAGE_COUNT, prev.len() as int).push(
                    pts.last(),
                ).drop_first() =~= pts.subrange(start, pts.len() as int));
            }
        }
    }
}

/// Recording a point into a full trail drops its oldest point and keeps the
/// order of the others.
pub proof fn lemma_trail_fifo(t: Seq<TrailPoint>, p: TrailPoint)
    requires
        t.len() == AFTER_IMAGE_COUNT,
    ensures
        trail_push(t, p).len() == AFTER_IMAGE_COUNT,
        trail_push(t, p) == t.subrange(1, t.len() as int).push(p),
{
    assert(trail_push(t, p) =~= t.subrange(1, t.len() as int).push(p));
}

/// Steering is a pure function of position, strategy and pointer: except for
/// randomly moving UFOs, the same inputs give the same velocity whatever the
/// random drift, and the sine-wave speed matters only to sine movers.
pub proof fn lemma_steering_pure(
    movement: Strategy,
    x: int,
    y: int,
    px: int,
    py: int,
    sway1: int,
    sway2: int,
    jitter1: (i64, i64),
    jitter2: (i64, i64),
)
    requires
        movement != Strategy::Random,
        movement == Strategy::Sine ==> sway1 == sway2,
    ensures
        steering(movement, x, y, px, py, sway1, jitter1) == steering(movement, x, y, px, py, sway2, jitter2),
{
}

/// After a collision check, both UFOs of every pair that was within the
/// collision distance carry their fresh colours.
pub proof fn lemma_close_pair_recolored(before: Seq<Ufo>, after: Seq<Ufo>, fresh: Seq<Color>, i: int, j: int)
    requires
        after.len() == before.len(),
        fresh.len() == before.len(),
        forall|k: int| 0 <= k < before.len() ==> recolored(
            #[trigger] before[k],
            after[k],
            if has_neighbor(before, k) { fresh[k] } else { before[k].color },
        ),
        0 <= i < before.len(),
        0 <= j < before.len(),
        i != j,
        close(before[i].x as int, before[i].y as int, before[j].x as int, before[j].y as int),
    ensures
        after[i].color == fresh[i],
        after[j].color == fresh[j],
{
    assert(recolored(before[i], after[i], if has_neighbor(before, i) { fresh[i] } else { before[i].color }));
    assert(recolored(before[j], after[j], if has_neighbor(before, j) { fresh[j] } else { before[j].color }));
    crate::geometry::lemma_close_symmetric(before[i].x as int, before[i].y as int, before[j].x as int, before[j].y as int);
    assert(has_neighbor(before, i));
    assert(has_neighbor(before, j));
}

/// Number of player-controlled UFOs in `s`.
pub open spec fn player_count(s: Seq<Ufo>) -> nat
    decreases s.len(),
{
    if s.len() == 0 {
        0
    } else {
        player_count(s.drop_last()) + if s.last().movement == Strategy::Player { 1nat } else { 0nat }
    }
}

/// Steering, moving and recolouring keep every UFO's strategy in place, and
/// with it the number of players.
pub proof fn lemma_same_strategies_same_players(before: Seq<Ufo>, after: Seq<Ufo>)
    requires
        after.len() == before.len(),
        forall|i: int| 0 <= i < before.len() ==> (#[trigger] after[i]).movement == before[i].movement,
    ensures
        player_count(after) == player_count(before),
    decreases before.len(),
{
    if before.len() > 0 {
        let (b, a) = (before.drop_last(), after.drop_last());
        assert forall|i: int| 0 <= i < b.len() implies (#[trigger] a[i]).movement == b[i].movement by {
            assert(after[i].movement == before[i].movement);
        }
        lemma_same_strategies_same_players(b, a);
        assert(after.last().movement == before.last().movement);
    }
}

/// Spawning adds an enemy, never a player, so the number of players stays.
pub proof fn lemma_spawn_keeps_players(s: Seq<Ufo>, enemy: Ufo)
    requires
        enemy.movement != Strategy::Player,
    ensures
        player_count(s.push(enemy)) == player_count(s),
{
    assert(s.push(enemy).drop_last() == s);
}

/// The world that starts with one enemy and the player holds exactly one player.
pub proof fn lemma_start_has_one_player(enemy: Ufo, player: Ufo)
    requires
        enemy.movement != Strategy::Player,
        player.movement == Strategy::Player,
    ensures
        player_count(seq![enemy, player]) == 1,
{
    assert(seq![enemy, player].drop_last() == seq![enemy]);
    assert(seq![enemy].drop_last() == Seq::<Ufo>::empty());
    assert(player_count(Seq::<Ufo>::empty()) == 0);
    assert(player_count(seq![enemy]) == 0);
    assert(seq![enemy, player].last() == player);
}

/// Steering two lists whose UFOs stand at the same places with the same
/// strategies, with the same pointer, sine-wave speeds and random drift,
/// gives the same velocities, whatever velocities, colours and trails they
/// had before.
pub proof fn lemma_steering_repeatable(
    a: Seq<Ufo>,
    b: Seq<Ufo>,
    a2: Seq<Ufo>,
    b2: Seq<Ufo>,
    px: int,
    py: int,
    sways: Seq<i64>,
    jitters: Seq<(i64, i64)>,
)
    requires
        a.len() == b.len(),
        a2.len() == a.len(),
        b2.len() == b.len(),
        forall|i: int| 0 <= i < a.len() ==> (#[trigger] a[i]).x == b[i].x && a[i].y == b[i].y
            && a[i].movement == b[i].movement,
        forall|i: int| 0 <= i < a.len() ==> {
            let u = #[trigger] a[i];
            let v = steering(u.movement, u.x as int, u.y as int, px, py, sways[i] as int, jitters[i]);
            with_velocity(u, a2[i], v.0, v.1)
        },
        forall|i: int| 0 <= i < b.len() ==> {
            let u = #[trigger] b[i];
            let v = steering(u.movement, u.x as int, u.y as int, px, py, sways[i] as int, jitters[i]);
            with_velocity(u, b2[i], v.0, v.1)
        },
    ensures
        forall|i: int| 0 <= i < a.len() ==> (#[trigger] a2[i]).xspeed == b2[i].xspeed
            && a2[i].yspeed == b2[i].yspeed,
{
    assert forall|i: int| 0 <= i < a.len() implies (#[trigger] a2[i]).xspeed == b2[i].xspeed
        && a2[i].yspeed == b2[i].yspeed by {
        assert(a[i].x == b[i].x && a[i].y == b[i].y && a[i].movement == b[i].movement);
        let u = a[i];
        let w = b[i];
        assert(with_velocity(u, a2[i], steering(u.movement, u.x as int, u.y as int, px, py, sways[i] as int, jitters[i]).0,
            steering(u.movement, u.x as int, u.y as int, px, py, sways[i] as int, jitters[i]).1));
        assert(with_velocity(w, b2[i], steering(w.movement, w.x as int, w.y as int, px, py, sways[i] as int, jitters[i]).0,
            steering(w.movement, w.x as int, w.y as int, px, py, sways[i] as int, jitters[i]).1));
    }
}

} // verus!
