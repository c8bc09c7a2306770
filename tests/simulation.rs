use pewpewpew::chance::{random_color, random_speed};
use pewpewpew::geometry::{heading_toward, is_close, isqrt, COORD_LIMIT};
use pewpewpew::render::{draw_list, Shape, Sprite, BODY_RADIUS, TRAIL_RADIUS};
use pewpewpew::strategy::{Color, Strategy};
use pewpewpew::ufo::{spawn_height, Ufo, BAND_STEPS};
use pewpewpew::world::{
    check_collision, fits_after_move, move_ufos, neighbor_of, recolor_collisions, spawn_due,
    spawn_enemy, spawn_enemy_with, steer_one, steer_ufos, steer_with, SPAWN_THRESHOLD,
};
use pewpewpew::{AFTER_IMAGE_COUNT, SPEED, UNIT};

fn at(x: i64, y: i64, movement: Strategy) -> Ufo {
    Ufo::enemy_at(x, y, movement)
}

#[test]
fn strategy_colors() {
    assert_eq!(Strategy::Player.color(), Color::Blue);
    assert_eq!(Strategy::Linear.color(), Color::Green);
    assert_eq!(Strategy::Sine.color(), Color::Yellow);
    assert_eq!(Strategy::Random.color(), Color::Red);
}

#[test]
fn enemy_picks() {
    assert_eq!(Strategy::enemy_from(0), Strategy::Linear);
    assert_eq!(Strategy::enemy_from(1), Strategy::Sine);
    assert_eq!(Strategy::enemy_from(2), Strategy::Random);
}

#[test]
fn random_enemy_is_never_the_player() {
    let mut seen = [false; 3];
    for _ in 0..300 {
        match Strategy::random_enemy() {
            Strategy::Player => panic!("player drawn"),
            Strategy::Linear => seen[0] = true,
            Strategy::Sine => seen[1] = true,
            Strategy::Random => seen[2] = true,
        }
    }
    assert!(seen.iter().all(|s| *s));
}

#[test]
fn integer_square_roots() {
    assert_eq!(isqrt(0), 0);
    assert_eq!(isqrt(1), 1);
    assert_eq!(isqrt(15), 3);
    assert_eq!(isqrt(16), 4);
    assert_eq!(isqrt(10_000_000_000), 100_000);
    assert_eq!(isqrt(u128::MAX), u64::MAX);
}

#[test]
fn heading_is_a_unit_step() {
    assert_eq!(heading_toward(100_000, 0), (SPEED, 0));
    assert_eq!(heading_toward(0, -5), (0, -SPEED));
    assert_eq!(heading_toward(3_000, 4_000), (600, 800));
    assert_eq!(heading_toward(-3_000, -4_000), (-600, -800));
    assert_eq!(heading_toward(0, 0), (SPEED, 0));
}

#[test]
fn heading_keeps_speed_near_the_pointer() {
    assert_eq!(heading_toward(1, 1), (707, 707));
    assert_eq!(heading_toward(2, 1), (894, 447));
    assert_eq!(heading_toward(-1, 0), (-SPEED, 0));
    for (dx, dy) in [(1, 1), (2, 1), (-3, 7), (5, -5), (1, 1_000_000), (-2_000_000_000, 3)] {
        let (vx, vy) = heading_toward(dx, dy);
        let speed2 = vx * vx + vy * vy;
        assert!((speed2 - SPEED * SPEED).abs() <= 4 * SPEED);
        assert!(vx * dx + vy * dy > 0);
    }
}

#[test]
fn spawn_height_steps_down_the_band() {
    assert_eq!(spawn_height(600_000, 0), 150_000);
    assert_eq!(spawn_height(600_000, 500_000), 300_000);
    assert_eq!(spawn_height(600_000, BAND_STEPS - 1), 449_999);
    assert_eq!(spawn_height(1, 0), 0);
}

#[test]
fn closeness_threshold() {
    assert!(is_close(0, 0, 39_999, 0));
    assert!(!is_close(0, 0, 40_000, 0));
    assert!(is_close(0, 0, 24_000, 31_999));
    assert!(!is_close(0, 0, 24_000, 32_000));
}

#[test]
fn spawn_roll_threshold() {
    assert_eq!(SPAWN_THRESHOLD, 994_000);
    assert!(spawn_due(994_000));
    assert!(!spawn_due(993_999));
}

#[test]
fn spawn_with_mocked_roll() {
    let mut ufos = vec![Ufo::player()];
    spawn_enemy_with(&mut ufos, 993_999, at(800_000, 300_000, Strategy::Sine));
    assert_eq!(ufos.len(), 1);
    spawn_enemy_with(&mut ufos, 994_000, at(800_000, 300_000, Strategy::Sine));
    assert_eq!(ufos.len(), 2);
    assert_eq!(ufos[1].x, 800_000);
    assert_eq!(ufos[1].color, Color::Yellow);
}

#[test]
fn spawned_enemies_stay_in_band() {
    let mut ufos = vec![Ufo::player()];
    for _ in 0..5000 {
        spawn_enemy(&mut ufos, 800_000, 600_000);
    }
    assert!(ufos.len() > 1);
    for u in &ufos[1..] {
        assert_eq!(u.x, 800_000);
        assert!(u.y >= 150_000 && u.y < 450_000);
        assert_ne!(u.movement, Strategy::Player);
        assert_eq!(u.xspeed, -SPEED);
        assert_eq!(u.color, u.movement.color());
    }
}

#[test]
fn enemy_heights_vary() {
    let ys: Vec<i64> = (0..50).map(|_| Ufo::enemy(800_000, 600_000).y).collect();
    assert!(ys.iter().all(|y| *y >= 150_000 && *y < 450_000));
    assert!(ys.iter().any(|y| *y != ys[0]));
    assert_eq!(BAND_STEPS, 1_000_000);
}

#[test]
fn player_starts_at_rest() {
    let p = Ufo::player();
    assert_eq!((p.x, p.y), (100 * UNIT, 100 * UNIT));
    assert_eq!((p.xspeed, p.yspeed), (0, 0));
    assert_eq!(p.movement, Strategy::Player);
    assert_eq!(p.color, Color::Blue);
    assert!(p.after_images.is_empty());
}

#[test]
fn steering_per_strategy() {
    let player = Ufo::player();
    assert_eq!(steer_one(&player, 200_000, 100_000, 0, (0, 0)), (SPEED, 0));
    assert_eq!(steer_one(&player, 100_000, 0, 0, (0, 0)), (0, -SPEED));
    let linear = at(0, 0, Strategy::Linear);
    assert_eq!(steer_one(&linear, 5, 5, 700, (3, 4)), (-SPEED, 0));
    let sine = at(0, 0, Strategy::Sine);
    assert_eq!(steer_one(&sine, 5, 5, 700, (3, 4)), (-SPEED, 700));
    let random = at(0, 0, Strategy::Random);
    assert_eq!(steer_one(&random, 5, 5, 700, (3, -4)), (3, -4));
}

#[test]
fn steering_twice_gives_the_same_velocity() {
    let mut ufos = vec![at(50_000, 70_000, Strategy::Sine), Ufo::player(), at(1, 2, Strategy::Linear)];
    steer_ufos(&mut ufos, 400_000, 300_000, &vec![-250, 0, 0]);
    let first: Vec<(i64, i64)> = ufos.iter().map(|u| (u.xspeed, u.yspeed)).collect();
    steer_ufos(&mut ufos, 400_000, 300_000, &vec![-250, 0, 0]);
    let second: Vec<(i64, i64)> = ufos.iter().map(|u| (u.xspeed, u.yspeed)).collect();
    assert_eq!(first, second);
    assert_eq!(first[0], (-SPEED, -250));
    assert_eq!(first[2], (-SPEED, 0));
}

#[test]
fn random_drift_stays_within_speed() {
    let mut ufos = vec![at(0, 0, Strategy::Random)];
    let mut varied = false;
    let mut last = (SPEED, SPEED);
    for _ in 0..200 {
        steer_ufos(&mut ufos, 0, 0, &vec![0]);
        let v = (ufos[0].xspeed, ufos[0].yspeed);
        assert!(v.0 >= -SPEED && v.0 < SPEED && v.1 >= -SPEED && v.1 < SPEED);
        varied |= v != last;
        last = v;
    }
    assert!(varied);
    let s = random_speed();
    assert!(s >= -SPEED && s < SPEED);
}

#[test]
fn steer_with_given_drift() {
    let mut ufos = vec![at(0, 0, Strategy::Random), at(0, 0, Strategy::Linear)];
    steer_with(&mut ufos, 0, 0, &vec![0, 0], &vec![(10, -20), (30, 40)]);
    assert_eq!((ufos[0].xspeed, ufos[0].yspeed), (10, -20));
    assert_eq!((ufos[1].xspeed, ufos[1].yspeed), (-SPEED, 0));
}

#[test]
fn trail_is_bounded() {
    let mut ufos = vec![at(500_000, 500_000, Strategy::Linear)];
    for _ in 0..250 {
        move_ufos(&mut ufos);
        assert!(ufos[0].after_images.len() <= AFTER_IMAGE_COUNT);
    }
    assert_eq!(ufos[0].after_images.len(), 100);
    assert_eq!(ufos[0].x, 500_000 - 250 * SPEED);
}

#[test]
fn trail_is_first_in_first_out() {
    let mut ufos = vec![at(0, 0, Strategy::Linear)];
    ufos[0].xspeed = SPEED;
    for _ in 0..101 {
        move_ufos(&mut ufos);
    }
    let trail = &ufos[0].after_images;
    assert_eq!(trail.len(), 100);
    assert!(!trail.iter().any(|p| p.0 == SPEED));
    assert_eq!(trail[0], (2 * SPEED, 0, Color::Green));
    assert_eq!(trail[99], (101 * SPEED, 0, Color::Green));
    for k in 0..100 {
        assert_eq!(trail[k].0, (k as i64 + 2) * SPEED);
    }
}

#[test]
fn trail_keeps_colour_at_the_time() {
    let mut ufos = vec![at(0, 0, Strategy::Linear)];
    move_ufos(&mut ufos);
    ufos[0].color = Color::Rgb { r: 1, g: 2, b: 3 };
    move_ufos(&mut ufos);
    assert_eq!(ufos[0].after_images[0].2, Color::Green);
    assert_eq!(ufos[0].after_images[1].2, Color::Rgb { r: 1, g: 2, b: 3 });
}

#[test]
fn movement_limit_is_detected() {
    let ok = vec![at(0, 0, Strategy::Linear)];
    assert!(fits_after_move(&ok));
    let edge = vec![at(-COORD_LIMIT, 0, Strategy::Linear)];
    assert!(!fits_after_move(&edge));
}

#[test]
fn close_pairs_get_the_fresh_colour() {
    let mut ufos = vec![
        at(0, 0, Strategy::Linear),
        at(30_000, 0, Strategy::Sine),
        at(500_000, 500_000, Strategy::Random),
    ];
    assert!(neighbor_of(&ufos, 0));
    assert!(neighbor_of(&ufos, 1));
    assert!(!neighbor_of(&ufos, 2));
    let fresh = Color::Rgb { r: 10, g: 20, b: 30 };
    recolor_collisions(&mut ufos, &vec![fresh, fresh, fresh]);
    assert_eq!(ufos[0].color, fresh);
    assert_eq!(ufos[1].color, fresh);
    assert_eq!(ufos[2].color, Color::Red);
    assert_eq!(ufos[1].x, 30_000);
}

#[test]
fn collision_draws_an_rgb_colour() {
    let mut ufos = vec![at(0, 0, Strategy::Linear), at(0, 39_000, Strategy::Sine), at(0, 100_000, Strategy::Random)];
    check_collision(&mut ufos);
    assert!(matches!(ufos[0].color, Color::Rgb { .. }));
    assert!(matches!(ufos[1].color, Color::Rgb { .. }));
    assert_eq!(ufos[2].color, Color::Red);
    assert!(matches!(random_color(), Color::Rgb { .. }));
}

#[test]
fn draw_order() {
    let mut ufos = vec![at(10_000, 20_000, Strategy::Linear), Ufo::player()];
    ufos[0].after_images.push((1, 2, Color::Red));
    ufos[0].after_images.push((3, 4, Color::Blue));
    let list = draw_list(&ufos);
    assert_eq!(
        list,
        vec![
            Sprite { shape: Shape::Disc, x: 10_000, y: 20_000, radius: BODY_RADIUS, color: Color::Green },
            Sprite { shape: Shape::Disc, x: 1, y: 2, radius: TRAIL_RADIUS, color: Color::Red },
            Sprite { shape: Shape::Disc, x: 3, y: 4, radius: TRAIL_RADIUS, color: Color::Blue },
            Sprite { shape: Shape::Pentagon, x: 100_000, y: 100_000, radius: BODY_RADIUS, color: Color::Blue },
        ]
    );
}

#[test]
fn one_frame_moves_player_toward_pointer() {
    let mut ufos = vec![at(800_000, 300_000, Strategy::Linear), Ufo::player()];
    spawn_enemy_with(&mut ufos, 0, at(0, 0, Strategy::Linear));
    assert_eq!(ufos.len(), 2);
    steer_ufos(&mut ufos, 200_000, 100_000, &vec![0, 0]);
    assert!(fits_after_move(&ufos));
    move_ufos(&mut ufos);
    let fresh = Color::Rgb { r: 0, g: 0, b: 0 };
    recolor_collisions(&mut ufos, &vec![fresh, fresh]);
    assert_eq!((ufos[1].xspeed, ufos[1].yspeed), (SPEED, 0));
    assert_eq!((ufos[1].x, ufos[1].y), (101 * UNIT, 100 * UNIT));
    assert_eq!((ufos[0].x, ufos[0].y), (799_000, 300_000));
    assert_eq!(ufos[1].color, Color::Blue);
}
