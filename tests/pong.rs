use pong_clone::components::{
    Ball, Body, Collider, Collision, Keys, Scoreboard, ScoreText, Serve, Vector2, Wall, World,
    BALL_HALF, PADDLE_LIMIT, PADDLE_SPEED, SERVE_SPEED, UNIT, WALL_HALF_THICKNESS,
};
use pong_clone::physics::{
    ball_movement, collide, collider_list, collision, contact, paddle_left_movement,
    paddle_right_movement, resolve_collisions, serve_ball,
};
use pong_clone::world::Step;

const NO_KEYS: Keys = Keys { left_up: false, left_down: false, right_up: false, right_down: false };

fn body(x: i64, y: i64, hx: i64, hy: i64) -> Body {
    Body { position: Vector2 { x, y }, half: Vector2 { x: hx, y: hy } }
}

fn ball_at(x: i64, y: i64, vx: i64, vy: i64) -> (Ball, Body) {
    (Ball { velocity: Vector2 { x: vx, y: vy } }, body(x, y, BALL_HALF, BALL_HALF))
}

fn left_paddle_y(w: &World) -> i64 {
    w.paddle_left.unwrap().1.position.y
}

fn right_paddle_y(w: &World) -> i64 {
    w.paddle_right.unwrap().1.position.y
}

#[test]
fn new_world_is_the_starting_layout() {
    let w = World::new();
    assert_eq!(w.scoreboard, Scoreboard { score_left: 0, score_right: 0 });
    assert_eq!(w.ball, Some(ball_at(0, 0, -SERVE_SPEED, -SERVE_SPEED)));
    assert_eq!(w.paddle_left.unwrap().1, body(-640 * UNIT, 0, 15 * UNIT, 90 * UNIT));
    assert_eq!(w.paddle_right.unwrap().1, body(640 * UNIT, 0, 15 * UNIT, 90 * UNIT));
    assert_eq!(w.walls.len(), 4);
    assert_eq!(w.walls[2].kind, Collider::ScoreableLeft);
    assert_eq!(w.walls[3].kind, Collider::ScoreableRight);
    assert_eq!(collider_list(&w).len(), 6);
}

#[test]
fn paddle_moves_up_at_its_speed() {
    let mut w = World::new();
    let keys = Keys { left_up: true, ..NO_KEYS };
    paddle_left_movement(10_000, &keys, &mut w);
    // 10 ms at 1200 units per second is 12 units.
    assert_eq!(left_paddle_y(&w), 12 * UNIT);
    assert_eq!(right_paddle_y(&w), 0);
}

#[test]
fn paddle_moves_down_on_its_own_keys_only() {
    let mut w = World::new();
    let keys = Keys { right_down: true, left_up: false, ..NO_KEYS };
    paddle_right_movement(10_000, &keys, &mut w);
    paddle_left_movement(10_000, &keys, &mut w);
    assert_eq!(right_paddle_y(&w), -12 * UNIT);
    assert_eq!(left_paddle_y(&w), 0);
}

#[test]
fn both_keys_cancel_out() {
    let mut w = World::new();
    let up = Keys { left_up: true, ..NO_KEYS };
    paddle_left_movement(50_000, &up, &mut w);
    let before = left_paddle_y(&w);
    let both = Keys { left_up: true, left_down: true, right_up: true, right_down: true };
    paddle_left_movement(50_000, &both, &mut w);
    paddle_right_movement(50_000, &both, &mut w);
    assert_eq!(left_paddle_y(&w), before);
    assert_eq!(right_paddle_y(&w), 0);
}

#[test]
fn paddles_stay_within_their_range() {
    let mut w = World::new();
    let keys = Keys { left_up: true, left_down: false, right_up: false, right_down: true };
    for _ in 0..100 {
        paddle_left_movement(16_667, &keys, &mut w);
        paddle_right_movement(16_667, &keys, &mut w);
        assert!(left_paddle_y(&w) <= PADDLE_LIMIT && left_paddle_y(&w) >= -PADDLE_LIMIT);
        assert!(right_paddle_y(&w) <= PADDLE_LIMIT && right_paddle_y(&w) >= -PADDLE_LIMIT);
    }
    assert_eq!(left_paddle_y(&w), 270 * UNIT);
    assert_eq!(right_paddle_y(&w), -270 * UNIT);
    paddle_left_movement(u32::MAX, &keys, &mut w);
    assert_eq!(left_paddle_y(&w), 270 * UNIT);
}

#[test]
fn missing_paddle_is_skipped() {
    let mut w = World::new();
    w.paddle_left = None;
    let keys = Keys { left_up: true, ..NO_KEYS };
    paddle_left_movement(10_000, &keys, &mut w);
    assert!(w.paddle_left.is_none());
}

#[test]
fn ball_moves_by_its_velocity() {
    let mut w = World::new();
    ball_movement(1_000_000, &mut w);
    let b = w.ball.unwrap().1;
    assert_eq!(b.position, Vector2 { x: -400 * UNIT, y: -400 * UNIT });
    w.ball = None;
    ball_movement(1_000, &mut w);
    assert!(w.ball.is_none());
}

#[test]
fn ball_position_saturates() {
    let mut w = World::new();
    w.ball = Some(ball_at(i64::MAX - 5, i64::MIN + 5, i64::MAX, i64::MIN));
    ball_movement(1_000, &mut w);
    assert_eq!(w.ball.unwrap().1.position, Vector2 { x: i64::MAX, y: i64::MIN });
}

#[test]
fn collide_classifies_faces() {
    let wall = body(0, 0, 10, 100);
    // Ball to the left of the wall, crossing its left face.
    assert_eq!(collide(&body(-15, 0, 10, 10), &wall), Some(Collision::Left));
    assert_eq!(collide(&body(15, 0, 10, 10), &wall), Some(Collision::Right));
    assert_eq!(collide(&body(0, 105, 5, 10), &wall), Some(Collision::Top));
    assert_eq!(collide(&body(0, -105, 5, 10), &wall), Some(Collision::Bottom));
    // Touching edges do not overlap.
    assert_eq!(collide(&body(-20, 0, 10, 10), &wall), None);
    // Crossing a corner: the shallower face wins.
    assert_eq!(collide(&body(-15, 108, 10, 10), &wall), Some(Collision::Top));
    assert_eq!(collide(&body(-18, 100, 10, 10), &wall), Some(Collision::Left));
    // Equal depths go to the x face.
    assert_eq!(collide(&body(-15, 105, 10, 10), &wall), Some(Collision::Left));
    // Straddling the wall on x while inside it on y crosses no face alone.
    assert_eq!(collide(&body(0, 0, 20, 10), &wall), None);
}

#[test]
fn solid_hit_reflects_and_speeds_up() {
    let ball = Ball { velocity: Vector2 { x: -400, y: -400 } };
    let wall = Wall { kind: Collider::Solid, body: body(0, 0, 10, 100) };
    let board = Scoreboard::new();
    let (b, s, scored) = contact(ball, body(15, 0, 10, 10), board, false, wall);
    assert_eq!(b.velocity, Vector2 { x: 440, y: -400 });
    assert_eq!(s, board);
    assert!(!scored);
}

#[test]
fn moving_away_from_a_face_is_not_reflected() {
    // Against the wall's right face and already moving right.
    let wall = Wall { kind: Collider::Solid, body: body(0, 0, 10, 100) };
    let ball = Ball { velocity: Vector2 { x: 400, y: -400 } };
    let (b, _, _) = contact(ball, body(15, 0, 10, 10), Scoreboard::new(), false, wall);
    assert_eq!(b.velocity, Vector2 { x: 400, y: -400 });
    // Against the top face and moving up.
    let ball = Ball { velocity: Vector2 { x: -400, y: 400 } };
    let (b, _, _) = contact(ball, body(0, 105, 5, 10), Scoreboard::new(), false, wall);
    assert_eq!(b.velocity, Vector2 { x: -400, y: 400 });
    // Against the top face and moving down.
    let ball = Ball { velocity: Vector2 { x: -400, y: -400 } };
    let (b, _, _) = contact(ball, body(0, 105, 5, 10), Scoreboard::new(), false, wall);
    assert_eq!(b.velocity, Vector2 { x: -400, y: 440 });
}

#[test]
fn repeated_bounces_scale_by_eleven_tenths() {
    let left = Wall { kind: Collider::Solid, body: body(100, 0, 10, 100) };
    let right = Wall { kind: Collider::Solid, body: body(-100, 0, 10, 100) };
    let mut ball = Ball { velocity: Vector2 { x: SERVE_SPEED, y: 7 } };
    let at_left = body(85, 0, 10, 10);
    let at_right = body(-85, 0, 10, 10);
    let expected = [-440_000_000i64, 484_000_000, -532_400_000, 585_640_000];
    for (i, e) in expected.iter().enumerate() {
        let (at, wall) = if i % 2 == 0 { (at_left, left) } else { (at_right, right) };
        ball = contact(ball, at, Scoreboard::new(), false, wall).0;
        assert_eq!(ball.velocity.x, *e);
        assert_eq!(ball.velocity.y, 7);
    }
}

#[test]
fn reflection_is_held_at_the_largest_speed() {
    let wall = Wall { kind: Collider::Solid, body: body(100, 0, 10, 100) };
    let ball = Ball { velocity: Vector2 { x: i64::MAX - 1, y: 0 } };
    let (b, _, _) = contact(ball, body(85, 0, 10, 10), Scoreboard::new(), false, wall);
    assert_eq!(b.velocity.x, -i64::MAX);
}

fn world_with_ball_at(x: i64, y: i64) -> World {
    let mut w = World::new();
    w.ball = Some(ball_at(x, y, -SERVE_SPEED, SERVE_SPEED));
    w
}

#[test]
fn left_wall_scores_for_the_right_player() {
    // Crossing the left wall's right face, away from the paddle.
    let x = -640 * UNIT + WALL_HALF_THICKNESS + 5 * UNIT;
    let mut w = world_with_ball_at(x, 200 * UNIT);
    let serve = Serve { right: true, up: false };
    resolve_collisions(&mut w, serve);
    assert_eq!(w.scoreboard, Scoreboard { score_left: 0, score_right: 1 });
    assert_eq!(w.ball, Some(ball_at(0, 0, SERVE_SPEED, -SERVE_SPEED)));
}

#[test]
fn right_wall_scores_for_the_left_player() {
    let x = 640 * UNIT - WALL_HALF_THICKNESS - 5 * UNIT;
    let mut w = world_with_ball_at(x, -200 * UNIT);
    resolve_collisions(&mut w, Serve { right: false, up: true });
    assert_eq!(w.scoreboard, Scoreboard { score_left: 1, score_right: 0 });
    assert_eq!(w.ball, Some(ball_at(0, 0, -SERVE_SPEED, SERVE_SPEED)));
}

#[test]
fn score_saturates_at_the_largest_count() {
    let x = -640 * UNIT + WALL_HALF_THICKNESS + 5 * UNIT;
    let mut w = world_with_ball_at(x, 200 * UNIT);
    w.scoreboard.score_right = u64::MAX;
    resolve_collisions(&mut w, Serve { right: true, up: true });
    assert_eq!(w.scoreboard.score_right, u64::MAX);
}

#[test]
fn no_contact_leaves_the_world_unchanged() {
    let mut w = World::new();
    let before = w.clone();
    resolve_collisions(&mut w, Serve { right: true, up: true });
    assert_eq!(w.ball, before.ball);
    assert_eq!(w.scoreboard, before.scoreboard);
    w.ball = None;
    collision(&mut w);
    assert!(w.ball.is_none());
}

#[test]
fn top_wall_bounces_the_ball() {
    let y = 360 * UNIT - WALL_HALF_THICKNESS - 5 * UNIT;
    let mut w = World::new();
    w.ball = Some(ball_at(0, y, SERVE_SPEED, SERVE_SPEED));
    resolve_collisions(&mut w, Serve { right: true, up: true });
    assert_eq!(w.ball.unwrap().0.velocity, Vector2 { x: SERVE_SPEED, y: -440_000_000 });
    assert_eq!(w.scoreboard, Scoreboard::new());
}

#[test]
fn paddle_bounces_the_ball() {
    let x = -640 * UNIT + 15 * UNIT + 5 * UNIT;
    let mut w = World::new();
    w.ball = Some(ball_at(x, 0, -SERVE_SPEED, SERVE_SPEED));
    resolve_collisions(&mut w, Serve { right: true, up: true });
    assert_eq!(w.ball.unwrap().0.velocity, Vector2 { x: 440_000_000, y: SERVE_SPEED });
    assert_eq!(w.scoreboard, Scoreboard::new());
}

#[test]
fn random_serves_cover_all_four_directions() {
    let x = -640 * UNIT + WALL_HALF_THICKNESS + 5 * UNIT;
    let mut seen = [[0u32; 2]; 2];
    for _ in 0..400 {
        let mut w = world_with_ball_at(x, 200 * UNIT);
        collision(&mut w);
        assert_eq!(w.scoreboard, Scoreboard { score_left: 0, score_right: 1 });
        let (ball, b) = w.ball.unwrap();
        assert_eq!(b, body(0, 0, BALL_HALF, BALL_HALF));
        assert_eq!(ball.velocity.x.abs(), SERVE_SPEED);
        assert_eq!(ball.velocity.y.abs(), SERVE_SPEED);
        seen[(ball.velocity.x > 0) as usize][(ball.velocity.y > 0) as usize] += 1;
    }
    for row in seen.iter() {
        for count in row.iter() {
            assert!(*count > 40);
        }
    }
}

#[test]
fn serve_ball_is_at_the_centre() {
    assert_eq!(serve_ball(Serve { right: false, up: false }), ball_at(0, 0, -SERVE_SPEED, -SERVE_SPEED));
}

#[test]
fn snapshot_round_trip_replays_the_same_frames() {
    let mut w = World::new();
    let keys = Keys { left_up: true, left_down: false, right_up: false, right_down: true };
    for _ in 0..30 {
        w.frame(16_667, &keys);
    }
    let s = w.snapshot();
    let mut restored = World::restore(&s);
    assert_eq!(restored.snapshot(), s);
    let steps = [
        Step { dt: 16_667, keys, serve: Serve { right: true, up: true } },
        Step { dt: 20_000, keys: NO_KEYS, serve: Serve { right: false, up: true } },
        Step { dt: 500_000, keys, serve: Serve { right: true, up: false } },
        Step { dt: 900_000, keys: NO_KEYS, serve: Serve { right: false, up: false } },
    ];
    for step in steps.iter() {
        w.frame_with_serve(step);
        restored.frame_with_serve(step);
        assert_eq!(w.snapshot(), restored.snapshot());
    }
}

#[test]
fn a_long_rally_scores_on_the_left() {
    let mut w = World::new();
    let step = Step { dt: 16_667, keys: NO_KEYS, serve: Serve { right: true, up: true } };
    let mut frames = 0;
    while w.scoreboard == Scoreboard::new() && frames < 1000 {
        w.frame_with_serve(&step);
        frames += 1;
    }
    // The first serve heads down and left, bounces off the floor and
    // passes below the left paddle.
    assert_eq!(w.scoreboard, Scoreboard { score_left: 0, score_right: 1 });
    assert_eq!(w.ball, Some(ball_at(0, 0, SERVE_SPEED, SERVE_SPEED)));
}

#[test]
fn score_text_is_plain_decimal() {
    let board = Scoreboard { score_left: 0, score_right: 1207 };
    let left: String = board.text(ScoreText::Left).iter().collect();
    let right: String = board.text(ScoreText::Right).iter().collect();
    assert_eq!(left, "0");
    assert_eq!(right, "1207");
    let big = Scoreboard { score_left: u64::MAX, score_right: 10 };
    let s: String = big.text(ScoreText::Left).iter().collect();
    assert_eq!(s, "18446744073709551615");
    let s: String = big.text(ScoreText::Right).iter().collect();
    assert_eq!(s, "10");
}
