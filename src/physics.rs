use rand::seq::SliceRandom;
use vstd::prelude::*;

use crate::components::{
    Ball, Body, Collider, Collision, Keys, PaddleLeft, PaddleRight, Scoreboard, Serve, Vector2,
    Wall, World, BALL_HALF, PADDLE_LIMIT, SERVE_SPEED,
};

verus! {

/// `v` moved into `[lo, hi]`.
pub open spec fn clamp(v: int, lo: int, hi: int) -> int {
    if v > hi {
        hi
    } else if v < lo {
        lo
    } else {
        v
    }
}

/// The magnitude of `v`.
pub open spec fn abs(v: int) -> int {
    if v < 0 {
        -v
    } else {
        v
    }
}

/// The side of `b` that `a` crosses on the x axis, if it crosses only one.
pub open spec fn side_x(a: Body, b: Body) -> Option<Collision> {
    let (a_min, a_max) = (a.position.x - a.half.x, a.position.x + a.half.x);
    let (b_min, b_max) = (b.position.x - b.half.x, b.position.x + b.half.x);
    if a_min < b_min && a_max > b_min && a_max < b_max {
        Some(Collision::Left)
    } else if a_min > b_min && a_min < b_max && a_max > b_max {
        Some(Collision::Right)
    } else {
        None
    }
}

/// The side of `b` that `a` crosses on the y axis, if it crosses only one.
pub open spec fn side_y(a: Body, b: Body) -> Option<Collision> {
    let (a_min, a_max) = (a.position.y - a.half.y, a.position.y + a.half.y);
    let (b_min, b_max) = (b.position.y - b.half.y, b.position.y + b.half.y);
    if a_min < b_min && a_max > b_min && a_max < b_max {
        Some(Collision::Bottom)
    } else if a_min > b_min && a_min < b_max && a_max > b_max {
        Some(Collision::Top)
    } else {
        None
    }
}

/// How deep `a` reaches past the side of `b` that it crosses on the x axis.
pub open spec fn depth_x(a: Body, b: Body) -> int {
    match side_x(a, b) {
        Some(Collision::Left) => (a.position.x + a.half.x) - (b.position.x - b.half.x),
        Some(_) => (b.position.x + b.half.x) - (a.position.x - a.half.x),
        None => 0,
    }
}

/// How deep `a` reaches past the side of `b` that it crosses on the y axis.
pub open spec fn depth_y(a: Body, b: Body) -> int {
    match side_y(a, b) {
        Some(Collision::Bottom) => (a.position.y + a.half.y) - (b.position.y - b.half.y),
        Some(_) => (b.position.y + b.half.y) - (a.position.y - a.half.y),
        None => 0,
    }
}

/// Whether the open rectangles `a` and `b` share a point.
pub open spec fn overlaps(a: Body, b: Body) -> bool {
    &&& a.position.x - a.half.x < b.position.x + b.half.x
    &&& a.position.x + a.half.x > b.position.x - b.half.x
    &&& a.position.y - a.half.y < b.position.y + b.half.y
    &&& a.position.y + a.half.y > b.position.y - b.half.y
}

/// The face of `b` that `a` has crossed: none where they do not overlap or
/// where `a` crosses no face alone; the shallower one where it crosses one
/// on each axis, the x face on a tie.
pub open spec fn collide_spec(a: Body, b: Body) -> Option<Collision> {
    if !overlaps(a, b) {
        None
    } else {
        match (side_x(a, b), side_y(a, b)) {
            (Some(x), Some(y)) => if depth_y(a, b) < depth_x(a, b) {
                Some(y)
            } else {
                Some(x)
            },
            (Some(x), None) => Some(x),
            (None, y) => y,
        }
    }
}

/// Which face of `b` the rectangle `a` has crossed, if any.
pub fn collide(a: &Body, b: &Body) -> (r: Option<Collision>)
    ensures
        r == collide_spec(*a, *b),
{
    let a_min_x = a.position.x as i128 - a.half.x as i128;
    let a_max_x = a.position.x as i128 + a.half.x as i128;
    let a_min_y = a.position.y as i128 - a.half.y as i128;
    let a_max_y = a.position.y as i128 + a.half.y as i128;
    let b_min_x = b.position.x as i128 - b.half.x as i128;
    let b_max_x = b.position.x as i128 + b.half.x as i128;
    let b_min_y = b.position.y as i128 - b.half.y as i128;
    let b_max_y = b.position.y as i128 + b.half.y as i128;
    if !(a_min_x < b_max_x && a_max_x > b_min_x && a_min_y < b_max_y && a_max_y > b_min_y) {
        return None;
    }
    let (x_side, x_depth): (Option<Collision>, i128) = if a_min_x < b_min_x && a_max_x > b_min_x
        && a_max_x < b_max_x {
        (Some(Collision::Left), a_max_x - b_min_x)
    } else if a_min_x > b_min_x && a_min_x < b_max_x && a_max_x > b_max_x {
        (Some(Collision::Right), b_max_x - a_min_x)
    } else {
        (None, 0)
    };
    let (y_side, y_depth): (Option<Collision>, i128) = if a_min_y < b_min_y && a_max_y > b_min_y
        && a_max_y < b_max_y {
        (Some(Collision::Bottom), a_max_y - b_min_y)
    } else if a_min_y > b_min_y && a_min_y < b_max_y && a_max_y > b_max_y {
        (Some(Collision::Top), b_max_y - a_min_y)
    } else {
        (None, 0)
    };
    match (x_side, y_side) {
        (Some(x), Some(y)) => if y_depth < x_depth {
            Some(y)
        } else {
            Some(x)
        },
        (Some(x), None) => Some(x),
        (None, y) => y,
    }
}

/// The net direction of two keys: up counts +1, down counts -1.
pub open spec fn direction(up: bool, down: bool) -> int {
    (if up { 1int } else { 0int }) - (if down { 1int } else { 0int })
}

/// Where a paddle's centre goes in `dt` microseconds.
pub open spec fn paddle_target(y: int, dt: int, up: bool, down: bool, speed: int) -> int {
    clamp(y + dt * direction(up, down) * speed, -PADDLE_LIMIT, PADDLE_LIMIT as int)
}

/// The paddle's new height for one frame.
fn moved_paddle_y(y: i64, dt: u32, up: bool, down: bool, speed: i64) -> (r: i64)
    ensures
        r == paddle_target(y as int, dt as int, up, down, speed as int),
        up == down ==> r == clamp(y as int, -PADDLE_LIMIT, PADDLE_LIMIT as int),
{
    let signed_dt: i128 = if up && !down {
        dt as i128
    } else if down && !up {
        -(dt as i128)
    } else {
        0
    };
    let ghost d = direction(up, down);
    if up == down {
        assert(dt * d * speed == 0) by (nonlinear_arith)
            requires
                d == 0,
        ;
    } else if up {
        assert(dt * d == dt) by (nonlinear_arith)
            requires
                d == 1,
        ;
    } else {
        assert(dt * d == -dt) by (nonlinear_arith)
            requires
                d == -1,
        ;
    }
    assert(signed_dt == dt * direction(up, down));
    assert(-0x1_0000_0000 <= signed_dt <= 0x1_0000_0000);
    assert(-0x1_0000_0000_0000_0000_0000_0000 <= signed_dt * speed
        <= 0x1_0000_0000_0000_0000_0000_0000) by (nonlinear_arith)
        requires
            -0x1_0000_0000 <= signed_dt <= 0x1_0000_0000,
            -0x8000_0000_0000_0000 <= speed <= 0x8000_0000_0000_0000,
    ;
    let target: i128 = y as i128 + signed_dt * speed as i128;
    if target > PADDLE_LIMIT as i128 {
        PADDLE_LIMIT
    } else if target < -PADDLE_LIMIT as i128 {
        -PADDLE_LIMIT
    } else {
        target as i64
    }
}

/// `world` after the left paddle's controller has run for `dt` microseconds.
pub open spec fn paddle_left_moved(w: World, dt: int, keys: Keys) -> World {
    match w.paddle_left {
        Some((p, b)) => World {
            paddle_left: Some(
                (
                    p,
                    Body {
                        position: Vector2 {
                            x: b.position.x,
                            y: paddle_target(
                                b.position.y as int,
                                dt,
                                keys.left_up,
                                keys.left_down,
                                p.speed as int,
                            ) as i64,
                        },
                        half: b.half,
                    },
                ),
            ),
            ..w
        },
        None => w,
    }
}

/// `world` after the right paddle's controller has run for `dt` microseconds.
pub open spec fn paddle_right_moved(w: World, dt: int, keys: Keys) -> World {
    match w.paddle_right {
        Some((p, b)) => World {
            paddle_right: Some(
                (
                    p,
                    Body {
                        position: Vector2 {
                            x: b.position.x,
                            y: paddle_target(
                                b.position.y as int,
                                dt,
                                keys.right_up,
                                keys.right_down,
                                p.speed as int,
                            ) as i64,
                        },
                        half: b.half,
                    },
                ),
            ),
            ..w
        },
        None => w,
    }
}

/// Moves the left paddle by `dt` microseconds of its keys' net direction,
/// then clamps it to the legal range; does nothing without a left paddle.
pub fn paddle_left_movement(dt: u32, keys: &Keys, world: &mut World)
    ensures
        *final(world) == paddle_left_moved(*old(world), dt as int, *keys),
        keys.left_up && keys.left_down ==> match old(world).paddle_left {
            Some((_, b)) => -PADDLE_LIMIT <= b.position.y <= PADDLE_LIMIT
                ==> final(world).paddle_left == old(world).paddle_left,
            None => final(world).paddle_left is None,
        },
{
    if let Some((paddle, body)) = world.paddle_left {
        let y = moved_paddle_y(body.position.y, dt, keys.left_up, keys.left_down, paddle.speed);
        world.paddle_left = Some(
            (paddle, Body { position: Vector2 { x: body.position.x, y }, half: body.half }),
        );
    }
}

/// Moves the right paddle by `dt` microseconds of its keys' net direction,
/// then clamps it to the legal range; does nothing without a right paddle.
pub fn paddle_right_movement(dt: u32, keys: &Keys, world: &mut World)
    ensures
        *final(world) == paddle_right_moved(*old(world), dt as int, *keys),
        keys.right_up && keys.right_down ==> match old(world).paddle_right {
            Some((_, b)) => -PADDLE_LIMIT <= b.position.y <= PADDLE_LIMIT
                ==> final(world).paddle_right == old(world).paddle_right,
            None => final(world).paddle_right is None,
        },
{
    if let Some((paddle, body)) = world.paddle_right {
        let y = moved_paddle_y(body.position.y, dt, keys.right_up, keys.right_down, paddle.speed);
        world.paddle_right = Some(
            (paddle, Body { position: Vector2 { x: body.position.x, y }, half: body.half }),
        );
    }
}

/// `v` held to the range of `i64`.
pub open spec fn saturate(v: int) -> int {
    clamp(v, i64::MIN as int, i64::MAX as int)
}

/// `p` moved by `v` over `dt` microseconds, held to the range of `i64`.
pub open spec fn advanced(p: Vector2, v: Vector2, dt: int) -> Vector2 {
    Vector2 { x: saturate(p.x + v.x * dt) as i64, y: saturate(p.y + v.y * dt) as i64 }
}

/// `world` after the ball has moved for `dt` microseconds.
pub open spec fn ball_moved(w: World, dt: int) -> World {
    match w.ball {
        Some((ball, b)) => World {
            ball: Some(
                (ball, Body { position: advanced(b.position, ball.velocity, dt), half: b.half }),
            ),
            ..w
        },
        None => w,
    }
}

fn advance(p: i64, v: i64, dt: u32) -> (r: i64)
    ensures
        r == saturate(p + v * dt),
{
    assert(-0x1_0000_0000_0000_0000_0000_0000 <= v * dt <= 0x1_0000_0000_0000_0000_0000_0000)
        by (nonlinear_arith)
        requires
            0 <= dt <= 0x1_0000_0000,
            -0x8000_0000_0000_0000 <= v <= 0x8000_0000_0000_0000,
    ;
    let target: i128 = p as i128 + v as i128 * dt as i128;
    if target > i64::MAX as i128 {
        i64::MAX
    } else if target < i64::MIN as i128 {
        i64::MIN
    } else {
        target as i64
    }
}

/// Moves the ball by its velocity over `dt` microseconds; does nothing
/// without a ball.
pub fn ball_movement(dt: u32, world: &mut World)
    ensures
        *final(world) == ball_moved(*old(world), dt as int),
{
    if let Some((ball, body)) = world.ball {
        let position = Vector2 {
            x: advance(body.position.x, ball.velocity.x, dt),
            y: advance(body.position.y, ball.velocity.y, dt),
        };
        world.ball = Some((ball, Body { position, half: body.half }));
    }
}

/// A velocity component reflected off a face: the sign flips and the
/// magnitude grows by a tenth, rounded down and held to `i64::MAX`.
pub open spec fn reflected(v: int) -> int {
    let m = clamp(abs(v) * 11 / 10, 0, i64::MAX as int);
    if v > 0 {
        -m
    } else {
        m
    }
}

/// A velocity after touching face `side` of a solid rectangle: the component
/// across that face is reflected only where it points into the face.
pub open spec fn deflected(v: Vector2, side: Collision) -> Vector2 {
    match side {
        Collision::Left => if v.x > 0 {
            Vector2 { x: reflected(v.x as int) as i64, ..v }
        } else {
            v
        },
        Collision::Right => if v.x < 0 {
            Vector2 { x: reflected(v.x as int) as i64, ..v }
        } else {
            v
        },
        Collision::Top => if v.y < 0 {
            Vector2 { y: reflected(v.y as int) as i64, ..v }
        } else {
            v
        },
        Collision::Bottom => if v.y > 0 {
            Vector2 { y: reflected(v.y as int) as i64, ..v }
        } else {
            v
        },
    }
}

/// A score plus one point, held at `u64::MAX`.
pub open spec fn bump(s: u64) -> u64 {
    if s < u64::MAX {
        (s + 1) as u64
    } else {
        s
    }
}

/// The ball, the scoreboard and whether a point was scored, after the ball
/// with rectangle `body` has been tested against `wall`.
pub open spec fn after_contact(
    ball: Ball,
    body: Body,
    board: Scoreboard,
    scored: bool,
    wall: Wall,
) -> (Ball, Scoreboard, bool) {
    match collide_spec(body, wall.body) {
        None => (ball, board, scored),
        Some(side) => match wall.kind {
            Collider::Solid => (Ball { velocity: deflected(ball.velocity, side) }, board, scored),
            Collider::ScoreableLeft => (
                ball,
                Scoreboard { score_right: bump(board.score_right), ..board },
                true,
            ),
            Collider::ScoreableRight => (
                ball,
                Scoreboard { score_left: bump(board.score_left), ..board },
                true,
            ),
        },
    }
}

/// `after_contact` applied for each of `walls` in turn.
pub open spec fn after_contacts(
    ball: Ball,
    body: Body,
    board: Scoreboard,
    scored: bool,
    walls: Seq<Wall>,
) -> (Ball, Scoreboard, bool)
    decreases walls.len(),
{
    if walls.len() == 0 {
        (ball, board, scored)
    } else {
        let r = after_contacts(ball, body, board, scored, walls.drop_last());
        after_contact(r.0, body, r.1, r.2, walls.last())
    }
}

/// Every rectangle the ball is tested against, in order: the paddles that
/// exist, then the walls.
pub open spec fn colliders(w: World) -> Seq<Wall> {
    let left = match w.paddle_left {
        Some((_, b)) => seq![Wall { kind: Collider::Solid, body: b }],
        None => Seq::empty(),
    };
    let right = match w.paddle_right {
        Some((_, b)) => seq![Wall { kind: Collider::Solid, body: b }],
        None => Seq::empty(),
    };
    left + right + w.walls@
}

/// A fresh ball at the centre, moving with `SERVE_SPEED` on each axis in
/// the directions that `serve` gives.
pub open spec fn served(serve: Serve) -> (Ball, Body) {
    (
        Ball {
            velocity: Vector2 {
                x: if serve.right { SERVE_SPEED } else { -SERVE_SPEED as i64 },
                y: if serve.up { SERVE_SPEED } else { -SERVE_SPEED as i64 },
            },
        },
        Body { position: Vector2 { x: 0, y: 0 }, half: Vector2 { x: BALL_HALF, y: BALL_HALF } },
    )
}

/// `world` after the collision resolver has run, with `serve` for the
/// fresh ball should a point be scored.
pub open spec fn collided(w: World, serve: Serve) -> World {
    match w.ball {
        Some((ball, body)) => {
            let r = after_contacts(ball, body, w.scoreboard, false, colliders(w));
            World {
                ball: Some(
                    if r.2 {
                        served(serve)
                    } else {
                        (r.0, body)
                    },
                ),
                scoreboard: r.1,
                ..w
            }
        },
        None => w,
    }
}

fn reflect(v: i64) -> (r: i64)
    ensures
        r == reflected(v as int),
{
    let m: i128 = if v < 0 {
        -(v as i128)
    } else {
        v as i128
    };
    let grown: i128 = m * 11 / 10;
    let capped: i64 = if grown > i64::MAX as i128 {
        i64::MAX
    } else {
        grown as i64
    };
    if v > 0 {
        -capped
    } else {
        capped
    }
}

/// Tests the ball against one wall: a solid one turns it back, a scoring
/// one gives the other player a point.
pub fn contact(ball: Ball, body: Body, board: Scoreboard, scored: bool, wall: Wall) -> (r: (
    Ball,
    Scoreboard,
    bool,
))
    ensures
        r == after_contact(ball, body, board, scored, wall),
{
    match collide(&body, &wall.body) {
        None => (ball, board, scored),
        Some(side) => match wall.kind {
            Collider::Solid => {
                let v = ball.velocity;
                let velocity = match side {
                    Collision::Left => if v.x > 0 {
                        Vector2 { x: reflect(v.x), y: v.y }
                    } else {
                        v
                    },
                    Collision::Right => if v.x < 0 {
                        Vector2 { x: reflect(v.x), y: v.y }
                    } else {
                        v
                    },
                    Collision::Top => if v.y < 0 {
                        Vector2 { x: v.x, y: reflect(v.y) }
                    } else {
                        v
                    },
                    Collision::Bottom => if v.y > 0 {
                        Vector2 { x: v.x, y: reflect(v.y) }
                    } else {
                        v
                    },
                };
                (Ball { velocity }, board, scored)
            },
            Collider::ScoreableLeft => (
                ball,
                Scoreboard { score_right: board.score_right.saturating_add(1), ..board },
                true,
            ),
            Collider::ScoreableRight => (
                ball,
                Scoreboard { score_left: board.score_left.saturating_add(1), ..board },
                true,
            ),
        },
    }
}

/// The rectangles of `world` that the ball is tested against, in order.
pub fn collider_list(world: &World) -> (r: Vec<Wall>)
    ensures
        r@ == colliders(*world),
{
    let mut r: Vec<Wall> = Vec::new();
    if let Some((_, body)) = world.paddle_left {
        r.push(Wall { kind: Collider::Solid, body });
    }
    if let Some((_, body)) = world.paddle_right {
        r.push(Wall { kind: Collider::Solid, body });
    }
    let ghost head = r@;
    let mut i: usize = 0;
    while i < world.walls.len()
        invariant
            i <= world.walls@.len(),
            r@ == head + world.walls@.take(i as int),
        decreases world.walls@.len() - i,
    {
        r.push(world.walls[i]);
        assert(world.walls@.take(i + 1) == world.walls@.take(i as int).push(world.walls@[i as int]));
        i += 1;
    }
    assert(world.walls@.take(i as int) == world.walls@);
    r
}

/// A fresh ball at the centre.
pub fn serve_ball(serve: Serve) -> (r: (Ball, Body))
    ensures
        r == served(serve),
{
    let x = if serve.right {
        SERVE_SPEED
    } else {
        -SERVE_SPEED
    };
    let y = if serve.up {
        SERVE_SPEED
    } else {
        -SERVE_SPEED
    };
    (
        Ball { velocity: Vector2 { x, y } },
        Body { position: Vector2 { x: 0, y: 0 }, half: Vector2 { x: BALL_HALF, y: BALL_HALF } },
    )
}

/// Tests the ball against every collider, bouncing it off solid ones and
/// scoring on scoring ones; where a point was scored, the ball is replaced
/// by a fresh one as `serve` directs. Does nothing without a ball.
pub fn resolve_collisions(world: &mut World, serve: Serve)
    ensures
        *final(world) == collided(*old(world), serve),
{
    let list = collider_list(world);
    if let Some((ball0, body)) = world.ball {
        let board0 = world.scoreboard;
        let mut ball = ball0;
        let mut board = board0;
        let mut scored = false;
        let mut i: usize = 0;
        while i < list.len()
            invariant
                i <= list@.len(),
                (ball, board, scored) == after_contacts(
                    ball0,
                    body,
                    board0,
                    false,
                    list@.take(i as int),
                ),
            decreases list@.len() - i,
        {
            let r = contact(ball, body, board, scored, list[i]);
            assert(list@.take(i + 1).drop_last() == list@.take(i as int));
            ball = r.0;
            board = r.1;
            scored = r.2;
            i += 1;
        }
        assert(list@.take(i as int) == list@);
        world.scoreboard = board;
        world.ball = Some(
            if scored {
                serve_ball(serve)
            } else {
                (ball, body)
            },
        );
    }
}

/// Relies on rand's `SliceRandom::choose` with `thread_rng`: it returns an
/// element of a non-empty slice.
#[verifier::external_body]
fn choose_from(options: &Vec<bool>) -> (r: bool)
    requires
        options@.len() > 0,
    ensures
        options@.contains(r),
{
    *options.choose(&mut rand::thread_rng()).unwrap()
}

/// Draws the directions of a fresh ball, each axis independently.
pub fn draw_serve() -> Serve {
    let options: Vec<bool> = vec![true, false];
    let right = choose_from(&options);
    let up = choose_from(&options);
    Serve { right, up }
}

/// Runs the collision resolver; a fresh ball, if any, is served in random
/// directions.
pub fn collision(world: &mut World)
    ensures
        exists|serve: Serve| #[trigger] collided(*old(world), serve) == *final(world),
{
    let serve = draw_serve();
    resolve_collisions(world, serve);
    assert(collided(*old(world), serve) == *world);
}

} // verus!
