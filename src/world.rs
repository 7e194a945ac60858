use vstd::prelude::*;

use crate::components::{
    Ball, Body, Collider, Keys, PaddleLeft, PaddleRight, ScoreText, Scoreboard, Serve, Vector2,
    Wall, World, BALL_HALF, PADDLE_HALF_HEIGHT, PADDLE_HALF_WIDTH, PADDLE_SPEED, SERVE_SPEED,
    WALL_HALF_THICKNESS, HALF_HEIGHT, HALF_WIDTH,
};
use crate::physics::{
    ball_moved, ball_movement, collided, collision, paddle_left_moved, paddle_left_movement,
    paddle_right_moved, paddle_right_movement, resolve_collisions,
};

verus! {

/// What one frame is given: its length in microseconds, the keys held, and
/// the directions of a fresh ball should a point be scored.
#[derive(Clone, Copy, Debug, PartialEq, Eq, Structural)]
pub struct Step {
    pub dt: u32,
    pub keys: Keys,
    pub serve: Serve,
}

/// The state a game can be saved as and restored from.
#[derive(Clone, Copy, Debug, PartialEq, Eq)]
pub struct Snapshot {
    pub score_left: u64,
    pub score_right: u64,
    /// The ball's position and velocity.
    pub ball: Option<(Vector2, Vector2)>,
    pub paddle_left_y: Option<i64>,
    pub paddle_right_y: Option<i64>,
}

/// The top, bottom, left and right walls, in that order.
pub open spec fn arena_walls() -> Seq<Wall> {
    let across = Vector2 { x: HALF_WIDTH, y: WALL_HALF_THICKNESS };
    let upright = Vector2 { x: WALL_HALF_THICKNESS, y: HALF_HEIGHT };
    seq![
        Wall { kind: Collider::Solid, body: Body { position: Vector2 { x: 0, y: HALF_HEIGHT }, half: across } },
        Wall { kind: Collider::Solid, body: Body { position: Vector2 { x: 0, y: -HALF_HEIGHT as i64 }, half: across } },
        Wall { kind: Collider::ScoreableLeft, body: Body { position: Vector2 { x: -HALF_WIDTH as i64, y: 0 }, half: upright } },
        Wall { kind: Collider::ScoreableRight, body: Body { position: Vector2 { x: HALF_WIDTH, y: 0 }, half: upright } },
    ]
}

/// Whether a paddle is the standard one at horizontal position `x`.
pub open spec fn is_paddle_at(speed: i64, b: Body, x: int) -> bool {
    &&& speed == PADDLE_SPEED
    &&& b.position.x == x
    &&& b.half == Vector2 { x: PADDLE_HALF_WIDTH, y: PADDLE_HALF_HEIGHT }
}

/// Whether `w` is laid out as a game is: standard paddles at the window's
/// edges and a standard ball, where they exist, and the four walls.
pub open spec fn is_arena(w: World) -> bool {
    &&& w.paddle_left matches Some((p, b)) ==> is_paddle_at(p.speed, b, -HALF_WIDTH)
    &&& w.paddle_right matches Some((p, b)) ==> is_paddle_at(p.speed, b, HALF_WIDTH as int)
    &&& w.ball matches Some((_, b)) ==> b.half == Vector2 { x: BALL_HALF, y: BALL_HALF }
    &&& w.walls@ == arena_walls()
}

/// The game as it starts.
pub open spec fn is_start(w: World) -> bool {
    &&& is_arena(w)
    &&& w.paddle_left is Some && w.paddle_right is Some
    &&& w.paddle_left matches Some((_, b)) && b.position.y == 0
    &&& w.paddle_right matches Some((_, b)) && b.position.y == 0
    &&& w.ball == Some(
        (
            Ball { velocity: Vector2 { x: -SERVE_SPEED as i64, y: -SERVE_SPEED as i64 } },
            Body { position: Vector2 { x: 0, y: 0 }, half: Vector2 { x: BALL_HALF, y: BALL_HALF } },
        ),
    )
    &&& w.scoreboard == Scoreboard { score_left: 0, score_right: 0 }
}

/// What a snapshot of `w` holds.
pub open spec fn snapshot_of(w: World) -> Snapshot {
    Snapshot {
        score_left: w.scoreboard.score_left,
        score_right: w.scoreboard.score_right,
        ball: match w.ball {
            Some((ball, b)) => Some((b.position, ball.velocity)),
            None => None,
        },
        paddle_left_y: match w.paddle_left {
            Some((_, b)) => Some(b.position.y),
            None => None,
        },
        paddle_right_y: match w.paddle_right {
            Some((_, b)) => Some(b.position.y),
            None => None,
        },
    }
}

/// `w` after one frame: the paddles, then the ball, then the collisions.
pub open spec fn frame_spec(w: World, step: Step) -> World {
    collided(
        ball_moved(
            paddle_right_moved(paddle_left_moved(w, step.dt as int, step.keys), step.dt as int, step.keys),
            step.dt as int,
        ),
        step.serve,
    )
}

/// `w` after each of `steps` in turn.
pub open spec fn run(w: World, steps: Seq<Step>) -> World
    decreases steps.len(),
{
    if steps.len() == 0 {
        w
    } else {
        frame_spec(run(w, steps.drop_last()), steps.last())
    }
}

fn arena_wall_list() -> (r: Vec<Wall>)
    ensures
        r@ == arena_walls(),
{
    let across = Vector2 { x: HALF_WIDTH, y: WALL_HALF_THICKNESS };
    let upright = Vector2 { x: WALL_HALF_THICKNESS, y: HALF_HEIGHT };
    let bottom = Vector2 { x: 0, y: -HALF_HEIGHT };
    let left = Vector2 { x: -HALF_WIDTH, y: 0 };
    let r = vec![
        Wall { kind: Collider::Solid, body: Body { position: Vector2 { x: 0, y: HALF_HEIGHT }, half: across } },
        Wall { kind: Collider::Solid, body: Body { position: bottom, half: across } },
        Wall { kind: Collider::ScoreableLeft, body: Body { position: left, half: upright } },
        Wall { kind: Collider::ScoreableRight, body: Body { position: Vector2 { x: HALF_WIDTH, y: 0 }, half: upright } },
    ];
    assert(r@ == arena_walls());
    r
}

fn paddle_body(x: i64, y: i64) -> (r: Body)
    ensures
        r == (Body { position: Vector2 { x, y }, half: Vector2 { x: PADDLE_HALF_WIDTH, y: PADDLE_HALF_HEIGHT } }),
{
    Body { position: Vector2 { x, y }, half: Vector2 { x: PADDLE_HALF_WIDTH, y: PADDLE_HALF_HEIGHT } }
}

impl World {
    /// The game as it starts: paddles centred at the window's edges, the
    /// ball at the centre heading down and to the left, the scores at zero.
    pub fn new() -> (r: World)
        ensures
            is_start(r),
    {
        World {
            paddle_left: Some((PaddleLeft { speed: PADDLE_SPEED }, paddle_body(-HALF_WIDTH, 0))),
            paddle_right: Some((PaddleRight { speed: PADDLE_SPEED }, paddle_body(HALF_WIDTH, 0))),
            ball: Some(
                (
                    Ball { velocity: Vector2 { x: -SERVE_SPEED, y: -SERVE_SPEED } },
                    Body { position: Vector2 { x: 0, y: 0 }, half: Vector2 { x: BALL_HALF, y: BALL_HALF } },
                ),
            ),
            walls: arena_wall_list(),
            scoreboard: Scoreboard { score_left: 0, score_right: 0 },
        }
    }

    /// The scores, the ball's position and velocity and the paddles' heights.
    pub fn snapshot(&self) -> (r: Snapshot)
        ensures
            r == snapshot_of(*self),
    {
        Snapshot {
            score_left: self.scoreboard.score_left,
            score_right: self.scoreboard.score_right,
            ball: match self.ball {
                Some((ball, b)) => Some((b.position, ball.velocity)),
                None => None,
            },
            paddle_left_y: match self.paddle_left {
                Some((_, b)) => Some(b.position.y),
                None => None,
            },
            paddle_right_y: match self.paddle_right {
                Some((_, b)) => Some(b.position.y),
                None => None,
            },
        }
    }

    /// The game laid out as it starts, holding what `s` holds.
    pub fn restore(s: &Snapshot) -> (r: World)
        ensures
            is_arena(r),
            snapshot_of(r) == *s,
    {
        World {
            paddle_left: match s.paddle_left_y {
                Some(y) => Some((PaddleLeft { speed: PADDLE_SPEED }, paddle_body(-HALF_WIDTH, y))),
                None => None,
            },
            paddle_right: match s.paddle_right_y {
                Some(y) => Some((PaddleRight { speed: PADDLE_SPEED }, paddle_body(HALF_WIDTH, y))),
                None => None,
            },
            ball: match s.ball {
                Some((position, velocity)) => Some(
                    (Ball { velocity }, Body { position, half: Vector2 { x: BALL_HALF, y: BALL_HALF } }),
                ),
                None => None,
            },
            walls: arena_wall_list(),
            scoreboard: Scoreboard { score_left: s.score_left, score_right: s.score_right },
        }
    }

    /// One frame, with `step.serve` directing a fresh ball.
    pub fn frame_with_serve(&mut self, step: &Step)
        ensures
            *final(self) == frame_spec(*old(self), *step),
    {
        paddle_left_movement(step.dt, &step.keys, self);
        paddle_right_movement(step.dt, &step.keys, self);
        ball_movement(step.dt, self);
        resolve_collisions(self, step.serve);
    }

    /// One frame of `dt` microseconds with `keys` held; a fresh ball, if
    /// any, is served in random directions.
    pub fn frame(&mut self, dt: u32, keys: &Keys)
        ensures
            exists|serve: Serve| #[trigger] frame_spec(*old(self), Step { dt, keys: *keys, serve }) == *final(self),
    {
        paddle_left_movement(dt, keys, self);
        paddle_right_movement(dt, keys, self);
        ball_movement(dt, self);
        collision(self);
        let ghost before = ball_moved(paddle_right_moved(paddle_left_moved(*old(self), dt as int, *keys), dt as int, *keys), dt as int);
        let ghost serve = choose|serve: Serve| #[trigger] collided(before, serve) == *self;
        assert(frame_spec(*old(self), Step { dt, keys: *keys, serve }) == *self);
    }
}

} // verus!
