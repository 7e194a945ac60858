use vstd::prelude::*;

verus! {

/// Sub-units in one window unit.
pub const UNIT: i64 = 1_000_000_000_000;

/// Width of the window, in sub-units; the origin is at its centre.
pub const WINDOW_WIDTH: i64 = 1280 * UNIT;

/// Height of the window, in sub-units; the y axis points up.
pub const WINDOW_HEIGHT: i64 = 720 * UNIT;

/// Half the window's width.
pub const HALF_WIDTH: i64 = 640 * UNIT;

/// Half the window's height.
pub const HALF_HEIGHT: i64 = 360 * UNIT;

/// How far a paddle's centre may move from the horizontal mid-line: half
/// the window's height less half a paddle's height.
pub const PADDLE_LIMIT: i64 = 270 * UNIT;

/// Speed of a paddle: 1200 window units per second.
pub const PADDLE_SPEED: i64 = 1_200_000_000;

/// Speed of a fresh ball on each axis: 400 window units per second.
pub const SERVE_SPEED: i64 = 400_000_000;

/// Half the side of the square ball: 10 window units.
pub const BALL_HALF: i64 = 10 * UNIT;

/// Half the width of a paddle: 15 window units.
pub const PADDLE_HALF_WIDTH: i64 = 15 * UNIT;

/// Half the height of a paddle: 90 window units.
pub const PADDLE_HALF_HEIGHT: i64 = 90 * UNIT;

/// Half the thickness of a wall: 7.5 window units.
pub const WALL_HALF_THICKNESS: i64 = 7_500_000_000_000;

/// A point or a vector in the plane.
#[derive(Clone, Copy, Debug, PartialEq, Eq, Structural)]
pub struct Vector2 {
    pub x: i64,
    pub y: i64,
}

/// An axis-aligned rectangle: its centre and its half-extents.
#[derive(Clone, Copy, Debug, PartialEq, Eq, Structural)]
pub struct Body {
    pub position: Vector2,
    pub half: Vector2,
}

/// The left player's paddle.
#[derive(Clone, Copy, Debug, PartialEq, Eq, Structural)]
pub struct PaddleLeft {
    pub speed: i64,
}

/// The right player's paddle.
#[derive(Clone, Copy, Debug, PartialEq, Eq, Structural)]
pub struct PaddleRight {
    pub speed: i64,
}

/// The ball and its velocity.
#[derive(Clone, Copy, Debug, PartialEq, Eq, Structural)]
pub struct Ball {
    pub velocity: Vector2,
}

/// The two players' points.
#[derive(Clone, Copy, Debug, PartialEq, Eq, Structural)]
pub struct Scoreboard {
    pub score_left: u64,
    pub score_right: u64,
}

/// Which counter a score display shows.
#[derive(Clone, Copy, Debug, PartialEq, Eq, Structural)]
pub enum ScoreText {
    Left,
    Right,
}

/// The face of a rectangle that another one has crossed.
#[derive(Clone, Copy, Debug, PartialEq, Eq, Structural)]
pub enum Collision {
    Left,
    Right,
    Top,
    Bottom,
}

/// What touching a static rectangle does to the ball.
#[derive(Clone, Copy, Debug, PartialEq, Eq, Structural)]
pub enum Collider {
    /// The ball bounces off it.
    Solid,
    /// The left wall: the right player scores.
    ScoreableLeft,
    /// The right wall: the left player scores.
    ScoreableRight,
}

/// A static rectangle that the ball may touch.
#[derive(Clone, Copy, Debug, PartialEq, Eq, Structural)]
pub struct Wall {
    pub kind: Collider,
    pub body: Body,
}

/// The signs of a fresh ball's velocity.
#[derive(Clone, Copy, Debug, PartialEq, Eq, Structural)]
pub struct Serve {
    pub right: bool,
    pub up: bool,
}

/// The four logical inputs, pressed or not.
#[derive(Clone, Copy, Debug, PartialEq, Eq, Structural)]
pub struct Keys {
    pub left_up: bool,
    pub left_down: bool,
    pub right_up: bool,
    pub right_down: bool,
}

/// Everything the simulation holds.
#[derive(Clone, Debug)]
pub struct World {
    pub paddle_left: Option<(PaddleLeft, Body)>,
    pub paddle_right: Option<(PaddleRight, Body)>,
    pub ball: Option<(Ball, Body)>,
    pub walls: Vec<Wall>,
    pub scoreboard: Scoreboard,
}

/// The decimal digit for `d`, which is below ten.
pub open spec fn digit_char(d: nat) -> char {
    ((d + 48) as u8) as char
}

/// `n` written in base ten, without leading zeros.
pub open spec fn decimal(n: nat) -> Seq<char>
    decreases n,
{
    if n < 10 {
        seq![digit_char(n)]
    } else {
        decimal(n / 10).push(digit_char(n % 10))
    }
}

fn push_decimal(n: u64, out: &mut Vec<char>)
    ensures
        final(out)@ == old(out)@ + decimal(n as nat),
    decreases n,
{
    if n >= 10 {
        push_decimal(n / 10, out);
    }
    let d: u8 = (n % 10) as u8;
    out.push((d + 48) as char);
}

impl Scoreboard {
    /// A scoreboard at zero.
    pub fn new() -> (r: Scoreboard)
        ensures
            r.score_left == 0 && r.score_right == 0,
    {
        Scoreboard { score_left: 0, score_right: 0 }
    }

    /// The score that `slot` shows.
    pub open spec fn shown(self, slot: ScoreText) -> u64 {
        match slot {
            ScoreText::Left => self.score_left,
            ScoreText::Right => self.score_right,
        }
    }

    /// The text of the score display `slot`: its counter in base ten.
    pub fn text(&self, slot: ScoreText) -> (r: Vec<char>)
        ensures
            r@ == decimal(self.shown(slot) as nat),
    {
        let mut r: Vec<char> = Vec::new();
        let n = match slot {
            ScoreText::Left => self.score_left,
            ScoreText::Right => self.score_right,
        };
        push_decimal(n, &mut r);
        assert(r@ == Seq::<char>::empty() + decimal(n as nat));
        r
    }
}

} // verus!
