use vstd::prelude::*;

use crate::components::{Ball, Body, Collider, Scoreboard, Serve, Wall, World, PADDLE_LIMIT, SERVE_SPEED};
use crate::physics::{
    abs, after_contacts, ball_moved, paddle_left_moved, paddle_right_moved, collide_spec, collided, colliders, reflected, served};
use crate::world::{frame_spec, is_arena, run, snapshot_of, Step};

verus! {

/// Whether each paddle that exists lies within `[-PADDLE_LIMIT, PADDLE_LIMIT]`.
pub open spec fn paddles_in_range(w: World) -> bool {
    &&& w.paddle_left matches Some((_, b)) ==> -PADDLE_LIMIT <= b.position.y <= PADDLE_LIMIT
    &&& w.paddle_right matches Some((_, b)) ==> -PADDLE_LIMIT <= b.position.y <= PADDLE_LIMIT
}

proof fn lemma_frame_clamps_paddles(w: World, step: Step)
    ensures
        paddles_in_range(frame_spec(w, step)),
{
}

/// Paddles stay in their legal range: after any frame at all, and at every
/// point of a game whose paddles started in range.
pub proof fn lemma_paddles_stay_in_range(w: World, steps: Seq<Step>)
    ensures
        steps.len() > 0 ==> paddles_in_range(run(w, steps)),
        paddles_in_range(w) ==> paddles_in_range(run(w, steps)),
    decreases steps.len(),
{
    if steps.len() > 0 {
        lemma_paddles_stay_in_range(w, steps.drop_last());
        lemma_frame_clamps_paddles(run(w, steps.drop_last()), steps.last());
    }
}

proof fn lemma_contacts_keep_scores(ball: Ball, body: Body, board: Scoreboard, scored: bool, cs: Seq<Wall>)
    ensures
        after_contacts(ball, body, board, scored, cs).1.score_left >= board.score_left,
        after_contacts(ball, body, board, scored, cs).1.score_right >= board.score_right,
    decreases cs.len(),
{
    if cs.len() > 0 {
        lemma_contacts_keep_scores(ball, body, board, scored, cs.drop_last());
    }
}

/// Scores are never taken back: over any frames, neither counter decreases.
pub proof fn lemma_scores_never_decrease(w: World, steps: Seq<Step>)
    ensures
        run(w, steps).scoreboard.score_left >= w.scoreboard.score_left,
        run(w, steps).scoreboard.score_right >= w.scoreboard.score_right,
    decreases steps.len(),
{
    if steps.len() > 0 {
        lemma_scores_never_decrease(w, steps.drop_last());
        let before = run(w, steps.drop_last());
        let step = steps.last();
        let moved = ball_moved(
            paddle_right_moved(paddle_left_moved(before, step.dt as int, step.keys), step.dt as int, step.keys),
            step.dt as int,
        );
        if let Some((ball, body)) = moved.ball {
            lemma_contacts_keep_scores(ball, body, moved.scoreboard, false, colliders(moved));
        }
    }
}

/// Whether `a` and `b` hold the same entities and the same walls.
pub open spec fn same_state(a: World, b: World) -> bool {
    &&& a.paddle_left == b.paddle_left
    &&& a.paddle_right == b.paddle_right
    &&& a.ball == b.ball
    &&& a.scoreboard == b.scoreboard
    &&& a.walls@ == b.walls@
}

proof fn lemma_frame_keeps_same_state(a: World, b: World, step: Step)
    requires
        same_state(a, b),
    ensures
        same_state(frame_spec(a, step), frame_spec(b, step)),
{
}

proof fn lemma_run_keeps_same_state(a: World, b: World, steps: Seq<Step>)
    requires
        same_state(a, b),
    ensures
        same_state(run(a, steps), run(b, steps)),
    decreases steps.len(),
{
    if steps.len() > 0 {
        lemma_run_keeps_same_state(a, b, steps.drop_last());
        lemma_frame_keeps_same_state(run(a, steps.drop_last()), run(b, steps.drop_last()), steps.last());
    }
}

/// A game restored from a snapshot of another plays on as that one does:
/// given the same frames, the two hold the same snapshot after each of them.
pub proof fn lemma_restore_replays(w: World, restored: World, steps: Seq<Step>)
    requires
        is_arena(w),
        is_arena(restored),
        snapshot_of(restored) == snapshot_of(w),
    ensures
        snapshot_of(run(restored, steps)) == snapshot_of(run(w, steps)),
{
    assert(same_state(restored, w));
    lemma_run_keeps_same_state(restored, w, steps);
}

/// The scoreboard after a point for the side that `kind` rewards.
pub open spec fn with_point(board: Scoreboard, kind: Collider) -> Scoreboard {
    match kind {
        Collider::ScoreableLeft => Scoreboard { score_right: (board.score_right + 1) as u64, ..board },
        _ => Scoreboard { score_left: (board.score_left + 1) as u64, ..board },
    }
}

proof fn lemma_single_contact(ball: Ball, body: Body, board: Scoreboard, cs: Seq<Wall>, k: int, i: int)
    requires
        0 <= k < cs.len(),
        0 <= i <= cs.len(),
        cs[k].kind != Collider::Solid,
        collide_spec(body, cs[k].body) is Some,
        forall|j: int| 0 <= j < cs.len() && j != k ==> (#[trigger] collide_spec(body, cs[j].body)) is None,
        board.score_left < u64::MAX,
        board.score_right < u64::MAX,
    ensures
        after_contacts(ball, body, board, false, cs.take(i)) == if i <= k {
            (ball, board, false)
        } else {
            (ball, with_point(board, cs[k].kind), true)
        },
    decreases i,
{
    if i > 0 {
        lemma_single_contact(ball, body, board, cs, k, i - 1);
        assert(cs.take(i).drop_last() == cs.take(i - 1));
        assert(cs.take(i).last() == cs[i - 1]);
    }
}

/// A ball that touches one scoring wall and nothing else gives the other
/// player exactly one point and is replaced by one fresh ball at the centre
/// moving at `SERVE_SPEED` on each axis.
pub proof fn lemma_score_serves_fresh_ball(w: World, serve: Serve, k: int)
    requires
        w.ball is Some,
        0 <= k < colliders(w).len(),
        colliders(w)[k].kind != Collider::Solid,
        collide_spec(w.ball->Some_0.1, colliders(w)[k].body) is Some,
        forall|j: int|
            0 <= j < colliders(w).len() && j != k ==> (#[trigger] collide_spec(
                w.ball->Some_0.1,
                colliders(w)[j].body,
            )) is None,
        w.scoreboard.score_left < u64::MAX,
        w.scoreboard.score_right < u64::MAX,
    ensures
        colliders(w)[k].kind == Collider::ScoreableLeft ==> collided(w, serve).scoreboard == (
        Scoreboard { score_right: (w.scoreboard.score_right + 1) as u64, ..w.scoreboard }),
        colliders(w)[k].kind == Collider::ScoreableRight ==> collided(w, serve).scoreboard == (
        Scoreboard { score_left: (w.scoreboard.score_left + 1) as u64, ..w.scoreboard }),
        collided(w, serve).ball == Some(served(serve)),
        abs(served(serve).0.velocity.x as int) == SERVE_SPEED,
        abs(served(serve).0.velocity.y as int) == SERVE_SPEED,
{
    let (ball, body) = w.ball->Some_0;
    let cs = colliders(w);
    lemma_single_contact(ball, body, w.scoreboard, cs, k, cs.len() as int);
    assert(cs.take(cs.len() as int) == cs);
}

/// A bounce never slows the ball: the reflected component is at least as
/// fast as before, except at `i64::MIN`, whose magnitude no `i64` can hold.
pub proof fn lemma_bounce_never_slows(v: int)
    requires
        i64::MIN < v <= i64::MAX,
    ensures
        abs(reflected(v)) >= abs(v),
        v != 0 ==> (reflected(v) > 0) == (v < 0),
{
}

/// `v` reflected `n` times.
pub open spec fn bounced(v: int, n: nat) -> int
    decreases n,
{
    if n == 0 {
        v
    } else {
        bounced(reflected(v), (n - 1) as nat)
    }
}

/// `b` raised to the `e`-th power.
pub open spec fn pow(b: int, e: nat) -> int
    decreases e,
{
    if e == 0 {
        1
    } else {
        b * pow(b, (e - 1) as nat)
    }
}

proof fn lemma_pow_ten_below_eleven(e: nat)
    ensures
        1 <= pow(10, e) <= pow(11, e),
    decreases e,
{
    if e > 0 {
        lemma_pow_ten_below_eleven((e - 1) as nat);
        let (p, q) = (pow(10, (e - 1) as nat), pow(11, (e - 1) as nat));
        assert(10 * p <= 11 * q) by (nonlinear_arith)
            requires
                1 <= p <= q,
        ;
    }
}

/// A velocity component reflected `n` times, with its magnitude a multiple of
/// `10^n` and never reaching `i64::MAX`, has its magnitude scaled by exactly
/// `1.1^n` and its sign flipped at each reflection.
pub proof fn lemma_repeated_bounces(v: int, n: nat)
    requires
        v != 0,
        abs(v) % pow(10, n) == 0,
        abs(v) * pow(11, n) <= i64::MAX * pow(10, n),
    ensures
        abs(bounced(v, n)) * pow(10, n) == abs(v) * pow(11, n),
        (bounced(v, n) > 0) == ((v > 0) == (n % 2 == 0)),
    decreases n,
{
    if n > 0 {
        let m = (n - 1) as nat;
        let (p, q) = (pow(10, m), pow(11, m));
        lemma_pow_ten_below_eleven(m);
        vstd::arithmetic::div_mod::lemma_fundamental_div_mod(abs(v), 10 * p);
        let k = abs(v) / (10 * p);
        assert(abs(v) == 10 * p * k);
        assert(k >= 1) by (nonlinear_arith)
            requires
                abs(v) == 10 * p * k,
                abs(v) > 0,
                p >= 1,
        ;
        assert(k * (11 * q) <= i64::MAX) by (nonlinear_arith)
            requires
                abs(v) == 10 * p * k,
                abs(v) * (11 * q) <= i64::MAX * (10 * p),
                p >= 1,
        ;
        let w = reflected(v);
        assert(abs(v) * 11 / 10 == 11 * p * k) by (nonlinear_arith)
            requires
                abs(v) == 10 * p * k,
        ;
        assert(11 * p * k <= i64::MAX) by (nonlinear_arith)
            requires
                k * (11 * q) <= i64::MAX,
                1 <= p <= q,
                k >= 1,
        ;
        assert(abs(w) == 11 * p * k);
        assert(abs(w) == p * (11 * k)) by (nonlinear_arith)
            requires
                abs(w) == 11 * p * k,
        ;
        vstd::arithmetic::div_mod::lemma_mod_multiples_basic(11 * k, p);
        assert(abs(w) * q <= i64::MAX * p) by (nonlinear_arith)
            requires
                abs(w) == p * (11 * k),
                k * (11 * q) <= i64::MAX,
                p >= 1,
        ;
        lemma_repeated_bounces(w, m);
        assert(abs(bounced(v, n)) * (10 * p) == abs(v) * (11 * q)) by (nonlinear_arith)
            requires
                abs(bounced(w, m)) * p == abs(w) * q,
                bounced(v, n) == bounced(w, m),
                abs(w) == 11 * p * k,
                abs(v) == 10 * p * k,
        ;
    }
}

} // verus!
