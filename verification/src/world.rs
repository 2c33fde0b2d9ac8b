//! The world: the single aggregate state of one simulation, and the
//! three operations the external driver invokes on it - one tick of
//! play, one rescale of the surface, and one reset of the round.

use vstd::prelude::*;
use crate::angle::{QUARTER_TURN, is_bearing};
use crate::arena::{
    Arena, ArenaM, DIM_MAX, surface_in_range, surface_center, arena_radius_for_height,
    arena_fits_surface, GuideRing,
};
use crate::chaser::{Chaser, ChaserM, CHASER_SPEED_MAX, pursuit_bearing};
use crate::input::{InputSnapshot, input_in_range};
use crate::num::{
    tdiv, div_trunc, lemma_tdiv_between, lemma_tdiv_abs_le, lemma_tdiv_exact, lemma_tdiv_near,
    lemma_tdiv_bounds, lemma_sq_window,
};
use vstd::math::abs;
use crate::outcome::{RoundOutcome, judge, judge_outcome, collision_holds, exit_holds};
use crate::runner::{Runner, RunnerM, SPEED_MAX, runner_step_position, step_stays_near};
use crate::trig::circle_point;
use crate::vector::{Vec2M, Vector2, dist_sq};

verus! {

/// Largest speed ratio the simulation accepts (a machine limit).
pub const RATIO_MAX: i64 = 16;

/// How far off-center the runner may drift while the round is live: one
/// move past the arena boundary at most, with generous headroom.
pub const OFFSET_PLAY_LIMIT: i64 = 67108864;

/// How far off-center a frozen runner position may sit after repeated
/// rescaling (a machine limit).
pub const OFFSET_LIMIT: i64 = 268435456;

/// The chaser's home bearing: three quarter turns, the topmost point of
/// the arena circle (the surface's `y` axis points down).
pub const HOME_BEARING: i64 = 786432;

/// Mathematical model of the whole world.
pub ghost struct WorldM {
    pub width: int,
    pub height: int,
    pub arena: ArenaM,
    pub runner: RunnerM,
    pub chaser: ChaserM,
    pub outcome: RoundOutcome,
    pub speed_ratio: int,
}

/// The off-center allowance for the runner in a given round state.
pub open spec fn offset_limit_for(oc: RoundOutcome) -> int {
    if oc == RoundOutcome::Playing {
        OFFSET_PLAY_LIMIT as int
    } else {
        OFFSET_LIMIT as int
    }
}

/// Well-formedness of a world: the arena is the one its surface
/// induces, the chaser keeps the fixed speed ratio over the runner and
/// a valid bearing, and every magnitude stays within the machine
/// limits the arithmetic needs.
pub open spec fn wf_world(w: WorldM) -> bool {
    &&& surface_in_range(w.width, w.height)
    &&& arena_fits_surface(w.arena, w.width, w.height)
    &&& 1 <= w.runner.speed <= SPEED_MAX
    &&& 1 <= w.speed_ratio <= RATIO_MAX
    &&& w.chaser.speed == w.speed_ratio * w.runner.speed
    &&& 1 <= w.runner.radius <= DIM_MAX
    &&& 1 <= w.chaser.radius <= DIM_MAX
    &&& is_bearing(w.chaser.bearing)
    &&& -OFFSET_LIMIT <= w.runner.position.x - w.arena.center.x <= OFFSET_LIMIT
    &&& -OFFSET_LIMIT <= w.runner.position.y - w.arena.center.y <= OFFSET_LIMIT
    &&& (w.outcome == RoundOutcome::Playing ==> -OFFSET_PLAY_LIMIT <= w.runner.position.x
        - w.arena.center.x <= OFFSET_PLAY_LIMIT && -OFFSET_PLAY_LIMIT <= w.runner.position.y
        - w.arena.center.y <= OFFSET_PLAY_LIMIT)
}

/// The chaser's position in a world: the point of the arena circle at
/// its bearing.
pub open spec fn chaser_position_model(w: WorldM) -> Vec2M {
    circle_point(w.arena.center, w.arena.radius, w.chaser.bearing)
}

/// The world a fresh simulation starts from.
pub open spec fn initial_model(
    width: int,
    height: int,
    runner_radius: int,
    runner_speed: int,
    chaser_radius: int,
    speed_ratio: int,
) -> WorldM {
    let center = surface_center(width, height);
    WorldM {
        width: width,
        height: height,
        arena: ArenaM { center: center, radius: arena_radius_for_height(height) },
        runner: RunnerM { position: center, radius: runner_radius, speed: runner_speed },
        chaser: ChaserM {
            bearing: HOME_BEARING as int,
            radius: chaser_radius,
            speed: speed_ratio * runner_speed,
        },
        outcome: RoundOutcome::Playing,
        speed_ratio: speed_ratio,
    }
}

/// One tick: nothing moves in a terminal state; otherwise the runner
/// moves on its input, the chaser pursues the moved runner, and the
/// judge rules on the resulting positions.
pub open spec fn advance_model(w: WorldM, input: InputSnapshot) -> WorldM {
    if w.outcome != RoundOutcome::Playing {
        w
    } else {
        let rp = runner_step_position(w.runner, input);
        let cb = pursuit_bearing(w.arena, rp, w.chaser);
        let cpos = circle_point(w.arena.center, w.arena.radius, cb);
        let oc = judge(rp, w.runner.radius, cpos, w.chaser.radius, w.arena.center, w.arena.radius);
        WorldM {
            runner: RunnerM { position: rp, ..w.runner },
            chaser: ChaserM { bearing: cb, ..w.chaser },
            outcome: oc,
            ..w
        }
    }
}

/// A reset: both agents return to their initial placement and the
/// round is live again. Speeds, radii and the surface stay as they are.
pub open spec fn reset_model(w: WorldM) -> WorldM {
    WorldM {
        runner: RunnerM { position: w.arena.center, ..w.runner },
        chaser: ChaserM { bearing: HOME_BEARING as int, ..w.chaser },
        outcome: RoundOutcome::Playing,
        ..w
    }
}

/// A rescale from the current surface to `(new_width, new_height)`:
/// the height ratio drives all scaling; positions scale about the
/// recentered arena, the chaser's speed is re-derived from the scaled
/// runner speed so the fixed ratio holds exactly.
pub open spec fn resize_model(w: WorldM, new_width: int, new_height: int) -> WorldM {
    let c0 = w.arena.center;
    let c1 = surface_center(new_width, new_height);
    let rs = tdiv(w.runner.speed * new_height, w.height);
    WorldM {
        width: new_width,
        height: new_height,
        arena: ArenaM { center: c1, radius: arena_radius_for_height(new_height) },
        runner: RunnerM {
            position: Vec2M {
                x: c1.x + tdiv((w.runner.position.x - c0.x) * new_height, w.height),
                y: c1.y + tdiv((w.runner.position.y - c0.y) * new_height, w.height),
            },
            radius: tdiv(w.runner.radius * new_height, w.height),
            speed: rs,
        },
        chaser: ChaserM {
            bearing: w.chaser.bearing,
            radius: tdiv(w.chaser.radius * new_height, w.height),
            speed: w.speed_ratio * rs,
        },
        outcome: w.outcome,
        speed_ratio: w.speed_ratio,
    }
}

/// Whether a rescale to these dimensions keeps every magnitude within
/// the machine limits (always true for play-sized surfaces; checked so
/// the transform is total over its stated domain).
pub open spec fn resize_accepts(w: WorldM, new_width: int, new_height: int) -> bool {
    &&& surface_in_range(new_width, new_height)
    &&& w.height <= w.runner.speed * new_height <= w.height * SPEED_MAX
    &&& w.height <= w.runner.radius * new_height <= w.height * DIM_MAX
    &&& w.height <= w.chaser.radius * new_height <= w.height * DIM_MAX
    &&& ({
        let ox = w.runner.position.x - w.arena.center.x;
        let oy = w.runner.position.y - w.arena.center.y;
        let lim = offset_limit_for(w.outcome);
        &&& -(w.height * lim) <= ox * new_height <= w.height * lim
        &&& -(w.height * lim) <= oy * new_height <= w.height * lim
    })
}

/// The home bearing places the chaser exactly one radius above the
/// center: reset and construction restore the boundary point
/// `(center.x, center.y - radius)` with no rounding at all.
pub proof fn lemma_home_placement(center: Vec2M, radius: int)
    requires
        radius >= 1,
    ensures
        circle_point(center, radius, HOME_BEARING as int) == (Vec2M {
            x: center.x,
            y: center.y - radius,
        }),
{
    assert(HOME_BEARING == 3 * QUARTER_TURN);
    crate::trig::lemma_trig_quadrants();
    let t = crate::trig::SIN_ONE as int;
    assert(radius * 0 == 0 && radius * -t == -(radius * t)) by (nonlinear_arith);
    vstd::arithmetic::div_mod::lemma_div_of0(t);
    lemma_tdiv_exact(radius, t);
    assert(tdiv(radius * -t, t) == -radius);
}

/// The chaser always lies on the arena circle: its distance from the
/// center never exceeds the radius and falls short of it only in
/// proportion to the trigonometric scale.
pub proof fn lemma_chaser_on_circle(w: WorldM)
    requires
        wf_world(w),
    ensures
        dist_sq(chaser_position_model(w), w.arena.center) <= w.arena.radius * w.arena.radius,
        dist_sq(chaser_position_model(w), w.arena.center) * (crate::trig::SIN_ONE as int
            * crate::trig::SIN_ONE) >= w.arena.radius * w.arena.radius * (crate::trig::SIN_ONE
            as int * crate::trig::SIN_ONE) - 2 * w.arena.radius * w.arena.radius
            * crate::trig::SIN_ONE - 4 * w.arena.radius * (crate::trig::SIN_ONE as int
            * crate::trig::SIN_ONE),
{
    crate::trig::lemma_circle_point_on_circle(w.arena.center, w.arena.radius, w.chaser.bearing);
}

/// A terminal round is frozen: a tick changes nothing at all, and only
/// a reset returns the outcome to live play.
pub proof fn lemma_terminal_round_is_frozen(w: WorldM, input: InputSnapshot)
    requires
        w.outcome != RoundOutcome::Playing,
    ensures
        advance_model(w, input) == w,
        reset_model(w).outcome == RoundOutcome::Playing,
{
}

/// Applying the same rescale twice in a row changes nothing the second
/// time: the transform is idempotent in the surface dimensions.
pub proof fn lemma_resize_idempotent(w: WorldM, new_width: int, new_height: int)
    requires
        wf_world(w),
        resize_accepts(w, new_width, new_height),
    ensures
        resize_accepts(resize_model(w, new_width, new_height), new_width, new_height),
        resize_model(resize_model(w, new_width, new_height), new_width, new_height)
            == resize_model(w, new_width, new_height),
{
    let w1 = resize_model(w, new_width, new_height);
    let h = new_height;
    lemma_tdiv_between(w.runner.speed * h, w.height, 1, SPEED_MAX as int);
    lemma_tdiv_between(w.runner.radius * h, w.height, 1, DIM_MAX as int);
    lemma_tdiv_between(w.chaser.radius * h, w.height, 1, DIM_MAX as int);
    let lim = offset_limit_for(w.outcome);
    let ox = w.runner.position.x - w.arena.center.x;
    let oy = w.runner.position.y - w.arena.center.y;
    lemma_tdiv_abs_le(ox * h, w.height, lim);
    lemma_tdiv_abs_le(oy * h, w.height, lim);
    // The once-rescaled world accepts the same rescale.
    assert(w1.runner.speed * h >= h && w1.runner.speed * h <= h * SPEED_MAX)
        by (nonlinear_arith)
        requires
            1 <= w1.runner.speed <= SPEED_MAX,
            h >= 1,
    ;
    assert(w1.runner.radius * h >= h && w1.runner.radius * h <= h * DIM_MAX)
        by (nonlinear_arith)
        requires
            1 <= w1.runner.radius <= DIM_MAX,
            h >= 1,
    ;
    assert(w1.chaser.radius * h >= h && w1.chaser.radius * h <= h * DIM_MAX)
        by (nonlinear_arith)
        requires
            1 <= w1.chaser.radius <= DIM_MAX,
            h >= 1,
    ;
    let ox1 = w1.runner.position.x - w1.arena.center.x;
    let oy1 = w1.runner.position.y - w1.arena.center.y;
    assert(-(h * lim) <= ox1 * h <= h * lim && -(h * lim) <= oy1 * h <= h * lim)
        by (nonlinear_arith)
        requires
            -lim <= ox1 <= lim,
            -lim <= oy1 <= lim,
            h >= 1,
            lim >= 0,
    ;
    // The second rescale reproduces the first exactly: every ratio is
    // one, so every truncating division recovers its dividend.
    lemma_tdiv_exact(w1.runner.speed, h);
    lemma_tdiv_exact(w1.runner.radius, h);
    lemma_tdiv_exact(w1.chaser.radius, h);
    lemma_tdiv_exact(ox1, h);
    lemma_tdiv_exact(oy1, h);
    let w2 = resize_model(w1, new_width, new_height);
    assert(w2.runner == w1.runner);
    assert(w2.chaser == w1.chaser);
    assert(w2 == w1);
}

/// The slack within which one rescale can move the boundary-exit
/// comparison: measured against the runner's squared center distance
/// and the squared arena radius, both scaled by the squared new
/// height. Outside this hairline band the comparison is carried.
pub open spec fn exit_rescale_slack(w: WorldM, new_height: int) -> int {
    let ho = w.height;
    let s = abs(w.runner.position.x - w.arena.center.x) + abs(
        w.runner.position.y - w.arena.center.y,
    );
    2 * ho * new_height * s + 2 * ho * ho + 2 * (ho + new_height) * (new_height * w.arena.radius)
        + (ho + new_height) * (ho + new_height)
}

/// The slack within which one rescale can move the collision
/// comparison: measured against the agents' squared distance and the
/// squared sum of their radii, both scaled by the squared new height.
pub open spec fn collision_rescale_slack(w: WorldM, new_height: int) -> int {
    let ho = w.height;
    let wm = 3 * ho + 2 * new_height;
    let cp = chaser_position_model(w);
    let sm = abs(w.runner.position.x - cp.x) + abs(w.runner.position.y - cp.y);
    let b = w.runner.radius + w.chaser.radius;
    2 * wm * new_height * sm + 2 * wm * wm + 4 * ho * new_height * b + 4 * ho * ho
}

/// A rescale alone can decide nothing outside a hairline band: each of
/// the two winning conditions is carried across a rescale, in both
/// truth values, whenever it held or failed with a margin beyond the
/// stated slack. Inside the band the truncating integer scaling may
/// move a comparison by a few sub-pixel units; the slack quantifies
/// that band exactly.
pub proof fn lemma_resize_outcome_margin(w: WorldM, new_width: int, new_height: int)
    requires
        wf_world(w),
        resize_accepts(w, new_width, new_height),
    ensures
        ({
            let w2 = resize_model(w, new_width, new_height);
            let nh = new_height;
            let d = dist_sq(w.runner.position, w.arena.center);
            let r = w.arena.radius;
            let dc = dist_sq(w.runner.position, chaser_position_model(w));
            let b = w.runner.radius + w.chaser.radius;
            &&& nh * nh * (d - r * r) >= exit_rescale_slack(w, nh) ==> exit_holds(
                w2.runner.position,
                w2.arena.center,
                w2.arena.radius,
            )
            &&& nh * nh * (r * r - d) >= exit_rescale_slack(w, nh) ==> !exit_holds(
                w2.runner.position,
                w2.arena.center,
                w2.arena.radius,
            )
            &&& nh * nh * (b * b - dc) >= collision_rescale_slack(w, nh) ==> collision_holds(
                w2.runner.position,
                w2.runner.radius,
                chaser_position_model(w2),
                w2.chaser.radius,
            )
            &&& nh * nh * (dc - b * b) >= collision_rescale_slack(w, nh) ==> !collision_holds(
                w2.runner.position,
                w2.runner.radius,
                chaser_position_model(w2),
                w2.chaser.radius,
            )
        }),
{
    let w2 = resize_model(w, new_width, new_height);
    let ho = w.height;
    let nh = new_height;
    let ox = w.runner.position.x - w.arena.center.x;
    let oy = w.runner.position.y - w.arena.center.y;
    let ox2 = tdiv(ox * nh, ho);
    let oy2 = tdiv(oy * nh, ho);
    let r = w.arena.radius;
    let r2 = w2.arena.radius;
    let d = dist_sq(w.runner.position, w.arena.center);
    let d2 = dist_sq(w2.runner.position, w2.arena.center);
    assert(w2.runner.position.x - w2.arena.center.x == ox2 && w2.runner.position.y
        - w2.arena.center.y == oy2);
    assert(d == ox * ox + oy * oy && d2 == ox2 * ox2 + oy2 * oy2);
    // Each scaled runner offset lands within one old height of the
    // exactly scaled value.
    lemma_tdiv_near(ox * nh, ho);
    lemma_tdiv_near(oy * nh, ho);
    assert(-(abs(ox) * nh) <= ox * nh <= abs(ox) * nh && -(abs(oy) * nh) <= oy * nh <= abs(oy)
        * nh && abs(ox) * nh >= 0 && abs(oy) * nh >= 0) by (nonlinear_arith)
        requires
            nh >= 1,
    ;
    lemma_sq_window(ho * ox2, ox * nh, ho, abs(ox) * nh);
    lemma_sq_window(ho * oy2, oy * nh, ho, abs(oy) * nh);
    // The scaled new radius lands within one height sum of the exactly
    // scaled old radius.
    lemma_tdiv_bounds(2 * ho, 5);
    lemma_tdiv_bounds(2 * nh, 5);
    assert(5 * r <= 2 * ho < 5 * r + 5 && 5 * r2 <= 2 * nh < 5 * r2 + 5);
    assert(r >= 6 && r2 >= 6);
    assert(ho * (5 * r2) == 5 * (ho * r2) && ho * (2 * nh) == 2 * (ho * nh) && ho * (2 * nh - 5)
        == 2 * (ho * nh) - 5 * ho && nh * (5 * r) == 5 * (nh * r) && nh * (2 * ho) == 2 * (ho
        * nh) && nh * (2 * ho - 5) == 2 * (ho * nh) - 5 * nh) by (nonlinear_arith);
    assert(ho * (5 * r2) <= ho * (2 * nh) && ho * (5 * r2) > ho * (2 * nh - 5))
        by (nonlinear_arith)
        requires
            ho >= 1,
            5 * r2 <= 2 * nh,
            5 * r2 > 2 * nh - 5,
    ;
    assert(nh * (5 * r) <= nh * (2 * ho) && nh * (5 * r) > nh * (2 * ho - 5))
        by (nonlinear_arith)
        requires
            nh >= 1,
            5 * r <= 2 * ho,
            5 * r > 2 * ho - 5,
    ;
    assert(nh * r - ho < ho * r2 < nh * r + nh);
    assert(nh * r >= 0) by (nonlinear_arith)
        requires
            nh >= 1,
            r >= 0,
    ;
    lemma_sq_window(ho * r2, nh * r, ho + nh, nh * r);
    // Flatten every product into separated monomials, so the margin
    // comparisons become linear combinations.
    assert((ho * ox2) * (ho * ox2) == ho * ho * (ox2 * ox2) && (ho * oy2) * (ho * oy2) == ho
        * ho * (oy2 * oy2) && (ox * nh) * (ox * nh) == nh * nh * (ox * ox) && (oy * nh) * (oy
        * nh) == nh * nh * (oy * oy) && (ho * r2) * (ho * r2) == ho * ho * (r2 * r2) && (nh
        * r) * (nh * r) == nh * nh * (r * r)) by (nonlinear_arith);
    assert(2 * ho * (abs(ox) * nh) + 2 * ho * (abs(oy) * nh) == 2 * ho * nh * (abs(ox) + abs(
        oy,
    ))) by (nonlinear_arith);
    assert(ho * ho * d2 == ho * ho * (ox2 * ox2) + ho * ho * (oy2 * oy2) && nh * nh * d == nh
        * nh * (ox * ox) + nh * nh * (oy * oy)) by (nonlinear_arith)
        requires
            d == ox * ox + oy * oy,
            d2 == ox2 * ox2 + oy2 * oy2,
    ;
    let s = abs(ox) + abs(oy);
    assert(exit_rescale_slack(w, nh) == 2 * ho * nh * s + 2 * ho * ho + 2 * (ho + nh) * (nh
        * r) + (ho + nh) * (ho + nh));
    assert((ho + nh) * (ho + nh) >= 1 && ho * ho >= 1 && 2 * ho * ho == 2 * (ho * ho))
        by (nonlinear_arith)
        requires
            ho >= 1,
            nh >= 1,
    ;
    // The two exit directions.
    if nh * nh * (d - r * r) >= exit_rescale_slack(w, nh) {
        assert(nh * nh * (d - r * r) == nh * nh * d - nh * nh * (r * r)) by (nonlinear_arith);
        assert(ho * ho * d2 > ho * ho * (r2 * r2));
        assert(d2 > r2 * r2) by (nonlinear_arith)
            requires
                ho * ho * d2 > ho * ho * (r2 * r2),
                ho >= 1,
        ;
    }
    if nh * nh * (r * r - d) >= exit_rescale_slack(w, nh) {
        assert(nh * nh * (r * r - d) == nh * nh * (r * r) - nh * nh * d) by (nonlinear_arith);
        assert(ho * ho * d2 < ho * ho * (r2 * r2));
        assert(d2 < r2 * r2) by (nonlinear_arith)
            requires
                ho * ho * d2 < ho * ho * (r2 * r2),
                ho >= 1,
        ;
    }
    // The collision pair: the chaser is re-projected from its bearing
    // onto the rescaled circle, within a bounded window of the exactly
    // scaled old position.
    let t = crate::trig::SIN_ONE as int;
    let cb = crate::trig::cos_bearing(w.chaser.bearing);
    let sb = crate::trig::sin_bearing(w.chaser.bearing);
    crate::trig::lemma_sin_cos_norm(w.chaser.bearing);
    let cpx = tdiv(r * cb, t);
    let cpy = tdiv(r * sb, t);
    let cpx2 = tdiv(r2 * cb, t);
    let cpy2 = tdiv(r2 * sb, t);
    crate::trig::lemma_trig_offset_bounds(r, cb);
    crate::trig::lemma_trig_offset_bounds(r, sb);
    crate::trig::lemma_trig_offset_bounds(r2, cb);
    crate::trig::lemma_trig_offset_bounds(r2, sb);
    assert(r * cb - t < t * cpx < r * cb + t && r * sb - t < t * cpy < r * sb + t && r2 * cb
        - t < t * cpx2 < r2 * cb + t && r2 * sb - t < t * cpy2 < r2 * sb + t);
    // Chain the windows: scaled by the opposite height, old and new
    // chaser offsets differ by less than twice the height sum.
    assert(nh * (t * cpx) == t * (nh * cpx) && nh * (r * cb) == (nh * r) * cb && nh * (r * sb)
        == (nh * r) * sb && nh * (t * cpy) == t * (nh * cpy) && ho * (t * cpx2) == t * (ho
        * cpx2) && ho * (r2 * cb) == (ho * r2) * cb && ho * (r2 * sb) == (ho * r2) * sb && ho
        * (t * cpy2) == t * (ho * cpy2)) by (nonlinear_arith);
    assert((nh * r) * cb - t * nh < t * (nh * cpx) < (nh * r) * cb + t * nh && (nh * r) * sb
        - t * nh < t * (nh * cpy) < (nh * r) * sb + t * nh) by (nonlinear_arith)
        requires
            nh >= 1,
            r * cb - t < t * cpx < r * cb + t,
            r * sb - t < t * cpy < r * sb + t,
            nh * (t * cpx) == t * (nh * cpx),
            nh * (r * cb) == (nh * r) * cb,
            nh * (t * cpy) == t * (nh * cpy),
            nh * (r * sb) == (nh * r) * sb,
    ;
    assert((ho * r2) * cb - t * ho < t * (ho * cpx2) < (ho * r2) * cb + t * ho && (ho * r2)
        * sb - t * ho < t * (ho * cpy2) < (ho * r2) * sb + t * ho) by (nonlinear_arith)
        requires
            ho >= 1,
            r2 * cb - t < t * cpx2 < r2 * cb + t,
            r2 * sb - t < t * cpy2 < r2 * sb + t,
            ho * (t * cpx2) == t * (ho * cpx2),
            ho * (r2 * cb) == (ho * r2) * cb,
            ho * (t * cpy2) == t * (ho * cpy2),
            ho * (r2 * sb) == (ho * r2) * sb,
    ;
    assert((ho * r2) * cb - (nh * r) * cb < t * (ho + nh) && (nh * r) * cb - (ho * r2) * cb
        < t * (ho + nh) && (ho * r2) * sb - (nh * r) * sb < t * (ho + nh) && (nh * r) * sb - (ho
        * r2) * sb < t * (ho + nh)) by (nonlinear_arith)
        requires
            nh * r - ho < ho * r2 < nh * r + nh,
            -t <= cb <= t,
            -t <= sb <= t,
            t >= 1,
            ho >= 1,
            nh >= 1,
    ;
    assert(t * (nh * cpx) - t * (ho + nh) - t * nh - t * ho < t * (ho * cpx2) < t * (nh * cpx)
        + t * (ho + nh) + t * nh + t * ho);
    assert(t * (nh * cpy) - t * (ho + nh) - t * nh - t * ho < t * (ho * cpy2) < t * (nh * cpy)
        + t * (ho + nh) + t * nh + t * ho);
    let wm = 3 * ho + 2 * nh;
    assert(nh * cpx - (2 * ho + 2 * nh) < ho * cpx2 < nh * cpx + (2 * ho + 2 * nh) && nh * cpy
        - (2 * ho + 2 * nh) < ho * cpy2 < nh * cpy + (2 * ho + 2 * nh)) by (nonlinear_arith)
        requires
            t >= 1,
            t * (nh * cpx) - t * (2 * ho + 2 * nh) < t * (ho * cpx2) < t * (nh * cpx) + t * (2
                * ho + 2 * nh),
            t * (nh * cpy) - t * (2 * ho + 2 * nh) < t * (ho * cpy2) < t * (nh * cpy) + t * (2
                * ho + 2 * nh),
    ;
    // Relative offsets between the agents, before and after.
    let mx = ox - cpx;
    let my = oy - cpy;
    let mx2 = ox2 - cpx2;
    let my2 = oy2 - cpy2;
    assert(w.runner.position.x - chaser_position_model(w).x == mx && w.runner.position.y
        - chaser_position_model(w).y == my);
    assert(w2.runner.position.x - chaser_position_model(w2).x == mx2 && w2.runner.position.y
        - chaser_position_model(w2).y == my2);
    let dc = dist_sq(w.runner.position, chaser_position_model(w));
    let dc2 = dist_sq(w2.runner.position, chaser_position_model(w2));
    assert(dc == mx * mx + my * my && dc2 == mx2 * mx2 + my2 * my2);
    assert(ho * mx2 == ho * ox2 - ho * cpx2 && nh * mx == nh * ox - nh * cpx && ho * my2 == ho
        * oy2 - ho * cpy2 && nh * my == nh * oy - nh * cpy) by (nonlinear_arith)
        requires
            mx == ox - cpx,
            my == oy - cpy,
            mx2 == ox2 - cpx2,
            my2 == oy2 - cpy2,
    ;
    assert(nh * ox - ho < ho * ox2 < nh * ox + ho && nh * oy - ho < ho * oy2 < nh * oy + ho)
        by (nonlinear_arith)
        requires
            ho * ox2 - ho < ox * nh < ho * ox2 + ho,
            ho * oy2 - ho < oy * nh < ho * oy2 + ho,
    ;
    assert(nh * mx - wm < ho * mx2 < nh * mx + wm && nh * my - wm < ho * my2 < nh * my + wm);
    assert(-(abs(mx) * nh) <= nh * mx <= abs(mx) * nh && -(abs(my) * nh) <= nh * my <= abs(my)
        * nh && abs(mx) * nh >= 0 && abs(my) * nh >= 0) by (nonlinear_arith)
        requires
            nh >= 1,
    ;
    assert(wm >= 1);
    lemma_sq_window(ho * mx2, nh * mx, wm, abs(mx) * nh);
    lemma_sq_window(ho * my2, nh * my, wm, abs(my) * nh);
    // The scaled sum of body radii.
    let rr = w.runner.radius;
    let cr = w.chaser.radius;
    let b = rr + cr;
    let b2 = w2.runner.radius + w2.chaser.radius;
    lemma_tdiv_near(rr * nh, ho);
    lemma_tdiv_near(cr * nh, ho);
    assert(ho * b2 == ho * tdiv(rr * nh, ho) + ho * tdiv(cr * nh, ho) && nh * b == rr * nh + cr
        * nh) by (nonlinear_arith)
        requires
            b == rr + cr,
            b2 == tdiv(rr * nh, ho) + tdiv(cr * nh, ho),
    ;
    assert(nh * b - 2 * ho < ho * b2 < nh * b + 2 * ho);
    assert(nh * b >= 0) by (nonlinear_arith)
        requires
            nh >= 1,
            b >= 0,
    ;
    lemma_sq_window(ho * b2, nh * b, 2 * ho, nh * b);
    // Flatten the collision products.
    assert((ho * mx2) * (ho * mx2) == ho * ho * (mx2 * mx2) && (ho * my2) * (ho * my2) == ho
        * ho * (my2 * my2) && (nh * mx) * (nh * mx) == nh * nh * (mx * mx) && (nh * my) * (nh
        * my) == nh * nh * (my * my) && (ho * b2) * (ho * b2) == ho * ho * (b2 * b2) && (nh
        * b) * (nh * b) == nh * nh * (b * b) && 2 * (2 * ho) * (nh * b) == 4 * ho * nh * b && (2
        * ho) * (2 * ho) == 4 * ho * ho) by (nonlinear_arith);
    assert(2 * wm * (abs(mx) * nh) + 2 * wm * (abs(my) * nh) == 2 * wm * nh * (abs(mx) + abs(
        my,
    ))) by (nonlinear_arith);
    assert(ho * ho * dc2 == ho * ho * (mx2 * mx2) + ho * ho * (my2 * my2) && nh * nh * dc == nh
        * nh * (mx * mx) + nh * nh * (my * my)) by (nonlinear_arith)
        requires
            dc == mx * mx + my * my,
            dc2 == mx2 * mx2 + my2 * my2,
    ;
    let sm = abs(mx) + abs(my);
    assert(collision_rescale_slack(w, nh) == 2 * wm * nh * sm + 2 * wm * wm + 4 * ho * nh * b
        + 4 * ho * ho);
    assert(2 * wm * wm == wm * wm + wm * wm && 4 * ho * ho >= 4) by (nonlinear_arith)
        requires
            ho >= 1,
            wm >= 1,
    ;
    // The two collision directions.
    if nh * nh * (b * b - dc) >= collision_rescale_slack(w, nh) {
        assert(nh * nh * (b * b - dc) == nh * nh * (b * b) - nh * nh * dc) by (nonlinear_arith);
        assert(ho * ho * dc2 < ho * ho * (b2 * b2));
        assert(dc2 < b2 * b2) by (nonlinear_arith)
            requires
                ho * ho * dc2 < ho * ho * (b2 * b2),
                ho >= 1,
        ;
    }
    if nh * nh * (dc - b * b) >= collision_rescale_slack(w, nh) {
        assert(nh * nh * (dc - b * b) == nh * nh * dc - nh * nh * (b * b)) by (nonlinear_arith);
        assert(ho * ho * dc2 > ho * ho * (b2 * b2));
        assert(dc2 > b2 * b2) by (nonlinear_arith)
            requires
                ho * ho * dc2 > ho * ho * (b2 * b2),
                ho >= 1,
        ;
    }
}

/// The single aggregate the driver owns: every update replaces plain
/// values inside it; nothing is shared.
pub struct World {
    width: i64,
    height: i64,
    arena: Arena,
    runner: Runner,
    chaser: Chaser,
    outcome: RoundOutcome,
    speed_ratio: i64,
}

impl View for World {
    type V = WorldM;

    closed spec fn view(&self) -> WorldM {
        WorldM {
            width: self.width as int,
            height: self.height as int,
            arena: self.arena@,
            runner: self.runner@,
            chaser: self.chaser@,
            outcome: self.outcome,
            speed_ratio: self.speed_ratio as int,
        }
    }
}

impl World {
    /// Builds a fresh simulation on a surface: the runner at the arena
    /// center, the chaser at its home bearing on the boundary, the
    /// round live.
    pub fn new(
        width: i64,
        height: i64,
        runner_radius: i64,
        runner_speed: i64,
        chaser_radius: i64,
        speed_ratio: i64,
    ) -> (w: World)
        requires
            surface_in_range(width as int, height as int),
            1 <= runner_speed <= SPEED_MAX,
            1 <= speed_ratio <= RATIO_MAX,
            1 <= runner_radius <= DIM_MAX,
            1 <= chaser_radius <= DIM_MAX,
        ensures
            w@ == initial_model(
                width as int,
                height as int,
                runner_radius as int,
                runner_speed as int,
                chaser_radius as int,
                speed_ratio as int,
            ),
            wf_world(w@),
    {
        proof {
            assert(1 <= speed_ratio * runner_speed <= RATIO_MAX as int * SPEED_MAX)
                by (nonlinear_arith)
                requires
                    1 <= runner_speed <= SPEED_MAX,
                    1 <= speed_ratio <= RATIO_MAX,
            ;
        }
        let arena = Arena::from_surface(width, height);
        let center = arena.center;
        World {
            width,
            height,
            arena,
            runner: Runner::new(center, runner_radius, runner_speed),
            chaser: Chaser::new(HOME_BEARING, chaser_radius, speed_ratio * runner_speed),
            outcome: RoundOutcome::Playing,
            speed_ratio,
        }
    }

    /// One simulation tick.
    pub fn advance(&mut self, input: InputSnapshot)
        requires
            wf_world(old(self)@),
            input_in_range(input),
        ensures
            final(self)@ == advance_model(old(self)@, input),
            wf_world(final(self)@),
    {
        if self.outcome != RoundOutcome::Playing {
            return ;
        }
        self.runner.step(input);
        proof {
            let c = self.arena@.center;
            let p = self.runner@.position;
            assert(step_stays_near(old(self)@.runner, input, p));
            assert(-0x1800_0000 <= p.x <= 0x1800_0000 && -0x1800_0000 <= p.y <= 0x1800_0000);
            assert(1 <= self@.chaser.speed <= CHASER_SPEED_MAX) by (nonlinear_arith)
                requires
                    self@.chaser.speed == self@.speed_ratio * self@.runner.speed,
                    1 <= self@.speed_ratio <= RATIO_MAX,
                    1 <= self@.runner.speed <= SPEED_MAX,
            ;
        }
        self.chaser.pursue(&self.arena, self.runner.position);
        let cpos = self.chaser.position_on(&self.arena);
        self.outcome = judge_outcome(
            self.runner.position,
            self.runner.radius,
            cpos,
            self.chaser.radius,
            self.arena.center,
            self.arena.radius,
        );
        proof {
            let wnew = self@;
            let c = wnew.arena.center;
            let px = wnew.runner.position.x - c.x;
            let py = wnew.runner.position.y - c.y;
            if wnew.outcome == RoundOutcome::Playing {
                let rr = wnew.arena.radius;
                assert(px * px <= dist_sq(wnew.runner.position, c) && py * py <= dist_sq(
                    wnew.runner.position,
                    c,
                )) by (nonlinear_arith)
                    requires
                        dist_sq(wnew.runner.position, c) == px * px + py * py,
                ;
                assert(-rr <= px <= rr && -rr <= py <= rr) by (nonlinear_arith)
                    requires
                        px * px <= rr * rr,
                        py * py <= rr * rr,
                        rr >= 0,
                ;
            }
        }
    }

    /// Returns the round to its initial placement: runner at the arena
    /// center, chaser at its home bearing, outcome live.
    pub fn reset(&mut self)
        requires
            wf_world(old(self)@),
        ensures
            final(self)@ == reset_model(old(self)@),
            wf_world(final(self)@),
    {
        self.runner.position = self.arena.center;
        self.chaser.bearing = HOME_BEARING;
        self.outcome = RoundOutcome::Playing;
    }

    /// Whether a rescale to these dimensions is within machine limits.
    pub fn accepts_resize(&self, new_width: i64, new_height: i64) -> (ok: bool)
        requires
            wf_world(self@),
        ensures
            ok == resize_accepts(self@, new_width as int, new_height as int),
    {
        if !(crate::arena::DIM_MIN <= new_width && new_width <= DIM_MAX
            && crate::arena::DIM_MIN <= new_height && new_height <= DIM_MAX) {
            return false;
        }
        let h = self.height;
        let lim = if self.outcome == RoundOutcome::Playing {
            OFFSET_PLAY_LIMIT
        } else {
            OFFSET_LIMIT
        };
        let ox = self.runner.position.x - self.arena.center.x;
        let oy = self.runner.position.y - self.arena.center.y;
        proof {
            assert(0 <= self@.runner.speed * new_height <= SPEED_MAX as int * DIM_MAX && 0
                <= self@.runner.radius * new_height <= DIM_MAX as int * DIM_MAX && 0
                <= self@.chaser.radius * new_height <= DIM_MAX as int * DIM_MAX
                && -(OFFSET_LIMIT as int * DIM_MAX) <= ox * new_height <= OFFSET_LIMIT as int
                * DIM_MAX && -(OFFSET_LIMIT as int * DIM_MAX) <= oy * new_height <= OFFSET_LIMIT
                as int * DIM_MAX && 0 <= h * lim <= DIM_MAX as int * OFFSET_LIMIT && 0 <= h
                * SPEED_MAX <= DIM_MAX as int * SPEED_MAX && 0 <= h * DIM_MAX <= DIM_MAX as int
                * DIM_MAX) by (nonlinear_arith)
                requires
                    1 <= self@.runner.speed <= SPEED_MAX,
                    1 <= self@.runner.radius <= DIM_MAX,
                    1 <= self@.chaser.radius <= DIM_MAX,
                    -OFFSET_LIMIT <= ox <= OFFSET_LIMIT,
                    -OFFSET_LIMIT <= oy <= OFFSET_LIMIT,
                    1 <= new_height <= DIM_MAX,
                    1 <= h <= DIM_MAX,
                    lim == OFFSET_PLAY_LIMIT || lim == OFFSET_LIMIT,
            ;
        }
        h <= self.runner.speed * new_height && self.runner.speed * new_height <= h * SPEED_MAX
            && h <= self.runner.radius * new_height && self.runner.radius * new_height <= h
            * DIM_MAX && h <= self.chaser.radius * new_height && self.chaser.radius * new_height
            <= h * DIM_MAX && -(h * lim) <= ox * new_height && ox * new_height <= h * lim && -(h
            * lim) <= oy * new_height && oy * new_height <= h * lim
    }

    /// One rescale of the play surface.
    pub fn on_resize(&mut self, new_width: i64, new_height: i64)
        requires
            wf_world(old(self)@),
            resize_accepts(old(self)@, new_width as int, new_height as int),
        ensures
            final(self)@ == resize_model(old(self)@, new_width as int, new_height as int),
            wf_world(final(self)@),
    {
        proof {
            lemma_tdiv_between(
                old(self)@.runner.speed * new_height,
                old(self)@.height,
                1,
                SPEED_MAX as int,
            );
            lemma_tdiv_between(
                old(self)@.runner.radius * new_height,
                old(self)@.height,
                1,
                DIM_MAX as int,
            );
            lemma_tdiv_between(
                old(self)@.chaser.radius * new_height,
                old(self)@.height,
                1,
                DIM_MAX as int,
            );
            let lim = offset_limit_for(old(self)@.outcome);
            lemma_tdiv_abs_le(
                (old(self)@.runner.position.x - old(self)@.arena.center.x) * new_height,
                old(self)@.height,
                lim,
            );
            lemma_tdiv_abs_le(
                (old(self)@.runner.position.y - old(self)@.arena.center.y) * new_height,
                old(self)@.height,
                lim,
            );
        }
        let old_height = self.height;
        let c0 = self.arena.center;
        let new_arena = Arena::from_surface(new_width, new_height);
        let c1 = new_arena.center;
        let rs = div_trunc(self.runner.speed * new_height, old_height);
        proof {
            assert(1 <= self.speed_ratio * rs <= RATIO_MAX as int * SPEED_MAX)
                by (nonlinear_arith)
                requires
                    1 <= rs <= SPEED_MAX,
                    1 <= self.speed_ratio <= RATIO_MAX,
            ;
        }
        let runner_pos = Vector2 {
            x: c1.x + div_trunc((self.runner.position.x - c0.x) * new_height, old_height),
            y: c1.y + div_trunc((self.runner.position.y - c0.y) * new_height, old_height),
        };
        self.runner = Runner {
            position: runner_pos,
            radius: div_trunc(self.runner.radius * new_height, old_height),
            speed: rs,
        };
        self.chaser = Chaser {
            bearing: self.chaser.bearing,
            radius: div_trunc(self.chaser.radius * new_height, old_height),
            speed: self.speed_ratio * rs,
        };
        self.arena = new_arena;
        self.width = new_width;
        self.height = new_height;
    }

    /// The arena as currently scaled.
    pub fn arena(&self) -> (a: Arena)
        ensures
            a@ == self@.arena,
    {
        self.arena
    }

    /// The runner as currently placed and scaled.
    pub fn runner(&self) -> (r: Runner)
        ensures
            r@ == self@.runner,
    {
        self.runner
    }

    /// The chaser's bearing, body radius and speed.
    pub fn chaser(&self) -> (c: Chaser)
        ensures
            c@ == self@.chaser,
    {
        self.chaser
    }

    /// The chaser's position on the arena circle.
    pub fn chaser_position(&self) -> (p: Vector2)
        requires
            wf_world(self@),
        ensures
            p@ == chaser_position_model(self@),
    {
        self.chaser.position_on(&self.arena)
    }

    /// The current round outcome.
    pub fn outcome(&self) -> (oc: RoundOutcome)
        ensures
            oc == self@.outcome,
    {
        self.outcome
    }

    /// The guide ring derived from the current arena.
    pub fn guide_ring(&self) -> (g: GuideRing)
        requires
            wf_world(self@),
        ensures
            g@.position == self@.arena.center,
            g@.radius == self@.arena.radius / self@.speed_ratio,
    {
        GuideRing::from_arena(&self.arena, self.speed_ratio)
    }

    /// The current surface width.
    pub fn width(&self) -> (w: i64)
        ensures
            w as int == self@.width,
    {
        self.width
    }

    /// The current surface height.
    pub fn height(&self) -> (h: i64)
        ensures
            h as int == self@.height,
    {
        self.height
    }

    /// The configured speed ratio.
    pub fn speed_ratio(&self) -> (r: i64)
        ensures
            r as int == self@.speed_ratio,
    {
        self.speed_ratio
    }
}

/// The surface size the core receives when a resize falls below the
/// minimum: each undersized dimension is raised to its floor, so the
/// result meets the minimum in both dimensions.
pub fn clamp_surface_size(width: i64, height: i64, min_width: i64, min_height: i64) -> (r: (
    i64,
    i64,
))
    ensures
        r.0 == (if width < min_width {
            min_width
        } else {
            width
        }),
        r.1 == (if height < min_height {
            min_height
        } else {
            height
        }),
        r.0 >= min_width,
        r.1 >= min_height,
{
    let clamped_width = if width < min_width {
        min_width
    } else {
        width
    };
    let clamped_height = if height < min_height {
        min_height
    } else {
        height
    };
    (clamped_width, clamped_height)
}

} // verus!
