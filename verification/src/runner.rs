//! The controllable agent and its per-tick motion: pointer-seeking with
//! an exact no-overshoot rule, and directional motion whose diagonal
//! step is normalized to the same speed as an axis-aligned step.

use vstd::prelude::*;
use crate::vector::{Vec2M, Vector2, norm_sq, dist_sq};
use crate::input::{AxisSignal, InputSnapshot, input_in_range, POINTER_LIMIT};
use crate::num::{
    tdiv, div_trunc, sqrt_floor, isqrt, lemma_tdiv_bounds, lemma_tdiv_scale_shrinks,
    lemma_sqrt_floor, lemma_sq_window,
};

verus! {

/// Largest runner speed the simulation accepts, in sub-pixel units per
/// tick (a machine limit).
pub const SPEED_MAX: i64 = 1048576;

/// Mathematical model of the runner.
pub ghost struct RunnerM {
    pub position: Vec2M,
    pub radius: int,
    pub speed: int,
}

/// The per-axis component of a diagonal step: the largest integer whose
/// doubled square does not exceed the squared speed, so a diagonal step
/// is never faster than an axis-aligned one.
pub open spec fn diagonal_component(speed: int) -> int {
    sqrt_floor(speed * speed / 2)
}

/// Displacement of one directional tick: full speed along a single
/// active axis, the normalized component along each of two.
pub open spec fn directional_move(speed: int, h: int, v: int) -> Vec2M {
    if h != 0 && v != 0 {
        let c = diagonal_component(speed);
        Vec2M { x: h * c, y: v * c }
    } else {
        Vec2M { x: h * speed, y: v * speed }
    }
}

/// Position after one pointer tick: advance exactly `speed` along the
/// line to the target when the target is farther than one step, else
/// snap to the target.
pub open spec fn pointer_move(position: Vec2M, target: Vec2M, speed: int) -> Vec2M {
    let dx = target.x - position.x;
    let dy = target.y - position.y;
    let n = dx * dx + dy * dy;
    if n > speed * speed {
        let m = sqrt_floor(n);
        Vec2M { x: position.x + tdiv(dx * speed, m), y: position.y + tdiv(dy * speed, m) }
    } else {
        target
    }
}

/// Position after one tick of input.
pub open spec fn runner_step_position(r: RunnerM, input: InputSnapshot) -> Vec2M {
    match input {
        InputSnapshot::Pointer { target } => pointer_move(r.position, target@, r.speed),
        InputSnapshot::Directional { horizontal, vertical } => {
            let mv = directional_move(r.speed, horizontal.sign(), vertical.sign());
            Vec2M { x: r.position.x + mv.x, y: r.position.y + mv.y }
        },
    }
}

/// Where one step can land: between the old position and the target in
/// pointer mode, within one speed of the old position in directional
/// mode.
pub open spec fn step_stays_near(r: RunnerM, input: InputSnapshot, p: Vec2M) -> bool {
    match input {
        InputSnapshot::Pointer { target } => {
            let lo_x = if r.position.x <= target@.x { r.position.x } else { target@.x };
            let hi_x = if r.position.x <= target@.x { target@.x } else { r.position.x };
            let lo_y = if r.position.y <= target@.y { r.position.y } else { target@.y };
            let hi_y = if r.position.y <= target@.y { target@.y } else { r.position.y };
            lo_x <= p.x <= hi_x && lo_y <= p.y <= hi_y
        },
        InputSnapshot::Directional { .. } => r.position.x - r.speed <= p.x <= r.position.x
            + r.speed && r.position.y - r.speed <= p.y <= r.position.y + r.speed,
    }
}

/// The player-controlled agent.
#[derive(Clone, Copy, Debug, PartialEq, Eq, Structural)]
pub struct Runner {
    pub position: Vector2,
    pub radius: i64,
    pub speed: i64,
}

impl View for Runner {
    type V = RunnerM;

    open spec fn view(&self) -> RunnerM {
        RunnerM { position: self.position@, radius: self.radius as int, speed: self.speed as int }
    }
}

/// The diagonal component never exceeds the speed, and its doubled
/// square brackets the squared speed from below within `4c + 2`.
pub proof fn lemma_diagonal_component_bounds(speed: int)
    requires
        speed >= 1,
    ensures
        0 <= diagonal_component(speed) <= speed,
        2 * diagonal_component(speed) * diagonal_component(speed) <= speed * speed,
        2 * (diagonal_component(speed) + 1) * (diagonal_component(speed) + 1) > speed * speed,
{
    let n = speed * speed / 2;
    assert(speed * speed >= 1) by (nonlinear_arith)
        requires
            speed >= 1,
    ;
    vstd::arithmetic::div_mod::lemma_fundamental_div_mod(speed * speed, 2);
    lemma_sqrt_floor(n);
    let c = sqrt_floor(n);
    assert(c * c <= n < (c + 1) * (c + 1));
    assert(c <= speed) by (nonlinear_arith)
        requires
            c >= 0,
            speed >= 1,
            c * c <= speed * speed / 2,
            2 * (speed * speed / 2) <= speed * speed,
    ;
    assert(2 * c * c <= speed * speed) by (nonlinear_arith)
        requires
            c * c <= n,
            2 * n <= speed * speed,
    ;
    assert(2 * (c + 1) * (c + 1) > speed * speed) by (nonlinear_arith)
        requires
            n < (c + 1) * (c + 1),
            2 * n >= speed * speed - 1,
    ;
}

/// A diagonal step moves along both axes by the same amount, and its
/// squared length equals the squared speed up to the fixed-point
/// remainder `4c + 2`: diagonal motion is as fast as axis-aligned
/// motion, never faster.
pub proof fn lemma_diagonal_step_speed(speed: int, h: AxisSignal, v: AxisSignal)
    requires
        speed >= 1,
        h.is_active(),
        v.is_active(),
    ensures
        ({
            let mv = directional_move(speed, h.sign(), v.sign());
            let c = diagonal_component(speed);
            &&& norm_sq(mv) == 2 * c * c
            &&& norm_sq(mv) <= speed * speed
            &&& norm_sq(mv) > speed * speed - 4 * c - 2
            &&& norm_sq(mv) > speed * speed - 4 * speed - 2
        }),
        norm_sq(directional_move(speed, h.sign(), 0)) == speed * speed,
        norm_sq(directional_move(speed, 0, v.sign())) == speed * speed,
{
    lemma_diagonal_component_bounds(speed);
    let c = diagonal_component(speed);
    let hs = h.sign();
    let vs = v.sign();
    assert(hs * c * (hs * c) == c * c && vs * c * (vs * c) == c * c) by (nonlinear_arith)
        requires
            hs == 1 || hs == -1,
            vs == 1 || vs == -1,
    ;
    assert(2 * (c + 1) * (c + 1) == 2 * c * c + 4 * c + 2) by (nonlinear_arith);
    assert(hs * speed * (hs * speed) == speed * speed && vs * speed * (vs * speed) == speed
        * speed) by (nonlinear_arith)
        requires
            hs == 1 || hs == -1,
            vs == 1 || vs == -1,
    ;
    assert(hs * 0 == 0 && vs * 0 == 0 && 0 * speed == 0) by (nonlinear_arith);
    let mv = directional_move(speed, hs, vs);
    assert(norm_sq(mv) == 2 * c * c) by (nonlinear_arith)
        requires
            mv.x == hs * c,
            mv.y == vs * c,
            hs == 1 || hs == -1,
            vs == 1 || vs == -1,
    ;
    assert(2 * c * c > speed * speed - 4 * c - 2) by (nonlinear_arith)
        requires
            2 * (c + 1) * (c + 1) > speed * speed,
    ;
}

/// Pointer motion never overshoots: within one step of the target the
/// runner snaps onto it, and beyond that the new distance to the target
/// equals the old distance less the speed, up to the fixed-point
/// remainder of a few units.
pub proof fn lemma_pointer_no_overshoot(position: Vec2M, target: Vec2M, speed: int)
    requires
        speed >= 1,
    ensures
        dist_sq(target, position) <= speed * speed ==> pointer_move(position, target, speed)
            == target,
        dist_sq(target, position) > speed * speed ==> ({
            let k = sqrt_floor(dist_sq(target, position)) - speed;
            &&& k >= 0
            &&& dist_sq(target, pointer_move(position, target, speed)) <= k * k + 6 * k + 3
            &&& dist_sq(target, pointer_move(position, target, speed)) >= k * k - 4 * k
        }),
{
    let dx = target.x - position.x;
    let dy = target.y - position.y;
    let n = dx * dx + dy * dy;
    assert(n == dist_sq(target, position));
    if n > speed * speed {
        assert(speed * speed >= 1) by (nonlinear_arith)
            requires
                speed >= 1,
        ;
        lemma_sqrt_floor(n);
        let m = sqrt_floor(n);
        assert(m >= speed) by (nonlinear_arith)
            requires
                m >= 0,
                speed >= 1,
                n < (m + 1) * (m + 1),
                n > speed * speed,
        ;
        let k = m - speed;
        assert(dx * dx <= n && dy * dy <= n) by (nonlinear_arith)
            requires
                n == dx * dx + dy * dy,
        ;
        assert(-m <= dx <= m && -m <= dy <= m) by (nonlinear_arith)
            requires
                m >= 1,
                dx * dx <= n,
                dy * dy <= n,
                n < (m + 1) * (m + 1),
        ;
        let sx = tdiv(dx * speed, m);
        let sy = tdiv(dy * speed, m);
        let ex = dx - sx;
        let ey = dy - sy;
        let p = pointer_move(position, target, speed);
        assert(target.x - p.x == ex && target.y - p.y == ey);
        assert(dist_sq(target, p) == ex * ex + ey * ey);
        // Each scaled error component sits within one `m`-window of the
        // exact value `d * k`.
        lemma_tdiv_bounds(dx * speed, m);
        lemma_tdiv_bounds(dy * speed, m);
        assert(dx * k - m < m * ex < dx * k + m) by (nonlinear_arith)
            requires
                ex == dx - sx,
                k == m - speed,
                dx * speed >= 0 ==> m * sx <= dx * speed && dx * speed < m * sx + m,
                dx * speed < 0 ==> dx * speed <= m * sx && m * sx - m < dx * speed,
        ;
        assert(dy * k - m < m * ey < dy * k + m) by (nonlinear_arith)
            requires
                ey == dy - sy,
                k == m - speed,
                dy * speed >= 0 ==> m * sy <= dy * speed && dy * speed < m * sy + m,
                dy * speed < 0 ==> dy * speed <= m * sy && m * sy - m < dy * speed,
        ;
        assert(-(m * k) <= dx * k <= m * k && -(m * k) <= dy * k <= m * k && m * k >= 0)
            by (nonlinear_arith)
            requires
                -m <= dx <= m,
                -m <= dy <= m,
                k >= 0,
                m >= 1,
        ;
        lemma_sq_window(m * ex, dx * k, m, m * k);
        lemma_sq_window(m * ey, dy * k, m, m * k);
        // Rewrite the component brackets over separated products.
        assert((m * ex) * (m * ex) == m * m * (ex * ex) && (m * ey) * (m * ey) == m * m * (ey
            * ey) && (dx * k) * (dx * k) == k * k * (dx * dx) && (dy * k) * (dy * k) == k * k
            * (dy * dy) && 2 * m * (m * k) == 2 * ((m * m) * k) && m * m >= 1)
            by (nonlinear_arith)
            requires
                m >= 1,
        ;
        assert(m * m * (ex * ex) < k * k * (dx * dx) + 2 * ((m * m) * k) + m * m);
        assert(m * m * (ey * ey) < k * k * (dy * dy) + 2 * ((m * m) * k) + m * m);
        assert(m * m * (ex * ex) >= k * k * (dx * dx) - 2 * ((m * m) * k));
        assert(m * m * (ey * ey) >= k * k * (dy * dy) - 2 * ((m * m) * k));
        assert(k * k * (dx * dx) + k * k * (dy * dy) == k * k * n) by (nonlinear_arith)
            requires
                n == dx * dx + dy * dy,
        ;
        assert(k * k * n <= k * k * (m * m) + 2 * ((m * m) * k)) by (nonlinear_arith)
            requires
                n < (m + 1) * (m + 1),
                0 <= k <= m,
                m >= 1,
        ;
        assert(k * k * n >= k * k * (m * m)) by (nonlinear_arith)
            requires
                n >= m * m,
                k >= 0,
        ;
        // Sum the flattened brackets, then divide out the positive scale.
        assert(m * m * (ex * ex) + m * m * (ey * ey) < k * k * (m * m) + 6 * ((m * m) * k) + 2
            * (m * m));
        assert(m * m * (ex * ex) + m * m * (ey * ey) >= k * k * (m * m) - 4 * ((m * m) * k));
        assert(ex * ex + ey * ey <= k * k + 6 * k + 1) by (nonlinear_arith)
            requires
                m * m * (ex * ex) + m * m * (ey * ey) < k * k * (m * m) + 6 * ((m * m) * k) + 2
                    * (m * m),
                m >= 1,
                k >= 0,
        ;
        assert(ex * ex + ey * ey >= k * k - 4 * k) by (nonlinear_arith)
            requires
                m * m * (ex * ex) + m * m * (ey * ey) >= k * k * (m * m) - 4 * ((m * m) * k),
                m >= 1,
                k >= 0,
        ;
    }
}

impl Runner {
    /// Builds a runner at a position with its body radius and speed.
    pub fn new(position: Vector2, radius: i64, speed: i64) -> (r: Runner)
        ensures
            r@.position == position@,
            r@.radius == radius as int,
            r@.speed == speed as int,
    {
        Runner { position, radius, speed }
    }

    /// Applies one tick of input to the position. Only the position
    /// changes; radius and speed are untouched.
    pub fn step(&mut self, input: InputSnapshot)
        requires
            1 <= old(self)@.speed <= SPEED_MAX,
            -0x800_0000 <= old(self)@.position.x <= 0x800_0000,
            -0x800_0000 <= old(self)@.position.y <= 0x800_0000,
            input_in_range(input),
        ensures
            final(self)@.position == runner_step_position(old(self)@, input),
            final(self)@.radius == old(self)@.radius,
            final(self)@.speed == old(self)@.speed,
            step_stays_near(old(self)@, input, final(self)@.position),
    {
        match input {
            InputSnapshot::Pointer { target } => {
                let dx = target.x - self.position.x;
                let dy = target.y - self.position.y;
                proof {
                    assert(dx * dx <= 0x3000_0000int * 0x3000_0000int && dy * dy
                        <= 0x3000_0000int * 0x3000_0000int && dx * dx >= 0 && dy * dy >= 0)
                        by (nonlinear_arith)
                        requires
                            -0x3000_0000 <= dx <= 0x3000_0000,
                            -0x3000_0000 <= dy <= 0x3000_0000,
                    ;
                }
                let n = dx * dx + dy * dy;
                proof {
                    assert(0 <= self.speed * self.speed <= SPEED_MAX as int * SPEED_MAX as int)
                        by (nonlinear_arith)
                        requires
                            1 <= self.speed <= SPEED_MAX,
                    ;
                }
                if n > self.speed * self.speed {
                    let m = isqrt(n);
                    proof {
                        assert(m >= self.speed) by (nonlinear_arith)
                            requires
                                m >= 0,
                                self.speed >= 1,
                                n < (m + 1) * (m + 1),
                                n > self.speed * self.speed,
                        ;
                        assert(dx * dx <= n && dy * dy <= n);
                        assert(-m <= dx <= m && -m <= dy <= m) by (nonlinear_arith)
                            requires
                                m >= 1,
                                dx * dx <= n,
                                dy * dy <= n,
                                n < (m + 1) * (m + 1),
                        ;
                        lemma_tdiv_scale_shrinks(dx as int, self.speed as int, m as int);
                        lemma_tdiv_scale_shrinks(dy as int, self.speed as int, m as int);
                        assert(-(0x3000_0000int * SPEED_MAX) <= dx * self.speed <= 0x3000_0000int
                            * SPEED_MAX && -(0x3000_0000int * SPEED_MAX) <= dy * self.speed
                            <= 0x3000_0000int * SPEED_MAX) by (nonlinear_arith)
                            requires
                                -0x3000_0000 <= dx <= 0x3000_0000,
                                -0x3000_0000 <= dy <= 0x3000_0000,
                                1 <= self.speed <= SPEED_MAX,
                        ;
                    }
                    let sx = div_trunc(dx * self.speed, m);
                    let sy = div_trunc(dy * self.speed, m);
                    self.position = Vector2 { x: self.position.x + sx, y: self.position.y + sy };
                } else {
                    self.position = target;
                }
            },
            InputSnapshot::Directional { horizontal, vertical } => {
                let mv = if horizontal.is_active_exec() && vertical.is_active_exec() {
                    proof {
                        lemma_diagonal_component_bounds(self.speed as int);
                        assert(self.speed * self.speed / 2 <= SPEED_MAX as int * SPEED_MAX as int)
                            by (nonlinear_arith)
                            requires
                                1 <= self.speed <= SPEED_MAX,
                        ;
                    }
                    proof {
                        assert(0 <= self.speed * self.speed <= SPEED_MAX as int * SPEED_MAX as int)
                            by (nonlinear_arith)
                            requires
                                1 <= self.speed <= SPEED_MAX,
                        ;
                    }
                    let c = isqrt(self.speed * self.speed / 2);
                    Vector2 { x: horizontal.apply_exec(c), y: vertical.apply_exec(c) }
                } else {
                    Vector2 {
                        x: horizontal.apply_exec(self.speed),
                        y: vertical.apply_exec(self.speed),
                    }
                };
                self.position = Vector2 { x: self.position.x + mv.x, y: self.position.y + mv.y };
            },
        }
    }
}

impl AxisSignal {
    /// Whether the axis is active, at run time.
    pub fn is_active_exec(self) -> (b: bool)
        ensures
            b == self.is_active(),
    {
        match self {
            AxisSignal::Neutral => false,
            _ => true,
        }
    }

    /// Applies the axis sign to a step length.
    pub fn apply_exec(self, step: i64) -> (r: i64)
        requires
            0 <= step,
        ensures
            r == self.sign() * step,
            -step <= r <= step,
    {
        proof {
            assert(1 * step == step && (-1) * step == -step && 0 * step == 0)
                by (nonlinear_arith);
        }
        match self {
            AxisSignal::Negative => -step,
            AxisSignal::Neutral => 0,
            AxisSignal::Positive => step,
        }
    }
}

} // verus!
