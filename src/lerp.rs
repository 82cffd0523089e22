//! Time-boxed linear interpolation between two affine states.
//!
//! Values are fixed-point: one layout unit is `UNIT` steps. Time is a
//! millisecond count read by the caller from its own clock and handed in, so
//! every query here is a pure function of the animator and `now`.
use vstd::arithmetic::div_mod::{
    lemma_div_by_multiple, lemma_div_is_ordered, lemma_div_is_ordered_by_denominator,
    lemma_div_pos_is_pos,
};
use vstd::arithmetic::mul::{lemma_mul_inequality, lemma_mul_nonnegative, lemma_mul_is_commutative};
use vstd::prelude::*;

verus! {

/// Fixed-point steps in one layout unit.
pub const UNIT: i64 = 10_000;

/// How long every transition lasts, in milliseconds.
pub const ANIMATION_MS: u64 = 200;

/// Longest duration an animator may have, in milliseconds.
pub const MAX_DURATION: u64 = 0xffff_ffff;

/// An affine state made of a scale in x and y followed by a shift, every
/// component in fixed-point steps (`UNIT` is 1.0).
#[derive(Clone, Copy, Debug, PartialEq, Eq, Structural)]
pub struct Transform {
    pub scale_x: i64,
    pub scale_y: i64,
    pub shift_x: i64,
    pub shift_y: i64,
    pub shift_z: i64,
}

impl Transform {
    pub open spec fn identity_spec() -> Transform {
        Transform { scale_x: UNIT, scale_y: UNIT, shift_x: 0, shift_y: 0, shift_z: 0 }
    }

    pub open spec fn shift_spec(x: int, y: int, z: int) -> Transform {
        Transform {
            scale_x: UNIT,
            scale_y: UNIT,
            shift_x: x as i64,
            shift_y: y as i64,
            shift_z: z as i64,
        }
    }

    /// The transform that leaves every point where it is.
    pub fn identity() -> (r: Transform)
        ensures
            r == Transform::identity_spec(),
    {
        Transform { scale_x: UNIT, scale_y: UNIT, shift_x: 0, shift_y: 0, shift_z: 0 }
    }

    /// A pure shift by `(x, y, z)` steps.
    pub fn shift(x: i64, y: i64, z: i64) -> (r: Transform)
        ensures
            r == Transform::shift_spec(x as int, y as int, z as int),
    {
        Transform { scale_x: UNIT, scale_y: UNIT, shift_x: x, shift_y: y, shift_z: z }
    }
}

/// `v * s` in fixed-point steps, `s` itself being fixed-point: the product
/// divided by `UNIT`, rounded towards zero.
pub open spec fn scaled(v: int, s: int) -> int {
    if v * s >= 0 {
        (v * s) / (UNIT as int)
    } else {
        -((-(v * s)) / (UNIT as int))
    }
}

/// `outer` applied after `inner`: scales multiply, and the inner shift is
/// scaled by the outer scale before the outer shift is added. Depth is not
/// scaled.
pub open spec fn compose_spec(outer: Transform, inner: Transform) -> Transform {
    Transform {
        scale_x: scaled(outer.scale_x as int, inner.scale_x as int) as i64,
        scale_y: scaled(outer.scale_y as int, inner.scale_y as int) as i64,
        shift_x: (outer.shift_x + scaled(outer.scale_x as int, inner.shift_x as int)) as i64,
        shift_y: (outer.shift_y + scaled(outer.scale_y as int, inner.shift_y as int)) as i64,
        shift_z: (outer.shift_z + inner.shift_z) as i64,
    }
}

/// Every component of `compose_spec(outer, inner)` fits a fixed-point
/// component.
pub open spec fn composable(outer: Transform, inner: Transform) -> bool {
    &&& i64::MIN <= scaled(outer.scale_x as int, inner.scale_x as int) <= i64::MAX
    &&& i64::MIN <= scaled(outer.scale_y as int, inner.scale_y as int) <= i64::MAX
    &&& i64::MIN <= outer.shift_x + scaled(outer.scale_x as int, inner.shift_x as int) <= i64::MAX
    &&& i64::MIN <= outer.shift_y + scaled(outer.scale_y as int, inner.shift_y as int) <= i64::MAX
    &&& i64::MIN <= outer.shift_z + inner.shift_z <= i64::MAX
}

fn scale_component(v: i64, s: i64) -> (r: i128)
    ensures
        r == scaled(v as int, s as int),
        -0x4000_0000_0000_0000_0000_0000_0000_0000 <= r <= 0x4000_0000_0000_0000_0000_0000_0000_0000,
{
    assert(-0x4000_0000_0000_0000_0000_0000_0000_0000int <= (v as int) * (s as int)
        <= 0x4000_0000_0000_0000_0000_0000_0000_0000int) by (nonlinear_arith)
        requires
            -0x8000_0000_0000_0000int <= v <= 0x7fff_ffff_ffff_ffffint,
            -0x8000_0000_0000_0000int <= s <= 0x7fff_ffff_ffff_ffffint,
    ;
    let p: i128 = (v as i128) * (s as i128);
    assert(forall|m: int| m >= 0 ==> 0 <= #[trigger] (m / 10_000) <= m) by {
        assert forall|m: int| m >= 0 implies 0 <= #[trigger] (m / 10_000) <= m by {
            lemma_div_is_ordered_by_denominator(m, 1, 10_000);
            lemma_div_pos_is_pos(m, 10_000);
        }
    }
    if p >= 0 {
        ((p as u128) / (UNIT as u128)) as i128
    } else {
        -(((-p) as u128 / (UNIT as u128)) as i128)
    }
}

impl Transform {
    /// This transform applied after `inner`.
    pub fn compose(&self, inner: &Transform) -> (r: Transform)
        requires
            composable(*self, *inner),
        ensures
            r == compose_spec(*self, *inner),
    {
        let sx = scale_component(self.scale_x, inner.scale_x);
        let sy = scale_component(self.scale_y, inner.scale_y);
        let dx = scale_component(self.scale_x, inner.shift_x);
        let dy = scale_component(self.scale_y, inner.shift_y);
        Transform {
            scale_x: sx as i64,
            scale_y: sy as i64,
            shift_x: (self.shift_x as i128 + dx) as i64,
            shift_y: (self.shift_y as i128 + dy) as i64,
            shift_z: (self.shift_z as i128 + inner.shift_z as i128) as i64,
        }
    }
}

/// The point `p / d` of the way from `b` to `e`, rounded towards `b`.
pub open spec fn blend(b: int, e: int, p: int, d: int) -> int {
    if b <= e {
        b + (e - b) * p / d
    } else {
        b - (b - e) * p / d
    }
}

/// Componentwise `blend` of two transforms.
pub open spec fn blend_transform(a: Transform, b: Transform, p: int, d: int) -> Transform {
    Transform {
        scale_x: blend(a.scale_x as int, b.scale_x as int, p, d) as i64,
        scale_y: blend(a.scale_y as int, b.scale_y as int, p, d) as i64,
        shift_x: blend(a.shift_x as int, b.shift_x as int, p, d) as i64,
        shift_y: blend(a.shift_y as int, b.shift_y as int, p, d) as i64,
        shift_z: blend(a.shift_z as int, b.shift_z as int, p, d) as i64,
    }
}

/// `v` lies on the closed segment between `a` and `b`.
pub open spec fn within(v: int, a: int, b: int) -> bool {
    (a <= v && v <= b) || (b <= v && v <= a)
}

/// `v` lies strictly inside the segment between two distinct ends `a` and `b`.
pub open spec fn strictly_within(v: int, a: int, b: int) -> bool {
    (a < v && v < b) || (b < v && v < a)
}

/// Every component of `v` lies between the matching components of `a` and `b`.
pub open spec fn transform_within(v: Transform, a: Transform, b: Transform) -> bool {
    &&& within(v.scale_x as int, a.scale_x as int, b.scale_x as int)
    &&& within(v.scale_y as int, a.scale_y as int, b.scale_y as int)
    &&& within(v.shift_x as int, a.shift_x as int, b.shift_x as int)
    &&& within(v.shift_y as int, a.shift_y as int, b.shift_y as int)
    &&& within(v.shift_z as int, a.shift_z as int, b.shift_z as int)
}

/// A step of `p / d` along a component that moves from `a` to `b` covers at
/// least one fixed-point step.
pub open spec fn step_resolves(a: int, b: int, p: int, d: int) -> bool {
    if a <= b {
        (b - a) * p >= d
    } else {
        (a - b) * p >= d
    }
}

/// Every component on which `a` and `b` differ moves by at least one
/// fixed-point step after `p` of `d` milliseconds.
pub open spec fn transform_step_resolves(a: Transform, b: Transform, p: int, d: int) -> bool {
    &&& (a.scale_x != b.scale_x ==> step_resolves(a.scale_x as int, b.scale_x as int, p, d))
    &&& (a.scale_y != b.scale_y ==> step_resolves(a.scale_y as int, b.scale_y as int, p, d))
    &&& (a.shift_x != b.shift_x ==> step_resolves(a.shift_x as int, b.shift_x as int, p, d))
    &&& (a.shift_y != b.shift_y ==> step_resolves(a.shift_y as int, b.shift_y as int, p, d))
    &&& (a.shift_z != b.shift_z ==> step_resolves(a.shift_z as int, b.shift_z as int, p, d))
}

/// Every component on which `a` and `b` differ has `v` strictly between them.
pub open spec fn transform_strictly_within(v: Transform, a: Transform, b: Transform) -> bool {
    &&& (a.scale_x != b.scale_x ==> strictly_within(v.scale_x as int, a.scale_x as int, b.scale_x as int))
    &&& (a.scale_y != b.scale_y ==> strictly_within(v.scale_y as int, a.scale_y as int, b.scale_y as int))
    &&& (a.shift_x != b.shift_x ==> strictly_within(v.shift_x as int, a.shift_x as int, b.shift_x as int))
    &&& (a.shift_y != b.shift_y ==> strictly_within(v.shift_y as int, a.shift_y as int, b.shift_y as int))
    &&& (a.shift_z != b.shift_z ==> strictly_within(v.shift_z as int, a.shift_z as int, b.shift_z as int))
}

proof fn lemma_blend_bounds(b: int, e: int, p: int, d: int)
    requires
        0 < d,
        0 <= p <= d,
    ensures
        within(blend(b, e, p, d), b, e),
        p == 0 ==> blend(b, e, p, d) == b,
        p == d ==> blend(b, e, p, d) == e,
        p < d && b != e ==> blend(b, e, p, d) != e,
        step_resolves(b, e, p, d) && b != e ==> blend(b, e, p, d) != b,
{
    let diff = if b <= e { e - b } else { b - e };
    lemma_mul_nonnegative(diff, p);
    lemma_mul_inequality(p, d, diff);
    lemma_mul_is_commutative(p, diff);
    lemma_mul_is_commutative(d, diff);
    lemma_div_is_ordered(diff * p, diff * d, d);
    lemma_div_by_multiple(diff, d);
    lemma_div_pos_is_pos(diff * p, d);
    assert(0 <= (diff * p) / d <= diff);
    if p == 0 {
        assert(diff * p == 0);
    }
    if p < d && diff > 0 {
        // diff * p < diff * d, so the quotient stays below diff
        assert(diff * p < diff * d) by (nonlinear_arith)
            requires
                0 <= p < d,
                diff > 0,
        ;
        assert((diff * p) / d < diff) by (nonlinear_arith)
            requires
                diff * p < diff * d,
                d > 0,
        ;
    }
    if diff * p >= d {
        lemma_div_is_ordered(d, diff * p, d);
        assert(d / d == 1) by (nonlinear_arith)
            requires
                d > 0,
        ;
    }
}

proof fn lemma_blend_transform_bounds(a: Transform, b: Transform, p: int, d: int)
    requires
        0 < d,
        0 <= p <= d,
    ensures
        transform_within(blend_transform(a, b, p, d), a, b),
        p == 0 ==> blend_transform(a, b, p, d) == a,
        p == d ==> blend_transform(a, b, p, d) == b,
        p < d && transform_step_resolves(a, b, p, d) ==> transform_strictly_within(
            blend_transform(a, b, p, d),
            a,
            b,
        ),
{
    lemma_blend_bounds(a.scale_x as int, b.scale_x as int, p, d);
    lemma_blend_bounds(a.scale_y as int, b.scale_y as int, p, d);
    lemma_blend_bounds(a.shift_x as int, b.shift_x as int, p, d);
    lemma_blend_bounds(a.shift_y as int, b.shift_y as int, p, d);
    lemma_blend_bounds(a.shift_z as int, b.shift_z as int, p, d);
}

fn blend_component(b: i64, e: i64, p: u64, d: u64) -> (r: i64)
    requires
        0 < d <= MAX_DURATION,
        p <= d,
    ensures
        r == blend(b as int, e as int, p as int, d as int),
{
    proof {
        lemma_blend_bounds(b as int, e as int, p as int, d as int);
    }
    if b <= e {
        let diff: u128 = (e as i128 - b as i128) as u128;
        assert(diff * (p as u128) <= 0x1_0000_0000_0000_0000u128 * 0x1_0000_0000u128)
            by (nonlinear_arith)
            requires
                diff <= 0x1_0000_0000_0000_0000u128,
                p <= 0x1_0000_0000u128,
        ;
        let step: u128 = diff * (p as u128) / (d as u128);
        (b as i128 + step as i128) as i64
    } else {
        let diff: u128 = (b as i128 - e as i128) as u128;
        assert(diff * (p as u128) <= 0x1_0000_0000_0000_0000u128 * 0x1_0000_0000u128)
            by (nonlinear_arith)
            requires
                diff <= 0x1_0000_0000_0000_0000u128,
                p <= 0x1_0000_0000u128,
        ;
        let step: u128 = diff * (p as u128) / (d as u128);
        (b as i128 - step as i128) as i64
    }
}

/// `min(v, limit)`: progress through a transition never runs past its end.
pub fn clamp(v: u64, limit: u64) -> (r: u64)
    ensures
        r == if v <= limit { v } else { limit },
{
    if v <= limit {
        v
    } else {
        limit
    }
}

/// The transform `progress / duration` of the way from `a` to `b`, with the
/// progress clamped to the duration; rounded towards `a`.
pub fn lerp(a: &Transform, b: &Transform, progress: u64, duration: u64) -> (r: Transform)
    requires
        0 < duration <= MAX_DURATION,
    ensures
        r == blend_transform(
            *a,
            *b,
            if progress <= duration { progress as int } else { duration as int },
            duration as int,
        ),
{
    let p = clamp(progress, duration);
    Transform {
        scale_x: blend_component(a.scale_x, b.scale_x, p, duration),
        scale_y: blend_component(a.scale_y, b.scale_y, p, duration),
        shift_x: blend_component(a.shift_x, b.shift_x, p, duration),
        shift_y: blend_component(a.shift_y, b.shift_y, p, duration),
        shift_z: blend_component(a.shift_z, b.shift_z, p, duration),
    }
}

/// A transition from `begin` to `end` that starts at `start_time` and lasts
/// `duration` milliseconds.
#[derive(Clone, Copy, Debug, PartialEq, Eq, Structural)]
pub struct Lerper {
    pub begin: Transform,
    pub end: Transform,
    pub start_time: u64,
    pub duration: u64,
}

impl Lerper {
    pub open spec fn wf(self) -> bool {
        0 < self.duration <= MAX_DURATION
    }

    /// Milliseconds of the transition that have run at `now`, at most `duration`.
    pub open spec fn progress(self, now: u64) -> int {
        if now <= self.start_time {
            0
        } else if now - self.start_time <= self.duration {
            now - self.start_time
        } else {
            self.duration as int
        }
    }

    /// The interpolated state at `now`.
    pub open spec fn value_at(self, now: u64) -> Transform {
        blend_transform(self.begin, self.end, self.progress(now), self.duration as int)
    }

    /// The transition is still running at `now`.
    pub open spec fn active(self, now: u64) -> bool {
        now < self.start_time + self.duration
    }

    /// This animator after being re-armed towards `target` at `now`: it starts
    /// from the state it shows at `now`.
    pub open spec fn armed(self, target: Transform, now: u64) -> Lerper {
        Lerper { begin: self.value_at(now), end: target, start_time: now, duration: self.duration }
    }

    /// An animator at rest on the identity, with the standard duration.
    pub fn new() -> (r: Lerper)
        ensures
            r.wf(),
            r.begin == Transform::identity_spec(),
            r.end == Transform::identity_spec(),
            r.start_time == 0,
            r.duration == ANIMATION_MS,
    {
        Lerper {
            begin: Transform::identity(),
            end: Transform::identity(),
            start_time: 0,
            duration: ANIMATION_MS,
        }
    }

    /// Makes `end` the next state to move to, starting now from the state
    /// shown at `now`.
    pub fn next(&mut self, end: Transform, now: u64)
        requires
            old(self).wf(),
        ensures
            *final(self) == old(self).armed(end, now),
            final(self).wf(),
    {
        let current = self.lerp(now);
        self.begin = current;
        self.end = end;
        self.start_time = now;
    }

    /// Starts a transition from `begin` to `end` at `now`.
    pub fn set(&mut self, begin: Transform, end: Transform, now: u64)
        requires
            old(self).wf(),
        ensures
            *final(self) == (Lerper { begin, end, start_time: now, duration: old(self).duration }),
    {
        self.begin = begin;
        self.end = end;
        self.start_time = now;
    }

    /// Starts a transition from the current target to the current target
    /// followed by `xform`, at `now`.
    pub fn apply(&mut self, xform: Transform, now: u64)
        requires
            old(self).wf(),
            composable(old(self).end, xform),
        ensures
            *final(self) == (Lerper {
                begin: old(self).end,
                end: compose_spec(old(self).end, xform),
                start_time: now,
                duration: old(self).duration,
            }),
            final(self).wf(),
    {
        self.begin = self.end;
        self.end = self.end.compose(&xform);
        self.start_time = now;
    }

    /// Puts both ends back on the identity.
    pub fn unset(&mut self)
        requires
            old(self).wf(),
        ensures
            *final(self) == (Lerper {
                begin: Transform::identity_spec(),
                end: Transform::identity_spec(),
                ..*old(self)
            }),
    {
        self.begin = Transform::identity();
        self.end = Transform::identity();
    }

    /// The interpolated state at `now`.
    pub fn lerp(&self, now: u64) -> (r: Transform)
        requires
            self.wf(),
        ensures
            r == self.value_at(now),
    {
        let elapsed: u64 = if now <= self.start_time {
            0
        } else {
            now - self.start_time
        };
        lerp(&self.begin, &self.end, elapsed, self.duration)
    }

    /// Whether the transition is still running at `now`.
    pub fn is_active(&self, now: u64) -> (r: bool)
        ensures
            r == self.active(now),
    {
        now < self.start_time || now - self.start_time < self.duration
    }

    /// Whether the transition has run its course at `now`.
    pub fn is_done(&self, now: u64) -> (r: bool)
        ensures
            r == !self.active(now),
    {
        !self.is_active(now)
    }
}

/// Re-arming converges: after `arm(target)` at `now`, every later sample
/// lies between the state shown at `now` and `target`; one taken after at
/// least one millisecond, while the transition runs, lies strictly between
/// them on every component that moves by at least one fixed-point step in
/// that time; and every sample taken once `duration` has elapsed is `target`
/// exactly.
pub proof fn lemma_arm_converges(l: Lerper, target: Transform, now: u64, later: u64)
    requires
        l.wf(),
        now <= later,
    ensures
        transform_within(l.armed(target, now).value_at(later), l.value_at(now), target),
        later >= now + l.duration ==> l.armed(target, now).value_at(later) == target,
        now < later < now + l.duration && transform_step_resolves(
            l.value_at(now),
            target,
            later - now,
            l.duration as int,
        ) ==> transform_strictly_within(
            l.armed(target, now).value_at(later),
            l.value_at(now),
            target,
        ),
{
    let a = l.armed(target, now);
    lemma_blend_transform_bounds(a.begin, target, a.progress(later), l.duration as int);
}

/// Re-arming is continuous: the new transition begins at the state shown at
/// the instant of re-arming, and shows that same state at that instant.
pub proof fn lemma_rearm_continuous(l: Lerper, target: Transform, now: u64)
    requires
        l.wf(),
    ensures
        l.armed(target, now).begin == l.value_at(now),
        l.armed(target, now).value_at(now) == l.value_at(now),
{
    lemma_blend_transform_bounds(l.value_at(now), target, 0, l.duration as int);
}

} // verus!
