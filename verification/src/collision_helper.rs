use vstd::prelude::*;

use crate::actor::{clamp_i64, spec_clamp, ColliderBounds, Vec2};
use crate::math_helper::{clamp_coord, div_trunc, lemma_sqrt_floor, lemma_square_ordered, sqrt_floor, COORD_LIMIT};

verus! {

/// Orders the shape pairs for the recursive delegation: a mixed pair is
/// always reduced to the circle-first case.
pub open spec fn shape_rank(c: ColliderBounds) -> int {
    match c {
        ColliderBounds::Circle { .. } => 0,
        ColliderBounds::Rectangle { .. } => 1,
    }
}

/// The center of an absolute rectangle, reconstructed from its edges.
pub open spec fn spec_rect_center(up: int, down: int, left: int, right: int) -> Vec2 {
    Vec2 { x: div_trunc(left + right, 2) as i64, y: div_trunc(up + down, 2) as i64 }
}

/// The minimum-translation direction between two shapes.
///
/// Circle against rectangle: the circle's center minus the rectangle's
/// point nearest to it. A mixed pair in the other order delegates without
/// negating, as the callers expect. Two rectangles: the difference of the
/// two nearest points, one on each rectangle, found by clamping the other
/// rectangle's center into it. Two circles: the center difference.
pub open spec fn spec_separation_vec(c1: ColliderBounds, c2: ColliderBounds) -> Vec2
    decreases shape_rank(c1),
{
    match c1 {
        ColliderBounds::Circle { radius: _, center } => match c2 {
            ColliderBounds::Rectangle { up, down, left, right } => {
                let nearest = Vec2 {
                    x: spec_clamp(center.x as int, left as int, right as int) as i64,
                    y: spec_clamp(center.y as int, up as int, down as int) as i64,
                };
                center.spec_minus(nearest)
            },
            ColliderBounds::Circle { radius: _, center: center2 } => center.spec_minus(center2),
        },
        ColliderBounds::Rectangle { up, down, left, right } => match c2 {
            ColliderBounds::Rectangle { up: up2, down: down2, left: left2, right: right2 } => {
                let center = spec_rect_center(up as int, down as int, left as int, right as int);
                let center2 = spec_rect_center(up2 as int, down2 as int, left2 as int, right2 as int);
                let nearest = Vec2 {
                    x: spec_clamp(center.x as int, left2 as int, right2 as int) as i64,
                    y: spec_clamp(center.y as int, up2 as int, down2 as int) as i64,
                };
                let nearest2 = Vec2 {
                    x: spec_clamp(center2.x as int, left as int, right as int) as i64,
                    y: spec_clamp(center2.y as int, up as int, down as int) as i64,
                };
                nearest.spec_minus(nearest2)
            },
            ColliderBounds::Circle { .. } => spec_separation_vec(c2, c1),
        },
    }
}

/// True iff the shapes overlap, touching included.
///
/// A circle overlaps another shape iff the squared length of their
/// separation vector is at most the squared radius (for two circles, the
/// squared sum of radii). Two rectangles overlap iff both their x and
/// their y intervals overlap, as closed intervals.
pub open spec fn spec_collides(c1: ColliderBounds, c2: ColliderBounds) -> bool
    decreases shape_rank(c1),
{
    match c1 {
        ColliderBounds::Circle { radius, center: _ } => match c2 {
            ColliderBounds::Rectangle { .. } => {
                spec_separation_vec(c1, c2).spec_len_sq() <= radius * radius
            },
            ColliderBounds::Circle { radius: radius2, center: _ } => {
                spec_separation_vec(c1, c2).spec_len_sq() <= (radius + radius2) * (radius + radius2)
            },
        },
        ColliderBounds::Rectangle { up, down, left, right } => match c2 {
            ColliderBounds::Rectangle { up: up2, down: down2, left: left2, right: right2 } => {
                !(right < left2 || left > right2 || up > down2 || down < up2)
            },
            ColliderBounds::Circle { .. } => spec_collides(c2, c1),
        },
    }
}

/// The signed distance between the shapes: negative means they overlap by
/// that depth. Circle against rectangle: the distance from the center to
/// the nearest point, minus the radius; two circles: the center distance
/// minus both radii. Undefined for two rectangles, which no caller needs.
pub open spec fn spec_separation(c1: ColliderBounds, c2: ColliderBounds) -> int
    decreases shape_rank(c1),
{
    match c1 {
        ColliderBounds::Circle { radius, center: _ } => match c2 {
            ColliderBounds::Rectangle { .. } => {
                sqrt_floor(spec_separation_vec(c1, c2).spec_len_sq()) - radius
            },
            ColliderBounds::Circle { radius: radius2, center: _ } => {
                sqrt_floor(spec_separation_vec(c1, c2).spec_len_sq()) - radius - radius2
            },
        },
        ColliderBounds::Rectangle { .. } => match c2 {
            ColliderBounds::Circle { .. } => spec_separation(c2, c1),
            ColliderBounds::Rectangle { .. } => 0,
        },
    }
}

pub fn collides(c1: ColliderBounds, c2: ColliderBounds) -> (r: bool)
    requires
        c1.wf(),
        c2.wf(),
    ensures
        r == spec_collides(c1, c2),
    decreases shape_rank(c1),
{
    match c1 {
        ColliderBounds::Circle { radius, center } => match c2 {
            ColliderBounds::Rectangle { up, down, left, right } => {
                let nearest_x = clamp_i64(center.x, left, right);
                let nearest_y = clamp_i64(center.y, up, down);
                let sep = center.minus(Vec2 { x: nearest_x, y: nearest_y });
                let d2 = sep.length_squared();
                proof {
                    lemma_square_ordered(radius as int, COORD_LIMIT as int);
                }
                let rr = (radius as u128) * (radius as u128);
                rr >= d2
            },
            ColliderBounds::Circle { radius: radius2, center: center2 } => {
                let sep = center.minus(center2);
                let d2 = sep.length_squared();
                let rsum = radius + radius2;
                proof {
                    lemma_square_ordered(rsum as int, 2 * COORD_LIMIT as int);
                }
                let rr = (rsum as u128) * (rsum as u128);
                rr >= d2
            },
        },
        ColliderBounds::Rectangle { up, down, left, right } => match c2 {
            ColliderBounds::Rectangle { up: up2, down: down2, left: left2, right: right2 } => {
                !(right < left2 || left > right2 || up > down2 || down < up2)
            },
            ColliderBounds::Circle { .. } => collides(c2, c1),
        },
    }
}

/// The midpoint of two edge coordinates, truncated toward zero.
fn mid_i64(lo: i64, hi: i64) -> (r: i64)
    requires
        -COORD_LIMIT <= lo <= COORD_LIMIT,
        -COORD_LIMIT <= hi <= COORD_LIMIT,
    ensures
        r == div_trunc(lo + hi, 2),
        -COORD_LIMIT <= r <= COORD_LIMIT,
{
    let s: i128 = (lo as i128) + (hi as i128);
    if s >= 0 {
        ((s as u128) / 2) as i64
    } else {
        -((((-s) as u128) / 2) as i64)
    }
}

pub fn separation_vec(c1: ColliderBounds, c2: ColliderBounds) -> (r: Vec2)
    requires
        c1.wf(),
        c2.wf(),
    ensures
        r == spec_separation_vec(c1, c2),
        r.in_range(),
    decreases shape_rank(c1),
{
    match c1 {
        ColliderBounds::Circle { radius: _, center } => match c2 {
            ColliderBounds::Rectangle { up, down, left, right } => {
                let nearest = Vec2 {
                    x: clamp_i64(center.x, left, right),
                    y: clamp_i64(center.y, up, down),
                };
                center.minus(nearest)
            },
            ColliderBounds::Circle { radius: _, center: center2 } => center.minus(center2),
        },
        ColliderBounds::Rectangle { up, down, left, right } => match c2 {
            ColliderBounds::Rectangle { up: up2, down: down2, left: left2, right: right2 } => {
                let center = Vec2 { x: mid_i64(left, right), y: mid_i64(up, down) };
                let center2 = Vec2 { x: mid_i64(left2, right2), y: mid_i64(up2, down2) };
                let nearest = Vec2 {
                    x: clamp_i64(center.x, left2, right2),
                    y: clamp_i64(center.y, up2, down2),
                };
                let nearest2 = Vec2 {
                    x: clamp_i64(center2.x, left, right),
                    y: clamp_i64(center2.y, up, down),
                };
                nearest.minus(nearest2)
            },
            ColliderBounds::Circle { .. } => separation_vec(c2, c1),
        },
    }
}

pub fn separation(c1: ColliderBounds, c2: ColliderBounds) -> (r: i64)
    requires
        c1.wf(),
        c2.wf(),
        !(c1 is Rectangle && c2 is Rectangle),
    ensures
        r == spec_separation(c1, c2),
    decreases shape_rank(c1),
{
    match c1 {
        ColliderBounds::Circle { radius, center: _ } => {
            let v = separation_vec(c1, c2);
            let len = v.length();
            proof {
                lemma_length_fits(v, len as int);
            }
            match c2 {
                ColliderBounds::Rectangle { .. } => (len as i64) - radius,
                ColliderBounds::Circle { radius: radius2, center: _ } => {
                    (len as i64) - radius - radius2
                },
            }
        },
        ColliderBounds::Rectangle { .. } => match c2 {
            ColliderBounds::Circle { .. } => separation(c2, c1),
            ColliderBounds::Rectangle { .. } => {
                proof {
                    assert(false);
                }
                0
            },
        },
    }
}

/// The floor length of an in-range vector stays well inside `i64`.
pub proof fn lemma_length_fits(v: Vec2, len: int)
    requires
        v.in_range(),
        crate::math_helper::is_sqrt_floor(v.spec_len_sq(), len),
    ensures
        0 <= len < 2 * COORD_LIMIT,
{
    assert(v.spec_len_sq() <= 2 * (COORD_LIMIT as int) * (COORD_LIMIT as int)
        && v.spec_len_sq() >= 0) by (nonlinear_arith)
        requires
            v.in_range(),
    ;
    if len >= 2 * COORD_LIMIT {
        lemma_square_ordered(2 * COORD_LIMIT as int, len);
        assert((2 * COORD_LIMIT as int) * (2 * COORD_LIMIT as int)
            > 2 * (COORD_LIMIT as int) * (COORD_LIMIT as int)) by (nonlinear_arith);
        assert(false);
    }
}

/// The reconstructed center of a rectangle's bounds is its position:
/// truncating division halves the doubled coordinate exactly.
pub proof fn lemma_half_of_double(x: int)
    ensures
        div_trunc(2 * x, 2) == x,
{
    if x >= 0 {
        vstd::arithmetic::div_mod::lemma_div_multiples_vanish(x, 2);
    } else {
        vstd::arithmetic::div_mod::lemma_div_multiples_vanish(-x, 2);
        assert(-(2 * x) == 2 * (-x));
    }
}

/// `collides` is symmetric in its two shapes.
pub proof fn lemma_collides_symmetric(a: ColliderBounds, b: ColliderBounds)
    requires
        a.wf(),
        b.wf(),
    ensures
        spec_collides(a, b) == spec_collides(b, a),
{
    lemma_separation_vec_antisymmetric_len(a, b);
}

/// The two orderings of a shape pair give separation vectors of equal
/// squared length.
proof fn lemma_separation_vec_antisymmetric_len(a: ColliderBounds, b: ColliderBounds)
    requires
        a.wf(),
        b.wf(),
    ensures
        spec_separation_vec(a, b).spec_len_sq() == spec_separation_vec(b, a).spec_len_sq(),
{
    match (a, b) {
        (ColliderBounds::Circle { radius: _, center: c1 }, ColliderBounds::Circle { radius: _, center: c2 }) => {
            lemma_minus_antisymmetric(c1, c2);
            lemma_neg_len_sq(c1.spec_minus(c2), c2.spec_minus(c1));
        },
        (ColliderBounds::Rectangle { .. }, ColliderBounds::Rectangle { .. }) => {
            lemma_rect_rect_vec_antisymmetric(a, b);
        },
        _ => {},
    }
}

/// Swapping the rectangles negates the rectangle-rectangle separation vector.
proof fn lemma_rect_rect_vec_antisymmetric(a: ColliderBounds, b: ColliderBounds)
    requires
        a.wf(),
        b.wf(),
        a is Rectangle,
        b is Rectangle,
    ensures
        spec_separation_vec(a, b).spec_len_sq() == spec_separation_vec(b, a).spec_len_sq(),
{
    let va = spec_separation_vec(a, b);
    let vb = spec_separation_vec(b, a);
    match (a, b) {
        (ColliderBounds::Rectangle { up, down, left, right }, ColliderBounds::Rectangle { up: up2, down: down2, left: left2, right: right2 }) => {
            let center = spec_rect_center(up as int, down as int, left as int, right as int);
            let center2 = spec_rect_center(up2 as int, down2 as int, left2 as int, right2 as int);
            let nearest = Vec2 {
                x: spec_clamp(center.x as int, left2 as int, right2 as int) as i64,
                y: spec_clamp(center.y as int, up2 as int, down2 as int) as i64,
            };
            let nearest2 = Vec2 {
                x: spec_clamp(center2.x as int, left as int, right as int) as i64,
                y: spec_clamp(center2.y as int, up as int, down as int) as i64,
            };
            assert(va == nearest.spec_minus(nearest2));
            assert(vb == nearest2.spec_minus(nearest));
            lemma_minus_antisymmetric(nearest, nearest2);
            lemma_neg_len_sq(nearest.spec_minus(nearest2), nearest2.spec_minus(nearest));
        },
        _ => {},
    }
}

/// `u ⊖ v` is the componentwise negation of `v ⊖ u`.
proof fn lemma_minus_antisymmetric(u: Vec2, v: Vec2)
    ensures
        u.spec_minus(v).x == -v.spec_minus(u).x,
        u.spec_minus(v).y == -v.spec_minus(u).y,
{
    assert(clamp_coord(u.x - v.x) == -clamp_coord(v.x - u.x));
    assert(clamp_coord(u.y - v.y) == -clamp_coord(v.y - u.y));
}

/// Negating both components preserves the squared length.
proof fn lemma_neg_len_sq(u: Vec2, v: Vec2)
    requires
        u.x == -v.x,
        u.y == -v.y,
    ensures
        u.spec_len_sq() == v.spec_len_sq(),
{
    assert((u.x as int) * (u.x as int) == (v.x as int) * (v.x as int)) by (nonlinear_arith)
        requires
            u.x == -v.x,
    ;
    assert((u.y as int) * (u.y as int) == (v.y as int) * (v.y as int)) by (nonlinear_arith)
        requires
            u.y == -v.y,
    ;
}

/// A circle whose center lies inside a rectangle's bounds overlaps it
/// with the full radius as penetration depth: the separation is exactly
/// `-radius`, and negative whenever the radius is positive.
pub proof fn lemma_circle_inside_rect_separation(c: ColliderBounds, r: ColliderBounds)
    requires
        c.wf(),
        r.wf(),
        c matches ColliderBounds::Circle { radius, center } && radius > 0
            && (r matches ColliderBounds::Rectangle { up, down, left, right }
                && left <= center.x <= right && up <= center.y <= down),
    ensures
        spec_separation(c, r) == -(c->Circle_radius as int),
        spec_separation(c, r) < 0,
{
    let v = spec_separation_vec(c, r);
    assert(v.x == 0 && v.y == 0);
    assert(v.spec_len_sq() == 0);
    lemma_sqrt_floor(0, 0);
}

/// Two rectangles that share exactly one edge point — touching corner to
/// corner — are reported as colliding: the intervals are closed.
pub proof fn lemma_touching_rects_collide(a: ColliderBounds, b: ColliderBounds)
    requires
        a.wf(),
        b.wf(),
        a matches ColliderBounds::Rectangle { up, down, left, right }
            && (b matches ColliderBounds::Rectangle { up: up2, down: down2, left: left2, right: right2 }
                && right == left2 && down == up2),
    ensures
        spec_collides(a, b),
{
}

} // verus!
