use vstd::prelude::*;

verus! {

/// Largest magnitude of a coordinate or half extent that the collision test takes.
pub const COORD_LIMIT: i64 = 1_000_000_000_000_000;

/// An axis-aligned box, given by its center and its half extents.
#[derive(Clone, Copy, Debug, PartialEq, Eq, Structural)]
pub struct Aabb {
    pub cx: i64,
    pub cy: i64,
    pub hw: i64,
    pub hh: i64,
}

/// The side of the second box that the first box hit.
#[derive(Clone, Copy, Debug, PartialEq, Eq, Structural)]
pub enum Collision {
    Left,
    Right,
    Top,
    Bottom,
}

impl Aabb {
    /// Center and half extents are all within the collision test's range.
    pub open spec fn in_range(self) -> bool {
        -COORD_LIMIT <= self.cx <= COORD_LIMIT && -COORD_LIMIT <= self.cy <= COORD_LIMIT && 0
            <= self.hw <= COORD_LIMIT && 0 <= self.hh <= COORD_LIMIT
    }

    pub open spec fn min_x(self) -> int {
        self.cx - self.hw
    }

    pub open spec fn max_x(self) -> int {
        self.cx + self.hw
    }

    pub open spec fn min_y(self) -> int {
        self.cy - self.hh
    }

    pub open spec fn max_y(self) -> int {
        self.cy + self.hh
    }
}

/// The two boxes overlap with positive area.
pub open spec fn overlaps(a: Aabb, b: Aabb) -> bool {
    a.min_x() < b.max_x() && a.max_x() > b.min_x() && a.min_y() < b.max_y() && a.max_y() > b.min_y()
}

/// `a` straddles the left edge of `b` without reaching past its right edge.
pub open spec fn enters_left(a: Aabb, b: Aabb) -> bool {
    a.min_x() < b.min_x() && a.max_x() > b.min_x() && a.max_x() < b.max_x()
}

/// `a` straddles the right edge of `b` without reaching past its left edge.
pub open spec fn enters_right(a: Aabb, b: Aabb) -> bool {
    a.min_x() > b.min_x() && a.min_x() < b.max_x() && a.max_x() > b.max_x()
}

/// `a` straddles the bottom edge of `b` without reaching past its top edge.
pub open spec fn enters_bottom(a: Aabb, b: Aabb) -> bool {
    a.min_y() < b.min_y() && a.max_y() > b.min_y() && a.max_y() < b.max_y()
}

/// `a` straddles the top edge of `b` without reaching past its bottom edge.
pub open spec fn enters_top(a: Aabb, b: Aabb) -> bool {
    a.min_y() > b.min_y() && a.min_y() < b.max_y() && a.max_y() > b.max_y()
}

pub open spec fn abs(x: int) -> int {
    if x < 0 {
        -x
    } else {
        x
    }
}

/// How far `a` reaches into `b` across the vertical edge it straddles.
pub open spec fn x_depth(a: Aabb, b: Aabb) -> int {
    if enters_left(a, b) {
        abs(b.min_x() - a.max_x())
    } else {
        abs(a.min_x() - b.max_x())
    }
}

/// How far `a` reaches into `b` across the horizontal edge it straddles.
pub open spec fn y_depth(a: Aabb, b: Aabb) -> int {
    if enters_bottom(a, b) {
        abs(b.min_y() - a.max_y())
    } else {
        abs(a.min_y() - b.max_y())
    }
}

/// The side of `b` that `a` hit, if they overlap and `a` straddles an edge of `b`.
/// Where `a` straddles both a vertical and a horizontal edge, the shallower
/// penetration decides, ties going to the vertical edge.
pub open spec fn collide_spec(a: Aabb, b: Aabb) -> Option<Collision> {
    if !overlaps(a, b) {
        None
    } else {
        let xc = if enters_left(a, b) {
            Some(Collision::Left)
        } else if enters_right(a, b) {
            Some(Collision::Right)
        } else {
            None
        };
        let yc = if enters_bottom(a, b) {
            Some(Collision::Bottom)
        } else if enters_top(a, b) {
            Some(Collision::Top)
        } else {
            None
        };
        match (xc, yc) {
            (Some(x), Some(y)) => if y_depth(a, b) < x_depth(a, b) {
                Some(y)
            } else {
                Some(x)
            },
            (Some(x), None) => Some(x),
            (None, Some(y)) => Some(y),
            (None, None) => None,
        }
    }
}

fn abs_diff_exec(x: i64, y: i64) -> (r: i64)
    requires
        -4 * COORD_LIMIT <= x <= 4 * COORD_LIMIT,
        -4 * COORD_LIMIT <= y <= 4 * COORD_LIMIT,
    ensures
        r == abs(x - y),
{
    if x < y {
        y - x
    } else {
        x - y
    }
}

/// Tests box `a` against box `b` and reports the side of `b` that `a` hit.
pub fn collide(a: Aabb, b: Aabb) -> (r: Option<Collision>)
    requires
        a.in_range(),
        b.in_range(),
    ensures
        r == collide_spec(a, b),
{
    let a_min_x = a.cx - a.hw;
    let a_max_x = a.cx + a.hw;
    let a_min_y = a.cy - a.hh;
    let a_max_y = a.cy + a.hh;
    let b_min_x = b.cx - b.hw;
    let b_max_x = b.cx + b.hw;
    let b_min_y = b.cy - b.hh;
    let b_max_y = b.cy + b.hh;
    if !(a_min_x < b_max_x && a_max_x > b_min_x && a_min_y < b_max_y && a_max_y > b_min_y) {
        return None;
    }
    let (xc, xd) = if a_min_x < b_min_x && a_max_x > b_min_x && a_max_x < b_max_x {
        (Some(Collision::Left), abs_diff_exec(b_min_x, a_max_x))
    } else if a_min_x > b_min_x && a_min_x < b_max_x && a_max_x > b_max_x {
        (Some(Collision::Right), abs_diff_exec(a_min_x, b_max_x))
    } else {
        (None, 0)
    };
    let (yc, yd) = if a_min_y < b_min_y && a_max_y > b_min_y && a_max_y < b_max_y {
        (Some(Collision::Bottom), abs_diff_exec(b_min_y, a_max_y))
    } else if a_min_y > b_min_y && a_min_y < b_max_y && a_max_y > b_max_y {
        (Some(Collision::Top), abs_diff_exec(a_min_y, b_max_y))
    } else {
        (None, 0)
    };
    match (xc, yc) {
        (Some(x), Some(y)) => if yd < xd {
            Some(y)
        } else {
            Some(x)
        },
        (Some(x), None) => Some(x),
        (None, Some(y)) => Some(y),
        (None, None) => None,
    }
}

} // verus!
