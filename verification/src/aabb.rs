//! Points, directions and axis-aligned bounding boxes on the fixed-point grid.

use vstd::prelude::*;

verus! {

/// Thousandths per world unit.
pub const UNIT: i32 = 1000;

/// Length of a `Direction` that points along one axis.
pub const DIRECTION_SCALE: i32 = 1000;

/// The square of `DIRECTION_SCALE`: the length of a vector is taken in
/// thousandths of a thousandth before a heading is cut from it, so that the
/// rounding of the length costs less than the rounding of the components.
pub const HEADING_PRECISION: u64 = 1_000_000;

/// Forgiveness margin of `AABB::contains_point`: five world units.
pub const POINT_MARGIN: i64 = 5000;

/// A position on the grid, in thousandths of a world unit.
#[derive(Clone, Copy, Debug, PartialEq, Eq, Structural)]
pub struct Point {
    pub x: i32,
    pub y: i32,
}

/// A heading: a vector whose length is `DIRECTION_SCALE`, give or take two
/// thousandths for the rounding of its components to whole thousandths.
#[derive(Clone, Copy, Debug, PartialEq, Eq, Structural)]
pub struct Direction {
    pub x: i32,
    pub y: i32,
}

/// The coordinate nearest to `v` that a `Point` can hold.
pub open spec fn clamp_coord(v: int) -> int {
    if v < i32::MIN as int {
        i32::MIN as int
    } else if v > i32::MAX as int {
        i32::MAX as int
    } else {
        v
    }
}

/// Squared straight-line distance between two points.
pub open spec fn dist_squared(a: Point, b: Point) -> int {
    (a.x - b.x) * (a.x - b.x) + (a.y - b.y) * (a.y - b.y)
}

/// `r` is the integer square root of `n`, rounded down.
pub open spec fn is_sqrt_floor(n: int, r: int) -> bool {
    0 <= r && r * r <= n && n < (r + 1) * (r + 1)
}

/// The integer square root of `n`, rounded down.
pub open spec fn sqrt_floor(n: int) -> int {
    choose|r: int| is_sqrt_floor(n, r)
}

/// `v * num / den`, rounded toward zero, for `num >= 0` and `den > 0`.
pub open spec fn scale_toward_zero(v: int, num: int, den: int) -> int {
    if v >= 0 {
        (v * num) / den
    } else {
        -(((-v) * num) / den)
    }
}

/// The length of the vector `(dx, dy)` in thousandths of a thousandth, rounded down.
pub open spec fn fine_length(dx: int, dy: int) -> int {
    sqrt_floor((dx * dx + dy * dy) * HEADING_PRECISION)
}

/// The heading of the vector `(dx, dy)`, which is not the zero vector: each
/// component divided by the length of the vector, in thousandths, rounded
/// toward zero.
pub open spec fn heading(dx: int, dy: int) -> Direction {
    let len = fine_length(dx, dy);
    Direction {
        x: scale_toward_zero(dx, HEADING_PRECISION as int, len) as i32,
        y: scale_toward_zero(dy, HEADING_PRECISION as int, len) as i32,
    }
}

/// Where `p` lands after moving `magnitude` thousandths along `dir`.
pub open spec fn displaced(p: Point, dir: Direction, magnitude: int) -> Point {
    Point {
        x: clamp_coord(p.x + scale_toward_zero(dir.x as int, magnitude, DIRECTION_SCALE as int)) as i32,
        y: clamp_coord(p.y + scale_toward_zero(dir.y as int, magnitude, DIRECTION_SCALE as int)) as i32,
    }
}

/// At most one number is the rounded-down square root of `n`.
pub proof fn lemma_sqrt_floor_unique(n: int, r: int)
    requires
        is_sqrt_floor(n, r),
    ensures
        sqrt_floor(n) == r,
{
    let s = sqrt_floor(n);
    assert(is_sqrt_floor(n, s));
    assert(s == r) by (nonlinear_arith)
        requires
            0 <= r,
            0 <= s,
            r * r <= n,
            n < (r + 1) * (r + 1),
            s * s <= n,
            n < (s + 1) * (s + 1),
    ;
}

/// Every number that is not negative has a rounded-down square root.
pub proof fn lemma_sqrt_floor_exists(n: int)
    requires
        n >= 0,
    ensures
        is_sqrt_floor(n, sqrt_floor(n)),
    decreases n,
{
    if n == 0 {
        assert(is_sqrt_floor(0, 0));
    } else {
        lemma_sqrt_floor_exists(n - 1);
        let r = sqrt_floor(n - 1);
        if n < (r + 1) * (r + 1) {
            assert(is_sqrt_floor(n, r));
        } else {
            assert(is_sqrt_floor(n, r + 1)) by (nonlinear_arith)
                requires
                    0 <= r,
                    n - 1 < (r + 1) * (r + 1),
                    n >= (r + 1) * (r + 1),
            ;
        }
    }
}

/// What the rounded-down quotient `q` of `a * HEADING_PRECISION` by `len`
/// is good for, where `a` is one side of a vector whose fine length is `len`.
proof fn lemma_component(a: int, len: int, n: int, q: int)
    requires
        0 <= a,
        a * a <= n,
        1 <= n,
        is_sqrt_floor(n * 1_000_000, len),
        q == (a * 1_000_000) / len,
    ensures
        len >= 1000,
        a * 1000 <= len,
        0 <= q <= 1000,
        q * len <= a * 1_000_000,
        a * 1_000_000 < (q + 1) * len,
        a * a == n ==> q == 1000,
{
    assert(len >= 1000) by (nonlinear_arith)
        requires
            n >= 1,
            0 <= len,
            n * 1_000_000 < (len + 1) * (len + 1),
    ;
    assert(a * 1000 <= len) by (nonlinear_arith)
        requires
            0 <= a,
            0 <= len,
            a * a <= n,
            n * 1_000_000 < (len + 1) * (len + 1),
    ;
    vstd::arithmetic::div_mod::lemma_fundamental_div_mod(a * 1_000_000, len);
    vstd::arithmetic::div_mod::lemma_mod_bound(a * 1_000_000, len);
    assert(q * len <= a * 1_000_000 && a * 1_000_000 < (q + 1) * len) by (nonlinear_arith)
        requires
            a * 1_000_000 == len * q + (a * 1_000_000) % len,
            0 <= (a * 1_000_000) % len < len,
    ;
    assert(0 <= q <= 1000) by (nonlinear_arith)
        requires
            q * len <= a * 1_000_000,
            a * 1_000_000 < (q + 1) * len,
            a * 1000 <= len,
            0 <= a,
            len >= 1000,
    ;
    if a * a == n {
        assert(len == a * 1000) by (nonlinear_arith)
            requires
                0 <= a,
                0 <= len,
                len * len <= n * 1_000_000,
                n * 1_000_000 < (len + 1) * (len + 1),
                a * a == n,
        ;
        assert(q == 1000) by (nonlinear_arith)
            requires
                q * len <= a * 1_000_000,
                a * 1_000_000 < (q + 1) * len,
                len == a * 1000,
                len >= 1000,
        ;
    }
}

/// The squares of two rounded components add up to the square of the unit
/// length, give or take the rounding.
proof fn lemma_components_make_a_unit(a: int, b: int, len: int, x: int, y: int)
    requires
        0 <= a,
        0 <= b,
        is_sqrt_floor((a * a + b * b) * 1_000_000, len),
        len >= 1000,
        0 <= x <= 1000,
        0 <= y <= 1000,
        x * len <= a * 1_000_000,
        a * 1_000_000 < (x + 1) * len,
        y * len <= b * 1_000_000,
        b * 1_000_000 < (y + 1) * len,
    ensures
        998 * 998 <= x * x + y * y <= 1001 * 1001,
{
    let n = a * a + b * b;
    let q = x * x + y * y;
    // from above: the components are rounded down and the length is at most a thousandth short
    assert((x * len) * (x * len) <= (a * 1_000_000) * (a * 1_000_000)) by (nonlinear_arith)
        requires
            0 <= x * len <= a * 1_000_000,
    ;
    assert((y * len) * (y * len) <= (b * 1_000_000) * (b * 1_000_000)) by (nonlinear_arith)
        requires
            0 <= y * len <= b * 1_000_000,
    ;
    assert(0 <= x * len && 0 <= y * len) by (nonlinear_arith)
        requires
            0 <= x,
            0 <= y,
            0 <= len,
    ;
    assert(q * (len * len) <= (n * 1_000_000) * 1_000_000) by (nonlinear_arith)
        requires
            q == x * x + y * y,
            n == a * a + b * b,
            (x * len) * (x * len) <= (a * 1_000_000) * (a * 1_000_000),
            (y * len) * (y * len) <= (b * 1_000_000) * (b * 1_000_000),
    ;
    assert(q < 1001 * 1001) by (nonlinear_arith)
        requires
            q * (len * len) <= (n * 1_000_000) * 1_000_000,
            n * 1_000_000 < (len + 1) * (len + 1),
            len >= 1000,
            q >= 0,
    ;
    // from below: one more on each component is beyond the unit length
    assert(((x + 1) * len) * ((x + 1) * len) > (a * 1_000_000) * (a * 1_000_000) || a == 0)
        by (nonlinear_arith)
        requires
            0 <= a,
            a * 1_000_000 < (x + 1) * len,
    ;
    assert(((y + 1) * len) * ((y + 1) * len) > (b * 1_000_000) * (b * 1_000_000) || b == 0)
        by (nonlinear_arith)
        requires
            0 <= b,
            b * 1_000_000 < (y + 1) * len,
    ;
    assert(((x + 1) * len) * ((x + 1) * len) >= (a * 1_000_000) * (a * 1_000_000))
        by (nonlinear_arith)
        requires
            0 <= a,
            a * 1_000_000 < (x + 1) * len,
    ;
    assert(((y + 1) * len) * ((y + 1) * len) >= (b * 1_000_000) * (b * 1_000_000))
        by (nonlinear_arith)
        requires
            0 <= b,
            b * 1_000_000 < (y + 1) * len,
    ;
    let up = (x + 1) * (x + 1) + (y + 1) * (y + 1);
    assert(up * (len * len) >= (n * 1_000_000) * 1_000_000) by (nonlinear_arith)
        requires
            up == (x + 1) * (x + 1) + (y + 1) * (y + 1),
            n == a * a + b * b,
            ((x + 1) * len) * ((x + 1) * len) >= (a * 1_000_000) * (a * 1_000_000),
            ((y + 1) * len) * ((y + 1) * len) >= (b * 1_000_000) * (b * 1_000_000),
    ;
    assert(up >= 1_000_000) by (nonlinear_arith)
        requires
            up * (len * len) >= (n * 1_000_000) * 1_000_000,
            len * len <= n * 1_000_000,
            len >= 1000,
    ;
    assert(x + y <= 1415) by (nonlinear_arith)
        requires
            x * x + y * y < 1001 * 1001,
            0 <= x,
            0 <= y,
    ;
    assert(up == q + 2 * (x + y) + 2) by (nonlinear_arith)
        requires
            up == (x + 1) * (x + 1) + (y + 1) * (y + 1),
            q == x * x + y * y,
    ;
}

/// A heading is a unit vector in thousandths, up to the rounding of its
/// components: the squares of the components add up to between the squares
/// of 998 and of 1001, no component is longer than `DIRECTION_SCALE`, each
/// points the way its side of the vector points, and a vector along one axis
/// gives the full length on that axis. This holds of every vector but the
/// zero vector, however short.
pub proof fn lemma_heading_is_unit(dx: int, dy: int)
    requires
        dx != 0 || dy != 0,
    ensures
        998 * 998 <= heading(dx, dy).x * heading(dx, dy).x + heading(dx, dy).y * heading(
            dx,
            dy,
        ).y <= 1001 * 1001,
        -DIRECTION_SCALE <= heading(dx, dy).x <= DIRECTION_SCALE,
        -DIRECTION_SCALE <= heading(dx, dy).y <= DIRECTION_SCALE,
        dx >= 0 ==> heading(dx, dy).x >= 0,
        dx <= 0 ==> heading(dx, dy).x <= 0,
        dy >= 0 ==> heading(dx, dy).y >= 0,
        dy <= 0 ==> heading(dx, dy).y <= 0,
        dy == 0 ==> heading(dx, dy).x == if dx > 0 {
            DIRECTION_SCALE as int
        } else {
            -DIRECTION_SCALE
        },
        dx == 0 ==> heading(dx, dy).y == if dy > 0 {
            DIRECTION_SCALE as int
        } else {
            -DIRECTION_SCALE
        },
{
    let a = if dx >= 0 { dx } else { -dx };
    let b = if dy >= 0 { dy } else { -dy };
    let n = dx * dx + dy * dy;
    assert(n == a * a + b * b && n >= 1 && a * a <= n && b * b <= n) by (nonlinear_arith)
        requires
            n == dx * dx + dy * dy,
            a == dx || a == -dx,
            b == dy || b == -dy,
            dx != 0 || dy != 0,
    ;
    assert(n * 1_000_000 >= 0);
    lemma_sqrt_floor_exists(n * 1_000_000);
    let len = fine_length(dx, dy);
    let x = (a * 1_000_000) / len;
    let y = (b * 1_000_000) / len;
    lemma_component(a, len, n, x);
    lemma_component(b, len, n, y);
    lemma_components_make_a_unit(a, b, len, x, y);
    assert(heading(dx, dy).x == if dx >= 0 { x } else { -x });
    assert(heading(dx, dy).y == if dy >= 0 { y } else { -y });
    assert((-x) * (-x) == x * x && (-y) * (-y) == y * y) by (nonlinear_arith);
    if dy == 0 {
        assert(a * a == n) by (nonlinear_arith)
            requires
                n == a * a + b * b,
                b == 0,
        ;
    }
    if dx == 0 {
        assert(b * b == n) by (nonlinear_arith)
            requires
                n == a * a + b * b,
                a == 0,
        ;
    }
}

/// Integer square root, rounded down.
pub fn int_sqrt(n: u128) -> (r: u64)
    ensures
        is_sqrt_floor(n as int, r as int),
        r as int == sqrt_floor(n as int),
{
    let mut lo: u128 = 0;
    let mut hi: u128 = 0x1_0000_0000_0000_0000;
    assert(n < hi * hi) by (nonlinear_arith)
        requires
            hi == 0x1_0000_0000_0000_0000,
            n <= u128::MAX,
    ;
    while hi - lo > 1
        invariant
            lo < hi <= 0x1_0000_0000_0000_0000,
            lo * lo <= n,
            n < hi * hi,
        decreases hi - lo,
    {
        let mid: u128 = lo + (hi - lo) / 2;
        assert(mid * mid <= u128::MAX) by (nonlinear_arith)
            requires
                mid <= 0xFFFF_FFFF_FFFF_FFFF,
        ;
        if mid * mid <= n {
            lo = mid;
        } else {
            hi = mid;
        }
    }
    proof {
        lemma_sqrt_floor_unique(n as int, lo as int);
    }
    lo as u64
}

/// How far, in thousandths, something moves in `delta` milliseconds at
/// `speed` world units per second.
pub fn step_length(speed: u32, delta: u32) -> (len: u64)
    ensures
        len == speed * delta,
{
    assert(speed * delta <= 0xFFFF_FFFF * 0xFFFF_FFFF) by (nonlinear_arith)
        requires
            speed <= 0xFFFF_FFFF,
            delta <= 0xFFFF_FFFF,
    ;
    speed as u64 * delta as u64
}

/// Brings `v` into the range of a coordinate.
pub fn clamp_to_coord(v: i128) -> (r: i32)
    ensures
        r as int == clamp_coord(v as int),
{
    if v < -2147483648 {
        -2147483648
    } else if v > 2147483647 {
        2147483647
    } else {
        v as i32
    }
}

/// `v * num / den` rounded toward zero, on machine integers.
fn scale_component(v: i32, num: u64, den: u64) -> (r: i128)
    requires
        den > 0,
    ensures
        r as int == scale_toward_zero(v as int, num as int, den as int),
        -0x8000_0000 * 0xFFFF_FFFF_FFFF_FFFF <= r <= 0x8000_0000 * 0xFFFF_FFFF_FFFF_FFFF,
{
    if v >= 0 {
        let a: u128 = v as u128;
        assert(a * num <= u128::MAX) by (nonlinear_arith)
            requires
                a <= 0x7FFF_FFFF,
                num <= 0xFFFF_FFFF_FFFF_FFFF,
        ;
        let q: u128 = (a * (num as u128)) / (den as u128);
        assert(q <= a * num) by (nonlinear_arith)
            requires
                q == (a * num) / (den as int),
                den > 0,
                a * num >= 0,
        ;
        assert(a * num <= 0x7FFF_FFFF * 0xFFFF_FFFF_FFFF_FFFF) by (nonlinear_arith)
            requires
                a <= 0x7FFF_FFFF,
                num <= 0xFFFF_FFFF_FFFF_FFFF,
        ;
        q as i128
    } else {
        let a: u128 = (-(v as i64)) as u128;
        assert(a * num <= 0x8000_0000 * 0xFFFF_FFFF_FFFF_FFFF) by (nonlinear_arith)
            requires
                a <= 0x8000_0000,
                num <= 0xFFFF_FFFF_FFFF_FFFF,
        ;
        let q: u128 = (a * (num as u128)) / (den as u128);
        assert(q <= a * num) by (nonlinear_arith)
            requires
                q == (a * num) / (den as int),
                den > 0,
                a * num >= 0,
        ;
        -(q as i128)
    }
}

impl Point {
    pub fn new(x: i32, y: i32) -> (p: Point)
        ensures
            p == (Point { x, y }),
    {
        Point { x, y }
    }

    /// Squared distance to `other`; it fits because coordinates are 32 bits wide.
    pub fn distance_squared(self, other: Point) -> (d: u128)
        ensures
            d as int == dist_squared(self, other),
    {
        let dx: i64 = self.x as i64 - other.x as i64;
        let dy: i64 = self.y as i64 - other.y as i64;
        let ax: u128 = if dx >= 0 { dx as u128 } else { (-dx) as u128 };
        let ay: u128 = if dy >= 0 { dy as u128 } else { (-dy) as u128 };
        assert(ax * ax <= 0xFFFF_FFFF * 0xFFFF_FFFF) by (nonlinear_arith)
            requires
                ax <= 0xFFFF_FFFF,
        ;
        assert(ay * ay <= 0xFFFF_FFFF * 0xFFFF_FFFF) by (nonlinear_arith)
            requires
                ay <= 0xFFFF_FFFF,
        ;
        assert(ax * ax == (self.x - other.x) * (self.x - other.x)) by (nonlinear_arith)
            requires
                ax == self.x - other.x || ax == -(self.x - other.x),
        ;
        assert(ay * ay == (self.y - other.y) * (self.y - other.y)) by (nonlinear_arith)
            requires
                ay == self.y - other.y || ay == -(self.y - other.y),
        ;
        ax * ax + ay * ay
    }

    /// Whether `other` lies within `radius` thousandths of this point, the rim included.
    pub fn within(self, other: Point, radius: u32) -> (b: bool)
        ensures
            b == (dist_squared(self, other) <= radius * radius),
    {
        let r: u128 = radius as u128;
        assert(r * r <= 0xFFFF_FFFF * 0xFFFF_FFFF) by (nonlinear_arith)
            requires
                r <= 0xFFFF_FFFF,
        ;
        self.distance_squared(other) <= r * r
    }

    /// The heading from this point to `target`, or `None` where the two coincide.
    pub fn direction_to(self, target: Point) -> (d: Option<Direction>)
        ensures
            d == if self == target {
                None
            } else {
                Some(heading(target.x - self.x, target.y - self.y))
            },
    {
        if self.x == target.x && self.y == target.y {
            return None;
        }
        let dx: i64 = target.x as i64 - self.x as i64;
        let dy: i64 = target.y as i64 - self.y as i64;
        let d2: u128 = target.distance_squared(self);
        let ghost a: int = if dx >= 0 { dx as int } else { -dx };
        let ghost b: int = if dy >= 0 { dy as int } else { -dy };
        assert(d2 == a * a + b * b && d2 >= 1 && dx * dx <= d2 && dy * dy <= d2 && d2 <= 2
            * 0xFFFF_FFFF * 0xFFFF_FFFF) by (nonlinear_arith)
            requires
                d2 == dx * dx + dy * dy,
                a == dx || a == -dx,
                b == dy || b == -dy,
                0 <= a <= 0xFFFF_FFFF,
                0 <= b <= 0xFFFF_FFFF,
                dx != 0 || dy != 0,
        ;
        let len: u64 = int_sqrt(d2 * 1_000_000);
        let x: i64 = Self::component_of(dx, len, Ghost(d2 as int));
        let y: i64 = Self::component_of(dy, len, Ghost(d2 as int));
        Some(Direction { x: x as i32, y: y as i32 })
    }

    /// `d * HEADING_PRECISION / len` rounded toward zero, for a side `d` of a
    /// vector whose squared length is `n` and whose fine length is `len`.
    fn component_of(d: i64, len: u64, Ghost(n): Ghost<int>) -> (r: i64)
        requires
            -0xFFFF_FFFF <= d <= 0xFFFF_FFFF,
            d * d <= n,
            1 <= n,
            is_sqrt_floor(n * 1_000_000, len as int),
        ensures
            r as int == scale_toward_zero(d as int, HEADING_PRECISION as int, len as int),
            -(DIRECTION_SCALE as int) <= r <= DIRECTION_SCALE as int,
    {
        let a: u64 = if d >= 0 { d as u64 } else { (-d) as u64 };
        assert(a * a == d * d) by (nonlinear_arith)
            requires
                a == d || a == -d,
        ;
        proof {
            lemma_component(a as int, len as int, n, (a * 1_000_000) / (len as int));
        }
        let q: u64 = (a * 1_000_000) / len;
        if d >= 0 {
            q as i64
        } else {
            -(q as i64)
        }
    }

    /// Moves `magnitude` thousandths along `dir`, stopping at the edge of the grid.
    pub fn displace(self, dir: Direction, magnitude: u64) -> (p: Point)
        ensures
            p == displaced(self, dir, magnitude as int),
    {
        let sx: i128 = scale_component(dir.x, magnitude, 1000);
        let sy: i128 = scale_component(dir.y, magnitude, 1000);
        Point { x: clamp_to_coord(self.x as i128 + sx), y: clamp_to_coord(self.y as i128 + sy) }
    }
}

/// An axis-aligned rectangle: the collision shape of every entity.
///
/// The corners are never moved on their own: `change_point` derives all four
/// from a centre and the fixed `width` and `height`.
#[derive(Clone, Copy, Debug, PartialEq, Eq, Structural)]
pub struct AABB {
    pub min_x: i64,
    pub min_y: i64,
    pub max_x: i64,
    pub max_y: i64,
    pub width: u32,
    pub height: u32,
}

impl AABB {
    /// The corners are those of a box of this size centred at `c`.
    pub open spec fn centered_at(self, c: Point) -> bool {
        &&& self.min_x == c.x - self.width / 2
        &&& self.max_x == c.x + self.width / 2
        &&& self.min_y == c.y - self.height / 2
        &&& self.max_y == c.y + self.height / 2
    }

    /// This box, of unchanged size, centred at `c`.
    pub open spec fn moved_to(self, c: Point) -> AABB {
        AABB {
            min_x: (c.x - self.width / 2) as i64,
            max_x: (c.x + self.width / 2) as i64,
            min_y: (c.y - self.height / 2) as i64,
            max_y: (c.y + self.height / 2) as i64,
            width: self.width,
            height: self.height,
        }
    }

    /// The box of the given size centred at `c`.
    pub open spec fn around(c: Point, width: u32, height: u32) -> AABB {
        (AABB { min_x: 0, min_y: 0, max_x: 0, max_y: 0, width, height }).moved_to(c)
    }

    /// The two boxes overlap on both axes; touching edges count.
    pub open spec fn overlaps(self, b: AABB) -> bool {
        !(self.min_x > b.max_x || self.max_x < b.min_x || self.min_y > b.max_y || self.max_y
            < b.min_y)
    }

    /// `p` lies in the box grown by `POINT_MARGIN` on every side, the rim included.
    pub open spec fn covers(self, p: Point) -> bool {
        &&& self.min_x - POINT_MARGIN <= p.x <= self.max_x + POINT_MARGIN
        &&& self.min_y - POINT_MARGIN <= p.y <= self.max_y + POINT_MARGIN
    }

    /// A box of the given size centred at `center`.
    pub fn new(center: Point, width: u32, height: u32) -> (b: AABB)
        ensures
            b == AABB::around(center, width, height),
            b.centered_at(center),
    {
        let mut b = AABB { min_x: 0, min_y: 0, max_x: 0, max_y: 0, width, height };
        b.change_point(center);
        b
    }

    /// Recomputes the corners around the new centre `vec`; the size stays.
    pub fn change_point(&mut self, vec: Point)
        ensures
            *final(self) == old(self).moved_to(vec),
            final(self).centered_at(vec),
    {
        let half_w: i64 = (self.width / 2) as i64;
        let half_h: i64 = (self.height / 2) as i64;
        self.min_y = vec.y as i64 - half_h;
        self.max_y = vec.y as i64 + half_h;
        self.min_x = vec.x as i64 - half_w;
        self.max_x = vec.x as i64 + half_w;
    }

    pub fn aabb_intersects(a: &AABB, b: &AABB) -> (hit: bool)
        ensures
            hit == a.overlaps(*b),
    {
        !(a.min_x > b.max_x || a.max_x < b.min_x || a.min_y > b.max_y || a.max_y < b.min_y)
    }

    pub fn self_aabb_intersects(&self, b: &AABB) -> (hit: bool)
        ensures
            hit == self.overlaps(*b),
    {
        !(self.min_x > b.max_x || self.max_x < b.min_x || self.min_y > b.max_y || self.max_y
            < b.min_y)
    }

    /// Point-in-box test with the forgiveness margin: small, fast projectiles
    /// still hit a box that they would skip over between two ticks.
    pub fn contains_point(&self, point: Point) -> (hit: bool)
        ensures
            hit == self.covers(point),
    {
        let px: i128 = point.x as i128;
        let py: i128 = point.y as i128;
        px + 5000 >= self.min_x as i128 && px - 5000 <= self.max_x as i128 && py + 5000
            >= self.min_y as i128 && py - 5000 <= self.max_y as i128
    }
}

/// Overlap does not depend on the order of the two boxes.
pub proof fn lemma_overlap_symmetric(a: AABB, b: AABB)
    ensures
        a.overlaps(b) == b.overlaps(a),
{
}

/// A box centred at `c` covers `c`, and its extent on each axis is twice the
/// halved size, so recomputing it from the same centre never drifts.
pub proof fn lemma_centered_box(b: AABB, c: Point)
    requires
        b.centered_at(c),
    ensures
        b.covers(c),
        b.overlaps(b),
        b.max_x - b.min_x == 2 * (b.width / 2),
        b.max_y - b.min_y == 2 * (b.height / 2),
{
}

/// The margin is exact: on the rim of the grown box a point is covered, one
/// step beyond it on either axis it is not.
pub proof fn lemma_margin_is_exact(b: AABB, p: Point)
    requires
        b.min_x <= b.max_x,
        b.min_y <= b.max_y,
    ensures
        b.covers(p) <==> (b.min_x - POINT_MARGIN <= p.x <= b.max_x + POINT_MARGIN && b.min_y
            - POINT_MARGIN <= p.y <= b.max_y + POINT_MARGIN),
        p.x == b.min_x - POINT_MARGIN - 1 ==> !b.covers(p),
        p.x == b.max_x + POINT_MARGIN + 1 ==> !b.covers(p),
        p.y == b.min_y - POINT_MARGIN - 1 ==> !b.covers(p),
        p.y == b.max_y + POINT_MARGIN + 1 ==> !b.covers(p),
        (p.x == b.min_x - POINT_MARGIN || p.x == b.max_x + POINT_MARGIN) && b.min_y <= p.y
            <= b.max_y ==> b.covers(p),
        (p.y == b.min_y - POINT_MARGIN || p.y == b.max_y + POINT_MARGIN) && b.min_x <= p.x
            <= b.max_x ==> b.covers(p),
{
}

} // verus!
