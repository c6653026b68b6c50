use vstd::prelude::*;

verus! {

/// A 5×5 bitmap for the LED matrix, row-major, 1 meaning lit.
pub type Glyph = [[u8; 5]; 5];

pub const NORTH: Glyph = [
    [1, 0, 0, 0, 1],
    [1, 1, 0, 0, 1],
    [1, 0, 1, 0, 1],
    [1, 0, 0, 1, 1],
    [1, 0, 0, 0, 1],
];

pub const NORTH_EAST: Glyph = [
    [0, 0, 0, 0, 1],
    [0, 0, 0, 1, 0],
    [0, 0, 1, 0, 0],
    [0, 0, 0, 0, 0],
    [0, 0, 0, 0, 0],
];

pub const NORTH_WEST: Glyph = [
    [1, 0, 0, 0, 0],
    [0, 1, 0, 0, 0],
    [0, 0, 1, 0, 0],
    [0, 0, 0, 0, 0],
    [0, 0, 0, 0, 0],
];

pub const SOUTH: Glyph = [
    [1, 1, 1, 1, 1],
    [1, 0, 0, 0, 0],
    [1, 1, 1, 1, 1],
    [0, 0, 0, 0, 1],
    [1, 1, 1, 1, 1],
];

pub const SOUTH_EAST: Glyph = [
    [0, 0, 0, 0, 0],
    [0, 0, 0, 0, 0],
    [0, 0, 1, 0, 0],
    [0, 0, 0, 1, 0],
    [0, 0, 0, 0, 1],
];

pub const SOUTH_WEST: Glyph = [
    [0, 0, 0, 0, 0],
    [0, 0, 0, 0, 0],
    [0, 0, 1, 0, 0],
    [0, 1, 0, 0, 0],
    [1, 0, 0, 0, 0],
];

pub const EAST: Glyph = [
    [1, 1, 1, 1, 1],
    [1, 0, 0, 0, 0],
    [1, 1, 1, 1, 0],
    [1, 0, 0, 0, 0],
    [1, 1, 1, 1, 1],
];

pub const WEST: Glyph = [
    [1, 0, 0, 0, 1],
    [1, 0, 0, 0, 1],
    [1, 0, 1, 0, 1],
    [0, 1, 0, 1, 0],
    [0, 1, 0, 1, 0],
];

/// One of the eight compass sectors, carrying the glyph that shows it.
#[derive(Clone, Copy, Debug, PartialEq, Eq)]
pub enum Direction {
    North(Glyph),
    NorthEast(Glyph),
    NorthWest(Glyph),
    South(Glyph),
    SouthEast(Glyph),
    SouthWest(Glyph),
    East(Glyph),
    West(Glyph),
}

/// The direction of sector `k`, counting clockwise on the compass rose from
/// North = 0 (NorthEast = 1, East = 2, ..., NorthWest = 7).
pub open spec fn direction_for(k: int) -> Direction {
    if k == 0 {
        Direction::North(NORTH)
    } else if k == 1 {
        Direction::NorthEast(NORTH_EAST)
    } else if k == 2 {
        Direction::East(EAST)
    } else if k == 3 {
        Direction::SouthEast(SOUTH_EAST)
    } else if k == 4 {
        Direction::South(SOUTH)
    } else if k == 5 {
        Direction::SouthWest(SOUTH_WEST)
    } else if k == 6 {
        Direction::West(WEST)
    } else {
        Direction::NorthWest(NORTH_WEST)
    }
}

/// The component of the sample (x, y) along the heading at the centre of
/// sector `k`. The compass angle of a sample is its mathematical angle plus
/// 90°, so North points along -y and East along +x; the diagonal headings are
/// (±1, ±1), which scales both components by √2 and changes no comparison
/// made of them below.
pub open spec fn along(x: int, y: int, k: int) -> int {
    if k == 0 {
        -y
    } else if k == 1 {
        x - y
    } else if k == 2 {
        x
    } else if k == 3 {
        x + y
    } else if k == 4 {
        y
    } else if k == 5 {
        y - x
    } else if k == 6 {
        -x
    } else {
        -x - y
    }
}

/// The component of the sample (x, y) across the heading of sector `k`,
/// positive counterclockwise of it.
pub open spec fn across(x: int, y: int, k: int) -> int {
    if k == 0 {
        x
    } else if k == 1 {
        y + x
    } else if k == 2 {
        y
    } else if k == 3 {
        y - x
    } else if k == 4 {
        -x
    } else if k == 5 {
        -y - x
    } else if k == 6 {
        -y
    } else {
        x - y
    }
}

/// The sample (x, y) lies in sector `k`: its angle from the sector's heading
/// lies in [-22.5°, 22.5°).
///
/// With d along the heading and c across it, an angle t lies in
/// [-22.5°, 22.5°) exactly when cos t > 0 and 2t lies in [-45°, 45°), that is
/// when d > 0 and -(d² - c²) <= 2dc < d² - c², since (d² - c², 2dc) is (d, c)
/// with its angle doubled. Both bounds are then integer comparisons.
pub open spec fn in_sector(x: int, y: int, k: int) -> bool {
    0 <= k < 8 && near_heading(along(x, y, k), across(x, y, k))
}

/// The vector (d, c) makes an angle in [-22.5°, 22.5°) with the d axis.
pub open spec fn near_heading(d: int, c: int) -> bool {
    &&& d > 0
    &&& -(d * d - c * c) <= 2 * d * c
    &&& 2 * d * c < d * d - c * c
}

/// The sector of the sample (x, y); the zero vector, which has no angle,
/// counts as East.
pub open spec fn sector_of(x: int, y: int) -> int {
    if x == 0 && y == 0 {
        2
    } else {
        choose|k: int| in_sector(x, y, k)
    }
}

/// The real part of (x + iy)², whose angle is twice that of (x, y).
pub open spec fn doubled_re(x: int, y: int) -> int {
    x * x - y * y
}

/// The imaginary part of (x + iy)².
pub open spec fn doubled_im(x: int, y: int) -> int {
    2 * x * y
}

/// The vector (u, v) lies in quarter `q` of the circle: its angle lies in
/// [q·90° - 45°, q·90° + 45°).
pub open spec fn in_quarter(u: int, v: int, q: int) -> bool {
    if q == 0 {
        -u <= v < u
    } else if q == 1 {
        -v < u <= v
    } else if q == 2 {
        u < v <= -u
    } else {
        v <= u < -v
    }
}

/// The sample lies on the side of the line through the origin that faces
/// the heading of sector `k`.
pub open spec fn facing(x: int, y: int, k: int) -> bool {
    along(x, y, k) > 0
}

/// Sector `k` is the half of a quarter of doubled angles that faces its
/// heading: doubling the angle folds each sector onto its opposite.
pub proof fn lemma_in_sector_by_doubling(x: int, y: int, k: int)
    requires
        0 <= k < 8,
    ensures
        in_sector(x, y, k) == (in_quarter(doubled_re(x, y), doubled_im(x, y), (k + 2) % 4)
            && facing(x, y, k)),
{
    let u = doubled_re(x, y);
    let v = doubled_im(x, y);
    if k == 0 {
        let d = -y;
        let c = x;
        assert(d * d - c * c == -u && 2 * d * c == -v) by (nonlinear_arith)
            requires
                d == -y,
                c == x,
                u == x * x - y * y,
                v == 2 * x * y,
        ;
    } else if k == 1 {
        let d = x - y;
        let c = y + x;
        assert(d * d - c * c == -2 * v && 2 * d * c == 2 * u) by (nonlinear_arith)
            requires
                d == x - y,
                c == y + x,
                u == x * x - y * y,
                v == 2 * x * y,
        ;
    } else if k == 2 {
        let d = x;
        let c = y;
        assert(d * d - c * c == u && 2 * d * c == v) by (nonlinear_arith)
            requires
                d == x,
                c == y,
                u == x * x - y * y,
                v == 2 * x * y,
        ;
    } else if k == 3 {
        let d = x + y;
        let c = y - x;
        assert(d * d - c * c == 2 * v && 2 * d * c == -2 * u) by (nonlinear_arith)
            requires
                d == x + y,
                c == y - x,
                u == x * x - y * y,
                v == 2 * x * y,
        ;
    } else if k == 4 {
        let d = y;
        let c = -x;
        assert(d * d - c * c == -u && 2 * d * c == -v) by (nonlinear_arith)
            requires
                d == y,
                c == -x,
                u == x * x - y * y,
                v == 2 * x * y,
        ;
    } else if k == 5 {
        let d = y - x;
        let c = -y - x;
        assert(d * d - c * c == -2 * v && 2 * d * c == 2 * u) by (nonlinear_arith)
            requires
                d == y - x,
                c == -y - x,
                u == x * x - y * y,
                v == 2 * x * y,
        ;
    } else if k == 6 {
        let d = -x;
        let c = -y;
        assert(d * d - c * c == u && 2 * d * c == v) by (nonlinear_arith)
            requires
                d == -x,
                c == -y,
                u == x * x - y * y,
                v == 2 * x * y,
        ;
    } else {
        let d = -x - y;
        let c = x - y;
        assert(d * d - c * c == 2 * v && 2 * d * c == -2 * u) by (nonlinear_arith)
            requires
                d == -x - y,
                c == x - y,
                u == x * x - y * y,
                v == 2 * x * y,
        ;
    }
}

/// Only the zero vector squares to zero.
proof fn lemma_doubled_zero(x: int, y: int)
    requires
        doubled_re(x, y) == 0,
        doubled_im(x, y) == 0,
    ensures
        x == 0 && y == 0,
{
    assert(x == 0 || y == 0) by (nonlinear_arith)
        requires
            2 * x * y == 0,
    ;
    assert(x == 0 && y == 0) by (nonlinear_arith)
        requires
            x == 0 || y == 0,
            x * x - y * y == 0,
    ;
}

/// The sector as the quarter of the doubled angle and the side of the
/// sample decide it; the zero vector gives East.
pub open spec fn sector_by_doubling(x: int, y: int) -> int {
    let u = doubled_re(x, y);
    let v = doubled_im(x, y);
    if in_quarter(u, v, 0) {
        if x > 0 { 2 } else { 6 }
    } else if in_quarter(u, v, 1) {
        if x + y > 0 { 3 } else { 7 }
    } else if in_quarter(u, v, 2) {
        if y < 0 { 0 } else { 4 }
    } else if in_quarter(u, v, 3) {
        if x > y { 1 } else { 5 }
    } else {
        2
    }
}

/// The nonzero sample (x, y) lies in the sector that `sector_by_doubling`
/// names.
proof fn lemma_sector_exists(x: int, y: int)
    requires
        !(x == 0 && y == 0),
    ensures
        0 <= sector_by_doubling(x, y) < 8,
        in_sector(x, y, sector_by_doubling(x, y)),
{
    let u = doubled_re(x, y);
    let v = doubled_im(x, y);
    if u == 0 && v == 0 {
        lemma_doubled_zero(x, y);
    }
    assert(x * x >= 0 && y * y >= 0) by (nonlinear_arith);
    if in_quarter(u, v, 0) {
        if x == 0 {
            assert(u == -(y * y)) by (nonlinear_arith)
                requires
                    x == 0,
                    u == x * x - y * y,
            ;
        }
        lemma_in_sector_by_doubling(x, y, 2);
        lemma_in_sector_by_doubling(x, y, 6);
    } else if in_quarter(u, v, 1) {
        if x + y == 0 {
            assert(v == -2 * (x * x)) by (nonlinear_arith)
                requires
                    x + y == 0,
                    v == 2 * x * y,
            ;
        }
        lemma_in_sector_by_doubling(x, y, 3);
        lemma_in_sector_by_doubling(x, y, 7);
    } else if in_quarter(u, v, 2) {
        if y == 0 {
            assert(u == x * x) by (nonlinear_arith)
                requires
                    y == 0,
                    u == x * x - y * y,
            ;
        }
        lemma_in_sector_by_doubling(x, y, 0);
        lemma_in_sector_by_doubling(x, y, 4);
    } else {
        if x == y {
            assert(v == 2 * (x * x)) by (nonlinear_arith)
                requires
                    x == y,
                    v == 2 * x * y,
            ;
        }
        lemma_in_sector_by_doubling(x, y, 1);
        lemma_in_sector_by_doubling(x, y, 5);
    }
}

/// No sample lies in two sectors.
proof fn lemma_sector_unique(x: int, y: int, j: int, k: int)
    requires
        in_sector(x, y, j),
        in_sector(x, y, k),
    ensures
        j == k,
{
    let u = doubled_re(x, y);
    let v = doubled_im(x, y);
    lemma_in_sector_by_doubling(x, y, j);
    lemma_in_sector_by_doubling(x, y, k);
    assert(0 <= (j + 2) % 4 < 4 && 0 <= (k + 2) % 4 < 4);
    assert((j + 2) % 4 == (k + 2) % 4);
    assert(j == k || j == k + 4 || k == j + 4);
}

/// The eight sectors split the nonzero samples between them: each such
/// sample lies in exactly one sector, the one that `sector_of` names. A sweep
/// once round the circle therefore passes through eight sectors in turn.
pub proof fn lemma_sectors_partition(x: int, y: int)
    requires
        !(x == 0 && y == 0),
    ensures
        0 <= sector_of(x, y) < 8,
        in_sector(x, y, sector_of(x, y)),
        forall|k: int| #[trigger] in_sector(x, y, k) ==> k == sector_of(x, y),
{
    lemma_sector_exists(x, y);
    let k0 = sector_of(x, y);
    assert(in_sector(x, y, sector_by_doubling(x, y)));
    assert(in_sector(x, y, k0));
    assert forall|k: int| #[trigger] in_sector(x, y, k) implies k == k0 by {
        lemma_sector_unique(x, y, k, k0);
    }
}

/// Scaling a vector by a positive factor keeps its angle.
proof fn lemma_near_heading_scaled(d: int, c: int, s: int)
    requires
        s > 0,
    ensures
        near_heading(s * d, s * c) == near_heading(d, c),
{
    let (sd, sc) = (s * d, s * c);
    assert(sd * sd - sc * sc == (s * s) * (d * d - c * c) && 2 * sd * sc == (s * s) * (2 * d * c))
        by (nonlinear_arith)
        requires
            sd == s * d,
            sc == s * c,
    ;
    assert(s * s > 0) by (nonlinear_arith)
        requires
            s > 0,
    ;
    assert((sd > 0) == (d > 0)) by (nonlinear_arith)
        requires
            sd == s * d,
            s > 0,
    ;
    let m = s * s;
    let (p, q) = (d * d - c * c, 2 * d * c);
    assert((-(m * p) <= m * q) == (-p <= q)) by (nonlinear_arith)
        requires
            m > 0,
    ;
    assert((m * q < m * p) == (q < p)) by (nonlinear_arith)
        requires
            m > 0,
    ;
}

/// Turning the sample 45° counterclockwise (and stretching it by √2, which
/// keeps it integer) carries it into the next sector of the compass rose.
/// With the partition of the samples into sectors this makes every sector a
/// band of exactly 45°: a full turn passes eight bands of equal width, in the
/// order North, NorthEast, East, ..., NorthWest.
pub proof fn lemma_turn_advances_sector(x: int, y: int)
    requires
        !(x == 0 && y == 0),
    ensures
        sector_of(x - y, x + y) == (sector_of(x, y) + 1) % 8,
{
    let k = sector_of(x, y);
    lemma_sectors_partition(x, y);
    let (tx, ty) = (x - y, x + y);
    let n = (k + 1) % 8;
    let s: int = if k % 2 == 0 { 2 } else { 1 };
    assert(along(tx, ty, n) == s * along(x, y, k) && across(tx, ty, n) == s * across(x, y, k));
    lemma_near_heading_scaled(along(x, y, k), across(x, y, k), s);
    assert(in_sector(tx, ty, n));
    lemma_sectors_partition(tx, ty);
}

/// The sector depends on the direction of the sample alone: scaling it by a
/// positive factor keeps its sector.
pub proof fn lemma_scaling_keeps_sector(x: int, y: int, s: int)
    requires
        s > 0,
    ensures
        sector_of(s * x, s * y) == sector_of(x, y),
{
    let (sx, sy) = (s * x, s * y);
    if x == 0 && y == 0 {
        assert(sx == 0 && sy == 0) by (nonlinear_arith)
            requires
                x == 0,
                y == 0,
                sx == s * x,
                sy == s * y,
        ;
    } else {
        assert(!(sx == 0 && sy == 0)) by (nonlinear_arith)
            requires
                !(x == 0 && y == 0),
                s > 0,
                sx == s * x,
                sy == s * y,
        ;
        let k = sector_of(x, y);
        lemma_sectors_partition(x, y);
        assert(along(sx, sy, k) == s * along(x, y, k) && across(sx, sy, k) == s * across(x, y, k))
            by (nonlinear_arith)
            requires
                sx == s * x,
                sy == s * y,
                0 <= k < 8,
        ;
        lemma_near_heading_scaled(along(x, y, k), across(x, y, k), s);
        assert(in_sector(sx, sy, k));
        lemma_sectors_partition(sx, sy);
    }
}

impl Direction {
    pub open spec fn spec_glyph(&self) -> Glyph {
        match self {
            Direction::North(g) => *g,
            Direction::NorthEast(g) => *g,
            Direction::NorthWest(g) => *g,
            Direction::South(g) => *g,
            Direction::SouthEast(g) => *g,
            Direction::SouthWest(g) => *g,
            Direction::East(g) => *g,
            Direction::West(g) => *g,
        }
    }

    /// The glyph that this direction carries.
    #[verifier::when_used_as_spec(spec_glyph)]
    pub fn glyph(&self) -> (r: Glyph)
        ensures
            r == self.spec_glyph(),
    {
        match self {
            Direction::North(g) => *g,
            Direction::NorthEast(g) => *g,
            Direction::NorthWest(g) => *g,
            Direction::South(g) => *g,
            Direction::SouthEast(g) => *g,
            Direction::SouthWest(g) => *g,
            Direction::East(g) => *g,
            Direction::West(g) => *g,
        }
    }

    /// Whether this is the North sector.
    pub fn is_north(&self) -> (r: bool)
        ensures
            r == (*self is North),
    {
        match self {
            Direction::North(_) => true,
            _ => false,
        }
    }
}

/// The direction of sector `k`.
fn direction_at(k: u8) -> (r: Direction)
    requires
        k < 8,
    ensures
        r == direction_for(k as int),
{
    if k == 0 {
        Direction::North(NORTH)
    } else if k == 1 {
        Direction::NorthEast(NORTH_EAST)
    } else if k == 2 {
        Direction::East(EAST)
    } else if k == 3 {
        Direction::SouthEast(SOUTH_EAST)
    } else if k == 4 {
        Direction::South(SOUTH)
    } else if k == 5 {
        Direction::SouthWest(SOUTH_WEST)
    } else if k == 6 {
        Direction::West(WEST)
    } else {
        Direction::NorthWest(NORTH_WEST)
    }
}

/// The sector of the sample (x, y), decided exactly: the square of the
/// sample has twice its angle, so the quarter that the square lies in gives
/// the sector up to its opposite, and the side of the sample picks between
/// the two.
fn sector(x: i32, y: i32) -> (k: u8)
    ensures
        k < 8,
        k as int == sector_of(x as int, y as int),
{
    let xw = x as i128;
    let yw = y as i128;
    assert(xw * xw <= 0x4000_0000_0000_0000 && yw * yw <= 0x4000_0000_0000_0000) by (
    nonlinear_arith)
        requires
            -0x8000_0000 <= xw <= 0x7fff_ffff,
            -0x8000_0000 <= yw <= 0x7fff_ffff,
    ;
    assert(-0x4000_0000_0000_0000 <= xw * yw <= 0x4000_0000_0000_0000) by (nonlinear_arith)
        requires
            -0x8000_0000 <= xw <= 0x7fff_ffff,
            -0x8000_0000 <= yw <= 0x7fff_ffff,
    ;
    assert(xw * xw >= 0 && yw * yw >= 0) by (nonlinear_arith);
    let u = xw * xw - yw * yw;
    let v = 2 * (xw * yw);
    let sum = x as i64 + y as i64;
    let k: u8 = if -u <= v && v < u {
        if x > 0 { 2 } else { 6 }
    } else if -v < u && u <= v {
        if sum > 0 { 3 } else { 7 }
    } else if u < v && v <= -u {
        if y < 0 { 0 } else { 4 }
    } else if v <= u && u < -v {
        if x > y { 1 } else { 5 }
    } else {
        2
    };
    proof {
        let (xi, yi) = (x as int, y as int);
        assert(u == doubled_re(xi, yi));
        assert(v == doubled_im(xi, yi)) by (nonlinear_arith)
            requires
                v == 2 * (xw * yw),
                xw == xi,
                yw == yi,
        ;
        assert(k as int == sector_by_doubling(xi, yi));
        if !(xi == 0 && yi == 0) {
            lemma_sector_exists(xi, yi);
            lemma_sectors_partition(xi, yi);
        }
    }
    k
}

/// The compass direction of the field sample (x, y): the sector whose 45°
/// band holds the sample's compass angle (its angle plus 90°, so that -y is
/// North), with each band closed at its counterclockwise-first edge. The
/// zero vector gives East.
pub fn calculate_direction(x: i32, y: i32) -> (r: Direction)
    ensures
        r == direction_for(sector_of(x as int, y as int)),
        !(x == 0 && y == 0) ==> in_sector(x as int, y as int, sector_of(x as int, y as int)),
{
    let k = sector(x, y);
    proof {
        if !(x == 0 && y == 0) {
            lemma_sectors_partition(x as int, y as int);
        }
    }
    direction_at(k)
}

} // verus!
