//! Points, the circular hit test, and the change from device to scene
//! coordinates.

use vstd::prelude::*;

verus! {

/// A point of the scene: origin at the window's centre, y upward.
#[derive(Clone, Copy, Debug, PartialEq, Eq, Structural)]
pub struct Point {
    pub x: i64,
    pub y: i64,
}

/// A point as the pointer device reports it: origin at the window's top-left
/// corner, y downward.
#[derive(Clone, Copy, Debug, PartialEq, Eq, Structural)]
pub struct DevicePoint {
    pub x: i32,
    pub y: i32,
}

/// The window's size.
#[derive(Clone, Copy, Debug, PartialEq, Eq, Structural)]
pub struct Window {
    pub width: u32,
    pub height: u32,
}

/// The square of the distance between `p` and `c`.
pub open spec fn dist_sq(p: Point, c: Point) -> int {
    (p.x - c.x) * (p.x - c.x) + (p.y - c.y) * (p.y - c.y)
}

/// `p` lies in the circle round `c` with radius `r`, the rim included.
pub open spec fn in_circle(p: Point, c: Point, r: u32) -> bool {
    dist_sq(p, c) <= r * r
}

/// The vector from `b` to `a`, where both of its coordinates fit.
pub open spec fn minus(a: Point, b: Point) -> Point {
    Point { x: (a.x - b.x) as i64, y: (a.y - b.y) as i64 }
}

/// The scene point that a device point stands for in a window:
/// `x - width / 2` to the right of the centre, `height / 2 - y` above it.
pub open spec fn scene_of(device: DevicePoint, window: Window) -> Point {
    Point {
        x: (device.x - window.width / 2) as i64,
        y: (window.height / 2 - device.y) as i64,
    }
}

/// A point inside a circle is within the radius along each axis.
pub proof fn lemma_in_circle_bounds(p: Point, c: Point, r: u32)
    requires
        in_circle(p, c, r),
    ensures
        -r <= p.x - c.x <= r,
        -r <= p.y - c.y <= r,
{
    let dx = p.x - c.x;
    let dy = p.y - c.y;
    let rr = r as int;
    assert(dx * dx + dy * dy <= rr * rr);
    assert(-rr <= dx <= rr && -rr <= dy <= rr) by (nonlinear_arith)
        requires
            dx * dx + dy * dy <= rr * rr,
            rr >= 0,
    ;
}

/// The distance between two coordinates.
fn gap(a: i64, b: i64) -> (d: u64)
    ensures
        d == if a >= b { a - b } else { b - a },
{
    if a >= b {
        (a as i128 - b as i128) as u64
    } else {
        (b as i128 - a as i128) as u64
    }
}

/// The hit test: whether `p` lies in the circle round `c` with radius `r`.
pub fn within_radius(p: Point, c: Point, r: u32) -> (hit: bool)
    ensures
        hit == in_circle(p, c, r),
{
    let dx: u64 = gap(p.x, c.x);
    let dy: u64 = gap(p.y, c.y);
    let ghost ix = p.x - c.x;
    let ghost iy = p.y - c.y;
    let ghost rr = r as int;
    proof {
        assert(ix * ix == dx * dx && iy * iy == dy * dy) by (nonlinear_arith)
            requires
                dx == ix || dx == -ix,
                dy == iy || dy == -iy,
        ;
    }
    if dx > r as u64 || dy > r as u64 {
        proof {
            assert(ix * ix + iy * iy > rr * rr) by (nonlinear_arith)
                requires
                    ix * ix == dx * dx,
                    iy * iy == dy * dy,
                    dx > rr || dy > rr,
                    rr >= 0,
            ;
        }
        false
    } else {
        proof {
            assert(dx * dx <= rr * rr && dy * dy <= rr * rr && rr * rr <= 0xffff_ffff
                * 0xffff_ffff) by (nonlinear_arith)
                requires
                    dx <= rr,
                    dy <= rr,
                    0 <= rr <= 0xffff_ffff,
            ;
        }
        let wide: u128 = r as u128;
        (dx as u128) * (dx as u128) + (dy as u128) * (dy as u128) <= wide * wide
    }
}

/// Tests the cursor against the circle of radius `radius` round `icon_center`.
/// On a hit the second part is the cursor's offset from the centre; on a miss
/// it is the zero vector.
pub fn check_cursor_in_icon(cursor_pos: Point, icon_center: Point, radius: u32) -> (found: (
    bool,
    Point,
))
    ensures
        found.0 == in_circle(cursor_pos, icon_center, radius),
        found.0 ==> found.1.x == cursor_pos.x - icon_center.x && found.1.y == cursor_pos.y
            - icon_center.y,
        !found.0 ==> found.1 == (Point { x: 0, y: 0 }),
{
    if within_radius(cursor_pos, icon_center, radius) {
        proof {
            lemma_in_circle_bounds(cursor_pos, icon_center, radius);
        }
        let x: i64 = (cursor_pos.x as i128 - icon_center.x as i128) as i64;
        let y: i64 = (cursor_pos.y as i128 - icon_center.y as i128) as i64;
        (true, Point { x, y })
    } else {
        (false, Point { x: 0, y: 0 })
    }
}

/// Changes device coordinates into scene coordinates.
pub fn to_scene(device: DevicePoint, window: Window) -> (p: Point)
    ensures
        p == scene_of(device, window),
        p.x == device.x - window.width / 2,
        p.y == window.height / 2 - device.y,
{
    let half_w: i64 = (window.width / 2) as i64;
    let half_h: i64 = (window.height / 2) as i64;
    Point { x: device.x as i64 - half_w, y: half_h - device.y as i64 }
}

/// The window's top-left corner is the scene point `(-(W/2), H/2)`. Where
/// the width and the height are even and a device point can hold them, its
/// bottom-right corner is `(W/2, -(H/2))`.
pub proof fn lemma_window_corners(window: Window)
    ensures
        scene_of(DevicePoint { x: 0, y: 0 }, window).x == -(window.width / 2),
        scene_of(DevicePoint { x: 0, y: 0 }, window).y == window.height / 2,
        window.width <= i32::MAX && window.height <= i32::MAX && window.width % 2 == 0
            && window.height % 2 == 0 ==> {
            let corner = DevicePoint { x: window.width as i32, y: window.height as i32 };
            &&& scene_of(corner, window).x == window.width / 2
            &&& scene_of(corner, window).y == -(window.height / 2)
        },
{
}

} // verus!
