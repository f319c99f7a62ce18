//! A pixel buffer to draw paths on.

use vstd::prelude::*;
use vstd::arithmetic::div_mod::lemma_fundamental_div_mod_converse;
use crate::backend::SlintColor;
use crate::pose::Vec2;

verus! {

/// Steps in one unit of a fixed-point coordinate.
pub const UNIT: i64 = 1_000_000;

/// A picture of `width` by `height` pixels, four bytes each: red, green,
/// blue and opacity, row by row from the top.
pub struct Canvas {
    pub width: u32,
    pub height: u32,
    pub buffer: Vec<u8>,
    /// The colour that is drawn with.
    pub color: [u8; 4],
}

/// The four bytes of an alliance colour.
pub open spec fn paint(color: SlintColor) -> Seq<u8> {
    match color {
        SlintColor::Red => seq![255u8, 0u8, 0u8, 255u8],
        SlintColor::Blue => seq![0u8, 0u8, 255u8, 255u8],
    }
}

/// The part of the picture that a stroke may touch: columns `left` to
/// `right` of rows `top` to `bottom`.
pub struct Frame {
    pub left: int,
    pub right: int,
    pub top: int,
    pub bottom: int,
}

impl Frame {
    pub open spec fn holds(self, x: int, y: int) -> bool {
        self.left <= x <= self.right && self.top <= y <= self.bottom
    }

    /// The smallest frame around two points.
    pub open spec fn around(x0: int, y0: int, x1: int, y1: int) -> Frame {
        Frame {
            left: if x0 <= x1 { x0 } else { x1 },
            right: if x0 <= x1 { x1 } else { x0 },
            top: if y0 <= y1 { y0 } else { y1 },
            bottom: if y0 <= y1 { y1 } else { y0 },
        }
    }
}

/// Distance between two coordinates.
pub open spec fn span(from: int, to: int) -> int {
    if to >= from {
        to - from
    } else {
        from - to
    }
}

/// The coordinate `by` steps from `from` on the way to `to`.
pub open spec fn toward(from: int, to: int, by: int) -> int {
    if from < to {
        from + by
    } else {
        from - by
    }
}

/// Steps taken along the shorter side of a line once `k` steps are taken
/// along the longer side: `k * minor / major`, rounded to the nearest
/// whole number, a half upward.
pub open spec fn minor_at(major: int, minor: int, k: int) -> int {
    if major <= 0 {
        0
    } else {
        (2 * k * minor + major) / (2 * major)
    }
}

/// Number of pixels in the line from `(x0, y0)` up to, but without,
/// `(x1, y1)`: the length of its longer side.
pub open spec fn line_steps(x0: int, y0: int, x1: int, y1: int) -> int {
    if span(x0, x1) >= span(y0, y1) {
        span(x0, x1)
    } else {
        span(y0, y1)
    }
}

/// Pixel `k` of the line from `(x0, y0)` to `(x1, y1)`: `k` steps along
/// the longer side, and along the shorter side the nearest whole number of
/// steps to where the straight line runs.
pub open spec fn line_point(x0: int, y0: int, x1: int, y1: int, k: int) -> (int, int) {
    let dx = span(x0, x1);
    let dy = span(y0, y1);
    if dx >= dy {
        (toward(x0, x1, k), toward(y0, y1, minor_at(dx, dy, k)))
    } else {
        (toward(x0, x1, minor_at(dy, dx, k)), toward(y0, y1, k))
    }
}

/// Whether `(px, py)` is among the first `upto` pixels of the line from
/// `(x0, y0)` to `(x1, y1)`.
pub open spec fn on_line(x0: int, y0: int, x1: int, y1: int, upto: int, px: int, py: int) -> bool {
    exists|k: int| 0 <= k < upto && #[trigger] line_point(x0, y0, x1, y1, k) == (px, py)
}

/// Whether `(px, py)` lies on the stretch of the path that ends at point
/// `s`: on the line from point `s - 1` up to, but without, point `s`.
pub open spec fn on_segment(coords: Seq<Vec2<i64>>, s: int, px: int, py: int) -> bool {
    let x0 = pixel_of(coords[s - 1].x) as int;
    let y0 = pixel_of(coords[s - 1].y) as int;
    let x1 = pixel_of(coords[s].x) as int;
    let y1 = pixel_of(coords[s].y) as int;
    on_line(x0, y0, x1, y1, line_steps(x0, y0, x1, y1), px, py)
}

/// Whether `(px, py)` lies on one of the stretches of the path that end
/// at a point before point `upto`.
pub open spec fn on_path(coords: Seq<Vec2<i64>>, upto: int, px: int, py: int) -> bool {
    exists|s: int| 1 <= s < upto && #[trigger] on_segment(coords, s, px, py)
}

/// A buffer with the four bytes from `index` on replaced by `color`.
pub open spec fn stamped(buffer: Seq<u8>, index: int, color: Seq<u8>) -> Seq<u8> {
    buffer.update(index, color[0]).update(index + 1, color[1]).update(index + 2, color[2]).update(
        index + 3,
        color[3],
    )
}

impl Canvas {
    /// The buffer has four bytes for each pixel.
    pub open spec fn wf(&self) -> bool {
        self.buffer@.len() == self.width * self.height * 4
    }

    /// Where the pixel in column `x` of row `y` starts in the buffer.
    pub open spec fn offset(&self, x: int, y: int) -> int {
        (y * self.width + x) * 4
    }

    /// The byte at `i` belongs to a pixel that `frame` holds.
    pub open spec fn byte_within(&self, i: int, frame: Frame) -> bool {
        self.width > 0 && frame.holds((i / 4) % (self.width as int), (i / 4) / (self.width as int))
    }

    /// The column of the pixel that the byte at `i` belongs to.
    pub open spec fn column_of(&self, i: int) -> int {
        (i / 4) % (self.width as int)
    }

    /// The row of the pixel that the byte at `i` belongs to.
    pub open spec fn row_of(&self, i: int) -> int {
        (i / 4) / (self.width as int)
    }

    /// `self` is `before` with the first `upto` pixels of the line from
    /// `(x0, y0)` to `(x1, y1)` painted: a byte of such a pixel holds its
    /// byte of the colour, every other byte is as it was.
    pub open spec fn lined(&self, before: Canvas, x0: int, y0: int, x1: int, y1: int, upto: int)
        -> bool {
        &&& self.buffer@.len() == before.buffer@.len()
        &&& forall|i: int|
            0 <= i < self.buffer@.len() ==> #[trigger] self.buffer@[i] == (if on_line(
                x0,
                y0,
                x1,
                y1,
                upto,
                before.column_of(i),
                before.row_of(i),
            ) {
                before.color@[i % 4]
            } else {
                before.buffer@[i]
            })
    }

    /// `self` is `before` with the stretches of the path painted that end
    /// at a point before point `upto`.
    pub open spec fn traced(&self, before: Canvas, coords: Seq<Vec2<i64>>, upto: int) -> bool {
        &&& self.buffer@.len() == before.buffer@.len()
        &&& forall|i: int|
            0 <= i < self.buffer@.len() ==> #[trigger] self.buffer@[i] == (if on_path(
                coords,
                upto,
                before.column_of(i),
                before.row_of(i),
            ) {
                before.color@[i % 4]
            } else {
                before.buffer@[i]
            })
    }

    /// `self` is `before` after a stroke within `frame`: the same size and
    /// colour, and each byte as it was, or a byte of the colour on a pixel
    /// that the frame holds.
    pub open spec fn drawn_on(&self, before: Canvas, frame: Frame) -> bool {
        &&& self.width == before.width
        &&& self.height == before.height
        &&& self.color == before.color
        &&& self.buffer@.len() == before.buffer@.len()
        &&& forall|i: int|
            0 <= i < self.buffer@.len() ==> #[trigger] self.buffer@[i] == before.buffer@[i] || (
            self.buffer@[i] == before.color@[i % 4] && before.byte_within(i, frame))
    }

    /// A clear canvas that draws in the given colour.
    pub fn new(width: u32, height: u32, color: SlintColor) -> (c: Self)
        requires
            width * height * 4 <= u32::MAX,
        ensures
            c.wf(),
            c.width == width,
            c.height == height,
            c.color@ == paint(color),
            forall|i: int| 0 <= i < c.buffer@.len() ==> c.buffer@[i] == 0,
    {
        assert(width * height <= u32::MAX) by (nonlinear_arith)
            requires
                width * height * 4 <= u32::MAX,
                width >= 0,
                height >= 0,
        ;
        let size: usize = (width * height * 4) as usize;
        let mut buffer: Vec<u8> = Vec::new();
        let mut i: usize = 0;
        while i < size
            invariant
                i <= size,
                buffer@.len() == i,
                forall|j: int| 0 <= j < i ==> buffer@[j] == 0,
            decreases size - i,
        {
            buffer.push(0u8);
            i = i + 1;
        }
        let color: [u8; 4] = match color {
            SlintColor::Red => [255u8, 0u8, 0u8, 255u8],
            SlintColor::Blue => [0u8, 0u8, 255u8, 255u8],
        };
        Canvas { width, height, buffer, color }
    }

    /// Sets the pixel in column `x` of row `y` to the colour; a pixel
    /// outside the picture is left out.
    pub fn set_pixel(&mut self, x: u32, y: u32)
        requires
            old(self).wf(),
        ensures
            final(self).wf(),
            final(self).width == old(self).width,
            final(self).height == old(self).height,
            final(self).color == old(self).color,
            x < old(self).width && y < old(self).height ==> final(self).buffer@ == stamped(
                old(self).buffer@,
                old(self).offset(x as int, y as int),
                old(self).color@,
            ),
            !(x < old(self).width && y < old(self).height) ==> final(self).buffer@ == old(
                self,
            ).buffer@,
            final(self).drawn_on(*old(self), Frame::around(x as int, y as int, x as int, y as int)),
    {
        if x >= self.width || y >= self.height {
            return ;
        }
        let w: usize = self.width as usize;
        let len: usize = self.buffer.len();
        proof {
            let wi = self.width as int;
            let hi = self.height as int;
            assert((y + 1) * wi <= hi * wi) by (nonlinear_arith)
                requires
                    0 <= y < hi,
                    0 <= wi,
            ;
            assert((y + 1) * wi == y * wi + wi) by (nonlinear_arith);
            assert(y * wi >= 0) by (nonlinear_arith)
                requires
                    y >= 0,
                    wi >= 0,
            ;
            assert(self.width * self.height == hi * wi) by (nonlinear_arith)
                requires
                    wi == self.width,
                    hi == self.height,
            ;
            lemma_fundamental_div_mod_converse(y * wi + x, wi, y as int, x as int);
            assert(y * wi + x < hi * wi);
            assert(hi * wi * 4 == len);
            assert((y as usize) * w == y * wi);
        }
        let index: usize = ((y as usize) * w + (x as usize)) * 4;
        let ghost before = *self;
        self.buffer.set(index, self.color[0]);
        self.buffer.set(index + 1, self.color[1]);
        self.buffer.set(index + 2, self.color[2]);
        self.buffer.set(index + 3, self.color[3]);
        proof {
            let frame = Frame::around(x as int, y as int, x as int, y as int);
            assert forall|i: int| 0 <= i < self.buffer@.len() implies #[trigger] self.buffer@[i]
                == before.buffer@[i] || (self.buffer@[i] == before.color@[i % 4]
                && before.byte_within(i, frame)) by {
                if index <= i < index + 4 {
                    assert(i / 4 == y * (self.width as int) + x);
                    assert(i % 4 == i - index);
                }
            }
        }
    }

    /// Draws a line from `(x0, y0)` up to, but not onto, `(x1, y1)`, one
    /// pixel per step along the longer side, with Bresenham's error term
    /// choosing the steps along the shorter side. Pixels outside the
    /// picture are left out.
    pub fn draw_line(&mut self, x0: i32, y0: i32, x1: i32, y1: i32)
        requires
            old(self).wf(),
        ensures
            final(self).wf(),
            final(self).lined(
                *old(self),
                x0 as int,
                y0 as int,
                x1 as int,
                y1 as int,
                line_steps(x0 as int, y0 as int, x1 as int, y1 as int),
            ),
            final(self).drawn_on(
                *old(self),
                Frame::around(x0 as int, y0 as int, x1 as int, y1 as int),
            ),
    {
        let dx: i128 = if x1 >= x0 {
            x1 as i128 - x0 as i128
        } else {
            x0 as i128 - x1 as i128
        };
        let dy: i128 = if y1 >= y0 {
            y1 as i128 - y0 as i128
        } else {
            y0 as i128 - y1 as i128
        };
        let sx: i128 = if x0 < x1 {
            1
        } else {
            -1
        };
        let sy: i128 = if y0 < y1 {
            1
        } else {
            -1
        };
        let mut err: i128 = dx - dy;
        let mut x: i128 = x0 as i128;
        let mut y: i128 = y0 as i128;
        let ghost mut ax: int = 0;
        let ghost mut ay: int = 0;
        let ghost mut k: int = 0;
        let ghost before = *self;
        let ghost frame = Frame::around(x0 as int, y0 as int, x1 as int, y1 as int);
        let ghost steps = line_steps(x0 as int, y0 as int, x1 as int, y1 as int);
        proof {
            assert(0 * dy == 0) by (nonlinear_arith);
            assert(0 * dx == 0) by (nonlinear_arith);
            if dx >= dy {
                lemma_minor_at_ends(dx as int, dy as int);
            } else {
                lemma_minor_at_ends(dy as int, dx as int);
            }
            assert forall|i: int| 0 <= i < self.buffer@.len() implies !on_line(
                x0 as int,
                y0 as int,
                x1 as int,
                y1 as int,
                0,
                before.column_of(i),
                before.row_of(i),
            ) by {}
        }
        while x != x1 as i128 || y != y1 as i128
            invariant
                self.wf(),
                before.wf(),
                self.drawn_on(before, frame),
                self.lined(before, x0 as int, y0 as int, x1 as int, y1 as int, k),
                frame == Frame::around(x0 as int, y0 as int, x1 as int, y1 as int),
                steps == line_steps(x0 as int, y0 as int, x1 as int, y1 as int),
                0 <= dx <= 0xffff_ffff,
                0 <= dy <= 0xffff_ffff,
                dx == span(x0 as int, x1 as int),
                dy == span(y0 as int, y1 as int),
                sx == if x0 < x1 { 1int } else { -1int },
                sy == if y0 < y1 { 1int } else { -1int },
                0 <= ax <= dx,
                0 <= ay <= dy,
                0 <= k <= steps,
                dx >= dy ==> ax == k && ay == minor_at(dx as int, dy as int, k),
                dx < dy ==> ay == k && ax == minor_at(dy as int, dx as int, k),
                x == toward(x0 as int, x1 as int, ax),
                y == toward(y0 as int, y1 as int, ay),
                err == dx - dy - ax * dy + ay * dx,
            decreases (dx - ax) + (dy - ay),
        {
            proof {
                lemma_error_range(dx as int, dy as int, ax, ay);
                if dx >= dy {
                    lemma_minor_at_ends(dx as int, dy as int);
                } else {
                    lemma_minor_at_ends(dy as int, dx as int);
                }
                assert(k < steps);
                assert(line_point(x0 as int, y0 as int, x1 as int, y1 as int, k) == (
                    x as int,
                    y as int,
                ));
            }
            let ghost mid = *self;
            if x >= 0 && y >= 0 && x <= u32::MAX as i128 && y <= u32::MAX as i128 {
                self.set_pixel(x as u32, y as u32);
                proof {
                    lemma_drawn_on_widens(*self, mid, before, x as int, y as int, frame);
                }
            }
            proof {
                lemma_line_grows(
                    *self,
                    mid,
                    before,
                    x0 as int,
                    y0 as int,
                    x1 as int,
                    y1 as int,
                    k,
                    x as int,
                    y as int,
                );
            }
            let e2: i128 = 2 * err;
            proof {
                lemma_step_stays(dx as int, dy as int, ax, ay);
                assert((ax + 1) * dy == ax * dy + dy) by (nonlinear_arith);
                assert((ay + 1) * dx == ay * dx + dx) by (nonlinear_arith);
                if dx >= dy {
                    lemma_major_x(dx as int, dy as int, k, ay);
                } else {
                    lemma_major_y(dx as int, dy as int, k, ax);
                }
            }
            if e2 >= -dy {
                err = err - dy;
                x = x + sx;
                proof {
                    ax = ax + 1;
                }
            }
            if e2 <= dx {
                err = err + dx;
                y = y + sy;
                proof {
                    ay = ay + 1;
                }
            }
            proof {
                k = k + 1;
            }
        }
    }

    /// Draws the path through the given points, each coordinate rounded
    /// toward zero to a whole pixel: a line from each point up to, but not
    /// onto, the next.
    pub fn draw_coords(&mut self, coords: &Vec<Vec2<i64>>)
        requires
            old(self).wf(),
        ensures
            final(self).wf(),
            final(self).width == old(self).width,
            final(self).height == old(self).height,
            final(self).color == old(self).color,
            final(self).traced(*old(self), coords@, coords@.len() as int),
    {
        let ghost before = *self;
        let mut k: usize = 1;
        proof {
            assert forall|i: int| 0 <= i < self.buffer@.len() implies !on_path(
                coords@,
                1,
                before.column_of(i),
                before.row_of(i),
            ) by {}
        }
        while k < coords.len()
            invariant
                1 <= k,
                coords@.len() >= 1 ==> k <= coords@.len(),
                coords@.len() < 2 ==> k == 1,
                self.wf(),
                self.width == before.width,
                self.height == before.height,
                self.color == before.color,
                self.traced(before, coords@, k as int),
            decreases coords.len() - k,
        {
            let from: Vec2<i64> = coords[k - 1];
            let to: Vec2<i64> = coords[k];
            let ghost mid = *self;
            self.draw_line(whole(from.x), whole(from.y), whole(to.x), whole(to.y));
            proof {
                assert forall|i: int| 0 <= i < self.buffer@.len() implies #[trigger] self.buffer@[i]
                    == (if on_path(coords@, k as int + 1, before.column_of(i), before.row_of(i)) {
                    before.color@[i % 4]
                } else {
                    before.buffer@[i]
                }) by {
                    lemma_on_path_step(coords@, k as int, before.column_of(i), before.row_of(i));
                    assert(mid.column_of(i) == before.column_of(i));
                    assert(mid.row_of(i) == before.row_of(i));
                }
            }
            k = k + 1;
        }
        proof {
            if coords@.len() < 1 {
                assert forall|i: int| 0 <= i < self.buffer@.len() implies #[trigger] self.buffer@[i]
                    == before.buffer@[i] by {
                    assert(!on_path(coords@, 1, before.column_of(i), before.row_of(i)));
                }
                assert forall|i: int| 0 <= i < self.buffer@.len() implies !on_path(
                    coords@,
                    0,
                    before.column_of(i),
                    before.row_of(i),
                ) by {}
            }
        }
    }

    /// The picture's bytes.
    pub fn bytes(&self) -> (b: &Vec<u8>)
        ensures
            b@ == self.buffer@,
    {
        &self.buffer
    }
}

/// A coordinate as a whole pixel, rounded toward zero and held to the
/// `i32` range.
pub open spec fn pixel_of(coordinate: i64) -> i32 {
    let p = if coordinate >= 0 {
        coordinate / UNIT
    } else {
        -((-coordinate) / (UNIT as int))
    };
    if p > i32::MAX {
        i32::MAX
    } else if p < i32::MIN {
        i32::MIN
    } else {
        p as i32
    }
}

/// A coordinate as a whole pixel.
pub fn whole(coordinate: i64) -> (p: i32)
    ensures
        p == pixel_of(coordinate),
{
    let p: i64 = coordinate / UNIT;
    if p > i32::MAX as i64 {
        i32::MAX
    } else if p < i32::MIN as i64 {
        i32::MIN
    } else {
        p as i32
    }
}

/// The error term stays small enough to be doubled.
proof fn lemma_error_range(dx: int, dy: int, ax: int, ay: int)
    requires
        0 <= dx <= 0xffff_ffff,
        0 <= dy <= 0xffff_ffff,
        0 <= ax <= dx,
        0 <= ay <= dy,
    ensures
        -0x2_0000_0000_0000_0000 <= dx - dy - ax * dy + ay * dx <= 0x2_0000_0000_0000_0000,
{
    assert(0 <= ax * dy <= 0xffff_ffff * 0xffff_ffff) by (nonlinear_arith)
        requires
            0 <= ax <= 0xffff_ffff,
            0 <= dy <= 0xffff_ffff,
    ;
    assert(0 <= ay * dx <= 0xffff_ffff * 0xffff_ffff) by (nonlinear_arith)
        requires
            0 <= ay <= 0xffff_ffff,
            0 <= dx <= 0xffff_ffff,
    ;
}

/// While the end is not reached, the error term calls for a step along at
/// least one side, and for none along a side that is used up.
proof fn lemma_step_stays(dx: int, dy: int, ax: int, ay: int)
    requires
        0 <= ax <= dx,
        0 <= ay <= dy,
        ax < dx || ay < dy,
    ensures
        ({
            let err = dx - dy - ax * dy + ay * dx;
            &&& 2 * err >= -dy ==> ax < dx
            &&& 2 * err <= dx ==> ay < dy
            &&& 2 * err >= -dy || 2 * err <= dx
        }),
{
    let err = dx - dy - ax * dy + ay * dx;
    if ax == dx {
        assert(ay + 1 <= dy);
        assert(dx * (1 + ay) <= dx * dy) by (nonlinear_arith)
            requires
                0 <= dx,
                1 + ay <= dy,
        ;
        assert(ax * dy == dx * dy) by (nonlinear_arith)
            requires
                ax == dx,
        ;
        assert(ay * dx + dx == dx * (1 + ay)) by (nonlinear_arith);
    }
    if ay == dy {
        assert(ax + 1 <= dx);
        assert(dy * (1 + ax) <= dy * dx) by (nonlinear_arith)
            requires
                0 <= dy,
                1 + ax <= dx,
        ;
        assert(ay * dx == dy * dx) by (nonlinear_arith)
            requires
                ay == dy,
        ;
        assert(ax * dy + dy == dy * (1 + ax)) by (nonlinear_arith);
    }
}

/// A pixel set inside a frame keeps the canvas drawn within that frame.
proof fn lemma_drawn_on_widens(
    after: Canvas,
    mid: Canvas,
    before: Canvas,
    x: int,
    y: int,
    frame: Frame,
)
    requires
        mid.drawn_on(before, frame),
        after.drawn_on(mid, Frame::around(x, y, x, y)),
        frame.holds(x, y),
    ensures
        after.drawn_on(before, frame),
{
    assert forall|i: int| 0 <= i < after.buffer@.len() implies #[trigger] after.buffer@[i]
        == before.buffer@[i] || (after.buffer@[i] == before.color@[i % 4] && before.byte_within(
        i,
        frame,
    )) by {
        assert(after.buffer@[i] == mid.buffer@[i] || (after.buffer@[i] == mid.color@[i % 4]
            && mid.byte_within(i, Frame::around(x, y, x, y))));
        assert(mid.buffer@[i] == before.buffer@[i] || (mid.buffer@[i] == before.color@[i % 4]
            && before.byte_within(i, frame)));
    }
}

/// Along the shorter side a line starts with no step, and ends with all
/// of them.
proof fn lemma_minor_at_ends(major: int, minor: int)
    requires
        0 <= minor <= major,
    ensures
        minor_at(major, minor, 0) == 0,
        minor_at(major, minor, major) == minor,
{
    if major > 0 {
        assert(2 * 0 * minor + major == 0 * (2 * major) + major) by (nonlinear_arith);
        lemma_fundamental_div_mod_converse(2 * 0 * minor + major, 2 * major, 0, major);
        assert(2 * major * minor + major == minor * (2 * major) + major) by (nonlinear_arith);
        lemma_fundamental_div_mod_converse(2 * major * minor + major, 2 * major, minor, major);
    }
}

/// From one step along the longer side to the next, the steps along the
/// shorter side stay or grow by one; they grow exactly when the next half
/// step is reached.
proof fn lemma_minor_step(major: int, minor: int, k: int)
    requires
        0 <= minor <= major,
        major > 0,
        0 <= k,
    ensures
        ({
            let q = minor_at(major, minor, k);
            let q1 = minor_at(major, minor, k + 1);
            &&& q >= 0
            &&& (q1 == q || q1 == q + 1)
            &&& (q1 == q + 1 <==> 2 * (q * major) + major <= 2 * (k * minor) + 2 * minor)
            &&& 2 * (q * major) + 2 * major > 2 * (k * minor) + major
        }),
{
    let d = 2 * major;
    let n = 2 * k * minor + major;
    let n1 = 2 * (k + 1) * minor + major;
    assert(k * minor >= 0) by (nonlinear_arith)
        requires
            k >= 0,
            minor >= 0,
    ;
    assert(n == 2 * (k * minor) + major && n1 == n + 2 * minor) by (nonlinear_arith)
        requires
            n == 2 * k * minor + major,
            n1 == 2 * (k + 1) * minor + major,
    ;
    let q = n / d;
    let r = n % d;
    vstd::arithmetic::div_mod::lemma_fundamental_div_mod(n, d);
    vstd::arithmetic::div_mod::lemma_mod_pos_bound(n, d);
    vstd::arithmetic::div_mod::lemma_div_pos_is_pos(n, d);
    assert(d * q == 2 * (q * major)) by (nonlinear_arith)
        requires
            d == 2 * major,
    ;
    if r + 2 * minor >= d {
        assert(n1 == (q + 1) * d + (r + 2 * minor - d)) by (nonlinear_arith)
            requires
                n1 == n + 2 * minor,
                n == d * q + r,
        ;
        lemma_fundamental_div_mod_converse(n1, d, q + 1, r + 2 * minor - d);
    } else {
        assert(n1 == q * d + (r + 2 * minor)) by (nonlinear_arith)
            requires
                n1 == n + 2 * minor,
                n == d * q + r,
        ;
        lemma_fundamental_div_mod_converse(n1, d, q, r + 2 * minor);
    }
}

/// On a line that is longer along x, the error term asks for a step along
/// x every time, and for one along y exactly when the line has come half a
/// pixel nearer to the next row.
proof fn lemma_major_x(dx: int, dy: int, k: int, ay: int)
    requires
        0 <= dy <= dx,
        0 <= k < dx,
        ay == minor_at(dx, dy, k),
    ensures
        ({
            let e2 = 2 * (dx - dy - k * dy + ay * dx);
            &&& e2 >= -dy
            &&& (e2 <= dx ==> minor_at(dx, dy, k + 1) == ay + 1)
            &&& (e2 > dx ==> minor_at(dx, dy, k + 1) == ay)
        }),
{
    lemma_minor_step(dx, dy, k);
}

/// On a line that is longer along y, the error term asks for a step along
/// y every time, and for one along x exactly when the line has come half a
/// pixel nearer to the next column.
proof fn lemma_major_y(dx: int, dy: int, k: int, ax: int)
    requires
        0 <= dx < dy,
        0 <= k < dy,
        ax == minor_at(dy, dx, k),
    ensures
        ({
            let e2 = 2 * (dx - dy - ax * dy + k * dx);
            &&& e2 <= dx
            &&& (e2 >= -dy ==> minor_at(dy, dx, k + 1) == ax + 1)
            &&& (e2 < -dy ==> minor_at(dy, dx, k + 1) == ax)
        }),
{
    lemma_minor_step(dy, dx, k);
}

/// One more pixel is on the line when it is on the line so far or is the
/// next pixel.
proof fn lemma_on_line_step(x0: int, y0: int, x1: int, y1: int, k: int, px: int, py: int)
    requires
        0 <= k,
    ensures
        on_line(x0, y0, x1, y1, k + 1, px, py) <==> on_line(x0, y0, x1, y1, k, px, py)
            || line_point(x0, y0, x1, y1, k) == (px, py),
{
    if on_line(x0, y0, x1, y1, k + 1, px, py) {
        let j = choose|j: int| 0 <= j < k + 1 && #[trigger] line_point(x0, y0, x1, y1, j) == (px, py);
        if j < k {
            assert(on_line(x0, y0, x1, y1, k, px, py));
        }
    }
    if on_line(x0, y0, x1, y1, k, px, py) {
        let j = choose|j: int| 0 <= j < k && #[trigger] line_point(x0, y0, x1, y1, j) == (px, py);
        assert(0 <= j < k + 1);
    }
}

/// One more stretch is on the path when the pixel is on the path so far
/// or on the next stretch.
proof fn lemma_on_path_step(coords: Seq<Vec2<i64>>, k: int, px: int, py: int)
    requires
        1 <= k,
    ensures
        on_path(coords, k + 1, px, py) <==> on_path(coords, k, px, py) || on_segment(
            coords,
            k,
            px,
            py,
        ),
{
    if on_path(coords, k + 1, px, py) {
        let s = choose|s: int| 1 <= s < k + 1 && #[trigger] on_segment(coords, s, px, py);
        if s < k {
            assert(on_path(coords, k, px, py));
        }
    }
    if on_path(coords, k, px, py) {
        let s = choose|s: int| 1 <= s < k && #[trigger] on_segment(coords, s, px, py);
        assert(1 <= s < k + 1);
    }
}

/// The byte at `i` of a picture of `w` by `h` pixels belongs to a pixel of
/// the picture, and to the pixel `(x, y)` of the picture exactly when it is
/// one of the four bytes from that pixel's place on.
proof fn lemma_byte_pixel(w: int, h: int, i: int, x: int, y: int)
    requires
        w > 0,
        0 <= i < w * h * 4,
    ensures
        0 <= (i / 4) % w < w,
        0 <= (i / 4) / w < h,
        0 <= x < w && 0 <= y < h ==> (((i / 4) % w == x && (i / 4) / w == y) <==> (y * w + x) * 4
            <= i < (y * w + x) * 4 + 4),
{
    let p = i / 4;
    assert(0 <= p < w * h);
    vstd::arithmetic::div_mod::lemma_fundamental_div_mod(p, w);
    vstd::arithmetic::div_mod::lemma_mod_pos_bound(p, w);
    vstd::arithmetic::div_mod::lemma_div_pos_is_pos(p, w);
    let r = p / w;
    assert(r < h) by (nonlinear_arith)
        requires
            p == w * r + p % w,
            0 <= p % w,
            p < w * h,
            w > 0,
    ;
    if 0 <= x < w && 0 <= y < h {
        if p % w == x && r == y {
            assert(y * w + x == p) by (nonlinear_arith)
                requires
                    p == w * r + p % w,
                    p % w == x,
                    r == y,
            ;
        }
        if (y * w + x) * 4 <= i < (y * w + x) * 4 + 4 {
            assert(p == y * w + x);
            lemma_fundamental_div_mod_converse(p, w, y, x);
        }
    }
}

/// Painting pixel `k` of a line onto a canvas that holds the first `k`
/// pixels gives a canvas that holds the first `k + 1`.
proof fn lemma_line_grows(
    after: Canvas,
    mid: Canvas,
    before: Canvas,
    x0: int,
    y0: int,
    x1: int,
    y1: int,
    k: int,
    x: int,
    y: int,
)
    requires
        0 <= k,
        before.wf(),
        mid.width == before.width,
        mid.height == before.height,
        mid.color == before.color,
        mid.lined(before, x0, y0, x1, y1, k),
        line_point(x0, y0, x1, y1, k) == (x, y),
        0 <= x < mid.width && 0 <= y < mid.height ==> after.buffer@ == stamped(
            mid.buffer@,
            mid.offset(x, y),
            mid.color@,
        ),
        !(0 <= x < mid.width && 0 <= y < mid.height) ==> after.buffer@ == mid.buffer@,
        after.buffer@.len() == mid.buffer@.len(),
    ensures
        after.lined(before, x0, y0, x1, y1, k + 1),
{
    let w = before.width as int;
    let h = before.height as int;
    assert(before.buffer@.len() == w * h * 4);
    assert(after.buffer@.len() == before.buffer@.len());
    assert forall|i: int| 0 <= i < after.buffer@.len() implies #[trigger] after.buffer@[i] == (
    if on_line(x0, y0, x1, y1, k + 1, before.column_of(i), before.row_of(i)) {
        before.color@[i % 4]
    } else {
        before.buffer@[i]
    }) by {
        assert(w > 0) by (nonlinear_arith)
            requires
                0 <= i < w * h * 4,
                w >= 0,
                h >= 0,
        ;
        lemma_byte_pixel(w, h, i, x, y);
        lemma_on_line_step(x0, y0, x1, y1, k, before.column_of(i), before.row_of(i));
        let at = (y * w + x) * 4;
        if 0 <= x < w && 0 <= y < h {
            assert(0 <= at && at + 4 <= w * h * 4) by (nonlinear_arith)
                requires
                    at == (y * w + x) * 4,
                    0 <= x < w,
                    0 <= y < h,
            ;
            if at <= i < at + 4 {
                assert(i % 4 == i - at);
            }
        }
    }
}

} // verus!
