use vstd::prelude::*;

verus! {

/// Width of the pixel buffer, in pixels.
pub const WIDTH: usize = 800;

/// Height of the pixel buffer, in pixels.
pub const HEIGHT: usize = 600;

/// The grayscale color of trail point `i` of a trail of length `len`:
/// brightness `i / len`, mapped linearly onto `0..=255` and written into
/// all three channels of a `0x00RRGGBB` word.
pub open spec fn gray_color_spec(i: int, len: int) -> int {
    (i * 255 / len) * 0x10101
}

/// Color for the `i`-th point of a trail of `len` points: the older the
/// point, the darker, with the newest just short of white.
pub fn trail_color(i: usize, len: usize) -> (c: u32)
    requires
        0 < len,
        i < len,
        len <= crate::ray::TRAIL_CAP,
    ensures
        c == gray_color_spec(i as int, len as int),
{
    let level: usize = i * 255 / len;
    (level as u32) * 0x10101
}

/// Write one pixel of the buffer.
pub fn write_pixel(buffer: &mut Vec<u32>, x: usize, y: usize, color: u32)
    requires
        old(buffer).len() == WIDTH * HEIGHT,
        x < WIDTH,
        y < HEIGHT,
    ensures
        final(buffer)@ == old(buffer)@.update((y * WIDTH + x) as int, color),
{
    let idx: usize = y * WIDTH + x;
    assert(idx < WIDTH * HEIGHT) by (nonlinear_arith)
        requires
            x < WIDTH,
            y < HEIGHT,
            idx == y * WIDTH + x,
    ;
    buffer.set(idx, color);
}

/// Whether the point `(x, y)` lies strictly inside the circle of the given
/// center and radius, by the integer distance-squared test.
pub open spec fn in_disk(x: int, y: int, cx: int, cy: int, radius: int) -> bool {
    let dx = if x >= cx { x - cx } else { cx - x };
    let dy = if y >= cy { y - cy } else { cy - y };
    dx * dx + dy * dy < radius * radius
}

/// Whether flat buffer index `i` lies inside the circle, reading the buffer
/// row by row: `i` names the pixel at column `i % WIDTH` of row `i / WIDTH`.
pub open spec fn index_in_disk(i: int, cx: int, cy: int, radius: int) -> bool {
    in_disk(i % (WIDTH as int), i / (WIDTH as int), cx, cy, radius)
}

/// A flat index of a buffer of `w`-pixel rows decomposes into a column
/// `i % w` and a row `i / w` inside the buffer.
proof fn lemma_flat_index(i: int, w: int, h: int)
    requires
        0 < w,
        0 < h,
        0 <= i < w * h,
    ensures
        0 <= i % w < w,
        0 <= i / w < h,
        i == (i / w) * w + i % w,
{
    vstd::arithmetic::div_mod::lemma_fundamental_div_mod(i, w);
    vstd::arithmetic::div_mod::lemma_mod_division_less_than_divisor(i, w);
    assert((i / w) * w == w * (i / w)) by (nonlinear_arith);
    assert(0 <= i / w < h) by (nonlinear_arith)
        requires
            0 < w,
            0 < h,
            0 <= i < w * h,
            i == w * (i / w) + (i % w),
            0 <= i % w < w,
    ;
}

/// A point inside the circle lies within `radius` of the center in both
/// coordinates.
proof fn lemma_disk_window(x: int, y: int, cx: int, cy: int, radius: int)
    requires
        0 <= cx,
        0 <= cy,
        0 <= radius,
        in_disk(x, y, cx, cy, radius),
    ensures
        cx - radius < x < cx + radius + 1,
        cy - radius < y < cy + radius + 1,
{
    let dx = if x >= cx { x - cx } else { cx - x };
    let dy = if y >= cy { y - cy } else { cy - y };
    assert(dx < radius && dy < radius) by (nonlinear_arith)
        requires
            0 <= dx,
            0 <= dy,
            0 <= radius,
            dx * dx + dy * dy < radius * radius,
    ;
}

/// Fill the circle of the given center and radius with `color`, clipped to
/// the buffer edges; every pixel outside the circle keeps its value.
#[verifier::loop_isolation(false)]
pub fn draw_circle(buffer: &mut Vec<u32>, cx: usize, cy: usize, radius: usize, color: u32)
    requires
        old(buffer).len() == WIDTH * HEIGHT,
        cx + radius + 1 <= usize::MAX,
        cy + radius + 1 <= usize::MAX,
        radius * radius <= usize::MAX / 2,
    ensures
        final(buffer).len() == WIDTH * HEIGHT,
        forall|i: int| 0 <= i < WIDTH * HEIGHT ==> final(buffer)@[i] == (if index_in_disk(
            i,
            cx as int,
            cy as int,
            radius as int,
        ) {
            color
        } else {
            old(buffer)@[i]
        }),
{
    let x_start: usize = if cx >= radius { cx - radius } else { 0 };
    let x_end: usize = if cx + radius + 1 < WIDTH { cx + radius + 1 } else { WIDTH };
    let y_start: usize = if cy >= radius { cy - radius } else { 0 };
    let y_end: usize = if cy + radius + 1 < HEIGHT { cy + radius + 1 } else { HEIGHT };

    proof {
        assert forall|i: int|
            0 <= i < WIDTH * HEIGHT && index_in_disk(i, cx as int, cy as int, radius as int)
        implies (x_start as int <= i % (WIDTH as int) < x_end as int && y_start as int <= i / (
        WIDTH as int) < y_end as int) by {
            lemma_flat_index(i, WIDTH as int, HEIGHT as int);
            lemma_disk_window(
                i % (WIDTH as int),
                i / (WIDTH as int),
                cx as int,
                cy as int,
                radius as int,
            );
        }
    }

    let mut y: usize = y_start;
    while y < y_end
        invariant
            y_start <= y,
            buffer.len() == WIDTH * HEIGHT,
            forall|i: int| 0 <= i < WIDTH * HEIGHT ==> #[trigger] buffer@[i] == (if i / (
            WIDTH as int) < y && index_in_disk(i, cx as int, cy as int, radius as int) {
                color
            } else {
                old(buffer)@[i]
            }),
        decreases y_end - y,
    {
        let mut x: usize = x_start;
        while x < x_end
            invariant
                x_start <= x,
                buffer.len() == WIDTH * HEIGHT,
                forall|i: int| 0 <= i < WIDTH * HEIGHT ==> #[trigger] buffer@[i] == (if (i / (
                WIDTH as int) < y || (i / (WIDTH as int) == y && i % (WIDTH as int) < x))
                    && index_in_disk(i, cx as int, cy as int, radius as int) {
                    color
                } else {
                    old(buffer)@[i]
                }),
            decreases x_end - x,
        {
            let dx: usize = if x >= cx { x - cx } else { cx - x };
            let dy: usize = if y >= cy { y - cy } else { cy - y };
            assert(dx <= radius && dy <= radius);
            assert(dx * dx <= radius * radius && dy * dy <= radius * radius)
                by (nonlinear_arith)
                requires
                    dx <= radius,
                    dy <= radius,
            ;
            if dx * dx + dy * dy < radius * radius {
                let idx: usize = y * WIDTH + x;
                proof {
                    vstd::arithmetic::div_mod::lemma_fundamental_div_mod_converse(
                        idx as int,
                        WIDTH as int,
                        y as int,
                        x as int,
                    );
                }
                buffer.set(idx, color);
                proof {
                    assert forall|i: int| 0 <= i < WIDTH * HEIGHT implies #[trigger] buffer@[i]
                        == (if (i / (WIDTH as int) < y || (i / (WIDTH as int) == y && i % (
                        WIDTH as int) < x + 1)) && index_in_disk(
                        i,
                        cx as int,
                        cy as int,
                        radius as int,
                    ) {
                        color
                    } else {
                        old(buffer)@[i]
                    }) by {
                        lemma_flat_index(i, WIDTH as int, HEIGHT as int);
                    }
                }
            } else {
                proof {
                    assert(!in_disk(x as int, y as int, cx as int, cy as int, radius as int));
                    assert forall|i: int| 0 <= i < WIDTH * HEIGHT implies #[trigger] buffer@[i]
                        == (if (i / (WIDTH as int) < y || (i / (WIDTH as int) == y && i % (
                        WIDTH as int) < x + 1)) && index_in_disk(
                        i,
                        cx as int,
                        cy as int,
                        radius as int,
                    ) {
                        color
                    } else {
                        old(buffer)@[i]
                    }) by {
                        lemma_flat_index(i, WIDTH as int, HEIGHT as int);
                    }
                }
            }
            x += 1;
        }
        y += 1;
    }
}

} // verus!
