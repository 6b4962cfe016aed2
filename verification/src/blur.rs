//! Blurring an image: a Gaussian blur by three passes of a box blur.
//!
//! An image is a row of pixels, row after row. A box blur replaces every
//! pixel by the mean of the pixels around it along one direction; beyond the
//! border the pixel at the border counts again. The mean is taken exactly,
//! channel by channel, and rounded down once.

use crate::fixed::{
    floor_div, lemma_mul_bounds, saturate, spec_div, spec_mul, spec_sqrt, Fixed, LIMIT, SCALE,
};
use crate::helpers::{point_of, Point};
use vstd::arithmetic::div_mod::lemma_fundamental_div_mod_converse;
use vstd::prelude::*;

verus! {

/// The position `k` of a line of `n` pixels, brought back to the line:
/// positions before the line count as the first, positions after it as the last.
pub open spec fn spec_clamped(k: int, n: int) -> int {
    if k < 0 {
        0
    } else if k >= n {
        n - 1
    } else {
        k
    }
}

/// An image in raw values: a colour for every pixel, row after row.
pub type Image = Seq<Point>;

/// The raw values of an image.
pub open spec fn image_of(data: Seq<[Fixed; 3]>) -> Image {
    Seq::new(data.len(), |i: int| point_of(data[i]))
}

/// The channel `c` of a colour: 0, 1 or 2.
pub open spec fn spec_channel(p: Point, c: int) -> int {
    if c == 0 {
        p.x
    } else if c == 1 {
        p.y
    } else {
        p.z
    }
}

/// The channel `c` of the pixel at the position `k` of the line that
/// starts at `start` and goes on in steps of `stride`.
pub open spec fn spec_at(data: Image, start: int, stride: int, n: int, k: int, c: int) -> int {
    spec_channel(data[start + spec_clamped(k, n) * stride], c)
}

/// The sum of the channel `c` over the positions `lo ..= hi` of a line.
pub open spec fn spec_line_sum(
    data: Image,
    start: int,
    stride: int,
    n: int,
    lo: int,
    hi: int,
    c: int,
) -> int
    decreases hi - lo + 1,
{
    if hi < lo {
        0
    } else {
        spec_line_sum(data, start, stride, n, lo, hi - 1, c) + spec_at(data, start, stride, n, hi, c)
    }
}

/// The mean of the channel `c` over the `2 r + 1` positions around the
/// position `i` of a line, rounded down.
pub open spec fn spec_box_mean(
    data: Image,
    start: int,
    stride: int,
    n: int,
    i: int,
    r: int,
    c: int,
) -> int {
    spec_line_sum(data, start, stride, n, i - r, i + r, c) / (2 * r + 1)
}

/// Whether `front` holds, along the first `upto` positions of a line, the
/// box means of `back`.
pub open spec fn spec_line_blurred(
    back: Image,
    front: Image,
    start: int,
    stride: int,
    n: int,
    r: int,
    upto: int,
) -> bool {
    forall|k: int, c: int|
        0 <= k < upto && 0 <= c < 3 ==> #[trigger] spec_channel(front[start + k * stride], c)
            == spec_box_mean(back, start, stride, n, k, r, c)
}

/// Whether the place `idx` lies on the first `upto` positions of a line.
pub open spec fn spec_on_line(idx: int, start: int, stride: int, upto: int) -> bool {
    exists|k: int| 0 <= k < upto && idx == start + #[trigger] (k * stride)
}

/// Whether the colour at the place `i` of an image lies in the
/// representable range.
pub open spec fn spec_bounded_at(data: Image, i: int) -> bool {
    &&& -LIMIT <= data[i].x <= LIMIT
    &&& -LIMIT <= data[i].y <= LIMIT
    &&& -LIMIT <= data[i].z <= LIMIT
}

/// Whether every colour of an image lies in the representable range.
pub open spec fn spec_bounded(data: Image) -> bool {
    forall|i: int| 0 <= i < data.len() ==> #[trigger] spec_bounded_at(data, i)
}

/// The image of stored pixels lies in the representable range.
pub proof fn lemma_image_bounded(data: Seq<[Fixed; 3]>)
    ensures
        spec_bounded(image_of(data)),
{
    assert forall|i: int| 0 <= i < data.len() implies #[trigger] spec_bounded_at(
        image_of(data),
        i,
    ) by {
        data[i][0].lemma_bounded();
        data[i][1].lemma_bounded();
        data[i][2].lemma_bounded();
    }
}

/// A sum over a line is bounded by the number of its terms.
proof fn lemma_line_sum_bounds(
    data: Image,
    start: int,
    stride: int,
    n: int,
    lo: int,
    hi: int,
    c: int,
)
    requires
        lo <= hi + 1,
        0 <= c < 3,
        n >= 1,
        stride >= 0,
        0 <= start,
        start + (n - 1) * stride < data.len(),
        spec_bounded(data),
    ensures
        -(hi - lo + 1) * LIMIT <= spec_line_sum(data, start, stride, n, lo, hi, c) <= (hi - lo + 1)
            * LIMIT,
    decreases hi - lo + 1,
{
    if hi >= lo {
        lemma_line_sum_bounds(data, start, stride, n, lo, hi - 1, c);
        let k = spec_clamped(hi, n);
        assert(0 <= k * stride <= (n - 1) * stride) by (nonlinear_arith)
            requires
                0 <= k <= n - 1,
                stride >= 0,
        ;
        assert(spec_bounded_at(data, start + k * stride));
        assert((hi - lo + 1) * LIMIT == (hi - lo) * LIMIT + LIMIT) by (nonlinear_arith);
    } else {
        assert((hi - lo + 1) * LIMIT == 0) by (nonlinear_arith)
            requires
                hi - lo + 1 == 0,
        ;
    }
}

/// A sum over positions that all count as one pixel is that pixel, times
/// their number.
proof fn lemma_line_sum_constant(
    data: Image,
    start: int,
    stride: int,
    n: int,
    lo: int,
    hi: int,
    c: int,
    at: int,
)
    requires
        lo <= hi + 1,
        n >= 1,
        hi < 0 || lo >= n - 1,
        at == (if hi < 0 {
            0int
        } else {
            n - 1
        }),
    ensures
        spec_line_sum(data, start, stride, n, lo, hi, c) == (hi - lo + 1) * spec_at(
            data,
            start,
            stride,
            n,
            at,
            c,
        ),
    decreases hi - lo + 1,
{
    let v = spec_at(data, start, stride, n, at, c);
    if hi >= lo {
        lemma_line_sum_constant(data, start, stride, n, lo, hi - 1, c, at);
        assert(spec_clamped(hi, n) == spec_clamped(at, n));
        assert((hi - lo + 1) * v == (hi - lo) * v + v) by (nonlinear_arith);
    } else {
        assert((hi - lo + 1) * v == 0) by (nonlinear_arith)
            requires
                hi - lo + 1 == 0,
        ;
    }
}

/// A sum over a line splits at any position.
proof fn lemma_line_sum_split(
    data: Image,
    start: int,
    stride: int,
    n: int,
    lo: int,
    mid: int,
    hi: int,
    c: int,
)
    requires
        lo <= mid + 1,
        mid <= hi,
    ensures
        spec_line_sum(data, start, stride, n, lo, hi, c) == spec_line_sum(
            data,
            start,
            stride,
            n,
            lo,
            mid,
            c,
        ) + spec_line_sum(data, start, stride, n, mid + 1, hi, c),
    decreases hi - mid,
{
    if hi > mid {
        lemma_line_sum_split(data, start, stride, n, lo, mid, hi - 1, c);
    }
}

/// Moving a window one position on adds the position that it gains and
/// takes the position that it loses.
proof fn lemma_line_sum_slide(
    data: Image,
    start: int,
    stride: int,
    n: int,
    lo: int,
    hi: int,
    c: int,
)
    requires
        lo <= hi + 1,
    ensures
        spec_line_sum(data, start, stride, n, lo + 1, hi + 1, c) == spec_line_sum(
            data,
            start,
            stride,
            n,
            lo,
            hi,
            c,
        ) + spec_at(data, start, stride, n, hi + 1, c) - spec_at(data, start, stride, n, lo, c),
    decreases hi - lo + 1,
{
    if hi >= lo {
        lemma_line_sum_slide(data, start, stride, n, lo, hi - 1, c);
    }
}

/// The three raw channels of a pixel as wide integers.
fn wide(p: [Fixed; 3]) -> (r: [i128; 3])
    ensures
        forall|c: int| 0 <= c < 3 ==> #[trigger] r[c] == p[c]@ && -LIMIT <= r[c] <= LIMIT,
{
    [p[0].raw() as i128, p[1].raw() as i128, p[2].raw() as i128]
}

/// Blurs one line of `back` into `front`.
fn box_blur_line(
    back: &Vec<[Fixed; 3]>,
    front: &mut Vec<[Fixed; 3]>,
    start: usize,
    stride: usize,
    n: usize,
    blur_radius: usize,
)
    requires
        n >= 1,
        stride >= 1,
        old(front)@.len() == back@.len(),
        start + (n - 1) * stride < back@.len(),
    ensures
        final(front)@.len() == old(front)@.len(),
        spec_line_blurred(
            image_of(back@),
            image_of(final(front)@),
            start as int,
            stride as int,
            n as int,
            blur_radius as int,
            n as int,
        ),
        forall|idx: int|
            0 <= idx < old(front)@.len() && !spec_on_line(idx, start as int, stride as int, n as int)
                ==> final(front)@[idx] == old(front)@[idx],
{
    let ghost data = image_of(back@);
    proof {
        lemma_image_bounded(back@);
    }
    let ghost s = start as int;
    let ghost d = stride as int;
    let ghost m = n as int;
    let ghost r = blur_radius as int;
    let len: usize = back.len();
    assert((n - 1) * stride + start < len);
    let fv: [i128; 3] = wide(back[start]);
    let last: usize = start + (n - 1) * stride;
    let lv: [i128; 3] = wide(back[last]);
    let count: i128 = 2 * (blur_radius as i128) + 1;
    // the window around the position before the line
    let head: usize = if blur_radius < n {
        blur_radius
    } else {
        n
    };
    let before: i128 = (blur_radius as i128) + 1;
    let after: i128 = (blur_radius as i128) - (head as i128);
    proof {
        assert forall|c: int| 0 <= c < 3 implies #[trigger] fv[c] == spec_at(data, s, d, m, 0, c) by {
            assert(0 * d == 0);
        }
        assert forall|c: int| 0 <= c < 3 implies #[trigger] lv[c] == spec_at(
            data,
            s,
            d,
            m,
            m - 1,
            c,
        ) by {}
        lemma_mul_bounds(before as int, fv[0] as int, before as int, LIMIT as int);
        lemma_mul_bounds(before as int, fv[1] as int, before as int, LIMIT as int);
        lemma_mul_bounds(before as int, fv[2] as int, before as int, LIMIT as int);
        assert(before * LIMIT <= 0x1_0000_0000_0000_0001 * LIMIT) by (nonlinear_arith)
            requires
                0 <= before <= 0x1_0000_0000_0000_0001,
        ;
    }
    let mut val: [i128; 3] = [before * fv[0], before * fv[1], before * fv[2]];
    proof {
        assert forall|c: int| 0 <= c < 3 implies #[trigger] val[c] == spec_line_sum(
            data,
            s,
            d,
            m,
            -r - 1,
            -1,
            c,
        ) by {
            lemma_line_sum_constant(data, s, d, m, -r - 1, -1, c, 0);
            assert(val[c] == before * fv[c]);
            assert((-1 - (-r - 1) + 1) * fv[c] == before * fv[c]) by (nonlinear_arith)
                requires
                    before == r + 1,
            ;
        }
    }
    let mut j: usize = 0;
    while j < head
        invariant
            j <= head <= n,
            head <= blur_radius,
            n >= 1,
            stride >= 1,
            start + (n - 1) * stride < back@.len(),
            back@.len() <= usize::MAX,
            data == image_of(back@),
            spec_bounded(data),
            s == start,
            d == stride,
            m == n,
            r == blur_radius,
            forall|c: int|
                0 <= c < 3 ==> #[trigger] val[c] == spec_line_sum(data, s, d, m, -r - 1, j - 1, c),
        decreases head - j,
    {
        assert(j * stride <= (n - 1) * stride) by (nonlinear_arith)
            requires
                j <= n - 1,
                stride >= 0,
        ;
        let bb: [i128; 3] = wide(back[start + j * stride]);
        proof {
            assert forall|c: int| 0 <= c < 3 implies -(j + r + 2) * LIMIT <= #[trigger] val[c] + bb[c]
                <= (j + r + 2) * LIMIT && val[c] + bb[c] == spec_line_sum(
                data,
                s,
                d,
                m,
                -r - 1,
                j as int,
                c,
            ) by {
                lemma_line_sum_bounds(data, s, d, m, -r - 1, j - 1, c);
                assert((j - 1 - (-r - 1) + 1) * LIMIT + LIMIT == (j + r + 2) * LIMIT)
                    by (nonlinear_arith);
                assert(bb[c] == spec_at(data, s, d, m, j as int, c));
            }
            assert((j + r + 2) * LIMIT <= 0x2_0000_0000_0000_0002 * LIMIT) by (nonlinear_arith)
                requires
                    0 <= j + r + 2 <= 0x2_0000_0000_0000_0002,
            ;
        }
        val = [val[0] + bb[0], val[1] + bb[1], val[2] + bb[2]];
        j = j + 1;
    }
    proof {
        lemma_mul_bounds(after as int, lv[0] as int, after as int, LIMIT as int);
        lemma_mul_bounds(after as int, lv[1] as int, after as int, LIMIT as int);
        lemma_mul_bounds(after as int, lv[2] as int, after as int, LIMIT as int);
        assert(after * LIMIT <= 0x1_0000_0000_0000_0000 * LIMIT) by (nonlinear_arith)
            requires
                0 <= after <= 0x1_0000_0000_0000_0000,
        ;
        assert forall|c: int| 0 <= c < 3 implies -(2 * r + 1) * LIMIT <= #[trigger] val[c] + after
            * lv[c] <= (2 * r + 1) * LIMIT && val[c] + after * lv[c] == spec_line_sum(
            data,
            s,
            d,
            m,
            -r - 1,
            r - 1,
            c,
        ) by {
            lemma_line_sum_bounds(data, s, d, m, -r - 1, r - 1, c);
            assert((r - 1 - (-r - 1) + 1) * LIMIT == (2 * r + 1) * LIMIT) by (nonlinear_arith);
            if blur_radius > n {
                lemma_line_sum_constant(data, s, d, m, m as int, r - 1, c, m - 1);
                lemma_line_sum_split(data, s, d, m, -r - 1, m - 1, r - 1, c);
                assert((r - 1 - m + 1) * lv[c] == after * lv[c]) by (nonlinear_arith)
                    requires
                        after == r - m,
                ;
            } else {
                assert(after * lv[c] == 0) by (nonlinear_arith)
                    requires
                        after == 0,
                ;
            }
        }
        assert((2 * r + 1) * LIMIT <= 0x2_0000_0000_0000_0001 * LIMIT) by (nonlinear_arith)
            requires
                0 <= 2 * r + 1 <= 0x2_0000_0000_0000_0001,
        ;
    }
    val = [val[0] + after * lv[0], val[1] + after * lv[1], val[2] + after * lv[2]];
    let mut i: usize = 0;
    while i < n
        invariant
            i <= n,
            n >= 1,
            stride >= 1,
            front@.len() == back@.len(),
            front@.len() == old(front)@.len(),
            start + (n - 1) * stride < back@.len(),
            back@.len() <= usize::MAX,
            data == image_of(back@),
            spec_bounded(data),
            s == start,
            d == stride,
            m == n,
            r == blur_radius,
            count == 2 * r + 1,
            forall|c: int|
                0 <= c < 3 ==> #[trigger] val[c] == spec_line_sum(
                    data,
                    s,
                    d,
                    m,
                    i - r - 1,
                    i + r - 1,
                    c,
                ),
            spec_line_blurred(data, image_of(front@), s, d, m, r, i as int),
            forall|idx: int|
                0 <= idx < front@.len() && !spec_on_line(idx, s, d, i as int) ==> front@[idx]
                    == old(front)@[idx],
        decreases n - i,
    {
        // the position that the window gains, and the one that it loses
        let gain: usize = if blur_radius >= n - i {
            n - 1
        } else {
            i + blur_radius
        };
        let lose: usize = if i <= blur_radius {
            0
        } else {
            i - blur_radius - 1
        };
        assert(gain * stride <= (n - 1) * stride && lose * stride <= (n - 1) * stride && i * stride
            <= (n - 1) * stride) by (nonlinear_arith)
            requires
                gain <= n - 1,
                lose <= n - 1,
                i <= n - 1,
                stride >= 0,
        ;
        let bb: [i128; 3] = wide(back[start + gain * stride]);
        let fb: [i128; 3] = wide(back[start + lose * stride]);
        proof {
            assert(gain == spec_clamped(i + r, m));
            assert(lose == spec_clamped(i - r - 1, m));
            assert forall|c: int| 0 <= c < 3 implies -(2 * r + 1) * LIMIT <= #[trigger] val[c]
                + bb[c] - fb[c] <= (2 * r + 1) * LIMIT && val[c] + bb[c] - fb[c] == spec_line_sum(
                data,
                s,
                d,
                m,
                i - r,
                i + r,
                c,
            ) by {
                lemma_line_sum_slide(data, s, d, m, i - r - 1, i + r - 1, c);
                lemma_line_sum_bounds(data, s, d, m, i - r, i + r, c);
                assert(bb[c] == spec_at(data, s, d, m, i + r, c));
                assert(fb[c] == spec_at(data, s, d, m, i - r - 1, c));
                assert((i + r - (i - r) + 1) * LIMIT == (2 * r + 1) * LIMIT) by (nonlinear_arith);
            }
            assert((2 * r + 1) * LIMIT <= 0x2_0000_0000_0000_0001 * LIMIT) by (nonlinear_arith)
                requires
                    0 <= 2 * r + 1 <= 0x2_0000_0000_0000_0001,
            ;
        }
        val = [val[0] + bb[0] - fb[0], val[1] + bb[1] - fb[1], val[2] + bb[2] - fb[2]];
        let ghost before_write = front@;
        let m0: i128 = floor_div(val[0], count);
        let m1: i128 = floor_div(val[1], count);
        let m2: i128 = floor_div(val[2], count);
        proof {
            assert forall|c: int| 0 <= c < 3 implies -LIMIT <= (#[trigger] val[c] as int) / (count as int)
                <= LIMIT by {
                let v = val[c] as int;
                let q = v / (count as int);
                assert(-LIMIT <= q <= LIMIT) by (nonlinear_arith)
                    requires
                        -count * LIMIT <= v <= count * LIMIT,
                        count >= 1,
                        q * count <= v < (q + 1) * count,
                ;
            }
            assert(-LIMIT <= m0 <= LIMIT && -LIMIT <= m1 <= LIMIT && -LIMIT <= m2 <= LIMIT);
        }
        let pixel: [Fixed; 3] = [
            Fixed::from_raw(m0 as i64),
            Fixed::from_raw(m1 as i64),
            Fixed::from_raw(m2 as i64),
        ];
        front.set(start + i * stride, pixel);
        proof {
            let here = s + i * d;
            assert forall|k: int, c: int| 0 <= k < i + 1 && 0 <= c < 3 implies #[trigger] spec_channel(
                image_of(front@)[s + k * d],
                c,
            ) == spec_box_mean(data, s, d, m, k, r, c) by {
                assert(0 <= k * d <= i * d) by (nonlinear_arith)
                    requires
                        0 <= k <= i,
                        d >= 1,
                ;
                if k < i {
                    assert(k * d < i * d) by (nonlinear_arith)
                        requires
                            k < i,
                            d >= 1,
                    ;
                    assert(front@[s + k * d] == before_write[s + k * d]);
                    assert(spec_channel(image_of(before_write)[s + k * d], c) == spec_box_mean(
                        data,
                        s,
                        d,
                        m,
                        k,
                        r,
                        c,
                    ));
                } else {
                    assert(front@[s + k * d] == pixel);
                }
            }
            assert forall|idx: int|
                0 <= idx < front@.len() && !spec_on_line(idx, s, d, i + 1) implies front@[idx] == old(
                front,
            )@[idx] by {
                assert(idx != here) by {
                    if idx == here {
                        assert(idx == s + #[trigger] (i * d));
                        assert(spec_on_line(idx, s, d, i + 1));
                    }
                }
                assert(!spec_on_line(idx, s, d, i as int)) by {
                    if spec_on_line(idx, s, d, i as int) {
                        let k = choose|k: int| 0 <= k < i && idx == s + #[trigger] (k * d);
                        assert(0 <= k < i + 1 && idx == s + #[trigger] (k * d));
                    }
                }
            }
        }
        i = i + 1;
    }
}

/// The image with `w` pixels a row after a box blur of radius `r` along
/// its rows.
pub open spec fn spec_box_blur_horz(data: Image, w: int, r: int) -> Image {
    Seq::new(
        data.len(),
        |idx: int|
            {
                let row = idx / w;
                let col = idx % w;
                Point {
                    x: spec_box_mean(data, row * w, 1, w, col, r, 0),
                    y: spec_box_mean(data, row * w, 1, w, col, r, 1),
                    z: spec_box_mean(data, row * w, 1, w, col, r, 2),
                }
            },
    )
}

/// The image with `h` rows of `w` pixels after a box blur of radius `r`
/// along its columns.
pub open spec fn spec_box_blur_vert(data: Image, w: int, h: int, r: int) -> Image {
    Seq::new(
        data.len(),
        |idx: int|
            {
                let row = idx / w;
                let col = idx % w;
                Point {
                    x: spec_box_mean(data, col, w, h, row, r, 0),
                    y: spec_box_mean(data, col, w, h, row, r, 1),
                    z: spec_box_mean(data, col, w, h, row, r, 2),
                }
            },
    )
}

/// The place `row * w + col` lies in row `row` and column `col`.
proof fn lemma_place(w: int, row: int, col: int)
    requires
        0 <= col < w,
        0 <= row,
    ensures
        (row * w + col) / w == row,
        (row * w + col) % w == col,
        (col + row * w) / w == row,
        (col + row * w) % w == col,
{
    lemma_fundamental_div_mod_converse(row * w + col, w, row, col);
    assert(row * w + col == w * row + col) by (nonlinear_arith);
}

/// Blurs every row of `backbuf` into `frontbuf`.
pub fn box_blur_horz(
    backbuf: &Vec<[Fixed; 3]>,
    frontbuf: &mut Vec<[Fixed; 3]>,
    width: usize,
    height: usize,
    blur_radius: usize,
)
    requires
        width >= 1,
        height >= 1,
        backbuf@.len() == width * height,
        old(frontbuf)@.len() == backbuf@.len(),
    ensures
        final(frontbuf)@.len() == backbuf@.len(),
        image_of(final(frontbuf)@) == spec_box_blur_horz(
            image_of(backbuf@),
            width as int,
            blur_radius as int,
        ),
{
    let ghost img = image_of(backbuf@);
    let ghost w = width as int;
    let ghost r = blur_radius as int;
    let len: usize = backbuf.len();
    let mut i: usize = 0;
    while i < height
        invariant
            i <= height,
            width >= 1,
            len == width * height,
            backbuf@.len() == len,
            frontbuf@.len() == len,
            img == image_of(backbuf@),
            w == width,
            r == blur_radius,
            forall|idx: int|
                0 <= idx < i * w ==> #[trigger] image_of(frontbuf@)[idx] == spec_box_blur_horz(
                    img,
                    w,
                    r,
                )[idx],
        decreases height - i,
    {
        assert(i * width + (width - 1) * 1 < width * height) by (nonlinear_arith)
            requires
                i < height,
                width >= 1,
        ;
        let ghost before = frontbuf@;
        box_blur_line(backbuf, frontbuf, i * width, 1, width, blur_radius);
        proof {
            let s = i * w;
            assert((i + 1) * w == s + w) by (nonlinear_arith)
                requires
                    s == i * w,
            ;
            assert forall|idx: int| 0 <= idx < (i + 1) * w implies #[trigger] image_of(
                frontbuf@,
            )[idx] == spec_box_blur_horz(img, w, r)[idx] by {
                if idx < s {
                    assert(!spec_on_line(idx, s, 1, w)) by {
                        if spec_on_line(idx, s, 1, w) {
                            let k = choose|k: int| 0 <= k < w && idx == s + #[trigger] (k * 1);
                            assert(k * 1 == k);
                        }
                    }
                    assert(frontbuf@[idx] == before[idx]);
                    assert(image_of(before)[idx] == spec_box_blur_horz(img, w, r)[idx]);
                } else {
                    let k = idx - s;
                    assert(k * 1 == k);
                    lemma_place(w, i as int, k);
                    let p = image_of(frontbuf@)[s + k * 1];
                    assert(spec_channel(p, 0) == spec_box_mean(img, s, 1, w, k, r, 0));
                    assert(spec_channel(p, 1) == spec_box_mean(img, s, 1, w, k, r, 1));
                    assert(spec_channel(p, 2) == spec_box_mean(img, s, 1, w, k, r, 2));
                }
            }
        }
        i = i + 1;
    }
    proof {
        assert(height * w == len) by (nonlinear_arith)
            requires
                len == width * height,
                w == width,
        ;
        assert(image_of(frontbuf@) =~= spec_box_blur_horz(img, w, r));
    }
}

/// Blurs every column of `backbuf` into `frontbuf`.
pub fn box_blur_vert(
    backbuf: &Vec<[Fixed; 3]>,
    frontbuf: &mut Vec<[Fixed; 3]>,
    width: usize,
    height: usize,
    blur_radius: usize,
)
    requires
        width >= 1,
        height >= 1,
        backbuf@.len() == width * height,
        old(frontbuf)@.len() == backbuf@.len(),
    ensures
        final(frontbuf)@.len() == backbuf@.len(),
        image_of(final(frontbuf)@) == spec_box_blur_vert(
            image_of(backbuf@),
            width as int,
            height as int,
            blur_radius as int,
        ),
{
    let ghost img = image_of(backbuf@);
    let ghost w = width as int;
    let ghost h = height as int;
    let ghost r = blur_radius as int;
    let len: usize = backbuf.len();
    let mut i: usize = 0;
    while i < width
        invariant
            i <= width,
            height >= 1,
            len == width * height,
            backbuf@.len() == len,
            frontbuf@.len() == len,
            img == image_of(backbuf@),
            w == width,
            h == height,
            r == blur_radius,
            forall|idx: int|
                0 <= idx < len && idx % w < i ==> #[trigger] image_of(frontbuf@)[idx]
                    == spec_box_blur_vert(img, w, h, r)[idx],
        decreases width - i,
    {
        assert(i + (height - 1) * width < width * height) by (nonlinear_arith)
            requires
                i < width,
                height >= 1,
        ;
        let ghost before = frontbuf@;
        box_blur_line(backbuf, frontbuf, i, width, height, blur_radius);
        proof {
            assert forall|idx: int| 0 <= idx < len && idx % w < i + 1 implies #[trigger] image_of(
                frontbuf@,
            )[idx] == spec_box_blur_vert(img, w, h, r)[idx] by {
                if idx % w < i {
                    assert(!spec_on_line(idx, i as int, w, h)) by {
                        if spec_on_line(idx, i as int, w, h) {
                            let k = choose|k: int| 0 <= k < h && idx == i + #[trigger] (k * w);
                            lemma_place(w, k, i as int);
                        }
                    }
                    assert(frontbuf@[idx] == before[idx]);
                    assert(image_of(before)[idx] == spec_box_blur_vert(img, w, h, r)[idx]);
                } else {
                    let k = idx / w;
                    assert(idx == w * k + idx % w) by (nonlinear_arith)
                        requires
                            k == idx / w,
                            w > 0,
                    ;
                    assert(w * k == k * w) by (nonlinear_arith);
                    assert(0 <= k < h) by (nonlinear_arith)
                        requires
                            0 <= idx < w * h,
                            idx == w * k + idx % w,
                            0 <= idx % w < w,
                            w > 0,
                    ;
                    lemma_place(w, k, i as int);
                    let p = image_of(frontbuf@)[i + k * w];
                    assert(spec_channel(p, 0) == spec_box_mean(img, i as int, w, h, k, r, 0));
                    assert(spec_channel(p, 1) == spec_box_mean(img, i as int, w, h, k, r, 1));
                    assert(spec_channel(p, 2) == spec_box_mean(img, i as int, w, h, k, r, 2));
                }
            }
        }
        i = i + 1;
    }
    proof {
        assert(image_of(frontbuf@) =~= spec_box_blur_vert(img, w, h, r));
    }
}

/// One pass of the box blur: the rows of `backbuf` are blurred into
/// `frontbuf`, and the columns of that back into `backbuf`.
pub fn box_blur(
    backbuf: &mut Vec<[Fixed; 3]>,
    frontbuf: &mut Vec<[Fixed; 3]>,
    width: usize,
    height: usize,
    blur_radius_horz: usize,
    blur_radius_vert: usize,
)
    requires
        width >= 1,
        height >= 1,
        old(backbuf)@.len() == width * height,
        old(frontbuf)@.len() == old(backbuf)@.len(),
    ensures
        final(frontbuf)@.len() == old(backbuf)@.len(),
        final(backbuf)@.len() == old(backbuf)@.len(),
        image_of(final(frontbuf)@) == spec_box_blur_horz(
            image_of(old(backbuf)@),
            width as int,
            blur_radius_horz as int,
        ),
        image_of(final(backbuf)@) == spec_box_blur_vert(
            image_of(final(frontbuf)@),
            width as int,
            height as int,
            blur_radius_vert as int,
        ),
{
    box_blur_horz(backbuf, frontbuf, width, height, blur_radius_horz);
    box_blur_vert(frontbuf, backbuf, width, height, blur_radius_vert);
}

/// The image and its buffer after the first `k` passes of box blurs with
/// the given radii, as a pair: what the image holds, and what the buffer
/// holds. Every pass blurs the rows of the buffer into the image and the
/// columns of the image into the buffer.
pub open spec fn spec_passes(data: Image, w: int, h: int, rh: Seq<int>, rv: Seq<int>, k: int) -> (
    Image,
    Image,
)
    decreases k,
{
    if k <= 0 {
        (data, data)
    } else {
        let before = spec_passes(data, w, h, rh, rv, k - 1);
        let front = spec_box_blur_horz(before.1, w, rh[k - 1]);
        (front, spec_box_blur_vert(front, w, h, rv[k - 1]))
    }
}

/// The radius of a box of the given width: half of what lies beside its centre.
pub open spec fn spec_radius(size: int) -> int {
    if size < 1 {
        0
    } else {
        (size - 1) / 2
    }
}

/// The radius of a box of the given width.
fn radius_of(size: i32) -> (r: usize)
    ensures
        r == spec_radius(size as int),
{
    if size < 1 {
        0
    } else {
        ((size - 1) / 2) as usize
    }
}

/// The radii of a row of boxes.
pub open spec fn spec_radii(sizes: Seq<int>) -> Seq<int> {
    Seq::new(sizes.len(), |i: int| spec_radius(sizes[i]))
}

/// A row of widths as integers.
pub open spec fn widths_of(sizes: Seq<i32>) -> Seq<int> {
    Seq::new(sizes.len(), |i: int| sizes[i] as int)
}

/// The widths of `n` boxes that together come near a Gaussian of the
/// deviation `sigma`: with the ideal width `sqrt(12 sigma^2 / n) + 1`, the
/// first `m` boxes have the odd width `wl` below it and the others the
/// width `wl + 2`, where `m` is the rounded
/// `(12 sigma^2 - n wl^2 - 4 n wl - 3 n) / (-4 wl - 4)`. Every width is one
/// where the deviation is not positive.
pub open spec fn spec_box_sizes(sigma: int, n: int) -> Seq<int> {
    if sigma > 0 {
        let nf = saturate(n * SCALE);
        let variance = spec_mul(spec_mul(12 * SCALE, sigma), sigma);
        let w_ideal = saturate(spec_sqrt(spec_div(variance, nf)) + SCALE);
        let whole = w_ideal / (SCALE as int);
        let wl = if whole % 2 == 0 {
            whole - 1
        } else {
            whole
        };
        let wlf = saturate(wl * SCALE);
        let m_ideal = spec_div(
            saturate(
                saturate(
                    saturate(variance - spec_mul(spec_mul(nf, wlf), wlf)) - spec_mul(
                        spec_mul(4 * SCALE, nf),
                        wlf,
                    ),
                ) - spec_mul(3 * SCALE, nf),
            ),
            saturate(spec_mul(-4 * SCALE, wlf) - 4 * SCALE),
        );
        let m = if m_ideal < SCALE / 2 {
            0
        } else {
            (m_ideal + SCALE / 2) / (SCALE as int)
        };
        Seq::new(
            n as nat,
            |i: int|
                if i < m {
                    wl
                } else {
                    wl + 2
                },
        )
    } else {
        Seq::new(n as nat, |i: int| 1int)
    }
}

/// The widths of `n` boxes that together come near a Gaussian of the
/// deviation `sigma`.
pub fn create_box_gauss(sigma: Fixed, n: usize) -> (r: Vec<i32>)
    ensures
        r@.len() == n,
        forall|i: int| 0 <= i < n ==> #[trigger] r@[i] == spec_box_sizes(sigma@, n as int)[i],
{
    let mut sizes: Vec<i32> = Vec::new();
    if sigma.raw() > 0 {
        let n_float: Fixed = if (n as u128) > 0x7fff_ffff_ffff_ffff {
            Fixed::infinity()
        } else {
            Fixed::from_int(n as i64)
        };
        let variance: Fixed = Fixed::from_int(12).mul(sigma).mul(sigma);
        let w_ideal: Fixed = variance.div(n_float).sqrt().add(Fixed::one());
        let whole: i64 = w_ideal.raw() / SCALE;
        assert(0 <= whole <= 1_000_000_000);
        let mut wl: i32 = whole as i32;
        if wl % 2 == 0 {
            wl = wl - 1;
        }
        let wu: i32 = wl + 2;
        let wl_float: Fixed = Fixed::from_int(wl as i64);
        let m_ideal: Fixed = variance.sub(n_float.mul(wl_float).mul(wl_float)).sub(
            Fixed::from_int(4).mul(n_float).mul(wl_float),
        ).sub(Fixed::from_int(3).mul(n_float)).div(
            Fixed::from_int(-4).mul(wl_float).sub(Fixed::from_int(4)),
        );
        let m: i64 = if m_ideal.raw() < SCALE / 2 {
            0
        } else {
            (m_ideal.raw() + SCALE / 2) / SCALE
        };
        let mut i: usize = 0;
        while i < n
            invariant
                i <= n,
                sizes@.len() == i,
                m >= 0,
                forall|j: int|
                    0 <= j < i ==> #[trigger] sizes@[j] == (if j < m {
                        wl
                    } else {
                        wu
                    }),
            decreases n - i,
        {
            if (i as u128) < (m as u128) {
                sizes.push(wl);
            } else {
                sizes.push(wu);
            }
            i = i + 1;
        }
        sizes
    } else {
        let mut i: usize = 0;
        while i < n
            invariant
                i <= n,
                sizes@.len() == i,
                forall|j: int| 0 <= j < i ==> #[trigger] sizes@[j] == 1,
            decreases n - i,
        {
            sizes.push(1);
            i = i + 1;
        }
        sizes
    }
}

/// A copy of an image.
fn copy_image(data: &Vec<[Fixed; 3]>) -> (r: Vec<[Fixed; 3]>)
    ensures
        r@ == data@,
{
    let mut copy: Vec<[Fixed; 3]> = Vec::new();
    let mut i: usize = 0;
    while i < data.len()
        invariant
            i <= data.len(),
            copy@.len() == i,
            forall|j: int| 0 <= j < i ==> #[trigger] copy@[j] == data@[j],
        decreases data.len() - i,
    {
        copy.push(data[i]);
        i = i + 1;
    }
    assert(copy@ =~= data@);
    copy
}

/// Blurs the image by one pass of box blurs for every pair of widths.
fn blur_passes(
    data: &mut Vec<[Fixed; 3]>,
    width: usize,
    height: usize,
    boxes_horz: &Vec<i32>,
    boxes_vert: &Vec<i32>,
)
    requires
        width >= 1,
        height >= 1,
        old(data)@.len() == width * height,
        boxes_horz@.len() == boxes_vert@.len(),
    ensures
        final(data)@.len() == old(data)@.len(),
        image_of(final(data)@) == spec_passes(
            image_of(old(data)@),
            width as int,
            height as int,
            spec_radii(widths_of(boxes_horz@)),
            spec_radii(widths_of(boxes_vert@)),
            boxes_horz@.len() as int,
        ).0,
{
    let mut backbuf: Vec<[Fixed; 3]> = copy_image(data);
    let ghost start = image_of(data@);
    let ghost rh = spec_radii(widths_of(boxes_horz@));
    let ghost rv = spec_radii(widths_of(boxes_vert@));
    let mut k: usize = 0;
    while k < boxes_horz.len()
        invariant
            k <= boxes_horz.len(),
            boxes_horz@.len() == boxes_vert@.len(),
            width >= 1,
            height >= 1,
            data@.len() == width * height,
            backbuf@.len() == data@.len(),
            data@.len() == old(data)@.len(),
            start == image_of(old(data)@),
            rh == spec_radii(widths_of(boxes_horz@)),
            rv == spec_radii(widths_of(boxes_vert@)),
            (image_of(data@), image_of(backbuf@)) == spec_passes(
                start,
                width as int,
                height as int,
                rh,
                rv,
                k as int,
            ),
        decreases boxes_horz.len() - k,
    {
        let radius_horz: usize = radius_of(boxes_horz[k]);
        let radius_vert: usize = radius_of(boxes_vert[k]);
        box_blur(&mut backbuf, data, width, height, radius_horz, radius_vert);
        k = k + 1;
    }
}

/// The image after a Gaussian blur with the deviations `sh` along the
/// rows and `sv` along the columns: three passes of box blurs with the widths
/// that belong to the deviations. What is kept is the image after the rows of
/// the third pass were blurred.
pub open spec fn spec_gaussian_blur(data: Image, w: int, h: int, sh: int, sv: int) -> Image {
    spec_passes(
        data,
        w,
        h,
        spec_radii(spec_box_sizes(sh, 3)),
        spec_radii(spec_box_sizes(sv, 3)),
        3,
    ).0
}

/// Blurs the image by a Gaussian of the deviation `blur_radius`, as three
/// passes of box blurs.
pub fn gaussian_blur(data: &mut Vec<[Fixed; 3]>, width: usize, height: usize, blur_radius: Fixed)
    requires
        width >= 1,
        height >= 1,
        old(data)@.len() == width * height,
    ensures
        final(data)@.len() == old(data)@.len(),
        image_of(final(data)@) == spec_gaussian_blur(
            image_of(old(data)@),
            width as int,
            height as int,
            blur_radius@,
            blur_radius@,
        ),
{
    let boxes: Vec<i32> = create_box_gauss(blur_radius, 3);
    assert(widths_of(boxes@) =~= spec_box_sizes(blur_radius@, 3));
    blur_passes(data, width, height, &boxes, &boxes);
}

/// As `gaussian_blur`, with a deviation of its own for each direction.
pub fn gaussian_blur_asymmetric(
    data: &mut Vec<[Fixed; 3]>,
    width: usize,
    height: usize,
    blur_radius_horizontal: Fixed,
    blur_radius_vertical: Fixed,
)
    requires
        width >= 1,
        height >= 1,
        old(data)@.len() == width * height,
    ensures
        final(data)@.len() == old(data)@.len(),
        image_of(final(data)@) == spec_gaussian_blur(
            image_of(old(data)@),
            width as int,
            height as int,
            blur_radius_horizontal@,
            blur_radius_vertical@,
        ),
{
    let boxes_horz: Vec<i32> = create_box_gauss(blur_radius_horizontal, 3);
    let boxes_vert: Vec<i32> = create_box_gauss(blur_radius_vertical, 3);
    assert(widths_of(boxes_horz@) =~= spec_box_sizes(blur_radius_horizontal@, 3));
    assert(widths_of(boxes_vert@) =~= spec_box_sizes(blur_radius_vertical@, 3));
    blur_passes(data, width, height, &boxes_horz, &boxes_vert);
}

/// An image of one channel as an image of three: the channel comes
/// first, the others are zero.
pub open spec fn spec_lifted(data: Seq<int>) -> Image {
    Seq::new(data.len(), |i: int| Point { x: data[i], y: 0, z: 0 })
}

/// As `gaussian_blur_asymmetric`, for an image of one channel.
pub fn gaussian_blur_asymmetric_single_channel(
    data: &mut Vec<Fixed>,
    width: usize,
    height: usize,
    blur_radius_horizontal: Fixed,
    blur_radius_vertical: Fixed,
)
    requires
        width >= 1,
        height >= 1,
        old(data)@.len() == width * height,
    ensures
        final(data)@.len() == old(data)@.len(),
        forall|i: int|
            0 <= i < old(data)@.len() ==> (#[trigger] final(data)@[i])@ == spec_gaussian_blur(
                spec_lifted(Seq::new(old(data)@.len(), |j: int| old(data)@[j]@)),
                width as int,
                height as int,
                blur_radius_horizontal@,
                blur_radius_vertical@,
            )[i].x,
{
    let zero: Fixed = Fixed::zero();
    let ghost start = Seq::new(data@.len(), |j: int| data@[j]@);
    let mut lifted: Vec<[Fixed; 3]> = Vec::new();
    let mut i: usize = 0;
    while i < data.len()
        invariant
            i <= data.len(),
            lifted@.len() == i,
            zero@ == 0,
            forall|j: int| 0 <= j < i ==> point_of(#[trigger] lifted@[j]) == (Point {
                x: data@[j]@,
                y: 0,
                z: 0,
            }),
        decreases data.len() - i,
    {
        lifted.push([data[i], zero, zero]);
        i = i + 1;
    }
    assert(image_of(lifted@) =~= spec_lifted(start));
    gaussian_blur_asymmetric(
        &mut lifted,
        width,
        height,
        blur_radius_horizontal,
        blur_radius_vertical,
    );
    let mut k: usize = 0;
    while k < data.len()
        invariant
            k <= data.len(),
            data@.len() == lifted@.len(),
            data@.len() == old(data)@.len(),
            forall|j: int| 0 <= j < k ==> (#[trigger] data@[j])@ == image_of(lifted@)[j].x,
        decreases data.len() - k,
    {
        data.set(k, lifted[k][0]);
        k = k + 1;
    }
}

} // verus!
