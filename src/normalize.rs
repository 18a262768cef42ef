use vstd::prelude::*;

verus! {

/// `num / den` rounded to the nearest integer, halves upwards.
pub open spec fn round_div(num: int, den: int) -> int {
    (2 * num + den) / (2 * den)
}

/// The column of sample `i` of `n` across `width`: spread evenly from 0 to
/// `width`, rounded; the middle for a single sample.
pub open spec fn point_x(i: int, n: int, width: int) -> int {
    if n == 1 {
        width / 2
    } else {
        round_div(i * width, n - 1)
    }
}

/// The row of value `v` on a plot `height` rows tall: the value's position in
/// `[min, max]`, clamped to that range, measured upwards from row `height`;
/// the middle row when the range is empty.
pub open spec fn point_y(v: int, min: int, max: int, height: int) -> int {
    let range = max - min;
    if range == 0 {
        height / 2
    } else {
        let num = if range > 0 { v - min } else { min - v };
        let den = if range > 0 { range } else { -range };
        if num <= 0 {
            height
        } else if num >= den {
            0
        } else {
            height - round_div(num * height, den)
        }
    }
}

/// A sample at the minimum lands on the bottom row, one at the maximum on the
/// top row, and one exactly halfway on the middle row.
pub proof fn lemma_normalize_bounds(min: int, max: int, height: nat)
    requires
        min < max,
    ensures
        point_y(min, min, max, height as int) == height,
        point_y(max, min, max, height as int) == 0,
        (min + max) % 2 == 0 ==> point_y((min + max) / 2, min, max, height as int) == height as int / 2,
{
    if (min + max) % 2 == 0 {
        let r = max - min;
        let m = (min + max) / 2 - min;
        assert(2 * m == r);
        assert(r >= 2);
        let h = height as int;
        assert(2 * (m * h) + r == r * (h + 1)) by (nonlinear_arith)
            requires
                2 * m == r,
        ;
        vstd::arithmetic::div_mod::lemma_div_multiples_vanish_quotient(r, h + 1, 2);
        assert(r * 2 == 2 * r);
        assert(round_div(m * h, r) == (h + 1) / 2);
    }
}

/// Every column lies within `[0, width]`.
pub proof fn lemma_x_fits(i: int, n: int, width: int)
    requires
        0 <= i < n,
        0 <= width,
    ensures
        0 <= point_x(i, n, width) <= width,
{
    if n != 1 {
        assert(0 <= round_div(i * width, n - 1) <= width) by (nonlinear_arith)
            requires
                0 <= i <= n - 1,
                n - 1 >= 1,
                0 <= width,
        {
            let d = n - 1;
            assert(i * width <= d * width);
            assert(2 * (i * width) + d < 2 * d * (width + 1));
        }
    }
}

/// Every row lies within `[0, height]`.
pub proof fn lemma_y_fits(v: int, min: int, max: int, height: int)
    requires
        0 <= height,
    ensures
        0 <= point_y(v, min, max, height) <= height,
{
    let range = max - min;
    if range != 0 {
        let num = if range > 0 { v - min } else { min - v };
        let den = if range > 0 { range } else { -range };
        if 0 < num < den {
            assert(0 <= round_div(num * height, den) <= height) by (nonlinear_arith)
                requires
                    0 < num < den,
                    0 <= height,
            {
                assert(num * height <= den * height);
                assert(2 * (num * height) + den < 2 * den * (height + 1));
            }
        }
    }
}

/// The canvas position of every sample, in order.
pub open spec fn normalized(data: Seq<i64>, min: i64, max: i64, width: u32, height: u32) -> Seq<(u32, u32)> {
    Seq::new(
        data.len(),
        |i: int|
            (
                point_x(i, data.len() as int, width as int) as u32,
                point_y(data[i] as int, min as int, max as int, height as int) as u32,
            ),
    )
}

fn column_of(i: usize, n: usize, width: u32) -> (r: u32)
    requires
        i < n,
    ensures
        r == point_x(i as int, n as int, width as int),
{
    proof {
        lemma_x_fits(i as int, n as int, width as int);
    }
    if n == 1 {
        return width / 2;
    }
    let d = (n - 1) as u128;
    assert((i as u128) * (width as u128) <= 0xffff_ffff_ffff_ffff * 0xffff_ffff) by (nonlinear_arith)
        requires
            i <= 0xffff_ffff_ffff_ffffu64,
            width <= 0xffff_ffffu32,
    ;
    let num = (i as u128) * (width as u128);
    ((2 * num + d) / (2 * d)) as u32
}

fn row_of(v: i64, min: i64, max: i64, height: u32) -> (r: u32)
    ensures
        r == point_y(v as int, min as int, max as int, height as int),
{
    proof {
        lemma_y_fits(v as int, min as int, max as int, height as int);
    }
    let range = max as i128 - min as i128;
    if range == 0 {
        return height / 2;
    }
    let num: i128 = if range > 0 { v as i128 - min as i128 } else { min as i128 - v as i128 };
    let den: i128 = if range > 0 { range } else { -range };
    if num <= 0 {
        height
    } else if num >= den {
        0
    } else {
        assert(num * (height as i128) <= 0x1_0000_0000_0000_0000 * 0x1_0000_0000) by (nonlinear_arith)
            requires
                0 < num < 0x1_0000_0000_0000_0000,
                0 <= height <= 0xffff_ffffu32,
        ;
        let scaled = num * (height as i128);
        let rounded = (2 * scaled + den) / (2 * den);
        (height as i128 - rounded) as u32
    }
}

/// Maps each sample to a canvas position on a `width` x `height` plot: `x`
/// spreads the samples evenly over the width, `y` places the value within
/// `[min, max]` (clamped), larger values higher up. One point per sample, in order.
pub fn normalize_points(data: &Vec<i64>, min_val: i64, max_val: i64, width: u32, height: u32) -> (r: Vec<(u32, u32)>)
    ensures
        r@ == normalized(data@, min_val, max_val, width, height),
        forall|i: int|
            0 <= i < r@.len() ==> #[trigger] r@[i].0 <= width && r@[i].1 <= height,
{
    let n = data.len();
    let mut out: Vec<(u32, u32)> = Vec::with_capacity(n);
    let mut i: usize = 0;
    while i < n
        invariant
            n == data@.len(),
            0 <= i <= n,
            out@.len() == i,
            forall|j: int|
                0 <= j < i ==> #[trigger] out@[j] == normalized(data@, min_val, max_val, width, height)[j],
        decreases n - i,
    {
        let x = column_of(i, n, width);
        let y = row_of(data[i], min_val, max_val, height);
        out.push((x, y));
        i = i + 1;
    }
    assert(out@ =~= normalized(data@, min_val, max_val, width, height));
    assert forall|i: int| 0 <= i < out@.len() implies #[trigger] out@[i].0 <= width && out@[i].1 <= height by {
        lemma_x_fits(i, n as int, width as int);
        lemma_y_fits(data@[i] as int, min_val as int, max_val as int, height as int);
    }
    out
}

} // verus!
