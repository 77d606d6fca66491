use vstd::prelude::*;

verus! {

/// Width of a terminal cell in image pixels, as the fitting assumes it.
pub const CELL_WIDTH: u32 = 1;

/// Height of a terminal cell in image pixels, as the fitting assumes it.
pub const CELL_HEIGHT: u32 = 2;

/// The cells an image covers at its own size: every pixel gets a cell, a
/// partly covered cell counts whole.
pub open spec fn natural_cells(width: int, height: int) -> (int, int) {
    (
        (width + CELL_WIDTH - 1) / CELL_WIDTH as int,
        (height + CELL_HEIGHT - 1) / CELL_HEIGHT as int,
    )
}

/// The largest footprint of the image's proportions inside `cols` by `rows`
/// cells: the axis that binds first is met exactly, the other rounded down.
pub open spec fn fitted_cells(width: int, height: int, cols: int, rows: int) -> (int, int) {
    if cols * height * CELL_WIDTH <= rows * width * CELL_HEIGHT {
        (cols, cols * height * CELL_WIDTH / (width * CELL_HEIGHT))
    } else {
        (rows * width * CELL_HEIGHT / (height * CELL_WIDTH), rows)
    }
}

/// The footprint requested for an image: its natural size when no bound is
/// given; else the fit into the bounds, an absent bound leaving its axis
/// free; without `upscale` never larger than the natural size.
pub open spec fn fit(
    width: u32,
    height: u32,
    cols: Option<u32>,
    rows: Option<u32>,
    upscale: bool,
) -> (int, int) {
    let natural = natural_cells(width as int, height as int);
    if cols is None && rows is None {
        natural
    } else {
        let fitted = fitted_cells(
            width as int,
            height as int,
            cols.unwrap_or(u32::MAX) as int,
            rows.unwrap_or(u32::MAX) as int,
        );
        if !upscale && (fitted.0 > natural.0 || fitted.1 > natural.1) {
            natural
        } else {
            fitted
        }
    }
}

proof fn lemma_quotient_bound(a: int, d: int, b: int)
    requires
        0 <= a,
        0 < d,
        0 <= b,
        a <= b * d,
    ensures
        0 <= a / d <= b,
{
    assert(a / d <= b) by (nonlinear_arith)
        requires 0 <= a, 0 < d, 0 <= b, a <= b * d;
    assert(0 <= a / d) by (nonlinear_arith)
        requires 0 <= a, 0 < d;
}

proof fn lemma_fallback_fits(w: int, h: int, c: int, r: int)
    requires
        w > 0,
        h > 0,
        c >= 0,
        r >= 0,
        fitted_cells(w, h, c, r).0 > natural_cells(w, h).0 || fitted_cells(w, h, c, r).1
            > natural_cells(w, h).1,
    ensures
        natural_cells(w, h).0 <= c,
        natural_cells(w, h).1 <= r,
{
    let n1 = (h + 1) / 2;
    assert(natural_cells(w, h) == (w, n1));
    if c * h <= r * w * 2 {
        assert(fitted_cells(w, h, c, r) == (c, c * h / (w * 2)));
        if c <= w {
            assert(c * h <= w * h) by (nonlinear_arith)
                requires c <= w, h > 0;
            assert(c * h / (w * 2) <= h / 2) by (nonlinear_arith)
                requires c * h <= w * h, w > 0, h > 0, c >= 0;
        } else {
            assert(h < 2 * r) by (nonlinear_arith)
                requires c * h <= r * w * 2, c >= w + 1, w > 0, h > 0, r >= 0;
        }
    } else {
        assert(fitted_cells(w, h, c, r) == (r * w * 2 / h, r));
        if r > n1 {
            assert(c > w) by (nonlinear_arith)
                requires c * h > r * w * 2, 2 * r >= h + 1, w > 0, h > 0;
        } else {
            assert(r * w * 2 / h >= w + 1);
            assert(r * w * 2 >= (w + 1) * h) by (nonlinear_arith)
                requires r * w * 2 / h >= w + 1, h > 0, r >= 0, w > 0;
            assert(2 * r > h) by (nonlinear_arith)
                requires r * w * 2 >= (w + 1) * h, h > 0, w > 0, r >= 0;
            assert(c > w) by (nonlinear_arith)
                requires c * h > r * w * 2, r * w * 2 >= (w + 1) * h, w > 0, h > 0;
        }
    }
}

/// The footprint never exceeds a bound that was asked for, whether or not
/// upscaling is allowed.
pub proof fn lemma_fit_within_bounds(
    width: u32,
    height: u32,
    cols: Option<u32>,
    rows: Option<u32>,
    upscale: bool,
)
    requires
        width > 0,
        height > 0,
    ensures
        cols is Some ==> fit(width, height, cols, rows, upscale).0 <= cols.unwrap(),
        rows is Some ==> fit(width, height, cols, rows, upscale).1 <= rows.unwrap(),
{
    if cols is Some || rows is Some {
        let (w, h) = (width as int, height as int);
        let c = cols.unwrap_or(u32::MAX) as int;
        let r = rows.unwrap_or(u32::MAX) as int;
        let f = fitted_cells(w, h, c, r);
        let n = natural_cells(w, h);
        if c * h <= r * w * 2 {
            assert(r * (w * 2) == r * w * 2) by (nonlinear_arith);
            lemma_quotient_bound(c * h, w * 2, r);
        } else {
            lemma_quotient_bound(r * w * 2, h, c);
        }
        if f.0 > n.0 || f.1 > n.1 {
            lemma_fallback_fits(w, h, c, r);
        }
    }
}

/// Computes the terminal cells (columns, rows) to request for an image of
/// `width` by `height` pixels.
pub fn fit_bounds(width: u32, height: u32, cols: Option<u32>, rows: Option<u32>, upscale: bool) -> (r: (u32, u32))
    requires
        width > 0,
        height > 0,
    ensures
        r.0 as int == fit(width, height, cols, rows, upscale).0,
        r.1 as int == fit(width, height, cols, rows, upscale).1,
        !upscale ==> r.0 as int <= natural_cells(width as int, height as int).0,
        !upscale ==> r.1 as int <= natural_cells(width as int, height as int).1,
{
    let natural_cols: u32 = width;
    let natural_rows: u32 = height / 2 + height % 2;
    if cols.is_none() && rows.is_none() {
        return (natural_cols, natural_rows);
    }
    let c: u32 = match cols {
        Some(v) => v,
        None => u32::MAX,
    };
    let r: u32 = match rows {
        Some(v) => v,
        None => u32::MAX,
    };
    let (w, h, c128, r128) = (width as u128, height as u128, c as u128, r as u128);
    proof {
        assert(c128 * h <= 0xffff_ffff * 0xffff_ffffu128) by (nonlinear_arith)
            requires c128 <= 0xffff_ffff, h <= 0xffff_ffff;
        assert(r128 * w <= 0xffff_ffff * 0xffff_ffffu128) by (nonlinear_arith)
            requires r128 <= 0xffff_ffff, w <= 0xffff_ffff;
    }
    let fitted: (u32, u32) = if c128 * h <= r128 * w * 2 {
        proof {
            assert((r128 * w * 2) as int == r as int * (w * 2) as int) by (nonlinear_arith)
                requires r128 == r as u128, r128 * w <= 0xffff_ffff * 0xffff_ffffu128;
            lemma_quotient_bound((c128 * h) as int, (w * 2) as int, r as int);
        }
        (c, (c128 * h / (w * 2)) as u32)
    } else {
        proof {
            lemma_quotient_bound((r128 * w * 2) as int, h as int, c as int);
        }
        ((r128 * w * 2 / h) as u32, r)
    };
    if !upscale && (fitted.0 > natural_cols || fitted.1 > natural_rows) {
        (natural_cols, natural_rows)
    } else {
        fitted
    }
}

} // verus!
