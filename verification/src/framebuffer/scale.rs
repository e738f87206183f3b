//! Nearest-neighbour scaling by the ratio of the heights, in exact integer
//! arithmetic.

use vstd::prelude::*;
use vstd::arithmetic::div_mod::lemma_fundamental_div_mod_converse;

verus! {

/// The quotient `n / d` rounded to the nearest integer, a half rounded up.
pub open spec fn div_round(n: int, d: int) -> int {
    (2 * n + d) / (2 * d)
}

/// Where the coordinate `v` of the source lands when `src_h` rows are
/// stretched over `dst_h` rows: `round(v * dst_h / src_h)`.
pub open spec fn scale_coord(v: int, dst_h: int, src_h: int) -> int {
    div_round(v * dst_h, src_h)
}

/// A source image of `src_w` by `src_h` pixels on its way to a surface of
/// `dst_w` by `dst_h` visible pixels.
pub struct Scaling {
    pub dst_w: int,
    pub dst_h: int,
    pub src_w: int,
    pub src_h: int,
}

impl Scaling {
    /// Width of the scaled image.
    pub open spec fn scaled_w(self) -> int {
        scale_coord(self.src_w, self.dst_h, self.src_h)
    }

    /// Column of the surface at which the scaled image begins, so that it is
    /// centred. Negative where the scaled image is wider than the surface;
    /// the half is rounded towards zero.
    pub open spec fn x_offset(self) -> int {
        if self.dst_w >= self.scaled_w() {
            (self.dst_w - self.scaled_w()) / 2
        } else {
            -((self.scaled_w() - self.dst_w) / 2)
        }
    }

    /// Number of pixels of the source.
    pub open spec fn count(self) -> nat {
        if self.src_w > 0 && self.src_h > 0 {
            (self.src_w * self.src_h) as nat
        } else {
            0
        }
    }

    /// Column and row, in the surface, of the source pixel at `(sx, sy)`.
    pub open spec fn destination(self, sx: int, sy: int) -> (int, int) {
        (
            scale_coord(sx, self.dst_h, self.src_h) + self.x_offset(),
            scale_coord(sy, self.dst_h, self.src_h),
        )
    }

    /// The visible pixel that the `k`-th source pixel, counted row by row
    /// from the top left, is written to; `None` where it falls outside the
    /// surface.
    pub open spec fn target(self, k: int) -> Option<(int, int)> {
        let (dx, dy) = self.destination(k % self.src_w, k / self.src_w);
        if 0 <= dx < self.dst_w && 0 <= dy < self.dst_h {
            Some((dx, dy))
        } else {
            None
        }
    }

    /// Among the first `n` source pixels in scan order, the last one that is
    /// written to `(x, y)`.
    pub open spec fn last_source(self, n: nat, x: int, y: int) -> Option<int>
        decreases n,
    {
        if n == 0 {
            None
        } else if self.target(n - 1) == Some((x, y)) {
            Some(n - 1)
        } else {
            self.last_source((n - 1) as nat, x, y)
        }
    }

    /// `last_source` names the source pixel that maps to `(x, y)` and that no
    /// later one in scan order maps to; it is `None` exactly when no source
    /// pixel maps there.
    pub proof fn lemma_last_source(self, n: nat, x: int, y: int)
        ensures
            match self.last_source(n, x, y) {
                Some(k) => {
                    &&& 0 <= k < n
                    &&& self.target(k) == Some((x, y))
                    &&& forall|later: int|
                        k < later < n ==> #[trigger] self.target(later) != Some((x, y))
                },
                None => forall|k: int| 0 <= k < n ==> #[trigger] self.target(k) != Some((x, y)),
            },
        decreases n,
    {
        if n > 0 && self.target(n - 1) != Some((x, y)) {
            self.lemma_last_source((n - 1) as nat, x, y);
        }
    }

    /// Source pixels that are written nowhere leave `last_source` as it was.
    pub proof fn lemma_last_source_skip(self, from: nat, to: nat, x: int, y: int)
        requires
            from <= to,
            forall|k: int| from <= k < to ==> #[trigger] self.target(k) is None,
        ensures
            self.last_source(to, x, y) == self.last_source(from, x, y),
        decreases to - from,
    {
        if from < to {
            assert(self.target(to - 1) is None);
            self.lemma_last_source_skip(from, (to - 1) as nat, x, y);
        }
    }
}

/// The column and the row of the `k`-th pixel of an image `w` pixels wide.
pub proof fn lemma_scan_position(w: int, sx: int, sy: int)
    requires
        0 <= sx < w,
        0 <= sy,
    ensures
        (sy * w + sx) % w == sx,
        (sy * w + sx) / w == sy,
{
    lemma_fundamental_div_mod_converse(sy * w + sx, w, sy, sx);
}

/// `round(v * dst_h / src_h)`, computed without overflow.
pub fn scale_coordinate(v: usize, dst_h: usize, src_h: usize) -> (scaled: u128)
    requires
        src_h > 0,
        3 * v <= usize::MAX,
    ensures
        scaled == scale_coord(v as int, dst_h as int, src_h as int),
{
    let wide_v: u128 = v as u128;
    let wide_dst: u128 = dst_h as u128;
    let wide_src: u128 = src_h as u128;
    assert(2 * (wide_v * wide_dst) + wide_src <= u128::MAX) by (nonlinear_arith)
        requires
            3 * wide_v <= 0xffff_ffff_ffff_ffff,
            wide_dst <= 0xffff_ffff_ffff_ffff,
            wide_src <= 0xffff_ffff_ffff_ffff,
    ;
    assert(0 <= wide_v * wide_dst <= u128::MAX) by (nonlinear_arith)
        requires
            3 * wide_v <= 0xffff_ffff_ffff_ffff,
            wide_dst <= 0xffff_ffff_ffff_ffff,
    ;
    (2 * (wide_v * wide_dst) + wide_src) / (2 * wide_src)
}

} // verus!
