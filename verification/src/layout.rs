//! Packing of equally sized viewports into one power-of-two atlas.

use vstd::prelude::*;
use vstd::arithmetic::power2::{
    lemma2_to64, lemma2_to64_rest, lemma_pow2_pos, lemma_pow2_strictly_increases,
    lemma_pow2_unfold, pow2,
};

verus! {

/// `p` is `2^k` for some natural number `k`.
pub open spec fn is_power_of_2(p: nat) -> bool {
    exists|k: nat| p == pow2(k)
}

/// `p` is the smallest power of two that is not below `n`.
pub open spec fn is_next_power_of_2(p: nat, n: nat) -> bool {
    &&& is_power_of_2(p)
    &&& p >= n
    &&& forall|q: nat| #[trigger] is_power_of_2(q) && q >= n ==> p <= q
}

/// The smallest power of two that is not below `n`: `1` for `n <= 1`, and
/// otherwise twice the smallest power of two not below `ceil(n / 2)`.
pub open spec fn spec_next_power_of_2(n: nat) -> nat
    decreases n,
{
    if n <= 1 {
        1
    } else {
        2 * spec_next_power_of_2((n + 1) / 2)
    }
}

/// The largest argument whose next power of two still fits in a `usize`.
pub open spec fn max_power_of_2_input() -> nat {
    (usize::MAX / 2 + 1) as nat
}

/// Powers of two are ordered as their exponents are.
pub proof fn lemma_pow2_monotonic(a: nat, b: nat)
    ensures
        a <= b <==> pow2(a) <= pow2(b),
{
    if a < b {
        lemma_pow2_strictly_increases(a, b);
    }
    if b < a {
        lemma_pow2_strictly_increases(b, a);
    }
}

/// A power of two that is not below `n`, while its half is, is the next
/// power of two of `n`.
pub proof fn lemma_next_power_of_2_witness(k: nat, n: nat)
    requires
        n <= pow2(k),
        k == 0 || pow2((k - 1) as nat) < n,
    ensures
        is_next_power_of_2(pow2(k), n),
{
    assert(is_power_of_2(pow2(k)));
    assert forall|q: nat| #[trigger] is_power_of_2(q) && q >= n implies pow2(k) <= q by {
        let j = choose|j: nat| q == pow2(j);
        lemma_pow2_pos(j);
        if k > 0 {
            lemma_pow2_monotonic(j, (k - 1) as nat);
            lemma_pow2_monotonic(k, j);
        } else {
            lemma2_to64();
        }
    }
}

/// At most one number is the next power of two of `n`.
pub proof fn lemma_next_power_of_2_unique(p: nat, q: nat, n: nat)
    requires
        is_next_power_of_2(p, n),
        is_next_power_of_2(q, n),
    ensures
        p == q,
{
}

/// The recursive definition yields the smallest power of two not below `n`.
pub proof fn lemma_spec_next_power_of_2(n: nat)
    ensures
        is_next_power_of_2(spec_next_power_of_2(n), n),
    decreases n,
{
    lemma2_to64();
    if n <= 1 {
        lemma_next_power_of_2_witness(0, n);
    } else {
        let h = (n + 1) / 2;
        lemma_spec_next_power_of_2(h);
        let r = spec_next_power_of_2(h);
        let j = choose|j: nat| r == pow2(j);
        lemma_pow2_unfold(j + 1);
        if j > 0 {
            // pow2(j - 1) is a power of two below r, so it is below h.
            assert(is_power_of_2(pow2((j - 1) as nat)));
            lemma_pow2_strictly_increases((j - 1) as nat, j);
            assert(pow2((j - 1) as nat) < h);
            lemma_pow2_unfold(j);
        }
        lemma_next_power_of_2_witness(j + 1, n);
    }
}

/// Rounds `n` up to a power of two; `0` is rounded up to `1`.
pub fn next_power_of_2(n: usize) -> (p: usize)
    requires
        n <= max_power_of_2_input(),
    ensures
        is_next_power_of_2(p as nat, n as nat),
        p == spec_next_power_of_2(n as nat),
{
    let mut p: usize = 1;
    let ghost mut k: nat = 0;
    proof {
        lemma2_to64();
    }
    while p < n
        invariant
            p == pow2(k),
            k == 0 || pow2((k - 1) as nat) < n,
            n <= max_power_of_2_input(),
            p <= max_power_of_2_input(),
        decreases max_power_of_2_input() - p,
    {
        proof {
            lemma_pow2_pos(k);
            lemma_pow2_unfold(k + 1);
            lemma_word_half_is_power_of_2();
            let top = (usize::BITS - 1) as nat;
            lemma_pow2_monotonic(top, k);
            lemma_pow2_monotonic(k + 1, top);
        }
        p = p * 2;
        proof {
            k = k + 1;
        }
    }
    proof {
        lemma_next_power_of_2_witness(k, n as nat);
        lemma_spec_next_power_of_2(n as nat);
        lemma_next_power_of_2_unique(p as nat, spec_next_power_of_2(n as nat), n as nat);
    }
    p
}

/// The largest admissible argument is itself a power of two.
proof fn lemma_word_half_is_power_of_2()
    ensures
        max_power_of_2_input() == pow2((usize::BITS - 1) as nat),
{
    lemma2_to64();
    lemma2_to64_rest();
}

/// `c` is the ceiling of the square root of `n`.
pub open spec fn is_ceil_sqrt(c: nat, n: nat) -> bool {
    &&& c * c >= n
    &&& c > 0 ==> (c - 1) * (c - 1) < n
}

/// The number of columns of the grid that holds `n` views: the ceiling of
/// the square root of `n`.
pub open spec fn grid_cols(n: nat) -> nat
    decreases n,
{
    if n == 0 {
        0
    } else {
        let c = grid_cols((n - 1) as nat);
        if c * c >= n {
            c
        } else {
            c + 1
        }
    }
}

/// The number of rows of the grid that holds `n` views: `n` divided by the
/// number of columns, rounded up.
pub open spec fn grid_rows(n: nat) -> nat {
    let cols = grid_cols(n);
    if cols == 0 {
        0
    } else {
        ((n + cols - 1) / (cols as int)) as nat
    }
}

/// The atlas that holds `n` views of `vw` by `vh` pixels: each side of the
/// tightly packed grid, rounded up to a power of two.
pub open spec fn atlas_size(vw: nat, vh: nat, n: nat) -> (nat, nat) {
    (spec_next_power_of_2(grid_cols(n) * vw), spec_next_power_of_2(grid_rows(n) * vh))
}

/// The top left corner of view `i`, counted row by row.
pub open spec fn viewport_offset(vw: nat, vh: nat, n: nat, i: nat) -> (nat, nat) {
    ((i % grid_cols(n)) * vw, (i / grid_cols(n)) * vh)
}

/// Two rectangles of `w` by `h` pixels with top left corners `a` and `b`
/// share no pixel.
pub open spec fn viewports_disjoint(a: (nat, nat), b: (nat, nat), w: nat, h: nat) -> bool {
    a.0 + w <= b.0 || b.0 + w <= a.0 || a.1 + h <= b.1 || b.1 + h <= a.1
}

/// The inputs for which the grid and its atlas can be computed in machine
/// integers: all three are positive, the tightly packed grid fits in `u32`
/// and its next power of two in `usize`.
pub open spec fn grid_fits(view_width: u32, view_height: u32, num_views: u32) -> bool {
    &&& view_width > 0
    &&& view_height > 0
    &&& num_views > 0
    &&& grid_cols(num_views as nat) * view_width <= u32::MAX
    &&& grid_rows(num_views as nat) * view_height <= u32::MAX
    &&& grid_cols(num_views as nat) * view_width <= max_power_of_2_input()
    &&& grid_rows(num_views as nat) * view_height <= max_power_of_2_input()
}

/// `grid_cols(n)` is the ceiling of the square root of `n`.
pub proof fn lemma_grid_cols(n: nat)
    ensures
        is_ceil_sqrt(grid_cols(n), n),
    decreases n,
{
    if n > 0 {
        lemma_grid_cols((n - 1) as nat);
        let c = grid_cols((n - 1) as nat);
        assert((c + 1) * (c + 1) == c * c + 2 * c + 1) by (nonlinear_arith);
        assert((c + 1 - 1) * (c + 1 - 1) == c * c);
    }
}

/// A number has one ceiling of its square root.
pub proof fn lemma_ceil_sqrt_unique(a: nat, b: nat, n: nat)
    requires
        is_ceil_sqrt(a, n),
        is_ceil_sqrt(b, n),
    ensures
        a == b,
{
    if a < b {
        assert(a * a <= (b - 1) * (b - 1)) by (nonlinear_arith)
            requires
                0 <= a <= b - 1,
        ;
    }
    if b < a {
        assert(b * b <= (a - 1) * (a - 1)) by (nonlinear_arith)
            requires
                0 <= b <= a - 1,
        ;
    }
}

/// The grid has just enough rows: all views fit, and the last row is not
/// empty. It never has more rows than columns.
pub proof fn lemma_grid_rows(n: nat)
    requires
        n > 0,
    ensures
        grid_cols(n) >= 1,
        grid_rows(n) >= 1,
        grid_rows(n) <= grid_cols(n),
        grid_cols(n) * grid_rows(n) >= n,
        grid_cols(n) * (grid_rows(n) - 1) < n,
{
    lemma_grid_cols(n);
    let c = grid_cols(n) as int;
    assert(c >= 1) by (nonlinear_arith)
        requires
            c * c >= n,
            n > 0,
            c >= 0,
    ;
    let m = n + c - 1;
    let q = m / c;
    let r = m % c;
    vstd::arithmetic::div_mod::lemma_fundamental_div_mod(m, c);
    vstd::arithmetic::div_mod::lemma_mod_bound(m, c);
    assert(q >= 1 && c * q >= n && c * (q - 1) < n && q <= c) by (nonlinear_arith)
        requires
            m == c * q + r,
            0 <= r < c,
            m == n + c - 1,
            n > 0,
            c >= 1,
            c * c >= n,
    ;
}

/// Every view lies inside the atlas, and no two views share a pixel; both
/// sides of the atlas are powers of two, and a side of the tightly packed
/// grid that is a power of two already is kept as it is.
pub proof fn lemma_layout_packs(vw: nat, vh: nat, n: nat)
    requires
        vw > 0,
        vh > 0,
        n > 0,
    ensures
        is_next_power_of_2(atlas_size(vw, vh, n).0, grid_cols(n) * vw),
        is_next_power_of_2(atlas_size(vw, vh, n).1, grid_rows(n) * vh),
        is_power_of_2(grid_cols(n) * vw) ==> atlas_size(vw, vh, n).0 == grid_cols(n) * vw,
        is_power_of_2(grid_rows(n) * vh) ==> atlas_size(vw, vh, n).1 == grid_rows(n) * vh,
        forall|i: nat|
            i < n ==> {
                &&& (#[trigger] viewport_offset(vw, vh, n, i)).0 + vw <= atlas_size(vw, vh, n).0
                &&& viewport_offset(vw, vh, n, i).1 + vh <= atlas_size(vw, vh, n).1
            },
        forall|i: nat, j: nat|
            i < j < n ==> viewports_disjoint(
                #[trigger] viewport_offset(vw, vh, n, i),
                #[trigger] viewport_offset(vw, vh, n, j),
                vw,
                vh,
            ),
{
    lemma_grid_rows(n);
    lemma_spec_next_power_of_2(grid_cols(n) * vw);
    lemma_spec_next_power_of_2(grid_rows(n) * vh);
    assert forall|i: nat| i < n implies {
        &&& (#[trigger] viewport_offset(vw, vh, n, i)).0 + vw <= atlas_size(vw, vh, n).0
        &&& viewport_offset(vw, vh, n, i).1 + vh <= atlas_size(vw, vh, n).1
    } by {
        lemma_viewport_in_grid(vw, vh, n, i);
    }
    assert forall|i: nat, j: nat| i < j < n implies viewports_disjoint(
        #[trigger] viewport_offset(vw, vh, n, i),
        #[trigger] viewport_offset(vw, vh, n, j),
        vw,
        vh,
    ) by {
        lemma_viewports_apart(vw, vh, n, i, j);
    }
}

/// View `i` ends inside the tightly packed grid.
pub proof fn lemma_viewport_in_grid(vw: nat, vh: nat, n: nat, i: nat)
    requires
        i < n,
    ensures
        i % grid_cols(n) < grid_cols(n),
        i / grid_cols(n) < grid_rows(n),
        viewport_offset(vw, vh, n, i).0 + vw <= grid_cols(n) * vw,
        viewport_offset(vw, vh, n, i).1 + vh <= grid_rows(n) * vh,
{
    lemma_grid_rows(n);
    let c = grid_cols(n) as int;
    let rows = grid_rows(n) as int;
    let col = i as int % c;
    let row = i as int / c;
    vstd::arithmetic::div_mod::lemma_fundamental_div_mod(i as int, c);
    vstd::arithmetic::div_mod::lemma_mod_bound(i as int, c);
    assert(0 <= row < rows) by (nonlinear_arith)
        requires
            i == c * row + col,
            0 <= col < c,
            c * (rows - 1) < n,
            c * rows >= n,
            i < n,
            i >= 0,
            c >= 1,
    ;
    assert(col * vw + vw <= c * vw) by (nonlinear_arith)
        requires
            0 <= col < c,
            vw >= 0,
    ;
    assert(row * vh + vh <= rows * vh) by (nonlinear_arith)
        requires
            0 <= row < rows,
            vh >= 0,
    ;
}

/// Two different views share no pixel.
pub proof fn lemma_viewports_apart(vw: nat, vh: nat, n: nat, i: nat, j: nat)
    requires
        n > 0,
        i < j,
    ensures
        viewports_disjoint(
            viewport_offset(vw, vh, n, i),
            viewport_offset(vw, vh, n, j),
            vw,
            vh,
        ),
{
    lemma_grid_rows(n);
    let c = grid_cols(n) as int;
    let ci = i as int % c;
    let ri = i as int / c;
    let cj = j as int % c;
    let rj = j as int / c;
    vstd::arithmetic::div_mod::lemma_fundamental_div_mod(i as int, c);
    vstd::arithmetic::div_mod::lemma_fundamental_div_mod(j as int, c);
    vstd::arithmetic::div_mod::lemma_mod_bound(i as int, c);
    vstd::arithmetic::div_mod::lemma_mod_bound(j as int, c);
    if ri == rj {
        assert(ci < cj);
        assert(ci * vw + vw <= cj * vw) by (nonlinear_arith)
            requires
                0 <= ci < cj,
                vw >= 0,
        ;
    } else {
        assert(ri < rj) by (nonlinear_arith)
            requires
                i == c * ri + ci,
                j == c * rj + cj,
                0 <= ci < c,
                0 <= cj < c,
                i < j,
                ri != rj,
        ;
        assert(ri * vh + vh <= rj * vh) by (nonlinear_arith)
            requires
                0 <= ri < rj,
                vh >= 0,
        ;
    }
}


/// The offsets are those of `n` views of `vw` by `vh` pixels, row by row.
pub open spec fn is_grid_layout(offsets: Seq<(u32, u32)>, vw: nat, vh: nat, n: nat) -> bool {
    &&& offsets.len() == n
    &&& forall|i: int|
        0 <= i < n ==> {
            &&& (#[trigger] offsets[i]).0 == viewport_offset(vw, vh, n, i as nat).0
            &&& offsets[i].1 == viewport_offset(vw, vh, n, i as nat).1
        }
}

/// The rectangles of `vw` by `vh` pixels at `offsets` lie inside `atlas`,
/// no two of them share a pixel, and both sides of `atlas` are powers of two.
pub open spec fn is_packing(atlas: (nat, nat), offsets: Seq<(u32, u32)>, vw: nat, vh: nat) -> bool {
    &&& is_power_of_2(atlas.0)
    &&& is_power_of_2(atlas.1)
    &&& forall|i: int|
        0 <= i < offsets.len() ==> {
            &&& (#[trigger] offsets[i]).0 + vw <= atlas.0
            &&& offsets[i].1 + vh <= atlas.1
        }
    &&& forall|i: int, j: int|
        0 <= i < j < offsets.len() ==> viewports_disjoint(
            ((#[trigger] offsets[i]).0 as nat, offsets[i].1 as nat),
            ((#[trigger] offsets[j]).0 as nat, offsets[j].1 as nat),
            vw,
            vh,
        )
}

/// The number of columns of the grid for `num_views` views.
pub fn grid_columns(num_views: u32) -> (cols: u32)
    ensures
        cols == grid_cols(num_views as nat),
        is_ceil_sqrt(cols as nat, num_views as nat),
        cols <= 65536,
{
    let mut c: u32 = 0;
    let mut square: u64 = 0;
    while square < num_views as u64
        invariant
            square == c * c,
            c <= 65536,
            c > 0 ==> (c - 1) * (c - 1) < num_views,
        decreases 65536 - c,
    {
        proof {
            assert(c < 65536) by (nonlinear_arith)
                requires
                    c * c < 0x1_0000_0000,
            ;
            assert((c + 1) * (c + 1) == c * c + 2 * c + 1) by (nonlinear_arith);
            assert(c * c <= 65535 * 65535) by (nonlinear_arith)
                requires
                    0 <= c <= 65535,
            ;
        }
        square = square + 2 * (c as u64) + 1;
        c = c + 1;
    }
    proof {
        lemma_grid_cols(num_views as nat);
        lemma_ceil_sqrt_unique(c as nat, grid_cols(num_views as nat), num_views as nat);
    }
    c
}

/// The number of rows of the grid for `num_views` views in `cols` columns.
pub fn grid_row_count(num_views: u32, cols: u32) -> (rows: u32)
    requires
        num_views > 0,
        cols == grid_cols(num_views as nat),
    ensures
        rows == grid_rows(num_views as nat),
{
    proof {
        lemma_grid_rows(num_views as nat);
        vstd::arithmetic::div_mod::lemma_div_plus_one(num_views - 1, cols as int);
        vstd::arithmetic::div_mod::lemma_div_pos_is_pos(num_views - 1, cols as int);
    }
    (num_views - 1) / cols + 1
}

/// Whether a grid of `num_views` views of `view_width` by `view_height`
/// pixels can be laid out.
pub fn can_pack(view_width: u32, view_height: u32, num_views: u32) -> (fits: bool)
    ensures
        fits == grid_fits(view_width, view_height, num_views),
{
    if view_width == 0 || view_height == 0 || num_views == 0 {
        return false;
    }
    let cols: u32 = grid_columns(num_views);
    let rows: u32 = grid_row_count(num_views, cols);
    proof {
        lemma_grid_rows(num_views as nat);
        assert(cols * view_width <= 65536 * 0xffff_ffff) by (nonlinear_arith)
            requires
                cols <= 65536,
                view_width <= 0xffff_ffff,
        ;
        assert(rows * view_height <= 65536 * 0xffff_ffff) by (nonlinear_arith)
            requires
                rows <= 65536,
                view_height <= 0xffff_ffff,
        ;
    }
    let grid_width: u64 = (cols as u64) * (view_width as u64);
    let grid_height: u64 = (rows as u64) * (view_height as u64);
    let limit: u64 = (usize::MAX / 2) as u64 + 1;
    grid_width <= u32::MAX as u64 && grid_height <= u32::MAX as u64 && grid_width <= limit
        && grid_height <= limit
}

/// The size of the atlas for `num_views` views of `view_width` by
/// `view_height` pixels: each side of the tightly packed grid, rounded up to
/// a power of two unless it is one.
pub fn atlas_dimensions(view_width: u32, view_height: u32, num_views: u32) -> (atlas: (
    usize,
    usize,
))
    requires
        grid_fits(view_width, view_height, num_views),
    ensures
        (atlas.0 as nat, atlas.1 as nat) == atlas_size(
            view_width as nat,
            view_height as nat,
            num_views as nat,
        ),
{
    let cols: u32 = grid_columns(num_views);
    let rows: u32 = grid_row_count(num_views, cols);
    let initial_texture_width: u32 = cols * view_width;
    let initial_texture_height: u32 = rows * view_height;
    let texture_width: usize = next_power_of_2(initial_texture_width as usize);
    let texture_height: usize = next_power_of_2(initial_texture_height as usize);
    (texture_width, texture_height)
}

/// Packs `num_views` views of `view_width` by `view_height` pixels into one
/// atlas. The views fill a grid row by row; the grid has as many columns as
/// the square root of `num_views`, rounded up, and just enough rows. Returns
/// the atlas size, each side of the grid rounded up to a power of two, and
/// the top left corner of every view.
pub fn calculate_grid_dimensions(view_width: u32, view_height: u32, num_views: u32) -> (res: (
    (usize, usize),
    Vec<(u32, u32)>,
))
    requires
        grid_fits(view_width, view_height, num_views),
    ensures
        ((res.0).0 as nat, (res.0).1 as nat) == atlas_size(
            view_width as nat,
            view_height as nat,
            num_views as nat,
        ),
        is_grid_layout(res.1@, view_width as nat, view_height as nat, num_views as nat),
        is_packing(
            ((res.0).0 as nat, (res.0).1 as nat),
            res.1@,
            view_width as nat,
            view_height as nat,
        ),
{
    let ghost vw = view_width as nat;
    let ghost vh = view_height as nat;
    let ghost n = num_views as nat;
    let cols: u32 = grid_columns(num_views);
    let rows: u32 = grid_row_count(num_views, cols);
    proof {
        lemma_grid_rows(n);
    }
    let (texture_width, texture_height) = atlas_dimensions(view_width, view_height, num_views);

    let mut positions: Vec<(u32, u32)> = Vec::with_capacity(num_views as usize);
    let mut i: u32 = 0;
    while i < num_views
        invariant
            i <= num_views,
            num_views > 0,
            cols == grid_cols(n),
            rows == grid_rows(n),
            n == num_views,
            vw == view_width,
            vh == view_height,
            cols >= 1,
            cols * view_width <= u32::MAX,
            rows * view_height <= u32::MAX,
            positions@.len() == i,
            forall|k: int|
                0 <= k < i ==> {
                    &&& (#[trigger] positions@[k]).0 == viewport_offset(vw, vh, n, k as nat).0
                    &&& positions@[k].1 == viewport_offset(vw, vh, n, k as nat).1
                },
        decreases num_views - i,
    {
        let row: u32 = i / cols;
        let col: u32 = i % cols;
        proof {
            lemma_viewport_in_grid(vw, vh, n, i as nat);
            assert(col * view_width <= cols * view_width) by (nonlinear_arith)
                requires
                    0 <= col < cols,
                    view_width >= 0,
            ;
            assert(row * view_height <= rows * view_height) by (nonlinear_arith)
                requires
                    0 <= row < rows,
                    view_height >= 0,
            ;
        }
        let x: u32 = col * view_width;
        let y: u32 = row * view_height;
        positions.push((x, y));
        i = i + 1;
    }
    proof {
        lemma_layout_packs(vw, vh, n);
        let atlas = atlas_size(vw, vh, n);
        assert forall|a: int| 0 <= a < positions@.len() implies {
            &&& (#[trigger] positions@[a]).0 + vw <= atlas.0
            &&& positions@[a].1 + vh <= atlas.1
        } by {
            assert(viewport_offset(vw, vh, n, a as nat).0 + vw <= atlas.0);
        }
        assert forall|a: int, b: int| 0 <= a < b < positions@.len() implies viewports_disjoint(
            ((#[trigger] positions@[a]).0 as nat, positions@[a].1 as nat),
            ((#[trigger] positions@[b]).0 as nat, positions@[b].1 as nat),
            vw,
            vh,
        ) by {
            assert(viewports_disjoint(
                viewport_offset(vw, vh, n, a as nat),
                viewport_offset(vw, vh, n, b as nat),
                vw,
                vh,
            ));
        }
    }
    ((texture_width, texture_height), positions)
}

} // verus!
