use vstd::prelude::*;
use vstd::arithmetic::power2::{pow2, lemma_pow2_unfold, lemma_pow2_strictly_increases, lemma2_to64};
use vstd::arithmetic::div_mod::{lemma_fundamental_div_mod, lemma_mod_pos_bound, lemma_fundamental_div_mod_converse, lemma_div_is_ordered};
use vstd::bits::{lemma_u32_pow2_no_overflow, lemma_u32_shl_is_mul, lemma_u64_pow2_no_overflow, lemma_u64_shl_is_mul};

use crate::util::AABB;

verus! {

/// Where a tile's pixels come from in the source image (`src`) and the size
/// of the tile image they are scaled into (`dst_w` x `dst_h`).
#[derive(Debug)]
pub struct TileClip {
    pub src: AABB,
    pub dst_w: u32,
    pub dst_h: u32,
}

/// A tile's address: zoom level `z`, column `x`, row `y`.
#[derive(Debug)]
pub struct TileLocation {
    pub z: u32,
    pub x: u32,
    pub y: u32,
}

/// The shape of the zoom pyramid for an image of `width` x `height` pixels cut
/// into square tiles of `tile_size` pixels. Level `max_zoom_level` is the
/// image at full resolution; every level below it halves the resolution.
pub struct TileTree {
    pub width: u32,
    pub height: u32,
    pub tile_size: u32,
    pub max_zoom_level: u32,
}

/// `z` is the number of halvings after which one tile covers `max_dim`
/// pixels: the smallest `z` with `tile_size * 2^z >= max_dim`.
pub open spec fn is_zoom_depth(max_dim: int, tile_size: int, z: nat) -> bool {
    &&& tile_size * pow2(z) >= max_dim
    &&& (z == 0 || tile_size * pow2((z - 1) as nat) < max_dim)
}

/// There is one zoom depth for given sides and tile size.
pub proof fn lemma_zoom_depth_unique(max_dim: int, tile_size: int, a: nat, b: nat)
    requires
        tile_size > 0,
        is_zoom_depth(max_dim, tile_size, a),
        is_zoom_depth(max_dim, tile_size, b),
    ensures
        a == b,
{
    if a < b {
        if a < (b - 1) as nat {
            lemma_pow2_strictly_increases(a, (b - 1) as nat);
        }
        assert(tile_size * pow2(a) <= tile_size * pow2((b - 1) as nat)) by (nonlinear_arith)
            requires pow2(a) <= pow2((b - 1) as nat), tile_size > 0;
    } else if b < a {
        if b < (a - 1) as nat {
            lemma_pow2_strictly_increases(b, (a - 1) as nat);
        }
        assert(tile_size * pow2(b) <= tile_size * pow2((a - 1) as nat)) by (nonlinear_arith)
            requires pow2(b) <= pow2((a - 1) as nat), tile_size > 0;
    }
}

pub open spec fn max_u32(a: u32, b: u32) -> u32 {
    if a >= b { a } else { b }
}

/// `a / b` rounded up.
pub open spec fn ceil_div(a: int, b: int) -> int {
    (a + b - 1) / b
}

pub open spec fn at_least_one(v: int) -> int {
    if v < 1 { 1 } else { v }
}

pub open spec fn min_int(a: int, b: int) -> int {
    if a <= b { a } else { b }
}

/// One level of the pyramid: the image scaled down by `scale` to `width` x
/// `height` pixels, cut into `columns` x `rows` tiles.
#[derive(Debug, Clone, Copy, PartialEq, Eq, Structural)]
pub struct LevelInfo {
    pub z: u32,
    pub width: u32,
    pub height: u32,
    pub columns: u32,
    pub rows: u32,
    pub scale: u32,
}

impl LevelInfo {
    pub open spec fn spec_tile_count(self) -> nat {
        (self.rows * self.columns) as nat
    }

    /// Number of tiles of this level.
    pub fn tile_count(&self) -> (n: u32)
        requires
            self.rows * self.columns <= u32::MAX,
        ensures
            n == self.spec_tile_count(),
    {
        self.rows * self.columns
    }
}

/// Total number of tiles of all the given levels.
pub open spec fn total_tiles(levels: Seq<LevelInfo>) -> nat
    decreases levels.len(),
{
    if levels.len() == 0 {
        0
    } else {
        total_tiles(levels.drop_last()) + levels.last().spec_tile_count()
    }
}

/// The levels of a pyramid, from the coarsest (`z == 0`) to full resolution.
pub struct Levels(pub Vec<LevelInfo>);

impl Levels {
    /// Number of tiles over all levels.
    pub fn tile_count(&self) -> (n: u32)
        requires
            total_tiles(self.0@) <= u32::MAX,
        ensures
            n == total_tiles(self.0@),
    {
        let mut sum: u32 = 0;
        let mut i: usize = 0;
        while i < self.0.len()
            invariant
                i <= self.0@.len(),
                total_tiles(self.0@) <= u32::MAX,
                sum == total_tiles(self.0@.take(i as int)),
            decreases self.0@.len() - i,
        {
            proof {
                assert(self.0@.take(i + 1).drop_last() =~= self.0@.take(i as int));
                lemma_total_tiles_prefix(self.0@, i + 1);
            }
            let level = &self.0[i];
            sum = sum + level.tile_count();
            i = i + 1;
        }
        proof {
            assert(self.0@.take(i as int) =~= self.0@);
        }
        sum
    }
}

impl Levels {
    /// Number of tiles over all levels, or `None` when it does not fit in
    /// `u32`.
    pub fn checked_tile_count(&self) -> (r: Option<u32>)
        ensures
            r == (if total_tiles(self.0@) <= u32::MAX {
                Some(total_tiles(self.0@) as u32)
            } else {
                None::<u32>
            }),
    {
        let mut sum: u64 = 0;
        let mut i: usize = 0;
        while i < self.0.len()
            invariant
                i <= self.0@.len(),
                sum == total_tiles(self.0@.take(i as int)),
                sum <= u32::MAX,
            decreases self.0@.len() - i,
        {
            proof {
                assert(self.0@.take(i + 1).drop_last() =~= self.0@.take(i as int));
                assert(self.0@.take(i + 1).last() == self.0@[i as int]);
            }
            let level = &self.0[i];
            proof {
                assert(level.rows * level.columns <= u32::MAX * u32::MAX) by (nonlinear_arith)
                    requires level.rows <= u32::MAX, level.columns <= u32::MAX;
            }
            let n: u64 = level.rows as u64 * level.columns as u64;
            proof {
                assert(n == level.spec_tile_count()) by (nonlinear_arith)
                    requires n == level.rows * level.columns;
            }
            if n > u32::MAX as u64 - sum {
                proof {
                    lemma_total_tiles_prefix(self.0@, i + 1);
                }
                return None;
            }
            sum = sum + n;
            i = i + 1;
        }
        proof {
            assert(self.0@.take(i as int) =~= self.0@);
        }
        Some(sum as u32)
    }
}

/// A prefix of the levels has no more tiles than all of them.
proof fn lemma_total_tiles_prefix(levels: Seq<LevelInfo>, n: int)
    requires
        0 <= n <= levels.len(),
    ensures
        total_tiles(levels.take(n)) <= total_tiles(levels),
    decreases levels.len(),
{
    if n < levels.len() {
        assert(levels.drop_last().take(n) =~= levels.take(n));
        lemma_total_tiles_prefix(levels.drop_last(), n);
    } else {
        assert(levels.take(n) =~= levels);
    }
}

/// Bounds on `ceil_div(a, b)`.
proof fn lemma_ceil_div(a: int, b: int)
    requires
        a >= 0,
        b >= 1,
    ensures
        ceil_div(a, b) >= 0,
        ceil_div(a, b) * b <= a + b - 1,
        a <= ceil_div(a, b) * b,
        a >= 1 ==> 1 <= ceil_div(a, b) <= a,
        a == 0 ==> ceil_div(a, b) == 0,
{
    let n = a + b - 1;
    let q = n / b;
    let r = n % b;
    lemma_fundamental_div_mod(n, b);
    lemma_mod_pos_bound(n, b);
    assert(q * b == b * q) by (nonlinear_arith);
    assert(q >= 0) by (nonlinear_arith)
        requires n == b * q + r, 0 <= r < b, n >= 0, b >= 1;
    assert(a >= 1 ==> q <= a) by (nonlinear_arith)
        requires n == b * q + r, 0 <= r, n == a + b - 1, b >= 1;
    assert(a >= 1 ==> q >= 1) by (nonlinear_arith)
        requires n == b * q + r, r < b, n == a + b - 1, b >= 1;
    assert(a == 0 ==> q == 0) by (nonlinear_arith)
        requires n == b * q + r, 0 <= r < b, n == a + b - 1, b >= 1, q >= 0;
}

/// Facts about level `z` of a computable pyramid: its fields hold the
/// untruncated values of `spec_level`, and its sides stay within the rounded
/// image.
proof fn lemma_level(tree: TileTree, z: int)
    requires
        tree.levels_computable(),
        0 <= z <= tree.max_zoom_level,
    ensures
        ({
            let l = tree.spec_level(z);
            let s = pow2((tree.max_zoom_level - z) as nat) as int;
            &&& l.z == z
            &&& l.scale as int == s
            &&& 1 <= s <= pow2(tree.max_zoom_level as nat)
            &&& tree.width + s - 1 <= u32::MAX
            &&& tree.height + s - 1 <= u32::MAX
            &&& l.width as int == at_least_one(ceil_div(tree.width as int, s))
            &&& l.height as int == at_least_one(ceil_div(tree.height as int, s))
            &&& l.columns as int == at_least_one(ceil_div(l.width as int, tree.tile_size as int))
            &&& l.rows as int == at_least_one(ceil_div(l.height as int, tree.tile_size as int))
            &&& 1 <= l.width <= at_least_one(tree.width as int)
            &&& 1 <= l.height <= at_least_one(tree.height as int)
            &&& 1 <= l.columns
            &&& 1 <= l.rows
        }),
{
    let shift = (tree.max_zoom_level - z) as nat;
    let s = pow2(shift) as int;
    lemma_u32_pow2_no_overflow(shift);
    if shift < tree.max_zoom_level {
        lemma_pow2_strictly_increases(shift, tree.max_zoom_level as nat);
    }
    lemma_ceil_div(tree.width as int, s);
    lemma_ceil_div(tree.height as int, s);
    let w = at_least_one(ceil_div(tree.width as int, s));
    let h = at_least_one(ceil_div(tree.height as int, s));
    lemma_ceil_div(w, tree.tile_size as int);
    lemma_ceil_div(h, tree.tile_size as int);
}

/// Along one axis: tile `x` of a level of extent `lw` (the image extent `w`
/// shrunk by `s`) starts inside the level and inside the image, is between 1
/// and `t` pixels wide, and its source extent fits in `u32`.
proof fn lemma_clip_axis(w: int, s: int, t: int, x: int)
    requires
        0 <= w,
        1 <= s,
        1 <= t,
        w + s - 1 <= u32::MAX,
        s <= u32::MAX,
        0 <= x < at_least_one(ceil_div(at_least_one(ceil_div(w, s)), t)),
    ensures
        ({
            let lw = at_least_one(ceil_div(w, s));
            let dst = min_int(t, lw - x * t);
            &&& 0 <= x * t < lw
            &&& 1 <= dst <= t
            &&& 0 <= x * t * s <= w
            &&& (w >= 1 ==> x * t * s < w)
            &&& (w == 0 ==> x * t * s == 0)
            &&& 1 <= dst * s <= u32::MAX
        }),
{
    lemma_ceil_div(w, s);
    let lw = at_least_one(ceil_div(w, s));
    lemma_ceil_div(lw, t);
    let c = ceil_div(lw, t);
    assert(x * t <= lw - 1) by (nonlinear_arith)
        requires 0 <= x < c, c * t <= lw + t - 1, t >= 1;
    assert(x * t >= 0) by (nonlinear_arith)
        requires x >= 0, t >= 1;
    let dst = min_int(t, lw - x * t);
    if w >= 1 {
        let c2 = ceil_div(w, s);
        assert(x * t * s < w) by (nonlinear_arith)
            requires 0 <= x * t <= c2 - 1, c2 * s <= w + s - 1, s >= 1;
        assert(dst * s <= w + s - 1) by (nonlinear_arith)
            requires 1 <= dst <= c2, c2 * s <= w + s - 1, s >= 1;
    } else {
        assert(x * t == 0);
        assert(dst * s <= s) by (nonlinear_arith)
            requires dst <= 1, s >= 1;
    }
    assert(x * t * s >= 0) by (nonlinear_arith)
        requires x * t >= 0, s >= 1;
    assert(dst * s >= 1) by (nonlinear_arith)
        requires dst >= 1, s >= 1;
}

/// Tile number `y * cols + x` of a level is tile `(x, y)`.
proof fn lemma_tile_index(x: int, y: int, cols: int, rows: int)
    requires
        0 <= x < cols,
        0 <= y < rows,
    ensures
        0 <= y * cols + x < rows * cols,
        (y * cols + x) % cols == x,
        (y * cols + x) / cols == y,
{
    assert(0 <= y * cols + x < rows * cols) by (nonlinear_arith)
        requires 0 <= x < cols, 0 <= y < rows;
    lemma_fundamental_div_mod_converse(y * cols + x, cols, y, x);
}

impl TileTree {
    /// The conditions under which the pyramid's levels can be computed in
    /// `u32` arithmetic: a non-empty tile size, fewer than 32 levels below the
    /// full resolution, and image sides that can be rounded up to a multiple
    /// of the coarsest scale and of the tile size, that is, `side + scale - 1`
    /// and `side + tile_size - 1` fit in `u32`.
    pub open spec fn levels_computable(self) -> bool {
        &&& self.tile_size > 0
        &&& self.max_zoom_level < 32
        &&& self.width + pow2(self.max_zoom_level as nat) - 1 <= u32::MAX
        &&& self.height + pow2(self.max_zoom_level as nat) - 1 <= u32::MAX
        &&& at_least_one(self.width as int) + self.tile_size - 1 <= u32::MAX
        &&& at_least_one(self.height as int) + self.tile_size - 1 <= u32::MAX
    }

    /// Level `z`: the image shrunk by `2^(max_zoom_level - z)` (sides rounded
    /// up, at least one pixel), cut into tiles (counts rounded up, at least one).
    pub open spec fn spec_level(self, z: int) -> LevelInfo {
        let scale = pow2((self.max_zoom_level - z) as nat) as int;
        let width = at_least_one(ceil_div(self.width as int, scale));
        let height = at_least_one(ceil_div(self.height as int, scale));
        LevelInfo {
            z: z as u32,
            width: width as u32,
            height: height as u32,
            columns: at_least_one(ceil_div(width, self.tile_size as int)) as u32,
            rows: at_least_one(ceil_div(height, self.tile_size as int)) as u32,
            scale: scale as u32,
        }
    }

    /// All levels, `z` from 0 to `max_zoom_level`.
    pub open spec fn spec_levels(self) -> Seq<LevelInfo> {
        Seq::new((self.max_zoom_level + 1) as nat, |z: int| self.spec_level(z))
    }

    /// The part of the source image that tile `(x, y)` of `level` shows, and
    /// the tile's size: the tile grid is laid over the scaled level, and the
    /// tile's box is mapped back to source pixels, clipped to the image.
    pub open spec fn spec_clip(self, level: LevelInfo, x: int, y: int) -> TileClip {
        let t = self.tile_size as int;
        let s = level.scale as int;
        let dst_w = min_int(t, level.width - x * t);
        let dst_h = min_int(t, level.height - y * t);
        let src_x = x * t * s;
        let src_y = y * t * s;
        TileClip {
            src: AABB {
                x: src_x as u32,
                y: src_y as u32,
                w: min_int(self.width - src_x, dst_w * s) as u32,
                h: min_int(self.height - src_y, dst_h * s) as u32,
            },
            dst_w: dst_w as u32,
            dst_h: dst_h as u32,
        }
    }

    /// Tile number `i` of `level`, counting row by row.
    pub open spec fn spec_tile(self, level: LevelInfo, i: int) -> (TileLocation, TileClip) {
        let x = i % (level.columns as int);
        let y = i / (level.columns as int);
        (TileLocation { z: level.z, x: x as u32, y: y as u32 }, self.spec_clip(level, x, y))
    }

    /// The tiles of one level, row by row, each row from left to right.
    pub open spec fn level_tiles(self, level: LevelInfo) -> Seq<(TileLocation, TileClip)> {
        Seq::new(level.spec_tile_count(), |i: int| self.spec_tile(level, i))
    }

    /// The tiles of the given levels, level after level.
    pub open spec fn tiles_of(self, levels: Seq<LevelInfo>) -> Seq<(TileLocation, TileClip)>
        decreases levels.len(),
    {
        if levels.len() == 0 {
            Seq::empty()
        } else {
            self.tiles_of(levels.drop_last()) + self.level_tiles(levels.last())
        }
    }

    /// Every tile of the pyramid, coarsest level first.
    pub open spec fn spec_all_tiles(self) -> Seq<(TileLocation, TileClip)> {
        self.tiles_of(self.spec_levels())
    }

    /// The pyramid for an image of `width` x `height` pixels: the deepest
    /// level is the smallest `z` at which `tile_size * 2^z` reaches the larger
    /// side, that is `ceil(log2(max(width, height) / tile_size))`, and never
    /// below 0. With `tile_size == 0` the ratio is infinite (`u32::MAX`
    /// levels) unless the image is empty (0 levels).
    pub fn new(width: u32, height: u32, tile_size: u32) -> (tree: Self)
        ensures
            tree.width == width,
            tree.height == height,
            tree.tile_size == tile_size,
            tile_size > 0 ==> is_zoom_depth(
                max_u32(width, height) as int,
                tile_size as int,
                tree.max_zoom_level as nat,
            ),
            tile_size == 0 ==> tree.max_zoom_level == (if max_u32(width, height) == 0 {
                0
            } else {
                u32::MAX
            }),
    {
        let max_dimension = if width >= height { width } else { height };
        let max_zoom_level: u32 = if tile_size == 0 {
            if max_dimension == 0 { 0 } else { u32::MAX }
        } else {
            let mut z: u32 = 0;
            let mut covered: u64 = tile_size as u64;
            proof {
                assert(pow2(0) == 1) by { lemma2_to64(); }
            }
            while covered < max_dimension as u64
                invariant
                    tile_size > 0,
                    covered == tile_size * pow2(z as nat),
                    covered >= pow2(z as nat),
                    covered >= 1,
                    z <= 32,
                    z == 0 || tile_size * pow2((z - 1) as nat) < max_dimension,
                decreases 32 - z,
            {
                proof {
                    lemma_pow2_unfold((z + 1) as nat);
                    vstd::arithmetic::power2::lemma_pow2_pos(z as nat);
                    lemma2_to64();
                    if z == 32 {
                        assert(pow2(32) == 0x1_0000_0000);
                    }
                    assert(tile_size * pow2((z + 1) as nat) == 2 * (tile_size * pow2(z as nat))) by (nonlinear_arith)
                        requires pow2((z + 1) as nat) == 2 * pow2(z as nat);
                }
                covered = covered * 2;
                z = z + 1;
            }
            z
        };
        TileTree { width, height, tile_size, max_zoom_level }
    }

    /// Whether the pyramid's levels can be computed, that is
    /// `levels_computable`.
    pub fn can_build_levels(&self) -> (r: bool)
        ensures
            r == self.levels_computable(),
    {
        if self.tile_size == 0 || self.max_zoom_level >= 32 {
            return false;
        }
        proof {
            lemma_u64_pow2_no_overflow(self.max_zoom_level as nat);
            lemma_u32_pow2_no_overflow(self.max_zoom_level as nat);
            lemma_u64_shl_is_mul(1, self.max_zoom_level as u64);
        }
        let coarsest: u64 = 1u64 << (self.max_zoom_level as u64);
        let limit = u32::MAX as u64;
        let w = if self.width < 1 { 1 } else { self.width };
        let h = if self.height < 1 { 1 } else { self.height };
        self.width as u64 + coarsest - 1 <= limit && self.height as u64 + coarsest - 1 <= limit && w
            as u64 + self.tile_size as u64 - 1 <= limit && h as u64 + self.tile_size as u64 - 1 <= limit
    }

    /// The levels of the pyramid, `z` from 0 to `max_zoom_level`.
    pub fn build_levels(&self) -> (levels: Levels)
        requires
            self.levels_computable(),
        ensures
            levels.0@ == self.spec_levels(),
    {
        let mut infos: Vec<LevelInfo> = Vec::new();
        let mut z: u32 = 0;
        while z < self.max_zoom_level + 1
            invariant
                self.levels_computable(),
                z <= self.max_zoom_level + 1,
                infos@ =~= self.spec_levels().take(z as int),
            decreases self.max_zoom_level + 1 - z,
        {
            let shift = self.max_zoom_level - z;
            proof {
                lemma_u32_pow2_no_overflow(shift as nat);
                lemma_u32_shl_is_mul(1, shift);
                if shift < self.max_zoom_level {
                    lemma_pow2_strictly_increases(shift as nat, self.max_zoom_level as nat);
                }
            }
            let scale: u32 = 1 << shift;
            proof {
                assert(scale == pow2(shift as nat));
                assert(scale <= pow2(self.max_zoom_level as nat));
                lemma_ceil_div(self.width as int, scale as int);
                lemma_ceil_div(self.height as int, scale as int);
            }
            let w = ((self.width as u64 + scale as u64 - 1) / scale as u64) as u32;
            let width = if w < 1 { 1 } else { w };
            let h = ((self.height as u64 + scale as u64 - 1) / scale as u64) as u32;
            let height = if h < 1 { 1 } else { h };
            proof {
                lemma_ceil_div(width as int, self.tile_size as int);
                lemma_ceil_div(height as int, self.tile_size as int);
            }
            let c = ((width as u64 + self.tile_size as u64 - 1) / self.tile_size as u64) as u32;
            let columns = if c < 1 { 1 } else { c };
            let r = ((height as u64 + self.tile_size as u64 - 1) / self.tile_size as u64) as u32;
            let rows = if r < 1 { 1 } else { r };
            infos.push(LevelInfo { z, width, height, columns, rows, scale });
            z = z + 1;
        }
        Levels(infos)
    }

    /// The clip of tile `loc` of `level`, one of this pyramid's levels.
    fn get_tile_clip(&self, level: &LevelInfo, loc: &TileLocation) -> (clip: TileClip)
        requires
            self.levels_computable(),
            level.z <= self.max_zoom_level,
            *level == self.spec_level(level.z as int),
            loc.x < level.columns,
            loc.y < level.rows,
        ensures
            clip == self.spec_clip(*level, loc.x as int, loc.y as int),
    {
        proof {
            lemma_level(*self, level.z as int);
            lemma_clip_axis(self.width as int, level.scale as int, self.tile_size as int, loc.x as int);
            lemma_clip_axis(self.height as int, level.scale as int, self.tile_size as int, loc.y as int);
        }
        let src_x = loc.x * self.tile_size;
        let src_y = loc.y * self.tile_size;
        let rest_w = level.width - src_x;
        let dst_w = if self.tile_size <= rest_w { self.tile_size } else { rest_w };
        let rest_h = level.height - src_y;
        let dst_h = if self.tile_size <= rest_h { self.tile_size } else { rest_h };

        let src_x = src_x * level.scale;
        let src_y = src_y * level.scale;
        let avail_w = self.width - src_x;
        let scaled_w = dst_w * level.scale;
        let src_w = if avail_w <= scaled_w { avail_w } else { scaled_w };
        let avail_h = self.height - src_y;
        let scaled_h = dst_h * level.scale;
        let src_h = if avail_h <= scaled_h { avail_h } else { scaled_h };

        TileClip { src: AABB { x: src_x, y: src_y, w: src_w, h: src_h }, dst_w, dst_h }
    }

    /// Every tile of the pyramid with its clip: level after level from the
    /// coarsest, each level row by row, each row from left to right.
    pub fn all_tiles(&self) -> (tiles: Vec<(TileLocation, TileClip)>)
        requires
            self.levels_computable(),
        ensures
            tiles@ == self.spec_all_tiles(),
    {
        let levels = self.build_levels();
        let ghost all = self.spec_levels();
        let mut tiles: Vec<(TileLocation, TileClip)> = Vec::new();
        let n = levels.0.len();
        let mut zi: usize = 0;
        while zi < n
            invariant
                self.levels_computable(),
                levels.0@ == all,
                all == self.spec_levels(),
                n == all.len(),
                zi <= n,
                tiles@ == self.tiles_of(all.take(zi as int)),
            decreases n - zi,
        {
            let level = levels.0[zi];
            proof {
                lemma_level(*self, zi as int);
            }
            let ghost prefix = tiles@;
            let mut y: u32 = 0;
            while y < level.rows
                invariant
                    self.levels_computable(),
                    level == self.spec_level(zi as int),
                    level.z == zi,
                    zi < n,
                    n == self.max_zoom_level + 1,
                    1 <= level.columns,
                    y <= level.rows,
                    tiles@ == prefix + self.level_tiles(level).take(y * level.columns),
                decreases level.rows - y,
            {
                let mut x: u32 = 0;
                while x < level.columns
                    invariant
                        self.levels_computable(),
                        level == self.spec_level(zi as int),
                        level.z == zi,
                        zi < n,
                        n == self.max_zoom_level + 1,
                        1 <= level.columns,
                        y < level.rows,
                        x <= level.columns,
                        tiles@ == prefix + self.level_tiles(level).take(y * level.columns + x),
                    decreases level.columns - x,
                {
                    proof {
                        lemma_tile_index(x as int, y as int, level.columns as int, level.rows as int);
                    }
                    let loc = TileLocation { z: level.z, x, y };
                    let clip = self.get_tile_clip(&level, &loc);
                    proof {
                        let i = y * level.columns + x;
                        assert(self.level_tiles(level)[i] == (loc, clip));
                        assert(self.level_tiles(level).take(i + 1) =~= self.level_tiles(level).take(i).push((loc, clip)));
                    }
                    tiles.push((loc, clip));
                    x = x + 1;
                }
                proof {
                    assert(y * level.columns + level.columns == (y + 1) * level.columns) by (nonlinear_arith);
                }
                y = y + 1;
            }
            proof {
                assert(self.level_tiles(level).take(level.rows * level.columns) =~= self.level_tiles(level));
                assert(all.take(zi + 1).drop_last() =~= all.take(zi as int));
                assert(all.take(zi + 1).last() == level);
            }
            zi = zi + 1;
        }
        proof {
            assert(all.take(n as int) =~= all);
        }
        tiles
    }
}

} // verus!

verus! {

impl TileTree {
    /// What every tile of a computable pyramid satisfies: it lies in the tile
    /// grid of its level, its tile image is between 1 and `tile_size` pixels
    /// on each side and stays inside its level, and its source box stays
    /// inside the image (and is not empty when the image is not).
    /// `(z, x, y)` is a location of the tile grid of level `z`.
    pub open spec fn is_grid_location(self, z: u32, x: u32, y: u32) -> bool {
        &&& z <= self.max_zoom_level
        &&& x < self.spec_level(z as int).columns
        &&& y < self.spec_level(z as int).rows
    }

    /// The tile's clip is the clip of its own location at its own level.
    pub open spec fn is_own_clip(self, tile: (TileLocation, TileClip)) -> bool {
        &&& tile.0.z <= self.max_zoom_level
        &&& self.spec_level(tile.0.z as int).z == tile.0.z
        &&& tile.1 == self.spec_clip(self.spec_level(tile.0.z as int), tile.0.x as int, tile.0.y as int)
    }

    pub open spec fn tile_within_image(self, tile: (TileLocation, TileClip)) -> bool {
        let loc = tile.0;
        let clip = tile.1;
        let level = self.spec_level(loc.z as int);
        &&& loc.z <= self.max_zoom_level
        &&& loc.x < level.columns
        &&& loc.y < level.rows
        &&& loc.x * self.tile_size + clip.dst_w <= level.width
        &&& loc.y * self.tile_size + clip.dst_h <= level.height
        &&& 1 <= clip.dst_w <= self.tile_size
        &&& 1 <= clip.dst_h <= self.tile_size
        &&& clip.src.x + clip.src.w <= self.width
        &&& clip.src.y + clip.src.h <= self.height
        &&& (self.width >= 1 ==> clip.src.w >= 1)
        &&& (self.height >= 1 ==> clip.src.h >= 1)
    }
}

/// The tiles of the given levels are as many as the levels' tile counts add up to.
proof fn lemma_tiles_of_len(tree: TileTree, levels: Seq<LevelInfo>)
    ensures
        tree.tiles_of(levels).len() == total_tiles(levels),
    decreases levels.len(),
{
    if levels.len() > 0 {
        lemma_tiles_of_len(tree, levels.drop_last());
    }
}

/// `all_tiles` yields exactly as many tiles as `Levels::tile_count` counts.
pub proof fn all_tiles_len_is_tile_count(tree: TileTree)
    ensures
        tree.spec_all_tiles().len() == total_tiles(tree.spec_levels()),
{
    lemma_tiles_of_len(tree, tree.spec_levels());
}

/// Tile number `j` of level `z` lies within the image.
proof fn lemma_level_tile_within(tree: TileTree, z: int, j: int)
    requires
        tree.levels_computable(),
        0 <= z <= tree.max_zoom_level,
        0 <= j < tree.spec_level(z).spec_tile_count(),
    ensures
        tree.tile_within_image(tree.spec_tile(tree.spec_level(z), j)),
{
    let level = tree.spec_level(z);
    lemma_level(tree, z);
    let c = level.columns as int;
    let r = level.rows as int;
    let x = j % c;
    let y = j / c;
    lemma_fundamental_div_mod(j, c);
    lemma_mod_pos_bound(j, c);
    assert(0 <= y < r) by (nonlinear_arith)
        requires j == c * y + x, 0 <= x < c, 0 <= j < r * c, c >= 1;
    lemma_clip_axis(tree.width as int, level.scale as int, tree.tile_size as int, x);
    lemma_clip_axis(tree.height as int, level.scale as int, tree.tile_size as int, y);
}

/// Tile number `j` of level `z` carries the clip of its own location.
proof fn lemma_level_tile_own_clip(tree: TileTree, z: int, j: int)
    requires
        tree.levels_computable(),
        0 <= z <= tree.max_zoom_level,
        0 <= j < tree.spec_level(z).spec_tile_count(),
    ensures
        tree.spec_tile(tree.spec_level(z), j).0.z == z,
        tree.is_own_clip(tree.spec_tile(tree.spec_level(z), j)),
{
    let level = tree.spec_level(z);
    lemma_level(tree, z);
    let c = level.columns as int;
    let r = level.rows as int;
    let x = j % c;
    let y = j / c;
    lemma_fundamental_div_mod(j, c);
    lemma_mod_pos_bound(j, c);
    assert(0 <= y < r) by (nonlinear_arith)
        requires j == c * y + x, 0 <= x < c, 0 <= j < r * c, c >= 1;
    let t = tree.spec_tile(level, j);
    assert(t.0.x as int == x);
    assert(t.0.y as int == y);
}

/// Every tile of the given prefix of the levels lies within the image, sits on
/// the level it names, and no two of them share a location; every location of
/// those levels is among them.
proof fn lemma_tiles_of_prefix(tree: TileTree, k: int)
    requires
        tree.levels_computable(),
        0 <= k <= tree.max_zoom_level + 1,
    ensures
        ({
            let tiles = tree.tiles_of(tree.spec_levels().take(k));
            &&& forall|i: int| 0 <= i < tiles.len() ==> #[trigger] tree.tile_within_image(tiles[i])
            &&& forall|i: int| 0 <= i < tiles.len() ==> (#[trigger] tiles[i]).0.z < k
            &&& forall|i: int| 0 <= i < tiles.len() ==> #[trigger] tree.is_own_clip(tiles[i])
            &&& forall|i: int, j: int|
                0 <= i < tiles.len() && 0 <= j < tiles.len() && i != j ==> #[trigger] tiles[i].0
                    != #[trigger] tiles[j].0
            &&& forall|z: u32, x: u32, y: u32|
                z < k && #[trigger] tree.is_grid_location(z, x, y)
                    ==> exists|i: int| 0 <= i < tiles.len() && #[trigger] tiles[i].0 == (TileLocation { z, x, y })
        }),
    decreases k,
{
    let all = tree.spec_levels();
    let tiles = tree.tiles_of(all.take(k));
    if k == 0 {
        assert(tiles =~= Seq::empty());
    } else {
        lemma_tiles_of_prefix(tree, k - 1);
        let front = tree.tiles_of(all.take(k - 1));
        let level = tree.spec_level(k - 1);
        let back = tree.level_tiles(level);
        assert(all.take(k).drop_last() =~= all.take(k - 1));
        assert(all.take(k).last() == level);
        assert(tiles == front + back);
        lemma_level(tree, k - 1);
        let c = level.columns as int;
        let r = level.rows as int;
        assert forall|i: int| 0 <= i < tiles.len() implies #[trigger] tree.tile_within_image(tiles[i])
            && tiles[i].0.z < k by {
            if i >= front.len() {
                lemma_level_tile_within(tree, k - 1, i - front.len());
            }
        }
        assert forall|i: int| 0 <= i < tiles.len() implies #[trigger] tree.is_own_clip(tiles[i]) by {
            if i >= front.len() {
                lemma_level_tile_own_clip(tree, k - 1, i - front.len());
            } else {
                assert(tiles[i] == front[i]);
            }
        }
        assert forall|i: int, j: int|
            0 <= i < tiles.len() && 0 <= j < tiles.len() && i != j implies #[trigger] tiles[i].0
            != #[trigger] tiles[j].0 by {
            if i < front.len() && j < front.len() {
                assert(front[i].0 != front[j].0);
            } else if i >= front.len() && j >= front.len() {
                let a = i - front.len();
                let b = j - front.len();
                lemma_fundamental_div_mod(a, c);
                lemma_fundamental_div_mod(b, c);
                lemma_mod_pos_bound(a, c);
                lemma_mod_pos_bound(b, c);
                assert(0 <= a / c < r) by (nonlinear_arith)
                    requires a == c * (a / c) + a % c, 0 <= a % c < c, 0 <= a < r * c, c >= 1;
                assert(0 <= b / c < r) by (nonlinear_arith)
                    requires b == c * (b / c) + b % c, 0 <= b % c < c, 0 <= b < r * c, c >= 1;
                assert(tiles[i].0 != tiles[j].0);
            } else if i < front.len() {
                assert(front[i].0.z < k - 1);
            } else {
                assert(front[j].0.z < k - 1);
            }
        }
        assert forall|z: u32, x: u32, y: u32|
            z < k && #[trigger] tree.is_grid_location(z, x, y)
            implies exists|i: int| 0 <= i < tiles.len() && #[trigger] tiles[i].0 == (TileLocation { z, x, y }) by {
            if z < k - 1 {
                let i = choose|i: int| 0 <= i < front.len() && #[trigger] front[i].0 == (TileLocation { z, x, y });
                assert(tiles[i] == front[i]);
            } else {
                lemma_tile_index(x as int, y as int, c, r);
                let j = y * c + x;
                let i = front.len() + j;
                assert(tiles[i] == back[j]);
                assert(tiles[i].0 == (TileLocation { z, x, y }));
            }
        }
    }
}

/// Every tile that `all_tiles` yields lies within the image, in the sense of
/// `tile_within_image`.
pub proof fn all_tiles_within_image(tree: TileTree)
    requires
        tree.levels_computable(),
    ensures
        forall|i: int|
            0 <= i < tree.spec_all_tiles().len() ==> #[trigger] tree.tile_within_image(
                tree.spec_all_tiles()[i],
            ),
{
    lemma_tiles_of_prefix(tree, tree.max_zoom_level + 1);
    assert(tree.spec_levels().take(tree.max_zoom_level + 1) =~= tree.spec_levels());
}

/// `all_tiles` yields every location of the pyramid's tile grids exactly once.
pub proof fn all_tiles_cover_each_location_once(tree: TileTree)
    requires
        tree.levels_computable(),
    ensures
        forall|z: u32, x: u32, y: u32|
            #[trigger] tree.is_grid_location(z, x, y) ==> exists|i: int|
                0 <= i < tree.spec_all_tiles().len() && #[trigger] tree.spec_all_tiles()[i].0
                    == (TileLocation { z, x, y }),
        forall|i: int, j: int|
            0 <= i < tree.spec_all_tiles().len() && 0 <= j < tree.spec_all_tiles().len() && i != j
                ==> #[trigger] tree.spec_all_tiles()[i].0 != #[trigger] tree.spec_all_tiles()[j].0,
{
    let k = tree.max_zoom_level + 1;
    lemma_tiles_of_prefix(tree, k);
    assert(tree.spec_levels().take(k) =~= tree.spec_levels());
    let tiles = tree.spec_all_tiles();
    assert forall|z: u32, x: u32, y: u32| #[trigger] tree.is_grid_location(z, x, y) implies exists|i: int|
        0 <= i < tiles.len() && #[trigger] tiles[i].0 == (TileLocation { z, x, y }) by {
        assert(z < k);
    }
}

/// The pyramid of `TileTree::new`: one level per halving, the coarsest level
/// fits in a single tile, and the deepest level is the image at full size.
pub proof fn new_tree_pyramid(tree: TileTree)
    requires
        tree.levels_computable(),
        is_zoom_depth(
            max_u32(tree.width, tree.height) as int,
            tree.tile_size as int,
            tree.max_zoom_level as nat,
        ),
    ensures
        tree.spec_levels().len() == tree.max_zoom_level + 1,
        forall|z: int|
            0 <= z <= tree.max_zoom_level ==> (#[trigger] tree.spec_levels()[z]).z == z
                && tree.spec_levels()[z].scale == pow2((tree.max_zoom_level - z) as nat),
        tree.spec_levels()[0].columns == 1,
        tree.spec_levels()[0].rows == 1,
        tree.spec_levels().last().scale == 1,
        tree.spec_levels().last().width == at_least_one(tree.width as int),
        tree.spec_levels().last().height == at_least_one(tree.height as int),
{
    let m = tree.max_zoom_level as int;
    assert forall|z: int| 0 <= z <= m implies (#[trigger] tree.spec_levels()[z]).z == z
        && tree.spec_levels()[z].scale == pow2((m - z) as nat) by {
        lemma_level(tree, z);
    }
    lemma_level(tree, 0);
    lemma_level(tree, m);
    let big = pow2(m as nat) as int;
    let t = tree.tile_size as int;
    let l0 = tree.spec_level(0);
    assert(tree.width <= t * big && tree.height <= t * big);
    assert(ceil_div(tree.width as int, big) <= t) by (nonlinear_arith)
        requires tree.width <= t * big, big >= 1, t >= 1, tree.width >= 0;
    assert(ceil_div(tree.height as int, big) <= t) by (nonlinear_arith)
        requires tree.height <= t * big, big >= 1, t >= 1, tree.height >= 0;
    lemma_ceil_div(l0.width as int, t);
    lemma_ceil_div(l0.height as int, t);
    assert(ceil_div(l0.width as int, t) <= 1) by (nonlinear_arith)
        requires 1 <= l0.width <= t, ceil_div(l0.width as int, t) * t <= l0.width + t - 1, t >= 1;
    assert(ceil_div(l0.height as int, t) <= 1) by (nonlinear_arith)
        requires 1 <= l0.height <= t, ceil_div(l0.height as int, t) * t <= l0.height + t - 1, t >= 1;
    assert(pow2(0) == 1) by { lemma2_to64(); }
    lemma_ceil_div(tree.width as int, 1);
    lemma_ceil_div(tree.height as int, 1);
}

/// Every tile that `all_tiles` yields carries the clip of its own location
/// at its own level: the level it names is the level of that number, and
/// its clip is `spec_clip` of that level at the tile's column and row.
pub proof fn all_tiles_clip_own_location(tree: TileTree)
    requires
        tree.levels_computable(),
    ensures
        forall|i: int|
            0 <= i < tree.spec_all_tiles().len() ==> #[trigger] tree.is_own_clip(
                tree.spec_all_tiles()[i],
            ),
        forall|i: int|
            0 <= i < tree.spec_all_tiles().len() ==> tree.spec_levels()[
                (#[trigger] tree.spec_all_tiles()[i]).0.z as int].z == tree.spec_all_tiles()[i].0.z,
{
    lemma_tiles_of_prefix(tree, tree.max_zoom_level + 1);
    assert(tree.spec_levels().take(tree.max_zoom_level + 1) =~= tree.spec_levels());
}

/// The first tile of the pyramid of `TileTree::new` is the whole image
/// scaled into one tile of at most `tile_size` pixels a side, and it is the
/// only tile of level 0.
#[verifier::spinoff_prover]
pub proof fn first_tile_is_whole_image(tree: TileTree)
    requires
        tree.levels_computable(),
        is_zoom_depth(
            max_u32(tree.width, tree.height) as int,
            tree.tile_size as int,
            tree.max_zoom_level as nat,
        ),
    ensures
        tree.spec_all_tiles().len() >= 1,
        tree.spec_all_tiles()[0] == (TileLocation { z: 0, x: 0, y: 0 }, TileClip {
            src: AABB { x: 0, y: 0, w: tree.width, h: tree.height },
            dst_w: tree.spec_levels()[0].width,
            dst_h: tree.spec_levels()[0].height,
        }),
        tree.spec_levels()[0].width <= tree.tile_size,
        tree.spec_levels()[0].height <= tree.tile_size,
        forall|i: int| 1 <= i < tree.spec_all_tiles().len() ==> (#[trigger] tree.spec_all_tiles()[i]).0.z != 0,
{
    new_tree_pyramid(tree);
    let m = tree.max_zoom_level as int;
    let levels = tree.spec_levels();
    let l0 = tree.spec_level(0);
    lemma_level(tree, 0);
    let big = pow2(m as nat) as int;
    let t = tree.tile_size as int;
    assert(tree.width <= t * big && tree.height <= t * big);
    lemma_ceil_div(tree.width as int, big);
    lemma_ceil_div(tree.height as int, big);
    assert(ceil_div(tree.width as int, big) <= t) by (nonlinear_arith)
        requires tree.width <= t * big, big >= 1, t >= 1, tree.width >= 0;
    assert(ceil_div(tree.height as int, big) <= t) by (nonlinear_arith)
        requires tree.height <= t * big, big >= 1, t >= 1, tree.height >= 0;
    // The source box of tile (0, 0) covers the whole image.
    assert(tree.width <= l0.width * big) by (nonlinear_arith)
        requires
            tree.width <= ceil_div(tree.width as int, big) * big,
            ceil_div(tree.width as int, big) <= l0.width,
            big >= 1;
    assert(tree.height <= l0.height * big) by (nonlinear_arith)
        requires
            tree.height <= ceil_div(tree.height as int, big) * big,
            ceil_div(tree.height as int, big) <= l0.height,
            big >= 1;
    // The first tile is the first tile of level 0.
    let first = tree.tiles_of(levels.take(1));
    assert(levels.take(1).drop_last() =~= Seq::<LevelInfo>::empty());
    assert(levels.take(1).last() == l0);
    assert(first == tree.tiles_of(Seq::<LevelInfo>::empty()) + tree.level_tiles(l0));
    assert(first =~= tree.level_tiles(l0));
    assert(first[0] == tree.spec_tile(l0, 0));
    lemma_tiles_of_prefix_is_prefix(tree, levels, 1);
    assert(tree.spec_all_tiles()[0] == first[0]);
    assert(levels[0] == l0);
    assert(l0.columns == 1);
    assert(0int % 1int == 0 && 0int / 1int == 0);
    assert(l0.scale as int == big);
    let clip = tree.spec_clip(l0, 0, 0);
    assert(clip.dst_w == l0.width && clip.dst_h == l0.height);
    assert(clip.src.w == tree.width && clip.src.h == tree.height);
    assert(clip.src.x == 0 && clip.src.y == 0);
    // No other tile sits on level 0.
    all_tiles_within_image(tree);
    all_tiles_cover_each_location_once(tree);
    let tiles = tree.spec_all_tiles();
    assert forall|i: int| 1 <= i < tiles.len() implies (#[trigger] tiles[i]).0.z != 0 by {
        assert(tree.tile_within_image(tiles[i]));
        if tiles[i].0.z == 0 {
            assert(tiles[i].0 == tiles[0].0);
        }
    }
}

/// The tiles of a prefix of the levels come first among the tiles of all of
/// them.
proof fn lemma_tiles_of_prefix_is_prefix(tree: TileTree, levels: Seq<LevelInfo>, k: int)
    requires
        0 <= k <= levels.len(),
    ensures
        tree.tiles_of(levels.take(k)).len() <= tree.tiles_of(levels).len(),
        forall|i: int|
            0 <= i < tree.tiles_of(levels.take(k)).len() ==> tree.tiles_of(levels)[i]
                == #[trigger] tree.tiles_of(levels.take(k))[i],
    decreases levels.len(),
{
    if k < levels.len() {
        assert(levels.drop_last().take(k) =~= levels.take(k));
        lemma_tiles_of_prefix_is_prefix(tree, levels.drop_last(), k);
    } else {
        assert(levels.take(k) =~= levels);
    }
}

/// From one level to the next the scale halves, and the level's size and
/// its numbers of columns and rows never shrink.
pub proof fn levels_halve_and_grow(tree: TileTree, z: int)
    requires
        tree.levels_computable(),
        0 <= z < tree.max_zoom_level,
    ensures
        tree.spec_levels()[z].scale == 2 * tree.spec_levels()[z + 1].scale,
        tree.spec_levels()[z].width <= tree.spec_levels()[z + 1].width,
        tree.spec_levels()[z].height <= tree.spec_levels()[z + 1].height,
        tree.spec_levels()[z].columns <= tree.spec_levels()[z + 1].columns,
        tree.spec_levels()[z].rows <= tree.spec_levels()[z + 1].rows,
{
    let m = tree.max_zoom_level as int;
    let a = tree.spec_level(z);
    let b = tree.spec_level(z + 1);
    lemma_level(tree, z);
    lemma_level(tree, z + 1);
    lemma_pow2_unfold((m - z) as nat);
    let s = b.scale as int;
    assert(a.scale as int == 2 * s);
    lemma_halving_grows(tree.width as int, s);
    lemma_halving_grows(tree.height as int, s);
    let t = tree.tile_size as int;
    lemma_div_is_ordered(a.width + t - 1, b.width + t - 1, t);
    lemma_div_is_ordered(a.height + t - 1, b.height + t - 1, t);
}

/// Shrinking by `2 * s` never gives more pixels than shrinking by `s`.
proof fn lemma_halving_grows(w: int, s: int)
    requires
        w >= 0,
        s >= 1,
    ensures
        at_least_one(ceil_div(w, 2 * s)) <= at_least_one(ceil_div(w, s)),
{
    lemma_ceil_div(w, s);
    lemma_ceil_div(w, 2 * s);
    let a = ceil_div(w, 2 * s);
    let b = ceil_div(w, s);
    assert(a <= b) by (nonlinear_arith)
        requires
            a * (2 * s) <= w + 2 * s - 1,
            w <= b * s,
            a >= 0,
            b >= 0,
            s >= 1;
}

/// Whether pixel `(px, py)` of the source image lies in the clip's source
/// box.
pub open spec fn src_covers(clip: TileClip, px: int, py: int) -> bool {
    &&& clip.src.x <= px < clip.src.x + clip.src.w
    &&& clip.src.y <= py < clip.src.y + clip.src.h
}

/// Whether pixel `(qx, qy)` of a level lies in the image of tile `(x, y)`,
/// whose clip is `clip`, with tiles of `t` pixels.
pub open spec fn dst_covers(t: int, x: int, y: int, clip: TileClip, qx: int, qy: int) -> bool {
    &&& x * t <= qx < x * t + clip.dst_w
    &&& y * t <= qy < y * t + clip.dst_h
}

/// Along one axis of a level of scale `s`: the source extent of column `x`.
spec fn axis_src_len(w: int, s: int, t: int, x: int) -> int {
    min_int(w - x * t * s, min_int(t, at_least_one(ceil_div(w, s)) - x * t) * s)
}

/// Along one axis, source pixel `p` lies in the source extent of column
/// `p / (t * s)` and of no other column.
proof fn lemma_axis_src(w: int, s: int, t: int, p: int)
    requires
        1 <= s <= u32::MAX,
        1 <= t,
        w + s - 1 <= u32::MAX,
        0 <= p < w,
    ensures
        ({
            let c = at_least_one(ceil_div(at_least_one(ceil_div(w, s)), t));
            let x = p / (t * s);
            &&& 0 <= x < c
            &&& x * t * s <= p < x * t * s + axis_src_len(w, s, t, x)
            &&& forall|x2: int|
                0 <= x2 < c && x2 * t * s <= p < x2 * t * s + #[trigger] axis_src_len(w, s, t, x2) ==> x2
                    == x
        }),
{
    let lw = at_least_one(ceil_div(w, s));
    lemma_ceil_div(w, s);
    lemma_ceil_div(lw, t);
    let c = at_least_one(ceil_div(lw, t));
    let big = t * s;
    assert(big >= 1) by (nonlinear_arith)
        requires t >= 1, s >= 1, big == t * s;
    let x = p / big;
    lemma_fundamental_div_mod(p, big);
    lemma_mod_pos_bound(p, big);
    assert(x * t * s == big * x) by (nonlinear_arith)
        requires big == t * s;
    assert(x >= 0) by (nonlinear_arith)
        requires p == big * x + p % big, 0 <= p % big < big, p >= 0;
    assert(lw * s >= w);
    assert(c * t >= lw);
    assert(c * big >= lw * s) by (nonlinear_arith)
        requires c * t >= lw, big == t * s, s >= 1;
    assert(x < c) by (nonlinear_arith)
        requires p == big * x + p % big, 0 <= p % big, p < w, w <= lw * s, lw * s <= c * big, big >= 1;
    let dst = min_int(t, lw - x * t);
    assert(p < x * t * s + dst * s) by (nonlinear_arith)
        requires
            p == big * x + p % big,
            p % big < big,
            big == t * s,
            x * t * s == big * x,
            dst == t || dst == lw - x * t,
            p < w,
            w <= lw * s;
    assert forall|x2: int|
        0 <= x2 < c && x2 * t * s <= p < x2 * t * s + #[trigger] axis_src_len(w, s, t, x2) implies x2 == x by {
        let d2 = min_int(t, lw - x2 * t);
        assert(axis_src_len(w, s, t, x2) <= d2 * s);
        assert(d2 * s <= t * s) by (nonlinear_arith)
            requires d2 <= t, s >= 1;
        assert(x2 * t * s == x2 * big) by (nonlinear_arith)
            requires big == t * s;
        lemma_fundamental_div_mod_converse(p, big, x2, p - x2 * big);
    }
}

/// Along one axis, pixel `q` of a level of `lw` pixels lies in the tile
/// image of column `q / t` and of no other column.
proof fn lemma_axis_dst(lw: int, t: int, q: int)
    requires
        1 <= t,
        0 <= q < lw,
    ensures
        ({
            let c = at_least_one(ceil_div(lw, t));
            let x = q / t;
            &&& 0 <= x < c
            &&& x * t <= q < x * t + min_int(t, lw - x * t)
            &&& forall|x2: int|
                0 <= x2 < c && x2 * t <= q < x2 * t + #[trigger] min_int(t, lw - x2 * t) ==> x2 == x
        }),
{
    lemma_ceil_div(lw, t);
    let c = at_least_one(ceil_div(lw, t));
    let x = q / t;
    lemma_fundamental_div_mod(q, t);
    lemma_mod_pos_bound(q, t);
    assert(x * t == t * x) by (nonlinear_arith);
    assert(x >= 0) by (nonlinear_arith)
        requires q == t * x + q % t, 0 <= q % t < t, q >= 0;
    assert(x < c) by (nonlinear_arith)
        requires q == t * x + q % t, 0 <= q % t, q < lw, lw <= c * t, t >= 1;
    assert forall|x2: int|
        0 <= x2 < c && x2 * t <= q < x2 * t + #[trigger] min_int(t, lw - x2 * t) implies x2 == x by {
        lemma_fundamental_div_mod_converse(q, t, x2, q - x2 * t);
    }
}

/// The tiles of each level partition the image: every pixel of the source
/// image lies in the source box of exactly one tile of the level (the one
/// in column `px / (tile_size * scale)`, row `py / (tile_size * scale)`),
/// and every pixel of the scaled level lies in the image of exactly one
/// tile (column `qx / tile_size`, row `qy / tile_size`). With
/// `all_tiles_within_image`, the boxes are not empty and stay inside the
/// image and the level.
pub proof fn level_tiles_partition_image(tree: TileTree, z: int, px: int, py: int, qx: int, qy: int)
    requires
        tree.levels_computable(),
        0 <= z <= tree.max_zoom_level,
    ensures
        ({
            let l = tree.spec_level(z);
            let t = tree.tile_size as int;
            let big = t * l.scale;
            &&& 0 <= px < tree.width && 0 <= py < tree.height ==> {
                &&& tree.is_grid_location(z as u32, (px / big) as u32, (py / big) as u32)
                &&& src_covers(tree.spec_clip(l, px / big, py / big), px, py)
                &&& forall|x: int, y: int|
                    0 <= x < l.columns && 0 <= y < l.rows && #[trigger] src_covers(
                        tree.spec_clip(l, x, y),
                        px,
                        py,
                    ) ==> x == px / big && y == py / big
            }
            &&& 0 <= qx < l.width && 0 <= qy < l.height ==> {
                &&& tree.is_grid_location(z as u32, (qx / t) as u32, (qy / t) as u32)
                &&& dst_covers(t, qx / t, qy / t, tree.spec_clip(l, qx / t, qy / t), qx, qy)
                &&& forall|x: int, y: int|
                    0 <= x < l.columns && 0 <= y < l.rows && #[trigger] dst_covers(
                        t,
                        x,
                        y,
                        tree.spec_clip(l, x, y),
                        qx,
                        qy,
                    ) ==> x == qx / t && y == qy / t
            }
        }),
{
    let l = tree.spec_level(z);
    lemma_level(tree, z);
    let t = tree.tile_size as int;
    let s = l.scale as int;
    let w = tree.width as int;
    let h = tree.height as int;
    // The clip's fields are the untruncated values of each axis.
    assert forall|x: int, y: int| 0 <= x < l.columns && 0 <= y < l.rows implies ({
        let clip = #[trigger] tree.spec_clip(l, x, y);
        &&& clip.src.x == x * t * s
        &&& clip.src.y == y * t * s
        &&& clip.src.w == axis_src_len(w, s, t, x)
        &&& clip.src.h == axis_src_len(h, s, t, y)
        &&& clip.dst_w == min_int(t, l.width - x * t)
        &&& clip.dst_h == min_int(t, l.height - y * t)
    }) by {
        lemma_clip_axis(w, s, t, x);
        lemma_clip_axis(h, s, t, y);
    }
    if 0 <= px < w && 0 <= py < h {
        lemma_axis_src(w, s, t, px);
        lemma_axis_src(h, s, t, py);
        let x = px / (t * s);
        let y = py / (t * s);
        assert(src_covers(tree.spec_clip(l, x, y), px, py));
        assert forall|x2: int, y2: int|
            0 <= x2 < l.columns && 0 <= y2 < l.rows && #[trigger] src_covers(tree.spec_clip(l, x2, y2), px, py)
            implies x2 == x && y2 == y by {
            assert(axis_src_len(w, s, t, x2) == tree.spec_clip(l, x2, y2).src.w);
            assert(axis_src_len(h, s, t, y2) == tree.spec_clip(l, x2, y2).src.h);
        }
    }
    if 0 <= qx < l.width && 0 <= qy < l.height {
        lemma_axis_dst(l.width as int, t, qx);
        lemma_axis_dst(l.height as int, t, qy);
        let x = qx / t;
        let y = qy / t;
        assert(dst_covers(t, x, y, tree.spec_clip(l, x, y), qx, qy));
        assert forall|x2: int, y2: int|
            0 <= x2 < l.columns && 0 <= y2 < l.rows && #[trigger] dst_covers(t, x2, y2, tree.spec_clip(l, x2, y2), qx, qy)
            implies x2 == x && y2 == y by {
            assert(min_int(t, l.width - x2 * t) == tree.spec_clip(l, x2, y2).dst_w);
            assert(min_int(t, l.height - y2 * t) == tree.spec_clip(l, x2, y2).dst_h);
        }
    }
}

/// The deepest level is the image at native resolution: for an image with
/// pixels, each of its tiles is taken unscaled from the source, starting at
/// `tile_size` times its column and row.
pub proof fn deepest_level_is_native(tree: TileTree, x: int, y: int)
    requires
        tree.levels_computable(),
        tree.width >= 1,
        tree.height >= 1,
        tree.is_grid_location(tree.max_zoom_level, x as u32, y as u32),
        0 <= x,
        0 <= y,
        x <= u32::MAX,
        y <= u32::MAX,
    ensures
        ({
            let clip = tree.spec_clip(tree.spec_level(tree.max_zoom_level as int), x, y);
            &&& clip.src.x == x * tree.tile_size
            &&& clip.src.y == y * tree.tile_size
            &&& clip.src.w == clip.dst_w
            &&& clip.src.h == clip.dst_h
        }),
{
    let m = tree.max_zoom_level as int;
    let l = tree.spec_level(m);
    lemma_level(tree, m);
    assert(pow2(0) == 1) by { lemma2_to64(); }
    lemma_ceil_div(tree.width as int, 1);
    lemma_ceil_div(tree.height as int, 1);
    let t = tree.tile_size as int;
    lemma_clip_axis(tree.width as int, 1, t, x);
    lemma_clip_axis(tree.height as int, 1, t, y);
    assert(x * t * 1 == x * t);
    assert(y * t * 1 == y * t);
}

/// Location `a` comes before location `b`: by level, then row, then column.
pub open spec fn loc_before(a: TileLocation, b: TileLocation) -> bool {
    ||| a.z < b.z
    ||| a.z == b.z && a.y < b.y
    ||| a.z == b.z && a.y == b.y && a.x < b.x
}

/// The tiles of the given prefix of the levels come in strictly increasing
/// order of level, row and column.
proof fn lemma_tiles_of_prefix_ordered(tree: TileTree, k: int)
    requires
        tree.levels_computable(),
        0 <= k <= tree.max_zoom_level + 1,
    ensures
        ({
            let tiles = tree.tiles_of(tree.spec_levels().take(k));
            forall|i: int, j: int|
                0 <= i < j < tiles.len() ==> loc_before(#[trigger] tiles[i].0, #[trigger] tiles[j].0)
        }),
    decreases k,
{
    let all = tree.spec_levels();
    let tiles = tree.tiles_of(all.take(k));
    if k > 0 {
        lemma_tiles_of_prefix_ordered(tree, k - 1);
        lemma_tiles_of_prefix(tree, k - 1);
        let front = tree.tiles_of(all.take(k - 1));
        let level = tree.spec_level(k - 1);
        let back = tree.level_tiles(level);
        assert(all.take(k).drop_last() =~= all.take(k - 1));
        assert(all.take(k).last() == level);
        assert(tiles == front + back);
        lemma_level(tree, k - 1);
        let c = level.columns as int;
        let r = level.rows as int;
        assert forall|i: int, j: int| 0 <= i < j < tiles.len() implies loc_before(
            #[trigger] tiles[i].0,
            #[trigger] tiles[j].0,
        ) by {
            if j < front.len() {
                assert(tiles[i] == front[i] && tiles[j] == front[j]);
            } else if i < front.len() {
                assert(tiles[i] == front[i]);
                assert(front[i].0.z < k - 1);
            } else {
                let a = i - front.len();
                let b = j - front.len();
                lemma_fundamental_div_mod(a, c);
                lemma_fundamental_div_mod(b, c);
                lemma_mod_pos_bound(a, c);
                lemma_mod_pos_bound(b, c);
                assert(0 <= a / c < r) by (nonlinear_arith)
                    requires a == c * (a / c) + a % c, 0 <= a % c < c, 0 <= a < r * c, c >= 1;
                assert(0 <= b / c < r) by (nonlinear_arith)
                    requires b == c * (b / c) + b % c, 0 <= b % c < c, 0 <= b < r * c, c >= 1;
                assert(a / c < b / c || (a / c == b / c && a % c < b % c)) by (nonlinear_arith)
                    requires
                        a == c * (a / c) + a % c,
                        b == c * (b / c) + b % c,
                        0 <= a % c < c,
                        0 <= b % c < c,
                        a < b,
                        c >= 1;
            }
        }
    }
}

/// `all_tiles` yields the locations in strictly increasing order of level,
/// row and column, so each at most once.
pub proof fn all_tiles_in_order(tree: TileTree)
    requires
        tree.levels_computable(),
    ensures
        forall|i: int, j: int|
            0 <= i < j < tree.spec_all_tiles().len() ==> loc_before(
                #[trigger] tree.spec_all_tiles()[i].0,
                #[trigger] tree.spec_all_tiles()[j].0,
            ),
{
    lemma_tiles_of_prefix_ordered(tree, tree.max_zoom_level + 1);
    assert(tree.spec_levels().take(tree.max_zoom_level + 1) =~= tree.spec_levels());
}

} // verus!
