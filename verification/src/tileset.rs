use vstd::prelude::*;
use vstd::arithmetic::div_mod::lemma_fundamental_div_mod;
use vstd::arithmetic::div_mod::lemma_mod_bound;
use vstd::arithmetic::div_mod::lemma_multiply_divide_lt;
use vstd::arithmetic::mul::lemma_mul_inequality;
use vstd::arithmetic::mul::lemma_mul_upper_bound;

use crate::geom::Rectangle;
use crate::texture::Image;
use crate::texture::Registry;
use crate::texture::TextureEntry;

verus! {

/// The slicing geometry of one tileset: tile size, border and gap, all in
/// pixels of the source image.
#[derive(Clone, Copy, PartialEq, Eq, Structural, Debug)]
pub struct Geometry {
    pub tile_width: u32,
    pub tile_height: u32,
    pub margin: u32,
    pub spacing: u32,
}

/// How many scan positions fit along one axis of length `limit`: positions
/// `margin, margin + step, margin + 2*step, ...`, kept while the position
/// plus the far-side margin still lies inside `limit`. A tile may overhang:
/// only its top-left corner is checked, as the map format prescribes.
pub open spec fn scan_count(limit: int, margin: int, step: int) -> int
    recommends
        margin >= 0,
        step >= 1,
{
    if 2 * margin >= limit {
        0
    } else {
        (limit - 2 * margin - 1) / step + 1
    }
}

/// Position `i` is scanned exactly when `i` lies below the scan count.
pub proof fn lemma_scan_iff(limit: int, margin: int, step: int, i: int)
    requires
        margin >= 0,
        step >= 1,
        i >= 0,
    ensures
        (margin + i * step + margin < limit) <==> (i < scan_count(limit, margin, step)),
{
    assert(i * step >= 0) by (nonlinear_arith)
        requires
            i >= 0,
            step >= 1,
    ;
    if 2 * margin >= limit {
    } else {
        let a = limit - 2 * margin - 1;
        let q = a / step;
        let r = a % step;
        lemma_fundamental_div_mod(a, step);
        lemma_mod_bound(a, step);
        assert((i * step <= a) <==> (i <= q)) by (nonlinear_arith)
            requires
                step >= 1,
                i >= 0,
                a >= 0,
                a == step * q + r,
                0 <= r < step,
        ;
    }
}

/// The scan count is non-negative and no more than the axis length.
pub proof fn lemma_scan_count_bounds(limit: int, margin: int, step: int)
    requires
        margin >= 0,
        step >= 1,
    ensures
        0 <= scan_count(limit, margin, step),
        scan_count(limit, margin, step) <= if limit >= 0 { limit } else { 0 },
{
    if 2 * margin >= limit {
    } else {
        let a = limit - 2 * margin - 1;
        let q = a / step;
        lemma_fundamental_div_mod(a, step);
        lemma_mod_bound(a, step);
        lemma_mul_inequality(1, step, q);
        if q < 0 {
            lemma_mul_inequality(0, (-q), step);
        }
    }
}

/// Number of tile columns sliced from a source image of declared width
/// `width`.
pub open spec fn grid_cols(width: int, g: Geometry) -> int {
    scan_count(width, g.margin as int, g.tile_width + g.spacing)
}

/// Number of tile rows sliced from a source image of declared height
/// `height`.
pub open spec fn grid_rows(height: int, g: Geometry) -> int {
    scan_count(height, g.margin as int, g.tile_height + g.spacing)
}

/// How many tiles one source image contributes.
pub open spec fn grid_total(width: int, height: int, g: Geometry) -> int {
    grid_cols(width, g) * grid_rows(height, g)
}

/// The source-pixel region of tile `k` of an image, counted in column-major
/// scan order: the outer scan walks columns left to right, the inner scan
/// walks one column top to bottom, so consecutive tile numbers run down a
/// column before moving right.
pub open spec fn tile_region(width: int, height: int, g: Geometry, k: int) -> Rectangle
    recommends
        0 <= k < grid_total(width, height, g),
{
    let rows = grid_rows(height, g);
    Rectangle {
        x: (g.margin + (k / rows) * (g.tile_width + g.spacing)) as u32,
        y: (g.margin + (k % rows) * (g.tile_height + g.spacing)) as u32,
        width: g.tile_width,
        height: g.tile_height,
    }
}

/// Tile `k` of the image behind texture `tex`, as a view.
pub open spec fn tile_image(tex: int, width: int, height: int, g: Geometry, k: int) -> Image {
    Image { texture: tex as usize, region: tile_region(width, height, g, k) }
}

/// The GID table after slicing one source image over `table`: entries
/// `first .. first + total` become the image's tiles in scan order, the
/// table is grown with empty entries as far as needed (and no further), and
/// every other entry keeps its old value. An image that yields no tiles
/// leaves the table untouched.
pub open spec fn apply_slice(
    table: Seq<Option<Image>>,
    tex: int,
    first: int,
    width: int,
    height: int,
    g: Geometry,
) -> Seq<Option<Image>> {
    let total = grid_total(width, height, g);
    if total <= 0 {
        table
    } else {
        let end = first + total;
        let len = if table.len() >= end { table.len() as int } else { end };
        Seq::new(
            len as nat,
            |i: int|
                if first <= i < end {
                    Some(tile_image(tex, width, height, g, i - first))
                } else if i < table.len() {
                    table[i]
                } else {
                    None
                },
        )
    }
}

/// Tiles sliced from one source image all share that image's texture: with
/// at least two tiles, at least two registered views point at it, so the
/// texture is shared, not re-uploaded per tile.
pub proof fn lemma_tiles_share_texture(
    table: Seq<Option<Image>>,
    tex: int,
    first: int,
    width: int,
    height: int,
    g: Geometry,
    k1: int,
    k2: int,
)
    requires
        first >= 0,
        0 <= k1 < grid_total(width, height, g),
        0 <= k2 < grid_total(width, height, g),
    ensures
        apply_slice(table, tex, first, width, height, g)[first + k1] == Some(
            tile_image(tex, width, height, g, k1),
        ),
        apply_slice(table, tex, first, width, height, g)[first + k1].unwrap().texture
            == apply_slice(table, tex, first, width, height, g)[first + k2].unwrap().texture,
{
}

/// Tiles sliced from one source image are numbered `first, first + 1, ...`
/// in column-major scan order over the margin/spacing-adjusted grid: tile
/// `first + k` is cut at column `k / rows`, row `k % rows`, that is at pixel
/// `(margin + (k / rows) * (tile_width + spacing),
///   margin + (k % rows) * (tile_height + spacing))`. The regions are a pure
/// function of the geometry, so re-slicing the same image with the same
/// geometry reproduces them exactly.
pub proof fn lemma_tile_numbering(
    table: Seq<Option<Image>>,
    tex: int,
    first: int,
    width: int,
    height: int,
    g: Geometry,
    k: int,
)
    requires
        first >= 0,
        0 <= k < grid_total(width, height, g),
    ensures
        apply_slice(table, tex, first, width, height, g)[first + k] == Some(
            tile_image(tex, width, height, g, k),
        ),
        tile_image(tex, width, height, g, k).region == (Rectangle {
            x: (g.margin + (k / grid_rows(height, g)) * (g.tile_width + g.spacing)) as u32,
            y: (g.margin + (k % grid_rows(height, g)) * (g.tile_height + g.spacing)) as u32,
            width: g.tile_width,
            height: g.tile_height,
        }),
{
}

/// Slice one decoded-and-uploaded source image into per-tile views and write
/// them into the GID table at `first, first + 1, ...` in column-major scan
/// order, growing the table with empty entries as needed. Each written view
/// is registered with the registry, so the image's texture ends with one
/// registered view per tile on top of those it already had. Returns the
/// index one past the last tile written (`first` if the geometry yields no
/// tiles).
#[verifier::loop_isolation(false)]
pub fn slice_image(
    table: &mut Vec<Option<Image>>,
    registry: &mut Registry,
    whole: &Image,
    width: i32,
    height: i32,
    g: Geometry,
    first: usize,
) -> (next: usize)
    requires
        g.tile_width + g.spacing >= 1,
        g.tile_height + g.spacing >= 1,
        whole.texture < old(registry).entries@.len(),
        whole.region.x == 0,
        whole.region.y == 0,
        old(registry).entries@[whole.texture as int].refs + grid_total(
            width as int,
            height as int,
            g,
        ) <= u64::MAX,
    ensures
        final(table)@ == apply_slice(
            old(table)@,
            whole.texture as int,
            first as int,
            width as int,
            height as int,
            g,
        ),
        next == first + grid_total(width as int, height as int, g),
        final(registry).entries@.len() == old(registry).entries@.len(),
        forall|t: int|
            0 <= t < old(registry).entries@.len() && t != whole.texture as int
                ==> final(registry).entries@[t] == old(registry).entries@[t],
        final(registry).entries@[whole.texture as int] == (TextureEntry {
            refs: (old(registry).entries@[whole.texture as int].refs + grid_total(
                width as int,
                height as int,
                g,
            )) as u64,
            ..old(registry).entries@[whole.texture as int]
        }),
{
    let ghost old_table = table@;
    let ghost old_refs: u64 = registry.entries@[whole.texture as int].refs;
    let sx: u64 = g.tile_width as u64 + g.spacing as u64;
    let sy: u64 = g.tile_height as u64 + g.spacing as u64;
    let w64: u64 = if width <= 0 { 0 } else { width as u64 };
    let h64: u64 = if height <= 0 { 0 } else { height as u64 };
    let cols: u64 = scan_count_exec(w64, g.margin, sx);
    let rows: u64 = scan_count_exec(h64, g.margin, sy);
    proof {
        assert(cols == grid_cols(width as int, g));
        assert(rows == grid_rows(height as int, g));
        lemma_mul_upper_bound(cols as int, 0x8000_0000, rows as int, 0x8000_0000);
    }
    let total: u64 = cols * rows;
    let mut k: u64 = 0;
    let mut idx: usize = first;
    while k < total
        invariant
            0 <= k <= total,
            idx == first + k,
            registry.entries@.len() == old(registry).entries@.len(),
            forall|t: int|
                0 <= t < old(registry).entries@.len() && t != whole.texture as int
                    ==> registry.entries@[t] == old(registry).entries@[t],
            registry.entries@[whole.texture as int] == (TextureEntry {
                refs: (old_refs + k) as u64,
                ..old(registry).entries@[whole.texture as int]
            }),
            k == 0 ==> table@ == old_table,
            k > 0 ==> {
                &&& table@.len() == if old_table.len() >= first + k {
                    old_table.len() as int
                } else {
                    first + k
                }
                &&& forall|i: int|
                    0 <= i < table@.len() ==> table@[i] == (
                    if first <= i < first + k {
                        Some(tile_image(whole.texture as int, width as int, height as int, g, i - first))
                    } else if i < old_table.len() {
                        old_table[i]
                    } else {
                        None
                    })
            },
        decreases total - k,
    {
        proof {
            assert(rows >= 1) by (nonlinear_arith)
                requires
                    total == cols * rows,
                    k < total,
            ;
        }
        let col: u64 = k / rows;
        let row: u64 = k % rows;
        proof {
            lemma_mod_bound(k as int, rows as int);
            assert((k as int) < (rows as int) * (cols as int)) by (nonlinear_arith)
                requires
                    total == cols * rows,
                    k < total,
            ;
            lemma_multiply_divide_lt(k as int, rows as int, cols as int);
            lemma_scan_iff(width as int, g.margin as int, sx as int, col as int);
            lemma_scan_iff(height as int, g.margin as int, sy as int, row as int);
        }
        let x: u64 = g.margin as u64 + col * sx;
        let y: u64 = g.margin as u64 + row * sy;
        let region = Rectangle {
            x: x as u32,
            y: y as u32,
            width: g.tile_width,
            height: g.tile_height,
        };
        let tile = whole.subimage(region);
        proof {
            assert(tile == tile_image(whole.texture as int, width as int, height as int, g, k as int));
        }
        registry.register(&tile);
        let ghost grown_from = table@;
        while table.len() <= idx
            invariant
                table@.len() >= grown_from.len(),
                table@.len() <= if grown_from.len() >= idx + 1 {
                    grown_from.len() as int
                } else {
                    idx + 1
                },
                forall|i: int| 0 <= i < grown_from.len() ==> table@[i] == grown_from[i],
                forall|i: int|
                    grown_from.len() <= i < table@.len() ==> table@[i] is None,
            decreases idx + 1 - table@.len(),
        {
            table.push(None);
        }
        table.set(idx, Some(tile));
        proof {
            assert(table@.len() == if old_table.len() >= first + k + 1 {
                old_table.len() as int
            } else {
                first + k + 1
            });
            assert forall|i: int| 0 <= i < table@.len() implies table@[i] == (
            if first <= i < first + k + 1 {
                Some(tile_image(whole.texture as int, width as int, height as int, g, i - first))
            } else if i < old_table.len() {
                old_table[i]
            } else {
                None
            }) by {
                if i == idx {
                    assert(table@[i] == Some(tile));
                    assert(tile == tile_image(
                        whole.texture as int,
                        width as int,
                        height as int,
                        g,
                        i - first,
                    ));
                } else if first <= i < first + k {
                    assert(i < grown_from.len());
                    assert(grown_from[i] == Some(
                        tile_image(whole.texture as int, width as int, height as int, g, i - first),
                    ));
                    assert(table@[i] == grown_from[i]);
                } else {
                    if i < grown_from.len() {
                        assert(table@[i] == grown_from[i]);
                        if k > 0 {
                            assert(grown_from[i] == (if i < old_table.len() {
                                old_table[i]
                            } else {
                                None
                            }));
                        }
                    } else {
                        assert(grown_from.len() >= old_table.len());
                        assert(table@[i] is None);
                    }
                }
            }
        }
        idx = idx + 1;
        k = k + 1;
    }
    proof {
        assert(table@ =~= apply_slice(
            old_table,
            whole.texture as int,
            first as int,
            width as int,
            height as int,
            g,
        ));
    }
    idx
}

/// The scan count along one axis, computed. `limit` is the axis length (a
/// negative declared length counts as zero), `step` the tile size plus
/// spacing.
#[verifier::loop_isolation(false)]
fn scan_count_exec(limit: u64, margin: u32, step: u64) -> (n: u64)
    requires
        step >= 1,
    ensures
        n == scan_count(limit as int, margin as int, step as int),
        n <= limit,
{
    let m2: u64 = 2 * (margin as u64);
    if m2 >= limit {
        0
    } else {
        let a: u64 = limit - m2 - 1;
        let q: u64 = a / step;
        proof {
            lemma_fundamental_div_mod(a as int, step as int);
            lemma_mod_bound(a as int, step as int);
            lemma_mul_inequality(1, step as int, q as int);
        }
        q + 1
    }
}

} // verus!
