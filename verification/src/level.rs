use vstd::prelude::*;
use vstd::arithmetic::mul::lemma_mul_upper_bound;

use crate::geom::Vector;
use crate::map::Color;
use crate::map::LayerDesc;
use crate::map::MapDescription;
use crate::map::ObjectGroupDesc;
use crate::map::Properties;
use crate::map::TilesetDesc;
use crate::map::color_with_opacity;
use crate::map::spec_color_with_opacity;
use crate::texture::DecodedImage;
use crate::texture::Image;
use crate::texture::Registry;
use crate::texture::TextureEntry;
use crate::texture::rgba_decode;
use crate::tileset::Geometry;
use crate::tileset::apply_slice;
use crate::tileset::grid_total;
use crate::tileset::lemma_scan_count_bounds;
use crate::tileset::slice_image;

verus! {

/// One cell of a layer's grid: nothing at all (GID 0), or a placed tile that
/// may or may not carry an image.
#[derive(Clone, Copy, PartialEq, Eq, Structural, Debug)]
pub enum Tile {
    Empty,
    Solid(Option<Image>),
}

/// A layer's tile grid: `cols` x `rows` cells of `tile_width` x `tile_height`
/// pixels each, stored row-major (cell `(col, row)` at index
/// `row * cols + col`), covering `cols * tile_width` by `rows * tile_height`
/// pixels of the map.
pub struct Tilemap {
    pub cols: u32,
    pub rows: u32,
    pub tile_width: u32,
    pub tile_height: u32,
    pub cells: Vec<Tile>,
}

impl Tilemap {
    /// The grid's overall width in pixels.
    pub fn width_pixels(&self) -> (n: u64)
        ensures
            n == self.cols * self.tile_width,
    {
        proof {
            lemma_mul_upper_bound(
                self.cols as int,
                u32::MAX as int,
                self.tile_width as int,
                u32::MAX as int,
            );
        }
        (self.cols as u64) * (self.tile_width as u64)
    }

    /// The grid's overall height in pixels.
    pub fn height_pixels(&self) -> (n: u64)
        ensures
            n == self.rows * self.tile_height,
    {
        proof {
            lemma_mul_upper_bound(
                self.rows as int,
                u32::MAX as int,
                self.tile_height as int,
                u32::MAX as int,
            );
        }
        (self.rows as u64) * (self.tile_height as u64)
    }

    /// The cell at column `col`, row `row`; its top-left corner sits at pixel
    /// `(col * tile_width, row * tile_height)`.
    pub fn tile_at(&self, col: u32, row: u32) -> (t: Tile)
        requires
            col < self.cols,
            row < self.rows,
            self.cells@.len() == self.cols * self.rows,
        ensures
            t == self.cells@[row * self.cols + col],
    {
        let n = self.cells.len();
        proof {
            assert(row * self.cols + col < self.rows * self.cols) by (nonlinear_arith)
                requires
                    row < self.rows,
                    col < self.cols,
            ;
            assert(row * self.cols + col < n);
        }
        self.cells[(row as usize) * (self.cols as usize) + (col as usize)]
    }
}

/// One tile layer of a loaded level.
pub struct Layer {
    pub name: String,
    /// Opacity in thousandths.
    pub opacity: u16,
    pub visible: bool,
    pub grid: Tilemap,
    pub properties: Properties,
}

/// One placed entity of an object group.
pub struct Object {
    pub id: u32,
    pub texture: Option<Image>,
    pub name: String,
    pub obj_type: String,
    pub position: Vector,
    pub visible: bool,
    pub properties: Properties,
}

/// One group of placed entities.
pub struct ObjectGroup {
    pub name: String,
    pub visible: bool,
    pub objects: Vec<Object>,
    pub color: Option<Color>,
}

/// A fully loaded level. Immutable once constructed.
pub struct Level {
    pub layers: Vec<Layer>,
    pub object_groups: Vec<ObjectGroup>,
    pub properties: Properties,
    pub background_color: Option<Color>,
}

/// Why a load failed: a tagged error naming the failing stage. Loading never
/// returns a partial level.
#[derive(Clone, PartialEq, Eq, Debug)]
pub enum LevelError {
    /// A referenced file could not be read.
    IOError(String),
    /// The map description itself was malformed.
    TiledError(String),
    /// A tileset image could not be decoded.
    ImageError(String),
}

/// Everything a successful load yields: the level, the registry that owns
/// the textures the level's views point into, the GID table whose entries
/// are the registered (counted) views, and, texture by texture, the decoded
/// pixels for the renderer to upload.
pub struct LoadedLevel {
    pub level: Level,
    pub registry: Registry,
    pub gid_table: Vec<Option<Image>>,
    pub uploads: Vec<DecodedImage>,
}

/// The tile a grid cell holds for a raw GID: GID 0 is always the empty tile,
/// whatever the table holds; any other GID is a solid tile carrying the
/// table's entry, or no image at all when the table has no such entry —
/// never an error.
pub open spec fn spec_tile_for_gid(gid: u32, table: Seq<Option<Image>>) -> Tile {
    if gid == 0 {
        Tile::Empty
    } else if gid < table.len() {
        Tile::Solid(table[gid as int])
    } else {
        Tile::Solid(None)
    }
}

/// GID 0 yields the empty tile for every GID table.
pub proof fn lemma_gid_zero_empty(table: Seq<Option<Image>>)
    ensures
        spec_tile_for_gid(0, table) == Tile::Empty,
{
}

/// A non-zero GID with no table entry yields a solid tile with no image:
/// not an error, and never a panic.
pub proof fn lemma_gid_unresolved_solid(gid: u32, table: Seq<Option<Image>>)
    requires
        gid != 0,
        gid >= table.len(),
    ensures
        spec_tile_for_gid(gid, table) == Tile::Solid(None),
{
}

/// The raw GID of cell `(col, row)` in a layer's row-major data; rows or
/// cells the data does not provide read as GID 0.
pub open spec fn spec_gid_at(data: Seq<Vec<u32>>, row: int, col: int) -> u32 {
    if 0 <= row < data.len() && 0 <= col < data[row]@.len() {
        data[row]@[col]
    } else {
        0
    }
}

/// Grid cell `c` (row-major over `cols` columns) of a layer with raw data
/// `data`, resolved through the GID table.
pub open spec fn spec_cell(data: Seq<Vec<u32>>, table: Seq<Option<Image>>, cols: int, c: int) -> Tile {
    spec_tile_for_gid(spec_gid_at(data, c / cols, c % cols), table)
}

/// The image an object's GID resolves to: the table's entry when there is
/// one, otherwise no image.
pub open spec fn spec_object_texture(gid: u32, table: Seq<Option<Image>>) -> Option<Image> {
    if gid < table.len() {
        table[gid as int]
    } else {
        None
    }
}

/// The slicing geometry of a tileset description.
pub open spec fn geometry_of(ts: TilesetDesc) -> Geometry {
    Geometry {
        tile_width: ts.tile_width,
        tile_height: ts.tile_height,
        margin: ts.margin,
        spacing: ts.spacing,
    }
}

/// The GID table after the images of one tileset from index `j` on are
/// sliced over `table`, with the next tile written at `first` and the next
/// texture index `tex`.
pub open spec fn table_after_images(
    table: Seq<Option<Image>>,
    ts: TilesetDesc,
    j: int,
    first: int,
    tex: int,
) -> Seq<Option<Image>>
    decreases ts.images@.len() - j,
{
    if j < 0 || j >= ts.images@.len() {
        table
    } else {
        let w = ts.images@[j].width as int;
        let h = ts.images@[j].height as int;
        table_after_images(
            apply_slice(table, tex, first, w, h, geometry_of(ts)),
            ts,
            j + 1,
            first + grid_total(w, h, geometry_of(ts)),
            tex + 1,
        )
    }
}

/// The GID table after the tilesets from index `t` on are resolved over
/// `table`, with the next texture index `tex`. Each tileset starts writing
/// at its own `first_gid`; a later tileset overwrites what an earlier one
/// put at the same GID.
pub open spec fn table_after_tilesets(
    table: Seq<Option<Image>>,
    tilesets: Seq<TilesetDesc>,
    t: int,
    tex: int,
) -> Seq<Option<Image>>
    decreases tilesets.len() - t,
{
    if t < 0 || t >= tilesets.len() {
        table
    } else {
        table_after_tilesets(
            table_after_images(table, tilesets[t], 0, tilesets[t].first_gid as int, tex),
            tilesets,
            t + 1,
            tex + tilesets[t].images@.len(),
        )
    }
}

/// The complete GID table of a map description: all tilesets resolved in
/// order over the empty table, textures numbered in scan order.
pub open spec fn gid_table_spec(tilesets: Seq<TilesetDesc>) -> Seq<Option<Image>> {
    table_after_tilesets(Seq::empty(), tilesets, 0, 0)
}

/// What loading trips over first, scanning tilesets and their images in
/// order: a missing image file, an image that does not decode, or nothing.
#[derive(Clone, Copy, PartialEq, Eq, Structural, Debug)]
pub enum LoadFailure {
    MissingImage,
    UndecodableImage,
}

/// The first failure among one tileset's image files from index `j` on.
pub open spec fn image_failure(files: Seq<Option<Vec<u8>>>, j: int) -> Option<LoadFailure>
    decreases files.len() - j,
{
    if j < 0 || j >= files.len() {
        None
    } else {
        match files[j] {
            None => Some(LoadFailure::MissingImage),
            Some(bytes) => if rgba_decode(bytes@) is None {
                Some(LoadFailure::UndecodableImage)
            } else {
                image_failure(files, j + 1)
            },
        }
    }
}

/// The first failure among all tilesets' image files from tileset `t` on.
pub open spec fn load_failure(files: Seq<Vec<Option<Vec<u8>>>>, t: int) -> Option<LoadFailure>
    decreases files.len() - t,
{
    if t < 0 || t >= files.len() {
        None
    } else {
        match image_failure(files[t]@, 0) {
            Some(f) => Some(f),
            None => load_failure(files, t + 1),
        }
    }
}

/// The registry entry texture `j` of one tileset ends with: the decoded
/// image's dimensions, and one registered view per sliced tile on top of the
/// whole-image view.
pub open spec fn image_entry(ts: TilesetDesc, files_t: Seq<Option<Vec<u8>>>, j: int) -> TextureEntry {
    let d = rgba_decode(files_t[j].unwrap()@).unwrap();
    TextureEntry {
        width: d.0,
        height: d.1,
        refs: (1 + grid_total(
            ts.images@[j].width as int,
            ts.images@[j].height as int,
            geometry_of(ts),
        )) as u64,
    }
}

/// Distinct tiles sliced from one source image share a single texture
/// resource rather than re-uploading it: the image's registry entry counts
/// one registered view per tile on top of the whole-image view, so with at
/// least two tiles the reference count exceeds one — and `Registry::release`
/// frees the renderer resource only when the count falls from one, that is
/// once every registered view has been dropped.
pub proof fn lemma_tiles_keep_texture_alive(
    ts: TilesetDesc,
    files_t: Seq<Option<Vec<u8>>>,
    j: int,
)
    requires
        0 <= j < ts.images@.len(),
        ts.tile_width + ts.spacing >= 1,
        ts.tile_height + ts.spacing >= 1,
        grid_total(
            ts.images@[j].width as int,
            ts.images@[j].height as int,
            geometry_of(ts),
        ) >= 2,
    ensures
        image_entry(ts, files_t, j).refs > 1,
{
    let g = geometry_of(ts);
    let w = ts.images@[j].width as int;
    let h = ts.images@[j].height as int;
    lemma_scan_count_bounds(w, g.margin as int, g.tile_width + g.spacing);
    lemma_scan_count_bounds(h, g.margin as int, g.tile_height + g.spacing);
    lemma_mul_upper_bound(
        crate::tileset::grid_cols(w, g),
        0x8000_0000,
        crate::tileset::grid_rows(h, g),
        0x8000_0000,
    );
}

/// The registry entries one tileset contributes, one per source image.
pub open spec fn tileset_entries(ts: TilesetDesc, files_t: Seq<Option<Vec<u8>>>) -> Seq<TextureEntry> {
    Seq::new(ts.images@.len(), |j: int| image_entry(ts, files_t, j))
}

/// The registry entries of the first `t` tilesets, in order.
pub open spec fn map_entries(
    tilesets: Seq<TilesetDesc>,
    files: Seq<Vec<Option<Vec<u8>>>>,
    t: int,
) -> Seq<TextureEntry>
    decreases t,
{
    if t <= 0 {
        Seq::empty()
    } else {
        map_entries(tilesets, files, t - 1) + tileset_entries(tilesets[t - 1], files[t - 1]@)
    }
}

/// The decode results (width, height, RGBA bytes) of one tileset's images.
pub open spec fn tileset_triples(files_t: Seq<Option<Vec<u8>>>) -> Seq<(u32, u32, Seq<u8>)> {
    Seq::new(files_t.len(), |j: int| rgba_decode(files_t[j].unwrap()@).unwrap())
}

/// The decode results of the first `t` tilesets' images, in order: what the
/// renderer is to upload, texture by texture.
pub open spec fn map_triples(files: Seq<Vec<Option<Vec<u8>>>>, t: int) -> Seq<(u32, u32, Seq<u8>)>
    decreases t,
{
    if t <= 0 {
        Seq::empty()
    } else {
        map_triples(files, t - 1) + tileset_triples(files[t - 1]@)
    }
}

/// The view of one decoded image as a plain triple.
pub open spec fn upload_triple(d: DecodedImage) -> (u32, u32, Seq<u8>) {
    (d.width, d.height, d.pixels@)
}

/// The decoded images a load hands back, viewed as plain triples.
pub open spec fn upload_triples(uploads: Seq<DecodedImage>) -> Seq<(u32, u32, Seq<u8>)> {
    uploads.map_values(|d: DecodedImage| upload_triple(d))
}

fn tile_for_gid(gid: u32, table: &Vec<Option<Image>>) -> (t: Tile)
    ensures
        t == spec_tile_for_gid(gid, table@),
{
    if gid == 0 {
        Tile::Empty
    } else if (gid as usize) < table.len() {
        Tile::Solid(table[gid as usize])
    } else {
        Tile::Solid(None)
    }
}

fn object_texture(gid: u32, table: &Vec<Option<Image>>) -> (t: Option<Image>)
    ensures
        t == spec_object_texture(gid, table@),
{
    if (gid as usize) < table.len() {
        table[gid as usize]
    } else {
        None
    }
}

/// Build one layer's grid: `cols` x `rows` cells, each resolved from the raw
/// row-major GID data through the table.
#[verifier::loop_isolation(false)]
fn build_grid(
    data: &Vec<Vec<u32>>,
    table: &Vec<Option<Image>>,
    cols: u32,
    rows: u32,
    tile_width: u32,
    tile_height: u32,
) -> (grid: Tilemap)
    requires
        cols * rows <= usize::MAX,
    ensures
        grid.cols == cols,
        grid.rows == rows,
        grid.tile_width == tile_width,
        grid.tile_height == tile_height,
        grid.cells@.len() == cols * rows,
        forall|c: int|
            0 <= c < grid.cells@.len() ==> grid.cells@[c] == spec_cell(
                data@,
                table@,
                cols as int,
                c,
            ),
{
    let cols_us: usize = cols as usize;
    let rows_us: usize = rows as usize;
    let total: usize = cols_us * rows_us;
    let mut cells: Vec<Tile> = Vec::new();
    let mut c: usize = 0;
    while c < total
        invariant
            0 <= c <= total,
            cells@.len() == c,
            forall|i: int|
                0 <= i < c ==> cells@[i] == spec_cell(data@, table@, cols as int, i),
        decreases total - c,
    {
        proof {
            assert(cols_us >= 1) by (nonlinear_arith)
                requires
                    total == cols_us * rows_us,
                    c < total,
            ;
        }
        let row = c / cols_us;
        let col = c % cols_us;
        let gid = if row < data.len() {
            let data_row = &data[row];
            if col < data_row.len() {
                data_row[col]
            } else {
                0
            }
        } else {
            0
        };
        proof {
            assert(gid == spec_gid_at(data@, c as int / cols as int, c as int % cols as int));
        }
        let tile = tile_for_gid(gid, table);
        cells.push(tile);
        c = c + 1;
    }
    Tilemap { cols, rows, tile_width, tile_height, cells }
}

/// Turn the raw layers into the level's layers, in source order: names,
/// opacities, visibility and properties carried over, each grid resolved
/// through the table.
#[verifier::loop_isolation(false)]
fn assemble_layers(
    raw: Vec<LayerDesc>,
    table: &Vec<Option<Image>>,
    width: u32,
    height: u32,
    tile_width: u32,
    tile_height: u32,
) -> (out: Vec<Layer>)
    requires
        width * height <= usize::MAX,
    ensures
        out@.len() == raw@.len(),
        forall|i: int|
            0 <= i < raw@.len() ==> {
                let l = #[trigger] out@[i];
                &&& l.name == raw@[i].name
                &&& l.opacity == raw@[i].opacity
                &&& l.visible == raw@[i].visible
                &&& l.properties == raw@[i].properties
                &&& l.grid.cols == width
                &&& l.grid.rows == height
                &&& l.grid.tile_width == tile_width
                &&& l.grid.tile_height == tile_height
                &&& l.grid.cells@.len() == width * height
                &&& forall|c: int|
                    0 <= c < l.grid.cells@.len() ==> l.grid.cells@[c] == spec_cell(
                        raw@[i].tiles@,
                        table@,
                        width as int,
                        c,
                    )
            },
{
    let mut raw = raw;
    let ghost raw0 = raw@;
    let mut out: Vec<Layer> = Vec::new();
    while raw.len() > 0
        invariant
            out@.len() + raw@.len() == raw0.len(),
            raw@ == raw0.skip(out@.len() as int),
            forall|i: int|
                0 <= i < out@.len() ==> {
                    let l = #[trigger] out@[i];
                    &&& l.name == raw0[i].name
                    &&& l.opacity == raw0[i].opacity
                    &&& l.visible == raw0[i].visible
                    &&& l.properties == raw0[i].properties
                    &&& l.grid.cols == width
                    &&& l.grid.rows == height
                    &&& l.grid.tile_width == tile_width
                    &&& l.grid.tile_height == tile_height
                    &&& l.grid.cells@.len() == width * height
                    &&& forall|c: int|
                        0 <= c < l.grid.cells@.len() ==> l.grid.cells@[c] == spec_cell(
                            raw0[i].tiles@,
                            table@,
                            width as int,
                            c,
                        )
                },
        decreases raw@.len(),
    {
        let ghost i = out@.len() as int;
        let layer = raw.remove(0);
        proof {
            assert(layer == raw0[i]);
            assert(raw@ =~= raw0.skip(i + 1));
        }
        let grid = build_grid(&layer.tiles, table, width, height, tile_width, tile_height);
        let LayerDesc { name, opacity, visible, tiles, properties } = layer;
        out.push(Layer { name, opacity, visible, grid, properties });
    }
    out
}

/// Turn the raw object groups into the level's, in source order: each
/// object's GID resolved through the table, its position carried into pixel
/// space, the group tint combined with the group opacity.
#[verifier::loop_isolation(false)]
fn assemble_object_groups(raw: Vec<ObjectGroupDesc>, table: &Vec<Option<Image>>) -> (out: Vec<
    ObjectGroup,
>)
    ensures
        out@.len() == raw@.len(),
        forall|i: int|
            0 <= i < raw@.len() ==> {
                let g = #[trigger] out@[i];
                &&& g.name == raw@[i].name
                &&& g.visible == raw@[i].visible
                &&& g.color == spec_color_with_opacity(raw@[i].colour, raw@[i].opacity)
                &&& g.objects@.len() == raw@[i].objects@.len()
                &&& forall|j: int|
                    0 <= j < g.objects@.len() ==> {
                        let o = #[trigger] g.objects@[j];
                        let r = raw@[i].objects@[j];
                        &&& o.id == r.id
                        &&& o.texture == spec_object_texture(r.gid, table@)
                        &&& o.name == r.name
                        &&& o.obj_type == r.obj_type
                        &&& o.position == (Vector { x: r.x, y: r.y })
                        &&& o.visible == r.visible
                        &&& o.properties == r.properties
                    }
            },
{
    let mut raw = raw;
    let ghost raw0 = raw@;
    let mut out: Vec<ObjectGroup> = Vec::new();
    while raw.len() > 0
        invariant
            out@.len() + raw@.len() == raw0.len(),
            raw@ == raw0.skip(out@.len() as int),
            forall|i: int|
                0 <= i < out@.len() ==> {
                    let g = #[trigger] out@[i];
                    &&& g.name == raw0[i].name
                    &&& g.visible == raw0[i].visible
                    &&& g.color == spec_color_with_opacity(raw0[i].colour, raw0[i].opacity)
                    &&& g.objects@.len() == raw0[i].objects@.len()
                    &&& forall|j: int|
                        0 <= j < g.objects@.len() ==> {
                            let o = #[trigger] g.objects@[j];
                            let r = raw0[i].objects@[j];
                            &&& o.id == r.id
                            &&& o.texture == spec_object_texture(r.gid, table@)
                            &&& o.name == r.name
                            &&& o.obj_type == r.obj_type
                            &&& o.position == (Vector { x: r.x, y: r.y })
                            &&& o.visible == r.visible
                            &&& o.properties == r.properties
                        }
                },
        decreases raw@.len(),
    {
        let ghost i = out@.len() as int;
        let group = raw.remove(0);
        proof {
            assert(group == raw0[i]);
            assert(raw@ =~= raw0.skip(i + 1));
        }
        let ObjectGroupDesc { name, opacity, visible, objects, colour } = group;
        let mut objects = objects;
        let ghost objs0 = objects@;
        let mut converted: Vec<Object> = Vec::new();
        while objects.len() > 0
            invariant
                converted@.len() + objects@.len() == objs0.len(),
                objects@ == objs0.skip(converted@.len() as int),
                forall|j: int|
                    0 <= j < converted@.len() ==> {
                        let o = #[trigger] converted@[j];
                        let r = objs0[j];
                        &&& o.id == r.id
                        &&& o.texture == spec_object_texture(r.gid, table@)
                        &&& o.name == r.name
                        &&& o.obj_type == r.obj_type
                        &&& o.position == (Vector { x: r.x, y: r.y })
                        &&& o.visible == r.visible
                        &&& o.properties == r.properties
                    },
            decreases objects@.len(),
        {
            let ghost j = converted@.len() as int;
            let obj = objects.remove(0);
            proof {
                assert(obj == objs0[j]);
                assert(objects@ =~= objs0.skip(j + 1));
            }
            let texture = object_texture(obj.gid, table);
            let position = Vector { x: obj.x, y: obj.y };
            converted.push(
                Object {
                    id: obj.id,
                    texture,
                    name: obj.name,
                    obj_type: obj.obj_type,
                    position,
                    visible: obj.visible,
                    properties: obj.properties,
                },
            );
        }
        let color = color_with_opacity(colour, opacity);
        out.push(ObjectGroup { name, visible, objects: converted, color });
    }
    out
}

impl Level {
    /// Load a level from a parsed map description together with the raw
    /// bytes of every tileset image file, aligned with the description's
    /// tilesets (`None` where a file could not be read; the caller resolves
    /// each path against the map file's directory, so no ambient working
    /// directory is consulted or changed).
    ///
    /// On success the whole pipeline has run: every tileset image decoded
    /// once and registered as one shared texture, the GID table built in
    /// tileset order, and the level assembled from it. Any missing file or
    /// undecodable image aborts the load with an error tagged by stage —
    /// the first failure in scan order decides — and no partial level is
    /// returned.
    ///
    /// The degenerate scan geometries (tile width and spacing both zero, or
    /// tile height and spacing both zero) are excluded: such a scan would
    /// never advance.
    #[verifier::loop_isolation(false)]
    pub fn load(desc: MapDescription, files: &Vec<Vec<Option<Vec<u8>>>>) -> (r: Result<
        LoadedLevel,
        LevelError,
    >)
        requires
            desc.width * desc.height <= usize::MAX,
            files@.len() == desc.tilesets@.len(),
            forall|t: int|
                0 <= t < desc.tilesets@.len() ==> {
                    let ts = #[trigger] desc.tilesets@[t];
                    &&& ts.tile_width + ts.spacing >= 1
                    &&& ts.tile_height + ts.spacing >= 1
                    &&& files@[t]@.len() == ts.images@.len()
                },
        ensures
            match r {
                Ok(loaded) => {
                    &&& load_failure(files@, 0) is None
                    &&& loaded.gid_table@ == gid_table_spec(desc.tilesets@)
                    &&& loaded.registry.entries@ == map_entries(
                        desc.tilesets@,
                        files@,
                        desc.tilesets@.len() as int,
                    )
                    &&& upload_triples(loaded.uploads@) == map_triples(files@, files@.len() as int)
                    &&& loaded.level.properties == desc.properties
                    &&& loaded.level.background_color == spec_color_with_opacity(
                        desc.background_colour,
                        1000,
                    )
                    &&& loaded.level.layers@.len() == desc.layers@.len()
                    &&& forall|i: int|
                        0 <= i < desc.layers@.len() ==> {
                            let l = #[trigger] loaded.level.layers@[i];
                            &&& l.name == desc.layers@[i].name
                            &&& l.opacity == desc.layers@[i].opacity
                            &&& l.visible == desc.layers@[i].visible
                            &&& l.properties == desc.layers@[i].properties
                            &&& l.grid.cols == desc.width
                            &&& l.grid.rows == desc.height
                            &&& l.grid.tile_width == desc.tile_width
                            &&& l.grid.tile_height == desc.tile_height
                            &&& l.grid.cells@.len() == desc.width * desc.height
                            &&& forall|c: int|
                                0 <= c < l.grid.cells@.len() ==> l.grid.cells@[c] == spec_cell(
                                    desc.layers@[i].tiles@,
                                    gid_table_spec(desc.tilesets@),
                                    desc.width as int,
                                    c,
                                )
                        }
                    &&& loaded.level.object_groups@.len() == desc.object_groups@.len()
                    &&& forall|i: int|
                        0 <= i < desc.object_groups@.len() ==> {
                            let g = #[trigger] loaded.level.object_groups@[i];
                            &&& g.name == desc.object_groups@[i].name
                            &&& g.visible == desc.object_groups@[i].visible
                            &&& g.color == spec_color_with_opacity(
                                desc.object_groups@[i].colour,
                                desc.object_groups@[i].opacity,
                            )
                            &&& g.objects@.len() == desc.object_groups@[i].objects@.len()
                            &&& forall|j: int|
                                0 <= j < g.objects@.len() ==> {
                                    let o = #[trigger] g.objects@[j];
                                    let rj = desc.object_groups@[i].objects@[j];
                                    &&& o.id == rj.id
                                    &&& o.texture == spec_object_texture(
                                        rj.gid,
                                        gid_table_spec(desc.tilesets@),
                                    )
                                    &&& o.name == rj.name
                                    &&& o.obj_type == rj.obj_type
                                    &&& o.position == (Vector { x: rj.x, y: rj.y })
                                    &&& o.visible == rj.visible
                                    &&& o.properties == rj.properties
                                }
                        }
                },
                Err(LevelError::IOError(_)) => load_failure(files@, 0) == Some(
                    LoadFailure::MissingImage,
                ),
                Err(LevelError::TiledError(_)) => false,
                Err(LevelError::ImageError(_)) => load_failure(files@, 0) == Some(
                    LoadFailure::UndecodableImage,
                ),
            },
    {
        let ghost desc0 = desc;
        let MapDescription {
            width,
            height,
            tile_width,
            tile_height,
            tilesets,
            layers,
            object_groups,
            properties,
            background_colour,
        } = desc;
        let mut registry = Registry::new();
        let mut uploads: Vec<DecodedImage> = Vec::new();
        let mut table: Vec<Option<Image>> = Vec::new();
        let mut t: usize = 0;
        while t < tilesets.len()
            invariant
                0 <= t <= tilesets@.len(),
                tilesets@ == desc0.tilesets@,
                registry.entries@ == map_entries(desc0.tilesets@, files@, t as int),
                upload_triples(uploads@) == map_triples(files@, t as int),
                gid_table_spec(desc0.tilesets@) == table_after_tilesets(
                    table@,
                    desc0.tilesets@,
                    t as int,
                    registry.entries@.len() as int,
                ),
                load_failure(files@, 0) == load_failure(files@, t as int),
            decreases tilesets@.len() - t,
        {
            let ts = &tilesets[t];
            let g = Geometry {
                tile_width: ts.tile_width,
                tile_height: ts.tile_height,
                margin: ts.margin,
                spacing: ts.spacing,
            };
            let files_t = &files[t];
            let ghost entries_at_t = registry.entries@;
            let ghost uploads_at_t = upload_triples(uploads@);
            let mut j: usize = 0;
            let mut cur: usize = ts.first_gid as usize;
            while j < ts.images.len()
                invariant
                    0 <= j <= ts.images@.len(),
                    registry.entries@ == entries_at_t + tileset_entries(
                        desc0.tilesets@[t as int],
                        files_t@,
                    ).take(j as int),
                    upload_triples(uploads@) == uploads_at_t + tileset_triples(files_t@).take(j as int),
                    gid_table_spec(desc0.tilesets@) == table_after_tilesets(
                        table_after_images(
                            table@,
                            desc0.tilesets@[t as int],
                            j as int,
                            cur as int,
                            registry.entries@.len() as int,
                        ),
                        desc0.tilesets@,
                        t + 1,
                        entries_at_t.len() + desc0.tilesets@[t as int].images@.len() as int,
                    ),
                    image_failure(files_t@, 0) == image_failure(files_t@, j as int),
                decreases ts.images@.len() - j,
            {
                let im = &ts.images[j];
                let file = &files_t[j];
                match file {
                    None => {
                        return Err(LevelError::IOError(im.source.clone()));
                    },
                    Some(bytes) => {
                        match Image::load(bytes, &mut registry) {
                            Err(_) => {
                                return Err(LevelError::ImageError(im.source.clone()));
                            },
                            Ok((whole, decoded)) => {
                                proof {
                                    lemma_scan_count_bounds(
                                        im.width as int,
                                        g.margin as int,
                                        g.tile_width + g.spacing,
                                    );
                                    lemma_scan_count_bounds(
                                        im.height as int,
                                        g.margin as int,
                                        g.tile_height + g.spacing,
                                    );
                                    lemma_mul_upper_bound(
                                        crate::tileset::grid_cols(im.width as int, g),
                                        0x8000_0000,
                                        crate::tileset::grid_rows(im.height as int, g),
                                        0x8000_0000,
                                    );
                                }
                                let ghost uploads_before = uploads@;
                                let ghost d0 = decoded;
                                uploads.push(decoded);
                                cur = slice_image(
                                    &mut table,
                                    &mut registry,
                                    &whole,
                                    im.width,
                                    im.height,
                                    g,
                                    cur,
                                );
                                proof {
                                    let tss = desc0.tilesets@[t as int];
                                    assert(ts == tss);
                                    assert(files_t@ == files@[t as int]@);
                                    assert(files_t@.len() == tss.images@.len());
                                    assert(files_t@[j as int] == Some(*bytes));
                                    assert(uploads@ == uploads_before.push(d0));
                                    assert(rgba_decode(bytes@) == Some(
                                        (d0.width, d0.height, d0.pixels@),
                                    ));
                                    assert(tileset_triples(files_t@)[j as int] == upload_triple(
                                        d0,
                                    ));
                                    assert(registry.entries@ =~= entries_at_t + tileset_entries(
                                        tss,
                                        files_t@,
                                    ).take(j + 1));
                                    let triples = tileset_triples(files_t@);
                                    assert(upload_triples(uploads_before).len()
                                        == uploads_at_t.len() + j);
                                    assert(upload_triples(uploads@).len() == uploads_at_t.len() + j
                                        + 1);
                                    assert forall|i: int|
                                        0 <= i < upload_triples(uploads@).len()
                                            implies upload_triples(uploads@)[i] == (uploads_at_t
                                            + triples.take(j + 1))[i] by {
                                        if i < uploads_at_t.len() + j {
                                            assert(uploads@[i] == uploads_before[i]);
                                            assert(upload_triples(uploads_before)[i] == (
                                            uploads_at_t + triples.take(j as int))[i]);
                                            if i >= uploads_at_t.len() {
                                                assert(triples.take(j as int)[i
                                                    - uploads_at_t.len()] == triples[i
                                                    - uploads_at_t.len()]);
                                                assert(triples.take(j + 1)[i - uploads_at_t.len()]
                                                    == triples[i - uploads_at_t.len()]);
                                            }
                                        } else {
                                            assert(uploads@[i] == d0);
                                            assert(triples.take(j + 1)[j as int] == triples[
                                                j as int]);
                                        }
                                    }
                                    assert(upload_triples(uploads@) =~= uploads_at_t
                                        + tileset_triples(files_t@).take(j + 1));
                                }
                            },
                        }
                    },
                }
                j = j + 1;
            }
            proof {
                assert(tileset_entries(desc0.tilesets@[t as int], files_t@).take(j as int)
                    =~= tileset_entries(desc0.tilesets@[t as int], files_t@));
                assert(tileset_triples(files_t@).take(j as int) =~= tileset_triples(files_t@));
            }
            t = t + 1;
        }
        let level_layers = assemble_layers(layers, &table, width, height, tile_width, tile_height);
        let level_groups = assemble_object_groups(object_groups, &table);
        let background_color = color_with_opacity(background_colour, 1000);
        Ok(
            LoadedLevel {
                level: Level {
                    layers: level_layers,
                    object_groups: level_groups,
                    properties,
                    background_color,
                },
                registry,
                gid_table: table,
                uploads,
            },
        )
    }
}

} // verus!
