use vstd::prelude::*;

mod geom;
mod level;
mod map;
mod texture;
mod tileset;

pub use geom::Rectangle;
pub use geom::Vector;
pub use geom::compose;
pub use geom::compose_fits;
pub use geom::lemma_compose_associative;
pub use texture::DecodedImage;
pub use texture::Image;
pub use texture::PixelFormat;
pub use texture::Registry;
pub use texture::TextureEntry;
pub use texture::lemma_subimage_associative;
pub use texture::rgba_decode;
pub use map::Color;
pub use map::Colour;
pub use map::ImageDesc;
pub use map::LayerDesc;
pub use map::MapDescription;
pub use map::ObjectDesc;
pub use map::ObjectGroupDesc;
pub use map::Properties;
pub use map::PropertyValue;
pub use map::TilesetDesc;
pub use map::color_with_opacity;
pub use map::spec_color_with_opacity;
pub use tileset::Geometry;
pub use tileset::apply_slice;
pub use tileset::lemma_scan_count_bounds;
pub use tileset::lemma_scan_iff;
pub use tileset::scan_count;
pub use tileset::grid_cols;
pub use tileset::grid_rows;
pub use tileset::grid_total;
pub use tileset::lemma_tile_numbering;
pub use tileset::lemma_tiles_share_texture;
pub use tileset::slice_image;
pub use tileset::tile_image;
pub use tileset::tile_region;
pub use level::Layer;
pub use level::Level;
pub use level::LevelError;
pub use level::LoadFailure;
pub use level::LoadedLevel;
pub use level::Object;
pub use level::ObjectGroup;
pub use level::Tile;
pub use level::Tilemap;
pub use level::geometry_of;
pub use level::gid_table_spec;
pub use level::image_entry;
pub use level::image_failure;
pub use level::lemma_gid_unresolved_solid;
pub use level::lemma_gid_zero_empty;
pub use level::lemma_tiles_keep_texture_alive;
pub use level::load_failure;
pub use level::map_entries;
pub use level::map_triples;
pub use level::spec_cell;
pub use level::spec_gid_at;
pub use level::spec_object_texture;
pub use level::spec_tile_for_gid;
pub use level::table_after_images;
pub use level::table_after_tilesets;
pub use level::tileset_entries;
pub use level::tileset_triples;
pub use level::upload_triple;
pub use level::upload_triples;
