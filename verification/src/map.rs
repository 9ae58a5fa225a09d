use vstd::prelude::*;

verus! {

/// An 8-bit-per-channel colour as the map format writes it.
#[derive(Clone, Copy, PartialEq, Eq, Structural, Debug)]
pub struct Colour {
    pub red: u8,
    pub green: u8,
    pub blue: u8,
}

/// A colour as the level carries it: the 8-bit source channels together with
/// an opacity in thousandths (0 = transparent, 1000 = opaque). A renderer
/// normalises the channels by dividing by 255 and the opacity by dividing by
/// 1000.
#[derive(Clone, Copy, PartialEq, Eq, Structural, Debug)]
pub struct Color {
    pub r: u8,
    pub g: u8,
    pub b: u8,
    pub a: u16,
}

/// `colour` with the given opacity attached, if there is a colour at all.
pub open spec fn spec_color_with_opacity(colour: Option<Colour>, a: u16) -> Option<Color> {
    match colour {
        Some(c) => Some(Color { r: c.red, g: c.green, b: c.blue, a }),
        None => None,
    }
}

pub fn color_with_opacity(colour: Option<Colour>, a: u16) -> (r: Option<Color>)
    ensures
        r == spec_color_with_opacity(colour, a),
{
    match colour {
        Some(c) => Some(Color { r: c.red, g: c.green, b: c.blue, a }),
        None => None,
    }
}

/// One typed value of a map property. A floating-point property is carried as
/// the bit pattern of its 32-bit value, untouched by the loader.
#[derive(Clone, PartialEq, Eq, Debug)]
pub enum PropertyValue {
    BoolValue(bool),
    FloatBits(u32),
    IntValue(i32),
    ColorValue(u32),
    StringValue(String),
}

/// The arbitrary key/value properties a map, layer, group or object carries,
/// in the order the surrounding application hands them over.
pub type Properties = Vec<(String, PropertyValue)>;

/// One source image of a tileset: where to find it and the pixel dimensions
/// the map description declares for it. The declared dimensions bound the
/// slicing grid; the decoded image's actual dimensions become the texture's.
#[derive(Clone, PartialEq, Eq, Debug)]
pub struct ImageDesc {
    pub source: String,
    pub width: i32,
    pub height: i32,
}

/// One tileset: the GID range it supplies starts at `first_gid`, and its
/// source images are sliced into `tile_width` x `tile_height` tiles behind a
/// `margin`-pixel border with `spacing` pixels between tiles.
#[derive(Clone, PartialEq, Eq, Debug)]
pub struct TilesetDesc {
    pub first_gid: u32,
    pub tile_width: u32,
    pub tile_height: u32,
    pub spacing: u32,
    pub margin: u32,
    pub images: Vec<ImageDesc>,
}

/// One raw tile layer: a grid of GIDs in rows, top row first.
#[derive(Clone, PartialEq, Eq, Debug)]
pub struct LayerDesc {
    pub name: String,
    /// Opacity in thousandths.
    pub opacity: u16,
    pub visible: bool,
    pub tiles: Vec<Vec<u32>>,
    pub properties: Properties,
}

/// One raw object.
#[derive(Clone, PartialEq, Eq, Debug)]
pub struct ObjectDesc {
    pub id: u32,
    pub gid: u32,
    pub name: String,
    pub obj_type: String,
    pub x: i32,
    pub y: i32,
    pub visible: bool,
    pub properties: Properties,
}

/// One raw object group.
#[derive(Clone, PartialEq, Eq, Debug)]
pub struct ObjectGroupDesc {
    pub name: String,
    /// Opacity in thousandths; blended into the tint colour.
    pub opacity: u16,
    pub visible: bool,
    pub objects: Vec<ObjectDesc>,
    pub colour: Option<Colour>,
}

/// The parsed map description, as the external map parser reports it: plain
/// values only, paths unresolved.
#[derive(Clone, PartialEq, Eq, Debug)]
pub struct MapDescription {
    /// Map size in cells.
    pub width: u32,
    pub height: u32,
    /// Cell size in pixels.
    pub tile_width: u32,
    pub tile_height: u32,
    pub tilesets: Vec<TilesetDesc>,
    pub layers: Vec<LayerDesc>,
    pub object_groups: Vec<ObjectGroupDesc>,
    pub properties: Properties,
    pub background_colour: Option<Colour>,
}

} // verus!
