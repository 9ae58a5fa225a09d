use tileload::Color;
use tileload::Colour;
use tileload::ImageDesc;
use tileload::LayerDesc;
use tileload::Level;
use tileload::LevelError;
use tileload::MapDescription;
use tileload::ObjectDesc;
use tileload::ObjectGroupDesc;
use tileload::Rectangle;
use tileload::Registry;
use tileload::Tile;
use tileload::Vector;

fn png_bytes(width: u32, height: u32) -> Vec<u8> {
    let img = image::RgbaImage::new(width, height);
    let dynamic = image::DynamicImage::ImageRgba8(img);
    let mut buf: Vec<u8> = Vec::new();
    dynamic
        .write_to(
            &mut std::io::Cursor::new(&mut buf),
            image::ImageOutputFormat::Png,
        )
        .unwrap();
    buf
}

fn simple_tileset(first_gid: u32, source: &str, width: i32, height: i32) -> tileload::TilesetDesc {
    tileload::TilesetDesc {
        first_gid,
        tile_width: 16,
        tile_height: 16,
        spacing: 1,
        margin: 1,
        images: vec![ImageDesc {
            source: source.to_string(),
            width,
            height,
        }],
    }
}

fn minimal_map(tilesets: Vec<tileload::TilesetDesc>, layers: Vec<LayerDesc>) -> MapDescription {
    MapDescription {
        width: 2,
        height: 2,
        tile_width: 16,
        tile_height: 16,
        tilesets,
        layers,
        object_groups: Vec::new(),
        properties: Vec::new(),
        background_colour: None,
    }
}

#[test]
fn subimage_composes() {
    let mut registry = Registry::new();
    let whole = registry.upload(100, 80);
    assert_eq!(
        whole.area(),
        Rectangle {
            x: 0,
            y: 0,
            width: 100,
            height: 80
        }
    );
    let r1 = Rectangle {
        x: 10,
        y: 20,
        width: 50,
        height: 40,
    };
    let r2 = Rectangle {
        x: 5,
        y: 6,
        width: 7,
        height: 8,
    };
    let nested = whole.subimage(r1).subimage(r2);
    let combined = whole.subimage(Rectangle {
        x: 15,
        y: 26,
        width: 7,
        height: 8,
    });
    assert_eq!(nested, combined);
    assert_eq!(nested.texture, whole.texture);
    assert_eq!(
        nested.area(),
        Rectangle {
            x: 15,
            y: 26,
            width: 7,
            height: 8
        }
    );
}

#[test]
fn tileset_grid_positions() {
    // A 35x35 image with margin 1, spacing 1 and 16x16 tiles holds exactly a
    // 2x2 grid, cut in column-major order.
    let desc = minimal_map(vec![simple_tileset(1, "tiles.png", 35, 35)], Vec::new());
    let files = vec![vec![Some(png_bytes(35, 35))]];
    let loaded = Level::load(desc, &files).ok().unwrap();
    assert_eq!(loaded.gid_table.len(), 5);
    assert!(loaded.gid_table[0].is_none());
    let expected = [(1, 1), (1, 18), (18, 1), (18, 18)];
    for (k, (x, y)) in expected.iter().enumerate() {
        let view = loaded.gid_table[1 + k].unwrap();
        assert_eq!(view.texture, 0);
        assert_eq!(
            view.area(),
            Rectangle {
                x: *x,
                y: *y,
                width: 16,
                height: 16
            }
        );
    }
    // The registry entry carries the decoded image's true dimensions and the
    // decoded pixels are handed back for upload, four bytes per pixel.
    assert_eq!(loaded.registry.entries.len(), 1);
    assert_eq!(loaded.registry.entries[0].width, 35);
    assert_eq!(loaded.registry.entries[0].height, 35);
    assert_eq!(loaded.uploads.len(), 1);
    assert_eq!(loaded.uploads[0].width, 35);
    assert_eq!(loaded.uploads[0].height, 35);
    assert_eq!(loaded.uploads[0].pixels.len(), 4 * 35 * 35);
}

#[test]
fn gid_zero_cell_is_empty() {
    let layer = LayerDesc {
        name: "ground".to_string(),
        opacity: 1000,
        visible: true,
        tiles: vec![vec![0, 1], vec![1, 0]],
        properties: Vec::new(),
    };
    let desc = minimal_map(vec![simple_tileset(1, "tiles.png", 35, 35)], vec![layer]);
    let files = vec![vec![Some(png_bytes(35, 35))]];
    let loaded = Level::load(desc, &files).ok().unwrap();
    let grid = &loaded.level.layers[0].grid;
    assert_eq!(grid.cells.len(), 4);
    // Row-major: cell (0,0) and cell (1,1) hold GID 0 and stay empty.
    assert_eq!(grid.cells[0], Tile::Empty);
    assert_eq!(grid.cells[3], Tile::Empty);
    assert!(matches!(grid.cells[1], Tile::Solid(Some(_))));
    assert!(matches!(grid.cells[2], Tile::Solid(Some(_))));
}

#[test]
fn unresolved_gid_is_solid_without_image() {
    // GID 7 has no table entry (the table ends at GID 4): the cell becomes a
    // solid tile with no image, not an error.
    let layer = LayerDesc {
        name: "ground".to_string(),
        opacity: 1000,
        visible: true,
        tiles: vec![vec![7, 7], vec![7, 7]],
        properties: Vec::new(),
    };
    let desc = minimal_map(vec![simple_tileset(1, "tiles.png", 35, 35)], vec![layer]);
    let files = vec![vec![Some(png_bytes(35, 35))]];
    let loaded = Level::load(desc, &files).ok().unwrap();
    let grid = &loaded.level.layers[0].grid;
    for cell in grid.cells.iter() {
        assert_eq!(*cell, Tile::Solid(None));
    }
}

#[test]
fn round_trip_minimal_map() {
    // One tileset, one layer of all-GID-1 cells, one object referencing GID 1:
    // every grid cell points at the very same view as the object's texture.
    let layer = LayerDesc {
        name: "ground".to_string(),
        opacity: 500,
        visible: true,
        tiles: vec![vec![1, 1], vec![1, 1]],
        properties: Vec::new(),
    };
    let group = ObjectGroupDesc {
        name: "entities".to_string(),
        opacity: 1000,
        visible: true,
        objects: vec![ObjectDesc {
            id: 9,
            gid: 1,
            name: "hero".to_string(),
            obj_type: "spawn".to_string(),
            x: 24,
            y: 40,
            visible: true,
            properties: Vec::new(),
        }],
        colour: Some(Colour {
            red: 255,
            green: 0,
            blue: 0,
        }),
    };
    let mut desc = minimal_map(
        vec![simple_tileset(1, "tiles.png", 35, 35)],
        vec![layer],
    );
    desc.object_groups = vec![group];
    let files = vec![vec![Some(png_bytes(35, 35))]];
    let loaded = Level::load(desc, &files).ok().unwrap();

    let object = &loaded.level.object_groups[0].objects[0];
    let object_view = object.texture.unwrap();
    assert_eq!(Some(object_view), loaded.gid_table[1]);
    assert_eq!(object.position, Vector { x: 24, y: 40 });
    assert_eq!(object.id, 9);
    assert_eq!(object.name, "hero");
    assert_eq!(object.obj_type, "spawn");
    assert_eq!(
        loaded.level.object_groups[0].color,
        Some(Color {
            r: 255,
            g: 0,
            b: 0,
            a: 1000
        })
    );

    let grid = &loaded.level.layers[0].grid;
    assert_eq!(grid.cells.len(), 4);
    for cell in grid.cells.iter() {
        assert_eq!(*cell, Tile::Solid(Some(object_view)));
    }
    assert_eq!(loaded.level.layers[0].opacity, 500);
    assert_eq!(loaded.level.layers[0].name, "ground");
}

#[test]
fn grid_accessors_report_pixel_space() {
    let layer = LayerDesc {
        name: "ground".to_string(),
        opacity: 1000,
        visible: true,
        tiles: vec![vec![0, 1], vec![2, 0]],
        properties: Vec::new(),
    };
    let desc = minimal_map(vec![simple_tileset(1, "tiles.png", 35, 35)], vec![layer]);
    let files = vec![vec![Some(png_bytes(35, 35))]];
    let loaded = Level::load(desc, &files).ok().unwrap();
    let grid = &loaded.level.layers[0].grid;
    assert_eq!(grid.width_pixels(), 32);
    assert_eq!(grid.height_pixels(), 32);
    assert_eq!(grid.tile_at(0, 0), Tile::Empty);
    assert_eq!(grid.tile_at(1, 0), Tile::Solid(loaded.gid_table[1]));
    assert_eq!(grid.tile_at(0, 1), Tile::Solid(loaded.gid_table[2]));
    assert_eq!(grid.tile_at(1, 1), Tile::Empty);
}

#[test]
fn missing_image_fails_with_io_error() {
    // The image file at the tileset's path could not be read: the whole load
    // fails with the IO-tagged error, and nothing partial comes back. No
    // ambient working directory is consulted or changed by the loader: the
    // caller resolves paths itself.
    let desc = minimal_map(vec![simple_tileset(1, "missing.png", 35, 35)], Vec::new());
    let files = vec![vec![None]];
    let result = Level::load(desc, &files);
    assert!(matches!(result, Err(LevelError::IOError(_))));
}

#[test]
fn corrupt_image_fails_with_decode_error() {
    let desc = minimal_map(vec![simple_tileset(1, "bad.png", 35, 35)], Vec::new());
    let files = vec![vec![Some(vec![1, 2, 3, 4])]];
    let result = Level::load(desc, &files);
    assert!(matches!(result, Err(LevelError::ImageError(_))));
}

#[test]
fn textures_shared_and_released_once() {
    // Four tiles sliced from one source image share a single texture: one
    // whole-image view plus four tile views. Releasing frees the renderer
    // resource exactly once, at the last registered view.
    let desc = minimal_map(vec![simple_tileset(1, "tiles.png", 35, 35)], Vec::new());
    let files = vec![vec![Some(png_bytes(35, 35))]];
    let loaded = Level::load(desc, &files).ok().unwrap();
    let mut registry = loaded.registry;
    assert_eq!(registry.refs_of(0), 5);
    for _ in 0..4 {
        assert!(!registry.release(0));
    }
    assert!(registry.release(0));
    assert_eq!(registry.refs_of(0), 0);
    // Releasing an already freed texture does nothing.
    assert!(!registry.release(0));
}

#[test]
fn background_color_carries_full_opacity() {
    let mut desc = minimal_map(Vec::new(), Vec::new());
    desc.background_colour = Some(Colour {
        red: 10,
        green: 20,
        blue: 30,
    });
    let loaded = Level::load(desc, &vec![]).ok().unwrap();
    assert_eq!(
        loaded.level.background_color,
        Some(Color {
            r: 10,
            g: 20,
            b: 30,
            a: 1000
        })
    );
}

#[test]
fn empty_map_loads() {
    let desc = minimal_map(Vec::new(), Vec::new());
    let loaded = Level::load(desc, &vec![]).ok().unwrap();
    assert!(loaded.level.layers.is_empty());
    assert!(loaded.level.object_groups.is_empty());
    assert!(loaded.gid_table.is_empty());
    assert_eq!(loaded.registry.texture_count(), 0);
    assert!(loaded.level.background_color.is_none());
}

#[test]
fn reslicing_is_deterministic() {
    let make = || {
        let desc = minimal_map(vec![simple_tileset(1, "tiles.png", 35, 35)], Vec::new());
        let files = vec![vec![Some(png_bytes(35, 35))]];
        Level::load(desc, &files).ok().unwrap()
    };
    let a = make();
    let b = make();
    assert_eq!(a.gid_table, b.gid_table);
    assert_eq!(a.uploads[0].pixels, b.uploads[0].pixels);
}

#[test]
fn object_gid_out_of_range_gets_no_texture() {
    let group = ObjectGroupDesc {
        name: "entities".to_string(),
        opacity: 1000,
        visible: true,
        objects: vec![ObjectDesc {
            id: 1,
            gid: 999,
            name: String::new(),
            obj_type: String::new(),
            x: 0,
            y: 0,
            visible: true,
            properties: Vec::new(),
        }],
        colour: None,
    };
    let mut desc = minimal_map(vec![simple_tileset(1, "tiles.png", 35, 35)], Vec::new());
    desc.object_groups = vec![group];
    let files = vec![vec![Some(png_bytes(35, 35))]];
    let loaded = Level::load(desc, &files).ok().unwrap();
    let object = &loaded.level.object_groups[0].objects[0];
    assert!(object.texture.is_none());
    assert!(loaded.level.object_groups[0].color.is_none());
}

#[test]
fn later_tileset_extends_table() {
    // Two tilesets: the second starts at GID 5, extending the table the first
    // one filled; each source image is decoded and uploaded exactly once.
    let desc = MapDescription {
        width: 2,
        height: 2,
        tile_width: 16,
        tile_height: 16,
        tilesets: vec![
            simple_tileset(1, "a.png", 35, 35),
            simple_tileset(5, "b.png", 18, 18),
        ],
        layers: Vec::new(),
        object_groups: Vec::new(),
        properties: Vec::new(),
        background_colour: None,
    };
    let files = vec![
        vec![Some(png_bytes(35, 35))],
        vec![Some(png_bytes(18, 18))],
    ];
    let loaded = Level::load(desc, &files).ok().unwrap();
    // 18x18 with margin 1, spacing 1, 16x16 tiles: one tile at (1,1).
    assert_eq!(loaded.gid_table.len(), 6);
    assert_eq!(loaded.registry.texture_count(), 2);
    let second = loaded.gid_table[5].unwrap();
    assert_eq!(second.texture, 1);
    assert_eq!(
        second.area(),
        Rectangle {
            x: 1,
            y: 1,
            width: 16,
            height: 16
        }
    );
    assert_eq!(loaded.registry.refs_of(1), 2);
}
