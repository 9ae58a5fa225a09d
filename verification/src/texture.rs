use vstd::prelude::*;

use crate::geom::Rectangle;
use crate::geom::compose;
use crate::geom::compose_fits;
use crate::geom::lemma_compose_associative;

verus! {

/// Layout of the pixel data handed to the renderer.
#[derive(Clone, Copy, PartialEq, Eq, Structural, Debug)]
pub enum PixelFormat {
    RGB,
    RGBA,
    BGR,
    BGRA,
}

impl PixelFormat {
    pub open spec fn spec_bytes_per_pixel(self) -> int {
        match self {
            PixelFormat::RGB => 3,
            PixelFormat::RGBA => 4,
            PixelFormat::BGR => 3,
            PixelFormat::BGRA => 4,
        }
    }

    pub fn bytes_per_pixel(&self) -> (n: u8)
        ensures
            n == self.spec_bytes_per_pixel(),
    {
        match self {
            PixelFormat::RGB => 3,
            PixelFormat::RGBA => 4,
            PixelFormat::BGR => 3,
            PixelFormat::BGRA => 4,
        }
    }
}

/// One GPU-resident image buffer, as the loader accounts for it: its pixel
/// dimensions and how many registered views currently refer to it. The
/// renderer-side handle and the pixel bytes live with whoever performs the
/// actual upload; the registry only decides identity and release timing.
#[derive(Clone, Copy, PartialEq, Eq, Structural, Debug)]
pub struct TextureEntry {
    pub width: u32,
    pub height: u32,
    /// Number of registered views of this texture. Zero means the underlying
    /// renderer resource has been (or may now be) released.
    pub refs: u64,
}

/// The owning registry of texture resources. A texture's identity is its
/// index in `entries`; entries are never removed, so an index stays valid for
/// the registry's whole lifetime. Each entry carries an explicit reference
/// count so that release timing is observable rather than tied to drop order.
pub struct Registry {
    pub entries: Vec<TextureEntry>,
}

/// A lightweight view onto a rectangular sub-region of one registered
/// texture. Copies are cheap and share the texture; only views registered
/// with the registry (the whole-image view made by an upload and the tile
/// views counted during slicing) participate in the reference count.
#[derive(Clone, Copy, PartialEq, Eq, Structural, Debug)]
pub struct Image {
    /// Index of the shared texture in the registry.
    pub texture: usize,
    /// Sub-region of that texture, in pixel coordinates of the full texture.
    pub region: Rectangle,
}

impl Registry {
    pub fn new() -> (r: Registry)
        ensures
            r.entries@ =~= Seq::<TextureEntry>::empty(),
    {
        Registry { entries: Vec::new() }
    }

    /// Record one freshly uploaded image of the given dimensions and return
    /// the view covering all of it. The new texture starts with one
    /// registered view: the returned one.
    pub fn upload(&mut self, width: u32, height: u32) -> (img: Image)
        ensures
            final(self).entries@ == old(self).entries@.push(
                TextureEntry { width, height, refs: 1 },
            ),
            img.texture == old(self).entries@.len(),
            img.region == (Rectangle { x: 0, y: 0, width, height }),
    {
        let texture = self.entries.len();
        self.entries.push(TextureEntry { width, height, refs: 1 });
        Image { texture, region: Rectangle { x: 0, y: 0, width, height } }
    }

    /// Count one more registered view of the texture `img` points at.
    pub fn register(&mut self, img: &Image)
        requires
            img.texture < old(self).entries@.len(),
            old(self).entries@[img.texture as int].refs < u64::MAX,
        ensures
            final(self).entries@ == old(self).entries@.update(
                img.texture as int,
                TextureEntry {
                    refs: (old(self).entries@[img.texture as int].refs + 1) as u64,
                    ..old(self).entries@[img.texture as int]
                },
            ),
    {
        let entry = TextureEntry { refs: self.entries[img.texture].refs + 1, ..self.entries[img.texture] };
        self.entries.set(img.texture, entry);
    }

    /// Drop one registered view of texture `texture`. Returns whether that
    /// was the last one, i.e. whether the renderer resource is to be released
    /// now: exactly when the count was 1 before the call. A texture that is
    /// unknown or already fully released is left alone.
    pub fn release(&mut self, texture: usize) -> (freed: bool)
        ensures
            freed <==> (texture < old(self).entries@.len()
                && old(self).entries@[texture as int].refs == 1),
            final(self).entries@ == if texture < old(self).entries@.len()
                && old(self).entries@[texture as int].refs >= 1 {
                old(self).entries@.update(
                    texture as int,
                    TextureEntry {
                        refs: (old(self).entries@[texture as int].refs - 1) as u64,
                        ..old(self).entries@[texture as int]
                    },
                )
            } else {
                old(self).entries@
            },
    {
        if texture < self.entries.len() && self.entries[texture].refs >= 1 {
            let refs = self.entries[texture].refs - 1;
            let entry = TextureEntry { refs, ..self.entries[texture] };
            self.entries.set(texture, entry);
            proof {
                assert(final(self).entries@ =~= old(self).entries@.update(
                    texture as int,
                    TextureEntry {
                        refs: (old(self).entries@[texture as int].refs - 1) as u64,
                        ..old(self).entries@[texture as int]
                    },
                ));
            }
            refs == 0
        } else {
            proof {
                assert(final(self).entries@ =~= old(self).entries@);
            }
            false
        }
    }

    /// How many registered views the texture currently has; 0 for an unknown
    /// texture.
    pub fn refs_of(&self, texture: usize) -> (n: u64)
        ensures
            n == if texture < self.entries@.len() {
                self.entries@[texture as int].refs
            } else {
                0
            },
    {
        if texture < self.entries.len() {
            self.entries[texture].refs
        } else {
            0
        }
    }

    pub fn texture_count(&self) -> (n: usize)
        ensures
            n == self.entries@.len(),
    {
        self.entries.len()
    }
}

impl Image {
    /// The sub-view of `self` whose offset is `rect`'s offset measured in
    /// `self`'s local coordinate space and whose size is `rect`'s size. The
    /// result shares `self`'s texture: no pixels are copied.
    pub open spec fn spec_subimage(self, rect: Rectangle) -> Image {
        Image { texture: self.texture, region: compose(self.region, rect) }
    }

    /// Pure metadata composition: nested slicing, no re-upload. The region is
    /// not validated against the texture's bounds; the caller computes it
    /// from the tileset geometry.
    pub fn subimage(&self, rect: Rectangle) -> (r: Image)
        requires
            compose_fits(self.region, rect),
        ensures
            r == self.spec_subimage(rect),
    {
        Image {
            texture: self.texture,
            region: Rectangle {
                x: self.region.x + rect.x,
                y: self.region.y + rect.y,
                width: rect.width,
                height: rect.height,
            },
        }
    }

    /// The view's region within the full texture.
    pub fn area(&self) -> (r: Rectangle)
        ensures
            r == self.region,
    {
        self.region
    }
}

/// Slicing a slice covers the pixels that one combined slice covers: taking
/// `r2` inside `view.subimage(r1)` lands on the same region of the same
/// texture as taking `r1` and `r2` combined in `r1`'s local space directly
/// from `view`.
pub proof fn lemma_subimage_associative(view: Image, r1: Rectangle, r2: Rectangle)
    requires
        compose_fits(view.region, r1),
        compose_fits(compose(view.region, r1), r2),
    ensures
        compose_fits(r1, r2),
        compose_fits(view.region, compose(r1, r2)),
        view.spec_subimage(r1).spec_subimage(r2) == view.spec_subimage(compose(r1, r2)),
{
    lemma_compose_associative(view.region, r1, r2);
}

/// The decoded form of one source image: actual pixel dimensions and the
/// RGBA bytes, row-major, four bytes per pixel. This is what the renderer
/// uploads.
pub struct DecodedImage {
    pub width: u32,
    pub height: u32,
    pub pixels: Vec<u8>,
}

/// What the image decoder yields on a given encoded byte string: `None` when
/// the bytes are not a readable image, otherwise the pixel dimensions and
/// the RGBA bytes. Decoding depends on the bytes alone.
pub uninterp spec fn rgba_decode(bytes: Seq<u8>) -> Option<(u32, u32, Seq<u8>)>;

/// Relies on image::load_from_memory to decode an encoded image from bytes,
/// and on DynamicImage::to_rgba8 / ImageBuffer::into_raw, whose buffer holds
/// exactly width * height RGBA pixels at four bytes each. The result is a
/// function of the bytes alone.
#[verifier::external_body]
fn decode_rgba(bytes: &Vec<u8>) -> (r: Result<DecodedImage, String>)
    ensures
        match r {
            Ok(d) => rgba_decode(bytes@) == Some((d.width, d.height, d.pixels@))
                && d.pixels@.len() == 4 * d.width * d.height,
            Err(_) => rgba_decode(bytes@) is None,
        },
{
    match image::load_from_memory(bytes) {
        Ok(img) => {
            let buf = img.to_rgba8();
            let (width, height) = (buf.width(), buf.height());
            Ok(DecodedImage { width, height, pixels: buf.into_raw() })
        },
        Err(e) => Err(format!("{}", e)),
    }
}

impl Image {
    /// Register one uploaded image of the given dimensions and format with
    /// the registry and return the view covering all of it. `data` is the
    /// pixel buffer the renderer uploads; it must hold exactly one image of
    /// the stated size.
    pub fn from_raw(
        data: &Vec<u8>,
        width: u32,
        height: u32,
        format: PixelFormat,
        registry: &mut Registry,
    ) -> (img: Image)
        requires
            data@.len() == format.spec_bytes_per_pixel() * width * height,
        ensures
            final(registry).entries@ == old(registry).entries@.push(
                TextureEntry { width, height, refs: 1 },
            ),
            img.texture == old(registry).entries@.len(),
            img.region == (Rectangle { x: 0, y: 0, width, height }),
    {
        registry.upload(width, height)
    }

    /// Decode one encoded image and register it as a fresh texture. On
    /// success the returned view covers the whole decoded image and the
    /// decoded pixels are handed back for the renderer to upload; on a decode
    /// failure the registry is untouched.
    pub fn load(bytes: &Vec<u8>, registry: &mut Registry) -> (r: Result<(Image, DecodedImage), String>)
        ensures
            match r {
                Ok((img, d)) => {
                    &&& rgba_decode(bytes@) == Some((d.width, d.height, d.pixels@))
                    &&& d.pixels@.len() == 4 * d.width * d.height
                    &&& final(registry).entries@ == old(registry).entries@.push(
                        TextureEntry { width: d.width, height: d.height, refs: 1 },
                    )
                    &&& img.texture == old(registry).entries@.len()
                    &&& img.region == (Rectangle { x: 0, y: 0, width: d.width, height: d.height })
                },
                Err(_) => rgba_decode(bytes@) is None && *final(registry) == *old(registry),
            },
    {
        match decode_rgba(bytes) {
            Ok(d) => {
                let img = Image::from_raw(&d.pixels, d.width, d.height, PixelFormat::RGBA, registry);
                Ok((img, d))
            },
            Err(e) => Err(e),
        }
    }
}

} // verus!
