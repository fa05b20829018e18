//! Surface materials as the tracer's decisions read them: two optional
//! textures, and what they say at a point of a surface.
//!
//! A texture is addressed by pixel. Turning a texture coordinate into a pixel
//! is floating-point work and the caller's; a pixel past an edge is taken to
//! be the pixel on that edge.
use vstd::prelude::*;
use crate::raster::{
    gray_alpha_dimensions, gray_alpha_from_raw, gray_alpha_get_pixel, gray_alpha_height,
    gray_alpha_samples, gray_alpha_width, rgba_dimensions, rgba_from_raw, rgba_get_pixel,
    rgba_height, rgba_samples, rgba_width, GrayAlphaPixels, RgbaPixels,
};

verus! {

/// The kinds of texture that a material can ask for.
#[derive(Clone, Copy, Debug, PartialEq, Eq, Structural)]
pub enum TextureType {
    Diffuse,
    Alpha,
    Absent,
}

/// A decoded texture, or none.
pub enum Texture {
    /// Colour with an alpha channel.
    Diffuse(RgbaPixels),
    /// An opacity mask: luminance with an alpha channel, which is what masks.
    Alpha(GrayAlphaPixels),
    /// No texture.
    Absent,
}

/// What a texture holds at one pixel.
#[derive(Clone, Copy, Debug, PartialEq, Eq, Structural)]
pub struct Sample {
    /// Red, out of 255.
    pub red: u8,
    /// Green, out of 255.
    pub green: u8,
    /// Blue, out of 255.
    pub blue: u8,
    /// The luminance of a two-channel pixel, 255 elsewhere.
    pub mask: u8,
    /// The alpha channel, 255 where the pixel has none.
    pub alpha: u8,
}

/// Where the diffuse colour of a shaded point comes from.
#[derive(Clone, Copy, Debug, PartialEq, Eq, Structural)]
pub enum Tint {
    /// The material's own diffuse reflectance.
    Flat,
    /// A pixel of the diffuse texture: red, green, blue, each out of 255.
    Texel(u8, u8, u8),
}

/// What a material's textures say at one point of a surface.
#[derive(Clone, Copy, Debug, PartialEq, Eq, Structural)]
pub enum Coverage {
    /// Fully transparent there: a ray passes through and the point casts no
    /// shadow.
    Cutout,
    /// Covered there, with this diffuse colour.
    Opaque(Tint),
}

/// The textures of a surface material.
pub struct Material {
    /// The diffuse colour; its alpha channel cuts the surface out where it
    /// is 0. Only a `Texture::Diffuse` counts here.
    pub diffuse_texture: Texture,
    /// The opacity mask; it cuts the surface out where its alpha is 0. Only a
    /// `Texture::Alpha` counts here.
    pub alpha_texture: Texture,
}

/// How the channels of a pixel are read, by their number: two are luminance
/// and alpha, three are opaque colour, four are colour and alpha. Any other
/// number reads as opaque black.
pub open spec fn sample_of(channels: Seq<u8>) -> Sample {
    if channels.len() == 2 {
        Sample { red: 0, green: 0, blue: 0, mask: channels[0], alpha: channels[1] }
    } else if channels.len() == 3 {
        Sample { red: channels[0], green: channels[1], blue: channels[2], mask: 255, alpha: 255 }
    } else if channels.len() == 4 {
        Sample {
            red: channels[0],
            green: channels[1],
            blue: channels[2],
            mask: 255,
            alpha: channels[3],
        }
    } else {
        Sample { red: 0, green: 0, blue: 0, mask: 255, alpha: 255 }
    }
}

/// Reads the channels of one pixel.
pub fn sample_texture(channels: &Vec<u8>) -> (sample: Sample)
    ensures
        sample == sample_of(channels@),
{
    let count = channels.len();
    if count == 2 {
        Sample { red: 0, green: 0, blue: 0, mask: channels[0], alpha: channels[1] }
    } else if count == 3 {
        Sample { red: channels[0], green: channels[1], blue: channels[2], mask: 255, alpha: 255 }
    } else if count == 4 {
        Sample {
            red: channels[0],
            green: channels[1],
            blue: channels[2],
            mask: 255,
            alpha: channels[3],
        }
    } else {
        Sample { red: 0, green: 0, blue: 0, mask: 255, alpha: 255 }
    }
}

/// Whether a material that names the texture file `name` for a texture of
/// this kind has such a texture at all: it has unless the name is empty or
/// no texture is asked for.
pub fn wanted(name: &str, kind: TextureType) -> (r: bool)
    ensures
        r == (name@.len() > 0 && kind != TextureType::Absent),
{
    if name.is_empty() {
        return false;
    }
    match kind {
        TextureType::Absent => false,
        _ => true,
    }
}

/// Whether an image of this size can serve as a texture: it can unless it
/// has no pixel.
pub fn has_pixels(width: u32, height: u32) -> (r: bool)
    ensures
        r == (width > 0 && height > 0),
{
    width > 0 && height > 0
}

/// The nearest index below `extent`.
pub open spec fn clamped(index: u32, extent: u32) -> int {
    if index < extent {
        index as int
    } else {
        extent - 1
    }
}

impl Texture {
    /// The number of pixels in a row; 0 where there is no texture.
    pub open spec fn width(self) -> u32 {
        match self {
            Texture::Diffuse(pixels) => rgba_width(pixels),
            Texture::Alpha(pixels) => gray_alpha_width(pixels),
            Texture::Absent => 0,
        }
    }

    /// The number of rows; 0 where there is no texture.
    pub open spec fn height(self) -> u32 {
        match self {
            Texture::Diffuse(pixels) => rgba_height(pixels),
            Texture::Alpha(pixels) => gray_alpha_height(pixels),
            Texture::Absent => 0,
        }
    }

    /// All the samples, row by row, the channels of a pixel side by side.
    pub open spec fn samples(self) -> Seq<u8> {
        match self {
            Texture::Diffuse(pixels) => rgba_samples(pixels),
            Texture::Alpha(pixels) => gray_alpha_samples(pixels),
            Texture::Absent => Seq::empty(),
        }
    }

    /// The channels of the pixel in column `x` of row `y`.
    pub open spec fn channels(self, x: int, y: int) -> Seq<u8> {
        match self {
            Texture::Diffuse(pixels) => Seq::new(
                4,
                |c: int| rgba_samples(pixels)[(y * rgba_width(pixels) + x) * 4 + c],
            ),
            Texture::Alpha(pixels) => Seq::new(
                2,
                |c: int| gray_alpha_samples(pixels)[(y * gray_alpha_width(pixels) + x) * 2 + c],
            ),
            Texture::Absent => Seq::empty(),
        }
    }

    /// What `sample` gives for pixel `(x, y)`.
    pub open spec fn sampled(self, x: u32, y: u32) -> Option<Sample> {
        if self.width() == 0 || self.height() == 0 {
            None
        } else {
            Some(
                sample_of(self.channels(clamped(x, self.width()), clamped(y, self.height()))),
            )
        }
    }

    /// Whether `count` samples are enough for a texture of this kind and
    /// size.
    pub open spec fn fits(kind: TextureType, width: u32, height: u32, count: nat) -> bool {
        match kind {
            TextureType::Diffuse => 4 * width <= usize::MAX && 4 * width * height <= count,
            TextureType::Alpha => 2 * width <= usize::MAX && 2 * width * height <= count,
            TextureType::Absent => true,
        }
    }

    /// Makes the texture of the asked kind from decoded samples: four a
    /// pixel for `Diffuse`, two for `Alpha`. For `TextureType::Absent` it makes
    /// no texture and drops the samples. It fails only where the samples are
    /// too few for the size.
    pub fn from_raw(
        kind: TextureType,
        width: u32,
        height: u32,
        samples: Vec<u8>,
    ) -> (made: Option<Texture>)
        ensures
            made is Some <==> Self::fits(kind, width, height, samples@.len()),
            made matches Some(texture) ==> {
                &&& texture.kind_of() == kind
                &&& kind != TextureType::Absent ==> texture.width() == width && texture.height()
                    == height && texture.samples() == samples@
            },
    {
        match kind {
            TextureType::Diffuse => match rgba_from_raw(width, height, samples) {
                Some(pixels) => Some(Texture::Diffuse(pixels)),
                None => None,
            },
            TextureType::Alpha => match gray_alpha_from_raw(width, height, samples) {
                Some(pixels) => Some(Texture::Alpha(pixels)),
                None => None,
            },
            TextureType::Absent => Some(Texture::Absent),
        }
    }

    /// The kind of this texture.
    pub open spec fn kind_of(self) -> TextureType {
        match self {
            Texture::Diffuse(_) => TextureType::Diffuse,
            Texture::Alpha(_) => TextureType::Alpha,
            Texture::Absent => TextureType::Absent,
        }
    }

    /// The kind of this texture.
    pub fn kind(&self) -> (kind: TextureType)
        ensures
            kind == self.kind_of(),
    {
        match self {
            Texture::Diffuse(_) => TextureType::Diffuse,
            Texture::Alpha(_) => TextureType::Alpha,
            Texture::Absent => TextureType::Absent,
        }
    }

    /// Width and height in pixels; both 0 where there is no texture.
    pub fn dimensions(&self) -> (size: (u32, u32))
        ensures
            size.0 == self.width(),
            size.1 == self.height(),
    {
        match self {
            Texture::Diffuse(pixels) => rgba_dimensions(pixels),
            Texture::Alpha(pixels) => gray_alpha_dimensions(pixels),
            Texture::Absent => (0, 0),
        }
    }

    /// Reads the pixel in column `x` of row `y`, or the nearest pixel of the
    /// texture where `(x, y)` lies past an edge. `None` where the texture has
    /// no pixel at all.
    pub fn sample(&self, x: u32, y: u32) -> (sample: Option<Sample>)
        ensures
            sample == self.sampled(x, y),
    {
        let (width, height) = self.dimensions();
        if width == 0 || height == 0 {
            return None;
        }
        let column: u32 = if x < width {
            x
        } else {
            width - 1
        };
        let row: u32 = if y < height {
            y
        } else {
            height - 1
        };
        let channels = match self {
            Texture::Diffuse(pixels) => rgba_get_pixel(pixels, column, row),
            Texture::Alpha(pixels) => gray_alpha_get_pixel(pixels, column, row),
            Texture::Absent => Vec::new(),
        };
        assert(channels@ =~= self.channels(column as int, row as int));
        Some(sample_texture(&channels))
    }
}

impl Material {
    /// The opacity mask is fully transparent at this pixel of it.
    pub open spec fn masked(self, alpha_at: (u32, u32)) -> bool {
        self.alpha_texture is Alpha && (self.alpha_texture.sampled(alpha_at.0, alpha_at.1)
            matches Some(m) && m.alpha == 0)
    }

    /// The diffuse texture is fully transparent at this pixel of it.
    pub open spec fn clear(self, diffuse_at: (u32, u32)) -> bool {
        self.diffuse_texture is Diffuse && (self.diffuse_texture.sampled(
            diffuse_at.0,
            diffuse_at.1,
        ) matches Some(c) && c.alpha == 0)
    }

    /// What `coverage` gives.
    pub open spec fn covers(self, alpha_at: (u32, u32), diffuse_at: (u32, u32)) -> Coverage {
        let mask = if self.alpha_texture is Alpha {
            self.alpha_texture.sampled(alpha_at.0, alpha_at.1)
        } else {
            None
        };
        let colour = if self.diffuse_texture is Diffuse {
            self.diffuse_texture.sampled(diffuse_at.0, diffuse_at.1)
        } else {
            None
        };
        if mask matches Some(m) && m.alpha == 0 {
            Coverage::Cutout
        } else {
            match colour {
                Some(c) => if c.alpha == 0 {
                    Coverage::Cutout
                } else {
                    Coverage::Opaque(Tint::Texel(c.red, c.green, c.blue))
                },
                None => Coverage::Opaque(Tint::Flat),
            }
        }
    }

    /// What the textures say at a point of the surface. `alpha_at` is the
    /// pixel of the opacity mask under the point and `diffuse_at` that of
    /// the diffuse texture, each as column and row.
    ///
    /// The point is a cutout where the alpha of the mask is 0 or the alpha of
    /// the diffuse texture is 0. Elsewhere it is covered, in the colour of
    /// the diffuse texture where there is one. A texture of another kind
    /// than its place asks for, or without pixels, counts as absent.
    pub fn coverage(&self, alpha_at: (u32, u32), diffuse_at: (u32, u32)) -> (coverage: Coverage)
        ensures
            coverage == self.covers(alpha_at, diffuse_at),
            coverage is Cutout <==> self.masked(alpha_at) || self.clear(diffuse_at),
    {
        if let Texture::Alpha(_) = self.alpha_texture {
            if let Some(mask) = self.alpha_texture.sample(alpha_at.0, alpha_at.1) {
                if mask.alpha == 0 {
                    return Coverage::Cutout;
                }
            }
        }
        if let Texture::Diffuse(_) = self.diffuse_texture {
            if let Some(colour) = self.diffuse_texture.sample(diffuse_at.0, diffuse_at.1) {
                if colour.alpha == 0 {
                    return Coverage::Cutout;
                }
                return Coverage::Opaque(Tint::Texel(colour.red, colour.green, colour.blue));
            }
        }
        Coverage::Opaque(Tint::Flat)
    }
}

} // verus!
