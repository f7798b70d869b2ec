//! Plain descriptions of GPU textures: what the readback logic needs to know
//! about a texture without holding the GPU object itself.

use vstd::prelude::*;

verus! {

/// How a shader may sample a texture of some format.
#[derive(Clone, Copy, Debug, PartialEq, Eq, Structural)]
pub enum SampleKind {
    /// Floating-point samples that a filtering sampler may read.
    FilterableFloat,
    /// Floating-point samples that only a non-filtering sampler may read.
    UnfilterableFloat,
    /// Signed integer samples.
    Sint,
    /// Unsigned integer samples.
    Uint,
    /// Depth comparison samples.
    Depth,
}

/// The pixel format of a texture.
#[derive(Clone, Copy, Debug, PartialEq, Eq, Structural)]
pub enum TextureFormat {
    /// Linear 8-bit RGBA.
    Rgba8Unorm,
    /// Gamma-encoded 8-bit RGBA.
    Rgba8UnormSrgb,
    /// Any other format, known by how a shader samples it.
    Other(SampleKind),
}

/// A texture on the GPU: the handle under which its owner keeps it, its size
/// in pixels and its pixel format.
#[derive(Clone, Copy, Debug, PartialEq, Eq, Structural)]
pub struct Texture {
    pub handle: u64,
    pub width: u32,
    pub height: u32,
    pub format: TextureFormat,
}

/// What a texture may be used for.
#[derive(Clone, Copy, Debug, PartialEq, Eq, Structural)]
pub struct TextureUsage {
    /// A render pass may draw into it.
    pub render_attachment: bool,
    /// A shader may sample it.
    pub texture_binding: bool,
    /// It may be the source of a copy.
    pub copy_src: bool,
}

/// What it takes to allocate a two-dimensional texture.
#[derive(Clone, Copy, Debug, PartialEq, Eq, Structural)]
pub struct TextureDescriptor {
    pub width: u32,
    pub height: u32,
    pub mip_level_count: u32,
    pub sample_count: u32,
    pub format: TextureFormat,
    pub usage: TextureUsage,
}

/// How a sampler reads between texels.
#[derive(Clone, Copy, Debug, PartialEq, Eq, Structural)]
pub enum FilterMode {
    Nearest,
    Linear,
}

/// An RGBA colour with 8 bits per channel.
#[derive(Clone, Copy, Debug, PartialEq, Eq, Structural)]
pub struct Rgba8 {
    pub r: u8,
    pub g: u8,
    pub b: u8,
    pub a: u8,
}

impl TextureFormat {
    /// Whether a texture of this format can be copied to a host buffer as it is.
    pub open spec fn copyable(self) -> bool {
        self == TextureFormat::Rgba8Unorm || self == TextureFormat::Rgba8UnormSrgb
    }

    /// Whether a filtering render pass can read a texture of this format and
    /// so rewrite it in a copyable one.
    pub open spec fn convertible(self) -> bool {
        self == TextureFormat::Other(SampleKind::FilterableFloat)
    }

    pub fn is_copyable(&self) -> (r: bool)
        ensures
            r == self.copyable(),
    {
        match self {
            TextureFormat::Rgba8Unorm => true,
            TextureFormat::Rgba8UnormSrgb => true,
            TextureFormat::Other(_) => false,
        }
    }

    pub fn is_convertible(&self) -> (r: bool)
        ensures
            r == self.convertible(),
    {
        match self {
            TextureFormat::Other(SampleKind::FilterableFloat) => true,
            _ => false,
        }
    }
}

impl TextureDescriptor {
    /// The texture that this descriptor allocates, once it is kept under `handle`.
    pub open spec fn allocated(self, handle: u64) -> Texture {
        Texture { handle, width: self.width, height: self.height, format: self.format }
    }

    /// Describes the texture that was allocated from this descriptor and is
    /// kept under `handle`.
    pub fn texture(&self, handle: u64) -> (r: Texture)
        ensures
            r == self.allocated(handle),
    {
        Texture { handle, width: self.width, height: self.height, format: self.format }
    }
}

} // verus!
