//! Bringing a texture of any format into one that can be copied to the host.

use vstd::prelude::*;
use crate::readback::ReadbackError;
use crate::texture::{
    FilterMode, Rgba8, Texture, TextureDescriptor, TextureFormat, TextureUsage,
};

verus! {

/// A full-screen render pass that samples one texture through a pass-through
/// fragment stage into a newly allocated one.
#[derive(Clone, Copy, Debug, PartialEq, Eq, Structural)]
pub struct ConversionPass {
    /// The texture that the fragment stage samples.
    pub source: Texture,
    /// The texture to allocate and draw into.
    pub destination: TextureDescriptor,
    /// The format of the pass's colour target.
    pub target_format: TextureFormat,
    /// How the sampler magnifies and minifies.
    pub filter: FilterMode,
    /// What the target is cleared to before the draw.
    pub clear: Rgba8,
    /// The vertices of the one draw: a triangle that covers the target.
    pub vertices: u32,
    /// The instances of the one draw.
    pub instances: u32,
}

/// What to do with a texture so that it can be copied to the host.
#[derive(Clone, Copy, Debug, PartialEq, Eq, Structural)]
pub enum FormatStep {
    /// The texture is copyable as it is: use it.
    Unchanged(Texture),
    /// Run this pass and use its destination.
    Convert(ConversionPass),
}

/// The format into which a texture that is not copyable is converted.
pub open spec fn readback_format() -> TextureFormat {
    TextureFormat::Rgba8UnormSrgb
}

/// Whether the conversion pass can sample a texture of format `source` and
/// draw into one of format `target`.
pub open spec fn conversion_exists(source: TextureFormat, target: TextureFormat) -> bool {
    (source.copyable() || source.convertible()) && target.copyable()
}

/// The pass that rewrites `source` in `format`: a destination of the same
/// size with one mip level and one sample, to draw into, to sample and to
/// copy from; linear filtering; a transparent clear; one triangle.
pub open spec fn conversion_pass(source: Texture, format: TextureFormat) -> ConversionPass {
    ConversionPass {
        source,
        destination: TextureDescriptor {
            width: source.width,
            height: source.height,
            mip_level_count: 1,
            sample_count: 1,
            format,
            usage: TextureUsage { render_attachment: true, texture_binding: true, copy_src: true },
        },
        target_format: format,
        filter: FilterMode::Linear,
        clear: Rgba8 { r: 0, g: 0, b: 0, a: 0 },
        vertices: 3,
        instances: 1,
    }
}

/// Plans the conversion of `source` to `format`: the destination texture to
/// allocate and the render pass that fills it from `source`.
pub fn convert_to(source: &Texture, format: TextureFormat) -> (r: Result<
    ConversionPass,
    ReadbackError,
>)
    ensures
        conversion_exists(source.format, format) ==> r == Ok::<ConversionPass, ReadbackError>(
            conversion_pass(*source, format),
        ),
        !conversion_exists(source.format, format) ==> r == Err::<ConversionPass, ReadbackError>(
            ReadbackError::UnsupportedFormat,
        ),
{
    let readable: bool = source.format.is_copyable() || source.format.is_convertible();
    if !readable || !format.is_copyable() {
        return Err(ReadbackError::UnsupportedFormat);
    }
    Ok(
        ConversionPass {
            source: *source,
            destination: TextureDescriptor {
                width: source.width,
                height: source.height,
                mip_level_count: 1,
                sample_count: 1,
                format,
                usage: TextureUsage {
                    render_attachment: true,
                    texture_binding: true,
                    copy_src: true,
                },
            },
            target_format: format,
            filter: FilterMode::Linear,
            clear: Rgba8 { r: 0, g: 0, b: 0, a: 0 },
            vertices: 3,
            instances: 1,
        },
    )
}

/// Decides how `texture` becomes copyable: a texture in a copyable format is
/// handed back as it is; one in a convertible format gets a conversion pass;
/// any other is refused.
pub fn ensure_copyable_format(texture: Texture) -> (r: Result<FormatStep, ReadbackError>)
    ensures
        texture.format.copyable() ==> r == Ok::<FormatStep, ReadbackError>(
            FormatStep::Unchanged(texture),
        ),
        texture.format.convertible() ==> r == Ok::<FormatStep, ReadbackError>(
            FormatStep::Convert(conversion_pass(texture, readback_format())),
        ),
        !texture.format.copyable() && !texture.format.convertible() ==> r == Err::<
            FormatStep,
            ReadbackError,
        >(ReadbackError::UnsupportedFormat),
{
    if texture.format.is_copyable() {
        Ok(FormatStep::Unchanged(texture))
    } else {
        match convert_to(&texture, TextureFormat::Rgba8UnormSrgb) {
            Ok(pass) => Ok(FormatStep::Convert(pass)),
            Err(e) => Err(e),
        }
    }
}

/// Whatever texture a conversion pass leaves behind can be read back: its
/// format is copyable and its size is that of the source.
pub proof fn lemma_converted_is_copyable(source: Texture, format: TextureFormat, handle: u64)
    requires
        conversion_exists(source.format, format),
    ensures
        conversion_pass(source, format).destination.allocated(handle).format.copyable(),
        conversion_pass(source, format).destination.allocated(handle).width == source.width,
        conversion_pass(source, format).destination.allocated(handle).height == source.height,
{
}

} // verus!
