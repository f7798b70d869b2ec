use smelter_colors::convert::{convert_to, ensure_copyable_format, ConversionPass, FormatStep};
use smelter_colors::readback::{
    padded_bytes_per_row, plan_readback, read_pixels, strip_padding, to_image, PixelImage,
    ReadbackError, ReadbackPlan, COPY_BYTES_PER_ROW_ALIGNMENT,
};
use smelter_colors::texture::{
    FilterMode, Rgba8, SampleKind, Texture, TextureDescriptor, TextureFormat, TextureUsage,
};

const PADDING: u8 = 0xEE;

fn texture(width: u32, height: u32, format: TextureFormat) -> Texture {
    Texture { handle: 7, width, height, format }
}

/// The byte of pixel data at `column` of `row`: never the padding marker.
fn pixel_byte(row: u32, column: u32) -> u8 {
    ((row * 31 + column * 7) % 200) as u8
}

/// A staging buffer as a copy leaves it: each row's pixels, then padding.
fn staging(width: u32, height: u32, stride: u32) -> Vec<u8> {
    let mut data = vec![PADDING; (stride * height) as usize];
    for row in 0..height {
        for column in 0..width * 4 {
            data[(row * stride + column) as usize] = pixel_byte(row, column);
        }
    }
    data
}

fn packed(width: u32, height: u32) -> Vec<u8> {
    let mut data = Vec::new();
    for row in 0..height {
        for column in 0..width * 4 {
            data.push(pixel_byte(row, column));
        }
    }
    data
}

#[test]
fn alignment_is_that_of_the_gpu_api() {
    assert_eq!(COPY_BYTES_PER_ROW_ALIGNMENT, wgpu::COPY_BYTES_PER_ROW_ALIGNMENT);
}

#[test]
fn padded_stride_of_the_named_widths() {
    let expected = [(1, 256), (3, 256), (63, 256), (64, 256), (65, 512), (255, 1024), (256, 1024), (257, 1280), (1920, 7680)];
    for (width, stride) in expected {
        let t = texture(width, 2, TextureFormat::Rgba8Unorm);
        assert_eq!(padded_bytes_per_row(&t), Ok(stride));
        let t = texture(width, 2, TextureFormat::Rgba8UnormSrgb);
        assert_eq!(padded_bytes_per_row(&t), Ok(stride));
    }
}

#[test]
fn padded_stride_of_an_empty_row_is_zero() {
    assert_eq!(padded_bytes_per_row(&texture(0, 4, TextureFormat::Rgba8Unorm)), Ok(0));
}

#[test]
fn padded_stride_refuses_other_formats() {
    for kind in [
        SampleKind::FilterableFloat,
        SampleKind::UnfilterableFloat,
        SampleKind::Sint,
        SampleKind::Uint,
        SampleKind::Depth,
    ] {
        let t = texture(16, 16, TextureFormat::Other(kind));
        assert_eq!(padded_bytes_per_row(&t), Err(ReadbackError::UnsupportedFormat));
    }
}

#[test]
fn readback_plan_lays_out_the_staging_buffer() {
    let t = texture(257, 3, TextureFormat::Rgba8UnormSrgb);
    assert_eq!(
        plan_readback(&t),
        Ok(ReadbackPlan { bytes_per_row: 1280, rows_per_image: 3, buffer_size: 3840 })
    );
    let t = texture(1920, 1080, TextureFormat::Rgba8Unorm);
    assert_eq!(
        plan_readback(&t),
        Ok(ReadbackPlan { bytes_per_row: 7680, rows_per_image: 1080, buffer_size: 8_294_400 })
    );
    let t = texture(4, 4, TextureFormat::Other(SampleKind::Uint));
    assert_eq!(plan_readback(&t), Err(ReadbackError::UnsupportedFormat));
}

#[test]
fn readback_plan_of_the_largest_texture_does_not_overflow() {
    let width = (u32::MAX - 255) / 4;
    let t = texture(width, u32::MAX, TextureFormat::Rgba8Unorm);
    let plan = plan_readback(&t).unwrap();
    assert_eq!(plan.bytes_per_row % 256, 0);
    assert_eq!(plan.buffer_size, plan.bytes_per_row as u64 * u32::MAX as u64);
}

#[test]
fn strip_padding_keeps_the_pixels_of_each_row() {
    let data: Vec<u8> = vec![1, 2, 3, 4, 9, 9, 5, 6, 7, 8, 9, 9];
    assert_eq!(strip_padding(&data, 1, 2, 6), vec![1, 2, 3, 4, 5, 6, 7, 8]);
}

#[test]
fn strip_padding_without_padding_is_the_identity() {
    let data: Vec<u8> = (0..32).collect();
    assert_eq!(strip_padding(&data, 2, 4, 8), data);
}

#[test]
fn padding_removal_for_the_named_widths() {
    for width in [1u32, 3, 255, 256, 257] {
        for height in [1u32, 2, 5] {
            let t = texture(width, height, TextureFormat::Rgba8UnormSrgb);
            let stride = padded_bytes_per_row(&t).unwrap();
            let data = staging(width, height, stride);
            let pixels = read_pixels(&t, Some(&data)).unwrap();
            assert_eq!(pixels.len(), (width * height * 4) as usize);
            assert!(pixels.iter().all(|b| *b != PADDING));
            assert_eq!(pixels, packed(width, height));
        }
    }
}

#[test]
fn read_pixels_of_an_empty_texture_is_empty() {
    let t = texture(5, 0, TextureFormat::Rgba8Unorm);
    assert_eq!(read_pixels(&t, Some(&[])), Ok(vec![]));
    let t = texture(0, 5, TextureFormat::Rgba8Unorm);
    assert_eq!(read_pixels(&t, Some(&[])), Ok(vec![]));
}

#[test]
fn read_pixels_fails_when_the_buffer_was_not_mapped() {
    let t = texture(3, 2, TextureFormat::Rgba8Unorm);
    assert_eq!(read_pixels(&t, None), Err(ReadbackError::Mapping));
}

#[test]
fn read_pixels_fails_on_a_mapping_of_the_wrong_size() {
    let t = texture(3, 2, TextureFormat::Rgba8Unorm);
    let short = vec![0u8; 511];
    assert_eq!(read_pixels(&t, Some(&short)), Err(ReadbackError::Mapping));
    let long = vec![0u8; 513];
    assert_eq!(read_pixels(&t, Some(&long)), Err(ReadbackError::Mapping));
    let tight = vec![0u8; 24];
    assert_eq!(read_pixels(&t, Some(&tight)), Err(ReadbackError::Mapping));
}

#[test]
fn read_pixels_refuses_a_format_that_is_not_copyable() {
    let t = texture(3, 2, TextureFormat::Other(SampleKind::FilterableFloat));
    let data = vec![0u8; 512];
    assert_eq!(read_pixels(&t, Some(&data)), Err(ReadbackError::UnsupportedFormat));
    assert_eq!(read_pixels(&t, None), Err(ReadbackError::UnsupportedFormat));
}

#[test]
fn to_image_gives_the_dimensions_and_the_packed_pixels() {
    let t = texture(65, 3, TextureFormat::Rgba8UnormSrgb);
    let data = staging(65, 3, 512);
    let image = to_image(&t, Some(&data)).unwrap();
    assert_eq!(image.width(), 65);
    assert_eq!(image.height(), 3);
    assert_eq!(image.as_raw(), &packed(65, 3));
    let raster = image::RgbaImage::from_raw(image.width(), image.height(), image.into_raw()).unwrap();
    assert_eq!(raster.dimensions(), (65, 3));
    assert_eq!(raster.get_pixel(64, 2).0, [pixel_byte(2, 256), pixel_byte(2, 257), pixel_byte(2, 258), pixel_byte(2, 259)]);
}

#[test]
fn to_image_passes_the_errors_of_the_readback_on() {
    let t = texture(65, 3, TextureFormat::Rgba8UnormSrgb);
    assert_eq!(to_image(&t, None).unwrap_err(), ReadbackError::Mapping);
    let t = texture(65, 3, TextureFormat::Other(SampleKind::Depth));
    assert_eq!(to_image(&t, None).unwrap_err(), ReadbackError::UnsupportedFormat);
}

#[test]
fn pixel_image_accepts_what_the_image_crate_accepts() {
    for (width, height, len) in [(0u32, 0u32, 0usize), (2, 2, 16), (2, 2, 15), (2, 2, 17), (3, 1, 11), (3, 1, 12), (0, 9, 0), (1, 1, 3)] {
        let ours = PixelImage::from_raw(width, height, vec![0u8; len]);
        let theirs = image::RgbaImage::from_raw(width, height, vec![0u8; len]);
        assert_eq!(ours.is_some(), theirs.is_some());
        assert_eq!(ours.is_some(), 4 * width as usize * height as usize <= len);
    }
}

#[test]
fn pixel_image_keeps_its_buffer() {
    let image = PixelImage::from_raw(1, 2, vec![1, 2, 3, 4, 5, 6, 7, 8, 9]).unwrap();
    assert_eq!(image.width(), 1);
    assert_eq!(image.height(), 2);
    assert_eq!(image.into_raw(), vec![1, 2, 3, 4, 5, 6, 7, 8, 9]);
}

#[test]
fn copyable_texture_comes_back_identical() {
    for format in [TextureFormat::Rgba8Unorm, TextureFormat::Rgba8UnormSrgb] {
        let t = texture(640, 480, format);
        assert_eq!(ensure_copyable_format(t), Ok(FormatStep::Unchanged(t)));
    }
}

fn expected_pass(source: Texture, format: TextureFormat) -> ConversionPass {
    ConversionPass {
        source,
        destination: TextureDescriptor {
            width: source.width,
            height: source.height,
            mip_level_count: 1,
            sample_count: 1,
            format,
            usage: TextureUsage { render_attachment: true, texture_binding: true, copy_src: true },
        },
        target_format: format,
        filter: FilterMode::Linear,
        clear: Rgba8 { r: 0, g: 0, b: 0, a: 0 },
        vertices: 3,
        instances: 1,
    }
}

#[test]
fn convertible_texture_gets_a_conversion_pass() {
    let t = texture(640, 480, TextureFormat::Other(SampleKind::FilterableFloat));
    assert_eq!(
        ensure_copyable_format(t),
        Ok(FormatStep::Convert(expected_pass(t, TextureFormat::Rgba8UnormSrgb)))
    );
}

#[test]
fn texture_without_a_conversion_path_is_refused() {
    for kind in [SampleKind::UnfilterableFloat, SampleKind::Sint, SampleKind::Uint, SampleKind::Depth] {
        let t = texture(640, 480, TextureFormat::Other(kind));
        assert_eq!(ensure_copyable_format(t), Err(ReadbackError::UnsupportedFormat));
        assert_eq!(convert_to(&t, TextureFormat::Rgba8Unorm), Err(ReadbackError::UnsupportedFormat));
    }
}

#[test]
fn convert_to_plans_the_pass_for_the_asked_format() {
    let sources = [
        TextureFormat::Rgba8Unorm,
        TextureFormat::Rgba8UnormSrgb,
        TextureFormat::Other(SampleKind::FilterableFloat),
    ];
    for source in sources {
        for target in [TextureFormat::Rgba8Unorm, TextureFormat::Rgba8UnormSrgb] {
            let t = texture(12, 34, source);
            assert_eq!(convert_to(&t, target), Ok(expected_pass(t, target)));
        }
    }
}

#[test]
fn convert_to_refuses_a_target_that_cannot_be_copied() {
    let t = texture(12, 34, TextureFormat::Rgba8Unorm);
    let target = TextureFormat::Other(SampleKind::FilterableFloat);
    assert_eq!(convert_to(&t, target), Err(ReadbackError::UnsupportedFormat));
}

#[test]
fn converted_texture_can_be_read_back() {
    let t = texture(3, 2, TextureFormat::Other(SampleKind::FilterableFloat));
    let pass = match ensure_copyable_format(t).unwrap() {
        FormatStep::Convert(pass) => pass,
        FormatStep::Unchanged(_) => panic!("a conversion was due"),
    };
    let converted = pass.destination.texture(8);
    assert_eq!(converted, Texture { handle: 8, width: 3, height: 2, format: TextureFormat::Rgba8UnormSrgb });
    assert_eq!(ensure_copyable_format(converted), Ok(FormatStep::Unchanged(converted)));
    let data = staging(3, 2, 256);
    assert_eq!(read_pixels(&converted, Some(&data)), Ok(packed(3, 2)));
}

#[test]
fn formats_are_classified() {
    assert!(TextureFormat::Rgba8Unorm.is_copyable());
    assert!(TextureFormat::Rgba8UnormSrgb.is_copyable());
    assert!(!TextureFormat::Other(SampleKind::FilterableFloat).is_copyable());
    assert!(TextureFormat::Other(SampleKind::FilterableFloat).is_convertible());
    assert!(!TextureFormat::Other(SampleKind::Uint).is_convertible());
    assert!(!TextureFormat::Rgba8Unorm.is_convertible());
}
