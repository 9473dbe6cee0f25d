use sprite_batch::graphics::text::{cache_texture_options, glyph_pixels, CACHE_HEIGHT, CACHE_WIDTH};
use sprite_batch::graphics::textures::{
    MaxFilterMode, MinFilterMode, Texture, TextureError, TextureFormat, TextureOptions, WrapMode,
};

/// A 1x1 24-bit BMP holding one red pixel.
fn red_pixel_bmp() -> Vec<u8> {
    let mut b = Vec::new();
    b.extend_from_slice(b"BM");
    b.extend_from_slice(&58u32.to_le_bytes());
    b.extend_from_slice(&[0, 0, 0, 0]);
    b.extend_from_slice(&54u32.to_le_bytes());
    b.extend_from_slice(&40u32.to_le_bytes());
    b.extend_from_slice(&1i32.to_le_bytes());
    b.extend_from_slice(&1i32.to_le_bytes());
    b.extend_from_slice(&1u16.to_le_bytes());
    b.extend_from_slice(&24u16.to_le_bytes());
    b.extend_from_slice(&0u32.to_le_bytes());
    b.extend_from_slice(&4u32.to_le_bytes());
    b.extend_from_slice(&2835i32.to_le_bytes());
    b.extend_from_slice(&2835i32.to_le_bytes());
    b.extend_from_slice(&0u32.to_le_bytes());
    b.extend_from_slice(&0u32.to_le_bytes());
    b.extend_from_slice(&[0x00, 0x00, 0xFF, 0x00]);
    b
}

#[test]
fn short_data_is_rejected_with_sizes() {
    let data = [0u8; 10];
    let r = Texture::from_bytes(&data, TextureOptions::default(), 2, 2);
    match r {
        Err(TextureError::InvalidTextureData(pixel, w, h, len)) => {
            assert_eq!((pixel, w, h, len), (4, 2, 2, 10));
        }
        other => panic!("unexpected result: {:?}", other),
    }
}

#[test]
fn long_data_is_rejected() {
    let data = [0u8; 17];
    assert!(matches!(
        Texture::from_bytes(&data, TextureOptions::default(), 2, 2),
        Err(TextureError::InvalidTextureData(4, 2, 2, 17))
    ));
}

#[test]
fn exact_data_plans_an_upload() {
    let data: Vec<u8> = (0..16).collect();
    let upload = Texture::from_bytes(&data, TextureOptions::default(), 2, 2).unwrap();
    assert_eq!(upload.pixels, data);
    assert_eq!((upload.width, upload.height), (2, 2));
    assert_eq!(upload.options, TextureOptions::default());
    assert!(upload.generate_mipmaps);
    let texture = upload.finish(42);
    assert_eq!(texture.id(), 42);
    assert_eq!(texture.size(), (2, 2));
    assert_eq!(texture.width(), 2);
    assert_eq!(texture.height(), 2);
    assert_eq!(*texture.options(), TextureOptions::default());
}

#[test]
fn rgb_pixels_take_three_bytes() {
    let options = TextureOptions { format: TextureFormat::Rgb, ..TextureOptions::default() };
    assert!(Texture::from_bytes(&[0u8; 12], options, 2, 2).is_ok());
    assert!(matches!(
        Texture::from_bytes(&[0u8; 16], options, 2, 2),
        Err(TextureError::InvalidTextureData(3, 2, 2, 16))
    ));
}

#[test]
fn huge_sizes_do_not_overflow() {
    assert!(matches!(
        Texture::from_bytes(&[0u8; 4], TextureOptions::default(), u32::MAX, u32::MAX),
        Err(TextureError::InvalidTextureData(4, u32::MAX, u32::MAX, 4))
    ));
    assert!(Texture::from_bytes(&[], TextureOptions::default(), 0, u32::MAX).is_ok());
}

#[test]
fn linear_filter_needs_no_mipmaps() {
    let upload = Texture::from_bytes(&[0u8; 4], cache_texture_options(), 1, 1).unwrap();
    assert!(!upload.generate_mipmaps);
}

#[test]
fn mipmap_filters() {
    assert!(!MinFilterMode::Nearest.uses_mipmaps());
    assert!(!MinFilterMode::Linear.uses_mipmaps());
    assert!(MinFilterMode::NearestMipmapNearest.uses_mipmaps());
    assert!(MinFilterMode::LinearMipmapNearest.uses_mipmaps());
    assert!(MinFilterMode::NearestMipmapLinear.uses_mipmaps());
    assert!(MinFilterMode::LinearMipmapLinear.uses_mipmaps());
}

#[test]
fn pixel_lengths() {
    assert_eq!(TextureFormat::Rgb.pixel_length(), 3);
    assert_eq!(TextureFormat::Rgba.pixel_length(), 4);
}

#[test]
fn default_options() {
    let o = TextureOptions::default();
    assert_eq!(o.format, TextureFormat::Rgba);
    assert_eq!(o.h_wrap_mode, WrapMode::Repeat);
    assert_eq!(o.v_wrap_mode, WrapMode::Repeat);
    assert_eq!(o.min_filter_mode, MinFilterMode::NearestMipmapNearest);
    assert_eq!(o.max_filter_mode, MaxFilterMode::Nearest);
}

#[test]
fn decoding_an_image_gives_rgba_pixels() {
    let upload = Texture::load_from_bytes(&red_pixel_bmp(), TextureOptions::default()).unwrap();
    assert_eq!((upload.width, upload.height), (1, 1));
    assert_eq!(upload.pixels, vec![255, 0, 0, 255]);
    let rgb = TextureOptions { format: TextureFormat::Rgb, ..TextureOptions::default() };
    assert!(matches!(
        Texture::load_from_bytes(&red_pixel_bmp(), rgb),
        Err(TextureError::InvalidTextureData(3, 1, 1, 4))
    ));
}

#[test]
fn undecodable_bytes_are_an_image_error() {
    let r = Texture::load_from_bytes(&[1, 2, 3, 4, 5], TextureOptions::default());
    assert!(matches!(r, Err(TextureError::ImageError(_))));
}

#[test]
fn textures_compare_by_handle() {
    let a = Texture::from_bytes(&[0u8; 4], TextureOptions::default(), 1, 1).unwrap().finish(3);
    let b = Texture::from_bytes(&[0u8; 16], TextureOptions::default(), 2, 2).unwrap().finish(3);
    let c = Texture::from_bytes(&[0u8; 4], TextureOptions::default(), 1, 1).unwrap().finish(4);
    assert!(a == b);
    assert!(a != c);
}

#[test]
fn glyph_coverage_becomes_coloured_pixels() {
    let px = glyph_pixels((10, 20, 30), &[0, 128, 255]);
    assert_eq!(px, vec![10, 20, 30, 0, 10, 20, 30, 128, 10, 20, 30, 255]);
    assert!(glyph_pixels((1, 2, 3), &[]).is_empty());
}

#[test]
fn glyph_cache_texture() {
    let o = cache_texture_options();
    assert_eq!(o.min_filter_mode, MinFilterMode::Linear);
    assert_eq!(o.max_filter_mode, MaxFilterMode::Linear);
    assert_eq!(o.format, TextureFormat::Rgba);
    let len = (4 * CACHE_WIDTH * CACHE_HEIGHT) as usize;
    assert!(Texture::from_bytes(&vec![0xFF; len], o, CACHE_WIDTH, CACHE_HEIGHT).is_ok());
}

#[test]
fn io_errors_convert_to_texture_errors() {
    let e: TextureError = std::io::Error::new(std::io::ErrorKind::NotFound, "missing").into();
    assert!(matches!(e, TextureError::Io(ref io) if io.kind() == std::io::ErrorKind::NotFound));
}
