use carbon::scene::image::{build_rgba_buffer, get_next_rgba, ImageData, PixelFormat, SourceImage};
use carbon::scene::GltfSceneError;

fn image(format: PixelFormat, width: u32, height: u32, pixels: Vec<u8>) -> SourceImage {
    SourceImage { pixels, format, width, height }
}

#[test]
fn rgb_pixel_gets_opaque_alpha() {
    let source = image(PixelFormat::R8G8B8, 1, 1, vec![10, 20, 30]);
    assert_eq!(build_rgba_buffer(&source), Ok(vec![10, 20, 30, 255]));
}

#[test]
fn bgr_pixel_is_reordered() {
    let source = image(PixelFormat::B8G8R8, 1, 1, vec![10, 20, 30]);
    assert_eq!(build_rgba_buffer(&source), Ok(vec![30, 20, 10, 255]));
}

#[test]
fn red_only_pixel_has_no_green_or_blue() {
    let source = image(PixelFormat::R8, 2, 1, vec![7, 9]);
    assert_eq!(build_rgba_buffer(&source), Ok(vec![7, 0, 0, 255, 9, 0, 0, 255]));
}

#[test]
fn red_green_pixel_has_no_blue() {
    let source = image(PixelFormat::R8G8, 1, 2, vec![1, 2, 3, 4]);
    assert_eq!(build_rgba_buffer(&source), Ok(vec![1, 2, 0, 255, 3, 4, 0, 255]));
}

#[test]
fn rgba_pixel_is_kept() {
    let source = image(PixelFormat::R8G8B8A8, 1, 1, vec![1, 2, 3, 4]);
    assert_eq!(build_rgba_buffer(&source), Ok(vec![1, 2, 3, 4]));
}

#[test]
fn bgra_pixel_keeps_its_alpha() {
    let source = image(PixelFormat::B8G8R8A8, 2, 1, vec![1, 2, 3, 4, 5, 6, 7, 8]);
    assert_eq!(build_rgba_buffer(&source), Ok(vec![3, 2, 1, 4, 7, 6, 5, 8]));
}

#[test]
fn sixteen_bit_formats_are_refused() {
    for format in [
        PixelFormat::R16,
        PixelFormat::R16G16,
        PixelFormat::R16G16B16,
        PixelFormat::R16G16B16A16,
    ] {
        let source = image(format, 1, 1, vec![0; 8]);
        assert_eq!(build_rgba_buffer(&source), Err(GltfSceneError::UnsupportedImageFormat));
        assert_eq!(get_next_rgba(&source.pixels, format, 0), Err(GltfSceneError::UnsupportedImageFormat));
    }
}

#[test]
fn empty_image_gives_empty_buffer() {
    let source = image(PixelFormat::R8G8B8, 0, 5, vec![]);
    assert_eq!(build_rgba_buffer(&source), Ok(vec![]));
}

#[test]
fn pixel_is_found_by_its_index() {
    let pixels = vec![1, 2, 3, 4, 5, 6, 7, 8, 9];
    assert_eq!(get_next_rgba(&pixels, PixelFormat::R8G8B8, 2), Ok([7, 8, 9, 255]));
    assert_eq!(get_next_rgba(&pixels, PixelFormat::B8G8R8, 1), Ok([6, 5, 4, 255]));
    assert_eq!(get_next_rgba(&pixels, PixelFormat::R8, 8), Ok([9, 0, 0, 255]));
}

#[test]
fn normalized_image_keeps_its_size() {
    let source = image(PixelFormat::R8, 3, 2, vec![1, 2, 3, 4, 5, 6]);
    let data = ImageData::new(&source).unwrap();
    assert_eq!(data.width, 3);
    assert_eq!(data.height, 2);
    assert_eq!(data.bytes.len(), 24);
    assert_eq!(&data.bytes[20..], &[6, 0, 0, 255]);
}

#[test]
fn white_is_one_opaque_pixel() {
    let white = ImageData::white();
    assert_eq!((white.width, white.height), (1, 1));
    assert_eq!(white.bytes, vec![255, 255, 255, 255]);
}
