use photo::raster::{
    decode_raster_bytes, decode_raster_file, decode_route, exceeds_texture_limit, fits_thumbnail, jpeg_thumbnail,
    raster_source_dimensions, thumbnail_route, DecodeRoute, JpegThumbnail, ThumbnailRoute,
};
use std::io::Cursor;

fn encoded(img: image::DynamicImage, format: image::ImageOutputFormat) -> Vec<u8> {
    let mut bytes = Vec::new();
    img.write_to(&mut Cursor::new(&mut bytes), format).unwrap();
    bytes
}

fn png_bytes(width: u32, height: u32) -> Vec<u8> {
    let img = image::RgbaImage::from_fn(width, height, |x, y| image::Rgba([(x % 256) as u8, (y % 256) as u8, 90, 255]));
    encoded(image::DynamicImage::ImageRgba8(img), image::ImageOutputFormat::Png)
}

/// What reading a missing file gives the caller.
fn read(_path: &str) -> Result<Vec<u8>, String> {
    Err("No such file or directory (os error 2)".to_string())
}

#[test]
fn decode_nonexistent_file_returns_error() {
    let path = "/no/such/file.png";
    assert_eq!(decode_route(path), DecodeRoute::Raster);
    let result = decode_raster_file(read(path));
    assert!(result.is_err());
    assert!(result.unwrap_err().starts_with("Failed to decode: "));
}

#[test]
fn decode_png_returns_correct_dimensions() {
    let (_, w, h) = decode_raster_bytes(&png_bytes(64, 48)).unwrap();
    assert_eq!((w, h), (64, 48));
}

#[test]
fn decode_png_returns_rgba_pixels() {
    let (pixels, _, _) = decode_raster_bytes(&png_bytes(4, 4)).unwrap();
    assert_eq!(pixels.len(), 4 * 4 * 4);
    for chunk in pixels.chunks(4) {
        assert_eq!(chunk[3], 255);
    }
}

#[test]
fn decode_invalid_file_returns_error() {
    let result = decode_raster_file(Ok(b"not an image".to_vec()));
    assert!(result.unwrap_err().starts_with("Failed to decode: "));
}

#[test]
fn decode_bmp_format() {
    let img = image::RgbaImage::from_pixel(10, 10, image::Rgba([0, 0, 255, 255]));
    let bytes = encoded(image::DynamicImage::ImageRgba8(img), image::ImageOutputFormat::Bmp);
    let (_, w, h) = decode_raster_bytes(&bytes).unwrap();
    assert_eq!((w, h), (10, 10));
}

#[test]
fn source_dimensions_report_png_file_dimensions() {
    assert_eq!(raster_source_dimensions(Ok(png_bytes(64, 48))), Ok((64, 48)));
}

#[test]
fn source_dimensions_return_an_error_for_missing_files() {
    let result = raster_source_dimensions(read("/no/such/file.png"));
    assert!(result.unwrap_err().starts_with("Failed to inspect image dimensions: "));
}

#[test]
fn thumbnail_jpeg_uses_fast_path() {
    let img = image::RgbImage::from_fn(800, 600, |x, y| image::Rgb([(x % 256) as u8, (y % 256) as u8, 128]));
    let bytes = encoded(image::DynamicImage::ImageRgb8(img), image::ImageOutputFormat::Jpeg(90));
    assert_eq!(thumbnail_route("/photos/photo.JPG"), ThumbnailRoute::Jpeg);
    match jpeg_thumbnail(&bytes, 200).unwrap() {
        JpegThumbnail::Pixels(pixels, w, h) => {
            assert!(w <= 200 && h <= 200 && w > 0 && h > 0);
            assert_eq!(pixels.len() as u32, w * h * 4);
            assert!(fits_thumbnail(w, h, 200));
        }
        JpegThumbnail::UseRaster => panic!("RGB JPEG should decode on the fast path"),
    }
}

#[test]
fn grayscale_jpeg_becomes_rgba() {
    let img = image::GrayImage::from_fn(16, 8, |x, _| image::Luma([(x * 10) as u8]));
    let bytes = encoded(image::DynamicImage::ImageLuma8(img), image::ImageOutputFormat::Jpeg(95));
    match jpeg_thumbnail(&bytes, 200).unwrap() {
        JpegThumbnail::Pixels(pixels, w, h) => {
            assert_eq!((w, h), (16, 8));
            assert_eq!(pixels.len(), 16 * 8 * 4);
            for chunk in pixels.chunks(4) {
                assert_eq!(chunk[0], chunk[1]);
                assert_eq!(chunk[3], 255);
            }
        }
        JpegThumbnail::UseRaster => panic!("grayscale JPEG should decode on the fast path"),
    }
}

#[test]
fn broken_jpeg_names_the_failed_step() {
    let err = jpeg_thumbnail(b"not a jpeg", 200).err().unwrap();
    assert!(err.starts_with("JPEG scale error: ") || err.starts_with("JPEG decode error: "));
}

#[test]
fn routes_by_extension() {
    assert_eq!(decode_route("/a/b.SVG"), DecodeRoute::Svg);
    assert_eq!(decode_route("/a/b.svgz"), DecodeRoute::Svg);
    assert_eq!(decode_route("/a/b.dng"), DecodeRoute::Raw);
    assert_eq!(decode_route("/a/b.jpeg"), DecodeRoute::Raster);
    assert_eq!(thumbnail_route("/a/b.jpeg"), ThumbnailRoute::Jpeg);
    assert_eq!(thumbnail_route("/a/b.svg"), ThumbnailRoute::Svg);
    assert_eq!(thumbnail_route("/a/b.CR2"), ThumbnailRoute::Raw);
    assert_eq!(thumbnail_route("/a/b.png"), ThumbnailRoute::Raster);
    assert_eq!(thumbnail_route("/a/noext"), ThumbnailRoute::Raster);
}

#[test]
fn texture_limit_and_thumbnail_fit() {
    assert!(!exceeds_texture_limit(16384, 16384));
    assert!(exceeds_texture_limit(16385, 10));
    assert!(fits_thumbnail(200, 150, 200));
    assert!(!fits_thumbnail(201, 150, 200));
}
