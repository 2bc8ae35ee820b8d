use render_sandbox::image_capture::{CaptureFormat, ImageCapture, ImageFormat};

#[test]
fn test_image_format_parsing() {
    assert_eq!(ImageFormat::from_str("png").unwrap(), ImageFormat::Png);
    assert_eq!(ImageFormat::from_str("PNG").unwrap(), ImageFormat::Png);
    assert_eq!(ImageFormat::from_str("jpg").unwrap(), ImageFormat::Jpeg);
    assert_eq!(ImageFormat::from_str("jpeg").unwrap(), ImageFormat::Jpeg);
    assert_eq!(ImageFormat::from_str("bmp").unwrap(), ImageFormat::Bmp);
    assert!(ImageFormat::from_str("tiff").is_err());
}

#[test]
fn test_image_format_extensions() {
    assert_eq!(ImageFormat::Png.extension(), "png");
    assert_eq!(ImageFormat::Jpeg.extension(), "jpg");
    assert_eq!(ImageFormat::Bmp.extension(), "bmp");
}

#[test]
fn test_image_capture_creation() {
    let capture = ImageCapture::new(800, 600, CaptureFormat::Rgba8UnormSrgb);
    assert_eq!(capture.dimensions(), (800, 600));
    assert_eq!(capture.format(), CaptureFormat::Rgba8UnormSrgb);
    assert!(capture.staging_buffer().is_none());
}

#[test]
fn test_image_capture_basic_functionality() {
    // Test basic functionality without requiring a GPU device
    let capture = ImageCapture::new(800, 600, CaptureFormat::Bgra8UnormSrgb);

    assert_eq!(capture.dimensions(), (800, 600));
    assert_eq!(capture.format(), CaptureFormat::Bgra8UnormSrgb);
    assert!(capture.staging_buffer().is_none());
}

#[test]
fn test_image_format_utilities() {
    // Test all supported formats
    assert_eq!(ImageFormat::from_str("png").unwrap(), ImageFormat::Png);
    assert_eq!(ImageFormat::from_str("jpg").unwrap(), ImageFormat::Jpeg);
    assert_eq!(ImageFormat::from_str("jpeg").unwrap(), ImageFormat::Jpeg);
    assert_eq!(ImageFormat::from_str("bmp").unwrap(), ImageFormat::Bmp);

    // Test case insensitive
    assert_eq!(ImageFormat::from_str("PNG").unwrap(), ImageFormat::Png);
    assert_eq!(ImageFormat::from_str("JPEG").unwrap(), ImageFormat::Jpeg);

    // Test error cases
    assert!(ImageFormat::from_str("tiff").is_err());
    assert!(ImageFormat::from_str("gif").is_err());

    // Test extensions
    assert_eq!(ImageFormat::Png.extension(), "png");
    assert_eq!(ImageFormat::Jpeg.extension(), "jpg");
    assert_eq!(ImageFormat::Bmp.extension(), "bmp");
}

#[test]
fn test_unpad_rows_drops_row_padding() {
    // two rows of three RGBA pixels, padded to 16 bytes per row
    let mut data: Vec<u8> = Vec::new();
    for row in 0..2u8 {
        for b in 0..12u8 {
            data.push(row * 100 + b);
        }
        for _ in 12..16 {
            data.push(0xEE);
        }
    }
    let out = render_sandbox::image_capture::unpad_rows(&data, 3, 2, 4, 16);
    assert_eq!(out.len(), 24);
    let mut expected: Vec<u8> = Vec::new();
    for row in 0..2u8 {
        for b in 0..12u8 {
            expected.push(row * 100 + b);
        }
    }
    assert_eq!(out, expected);
}

#[test]
fn test_bgra_to_rgba_swizzles_pixels() {
    let data = vec![1u8, 2, 3, 4, 10, 20, 30, 40];
    let out = render_sandbox::image_capture::bgra_to_rgba(&data);
    assert_eq!(out, vec![3, 2, 1, 4, 30, 20, 10, 40]);
}

#[test]
fn test_capture_format_pixel_sizes() {
    assert_eq!(CaptureFormat::Rgba8Unorm.bytes_per_pixel(), Some(4));
    assert_eq!(CaptureFormat::Rgba8UnormSrgb.bytes_per_pixel(), Some(4));
    assert_eq!(CaptureFormat::Bgra8Unorm.bytes_per_pixel(), Some(4));
    assert_eq!(CaptureFormat::Bgra8UnormSrgb.bytes_per_pixel(), Some(4));
    assert_eq!(CaptureFormat::Depth32Float.bytes_per_pixel(), None);
    assert!(CaptureFormat::Bgra8Unorm.is_bgra());
    assert!(!CaptureFormat::Rgba8Unorm.is_bgra());
}

#[test]
fn test_unsupported_format_error_message() {
    let err = ImageFormat::from_str("webp").unwrap_err();
    assert_eq!(err.message(), "Unsupported format: Unsupported format: webp");
}
