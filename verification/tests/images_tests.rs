use base64::Engine;
use oar_ocr_web::error::AppError;
use oar_ocr_web::images::{
    add_estimated_image_size, base64_payload, check_download_status, classify_image_source,
    image_from_base64, image_from_download, img_from_bytes, ImageSource, MAX_DOWNLOAD_BYTES,
};

fn png_bytes(width: u32, height: u32) -> Vec<u8> {
    let img = image::DynamicImage::ImageRgb8(image::RgbImage::new(width, height));
    let mut buf = Vec::new();
    img.write_to(&mut std::io::Cursor::new(&mut buf), image::ImageFormat::Png).unwrap();
    buf
}

#[test]
fn decodes_image_bytes() {
    let img = img_from_bytes(&png_bytes(3, 2)).ok().unwrap();
    assert_eq!((img.width, img.height), (3, 2));
    assert_eq!(img.image.to_rgb8().dimensions(), (3, 2));
    assert!(matches!(img_from_bytes(b"not an image"), Err(AppError::ImageLoad(_))));
}

#[test]
fn decodes_base64_images() {
    let b64 = base64::engine::general_purpose::STANDARD.encode(png_bytes(5, 4));
    let img = image_from_base64(&b64).ok().unwrap();
    assert_eq!((img.width, img.height), (5, 4));
    match image_from_base64("@@@@") {
        Err(AppError::Base64Decode(msg)) => assert_eq!(msg, "解码失败: Invalid symbol 64, offset 0."),
        _ => panic!("expected a base64 error"),
    }
    // Valid base64 of bytes that are no image.
    assert!(matches!(image_from_base64("QUJD"), Err(AppError::ImageLoad(_))));
}

#[test]
fn data_urls_and_bare_payloads() {
    let b64 = base64::engine::general_purpose::STANDARD.encode(png_bytes(2, 7));
    let data_url = format!("data:image/png;base64,{b64}");
    assert_eq!(base64_payload(&data_url), b64);
    assert_eq!(base64_payload(&b64), b64);
    match classify_image_source(&format!("  {data_url}\n")) {
        ImageSource::Base64(p) => {
            assert_eq!(p, b64);
            let img = image_from_base64(&p).ok().unwrap();
            assert_eq!((img.width, img.height), (2, 7));
        }
        ImageSource::Url(_) => panic!("a data URL is no link"),
    }
    match classify_image_source(" https://example.com/a.jpg ") {
        ImageSource::Url(u) => assert_eq!(u, "https://example.com/a.jpg"),
        ImageSource::Base64(_) => panic!("expected a link"),
    }
}

#[test]
fn download_checks() {
    assert!(check_download_status(200, "200 OK").is_ok());
    assert!(check_download_status(204, "204 No Content").is_ok());
    match check_download_status(404, "404 Not Found") {
        Err(AppError::ImageDownload(msg)) => assert_eq!(msg, "HTTP 404 Not Found"),
        _ => panic!("expected a download error"),
    }
    assert!(check_download_status(301, "301 Moved Permanently").is_err());
    let too_big = vec![0u8; MAX_DOWNLOAD_BYTES + 1];
    match image_from_download(&too_big) {
        Err(AppError::ImageDownload(msg)) => assert_eq!(msg, "图片过大 (超过 20MB)"),
        _ => panic!("expected a size error"),
    }
    let img = image_from_download(&png_bytes(1, 1)).ok().unwrap();
    assert_eq!((img.width, img.height), (1, 1));
}

#[test]
fn estimated_sizes() {
    assert_eq!(add_estimated_image_size(0, 3, 2), 18);
    assert_eq!(add_estimated_image_size(10, 100, 100), 30010);
}
