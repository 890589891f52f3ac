use ww_ocr::image_import::{
    check_capture, check_clipboard_bytes, check_image_size, file_format, supported_format,
    ImageKind, SupportedFormat,
};
use ww_ocr::session::Pixels;

fn png_bytes(width: u32, height: u32) -> Vec<u8> {
    let image = image::RgbaImage::from_pixel(width, height, image::Rgba([1, 2, 3, 255]));
    let mut out = std::io::Cursor::new(Vec::new());
    image.write_to(&mut out, image::ImageFormat::Png).unwrap();
    out.into_inner()
}

#[test]
fn stores_png_and_jpeg_only() {
    let (format, ext, mime) = supported_format(ImageKind::Png).unwrap();
    assert!(format == SupportedFormat::Png && ext == "png" && mime == "image/png");
    let (format, ext, mime) = supported_format(ImageKind::Jpeg).unwrap();
    assert!(format == SupportedFormat::Jpeg && ext == "jpg" && mime == "image/jpeg");
    assert_eq!(supported_format(ImageKind::Other).err().unwrap(), "仅支持 PNG、JPG 或 JPEG 图片");
    assert_eq!(file_format(None).err().unwrap(), "无法识别图片格式");
    assert!(file_format(Some(ImageKind::Png)).is_ok());
}

#[test]
fn image_files_up_to_one_hundred_megabytes() {
    assert!(check_image_size(100 * 1024 * 1024).is_ok());
    assert_eq!(check_image_size(100 * 1024 * 1024 + 1).err().unwrap(), "图片不能超过 100 MB");
}

#[test]
fn checks_clipboard_bytes() {
    let png = png_bytes(3, 2);
    let import = check_clipboard_bytes("default", &png).unwrap();
    assert_eq!(import.original_name, "剪贴板图片.png");
    assert_eq!((import.extension.as_str(), import.mime_type.as_str()), ("png", "image/png"));
    assert_eq!((import.width, import.height), (3, 2));
    assert_eq!(import.byte_size, png.len() as i64);

    assert_eq!(check_clipboard_bytes("../x", &png).err().unwrap(), "工作区 ID 无效");
    assert_eq!(check_clipboard_bytes("default", &[]).err().unwrap(), "剪贴板图片内容为空");
    let huge = vec![0u8; 20 * 1024 * 1024 + 1];
    assert_eq!(check_clipboard_bytes("default", &huge).err().unwrap(), "剪贴板图片不能超过 20 MB");
    assert!(check_clipboard_bytes("default", b"not an image").err().unwrap().starts_with("无法读取剪贴板图片: "));
    assert_eq!(
        check_clipboard_bytes("default", b"GIF89a\x01\x00\x01\x00").err().unwrap(),
        "仅支持 PNG、JPG 或 JPEG 图片"
    );
    let broken = &png[..png.len() / 2];
    assert!(check_clipboard_bytes("default", broken).err().unwrap().starts_with("解析剪贴板图片失败: "));
}

#[test]
fn captures_are_stored_as_png() {
    let pixels = Pixels { width: 2, height: 1, rgba: vec![9, 8, 7, 255, 6, 5, 4, 255] };
    let (png, import) = check_capture("default", &pixels).unwrap();
    assert_eq!(import.original_name, "截图.png");
    assert_eq!((import.width, import.height), (2, 1));
    let decoded = image::load_from_memory(&png).unwrap().to_rgba8();
    assert_eq!(decoded.into_raw(), pixels.rgba);
    assert_eq!(check_capture("nope", &pixels).err().unwrap(), "工作区 ID 无效");
}
