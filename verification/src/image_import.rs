//! Which images the application accepts, and what it records of them: the
//! checks made before an image file, clipboard bytes or a capture is stored.
use vstd::prelude::*;
use crate::acquisition::{encode_png, png_encoding};
use crate::ids::{valid_workspace_id, validate_workspace_id};
use crate::session::Pixels;

verus! {

/// An image format as detected from a file's or buffer's contents.
#[derive(Clone, Copy, PartialEq, Eq, Structural)]
pub enum ImageKind {
    Png,
    Jpeg,
    Other,
}

/// The formats the application stores.
#[derive(Clone, Copy, PartialEq, Eq, Structural)]
pub enum SupportedFormat {
    Png,
    Jpeg,
}

/// The file extension and MIME type a stored image gets.
pub open spec fn format_names(format: SupportedFormat) -> (Seq<char>, Seq<char>) {
    match format {
        SupportedFormat::Png => ("png"@, "image/png"@),
        SupportedFormat::Jpeg => ("jpg"@, "image/jpeg"@),
    }
}

/// The stored format of a detected one, if it is stored.
pub open spec fn supported_of(kind: ImageKind) -> Option<SupportedFormat> {
    match kind {
        ImageKind::Png => Some(SupportedFormat::Png),
        ImageKind::Jpeg => Some(SupportedFormat::Jpeg),
        ImageKind::Other => None,
    }
}

/// Accepts PNG and JPEG images, with their extension and MIME type.
pub fn supported_format(kind: ImageKind) -> (r: Result<(SupportedFormat, &'static str, &'static str), String>)
    ensures
        r is Err <==> supported_of(kind) is None,
        r matches Ok((f, ext, mime)) ==> Some(f) == supported_of(kind) && (ext@, mime@) == format_names(f),
        r matches Err(e) ==> e@ == "仅支持 PNG、JPG 或 JPEG 图片"@,
{
    match kind {
        ImageKind::Png => Ok((SupportedFormat::Png, "png", "image/png")),
        ImageKind::Jpeg => Ok((SupportedFormat::Jpeg, "jpg", "image/jpeg")),
        ImageKind::Other => Err("仅支持 PNG、JPG 或 JPEG 图片".to_owned()),
    }
}

/// What `image::guess_format` detects from the first bytes of `bytes`;
/// `None` when no format matches.
pub uninterp spec fn guessed_kind(bytes: Seq<u8>) -> Option<ImageKind>;

/// `image::guess_format`, with the formats other than PNG and JPEG told
/// apart no further; the error message of the crate when none matches.
#[verifier::external_body]
fn guess_kind(bytes: &[u8]) -> (r: Result<ImageKind, String>)
    ensures
        r matches Ok(k) ==> guessed_kind(bytes@) == Some(k),
        r is Err ==> guessed_kind(bytes@) is None,
{
    match image::guess_format(bytes) {
        Ok(image::ImageFormat::Png) => Ok(ImageKind::Png),
        Ok(image::ImageFormat::Jpeg) => Ok(ImageKind::Jpeg),
        Ok(_) => Ok(ImageKind::Other),
        Err(error) => Err(error.to_string()),
    }
}

/// The width and height that `image::load_from_memory_with_format` decodes
/// from `bytes`; `None` when decoding fails.
pub uninterp spec fn decoded_size(bytes: Seq<u8>, format: SupportedFormat) -> Option<(u32, u32)>;

/// `image::load_from_memory_with_format`, keeping the decoded image's
/// dimensions; the error message of the crate when decoding fails.
#[verifier::external_body]
fn decode_size(bytes: &[u8], format: SupportedFormat) -> (r: Result<(u32, u32), String>)
    ensures
        r matches Ok(d) ==> decoded_size(bytes@, format) == Some(d),
        r is Err ==> decoded_size(bytes@, format) is None,
{
    let kind = match format {
        SupportedFormat::Png => image::ImageFormat::Png,
        SupportedFormat::Jpeg => image::ImageFormat::Jpeg,
    };
    match image::load_from_memory_with_format(bytes, kind) {
        Ok(decoded) => Ok(image::GenericImageView::dimensions(&decoded)),
        Err(error) => Err(error.to_string()),
    }
}

/// What is recorded of an accepted image before it is stored.
pub struct ImageImport {
    pub original_name: String,
    pub extension: String,
    pub mime_type: String,
    pub byte_size: i64,
    pub width: u32,
    pub height: u32,
}

/// The largest image file accepted: 100 MB.
pub open spec fn max_image_bytes() -> int {
    104857600
}

/// The largest clipboard image accepted: 20 MB.
pub open spec fn max_clipboard_bytes() -> int {
    20971520
}

/// Why clipboard bytes are refused before they are decoded, if they are.
pub open spec fn clipboard_refusal(workspace_id: Seq<char>, bytes: Seq<u8>) -> Option<Seq<char>> {
    if !valid_workspace_id(workspace_id) {
        Some("工作区 ID 无效"@)
    } else if bytes.len() == 0 {
        Some("剪贴板图片内容为空"@)
    } else if bytes.len() > max_clipboard_bytes() {
        Some("剪贴板图片不能超过 20 MB"@)
    } else {
        None
    }
}

/// The clipboard checks accept the bytes: nothing refuses them, their
/// detected format is stored, and they decode.
pub open spec fn clipboard_ok(workspace_id: Seq<char>, bytes: Seq<u8>) -> bool {
    &&& clipboard_refusal(workspace_id, bytes) is None
    &&& guessed_kind(bytes) matches Some(kind) && supported_of(kind) matches Some(format) && decoded_size(
        bytes,
        format,
    ) is Some
}

/// `message` is the error that the clipboard checks give for the bytes: the
/// first refusal, or the detector's or decoder's error after its prefix.
pub open spec fn clipboard_failure(workspace_id: Seq<char>, bytes: Seq<u8>, message: Seq<char>) -> bool {
    match clipboard_refusal(workspace_id, bytes) {
        Some(m) => message == m,
        None => match guessed_kind(bytes) {
            None => exists|detail: Seq<char>| message == "无法读取剪贴板图片: "@ + detail,
            Some(kind) => match supported_of(kind) {
                None => message == "仅支持 PNG、JPG 或 JPEG 图片"@,
                Some(format) => decoded_size(bytes, format) is None && exists|detail: Seq<char>| message
                    == "解析剪贴板图片失败: "@ + detail,
            },
        },
    }
}

/// Checks image bytes from the clipboard for workspace `workspace_id`: the
/// workspace, the size, the detected format (PNG or JPEG) and that they
/// decode. The image is named after the clipboard and its extension.
pub fn check_clipboard_bytes(workspace_id: &str, bytes: &[u8]) -> (r: Result<ImageImport, String>)
    ensures
        r is Ok <==> clipboard_ok(workspace_id@, bytes@),
        r matches Err(e) ==> clipboard_failure(workspace_id@, bytes@, e@),
        clipboard_refusal(workspace_id@, bytes@) matches Some(e) ==> (r matches Err(m) && m@ == e),
        clipboard_refusal(workspace_id@, bytes@) is None ==> match guessed_kind(bytes@) {
            None => r matches Err(m) && exists|detail: Seq<char>| m@ == "无法读取剪贴板图片: "@ + detail,
            Some(kind) => match supported_of(kind) {
                None => r matches Err(m) && m@ == "仅支持 PNG、JPG 或 JPEG 图片"@,
                Some(format) => match decoded_size(bytes@, format) {
                    None => r matches Err(m) && exists|detail: Seq<char>| m@ == "解析剪贴板图片失败: "@ + detail,
                    Some((w, h)) => r matches Ok(i) && {
                        &&& i.original_name@ == "剪贴板图片."@ + format_names(format).0
                        &&& i.extension@ == format_names(format).0
                        &&& i.mime_type@ == format_names(format).1
                        &&& i.byte_size == bytes@.len()
                        &&& i.width == w && i.height == h
                    },
                },
            },
        },
{
    validate_workspace_id(workspace_id)?;
    if bytes.len() == 0 {
        return Err("剪贴板图片内容为空".to_owned());
    }
    if bytes.len() > 20 * 1024 * 1024 {
        return Err("剪贴板图片不能超过 20 MB".to_owned());
    }
    let kind = match guess_kind(bytes) {
        Ok(k) => k,
        Err(detail) => {
            let mut message = "无法读取剪贴板图片: ".to_owned();
            message.append(detail.as_str());
            return Err(message);
        },
    };
    let (format, extension, mime_type) = supported_format(kind)?;
    let (width, height) = match decode_size(bytes, format) {
        Ok(d) => d,
        Err(detail) => {
            let mut message = "解析剪贴板图片失败: ".to_owned();
            message.append(detail.as_str());
            return Err(message);
        },
    };
    let mut original_name = "剪贴板图片.".to_owned();
    original_name.append(extension);
    Ok(
        ImageImport {
            original_name,
            extension: extension.to_owned(),
            mime_type: mime_type.to_owned(),
            byte_size: bytes.len() as i64,
            width,
            height,
        },
    )
}

/// Checks a capture for storage: it is encoded as PNG and then checked as
/// clipboard bytes are, and named after the capture. Returns the PNG bytes
/// with the record. It succeeds exactly when the image encodes and its PNG
/// passes the clipboard checks.
pub fn check_capture(workspace_id: &str, image: &Pixels) -> (r: Result<(Vec<u8>, ImageImport), String>)
    requires
        image.wf(),
    ensures
        r is Ok <==> (png_encoding(image.width, image.height, image.rgba@) matches Some(png) && clipboard_ok(
            workspace_id@,
            png,
        )),
        r matches Ok((png, i)) ==> png_encoding(image.width, image.height, image.rgba@) == Some(png@)
            && i.original_name@ == "截图.png"@ && i.byte_size == png@.len()
            && clipboard_accepts(workspace_id@, png@, i),
        r matches Err(e) ==> match png_encoding(image.width, image.height, image.rgba@) {
            Some(png) => clipboard_failure(workspace_id@, png, e@),
            None => true,
        },
{
    let png = encode_png(image)?;
    let mut import = check_clipboard_bytes(workspace_id, png.as_slice())?;
    import.original_name = "截图.png".to_owned();
    Ok((png, import))
}

/// Bytes that the clipboard checks accept, with the record they give (but
/// for its name).
pub open spec fn clipboard_accepts(workspace_id: Seq<char>, bytes: Seq<u8>, i: ImageImport) -> bool {
    &&& clipboard_refusal(workspace_id, bytes) is None
    &&& guessed_kind(bytes) matches Some(kind) && supported_of(kind) matches Some(format) && {
        &&& decoded_size(bytes, format) == Some((i.width, i.height))
        &&& i.extension@ == format_names(format).0
        &&& i.mime_type@ == format_names(format).1
    }
}

/// Refuses image files larger than 100 MB.
pub fn check_image_size(byte_size: u64) -> (r: Result<(), String>)
    ensures
        r is Ok <==> byte_size <= max_image_bytes(),
        r matches Err(e) ==> e@ == "图片不能超过 100 MB"@,
{
    if byte_size > 100 * 1024 * 1024 {
        Err("图片不能超过 100 MB".to_owned())
    } else {
        Ok(())
    }
}

/// The format of an image file as detected from its contents; `None` when
/// no format was recognized.
pub fn file_format(kind: Option<ImageKind>) -> (r: Result<(SupportedFormat, &'static str, &'static str), String>)
    ensures
        kind is None ==> (r matches Err(e) && e@ == "无法识别图片格式"@),
        kind matches Some(k) ==> (r is Err <==> supported_of(k) is None),
        kind matches Some(k) && supported_of(k) is None ==> (r matches Err(e) && e@ == "仅支持 PNG、JPG 或 JPEG 图片"@),
        r matches Ok((f, ext, mime)) ==> kind matches Some(k) && Some(f) == supported_of(k) && (ext@, mime@)
            == format_names(f),
{
    match kind {
        Some(k) => supported_format(k),
        None => Err("无法识别图片格式".to_owned()),
    }
}

} // verus!
