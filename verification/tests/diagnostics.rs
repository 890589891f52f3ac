use ww_ocr::diagnostics::operation_line;
use ww_ocr::diagnostics::{log_id, reason};

#[test]
fn errors_never_expose_raw_content() {
    assert_eq!(reason("缺少 OCR 模型文件: C:/private/secret.onnx"), "model_missing");
    assert_eq!(reason("private user text\nforged log"), "operation_error");
}

#[test]
fn classifies_every_known_failure() {
    assert_eq!(reason("获取应用资源目录失败: private path"), "resource_directory_failed");
    assert_eq!(reason("读取 OCR 字典失败: x"), "dictionary_read_failed");
    assert_eq!(reason("写入 OCR 临时字典失败: x"), "dictionary_write_failed");
    assert_eq!(reason("加载 Rust OCR 模型失败: x"), "model_load_failed");
    assert_eq!(reason("Rust OCR 识别失败: x"), "inference_failed");
    assert_eq!(reason("工作区不存在"), "workspace_missing");
    assert_eq!(reason("打开图片失败: x"), "image_read_failed");
    assert_eq!(reason("读取图片信息失败: x"), "image_read_failed");
    assert_eq!(reason("识别图片格式失败: x"), "image_decode_failed");
    assert_eq!(reason("无法读取剪贴板图片: x"), "image_decode_failed");
    assert_eq!(reason("解析剪贴板图片失败: x"), "image_decode_failed");
    assert_eq!(reason("工作区记录已删除，但图片文件清理失败: x"), "file_cleanup_failed");
    assert_eq!(reason("图片记录已删除，但文件清理失败: x"), "file_cleanup_failed");
    assert_eq!(
        reason("图片不存在；同时恢复待删除文件失败: disk full"),
        "file_restore_failed"
    );
    // Only the text before the first colon is compared.
    assert_eq!(reason("工作区不存在: x: y"), "workspace_missing");
    assert_eq!(reason("工作区不存在吗"), "operation_error");
    assert_eq!(reason(""), "operation_error");
}

#[test]
fn log_ids_are_normalized() {
    assert_eq!(log_id("default"), "default");
    assert_eq!(
        log_id("67E55044-10B1-426F-9247-BB680E5FE0C8"),
        "67e55044-10b1-426f-9247-bb680e5fe0c8"
    );
    assert_eq!(log_id("../secret"), "none");
}

#[test]
fn log_lines_hold_stage_id_and_category_only() {
    assert_eq!(operation_line("list_workspaces", "", None), "operation_completed stage=list_workspaces id=none");
    assert_eq!(
        operation_line("delete_workspace", "default", Some("工作区不存在")),
        "operation_failed stage=delete_workspace id=default reason=workspace_missing"
    );
    assert_eq!(
        operation_line("ocr", "../secret", Some("打开图片失败: C:/Users/me/private.png")),
        "operation_failed stage=ocr id=none reason=image_read_failed"
    );
}
