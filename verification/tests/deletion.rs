use ww_ocr::deletion::{deletion_result, unrecorded_failure, DeletionKind};
use ww_ocr::diagnostics::reason;

#[test]
fn reports_the_outcome_of_a_deletion() {
    assert!(deletion_result(DeletionKind::Workspace, Ok(()), None).is_ok());
    assert!(deletion_result(DeletionKind::Document, Ok(()), Some(Ok(()))).is_ok());
    assert_eq!(
        deletion_result(DeletionKind::Workspace, Ok(()), Some(Err("busy".into()))).err().unwrap(),
        "工作区记录已删除，但图片文件清理失败: busy"
    );
    assert_eq!(
        deletion_result(DeletionKind::Document, Ok(()), Some(Err("busy".into()))).err().unwrap(),
        "图片记录已删除，但文件清理失败: busy"
    );
    assert_eq!(deletion_result(DeletionKind::Document, Err("图片不存在".into()), Some(Ok(()))).err().unwrap(), "图片不存在");
    assert_eq!(
        deletion_result(DeletionKind::Document, Err("图片不存在".into()), Some(Err("disk full".into()))).err().unwrap(),
        "图片不存在；同时恢复待删除文件失败: disk full"
    );
}

#[test]
fn deletion_failures_are_logged_by_category() {
    let restore = deletion_result(DeletionKind::Workspace, Err("x: y".into()), Some(Err("z".into()))).err().unwrap();
    assert_eq!(reason(&restore), "file_restore_failed");
    let cleanup = deletion_result(DeletionKind::Workspace, Ok(()), Some(Err("C:/secret".into()))).err().unwrap();
    assert_eq!(reason(&cleanup), "file_cleanup_failed");
    let cleanup = deletion_result(DeletionKind::Document, Ok(()), Some(Err("denied".into()))).err().unwrap();
    assert_eq!(reason(&cleanup), "file_cleanup_failed");
}

#[test]
fn keeps_the_recognition_error_first() {
    assert_eq!(unrecorded_failure("Rust OCR 识别失败: x", "locked"), "Rust OCR 识别失败: x；同时记录失败状态时出错: locked");
}
