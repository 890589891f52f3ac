//! Log-safe descriptions of operations: fixed error categories and
//! normalized identifiers, never raw error text or user data.
use vstd::prelude::*;
use crate::ids::{default_workspace, parse_uuid, parsed_uuid};
use crate::text::{chars_before, chars_of, contains_exec, contains_text, same_chars, text_before, text_equals};

verus! {

/// The fixed category that a log records for an error message: the message's
/// text before its first `:` is matched against the known failures; anything
/// else, and any text not on the list, becomes `operation_error`.
pub open spec fn reason_of(error: Seq<char>) -> Seq<char> {
    let prefix = text_before(error, ':');
    if contains_text(error, "；同时恢复待删除文件失败:"@) {
        "file_restore_failed"@
    } else if prefix == "缺少 OCR 模型文件"@ {
        "model_missing"@
    } else if prefix == "获取应用资源目录失败"@ {
        "resource_directory_failed"@
    } else if prefix == "读取 OCR 字典失败"@ {
        "dictionary_read_failed"@
    } else if prefix == "写入 OCR 临时字典失败"@ {
        "dictionary_write_failed"@
    } else if prefix == "加载 Rust OCR 模型失败"@ {
        "model_load_failed"@
    } else if prefix == "Rust OCR 识别失败"@ {
        "inference_failed"@
    } else if prefix == "工作区不存在"@ {
        "workspace_missing"@
    } else if prefix == "打开图片失败"@ || prefix == "读取图片信息失败"@ {
        "image_read_failed"@
    } else if prefix == "识别图片格式失败"@ || prefix == "无法读取剪贴板图片"@ || prefix
        == "解析剪贴板图片失败"@ {
        "image_decode_failed"@
    } else if prefix == "工作区记录已删除，但图片文件清理失败"@ || prefix == "图片记录已删除，但文件清理失败"@ {
        "file_cleanup_failed"@
    } else {
        "operation_error"@
    }
}

fn prefix_is(prefix: &Vec<char>, known: &str) -> (r: bool)
    ensures
        r == (prefix@ == known@),
{
    same_chars(prefix, &chars_of(known))
}

/// Maps an error message to a fixed category, so that raw errors (with paths
/// or user content) never enter the log.
pub fn reason(error: &str) -> (r: &'static str)
    ensures
        r@ == reason_of(error@),
{
    let chars = chars_of(error);
    if contains_exec(&chars, &chars_of("；同时恢复待删除文件失败:")) {
        return "file_restore_failed";
    }
    let prefix = chars_before(&chars, ':');
    if prefix_is(&prefix, "缺少 OCR 模型文件") {
        "model_missing"
    } else if prefix_is(&prefix, "获取应用资源目录失败") {
        "resource_directory_failed"
    } else if prefix_is(&prefix, "读取 OCR 字典失败") {
        "dictionary_read_failed"
    } else if prefix_is(&prefix, "写入 OCR 临时字典失败") {
        "dictionary_write_failed"
    } else if prefix_is(&prefix, "加载 Rust OCR 模型失败") {
        "model_load_failed"
    } else if prefix_is(&prefix, "Rust OCR 识别失败") {
        "inference_failed"
    } else if prefix_is(&prefix, "工作区不存在") {
        "workspace_missing"
    } else if prefix_is(&prefix, "打开图片失败") || prefix_is(&prefix, "读取图片信息失败") {
        "image_read_failed"
    } else if prefix_is(&prefix, "识别图片格式失败") || prefix_is(&prefix, "无法读取剪贴板图片")
        || prefix_is(&prefix, "解析剪贴板图片失败") {
        "image_decode_failed"
    } else if prefix_is(&prefix, "工作区记录已删除，但图片文件清理失败") || prefix_is(
        &prefix,
        "图片记录已删除，但文件清理失败",
    ) {
        "file_cleanup_failed"
    } else {
        "operation_error"
    }
}

/// The categories that a log may record for an error.
pub open spec fn log_categories() -> Set<Seq<char>> {
    set![
        "file_restore_failed"@,
        "model_missing"@,
        "resource_directory_failed"@,
        "dictionary_read_failed"@,
        "dictionary_write_failed"@,
        "model_load_failed"@,
        "inference_failed"@,
        "workspace_missing"@,
        "image_read_failed"@,
        "image_decode_failed"@,
        "file_cleanup_failed"@,
        "operation_error"@,
    ]
}

/// Whatever an error message holds, the log records one of the fixed
/// categories for it, never the message itself.
pub proof fn lemma_reason_is_a_category(error: Seq<char>)
    ensures
        log_categories().contains(reason_of(error)),
{
}

/// The identifier a log records: `default` as is, a UUID in its canonical
/// form, and `none` for anything else.
pub open spec fn log_id_of(id: Seq<char>) -> Seq<char> {
    if id == default_workspace() {
        "default"@
    } else {
        match parsed_uuid(id) {
            Some(canonical) => canonical,
            None => "none"@,
        }
    }
}

/// The log line of an operation: its stage, its normalized identifier and,
/// when it failed, the category of the error.
pub open spec fn operation_line_of(stage: Seq<char>, id: Seq<char>, failure: Option<Seq<char>>) -> Seq<char> {
    match failure {
        None => "operation_completed stage="@ + stage + " id="@ + log_id_of(id),
        Some(error) => "operation_failed stage="@ + stage + " id="@ + log_id_of(id) + " reason="@
            + reason_of(error),
    }
}

/// Two failures of the same category give the same log line: nothing of the
/// error message but its category reaches the log.
pub proof fn lemma_log_lines_hide_errors(stage: Seq<char>, id: Seq<char>, first: Seq<char>, second: Seq<char>)
    requires
        reason_of(first) == reason_of(second),
    ensures
        operation_line_of(stage, id, Some(first)) == operation_line_of(stage, id, Some(second)),
{
}

/// Writes the log line of an operation with stage `stage` on identifier `id`
/// (empty when it has none), failed with `failure` if it failed.
pub fn operation_line(stage: &str, id: &str, failure: Option<&str>) -> (r: String)
    ensures
        r@ == operation_line_of(stage@, id@, match failure {
            Some(e) => Some(e@),
            None => None,
        }),
{
    let normalized = log_id(id);
    match failure {
        None => {
            let mut line = "operation_completed stage=".to_owned();
            line.append(stage);
            line.append(" id=");
            line.append(normalized.as_str());
            line
        },
        Some(error) => {
            let mut line = "operation_failed stage=".to_owned();
            line.append(stage);
            line.append(" id=");
            line.append(normalized.as_str());
            line.append(" reason=");
            line.append(reason(error));
            line
        },
    }
}

/// Normalizes an identifier received over IPC before it is logged.
pub fn log_id(id: &str) -> (r: String)
    ensures
        r@ == log_id_of(id@),
        r@ == "default"@ || r@ == "none"@ || parsed_uuid(r@) == Some(r@),
{
    if text_equals(id, "default") {
        "default".to_owned()
    } else {
        match parse_uuid(id) {
            Some(canonical) => canonical,
            None => "none".to_owned(),
        }
    }
}

} // verus!
