//! The outcome of deleting a workspace or an image: the record is deleted
//! while its files wait in a staging place, then the files are removed, or
//! put back when the record could not be deleted.
use vstd::prelude::*;
use crate::diagnostics::reason_of;
use crate::text::{contains_text, occurs_at, text_before};

verus! {

/// What is deleted.
#[derive(Clone, Copy, PartialEq, Eq, Structural)]
pub enum DeletionKind {
    Workspace,
    Document,
}

/// The first words of the error when the record is gone but its files
/// could not be removed.
pub open spec fn cleanup_prefix(kind: DeletionKind) -> Seq<char> {
    match kind {
        DeletionKind::Workspace => "工作区记录已删除，但图片文件清理失败"@,
        DeletionKind::Document => "图片记录已删除，但文件清理失败"@,
    }
}

/// The words that join the deletion's error and the error of putting the
/// files back.
pub open spec fn restore_marker() -> Seq<char> {
    "；同时恢复待删除文件失败:"@
}

/// What a deletion reports, given how deleting the record went and how the
/// file step after it went (removing the files after a deletion, putting
/// them back after a failed one; `None` when nothing was staged).
pub open spec fn deletion_outcome(kind: DeletionKind, deleted: Result<(), Seq<char>>, files: Option<Result<(), Seq<char>>>) -> Result<(), Seq<char>> {
    match deleted {
        Ok(()) => match files {
            Some(Err(e)) => Err(cleanup_prefix(kind) + ": "@ + e),
            _ => Ok(()),
        },
        Err(error) => match files {
            Some(Err(e)) => Err(error + restore_marker() + " "@ + e),
            _ => Err(error),
        },
    }
}

pub open spec fn result_view(r: Result<(), String>) -> Result<(), Seq<char>> {
    match r {
        Ok(()) => Ok(()),
        Err(e) => Err(e@),
    }
}

pub open spec fn files_view(files: Option<Result<(), String>>) -> Option<Result<(), Seq<char>>> {
    match files {
        Some(r) => Some(result_view(r)),
        None => None,
    }
}

/// Reports the outcome of a deletion.
pub fn deletion_result(kind: DeletionKind, deleted: Result<(), String>, files: Option<Result<(), String>>) -> (r: Result<(), String>)
    ensures
        result_view(r) == deletion_outcome(kind, result_view(deleted), files_view(files)),
        r is Ok <==> deleted is Ok && !(files matches Some(Err(_))),
        deleted matches Err(d) ==> (r matches Err(e) && d@.is_prefix_of(e@)),
{
    proof {
        lemma_failed_record_deletion_is_reported(kind, result_view(deleted), files_view(files));
    }
    match deleted {
        Ok(()) => match files {
            Some(Err(e)) => {
                let mut message = match kind {
                    DeletionKind::Workspace => "工作区记录已删除，但图片文件清理失败".to_owned(),
                    DeletionKind::Document => "图片记录已删除，但文件清理失败".to_owned(),
                };
                message.append(": ");
                message.append(e.as_str());
                Err(message)
            },
            _ => Ok(()),
        },
        Err(error) => match files {
            Some(Err(e)) => {
                let mut message = error;
                message.append("；同时恢复待删除文件失败:");
                message.append(" ");
                message.append(e.as_str());
                Err(message)
            },
            _ => Err(error),
        },
    }
}

/// A deletion is reported as a success exactly when the record was deleted
/// and no file step failed; when deleting the record failed, the report is
/// that failure (its message first), whatever happened to the files.
pub proof fn lemma_failed_record_deletion_is_reported(
    kind: DeletionKind,
    deleted: Result<(), Seq<char>>,
    files: Option<Result<(), Seq<char>>>,
)
    ensures
        deletion_outcome(kind, deleted, files) is Ok <==> deleted is Ok && !(files matches Some(Err(_))),
        deleted matches Err(d) ==> (deletion_outcome(kind, deleted, files) matches Err(e) && d.is_prefix_of(e)),
{
    if let Err(d) = deleted {
        if let Some(Err(e)) = files {
            let whole = d + restore_marker() + " "@ + e;
            assert(whole.subrange(0, d.len() as int) =~= d);
        } else {
            assert(d.subrange(0, d.len() as int) =~= d);
        }
    }
}

/// The error of a recognition whose failure could not be recorded either.
pub fn unrecorded_failure(error: &str, update_error: &str) -> (r: String)
    ensures
        r@ == error@ + "；同时记录失败状态时出错: "@ + update_error@,
{
    let mut message = error.to_owned();
    message.append("；同时记录失败状态时出错: ");
    message.append(update_error);
    message
}

/// A deletion whose files could not be put back is always logged as a
/// failed restore, whatever the two errors say.
pub proof fn lemma_restore_failure_is_classified(error: Seq<char>, restore_error: Seq<char>)
    ensures
        reason_of(error + restore_marker() + " "@ + restore_error) == "file_restore_failed"@,
{
    let message = error + restore_marker() + " "@ + restore_error;
    assert(message.subrange(error.len() as int, (error.len() + restore_marker().len()) as int) =~= restore_marker());
    assert(occurs_at(message, restore_marker(), error.len() as int));
    assert(contains_text(message, "；同时恢复待删除文件失败:"@));
}

proof fn lemma_text_before_prefix(prefix: Seq<char>, rest: Seq<char>, c: char)
    requires
        forall|j: int| 0 <= j < prefix.len() ==> prefix[j] != c,
        rest.len() > 0,
        rest[0] == c,
    ensures
        text_before(prefix + rest, c) == prefix,
    decreases prefix.len(),
{
    let s = prefix + rest;
    if prefix.len() == 0 {
        assert(s[0] == c);
        assert(prefix =~= Seq::<char>::empty());
    } else {
        lemma_text_before_prefix(prefix.drop_first(), rest, c);
        assert(s.drop_first() =~= prefix.drop_first() + rest);
        assert(seq![prefix[0]] + prefix.drop_first() =~= prefix);
    }
}

/// A deletion whose files could not be removed is logged as a failed
/// cleanup, unless the error of the removal itself reads as a failed
/// restore.
pub proof fn lemma_cleanup_failure_is_classified(kind: DeletionKind, detail: Seq<char>)
    requires
        !contains_text(detail, restore_marker()),
    ensures
        reason_of(cleanup_prefix(kind) + ": "@ + detail) == "file_cleanup_failed"@,
{
    reveal_strlit("工作区记录已删除，但图片文件清理失败");
    reveal_strlit("图片记录已删除，但文件清理失败");
    reveal_strlit(": ");
    reveal_strlit("；同时恢复待删除文件失败:");
    reveal_strlit("缺少 OCR 模型文件");
    reveal_strlit("获取应用资源目录失败");
    reveal_strlit("读取 OCR 字典失败");
    reveal_strlit("写入 OCR 临时字典失败");
    reveal_strlit("加载 Rust OCR 模型失败");
    reveal_strlit("Rust OCR 识别失败");
    reveal_strlit("工作区不存在");
    reveal_strlit("打开图片失败");
    reveal_strlit("读取图片信息失败");
    reveal_strlit("识别图片格式失败");
    reveal_strlit("无法读取剪贴板图片");
    reveal_strlit("解析剪贴板图片失败");
    let prefix = cleanup_prefix(kind);
    let message = prefix + ": "@ + detail;
    assert(message =~= prefix + (": "@ + detail));
    lemma_text_before_prefix(prefix, ": "@ + detail, ':');
    if contains_text(message, restore_marker()) {
        let i = choose|i: int| occurs_at(message, restore_marker(), i);
        assert(message.subrange(i, i + restore_marker().len()) == restore_marker());
        if i < prefix.len() + 2 {
            assert(message[i] == restore_marker()[0]);
            assert(false);
        } else {
            assert(detail.subrange(i - prefix.len() - 2, i - prefix.len() - 2 + restore_marker().len())
                =~= restore_marker());
            assert(occurs_at(detail, restore_marker(), i - prefix.len() - 2));
            assert(false);
        }
    }
}

} // verus!
