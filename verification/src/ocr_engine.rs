//! The decisions around the recognizer: its dictionary, how large it sees
//! the image, when to retry, and which recognized blocks are kept.
use vstd::prelude::*;
use crate::layout::{TextBlock, TextPoint};
use crate::text::{trim, trimmed};

verus! {

/// The dictionary the recognizer loads: a placeholder line `#` for the blank
/// class, then the dictionary file, ending with a line break.
pub open spec fn dictionary_of(raw: Seq<u8>) -> Seq<u8> {
    let joined = seq![35u8, 10u8] + raw;
    if joined.last() == 10u8 {
        joined
    } else {
        joined.push(10u8)
    }
}

/// Prepares the dictionary file's bytes for the recognizer.
pub fn normalize_dictionary(raw: Vec<u8>) -> (r: Vec<u8>)
    requires
        raw@.len() + 3 <= usize::MAX,
    ensures
        r@ == dictionary_of(raw@),
{
    let mut out: Vec<u8> = Vec::new();
    out.push(35u8);
    out.push(10u8);
    let mut k: usize = 0;
    while k < raw.len()
        invariant
            0 <= k <= raw@.len(),
            out@ == seq![35u8, 10u8] + raw@.take(k as int),
        decreases raw@.len() - k,
    {
        out.push(raw[k]);
        k = k + 1;
        assert(out@ =~= seq![35u8, 10u8] + raw@.take(k as int));
    }
    assert(raw@.take(raw@.len() as int) =~= raw@);
    let last = out[out.len() - 1];
    if last != 10u8 {
        out.push(10u8);
    }
    out
}

/// The height below which a screenshot counts as short text.
pub open spec fn small_image_height() -> u32 {
    96
}

/// The longest side the detector resizes an image to: larger for short
/// screenshots, so that their small text stays legible.
pub fn detection_max_side(source_height: u32) -> (r: u32)
    ensures
        r == if source_height < small_image_height() { 2048u32 } else { 1024u32 },
{
    if source_height < 96 {
        2048
    } else {
        1024
    }
}

/// A block holds text other than white space.
pub open spec fn has_text(block: TextBlock) -> bool {
    trimmed(block.text@).len() > 0
}

/// Whether some block holds text; when none does, recognition is retried
/// with lower detection thresholds.
pub fn contains_text(blocks: &Vec<TextBlock>) -> (r: bool)
    ensures
        r <==> exists|i: int| 0 <= i < blocks@.len() && has_text(#[trigger] blocks@[i]),
{
    let mut k: usize = 0;
    while k < blocks.len()
        invariant
            0 <= k <= blocks@.len(),
            forall|j: int| 0 <= j < k ==> !has_text(#[trigger] blocks@[j]),
        decreases blocks@.len() - k,
    {
        let text = trim(blocks[k].text.as_str());
        if !text.is_empty() {
            assert(has_text(blocks@[k as int]));
            return true;
        }
        k = k + 1;
    }
    false
}

/// The blocks that hold text, in order, each with its text trimmed and its
/// corners unchanged.
pub open spec fn kept_blocks(blocks: Seq<TextBlock>) -> Seq<(Seq<char>, Seq<TextPoint>)>
    decreases blocks.len(),
{
    if blocks.len() == 0 {
        Seq::empty()
    } else {
        let rest = kept_blocks(blocks.drop_last());
        let last = blocks.last();
        if has_text(last) {
            rest.push((trimmed(last.text@), last.box_points@))
        } else {
            rest
        }
    }
}

pub open spec fn block_views(blocks: Seq<TextBlock>) -> Seq<(Seq<char>, Seq<TextPoint>)> {
    blocks.map_values(|b: TextBlock| (b.text@, b.box_points@))
}

fn copy_points(points: &Vec<TextPoint>) -> (r: Vec<TextPoint>)
    ensures
        r@ == points@,
{
    let mut out: Vec<TextPoint> = Vec::new();
    let mut k: usize = 0;
    while k < points.len()
        invariant
            0 <= k <= points@.len(),
            out@ == points@.take(k as int),
        decreases points@.len() - k,
    {
        let p = points[k];
        out.push(p);
        k = k + 1;
        assert(out@ =~= points@.take(k as int));
    }
    assert(points@.take(points@.len() as int) =~= points@);
    out
}

/// The blocks that the recognition result keeps: those that hold text, with
/// their text trimmed.
pub fn recognized_blocks(blocks: &Vec<TextBlock>) -> (r: Vec<TextBlock>)
    ensures
        block_views(r@) == kept_blocks(blocks@),
{
    let mut out: Vec<TextBlock> = Vec::new();
    let mut k: usize = 0;
    while k < blocks.len()
        invariant
            0 <= k <= blocks@.len(),
            block_views(out@) == kept_blocks(blocks@.take(k as int)),
        decreases blocks@.len() - k,
    {
        assert(blocks@.take(k + 1).drop_last() =~= blocks@.take(k as int));
        let block = &blocks[k];
        let text = trim(block.text.as_str());
        if !text.is_empty() {
            let kept = TextBlock { text: text.to_owned(), box_points: copy_points(&block.box_points) };
            out.push(kept);
        }
        k = k + 1;
        assert(block_views(out@) =~= kept_blocks(blocks@.take(k as int)));
    }
    assert(blocks@.take(blocks@.len() as int) =~= blocks@);
    out
}

/// The files the recognizer needs in its model directory, in the order they
/// are checked.
pub fn model_files() -> (r: Vec<&'static str>)
    ensures
        r@.len() == 4,
        r@[0]@ == "det.onnx"@,
        r@[1]@ == "cls.onnx"@,
        r@[2]@ == "rec.onnx"@,
        r@[3]@ == "dict.txt"@,
{
    let files = vec!["det.onnx", "cls.onnx", "rec.onnx", "dict.txt"];
    proof {
        reveal_strlit("det.onnx");
    }
    files
}

/// The error for a model file that is missing from the model directory.
pub fn missing_model_message(path: &str, directory: &str) -> (r: String)
    ensures
        r@ == "缺少 OCR 模型文件: "@ + path@ + "。请把 det.onnx、cls.onnx、rec.onnx、dict.txt 放入 "@ + directory@,
{
    let mut message = "缺少 OCR 模型文件: ".to_owned();
    message.append(path);
    message.append("。请把 det.onnx、cls.onnx、rec.onnx、dict.txt 放入 ");
    message.append(directory);
    message
}

} // verus!
