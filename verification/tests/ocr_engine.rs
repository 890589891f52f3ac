use ww_ocr::layout::{TextBlock, TextPoint};
use ww_ocr::ocr_engine::{
    contains_text, detection_max_side, missing_model_message, model_files, normalize_dictionary,
    recognized_blocks,
};

fn block(text: &str) -> TextBlock {
    TextBlock { text: text.to_string(), box_points: vec![TextPoint { x: 1, y: 2 }, TextPoint { x: 3, y: 4 }] }
}

#[test]
fn prepends_the_blank_class_and_ends_with_a_line_break() {
    assert_eq!(normalize_dictionary(b"a\nb".to_vec()), b"#\na\nb\n".to_vec());
    assert_eq!(normalize_dictionary(b"a\nb\n".to_vec()), b"#\na\nb\n".to_vec());
    assert_eq!(normalize_dictionary(Vec::new()), b"#\n".to_vec());
}

#[test]
fn short_screenshots_are_detected_at_a_larger_side() {
    assert_eq!(detection_max_side(95), 2048);
    assert_eq!(detection_max_side(0), 2048);
    assert_eq!(detection_max_side(96), 1024);
    assert_eq!(detection_max_side(1080), 1024);
}

#[test]
fn retries_only_when_no_block_holds_text() {
    assert!(!contains_text(&vec![]));
    assert!(!contains_text(&vec![block("  "), block("\u{3000}\n")]));
    assert!(contains_text(&vec![block(" "), block(" x ")]));
}

#[test]
fn keeps_trimmed_blocks_that_hold_text() {
    let kept = recognized_blocks(&vec![block(" 第一 "), block("\t"), block("second")]);
    assert_eq!(kept.len(), 2);
    assert_eq!(kept[0].text, "第一");
    assert_eq!(kept[1].text, "second");
    assert_eq!((kept[0].box_points[1].x, kept[0].box_points[1].y), (3, 4));
}

#[test]
fn names_the_missing_model_file() {
    assert_eq!(model_files(), vec!["det.onnx", "cls.onnx", "rec.onnx", "dict.txt"]);
    assert_eq!(
        missing_model_message("/m/det.onnx", "/m"),
        "缺少 OCR 模型文件: /m/det.onnx。请把 det.onnx、cls.onnx、rec.onnx、dict.txt 放入 /m"
    );
    assert_eq!(ww_ocr::diagnostics::reason(&missing_model_message("x", "y")), "model_missing");
}
