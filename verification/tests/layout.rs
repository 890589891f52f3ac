use ww_ocr::layout::{columns, format_fragments, format_text, Fragment, TextBlock, TextPoint};

fn fragment(text: &str, left: u32, top: u32) -> Fragment {
    Fragment {
        text: text.to_string(),
        left,
        top,
        right: left + columns(text) as u32 * 8,
        bottom: top + 16,
    }
}

#[test]
fn restores_rows_and_columns_from_shuffled_boxes() {
    assert_eq!(
        format_fragments(vec![
            fragment("20", 80, 24),
            fragment("姓名", 0, 0),
            fragment("年龄", 80, 1),
            fragment("小明", 0, 24)
        ]),
        "姓名      年龄\n小明      20"
    );
}

#[test]
fn separates_distant_paragraphs() {
    assert_eq!(
        format_fragments(vec![fragment("第一段", 0, 0), fragment("第二段", 0, 64)]),
        "第一段\n\n第二段"
    );
}

#[test]
fn does_not_merge_adjacent_lines() {
    assert_eq!(
        format_fragments(vec![fragment("one", 0, 0), fragment("two", 0, 18)]),
        "one\ntwo"
    );
}

#[test]
fn empty_result_is_empty() {
    assert_eq!(format_fragments(vec![]), "");
}

#[test]
fn counts_wide_characters_as_two_columns() {
    assert_eq!(columns("ab"), 2);
    assert_eq!(columns("姓名"), 4);
    assert_eq!(columns("a名"), 3);
    assert_eq!(columns(""), 0);
}

#[test]
fn pads_fragments_to_their_columns_with_at_least_one_space() {
    // unit is 8 pixels per column; "b" starts at column 5.
    assert_eq!(
        format_fragments(vec![fragment("a", 0, 0), fragment("b", 40, 0)]),
        "a    b"
    );
    // Overlapping boxes are still separated by one space.
    assert_eq!(
        format_fragments(vec![fragment("abc", 0, 0), fragment("d", 8, 0)]),
        "abc d"
    );
}

#[test]
fn caps_padding_at_160_spaces() {
    let text = format_fragments(vec![fragment("a", 0, 0), fragment("b", 8 * 1000, 0)]);
    assert_eq!(text, format!("a{}b", " ".repeat(160)));
}

fn block(text: &str, points: &[(u32, u32)]) -> TextBlock {
    TextBlock {
        text: text.to_string(),
        box_points: points.iter().map(|&(x, y)| TextPoint { x, y }).collect(),
    }
}

#[test]
fn format_text_trims_skips_blank_and_appends_unpositioned_blocks() {
    let blocks = vec![
        block("  world ", &[(80, 0), (120, 0), (120, 16), (80, 16)]),
        block("   ", &[(0, 40), (8, 56)]),
        block("footnote", &[]),
        block("hello", &[(0, 0), (40, 0), (40, 16), (0, 16)]),
    ];
    assert_eq!(format_text(&blocks), "hello     world\nfootnote");
    assert_eq!(format_text(&[block("only", &[])]), "only");
    assert_eq!(format_text(&[]), "");
}

#[test]
fn every_listing_order_of_the_same_boxes_lays_out_alike() {
    let boxes = [
        ("20", 80, 24),
        ("姓名", 0, 0),
        ("年龄", 80, 1),
        ("小明", 0, 24),
        ("备注", 160, 60),
    ];
    let orders: [[usize; 5]; 4] = [[0, 1, 2, 3, 4], [4, 3, 2, 1, 0], [2, 0, 4, 1, 3], [1, 4, 0, 3, 2]];
    let texts: Vec<String> = orders
        .iter()
        .map(|order| format_fragments(order.iter().map(|&i| fragment(boxes[i].0, boxes[i].1, boxes[i].2)).collect()))
        .collect();
    assert!(texts.iter().all(|text| text == &texts[0]));
    assert!(texts[0].starts_with("姓名      年龄\n小明      20"));
}
