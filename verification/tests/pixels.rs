use ww_ocr::pixels::write_premultiplied_bgra;

#[test]
fn converts_rgba_to_premultiplied_bgra() {
    let source = [200, 100, 50, 128, 1, 2, 3, 0];
    let mut output = [0; 8];
    write_premultiplied_bgra(&source, &mut output);
    assert_eq!(output, [25, 50, 100, 128, 0, 0, 0, 0]);
}

#[test]
fn converts_only_whole_pixels_that_both_buffers_hold() {
    let source = [255, 255, 255, 255, 10, 20, 30, 255, 7];
    let mut output = [9; 6];
    write_premultiplied_bgra(&source, &mut output);
    assert_eq!(output, [255, 255, 255, 255, 9, 9]);
    let mut empty: [u8; 0] = [];
    write_premultiplied_bgra(&source, &mut empty);
}
