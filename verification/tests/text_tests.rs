use ripdoc::bbox::BBox;
use ripdoc::matrix::Matrix;
use ripdoc::page::Page;
use ripdoc::objects::Char;
use ripdoc::textextract::{extract_text_simple, TextExtractOptions};
use ripdoc::words::group_chars_to_words;

fn make_char(text: &str, x0: i64, x1: i64, top: i64) -> Char {
    Char {
        text: text.to_string(),
        fontname: "Helvetica".to_string(),
        size: 12_000,
        x0,
        x1,
        top,
        bottom: top + 12_000,
        doctop: top,
        matrix: Matrix { a: 12_000, b: 0, c: 0, d: 12_000, e: x0, f: 780_000 - top },
        upright: true,
        stroking_color: None,
        non_stroking_color: None,
        adv: x1 - x0,
    }
}

#[test]
fn test_word_grouping() {
    let chars = vec![
        make_char("H", 72_000, 80_000, 100_000),
        make_char("e", 80_000, 86_000, 100_000),
        make_char("l", 86_000, 89_000, 100_000),
        make_char("l", 89_000, 92_000, 100_000),
        make_char("o", 92_000, 98_000, 100_000),
        make_char(" ", 98_000, 101_000, 100_000),
        make_char("W", 105_000, 115_000, 100_000),
        make_char("o", 115_000, 121_000, 100_000),
        make_char("r", 121_000, 125_000, 100_000),
        make_char("l", 125_000, 128_000, 100_000),
        make_char("d", 128_000, 134_000, 100_000),
    ];

    let words = group_chars_to_words(&chars, 3_000, 3_000);
    assert_eq!(words.len(), 2);
    assert_eq!(words[0].text, "Hello");
    assert_eq!(words[1].text, "World");
}

#[test]
fn test_word_bbox_is_hull() {
    let chars = vec![
        make_char("a", 10_000, 16_000, 50_000),
        make_char("b", 16_000, 22_000, 50_000),
    ];
    let words = group_chars_to_words(&chars, 3_000, 3_000);
    assert_eq!(words.len(), 1);
    assert_eq!(words[0].x0, 10_000);
    assert_eq!(words[0].x1, 22_000);
    assert_eq!(words[0].top, 50_000);
    assert_eq!(words[0].bottom, 62_000);
}

#[test]
fn test_simple_extraction() {
    let chars = vec![
        make_char("H", 72_000, 80_000, 100_000),
        make_char("i", 80_000, 84_000, 100_000),
    ];
    let text = extract_text_simple(&chars, &TextExtractOptions::default());
    assert_eq!(text, "Hi");
}

#[test]
fn test_multiline() {
    let chars = vec![
        make_char("A", 72_000, 80_000, 100_000),
        make_char("B", 72_000, 80_000, 120_000),
    ];
    let text = extract_text_simple(&chars, &TextExtractOptions::default());
    assert_eq!(text, "A\nB");
}

#[test]
fn test_gap_inserts_space() {
    let chars = vec![
        make_char("A", 10_000, 16_000, 50_000),
        make_char("B", 40_000, 46_000, 50_000),
    ];
    let text = extract_text_simple(&chars, &TextExtractOptions::default());
    assert_eq!(text, "A B");
}

#[test]
fn test_search_case_insensitive() {
    let mut page = Page::new(1, 612_000, 792_000, 0);
    page.chars = vec![
        make_char("H", 72_000, 80_000, 100_000),
        make_char("i", 80_000, 84_000, 100_000),
    ];
    let matches = ripdoc::search::search_page(&page, "hi", false).unwrap();
    assert_eq!(matches.len(), 1);
    assert_eq!(matches[0].page_number, 1);
    assert_eq!(matches[0].char_indices.len(), 2);
    assert_eq!(matches[0].text, "Hi");
    assert_eq!(matches[0].bbox.x0, 72_000);
    assert_eq!(matches[0].bbox.x1, 84_000);

    let none = ripdoc::search::search_page(&page, "bye", false).unwrap();
    assert_eq!(none.len(), 0);
}

#[test]
fn test_crop_and_within() {
    let mut page = Page::new(1, 612_000, 792_000, 0);
    page.chars = vec![
        make_char("A", 10_000, 16_000, 50_000),
        make_char("B", 400_000, 406_000, 50_000),
    ];
    let cropped = page.crop(BBox::new(0, 0, 100_000, 100_000));
    assert_eq!(cropped.chars.len(), 1);
    assert_eq!(cropped.chars[0].text, "A");

    let inside = page.within_bbox(BBox::new(0, 0, 100_000, 100_000));
    assert_eq!(inside.chars.len(), 1);

    let tight = page.within_bbox(BBox::new(11_000, 0, 100_000, 100_000));
    assert_eq!(tight.chars.len(), 0);
}
