use ripdoc::fonts::FontDict;
use ripdoc::interp::ContentStreamInterpreter;
use ripdoc::ops::{Arg, Op, Resources, TjItem};
use ripdoc::textextract::{extract_text, TextExtractOptions};

fn op(name: &[u8], args: Vec<Arg>) -> Op {
    Op { name: name.to_vec(), args }
}

fn simple_font(base: &str, first: u32, count: usize, width: i64) -> FontDict {
    FontDict {
        base_font: base.to_string(),
        subtype: b"Type1".to_vec(),
        encoding: Some(ripdoc::fonts::EncodingSpec::Named(b"WinAnsiEncoding".to_vec())),
        first_char: first,
        widths: Some(vec![width; count]),
        missing_width: None,
        descendant: None,
        to_unicode: None,
    }
}

#[test]
fn test_basic_text_scenario() {
    // BT /F1 12 Tf 72 720 Td (Hi) Tj ET on a 612 x 792 page.
    let mut res = Resources::empty();
    res.fonts.push(("F1".to_string(), simple_font("Helvetica", 0, 256, 500_000)));
    let ops = vec![
        op(b"BT", vec![]),
        op(b"Tf", vec![Arg::Name(b"F1".to_vec()), Arg::Num(12_000)]),
        op(b"Td", vec![Arg::Num(72_000), Arg::Num(720_000)]),
        op(b"Tj", vec![Arg::Str(b"Hi".to_vec())]),
        op(b"ET", vec![]),
    ];
    let mut it = ContentStreamInterpreter::new(792_000, 0);
    it.load_fonts(&res);
    it.process_ops(&ops, &res, 16);

    assert_eq!(it.chars.len(), 2);
    // top = 792 - 720 - 12 = 60 pt; width = 12 * 500/1000 = 6 pt.
    assert_eq!(it.chars[0].top, 60_000);
    assert_eq!(it.chars[0].x0, 72_000);
    assert_eq!(it.chars[0].x1, 78_000);
    assert_eq!(it.chars[1].x0, 78_000);
    assert_eq!(it.chars[1].x1, 84_000);
    assert_eq!(it.chars[0].text, "H");
    assert_eq!(it.chars[1].text, "i");
    assert_eq!(it.chars[0].size, 12_000);

    let text = extract_text(&it.chars, 612_000, 792_000, &TextExtractOptions::default());
    assert_eq!(text, "Hi");
}

#[test]
fn test_kerning_in_tj() {
    // [(A) -120 (V)] TJ at 10 pt, 100% scaling: the second glyph starts
    // width(A)*10/1000 + 120*10/1000 after the first.
    let mut res = Resources::empty();
    res.fonts.push(("F1".to_string(), simple_font("Helvetica", 0, 256, 722_000)));
    let items = vec![
        TjItem::Text(b"A".to_vec()),
        TjItem::Offset(-120_000),
        TjItem::Text(b"V".to_vec()),
    ];
    let ops = vec![
        op(b"BT", vec![]),
        op(b"Tf", vec![Arg::Name(b"F1".to_vec()), Arg::Num(10_000)]),
        op(b"TJ", vec![Arg::TjArr(items)]),
        op(b"ET", vec![]),
    ];
    let mut it = ContentStreamInterpreter::new(792_000, 0);
    it.load_fonts(&res);
    it.process_ops(&ops, &res, 16);

    assert_eq!(it.chars.len(), 2);
    // 722*10/1000 + 120*10/1000 = 7.22 + 1.2 = 8.42 pt.
    assert_eq!(it.chars[1].x0 - it.chars[0].x0, 8_420);
}

#[test]
fn test_to_unicode_override() {
    // Identity-encoded composite font with <0041> mapped to U+FB01.
    let cmap = b"1 beginbfchar\n<0041> <FB01>\nendbfchar\n".to_vec();
    let font = FontDict {
        base_font: "Composite".to_string(),
        subtype: b"Type0".to_vec(),
        encoding: Some(ripdoc::fonts::EncodingSpec::Named(b"Identity-H".to_vec())),
        first_char: 0,
        widths: None,
        missing_width: None,
        descendant: Some(ripdoc::fonts::CidFontDict { dw: Some(1_000_000), w: vec![] }),
        to_unicode: Some(cmap),
    };
    let mut res = Resources::empty();
    res.fonts.push(("F1".to_string(), font));
    let ops = vec![
        op(b"BT", vec![]),
        op(b"Tf", vec![Arg::Name(b"F1".to_vec()), Arg::Num(12_000)]),
        op(b"Tj", vec![Arg::Str(vec![0x00, 0x41])]),
        op(b"ET", vec![]),
    ];
    let mut it = ContentStreamInterpreter::new(792_000, 0);
    it.load_fonts(&res);
    it.process_ops(&ops, &res, 16);

    assert_eq!(it.chars.len(), 1);
    assert_eq!(it.chars[0].text, "\u{FB01}");
    assert_eq!(it.chars[0].size, 12_000);
}

#[test]
fn test_graphics_stack_balance() {
    let res = Resources::empty();
    let ops = vec![
        op(b"q", vec![]),
        op(b"q", vec![]),
        op(b"Q", vec![]),
        op(b"Q", vec![]),
    ];
    let mut it = ContentStreamInterpreter::new(792_000, 0);
    it.process_ops(&ops, &res, 16);
    assert_eq!(it.stack.len(), 0);

    // An unmatched restore is a no-op, not an underflow.
    let mut it2 = ContentStreamInterpreter::new(792_000, 0);
    it2.process_ops(&vec![op(b"Q", vec![])], &res, 16);
    assert_eq!(it2.stack.len(), 0);
}

#[test]
fn test_save_restore_state() {
    let res = Resources::empty();
    let ops = vec![
        op(b"w", vec![Arg::Num(5_000)]),
        op(b"q", vec![]),
        op(b"w", vec![Arg::Num(9_000)]),
        op(b"Q", vec![]),
    ];
    let mut it = ContentStreamInterpreter::new(792_000, 0);
    it.process_ops(&ops, &res, 16);
    assert_eq!(it.gs.line_width, 5_000);
}

#[test]
fn test_empty_page_yields_nothing() {
    let res = Resources::empty();
    let ops: Vec<Op> = vec![];
    let mut it = ContentStreamInterpreter::new(792_000, 0);
    it.process_ops(&ops, &res, 16);
    assert_eq!(it.chars.len(), 0);
    assert_eq!(it.lines.len(), 0);
    assert_eq!(it.rects.len(), 0);
    assert_eq!(it.curves.len(), 0);
    let text = extract_text(&it.chars, 612_000, 792_000, &TextExtractOptions::default());
    assert_eq!(text, "");
}

#[test]
fn test_paths_without_fonts() {
    // A page whose content draws only paths yields no characters.
    let res = Resources::empty();
    let ops = vec![
        op(b"re", vec![Arg::Num(0), Arg::Num(0), Arg::Num(100_000), Arg::Num(50_000)]),
        op(b"S", vec![]),
        op(b"m", vec![Arg::Num(0), Arg::Num(0)]),
        op(b"l", vec![Arg::Num(100_000), Arg::Num(0)]),
        op(b"S", vec![]),
    ];
    let mut it = ContentStreamInterpreter::new(792_000, 0);
    it.process_ops(&ops, &res, 16);
    assert_eq!(it.chars.len(), 0);
    assert_eq!(it.rects.len(), 1);
    assert_eq!(it.lines.len(), 1);
    // The rectangle flipped to top-left coordinates: top = 792 - 50.
    assert_eq!(it.rects[0].top, 742_000);
    assert_eq!(it.rects[0].bottom, 792_000);
}

#[test]
fn test_doctop_offset() {
    let mut res = Resources::empty();
    res.fonts.push(("F1".to_string(), simple_font("Helvetica", 0, 256, 500_000)));
    let ops = vec![
        op(b"BT", vec![]),
        op(b"Tf", vec![Arg::Name(b"F1".to_vec()), Arg::Num(12_000)]),
        op(b"Td", vec![Arg::Num(72_000), Arg::Num(720_000)]),
        op(b"Tj", vec![Arg::Str(b"x".to_vec())]),
        op(b"ET", vec![]),
    ];
    let mut it = ContentStreamInterpreter::new(792_000, 500_000);
    it.load_fonts(&res);
    it.process_ops(&ops, &res, 16);
    assert_eq!(it.chars.len(), 1);
    assert_eq!(it.chars[0].doctop, it.chars[0].top + 500_000);
}

#[test]
fn test_cm_concatenation() {
    // cm 2 0 0 2 0 0 doubles coordinates before the text is placed.
    let mut res = Resources::empty();
    res.fonts.push(("F1".to_string(), simple_font("Helvetica", 0, 256, 500_000)));
    let ops = vec![
        op(b"cm", vec![
            Arg::Num(2_000), Arg::Num(0), Arg::Num(0), Arg::Num(2_000), Arg::Num(0), Arg::Num(0),
        ]),
        op(b"BT", vec![]),
        op(b"Tf", vec![Arg::Name(b"F1".to_vec()), Arg::Num(12_000)]),
        op(b"Td", vec![Arg::Num(50_000), Arg::Num(100_000)]),
        op(b"Tj", vec![Arg::Str(b"x".to_vec())]),
        op(b"ET", vec![]),
    ];
    let mut it = ContentStreamInterpreter::new(792_000, 0);
    it.load_fonts(&res);
    it.process_ops(&ops, &res, 16);
    assert_eq!(it.chars.len(), 1);
    assert_eq!(it.chars[0].x0, 100_000);
    assert_eq!(it.chars[0].size, 24_000);
}
