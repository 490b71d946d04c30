use ripdoc::fonts::FontDict;
use ripdoc::Error;
use ripdoc::objects::Char;
use ripdoc::output::page_to_markdown;
use ripdoc::page::Page;
use ripdoc::readingorder::determine_reading_order;
use ripdoc::settings::TableSettings;
use ripdoc::structure::{StructureNode, StructureTree};
use ripdoc::interp::ContentStreamInterpreter;
use ripdoc::matrix::Matrix;
use ripdoc::objects::Color;
use ripdoc::ops::{Arg, FormXObject, Op, Resources};
use ripdoc::textextract::{extract_text, TextExtractOptions};

fn op(name: &[u8], args: Vec<Arg>) -> Op {
    Op { name: name.to_vec(), args }
}

fn helv() -> FontDict {
    FontDict {
        base_font: "Helvetica".to_string(),
        subtype: b"Type1".to_vec(),
        encoding: Some(ripdoc::fonts::EncodingSpec::Named(b"WinAnsiEncoding".to_vec())),
        first_char: 0,
        widths: Some(vec![500_000; 256]),
        missing_width: None,
        descendant: None,
        to_unicode: None,
    }
}

#[test]
fn test_curve_and_colors() {
    let res = Resources::empty();
    let ops = vec![
        op(b"rg", vec![Arg::Num(1_000), Arg::Num(0), Arg::Num(0)]),
        op(b"RG", vec![Arg::Num(0), Arg::Num(0), Arg::Num(1_000)]),
        op(b"m", vec![Arg::Num(0), Arg::Num(0)]),
        op(b"c", vec![
            Arg::Num(10_000), Arg::Num(10_000), Arg::Num(20_000), Arg::Num(10_000),
            Arg::Num(30_000), Arg::Num(0),
        ]),
        op(b"S", vec![]),
    ];
    let mut it = ContentStreamInterpreter::new(100_000, 0);
    it.process_ops(&ops, &res, 16);
    assert_eq!(it.curves.len(), 1);
    assert_eq!(it.curves[0].points.len(), 4);
    // Control points flipped into top-left coordinates.
    assert_eq!(it.curves[0].points[0], (0, 100_000));
    assert_eq!(it.curves[0].points[3], (30_000, 100_000));
    assert_eq!(it.curves[0].stroking_color, Some(Color::RGB(0, 0, 1_000)));
    assert_eq!(it.curves[0].non_stroking_color, None);
}

#[test]
fn test_form_xobject() {
    // A form that draws text with its own matrix runs inside its own
    // saved state.
    let mut inner = Resources::empty();
    inner.fonts.push(("F1".to_string(), helv()));
    let form_ops = vec![
        op(b"BT", vec![]),
        op(b"Tf", vec![Arg::Name(b"F1".to_vec()), Arg::Num(12_000)]),
        op(b"Td", vec![Arg::Num(10_000), Arg::Num(10_000)]),
        op(b"Tj", vec![Arg::Str(b"x".to_vec())]),
        op(b"ET", vec![]),
    ];
    let form = FormXObject {
        matrix: Some(Matrix::translate(50_000, 0)),
        resources: Some(Box::new(inner)),
        ops: form_ops,
    };
    let mut res = Resources::empty();
    res.forms.push((b"X1".to_vec(), form));
    let ops = vec![op(b"Do", vec![Arg::Name(b"X1".to_vec())])];
    let mut it = ContentStreamInterpreter::new(100_000, 0);
    it.process_ops(&ops, &res, 16);
    assert_eq!(it.chars.len(), 1);
    assert_eq!(it.chars[0].x0, 60_000);
    assert_eq!(it.stack.len(), 0);
}

#[test]
fn test_quote_operators() {
    let mut res = Resources::empty();
    res.fonts.push(("F1".to_string(), helv()));
    let ops = vec![
        op(b"BT", vec![]),
        op(b"Tf", vec![Arg::Name(b"F1".to_vec()), Arg::Num(10_000)]),
        op(b"TL", vec![Arg::Num(14_000)]),
        op(b"Td", vec![Arg::Num(0), Arg::Num(50_000)]),
        op(b"Tj", vec![Arg::Str(b"a".to_vec())]),
        op(b"'", vec![Arg::Str(b"b".to_vec())]),
        op(b"ET", vec![]),
    ];
    let mut it = ContentStreamInterpreter::new(100_000, 0);
    it.process_ops(&ops, &res, 16);
    assert_eq!(it.chars.len(), 2);
    // The second glyph sits one leading below the first.
    assert_eq!(it.chars[1].bottom - it.chars[0].bottom, 14_000);
    assert_eq!(it.chars[1].x0, 0);
}

#[test]
fn test_layout_mode() {
    let mut res = Resources::empty();
    res.fonts.push(("F1".to_string(), helv()));
    let ops = vec![
        op(b"BT", vec![]),
        op(b"Tf", vec![Arg::Name(b"F1".to_vec()), Arg::Num(10_000)]),
        op(b"Td", vec![Arg::Num(0), Arg::Num(50_000)]),
        op(b"Tj", vec![Arg::Str(b"ab".to_vec())]),
        op(b"ET", vec![]),
    ];
    let mut it = ContentStreamInterpreter::new(100_000, 0);
    it.process_ops(&ops, &res, 16);
    let mut opts = TextExtractOptions::default();
    opts.layout = true;
    let text = extract_text(&it.chars, 100_000, 100_000, &opts);
    assert_eq!(text, "ab");
}

#[test]
fn test_reading_order_two_columns() {
    let mk = |x0: i64, top: i64| Char {
        text: "x".to_string(),
        fontname: String::new(),
        size: 10_000,
        x0,
        x1: x0 + 10_000,
        top,
        bottom: top + 10_000,
        doctop: top,
        matrix: Matrix::identity(),
        upright: true,
        stroking_color: None,
        non_stroking_color: None,
        adv: 10_000,
    };
    // Two columns separated by a wide gutter; four glyphs per column.
    let mut chars = Vec::new();
    for row in 0..4i64 {
        chars.push(mk(0, row * 15_000));
        chars.push(mk(200_000, row * 15_000));
    }
    let bbox = ripdoc::bbox::BBox::new(0, 0, 300_000, 100_000);
    let blocks = determine_reading_order(&chars, &bbox);
    assert!(blocks.len() >= 2);
    for block in &blocks {
        assert!(!block.is_empty());
        for &i in block {
            assert!(i < chars.len());
        }
    }
}

#[test]
fn test_page_markdown() {
    let mut it = ContentStreamInterpreter::new(100_000, 0);
    let mut res = Resources::empty();
    res.fonts.push(("F1".to_string(), helv()));
    let ops = vec![
        op(b"BT", vec![]),
        op(b"Tf", vec![Arg::Name(b"F1".to_vec()), Arg::Num(10_000)]),
        op(b"Td", vec![Arg::Num(0), Arg::Num(50_000)]),
        op(b"Tj", vec![Arg::Str(b"hello".to_vec())]),
        op(b"ET", vec![]),
    ];
    it.process_ops(&ops, &res, 16);
    let mut page = Page::new(1, 100_000, 100_000, 0);
    page.chars = it.chars;
    let md = page_to_markdown(&page, &TableSettings::default());
    assert_eq!(md, "hello");
}

#[test]
fn test_structure_tree_size() {
    let leaf = StructureNode {
        struct_type: "P".to_string(),
        children: vec![],
        page: Some(1),
        content_ids: vec![0],
    };
    let root = StructureNode {
        struct_type: "Document".to_string(),
        children: vec![leaf],
        page: None,
        content_ids: vec![],
    };
    let tree = StructureTree { root: Some(root) };
    assert_eq!(tree.size(), 2);
    let empty = StructureTree { root: None };
    assert_eq!(empty.size(), 0);
}

#[test]
fn test_error_messages() {
    assert_eq!(Error::PageNotFound(7).message(), "page not found");
    assert_eq!(Error::Font("no widths".to_string()).message(), "font error: no widths");
    assert_eq!(
        Error::ContentStream("bad stream".to_string()).message(),
        "content stream error: bad stream",
    );
}
