use ripdoc::bbox::BBox;
use ripdoc::detect::{cells_adjacent, has_point, CellRect};
use ripdoc::edges::Edge;
use ripdoc::matrix::Matrix;
use ripdoc::mergecells::detect_merged_cells;
use ripdoc::objects::{Char, Rect};
use ripdoc::page::Page;
use ripdoc::settings::{Strategy, TableSettings};
use ripdoc::table::{Table, TableCell};

fn letter_at(text: &str, x0: i64, top: i64) -> Char {
    Char {
        text: text.to_string(),
        fontname: "Helvetica".to_string(),
        size: 12_000,
        x0,
        x1: x0 + 10_000,
        top,
        bottom: top + 12_000,
        doctop: top,
        matrix: Matrix { a: 12_000, b: 0, c: 0, d: 12_000, e: x0, f: 0 },
        upright: true,
        stroking_color: None,
        non_stroking_color: None,
        adv: 10_000,
    }
}

fn cell_rect(x0: i64, top: i64, x1: i64, bottom: i64) -> Rect {
    Rect {
        x0,
        top,
        x1,
        bottom,
        width: x1 - x0,
        height: bottom - top,
        linewidth: 1_000,
        stroking_color: None,
        non_stroking_color: None,
    }
}

/// A page holding a 3x3 grid of 100 pt cells with the letters A..I.
fn nine_cell_page() -> Page {
    let mut page = Page::new(1, 612_000, 792_000, 0);
    let letters = ["A", "B", "C", "D", "E", "F", "G", "H", "I"];
    let mut idx = 0;
    for row in 0..3i64 {
        for col in 0..3i64 {
            let x0 = col * 100_000;
            let top = row * 100_000;
            page.rects.push(cell_rect(x0, top, x0 + 100_000, top + 100_000));
            page.chars.push(letter_at(letters[idx], x0 + 45_000, top + 44_000));
            idx += 1;
        }
    }
    page
}

#[test]
fn test_rectangle_grid_table() {
    let page = nine_cell_page();
    let tables = page.find_tables(&TableSettings::default());
    assert_eq!(tables.len(), 1);
    assert_eq!(tables[0].row_count, 3);
    assert_eq!(tables[0].col_count, 3);
    let grid = tables[0].to_grid();
    let expect = [["A", "B", "C"], ["D", "E", "F"], ["G", "H", "I"]];
    for r in 0..3 {
        for c in 0..3 {
            assert_eq!(grid[r][c].as_deref(), Some(expect[r][c]));
        }
    }
}

#[test]
fn test_text_strategy_table() {
    // Three rows of three aligned 95 x 45 pt words, no drawn lines.
    let mut page = Page::new(1, 612_000, 792_000, 0);
    for row in 0..3i64 {
        for col in 0..3i64 {
            let x0 = col * 100_000;
            let top = row * 50_000;
            let mut c = letter_at("w", x0, top);
            c.x1 = x0 + 95_000;
            c.bottom = top + 45_000;
            page.chars.push(c);
        }
    }
    let mut settings = TableSettings::default();
    settings.vertical_strategy = Strategy::Text;
    settings.horizontal_strategy = Strategy::Text;
    settings.min_words_vertical = 3;
    settings.intersection_tolerance = 10_000;
    let tables = page.find_tables(&settings);
    assert_eq!(tables.len(), 1);
    assert_eq!(tables[0].row_count, 3);
    assert_eq!(tables[0].col_count, 3);
}

#[test]
fn test_merged_cell_detection() {
    // The nine-cell grid with the vertical edge between the two top-left
    // cells removed: the survivors merge into one wide cell.
    let page = nine_cell_page();
    let mut tables = page.find_tables(&TableSettings::default());
    assert_eq!(tables.len(), 1);
    let mut table = tables.remove(0);

    // Rebuild the lattice edges, leaving out the segment at x = 100 pt
    // between y = 0 and y = 100 pt.
    let mut edges: Vec<Edge> = Vec::new();
    for i in 0..4i64 {
        let x = i * 100_000;
        if i == 1 {
            edges.push(Edge::vertical(x, 100_000, 300_000, 1_000));
        } else {
            edges.push(Edge::vertical(x, 0, 300_000, 1_000));
        }
        let y = i * 100_000;
        if i < 4 {
            edges.push(Edge::horizontal(0, 300_000, y, 1_000));
        }
    }
    detect_merged_cells(&mut table, &edges, 3_000);

    let merged: Vec<&TableCell> = table.cells.iter().filter(|c| c.col_span == 2).collect();
    assert_eq!(merged.len(), 1);
    assert_eq!(merged[0].text, "A B");
    assert_eq!(merged[0].row, 0);
    assert_eq!(merged[0].col, 0);

    let grid = table.to_grid();
    assert_eq!(grid[0][0].as_deref(), Some("A B"));
    assert_eq!(grid[0][1].as_deref(), Some("A B"));
    assert_eq!(grid[1][0].as_deref(), Some("D"));
}

#[test]
fn test_to_grid_projection() {
    let cells = vec![
        TableCell {
            row: 0,
            col: 0,
            row_span: 1,
            col_span: 1,
            text: "x".to_string(),
            bbox: BBox::new(0, 0, 10_000, 10_000),
        },
        TableCell {
            row: 1,
            col: 1,
            row_span: 1,
            col_span: 1,
            text: "y".to_string(),
            bbox: BBox::new(10_000, 10_000, 20_000, 20_000),
        },
    ];
    let table = Table { bbox: BBox::new(0, 0, 20_000, 20_000), cells, row_count: 2, col_count: 2 };
    let grid = table.to_grid();
    assert_eq!(grid.len(), 2);
    assert_eq!(grid[0].len(), 2);
    assert_eq!(grid[0][0].as_deref(), Some("x"));
    assert!(grid[0][1].is_none());
    assert!(grid[1][0].is_none());
    assert_eq!(grid[1][1].as_deref(), Some("y"));
}

/// A minimal comma-separated parser for the round-trip check: splits
/// lines, honouring quoted fields with doubled quotes.
fn parse_csv(s: &str) -> Vec<Vec<String>> {
    let mut rows = Vec::new();
    let mut field = String::new();
    let mut row = Vec::new();
    let mut chars = s.chars().peekable();
    let mut in_quotes = false;
    while let Some(c) = chars.next() {
        if in_quotes {
            if c == '"' {
                if chars.peek() == Some(&'"') {
                    chars.next();
                    field.push('"');
                } else {
                    in_quotes = false;
                }
            } else {
                field.push(c);
            }
        } else if c == '"' {
            in_quotes = true;
        } else if c == ',' {
            row.push(std::mem::take(&mut field));
        } else if c == '\n' {
            row.push(std::mem::take(&mut field));
            rows.push(std::mem::take(&mut row));
        } else {
            field.push(c);
        }
    }
    rows
}

#[test]
fn test_csv_round_trip() {
    let cells = vec![
        TableCell {
            row: 0,
            col: 0,
            row_span: 1,
            col_span: 1,
            text: "plain".to_string(),
            bbox: BBox::new(0, 0, 10_000, 10_000),
        },
        TableCell {
            row: 0,
            col: 1,
            row_span: 1,
            col_span: 1,
            text: "with, comma".to_string(),
            bbox: BBox::new(10_000, 0, 20_000, 10_000),
        },
        TableCell {
            row: 1,
            col: 0,
            row_span: 1,
            col_span: 1,
            text: "say \"hi\"".to_string(),
            bbox: BBox::new(0, 10_000, 10_000, 20_000),
        },
    ];
    let table = Table { bbox: BBox::new(0, 0, 20_000, 20_000), cells, row_count: 2, col_count: 2 };
    let grid = table.to_grid();
    let parsed = parse_csv(&table.to_csv());
    assert_eq!(parsed.len(), grid.len());
    for r in 0..grid.len() {
        assert_eq!(parsed[r].len(), grid[r].len());
        for c in 0..grid[r].len() {
            let expected = grid[r][c].clone().unwrap_or_default();
            assert_eq!(parsed[r][c], expected);
        }
    }
}

#[test]
fn test_markdown_and_html() {
    let cells = vec![TableCell {
        row: 0,
        col: 0,
        row_span: 1,
        col_span: 1,
        text: "v".to_string(),
        bbox: BBox::new(0, 0, 10_000, 10_000),
    }];
    let table = Table { bbox: BBox::new(0, 0, 10_000, 10_000), cells, row_count: 1, col_count: 1 };
    let md = table.to_markdown();
    assert_eq!(md, "| v |\n| --- |\n");
    let html = table.to_html();
    assert!(html.starts_with("<table>"));
    assert!(html.contains("<th>v</th>"));
    assert!(html.ends_with("</table>"));
}

#[test]
fn test_has_point() {
    let points = vec![
        (10_000, 20_000),
        (100_000, 20_000),
        (10_000, 50_000),
        (100_000, 50_000),
    ];
    assert!(has_point(&points, 10_000, 20_000, 1_000, 1_000));
    assert!(!has_point(&points, 50_000, 35_000, 1_000, 1_000));
}

#[test]
fn test_cells_adjacent() {
    let a = CellRect {
        bbox: BBox::new(0, 0, 50_000, 30_000),
        row_idx: 0,
        col_idx: 0,
    };
    let b = CellRect {
        bbox: BBox::new(50_000, 0, 100_000, 30_000),
        row_idx: 0,
        col_idx: 1,
    };
    assert!(cells_adjacent(&a, &b));
}

#[test]
fn test_rect_to_edges_hull() {
    // The four sides cover exactly the rectangle's bounding box.
    let rect = cell_rect(5_000, 7_000, 55_000, 47_000);
    let sides = rect.to_edges();
    assert_eq!(sides.len(), 4);
    let mut x0 = i64::MAX;
    let mut top = i64::MAX;
    let mut x1 = i64::MIN;
    let mut bottom = i64::MIN;
    for s in &sides {
        let b = s.bbox();
        x0 = x0.min(b.x0);
        top = top.min(b.top);
        x1 = x1.max(b.x1);
        bottom = bottom.max(b.bottom);
        assert!(s.x0 == s.x1 || s.y0 == s.y1);
    }
    assert_eq!(BBox::new(x0, top, x1, bottom), rect.bbox());
}
