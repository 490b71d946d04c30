use vstd::prelude::*;
use crate::page::Page;
use crate::settings::TableSettings;
use crate::sort::sort_by_key;
use crate::table::Table;
use crate::textextract::{extract_text, TextExtractOptions};
use crate::trusted::push_char;

verus! {

/// Detect this page's tables and render each as comma-separated text.
/// An output serializer: its exact shape is glue around `Table::to_csv`.
pub fn tables_to_csv(page: &Page, table_settings: &TableSettings) -> (r: Vec<String>)
    requires
        page.chars@.len() < 0x4000_0000_0000_0000,
{
    let tables = page.extract_tables(table_settings);
    let mut r: Vec<String> = Vec::new();
    let mut i: usize = 0;
    while i < tables.len()
        invariant
            0 <= i <= tables@.len(),
        decreases tables@.len() - i,
    {
        r.push(tables[i].to_csv());
        i += 1;
    }
    r
}

/// Detect this page's tables and render them as one hypertext fragment.
/// An output serializer: its exact shape is glue around `Table::to_html`.
pub fn tables_to_html(page: &Page, table_settings: &TableSettings) -> (r: String)
    requires
        page.chars@.len() < 0x4000_0000_0000_0000,
{
    let tables = page.extract_tables(table_settings);
    let mut r = String::new();
    let mut i: usize = 0;
    while i < tables.len()
        invariant
            0 <= i <= tables@.len(),
        decreases tables@.len() - i,
    {
        if i > 0 {
            r.append("\n\n");
        }
        let html = tables[i].to_html();
        r.append(html.as_str());
        i += 1;
    }
    r
}

/// Render a page as plain markup: its tables in vertical order, with the
/// text between them. An output serializer: its exact shape is glue
/// around the verified extraction and detection entry points.
pub fn page_to_markdown(page: &Page, table_settings: &TableSettings) -> (r: String)
    requires
        page.chars@.len() < 0x4000_0000_0000_0000,
{
    let opts = TextExtractOptions::default();
    let tables = page.extract_tables(table_settings);
    if tables.len() == 0 {
        return page.extract_text(&opts);
    }

    // Walk the tables top to bottom.
    let ntab = tables.len();
    if ntab >= 0x7FFF_FFFF {
        return page.extract_text(&opts);
    }
    let mut order: Vec<(i64, i64)> = Vec::new();
    let mut i: usize = 0;
    while i < ntab
        invariant
            ntab == tables@.len(),
            ntab < 0x7FFF_FFFF,
            0 <= i <= ntab,
            order@.len() == i,
            forall|k: int| 0 <= k < i ==> 0 <= (#[trigger] order@[k]).0 < tables@.len(),
        decreases ntab - i,
    {
        proof {
            assert(i as int <= i64::MAX as int);
        }
        order.push((#[verifier::truncate] (i as i64), tables[i].bbox.top));
        proof {
            assert(order@[i as int].0 == i as int);
        }
        i += 1;
    }
    let ghost order0 = order@;
    sort_by_key(&mut order);
    proof {
        broadcast use vstd::seq_lib::group_to_multiset_ensures;
        assert forall|k: int| 0 <= k < order@.len()
            implies 0 <= (#[trigger] order@[k]).0 < tables@.len() by {
            assert(order0.contains(order@[k])) by {
                assert(order@.to_multiset().count(order@[k]) > 0);
            }
            let j = choose|j: int| 0 <= j < order0.len() && order0[j] == order@[k];
            assert(order0[j] == order@[k]);
        }
    }

    let mut result = String::new();
    let mut current_y: i64 = 0;
    let mut t: usize = 0;
    while t < order.len()
        invariant
            0 <= t <= order@.len(),
            forall|k: int| 0 <= k < order@.len() ==> 0 <= (#[trigger] order@[k]).0 < tables@.len(),
        decreases order@.len() - t,
    {
        let idx = #[verifier::truncate] (order[t].0 as usize);
        proof {
            assert(0 <= order@[t as int].0 < tables@.len());
        }
        let table = &tables[idx];
        let above = slice_chars(page, current_y, Some(table.bbox.top));
        if above.chars.len() > 0 {
            let text = above.extract_text(&opts);
            if text.as_str().unicode_len() > 0 {
                result.append(text.as_str());
                result.append("\n\n");
            }
        }
        let md = table.to_markdown();
        result.append(md.as_str());
        push_char(&mut result, '\n');
        current_y = table.bbox.bottom;
        t += 1;
    }

    let below = slice_chars(page, current_y, None);
    if below.chars.len() > 0 {
        let text = below.extract_text(&opts);
        if text.as_str().unicode_len() > 0 {
            result.append(text.as_str());
            push_char(&mut result, '\n');
        }
    }
    result
}

/// A derived page holding the characters of one vertical band.
fn slice_chars(page: &Page, from_y: i64, to_y: Option<i64>) -> (r: Page)
    ensures
        r.chars@.len() <= page.chars@.len(),
{
    let mut r = Page::new(page.page_number, page.width, page.height, page.doctop_offset);
    let mut i: usize = 0;
    while i < page.chars.len()
        invariant
            0 <= i <= page.chars@.len(),
            r.chars@.len() <= i,
        decreases page.chars@.len() - i,
    {
        let c = &page.chars[i];
        let keep = c.top >= from_y && (match to_y {
            Some(y) => c.bottom <= y,
            None => true,
        });
        if keep {
            r.chars.push(c.clone());
        }
        i += 1;
    }
    r
}

} // verus!
