use vstd::prelude::*;
use crate::objects::Char;
use crate::trusted::{char_is_whitespace, is_unicode_white, push_char};
use crate::words::{is_blank_text, sort_char_indices};
use crate::fx::div_floor_i128;

verus! {

/// Options for text extraction, in fixed-point units.
#[derive(Debug, Clone)]
pub struct TextExtractOptions {
    /// Render onto a fixed-width character grid.
    pub layout: bool,
    pub x_tolerance: i64,
    pub y_tolerance: i64,
    /// Points per grid column in layout mode.
    pub x_density: i64,
    /// Points per grid row in layout mode.
    pub y_density: i64,
    /// Keep whitespace-only characters.
    pub keep_blank_chars: bool,
}

impl Default for TextExtractOptions {
    /// The defaults: flowing text, 3 pt tolerances, a 7.25 x 13 pt grid.
    fn default() -> (r: Self)
        ensures
            !r.layout,
            r.x_tolerance == 3 * crate::fx::SCALE,
            r.y_tolerance == 3 * crate::fx::SCALE,
            r.x_density == 7250,
            r.y_density == 13 * crate::fx::SCALE,
            !r.keep_blank_chars,
    {
        TextExtractOptions {
            layout: false,
            x_tolerance: 3 * crate::fx::SCALE,
            y_tolerance: 3 * crate::fx::SCALE,
            x_density: 7250,
            y_density: 13 * crate::fx::SCALE,
            keep_blank_chars: false,
        }
    }
}

/// Drop trailing space characters.
fn trim_end_spaces(s: &str) -> (r: String)
    ensures
        r@.len() <= s@.len(),
        r@ == s@.subrange(0, r@.len() as int),
        r@.len() > 0 ==> r@.last() != ' ',
        forall|k: int| r@.len() <= k < s@.len() ==> s@[k] == ' ',
{
    let n = s.unicode_len();
    let mut k: usize = n;
    loop
        invariant
            n == s@.len(),
            0 <= k <= n,
            forall|t: int| k <= t < n ==> s@[t] == ' ',
        ensures
            0 <= k <= n,
            forall|t: int| k <= t < n ==> s@[t] == ' ',
            k > 0 ==> s@[k - 1] != ' ',
        decreases k,
    {
        if k == 0 {
            break;
        }
        if s.get_char(k - 1) != ' ' {
            break;
        }
        k -= 1;
    }
    let cut = s.substring_char(0, k);
    let r = String::from_str(cut);
    proof {
        assert(r@ == s@.subrange(0, k as int));
        if k > 0 {
            assert(r@.last() == s@[k - 1]);
        }
    }
    r
}

/// Drop trailing whitespace of any kind.
fn trim_end_white(s: &str) -> (r: String)
    ensures
        r@.len() <= s@.len(),
        r@ == s@.subrange(0, r@.len() as int),
        r@.len() > 0 ==> !is_unicode_white(r@.last()),
{
    let n = s.unicode_len();
    let mut k: usize = n;
    loop
        invariant
            n == s@.len(),
            0 <= k <= n,
        ensures
            0 <= k <= n,
            k > 0 ==> !is_unicode_white(s@[k - 1]),
        decreases k,
    {
        if k == 0 {
            break;
        }
        if !char_is_whitespace(s.get_char(k - 1)) {
            break;
        }
        k -= 1;
    }
    let cut = s.substring_char(0, k);
    let r = String::from_str(cut);
    proof {
        assert(r@ == s@.subrange(0, k as int));
        if k > 0 {
            assert(r@.last() == s@[k - 1]);
        }
    }
    r
}

/// Extract a page's text: flowing reading order, or a positional grid in
/// layout mode.
pub fn extract_text(chars: &Vec<Char>, page_width: i64, page_height: i64, options: &TextExtractOptions) -> (r: String)
    ensures
        chars@.len() == 0 ==> r@ == Seq::<char>::empty(),
        r@.len() > 0 ==> !is_unicode_white(r@.last()),
{
    if chars.len() == 0 {
        return String::new();
    }
    if options.layout {
        extract_text_layout(chars, page_width, page_height, options)
    } else {
        extract_text_simple(chars, options)
    }
}

/// Flowing extraction: characters in reading order, line breaks on
/// vertical jumps, single spaces across horizontal gaps, trailing
/// whitespace stripped.
pub fn extract_text_simple(chars: &Vec<Char>, options: &TextExtractOptions) -> (r: String)
    ensures
        chars@.len() == 0 ==> r@ == Seq::<char>::empty(),
        r@.len() > 0 ==> !is_unicode_white(r@.last()),
{
    let n = chars.len();
    if n == 0 {
        return String::new();
    }
    let mut order: Vec<usize> = Vec::new();
    let mut i: usize = 0;
    while i < n
        invariant
            i <= n,
            n == chars@.len(),
            order@.len() == i,
            forall|p: int| 0 <= p < i ==> (#[trigger] order@[p]) < n,
        decreases n - i,
    {
        order.push(i);
        i += 1;
    }
    sort_char_indices(chars, &mut order);

    let mut result = String::new();
    let mut current_line_top: i64 = chars[order[0]].top;
    let mut last_x1: Option<i64> = None;
    let mut p: usize = 0;
    while p < n
        invariant
            n == chars@.len(),
            n == order@.len(),
            0 <= p <= n,
            forall|t: int| 0 <= t < order@.len() ==> (#[trigger] order@[t]) < n,
        decreases n - p,
    {
        let ci = order[p];
        let ch = &chars[ci];
        let blank = is_blank_text(ch.text.as_str());
        let keep = options.keep_blank_chars || !blank || str_is_single_space(ch.text.as_str());
        if keep {
            let dy: i128 = ch.top as i128 - current_line_top as i128;
            if dy > options.y_tolerance as i128 || dy < -(options.y_tolerance as i128) {
                let trimmed = trim_end_spaces(result.as_str());
                result = trimmed;
                push_char(&mut result, '\n');
                current_line_top = ch.top;
                last_x1 = None;
            } else {
                match last_x1 {
                    Some(prev) => {
                        let gap: i128 = ch.x0 as i128 - prev as i128;
                        if gap > options.x_tolerance as i128 {
                            push_char(&mut result, ' ');
                        }
                    },
                    None => {},
                }
            }
            result.append(ch.text.as_str());
            last_x1 = Some(ch.x1);
        }
        p += 1;
    }
    trim_end_white(result.as_str())
}

/// Whether a text is exactly one space.
fn str_is_single_space(s: &str) -> (r: bool)
    ensures
        r == (s@ == " "@),
{
    crate::encoding::str_eq(s, " ")
}

/// Layout extraction: group characters into lines by the y tolerance and
/// paint each line onto a character grid at columns derived from x
/// positions; trailing blanks are trimmed.
pub fn extract_text_layout(chars: &Vec<Char>, page_width: i64, page_height: i64, options: &TextExtractOptions) -> (r: String)
    ensures
        chars@.len() == 0 ==> r@ == Seq::<char>::empty(),
        r@.len() > 0 ==> !is_unicode_white(r@.last()),
{
    let n = chars.len();
    if n == 0 {
        return String::new();
    }
    if options.x_density <= 0 || page_width <= 0 {
        return String::new();
    }
    let cols_i: i128 = (page_width as i128 + options.x_density as i128 - 1)
        / (options.x_density as i128);
    let cols: usize = if cols_i > 100_000 {
        100_000
    } else if cols_i < 1 {
        1
    } else {
        cols_i as usize
    };

    let mut order: Vec<usize> = Vec::new();
    let mut i: usize = 0;
    while i < n
        invariant
            i <= n,
            n == chars@.len(),
            order@.len() == i,
            forall|p: int| 0 <= p < i ==> (#[trigger] order@[p]) < n,
        decreases n - i,
    {
        order.push(i);
        i += 1;
    }
    sort_char_indices(chars, &mut order);

    let mut out_lines: Vec<String> = Vec::new();
    let mut grid: Vec<char> = new_grid(cols);
    let mut line_used = false;
    let mut current_top: i64 = chars[order[0]].top;
    let mut p: usize = 0;
    while p < n
        invariant
            n == chars@.len(),
            n == order@.len(),
            0 <= p <= n,
            grid@.len() == cols + 1,
            1 <= cols <= 100_000,
            options.x_density > 0,
            forall|t: int| 0 <= t < order@.len() ==> (#[trigger] order@[t]) < n,
        decreases n - p,
    {
        let ci = order[p];
        let ch = &chars[ci];
        let dy: i128 = ch.top as i128 - current_top as i128;
        if dy > options.y_tolerance as i128 || dy < -(options.y_tolerance as i128) {
            out_lines.push(grid_to_line(&grid));
            grid = new_grid(cols);
            current_top = ch.top;
        }
        let col_i: i128 = div_floor_i128(
            2 * ch.x0 as i128 + options.x_density as i128,
            2 * options.x_density as i128,
        );
        if col_i >= 0 && col_i <= cols as i128 {
            let mut col: usize = col_i as usize;
            let text = &ch.text;
            let tn = text.as_str().unicode_len();
            let mut t: usize = 0;
            while t < tn
                invariant
                    tn == text@.len(),
                    0 <= t <= tn,
                    grid@.len() == cols + 1,
                    col <= cols + 1,
                decreases tn - t,
            {
                if col < grid.len() {
                    let c = text.as_str().get_char(t);
                    grid.set(col, c);
                    col += 1;
                } else {
                    t = tn;
                    break;
                }
                t += 1;
            }
        }
        p += 1;
    }
    out_lines.push(grid_to_line(&grid));

    // Drop trailing empty lines, then join.
    let mut m = out_lines.len();
    while m > 0
        invariant
            m <= out_lines@.len(),
        decreases m,
    {
        if out_lines[m - 1].as_str().unicode_len() > 0 {
            break;
        }
        m -= 1;
    }
    let mut result = String::new();
    let mut k: usize = 0;
    while k < m
        invariant
            m <= out_lines@.len(),
            0 <= k <= m,
        decreases m - k,
    {
        if k > 0 {
            push_char(&mut result, '\n');
        }
        result.append(out_lines[k].as_str());
        k += 1;
    }
    trim_end_white(result.as_str())
}

/// A fresh grid row of spaces.
fn new_grid(cols: usize) -> (r: Vec<char>)
    requires
        cols < 1_000_000,
    ensures
        r@.len() == cols + 1,
{
    let mut r: Vec<char> = Vec::new();
    let mut i: usize = 0;
    while i < cols + 1
        invariant
            cols < 1_000_000,
            r@.len() == i,
            i <= cols + 1,
        decreases cols + 1 - i,
    {
        r.push(' ');
        i += 1;
    }
    r
}

/// One grid row as text, trailing spaces removed.
fn grid_to_line(grid: &Vec<char>) -> (r: String)
    ensures
        r@.len() > 0 ==> r@.last() != ' ',
{
    let mut s = String::new();
    let mut i: usize = 0;
    while i < grid.len()
        invariant
            0 <= i <= grid@.len(),
        decreases grid@.len() - i,
    {
        push_char(&mut s, grid[i]);
        i += 1;
    }
    trim_end_spaces(s.as_str())
}

} // verus!
