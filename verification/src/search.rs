use vstd::prelude::*;
use crate::bbox::BBox;
use crate::objects::Char;
use crate::page::Page;
use crate::trusted::lowercase;
use crate::words::sort_char_indices;
use crate::fx::{min_i64, max_i64};

verus! {

/// One match of a search: its text, the hull of the characters that
/// produced it, the page it came from, and those characters' indices.
#[derive(Debug)]
pub struct TextMatch {
    pub text: String,
    pub bbox: BBox,
    pub page_number: usize,
    pub char_indices: Vec<usize>,
}

/// Whether a match's hull covers the boxes of all its contributing
/// characters on the page.
pub open spec fn match_wf(m: TextMatch, chars: Seq<Char>, page_number: usize) -> bool {
    &&& m.page_number == page_number
    &&& m.char_indices@.len() > 0
    &&& forall|t: int|
        0 <= t < m.char_indices@.len() ==> (#[trigger] m.char_indices@[t]) < chars.len()
            && m.bbox.x0 <= chars[m.char_indices@[t] as int].x0
            && chars[m.char_indices@[t] as int].x1 <= m.bbox.x1
            && m.bbox.top <= chars[m.char_indices@[t] as int].top
            && chars[m.char_indices@[t] as int].bottom <= m.bbox.bottom
}

/// Case-insensitive literal search over the reading-order concatenation
/// of the page's character texts. Every reported match names the page,
/// carries at least one contributing character, and bounds them all.
pub fn search_page(page: &Page, pattern: &str, regex: bool) -> (r: Result<Vec<TextMatch>, crate::Error>)
    ensures
        r is Ok,
        forall|m: int|
            0 <= m < r->Ok_0@.len() ==> match_wf(#[trigger] r->Ok_0@[m], page.chars@, page.page_number),
        pattern@.len() == 0 ==> r->Ok_0@.len() == 0,
{
    let mut matches: Vec<TextMatch> = Vec::new();
    let n = page.chars.len();
    if n == 0 || pattern.unicode_len() == 0 {
        return Ok(matches);
    }
    let mut order: Vec<usize> = Vec::new();
    let mut i: usize = 0;
    while i < n
        invariant
            0 <= i <= n,
            n == page.chars@.len(),
            order@.len() == i,
            forall|p: int| 0 <= p < i ==> (#[trigger] order@[p]) < n,
        decreases n - i,
    {
        order.push(i);
        i += 1;
    }
    sort_char_indices(&page.chars, &mut order);

    // The lowered text of each character in reading order, its start
    // offset in the concatenation, and the concatenation itself.
    let mut lows: Vec<String> = Vec::new();
    let mut starts: Vec<usize> = Vec::new();
    let mut hay = String::new();
    let mut t: usize = 0;
    while t < n
        invariant
            0 <= t <= n,
            n == page.chars@.len(),
            n == order@.len(),
            forall|p: int| 0 <= p < order@.len() ==> (#[trigger] order@[p]) < n,
            lows@.len() == t,
            starts@.len() == t,
            forall|p: int| 0 <= p < t ==> (#[trigger] starts@[p]) <= hay@.len(),
        decreases n - t,
    {
        let low = lowercase(page.chars[order[t]].text.as_str());
        if hay.as_str().unicode_len() <= usize::MAX - low.as_str().unicode_len() {
            starts.push(hay.as_str().unicode_len());
            hay.append(low.as_str());
            lows.push(low);
        } else {
            starts.push(hay.as_str().unicode_len());
            lows.push(String::new());
        }
        t += 1;
    }

    let pat_low = lowercase(pattern);
    let plen = pat_low.as_str().unicode_len();
    let hlen = hay.as_str().unicode_len();
    if plen == 0 || plen > hlen {
        return Ok(matches);
    }

    let mut a: usize = 0;
    while a <= hlen - plen
        invariant
            plen >= 1,
            plen <= hlen,
            hlen == hay@.len(),
            plen == pat_low@.len(),
            0 <= a <= hlen - plen + 1,
            n == page.chars@.len(),
            n == order@.len(),
            lows@.len() == n,
            starts@.len() == n,
            forall|p: int| 0 <= p < order@.len() ==> (#[trigger] order@[p]) < n,
            forall|m: int|
                0 <= m < matches@.len() ==> match_wf(
                    #[trigger] matches@[m],
                    page.chars@,
                    page.page_number,
                ),
        decreases hlen - plen + 1 - a,
    {
        let mut k: usize = 0;
        let mut hit = true;
        while k < plen
            invariant
                0 <= k <= plen,
                plen <= hlen,
                hlen == hay@.len(),
                plen == pat_low@.len(),
                0 <= a <= hlen - plen,
            decreases plen - k,
        {
            if hay.as_str().get_char(a + k) != pat_low.as_str().get_char(k) {
                hit = false;
                k = plen;
            } else {
                k += 1;
            }
        }
        if hit {
            match build_match(page, &order, &lows, &starts, a, plen) {
                Some(m) => {
                    matches.push(m);
                },
                None => {},
            }
        }
        a += 1;
    }
    Ok(matches)
}

/// Assemble one match: the characters whose lowered spans overlap the hit
/// range contribute their text, their hull and their indices.
fn build_match(
    page: &Page,
    order: &Vec<usize>,
    lows: &Vec<String>,
    starts: &Vec<usize>,
    a: usize,
    plen: usize,
) -> (r: Option<TextMatch>)
    requires
        plen >= 1,
        order@.len() == page.chars@.len(),
        lows@.len() == order@.len(),
        starts@.len() == order@.len(),
        forall|p: int| 0 <= p < order@.len() ==> (#[trigger] order@[p]) < page.chars@.len(),
    ensures
        ({
            match r {
                Some(m) => match_wf(m, page.chars@, page.page_number),
                None => true,
            }
        }),
{
    let n = order.len();
    let mut indices: Vec<usize> = Vec::new();
    let mut text = String::new();
    let mut x0: i64 = i64::MAX;
    let mut x1: i64 = i64::MIN;
    let mut top: i64 = i64::MAX;
    let mut bottom: i64 = i64::MIN;
    let mut t: usize = 0;
    while t < n
        invariant
            0 <= t <= n,
            n == order@.len(),
            n == page.chars@.len(),
            lows@.len() == n,
            starts@.len() == n,
            forall|p: int| 0 <= p < order@.len() ==> (#[trigger] order@[p]) < n,
            forall|p: int|
                0 <= p < indices@.len() ==> (#[trigger] indices@[p]) < page.chars@.len()
                    && x0 <= page.chars@[indices@[p] as int].x0
                    && page.chars@[indices@[p] as int].x1 <= x1
                    && top <= page.chars@[indices@[p] as int].top
                    && page.chars@[indices@[p] as int].bottom <= bottom,
        decreases n - t,
    {
        let ci = order[t];
        let span_start = starts[t];
        let span_len = lows[t].as_str().unicode_len();
        let overlaps = span_len > 0 && span_start < usize::MAX - span_len
            && a < usize::MAX - plen && span_start < a + plen && span_start + span_len > a;
        if overlaps {
            let c = &page.chars[ci];
            let ghost old_x0 = x0;
            x0 = min_i64(x0, c.x0);
            x1 = max_i64(x1, c.x1);
            top = min_i64(top, c.top);
            bottom = max_i64(bottom, c.bottom);
            text.append(c.text.as_str());
            indices.push(ci);
        }
        t += 1;
    }
    if indices.len() == 0 {
        return None;
    }
    Some(
        TextMatch {
            text,
            bbox: BBox { x0, top, x1, bottom },
            page_number: page.page_number,
            char_indices: indices,
        },
    )
}

} // verus!
