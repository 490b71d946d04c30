use vstd::prelude::*;
use crate::objects::{Char, Word};
use crate::trusted::{char_is_whitespace, is_unicode_white};
use crate::fx::{min_i64, max_i64};

verus! {

/// Whether a text consists only of whitespace (or is empty): what
/// trimming it would leave nothing of.
pub open spec fn spec_blank(s: Seq<char>) -> bool {
    forall|k: int| 0 <= k < s.len() ==> is_unicode_white(#[trigger] s[k])
}

/// Whether a text is blank: empty or all whitespace.
pub fn is_blank_text(s: &str) -> (r: bool)
    ensures
        r == spec_blank(s@),
{
    let n = s.unicode_len();
    let mut i: usize = 0;
    while i < n
        invariant
            n == s@.len(),
            0 <= i <= n,
            forall|k: int| 0 <= k < i ==> is_unicode_white(#[trigger] s@[k]),
        decreases n - i,
    {
        if !char_is_whitespace(s.get_char(i)) {
            return false;
        }
        i += 1;
    }
    true
}

/// Sort character indices by (top, x0), stably.
pub fn sort_char_indices(chars: &Vec<Char>, v: &mut Vec<usize>)
    requires
        forall|p: int| 0 <= p < old(v)@.len() ==> (#[trigger] old(v)@[p]) < chars@.len(),
    ensures
        final(v)@.len() == old(v)@.len(),
        final(v)@.to_multiset() == old(v)@.to_multiset(),
        forall|p: int| 0 <= p < final(v)@.len() ==> (#[trigger] final(v)@[p]) < chars@.len(),
        forall|p: int, q: int|
            0 <= p < q < final(v)@.len() ==> char_le(chars@, final(v)@[p], final(v)@[q]),
{
    broadcast use vstd::seq_lib::group_to_multiset_ensures;

    let n = v.len();
    if n == 0 {
        return;
    }
    let mut i: usize = 1;
    while i < n
        invariant
            n == v@.len(),
            1 <= i <= n,
            v@.to_multiset() == old(v)@.to_multiset(),
            forall|p: int| 0 <= p < v@.len() ==> (#[trigger] v@[p]) < chars@.len(),
            forall|p: int, q: int| 0 <= p < q < i ==> char_le(chars@, v@[p], v@[q]),
        decreases n - i,
    {
        let x = v[i];
        let mut j: usize = 0;
        loop
            invariant
                n == v@.len(),
                1 <= i < n,
                0 <= j <= i,
                x == v@[i as int],
                x < chars@.len(),
                forall|p: int| 0 <= p < v@.len() ==> (#[trigger] v@[p]) < chars@.len(),
                forall|p: int| 0 <= p < j ==> char_le(chars@, v@[p], x),
            ensures
                0 <= j <= i,
                x == v@[i as int],
                forall|p: int| 0 <= p < j ==> char_le(chars@, v@[p], x),
                j < i ==> !char_le(chars@, v@[j as int], x),
            decreases i - j,
        {
            if j == i {
                break;
            }
            let c = v[j];
            let a = &chars[c];
            let b = &chars[x];
            if a.top < b.top || (a.top == b.top && (a.x0 < b.x0 || (a.x0 == b.x0 && c <= x))) {
                j += 1;
            } else {
                break;
            }
        }
        let ghost s0 = v@;
        proof {
            broadcast use vstd::multiset::group_multiset_axioms;
            assert(s0.contains(x));
            s0.to_multiset_ensures();
            assert(s0.to_multiset().count(x) > 0);
        }
        let xv = v.remove(i);
        v.insert(j, xv);
        proof {
            broadcast use vstd::multiset::group_multiset_axioms;
            assert(v@ =~= s0.remove(i as int).insert(j as int, x));
            vstd::seq_lib::to_multiset_remove(s0, i as int);
            vstd::seq_lib::to_multiset_insert(s0.remove(i as int), j as int, x);
            assert(v@.to_multiset() =~= s0.to_multiset());
            assert forall|p: int, q: int|
                0 <= p < q < i + 1 implies char_le(chars@, v@[p], v@[q]) by {
                if q == j {
                    assert(v@[p] == s0[p]);
                } else if p == j {
                    if j < i {
                        assert(!char_le(chars@, s0[j as int], x));
                        assert(char_le(chars@, x, s0[j as int]));
                        if q - 1 > j {
                            assert(char_le(chars@, s0[j as int], s0[q - 1]));
                        }
                    }
                } else {
                    let op = if p < j { p } else { p - 1 };
                    let oq = if q < j { q } else { q - 1 };
                    assert(v@[p] == s0[op] && v@[q] == s0[oq]);
                }
            }
        }
        i += 1;
    }
}

/// Reading order on characters: by top, then x0, then original position.
pub open spec fn char_le(chars: Seq<Char>, i: usize, j: usize) -> bool {
    let a = chars[i as int];
    let b = chars[j as int];
    a.top < b.top || (a.top == b.top && (a.x0 < b.x0 || (a.x0 == b.x0 && i <= j)))
}

/// Whether every character of the slice has ordered sides.
pub open spec fn chars_boxes_wf(chars: Seq<Char>) -> bool {
    forall|k: int|
        0 <= k < chars.len() ==> (#[trigger] chars[k]).x0 <= chars[k].x1
            && chars[k].top <= chars[k].bottom
}

/// Group characters into words: walk them in reading order, extending the
/// current word while the next character stays on the same line within
/// `y_tolerance`, starts within `x_tolerance` of the previous end, and is
/// not blank. Every produced word has non-blank text; when all characters
/// carry ordered boxes, so does every word.
pub fn group_chars_to_words(chars: &Vec<Char>, x_tolerance: i64, y_tolerance: i64) -> (r: Vec<Word>)
    ensures
        chars@.len() == 0 ==> r@.len() == 0,
        r@.len() <= chars@.len(),
        forall|k: int| 0 <= k < r@.len() ==> !spec_blank((#[trigger] r@[k]).text@),
        chars_boxes_wf(chars@) ==> forall|k: int|
            0 <= k < r@.len() ==> (#[trigger] r@[k]).x0 <= r@[k].x1 && r@[k].top <= r@[k].bottom,
{
    let n = chars.len();
    let mut r: Vec<Word> = Vec::new();
    if n == 0 {
        return r;
    }
    let mut order: Vec<usize> = Vec::new();
    let mut i: usize = 0;
    while i < n
        invariant
            i <= n,
            n == chars@.len(),
            order@.len() == i,
            forall|p: int| 0 <= p < i ==> (#[trigger] order@[p]) < n,
        decreases n - i,
    {
        order.push(i);
        i += 1;
    }
    sort_char_indices(chars, &mut order);

    let mut group: Vec<usize> = Vec::new();
    group.push(order[0]);
    let mut p: usize = 1;
    while p < n
        invariant
            n == chars@.len(),
            n == order@.len(),
            1 <= p <= n,
            group@.len() >= 1,
            r@.len() < p,
            forall|t: int| 0 <= t < group@.len() ==> (#[trigger] group@[t]) < n,
            forall|t: int| 0 <= t < order@.len() ==> (#[trigger] order@[t]) < n,
            forall|k: int| 0 <= k < r@.len() ==> !spec_blank((#[trigger] r@[k]).text@),
            chars_boxes_wf(chars@) ==> forall|k: int|
                0 <= k < r@.len() ==> (#[trigger] r@[k]).x0 <= r@[k].x1
                    && r@[k].top <= r@[k].bottom,
        decreases n - p,
    {
        let ci = order[p];
        let last = group[group.len() - 1];
        let ch = &chars[ci];
        let lc = &chars[last];
        let is_space = is_blank_text(ch.text.as_str());
        let dy: i128 = ch.top as i128 - lc.top as i128;
        let dx: i128 = ch.x0 as i128 - lc.x1 as i128;
        let same_line = -(y_tolerance as i128) <= dy && dy <= y_tolerance as i128;
        let close = -(x_tolerance as i128) <= dx && dx <= x_tolerance as i128;
        if same_line && close && !is_space {
            group.push(ci);
        } else {
            match build_word(chars, &group) {
                Some(w) => {
                    r.push(w);
                },
                None => {},
            }
            group = Vec::new();
            group.push(ci);
        }
        p += 1;
    }
    match build_word(chars, &group) {
        Some(w) => {
            r.push(w);
        },
        None => {},
    }
    r
}

/// Assemble one word from a run of character indices: blank characters
/// are dropped, the text is the concatenation of the rest, the box is
/// their hull, and font attributes come from the first kept character.
fn build_word(chars: &Vec<Char>, group: &Vec<usize>) -> (r: Option<Word>)
    requires
        forall|t: int| 0 <= t < group@.len() ==> (#[trigger] group@[t]) < chars@.len(),
    ensures
        ({
            match r {
                Some(w) => !spec_blank(w.text@) && (chars_boxes_wf(chars@) ==> w.x0 <= w.x1
                    && w.top <= w.bottom),
                None => true,
            }
        }),
{
    let m = group.len();
    let mut text = String::new();
    let mut x0: i64 = i64::MAX;
    let mut x1: i64 = i64::MIN;
    let mut top: i64 = i64::MAX;
    let mut bottom: i64 = i64::MIN;
    let mut doctop: i64 = i64::MAX;
    let mut first: Option<usize> = None;
    let mut t: usize = 0;
    while t < m
        invariant
            m == group@.len(),
            0 <= t <= m,
            forall|q: int| 0 <= q < group@.len() ==> (#[trigger] group@[q]) < chars@.len(),
            first is Some ==> first->0 < chars@.len(),
            first is None ==> text@.len() == 0,
            first is Some ==> exists|k: int|
                0 <= k < chars@.len() && !spec_blank((#[trigger] chars@[k]).text@)
                    && x0 <= chars@[k].x0 && chars@[k].x1 <= x1 && top <= chars@[k].top
                    && chars@[k].bottom <= bottom,
        decreases m - t,
    {
        let ci = group[t];
        let ch = &chars[ci];
        if !is_blank_text(ch.text.as_str()) {
            text.append(ch.text.as_str());
            x0 = min_i64(x0, ch.x0);
            x1 = max_i64(x1, ch.x1);
            top = min_i64(top, ch.top);
            bottom = max_i64(bottom, ch.bottom);
            doctop = min_i64(doctop, ch.doctop);
            if first.is_none() {
                first = Some(ci);
            }
        }
        t += 1;
    }
    match first {
        Some(fi) => {
            if is_blank_text(text.as_str()) {
                return None;
            }
            let fc = &chars[fi];
            Some(
                Word {
                    text,
                    x0,
                    x1,
                    top,
                    bottom,
                    doctop,
                    upright: fc.upright,
                    fontname: fc.fontname.clone(),
                    size: fc.size,
                },
            )
        },
        None => None,
    }
}

} // verus!
