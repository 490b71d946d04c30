use vstd::prelude::*;
use std::collections::HashMap;
use vstd::string::StringSliceAdditionalSpecFns;
use crate::trusted::{scalar_ok, char_of, char_from_u32, lemma_char_of, push_char};

verus! {

/// The value of a hexadecimal digit byte, or 16 for other bytes.
pub open spec fn spec_hexv8(b: u8) -> u32 {
    if 48 <= b && b <= 57 {
        (b - 48) as u32
    } else if 97 <= b && b <= 102 {
        (b - 97 + 10) as u32
    } else if 65 <= b && b <= 70 {
        (b - 65 + 10) as u32
    } else {
        16
    }
}

pub fn hexv8(b: u8) -> (r: u32)
    ensures
        r == spec_hexv8(b),
{
    if 48 <= b && b <= 57 {
        (b - 48) as u32
    } else if 97 <= b && b <= 102 {
        (b - 97 + 10) as u32
    } else if 65 <= b && b <= 70 {
        (b - 65 + 10) as u32
    } else {
        16
    }
}

/// Whether the four bytes at `i` are hexadecimal digits.
pub open spec fn hex4_ok(s: Seq<u8>, i: int) -> bool {
    spec_hexv8(s[i]) < 16 && spec_hexv8(s[i + 1]) < 16 && spec_hexv8(s[i + 2]) < 16
        && spec_hexv8(s[i + 3]) < 16
}

/// The value of the four hexadecimal digits at `i`.
pub open spec fn hex4_val(s: Seq<u8>, i: int) -> u32 {
    (spec_hexv8(s[i]) * 4096 + spec_hexv8(s[i + 1]) * 256 + spec_hexv8(s[i + 2]) * 16
        + spec_hexv8(s[i + 3])) as u32
}

/// The characters encoded by the UTF-16 hex groups of `s` from offset `i`
/// on: groups of four hex digits, with surrogate pairs combined; `None` on
/// any malformed group.
pub open spec fn spec_hex_groups(s: Seq<u8>, i: int) -> Option<Seq<char>>
    decreases s.len() - i,
{
    if i < 0 || i + 4 > s.len() {
        Some(Seq::empty())
    } else if !hex4_ok(s, i) {
        None
    } else {
        let code = hex4_val(s, i);
        if 0xD800 <= code && code <= 0xDBFF {
            if i + 8 <= s.len() && hex4_ok(s, i + 4) {
                let low = hex4_val(s, i + 4);
                if 0xDC00 <= low && low <= 0xDFFF {
                    let cp = (0x10000 + (code - 0xD800) * 0x400 + (low - 0xDC00)) as u32;
                    match spec_hex_groups(s, i + 8) {
                        Some(rest) => Some(seq![char_of(cp)] + rest),
                        None => None,
                    }
                } else {
                    None
                }
            } else {
                None
            }
        } else if scalar_ok(code) {
            match spec_hex_groups(s, i + 4) {
                Some(rest) => Some(seq![char_of(code)] + rest),
                None => None,
            }
        } else {
            None
        }
    }
}

/// What `hex_to_unicode_string` returns: the UTF-16 decoding of the hex
/// payload, with a single-byte fallback for two-digit payloads.
pub open spec fn spec_hex_to_unicode(s: Seq<u8>) -> Option<Seq<char>> {
    if s.len() < 2 {
        None
    } else if s.len() < 4 {
        if spec_hexv8(s[0]) < 16 && spec_hexv8(s[1]) < 16 {
            Some(seq![char_of((spec_hexv8(s[0]) * 16 + spec_hexv8(s[1])) as u32)])
        } else {
            None
        }
    } else {
        spec_hex_groups(s, 0)
    }
}

/// Decode a hex payload such as "0041" or "00410042" into the string of
/// UTF-16 code units it spells, combining surrogate pairs.
pub fn hex_to_unicode_string(hex: &[u8]) -> (r: Option<String>)
    ensures
        ({
            match r {
                Some(out) => spec_hex_to_unicode(hex@) == Some(out@),
                None => spec_hex_to_unicode(hex@) is None,
            }
        }),
{
    let n = hex.len();
    if n < 2 {
        return None;
    }
    if n < 4 {
        let h0 = hexv8(hex[0]);
        let h1 = hexv8(hex[1]);
        if h0 < 16 && h1 < 16 {
            let v: u32 = h0 * 16 + h1;
            let c = char_from_u32(v);
            proof {
                lemma_char_of(v, c->0);
            }
            let mut out = String::new();
            push_char(&mut out, c.unwrap());
            proof {
                assert(out@ =~= seq![char_of(v)]);
            }
            return Some(out);
        }
        return None;
    }
    let mut out = String::new();
    let mut i: usize = 0;
    while n - i >= 4
        invariant
            n == hex@.len(),
            4 <= n,
            0 <= i <= n,
            ({
                match spec_hex_groups(hex@, 0) {
                    Some(all) => ({
                        match spec_hex_groups(hex@, i as int) {
                            Some(rest) => all == out@ + rest,
                            None => false,
                        }
                    }),
                    None => ({
                        match spec_hex_groups(hex@, i as int) {
                            Some(_) => false,
                            None => true,
                        }
                    }),
                }
            }),
        decreases n - i,
    {
        let h0 = hexv8(hex[i]);
        let h1 = hexv8(hex[i + 1]);
        let h2 = hexv8(hex[i + 2]);
        let h3 = hexv8(hex[i + 3]);
        if h0 >= 16 || h1 >= 16 || h2 >= 16 || h3 >= 16 {
            return None;
        }
        let code: u32 = h0 * 4096 + h1 * 256 + h2 * 16 + h3;
        if 0xD800 <= code && code <= 0xDBFF {
            if n - i >= 8 {
                let g0 = hexv8(hex[i + 4]);
                let g1 = hexv8(hex[i + 5]);
                let g2 = hexv8(hex[i + 6]);
                let g3 = hexv8(hex[i + 7]);
                if g0 < 16 && g1 < 16 && g2 < 16 && g3 < 16 {
                    let low: u32 = g0 * 4096 + g1 * 256 + g2 * 16 + g3;
                    if 0xDC00 <= low && low <= 0xDFFF {
                        let cp: u32 = 0x10000 + (code - 0xD800) * 0x400 + (low - 0xDC00);
                        let c = char_from_u32(cp);
                        proof {
                            lemma_char_of(cp, c->0);
                        }
                        push_char(&mut out, c.unwrap());
                        i += 8;
                        continue;
                    }
                }
            }
            return None;
        }
        if code >= 0xDC00 && code <= 0xDFFF {
            return None;
        }
        let c = char_from_u32(code);
        proof {
            lemma_char_of(code, c->0);
        }
        push_char(&mut out, c.unwrap());
        i += 4;
    }
    proof {
        assert(spec_hex_groups(hex@, i as int) == Some(Seq::<char>::empty()));
        assert(out@ + Seq::<char>::empty() =~= out@);
    }
    Some(out)
}

/// The least index of byte `b` in `s` at or after `from`, or the length.
pub open spec fn spec_find_byte(s: Seq<u8>, b: u8, from: int) -> int
    decreases s.len() - from,
{
    if from < 0 || from >= s.len() {
        s.len() as int
    } else if s[from] == b {
        from
    } else {
        spec_find_byte(s, b, from + 1)
    }
}

pub fn find_byte(s: &[u8], b: u8, from: usize) -> (r: usize)
    ensures
        r == spec_find_byte(s@, b, from as int),
        from <= s@.len() ==> from <= r <= s@.len(),
    decreases s@.len() - from,
{
    if from >= s.len() {
        proof {
            assert(spec_find_byte(s@, b, from as int) == s@.len());
        }
        return s.len();
    }
    if s[from] == b {
        return from;
    }
    find_byte(s, b, from + 1)
}

/// A bracketed hex token: the byte range strictly between a '<' and the
/// next '>'.
pub open spec fn spec_token_after(s: Seq<u8>, from: int) -> Option<(int, int)> {
    let lt = spec_find_byte(s, 60, from);
    if lt >= s.len() {
        None
    } else {
        let gt = spec_find_byte(s, 62, lt + 1);
        if gt >= s.len() {
            None
        } else {
            Some((lt + 1, gt))
        }
    }
}

/// Find the next bracketed hex token at or after `from`.
pub fn token_after(s: &[u8], from: usize) -> (r: Option<(usize, usize)>)
    ensures
        ({
            match r {
                Some((a, b)) => spec_token_after(s@, from as int) == Some((a as int, b as int))
                    && from <= a <= b < s@.len(),
                None => spec_token_after(s@, from as int) is None,
            }
        }),
{
    let lt = find_byte(s, 60, from);
    if lt >= s.len() {
        return None;
    }
    proof {
        lemma_find_byte_bounds(s@, 60, from as int);
    }
    let gt = find_byte(s, 62, lt + 1);
    if gt >= s.len() {
        return None;
    }
    proof {
        lemma_find_byte_bounds(s@, 62, lt as int + 1);
    }
    Some((lt + 1, gt))
}

proof fn lemma_find_byte_bounds(s: Seq<u8>, b: u8, from: int)
    requires
        0 <= from <= s.len(),
    ensures
        spec_find_byte(s, b, from) >= from,
        spec_find_byte(s, b, from) <= s.len(),
    decreases s.len() - from,
{
    if from < s.len() && s[from] != b {
        lemma_find_byte_bounds(s, b, from + 1);
    }
}

/// The hexadecimal value of a whole byte run, or `None` if it is empty,
/// holds a non-digit, or overflows 32 bits.
pub open spec fn spec_hex_u32(s: Seq<u8>) -> Option<u32> {
    if s.len() == 0 {
        None
    } else {
        spec_hex_u32_from(s, 0, 0)
    }
}

pub open spec fn spec_hex_u32_from(s: Seq<u8>, i: int, acc: u32) -> Option<u32>
    decreases s.len() - i,
{
    if i < 0 || i >= s.len() {
        Some(acc)
    } else if spec_hexv8(s[i]) >= 16 {
        None
    } else if acc > 0x0FFF_FFFF {
        None
    } else {
        spec_hex_u32_from(s, i + 1, (acc * 16 + spec_hexv8(s[i])) as u32)
    }
}

/// Parse a run of hexadecimal digit bytes as a 32-bit value.
pub fn hex_u32(s: &[u8], start: usize, end: usize) -> (r: Option<u32>)
    requires
        start <= end <= s@.len(),
    ensures
        r == spec_hex_u32(s@.subrange(start as int, end as int)),
{
    let ghost sub = s@.subrange(start as int, end as int);
    if start == end {
        return None;
    }
    let mut acc: u32 = 0;
    let mut i: usize = start;
    while i < end
        invariant
            start <= i <= end <= s@.len(),
            start < end,
            sub == s@.subrange(start as int, end as int),
            spec_hex_u32_from(sub, 0, 0) == spec_hex_u32_from(sub, i - start, acc),
        decreases end - i,
    {
        let h = hexv8(s[i]);
        proof {
            assert(sub[i - start] == s@[i as int]);
        }
        if h >= 16 {
            return None;
        }
        if acc > 0x0FFF_FFFF {
            return None;
        }
        acc = acc * 16 + h;
        i += 1;
    }
    proof {
        assert(spec_hex_u32_from(sub, sub.len() as int, acc) == Some(acc));
    }
    Some(acc)
}


/// Whether `pat` occurs as a contiguous run inside `s`.
pub open spec fn contains_bytes(s: Seq<u8>, pat: Seq<u8>) -> bool {
    exists|i: int| 0 <= i && i + pat.len() <= s.len() && (#[trigger] s.subrange(i, i + pat.len())) == pat
}

/// Whether `pat` matches `s` at offset `i`, within `s[lo..hi]` treated as
/// the haystack.
fn bytes_match_at(s: &[u8], pat: &[u8], i: usize) -> (r: bool)
    requires
        i + pat@.len() <= s@.len(),
    ensures
        r == (s@.subrange(i as int, i as int + pat@.len()) == pat@),
{
    let n = s.len();
    let m = pat.len();
    let mut k: usize = 0;
    while k < m
        invariant
            n == s@.len(),
            m == pat@.len(),
            i + m <= n,
            0 <= k <= m,
            forall|t: int| 0 <= t < k ==> s@[i as int + t] == pat@[t],
        decreases m - k,
    {
        if s[i + k] != pat[k] {
            proof {
                assert(s@.subrange(i as int, i as int + pat@.len())[k as int] == s@[i as int + k as int]);
            }
            return false;
        }
        k += 1;
    }
    proof {
        assert(s@.subrange(i as int, i as int + pat@.len()) =~= pat@);
    }
    true
}

/// Byte-string substring search.
pub fn bytes_contains(s: &[u8], pat: &[u8]) -> (r: bool)
    ensures
        r == contains_bytes(s@, pat@),
{
    let n = s.len();
    let m = pat.len();
    if m > n {
        return false;
    }
    if m == 0 {
        proof {
            assert(s@.subrange(0, 0 + pat@.len() as int) =~= pat@);
        }
        return true;
    }
    let mut i: usize = 0;
    loop
        invariant
            n == s@.len() && m == pat@.len(),
            1 <= m <= n,
            0 <= i <= n - m + 1,
            forall|j: int| 0 <= j < i ==> (#[trigger] s@.subrange(j, j + pat@.len())) != pat@,
        ensures
            forall|j: int|
                0 <= j && j + pat@.len() <= s@.len()
                    ==> (#[trigger] s@.subrange(j, j + pat@.len())) != pat@,
        decreases n - m + 1 - i,
    {
        if i > n - m {
            break;
        }
        if bytes_match_at(s, pat, i) {
            return true;
        }
        i += 1;
    }
    false
}

/// The abstract contents of a code-to-text map: each stored string seen as
/// its character sequence.
pub open spec fn mview(m: Map<u32, String>) -> Map<u32, Seq<char>> {
    Map::new(|k: u32| m.dom().contains(k), |k: u32| m[k]@)
}

/// Whether the code-to-text map `m` holds exactly the abstract contents
/// `t`.
pub open spec fn map_matches(m: Map<u32, String>, t: Map<u32, Seq<char>>) -> bool {
    &&& forall|k: u32| m.dom().contains(k) <==> t.dom().contains(k)
    &&& forall|k: u32| #[trigger] m.dom().contains(k) ==> m[k]@ == t[k]
}

/// A map matches its own abstract contents.
pub proof fn lemma_map_matches_mview(m: Map<u32, String>)
    ensures
        map_matches(m, mview(m)),
{
}

proof fn lemma_mview_insert(m: Map<u32, String>, k: u32, v: String)
    ensures
        mview(m.insert(k, v)) == mview(m).insert(k, v@),
{
    assert(mview(m.insert(k, v)) =~= mview(m).insert(k, v@));
}

/// What `parse_bfchar_line` extracts from a line: the first bracketed
/// token as the code, the second as the replacement text.
pub open spec fn spec_parse_bfchar(s: Seq<u8>) -> Option<(u32, Seq<char>)> {
    match spec_token_after(s, 0) {
        None => None,
        Some((a1, b1)) => match spec_token_after(s, b1 + 1) {
            None => None,
            Some((a2, b2)) => match spec_hex_u32(s.subrange(a1, b1)) {
                None => None,
                Some(code) => match spec_hex_to_unicode(s.subrange(a2, b2)) {
                    None => None,
                    Some(u) => Some((code, u)),
                },
            },
        },
    }
}

/// Parse a line of a bfchar section, such as `<0003> <0020>`.
pub fn parse_bfchar_line(line: &[u8]) -> (r: Option<(u32, String)>)
    ensures
        ({
            match r {
                Some((code, u)) => spec_parse_bfchar(line@) == Some((code, u@)),
                None => spec_parse_bfchar(line@) is None,
            }
        }),
{
    let n = line.len();
    let t1 = token_after(line, 0);
    let (a1, b1) = match t1 {
        Some(t) => t,
        None => {
            return None;
        },
    };
    proof {
        assert(b1 < n);
    }
    let t2 = token_after(line, b1 + 1);
    let (a2, b2) = match t2 {
        Some(t) => t,
        None => {
            return None;
        },
    };
    let code = match hex_u32(line, a1, b1) {
        Some(c) => c,
        None => {
            return None;
        },
    };
    proof {
        assert(line@.subrange(a2 as int, b2 as int) == line@.subrange(a2 as int, b2 as int));
    }
    let tok = &line[a2..b2];
    proof {
        assert(tok@ == line@.subrange(a2 as int, b2 as int));
    }
    match hex_to_unicode_string(tok) {
        Some(u) => Some((code, u)),
        None => None,
    }
}

/// The map after the explicit-array form of a bfrange line: the k-th token
/// after position `pos` assigns code `start + k`.
pub open spec fn spec_apply_arr(m: Map<u32, Seq<char>>, s: Seq<u8>, start: u32, pos: int, k: int) -> Map<u32, Seq<char>>
    decreases s.len() - pos via spec_apply_arr_dec
{
    if pos < 0 || pos >= s.len() {
        m
    } else {
        match spec_token_after(s, pos) {
            None => m,
            Some((a, b)) => {
                let m2 = ({
                    match spec_hex_to_unicode(s.subrange(a, b)) {
                        Some(u) => if start + k <= u32::MAX {
                            m.insert((start + k) as u32, u)
                        } else {
                            m
                        },
                        None => m,
                    }
                });
                spec_apply_arr(m2, s, start, b + 1, k + 1)
            },
        }
    }
}

#[via_fn]
proof fn spec_apply_arr_dec(m: Map<u32, Seq<char>>, s: Seq<u8>, start: u32, pos: int, k: int) {
    if 0 <= pos < s.len() {
        match spec_token_after(s, pos) {
            None => {},
            Some((a, b)) => {
                lemma_token_after_bounds(s, pos);
            },
        }
    }
}

/// A token found at or after `pos` ends strictly inside the string, past
/// `pos`.
proof fn lemma_token_after_bounds(s: Seq<u8>, pos: int)
    requires
        0 <= pos <= s.len(),
        spec_token_after(s, pos) is Some,
    ensures
        pos < (spec_token_after(s, pos)->0).1 < s.len(),
        (spec_token_after(s, pos)->0).0 <= (spec_token_after(s, pos)->0).1,
{
    lemma_find_byte_bounds(s, 60, pos);
    let lt = spec_find_byte(s, 60, pos);
    lemma_find_byte_bounds(s, 62, lt + 1);
}

/// The map after the three-token form of a bfrange line: codes from
/// `start + k` map to the single character `ustart + k`.
pub open spec fn spec_apply_range(m: Map<u32, Seq<char>>, start: int, len: int, ustart: int, k: int) -> Map<u32, Seq<char>>
    decreases len - k,
{
    if k < 0 || k >= len {
        m
    } else {
        let m2 = ({
            if ustart + k <= u32::MAX && scalar_ok((ustart + k) as u32) && start + k <= u32::MAX {
                m.insert((start + k) as u32, seq![char_of((ustart + k) as u32)])
            } else {
                m
            }
        });
        spec_apply_range(m2, start, len, ustart, k + 1)
    }
}

/// What a bfrange line does to the map.
pub open spec fn spec_apply_bfrange(m: Map<u32, Seq<char>>, s: Seq<u8>) -> Map<u32, Seq<char>> {
    let lb = spec_find_byte(s, 91, 0);
    if lb < s.len() {
        match spec_token_after(s.subrange(0, lb), 0) {
            None => m,
            Some((a, b)) => match spec_hex_u32(s.subrange(0, lb).subrange(a, b)) {
                None => m,
                Some(start) => spec_apply_arr(m, s, start, lb, 0),
            },
        }
    } else {
        match spec_token_after(s, 0) {
            None => m,
            Some((a1, b1)) => match spec_token_after(s, b1 + 1) {
                None => m,
                Some((a2, b2)) => match spec_token_after(s, b2 + 1) {
                    None => m,
                    Some((a3, b3)) => match spec_hex_u32(s.subrange(a1, b1)) {
                        None => m,
                        Some(start) => match spec_hex_u32(s.subrange(a2, b2)) {
                            None => m,
                            Some(end) => match spec_hex_u32(s.subrange(a3, b3)) {
                                None => m,
                                Some(ustart) => if start <= end {
                                    spec_apply_range(m, start as int, end - start + 1, ustart as int, 0)
                                } else {
                                    m
                                },
                            },
                        },
                    },
                },
            },
        }
    }
}

/// Parse a line of a bfrange section: either `<start> <end> <ustart>` or
/// `<start> <end> [<u1> <u2> ...]`, inserting the covered codes.
#[verifier::loop_isolation(false)]
pub fn parse_bfrange_line(line: &[u8], mapping: &mut HashMap<u32, String>)
    ensures
        map_matches(final(mapping)@, spec_apply_bfrange(mview(old(mapping)@), line@)),
{
    let ghost m0 = mview(old(mapping)@);
    let lb = find_byte(line, 91, 0);
    if lb < line.len() {
        let head = &line[0..lb];
        proof {
            assert(head@ == line@.subrange(0, lb as int));
        }
        let t1 = match token_after(head, 0) {
            Some(t) => t,
            None => {
                return;
            },
        };
        let (a, b) = t1;
        let start = match hex_u32(head, a, b) {
            Some(v) => v,
            None => {
                return;
            },
        };
        let mut pos: usize = lb;
        let mut k: u64 = 0;
        while pos < line.len()
            invariant
                0 <= pos <= line@.len() + 1,
                k as int <= pos as int,
                spec_apply_bfrange(m0, line@)
                    == spec_apply_arr(mview(mapping@), line@, start, pos as int, k as int),
            decreases line@.len() - pos,
        {
            match token_after(line, pos) {
                None => {
                    proof {
                        assert(spec_apply_arr(mview(mapping@), line@, start, pos as int, k as int)
                            == mview(mapping@));
                        assert(spec_apply_bfrange(m0, line@) == mview(mapping@));
                        lemma_map_matches_mview(mapping@);
                    }
                    return;
                },
                Some((a2, b2)) => {
                    let tok = &line[a2..b2];
                    proof {
                        assert(tok@ == line@.subrange(a2 as int, b2 as int));
                    }
                    let ghost pre = mview(mapping@);
                    match hex_to_unicode_string(tok) {
                        Some(u) => {
                            if k <= (u32::MAX - start) as u64 {
                                let code: u32 = start + k as u32;
                                proof {
                                    lemma_mview_insert(mapping@, code, u);
                                }
                                mapping.insert(code, u);
                            }
                        },
                        None => {},
                    }
                    proof {
                        assert(spec_apply_arr(pre, line@, start, pos as int, k as int)
                            == spec_apply_arr(mview(mapping@), line@, start, b2 + 1, k as int + 1));
                    }
                    pos = b2 + 1;
                    k = k + 1;
                },
            }
        }
        proof {
            assert(spec_apply_arr(mview(mapping@), line@, start, pos as int, k as int) == mview(mapping@));
        }
    } else {
        let t1 = match token_after(line, 0) {
            Some(t) => t,
            None => {
                return;
            },
        };
        let t2 = match token_after(line, t1.1 + 1) {
            Some(t) => t,
            None => {
                return;
            },
        };
        let t3 = match token_after(line, t2.1 + 1) {
            Some(t) => t,
            None => {
                return;
            },
        };
        let start = match hex_u32(line, t1.0, t1.1) {
            Some(v) => v,
            None => {
                return;
            },
        };
        let end = match hex_u32(line, t2.0, t2.1) {
            Some(v) => v,
            None => {
                return;
            },
        };
        let ustart = match hex_u32(line, t3.0, t3.1) {
            Some(v) => v,
            None => {
                return;
            },
        };
        if start > end {
            return;
        }
        let len: u64 = end as u64 - start as u64 + 1;
        let mut k: u64 = 0;
        while k < len
            invariant
                len == end as int - start as int + 1,
                start <= end,
                0 <= k <= len,
                spec_apply_bfrange(m0, line@)
                    == spec_apply_range(mview(mapping@), start as int, len as int, ustart as int, k as int),
            decreases len - k,
        {
            let ghost pre = mview(mapping@);
            if ustart as u64 + k <= u32::MAX as u64 {
                let u: u32 = ustart + k as u32;
                let code: u32 = start + k as u32;
                match char_from_u32(u) {
                    Some(c) => {
                        proof {
                            lemma_char_of(u, c);
                        }
                        let mut text = String::new();
                        push_char(&mut text, c);
                        proof {
                            assert(text@ =~= seq![char_of(u)]);
                            lemma_mview_insert(mapping@, code, text);
                        }
                        mapping.insert(code, text);
                    },
                    None => {},
                }
            }
            proof {
                assert(spec_apply_range(pre, start as int, len as int, ustart as int, k as int)
                    == spec_apply_range(mview(mapping@), start as int, len as int, ustart as int, k as int + 1));
            }
            k += 1;
        }
        proof {
            assert(spec_apply_range(mview(mapping@), start as int, len as int, ustart as int, k as int)
                == mview(mapping@));
        }
    }
}


/// What one line does to the map and parsing mode. Mode 0 is outside any
/// section; 1 is inside bfchar; 2 is inside bfrange.
pub open spec fn spec_cmap_step(m: Map<u32, Seq<char>>, line: Seq<u8>, mode: int) -> (Map<u32, Seq<char>>, int) {
    if mode == 0 {
        if contains_bytes(line, "beginbfchar".spec_bytes()) {
            (m, 1)
        } else if contains_bytes(line, "beginbfrange".spec_bytes()) {
            (m, 2)
        } else {
            (m, 0)
        }
    } else if mode == 1 {
        if contains_bytes(line, "endbfchar".spec_bytes()) {
            (m, 0)
        } else {
            match spec_parse_bfchar(line) {
                Some((code, u)) => (m.insert(code, u), 1),
                None => (m, 1),
            }
        }
    } else {
        if contains_bytes(line, "endbfrange".spec_bytes()) {
            (m, 0)
        } else {
            (spec_apply_bfrange(m, line), 2)
        }
    }
}

/// The map after walking the newline-separated lines of `s` from `pos`.
pub open spec fn spec_cmap_run(m: Map<u32, Seq<char>>, s: Seq<u8>, pos: int, mode: int) -> Map<u32, Seq<char>>
    decreases s.len() - pos via spec_cmap_run_dec
{
    if pos < 0 || pos >= s.len() {
        m
    } else {
        let e = spec_find_byte(s, 10, pos);
        let stepped = spec_cmap_step(m, s.subrange(pos, e), mode);
        if e >= s.len() {
            stepped.0
        } else {
            spec_cmap_run(stepped.0, s, e + 1, stepped.1)
        }
    }
}

#[via_fn]
proof fn spec_cmap_run_dec(m: Map<u32, Seq<char>>, s: Seq<u8>, pos: int, mode: int) {
    if 0 <= pos < s.len() {
        lemma_find_byte_bounds(s, 10, pos);
    }
}

/// Parse a ToUnicode character map: walk its lines, collecting the
/// code-to-text pairs of every bfchar and bfrange section.
#[verifier::loop_isolation(false)]
pub fn parse_to_unicode_cmap(cmap_text: &[u8], mapping: &mut HashMap<u32, String>)
    ensures
        map_matches(final(mapping)@, spec_cmap_run(mview(old(mapping)@), cmap_text@, 0, 0)),
{
    let ghost m0 = mview(old(mapping)@);
    let n = cmap_text.len();
    let mut pos: usize = 0;
    let mut mode: u8 = 0;
    while pos < n
        invariant
            mode == 0 || mode == 1 || mode == 2,
            0 <= pos,
            spec_cmap_run(m0, cmap_text@, 0, 0)
                == spec_cmap_run(mview(mapping@), cmap_text@, pos as int, mode as int),
        decreases n - pos,
    {
        let e = find_byte(cmap_text, 10, pos);
        let line = &cmap_text[pos..e];
        proof {
            assert(line@ == cmap_text@.subrange(pos as int, e as int));
        }
        let ghost pre = mview(mapping@);
        let ghost old_mode = mode as int;
        if mode == 0 {
            if bytes_contains(line, "beginbfchar".as_bytes()) {
                mode = 1;
            } else if bytes_contains(line, "beginbfrange".as_bytes()) {
                mode = 2;
            }
        } else if mode == 1 {
            if bytes_contains(line, "endbfchar".as_bytes()) {
                mode = 0;
            } else {
                match parse_bfchar_line(line) {
                    Some((code, u)) => {
                        proof {
                            lemma_mview_insert(mapping@, code, u);
                        }
                        mapping.insert(code, u);
                    },
                    None => {},
                }
            }
        } else {
            if bytes_contains(line, "endbfrange".as_bytes()) {
                mode = 0;
            } else {
                let ghost before = mapping@;
                parse_bfrange_line(line, mapping);
                proof {
                    lemma_matches_unique(mapping@, spec_apply_bfrange(mview(before), line@));
                }
            }
        }
        proof {
            assert(spec_cmap_step(pre, line@, old_mode) == (mview(mapping@), mode as int));
            assert(spec_cmap_run(pre, cmap_text@, pos as int, old_mode)
                == spec_cmap_run(mview(mapping@), cmap_text@, e as int + 1, mode as int));
        }
        if e >= n {
            proof {
                assert(spec_cmap_run(mview(mapping@), cmap_text@, e as int + 1, mode as int)
                    == mview(mapping@));
                assert(spec_cmap_run(mview(mapping@), cmap_text@, n as int, mode as int)
                    == mview(mapping@));
            }
            pos = n;
        } else {
            pos = e + 1;
        }
    }
    proof {
        assert(spec_cmap_run(mview(mapping@), cmap_text@, pos as int, mode as int)
            == mview(mapping@));
        lemma_map_matches_mview(mapping@);
    }
}

/// A map that matches abstract contents has exactly those contents as its
/// view.
proof fn lemma_matches_unique(m: Map<u32, String>, t: Map<u32, Seq<char>>)
    requires
        map_matches(m, t),
    ensures
        mview(m) == t,
{
    assert(mview(m) =~= t);
}

} // verus!
