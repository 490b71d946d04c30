use vstd::prelude::*;
use std::collections::HashMap;
use vstd::string::StringSliceAdditionalSpecFns;
use crate::encoding::{Encoding, bytes_eq, glyph_name_to_char, spec_glyph_name, contains_seq, str_contains};
use crate::trusted::char_of;
use crate::cmap::{mview, map_matches, spec_cmap_run, parse_to_unicode_cmap};

verus! {

/// The subtype of a font dictionary.
#[derive(Debug, PartialEq, Eq)]
pub enum FontSubtype {
    Type1,
    TrueType,
    Type3,
    Type0,
    CIDFontType0,
    CIDFontType2,
    MMType1,
    Unknown(String),
}

impl FontSubtype {
    /// The subtype a known name names; `None` for any other name.
    pub open spec fn spec_from_name(name: Seq<u8>) -> Option<FontSubtype> {
        if name == "Type1".spec_bytes() {
            Some(FontSubtype::Type1)
        } else if name == "TrueType".spec_bytes() {
            Some(FontSubtype::TrueType)
        } else if name == "Type3".spec_bytes() {
            Some(FontSubtype::Type3)
        } else if name == "Type0".spec_bytes() {
            Some(FontSubtype::Type0)
        } else if name == "CIDFontType0".spec_bytes() {
            Some(FontSubtype::CIDFontType0)
        } else if name == "CIDFontType2".spec_bytes() {
            Some(FontSubtype::CIDFontType2)
        } else if name == "MMType1".spec_bytes() {
            Some(FontSubtype::MMType1)
        } else {
            None
        }
    }

    /// Parse a subtype name; unknown names keep their text.
    pub fn from_name(name: &[u8], text: String) -> (r: FontSubtype)
        ensures
            ({
                match FontSubtype::spec_from_name(name@) {
                    Some(st) => r == st,
                    None => r == FontSubtype::Unknown(text),
                }
            }),
    {
        if bytes_eq(name, "Type1".as_bytes()) {
            FontSubtype::Type1
        } else if bytes_eq(name, "TrueType".as_bytes()) {
            FontSubtype::TrueType
        } else if bytes_eq(name, "Type3".as_bytes()) {
            FontSubtype::Type3
        } else if bytes_eq(name, "Type0".as_bytes()) {
            FontSubtype::Type0
        } else if bytes_eq(name, "CIDFontType0".as_bytes()) {
            FontSubtype::CIDFontType0
        } else if bytes_eq(name, "CIDFontType2".as_bytes()) {
            FontSubtype::CIDFontType2
        } else if bytes_eq(name, "MMType1".as_bytes()) {
            FontSubtype::MMType1
        } else {
            FontSubtype::Unknown(text)
        }
    }
}

/// Resolved font information for character decoding and positioning.
/// Widths are in fixed-point thousandths of text-space units.
#[derive(Debug)]
pub struct FontInfo {
    pub name: String,
    pub base_font: String,
    pub subtype: FontSubtype,
    /// Maps character codes to replacement text.
    pub to_unicode: HashMap<u32, String>,
    /// Maps character codes to glyph widths.
    pub widths: HashMap<u32, i64>,
    /// Width used for characters not in the widths map.
    pub default_width: i64,
    /// First character code covered by a simple font's widths array.
    pub first_char: u32,
    pub encoding: Encoding,
    /// Whether this is a composite font addressed by CIDs.
    pub is_cid: bool,
    /// Bytes per character code: 1 or 2.
    pub bytes_per_char: usize,
}

impl FontInfo {
    /// What decoding a code yields: the ToUnicode entry if present, else
    /// the encoding table, else raw ASCII below 128, else the replacement
    /// character.
    pub open spec fn spec_decode_char(self, code: u32) -> Seq<char> {
        if self.to_unicode@.dom().contains(code) {
            self.to_unicode@[code]@
        } else {
            match self.encoding.spec_decode(code) {
                Some(c) => seq![c],
                None => if code < 128 {
                    seq![char_of(code)]
                } else {
                    seq!['\u{FFFD}']
                },
            }
        }
    }

    /// An identity-like fallback font: ASCII text, one byte per code,
    /// standard encoding, a full default width.
    pub fn fallback(name: String) -> (r: FontInfo)
        ensures
            r.name == name,
            r.base_font@ == Seq::<char>::empty(),
            r.subtype == FontSubtype::Type1,
            r.to_unicode@ == Map::<u32, String>::empty(),
            r.widths@ == Map::<u32, i64>::empty(),
            r.default_width == 1000 * crate::fx::SCALE,
            r.first_char == 0,
            r.encoding == Encoding::Standard,
            !r.is_cid,
            r.bytes_per_char == 1,
    {
        FontInfo {
            name,
            base_font: String::new(),
            subtype: FontSubtype::Type1,
            to_unicode: HashMap::new(),
            widths: HashMap::new(),
            default_width: 1000 * crate::fx::SCALE,
            first_char: 0,
            encoding: Encoding::Standard,
            is_cid: false,
            bytes_per_char: 1,
        }
    }

    /// Decode one character code. The result is never empty unless the
    /// ToUnicode map itself carries an empty replacement for the code.
    pub fn decode_char(&self, code: u32) -> (r: String)
        ensures
            r@ == self.spec_decode_char(code),
            (forall|c: u32|
                self.to_unicode@.dom().contains(c) ==> (#[trigger] self.to_unicode@[c])@.len()
                    > 0) ==> r@.len() > 0,
    {
        match self.to_unicode.get(&code) {
            Some(s) => s.clone(),
            None => {
                match self.encoding.decode(code) {
                    Some(c) => {
                        let mut s = String::new();
                        crate::trusted::push_char(&mut s, c);
                        proof {
                            assert(s@ =~= seq![c]);
                        }
                        s
                    },
                    None => {
                        if code < 128 {
                            let c = (code as u8) as char;
                            proof {
                                crate::trusted::lemma_char_of(code, c);
                            }
                            let mut s = String::new();
                            crate::trusted::push_char(&mut s, c);
                            proof {
                                assert(s@ =~= seq![char_of(code)]);
                            }
                            s
                        } else {
                            let mut s = String::new();
                            crate::trusted::push_char(&mut s, '\u{FFFD}');
                            proof {
                                assert(s@ =~= seq!['\u{FFFD}']);
                            }
                            s
                        }
                    },
                }
            },
        }
    }

    /// The advance width of a code.
    pub open spec fn spec_char_width(self, code: u32) -> i64 {
        if self.widths@.dom().contains(code) {
            self.widths@[code]
        } else {
            self.default_width
        }
    }

    pub fn char_width(&self, code: u32) -> (r: i64)
        ensures
            r == self.spec_char_width(code),
    {
        match self.widths.get(&code) {
            Some(w) => *w,
            None => self.default_width,
        }
    }

    /// The character codes spelled by a byte string: big-endian pairs for
    /// composite fonts (a trailing odd byte stands alone), single bytes
    /// otherwise.
    pub open spec fn spec_codes(b: Seq<u8>, two: bool) -> Seq<u32>
        decreases b.len(),
    {
        if b.len() == 0 {
            Seq::empty()
        } else if two {
            if b.len() == 1 {
                seq![b[0] as u32]
            } else {
                seq![((b[0] as u32) * 256 + (b[1] as u32)) as u32] + Self::spec_codes(b.skip(2), two)
            }
        } else {
            seq![b[0] as u32] + Self::spec_codes(b.skip(1), two)
        }
    }

    /// Decode a byte string into (code, text) pairs.
    pub fn decode_string(&self, bytes: &[u8]) -> (r: Vec<(u32, String)>)
        ensures
            ({
                let codes = Self::spec_codes(bytes@, self.is_cid || self.bytes_per_char == 2);
                &&& r@.len() == codes.len()
                &&& forall|k: int|
                    0 <= k < codes.len() ==> (#[trigger] r@[k]).0 == codes[k]
                        && r@[k].1@ == self.spec_decode_char(codes[k])
            }),
    {
        let two = self.is_cid || self.bytes_per_char == 2;
        let ghost codes = Self::spec_codes(bytes@, two);
        let mut r: Vec<(u32, String)> = Vec::new();
        let n = bytes.len();
        let mut i: usize = 0;
        proof {
            assert(bytes@.skip(0) =~= bytes@);
            assert(r@.map_values(|p: (u32, String)| p.0) =~= Seq::<u32>::empty());
        }
        while i < n
            invariant
                n == bytes@.len(),
                0 <= i <= n,
                codes == Self::spec_codes(bytes@, two),
                codes =~= r@.map_values(|p: (u32, String)| p.0) + Self::spec_codes(
                    bytes@.skip(i as int),
                    two,
                ),
                forall|k: int|
                    0 <= k < r@.len() ==> (#[trigger] r@[k]).0 == codes[k]
                        && r@[k].1@ == self.spec_decode_char(codes[k]),
            decreases n - i,
        {
            let ghost pre = r@;
            let code: u32 = if two {
                if i + 1 < n {
                    let c: u32 = (bytes[i] as u32) * 256 + (bytes[i + 1] as u32);
                    c
                } else {
                    bytes[i] as u32
                }
            } else {
                bytes[i] as u32
            };
            let text = self.decode_char(code);
            r.push((code, text));
            proof {
                let step: int = if two && i + 1 < n { 2 } else { 1 };
                assert(bytes@.skip(i as int).skip(step) =~= bytes@.skip(i as int + step));
                assert(r@.map_values(|p: (u32, String)| p.0)
                    =~= pre.map_values(|p: (u32, String)| p.0).push(code));
                assert(codes =~= r@.map_values(|p: (u32, String)| p.0) + Self::spec_codes(
                    bytes@.skip(i as int + step),
                    two,
                ));
                assert(codes[pre.len() as int] == code);
            }
            if two && i + 1 < n {
                i += 2;
            } else {
                i += 1;
            }
        }
        proof {
            assert(bytes@.skip(n as int) =~= Seq::<u8>::empty());
            assert(codes =~= r@.map_values(|p: (u32, String)| p.0));
        }
        r
    }
}

impl Default for FontInfo {
    /// The fallback font under an empty name.
    fn default() -> (r: Self)
        ensures
            r.default_width == 1000 * crate::fx::SCALE,
            r.encoding == Encoding::Standard,
            !r.is_cid,
            r.bytes_per_char == 1,
            r.to_unicode@ == Map::<u32, String>::empty(),
            r.widths@ == Map::<u32, i64>::empty(),
    {
        FontInfo::fallback(String::new())
    }
}

/// Every code present in the ToUnicode map decodes to its mapped text,
/// whatever the font's encoding says.
pub proof fn lemma_to_unicode_wins(f: FontInfo, code: u32)
    requires
        f.to_unicode@.dom().contains(code),
    ensures
        f.spec_decode_char(code) == f.to_unicode@[code]@,
{
}


/// The low 32 bits of an integer, as a Rust `as u32` cast computes them.
pub open spec fn wrap32(n: int) -> u32 {
    (n % 0x1_0000_0000) as u32
}

/// A width entry of a composite font's W array: a number, an array of
/// optional numbers (non-numeric members are `None`), or something else.
#[derive(Debug)]
pub enum WEntry {
    Num(i64),
    Arr(Vec<Option<i64>>),
    Other,
}

/// One entry of an encoding Differences array.
#[derive(Debug)]
pub enum DiffEntry {
    Code(i64),
    Glyph(String),
    Other,
}

/// How a font dictionary names its encoding.
#[derive(Debug)]
pub enum EncodingSpec {
    Named(Vec<u8>),
    Dict { base: Option<Vec<u8>>, differences: Vec<DiffEntry> },
}

/// The fields of a descendant CIDFont dictionary that width resolution
/// reads.
#[derive(Debug)]
pub struct CidFontDict {
    pub dw: Option<i64>,
    pub w: Vec<WEntry>,
}

/// The fields of a font dictionary that the resolver reads, with every
/// indirect reference already followed and numbers in fixed-point units.
#[derive(Debug)]
pub struct FontDict {
    pub base_font: String,
    pub subtype: Vec<u8>,
    pub encoding: Option<EncodingSpec>,
    pub first_char: u32,
    pub widths: Option<Vec<i64>>,
    pub missing_width: Option<i64>,
    pub descendant: Option<CidFontDict>,
    pub to_unicode: Option<Vec<u8>>,
}

/// The widths map of a simple font: entry `i` of the array gives the
/// width of code `first_char + i`.
pub open spec fn spec_simple_widths(m: Map<u32, i64>, first: u32, ws: Seq<i64>, i: int) -> Map<u32, i64>
    decreases ws.len() - i,
{
    if i < 0 || i >= ws.len() {
        m
    } else {
        let m2 = if first + i <= u32::MAX {
            m.insert((first + i) as u32, ws[i])
        } else {
            m
        };
        spec_simple_widths(m2, first, ws, i + 1)
    }
}

/// The widths map of a composite font, walking the W array: either
/// `cid [w1 w2 ...]` or `cid_start cid_end w`.
pub open spec fn spec_cid_widths(m: Map<u32, i64>, w: Seq<WEntry>, i: int) -> Map<u32, i64>
    decreases w.len() - i, 1int,
{
    if i < 0 || i >= w.len() {
        m
    } else {
        match w[i] {
            WEntry::Num(start) => if i + 1 >= w.len() {
                m
            } else {
                match w[i + 1] {
                    WEntry::Arr(arr) => spec_cid_widths(
                        spec_cid_arr(m, wrap32(start as int), arr@, 0),
                        w,
                        i + 2,
                    ),
                    WEntry::Num(end) => if i + 2 < w.len() {
                        match w[i + 2] {
                            WEntry::Num(width) => spec_cid_widths(
                                spec_cid_range(m, wrap32(start as int), wrap32(end as int), width, 0),
                                w,
                                i + 3,
                            ),
                            _ => spec_cid_widths(m, w, i + 3),
                        }
                    } else {
                        m
                    },
                    WEntry::Other => spec_cid_widths(m, w, i + 2),
                }
            },
            _ => spec_cid_widths(m, w, i + 1),
        }
    }
}

/// Per-cid explicit widths: entry `k` of the array belongs to `start + k`.
pub open spec fn spec_cid_arr(m: Map<u32, i64>, start: u32, arr: Seq<Option<i64>>, k: int) -> Map<u32, i64>
    decreases arr.len() - k,
{
    if k < 0 || k >= arr.len() {
        m
    } else {
        let m2 = ({
            match arr[k] {
                Some(width) => if start + k <= u32::MAX {
                    m.insert((start + k) as u32, width)
                } else {
                    m
                },
                None => m,
            }
        });
        spec_cid_arr(m2, start, arr, k + 1)
    }
}

/// A constant width across an inclusive cid range.
pub open spec fn spec_cid_range(m: Map<u32, i64>, start: u32, end: u32, width: i64, k: int) -> Map<u32, i64>
    decreases end - start - k + 1,
{
    if k < 0 || start + k > end {
        m
    } else {
        spec_cid_range(m.insert((start + k) as u32, width), start, end, width, k + 1)
    }
}

/// The overrides accumulated from a Differences array: an integer resets
/// the current code, a recognized glyph name assigns it and advances.
pub open spec fn spec_diff_overrides(ov: Map<u32, char>, ds: Seq<DiffEntry>, i: int, code: u32) -> Map<u32, char>
    decreases ds.len() - i,
{
    if i < 0 || i >= ds.len() {
        ov
    } else {
        match ds[i] {
            DiffEntry::Code(n) => spec_diff_overrides(ov, ds, i + 1, wrap32(n as int)),
            DiffEntry::Glyph(g) => {
                let ov2 = ({
                    match spec_glyph_name(g@) {
                        Some(c) => ov.insert(code, c),
                        None => ov,
                    }
                });
                spec_diff_overrides(ov2, ds, i + 1, wrap32(code as int + 1))
            },
            DiffEntry::Other => spec_diff_overrides(ov, ds, i + 1, code),
        }
    }
}

/// Fill `widths` from a simple font's widths array.
#[verifier::loop_isolation(false)]
fn apply_simple_widths(widths: &mut HashMap<u32, i64>, first: u32, ws: &Vec<i64>)
    ensures
        final(widths)@ == spec_simple_widths(old(widths)@, first, ws@, 0),
{
    let ghost m0 = old(widths)@;
    let n = ws.len();
    let mut i: usize = 0;
    while i < n
        invariant
            n == ws@.len(),
            0 <= i <= n,
            spec_simple_widths(m0, first, ws@, 0) == spec_simple_widths(widths@, first, ws@, i as int),
        decreases n - i,
    {
        let ghost pre = widths@;
        if i as u64 <= (u32::MAX - first) as u64 {
            widths.insert(first + i as u32, ws[i]);
        }
        proof {
            assert(spec_simple_widths(pre, first, ws@, i as int)
                == spec_simple_widths(widths@, first, ws@, i as int + 1));
        }
        i += 1;
    }
}

/// Fill `widths` from a composite font's W array.
#[verifier::loop_isolation(false)]
fn apply_cid_widths(widths: &mut HashMap<u32, i64>, w: &Vec<WEntry>)
    ensures
        final(widths)@ == spec_cid_widths(old(widths)@, w@, 0),
{
    let ghost m0 = old(widths)@;
    let n = w.len();
    let mut i: usize = 0;
    while i < n
        invariant
            n == w@.len(),
            0 <= i <= n,
            spec_cid_widths(m0, w@, 0) == spec_cid_widths(widths@, w@, i as int),
        decreases n - i,
    {
        let ghost pre = widths@;
        match &w[i] {
            WEntry::Num(start) => {
                let start_cid: u32 = #[verifier::truncate] (*start as u32);
                proof {
                    assert(start_cid == wrap32(*start as int)) by (bit_vector)
                        requires start_cid == (*start as u32);
                }
                if i + 1 >= n {
                    proof {
                        assert(spec_cid_widths(pre, w@, i as int) == pre);
                    }
                    return;
                }
                match &w[i + 1] {
                    WEntry::Arr(arr) => {
                        apply_cid_arr(widths, start_cid, arr);
                        proof {
                            assert(spec_cid_widths(pre, w@, i as int)
                                == spec_cid_widths(widths@, w@, i as int + 2));
                        }
                        i += 2;
                    },
                    WEntry::Num(end) => {
                        let end_cid: u32 = #[verifier::truncate] (*end as u32);
                        proof {
                            assert(end_cid == wrap32(*end as int)) by (bit_vector)
                                requires end_cid == (*end as u32);
                        }
                        if i + 2 < n {
                            match &w[i + 2] {
                                WEntry::Num(width) => {
                                    apply_cid_range(widths, start_cid, end_cid, *width);
                                    proof {
                                        assert(spec_cid_widths(pre, w@, i as int)
                                            == spec_cid_widths(widths@, w@, i as int + 3));
                                    }
                                    i += 3;
                                },
                                _ => {
                                    proof {
                                        assert(spec_cid_widths(pre, w@, i as int)
                                            == spec_cid_widths(widths@, w@, i as int + 3));
                                    }
                                    i += 3;
                                },
                            }
                        } else {
                            proof {
                                assert(spec_cid_widths(pre, w@, i as int) == pre);
                            }
                            return;
                        }
                    },
                    WEntry::Other => {
                        proof {
                            assert(spec_cid_widths(pre, w@, i as int)
                                == spec_cid_widths(widths@, w@, i as int + 2));
                        }
                        i += 2;
                    },
                }
            },
            _ => {
                proof {
                    assert(spec_cid_widths(pre, w@, i as int)
                        == spec_cid_widths(widths@, w@, i as int + 1));
                }
                i += 1;
            },
        }
    }
}

#[verifier::loop_isolation(false)]
fn apply_cid_arr(widths: &mut HashMap<u32, i64>, start: u32, arr: &Vec<Option<i64>>)
    ensures
        final(widths)@ == spec_cid_arr(old(widths)@, start, arr@, 0),
{
    let ghost m0 = old(widths)@;
    let n = arr.len();
    let mut k: usize = 0;
    while k < n
        invariant
            n == arr@.len(),
            0 <= k <= n,
            spec_cid_arr(m0, start, arr@, 0) == spec_cid_arr(widths@, start, arr@, k as int),
        decreases n - k,
    {
        let ghost pre = widths@;
        match &arr[k] {
            Some(width) => {
                if k as u64 <= (u32::MAX - start) as u64 {
                    widths.insert(start + k as u32, *width);
                }
            },
            None => {},
        }
        proof {
            assert(spec_cid_arr(pre, start, arr@, k as int)
                == spec_cid_arr(widths@, start, arr@, k as int + 1));
        }
        k += 1;
    }
}

#[verifier::loop_isolation(false)]
fn apply_cid_range(widths: &mut HashMap<u32, i64>, start: u32, end: u32, width: i64)
    ensures
        final(widths)@ == spec_cid_range(old(widths)@, start, end, width, 0),
{
    let ghost m0 = old(widths)@;
    if start > end {
        return;
    }
    let count: u64 = end as u64 - start as u64 + 1;
    let mut k: u64 = 0;
    while k < count
        invariant
            start <= end,
            count == end as int - start as int + 1,
            0 <= k <= count,
            spec_cid_range(m0, start, end, width, 0)
                == spec_cid_range(widths@, start, end, width, k as int),
        decreases count - k,
    {
        let ghost pre = widths@;
        widths.insert(start + k as u32, width);
        proof {
            assert(spec_cid_range(pre, start, end, width, k as int)
                == spec_cid_range(widths@, start, end, width, k as int + 1));
        }
        k += 1;
    }
}

/// Apply a Differences array on top of a base encoding.
#[verifier::loop_isolation(false)]
fn apply_differences(ds: &Vec<DiffEntry>, base: Encoding) -> (r: Encoding)
    ensures
        ({
            let ov = spec_diff_overrides(Map::empty(), ds@, 0, 0);
            if ov.dom() =~= Set::<u32>::empty() {
                r == base
            } else {
                match r {
                    Encoding::Custom { base: b, overrides } => *b == base && overrides@ == ov,
                    _ => false,
                }
            }
        }),
{
    let mut overrides: HashMap<u32, char> = HashMap::new();
    let mut code: u32 = 0;
    let n = ds.len();
    let mut i: usize = 0;
    while i < n
        invariant
            n == ds@.len(),
            0 <= i <= n,
            spec_diff_overrides(Map::empty(), ds@, 0, 0)
                == spec_diff_overrides(overrides@, ds@, i as int, code),
        decreases n - i,
    {
        let ghost pre = overrides@;
        let ghost old_code = code;
        match &ds[i] {
            DiffEntry::Code(v) => {
                code = #[verifier::truncate] (*v as u32);
                proof {
                    assert(code == wrap32(*v as int)) by (bit_vector)
                        requires code == (*v as u32);
                    assert(spec_diff_overrides(pre, ds@, i as int, old_code)
                        == spec_diff_overrides(overrides@, ds@, i as int + 1, code));
                }
            },
            DiffEntry::Glyph(g) => {
                match glyph_name_to_char(g.as_str()) {
                    Some(c) => {
                        overrides.insert(code, c);
                    },
                    None => {},
                }
                code = if code == u32::MAX { 0 } else { code + 1 };
                proof {
                    assert(code == wrap32(old_code as int + 1));
                    assert(spec_diff_overrides(pre, ds@, i as int, old_code)
                        == spec_diff_overrides(overrides@, ds@, i as int + 1, code));
                }
            },
            DiffEntry::Other => {
                proof {
                    assert(spec_diff_overrides(pre, ds@, i as int, old_code)
                        == spec_diff_overrides(overrides@, ds@, i as int + 1, code));
                }
            },
        }
        i += 1;
    }
    if overrides.is_empty() {
        proof {
            assert(overrides@.dom() =~= Set::<u32>::empty());
        }
        base
    } else {
        proof {
            assert(!(overrides@.dom() =~= Set::<u32>::empty())) by {
                assert(overrides@.dom().len() != 0);
                if overrides@.dom() =~= Set::<u32>::empty() {
                    assert(overrides@.dom().len() == 0);
                }
            }
        }
        Encoding::Custom { base: Box::new(base), overrides }
    }
}

/// The encoding a simple font dictionary selects, before any Differences
/// overrides: a named encoding, the dictionary's base encoding, the
/// standard default inside an encoding dictionary, or the base-font guess.
pub open spec fn spec_base_encoding(fd_enc: Option<EncodingSpec>, base_font: Seq<char>) -> Encoding {
    match fd_enc {
        None => Encoding::spec_from_base_font(base_font),
        Some(EncodingSpec::Named(n)) => Encoding::spec_from_name(n@),
        Some(EncodingSpec::Dict { base, differences }) => match base {
            Some(n) => Encoding::spec_from_name(n@),
            None => Encoding::Standard,
        },
    }
}

/// Everything font resolution guarantees of its result: the identity
/// fields, the widths table, the default width, the encoding and the
/// ToUnicode map, each as the dictionary determines them.
#[verifier::opaque]
pub open spec fn font_resolved(r: FontInfo, font_name: Seq<char>, fd: FontDict) -> bool {
    &&& r.name@ == font_name
    &&& r.base_font == fd.base_font
    &&& ({
        match FontSubtype::spec_from_name(fd.subtype@) {
            Some(st) => r.subtype == st,
            None => r.subtype is Unknown,
        }
    })
    &&& (r.is_cid <==> FontSubtype::spec_from_name(fd.subtype@) == Some(FontSubtype::Type0))
    &&& r.bytes_per_char == if r.is_cid { 2int } else { 1int }
    &&& r.first_char == fd.first_char
    &&& ({
        if r.is_cid {
            match fd.descendant {
                Some(cid) => r.widths@ == spec_cid_widths(Map::empty(), cid.w@, 0),
                None => r.widths@ == Map::<u32, i64>::empty(),
            }
        } else {
            match fd.widths {
                Some(ws) => r.widths@ == spec_simple_widths(Map::empty(), fd.first_char, ws@, 0),
                None => r.widths@ == spec_standard_metrics(fd.base_font@),
            }
        }
    })
    &&& ({
        if r.is_cid {
            match fd.descendant {
                Some(cid) => match cid.dw {
                    Some(dw) => r.default_width == dw,
                    None => r.default_width == 1000 * crate::fx::SCALE,
                },
                None => r.default_width == 1000 * crate::fx::SCALE,
            }
        } else {
            match fd.missing_width {
                Some(mw) => r.default_width == mw,
                None => r.default_width == 1000 * crate::fx::SCALE,
            }
        }
    })
    &&& ({
        if r.is_cid {
            r.encoding == Encoding::Standard
        } else {
            let base = spec_base_encoding(fd.encoding, fd.base_font@);
            match fd.encoding {
                Some(EncodingSpec::Dict { base: _, differences }) => ({
                    let ov = spec_diff_overrides(Map::empty(), differences@, 0, 0);
                    if ov.dom() =~= Set::<u32>::empty() {
                        r.encoding == base
                    } else {
                        match r.encoding {
                            Encoding::Custom { base: b, overrides } => *b == base && overrides@
                                == ov,
                            _ => false,
                        }
                    }
                }),
                _ => r.encoding == base,
            }
        }
    })
    &&& ({
        match fd.to_unicode {
            Some(tu) => map_matches(r.to_unicode@, spec_cmap_run(Map::empty(), tu@, 0, 0)),
            None => r.to_unicode@ == Map::<u32, String>::empty(),
        }
    })
}

/// Resolve a font dictionary into ready-to-use font information.
pub fn resolve_font(font_name: &str, fd: &FontDict) -> (r: FontInfo)
    ensures
        font_resolved(r, font_name@, *fd),
{
    proof {
        reveal(font_resolved);
    }
    let subtype = FontSubtype::from_name(fd.subtype.as_slice(), bytes_to_text(fd.subtype.as_slice()));
    let is_type0 = match &subtype {
        FontSubtype::Type0 => true,
        _ => false,
    };
    proof {
        assert(is_type0 <==> FontSubtype::spec_from_name(fd.subtype@) == Some(FontSubtype::Type0));
    }

    let mut widths: HashMap<u32, i64> = HashMap::new();
    let mut default_width: i64 = 1000 * crate::fx::SCALE;
    let mut encoding = Encoding::Standard;

    if is_type0 {
        match &fd.descendant {
            Some(cid) => {
                match cid.dw {
                    Some(dw) => {
                        default_width = dw;
                    },
                    None => {},
                }
                apply_cid_widths(&mut widths, &cid.w);
            },
            None => {},
        }
    } else {
        match &fd.encoding {
            None => {
                encoding = Encoding::from_base_font(fd.base_font.as_str());
            },
            Some(EncodingSpec::Named(n)) => {
                encoding = Encoding::from_name(n.as_slice());
            },
            Some(EncodingSpec::Dict { base, differences }) => {
                let base_enc = match base {
                    Some(n) => Encoding::from_name(n.as_slice()),
                    None => Encoding::Standard,
                };
                encoding = apply_differences(differences, base_enc);
            },
        }
        match &fd.widths {
            Some(ws) => {
                apply_simple_widths(&mut widths, fd.first_char, ws);
            },
            None => {
                load_standard_widths(fd.base_font.as_str(), &mut widths);
            },
        }
        match fd.missing_width {
            Some(mw) => {
                default_width = mw;
            },
            None => {},
        }
    }

    let mut to_unicode: HashMap<u32, String> = HashMap::new();
    proof {
        assert(crate::cmap::mview(to_unicode@) =~= Map::<u32, Seq<char>>::empty());
    }
    let ghost mv_empty = crate::cmap::mview(to_unicode@);
    match &fd.to_unicode {
        Some(tu) => {
            parse_to_unicode_cmap(tu.as_slice(), &mut to_unicode);
            proof {
                assert(mv_empty == Map::<u32, Seq<char>>::empty());
            }
        },
        None => {},
    }

    FontInfo {
        name: String::from_str(font_name),
        base_font: fd.base_font.clone(),
        subtype,
        to_unicode,
        widths,
        default_width,
        first_char: fd.first_char,
        encoding,
        is_cid: is_type0,
        bytes_per_char: if is_type0 { 2 } else { 1 },
    }
}

/// The built-in metric table for standard fonts without a widths array:
/// the fixed-pitch Courier family draws every code 600 thousandths wide.
pub open spec fn spec_standard_metrics(base_font: Seq<char>) -> Map<u32, i64> {
    if contains_seq(base_font, "Courier"@) {
        spec_courier_row(Map::empty(), 0)
    } else {
        Map::empty()
    }
}

pub open spec fn spec_courier_row(m: Map<u32, i64>, k: int) -> Map<u32, i64>
    decreases 256 - k,
{
    if k < 0 || k >= 256 {
        m
    } else {
        spec_courier_row(m.insert(k as u32, (600 * crate::fx::SCALE) as i64), k + 1)
    }
}

/// Supply widths for a known standard font with no widths array.
#[verifier::loop_isolation(false)]
fn load_standard_widths(base_font: &str, widths: &mut HashMap<u32, i64>)
    requires
        old(widths)@ == Map::<u32, i64>::empty(),
    ensures
        final(widths)@ == spec_standard_metrics(base_font@),
{
    if str_contains(base_font, "Courier") {
        let mut k: u32 = 0;
        while k < 256
            invariant
                0 <= k <= 256,
                spec_courier_row(Map::empty(), 0) == spec_courier_row(widths@, k as int),
            decreases 256 - k,
        {
            let ghost pre = widths@;
            widths.insert(k, 600 * crate::fx::SCALE);
            proof {
                assert(spec_courier_row(pre, k as int) == spec_courier_row(widths@, k as int + 1));
            }
            k += 1;
        }
    }
}

/// The text a name's bytes read as: ASCII bytes stand for themselves,
/// anything higher for the replacement character.
pub open spec fn spec_name_text(bs: Seq<u8>) -> Seq<char> {
    bs.map_values(|b: u8| if b < 128 { b as char } else { '\u{FFFD}' })
}

/// The lossy text of a name's bytes: ASCII bytes keep their characters.
pub fn bytes_to_text(name: &[u8]) -> (r: String)
    ensures
        r@ == spec_name_text(name@),
{
    let mut r = String::new();
    let mut i: usize = 0;
    while i < name.len()
        invariant
            0 <= i <= name@.len(),
            r@ =~= spec_name_text(name@.take(i as int)),
        decreases name@.len() - i,
    {
        let b = name[i];
        let c: char = if b < 128 { b as char } else { '\u{FFFD}' };
        crate::trusted::push_char(&mut r, c);
        i += 1;
    }
    proof {
        assert(name@.take(name@.len() as int) =~= name@);
    }
    r
}

} // verus!
