use vstd::prelude::*;

verus! {

/// Whether `v` is a Unicode scalar value (not a surrogate, within range).
pub open spec fn scalar_ok(v: u32) -> bool {
    v < 0xD800 || (0xE000 <= v && v <= 0x10FFFF)
}

/// The character whose code point is `v`; meaningful when `scalar_ok(v)`.
pub open spec fn char_of(v: u32) -> char {
    choose|c: char| (#[trigger] (c as u32)) == v
}

/// Relies on char::from_u32: it returns the character with code `v`
/// exactly when `v` is a Unicode scalar value.
#[verifier::external_body]
pub fn char_from_u32(v: u32) -> (r: Option<char>)
    ensures
        r is Some <==> scalar_ok(v),
        r is Some ==> r->0 as u32 == v,
{
    char::from_u32(v)
}

/// A character with code `v` is the character `char_of(v)`.
pub proof fn lemma_char_of(v: u32, c: char)
    requires
        c as u32 == v,
    ensures
        c == char_of(v),
{
    assert(char_of(v) as u32 == v) by {
        assert(exists|x: char| (#[trigger] (x as u32)) == v) by {
            assert(c as u32 == v);
        }
    }
}

/// Relies on String::push: it appends exactly one character.
#[verifier::external_body]
pub fn push_char(s: &mut String, c: char)
    ensures
        final(s)@ == old(s)@.push(c),
{
    s.push(c)
}

/// The Unicode White_Space property, as char::is_whitespace decides it.
pub uninterp spec fn is_unicode_white(c: char) -> bool;

/// Relies on char::is_whitespace: it tests the White_Space property, whose
/// members below U+0080 are exactly TAB, LF, VT, FF, CR and SPACE.
#[verifier::external_body]
pub fn char_is_whitespace(c: char) -> (r: bool)
    ensures
        r == is_unicode_white(c),
        c == ' ' || c == '\t' || c == '\n' || c == '\r' || c == '\u{B}' || c == '\u{C}' ==> r,
        (c as u32) < 0x80 && !(c == ' ' || c == '\t' || c == '\n' || c == '\r' || c == '\u{B}'
            || c == '\u{C}') ==> !r,
{
    c.is_whitespace()
}

/// The lower-case folding of a character sequence, as str::to_lowercase
/// computes it.
pub uninterp spec fn lower_of(s: Seq<char>) -> Seq<char>;

/// Relies on str::to_lowercase: the result depends on the characters
/// alone, and an empty string stays empty.
#[verifier::external_body]
pub fn lowercase(s: &str) -> (r: String)
    ensures
        r@ == lower_of(s@),
        s@.len() == 0 ==> r@.len() == 0,
{
    s.to_lowercase()
}

} // verus!
