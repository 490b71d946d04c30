use std::collections::HashMap;

use ripdoc::cmap::{hex_to_unicode_string, parse_bfchar_line, parse_bfrange_line, parse_to_unicode_cmap};
use ripdoc::encoding::{glyph_name_to_char, win_ansi_decode, mac_roman_decode, standard_decode, pdf_doc_decode, Encoding};
use ripdoc::fonts::{FontInfo, FontSubtype};

#[test]
fn test_win_ansi() {
    assert_eq!(win_ansi_decode(65), Some('A'));
    assert_eq!(win_ansi_decode(128), Some('\u{20AC}'));
    assert_eq!(win_ansi_decode(147), Some('\u{201C}'));
}

#[test]
fn test_glyph_name() {
    assert_eq!(glyph_name_to_char("space"), Some(' '));
    assert_eq!(glyph_name_to_char("fi"), Some('\u{FB01}'));
    assert_eq!(glyph_name_to_char("uni0041"), Some('A'));
}

#[test]
fn test_parse_bfchar() {
    let (code, unicode) = parse_bfchar_line(b"<0041> <0041>").unwrap();
    assert_eq!(code, 0x41);
    assert_eq!(unicode, "A");
}

#[test]
fn test_parse_bfrange() {
    let mut mapping = HashMap::new();
    parse_bfrange_line(b"<0041> <0043> <0041>", &mut mapping);
    assert_eq!(mapping.get(&0x41), Some(&"A".to_string()));
    assert_eq!(mapping.get(&0x42), Some(&"B".to_string()));
    assert_eq!(mapping.get(&0x43), Some(&"C".to_string()));
}

#[test]
fn test_parse_bfrange_array_form() {
    let mut mapping = HashMap::new();
    parse_bfrange_line(b"<001D> <001F> [<004A> <004B> <004C>]", &mut mapping);
    assert_eq!(mapping.get(&0x1D), Some(&"J".to_string()));
    assert_eq!(mapping.get(&0x1E), Some(&"K".to_string()));
    assert_eq!(mapping.get(&0x1F), Some(&"L".to_string()));
}

#[test]
fn test_parse_full_cmap() {
    let cmap = b"/CIDInit /ProcSet findresource begin\n12 dict begin\nbegincmap\n/CMapType 2 def\n1 begincodespacerange\n<0000> <FFFF>\nendcodespacerange\n2 beginbfchar\n<0003> <0020>\n<0011> <002E>\nendbfchar\n1 beginbfrange\n<0013> <0017> <0030>\nendbfrange\nendcmap\n";
    let mut mapping = HashMap::new();
    parse_to_unicode_cmap(cmap, &mut mapping);

    assert_eq!(mapping.get(&0x0003), Some(&" ".to_string()));
    assert_eq!(mapping.get(&0x0011), Some(&".".to_string()));
    assert_eq!(mapping.get(&0x0013), Some(&"0".to_string()));
    assert_eq!(mapping.get(&0x0014), Some(&"1".to_string()));
}

#[test]
fn test_hex_to_unicode() {
    assert_eq!(hex_to_unicode_string(b"0041"), Some("A".to_string()));
    assert_eq!(hex_to_unicode_string(b"00410042"), Some("AB".to_string()));
}

#[test]
fn test_hex_to_unicode_surrogate_pair() {
    assert_eq!(hex_to_unicode_string(b"D83DDE00"), Some("\u{1F600}".to_string()));
    assert_eq!(hex_to_unicode_string(b"41"), Some("A".to_string()));
    assert_eq!(hex_to_unicode_string(b"zz"), None);
}

#[test]
fn test_other_encodings() {
    assert_eq!(mac_roman_decode(65), Some('A'));
    assert_eq!(mac_roman_decode(128), Some('\u{00C4}'));
    assert_eq!(standard_decode(0xAE), Some('\u{FB01}'));
    assert_eq!(standard_decode(0x20_0000), None);
    assert_eq!(pdf_doc_decode(0x93), Some('\u{FB01}'));
}

#[test]
fn test_encoding_selection() {
    assert!(matches!(Encoding::from_name(b"WinAnsiEncoding"), Encoding::WinAnsi));
    assert!(matches!(Encoding::from_name(b"Identity-H"), Encoding::Identity));
    assert!(matches!(Encoding::from_name(b"SomethingElse"), Encoding::Standard));
    assert!(matches!(Encoding::from_base_font("Symbol-Bold"), Encoding::Standard));
    assert!(matches!(Encoding::from_base_font("Helvetica"), Encoding::WinAnsi));
}

#[test]
fn test_decode_char_priority() {
    // A ToUnicode entry wins over the encoding table for the same code.
    let mut to_unicode = HashMap::new();
    to_unicode.insert(65u32, "Z".to_string());
    let font = FontInfo {
        name: "F1".to_string(),
        base_font: "Helvetica".to_string(),
        subtype: FontSubtype::Type1,
        to_unicode,
        widths: HashMap::new(),
        default_width: 1_000_000,
        first_char: 0,
        encoding: Encoding::WinAnsi,
        is_cid: false,
        bytes_per_char: 1,
    };
    assert_eq!(font.decode_char(65), "Z");
    assert_eq!(font.decode_char(66), "B");
    assert_eq!(font.decode_char(0x2F_FFFF), "\u{FFFD}");
}

#[test]
fn test_decode_string_cid() {
    let font = FontInfo {
        name: "F1".to_string(),
        base_font: "Composite".to_string(),
        subtype: FontSubtype::Type0,
        to_unicode: HashMap::new(),
        widths: HashMap::new(),
        default_width: 1_000_000,
        first_char: 0,
        encoding: Encoding::Standard,
        is_cid: true,
        bytes_per_char: 2,
    };
    let decoded = font.decode_string(&[0x00, 0x41, 0x00, 0x42, 0x43]);
    assert_eq!(decoded.len(), 3);
    assert_eq!(decoded[0].0, 0x41);
    assert_eq!(decoded[1].0, 0x42);
    // A trailing odd byte stands alone as a one-byte code.
    assert_eq!(decoded[2].0, 0x43);
}
