use vstd::prelude::*;
use std::collections::HashMap;
use vstd::string::StringSliceAdditionalSpecFns;
use crate::trusted::{scalar_ok, char_of, char_from_u32, lemma_char_of};

verus! {

/// A font's character encoding: one of the standard named encodings, the
/// identity encoding of composite fonts, or a base encoding overlaid with
/// per-code overrides from a Differences array.
#[derive(Debug)]
pub enum Encoding {
    Standard,
    MacRoman,
    WinAnsi,
    PDFDoc,
    MacExpert,
    Identity,
    Custom { base: Box<Encoding>, overrides: HashMap<u32, char> },
}


/// The WinAnsi (Windows-1252) code table.
pub open spec fn spec_win_ansi(code: u32) -> Option<char> {
    if code < 128 {
        Some(char_of(code))
    } else if code == 128 {
        Some('\u{20AC}')
    } else if code == 130 {
        Some('\u{201A}')
    } else if code == 131 {
        Some('\u{0192}')
    } else if code == 132 {
        Some('\u{201E}')
    } else if code == 133 {
        Some('\u{2026}')
    } else if code == 134 {
        Some('\u{2020}')
    } else if code == 135 {
        Some('\u{2021}')
    } else if code == 136 {
        Some('\u{02C6}')
    } else if code == 137 {
        Some('\u{2030}')
    } else if code == 138 {
        Some('\u{0160}')
    } else if code == 139 {
        Some('\u{2039}')
    } else if code == 140 {
        Some('\u{0152}')
    } else if code == 142 {
        Some('\u{017D}')
    } else if code == 145 {
        Some('\u{2018}')
    } else if code == 146 {
        Some('\u{2019}')
    } else if code == 147 {
        Some('\u{201C}')
    } else if code == 148 {
        Some('\u{201D}')
    } else if code == 149 {
        Some('\u{2022}')
    } else if code == 150 {
        Some('\u{2013}')
    } else if code == 151 {
        Some('\u{2014}')
    } else if code == 152 {
        Some('\u{02DC}')
    } else if code == 153 {
        Some('\u{2122}')
    } else if code == 154 {
        Some('\u{0161}')
    } else if code == 155 {
        Some('\u{203A}')
    } else if code == 156 {
        Some('\u{0153}')
    } else if code == 158 {
        Some('\u{017E}')
    } else if code == 159 {
        Some('\u{0178}')
    } else {
        if 160 <= code && code <= 255 {
            Some(char_of(code))
        } else {
            None
        }
    }
}


/// The MacRoman code table.
pub open spec fn spec_mac_roman(code: u32) -> Option<char> {
    if code < 128 {
        Some(char_of(code))
    } else if code == 128 {
        Some('\u{00C4}')
    } else if code == 129 {
        Some('\u{00C5}')
    } else if code == 130 {
        Some('\u{00C7}')
    } else if code == 131 {
        Some('\u{00C9}')
    } else if code == 132 {
        Some('\u{00D1}')
    } else if code == 133 {
        Some('\u{00D6}')
    } else if code == 134 {
        Some('\u{00DC}')
    } else if code == 135 {
        Some('\u{00E1}')
    } else if code == 136 {
        Some('\u{00E0}')
    } else if code == 137 {
        Some('\u{00E2}')
    } else if code == 138 {
        Some('\u{00E4}')
    } else if code == 139 {
        Some('\u{00E3}')
    } else if code == 140 {
        Some('\u{00E5}')
    } else if code == 141 {
        Some('\u{00E7}')
    } else if code == 142 {
        Some('\u{00E9}')
    } else if code == 143 {
        Some('\u{00E8}')
    } else if code == 144 {
        Some('\u{00EA}')
    } else if code == 145 {
        Some('\u{00EB}')
    } else if code == 146 {
        Some('\u{00ED}')
    } else if code == 147 {
        Some('\u{00EC}')
    } else if code == 148 {
        Some('\u{00EE}')
    } else if code == 149 {
        Some('\u{00EF}')
    } else if code == 150 {
        Some('\u{00F1}')
    } else if code == 151 {
        Some('\u{00F3}')
    } else if code == 152 {
        Some('\u{00F2}')
    } else if code == 153 {
        Some('\u{00F4}')
    } else if code == 154 {
        Some('\u{00F6}')
    } else if code == 155 {
        Some('\u{00F5}')
    } else if code == 156 {
        Some('\u{00FA}')
    } else if code == 157 {
        Some('\u{00F9}')
    } else if code == 158 {
        Some('\u{00FB}')
    } else if code == 159 {
        Some('\u{00FC}')
    } else if code == 160 {
        Some('\u{2020}')
    } else if code == 161 {
        Some('\u{00B0}')
    } else if code == 162 {
        Some('\u{00A2}')
    } else if code == 163 {
        Some('\u{00A3}')
    } else if code == 164 {
        Some('\u{00A7}')
    } else if code == 165 {
        Some('\u{2022}')
    } else if code == 166 {
        Some('\u{00B6}')
    } else if code == 167 {
        Some('\u{00DF}')
    } else if code == 168 {
        Some('\u{00AE}')
    } else if code == 169 {
        Some('\u{00A9}')
    } else if code == 170 {
        Some('\u{2122}')
    } else if code == 171 {
        Some('\u{00B4}')
    } else if code == 172 {
        Some('\u{00A8}')
    } else if code == 173 {
        Some('\u{2260}')
    } else if code == 174 {
        Some('\u{00C6}')
    } else if code == 175 {
        Some('\u{00D8}')
    } else if code == 176 {
        Some('\u{221E}')
    } else if code == 177 {
        Some('\u{00B1}')
    } else if code == 178 {
        Some('\u{2264}')
    } else if code == 179 {
        Some('\u{2265}')
    } else if code == 180 {
        Some('\u{00A5}')
    } else if code == 181 {
        Some('\u{00B5}')
    } else if code == 182 {
        Some('\u{2202}')
    } else if code == 183 {
        Some('\u{2211}')
    } else if code == 184 {
        Some('\u{220F}')
    } else if code == 185 {
        Some('\u{03C0}')
    } else if code == 186 {
        Some('\u{222B}')
    } else if code == 187 {
        Some('\u{00AA}')
    } else if code == 188 {
        Some('\u{00BA}')
    } else if code == 189 {
        Some('\u{2126}')
    } else if code == 190 {
        Some('\u{00E6}')
    } else if code == 191 {
        Some('\u{00F8}')
    } else if code == 192 {
        Some('\u{00BF}')
    } else if code == 193 {
        Some('\u{00A1}')
    } else if code == 194 {
        Some('\u{00AC}')
    } else if code == 195 {
        Some('\u{221A}')
    } else if code == 196 {
        Some('\u{0192}')
    } else if code == 197 {
        Some('\u{2248}')
    } else if code == 198 {
        Some('\u{2206}')
    } else if code == 199 {
        Some('\u{00AB}')
    } else if code == 200 {
        Some('\u{00BB}')
    } else if code == 201 {
        Some('\u{2026}')
    } else if code == 202 {
        Some('\u{00A0}')
    } else if code == 203 {
        Some('\u{00C0}')
    } else if code == 204 {
        Some('\u{00C3}')
    } else if code == 205 {
        Some('\u{00D5}')
    } else if code == 206 {
        Some('\u{0152}')
    } else if code == 207 {
        Some('\u{0153}')
    } else if code == 208 {
        Some('\u{2013}')
    } else if code == 209 {
        Some('\u{2014}')
    } else if code == 210 {
        Some('\u{201C}')
    } else if code == 211 {
        Some('\u{201D}')
    } else if code == 212 {
        Some('\u{2018}')
    } else if code == 213 {
        Some('\u{2019}')
    } else if code == 214 {
        Some('\u{00F7}')
    } else if code == 215 {
        Some('\u{25CA}')
    } else if code == 216 {
        Some('\u{00FF}')
    } else if code == 217 {
        Some('\u{0178}')
    } else if code == 218 {
        Some('\u{2044}')
    } else if code == 219 {
        Some('\u{20AC}')
    } else if code == 220 {
        Some('\u{2039}')
    } else if code == 221 {
        Some('\u{203A}')
    } else if code == 222 {
        Some('\u{FB01}')
    } else if code == 223 {
        Some('\u{FB02}')
    } else if code == 224 {
        Some('\u{2021}')
    } else if code == 225 {
        Some('\u{00B7}')
    } else if code == 226 {
        Some('\u{201A}')
    } else if code == 227 {
        Some('\u{201E}')
    } else if code == 228 {
        Some('\u{2030}')
    } else if code == 229 {
        Some('\u{00C2}')
    } else if code == 230 {
        Some('\u{00CA}')
    } else if code == 231 {
        Some('\u{00C1}')
    } else if code == 232 {
        Some('\u{00CB}')
    } else if code == 233 {
        Some('\u{00C8}')
    } else if code == 234 {
        Some('\u{00CD}')
    } else if code == 235 {
        Some('\u{00CE}')
    } else if code == 236 {
        Some('\u{00CF}')
    } else if code == 237 {
        Some('\u{00CC}')
    } else if code == 238 {
        Some('\u{00D3}')
    } else if code == 239 {
        Some('\u{00D4}')
    } else if code == 240 {
        Some('\u{F8FF}')
    } else if code == 241 {
        Some('\u{00D2}')
    } else if code == 242 {
        Some('\u{00DA}')
    } else if code == 243 {
        Some('\u{00DB}')
    } else if code == 244 {
        Some('\u{00D9}')
    } else if code == 245 {
        Some('\u{0131}')
    } else if code == 246 {
        Some('\u{02C6}')
    } else if code == 247 {
        Some('\u{02DC}')
    } else if code == 248 {
        Some('\u{00AF}')
    } else if code == 249 {
        Some('\u{02D8}')
    } else if code == 250 {
        Some('\u{02D9}')
    } else if code == 251 {
        Some('\u{02DA}')
    } else if code == 252 {
        Some('\u{00B8}')
    } else if code == 253 {
        Some('\u{02DD}')
    } else if code == 254 {
        Some('\u{02DB}')
    } else if code == 255 {
        Some('\u{02C7}')
    } else {
        None
    }
}


/// The Adobe StandardEncoding table for codes past ASCII.
pub open spec fn spec_standard(code: u32) -> Option<char> {
    if code < 128 {
        Some(char_of(code))
    } else if code == 161 {
        Some('\u{00A1}')
    } else if code == 162 {
        Some('\u{00A2}')
    } else if code == 163 {
        Some('\u{00A3}')
    } else if code == 164 {
        Some('\u{2044}')
    } else if code == 165 {
        Some('\u{00A5}')
    } else if code == 166 {
        Some('\u{0192}')
    } else if code == 167 {
        Some('\u{00A7}')
    } else if code == 168 {
        Some('\u{00A4}')
    } else if code == 169 {
        Some('\u{0027}')
    } else if code == 170 {
        Some('\u{201C}')
    } else if code == 171 {
        Some('\u{00AB}')
    } else if code == 172 {
        Some('\u{2039}')
    } else if code == 173 {
        Some('\u{203A}')
    } else if code == 174 {
        Some('\u{FB01}')
    } else if code == 175 {
        Some('\u{FB02}')
    } else if code == 177 {
        Some('\u{2013}')
    } else if code == 178 {
        Some('\u{2020}')
    } else if code == 179 {
        Some('\u{2021}')
    } else if code == 180 {
        Some('\u{00B7}')
    } else if code == 183 {
        Some('\u{2022}')
    } else if code == 184 {
        Some('\u{201A}')
    } else if code == 185 {
        Some('\u{201E}')
    } else if code == 186 {
        Some('\u{201D}')
    } else if code == 187 {
        Some('\u{00BB}')
    } else if code == 188 {
        Some('\u{2026}')
    } else if code == 189 {
        Some('\u{2030}')
    } else if code == 193 {
        Some('\u{0060}')
    } else if code == 194 {
        Some('\u{00B4}')
    } else if code == 195 {
        Some('\u{02C6}')
    } else if code == 196 {
        Some('\u{02DC}')
    } else if code == 197 {
        Some('\u{00AF}')
    } else if code == 198 {
        Some('\u{02D8}')
    } else if code == 199 {
        Some('\u{02D9}')
    } else if code == 200 {
        Some('\u{00A8}')
    } else if code == 202 {
        Some('\u{02DA}')
    } else if code == 203 {
        Some('\u{00B8}')
    } else if code == 205 {
        Some('\u{02DD}')
    } else if code == 206 {
        Some('\u{02DB}')
    } else if code == 207 {
        Some('\u{02C7}')
    } else if code == 208 {
        Some('\u{2014}')
    } else if code == 225 {
        Some('\u{00C6}')
    } else if code == 227 {
        Some('\u{00AA}')
    } else if code == 232 {
        Some('\u{0141}')
    } else if code == 233 {
        Some('\u{00D8}')
    } else if code == 234 {
        Some('\u{0152}')
    } else if code == 235 {
        Some('\u{00BA}')
    } else if code == 241 {
        Some('\u{00E6}')
    } else if code == 245 {
        Some('\u{0131}')
    } else if code == 248 {
        Some('\u{0142}')
    } else if code == 249 {
        Some('\u{00F8}')
    } else if code == 250 {
        Some('\u{0153}')
    } else if code == 251 {
        Some('\u{00DF}')
    } else {
        None
    }
}


/// The PDFDocEncoding table: Latin-1 with a few substitutions.
pub open spec fn spec_pdf_doc(code: u32) -> Option<char> {
    if code == 128 {
        Some('\u{2022}')
    } else if code == 129 {
        Some('\u{2020}')
    } else if code == 130 {
        Some('\u{2021}')
    } else if code == 131 {
        Some('\u{2026}')
    } else if code == 132 {
        Some('\u{2014}')
    } else if code == 133 {
        Some('\u{2013}')
    } else if code == 134 {
        Some('\u{0192}')
    } else if code == 135 {
        Some('\u{2044}')
    } else if code == 136 {
        Some('\u{2039}')
    } else if code == 137 {
        Some('\u{203A}')
    } else if code == 138 {
        Some('\u{2212}')
    } else if code == 139 {
        Some('\u{2030}')
    } else if code == 140 {
        Some('\u{201E}')
    } else if code == 141 {
        Some('\u{201C}')
    } else if code == 142 {
        Some('\u{201D}')
    } else if code == 143 {
        Some('\u{2018}')
    } else if code == 144 {
        Some('\u{2019}')
    } else if code == 145 {
        Some('\u{201A}')
    } else if code == 146 {
        Some('\u{2122}')
    } else if code == 147 {
        Some('\u{FB01}')
    } else if code == 148 {
        Some('\u{FB02}')
    } else if code == 149 {
        Some('\u{0141}')
    } else if code == 150 {
        Some('\u{0152}')
    } else if code == 151 {
        Some('\u{0160}')
    } else if code == 152 {
        Some('\u{0178}')
    } else if code == 153 {
        Some('\u{017D}')
    } else if code == 154 {
        Some('\u{0131}')
    } else if code == 155 {
        Some('\u{0142}')
    } else if code == 156 {
        Some('\u{0153}')
    } else if code == 157 {
        Some('\u{0161}')
    } else if code == 158 {
        Some('\u{017E}')
    } else if code == 173 {
        Some('\u{00AD}')
    } else {
        if code <= 255 {
            Some(char_of(code))
        } else {
            None
        }
    }
}


/// Decode a code under the WinAnsi encoding.
pub fn win_ansi_decode(code: u32) -> (r: Option<char>)
    ensures
        r == spec_win_ansi(code),
{
    if code < 128 {
        let c = (code as u8) as char;
        proof {
            lemma_char_of(code, c);
        }
        return Some(c);
    }
    if code == 128 {
        return Some('\u{20AC}');
    }
    if code == 130 {
        return Some('\u{201A}');
    }
    if code == 131 {
        return Some('\u{0192}');
    }
    if code == 132 {
        return Some('\u{201E}');
    }
    if code == 133 {
        return Some('\u{2026}');
    }
    if code == 134 {
        return Some('\u{2020}');
    }
    if code == 135 {
        return Some('\u{2021}');
    }
    if code == 136 {
        return Some('\u{02C6}');
    }
    if code == 137 {
        return Some('\u{2030}');
    }
    if code == 138 {
        return Some('\u{0160}');
    }
    if code == 139 {
        return Some('\u{2039}');
    }
    if code == 140 {
        return Some('\u{0152}');
    }
    if code == 142 {
        return Some('\u{017D}');
    }
    if code == 145 {
        return Some('\u{2018}');
    }
    if code == 146 {
        return Some('\u{2019}');
    }
    if code == 147 {
        return Some('\u{201C}');
    }
    if code == 148 {
        return Some('\u{201D}');
    }
    if code == 149 {
        return Some('\u{2022}');
    }
    if code == 150 {
        return Some('\u{2013}');
    }
    if code == 151 {
        return Some('\u{2014}');
    }
    if code == 152 {
        return Some('\u{02DC}');
    }
    if code == 153 {
        return Some('\u{2122}');
    }
    if code == 154 {
        return Some('\u{0161}');
    }
    if code == 155 {
        return Some('\u{203A}');
    }
    if code == 156 {
        return Some('\u{0153}');
    }
    if code == 158 {
        return Some('\u{017E}');
    }
    if code == 159 {
        return Some('\u{0178}');
    }
    if 160 <= code && code <= 255 {
        let c = (code as u8) as char;
        proof {
            lemma_char_of(code, c);
        }
        Some(c)
    } else {
        None
    }
}

/// Decode a code under the MacRoman encoding.
pub fn mac_roman_decode(code: u32) -> (r: Option<char>)
    ensures
        r == spec_mac_roman(code),
{
    if code < 128 {
        let c = (code as u8) as char;
        proof {
            lemma_char_of(code, c);
        }
        return Some(c);
    }
    if code == 128 {
        return Some('\u{00C4}');
    }
    if code == 129 {
        return Some('\u{00C5}');
    }
    if code == 130 {
        return Some('\u{00C7}');
    }
    if code == 131 {
        return Some('\u{00C9}');
    }
    if code == 132 {
        return Some('\u{00D1}');
    }
    if code == 133 {
        return Some('\u{00D6}');
    }
    if code == 134 {
        return Some('\u{00DC}');
    }
    if code == 135 {
        return Some('\u{00E1}');
    }
    if code == 136 {
        return Some('\u{00E0}');
    }
    if code == 137 {
        return Some('\u{00E2}');
    }
    if code == 138 {
        return Some('\u{00E4}');
    }
    if code == 139 {
        return Some('\u{00E3}');
    }
    if code == 140 {
        return Some('\u{00E5}');
    }
    if code == 141 {
        return Some('\u{00E7}');
    }
    if code == 142 {
        return Some('\u{00E9}');
    }
    if code == 143 {
        return Some('\u{00E8}');
    }
    if code == 144 {
        return Some('\u{00EA}');
    }
    if code == 145 {
        return Some('\u{00EB}');
    }
    if code == 146 {
        return Some('\u{00ED}');
    }
    if code == 147 {
        return Some('\u{00EC}');
    }
    if code == 148 {
        return Some('\u{00EE}');
    }
    if code == 149 {
        return Some('\u{00EF}');
    }
    if code == 150 {
        return Some('\u{00F1}');
    }
    if code == 151 {
        return Some('\u{00F3}');
    }
    if code == 152 {
        return Some('\u{00F2}');
    }
    if code == 153 {
        return Some('\u{00F4}');
    }
    if code == 154 {
        return Some('\u{00F6}');
    }
    if code == 155 {
        return Some('\u{00F5}');
    }
    if code == 156 {
        return Some('\u{00FA}');
    }
    if code == 157 {
        return Some('\u{00F9}');
    }
    if code == 158 {
        return Some('\u{00FB}');
    }
    if code == 159 {
        return Some('\u{00FC}');
    }
    if code == 160 {
        return Some('\u{2020}');
    }
    if code == 161 {
        return Some('\u{00B0}');
    }
    if code == 162 {
        return Some('\u{00A2}');
    }
    if code == 163 {
        return Some('\u{00A3}');
    }
    if code == 164 {
        return Some('\u{00A7}');
    }
    if code == 165 {
        return Some('\u{2022}');
    }
    if code == 166 {
        return Some('\u{00B6}');
    }
    if code == 167 {
        return Some('\u{00DF}');
    }
    if code == 168 {
        return Some('\u{00AE}');
    }
    if code == 169 {
        return Some('\u{00A9}');
    }
    if code == 170 {
        return Some('\u{2122}');
    }
    if code == 171 {
        return Some('\u{00B4}');
    }
    if code == 172 {
        return Some('\u{00A8}');
    }
    if code == 173 {
        return Some('\u{2260}');
    }
    if code == 174 {
        return Some('\u{00C6}');
    }
    if code == 175 {
        return Some('\u{00D8}');
    }
    if code == 176 {
        return Some('\u{221E}');
    }
    if code == 177 {
        return Some('\u{00B1}');
    }
    if code == 178 {
        return Some('\u{2264}');
    }
    if code == 179 {
        return Some('\u{2265}');
    }
    if code == 180 {
        return Some('\u{00A5}');
    }
    if code == 181 {
        return Some('\u{00B5}');
    }
    if code == 182 {
        return Some('\u{2202}');
    }
    if code == 183 {
        return Some('\u{2211}');
    }
    if code == 184 {
        return Some('\u{220F}');
    }
    if code == 185 {
        return Some('\u{03C0}');
    }
    if code == 186 {
        return Some('\u{222B}');
    }
    if code == 187 {
        return Some('\u{00AA}');
    }
    if code == 188 {
        return Some('\u{00BA}');
    }
    if code == 189 {
        return Some('\u{2126}');
    }
    if code == 190 {
        return Some('\u{00E6}');
    }
    if code == 191 {
        return Some('\u{00F8}');
    }
    if code == 192 {
        return Some('\u{00BF}');
    }
    if code == 193 {
        return Some('\u{00A1}');
    }
    if code == 194 {
        return Some('\u{00AC}');
    }
    if code == 195 {
        return Some('\u{221A}');
    }
    if code == 196 {
        return Some('\u{0192}');
    }
    if code == 197 {
        return Some('\u{2248}');
    }
    if code == 198 {
        return Some('\u{2206}');
    }
    if code == 199 {
        return Some('\u{00AB}');
    }
    if code == 200 {
        return Some('\u{00BB}');
    }
    if code == 201 {
        return Some('\u{2026}');
    }
    if code == 202 {
        return Some('\u{00A0}');
    }
    if code == 203 {
        return Some('\u{00C0}');
    }
    if code == 204 {
        return Some('\u{00C3}');
    }
    if code == 205 {
        return Some('\u{00D5}');
    }
    if code == 206 {
        return Some('\u{0152}');
    }
    if code == 207 {
        return Some('\u{0153}');
    }
    if code == 208 {
        return Some('\u{2013}');
    }
    if code == 209 {
        return Some('\u{2014}');
    }
    if code == 210 {
        return Some('\u{201C}');
    }
    if code == 211 {
        return Some('\u{201D}');
    }
    if code == 212 {
        return Some('\u{2018}');
    }
    if code == 213 {
        return Some('\u{2019}');
    }
    if code == 214 {
        return Some('\u{00F7}');
    }
    if code == 215 {
        return Some('\u{25CA}');
    }
    if code == 216 {
        return Some('\u{00FF}');
    }
    if code == 217 {
        return Some('\u{0178}');
    }
    if code == 218 {
        return Some('\u{2044}');
    }
    if code == 219 {
        return Some('\u{20AC}');
    }
    if code == 220 {
        return Some('\u{2039}');
    }
    if code == 221 {
        return Some('\u{203A}');
    }
    if code == 222 {
        return Some('\u{FB01}');
    }
    if code == 223 {
        return Some('\u{FB02}');
    }
    if code == 224 {
        return Some('\u{2021}');
    }
    if code == 225 {
        return Some('\u{00B7}');
    }
    if code == 226 {
        return Some('\u{201A}');
    }
    if code == 227 {
        return Some('\u{201E}');
    }
    if code == 228 {
        return Some('\u{2030}');
    }
    if code == 229 {
        return Some('\u{00C2}');
    }
    if code == 230 {
        return Some('\u{00CA}');
    }
    if code == 231 {
        return Some('\u{00C1}');
    }
    if code == 232 {
        return Some('\u{00CB}');
    }
    if code == 233 {
        return Some('\u{00C8}');
    }
    if code == 234 {
        return Some('\u{00CD}');
    }
    if code == 235 {
        return Some('\u{00CE}');
    }
    if code == 236 {
        return Some('\u{00CF}');
    }
    if code == 237 {
        return Some('\u{00CC}');
    }
    if code == 238 {
        return Some('\u{00D3}');
    }
    if code == 239 {
        return Some('\u{00D4}');
    }
    if code == 240 {
        return Some('\u{F8FF}');
    }
    if code == 241 {
        return Some('\u{00D2}');
    }
    if code == 242 {
        return Some('\u{00DA}');
    }
    if code == 243 {
        return Some('\u{00DB}');
    }
    if code == 244 {
        return Some('\u{00D9}');
    }
    if code == 245 {
        return Some('\u{0131}');
    }
    if code == 246 {
        return Some('\u{02C6}');
    }
    if code == 247 {
        return Some('\u{02DC}');
    }
    if code == 248 {
        return Some('\u{00AF}');
    }
    if code == 249 {
        return Some('\u{02D8}');
    }
    if code == 250 {
        return Some('\u{02D9}');
    }
    if code == 251 {
        return Some('\u{02DA}');
    }
    if code == 252 {
        return Some('\u{00B8}');
    }
    if code == 253 {
        return Some('\u{02DD}');
    }
    if code == 254 {
        return Some('\u{02DB}');
    }
    if code == 255 {
        return Some('\u{02C7}');
    }
    None
}

/// Decode a code under the standard encoding; codes the table does not
/// name are undefined.
pub fn standard_decode(code: u32) -> (r: Option<char>)
    ensures
        r == spec_standard(code),
{
    if code < 128 {
        let c = (code as u8) as char;
        proof {
            lemma_char_of(code, c);
        }
        return Some(c);
    }
    if code == 161 {
        return Some('\u{00A1}');
    }
    if code == 162 {
        return Some('\u{00A2}');
    }
    if code == 163 {
        return Some('\u{00A3}');
    }
    if code == 164 {
        return Some('\u{2044}');
    }
    if code == 165 {
        return Some('\u{00A5}');
    }
    if code == 166 {
        return Some('\u{0192}');
    }
    if code == 167 {
        return Some('\u{00A7}');
    }
    if code == 168 {
        return Some('\u{00A4}');
    }
    if code == 169 {
        return Some('\u{0027}');
    }
    if code == 170 {
        return Some('\u{201C}');
    }
    if code == 171 {
        return Some('\u{00AB}');
    }
    if code == 172 {
        return Some('\u{2039}');
    }
    if code == 173 {
        return Some('\u{203A}');
    }
    if code == 174 {
        return Some('\u{FB01}');
    }
    if code == 175 {
        return Some('\u{FB02}');
    }
    if code == 177 {
        return Some('\u{2013}');
    }
    if code == 178 {
        return Some('\u{2020}');
    }
    if code == 179 {
        return Some('\u{2021}');
    }
    if code == 180 {
        return Some('\u{00B7}');
    }
    if code == 183 {
        return Some('\u{2022}');
    }
    if code == 184 {
        return Some('\u{201A}');
    }
    if code == 185 {
        return Some('\u{201E}');
    }
    if code == 186 {
        return Some('\u{201D}');
    }
    if code == 187 {
        return Some('\u{00BB}');
    }
    if code == 188 {
        return Some('\u{2026}');
    }
    if code == 189 {
        return Some('\u{2030}');
    }
    if code == 193 {
        return Some('\u{0060}');
    }
    if code == 194 {
        return Some('\u{00B4}');
    }
    if code == 195 {
        return Some('\u{02C6}');
    }
    if code == 196 {
        return Some('\u{02DC}');
    }
    if code == 197 {
        return Some('\u{00AF}');
    }
    if code == 198 {
        return Some('\u{02D8}');
    }
    if code == 199 {
        return Some('\u{02D9}');
    }
    if code == 200 {
        return Some('\u{00A8}');
    }
    if code == 202 {
        return Some('\u{02DA}');
    }
    if code == 203 {
        return Some('\u{00B8}');
    }
    if code == 205 {
        return Some('\u{02DD}');
    }
    if code == 206 {
        return Some('\u{02DB}');
    }
    if code == 207 {
        return Some('\u{02C7}');
    }
    if code == 208 {
        return Some('\u{2014}');
    }
    if code == 225 {
        return Some('\u{00C6}');
    }
    if code == 227 {
        return Some('\u{00AA}');
    }
    if code == 232 {
        return Some('\u{0141}');
    }
    if code == 233 {
        return Some('\u{00D8}');
    }
    if code == 234 {
        return Some('\u{0152}');
    }
    if code == 235 {
        return Some('\u{00BA}');
    }
    if code == 241 {
        return Some('\u{00E6}');
    }
    if code == 245 {
        return Some('\u{0131}');
    }
    if code == 248 {
        return Some('\u{0142}');
    }
    if code == 249 {
        return Some('\u{00F8}');
    }
    if code == 250 {
        return Some('\u{0153}');
    }
    if code == 251 {
        return Some('\u{00DF}');
    }
    None
}

/// Decode a code under the document encoding: Latin-1-like over one
/// byte, undefined beyond it.
pub fn pdf_doc_decode(code: u32) -> (r: Option<char>)
    ensures
        r == spec_pdf_doc(code),
{
    if code == 128 {
        return Some('\u{2022}');
    }
    if code == 129 {
        return Some('\u{2020}');
    }
    if code == 130 {
        return Some('\u{2021}');
    }
    if code == 131 {
        return Some('\u{2026}');
    }
    if code == 132 {
        return Some('\u{2014}');
    }
    if code == 133 {
        return Some('\u{2013}');
    }
    if code == 134 {
        return Some('\u{0192}');
    }
    if code == 135 {
        return Some('\u{2044}');
    }
    if code == 136 {
        return Some('\u{2039}');
    }
    if code == 137 {
        return Some('\u{203A}');
    }
    if code == 138 {
        return Some('\u{2212}');
    }
    if code == 139 {
        return Some('\u{2030}');
    }
    if code == 140 {
        return Some('\u{201E}');
    }
    if code == 141 {
        return Some('\u{201C}');
    }
    if code == 142 {
        return Some('\u{201D}');
    }
    if code == 143 {
        return Some('\u{2018}');
    }
    if code == 144 {
        return Some('\u{2019}');
    }
    if code == 145 {
        return Some('\u{201A}');
    }
    if code == 146 {
        return Some('\u{2122}');
    }
    if code == 147 {
        return Some('\u{FB01}');
    }
    if code == 148 {
        return Some('\u{FB02}');
    }
    if code == 149 {
        return Some('\u{0141}');
    }
    if code == 150 {
        return Some('\u{0152}');
    }
    if code == 151 {
        return Some('\u{0160}');
    }
    if code == 152 {
        return Some('\u{0178}');
    }
    if code == 153 {
        return Some('\u{017D}');
    }
    if code == 154 {
        return Some('\u{0131}');
    }
    if code == 155 {
        return Some('\u{0142}');
    }
    if code == 156 {
        return Some('\u{0153}');
    }
    if code == 157 {
        return Some('\u{0161}');
    }
    if code == 158 {
        return Some('\u{017E}');
    }
    if code == 173 {
        return Some('\u{00AD}');
    }
    if code <= 255 {
        let c = (code as u8) as char;
        proof {
            lemma_char_of(code, c);
        }
        Some(c)
    } else {
        None
    }
}

impl Encoding {
    /// What decoding yields for each variant: overrides first, then the
    /// base table; the identity encoding maps a code to its own point.
    pub open spec fn spec_decode(self, code: u32) -> Option<char>
        decreases self,
    {
        match self {
            Encoding::Custom { base, overrides } => if overrides@.contains_key(code) {
                Some(overrides@[code])
            } else {
                base.spec_decode(code)
            },
            Encoding::WinAnsi => spec_win_ansi(code),
            Encoding::MacRoman => spec_mac_roman(code),
            Encoding::Standard => spec_standard(code),
            Encoding::PDFDoc => spec_pdf_doc(code),
            Encoding::Identity => if scalar_ok(code) {
                Some(char_of(code))
            } else {
                None
            },
            Encoding::MacExpert => spec_standard(code),
        }
    }

    /// Select the encoding a name names; unknown names fall back to the
    /// standard encoding.
    pub fn from_name(name: &[u8]) -> (r: Self)
        ensures
            r == Encoding::spec_from_name(name@),
    {
        if bytes_eq(name, "WinAnsiEncoding".as_bytes()) {
            Encoding::WinAnsi
        } else if bytes_eq(name, "MacRomanEncoding".as_bytes()) {
            Encoding::MacRoman
        } else if bytes_eq(name, "StandardEncoding".as_bytes()) {
            Encoding::Standard
        } else if bytes_eq(name, "PDFDocEncoding".as_bytes()) {
            Encoding::PDFDoc
        } else if bytes_eq(name, "MacExpertEncoding".as_bytes()) {
            Encoding::MacExpert
        } else if bytes_eq(name, "Identity-H".as_bytes()) || bytes_eq(name, "Identity-V".as_bytes()) {
            Encoding::Identity
        } else {
            Encoding::Standard
        }
    }

    pub open spec fn spec_from_name(name: Seq<u8>) -> Encoding {
        if name == "WinAnsiEncoding".spec_bytes() {
            Encoding::WinAnsi
        } else if name == "MacRomanEncoding".spec_bytes() {
            Encoding::MacRoman
        } else if name == "StandardEncoding".spec_bytes() {
            Encoding::Standard
        } else if name == "PDFDocEncoding".spec_bytes() {
            Encoding::PDFDoc
        } else if name == "MacExpertEncoding".spec_bytes() {
            Encoding::MacExpert
        } else if name == "Identity-H".spec_bytes() || name == "Identity-V".spec_bytes() {
            Encoding::Identity
        } else {
            Encoding::Standard
        }
    }

    /// Choose an encoding for a standard font with no explicit encoding
    /// entry: symbolic fonts keep the standard tables, the rest use
    /// WinAnsi.
    pub fn from_base_font(base_font: &str) -> (r: Self)
        ensures
            r == Encoding::spec_from_base_font(base_font@),
    {
        if str_contains(base_font, "Symbol") {
            Encoding::Standard
        } else if str_contains(base_font, "ZapfDingbats") {
            Encoding::Standard
        } else {
            Encoding::WinAnsi
        }
    }

    pub open spec fn spec_from_base_font(base_font: Seq<char>) -> Encoding {
        if contains_seq(base_font, "Symbol"@) || contains_seq(base_font, "ZapfDingbats"@) {
            Encoding::Standard
        } else {
            Encoding::WinAnsi
        }
    }

    /// Decode a character code under this encoding.
    pub fn decode(&self, code: u32) -> (r: Option<char>)
        ensures
            r == self.spec_decode(code),
        decreases *self,
    {
        match self {
            Encoding::Custom { base, overrides } => {
                match overrides.get(&code) {
                    Some(c) => Some(*c),
                    None => base.decode(code),
                }
            },
            Encoding::WinAnsi => win_ansi_decode(code),
            Encoding::MacRoman => mac_roman_decode(code),
            Encoding::Standard => standard_decode(code),
            Encoding::PDFDoc => pdf_doc_decode(code),
            Encoding::Identity => {
                let r = char_from_u32(code);
                proof {
                    if r is Some {
                        lemma_char_of(code, r->0);
                    }
                }
                r
            },
            Encoding::MacExpert => standard_decode(code),
        }
    }
}

/// Whether two byte strings hold the same bytes.
pub fn bytes_eq(a: &[u8], b: &[u8]) -> (r: bool)
    ensures
        r == (a@ == b@),
{
    if a.len() != b.len() {
        proof {
            assert(a@.len() != b@.len());
        }
        return false;
    }
    let n = a.len();
    let mut i: usize = 0;
    while i < n
        invariant
            n == a@.len() && n == b@.len(),
            0 <= i <= n,
            forall|k: int| 0 <= k < i ==> a@[k] == b@[k],
        decreases n - i,
    {
        if a[i] != b[i] {
            return false;
        }
        i += 1;
    }
    proof {
        assert(a@ =~= b@);
    }
    true
}

/// Whether two strings hold the same characters.
pub fn str_eq(a: &str, b: &str) -> (r: bool)
    ensures
        r == (a@ == b@),
{
    let la = a.unicode_len();
    let lb = b.unicode_len();
    if la != lb {
        proof {
            assert(a@.len() != b@.len());
        }
        return false;
    }
    let mut i: usize = 0;
    while i < la
        invariant
            la == a@.len() && la == b@.len(),
            0 <= i <= la,
            forall|k: int| 0 <= k < i ==> a@[k] == b@[k],
        decreases la - i,
    {
        if a.get_char(i) != b.get_char(i) {
            return false;
        }
        i += 1;
    }
    proof {
        assert(a@ =~= b@);
    }
    true
}

/// Whether `pat` occurs as a contiguous run inside `s`.
pub open spec fn contains_seq(s: Seq<char>, pat: Seq<char>) -> bool {
    exists|i: int| 0 <= i && i + pat.len() <= s.len() && (#[trigger] s.subrange(i, i + pat.len())) == pat
}

/// Whether `pat` matches `s` at offset `i`.
fn match_at(s: &str, pat: &str, i: usize, n: usize, m: usize) -> (r: bool)
    requires
        n == s@.len(),
        m == pat@.len(),
        i + m <= n,
    ensures
        r == (s@.subrange(i as int, i as int + pat@.len()) == pat@),
{
    let mut k: usize = 0;
    while k < m
        invariant
            n == s@.len() && m == pat@.len(),
            i + m <= n,
            0 <= k <= m,
            forall|t: int| 0 <= t < k ==> s@[i as int + t] == pat@[t],
        decreases m - k,
    {
        if s.get_char(i + k) != pat.get_char(k) {
            proof {
                assert(s@.subrange(i as int, i as int + pat@.len())[k as int] == s@[i as int + k as int]);
            }
            return false;
        }
        k += 1;
    }
    proof {
        assert(s@.subrange(i as int, i as int + pat@.len()) =~= pat@);
    }
    true
}

/// Substring search by direct comparison at every offset.
pub fn str_contains(s: &str, pat: &str) -> (r: bool)
    ensures
        r == contains_seq(s@, pat@),
{
    let n = s.unicode_len();
    let m = pat.unicode_len();
    if m > n {
        return false;
    }
    if m == 0 {
        proof {
            assert(s@.subrange(0, 0 + pat@.len() as int) =~= pat@);
        }
        return true;
    }
    let mut i: usize = 0;
    loop
        invariant
            n == s@.len() && m == pat@.len(),
            1 <= m <= n,
            0 <= i <= n - m + 1,
            forall|j: int| 0 <= j < i ==> (#[trigger] s@.subrange(j, j + pat@.len())) != pat@,
        ensures
            forall|j: int|
                0 <= j && j + pat@.len() <= s@.len()
                    ==> (#[trigger] s@.subrange(j, j + pat@.len())) != pat@,
        decreases n - m + 1 - i,
    {
        if i > n - m {
            break;
        }
        if match_at(s, pat, i, n, m) {
            proof {
                assert(s@.subrange(i as int, i as int + pat@.len()) == pat@);
            }
            return true;
        }
        i += 1;
    }
    false
}

/// The value of a hexadecimal digit, or 16 for other characters.
pub open spec fn spec_hexval(c: char) -> u32 {
    if '0' <= c && c <= '9' {
        (c as u32 - '0' as u32) as u32
    } else if 'a' <= c && c <= 'f' {
        (c as u32 - 'a' as u32 + 10) as u32
    } else if 'A' <= c && c <= 'F' {
        (c as u32 - 'A' as u32 + 10) as u32
    } else {
        16
    }
}

/// The value of a hexadecimal digit character.
pub fn hexval(c: char) -> (r: u32)
    ensures
        r == spec_hexval(c),
{
    if '0' <= c && c <= '9' {
        c as u32 - '0' as u32
    } else if 'a' <= c && c <= 'f' {
        c as u32 - 'a' as u32 + 10
    } else if 'A' <= c && c <= 'F' {
        c as u32 - 'A' as u32 + 10
    } else {
        16
    }
}

/// The code point named by a glyph name of the form "uniXXXX", if the four
/// trailing characters are hexadecimal digits.
pub open spec fn spec_uni_form(s: Seq<char>) -> Option<u32> {
    if s.len() == 7 && s[0] == 'u' && s[1] == 'n' && s[2] == 'i' && spec_hexval(s[3]) < 16
        && spec_hexval(s[4]) < 16 && spec_hexval(s[5]) < 16 && spec_hexval(s[6]) < 16 {
        Some((spec_hexval(s[3]) * 4096 + spec_hexval(s[4]) * 256 + spec_hexval(s[5]) * 16
            + spec_hexval(s[6])) as u32)
    } else {
        None
    }
}


/// The glyph-name table: what `glyph_name_to_char` returns for each name.
pub open spec fn spec_glyph_name(s: Seq<char>) -> Option<char> {
    if spec_uni_form(s) is Some {
        if scalar_ok(spec_uni_form(s)->0) {
            Some(char_of(spec_uni_form(s)->0))
        } else {
            None
        }
    } else if s == "space"@ {
        Some(' ')
    } else if s == "exclam"@ {
        Some('!')
    } else if s == "quotedbl"@ {
        Some('\"')
    } else if s == "numbersign"@ {
        Some('#')
    } else if s == "dollar"@ {
        Some('$')
    } else if s == "percent"@ {
        Some('%')
    } else if s == "ampersand"@ {
        Some('&')
    } else if s == "quotesingle"@ {
        Some('\'')
    } else if s == "parenleft"@ {
        Some('(')
    } else if s == "parenright"@ {
        Some(')')
    } else if s == "asterisk"@ {
        Some('*')
    } else if s == "plus"@ {
        Some('+')
    } else if s == "comma"@ {
        Some(',')
    } else if s == "hyphen"@ {
        Some('-')
    } else if s == "minus"@ {
        Some('-')
    } else if s == "period"@ {
        Some('.')
    } else if s == "slash"@ {
        Some('/')
    } else if s == "zero"@ {
        Some('0')
    } else if s == "one"@ {
        Some('1')
    } else if s == "two"@ {
        Some('2')
    } else if s == "three"@ {
        Some('3')
    } else if s == "four"@ {
        Some('4')
    } else if s == "five"@ {
        Some('5')
    } else if s == "six"@ {
        Some('6')
    } else if s == "seven"@ {
        Some('7')
    } else if s == "eight"@ {
        Some('8')
    } else if s == "nine"@ {
        Some('9')
    } else if s == "colon"@ {
        Some(':')
    } else if s == "semicolon"@ {
        Some(';')
    } else if s == "less"@ {
        Some('<')
    } else if s == "equal"@ {
        Some('=')
    } else if s == "greater"@ {
        Some('>')
    } else if s == "question"@ {
        Some('?')
    } else if s == "at"@ {
        Some('@')
    } else if s == "bracketleft"@ {
        Some('[')
    } else if s == "backslash"@ {
        Some('\\')
    } else if s == "bracketright"@ {
        Some(']')
    } else if s == "asciicircum"@ {
        Some('^')
    } else if s == "underscore"@ {
        Some('_')
    } else if s == "grave"@ {
        Some('`')
    } else if s == "braceleft"@ {
        Some('{')
    } else if s == "bar"@ {
        Some('|')
    } else if s == "braceright"@ {
        Some('}')
    } else if s == "asciitilde"@ {
        Some('~')
    } else if s == "bullet"@ {
        Some('\u{2022}')
    } else if s == "endash"@ {
        Some('\u{2013}')
    } else if s == "emdash"@ {
        Some('\u{2014}')
    } else if s == "quotedblleft"@ {
        Some('\u{201C}')
    } else if s == "quotedblright"@ {
        Some('\u{201D}')
    } else if s == "quoteleft"@ {
        Some('\u{2018}')
    } else if s == "quoteright"@ {
        Some('\u{2019}')
    } else if s == "fi"@ {
        Some('\u{FB01}')
    } else if s == "fl"@ {
        Some('\u{FB02}')
    } else if s == "ellipsis"@ {
        Some('\u{2026}')
    } else if s == "dagger"@ {
        Some('\u{2020}')
    } else if s == "daggerdbl"@ {
        Some('\u{2021}')
    } else if s == "circumflex"@ {
        Some('\u{02C6}')
    } else if s == "tilde"@ {
        Some('\u{02DC}')
    } else if s == "degree"@ {
        Some('\u{00B0}')
    } else if s == "cent"@ {
        Some('\u{00A2}')
    } else if s == "sterling"@ {
        Some('\u{00A3}')
    } else if s == "yen"@ {
        Some('\u{00A5}')
    } else if s == "Euro"@ {
        Some('\u{20AC}')
    } else if s == "copyright"@ {
        Some('\u{00A9}')
    } else if s == "registered"@ {
        Some('\u{00AE}')
    } else if s == "trademark"@ {
        Some('\u{2122}')
    } else if s == "section"@ {
        Some('\u{00A7}')
    } else if s == "paragraph"@ {
        Some('\u{00B6}')
    } else if s == "germandbls"@ {
        Some('\u{00DF}')
    } else if s == "Agrave"@ {
        Some('\u{00C0}')
    } else if s == "Aacute"@ {
        Some('\u{00C1}')
    } else if s == "Acircumflex"@ {
        Some('\u{00C2}')
    } else if s == "Atilde"@ {
        Some('\u{00C3}')
    } else if s == "Adieresis"@ {
        Some('\u{00C4}')
    } else if s == "Aring"@ {
        Some('\u{00C5}')
    } else if s == "AE"@ {
        Some('\u{00C6}')
    } else if s == "Ccedilla"@ {
        Some('\u{00C7}')
    } else if s == "Egrave"@ {
        Some('\u{00C8}')
    } else if s == "Eacute"@ {
        Some('\u{00C9}')
    } else if s == "Ecircumflex"@ {
        Some('\u{00CA}')
    } else if s == "Edieresis"@ {
        Some('\u{00CB}')
    } else if s == "Igrave"@ {
        Some('\u{00CC}')
    } else if s == "Iacute"@ {
        Some('\u{00CD}')
    } else if s == "Icircumflex"@ {
        Some('\u{00CE}')
    } else if s == "Idieresis"@ {
        Some('\u{00CF}')
    } else if s == "Ntilde"@ {
        Some('\u{00D1}')
    } else if s == "Ograve"@ {
        Some('\u{00D2}')
    } else if s == "Oacute"@ {
        Some('\u{00D3}')
    } else if s == "Ocircumflex"@ {
        Some('\u{00D4}')
    } else if s == "Otilde"@ {
        Some('\u{00D5}')
    } else if s == "Odieresis"@ {
        Some('\u{00D6}')
    } else if s == "Oslash"@ {
        Some('\u{00D8}')
    } else if s == "Ugrave"@ {
        Some('\u{00D9}')
    } else if s == "Uacute"@ {
        Some('\u{00DA}')
    } else if s == "Ucircumflex"@ {
        Some('\u{00DB}')
    } else if s == "Udieresis"@ {
        Some('\u{00DC}')
    } else if s == "Yacute"@ {
        Some('\u{00DD}')
    } else if s == "agrave"@ {
        Some('\u{00E0}')
    } else if s == "aacute"@ {
        Some('\u{00E1}')
    } else if s == "acircumflex"@ {
        Some('\u{00E2}')
    } else if s == "atilde"@ {
        Some('\u{00E3}')
    } else if s == "adieresis"@ {
        Some('\u{00E4}')
    } else if s == "aring"@ {
        Some('\u{00E5}')
    } else if s == "ae"@ {
        Some('\u{00E6}')
    } else if s == "ccedilla"@ {
        Some('\u{00E7}')
    } else if s == "egrave"@ {
        Some('\u{00E8}')
    } else if s == "eacute"@ {
        Some('\u{00E9}')
    } else if s == "ecircumflex"@ {
        Some('\u{00EA}')
    } else if s == "edieresis"@ {
        Some('\u{00EB}')
    } else if s == "igrave"@ {
        Some('\u{00EC}')
    } else if s == "iacute"@ {
        Some('\u{00ED}')
    } else if s == "icircumflex"@ {
        Some('\u{00EE}')
    } else if s == "idieresis"@ {
        Some('\u{00EF}')
    } else if s == "ntilde"@ {
        Some('\u{00F1}')
    } else if s == "ograve"@ {
        Some('\u{00F2}')
    } else if s == "oacute"@ {
        Some('\u{00F3}')
    } else if s == "ocircumflex"@ {
        Some('\u{00F4}')
    } else if s == "otilde"@ {
        Some('\u{00F5}')
    } else if s == "odieresis"@ {
        Some('\u{00F6}')
    } else if s == "oslash"@ {
        Some('\u{00F8}')
    } else if s == "ugrave"@ {
        Some('\u{00F9}')
    } else if s == "uacute"@ {
        Some('\u{00FA}')
    } else if s == "ucircumflex"@ {
        Some('\u{00FB}')
    } else if s == "udieresis"@ {
        Some('\u{00FC}')
    } else if s == "yacute"@ {
        Some('\u{00FD}')
    } else if s == "ydieresis"@ {
        Some('\u{00FF}')
    } else if s.len() == 1 {
        Some(s[0])
    } else {
        None
    }
}


/// Map an Adobe glyph name to its character.
pub fn glyph_name_to_char(name: &str) -> (r: Option<char>)
    ensures
        r == spec_glyph_name(name@),
{
    let n = name.unicode_len();
    if n == 7 {
        let c0 = name.get_char(0);
        let c1 = name.get_char(1);
        let c2 = name.get_char(2);
        if c0 == 'u' && c1 == 'n' && c2 == 'i' {
            let h0 = hexval(name.get_char(3));
            let h1 = hexval(name.get_char(4));
            let h2 = hexval(name.get_char(5));
            let h3 = hexval(name.get_char(6));
            if h0 < 16 && h1 < 16 && h2 < 16 && h3 < 16 {
                let v: u32 = h0 * 4096 + h1 * 256 + h2 * 16 + h3;
                let r = char_from_u32(v);
                proof {
                    if r is Some {
                        lemma_char_of(v, r->0);
                    }
                }
                return r;
            }
        }
    }
    if str_eq(name, "space") {
        return Some(' ');
    }
    if str_eq(name, "exclam") {
        return Some('!');
    }
    if str_eq(name, "quotedbl") {
        return Some('\"');
    }
    if str_eq(name, "numbersign") {
        return Some('#');
    }
    if str_eq(name, "dollar") {
        return Some('$');
    }
    if str_eq(name, "percent") {
        return Some('%');
    }
    if str_eq(name, "ampersand") {
        return Some('&');
    }
    if str_eq(name, "quotesingle") {
        return Some('\'');
    }
    if str_eq(name, "parenleft") {
        return Some('(');
    }
    if str_eq(name, "parenright") {
        return Some(')');
    }
    if str_eq(name, "asterisk") {
        return Some('*');
    }
    if str_eq(name, "plus") {
        return Some('+');
    }
    if str_eq(name, "comma") {
        return Some(',');
    }
    if str_eq(name, "hyphen") {
        return Some('-');
    }
    if str_eq(name, "minus") {
        return Some('-');
    }
    if str_eq(name, "period") {
        return Some('.');
    }
    if str_eq(name, "slash") {
        return Some('/');
    }
    if str_eq(name, "zero") {
        return Some('0');
    }
    if str_eq(name, "one") {
        return Some('1');
    }
    if str_eq(name, "two") {
        return Some('2');
    }
    if str_eq(name, "three") {
        return Some('3');
    }
    if str_eq(name, "four") {
        return Some('4');
    }
    if str_eq(name, "five") {
        return Some('5');
    }
    if str_eq(name, "six") {
        return Some('6');
    }
    if str_eq(name, "seven") {
        return Some('7');
    }
    if str_eq(name, "eight") {
        return Some('8');
    }
    if str_eq(name, "nine") {
        return Some('9');
    }
    if str_eq(name, "colon") {
        return Some(':');
    }
    if str_eq(name, "semicolon") {
        return Some(';');
    }
    if str_eq(name, "less") {
        return Some('<');
    }
    if str_eq(name, "equal") {
        return Some('=');
    }
    if str_eq(name, "greater") {
        return Some('>');
    }
    if str_eq(name, "question") {
        return Some('?');
    }
    if str_eq(name, "at") {
        return Some('@');
    }
    if str_eq(name, "bracketleft") {
        return Some('[');
    }
    if str_eq(name, "backslash") {
        return Some('\\');
    }
    if str_eq(name, "bracketright") {
        return Some(']');
    }
    if str_eq(name, "asciicircum") {
        return Some('^');
    }
    if str_eq(name, "underscore") {
        return Some('_');
    }
    if str_eq(name, "grave") {
        return Some('`');
    }
    if str_eq(name, "braceleft") {
        return Some('{');
    }
    if str_eq(name, "bar") {
        return Some('|');
    }
    if str_eq(name, "braceright") {
        return Some('}');
    }
    if str_eq(name, "asciitilde") {
        return Some('~');
    }
    if str_eq(name, "bullet") {
        return Some('\u{2022}');
    }
    if str_eq(name, "endash") {
        return Some('\u{2013}');
    }
    if str_eq(name, "emdash") {
        return Some('\u{2014}');
    }
    if str_eq(name, "quotedblleft") {
        return Some('\u{201C}');
    }
    if str_eq(name, "quotedblright") {
        return Some('\u{201D}');
    }
    if str_eq(name, "quoteleft") {
        return Some('\u{2018}');
    }
    if str_eq(name, "quoteright") {
        return Some('\u{2019}');
    }
    if str_eq(name, "fi") {
        return Some('\u{FB01}');
    }
    if str_eq(name, "fl") {
        return Some('\u{FB02}');
    }
    if str_eq(name, "ellipsis") {
        return Some('\u{2026}');
    }
    if str_eq(name, "dagger") {
        return Some('\u{2020}');
    }
    if str_eq(name, "daggerdbl") {
        return Some('\u{2021}');
    }
    if str_eq(name, "circumflex") {
        return Some('\u{02C6}');
    }
    if str_eq(name, "tilde") {
        return Some('\u{02DC}');
    }
    if str_eq(name, "degree") {
        return Some('\u{00B0}');
    }
    if str_eq(name, "cent") {
        return Some('\u{00A2}');
    }
    if str_eq(name, "sterling") {
        return Some('\u{00A3}');
    }
    if str_eq(name, "yen") {
        return Some('\u{00A5}');
    }
    if str_eq(name, "Euro") {
        return Some('\u{20AC}');
    }
    if str_eq(name, "copyright") {
        return Some('\u{00A9}');
    }
    if str_eq(name, "registered") {
        return Some('\u{00AE}');
    }
    if str_eq(name, "trademark") {
        return Some('\u{2122}');
    }
    if str_eq(name, "section") {
        return Some('\u{00A7}');
    }
    if str_eq(name, "paragraph") {
        return Some('\u{00B6}');
    }
    if str_eq(name, "germandbls") {
        return Some('\u{00DF}');
    }
    if str_eq(name, "Agrave") {
        return Some('\u{00C0}');
    }
    if str_eq(name, "Aacute") {
        return Some('\u{00C1}');
    }
    if str_eq(name, "Acircumflex") {
        return Some('\u{00C2}');
    }
    if str_eq(name, "Atilde") {
        return Some('\u{00C3}');
    }
    if str_eq(name, "Adieresis") {
        return Some('\u{00C4}');
    }
    if str_eq(name, "Aring") {
        return Some('\u{00C5}');
    }
    if str_eq(name, "AE") {
        return Some('\u{00C6}');
    }
    if str_eq(name, "Ccedilla") {
        return Some('\u{00C7}');
    }
    if str_eq(name, "Egrave") {
        return Some('\u{00C8}');
    }
    if str_eq(name, "Eacute") {
        return Some('\u{00C9}');
    }
    if str_eq(name, "Ecircumflex") {
        return Some('\u{00CA}');
    }
    if str_eq(name, "Edieresis") {
        return Some('\u{00CB}');
    }
    if str_eq(name, "Igrave") {
        return Some('\u{00CC}');
    }
    if str_eq(name, "Iacute") {
        return Some('\u{00CD}');
    }
    if str_eq(name, "Icircumflex") {
        return Some('\u{00CE}');
    }
    if str_eq(name, "Idieresis") {
        return Some('\u{00CF}');
    }
    if str_eq(name, "Ntilde") {
        return Some('\u{00D1}');
    }
    if str_eq(name, "Ograve") {
        return Some('\u{00D2}');
    }
    if str_eq(name, "Oacute") {
        return Some('\u{00D3}');
    }
    if str_eq(name, "Ocircumflex") {
        return Some('\u{00D4}');
    }
    if str_eq(name, "Otilde") {
        return Some('\u{00D5}');
    }
    if str_eq(name, "Odieresis") {
        return Some('\u{00D6}');
    }
    if str_eq(name, "Oslash") {
        return Some('\u{00D8}');
    }
    if str_eq(name, "Ugrave") {
        return Some('\u{00D9}');
    }
    if str_eq(name, "Uacute") {
        return Some('\u{00DA}');
    }
    if str_eq(name, "Ucircumflex") {
        return Some('\u{00DB}');
    }
    if str_eq(name, "Udieresis") {
        return Some('\u{00DC}');
    }
    if str_eq(name, "Yacute") {
        return Some('\u{00DD}');
    }
    if str_eq(name, "agrave") {
        return Some('\u{00E0}');
    }
    if str_eq(name, "aacute") {
        return Some('\u{00E1}');
    }
    if str_eq(name, "acircumflex") {
        return Some('\u{00E2}');
    }
    if str_eq(name, "atilde") {
        return Some('\u{00E3}');
    }
    if str_eq(name, "adieresis") {
        return Some('\u{00E4}');
    }
    if str_eq(name, "aring") {
        return Some('\u{00E5}');
    }
    if str_eq(name, "ae") {
        return Some('\u{00E6}');
    }
    if str_eq(name, "ccedilla") {
        return Some('\u{00E7}');
    }
    if str_eq(name, "egrave") {
        return Some('\u{00E8}');
    }
    if str_eq(name, "eacute") {
        return Some('\u{00E9}');
    }
    if str_eq(name, "ecircumflex") {
        return Some('\u{00EA}');
    }
    if str_eq(name, "edieresis") {
        return Some('\u{00EB}');
    }
    if str_eq(name, "igrave") {
        return Some('\u{00EC}');
    }
    if str_eq(name, "iacute") {
        return Some('\u{00ED}');
    }
    if str_eq(name, "icircumflex") {
        return Some('\u{00EE}');
    }
    if str_eq(name, "idieresis") {
        return Some('\u{00EF}');
    }
    if str_eq(name, "ntilde") {
        return Some('\u{00F1}');
    }
    if str_eq(name, "ograve") {
        return Some('\u{00F2}');
    }
    if str_eq(name, "oacute") {
        return Some('\u{00F3}');
    }
    if str_eq(name, "ocircumflex") {
        return Some('\u{00F4}');
    }
    if str_eq(name, "otilde") {
        return Some('\u{00F5}');
    }
    if str_eq(name, "odieresis") {
        return Some('\u{00F6}');
    }
    if str_eq(name, "oslash") {
        return Some('\u{00F8}');
    }
    if str_eq(name, "ugrave") {
        return Some('\u{00F9}');
    }
    if str_eq(name, "uacute") {
        return Some('\u{00FA}');
    }
    if str_eq(name, "ucircumflex") {
        return Some('\u{00FB}');
    }
    if str_eq(name, "udieresis") {
        return Some('\u{00FC}');
    }
    if str_eq(name, "yacute") {
        return Some('\u{00FD}');
    }
    if str_eq(name, "ydieresis") {
        return Some('\u{00FF}');
    }
    if n == 1 {
        return Some(name.get_char(0));
    }
    None
}

} // verus!
