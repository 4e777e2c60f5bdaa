//! Character-kind conversions of the input method (F6 to F10), punctuation
//! blocks of a reading, and the symbols typed straight into a composition.
use vstd::prelude::*;

use crate::kana::{
    halfwidth_chars, hira_to_kata, hira_to_kata_char, is_hiragana, is_katakana,
    kata_to_hira, katakana_halfwidth, katakana_halfwidth_of, spec_is_hiragana, spec_is_katakana,
};
use crate::text::{
    all_ascii, ascii_lower, ascii_upper, char_to_uppercase, char_uppercase_of, chars_of, in_range, is_ascii_alnum, is_ascii_alpha,
    is_ascii_graphic, is_ascii_upper, is_ascii_lower, is_fullwidth_ascii, is_fullwidth_digit,
    is_fullwidth_lower, is_fullwidth_upper, lowercase_of, map_str, push_char, push_str, shift,
    shift_char, spec_is_ascii_alnum, spec_is_ascii_alpha, spec_is_ascii_graphic,
    spec_is_ascii_lower, spec_is_ascii_upper, spec_is_fullwidth_ascii, spec_is_fullwidth_digit,
    spec_is_fullwidth_lower, spec_is_fullwidth_upper, string_of_range, to_lowercase,
    to_uppercase, uppercase_of, is_ascii_digit, spec_is_ascii_digit, str_eq,
};
use vstd::string::StrSliceExecFns;

verus! {

broadcast use vstd::utf8::char_u32_cast;

// ─── single characters ──────────────────────────────────────────────────────

/// The fullwidth form of an ASCII character for F6/F7: `,` `.` `[` `]` become
/// `、` `。` `「` `」`, the backslash and the yen sign `￥`, `-` the fullwidth
/// hyphen, the other printable ASCII their U+FF01..=U+FF5E counterpart.
pub open spec fn spec_ascii_to_fullwidth_symbol(c: char) -> char {
    if c == ',' {
        '\u{3001}'
    } else if c == '.' {
        '\u{3002}'
    } else if c == '[' {
        '\u{300C}'
    } else if c == ']' {
        '\u{300D}'
    } else if c == '\u{5C}' || c == '\u{A5}' {
        '\u{FFE5}'
    } else if c == '-' {
        '\u{FF0D}'
    } else if spec_is_ascii_graphic(c) {
        shift(c, 0xFF01 - 0x21)
    } else {
        c
    }
}

pub fn ascii_to_fullwidth_symbol(c: char) -> (r: char)
    ensures
        r == spec_ascii_to_fullwidth_symbol(c),
{
    match c {
        ',' => '\u{3001}',
        '.' => '\u{3002}',
        '[' => '\u{300C}',
        ']' => '\u{300D}',
        '\u{5C}' | '\u{A5}' => '\u{FFE5}',
        '-' => '\u{FF0D}',
        _ => {
            if is_ascii_graphic(c) {
                shift_char(c, 0xFF01 - 0x21)
            } else {
                c
            }
        },
    }
}

/// A block delimiter of a reading: `、` `。`, the fullwidth symbols (the
/// fullwidth ASCII block without its digits and letters), the printable ASCII
/// symbols, and `「` `」` `・`.
pub open spec fn spec_is_kuten(c: char) -> bool {
    ||| c == '\u{3001}' || c == '\u{3002}'
    ||| spec_is_fullwidth_ascii(c) && !spec_is_fullwidth_digit(c) && !spec_is_fullwidth_upper(c)
        && !spec_is_fullwidth_lower(c)
    ||| spec_is_ascii_graphic(c) && !spec_is_ascii_alnum(c)
    ||| c == '\u{300C}' || c == '\u{300D}' || c == '\u{30FB}'
}

pub fn is_kuten(c: char) -> (b: bool)
    ensures
        b == spec_is_kuten(c),
{
    if c == '\u{3001}' || c == '\u{3002}' {
        return true;
    }
    if is_fullwidth_ascii(c) && !is_fullwidth_digit(c) && !is_fullwidth_upper(c)
        && !is_fullwidth_lower(c) {
        return true;
    }
    if is_ascii_graphic(c) && !is_ascii_alnum(c) {
        return true;
    }
    c == '\u{300C}' || c == '\u{300D}' || c == '\u{30FB}'
}

/// The symbol a key puts straight into the composition, without conversion:
/// `,` `.` `/` `[` `]` `?` `!` `~` and the backslash as Japanese punctuation,
/// those Japanese forms themselves, the other ASCII symbols in fullwidth, and
/// any other delimiter as it is. `-` is left to the romaji rules.
pub open spec fn spec_direct_input_symbol(c: char) -> Option<char> {
    if c == ',' {
        Some('\u{3001}')
    } else if c == '.' {
        Some('\u{3002}')
    } else if c == '/' {
        Some('\u{30FB}')
    } else if c == '[' {
        Some('\u{300C}')
    } else if c == ']' {
        Some('\u{300D}')
    } else if c == '?' {
        Some('\u{FF1F}')
    } else if c == '!' {
        Some('\u{FF01}')
    } else if c == '~' {
        Some('\u{301C}')
    } else if c == '\u{5C}' || c == '\u{A5}' {
        Some('\u{FFE5}')
    } else if c == '\u{3001}' || c == '\u{3002}' || c == '\u{300C}' || c == '\u{300D}' || c
        == '\u{30FB}' || c == '\u{FF1F}' || c == '\u{FF01}' || c == '\u{301C}' || c
        == '\u{FFE5}' {
        Some(c)
    } else if c == '-' {
        None
    } else if spec_is_ascii_graphic(c) && !spec_is_ascii_alnum(c) {
        Some(spec_ascii_to_fullwidth_symbol(c))
    } else if spec_is_kuten(c) {
        Some(c)
    } else {
        None
    }
}

pub fn direct_input_symbol(c: char) -> (r: Option<char>)
    ensures
        r == spec_direct_input_symbol(c),
{
    match c {
        ',' => Some('\u{3001}'),
        '.' => Some('\u{3002}'),
        '/' => Some('\u{30FB}'),
        '[' => Some('\u{300C}'),
        ']' => Some('\u{300D}'),
        '?' => Some('\u{FF1F}'),
        '!' => Some('\u{FF01}'),
        '~' => Some('\u{301C}'),
        '\u{5C}' | '\u{A5}' => Some('\u{FFE5}'),
        '\u{3001}' | '\u{3002}' | '\u{300C}' | '\u{300D}' | '\u{30FB}' | '\u{FF1F}' | '\u{FF01}'
        | '\u{301C}' | '\u{FFE5}' => Some(c),
        '-' => None,
        _ => {
            if is_ascii_graphic(c) && !is_ascii_alnum(c) {
                Some(ascii_to_fullwidth_symbol(c))
            } else if is_kuten(c) {
                Some(c)
            } else {
                None
            }
        },
    }
}

/// The ASCII form of a fullwidth symbol for F8/F10: Japanese punctuation to
/// `,` `.` `/` `[` `]`, `￥` to the backslash, both long marks to `-`, the
/// fullwidth ASCII block to ASCII; other characters unchanged.
pub open spec fn spec_fullwidth_symbol_to_ascii(c: char) -> char {
    if c == '\u{3001}' {
        ','
    } else if c == '\u{3002}' {
        '.'
    } else if c == '\u{30FB}' {
        '/'
    } else if c == '\u{300C}' {
        '['
    } else if c == '\u{300D}' {
        ']'
    } else if c == '\u{FFE5}' {
        '\u{5C}'
    } else if c == '\u{FF0D}' || c == '\u{30FC}' {
        '-'
    } else if c == '\u{FF0C}' {
        ','
    } else if c == '\u{FF0E}' {
        '.'
    } else if c == '\u{FF3B}' {
        '['
    } else if c == '\u{FF3D}' {
        ']'
    } else if spec_is_fullwidth_ascii(c) {
        shift(c, 0x21 - 0xFF01)
    } else {
        c
    }
}

pub fn fullwidth_symbol_to_ascii(c: char) -> (r: char)
    ensures
        r == spec_fullwidth_symbol_to_ascii(c),
{
    match c {
        '\u{3001}' => ',',
        '\u{3002}' => '.',
        '\u{30FB}' => '/',
        '\u{300C}' => '[',
        '\u{300D}' => ']',
        '\u{FFE5}' => '\u{5C}',
        '\u{FF0D}' | '\u{30FC}' => '-',
        '\u{FF0C}' => ',',
        '\u{FF0E}' => '.',
        '\u{FF3B}' => '[',
        '\u{FF3D}' => ']',
        _ => {
            if is_fullwidth_ascii(c) {
                shift_char(c, 0x21 - 0xFF01)
            } else {
                c
            }
        },
    }
}

/// The halfwidth-katakana-side form of a fullwidth symbol for F8: Japanese
/// punctuation to its halfwidth form, `ー` to `ｰ`, `￥` to the backslash, the
/// fullwidth hyphen and the fullwidth ASCII block to ASCII.
pub open spec fn spec_fullwidth_symbol_to_hankaku(c: char) -> char {
    if c == '\u{3001}' {
        '\u{FF64}'
    } else if c == '\u{3002}' {
        '\u{FF61}'
    } else if c == '\u{300C}' {
        '\u{FF62}'
    } else if c == '\u{300D}' {
        '\u{FF63}'
    } else if c == '\u{FFE5}' {
        '\u{5C}'
    } else if c == '\u{FF0D}' {
        '-'
    } else if c == '\u{30FC}' {
        '\u{FF70}'
    } else if spec_is_fullwidth_ascii(c) {
        shift(c, 0x21 - 0xFF01)
    } else {
        c
    }
}

pub fn fullwidth_symbol_to_hankaku(c: char) -> (r: char)
    ensures
        r == spec_fullwidth_symbol_to_hankaku(c),
{
    match c {
        '\u{3001}' => '\u{FF64}',
        '\u{3002}' => '\u{FF61}',
        '\u{300C}' => '\u{FF62}',
        '\u{300D}' => '\u{FF63}',
        '\u{FFE5}' => '\u{5C}',
        '\u{FF0D}' => '-',
        '\u{30FC}' => '\u{FF70}',
        _ => {
            if is_fullwidth_ascii(c) {
                shift_char(c, 0x21 - 0xFF01)
            } else {
                c
            }
        },
    }
}

// ─── halfwidth katakana to fullwidth ────────────────────────────────────────

/// The fullwidth forms of a halfwidth katakana or punctuation mark: plain, with
/// a following `ﾞ` (voiced), with a following `ﾟ` (semi-voiced).
pub open spec fn half_kana_forms(c: char) -> Option<(char, Option<char>, Option<char>)> {
    match c {
        '\u{FF61}' => Some(('\u{3002}', None, None)),
        '\u{FF62}' => Some(('\u{300C}', None, None)),
        '\u{FF63}' => Some(('\u{300D}', None, None)),
        '\u{FF64}' => Some(('\u{3001}', None, None)),
        '\u{FF65}' => Some(('\u{30FB}', None, None)),
        '\u{FF66}' => Some(('\u{30F2}', None, None)),
        '\u{FF67}' => Some(('\u{30A1}', None, None)),
        '\u{FF68}' => Some(('\u{30A3}', None, None)),
        '\u{FF69}' => Some(('\u{30A5}', None, None)),
        '\u{FF6A}' => Some(('\u{30A7}', None, None)),
        '\u{FF6B}' => Some(('\u{30A9}', None, None)),
        '\u{FF6C}' => Some(('\u{30E3}', None, None)),
        '\u{FF6D}' => Some(('\u{30E5}', None, None)),
        '\u{FF6E}' => Some(('\u{30E7}', None, None)),
        '\u{FF6F}' => Some(('\u{30C3}', None, None)),
        '\u{FF70}' => Some(('\u{30FC}', None, None)),
        '\u{FF71}' => Some(('\u{30A2}', None, None)),
        '\u{FF72}' => Some(('\u{30A4}', None, None)),
        '\u{FF73}' => Some(('\u{30A6}', Some('\u{30F4}'), None)),
        '\u{FF74}' => Some(('\u{30A8}', None, None)),
        '\u{FF75}' => Some(('\u{30AA}', None, None)),
        '\u{FF76}' => Some(('\u{30AB}', Some('\u{30AC}'), None)),
        '\u{FF77}' => Some(('\u{30AD}', Some('\u{30AE}'), None)),
        '\u{FF78}' => Some(('\u{30AF}', Some('\u{30B0}'), None)),
        '\u{FF79}' => Some(('\u{30B1}', Some('\u{30B2}'), None)),
        '\u{FF7A}' => Some(('\u{30B3}', Some('\u{30B4}'), None)),
        '\u{FF7B}' => Some(('\u{30B5}', Some('\u{30B6}'), None)),
        '\u{FF7C}' => Some(('\u{30B7}', Some('\u{30B8}'), None)),
        '\u{FF7D}' => Some(('\u{30B9}', Some('\u{30BA}'), None)),
        '\u{FF7E}' => Some(('\u{30BB}', Some('\u{30BC}'), None)),
        '\u{FF7F}' => Some(('\u{30BD}', Some('\u{30BE}'), None)),
        '\u{FF80}' => Some(('\u{30BF}', Some('\u{30C0}'), None)),
        '\u{FF81}' => Some(('\u{30C1}', Some('\u{30C2}'), None)),
        '\u{FF82}' => Some(('\u{30C4}', Some('\u{30C5}'), None)),
        '\u{FF83}' => Some(('\u{30C6}', Some('\u{30C7}'), None)),
        '\u{FF84}' => Some(('\u{30C8}', Some('\u{30C9}'), None)),
        '\u{FF85}' => Some(('\u{30CA}', None, None)),
        '\u{FF86}' => Some(('\u{30CB}', None, None)),
        '\u{FF87}' => Some(('\u{30CC}', None, None)),
        '\u{FF88}' => Some(('\u{30CD}', None, None)),
        '\u{FF89}' => Some(('\u{30CE}', None, None)),
        '\u{FF8A}' => Some(('\u{30CF}', Some('\u{30D0}'), Some('\u{30D1}'))),
        '\u{FF8B}' => Some(('\u{30D2}', Some('\u{30D3}'), Some('\u{30D4}'))),
        '\u{FF8C}' => Some(('\u{30D5}', Some('\u{30D6}'), Some('\u{30D7}'))),
        '\u{FF8D}' => Some(('\u{30D8}', Some('\u{30D9}'), Some('\u{30DA}'))),
        '\u{FF8E}' => Some(('\u{30DB}', Some('\u{30DC}'), Some('\u{30DD}'))),
        '\u{FF8F}' => Some(('\u{30DE}', None, None)),
        '\u{FF90}' => Some(('\u{30DF}', None, None)),
        '\u{FF91}' => Some(('\u{30E0}', None, None)),
        '\u{FF92}' => Some(('\u{30E1}', None, None)),
        '\u{FF93}' => Some(('\u{30E2}', None, None)),
        '\u{FF94}' => Some(('\u{30E4}', None, None)),
        '\u{FF95}' => Some(('\u{30E6}', None, None)),
        '\u{FF96}' => Some(('\u{30E8}', None, None)),
        '\u{FF97}' => Some(('\u{30E9}', None, None)),
        '\u{FF98}' => Some(('\u{30EA}', None, None)),
        '\u{FF99}' => Some(('\u{30EB}', None, None)),
        '\u{FF9A}' => Some(('\u{30EC}', None, None)),
        '\u{FF9B}' => Some(('\u{30ED}', None, None)),
        '\u{FF9C}' => Some(('\u{30EF}', None, None)),
        '\u{FF9D}' => Some(('\u{30F3}', None, None)),
        _ => None,
    }
}

fn half_kana_forms_of(c: char) -> (r: Option<(char, Option<char>, Option<char>)>)
    ensures
        r == half_kana_forms(c),
{
    match c {
        '\u{FF61}' => Some(('\u{3002}', None, None)),
        '\u{FF62}' => Some(('\u{300C}', None, None)),
        '\u{FF63}' => Some(('\u{300D}', None, None)),
        '\u{FF64}' => Some(('\u{3001}', None, None)),
        '\u{FF65}' => Some(('\u{30FB}', None, None)),
        '\u{FF66}' => Some(('\u{30F2}', None, None)),
        '\u{FF67}' => Some(('\u{30A1}', None, None)),
        '\u{FF68}' => Some(('\u{30A3}', None, None)),
        '\u{FF69}' => Some(('\u{30A5}', None, None)),
        '\u{FF6A}' => Some(('\u{30A7}', None, None)),
        '\u{FF6B}' => Some(('\u{30A9}', None, None)),
        '\u{FF6C}' => Some(('\u{30E3}', None, None)),
        '\u{FF6D}' => Some(('\u{30E5}', None, None)),
        '\u{FF6E}' => Some(('\u{30E7}', None, None)),
        '\u{FF6F}' => Some(('\u{30C3}', None, None)),
        '\u{FF70}' => Some(('\u{30FC}', None, None)),
        '\u{FF71}' => Some(('\u{30A2}', None, None)),
        '\u{FF72}' => Some(('\u{30A4}', None, None)),
        '\u{FF73}' => Some(('\u{30A6}', Some('\u{30F4}'), None)),
        '\u{FF74}' => Some(('\u{30A8}', None, None)),
        '\u{FF75}' => Some(('\u{30AA}', None, None)),
        '\u{FF76}' => Some(('\u{30AB}', Some('\u{30AC}'), None)),
        '\u{FF77}' => Some(('\u{30AD}', Some('\u{30AE}'), None)),
        '\u{FF78}' => Some(('\u{30AF}', Some('\u{30B0}'), None)),
        '\u{FF79}' => Some(('\u{30B1}', Some('\u{30B2}'), None)),
        '\u{FF7A}' => Some(('\u{30B3}', Some('\u{30B4}'), None)),
        '\u{FF7B}' => Some(('\u{30B5}', Some('\u{30B6}'), None)),
        '\u{FF7C}' => Some(('\u{30B7}', Some('\u{30B8}'), None)),
        '\u{FF7D}' => Some(('\u{30B9}', Some('\u{30BA}'), None)),
        '\u{FF7E}' => Some(('\u{30BB}', Some('\u{30BC}'), None)),
        '\u{FF7F}' => Some(('\u{30BD}', Some('\u{30BE}'), None)),
        '\u{FF80}' => Some(('\u{30BF}', Some('\u{30C0}'), None)),
        '\u{FF81}' => Some(('\u{30C1}', Some('\u{30C2}'), None)),
        '\u{FF82}' => Some(('\u{30C4}', Some('\u{30C5}'), None)),
        '\u{FF83}' => Some(('\u{30C6}', Some('\u{30C7}'), None)),
        '\u{FF84}' => Some(('\u{30C8}', Some('\u{30C9}'), None)),
        '\u{FF85}' => Some(('\u{30CA}', None, None)),
        '\u{FF86}' => Some(('\u{30CB}', None, None)),
        '\u{FF87}' => Some(('\u{30CC}', None, None)),
        '\u{FF88}' => Some(('\u{30CD}', None, None)),
        '\u{FF89}' => Some(('\u{30CE}', None, None)),
        '\u{FF8A}' => Some(('\u{30CF}', Some('\u{30D0}'), Some('\u{30D1}'))),
        '\u{FF8B}' => Some(('\u{30D2}', Some('\u{30D3}'), Some('\u{30D4}'))),
        '\u{FF8C}' => Some(('\u{30D5}', Some('\u{30D6}'), Some('\u{30D7}'))),
        '\u{FF8D}' => Some(('\u{30D8}', Some('\u{30D9}'), Some('\u{30DA}'))),
        '\u{FF8E}' => Some(('\u{30DB}', Some('\u{30DC}'), Some('\u{30DD}'))),
        '\u{FF8F}' => Some(('\u{30DE}', None, None)),
        '\u{FF90}' => Some(('\u{30DF}', None, None)),
        '\u{FF91}' => Some(('\u{30E0}', None, None)),
        '\u{FF92}' => Some(('\u{30E1}', None, None)),
        '\u{FF93}' => Some(('\u{30E2}', None, None)),
        '\u{FF94}' => Some(('\u{30E4}', None, None)),
        '\u{FF95}' => Some(('\u{30E6}', None, None)),
        '\u{FF96}' => Some(('\u{30E8}', None, None)),
        '\u{FF97}' => Some(('\u{30E9}', None, None)),
        '\u{FF98}' => Some(('\u{30EA}', None, None)),
        '\u{FF99}' => Some(('\u{30EB}', None, None)),
        '\u{FF9A}' => Some(('\u{30EC}', None, None)),
        '\u{FF9B}' => Some(('\u{30ED}', None, None)),
        '\u{FF9C}' => Some(('\u{30EF}', None, None)),
        '\u{FF9D}' => Some(('\u{30F3}', None, None)),
        _ => None,
    }
}

/// One halfwidth katakana, with the character after it, as one fullwidth
/// katakana, and whether the following sound mark was taken into it.
pub open spec fn spec_half_kata_to_full(c: char, next: Option<char>) -> Option<(char, bool)> {
    match half_kana_forms(c) {
        None => None,
        Some((plain, voiced, semi)) => {
            if next == Some('\u{FF9E}') && voiced is Some {
                Some((voiced->0, true))
            } else if next == Some('\u{FF9F}') && semi is Some {
                Some((semi->0, true))
            } else {
                Some((plain, false))
            }
        },
    }
}

pub fn half_kata_to_full(c: char, next: Option<char>) -> (r: Option<(char, bool)>)
    ensures
        r == spec_half_kata_to_full(c, next),
{
    match half_kana_forms_of(c) {
        None => None,
        Some((plain, voiced, semi)) => {
            let dakuten = match next {
                Some(n) => n == '\u{FF9E}',
                None => false,
            };
            let handaku = match next {
                Some(n) => n == '\u{FF9F}',
                None => false,
            };
            match (voiced, semi) {
                (Some(v), _) if dakuten => Some((v, true)),
                (_, Some(p)) if handaku => Some((p, true)),
                _ => Some((plain, false)),
            }
        },
    }
}

/// The halfwidth katakana block `･`..=`ﾟ` (U+FF65..=U+FF9F).
pub open spec fn spec_is_halfwidth_kana(c: char) -> bool {
    in_range(c, 0xFF65, 0xFF9F)
}

fn is_halfwidth_kana(c: char) -> (b: bool)
    ensures
        b == spec_is_halfwidth_kana(c),
{
    0xFF65 <= (c as u32) && (c as u32) <= 0xFF9F
}

/// The character after the first one, if any.
pub open spec fn second(s: Seq<char>) -> Option<char> {
    if s.len() >= 2 {
        Some(s[1])
    } else {
        None
    }
}

/// A halfwidth katakana at the head of `s` in fullwidth, and how many
/// characters it takes (two when the sound mark after it joins it).
pub open spec fn half_kana_step(s: Seq<char>) -> (char, int) {
    match spec_half_kata_to_full(s[0], second(s)) {
        Some((k, used)) => (k, if used && s.len() >= 2 { 2 } else { 1 }),
        None => (s[0], 1),
    }
}

/// What F7 makes of the head of `s`, and how many characters it takes.
pub open spec fn katakana_step(s: Seq<char>) -> (char, int) {
    let c = s[0];
    if spec_is_hiragana(c) {
        (shift(c, 0x60), 1)
    } else if spec_is_halfwidth_kana(c) {
        half_kana_step(s)
    } else if spec_is_ascii_graphic(c) {
        (spec_ascii_to_fullwidth_symbol(c), 1)
    } else {
        (c, 1)
    }
}

/// What F6 makes of the head of `s`, and how many characters it takes.
pub open spec fn hiragana_step(s: Seq<char>) -> (char, int) {
    let c = s[0];
    if spec_is_katakana(c) {
        (shift(c, -0x60), 1)
    } else if c == '\u{30FC}' {
        (c, 1)
    } else if spec_is_halfwidth_kana(c) {
        let (k, n) = half_kana_step(s);
        if spec_half_kata_to_full(c, second(s)) is Some && spec_is_katakana(k) {
            (shift(k, -0x60), n)
        } else {
            (k, n)
        }
    } else if spec_is_ascii_graphic(c) {
        (spec_ascii_to_fullwidth_symbol(c), 1)
    } else {
        (c, 1)
    }
}

/// F7: hiragana and halfwidth katakana (sound marks joined) to fullwidth
/// katakana, printable ASCII to fullwidth (Japanese punctuation for `,.[]`),
/// anything else unchanged.
pub open spec fn spec_to_katakana(s: Seq<char>) -> Seq<char>
    decreases s.len(),
{
    if s.len() == 0 {
        seq![]
    } else {
        let (c, n) = katakana_step(s);
        seq![c] + spec_to_katakana(s.skip(n))
    }
}

/// F6: katakana (fullwidth and halfwidth, sound marks joined) to hiragana, `ー`
/// kept, printable ASCII to fullwidth, anything else unchanged.
pub open spec fn spec_to_hiragana(s: Seq<char>) -> Seq<char>
    decreases s.len(),
{
    if s.len() == 0 {
        seq![]
    } else {
        let (c, n) = hiragana_step(s);
        seq![c] + spec_to_hiragana(s.skip(n))
    }
}

fn half_kana_step_at(v: &Vec<char>, i: usize) -> (r: (char, usize))
    requires
        i < v.len(),
    ensures
        (r.0, r.1 as int) == half_kana_step(v@.skip(i as int)),
        r.1 == 1 || r.1 == 2,
{
    let ghost s = v@.skip(i as int);
    let next = if i + 1 < v.len() {
        Some(v[i + 1])
    } else {
        None
    };
    assert(next == second(s));
    match half_kata_to_full(v[i], next) {
        Some((k, used)) => {
            if used && i + 1 < v.len() {
                (k, 2)
            } else {
                (k, 1)
            }
        },
        None => (v[i], 1),
    }
}

fn katakana_step_at(v: &Vec<char>, i: usize) -> (r: (char, usize))
    requires
        i < v.len(),
    ensures
        (r.0, r.1 as int) == katakana_step(v@.skip(i as int)),
        r.1 == 1 || r.1 == 2,
{
    let c = v[i];
    if is_hiragana(c) {
        (shift_char(c, 0x60), 1)
    } else if is_halfwidth_kana(c) {
        half_kana_step_at(v, i)
    } else if is_ascii_graphic(c) {
        (ascii_to_fullwidth_symbol(c), 1)
    } else {
        (c, 1)
    }
}

fn hiragana_step_at(v: &Vec<char>, i: usize) -> (r: (char, usize))
    requires
        i < v.len(),
    ensures
        (r.0, r.1 as int) == hiragana_step(v@.skip(i as int)),
        r.1 == 1 || r.1 == 2,
{
    let c = v[i];
    if is_katakana(c) {
        (shift_char(c, -0x60), 1)
    } else if c == '\u{30FC}' {
        (c, 1)
    } else if is_halfwidth_kana(c) {
        let next = if i + 1 < v.len() {
            Some(v[i + 1])
        } else {
            None
        };
        assert(next == second(v@.skip(i as int)));
        let found = half_kata_to_full(c, next).is_some();
        let (k, n) = half_kana_step_at(v, i);
        if found && is_katakana(k) {
            (shift_char(k, -0x60), n)
        } else {
            (k, n)
        }
    } else if is_ascii_graphic(c) {
        (ascii_to_fullwidth_symbol(c), 1)
    } else {
        (c, 1)
    }
}

/// F7 conversion (see `spec_to_katakana`).
pub fn to_katakana(s: &str) -> (r: String)
    ensures
        r@ == spec_to_katakana(s@),
{
    let v = chars_of(s);
    let mut r = String::new();
    let mut i: usize = 0;
    assert(v@.skip(0) == v@);
    while i < v.len()
        invariant
            i <= v.len(),
            v@ == s@,
            r@ + spec_to_katakana(v@.skip(i as int)) == spec_to_katakana(v@),
        decreases v.len() - i,
    {
        let ghost rest = v@.skip(i as int);
        let (c, n) = katakana_step_at(&v, i);
        assert(rest.skip(n as int) == v@.skip(i + n));
        assert(spec_to_katakana(rest) == seq![c] + spec_to_katakana(v@.skip(i + n)));
        let ghost before = r@;
        push_char(&mut r, c);
        assert(r@ + spec_to_katakana(v@.skip(i + n)) == before + spec_to_katakana(rest));
        i = i + n;
    }
    assert(v@.skip(i as int) == Seq::<char>::empty());
    assert(r@ + seq![] == r@);
    r
}

/// F6 conversion (see `spec_to_hiragana`).
pub fn to_hiragana(s: &str) -> (r: String)
    ensures
        r@ == spec_to_hiragana(s@),
{
    let v = chars_of(s);
    let mut r = String::new();
    let mut i: usize = 0;
    assert(v@.skip(0) == v@);
    while i < v.len()
        invariant
            i <= v.len(),
            v@ == s@,
            r@ + spec_to_hiragana(v@.skip(i as int)) == spec_to_hiragana(v@),
        decreases v.len() - i,
    {
        let ghost rest = v@.skip(i as int);
        let (c, n) = hiragana_step_at(&v, i);
        assert(rest.skip(n as int) == v@.skip(i + n));
        assert(spec_to_hiragana(rest) == seq![c] + spec_to_hiragana(v@.skip(i + n)));
        let ghost before = r@;
        push_char(&mut r, c);
        assert(r@ + spec_to_hiragana(v@.skip(i + n)) == before + spec_to_hiragana(rest));
        i = i + n;
    }
    assert(v@.skip(i as int) == Seq::<char>::empty());
    assert(r@ + seq![] == r@);
    r
}

// ─── latin cycles (F9 / F10) ────────────────────────────────────────────────

/// The fullwidth form of a character for F9/F10: `、` `。` `・` `ー` to `，` `．`
/// `／` `－`, printable ASCII to U+FF01..=U+FF5E, other characters unchanged.
pub open spec fn latin_fullwidth_char(c: char) -> char {
    if c == '\u{3001}' {
        '\u{FF0C}'
    } else if c == '\u{3002}' {
        '\u{FF0E}'
    } else if c == '\u{30FB}' {
        '\u{FF0F}'
    } else if c == '\u{30FC}' {
        '\u{FF0D}'
    } else if spec_is_ascii_graphic(c) {
        shift(c, 0xFF01 - 0x21)
    } else {
        c
    }
}

/// A fullwidth small letter as its capital; other characters unchanged.
pub open spec fn fullwidth_upper_char(c: char) -> char {
    if spec_is_fullwidth_lower(c) {
        shift(c, -0x20)
    } else {
        c
    }
}

/// A fullwidth capital letter as its small letter; other characters unchanged.
pub open spec fn fullwidth_lower_char(c: char) -> char {
    if spec_is_fullwidth_upper(c) {
        shift(c, 0x20)
    } else {
        c
    }
}

pub open spec fn spec_ascii_to_fullwidth(s: Seq<char>) -> Seq<char> {
    s.map_values(|c: char| latin_fullwidth_char(c))
}

pub open spec fn spec_fullwidth_to_ascii(s: Seq<char>) -> Seq<char> {
    s.map_values(|c: char| spec_fullwidth_symbol_to_ascii(c))
}

pub open spec fn spec_fullwidth_to_upper(s: Seq<char>) -> Seq<char> {
    s.map_values(|c: char| fullwidth_upper_char(c))
}

pub open spec fn spec_fullwidth_to_lower(s: Seq<char>) -> Seq<char> {
    s.map_values(|c: char| fullwidth_lower_char(c))
}

/// The first character capitalized, the rest in small letters.
pub open spec fn spec_fullwidth_to_title(s: Seq<char>) -> Seq<char> {
    if s.len() == 0 {
        seq![]
    } else {
        seq![fullwidth_upper_char(s[0])] + spec_fullwidth_to_lower(s.drop_first())
    }
}

fn latin_fullwidth(c: char) -> (r: char)
    ensures
        r == latin_fullwidth_char(c),
{
    match c {
        '\u{3001}' => '\u{FF0C}',
        '\u{3002}' => '\u{FF0E}',
        '\u{30FB}' => '\u{FF0F}',
        '\u{30FC}' => '\u{FF0D}',
        _ => {
            if is_ascii_graphic(c) {
                shift_char(c, 0xFF01 - 0x21)
            } else {
                c
            }
        },
    }
}

fn fullwidth_upper(c: char) -> (r: char)
    ensures
        r == fullwidth_upper_char(c),
{
    if is_fullwidth_lower(c) {
        shift_char(c, -0x20)
    } else {
        c
    }
}

fn fullwidth_lower(c: char) -> (r: char)
    ensures
        r == fullwidth_lower_char(c),
{
    if is_fullwidth_upper(c) {
        shift_char(c, 0x20)
    } else {
        c
    }
}

/// ASCII (and `、。・ー`) to their fullwidth forms, for F9/F10.
pub fn ascii_to_fullwidth(s: &str) -> (r: String)
    ensures
        r@ == spec_ascii_to_fullwidth(s@),
{
    let r = map_str(s, |c: char| -> (d: char)
        ensures
            d == latin_fullwidth_char(c),
        { latin_fullwidth(c) });
    assert(r@ =~= spec_ascii_to_fullwidth(s@));
    r
}

/// Fullwidth symbols and letters to ASCII.
pub fn fullwidth_to_ascii(s: &str) -> (r: String)
    ensures
        r@ == spec_fullwidth_to_ascii(s@),
{
    let r = map_str(s, |c: char| -> (d: char)
        ensures
            d == spec_fullwidth_symbol_to_ascii(c),
        { fullwidth_symbol_to_ascii(c) });
    assert(r@ =~= spec_fullwidth_to_ascii(s@));
    r
}

/// Fullwidth small letters to capitals.
pub fn fullwidth_to_upper(s: &str) -> (r: String)
    ensures
        r@ == spec_fullwidth_to_upper(s@),
{
    let r = map_str(s, |c: char| -> (d: char)
        ensures
            d == fullwidth_upper_char(c),
        { fullwidth_upper(c) });
    assert(r@ =~= spec_fullwidth_to_upper(s@));
    r
}

/// Fullwidth capitals to small letters.
pub fn fullwidth_to_lower(s: &str) -> (r: String)
    ensures
        r@ == spec_fullwidth_to_lower(s@),
{
    let r = map_str(s, |c: char| -> (d: char)
        ensures
            d == fullwidth_lower_char(c),
        { fullwidth_lower(c) });
    assert(r@ =~= spec_fullwidth_to_lower(s@));
    r
}

/// Fullwidth text with only its first letter a capital (`Ｔｅｓｕｔｏ`).
pub fn fullwidth_to_title(s: &str) -> (r: String)
    ensures
        r@ == spec_fullwidth_to_title(s@),
{
    let v = chars_of(s);
    let mut r = String::new();
    if v.len() == 0 {
        return r;
    }
    push_char(&mut r, fullwidth_upper(v[0]));
    let mut i: usize = 1;
    while i < v.len()
        invariant
            1 <= i <= v.len(),
            v@ == s@,
            r@ == seq![fullwidth_upper_char(v@[0])] + spec_fullwidth_to_lower(
                v@.subrange(1, i as int),
            ),
        decreases v.len() - i,
    {
        push_char(&mut r, fullwidth_lower(v[i]));
        assert(v@.subrange(1, i + 1) == v@.subrange(1, i as int).push(v@[i as int]));
        i = i + 1;
    }
    assert(v@.subrange(1, v.len() as int) == v@.drop_first());
    r
}

/// Where F9/F10 stand in their cycles.
#[derive(Debug, Clone, Copy, PartialEq, Eq, Structural)]
pub enum LatinCycle {
    /// Fullwidth small letters (`ｔｅｓｕｔｏ`).
    FullLower,
    /// Fullwidth capitals (`ＴＥＳＵＴＯ`).
    FullUpper,
    /// Fullwidth, first letter capital (`Ｔｅｓｕｔｏ`).
    FullTitle,
    /// Halfwidth small letters (`tesuto`).
    HalfLower,
    /// Halfwidth capitals (`TESUTO`).
    HalfUpper,
    /// Halfwidth, first letter capital (`Tesuto`).
    HalfTitle,
}

/// Any character of the fullwidth range `Ａ`..=`ｚ` (which holds six symbols
/// between the capitals and the small letters).
pub open spec fn in_fullwidth_letter_range(c: char) -> bool {
    in_range(c, 0xFF21, 0xFF5A)
}

/// The state that a string shows: without any letter `FullLower`; without
/// fullwidth ASCII a halfwidth state, else a fullwidth one; small letters only
/// give Lower, capitals only Upper, a mix Title.
pub open spec fn spec_detect(s: Seq<char>) -> LatinCycle {
    let has_alpha = exists|i: int|
        0 <= i < s.len() && (spec_is_ascii_alpha(#[trigger] s[i]) || spec_is_fullwidth_upper(s[i])
            || spec_is_fullwidth_lower(s[i]));
    let is_half = forall|i: int| 0 <= i < s.len() ==> !spec_is_fullwidth_ascii(#[trigger] s[i]);
    if !has_alpha {
        LatinCycle::FullLower
    } else if is_half {
        let all_lower = forall|i: int|
            0 <= i < s.len() && spec_is_ascii_alpha(#[trigger] s[i]) ==> spec_is_ascii_lower(s[i]);
        let all_upper = forall|i: int|
            0 <= i < s.len() && spec_is_ascii_alpha(#[trigger] s[i]) ==> spec_is_ascii_upper(s[i]);
        if all_lower {
            LatinCycle::HalfLower
        } else if all_upper {
            LatinCycle::HalfUpper
        } else {
            LatinCycle::HalfTitle
        }
    } else {
        let all_lower = forall|i: int|
            0 <= i < s.len() && in_fullwidth_letter_range(#[trigger] s[i])
                ==> spec_is_fullwidth_lower(s[i]);
        let all_upper = forall|i: int|
            0 <= i < s.len() && in_fullwidth_letter_range(#[trigger] s[i])
                ==> spec_is_fullwidth_upper(s[i]);
        if all_lower {
            LatinCycle::FullLower
        } else if all_upper {
            LatinCycle::FullUpper
        } else {
            LatinCycle::FullTitle
        }
    }
}

pub open spec fn spec_next_full(k: LatinCycle) -> LatinCycle {
    match k {
        LatinCycle::FullUpper => LatinCycle::FullTitle,
        LatinCycle::FullTitle => LatinCycle::FullLower,
        _ => LatinCycle::FullUpper,
    }
}

pub open spec fn spec_next_half(k: LatinCycle) -> LatinCycle {
    match k {
        LatinCycle::HalfUpper => LatinCycle::HalfTitle,
        LatinCycle::HalfTitle => LatinCycle::HalfLower,
        _ => LatinCycle::HalfUpper,
    }
}

/// One of the three halfwidth states.
pub open spec fn is_half_state(k: LatinCycle) -> bool {
    k == LatinCycle::HalfLower || k == LatinCycle::HalfUpper || k == LatinCycle::HalfTitle
}

/// ASCII text `h` in a halfwidth state: lowered, raised, or its first
/// character raised and the rest lowered.
pub open spec fn spec_ascii_case(k: LatinCycle, h: Seq<char>) -> Seq<char> {
    match k {
        LatinCycle::HalfLower => h.map_values(|c: char| ascii_lower(c)),
        LatinCycle::HalfUpper => h.map_values(|c: char| ascii_upper(c)),
        _ => {
            if h.len() == 0 {
                seq![]
            } else {
                seq![ascii_upper(h[0])] + h.drop_first().map_values(|c: char| ascii_lower(c))
            }
        },
    }
}

/// A string in the given state: the fullwidth states through the fullwidth
/// forms, the halfwidth ones through ASCII and `std`'s case mapping.
pub open spec fn spec_apply(k: LatinCycle, s: Seq<char>) -> Seq<char> {
    match k {
        LatinCycle::FullLower => spec_fullwidth_to_lower(spec_ascii_to_fullwidth(s)),
        LatinCycle::FullUpper => spec_fullwidth_to_upper(spec_ascii_to_fullwidth(s)),
        LatinCycle::FullTitle => spec_fullwidth_to_title(spec_ascii_to_fullwidth(s)),
        LatinCycle::HalfLower => lowercase_of(spec_fullwidth_to_ascii(s)),
        LatinCycle::HalfUpper => uppercase_of(spec_fullwidth_to_ascii(s)),
        LatinCycle::HalfTitle => {
            let h = spec_fullwidth_to_ascii(s);
            if h.len() == 0 {
                seq![]
            } else {
                char_uppercase_of(h[0]) + lowercase_of(h.drop_first())
            }
        },
    }
}

impl LatinCycle {
    /// The state that `s` is in (see `spec_detect`).
    pub fn detect(s: &str) -> (k: LatinCycle)
        ensures
            k == spec_detect(s@),
    {
        let v = chars_of(s);
        let mut has_alpha = false;
        let mut is_half = true;
        let mut half_lower = true;
        let mut half_upper = true;
        let mut full_lower = true;
        let mut full_upper = true;
        let mut i: usize = 0;
        while i < v.len()
            invariant
                i <= v.len(),
                v@ == s@,
                has_alpha == exists|j: int|
                    0 <= j < i && (spec_is_ascii_alpha(#[trigger] v@[j]) || spec_is_fullwidth_upper(
                        v@[j],
                    ) || spec_is_fullwidth_lower(v@[j])),
                is_half == forall|j: int| 0 <= j < i ==> !spec_is_fullwidth_ascii(#[trigger] v@[j]),
                half_lower == forall|j: int|
                    0 <= j < i && spec_is_ascii_alpha(#[trigger] v@[j]) ==> spec_is_ascii_lower(
                        v@[j],
                    ),
                half_upper == forall|j: int|
                    0 <= j < i && spec_is_ascii_alpha(#[trigger] v@[j]) ==> spec_is_ascii_upper(
                        v@[j],
                    ),
                full_lower == forall|j: int|
                    0 <= j < i && in_fullwidth_letter_range(#[trigger] v@[j])
                        ==> spec_is_fullwidth_lower(v@[j]),
                full_upper == forall|j: int|
                    0 <= j < i && in_fullwidth_letter_range(#[trigger] v@[j])
                        ==> spec_is_fullwidth_upper(v@[j]),
            decreases v.len() - i,
        {
            let c = v[i];
            if is_ascii_alpha(c) || is_fullwidth_upper(c) || is_fullwidth_lower(c) {
                has_alpha = true;
            }
            if is_fullwidth_ascii(c) {
                is_half = false;
            }
            if is_ascii_alpha(c) && !is_ascii_lower(c) {
                half_lower = false;
            }
            if is_ascii_alpha(c) && !is_ascii_upper(c) {
                half_upper = false;
            }
            let in_letters = 0xFF21 <= (c as u32) && (c as u32) <= 0xFF5A;
            if in_letters && !is_fullwidth_lower(c) {
                full_lower = false;
            }
            if in_letters && !is_fullwidth_upper(c) {
                full_upper = false;
            }
            i = i + 1;
        }
        if !has_alpha {
            LatinCycle::FullLower
        } else if is_half {
            if half_lower {
                LatinCycle::HalfLower
            } else if half_upper {
                LatinCycle::HalfUpper
            } else {
                LatinCycle::HalfTitle
            }
        } else if full_lower {
            LatinCycle::FullLower
        } else if full_upper {
            LatinCycle::FullUpper
        } else {
            LatinCycle::FullTitle
        }
    }

    /// The state after F9: from any halfwidth state or `FullLower` to
    /// `FullUpper`, then `FullTitle`, then `FullLower`.
    pub fn next_full(self) -> (k: LatinCycle)
        ensures
            k == spec_next_full(self),
    {
        match self {
            LatinCycle::FullUpper => LatinCycle::FullTitle,
            LatinCycle::FullTitle => LatinCycle::FullLower,
            _ => LatinCycle::FullUpper,
        }
    }

    /// The state after F10: from any fullwidth state or `HalfLower` to
    /// `HalfUpper`, then `HalfTitle`, then `HalfLower`.
    pub fn next_half(self) -> (k: LatinCycle)
        ensures
            k == spec_next_half(self),
    {
        match self {
            LatinCycle::HalfUpper => LatinCycle::HalfTitle,
            LatinCycle::HalfTitle => LatinCycle::HalfLower,
            _ => LatinCycle::HalfUpper,
        }
    }

    /// `s` put in this state (see `spec_apply`).
    pub fn apply(self, s: &str) -> (r: String)
        ensures
            r@ == spec_apply(self, s@),
            is_half_state(self) && all_ascii(spec_fullwidth_to_ascii(s@)) ==> r@
                == spec_ascii_case(self, spec_fullwidth_to_ascii(s@)),
    {
        match self {
            LatinCycle::FullLower => {
                let f = ascii_to_fullwidth(s);
                fullwidth_to_lower(f.as_str())
            },
            LatinCycle::FullUpper => {
                let f = ascii_to_fullwidth(s);
                fullwidth_to_upper(f.as_str())
            },
            LatinCycle::FullTitle => {
                let f = ascii_to_fullwidth(s);
                fullwidth_to_title(f.as_str())
            },
            LatinCycle::HalfLower => {
                let h = fullwidth_to_ascii(s);
                to_lowercase(h.as_str())
            },
            LatinCycle::HalfUpper => {
                let h = fullwidth_to_ascii(s);
                to_uppercase(h.as_str())
            },
            LatinCycle::HalfTitle => {
                let h = fullwidth_to_ascii(s);
                let v = chars_of(h.as_str());
                if v.len() == 0 {
                    return String::new();
                }
                let mut r = char_to_uppercase(v[0]);
                let rest = string_of_range(&v, 1, v.len());
                assert(v@.subrange(1, v.len() as int) == v@.drop_first());
                proof {
                    if all_ascii(v@) {
                        assert(in_range(v@[0], 0, 0x7F));
                        assert forall|i: int| 0 <= i < rest@.len() implies in_range(
                            #[trigger] rest@[i],
                            0,
                            0x7F,
                        ) by {
                            assert(rest@[i] == v@[i + 1]);
                        }
                    }
                }
                let lower = to_lowercase(rest.as_str());
                push_str(&mut r, lower.as_str());
                r
            },
        }
    }
}

/// F9: the next fullwidth state of `s`.
pub fn to_full_latin(s: &str) -> (r: String)
    ensures
        r@ == spec_apply(spec_next_full(spec_detect(s@)), s@),
{
    let cycle = LatinCycle::detect(s);
    let next = cycle.next_full();
    next.apply(s)
}

/// F10: the next halfwidth state of `s`.
pub fn to_half_latin(s: &str) -> (r: String)
    ensures
        r@ == spec_apply(spec_next_half(spec_detect(s@)), s@),
        all_ascii(spec_fullwidth_to_ascii(s@)) ==> r@ == spec_ascii_case(
            spec_next_half(spec_detect(s@)),
            spec_fullwidth_to_ascii(s@),
        ),
{
    let cycle = LatinCycle::detect(s);
    let next = cycle.next_half();
    next.apply(s)
}

/// First F9/F10 on a romaji log: fullwidth small letters.
pub fn romaji_to_fullwidth_latin(romaji: &str) -> (r: String)
    ensures
        r@ == spec_fullwidth_to_lower(spec_ascii_to_fullwidth(romaji@)),
{
    let f = ascii_to_fullwidth(romaji);
    fullwidth_to_lower(f.as_str())
}

/// First F9/F10 on a romaji log: halfwidth, lowercased.
pub fn romaji_to_halfwidth_latin(romaji: &str) -> (r: String)
    ensures
        r@ == lowercase_of(spec_fullwidth_to_ascii(romaji@)),
        all_ascii(spec_fullwidth_to_ascii(romaji@)) ==> r@ == spec_fullwidth_to_ascii(
            romaji@,
        ).map_values(|c: char| ascii_lower(c)),
{
    let h = fullwidth_to_ascii(romaji);
    to_lowercase(h.as_str())
}

/// Three presses of F9 bring a fullwidth state back, and F9 from any other
/// state gives capitals.
pub proof fn lemma_full_cycle(k: LatinCycle)
    ensures
        spec_next_full(spec_next_full(spec_next_full(k))) == k <==> (k == LatinCycle::FullLower
            || k == LatinCycle::FullUpper || k == LatinCycle::FullTitle),
        spec_next_full(k) == LatinCycle::FullUpper <==> !(k == LatinCycle::FullUpper || k
            == LatinCycle::FullTitle),
{
}

/// Three presses of F10 bring a halfwidth state back, and F10 from any other
/// state gives capitals.
pub proof fn lemma_half_cycle(k: LatinCycle)
    ensures
        spec_next_half(spec_next_half(spec_next_half(k))) == k <==> (k == LatinCycle::HalfLower
            || k == LatinCycle::HalfUpper || k == LatinCycle::HalfTitle),
        spec_next_half(k) == LatinCycle::HalfUpper <==> !(k == LatinCycle::HalfUpper || k
            == LatinCycle::HalfTitle),
{
}

// ─── halfwidth katakana (F8) ────────────────────────────────────────────────

/// A katakana in halfwidth form for F8 (the small `ヮ` included); any other
/// character unchanged.
pub open spec fn kata_half_chars(k: char) -> Seq<char> {
    if k == '\u{30EE}' {
        seq!['\u{FF9C}']
    } else {
        halfwidth_chars(k)
    }
}

/// What F8 makes of one character: fullwidth digits and the fullwidth ASCII
/// block to ASCII, Japanese punctuation and `ー` to their halfwidth forms,
/// hiragana and katakana to halfwidth katakana (a voiced kana as two
/// characters); other characters unchanged.
pub open spec fn half_katakana_chars(c: char) -> Seq<char> {
    if spec_is_fullwidth_digit(c) {
        seq![shift(c, 0x30 - 0xFF10)]
    } else if spec_is_fullwidth_ascii(c) {
        seq![spec_fullwidth_symbol_to_hankaku(c)]
    } else if c == '\u{3001}' || c == '\u{3002}' || c == '\u{300C}' || c == '\u{300D}' || c
        == '\u{FFE5}' || c == '\u{FF0D}' || c == '\u{30FC}' {
        seq![spec_fullwidth_symbol_to_hankaku(c)]
    } else {
        kata_half_chars(hira_to_kata(c))
    }
}

pub open spec fn spec_to_half_katakana(s: Seq<char>) -> Seq<char>
    decreases s.len(),
{
    if s.len() == 0 {
        seq![]
    } else {
        spec_to_half_katakana(s.drop_last()) + half_katakana_chars(s.last())
    }
}

/// F8 conversion (see `half_katakana_chars`).
pub fn to_half_katakana(s: &str) -> (r: String)
    ensures
        r@ == spec_to_half_katakana(s@),
{
    let v = chars_of(s);
    let mut r = String::new();
    let mut i: usize = 0;
    while i < v.len()
        invariant
            i <= v.len(),
            v@ == s@,
            r@ == spec_to_half_katakana(v@.take(i as int)),
        decreases v.len() - i,
    {
        let c = v[i];
        if is_fullwidth_digit(c) {
            push_char(&mut r, shift_char(c, 0x30 - 0xFF10));
        } else if is_fullwidth_ascii(c) {
            push_char(&mut r, fullwidth_symbol_to_hankaku(c));
        } else if c == '\u{3001}' || c == '\u{3002}' || c == '\u{300C}' || c == '\u{300D}' || c
            == '\u{FFE5}' || c == '\u{FF0D}' || c == '\u{30FC}' {
            push_char(&mut r, fullwidth_symbol_to_hankaku(c));
        } else {
            let k = hira_to_kata_char(c);
            if k == '\u{30EE}' {
                push_char(&mut r, '\u{FF9C}');
            } else {
                match katakana_halfwidth_of(k) {
                    Some((b, None)) => {
                        push_char(&mut r, b);
                    },
                    Some((b, Some(m))) => {
                        push_char(&mut r, b);
                        push_char(&mut r, m);
                    },
                    None => {
                        push_char(&mut r, k);
                    },
                }
            }
        }
        assert(v@.take(i + 1).drop_last() == v@.take(i as int));
        i = i + 1;
    }
    assert(v@.take(v.len() as int) == v@);
    r
}

// ─── punctuation blocks ─────────────────────────────────────────────────────

pub open spec fn spec_contains_kuten(s: Seq<char>) -> bool {
    exists|i: int| 0 <= i < s.len() && spec_is_kuten(#[trigger] s[i])
}

pub open spec fn no_kuten(s: Seq<char>) -> bool {
    forall|i: int| 0 <= i < s.len() ==> !spec_is_kuten(#[trigger] s[i])
}

pub open spec fn all_kuten(s: Seq<char>) -> bool {
    forall|i: int| 0 <= i < s.len() ==> spec_is_kuten(#[trigger] s[i])
}

/// Whether `s` holds a block delimiter.
pub fn contains_kuten(s: &str) -> (b: bool)
    ensures
        b == spec_contains_kuten(s@),
{
    let v = chars_of(s);
    let mut i: usize = 0;
    while i < v.len()
        invariant
            i <= v.len(),
            v@ == s@,
            forall|j: int| 0 <= j < i ==> !spec_is_kuten(#[trigger] v@[j]),
        decreases v.len() - i,
    {
        if is_kuten(v[i]) {
            return true;
        }
        i = i + 1;
    }
    false
}

/// The closed blocks of `s` (text before each delimiter, with the delimiter)
/// and the open text after the last delimiter.
pub open spec fn punct_scan(s: Seq<char>) -> (Seq<(Seq<char>, Option<char>)>, Seq<char>)
    decreases s.len(),
{
    if s.len() == 0 {
        (seq![], seq![])
    } else {
        let (blocks, cur) = punct_scan(s.drop_last());
        let c = s.last();
        if spec_is_kuten(c) {
            (blocks.push((cur, Some(c))), seq![])
        } else {
            (blocks, cur.push(c))
        }
    }
}

/// The blocks of a reading: the text before each delimiter with that
/// delimiter, then the text after the last one (if not empty) with `None`.
pub open spec fn spec_split_by_punctuation(s: Seq<char>) -> Seq<(Seq<char>, Option<char>)> {
    let (blocks, cur) = punct_scan(s);
    if cur.len() > 0 {
        blocks.push((cur, None))
    } else {
        blocks
    }
}

pub open spec fn block_views(v: Seq<(String, Option<char>)>) -> Seq<(Seq<char>, Option<char>)> {
    v.map_values(|b: (String, Option<char>)| (b.0@, b.1))
}

/// One block written out: its text, then its delimiter.
pub open spec fn block_text(b: (Seq<char>, Option<char>)) -> Seq<char> {
    match b.1 {
        Some(c) => b.0.push(c),
        None => b.0,
    }
}

/// The blocks written out one after the other.
pub open spec fn join_blocks(bs: Seq<(Seq<char>, Option<char>)>) -> Seq<char>
    decreases bs.len(),
{
    if bs.len() == 0 {
        seq![]
    } else {
        join_blocks(bs.drop_last()) + block_text(bs.last())
    }
}

/// Splits a reading at its delimiters (see `spec_split_by_punctuation`).
pub fn split_by_punctuation(s: &str) -> (r: Vec<(String, Option<char>)>)
    ensures
        block_views(r@) == spec_split_by_punctuation(s@),
{
    let v = chars_of(s);
    let mut blocks: Vec<(String, Option<char>)> = Vec::new();
    let mut current = String::new();
    let mut i: usize = 0;
    while i < v.len()
        invariant
            i <= v.len(),
            v@ == s@,
            (block_views(blocks@), current@) == punct_scan(v@.take(i as int)),
        decreases v.len() - i,
    {
        let c = v[i];
        assert(v@.take(i + 1).drop_last() == v@.take(i as int));
        if is_kuten(c) {
            blocks.push((current, Some(c)));
            current = String::new();
            assert(block_views(blocks@) == punct_scan(v@.take(i + 1)).0);
            assert(current@ == Seq::<char>::empty());
        } else {
            push_char(&mut current, c);
        }
        i = i + 1;
    }
    assert(v@.take(v.len() as int) == v@);
    if current.as_str().is_empty() {
        blocks
    } else {
        blocks.push((current, None));
        assert(block_views(blocks@) == spec_split_by_punctuation(s@));
        blocks
    }
}

proof fn lemma_punct_scan(s: Seq<char>)
    ensures
        join_blocks(punct_scan(s).0) + punct_scan(s).1 == s,
        no_kuten(punct_scan(s).1),
        forall|k: int|
            0 <= k < punct_scan(s).0.len() ==> no_kuten((#[trigger] punct_scan(s).0[k]).0) && (
            punct_scan(s).0[k].1 matches Some(c) && spec_is_kuten(c)),
    decreases s.len(),
{
    if s.len() > 0 {
        lemma_punct_scan(s.drop_last());
        let (blocks, cur) = punct_scan(s.drop_last());
        let c = s.last();
        assert(s == s.drop_last().push(c));
        if spec_is_kuten(c) {
            let nb = blocks.push((cur, Some(c)));
            assert(nb.drop_last() == blocks);
            assert(join_blocks(nb) == join_blocks(blocks) + cur.push(c));
            assert(join_blocks(nb) + seq![] == join_blocks(nb));
            assert(join_blocks(blocks) + cur.push(c) == (join_blocks(blocks) + cur).push(c));
        } else {
            assert(join_blocks(blocks) + cur.push(c) == (join_blocks(blocks) + cur).push(c));
        }
    }
}

/// How many delimiters `s` holds.
pub open spec fn kuten_count(s: Seq<char>) -> nat
    decreases s.len(),
{
    if s.len() == 0 {
        0
    } else {
        kuten_count(s.drop_last()) + if spec_is_kuten(s.last()) {
            1nat
        } else {
            0nat
        }
    }
}

proof fn lemma_punct_scan_count(s: Seq<char>)
    ensures
        punct_scan(s).0.len() == kuten_count(s),
        (punct_scan(s).1.len() == 0) == (s.len() == 0 || spec_is_kuten(s.last())),
    decreases s.len(),
{
    if s.len() > 0 {
        lemma_punct_scan_count(s.drop_last());
    }
}

/// Writing the blocks out again gives the reading back; no block text holds a
/// delimiter, every block but the last ends with one, and the last ends with
/// one or is not empty. There is one block per delimiter, and one more when
/// the reading is not empty and does not end with a delimiter.
pub proof fn lemma_split_by_punctuation(s: Seq<char>)
    ensures
        spec_split_by_punctuation(s).len() == kuten_count(s) + (if s.len() > 0 && !spec_is_kuten(
            s.last(),
        ) {
            1nat
        } else {
            0nat
        }),
        join_blocks(spec_split_by_punctuation(s)) == s,
        forall|k: int|
            0 <= k < spec_split_by_punctuation(s).len() ==> no_kuten(
                (#[trigger] spec_split_by_punctuation(s)[k]).0,
            ),
        forall|k: int|
            0 <= k < spec_split_by_punctuation(s).len() - 1 ==> ((
            #[trigger] spec_split_by_punctuation(s)[k]).1 matches Some(c) && spec_is_kuten(c)),
        forall|k: int|
            0 <= k < spec_split_by_punctuation(s).len() ==> match (
            #[trigger] spec_split_by_punctuation(s)[k]).1 {
                Some(c) => spec_is_kuten(c),
                None => k == spec_split_by_punctuation(s).len() - 1
                    && spec_split_by_punctuation(s)[k].0.len() > 0,
            },
{
    lemma_punct_scan(s);
    lemma_punct_scan_count(s);
    let (blocks, cur) = punct_scan(s);
    if cur.len() > 0 {
        let nb = blocks.push((cur, None));
        assert(nb.drop_last() == blocks);
    } else {
        assert(join_blocks(blocks) + cur == join_blocks(blocks));
    }
}

/// The index of the first character of `s` that is no delimiter (`s.len()`
/// if there is none).
pub open spec fn first_text(s: Seq<char>) -> int
    decreases s.len(),
{
    if s.len() == 0 {
        0
    } else if !spec_is_kuten(s[0]) {
        0
    } else {
        1 + first_text(s.drop_first())
    }
}

/// Splits off the delimiters at the two ends of `s` when the text between them
/// holds none: `s == prefix + target + suffix` with both ends made of
/// delimiters, a target that is not empty and holds none, and at least one end
/// not empty. `None` when `s` has no such form.
pub open spec fn affix_form(s: Seq<char>, p: Seq<char>, t: Seq<char>, u: Seq<char>) -> bool {
    &&& s == p + t + u
    &&& all_kuten(p)
    &&& all_kuten(u)
    &&& t.len() > 0
    &&& no_kuten(t)
    &&& p.len() + u.len() > 0
}

/// Splits off the delimiters at both ends of a reading (`「かっことじ」` gives
/// `「`, `かっことじ`, `」`); `None` when there are none or the text between
/// them holds one.
pub fn split_symbol_affixes(s: &str) -> (r: Option<(String, String, String)>)
    ensures
        r matches Some(parts) ==> affix_form(s@, parts.0@, parts.1@, parts.2@),
        r is None ==> forall|p: Seq<char>, t: Seq<char>, u: Seq<char>|
            !#[trigger] affix_form(s@, p, t, u),
{
    let v = chars_of(s);
    let n = v.len();
    let mut a: usize = 0;
    while a < n && is_kuten(v[a])
        invariant
            a <= n == v.len(),
            v@ == s@,
            forall|j: int| 0 <= j < a ==> spec_is_kuten(#[trigger] v@[j]),
        decreases n - a,
    {
        a = a + 1;
    }
    if a == n {
        proof {
            assert forall|p: Seq<char>, t: Seq<char>, u: Seq<char>|
                !#[trigger] affix_form(s@, p, t, u) by {
                if affix_form(s@, p, t, u) {
                    assert(s@[p.len() as int] == t[0]);
                }
            }
        }
        return None;
    }
    let mut b: usize = n;
    while b > a && is_kuten(v[b - 1])
        invariant
            a < n == v.len(),
            a < b <= n,
            v@ == s@,
            !spec_is_kuten(v@[a as int]),
            forall|j: int| 0 <= j < a ==> spec_is_kuten(#[trigger] v@[j]),
            forall|j: int| b <= j < n ==> spec_is_kuten(#[trigger] v@[j]),
        decreases b,
    {
        b = b - 1;
    }
    let mut k: usize = a;
    while k < b
        invariant
            a <= k <= b <= n == v.len(),
            a < b,
            v@ == s@,
            !spec_is_kuten(v@[a as int]),
            !spec_is_kuten(v@[b - 1]),
            forall|j: int| 0 <= j < a ==> spec_is_kuten(#[trigger] v@[j]),
            forall|j: int| b <= j < n ==> spec_is_kuten(#[trigger] v@[j]),
            forall|j: int| a <= j < k ==> !spec_is_kuten(#[trigger] v@[j]),
        decreases b - k,
    {
        if is_kuten(v[k]) {
            proof {
                assert forall|p: Seq<char>, t: Seq<char>, u: Seq<char>|
                    !#[trigger] affix_form(s@, p, t, u) by {
                    if affix_form(s@, p, t, u) {
                        let pl = p.len() as int;
                        let tl = t.len() as int;
                        assert(s@[pl] == t[0]);
                        if a < pl {
                            assert(s@[a as int] == p[a as int]);
                        }
                        if pl < a {
                            assert(s@[pl] == t[0]);
                        }
                        assert(a == pl);
                        if pl + tl < b {
                            assert(s@[b - 1] == u[b - 1 - pl - tl]);
                        }
                        if b < pl + tl {
                            assert(s@[pl + tl - 1] == t[tl - 1]);
                        }
                        assert(b == pl + tl);
                        assert(s@[k as int] == t[k - pl]);
                    }
                }
            }
            return None;
        }
        k = k + 1;
    }
    if a == 0 && b == n {
        proof {
            assert forall|p: Seq<char>, t: Seq<char>, u: Seq<char>|
                !#[trigger] affix_form(s@, p, t, u) by {
                if affix_form(s@, p, t, u) {
                    let pl = p.len() as int;
                    let tl = t.len() as int;
                    if pl > 0 {
                        assert(s@[0] == p[0]);
                    }
                    if tl + pl < n {
                        assert(s@[n - 1] == u[u.len() - 1]);
                    }
                }
            }
        }
        return None;
    }
    let prefix = string_of_range(&v, 0, a);
    let target = string_of_range(&v, a, b);
    let suffix = string_of_range(&v, b, n);
    assert(s@ == v@.subrange(0, a as int) + v@.subrange(a as int, b as int) + v@.subrange(
        b as int,
        n as int,
    ));
    Some((prefix, target, suffix))
}

/// The part of `full` after `prefix`: all of `full` for an empty prefix, and
/// nothing when `full` does not start with `prefix` (`op` names the caller).
pub fn suffix_after_prefix_or_empty<'a>(full: &'a str, prefix: &str, op: &str) -> (r: &'a str)
    ensures
        r@ == if prefix@.len() == 0 {
            full@
        } else if prefix@.is_prefix_of(full@) {
            full@.skip(prefix@.len() as int)
        } else {
            Seq::<char>::empty()
        },
{
    let p = chars_of(prefix);
    if p.len() == 0 {
        return full;
    }
    let f = chars_of(full);
    let mut matches = p.len() <= f.len();
    let mut i: usize = 0;
    while matches && i < p.len()
        invariant
            p@ == prefix@,
            f@ == full@,
            i <= p.len(),
            matches ==> p.len() <= f.len(),
            matches ==> forall|j: int| 0 <= j < i ==> p@[j] == f@[j],
            !matches ==> !prefix@.is_prefix_of(full@),
        decreases p.len() - i,
    {
        if p[i] != f[i] {
            matches = false;
        }
        i = i + 1;
    }
    if matches {
        assert(prefix@.is_prefix_of(full@)) by {
            assert(full@.subrange(0, prefix@.len() as int) =~= prefix@);
        }
        let r = full.substring_char(p.len(), f.len());
        assert(full@.subrange(p.len() as int, f.len() as int) == full@.skip(p.len() as int));
        r
    } else {
        let r = full.substring_char(0, 0);
        assert(r@ == Seq::<char>::empty());
        r
    }
}

proof fn lemma_to_katakana_of_hiragana(s: Seq<char>)
    requires
        forall|i: int| 0 <= i < s.len() ==> spec_is_hiragana(#[trigger] s[i]),
    ensures
        spec_to_katakana(s) == s.map_values(|c: char| hira_to_kata(c)),
        forall|i: int| 0 <= i < s.len() ==> spec_is_katakana(#[trigger] spec_to_katakana(s)[i]),
    decreases s.len(),
{
    if s.len() > 0 {
        let rest = s.skip(1);
        assert forall|i: int| 0 <= i < rest.len() implies spec_is_hiragana(#[trigger] rest[i]) by {
            assert(rest[i] == s[i + 1]);
        }
        lemma_to_katakana_of_hiragana(rest);
        let c = s[0];
        let n: int = (c as u32) as int + 0x60;
        assert((n as u32) as char as u32 == n as u32);
        assert(spec_is_katakana(shift(c, 0x60)));
        assert(spec_to_katakana(s) == seq![shift(c, 0x60)] + spec_to_katakana(rest));
        assert(spec_to_katakana(s) =~= s.map_values(|c: char| hira_to_kata(c)));
    }
}

proof fn lemma_to_hiragana_of_katakana(t: Seq<char>)
    requires
        forall|i: int| 0 <= i < t.len() ==> spec_is_katakana(#[trigger] t[i]),
    ensures
        spec_to_hiragana(t) == t.map_values(|c: char| kata_to_hira(c)),
    decreases t.len(),
{
    if t.len() > 0 {
        let rest = t.skip(1);
        assert forall|i: int| 0 <= i < rest.len() implies spec_is_katakana(#[trigger] rest[i]) by {
            assert(rest[i] == t[i + 1]);
        }
        lemma_to_hiragana_of_katakana(rest);
        assert(spec_to_hiragana(t) == seq![shift(t[0], -0x60)] + spec_to_hiragana(rest));
        assert(spec_to_hiragana(t) =~= t.map_values(|c: char| kata_to_hira(c)));
    }
}

/// F6 after F7 gives back a reading of hiragana.
pub proof fn lemma_katakana_then_hiragana(s: Seq<char>)
    requires
        forall|i: int| 0 <= i < s.len() ==> spec_is_hiragana(#[trigger] s[i]),
    ensures
        spec_to_hiragana(spec_to_katakana(s)) == s,
{
    lemma_to_katakana_of_hiragana(s);
    lemma_to_hiragana_of_katakana(spec_to_katakana(s));
    assert forall|i: int| 0 <= i < s.len() implies !spec_is_katakana(#[trigger] s[i]) by {
        assert(spec_is_hiragana(s[i]));
    }
    crate::kana::lemma_hiragana_katakana_round_trip(s);
}


// ─── punctuation after a number, and the candidates shown at once ──────────

/// A digit of a number, ASCII (`0`..`9`) or fullwidth (`０`..`９`).
pub open spec fn spec_is_numeric_digit(c: char) -> bool {
    spec_is_ascii_digit(c) || spec_is_fullwidth_digit(c)
}

pub fn is_numeric_digit(c: char) -> (b: bool)
    ensures
        b == spec_is_numeric_digit(c),
{
    is_ascii_digit(c) || is_fullwidth_digit(c)
}

/// The separator typed for a punctuation key right after a digit, so that a
/// number stays whole: `、` or `,` gives `,`, `。` or `.` gives `.`; nothing
/// when the reading does not end in a digit or for any other key.
pub open spec fn spec_numeric_separator_after_digit(reading: Seq<char>, c: char) -> Option<char> {
    if reading.len() == 0 || !spec_is_numeric_digit(reading.last()) {
        None
    } else if c == '\u{3001}' || c == ',' {
        Some(',')
    } else if c == '\u{3002}' || c == '.' {
        Some('.')
    } else {
        None
    }
}

pub fn numeric_separator_after_digit(reading: &str, c: char) -> (r: Option<char>)
    ensures
        r == spec_numeric_separator_after_digit(reading@, c),
{
    let v = chars_of(reading);
    if v.len() == 0 || !is_numeric_digit(v[v.len() - 1]) {
        return None;
    }
    if c == '\u{3001}' || c == ',' {
        Some(',')
    } else if c == '\u{3002}' || c == '.' {
        Some('.')
    } else {
        None
    }
}

/// The dictionary candidates that a conversion shows at once: all of them,
/// when one differs from the reading; none when every one is the reading
/// itself (nothing was converted).
pub fn immediate_dict_candidates(candidates: Vec<String>, preedit: &str) -> (r: Option<Vec<String>>)
    ensures
        (exists|i: int| 0 <= i < candidates.len() && (#[trigger] candidates@[i])@ != preedit@) ==> r
            == Some(candidates),
        !(exists|i: int| 0 <= i < candidates.len() && (#[trigger] candidates@[i])@ != preedit@)
            ==> r is None,
{
    let mut i: usize = 0;
    while i < candidates.len()
        invariant
            i <= candidates.len(),
            forall|k: int| 0 <= k < i ==> (#[trigger] candidates@[k])@ == preedit@,
        decreases candidates.len() - i,
    {
        if !str_eq(candidates[i].as_str(), preedit) {
            return Some(candidates);
        }
        i = i + 1;
    }
    None
}


// ─── the text of F6 to F10 ──────────────────────────────────────────────────

/// A kana of the reading for F6 to F10: hiragana, fullwidth katakana with
/// its marks (up to `ー`), or halfwidth katakana.
pub open spec fn spec_is_convertible_kana(c: char) -> bool {
    in_range(c, 0x3041, 0x3096) || in_range(c, 0x30A1, 0x30FC) || in_range(c, 0xFF65, 0xFF9F)
}

pub open spec fn spec_has_kana(s: Seq<char>) -> bool {
    exists|i: int| 0 <= i < s.len() && spec_is_convertible_kana(#[trigger] s[i])
}

/// Whether the reading holds a kana (see `spec_is_convertible_kana`).
pub fn has_kana(s: &str) -> (b: bool)
    ensures
        b == spec_has_kana(s@),
{
    let v = chars_of(s);
    let mut i: usize = 0;
    while i < v.len()
        invariant
            i <= v.len(),
            v@ == s@,
            forall|j: int| 0 <= j < i ==> !spec_is_convertible_kana(#[trigger] v@[j]),
        decreases v.len() - i,
    {
        let n = v[i] as u32;
        if (0x3041 <= n && n <= 0x3096) || (0x30A1 <= n && n <= 0x30FC) || (0xFF65 <= n && n
            <= 0xFF9F) {
            return true;
        }
        i = i + 1;
    }
    false
}

/// What F6, F7 or F8 converts: the reading when it holds kana; after F9 or
/// F10 left only latin letters, the hiragana rebuilt from the romaji typed,
/// unless that is empty.
pub fn kana_convert_source(preedit: &str, hiragana_from_log: &str) -> (r: String)
    ensures
        r@ == (if spec_has_kana(preedit@) || hiragana_from_log@.len() == 0 {
            preedit@
        } else {
            hiragana_from_log@
        }),
{
    if has_kana(preedit) || hiragana_from_log.unicode_len() == 0 {
        preedit.to_owned()
    } else {
        hiragana_from_log.to_owned()
    }
}

/// What F9 (`full`) or F10 makes of the reading: with kana in it, the romaji
/// typed (with what follows the converted hiragana) in fullwidth small
/// letters or lowercase ASCII; when it is latin already, the next state of
/// the fullwidth or halfwidth cycle.
pub open spec fn spec_latin_convert_text(
    preedit: Seq<char>,
    hiragana: Seq<char>,
    romaji_log: Seq<char>,
    full: bool,
) -> Seq<char> {
    if spec_has_kana(preedit) {
        let suffix = if hiragana.is_prefix_of(preedit) {
            preedit.skip(hiragana.len() as int)
        } else {
            Seq::<char>::empty()
        };
        let romaji = romaji_log + suffix;
        if full {
            spec_fullwidth_to_lower(spec_ascii_to_fullwidth(romaji))
        } else {
            lowercase_of(spec_fullwidth_to_ascii(romaji))
        }
    } else if full {
        spec_apply(spec_next_full(spec_detect(preedit)), preedit)
    } else {
        spec_apply(spec_next_half(spec_detect(preedit)), preedit)
    }
}

pub fn latin_convert_text(preedit: &str, hiragana: &str, romaji_log: &str, full: bool) -> (r:
    String)
    ensures
        r@ == spec_latin_convert_text(preedit@, hiragana@, romaji_log@, full),
        !full && !spec_has_kana(preedit@) && all_ascii(spec_fullwidth_to_ascii(preedit@)) ==> r@
            == spec_ascii_case(
            spec_next_half(spec_detect(preedit@)),
            spec_fullwidth_to_ascii(preedit@),
        ),
{
    if has_kana(preedit) {
        let suffix = suffix_after_prefix_or_empty(preedit, hiragana, "latin_convert");
        proof {
            if hiragana@.len() == 0 {
                assert(hiragana@.is_prefix_of(preedit@));
                assert(preedit@.skip(0) == preedit@);
            }
        }
        let mut romaji = romaji_log.to_owned();
        push_str(&mut romaji, suffix);
        if full {
            romaji_to_fullwidth_latin(romaji.as_str())
        } else {
            romaji_to_halfwidth_latin(romaji.as_str())
        }
    } else if full {
        to_full_latin(preedit)
    } else {
        to_half_latin(preedit)
    }
}

// ─── F8 then F7 ─────────────────────────────────────────────────────────────

/// F7 reads a katakana's halfwidth form back as that katakana: the base
/// character is a halfwidth kana, not a sound mark, and its plain, voiced or
/// semi-voiced fullwidth form (as the mark after it says) is the katakana.
pub open spec fn half_form_restores(k: char) -> bool {
    match katakana_halfwidth(k) {
        None => true,
        Some((b, m)) => {
            &&& spec_is_halfwidth_kana(b)
            &&& b != '\u{FF9E}'
            &&& b != '\u{FF9F}'
            &&& match half_kana_forms(b) {
                None => false,
                Some((plain, voiced, semi)) => match m {
                    None => plain == k,
                    Some(x) => (x == '\u{FF9E}' && voiced == Some(k)) || (x == '\u{FF9F}' && semi
                        == Some(k)),
                },
            }
        },
    }
}

proof fn lemma_half_forms_restore(k: char)
    requires
        spec_is_katakana(k),
    ensures
        half_form_restores(k),
{
}

/// F7 on the halfwidth form of a katakana (other than `ヮ`), before anything
/// that does not start with a sound mark, takes the whole form and gives the
/// katakana.
proof fn lemma_katakana_step_of_half(k: char, t: Seq<char>)
    requires
        spec_is_katakana(k),
        k != '\u{30EE}',
        t.len() > 0 ==> t[0] != '\u{FF9E}' && t[0] != '\u{FF9F}',
    ensures
        katakana_step(kata_half_chars(k) + t) == (k, kata_half_chars(k).len() as int),
        hiragana_step(kata_half_chars(k) + t) == (kata_to_hira(k), kata_half_chars(
            k,
        ).len() as int),
{
    lemma_half_forms_restore(k);
    let s = kata_half_chars(k) + t;
    match katakana_halfwidth(k) {
        None => {
            assert(s[0] == k);
        },
        Some((b, m)) => {
            assert(s[0] == b);
            match m {
                None => {
                    assert(second(s) == (if t.len() > 0 { Some(t[0]) } else { None::<char> }));
                },
                Some(x) => {
                    assert(s[1] == x);
                    assert(second(s) == Some(x));
                },
            }
        },
    }
}

/// The halfwidth form of a katakana (other than `ヮ`) starts with a
/// character that is no sound mark.
proof fn lemma_half_form_head(k: char)
    requires
        spec_is_katakana(k),
        k != '\u{30EE}',
    ensures
        kata_half_chars(k).len() > 0,
        kata_half_chars(k)[0] != '\u{FF9E}' && kata_half_chars(k)[0] != '\u{FF9F}',
{
    lemma_half_forms_restore(k);
}

/// F8 of a character followed by more text: its form, then theirs.
proof fn lemma_half_katakana_cons(c: char, rest: Seq<char>)
    ensures
        spec_to_half_katakana(seq![c] + rest) == half_katakana_chars(c) + spec_to_half_katakana(rest),
    decreases rest.len(),
{
    let s = seq![c] + rest;
    if rest.len() == 0 {
        assert(s == seq![c]);
        assert(s.drop_last() == Seq::<char>::empty());
        assert(s.last() == c);
        assert(spec_to_half_katakana(Seq::<char>::empty()) == Seq::<char>::empty());
        assert(spec_to_half_katakana(s) == Seq::<char>::empty() + half_katakana_chars(c));
        assert(half_katakana_chars(c) + spec_to_half_katakana(rest) == half_katakana_chars(c));
        assert(Seq::<char>::empty() + half_katakana_chars(c) == half_katakana_chars(c));
    } else {
        assert(s.drop_last() == seq![c] + rest.drop_last());
        assert(s.last() == rest.last());
        lemma_half_katakana_cons(c, rest.drop_last());
        let a = half_katakana_chars(c);
        let b = spec_to_half_katakana(rest.drop_last());
        let z = half_katakana_chars(rest.last());
        assert(spec_to_half_katakana(s) == (a + b) + z);
        assert(spec_to_half_katakana(rest) == b + z);
        assert((a + b) + z == a + (b + z));
    }
}

/// F8 of a kana is the halfwidth form of its katakana.
proof fn lemma_half_katakana_of_kana(c: char)
    requires
        spec_is_hiragana(c) || spec_is_katakana(c),
    ensures
        half_katakana_chars(c) == kata_half_chars(hira_to_kata(c)),
        spec_is_katakana(hira_to_kata(c)),
{
}

/// F8 then F7 turns a reading of kana into katakana, whatever the kana's
/// width: each character comes back as its katakana. The small `ゎ`/`ヮ` is
/// left out: it has no halfwidth form and F8 writes it as `ﾜ`.
#[verifier::spinoff_prover]
#[verifier::rlimit(40)]
pub proof fn lemma_half_katakana_then_katakana(s: Seq<char>)
    requires
        forall|i: int|
            0 <= i < s.len() ==> (spec_is_hiragana(#[trigger] s[i]) || spec_is_katakana(s[i]))
                && hira_to_kata(s[i]) != '\u{30EE}',
    ensures
        spec_to_katakana(spec_to_half_katakana(s)) == s.map_values(|c: char| hira_to_kata(c)),
    decreases s.len(),
{
    if s.len() == 0 {
        assert(spec_to_half_katakana(s) == Seq::<char>::empty());
        assert(s.map_values(|c: char| hira_to_kata(c)) == Seq::<char>::empty());
    } else {
        let c = s[0];
        let rest = s.skip(1);
        assert(s == seq![c] + rest);
        assert forall|i: int| 0 <= i < rest.len() implies (spec_is_hiragana(#[trigger] rest[i])
            || spec_is_katakana(rest[i])) && hira_to_kata(rest[i]) != '\u{30EE}' by {
            assert(rest[i] == s[i + 1]);
        }
        lemma_half_katakana_then_katakana(rest);
        lemma_half_katakana_cons(c, rest);
        lemma_half_katakana_of_kana(c);
        let k = hira_to_kata(c);
        let h = kata_half_chars(k);
        let big_h = spec_to_half_katakana(rest);
        if rest.len() > 0 {
            assert(rest == seq![rest[0]] + rest.skip(1));
            lemma_half_katakana_cons(rest[0], rest.skip(1));
            lemma_half_katakana_of_kana(rest[0]);
            lemma_half_form_head(hira_to_kata(rest[0]));
            assert(big_h[0] == kata_half_chars(hira_to_kata(rest[0]))[0]);
        }
        lemma_katakana_step_of_half(k, big_h);
        let whole = h + big_h;
        assert(spec_to_half_katakana(s) == whole);
        assert(whole.skip(h.len() as int) == big_h);
        assert(spec_to_katakana(whole) == seq![k] + spec_to_katakana(big_h));
        assert(s.map_values(|c: char| hira_to_kata(c)) == seq![k] + rest.map_values(
            |c: char| hira_to_kata(c),
        ));
    }
}


/// F8 then F6 turns a reading of kana into hiragana: each character comes
/// back as its hiragana. The small `ゎ`/`ヮ` is left out: it has no halfwidth
/// form and F8 writes it as `ﾜ`.
#[verifier::spinoff_prover]
#[verifier::rlimit(40)]
pub proof fn lemma_half_katakana_then_hiragana(s: Seq<char>)
    requires
        forall|i: int|
            0 <= i < s.len() ==> (spec_is_hiragana(#[trigger] s[i]) || spec_is_katakana(s[i]))
                && hira_to_kata(s[i]) != '\u{30EE}',
    ensures
        spec_to_hiragana(spec_to_half_katakana(s)) == s.map_values(
            |c: char| kata_to_hira(hira_to_kata(c)),
        ),
    decreases s.len(),
{
    if s.len() == 0 {
        assert(spec_to_half_katakana(s) == Seq::<char>::empty());
        assert(s.map_values(|c: char| kata_to_hira(hira_to_kata(c))) == Seq::<char>::empty());
    } else {
        let c = s[0];
        let rest = s.skip(1);
        assert(s == seq![c] + rest);
        assert forall|i: int| 0 <= i < rest.len() implies (spec_is_hiragana(#[trigger] rest[i])
            || spec_is_katakana(rest[i])) && hira_to_kata(rest[i]) != '\u{30EE}' by {
            assert(rest[i] == s[i + 1]);
        }
        lemma_half_katakana_then_hiragana(rest);
        lemma_half_katakana_cons(c, rest);
        lemma_half_katakana_of_kana(c);
        let k = hira_to_kata(c);
        let h = kata_half_chars(k);
        let big_h = spec_to_half_katakana(rest);
        if rest.len() > 0 {
            assert(rest == seq![rest[0]] + rest.skip(1));
            lemma_half_katakana_cons(rest[0], rest.skip(1));
            lemma_half_katakana_of_kana(rest[0]);
            lemma_half_form_head(hira_to_kata(rest[0]));
            assert(big_h[0] == kata_half_chars(hira_to_kata(rest[0]))[0]);
        }
        lemma_katakana_step_of_half(k, big_h);
        let whole = h + big_h;
        assert(spec_to_half_katakana(s) == whole);
        assert(whole.skip(h.len() as int) == big_h);
        assert(spec_to_hiragana(whole) == seq![kata_to_hira(k)] + spec_to_hiragana(big_h));
        assert(s.map_values(|c: char| kata_to_hira(hira_to_kata(c))) == seq![kata_to_hira(k)] + rest.map_values(
            |c: char| kata_to_hira(hira_to_kata(c)),
        ));
    }
}

/// A character that F8 then F7 (or F6) gives back as its katakana (or
/// hiragana): a kana other than the small `ゎ`/`ヮ`, the long vowel mark, or
/// the middle dot.
pub open spec fn f8_restorable(c: char) -> bool {
    ((spec_is_hiragana(c) || spec_is_katakana(c)) && hira_to_kata(c) != '\u{30EE}') || c
        == '\u{30FC}' || c == '\u{30FB}'
}

/// The halfwidth form of a restorable character starts with no sound mark,
/// and F7 and F6 read it back, whatever follows that is no sound mark.
proof fn lemma_restorable_step(c: char, t: Seq<char>)
    requires
        f8_restorable(c),
        t.len() > 0 ==> t[0] != '\u{FF9E}' && t[0] != '\u{FF9F}',
    ensures
        half_katakana_chars(c).len() > 0,
        half_katakana_chars(c)[0] != '\u{FF9E}' && half_katakana_chars(c)[0] != '\u{FF9F}',
        katakana_step(half_katakana_chars(c) + t) == (hira_to_kata(c), half_katakana_chars(
            c,
        ).len() as int),
        hiragana_step(half_katakana_chars(c) + t) == (kata_to_hira(hira_to_kata(c)),
        half_katakana_chars(c).len() as int),
{
    if c == '\u{30FC}' {
        let h = half_katakana_chars(c);
        assert(h == seq!['\u{FF70}']);
        let s = h + t;
        assert(s[0] == '\u{FF70}');
        assert(half_kana_forms('\u{FF70}') == Some(('\u{30FC}', None::<char>, None::<char>)));
    } else if c == '\u{30FB}' {
        let h = half_katakana_chars(c);
        assert(h == seq!['\u{FF65}']);
        let s = h + t;
        assert(s[0] == '\u{FF65}');
        assert(half_kana_forms('\u{FF65}') == Some(('\u{30FB}', None::<char>, None::<char>)));
    } else {
        lemma_half_katakana_of_kana(c);
        lemma_half_form_head(hira_to_kata(c));
        lemma_katakana_step_of_half(hira_to_kata(c), t);
    }
}

/// F8 then F7 gives a reading of kana, long vowel marks and middle dots back
/// in katakana, and F8 then F6 gives it back in hiragana (`ー` and `・` kept): each
/// character comes back as its katakana or hiragana. The small `ゎ`/`ヮ` is
/// left out: it has no halfwidth form and F8 writes it as `ﾜ`.
#[verifier::spinoff_prover]
#[verifier::rlimit(40)]
pub proof fn lemma_half_katakana_round_trip(s: Seq<char>)
    requires
        forall|i: int| 0 <= i < s.len() ==> f8_restorable(#[trigger] s[i]),
    ensures
        spec_to_katakana(spec_to_half_katakana(s)) == s.map_values(|c: char| hira_to_kata(c)),
        spec_to_hiragana(spec_to_half_katakana(s)) == s.map_values(
            |c: char| kata_to_hira(hira_to_kata(c)),
        ),
    decreases s.len(),
{
    if s.len() == 0 {
        assert(spec_to_half_katakana(s) == Seq::<char>::empty());
        assert(s.map_values(|c: char| hira_to_kata(c)) == Seq::<char>::empty());
        assert(s.map_values(|c: char| kata_to_hira(hira_to_kata(c))) == Seq::<char>::empty());
    } else {
        let c = s[0];
        let rest = s.skip(1);
        assert(s == seq![c] + rest);
        assert forall|i: int| 0 <= i < rest.len() implies f8_restorable(#[trigger] rest[i]) by {
            assert(rest[i] == s[i + 1]);
        }
        lemma_half_katakana_round_trip(rest);
        lemma_half_katakana_cons(c, rest);
        let h = half_katakana_chars(c);
        let big_h = spec_to_half_katakana(rest);
        if rest.len() > 0 {
            assert(rest == seq![rest[0]] + rest.skip(1));
            lemma_half_katakana_cons(rest[0], rest.skip(1));
            lemma_restorable_step(rest[0], Seq::<char>::empty());
            assert(big_h[0] == half_katakana_chars(rest[0])[0]);
        }
        lemma_restorable_step(c, big_h);
        let whole = h + big_h;
        assert(spec_to_half_katakana(s) == whole);
        assert(whole.skip(h.len() as int) == big_h);
        assert(spec_to_katakana(whole) == seq![hira_to_kata(c)] + spec_to_katakana(big_h));
        assert(spec_to_hiragana(whole) == seq![kata_to_hira(hira_to_kata(c))] + spec_to_hiragana(
            big_h,
        ));
        assert(s.map_values(|c: char| hira_to_kata(c)) == seq![hira_to_kata(c)] + rest.map_values(
            |c: char| hira_to_kata(c),
        ));
        assert(s.map_values(|c: char| kata_to_hira(hira_to_kata(c))) == seq![kata_to_hira(
            hira_to_kata(c),
        )] + rest.map_values(|c: char| kata_to_hira(hira_to_kata(c))));
    }
}

} // verus!
