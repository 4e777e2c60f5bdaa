//! Kana conversions of the engine: hiragana and katakana into each other,
//! fullwidth katakana into halfwidth katakana, and NFKC normalization.
use unicode_normalization::UnicodeNormalization;
use vstd::prelude::*;

use crate::text::{chars_of, in_range, push_char, shift, shift_char};

verus! {

broadcast use vstd::utf8::char_u32_cast;

/// Hiragana `ぁ`..=`ゖ` (U+3041..=U+3096).
pub open spec fn spec_is_hiragana(c: char) -> bool {
    in_range(c, 0x3041, 0x3096)
}

/// Katakana `ァ`..=`ヶ` (U+30A1..=U+30F6), the images of the hiragana.
pub open spec fn spec_is_katakana(c: char) -> bool {
    in_range(c, 0x30A1, 0x30F6)
}

/// A hiragana moved to its katakana; any other character unchanged.
pub open spec fn hira_to_kata(c: char) -> char {
    if spec_is_hiragana(c) {
        shift(c, 0x60)
    } else {
        c
    }
}

/// A katakana moved to its hiragana; any other character unchanged.
pub open spec fn kata_to_hira(c: char) -> char {
    if spec_is_katakana(c) {
        shift(c, -0x60)
    } else {
        c
    }
}

pub fn is_hiragana(c: char) -> (b: bool)
    ensures
        b == spec_is_hiragana(c),
{
    0x3041 <= (c as u32) && (c as u32) <= 0x3096
}

pub fn is_katakana(c: char) -> (b: bool)
    ensures
        b == spec_is_katakana(c),
{
    0x30A1 <= (c as u32) && (c as u32) <= 0x30F6
}

pub fn hira_to_kata_char(c: char) -> (r: char)
    ensures
        r == hira_to_kata(c),
{
    if is_hiragana(c) {
        shift_char(c, 0x60)
    } else {
        c
    }
}

pub fn kata_to_hira_char(c: char) -> (r: char)
    ensures
        r == kata_to_hira(c),
{
    if is_katakana(c) {
        shift_char(c, -0x60)
    } else {
        c
    }
}

/// The halfwidth form of a fullwidth katakana or Japanese punctuation mark:
/// the halfwidth base and, for a voiced or semi-voiced kana, the halfwidth
/// sound mark that follows it. `None` for any other character.
pub open spec fn katakana_halfwidth(c: char) -> Option<(char, Option<char>)> {
    match c {
        '\u{3001}' => Some(('\u{FF64}', None)),
        '\u{3002}' => Some(('\u{FF61}', None)),
        '\u{300C}' => Some(('\u{FF62}', None)),
        '\u{300D}' => Some(('\u{FF63}', None)),
        '\u{30A1}' => Some(('\u{FF67}', None)),
        '\u{30A2}' => Some(('\u{FF71}', None)),
        '\u{30A3}' => Some(('\u{FF68}', None)),
        '\u{30A4}' => Some(('\u{FF72}', None)),
        '\u{30A5}' => Some(('\u{FF69}', None)),
        '\u{30A6}' => Some(('\u{FF73}', None)),
        '\u{30A7}' => Some(('\u{FF6A}', None)),
        '\u{30A8}' => Some(('\u{FF74}', None)),
        '\u{30A9}' => Some(('\u{FF6B}', None)),
        '\u{30AA}' => Some(('\u{FF75}', None)),
        '\u{30AB}' => Some(('\u{FF76}', None)),
        '\u{30AC}' => Some(('\u{FF76}', Some('\u{FF9E}'))),
        '\u{30AD}' => Some(('\u{FF77}', None)),
        '\u{30AE}' => Some(('\u{FF77}', Some('\u{FF9E}'))),
        '\u{30AF}' => Some(('\u{FF78}', None)),
        '\u{30B0}' => Some(('\u{FF78}', Some('\u{FF9E}'))),
        '\u{30B1}' => Some(('\u{FF79}', None)),
        '\u{30B2}' => Some(('\u{FF79}', Some('\u{FF9E}'))),
        '\u{30B3}' => Some(('\u{FF7A}', None)),
        '\u{30B4}' => Some(('\u{FF7A}', Some('\u{FF9E}'))),
        '\u{30B5}' => Some(('\u{FF7B}', None)),
        '\u{30B6}' => Some(('\u{FF7B}', Some('\u{FF9E}'))),
        '\u{30B7}' => Some(('\u{FF7C}', None)),
        '\u{30B8}' => Some(('\u{FF7C}', Some('\u{FF9E}'))),
        '\u{30B9}' => Some(('\u{FF7D}', None)),
        '\u{30BA}' => Some(('\u{FF7D}', Some('\u{FF9E}'))),
        '\u{30BB}' => Some(('\u{FF7E}', None)),
        '\u{30BC}' => Some(('\u{FF7E}', Some('\u{FF9E}'))),
        '\u{30BD}' => Some(('\u{FF7F}', None)),
        '\u{30BE}' => Some(('\u{FF7F}', Some('\u{FF9E}'))),
        '\u{30BF}' => Some(('\u{FF80}', None)),
        '\u{30C0}' => Some(('\u{FF80}', Some('\u{FF9E}'))),
        '\u{30C1}' => Some(('\u{FF81}', None)),
        '\u{30C2}' => Some(('\u{FF81}', Some('\u{FF9E}'))),
        '\u{30C3}' => Some(('\u{FF6F}', None)),
        '\u{30C4}' => Some(('\u{FF82}', None)),
        '\u{30C5}' => Some(('\u{FF82}', Some('\u{FF9E}'))),
        '\u{30C6}' => Some(('\u{FF83}', None)),
        '\u{30C7}' => Some(('\u{FF83}', Some('\u{FF9E}'))),
        '\u{30C8}' => Some(('\u{FF84}', None)),
        '\u{30C9}' => Some(('\u{FF84}', Some('\u{FF9E}'))),
        '\u{30CA}' => Some(('\u{FF85}', None)),
        '\u{30CB}' => Some(('\u{FF86}', None)),
        '\u{30CC}' => Some(('\u{FF87}', None)),
        '\u{30CD}' => Some(('\u{FF88}', None)),
        '\u{30CE}' => Some(('\u{FF89}', None)),
        '\u{30CF}' => Some(('\u{FF8A}', None)),
        '\u{30D0}' => Some(('\u{FF8A}', Some('\u{FF9E}'))),
        '\u{30D1}' => Some(('\u{FF8A}', Some('\u{FF9F}'))),
        '\u{30D2}' => Some(('\u{FF8B}', None)),
        '\u{30D3}' => Some(('\u{FF8B}', Some('\u{FF9E}'))),
        '\u{30D4}' => Some(('\u{FF8B}', Some('\u{FF9F}'))),
        '\u{30D5}' => Some(('\u{FF8C}', None)),
        '\u{30D6}' => Some(('\u{FF8C}', Some('\u{FF9E}'))),
        '\u{30D7}' => Some(('\u{FF8C}', Some('\u{FF9F}'))),
        '\u{30D8}' => Some(('\u{FF8D}', None)),
        '\u{30D9}' => Some(('\u{FF8D}', Some('\u{FF9E}'))),
        '\u{30DA}' => Some(('\u{FF8D}', Some('\u{FF9F}'))),
        '\u{30DB}' => Some(('\u{FF8E}', None)),
        '\u{30DC}' => Some(('\u{FF8E}', Some('\u{FF9E}'))),
        '\u{30DD}' => Some(('\u{FF8E}', Some('\u{FF9F}'))),
        '\u{30DE}' => Some(('\u{FF8F}', None)),
        '\u{30DF}' => Some(('\u{FF90}', None)),
        '\u{30E0}' => Some(('\u{FF91}', None)),
        '\u{30E1}' => Some(('\u{FF92}', None)),
        '\u{30E2}' => Some(('\u{FF93}', None)),
        '\u{30E3}' => Some(('\u{FF6C}', None)),
        '\u{30E4}' => Some(('\u{FF94}', None)),
        '\u{30E5}' => Some(('\u{FF6D}', None)),
        '\u{30E6}' => Some(('\u{FF95}', None)),
        '\u{30E7}' => Some(('\u{FF6E}', None)),
        '\u{30E8}' => Some(('\u{FF96}', None)),
        '\u{30E9}' => Some(('\u{FF97}', None)),
        '\u{30EA}' => Some(('\u{FF98}', None)),
        '\u{30EB}' => Some(('\u{FF99}', None)),
        '\u{30EC}' => Some(('\u{FF9A}', None)),
        '\u{30ED}' => Some(('\u{FF9B}', None)),
        '\u{30EF}' => Some(('\u{FF9C}', None)),
        '\u{30F2}' => Some(('\u{FF66}', None)),
        '\u{30F3}' => Some(('\u{FF9D}', None)),
        '\u{30F4}' => Some(('\u{FF73}', Some('\u{FF9E}'))),
        '\u{30FB}' => Some(('\u{FF65}', None)),
        '\u{30FC}' => Some(('\u{FF70}', None)),
        _ => None,
    }
}

pub fn katakana_halfwidth_of(c: char) -> (r: Option<(char, Option<char>)>)
    ensures
        r == katakana_halfwidth(c),
{
    match c {
        '\u{3001}' => Some(('\u{FF64}', None)),
        '\u{3002}' => Some(('\u{FF61}', None)),
        '\u{300C}' => Some(('\u{FF62}', None)),
        '\u{300D}' => Some(('\u{FF63}', None)),
        '\u{30A1}' => Some(('\u{FF67}', None)),
        '\u{30A2}' => Some(('\u{FF71}', None)),
        '\u{30A3}' => Some(('\u{FF68}', None)),
        '\u{30A4}' => Some(('\u{FF72}', None)),
        '\u{30A5}' => Some(('\u{FF69}', None)),
        '\u{30A6}' => Some(('\u{FF73}', None)),
        '\u{30A7}' => Some(('\u{FF6A}', None)),
        '\u{30A8}' => Some(('\u{FF74}', None)),
        '\u{30A9}' => Some(('\u{FF6B}', None)),
        '\u{30AA}' => Some(('\u{FF75}', None)),
        '\u{30AB}' => Some(('\u{FF76}', None)),
        '\u{30AC}' => Some(('\u{FF76}', Some('\u{FF9E}'))),
        '\u{30AD}' => Some(('\u{FF77}', None)),
        '\u{30AE}' => Some(('\u{FF77}', Some('\u{FF9E}'))),
        '\u{30AF}' => Some(('\u{FF78}', None)),
        '\u{30B0}' => Some(('\u{FF78}', Some('\u{FF9E}'))),
        '\u{30B1}' => Some(('\u{FF79}', None)),
        '\u{30B2}' => Some(('\u{FF79}', Some('\u{FF9E}'))),
        '\u{30B3}' => Some(('\u{FF7A}', None)),
        '\u{30B4}' => Some(('\u{FF7A}', Some('\u{FF9E}'))),
        '\u{30B5}' => Some(('\u{FF7B}', None)),
        '\u{30B6}' => Some(('\u{FF7B}', Some('\u{FF9E}'))),
        '\u{30B7}' => Some(('\u{FF7C}', None)),
        '\u{30B8}' => Some(('\u{FF7C}', Some('\u{FF9E}'))),
        '\u{30B9}' => Some(('\u{FF7D}', None)),
        '\u{30BA}' => Some(('\u{FF7D}', Some('\u{FF9E}'))),
        '\u{30BB}' => Some(('\u{FF7E}', None)),
        '\u{30BC}' => Some(('\u{FF7E}', Some('\u{FF9E}'))),
        '\u{30BD}' => Some(('\u{FF7F}', None)),
        '\u{30BE}' => Some(('\u{FF7F}', Some('\u{FF9E}'))),
        '\u{30BF}' => Some(('\u{FF80}', None)),
        '\u{30C0}' => Some(('\u{FF80}', Some('\u{FF9E}'))),
        '\u{30C1}' => Some(('\u{FF81}', None)),
        '\u{30C2}' => Some(('\u{FF81}', Some('\u{FF9E}'))),
        '\u{30C3}' => Some(('\u{FF6F}', None)),
        '\u{30C4}' => Some(('\u{FF82}', None)),
        '\u{30C5}' => Some(('\u{FF82}', Some('\u{FF9E}'))),
        '\u{30C6}' => Some(('\u{FF83}', None)),
        '\u{30C7}' => Some(('\u{FF83}', Some('\u{FF9E}'))),
        '\u{30C8}' => Some(('\u{FF84}', None)),
        '\u{30C9}' => Some(('\u{FF84}', Some('\u{FF9E}'))),
        '\u{30CA}' => Some(('\u{FF85}', None)),
        '\u{30CB}' => Some(('\u{FF86}', None)),
        '\u{30CC}' => Some(('\u{FF87}', None)),
        '\u{30CD}' => Some(('\u{FF88}', None)),
        '\u{30CE}' => Some(('\u{FF89}', None)),
        '\u{30CF}' => Some(('\u{FF8A}', None)),
        '\u{30D0}' => Some(('\u{FF8A}', Some('\u{FF9E}'))),
        '\u{30D1}' => Some(('\u{FF8A}', Some('\u{FF9F}'))),
        '\u{30D2}' => Some(('\u{FF8B}', None)),
        '\u{30D3}' => Some(('\u{FF8B}', Some('\u{FF9E}'))),
        '\u{30D4}' => Some(('\u{FF8B}', Some('\u{FF9F}'))),
        '\u{30D5}' => Some(('\u{FF8C}', None)),
        '\u{30D6}' => Some(('\u{FF8C}', Some('\u{FF9E}'))),
        '\u{30D7}' => Some(('\u{FF8C}', Some('\u{FF9F}'))),
        '\u{30D8}' => Some(('\u{FF8D}', None)),
        '\u{30D9}' => Some(('\u{FF8D}', Some('\u{FF9E}'))),
        '\u{30DA}' => Some(('\u{FF8D}', Some('\u{FF9F}'))),
        '\u{30DB}' => Some(('\u{FF8E}', None)),
        '\u{30DC}' => Some(('\u{FF8E}', Some('\u{FF9E}'))),
        '\u{30DD}' => Some(('\u{FF8E}', Some('\u{FF9F}'))),
        '\u{30DE}' => Some(('\u{FF8F}', None)),
        '\u{30DF}' => Some(('\u{FF90}', None)),
        '\u{30E0}' => Some(('\u{FF91}', None)),
        '\u{30E1}' => Some(('\u{FF92}', None)),
        '\u{30E2}' => Some(('\u{FF93}', None)),
        '\u{30E3}' => Some(('\u{FF6C}', None)),
        '\u{30E4}' => Some(('\u{FF94}', None)),
        '\u{30E5}' => Some(('\u{FF6D}', None)),
        '\u{30E6}' => Some(('\u{FF95}', None)),
        '\u{30E7}' => Some(('\u{FF6E}', None)),
        '\u{30E8}' => Some(('\u{FF96}', None)),
        '\u{30E9}' => Some(('\u{FF97}', None)),
        '\u{30EA}' => Some(('\u{FF98}', None)),
        '\u{30EB}' => Some(('\u{FF99}', None)),
        '\u{30EC}' => Some(('\u{FF9A}', None)),
        '\u{30ED}' => Some(('\u{FF9B}', None)),
        '\u{30EF}' => Some(('\u{FF9C}', None)),
        '\u{30F2}' => Some(('\u{FF66}', None)),
        '\u{30F3}' => Some(('\u{FF9D}', None)),
        '\u{30F4}' => Some(('\u{FF73}', Some('\u{FF9E}'))),
        '\u{30FB}' => Some(('\u{FF65}', None)),
        '\u{30FC}' => Some(('\u{FF70}', None)),
        _ => None,
    }
}

/// The characters one character becomes in halfwidth katakana.
pub open spec fn halfwidth_chars(c: char) -> Seq<char> {
    match katakana_halfwidth(c) {
        Some((b, None)) => seq![b],
        Some((b, Some(m))) => seq![b, m],
        None => seq![c],
    }
}

/// Fullwidth katakana turned into halfwidth katakana, character by character;
/// other characters unchanged.
pub open spec fn spec_katakana_to_halfwidth(s: Seq<char>) -> Seq<char>
    decreases s.len(),
{
    if s.len() == 0 {
        seq![]
    } else {
        spec_katakana_to_halfwidth(s.drop_last()) + halfwidth_chars(s.last())
    }
}

// ─── string conversions ─────────────────────────────────────────────────────

/// `unicode_normalization`'s NFKC form (compatibility decomposition followed by
/// canonical composition) of a character sequence.
pub uninterp spec fn nfkc_of(s: Seq<char>) -> Seq<char>;

/// `UnicodeNormalization::nfkc` on a string slice, collected: a function of the
/// characters of `text` alone. Nothing is stated of the normal form itself.
#[verifier::external_body]
fn nfkc_string(text: &str) -> (r: String)
    ensures
        r@ == nfkc_of(text@),
{
    text.nfkc().collect()
}

/// NFKC normalization of `text` (fullwidth ASCII to ASCII, compatibility
/// characters to their canonical forms), for model tokenizers that lack the
/// fullwidth forms.
pub fn normalize_nfkc(text: &str) -> (r: String)
    ensures
        r@ == nfkc_of(text@),
{
    nfkc_string(text)
}

/// Hiragana to katakana; other characters unchanged.
pub fn hiragana_to_katakana(text: &str) -> (r: String)
    ensures
        r@ == text@.map_values(|c: char| hira_to_kata(c)),
{
    let v = chars_of(text);
    let mut r = String::new();
    let mut i: usize = 0;
    while i < v.len()
        invariant
            i <= v.len(),
            v@ == text@,
            r@ == v@.take(i as int).map_values(|c: char| hira_to_kata(c)),
        decreases v.len() - i,
    {
        let k = hira_to_kata_char(v[i]);
        push_char(&mut r, k);
        assert(v@.take(i + 1) == v@.take(i as int).push(v@[i as int]));
        i = i + 1;
    }
    assert(v@.take(v.len() as int) == v@);
    r
}

/// Katakana to hiragana; other characters unchanged.
pub fn katakana_to_hiragana(text: &str) -> (r: String)
    ensures
        r@ == text@.map_values(|c: char| kata_to_hira(c)),
{
    let v = chars_of(text);
    let mut r = String::new();
    let mut i: usize = 0;
    while i < v.len()
        invariant
            i <= v.len(),
            v@ == text@,
            r@ == v@.take(i as int).map_values(|c: char| kata_to_hira(c)),
        decreases v.len() - i,
    {
        let k = kata_to_hira_char(v[i]);
        push_char(&mut r, k);
        assert(v@.take(i + 1) == v@.take(i as int).push(v@[i as int]));
        i = i + 1;
    }
    assert(v@.take(v.len() as int) == v@);
    r
}

/// Fullwidth katakana to halfwidth katakana: a voiced or semi-voiced kana
/// becomes its base followed by `ﾞ` or `ﾟ`; other characters unchanged.
pub fn fullwidth_katakana_to_halfwidth(text: &str) -> (r: String)
    ensures
        r@ == spec_katakana_to_halfwidth(text@),
{
    let v = chars_of(text);
    let mut r = String::new();
    let mut i: usize = 0;
    while i < v.len()
        invariant
            i <= v.len(),
            v@ == text@,
            r@ == spec_katakana_to_halfwidth(v@.take(i as int)),
        decreases v.len() - i,
    {
        let c = v[i];
        match katakana_halfwidth_of(c) {
            Some((b, None)) => {
                push_char(&mut r, b);
            },
            Some((b, Some(m))) => {
                push_char(&mut r, b);
                push_char(&mut r, m);
            },
            None => {
                push_char(&mut r, c);
            },
        }
        assert(v@.take(i + 1).drop_last() == v@.take(i as int));
        i = i + 1;
    }
    assert(v@.take(v.len() as int) == v@);
    r
}

/// Hiragana to halfwidth katakana, through fullwidth katakana.
pub fn hiragana_to_halfwidth_katakana(text: &str) -> (r: String)
    ensures
        r@ == spec_katakana_to_halfwidth(text@.map_values(|c: char| hira_to_kata(c))),
{
    let katakana = hiragana_to_katakana(text);
    fullwidth_katakana_to_halfwidth(katakana.as_str())
}

/// Katakana back to hiragana undoes hiragana to katakana on any text without
/// katakana of its own.
pub proof fn lemma_hiragana_katakana_round_trip(s: Seq<char>)
    requires
        forall|i: int| 0 <= i < s.len() ==> !spec_is_katakana(#[trigger] s[i]),
    ensures
        s.map_values(|c: char| hira_to_kata(c)).map_values(|c: char| kata_to_hira(c)) == s,
{
    let k = s.map_values(|c: char| hira_to_kata(c));
    let h = k.map_values(|c: char| kata_to_hira(c));
    assert forall|i: int| 0 <= i < s.len() implies h[i] == s[i] by {
        let c = s[i];
        if spec_is_hiragana(c) {
            let n: int = (c as u32) as int + 0x60;
            assert(0x30A1 <= n <= 0x30F6);
            assert(n as u32 == n);
            assert((n as u32) as char as u32 == n as u32);
            assert(k[i] as u32 == c as u32 + 0x60);
            assert(spec_is_katakana(k[i]));
            let m: int = (k[i] as u32) as int - 0x60;
            assert(m == c as u32);
            assert((m as u32) as char == c) by {
                vstd::utf8::char_u32_cast(c, c as u32);
            }
        }
    }
    assert(h =~= s);
}

/// Hiragana to katakana undoes katakana to hiragana on any text without
/// hiragana of its own.
pub proof fn lemma_katakana_hiragana_round_trip(s: Seq<char>)
    requires
        forall|i: int| 0 <= i < s.len() ==> !spec_is_hiragana(#[trigger] s[i]),
    ensures
        s.map_values(|c: char| kata_to_hira(c)).map_values(|c: char| hira_to_kata(c)) == s,
{
    let h = s.map_values(|c: char| kata_to_hira(c));
    let k = h.map_values(|c: char| hira_to_kata(c));
    assert forall|i: int| 0 <= i < s.len() implies k[i] == s[i] by {
        let c = s[i];
        if spec_is_katakana(c) {
            let n: int = (c as u32) as int - 0x60;
            assert(0x3041 <= n <= 0x3096);
            assert((n as u32) as char as u32 == n as u32);
            assert(h[i] as u32 == c as u32 - 0x60);
            assert(spec_is_hiragana(h[i]));
            let m: int = (h[i] as u32) as int + 0x60;
            assert(m == c as u32);
            assert((m as u32) as char == c) by {
                vstd::utf8::char_u32_cast(c, c as u32);
            }
        }
    }
    assert(k =~= s);
}

} // verus!
