//! Key bindings: the actions a key can be bound to, key names such as
//! `Ctrl+Space`, the built-in presets, and the table that resolves a key press.
use std::collections::HashMap;
use vstd::prelude::*;

use crate::text::{all_ascii, ascii_lower, chars_of, in_range, lowercase_of, push_char, str_eq, string_of_range, to_lowercase};

verus! {

broadcast use vstd::std_specs::hash::group_hash_axioms;

/// What a key press asks the input method to do.
#[derive(Debug, Clone, Copy, PartialEq, Eq, Structural)]
pub enum UserAction {
    /// A character through the romaji rules.
    Input(char),
    /// A character written into the reading directly (keypad symbols).
    InputRaw(char),
    /// A fullwidth space (Shift+Space).
    FullWidthSpace,
    /// Start converting (Space, Henkan).
    Convert,
    /// Commit the reading as it is (Enter).
    CommitRaw,
    /// Delete one character, or undo the conversion.
    Backspace,
    /// Drop the whole reading (Ctrl+Backspace).
    CancelAll,
    /// Undo the conversion, or drop the reading (Escape).
    Cancel,
    /// F6.
    Hiragana,
    /// F7.
    Katakana,
    /// F8.
    HalfKatakana,
    /// F9.
    FullLatin,
    /// F10.
    HalfLatin,
    /// Hiragana, katakana, halfwidth katakana in turn (Muhenkan).
    CycleKana,
    /// Next candidate.
    CandidateNext,
    /// Previous candidate.
    CandidatePrev,
    /// Next page of candidates.
    CandidatePageDown,
    /// Previous page of candidates.
    CandidatePageUp,
    /// Candidate by its number (1 to 9).
    CandidateSelect(u8),
    /// Input method off (alphanumeric pass-through).
    ImeOff,
    /// Input method on (back to the last kana mode).
    ImeOn,
    /// Input method on or off (Hankaku/Zenkaku).
    ImeToggle,
    /// Hiragana input mode.
    ModeHiragana,
    /// Fullwidth katakana input mode.
    ModeKatakana,
    /// Halfwidth alphanumeric input mode.
    ModeAlphanumeric,
    /// Cursor one character left in the reading.
    CursorLeft,
    /// Cursor one character right in the reading.
    CursorRight,
    /// Shrink the segment by one character and convert again (Shift+Left).
    SegmentShrink,
    /// Give the segment back one character (Shift+Right).
    SegmentExtend,
    /// A punctuation mark added to the composition without conversion.
    Punctuate(char),
    /// Tab.
    Tab,
    /// Nothing known.
    Unknown,
}

/// An action that a key can be bound to in the key map file.
#[derive(Debug, Clone, Copy, PartialEq, Eq, Hash, Structural)]
pub enum KeyAction {
    Convert,
    CommitRaw,
    Backspace,
    CancelAll,
    Cancel,
    Hiragana,
    Katakana,
    HalfKatakana,
    FullLatin,
    HalfLatin,
    CycleKana,
    FullWidthSpace,
    CandidateNext,
    CandidatePrev,
    CandidatePageDown,
    CandidatePageUp,
    CandidateN(u8),
    ImeOff,
    ImeOn,
    ImeToggle,
    ModeHiragana,
    ModeKatakana,
    ModeAlphanumeric,
    CursorLeft,
    CursorRight,
    SegmentShrink,
    SegmentExtend,
}

/// The user action of each bindable action (the same name; `CandidateN(n)`
/// selects candidate `n`).
pub open spec fn spec_user_action(a: KeyAction) -> UserAction {
    match a {
        KeyAction::Convert => UserAction::Convert,
        KeyAction::CommitRaw => UserAction::CommitRaw,
        KeyAction::Backspace => UserAction::Backspace,
        KeyAction::CancelAll => UserAction::CancelAll,
        KeyAction::Cancel => UserAction::Cancel,
        KeyAction::Hiragana => UserAction::Hiragana,
        KeyAction::Katakana => UserAction::Katakana,
        KeyAction::HalfKatakana => UserAction::HalfKatakana,
        KeyAction::FullLatin => UserAction::FullLatin,
        KeyAction::HalfLatin => UserAction::HalfLatin,
        KeyAction::CycleKana => UserAction::CycleKana,
        KeyAction::FullWidthSpace => UserAction::FullWidthSpace,
        KeyAction::CandidateNext => UserAction::CandidateNext,
        KeyAction::CandidatePrev => UserAction::CandidatePrev,
        KeyAction::CandidatePageDown => UserAction::CandidatePageDown,
        KeyAction::CandidatePageUp => UserAction::CandidatePageUp,
        KeyAction::CandidateN(n) => UserAction::CandidateSelect(n),
        KeyAction::ImeOff => UserAction::ImeOff,
        KeyAction::ImeOn => UserAction::ImeOn,
        KeyAction::ImeToggle => UserAction::ImeToggle,
        KeyAction::ModeHiragana => UserAction::ModeHiragana,
        KeyAction::ModeKatakana => UserAction::ModeKatakana,
        KeyAction::ModeAlphanumeric => UserAction::ModeAlphanumeric,
        KeyAction::CursorLeft => UserAction::CursorLeft,
        KeyAction::CursorRight => UserAction::CursorRight,
        KeyAction::SegmentShrink => UserAction::SegmentShrink,
        KeyAction::SegmentExtend => UserAction::SegmentExtend,
    }
}

impl KeyAction {
    pub fn to_user_action(&self) -> (u: UserAction)
        ensures
            u == spec_user_action(*self),
    {
        match self {
            KeyAction::Convert => UserAction::Convert,
            KeyAction::CommitRaw => UserAction::CommitRaw,
            KeyAction::Backspace => UserAction::Backspace,
            KeyAction::CancelAll => UserAction::CancelAll,
            KeyAction::Cancel => UserAction::Cancel,
            KeyAction::Hiragana => UserAction::Hiragana,
            KeyAction::Katakana => UserAction::Katakana,
            KeyAction::HalfKatakana => UserAction::HalfKatakana,
            KeyAction::FullLatin => UserAction::FullLatin,
            KeyAction::HalfLatin => UserAction::HalfLatin,
            KeyAction::CycleKana => UserAction::CycleKana,
            KeyAction::FullWidthSpace => UserAction::FullWidthSpace,
            KeyAction::CandidateNext => UserAction::CandidateNext,
            KeyAction::CandidatePrev => UserAction::CandidatePrev,
            KeyAction::CandidatePageDown => UserAction::CandidatePageDown,
            KeyAction::CandidatePageUp => UserAction::CandidatePageUp,
            KeyAction::CandidateN(n) => UserAction::CandidateSelect(*n),
            KeyAction::ImeOff => UserAction::ImeOff,
            KeyAction::ImeOn => UserAction::ImeOn,
            KeyAction::ImeToggle => UserAction::ImeToggle,
            KeyAction::ModeHiragana => UserAction::ModeHiragana,
            KeyAction::ModeKatakana => UserAction::ModeKatakana,
            KeyAction::ModeAlphanumeric => UserAction::ModeAlphanumeric,
            KeyAction::CursorLeft => UserAction::CursorLeft,
            KeyAction::CursorRight => UserAction::CursorRight,
            KeyAction::SegmentShrink => UserAction::SegmentShrink,
            KeyAction::SegmentExtend => UserAction::SegmentExtend,
        }
    }
}

// ─── key names ──────────────────────────────────────────────────────────────

/// A key with its modifiers.
#[derive(Debug, Clone, Copy, PartialEq, Eq, Hash, Structural)]
pub struct KeySpec {
    pub vk: u16,
    pub ctrl: bool,
    pub shift: bool,
    pub alt: bool,
}

/// One number for a key with its modifiers: the virtual-key code in the low
/// sixteen bits, Ctrl, Shift and Alt as the next three.
pub open spec fn key_code(vk: u16, ctrl: bool, shift: bool, alt: bool) -> u32 {
    (vk as int + (if ctrl { 0x10000int } else { 0 }) + (if shift { 0x20000int } else { 0 }) + (
    if alt { 0x40000int } else { 0 })) as u32
}

pub fn code_of(vk: u16, ctrl: bool, shift: bool, alt: bool) -> (c: u32)
    ensures
        c == key_code(vk, ctrl, shift, alt),
{
    let mut c: u32 = vk as u32;
    if ctrl {
        c = c + 0x10000;
    }
    if shift {
        c = c + 0x20000;
    }
    if alt {
        c = c + 0x40000;
    }
    c
}

/// Different keys (or modifiers) have different codes.
pub proof fn lemma_key_code_injective(a: KeySpec, b: KeySpec)
    ensures
        key_code(a.vk, a.ctrl, a.shift, a.alt) == key_code(b.vk, b.ctrl, b.shift, b.alt) <==> a
            == b,
{
}

impl KeySpec {
    pub open spec fn spec_code(self) -> u32 {
        key_code(self.vk, self.ctrl, self.shift, self.alt)
    }

    pub fn code(&self) -> (c: u32)
        ensures
            c == self.spec_code(),
    {
        code_of(self.vk, self.ctrl, self.shift, self.alt)
    }
}

/// Unicode `White_Space` (what `str::trim` removes).
pub open spec fn spec_is_white_space(c: char) -> bool {
    ||| 0x09 <= (c as u32) <= 0x0D
    ||| c as u32 == 0x20 || c as u32 == 0x85 || c as u32 == 0xA0 || c as u32 == 0x1680
    ||| 0x2000 <= (c as u32) <= 0x200A
    ||| c as u32 == 0x2028 || c as u32 == 0x2029 || c as u32 == 0x202F || c as u32 == 0x205F
        || c as u32 == 0x3000
}

fn is_white_space(c: char) -> (b: bool)
    ensures
        b == spec_is_white_space(c),
{
    let n = c as u32;
    (0x09 <= n && n <= 0x0D) || n == 0x20 || n == 0x85 || n == 0xA0 || n == 0x1680 || (0x2000 <= n
        && n <= 0x200A) || n == 0x2028 || n == 0x2029 || n == 0x202F || n == 0x205F || n == 0x3000
}

pub open spec fn trim_start(s: Seq<char>) -> Seq<char>
    decreases s.len(),
{
    if s.len() > 0 && spec_is_white_space(s[0]) {
        trim_start(s.drop_first())
    } else {
        s
    }
}

pub open spec fn trim_end(s: Seq<char>) -> Seq<char>
    decreases s.len(),
{
    if s.len() > 0 && spec_is_white_space(s.last()) {
        trim_end(s.drop_last())
    } else {
        s
    }
}

/// `s` without white space at either end.
pub open spec fn spec_trim(s: Seq<char>) -> Seq<char> {
    trim_end(trim_start(s))
}

/// `v[from..]` without white space at either end.
pub fn trim_chars(v: &Vec<char>, from: usize, to: usize) -> (r: String)
    requires
        from <= to <= v.len(),
    ensures
        r@ == spec_trim(v@.subrange(from as int, to as int)),
{
    let mut a: usize = from;
    while a < to && is_white_space(v[a])
        invariant
            from <= a <= to <= v.len(),
            trim_start(v@.subrange(a as int, to as int)) == trim_start(
                v@.subrange(from as int, to as int),
            ),
        decreases to - a,
    {
        assert(v@.subrange(a as int, to as int).drop_first() == v@.subrange(a + 1, to as int));
        a = a + 1;
    }
    assert(trim_start(v@.subrange(a as int, to as int)) == v@.subrange(a as int, to as int));
    let mut b: usize = to;
    while b > a && is_white_space(v[b - 1])
        invariant
            a <= b <= to <= v.len(),
            trim_end(v@.subrange(a as int, b as int)) == trim_end(v@.subrange(a as int, to as int)),
        decreases b,
    {
        assert(v@.subrange(a as int, b as int).drop_last() == v@.subrange(a as int, b - 1));
        b = b - 1;
    }
    assert(trim_end(v@.subrange(a as int, b as int)) == v@.subrange(a as int, b as int));
    string_of_range(v, a, b)
}

/// `s` cut at every `+` (an empty part where two `+` meet or at an end).
pub open spec fn split_plus(s: Seq<char>) -> Seq<Seq<char>>
    decreases s.len(),
{
    if s.len() == 0 {
        seq![seq![]]
    } else {
        let parts = split_plus(s.drop_last());
        if s.last() == '+' {
            parts.push(seq![])
        } else {
            parts.update(parts.len() - 1, parts.last().push(s.last()))
        }
    }
}

pub(crate) proof fn lemma_split_plus_len(s: Seq<char>)
    ensures
        split_plus(s).len() >= 1,
    decreases s.len(),
{
    if s.len() > 0 {
        lemma_split_plus_len(s.drop_last());
    }
}

/// The virtual-key code of a key name (lower case): named keys, function keys,
/// the Japanese keys, and single letters (no other name has one character).
pub open spec fn spec_name_to_vk(name: Seq<char>) -> Option<u16> {
    if name.len() == 1 {
        if crate::text::spec_is_ascii_alpha(name[0]) {
            Some(
                (if crate::text::spec_is_ascii_lower(name[0]) {
                    (name[0] as u32) as int - 0x20
                } else {
                    (name[0] as u32) as int
                }) as u16,
            )
        } else {
            None
        }
    } else if name == "backspace"@ || name == "bs"@ {
        Some(0x08)
    } else if name == "tab"@ {
        Some(0x09)
    } else if name == "enter"@ || name == "return"@ {
        Some(0x0D)
    } else if name == "escape"@ || name == "esc"@ {
        Some(0x1B)
    } else if name == "space"@ {
        Some(0x20)
    } else if name == "backquote"@ || name == "grave"@ {
        Some(0xC0)
    } else if name == "semicolon"@ {
        Some(0xBA)
    } else if name == "equal"@ {
        Some(0xBB)
    } else if name == "comma"@ {
        Some(0xBC)
    } else if name == "minus"@ {
        Some(0xBD)
    } else if name == "period"@ {
        Some(0xBE)
    } else if name == "slash"@ {
        Some(0xBF)
    } else if name == "leftbracket"@ {
        Some(0xDB)
    } else if name == "backslash"@ {
        Some(0xDC)
    } else if name == "rightbracket"@ {
        Some(0xDD)
    } else if name == "quote"@ {
        Some(0xDE)
    } else if name == "pageup"@ || name == "pgup"@ {
        Some(0x21)
    } else if name == "pagedown"@ || name == "pgdn"@ {
        Some(0x22)
    } else if name == "end"@ {
        Some(0x23)
    } else if name == "home"@ {
        Some(0x24)
    } else if name == "left"@ {
        Some(0x25)
    } else if name == "up"@ {
        Some(0x26)
    } else if name == "right"@ {
        Some(0x27)
    } else if name == "down"@ {
        Some(0x28)
    } else if name == "delete"@ || name == "del"@ {
        Some(0x2E)
    } else if name == "f1"@ {
        Some(0x70)
    } else if name == "f2"@ {
        Some(0x71)
    } else if name == "f3"@ {
        Some(0x72)
    } else if name == "f4"@ {
        Some(0x73)
    } else if name == "f5"@ {
        Some(0x74)
    } else if name == "f6"@ {
        Some(0x75)
    } else if name == "f7"@ {
        Some(0x76)
    } else if name == "f8"@ {
        Some(0x77)
    } else if name == "f9"@ {
        Some(0x78)
    } else if name == "f10"@ {
        Some(0x79)
    } else if name == "f11"@ {
        Some(0x7A)
    } else if name == "f12"@ {
        Some(0x7B)
    } else if name == "zenkaku"@ || name == "hankaku"@ || name == "kanji"@ {
        Some(0x19)
    } else if name == "henkan"@ {
        Some(0x1C)
    } else if name == "muhenkan"@ {
        Some(0x1D)
    } else if name == "eisuu"@ || name == "alphanumeric"@ {
        Some(0xF0)
    } else if name == "katakana"@ {
        Some(0xF1)
    } else if name == "hiragana_key"@ {
        Some(0xF2)
    } else if name == "caps"@ {
        Some(0x14)
    } else {
        None
    }
}

/// The virtual-key code of a key name (see `spec_name_to_vk`).
pub fn name_to_vk(name: &str) -> (r: Option<u16>)
    ensures
        r == spec_name_to_vk(name@),
{
    let v = chars_of(name);
    if v.len() == 1 {
        if crate::text::is_ascii_alpha(v[0]) {
            let x: u32 = v[0] as u32;
            assert((x as u16) as u32 == x) by (bit_vector)
                requires
                    x < 0x80,
            ;
            let c: u16 = x as u16;
            assert(v@[0] == name@[0]);
            assert(x as int == (v@[0] as u32) as int);
            assert(c as int == (name@[0] as u32) as int);
            if crate::text::is_ascii_lower(v[0]) {
                return Some(c - 0x20);
            }
            return Some(c);
        }
        return None;
    }
    if str_eq(name, "backspace") || str_eq(name, "bs") {
        return Some(0x08);
    }
    if str_eq(name, "tab") {
        return Some(0x09);
    }
    if str_eq(name, "enter") || str_eq(name, "return") {
        return Some(0x0D);
    }
    if str_eq(name, "escape") || str_eq(name, "esc") {
        return Some(0x1B);
    }
    if str_eq(name, "space") {
        return Some(0x20);
    }
    if str_eq(name, "backquote") || str_eq(name, "grave") {
        return Some(0xC0);
    }
    if str_eq(name, "semicolon") {
        return Some(0xBA);
    }
    if str_eq(name, "equal") {
        return Some(0xBB);
    }
    if str_eq(name, "comma") {
        return Some(0xBC);
    }
    if str_eq(name, "minus") {
        return Some(0xBD);
    }
    if str_eq(name, "period") {
        return Some(0xBE);
    }
    if str_eq(name, "slash") {
        return Some(0xBF);
    }
    if str_eq(name, "leftbracket") {
        return Some(0xDB);
    }
    if str_eq(name, "backslash") {
        return Some(0xDC);
    }
    if str_eq(name, "rightbracket") {
        return Some(0xDD);
    }
    if str_eq(name, "quote") {
        return Some(0xDE);
    }
    if str_eq(name, "pageup") || str_eq(name, "pgup") {
        return Some(0x21);
    }
    if str_eq(name, "pagedown") || str_eq(name, "pgdn") {
        return Some(0x22);
    }
    if str_eq(name, "end") {
        return Some(0x23);
    }
    if str_eq(name, "home") {
        return Some(0x24);
    }
    if str_eq(name, "left") {
        return Some(0x25);
    }
    if str_eq(name, "up") {
        return Some(0x26);
    }
    if str_eq(name, "right") {
        return Some(0x27);
    }
    if str_eq(name, "down") {
        return Some(0x28);
    }
    if str_eq(name, "delete") || str_eq(name, "del") {
        return Some(0x2E);
    }
    if str_eq(name, "f1") {
        return Some(0x70);
    }
    if str_eq(name, "f2") {
        return Some(0x71);
    }
    if str_eq(name, "f3") {
        return Some(0x72);
    }
    if str_eq(name, "f4") {
        return Some(0x73);
    }
    if str_eq(name, "f5") {
        return Some(0x74);
    }
    if str_eq(name, "f6") {
        return Some(0x75);
    }
    if str_eq(name, "f7") {
        return Some(0x76);
    }
    if str_eq(name, "f8") {
        return Some(0x77);
    }
    if str_eq(name, "f9") {
        return Some(0x78);
    }
    if str_eq(name, "f10") {
        return Some(0x79);
    }
    if str_eq(name, "f11") {
        return Some(0x7A);
    }
    if str_eq(name, "f12") {
        return Some(0x7B);
    }
    if str_eq(name, "zenkaku") || str_eq(name, "hankaku") || str_eq(name, "kanji") {
        return Some(0x19);
    }
    if str_eq(name, "henkan") {
        return Some(0x1C);
    }
    if str_eq(name, "muhenkan") {
        return Some(0x1D);
    }
    if str_eq(name, "eisuu") || str_eq(name, "alphanumeric") {
        return Some(0xF0);
    }
    if str_eq(name, "katakana") {
        return Some(0xF1);
    }
    if str_eq(name, "hiragana_key") {
        return Some(0xF2);
    }
    if str_eq(name, "caps") {
        return Some(0x14);
    }
    None
}

/// What the names of a key string (trimmed and lower-cased) set, in order:
/// the modifiers and the key; `None` once a name is unknown.
pub open spec fn parse_scan(names: Seq<Seq<char>>) -> Option<(bool, bool, bool, Option<u16>)>
    decreases names.len(),
{
    if names.len() == 0 {
        Some((false, false, false, None))
    } else {
        match parse_scan(names.drop_last()) {
            None => None,
            Some((ctrl, shift, alt, vk)) => {
                let n = names.last();
                if n == "ctrl"@ || n == "control"@ {
                    Some((true, shift, alt, vk))
                } else if n == "shift"@ {
                    Some((ctrl, true, alt, vk))
                } else if n == "alt"@ {
                    Some((ctrl, shift, true, vk))
                } else {
                    match spec_name_to_vk(n) {
                        Some(k) => Some((ctrl, shift, alt, Some(k))),
                        None => None,
                    }
                }
            },
        }
    }
}

/// The key that a list of names describes: modifiers and (the last) key name.
pub open spec fn spec_parse_names(names: Seq<Seq<char>>) -> Option<KeySpec> {
    match parse_scan(names) {
        Some((ctrl, shift, alt, Some(vk))) => Some(KeySpec { vk, ctrl, shift, alt }),
        _ => None,
    }
}

/// The names of a key string: each `+`-separated part trimmed, then
/// lower-cased by `str::to_lowercase`.
pub open spec fn key_names(s: Seq<char>) -> Seq<Seq<char>> {
    split_plus(s).map_values(|p: Seq<char>| lowercase_of(spec_trim(p)))
}

/// The names of an ASCII key string: each `+`-separated part trimmed, with
/// `A`..=`Z` lowered.
pub open spec fn ascii_key_names(s: Seq<char>) -> Seq<Seq<char>> {
    split_plus(s).map_values(|p: Seq<char>| spec_trim(p).map_values(|c: char| ascii_lower(c)))
}

proof fn lemma_trim_keeps_ascii(s: Seq<char>)
    requires
        all_ascii(s),
    ensures
        all_ascii(spec_trim(s)),
{
    lemma_trim_start_ascii(s);
    lemma_trim_end_ascii(trim_start(s));
}

proof fn lemma_trim_start_ascii(s: Seq<char>)
    requires
        all_ascii(s),
    ensures
        all_ascii(trim_start(s)),
    decreases s.len(),
{
    if s.len() > 0 && spec_is_white_space(s[0]) {
        assert(forall|i: int| 0 <= i < s.len() - 1 ==> s.drop_first()[i] == s[i + 1]);
        lemma_trim_start_ascii(s.drop_first());
    }
}

proof fn lemma_trim_end_ascii(s: Seq<char>)
    requires
        all_ascii(s),
    ensures
        all_ascii(trim_end(s)),
    decreases s.len(),
{
    if s.len() > 0 && spec_is_white_space(s.last()) {
        assert(forall|i: int| 0 <= i < s.len() - 1 ==> s.drop_last()[i] == s[i]);
        lemma_trim_end_ascii(s.drop_last());
    }
}

pub open spec fn spec_parse_key(s: Seq<char>) -> Option<KeySpec> {
    spec_parse_names(key_names(s))
}

/// The key that normalized names describe (see `spec_parse_names`).
pub fn parse_key_names(names: &Vec<String>) -> (r: Option<KeySpec>)
    ensures
        r == spec_parse_names(names@.map_values(|n: String| n@)),
{
    let ghost ns = names@.map_values(|n: String| n@);
    let mut ctrl = false;
    let mut shift = false;
    let mut alt = false;
    let mut vk: Option<u16> = None;
    let mut i: usize = 0;
    while i < names.len()
        invariant
            i <= names.len(),
            ns == names@.map_values(|n: String| n@),
            parse_scan(ns.take(i as int)) == Some((ctrl, shift, alt, vk)),
        decreases names.len() - i,
    {
        let n = names[i].as_str();
        assert(ns.take(i + 1).drop_last() == ns.take(i as int));
        if str_eq(n, "ctrl") || str_eq(n, "control") {
            ctrl = true;
        } else if str_eq(n, "shift") {
            shift = true;
        } else if str_eq(n, "alt") {
            alt = true;
        } else {
            match name_to_vk(n) {
                Some(k) => {
                    vk = Some(k);
                },
                None => {
                    assert(parse_scan(ns.take(i + 1)) is None);
                    proof {
                        lemma_parse_scan_none_sticks(ns, i + 1);
                    }
                    assert(ns.take(ns.len() as int) == ns);
                    return None;
                },
            }
        }
        i = i + 1;
    }
    assert(ns.take(ns.len() as int) == ns);
    match vk {
        Some(v) => Some(KeySpec { vk: v, ctrl, shift, alt }),
        None => None,
    }
}

proof fn lemma_parse_scan_none_sticks(ns: Seq<Seq<char>>, i: int)
    requires
        0 <= i <= ns.len(),
        parse_scan(ns.take(i)) is None,
    ensures
        parse_scan(ns) is None,
    decreases ns.len() - i,
{
    if i < ns.len() {
        assert(ns.take(i + 1).drop_last() == ns.take(i));
        lemma_parse_scan_none_sticks(ns, i + 1);
    } else {
        assert(ns.take(i) == ns);
    }
}

/// A trimmed part of ASCII text is ASCII.
proof fn ascii_part(v: Seq<char>, from: int, to: int)
    requires
        0 <= from <= to <= v.len(),
    ensures
        all_ascii(v) ==> all_ascii(spec_trim(v.subrange(from, to))),
{
    if all_ascii(v) {
        let p = v.subrange(from, to);
        assert(forall|i: int| 0 <= i < p.len() ==> p[i] == v[from + i]);
        lemma_trim_keeps_ascii(p);
    }
}

impl KeySpec {
    /// Reads a key string such as `Ctrl+Space` or `shift + tab`: parts split at
    /// `+`, trimmed and lower-cased; `ctrl`/`control`, `shift` and `alt` set the
    /// modifiers and any other part must name a key.
    pub fn parse(s: &str) -> (r: Option<KeySpec>)
        ensures
            r == spec_parse_key(s@),
            all_ascii(s@) ==> r == spec_parse_names(ascii_key_names(s@)),
    {
        let v = chars_of(s);
        let mut names: Vec<String> = Vec::new();
        let mut start: usize = 0;
        let mut i: usize = 0;
        proof {
            lemma_split_plus_len(v@.take(0));
        }
        while i < v.len()
            invariant
                start <= i <= v.len(),
                v@ == s@,
                split_plus(v@.take(i as int)).len() == names.len() + 1,
                forall|k: int|
                    0 <= k < names.len() ==> (#[trigger] names@[k])@ == lowercase_of(
                        spec_trim(split_plus(v@.take(i as int))[k]),
                    ),
                all_ascii(v@) ==> forall|k: int|
                    0 <= k < names.len() ==> (#[trigger] names@[k])@ == spec_trim(
                        split_plus(v@.take(i as int))[k],
                    ).map_values(|c: char| ascii_lower(c)),
                split_plus(v@.take(i as int)).last() == v@.subrange(start as int, i as int),
            decreases v.len() - i,
        {
            assert(v@.take(i + 1).drop_last() == v@.take(i as int));
            if v[i] == '+' {
                let part = trim_chars(&v, start, i);
                proof {
                    ascii_part(v@, start as int, i as int);
                }
                let lower = to_lowercase(part.as_str());
                names.push(lower);
                start = i + 1;
            } else {
                assert(v@.subrange(start as int, i + 1) == v@.subrange(start as int, i as int).push(
                    v@[i as int],
                ));
            }
            i = i + 1;
        }
        let part = trim_chars(&v, start, v.len());
        proof {
            ascii_part(v@, start as int, v.len() as int);
        }
        let lower = to_lowercase(part.as_str());
        names.push(lower);
        assert(v@.take(v.len() as int) == v@);
        assert(names@.map_values(|n: String| n@) =~= key_names(s@));
        proof {
            if all_ascii(s@) {
                assert(names@.map_values(|n: String| n@) =~= ascii_key_names(s@));
            }
        }
        parse_key_names(&names)
    }
}

// ─── configuration ──────────────────────────────────────────────────────────

/// A built-in set of bindings.
#[derive(Debug, Clone, Copy, PartialEq, Eq, Structural)]
pub enum KeymapPreset {
    /// Microsoft IME on a US keyboard.
    MsImeUs,
    /// Microsoft IME on a JIS keyboard.
    MsImeJis,
    /// No built-in bindings.
    Custom,
}

/// One binding of the key map file: a key string and its action.
#[derive(Debug, Clone)]
pub struct KeyBinding {
    pub key: String,
    pub action: KeyAction,
}

/// The key map file: a preset (the keyboard layout's when absent), whether to
/// keep the preset's bindings under the file's own, and the file's bindings.
#[derive(Debug, Clone)]
pub struct KeymapConfig {
    pub preset: Option<KeymapPreset>,
    pub inherit_preset: bool,
    pub bindings: Vec<KeyBinding>,
}

pub open spec fn binding_view(b: KeyBinding) -> (Seq<char>, KeyAction) {
    (b.key@, b.action)
}

pub open spec fn bindings_view(v: Seq<KeyBinding>) -> Seq<(Seq<char>, KeyAction)> {
    v.map_values(|b: KeyBinding| binding_view(b))
}

impl Default for KeymapConfig {
    /// The JIS preset, inherited, with no bindings of its own.
    fn default() -> (c: Self)
        ensures
            c.preset == Some(KeymapPreset::MsImeJis),
            c.inherit_preset,
            c.bindings@.len() == 0,
    {
        KeymapConfig {
            preset: Some(KeymapPreset::MsImeJis),
            inherit_preset: true,
            bindings: Vec::new(),
        }
    }
}

pub fn bind(key: &str, action: KeyAction) -> (b: KeyBinding)
    ensures
        b.key@ == key@,
        b.action == action,
{
    KeyBinding { key: key.to_owned(), action }
}

/// The bindings of each preset, in order.
pub open spec fn spec_preset_bindings(p: KeymapPreset) -> Seq<(Seq<char>, KeyAction)> {
    match p {
        KeymapPreset::MsImeUs => seq![
            ("Ctrl+Space"@, KeyAction::ImeToggle),
            ("Ctrl+J"@, KeyAction::ModeHiragana),
            ("Ctrl+K"@, KeyAction::ModeKatakana),
            ("Ctrl+L"@, KeyAction::ModeAlphanumeric),
            ("Space"@, KeyAction::Convert),
            ("Enter"@, KeyAction::CommitRaw),
            ("Escape"@, KeyAction::Cancel),
            ("Ctrl+Backspace"@, KeyAction::CancelAll),
            ("Backspace"@, KeyAction::Backspace),
            ("F6"@, KeyAction::Hiragana),
            ("F7"@, KeyAction::Katakana),
            ("F8"@, KeyAction::HalfKatakana),
            ("F9"@, KeyAction::FullLatin),
            ("F10"@, KeyAction::HalfLatin),
            ("Shift+Space"@, KeyAction::FullWidthSpace),
            ("Down"@, KeyAction::CandidateNext),
            ("Up"@, KeyAction::CandidatePrev),
            ("Tab"@, KeyAction::CandidatePageDown),
            ("Shift+Tab"@, KeyAction::CandidatePageUp),
            ("PageDown"@, KeyAction::CandidatePageDown),
            ("PageUp"@, KeyAction::CandidatePageUp),
            ("Left"@, KeyAction::CursorLeft),
            ("Right"@, KeyAction::CursorRight),
            ("Shift+Left"@, KeyAction::SegmentShrink),
            ("Shift+Right"@, KeyAction::SegmentExtend),
        ],
        KeymapPreset::MsImeJis => seq![
            ("Space"@, KeyAction::Convert),
            ("Enter"@, KeyAction::CommitRaw),
            ("Henkan"@, KeyAction::Convert),
            ("Escape"@, KeyAction::Cancel),
            ("Ctrl+Backspace"@, KeyAction::CancelAll),
            ("Backspace"@, KeyAction::Backspace),
            ("F6"@, KeyAction::Hiragana),
            ("F7"@, KeyAction::Katakana),
            ("F8"@, KeyAction::HalfKatakana),
            ("F9"@, KeyAction::FullLatin),
            ("F10"@, KeyAction::HalfLatin),
            ("Muhenkan"@, KeyAction::CycleKana),
            ("Shift+Space"@, KeyAction::FullWidthSpace),
            ("Down"@, KeyAction::CandidateNext),
            ("Up"@, KeyAction::CandidatePrev),
            ("Tab"@, KeyAction::CandidatePageDown),
            ("Shift+Tab"@, KeyAction::CandidatePageUp),
            ("PageDown"@, KeyAction::CandidatePageDown),
            ("PageUp"@, KeyAction::CandidatePageUp),
            ("Zenkaku"@, KeyAction::ImeToggle),
            ("Ctrl+Space"@, KeyAction::ImeToggle),
            ("Hiragana_key"@, KeyAction::ModeHiragana),
            ("Ctrl+Caps"@, KeyAction::ModeHiragana),
            ("Katakana"@, KeyAction::ModeKatakana),
            ("Alt+Caps"@, KeyAction::ModeKatakana),
            ("Eisuu"@, KeyAction::ModeAlphanumeric),
            ("Left"@, KeyAction::CursorLeft),
            ("Right"@, KeyAction::CursorRight),
            ("Shift+Left"@, KeyAction::SegmentShrink),
            ("Shift+Right"@, KeyAction::SegmentExtend),
        ],
        KeymapPreset::Custom => seq![],
    }
}

pub fn preset_bindings(preset: KeymapPreset) -> (r: Vec<KeyBinding>)
    ensures
        bindings_view(r@) == spec_preset_bindings(preset),
{
    let mut v: Vec<KeyBinding> = Vec::new();
    match preset {
        KeymapPreset::MsImeUs => {
            v.push(bind("Ctrl+Space", KeyAction::ImeToggle));
            v.push(bind("Ctrl+J", KeyAction::ModeHiragana));
            v.push(bind("Ctrl+K", KeyAction::ModeKatakana));
            v.push(bind("Ctrl+L", KeyAction::ModeAlphanumeric));
            v.push(bind("Space", KeyAction::Convert));
            v.push(bind("Enter", KeyAction::CommitRaw));
            v.push(bind("Escape", KeyAction::Cancel));
            v.push(bind("Ctrl+Backspace", KeyAction::CancelAll));
            v.push(bind("Backspace", KeyAction::Backspace));
            v.push(bind("F6", KeyAction::Hiragana));
            v.push(bind("F7", KeyAction::Katakana));
            v.push(bind("F8", KeyAction::HalfKatakana));
            v.push(bind("F9", KeyAction::FullLatin));
            v.push(bind("F10", KeyAction::HalfLatin));
            v.push(bind("Shift+Space", KeyAction::FullWidthSpace));
            v.push(bind("Down", KeyAction::CandidateNext));
            v.push(bind("Up", KeyAction::CandidatePrev));
            v.push(bind("Tab", KeyAction::CandidatePageDown));
            v.push(bind("Shift+Tab", KeyAction::CandidatePageUp));
            v.push(bind("PageDown", KeyAction::CandidatePageDown));
            v.push(bind("PageUp", KeyAction::CandidatePageUp));
            v.push(bind("Left", KeyAction::CursorLeft));
            v.push(bind("Right", KeyAction::CursorRight));
            v.push(bind("Shift+Left", KeyAction::SegmentShrink));
            v.push(bind("Shift+Right", KeyAction::SegmentExtend));
        },
        KeymapPreset::MsImeJis => {
            v.push(bind("Space", KeyAction::Convert));
            v.push(bind("Enter", KeyAction::CommitRaw));
            v.push(bind("Henkan", KeyAction::Convert));
            v.push(bind("Escape", KeyAction::Cancel));
            v.push(bind("Ctrl+Backspace", KeyAction::CancelAll));
            v.push(bind("Backspace", KeyAction::Backspace));
            v.push(bind("F6", KeyAction::Hiragana));
            v.push(bind("F7", KeyAction::Katakana));
            v.push(bind("F8", KeyAction::HalfKatakana));
            v.push(bind("F9", KeyAction::FullLatin));
            v.push(bind("F10", KeyAction::HalfLatin));
            v.push(bind("Muhenkan", KeyAction::CycleKana));
            v.push(bind("Shift+Space", KeyAction::FullWidthSpace));
            v.push(bind("Down", KeyAction::CandidateNext));
            v.push(bind("Up", KeyAction::CandidatePrev));
            v.push(bind("Tab", KeyAction::CandidatePageDown));
            v.push(bind("Shift+Tab", KeyAction::CandidatePageUp));
            v.push(bind("PageDown", KeyAction::CandidatePageDown));
            v.push(bind("PageUp", KeyAction::CandidatePageUp));
            v.push(bind("Zenkaku", KeyAction::ImeToggle));
            v.push(bind("Ctrl+Space", KeyAction::ImeToggle));
            v.push(bind("Hiragana_key", KeyAction::ModeHiragana));
            v.push(bind("Ctrl+Caps", KeyAction::ModeHiragana));
            v.push(bind("Katakana", KeyAction::ModeKatakana));
            v.push(bind("Alt+Caps", KeyAction::ModeKatakana));
            v.push(bind("Eisuu", KeyAction::ModeAlphanumeric));
            v.push(bind("Left", KeyAction::CursorLeft));
            v.push(bind("Right", KeyAction::CursorRight));
            v.push(bind("Shift+Left", KeyAction::SegmentShrink));
            v.push(bind("Shift+Right", KeyAction::SegmentExtend));
        },
        KeymapPreset::Custom => {},
    }
    assert(bindings_view(v@) =~= spec_preset_bindings(preset));
    v
}

/// The preset a configuration uses: its own, else the keyboard layout's.
pub open spec fn effective_preset(cfg: KeymapConfig, layout: KeymapPreset) -> KeymapPreset {
    match cfg.preset {
        Some(p) => p,
        None => layout,
    }
}

/// The bindings in force: the preset's then the file's, unless the file does
/// not inherit or the preset is `Custom`.
pub open spec fn resolved_bindings(cfg: KeymapConfig, layout: KeymapPreset) -> Seq<
    (Seq<char>, KeyAction),
> {
    let p = effective_preset(cfg, layout);
    if !cfg.inherit_preset || p == KeymapPreset::Custom {
        bindings_view(cfg.bindings@)
    } else {
        spec_preset_bindings(p) + bindings_view(cfg.bindings@)
    }
}

/// Puts the preset's bindings before the file's own (see `resolved_bindings`);
/// `layout_preset` is the preset of the keyboard layout in use.
pub fn resolve_keymap_config(cfg: KeymapConfig, layout_preset: KeymapPreset) -> (r: KeymapConfig)
    ensures
        r.preset == cfg.preset,
        r.inherit_preset == cfg.inherit_preset,
        bindings_view(r.bindings@) == resolved_bindings(cfg, layout_preset),
{
    let preset = match cfg.preset {
        Some(p) => p,
        None => layout_preset,
    };
    if !cfg.inherit_preset || preset == KeymapPreset::Custom {
        return cfg;
    }
    let mut bindings = preset_bindings(preset);
    let ghost head = bindings@;
    let mut i: usize = 0;
    while i < cfg.bindings.len()
        invariant
            i <= cfg.bindings.len(),
            bindings_view(bindings@) == bindings_view(head) + bindings_view(
                cfg.bindings@.take(i as int),
            ),
        decreases cfg.bindings.len() - i,
    {
        let b = KeyBinding { key: cfg.bindings[i].key.clone(), action: cfg.bindings[i].action };
        assert(binding_view(b) == binding_view(cfg.bindings@[i as int]));
        let ghost before = bindings@;
        bindings.push(b);
        assert(bindings_view(bindings@) =~= bindings_view(before).push(binding_view(b)));
        assert(cfg.bindings@.take(i + 1) == cfg.bindings@.take(i as int).push(cfg.bindings@[i as int]));
        assert(bindings_view(bindings@) =~= bindings_view(head) + bindings_view(
            cfg.bindings@.take(i + 1),
        ));
        i = i + 1;
    }
    assert(cfg.bindings@.take(cfg.bindings.len() as int) == cfg.bindings@);
    KeymapConfig { preset: cfg.preset, inherit_preset: cfg.inherit_preset, bindings }
}

// ─── the table ──────────────────────────────────────────────────────────────

/// The table that bindings make: each binding whose key string parses puts its
/// action under its key, a later binding over an earlier one.
pub open spec fn spec_build_table(bs: Seq<(Seq<char>, KeyAction)>) -> Map<u32, KeyAction>
    decreases bs.len(),
{
    if bs.len() == 0 {
        Map::empty()
    } else {
        let m = spec_build_table(bs.drop_last());
        match spec_parse_key(bs.last().0) {
            Some(k) => m.insert(k.spec_code(), bs.last().1),
            None => m,
        }
    }
}

/// The key an ASCII key string names: what `KeySpec::parse` gives for it.
pub open spec fn ascii_parse_key(s: Seq<char>) -> Option<KeySpec> {
    spec_parse_names(ascii_key_names(s))
}

/// Every key string of the bindings is ASCII.
pub open spec fn all_keys_ascii(bs: Seq<(Seq<char>, KeyAction)>) -> bool {
    forall|i: int| 0 <= i < bs.len() ==> all_ascii(#[trigger] bs[i].0)
}

/// The table of bindings whose key strings are ASCII (see `spec_build_table`),
/// with the keys as `ascii_parse_key` reads them.
pub open spec fn spec_build_table_ascii(bs: Seq<(Seq<char>, KeyAction)>) -> Map<u32, KeyAction>
    decreases bs.len(),
{
    if bs.len() == 0 {
        Map::empty()
    } else {
        let m = spec_build_table_ascii(bs.drop_last());
        match ascii_parse_key(bs.last().0) {
            Some(k) => m.insert(k.spec_code(), bs.last().1),
            None => m,
        }
    }
}

/// The key strings of the presets are ASCII.
pub proof fn lemma_presets_ascii(p: KeymapPreset)
    ensures
        all_keys_ascii(spec_preset_bindings(p)),
{
    reveal_strlit("Ctrl+Space");
    reveal_strlit("Ctrl+J");
    reveal_strlit("Ctrl+K");
    reveal_strlit("Ctrl+L");
    reveal_strlit("Space");
    reveal_strlit("Enter");
    reveal_strlit("Escape");
    reveal_strlit("Ctrl+Backspace");
    reveal_strlit("Backspace");
    reveal_strlit("F6");
    reveal_strlit("F7");
    reveal_strlit("F8");
    reveal_strlit("F9");
    reveal_strlit("F10");
    reveal_strlit("Shift+Space");
    reveal_strlit("Down");
    reveal_strlit("Up");
    reveal_strlit("Tab");
    reveal_strlit("Shift+Tab");
    reveal_strlit("PageDown");
    reveal_strlit("PageUp");
    reveal_strlit("Left");
    reveal_strlit("Right");
    reveal_strlit("Shift+Left");
    reveal_strlit("Shift+Right");
    reveal_strlit("Henkan");
    reveal_strlit("Muhenkan");
    reveal_strlit("Zenkaku");
    reveal_strlit("Hiragana_key");
    reveal_strlit("Ctrl+Caps");
    reveal_strlit("Katakana");
    reveal_strlit("Alt+Caps");
    reveal_strlit("Eisuu");
    let bs = spec_preset_bindings(p);
    assert forall|i: int| 0 <= i < bs.len() implies all_ascii(#[trigger] bs[i].0) by {
        let s = bs[i].0;
        assert forall|j: int| 0 <= j < s.len() implies in_range(#[trigger] s[j], 0, 0x7F) by {}
    }
}

/// Resolves key presses to actions.
pub struct Keymap {
    table: HashMap<u32, KeyAction>,
}

impl View for Keymap {
    type V = Map<u32, KeyAction>;

    closed spec fn view(&self) -> Map<u32, KeyAction> {
        self.table@
    }
}

impl Keymap {
    /// The table of a configuration's bindings (see `spec_build_table`); a key
    /// string that does not parse is skipped.
    pub fn build(cfg: KeymapConfig) -> (k: Keymap)
        ensures
            k@ == spec_build_table(bindings_view(cfg.bindings@)),
            all_keys_ascii(bindings_view(cfg.bindings@)) ==> k@ == spec_build_table_ascii(
                bindings_view(cfg.bindings@),
            ),
    {
        let mut table: HashMap<u32, KeyAction> = HashMap::new();
        let ghost bs = bindings_view(cfg.bindings@);
        let mut i: usize = 0;
        while i < cfg.bindings.len()
            invariant
                i <= cfg.bindings.len(),
                bs == bindings_view(cfg.bindings@),
                table@ == spec_build_table(bs.take(i as int)),
                all_keys_ascii(bs) ==> table@ == spec_build_table_ascii(bs.take(i as int)),
            decreases cfg.bindings.len() - i,
        {
            assert(bs.take(i + 1).drop_last() == bs.take(i as int));
            assert(bs.take(i + 1).last() == bs[i as int]);
            assert(bs[i as int].0 == cfg.bindings@[i as int].key@);
            match KeySpec::parse(cfg.bindings[i].key.as_str()) {
                Some(spec) => {
                    table.insert(spec.code(), cfg.bindings[i].action);
                },
                None => {},
            }
            i = i + 1;
        }
        assert(bs.take(bs.len() as int) == bs);
        Keymap { table }
    }

    /// The action bound to a key with the given modifiers, if any.
    pub fn resolve(&self, vk: u16, ctrl: bool, shift: bool, alt: bool) -> (r: Option<&KeyAction>)
        ensures
            match r {
                Some(a) => self@.contains_key(key_code(vk, ctrl, shift, alt)) && *a == self@[key_code(
                    vk,
                    ctrl,
                    shift,
                    alt,
                )],
                None => !self@.contains_key(key_code(vk, ctrl, shift, alt)),
            },
    {
        let code = code_of(vk, ctrl, shift, alt);
        self.table.get(&code)
    }

    /// The key map of a keyboard layout's preset alone.
    pub fn default_for_layout(layout_preset: KeymapPreset) -> (k: Keymap)
        ensures
            k@ == spec_build_table(spec_preset_bindings(layout_preset)),
            k@ == spec_build_table_ascii(spec_preset_bindings(layout_preset)),
    {
        proof {
            lemma_presets_ascii(layout_preset);
        }
        let cfg = KeymapConfig {
            preset: Some(layout_preset),
            inherit_preset: true,
            bindings: Vec::new(),
        };
        let resolved = resolve_keymap_config(cfg, layout_preset);
        assert(bindings_view(resolved.bindings@) == spec_preset_bindings(layout_preset)) by {
            assert(bindings_view(Seq::<KeyBinding>::empty()) =~= Seq::empty());
            assert(spec_preset_bindings(layout_preset) + Seq::empty() == spec_preset_bindings(
                layout_preset,
            ));
        }
        Keymap::build(resolved)
    }

    /// The key map from the key map file as read (`None` when it could not be
    /// read or parsed, which falls back to the layout's preset).
    pub fn load(loaded: Option<KeymapConfig>, layout_preset: KeymapPreset) -> (k: Keymap)
        ensures
            k@ == match loaded {
                Some(cfg) => spec_build_table(resolved_bindings(cfg, layout_preset)),
                None => spec_build_table(spec_preset_bindings(layout_preset)),
            },
            loaded is None ==> k@ == spec_build_table_ascii(spec_preset_bindings(layout_preset)),
    {
        match loaded {
            Some(cfg) => Keymap::build(resolve_keymap_config(cfg, layout_preset)),
            None => Keymap::default_for_layout(layout_preset),
        }
    }
}

/// Whether binding `j` of `bs` names the key `k`.
pub open spec fn names_key(bs: Seq<(Seq<char>, KeyAction)>, j: int, k: KeySpec) -> bool {
    spec_parse_key(bs[j].0) == Some(k)
}

proof fn lemma_table_contains(bs: Seq<(Seq<char>, KeyAction)>, k: KeySpec)
    ensures
        spec_build_table(bs).contains_key(k.spec_code()) <==> exists|j: int|
            0 <= j < bs.len() && #[trigger] names_key(bs, j, k),
    decreases bs.len(),
{
    if bs.len() > 0 {
        let init = bs.drop_last();
        lemma_table_contains(init, k);
        let n = bs.len() - 1;
        match spec_parse_key(bs[n].0) {
            Some(k2) => {
                lemma_key_code_injective(k, k2);
            },
            None => {},
        }
        assert(bs.last() == bs[n]);
        if names_key(bs, n, k) {
            assert(spec_build_table(bs).contains_key(k.spec_code()));
        }
        if exists|j: int| 0 <= j < init.len() && #[trigger] names_key(init, j, k) {
            let j = choose|j: int| 0 <= j < init.len() && #[trigger] names_key(init, j, k);
            assert(names_key(bs, j, k));
        }
        if exists|j: int| 0 <= j < bs.len() && #[trigger] names_key(bs, j, k) {
            let j = choose|j: int| 0 <= j < bs.len() && #[trigger] names_key(bs, j, k);
            if j < n {
                assert(names_key(init, j, k));
            }
        }
    }
}

proof fn lemma_table_value(bs: Seq<(Seq<char>, KeyAction)>, k: KeySpec, j: int)
    requires
        0 <= j < bs.len(),
        names_key(bs, j, k),
        forall|i: int| j < i < bs.len() ==> !#[trigger] names_key(bs, i, k),
    ensures
        spec_build_table(bs).contains_key(k.spec_code()),
        spec_build_table(bs)[k.spec_code()] == bs[j].1,
    decreases bs.len(),
{
    let init = bs.drop_last();
    let n = bs.len() - 1;
    if j < n {
        assert(names_key(init, j, k));
        assert forall|i: int| j < i < init.len() implies !#[trigger] names_key(init, i, k) by {
            assert(!names_key(bs, i, k));
        }
        lemma_table_value(init, k, j);
        assert(!names_key(bs, n, k));
        match spec_parse_key(bs[n].0) {
            Some(k2) => {
                lemma_key_code_injective(k, k2);
            },
            None => {},
        }
    }
}

/// The binding that decides a key: a key is in the table exactly when some
/// binding names it, and then it holds the action of the last such binding.
pub proof fn lemma_last_binding_wins(bs: Seq<(Seq<char>, KeyAction)>, k: KeySpec, j: int)
    requires
        0 <= j < bs.len(),
        names_key(bs, j, k),
        forall|i: int| j < i < bs.len() ==> !#[trigger] names_key(bs, i, k),
    ensures
        spec_build_table(bs).contains_key(k.spec_code()),
        spec_build_table(bs)[k.spec_code()] == bs[j].1,
{
    lemma_table_value(bs, k, j);
}

/// A key that no binding names is not in the table.
pub proof fn lemma_unbound_key_absent(bs: Seq<(Seq<char>, KeyAction)>, k: KeySpec)
    requires
        forall|i: int| 0 <= i < bs.len() ==> !#[trigger] names_key(bs, i, k),
    ensures
        !spec_build_table(bs).contains_key(k.spec_code()),
{
    lemma_table_contains(bs, k);
}

/// Reports a Ctrl+Space that arrives as Ctrl+Alt+Right (seen on some systems
/// while Space is held) as Ctrl+Space; any other key as it came.
pub open spec fn spec_normalize_key_event(
    vk: u16,
    ctrl: bool,
    shift: bool,
    alt: bool,
    space_down: bool,
) -> (u16, bool, bool, bool) {
    if vk == 0x27 && ctrl && alt && !shift && space_down {
        (0x20, true, false, false)
    } else {
        (vk, ctrl, shift, alt)
    }
}

pub fn normalize_key_event(vk: u16, ctrl: bool, shift: bool, alt: bool, space_down: bool) -> (r: (
    u16,
    bool,
    bool,
    bool,
))
    ensures
        r == spec_normalize_key_event(vk, ctrl, shift, alt, space_down),
{
    if vk == 0x27 && ctrl && alt && !shift && space_down {
        return (0x20, true, false, false);
    }
    (vk, ctrl, shift, alt)
}

// ─── from a key press to an action ──────────────────────────────────────────

/// What a key press comes to before the keyboard layout is asked: an action,
/// or a key to translate into a character (with `ToUnicode`).
#[derive(Debug, Clone, Copy, PartialEq, Eq, Structural)]
pub enum KeyResolution {
    Action(UserAction),
    Translate(u16),
}

/// The keypad symbols typed as they are: `/` `*` `-` `+` `.`.
pub open spec fn spec_keypad_symbol(vk: u16) -> Option<char> {
    if vk == 0x6F {
        Some('/')
    } else if vk == 0x6A {
        Some('*')
    } else if vk == 0x6D {
        Some('-')
    } else if vk == 0x6B {
        Some('+')
    } else if vk == 0x6E {
        Some('.')
    } else {
        None
    }
}

/// The decision for a key press (modifier and Space states as read): the
/// bound action; else Enter, Space, Backspace and Escape as themselves; else,
/// while candidates are shown and without Ctrl or Alt, the digits and keypad
/// digits 1 to 9 select a candidate; else, without Ctrl or Alt, the keypad
/// symbols are typed raw; else the key is to be translated.
pub open spec fn spec_resolve_key(
    table: Map<u32, KeyAction>,
    vk0: u16,
    ctrl0: bool,
    shift0: bool,
    alt0: bool,
    space_down: bool,
    selecting: bool,
) -> KeyResolution {
    let (vk, ctrl, shift, alt) = spec_normalize_key_event(vk0, ctrl0, shift0, alt0, space_down);
    let code = key_code(vk, ctrl, shift, alt);
    if table.contains_key(code) {
        KeyResolution::Action(spec_user_action(table[code]))
    } else if vk == 0x0D {
        KeyResolution::Action(UserAction::CommitRaw)
    } else if vk == 0x20 {
        KeyResolution::Action(UserAction::Convert)
    } else if vk == 0x08 {
        KeyResolution::Action(UserAction::Backspace)
    } else if vk == 0x1B {
        KeyResolution::Action(UserAction::Cancel)
    } else if !ctrl && !alt && selecting && 0x31 <= vk <= 0x39 {
        KeyResolution::Action(UserAction::CandidateSelect((vk - 0x30) as u8))
    } else if !ctrl && !alt && selecting && 0x61 <= vk <= 0x69 {
        KeyResolution::Action(UserAction::CandidateSelect((vk - 0x60) as u8))
    } else if !ctrl && !alt && spec_keypad_symbol(vk) is Some {
        KeyResolution::Action(UserAction::InputRaw(spec_keypad_symbol(vk)->0))
    } else {
        KeyResolution::Translate(vk)
    }
}

/// The action of a translated key: a printable character (not a C0 or C1
/// control, not a lone surrogate) is typed; else Tab is Tab; else nothing.
pub open spec fn spec_translated_action(vk: u16, translated: Option<u16>) -> Option<UserAction> {
    match translated {
        Some(c) if c >= 0x20 && !(0x7F <= c <= 0x9F) && !(0xD800 <= c <= 0xDFFF) => Some(
            UserAction::Input(c as char),
        ),
        _ => if vk == 0x09 {
            Some(UserAction::Tab)
        } else {
            None
        },
    }
}

impl Keymap {
    /// Decides a key press up to the character translation (see
    /// `spec_resolve_key`); `selecting` tells whether candidates are shown.
    pub fn resolve_key(
        &self,
        vk: u16,
        ctrl: bool,
        shift: bool,
        alt: bool,
        space_down: bool,
        selecting: bool,
    ) -> (r: KeyResolution)
        ensures
            r == spec_resolve_key(self@, vk, ctrl, shift, alt, space_down, selecting),
    {
        let (vk, ctrl, shift, alt) = normalize_key_event(vk, ctrl, shift, alt, space_down);
        match self.resolve(vk, ctrl, shift, alt) {
            Some(a) => {
                return KeyResolution::Action(a.to_user_action());
            },
            None => {},
        }
        if vk == 0x0D {
            return KeyResolution::Action(UserAction::CommitRaw);
        }
        if vk == 0x20 {
            return KeyResolution::Action(UserAction::Convert);
        }
        if vk == 0x08 {
            return KeyResolution::Action(UserAction::Backspace);
        }
        if vk == 0x1B {
            return KeyResolution::Action(UserAction::Cancel);
        }
        if !ctrl && !alt && selecting {
            if 0x31 <= vk && vk <= 0x39 {
                return KeyResolution::Action(UserAction::CandidateSelect((vk - 0x30) as u8));
            }
            if 0x61 <= vk && vk <= 0x69 {
                return KeyResolution::Action(UserAction::CandidateSelect((vk - 0x60) as u8));
            }
        }
        if !ctrl && !alt {
            let ch = if vk == 0x6F {
                Some('/')
            } else if vk == 0x6A {
                Some('*')
            } else if vk == 0x6D {
                Some('-')
            } else if vk == 0x6B {
                Some('+')
            } else if vk == 0x6E {
                Some('.')
            } else {
                None
            };
            match ch {
                Some(c) => {
                    return KeyResolution::Action(UserAction::InputRaw(c));
                },
                None => {},
            }
        }
        KeyResolution::Translate(vk)
    }
}

/// The action of a key after translation (see `spec_translated_action`):
/// `translated` is the first UTF-16 unit the layout gave, if any.
pub fn translated_action(vk: u16, translated: Option<u16>) -> (r: Option<UserAction>)
    ensures
        r == spec_translated_action(vk, translated),
{
    match translated {
        Some(c) => {
            if c >= 0x20 && !(0x7F <= c && c <= 0x9F) {
                match crate::text::char_from_u32(c as u32) {
                    Some(ch) => {
                        proof {
                            vstd::utf8::char_u32_cast(ch, c as u32);
                        }
                        return Some(UserAction::Input(ch));
                    },
                    None => {},
                }
            }
        },
        None => {},
    }
    if vk == 0x09 {
        Some(UserAction::Tab)
    } else {
        None
    }
}

} // verus!
