//! Laws of the key presets: in both built-in presets, F6 to F10 without
//! modifiers resolve to the five conversions (hiragana, katakana, halfwidth
//! katakana, fullwidth Latin, halfwidth Latin), each key its own.
use vstd::prelude::*;

use crate::keymap::{
    ascii_key_names, ascii_parse_key, key_code, lemma_key_code_injective, parse_scan,
    spec_build_table_ascii, spec_is_white_space, spec_name_to_vk, spec_parse_names,
    spec_preset_bindings, spec_trim, split_plus, trim_end, trim_start, KeyAction, KeySpec,
    KeymapPreset,
};
use crate::text::{ascii_lower, spec_is_ascii_upper};

verus! {

/// `x` does not occur in `s`.
pub open spec fn lacks_char(s: Seq<char>, x: char) -> bool {
    forall|i: int| 0 <= i < s.len() ==> s[i] != x
}

/// The conversion that function key F6 + `i` performs (`i` from 0 to 4).
pub open spec fn function_key_action(i: int) -> KeyAction {
    if i == 0 {
        KeyAction::Hiragana
    } else if i == 1 {
        KeyAction::Katakana
    } else if i == 2 {
        KeyAction::HalfKatakana
    } else if i == 3 {
        KeyAction::FullLatin
    } else {
        KeyAction::HalfLatin
    }
}

/// The key string of F6 + `i`.
pub open spec fn function_key_string(i: int) -> Seq<char> {
    if i == 0 {
        "F6"@
    } else if i == 1 {
        "F7"@
    } else if i == 2 {
        "F8"@
    } else if i == 3 {
        "F9"@
    } else {
        "F10"@
    }
}

/// The key name of F6 + `i`, as `spec_name_to_vk` knows it.
pub open spec fn function_key_name(i: int) -> Seq<char> {
    if i == 0 {
        "f6"@
    } else if i == 1 {
        "f7"@
    } else if i == 2 {
        "f8"@
    } else if i == 3 {
        "f9"@
    } else {
        "f10"@
    }
}

/// The last digit of the name of F6 + `i`.
pub open spec fn function_key_digit(i: int) -> char {
    if i == 0 {
        '6'
    } else if i == 1 {
        '7'
    } else if i == 2 {
        '8'
    } else if i == 3 {
        '9'
    } else {
        '0'
    }
}

// ─── reading a key string without `+` ──────────────────────────────────────

proof fn lemma_split_plus_single(s: Seq<char>)
    requires
        lacks_char(s, '+'),
    ensures
        split_plus(s) == seq![s],
    decreases s.len(),
{
    if s.len() > 0 {
        let init = s.drop_last();
        assert(lacks_char(init, '+')) by {
            assert forall|i: int| 0 <= i < init.len() implies init[i] != '+' by {
                assert(init[i] == s[i]);
            }
        }
        lemma_split_plus_single(init);
        assert(s.last() == s[s.len() - 1]);
        assert(init.push(s.last()) =~= s);
    } else {
        assert(s =~= Seq::<char>::empty());
    }
}

proof fn lemma_split_plus_two(a: Seq<char>, b: Seq<char>)
    requires
        lacks_char(a, '+'),
        lacks_char(b, '+'),
    ensures
        split_plus(a + seq!['+'] + b) == seq![a, b],
    decreases b.len(),
{
    lemma_split_plus_single(a);
    let s = a + seq!['+'] + b;
    if b.len() == 0 {
        assert(s =~= a.push('+'));
        assert(s.drop_last() =~= a);
        assert(s.last() == '+');
        assert(split_plus(s) =~= seq![a].push(Seq::<char>::empty()));
        assert(b =~= Seq::<char>::empty());
    } else {
        let b0 = b.drop_last();
        assert(lacks_char(b0, '+')) by {
            assert forall|i: int| 0 <= i < b0.len() implies b0[i] != '+' by {
                assert(b0[i] == b[i]);
            }
        }
        lemma_split_plus_two(a, b0);
        assert(s.drop_last() =~= a + seq!['+'] + b0);
        assert(s.last() == b[b.len() - 1]);
        assert(b0.push(s.last()) =~= b);
        assert(split_plus(s) =~= seq![a, b0].update(1, b0.push(s.last())));
    }
}

/// F6 to F10 read as those keys with no modifiers.
proof fn lemma_function_key_parse(i: int)
    requires
        0 <= i < 5,
    ensures
        ascii_parse_key(function_key_string(i)) == Some(
            KeySpec { vk: (0x75 + i) as u16, ctrl: false, shift: false, alt: false },
        ),
{
    if i == 0 {
        lemma_function_key_parse_0();
    } else if i == 1 {
        lemma_function_key_parse_1();
    } else if i == 2 {
        lemma_function_key_parse_2();
    } else if i == 3 {
        lemma_function_key_parse_3();
    } else {
        lemma_function_key_parse_4();
    }
}

proof fn lemma_function_key_parse_0()
    ensures
        ascii_parse_key("F6"@) == Some(KeySpec { vk: 0x75u16, ctrl: false, shift: false, alt: false }),
{
    reveal_strlit("F6");
    reveal_strlit("ctrl");
    reveal_strlit("control");
    reveal_strlit("shift");
    reveal_strlit("alt");
    reveal_strlit("backspace");
    reveal_strlit("bs");
    reveal_strlit("tab");
    reveal_strlit("enter");
    reveal_strlit("return");
    reveal_strlit("escape");
    reveal_strlit("esc");
    reveal_strlit("space");
    reveal_strlit("backquote");
    reveal_strlit("grave");
    reveal_strlit("semicolon");
    reveal_strlit("equal");
    reveal_strlit("comma");
    reveal_strlit("minus");
    reveal_strlit("period");
    reveal_strlit("slash");
    reveal_strlit("leftbracket");
    reveal_strlit("backslash");
    reveal_strlit("rightbracket");
    reveal_strlit("quote");
    reveal_strlit("pageup");
    reveal_strlit("pgup");
    reveal_strlit("pagedown");
    reveal_strlit("pgdn");
    reveal_strlit("end");
    reveal_strlit("home");
    reveal_strlit("left");
    reveal_strlit("up");
    reveal_strlit("right");
    reveal_strlit("down");
    reveal_strlit("delete");
    reveal_strlit("del");
    reveal_strlit("f1");
    reveal_strlit("f2");
    reveal_strlit("f3");
    reveal_strlit("f4");
    reveal_strlit("f5");
    reveal_strlit("f6");
    let s = "F6"@;
    assert(lacks_char(s, '+'));
    lemma_split_plus_single(s);
    assert(!spec_is_white_space(s[0]));
    assert(!spec_is_white_space(s.last()));
    assert(trim_start(s) == s);
    assert(trim_end(s) == s);
    assert(spec_trim(s) == s);
    let n = "f6"@;
    assert(s.map_values(|c: char| ascii_lower(c)) =~= n);
    let names = ascii_key_names(s);
    assert(names =~= seq![n]);
    assert(names.drop_last() =~= Seq::<Seq<char>>::empty());
    assert(names.last() == n);
    assert(parse_scan(names.drop_last()) == Some((false, false, false, None::<u16>)));
    assert("f6"@[0] != "bs"@[0]);
    assert("f6"@[0] != "up"@[0]);
    assert("f6"@[1] != "f1"@[1]);
    assert("f6"@[1] != "f2"@[1]);
    assert("f6"@[1] != "f3"@[1]);
    assert("f6"@[1] != "f4"@[1]);
    assert("f6"@[1] != "f5"@[1]);
    assert(spec_name_to_vk(n) == Some(0x75u16));
    assert(!(n == "ctrl"@ || n == "control"@));
    assert(n != "shift"@);
    assert(n != "alt"@);
    assert(parse_scan(names) == Some((false, false, false, Some(0x75u16))));
}

proof fn lemma_function_key_parse_1()
    ensures
        ascii_parse_key("F7"@) == Some(KeySpec { vk: 0x76u16, ctrl: false, shift: false, alt: false }),
{
    reveal_strlit("F7");
    reveal_strlit("ctrl");
    reveal_strlit("control");
    reveal_strlit("shift");
    reveal_strlit("alt");
    reveal_strlit("backspace");
    reveal_strlit("bs");
    reveal_strlit("tab");
    reveal_strlit("enter");
    reveal_strlit("return");
    reveal_strlit("escape");
    reveal_strlit("esc");
    reveal_strlit("space");
    reveal_strlit("backquote");
    reveal_strlit("grave");
    reveal_strlit("semicolon");
    reveal_strlit("equal");
    reveal_strlit("comma");
    reveal_strlit("minus");
    reveal_strlit("period");
    reveal_strlit("slash");
    reveal_strlit("leftbracket");
    reveal_strlit("backslash");
    reveal_strlit("rightbracket");
    reveal_strlit("quote");
    reveal_strlit("pageup");
    reveal_strlit("pgup");
    reveal_strlit("pagedown");
    reveal_strlit("pgdn");
    reveal_strlit("end");
    reveal_strlit("home");
    reveal_strlit("left");
    reveal_strlit("up");
    reveal_strlit("right");
    reveal_strlit("down");
    reveal_strlit("delete");
    reveal_strlit("del");
    reveal_strlit("f1");
    reveal_strlit("f2");
    reveal_strlit("f3");
    reveal_strlit("f4");
    reveal_strlit("f5");
    reveal_strlit("f6");
    reveal_strlit("f7");
    let s = "F7"@;
    assert(lacks_char(s, '+'));
    lemma_split_plus_single(s);
    assert(!spec_is_white_space(s[0]));
    assert(!spec_is_white_space(s.last()));
    assert(trim_start(s) == s);
    assert(trim_end(s) == s);
    assert(spec_trim(s) == s);
    let n = "f7"@;
    assert(s.map_values(|c: char| ascii_lower(c)) =~= n);
    let names = ascii_key_names(s);
    assert(names =~= seq![n]);
    assert(names.drop_last() =~= Seq::<Seq<char>>::empty());
    assert(names.last() == n);
    assert(parse_scan(names.drop_last()) == Some((false, false, false, None::<u16>)));
    assert("f7"@[0] != "bs"@[0]);
    assert("f7"@[0] != "up"@[0]);
    assert("f7"@[1] != "f1"@[1]);
    assert("f7"@[1] != "f2"@[1]);
    assert("f7"@[1] != "f3"@[1]);
    assert("f7"@[1] != "f4"@[1]);
    assert("f7"@[1] != "f5"@[1]);
    assert("f7"@[1] != "f6"@[1]);
    assert(spec_name_to_vk(n) == Some(0x76u16));
    assert(!(n == "ctrl"@ || n == "control"@));
    assert(n != "shift"@);
    assert(n != "alt"@);
    assert(parse_scan(names) == Some((false, false, false, Some(0x76u16))));
}

proof fn lemma_function_key_parse_2()
    ensures
        ascii_parse_key("F8"@) == Some(KeySpec { vk: 0x77u16, ctrl: false, shift: false, alt: false }),
{
    reveal_strlit("F8");
    reveal_strlit("ctrl");
    reveal_strlit("control");
    reveal_strlit("shift");
    reveal_strlit("alt");
    reveal_strlit("backspace");
    reveal_strlit("bs");
    reveal_strlit("tab");
    reveal_strlit("enter");
    reveal_strlit("return");
    reveal_strlit("escape");
    reveal_strlit("esc");
    reveal_strlit("space");
    reveal_strlit("backquote");
    reveal_strlit("grave");
    reveal_strlit("semicolon");
    reveal_strlit("equal");
    reveal_strlit("comma");
    reveal_strlit("minus");
    reveal_strlit("period");
    reveal_strlit("slash");
    reveal_strlit("leftbracket");
    reveal_strlit("backslash");
    reveal_strlit("rightbracket");
    reveal_strlit("quote");
    reveal_strlit("pageup");
    reveal_strlit("pgup");
    reveal_strlit("pagedown");
    reveal_strlit("pgdn");
    reveal_strlit("end");
    reveal_strlit("home");
    reveal_strlit("left");
    reveal_strlit("up");
    reveal_strlit("right");
    reveal_strlit("down");
    reveal_strlit("delete");
    reveal_strlit("del");
    reveal_strlit("f1");
    reveal_strlit("f2");
    reveal_strlit("f3");
    reveal_strlit("f4");
    reveal_strlit("f5");
    reveal_strlit("f6");
    reveal_strlit("f7");
    reveal_strlit("f8");
    let s = "F8"@;
    assert(lacks_char(s, '+'));
    lemma_split_plus_single(s);
    assert(!spec_is_white_space(s[0]));
    assert(!spec_is_white_space(s.last()));
    assert(trim_start(s) == s);
    assert(trim_end(s) == s);
    assert(spec_trim(s) == s);
    let n = "f8"@;
    assert(s.map_values(|c: char| ascii_lower(c)) =~= n);
    let names = ascii_key_names(s);
    assert(names =~= seq![n]);
    assert(names.drop_last() =~= Seq::<Seq<char>>::empty());
    assert(names.last() == n);
    assert(parse_scan(names.drop_last()) == Some((false, false, false, None::<u16>)));
    assert("f8"@[0] != "bs"@[0]);
    assert("f8"@[0] != "up"@[0]);
    assert("f8"@[1] != "f1"@[1]);
    assert("f8"@[1] != "f2"@[1]);
    assert("f8"@[1] != "f3"@[1]);
    assert("f8"@[1] != "f4"@[1]);
    assert("f8"@[1] != "f5"@[1]);
    assert("f8"@[1] != "f6"@[1]);
    assert("f8"@[1] != "f7"@[1]);
    assert(spec_name_to_vk(n) == Some(0x77u16));
    assert(!(n == "ctrl"@ || n == "control"@));
    assert(n != "shift"@);
    assert(n != "alt"@);
    assert(parse_scan(names) == Some((false, false, false, Some(0x77u16))));
}

proof fn lemma_function_key_parse_3()
    ensures
        ascii_parse_key("F9"@) == Some(KeySpec { vk: 0x78u16, ctrl: false, shift: false, alt: false }),
{
    reveal_strlit("F9");
    reveal_strlit("ctrl");
    reveal_strlit("control");
    reveal_strlit("shift");
    reveal_strlit("alt");
    reveal_strlit("backspace");
    reveal_strlit("bs");
    reveal_strlit("tab");
    reveal_strlit("enter");
    reveal_strlit("return");
    reveal_strlit("escape");
    reveal_strlit("esc");
    reveal_strlit("space");
    reveal_strlit("backquote");
    reveal_strlit("grave");
    reveal_strlit("semicolon");
    reveal_strlit("equal");
    reveal_strlit("comma");
    reveal_strlit("minus");
    reveal_strlit("period");
    reveal_strlit("slash");
    reveal_strlit("leftbracket");
    reveal_strlit("backslash");
    reveal_strlit("rightbracket");
    reveal_strlit("quote");
    reveal_strlit("pageup");
    reveal_strlit("pgup");
    reveal_strlit("pagedown");
    reveal_strlit("pgdn");
    reveal_strlit("end");
    reveal_strlit("home");
    reveal_strlit("left");
    reveal_strlit("up");
    reveal_strlit("right");
    reveal_strlit("down");
    reveal_strlit("delete");
    reveal_strlit("del");
    reveal_strlit("f1");
    reveal_strlit("f2");
    reveal_strlit("f3");
    reveal_strlit("f4");
    reveal_strlit("f5");
    reveal_strlit("f6");
    reveal_strlit("f7");
    reveal_strlit("f8");
    reveal_strlit("f9");
    let s = "F9"@;
    assert(lacks_char(s, '+'));
    lemma_split_plus_single(s);
    assert(!spec_is_white_space(s[0]));
    assert(!spec_is_white_space(s.last()));
    assert(trim_start(s) == s);
    assert(trim_end(s) == s);
    assert(spec_trim(s) == s);
    let n = "f9"@;
    assert(s.map_values(|c: char| ascii_lower(c)) =~= n);
    let names = ascii_key_names(s);
    assert(names =~= seq![n]);
    assert(names.drop_last() =~= Seq::<Seq<char>>::empty());
    assert(names.last() == n);
    assert(parse_scan(names.drop_last()) == Some((false, false, false, None::<u16>)));
    assert("f9"@[0] != "bs"@[0]);
    assert("f9"@[0] != "up"@[0]);
    assert("f9"@[1] != "f1"@[1]);
    assert("f9"@[1] != "f2"@[1]);
    assert("f9"@[1] != "f3"@[1]);
    assert("f9"@[1] != "f4"@[1]);
    assert("f9"@[1] != "f5"@[1]);
    assert("f9"@[1] != "f6"@[1]);
    assert("f9"@[1] != "f7"@[1]);
    assert("f9"@[1] != "f8"@[1]);
    assert(spec_name_to_vk(n) == Some(0x78u16));
    assert(!(n == "ctrl"@ || n == "control"@));
    assert(n != "shift"@);
    assert(n != "alt"@);
    assert(parse_scan(names) == Some((false, false, false, Some(0x78u16))));
}

proof fn lemma_function_key_parse_4()
    ensures
        ascii_parse_key("F10"@) == Some(KeySpec { vk: 0x79u16, ctrl: false, shift: false, alt: false }),
{
    reveal_strlit("F10");
    reveal_strlit("ctrl");
    reveal_strlit("control");
    reveal_strlit("shift");
    reveal_strlit("alt");
    reveal_strlit("backspace");
    reveal_strlit("bs");
    reveal_strlit("tab");
    reveal_strlit("enter");
    reveal_strlit("return");
    reveal_strlit("escape");
    reveal_strlit("esc");
    reveal_strlit("space");
    reveal_strlit("backquote");
    reveal_strlit("grave");
    reveal_strlit("semicolon");
    reveal_strlit("equal");
    reveal_strlit("comma");
    reveal_strlit("minus");
    reveal_strlit("period");
    reveal_strlit("slash");
    reveal_strlit("leftbracket");
    reveal_strlit("backslash");
    reveal_strlit("rightbracket");
    reveal_strlit("quote");
    reveal_strlit("pageup");
    reveal_strlit("pgup");
    reveal_strlit("pagedown");
    reveal_strlit("pgdn");
    reveal_strlit("end");
    reveal_strlit("home");
    reveal_strlit("left");
    reveal_strlit("up");
    reveal_strlit("right");
    reveal_strlit("down");
    reveal_strlit("delete");
    reveal_strlit("del");
    reveal_strlit("f1");
    reveal_strlit("f2");
    reveal_strlit("f3");
    reveal_strlit("f4");
    reveal_strlit("f5");
    reveal_strlit("f6");
    reveal_strlit("f7");
    reveal_strlit("f8");
    reveal_strlit("f9");
    reveal_strlit("f10");
    let s = "F10"@;
    assert(lacks_char(s, '+'));
    lemma_split_plus_single(s);
    assert(!spec_is_white_space(s[0]));
    assert(!spec_is_white_space(s.last()));
    assert(trim_start(s) == s);
    assert(trim_end(s) == s);
    assert(spec_trim(s) == s);
    let n = "f10"@;
    assert(s.map_values(|c: char| ascii_lower(c)) =~= n);
    let names = ascii_key_names(s);
    assert(names =~= seq![n]);
    assert(names.drop_last() =~= Seq::<Seq<char>>::empty());
    assert(names.last() == n);
    assert(parse_scan(names.drop_last()) == Some((false, false, false, None::<u16>)));
    assert("f10"@[0] != "alt"@[0]);
    assert("f10"@[0] != "tab"@[0]);
    assert("f10"@[0] != "esc"@[0]);
    assert("f10"@[0] != "end"@[0]);
    assert("f10"@[0] != "del"@[0]);
    assert(spec_name_to_vk(n) == Some(0x79u16));
    assert(!(n == "ctrl"@ || n == "control"@));
    assert(n != "shift"@);
    assert(n != "alt"@);
    assert(parse_scan(names) == Some((false, false, false, Some(0x79u16))));
}

// ─── no other binding names F6 to F10 ───────────────────────────────────────

/// Only the name of F6 + `i` has its key code; and it holds that key's digit.
proof fn lemma_function_key_name(n: Seq<char>, i: int)
    requires
        0 <= i < 5,
        spec_name_to_vk(n) == Some((0x75 + i) as u16),
    ensures
        !lacks_char(n, function_key_digit(i)),
{
    reveal_strlit("f6");
    reveal_strlit("f7");
    reveal_strlit("f8");
    reveal_strlit("f9");
    reveal_strlit("f10");
    if n.len() == 1 {
        assert(false);
    }
    if i == 0 {
        assert(n == "f6"@);
        assert(n[1] == '6');
    } else if i == 1 {
        assert(n == "f7"@);
        assert(n[1] == '7');
    } else if i == 2 {
        assert(n == "f8"@);
        assert(n[1] == '8');
    } else if i == 3 {
        assert(n == "f9"@);
        assert(n[1] == '9');
    } else {
        assert(n == "f10"@);
        assert(n[2] == '0');
    }
}

/// The key code a scan of names ends with is the code of one of the names.
proof fn lemma_parse_scan_key(names: Seq<Seq<char>>, v: u16)
    requires
        parse_scan(names) matches Some((_, _, _, Some(w))) && w == v,
    ensures
        exists|k: int| 0 <= k < names.len() && spec_name_to_vk(#[trigger] names[k]) == Some(v),
    decreases names.len(),
{
    let init = names.drop_last();
    let n = names.last();
    match parse_scan(init) {
        Some((_, _, _, Some(w))) => {
            if w == v {
                lemma_parse_scan_key(init, v);
                let k = choose|k: int| 0 <= k < init.len() && spec_name_to_vk(#[trigger] init[k]) == Some(v);
                assert(names[k] == init[k]);
            }
        },
        _ => {},
    }
    if spec_name_to_vk(n) == Some(v) {
        assert(names[names.len() - 1] == n);
    }
}

proof fn lemma_split_plus_lacks(s: Seq<char>, x: char)
    requires
        lacks_char(s, x),
        x != '+',
    ensures
        forall|k: int| 0 <= k < split_plus(s).len() ==> lacks_char(#[trigger] split_plus(s)[k], x),
    decreases s.len(),
{
    if s.len() > 0 {
        let init = s.drop_last();
        assert(lacks_char(init, x)) by {
            assert forall|i: int| 0 <= i < init.len() implies init[i] != x by {
                assert(init[i] == s[i]);
            }
        }
        lemma_split_plus_lacks(init, x);
        let parts = split_plus(init);
        let c = s.last();
        assert(c == s[s.len() - 1]);
        if c != '+' {
            crate::keymap::lemma_split_plus_len(init);
            let last = parts.last();
            assert(lacks_char(last, x)) by {
                assert(last == parts[parts.len() - 1]);
            }
            assert(lacks_char(last.push(c), x)) by {
                assert forall|i: int| 0 <= i < last.push(c).len() implies last.push(c)[i] != x by {
                    if i < last.len() {
                        assert(last.push(c)[i] == last[i]);
                    }
                }
            }
        }
    }
}

proof fn lemma_trim_lacks(p: Seq<char>, x: char)
    requires
        lacks_char(p, x),
    ensures
        lacks_char(spec_trim(p), x),
{
    lemma_trim_start_lacks(p, x);
    lemma_trim_end_lacks(trim_start(p), x);
}

proof fn lemma_trim_start_lacks(p: Seq<char>, x: char)
    requires
        lacks_char(p, x),
    ensures
        lacks_char(trim_start(p), x),
    decreases p.len(),
{
    if p.len() > 0 && spec_is_white_space(p[0]) {
        let t = p.drop_first();
        assert forall|i: int| 0 <= i < t.len() implies t[i] != x by {
            assert(t[i] == p[i + 1]);
        }
        lemma_trim_start_lacks(t, x);
    }
}

proof fn lemma_trim_end_lacks(p: Seq<char>, x: char)
    requires
        lacks_char(p, x),
    ensures
        lacks_char(trim_end(p), x),
    decreases p.len(),
{
    if p.len() > 0 && spec_is_white_space(p.last()) {
        let t = p.drop_last();
        assert forall|i: int| 0 <= i < t.len() implies t[i] != x by {
            assert(t[i] == p[i]);
        }
        lemma_trim_end_lacks(t, x);
    }
}

/// A key string without the digit of F6 + `i` does not name that key.
proof fn lemma_no_function_key(s: Seq<char>, i: int)
    requires
        0 <= i < 5,
        lacks_char(s, function_key_digit(i)),
    ensures
        ascii_parse_key(s) matches Some(k) ==> k.vk != (0x75 + i) as u16,
{
    let x = function_key_digit(i);
    let names = ascii_key_names(s);
    lemma_split_plus_lacks(s, x);
    assert forall|k: int| 0 <= k < names.len() implies lacks_char(#[trigger] names[k], x) by {
        let part = split_plus(s)[k];
        lemma_trim_lacks(part, x);
        let t = spec_trim(part);
        assert(names[k] == t.map_values(|c: char| ascii_lower(c)));
        let lt = t.map_values(|c: char| ascii_lower(c));
        assert forall|m: int| 0 <= m < lt.len() implies #[trigger] lt[m] != x by {
            assert(t[m] != x);
            if spec_is_ascii_upper(t[m]) {
                assert(ascii_lower(t[m]) == crate::text::shift(t[m], 0x20));
            }
        }
    }
    if let Some(k) = ascii_parse_key(s) {
        if k.vk == (0x75 + i) as u16 {
            assert(parse_scan(names) matches Some((_, _, _, Some(w))) && w == k.vk);
            lemma_parse_scan_key(names, k.vk);
            let m = choose|m: int| 0 <= m < names.len() && spec_name_to_vk(#[trigger] names[m]) == Some(k.vk);
            lemma_function_key_name(names[m], i);
        }
    }
}

// ─── the presets ────────────────────────────────────────────────────────────

/// Where F6 + `i` is bound in a preset's list.
pub open spec fn function_key_index(p: KeymapPreset, i: int) -> int {
    if p == KeymapPreset::MsImeUs {
        9 + i
    } else {
        6 + i
    }
}

/// In the table of bindings with ASCII key strings, the last binding that
/// names a key decides it.
proof fn lemma_ascii_table_value(bs: Seq<(Seq<char>, KeyAction)>, k: KeySpec, j: int)
    requires
        0 <= j < bs.len(),
        ascii_parse_key(bs[j].0) == Some(k),
        forall|m: int| j < m < bs.len() ==> ascii_parse_key(#[trigger] bs[m].0) != Some(k),
    ensures
        spec_build_table_ascii(bs).contains_key(k.spec_code()),
        spec_build_table_ascii(bs)[k.spec_code()] == bs[j].1,
    decreases bs.len(),
{
    let init = bs.drop_last();
    let n = bs.len() - 1;
    assert(bs.last() == bs[n]);
    if j < n {
        assert(init[j] == bs[j]);
        assert forall|m: int| j < m < init.len() implies ascii_parse_key(#[trigger] init[m].0)
            != Some(k) by {
            assert(init[m] == bs[m]);
        }
        lemma_ascii_table_value(init, k, j);
        match ascii_parse_key(bs[n].0) {
            Some(k2) => {
                lemma_key_code_injective(k, k2);
            },
            None => {},
        }
    }
}

/// After F6 + `i` in a preset, no key string holds that key's digit.
proof fn lemma_later_bindings_lack(p: KeymapPreset, i: int)
    requires
        p != KeymapPreset::Custom,
        0 <= i < 5,
    ensures
        forall|m: int|
            function_key_index(p, i) < m < spec_preset_bindings(p).len() ==> lacks_char(
                #[trigger] spec_preset_bindings(p)[m].0,
                function_key_digit(i),
            ),
{
    reveal_strlit("Ctrl+Space");
    reveal_strlit("Ctrl+J");
    reveal_strlit("Ctrl+K");
    reveal_strlit("Ctrl+L");
    reveal_strlit("Space");
    reveal_strlit("Enter");
    reveal_strlit("Escape");
    reveal_strlit("Ctrl+Backspace");
    reveal_strlit("Backspace");
    reveal_strlit("F6");
    reveal_strlit("F7");
    reveal_strlit("F8");
    reveal_strlit("F9");
    reveal_strlit("F10");
    reveal_strlit("Shift+Space");
    reveal_strlit("Down");
    reveal_strlit("Up");
    reveal_strlit("Tab");
    reveal_strlit("Shift+Tab");
    reveal_strlit("PageDown");
    reveal_strlit("PageUp");
    reveal_strlit("Left");
    reveal_strlit("Right");
    reveal_strlit("Shift+Left");
    reveal_strlit("Shift+Right");
    reveal_strlit("Henkan");
    reveal_strlit("Muhenkan");
    reveal_strlit("Zenkaku");
    reveal_strlit("Hiragana_key");
    reveal_strlit("Ctrl+Caps");
    reveal_strlit("Katakana");
    reveal_strlit("Alt+Caps");
    reveal_strlit("Eisuu");
    let bs = spec_preset_bindings(p);
    assert forall|m: int| function_key_index(p, i) < m < bs.len() implies lacks_char(
        #[trigger] bs[m].0,
        function_key_digit(i),
    ) by {}
}

/// In both built-in presets, F6, F7, F8, F9 and F10 pressed without
/// modifiers resolve to the hiragana, katakana, halfwidth katakana,
/// fullwidth Latin and halfwidth Latin conversions (`Keymap::load` with no
/// file, and `Keymap::default_for_layout`, give this table).
pub proof fn lemma_preset_function_keys(p: KeymapPreset, i: int)
    requires
        p != KeymapPreset::Custom,
        0 <= i < 5,
    ensures
        spec_build_table_ascii(spec_preset_bindings(p)).contains_key(
            key_code((0x75 + i) as u16, false, false, false),
        ),
        spec_build_table_ascii(spec_preset_bindings(p))[key_code((0x75 + i) as u16, false, false, false)]
            == function_key_action(i),
{
    let bs = spec_preset_bindings(p);
    let j = function_key_index(p, i);
    let k = KeySpec { vk: (0x75 + i) as u16, ctrl: false, shift: false, alt: false };
    assert(bs[j] == (function_key_string(i), function_key_action(i)));
    lemma_function_key_parse(i);
    lemma_later_bindings_lack(p, i);
    assert forall|m: int| j < m < bs.len() implies ascii_parse_key(#[trigger] bs[m].0) != Some(k) by {
        lemma_no_function_key(bs[m].0, i);
    }
    lemma_ascii_table_value(bs, k, j);
}

/// The five function keys perform five different conversions.
pub proof fn lemma_function_keys_distinct(i: int, j: int)
    requires
        0 <= i < 5,
        0 <= j < 5,
        i != j,
    ensures
        function_key_action(i) != function_key_action(j),
{
}

// ─── the preset key strings ────────────────────────────────────────────────

/// `Ctrl+Space` reads as its key.
proof fn lemma_parse_ctrl_space()
    ensures
        ascii_parse_key("Ctrl+Space"@) == Some(KeySpec { vk: 0x20u16, ctrl: true, shift: false, alt: false }),
{
    reveal_strlit("Ctrl+Space");
    reveal_strlit("alt");
    reveal_strlit("backspace");
    reveal_strlit("bs");
    reveal_strlit("control");
    reveal_strlit("ctrl");
    reveal_strlit("enter");
    reveal_strlit("esc");
    reveal_strlit("escape");
    reveal_strlit("return");
    reveal_strlit("shift");
    reveal_strlit("space");
    reveal_strlit("tab");
    let s = "Ctrl+Space"@;
    let p0 = s.subrange(0, 4);
    let p1 = s.subrange(5, s.len() as int);
    assert(lacks_char(p0, '+'));
    assert(lacks_char(p1, '+'));
    assert(s =~= p0 + seq!['+'] + p1);
    lemma_split_plus_two(p0, p1);
    assert(split_plus(s) =~= seq![p0, p1]);
    assert(!spec_is_white_space(p0[0]) && !spec_is_white_space(p0.last()));
    assert(trim_start(p0) == p0 && trim_end(p0) == p0);
    assert(p0.map_values(|c: char| ascii_lower(c)) =~= "ctrl"@);
    assert(!spec_is_white_space(p1[0]) && !spec_is_white_space(p1.last()));
    assert(trim_start(p1) == p1 && trim_end(p1) == p1);
    assert(p1.map_values(|c: char| ascii_lower(c)) =~= "space"@);
    let names = ascii_key_names(s);
    assert(names =~= seq!["ctrl"@, "space"@]);
    assert("space"@[0] != "enter"@[0]);
    assert(spec_name_to_vk("space"@) == Some(0x20u16));
    assert("space"@[1] != "shift"@[1]);
    assert(!("space"@ == "ctrl"@ || "space"@ == "control"@) && "space"@ != "shift"@ && "space"@ != "alt"@);
    assert(names.drop_last() =~= seq!["ctrl"@]);
    assert(names.drop_last().drop_last() =~= Seq::<Seq<char>>::empty());
    assert(parse_scan(Seq::<Seq<char>>::empty()) == Some((false, false, false, None::<u16>)));
    assert(names.drop_last().last() == "ctrl"@);
    assert(parse_scan(names.drop_last()) == Some((true, false, false, None::<u16>)));
    assert(names.last() == "space"@);
    assert(parse_scan(names) == Some((true, false, false, Some(0x20u16))));
}

/// `Ctrl+J` reads as its key.
proof fn lemma_parse_ctrl_j()
    ensures
        ascii_parse_key("Ctrl+J"@) == Some(KeySpec { vk: 0x4au16, ctrl: true, shift: false, alt: false }),
{
    reveal_strlit("Ctrl+J");
    reveal_strlit("alt");
    reveal_strlit("control");
    reveal_strlit("ctrl");
    reveal_strlit("j");
    reveal_strlit("shift");
    let s = "Ctrl+J"@;
    let p0 = s.subrange(0, 4);
    let p1 = s.subrange(5, s.len() as int);
    assert(lacks_char(p0, '+'));
    assert(lacks_char(p1, '+'));
    assert(s =~= p0 + seq!['+'] + p1);
    lemma_split_plus_two(p0, p1);
    assert(split_plus(s) =~= seq![p0, p1]);
    assert(!spec_is_white_space(p0[0]) && !spec_is_white_space(p0.last()));
    assert(trim_start(p0) == p0 && trim_end(p0) == p0);
    assert(p0.map_values(|c: char| ascii_lower(c)) =~= "ctrl"@);
    assert(!spec_is_white_space(p1[0]) && !spec_is_white_space(p1.last()));
    assert(trim_start(p1) == p1 && trim_end(p1) == p1);
    assert(p1.map_values(|c: char| ascii_lower(c)) =~= "j"@);
    let names = ascii_key_names(s);
    assert(names =~= seq!["ctrl"@, "j"@]);
    assert(spec_name_to_vk("j"@) == Some(0x4au16));
    assert(!("j"@ == "ctrl"@ || "j"@ == "control"@) && "j"@ != "shift"@ && "j"@ != "alt"@);
    assert(names.drop_last() =~= seq!["ctrl"@]);
    assert(names.drop_last().drop_last() =~= Seq::<Seq<char>>::empty());
    assert(parse_scan(Seq::<Seq<char>>::empty()) == Some((false, false, false, None::<u16>)));
    assert(names.drop_last().last() == "ctrl"@);
    assert(parse_scan(names.drop_last()) == Some((true, false, false, None::<u16>)));
    assert(names.last() == "j"@);
    assert(parse_scan(names) == Some((true, false, false, Some(0x4au16))));
}

/// `Ctrl+K` reads as its key.
proof fn lemma_parse_ctrl_k()
    ensures
        ascii_parse_key("Ctrl+K"@) == Some(KeySpec { vk: 0x4bu16, ctrl: true, shift: false, alt: false }),
{
    reveal_strlit("Ctrl+K");
    reveal_strlit("alt");
    reveal_strlit("control");
    reveal_strlit("ctrl");
    reveal_strlit("k");
    reveal_strlit("shift");
    let s = "Ctrl+K"@;
    let p0 = s.subrange(0, 4);
    let p1 = s.subrange(5, s.len() as int);
    assert(lacks_char(p0, '+'));
    assert(lacks_char(p1, '+'));
    assert(s =~= p0 + seq!['+'] + p1);
    lemma_split_plus_two(p0, p1);
    assert(split_plus(s) =~= seq![p0, p1]);
    assert(!spec_is_white_space(p0[0]) && !spec_is_white_space(p0.last()));
    assert(trim_start(p0) == p0 && trim_end(p0) == p0);
    assert(p0.map_values(|c: char| ascii_lower(c)) =~= "ctrl"@);
    assert(!spec_is_white_space(p1[0]) && !spec_is_white_space(p1.last()));
    assert(trim_start(p1) == p1 && trim_end(p1) == p1);
    assert(p1.map_values(|c: char| ascii_lower(c)) =~= "k"@);
    let names = ascii_key_names(s);
    assert(names =~= seq!["ctrl"@, "k"@]);
    assert(spec_name_to_vk("k"@) == Some(0x4bu16));
    assert(!("k"@ == "ctrl"@ || "k"@ == "control"@) && "k"@ != "shift"@ && "k"@ != "alt"@);
    assert(names.drop_last() =~= seq!["ctrl"@]);
    assert(names.drop_last().drop_last() =~= Seq::<Seq<char>>::empty());
    assert(parse_scan(Seq::<Seq<char>>::empty()) == Some((false, false, false, None::<u16>)));
    assert(names.drop_last().last() == "ctrl"@);
    assert(parse_scan(names.drop_last()) == Some((true, false, false, None::<u16>)));
    assert(names.last() == "k"@);
    assert(parse_scan(names) == Some((true, false, false, Some(0x4bu16))));
}

/// `Ctrl+L` reads as its key.
proof fn lemma_parse_ctrl_l()
    ensures
        ascii_parse_key("Ctrl+L"@) == Some(KeySpec { vk: 0x4cu16, ctrl: true, shift: false, alt: false }),
{
    reveal_strlit("Ctrl+L");
    reveal_strlit("alt");
    reveal_strlit("control");
    reveal_strlit("ctrl");
    reveal_strlit("l");
    reveal_strlit("shift");
    let s = "Ctrl+L"@;
    let p0 = s.subrange(0, 4);
    let p1 = s.subrange(5, s.len() as int);
    assert(lacks_char(p0, '+'));
    assert(lacks_char(p1, '+'));
    assert(s =~= p0 + seq!['+'] + p1);
    lemma_split_plus_two(p0, p1);
    assert(split_plus(s) =~= seq![p0, p1]);
    assert(!spec_is_white_space(p0[0]) && !spec_is_white_space(p0.last()));
    assert(trim_start(p0) == p0 && trim_end(p0) == p0);
    assert(p0.map_values(|c: char| ascii_lower(c)) =~= "ctrl"@);
    assert(!spec_is_white_space(p1[0]) && !spec_is_white_space(p1.last()));
    assert(trim_start(p1) == p1 && trim_end(p1) == p1);
    assert(p1.map_values(|c: char| ascii_lower(c)) =~= "l"@);
    let names = ascii_key_names(s);
    assert(names =~= seq!["ctrl"@, "l"@]);
    assert(spec_name_to_vk("l"@) == Some(0x4cu16));
    assert(!("l"@ == "ctrl"@ || "l"@ == "control"@) && "l"@ != "shift"@ && "l"@ != "alt"@);
    assert(names.drop_last() =~= seq!["ctrl"@]);
    assert(names.drop_last().drop_last() =~= Seq::<Seq<char>>::empty());
    assert(parse_scan(Seq::<Seq<char>>::empty()) == Some((false, false, false, None::<u16>)));
    assert(names.drop_last().last() == "ctrl"@);
    assert(parse_scan(names.drop_last()) == Some((true, false, false, None::<u16>)));
    assert(names.last() == "l"@);
    assert(parse_scan(names) == Some((true, false, false, Some(0x4cu16))));
}

/// `Space` reads as its key.
proof fn lemma_parse_space()
    ensures
        ascii_parse_key("Space"@) == Some(KeySpec { vk: 0x20u16, ctrl: false, shift: false, alt: false }),
{
    reveal_strlit("Space");
    reveal_strlit("alt");
    reveal_strlit("backspace");
    reveal_strlit("bs");
    reveal_strlit("control");
    reveal_strlit("ctrl");
    reveal_strlit("enter");
    reveal_strlit("esc");
    reveal_strlit("escape");
    reveal_strlit("return");
    reveal_strlit("shift");
    reveal_strlit("space");
    reveal_strlit("tab");
    let s = "Space"@;
    assert(lacks_char(s, '+'));
    lemma_split_plus_single(s);
    let p0 = s;
    assert(split_plus(s) =~= seq![p0]);
    assert(!spec_is_white_space(p0[0]) && !spec_is_white_space(p0.last()));
    assert(trim_start(p0) == p0 && trim_end(p0) == p0);
    assert(p0.map_values(|c: char| ascii_lower(c)) =~= "space"@);
    let names = ascii_key_names(s);
    assert(names =~= seq!["space"@]);
    assert("space"@[0] != "enter"@[0]);
    assert(spec_name_to_vk("space"@) == Some(0x20u16));
    assert("space"@[1] != "shift"@[1]);
    assert(!("space"@ == "ctrl"@ || "space"@ == "control"@) && "space"@ != "shift"@ && "space"@ != "alt"@);
    assert(names.drop_last() =~= Seq::<Seq<char>>::empty());
    assert(parse_scan(names.drop_last()) == Some((false, false, false, None::<u16>)));
    assert(names.last() == "space"@);
    assert(parse_scan(names) == Some((false, false, false, Some(0x20u16))));
}

/// `Enter` reads as its key.
proof fn lemma_parse_enter()
    ensures
        ascii_parse_key("Enter"@) == Some(KeySpec { vk: 0xdu16, ctrl: false, shift: false, alt: false }),
{
    reveal_strlit("Enter");
    reveal_strlit("alt");
    reveal_strlit("backspace");
    reveal_strlit("bs");
    reveal_strlit("control");
    reveal_strlit("ctrl");
    reveal_strlit("enter");
    reveal_strlit("shift");
    reveal_strlit("tab");
    let s = "Enter"@;
    assert(lacks_char(s, '+'));
    lemma_split_plus_single(s);
    let p0 = s;
    assert(split_plus(s) =~= seq![p0]);
    assert(!spec_is_white_space(p0[0]) && !spec_is_white_space(p0.last()));
    assert(trim_start(p0) == p0 && trim_end(p0) == p0);
    assert(p0.map_values(|c: char| ascii_lower(c)) =~= "enter"@);
    let names = ascii_key_names(s);
    assert(names =~= seq!["enter"@]);
    assert(spec_name_to_vk("enter"@) == Some(0xdu16));
    assert("enter"@[0] != "shift"@[0]);
    assert(!("enter"@ == "ctrl"@ || "enter"@ == "control"@) && "enter"@ != "shift"@ && "enter"@ != "alt"@);
    assert(names.drop_last() =~= Seq::<Seq<char>>::empty());
    assert(parse_scan(names.drop_last()) == Some((false, false, false, None::<u16>)));
    assert(names.last() == "enter"@);
    assert(parse_scan(names) == Some((false, false, false, Some(0xdu16))));
}

/// `Escape` reads as its key.
proof fn lemma_parse_escape()
    ensures
        ascii_parse_key("Escape"@) == Some(KeySpec { vk: 0x1bu16, ctrl: false, shift: false, alt: false }),
{
    reveal_strlit("Escape");
    reveal_strlit("alt");
    reveal_strlit("backspace");
    reveal_strlit("bs");
    reveal_strlit("control");
    reveal_strlit("ctrl");
    reveal_strlit("enter");
    reveal_strlit("escape");
    reveal_strlit("return");
    reveal_strlit("shift");
    reveal_strlit("tab");
    let s = "Escape"@;
    assert(lacks_char(s, '+'));
    lemma_split_plus_single(s);
    let p0 = s;
    assert(split_plus(s) =~= seq![p0]);
    assert(!spec_is_white_space(p0[0]) && !spec_is_white_space(p0.last()));
    assert(trim_start(p0) == p0 && trim_end(p0) == p0);
    assert(p0.map_values(|c: char| ascii_lower(c)) =~= "escape"@);
    let names = ascii_key_names(s);
    assert(names =~= seq!["escape"@]);
    assert("escape"@[0] != "return"@[0]);
    assert(spec_name_to_vk("escape"@) == Some(0x1bu16));
    assert(!("escape"@ == "ctrl"@ || "escape"@ == "control"@) && "escape"@ != "shift"@ && "escape"@ != "alt"@);
    assert(names.drop_last() =~= Seq::<Seq<char>>::empty());
    assert(parse_scan(names.drop_last()) == Some((false, false, false, None::<u16>)));
    assert(names.last() == "escape"@);
    assert(parse_scan(names) == Some((false, false, false, Some(0x1bu16))));
}

/// `Ctrl+Backspace` reads as its key.
proof fn lemma_parse_ctrl_backspace()
    ensures
        ascii_parse_key("Ctrl+Backspace"@) == Some(KeySpec { vk: 0x8u16, ctrl: true, shift: false, alt: false }),
{
    reveal_strlit("Ctrl+Backspace");
    reveal_strlit("alt");
    reveal_strlit("backspace");
    reveal_strlit("control");
    reveal_strlit("ctrl");
    reveal_strlit("shift");
    let s = "Ctrl+Backspace"@;
    let p0 = s.subrange(0, 4);
    let p1 = s.subrange(5, s.len() as int);
    assert(lacks_char(p0, '+'));
    assert(lacks_char(p1, '+'));
    assert(s =~= p0 + seq!['+'] + p1);
    lemma_split_plus_two(p0, p1);
    assert(split_plus(s) =~= seq![p0, p1]);
    assert(!spec_is_white_space(p0[0]) && !spec_is_white_space(p0.last()));
    assert(trim_start(p0) == p0 && trim_end(p0) == p0);
    assert(p0.map_values(|c: char| ascii_lower(c)) =~= "ctrl"@);
    assert(!spec_is_white_space(p1[0]) && !spec_is_white_space(p1.last()));
    assert(trim_start(p1) == p1 && trim_end(p1) == p1);
    assert(p1.map_values(|c: char| ascii_lower(c)) =~= "backspace"@);
    let names = ascii_key_names(s);
    assert(names =~= seq!["ctrl"@, "backspace"@]);
    assert(spec_name_to_vk("backspace"@) == Some(0x8u16));
    assert(!("backspace"@ == "ctrl"@ || "backspace"@ == "control"@) && "backspace"@ != "shift"@ && "backspace"@ != "alt"@);
    assert(names.drop_last() =~= seq!["ctrl"@]);
    assert(names.drop_last().drop_last() =~= Seq::<Seq<char>>::empty());
    assert(parse_scan(Seq::<Seq<char>>::empty()) == Some((false, false, false, None::<u16>)));
    assert(names.drop_last().last() == "ctrl"@);
    assert(parse_scan(names.drop_last()) == Some((true, false, false, None::<u16>)));
    assert(names.last() == "backspace"@);
    assert(parse_scan(names) == Some((true, false, false, Some(0x8u16))));
}

/// `Backspace` reads as its key.
proof fn lemma_parse_backspace()
    ensures
        ascii_parse_key("Backspace"@) == Some(KeySpec { vk: 0x8u16, ctrl: false, shift: false, alt: false }),
{
    reveal_strlit("Backspace");
    reveal_strlit("alt");
    reveal_strlit("backspace");
    reveal_strlit("control");
    reveal_strlit("ctrl");
    reveal_strlit("shift");
    let s = "Backspace"@;
    assert(lacks_char(s, '+'));
    lemma_split_plus_single(s);
    let p0 = s;
    assert(split_plus(s) =~= seq![p0]);
    assert(!spec_is_white_space(p0[0]) && !spec_is_white_space(p0.last()));
    assert(trim_start(p0) == p0 && trim_end(p0) == p0);
    assert(p0.map_values(|c: char| ascii_lower(c)) =~= "backspace"@);
    let names = ascii_key_names(s);
    assert(names =~= seq!["backspace"@]);
    assert(spec_name_to_vk("backspace"@) == Some(0x8u16));
    assert(!("backspace"@ == "ctrl"@ || "backspace"@ == "control"@) && "backspace"@ != "shift"@ && "backspace"@ != "alt"@);
    assert(names.drop_last() =~= Seq::<Seq<char>>::empty());
    assert(parse_scan(names.drop_last()) == Some((false, false, false, None::<u16>)));
    assert(names.last() == "backspace"@);
    assert(parse_scan(names) == Some((false, false, false, Some(0x8u16))));
}

/// `F6` reads as its key.
proof fn lemma_parse_f6()
    ensures
        ascii_parse_key("F6"@) == Some(KeySpec { vk: 0x75u16, ctrl: false, shift: false, alt: false }),
{
    reveal_strlit("F6");
    reveal_strlit("alt");
    reveal_strlit("backquote");
    reveal_strlit("backslash");
    reveal_strlit("backspace");
    reveal_strlit("bs");
    reveal_strlit("comma");
    reveal_strlit("control");
    reveal_strlit("ctrl");
    reveal_strlit("del");
    reveal_strlit("delete");
    reveal_strlit("down");
    reveal_strlit("end");
    reveal_strlit("enter");
    reveal_strlit("equal");
    reveal_strlit("esc");
    reveal_strlit("escape");
    reveal_strlit("f1");
    reveal_strlit("f2");
    reveal_strlit("f3");
    reveal_strlit("f4");
    reveal_strlit("f5");
    reveal_strlit("f6");
    reveal_strlit("grave");
    reveal_strlit("home");
    reveal_strlit("left");
    reveal_strlit("leftbracket");
    reveal_strlit("minus");
    reveal_strlit("pagedown");
    reveal_strlit("pageup");
    reveal_strlit("period");
    reveal_strlit("pgdn");
    reveal_strlit("pgup");
    reveal_strlit("quote");
    reveal_strlit("return");
    reveal_strlit("right");
    reveal_strlit("rightbracket");
    reveal_strlit("semicolon");
    reveal_strlit("shift");
    reveal_strlit("slash");
    reveal_strlit("space");
    reveal_strlit("tab");
    reveal_strlit("up");
    let s = "F6"@;
    assert(lacks_char(s, '+'));
    lemma_split_plus_single(s);
    let p0 = s;
    assert(split_plus(s) =~= seq![p0]);
    assert(!spec_is_white_space(p0[0]) && !spec_is_white_space(p0.last()));
    assert(trim_start(p0) == p0 && trim_end(p0) == p0);
    assert(p0.map_values(|c: char| ascii_lower(c)) =~= "f6"@);
    let names = ascii_key_names(s);
    assert(names =~= seq!["f6"@]);
    assert("f6"@[0] != "bs"@[0]);
    assert("f6"@[0] != "up"@[0]);
    assert("f6"@[1] != "f1"@[1]);
    assert("f6"@[1] != "f2"@[1]);
    assert("f6"@[1] != "f3"@[1]);
    assert("f6"@[1] != "f4"@[1]);
    assert("f6"@[1] != "f5"@[1]);
    assert(spec_name_to_vk("f6"@) == Some(0x75u16));
    assert(!("f6"@ == "ctrl"@ || "f6"@ == "control"@) && "f6"@ != "shift"@ && "f6"@ != "alt"@);
    assert(names.drop_last() =~= Seq::<Seq<char>>::empty());
    assert(parse_scan(names.drop_last()) == Some((false, false, false, None::<u16>)));
    assert(names.last() == "f6"@);
    assert(parse_scan(names) == Some((false, false, false, Some(0x75u16))));
}

/// `F7` reads as its key.
proof fn lemma_parse_f7()
    ensures
        ascii_parse_key("F7"@) == Some(KeySpec { vk: 0x76u16, ctrl: false, shift: false, alt: false }),
{
    reveal_strlit("F7");
    reveal_strlit("alt");
    reveal_strlit("backquote");
    reveal_strlit("backslash");
    reveal_strlit("backspace");
    reveal_strlit("bs");
    reveal_strlit("comma");
    reveal_strlit("control");
    reveal_strlit("ctrl");
    reveal_strlit("del");
    reveal_strlit("delete");
    reveal_strlit("down");
    reveal_strlit("end");
    reveal_strlit("enter");
    reveal_strlit("equal");
    reveal_strlit("esc");
    reveal_strlit("escape");
    reveal_strlit("f1");
    reveal_strlit("f2");
    reveal_strlit("f3");
    reveal_strlit("f4");
    reveal_strlit("f5");
    reveal_strlit("f6");
    reveal_strlit("f7");
    reveal_strlit("grave");
    reveal_strlit("home");
    reveal_strlit("left");
    reveal_strlit("leftbracket");
    reveal_strlit("minus");
    reveal_strlit("pagedown");
    reveal_strlit("pageup");
    reveal_strlit("period");
    reveal_strlit("pgdn");
    reveal_strlit("pgup");
    reveal_strlit("quote");
    reveal_strlit("return");
    reveal_strlit("right");
    reveal_strlit("rightbracket");
    reveal_strlit("semicolon");
    reveal_strlit("shift");
    reveal_strlit("slash");
    reveal_strlit("space");
    reveal_strlit("tab");
    reveal_strlit("up");
    let s = "F7"@;
    assert(lacks_char(s, '+'));
    lemma_split_plus_single(s);
    let p0 = s;
    assert(split_plus(s) =~= seq![p0]);
    assert(!spec_is_white_space(p0[0]) && !spec_is_white_space(p0.last()));
    assert(trim_start(p0) == p0 && trim_end(p0) == p0);
    assert(p0.map_values(|c: char| ascii_lower(c)) =~= "f7"@);
    let names = ascii_key_names(s);
    assert(names =~= seq!["f7"@]);
    assert("f7"@[0] != "bs"@[0]);
    assert("f7"@[0] != "up"@[0]);
    assert("f7"@[1] != "f1"@[1]);
    assert("f7"@[1] != "f2"@[1]);
    assert("f7"@[1] != "f3"@[1]);
    assert("f7"@[1] != "f4"@[1]);
    assert("f7"@[1] != "f5"@[1]);
    assert("f7"@[1] != "f6"@[1]);
    assert(spec_name_to_vk("f7"@) == Some(0x76u16));
    assert(!("f7"@ == "ctrl"@ || "f7"@ == "control"@) && "f7"@ != "shift"@ && "f7"@ != "alt"@);
    assert(names.drop_last() =~= Seq::<Seq<char>>::empty());
    assert(parse_scan(names.drop_last()) == Some((false, false, false, None::<u16>)));
    assert(names.last() == "f7"@);
    assert(parse_scan(names) == Some((false, false, false, Some(0x76u16))));
}

/// `F8` reads as its key.
proof fn lemma_parse_f8()
    ensures
        ascii_parse_key("F8"@) == Some(KeySpec { vk: 0x77u16, ctrl: false, shift: false, alt: false }),
{
    reveal_strlit("F8");
    reveal_strlit("alt");
    reveal_strlit("backquote");
    reveal_strlit("backslash");
    reveal_strlit("backspace");
    reveal_strlit("bs");
    reveal_strlit("comma");
    reveal_strlit("control");
    reveal_strlit("ctrl");
    reveal_strlit("del");
    reveal_strlit("delete");
    reveal_strlit("down");
    reveal_strlit("end");
    reveal_strlit("enter");
    reveal_strlit("equal");
    reveal_strlit("esc");
    reveal_strlit("escape");
    reveal_strlit("f1");
    reveal_strlit("f2");
    reveal_strlit("f3");
    reveal_strlit("f4");
    reveal_strlit("f5");
    reveal_strlit("f6");
    reveal_strlit("f7");
    reveal_strlit("f8");
    reveal_strlit("grave");
    reveal_strlit("home");
    reveal_strlit("left");
    reveal_strlit("leftbracket");
    reveal_strlit("minus");
    reveal_strlit("pagedown");
    reveal_strlit("pageup");
    reveal_strlit("period");
    reveal_strlit("pgdn");
    reveal_strlit("pgup");
    reveal_strlit("quote");
    reveal_strlit("return");
    reveal_strlit("right");
    reveal_strlit("rightbracket");
    reveal_strlit("semicolon");
    reveal_strlit("shift");
    reveal_strlit("slash");
    reveal_strlit("space");
    reveal_strlit("tab");
    reveal_strlit("up");
    let s = "F8"@;
    assert(lacks_char(s, '+'));
    lemma_split_plus_single(s);
    let p0 = s;
    assert(split_plus(s) =~= seq![p0]);
    assert(!spec_is_white_space(p0[0]) && !spec_is_white_space(p0.last()));
    assert(trim_start(p0) == p0 && trim_end(p0) == p0);
    assert(p0.map_values(|c: char| ascii_lower(c)) =~= "f8"@);
    let names = ascii_key_names(s);
    assert(names =~= seq!["f8"@]);
    assert("f8"@[0] != "bs"@[0]);
    assert("f8"@[0] != "up"@[0]);
    assert("f8"@[1] != "f1"@[1]);
    assert("f8"@[1] != "f2"@[1]);
    assert("f8"@[1] != "f3"@[1]);
    assert("f8"@[1] != "f4"@[1]);
    assert("f8"@[1] != "f5"@[1]);
    assert("f8"@[1] != "f6"@[1]);
    assert("f8"@[1] != "f7"@[1]);
    assert(spec_name_to_vk("f8"@) == Some(0x77u16));
    assert(!("f8"@ == "ctrl"@ || "f8"@ == "control"@) && "f8"@ != "shift"@ && "f8"@ != "alt"@);
    assert(names.drop_last() =~= Seq::<Seq<char>>::empty());
    assert(parse_scan(names.drop_last()) == Some((false, false, false, None::<u16>)));
    assert(names.last() == "f8"@);
    assert(parse_scan(names) == Some((false, false, false, Some(0x77u16))));
}

/// `F9` reads as its key.
proof fn lemma_parse_f9()
    ensures
        ascii_parse_key("F9"@) == Some(KeySpec { vk: 0x78u16, ctrl: false, shift: false, alt: false }),
{
    reveal_strlit("F9");
    reveal_strlit("alt");
    reveal_strlit("backquote");
    reveal_strlit("backslash");
    reveal_strlit("backspace");
    reveal_strlit("bs");
    reveal_strlit("comma");
    reveal_strlit("control");
    reveal_strlit("ctrl");
    reveal_strlit("del");
    reveal_strlit("delete");
    reveal_strlit("down");
    reveal_strlit("end");
    reveal_strlit("enter");
    reveal_strlit("equal");
    reveal_strlit("esc");
    reveal_strlit("escape");
    reveal_strlit("f1");
    reveal_strlit("f2");
    reveal_strlit("f3");
    reveal_strlit("f4");
    reveal_strlit("f5");
    reveal_strlit("f6");
    reveal_strlit("f7");
    reveal_strlit("f8");
    reveal_strlit("f9");
    reveal_strlit("grave");
    reveal_strlit("home");
    reveal_strlit("left");
    reveal_strlit("leftbracket");
    reveal_strlit("minus");
    reveal_strlit("pagedown");
    reveal_strlit("pageup");
    reveal_strlit("period");
    reveal_strlit("pgdn");
    reveal_strlit("pgup");
    reveal_strlit("quote");
    reveal_strlit("return");
    reveal_strlit("right");
    reveal_strlit("rightbracket");
    reveal_strlit("semicolon");
    reveal_strlit("shift");
    reveal_strlit("slash");
    reveal_strlit("space");
    reveal_strlit("tab");
    reveal_strlit("up");
    let s = "F9"@;
    assert(lacks_char(s, '+'));
    lemma_split_plus_single(s);
    let p0 = s;
    assert(split_plus(s) =~= seq![p0]);
    assert(!spec_is_white_space(p0[0]) && !spec_is_white_space(p0.last()));
    assert(trim_start(p0) == p0 && trim_end(p0) == p0);
    assert(p0.map_values(|c: char| ascii_lower(c)) =~= "f9"@);
    let names = ascii_key_names(s);
    assert(names =~= seq!["f9"@]);
    assert("f9"@[0] != "bs"@[0]);
    assert("f9"@[0] != "up"@[0]);
    assert("f9"@[1] != "f1"@[1]);
    assert("f9"@[1] != "f2"@[1]);
    assert("f9"@[1] != "f3"@[1]);
    assert("f9"@[1] != "f4"@[1]);
    assert("f9"@[1] != "f5"@[1]);
    assert("f9"@[1] != "f6"@[1]);
    assert("f9"@[1] != "f7"@[1]);
    assert("f9"@[1] != "f8"@[1]);
    assert(spec_name_to_vk("f9"@) == Some(0x78u16));
    assert(!("f9"@ == "ctrl"@ || "f9"@ == "control"@) && "f9"@ != "shift"@ && "f9"@ != "alt"@);
    assert(names.drop_last() =~= Seq::<Seq<char>>::empty());
    assert(parse_scan(names.drop_last()) == Some((false, false, false, None::<u16>)));
    assert(names.last() == "f9"@);
    assert(parse_scan(names) == Some((false, false, false, Some(0x78u16))));
}

/// `F10` reads as its key.
proof fn lemma_parse_f10()
    ensures
        ascii_parse_key("F10"@) == Some(KeySpec { vk: 0x79u16, ctrl: false, shift: false, alt: false }),
{
    reveal_strlit("F10");
    reveal_strlit("alt");
    reveal_strlit("backquote");
    reveal_strlit("backslash");
    reveal_strlit("backspace");
    reveal_strlit("bs");
    reveal_strlit("comma");
    reveal_strlit("control");
    reveal_strlit("ctrl");
    reveal_strlit("del");
    reveal_strlit("delete");
    reveal_strlit("down");
    reveal_strlit("end");
    reveal_strlit("enter");
    reveal_strlit("equal");
    reveal_strlit("esc");
    reveal_strlit("escape");
    reveal_strlit("f1");
    reveal_strlit("f10");
    reveal_strlit("f2");
    reveal_strlit("f3");
    reveal_strlit("f4");
    reveal_strlit("f5");
    reveal_strlit("f6");
    reveal_strlit("f7");
    reveal_strlit("f8");
    reveal_strlit("f9");
    reveal_strlit("grave");
    reveal_strlit("home");
    reveal_strlit("left");
    reveal_strlit("leftbracket");
    reveal_strlit("minus");
    reveal_strlit("pagedown");
    reveal_strlit("pageup");
    reveal_strlit("period");
    reveal_strlit("pgdn");
    reveal_strlit("pgup");
    reveal_strlit("quote");
    reveal_strlit("return");
    reveal_strlit("right");
    reveal_strlit("rightbracket");
    reveal_strlit("semicolon");
    reveal_strlit("shift");
    reveal_strlit("slash");
    reveal_strlit("space");
    reveal_strlit("tab");
    reveal_strlit("up");
    let s = "F10"@;
    assert(lacks_char(s, '+'));
    lemma_split_plus_single(s);
    let p0 = s;
    assert(split_plus(s) =~= seq![p0]);
    assert(!spec_is_white_space(p0[0]) && !spec_is_white_space(p0.last()));
    assert(trim_start(p0) == p0 && trim_end(p0) == p0);
    assert(p0.map_values(|c: char| ascii_lower(c)) =~= "f10"@);
    let names = ascii_key_names(s);
    assert(names =~= seq!["f10"@]);
    assert("f10"@[0] != "tab"@[0]);
    assert("f10"@[0] != "esc"@[0]);
    assert("f10"@[0] != "end"@[0]);
    assert("f10"@[0] != "del"@[0]);
    assert(spec_name_to_vk("f10"@) == Some(0x79u16));
    assert("f10"@[0] != "alt"@[0]);
    assert(!("f10"@ == "ctrl"@ || "f10"@ == "control"@) && "f10"@ != "shift"@ && "f10"@ != "alt"@);
    assert(names.drop_last() =~= Seq::<Seq<char>>::empty());
    assert(parse_scan(names.drop_last()) == Some((false, false, false, None::<u16>)));
    assert(names.last() == "f10"@);
    assert(parse_scan(names) == Some((false, false, false, Some(0x79u16))));
}

/// `Shift+Space` reads as its key.
proof fn lemma_parse_shift_space()
    ensures
        ascii_parse_key("Shift+Space"@) == Some(KeySpec { vk: 0x20u16, ctrl: false, shift: true, alt: false }),
{
    reveal_strlit("Shift+Space");
    reveal_strlit("alt");
    reveal_strlit("backspace");
    reveal_strlit("bs");
    reveal_strlit("control");
    reveal_strlit("ctrl");
    reveal_strlit("enter");
    reveal_strlit("esc");
    reveal_strlit("escape");
    reveal_strlit("return");
    reveal_strlit("shift");
    reveal_strlit("space");
    reveal_strlit("tab");
    let s = "Shift+Space"@;
    let p0 = s.subrange(0, 5);
    let p1 = s.subrange(6, s.len() as int);
    assert(lacks_char(p0, '+'));
    assert(lacks_char(p1, '+'));
    assert(s =~= p0 + seq!['+'] + p1);
    lemma_split_plus_two(p0, p1);
    assert(split_plus(s) =~= seq![p0, p1]);
    assert(!spec_is_white_space(p0[0]) && !spec_is_white_space(p0.last()));
    assert(trim_start(p0) == p0 && trim_end(p0) == p0);
    assert(p0.map_values(|c: char| ascii_lower(c)) =~= "shift"@);
    assert(!spec_is_white_space(p1[0]) && !spec_is_white_space(p1.last()));
    assert(trim_start(p1) == p1 && trim_end(p1) == p1);
    assert(p1.map_values(|c: char| ascii_lower(c)) =~= "space"@);
    let names = ascii_key_names(s);
    assert(names =~= seq!["shift"@, "space"@]);
    assert("space"@[0] != "enter"@[0]);
    assert(spec_name_to_vk("space"@) == Some(0x20u16));
    assert("space"@[1] != "shift"@[1]);
    assert(!("space"@ == "ctrl"@ || "space"@ == "control"@) && "space"@ != "shift"@ && "space"@ != "alt"@);
    assert(names.drop_last() =~= seq!["shift"@]);
    assert(names.drop_last().drop_last() =~= Seq::<Seq<char>>::empty());
    assert(parse_scan(Seq::<Seq<char>>::empty()) == Some((false, false, false, None::<u16>)));
    assert(names.drop_last().last() == "shift"@);
    assert(parse_scan(names.drop_last()) == Some((false, true, false, None::<u16>)));
    assert(names.last() == "space"@);
    assert(parse_scan(names) == Some((false, true, false, Some(0x20u16))));
}

/// `Down` reads as its key.
proof fn lemma_parse_down()
    ensures
        ascii_parse_key("Down"@) == Some(KeySpec { vk: 0x28u16, ctrl: false, shift: false, alt: false }),
{
    reveal_strlit("Down");
    reveal_strlit("alt");
    reveal_strlit("backquote");
    reveal_strlit("backslash");
    reveal_strlit("backspace");
    reveal_strlit("bs");
    reveal_strlit("comma");
    reveal_strlit("control");
    reveal_strlit("ctrl");
    reveal_strlit("down");
    reveal_strlit("end");
    reveal_strlit("enter");
    reveal_strlit("equal");
    reveal_strlit("esc");
    reveal_strlit("escape");
    reveal_strlit("grave");
    reveal_strlit("home");
    reveal_strlit("left");
    reveal_strlit("leftbracket");
    reveal_strlit("minus");
    reveal_strlit("pagedown");
    reveal_strlit("pageup");
    reveal_strlit("period");
    reveal_strlit("pgdn");
    reveal_strlit("pgup");
    reveal_strlit("quote");
    reveal_strlit("return");
    reveal_strlit("right");
    reveal_strlit("rightbracket");
    reveal_strlit("semicolon");
    reveal_strlit("shift");
    reveal_strlit("slash");
    reveal_strlit("space");
    reveal_strlit("tab");
    reveal_strlit("up");
    let s = "Down"@;
    assert(lacks_char(s, '+'));
    lemma_split_plus_single(s);
    let p0 = s;
    assert(split_plus(s) =~= seq![p0]);
    assert(!spec_is_white_space(p0[0]) && !spec_is_white_space(p0.last()));
    assert(trim_start(p0) == p0 && trim_end(p0) == p0);
    assert(p0.map_values(|c: char| ascii_lower(c)) =~= "down"@);
    let names = ascii_key_names(s);
    assert(names =~= seq!["down"@]);
    assert("down"@[0] != "pgup"@[0]);
    assert("down"@[0] != "pgdn"@[0]);
    assert("down"@[0] != "home"@[0]);
    assert("down"@[0] != "left"@[0]);
    assert(spec_name_to_vk("down"@) == Some(0x28u16));
    assert("down"@[0] != "ctrl"@[0]);
    assert(!("down"@ == "ctrl"@ || "down"@ == "control"@) && "down"@ != "shift"@ && "down"@ != "alt"@);
    assert(names.drop_last() =~= Seq::<Seq<char>>::empty());
    assert(parse_scan(names.drop_last()) == Some((false, false, false, None::<u16>)));
    assert(names.last() == "down"@);
    assert(parse_scan(names) == Some((false, false, false, Some(0x28u16))));
}

/// `Up` reads as its key.
proof fn lemma_parse_up()
    ensures
        ascii_parse_key("Up"@) == Some(KeySpec { vk: 0x26u16, ctrl: false, shift: false, alt: false }),
{
    reveal_strlit("Up");
    reveal_strlit("alt");
    reveal_strlit("backquote");
    reveal_strlit("backslash");
    reveal_strlit("backspace");
    reveal_strlit("bs");
    reveal_strlit("comma");
    reveal_strlit("control");
    reveal_strlit("ctrl");
    reveal_strlit("end");
    reveal_strlit("enter");
    reveal_strlit("equal");
    reveal_strlit("esc");
    reveal_strlit("escape");
    reveal_strlit("grave");
    reveal_strlit("home");
    reveal_strlit("left");
    reveal_strlit("leftbracket");
    reveal_strlit("minus");
    reveal_strlit("pagedown");
    reveal_strlit("pageup");
    reveal_strlit("period");
    reveal_strlit("pgdn");
    reveal_strlit("pgup");
    reveal_strlit("quote");
    reveal_strlit("return");
    reveal_strlit("rightbracket");
    reveal_strlit("semicolon");
    reveal_strlit("shift");
    reveal_strlit("slash");
    reveal_strlit("space");
    reveal_strlit("tab");
    reveal_strlit("up");
    let s = "Up"@;
    assert(lacks_char(s, '+'));
    lemma_split_plus_single(s);
    let p0 = s;
    assert(split_plus(s) =~= seq![p0]);
    assert(!spec_is_white_space(p0[0]) && !spec_is_white_space(p0.last()));
    assert(trim_start(p0) == p0 && trim_end(p0) == p0);
    assert(p0.map_values(|c: char| ascii_lower(c)) =~= "up"@);
    let names = ascii_key_names(s);
    assert(names =~= seq!["up"@]);
    assert("up"@[0] != "bs"@[0]);
    assert(spec_name_to_vk("up"@) == Some(0x26u16));
    assert(!("up"@ == "ctrl"@ || "up"@ == "control"@) && "up"@ != "shift"@ && "up"@ != "alt"@);
    assert(names.drop_last() =~= Seq::<Seq<char>>::empty());
    assert(parse_scan(names.drop_last()) == Some((false, false, false, None::<u16>)));
    assert(names.last() == "up"@);
    assert(parse_scan(names) == Some((false, false, false, Some(0x26u16))));
}

/// `Tab` reads as its key.
proof fn lemma_parse_tab()
    ensures
        ascii_parse_key("Tab"@) == Some(KeySpec { vk: 0x9u16, ctrl: false, shift: false, alt: false }),
{
    reveal_strlit("Tab");
    reveal_strlit("alt");
    reveal_strlit("backspace");
    reveal_strlit("bs");
    reveal_strlit("control");
    reveal_strlit("ctrl");
    reveal_strlit("shift");
    reveal_strlit("tab");
    let s = "Tab"@;
    assert(lacks_char(s, '+'));
    lemma_split_plus_single(s);
    let p0 = s;
    assert(split_plus(s) =~= seq![p0]);
    assert(!spec_is_white_space(p0[0]) && !spec_is_white_space(p0.last()));
    assert(trim_start(p0) == p0 && trim_end(p0) == p0);
    assert(p0.map_values(|c: char| ascii_lower(c)) =~= "tab"@);
    let names = ascii_key_names(s);
    assert(names =~= seq!["tab"@]);
    assert(spec_name_to_vk("tab"@) == Some(0x9u16));
    assert("tab"@[0] != "alt"@[0]);
    assert(!("tab"@ == "ctrl"@ || "tab"@ == "control"@) && "tab"@ != "shift"@ && "tab"@ != "alt"@);
    assert(names.drop_last() =~= Seq::<Seq<char>>::empty());
    assert(parse_scan(names.drop_last()) == Some((false, false, false, None::<u16>)));
    assert(names.last() == "tab"@);
    assert(parse_scan(names) == Some((false, false, false, Some(0x9u16))));
}

/// `Shift+Tab` reads as its key.
proof fn lemma_parse_shift_tab()
    ensures
        ascii_parse_key("Shift+Tab"@) == Some(KeySpec { vk: 0x9u16, ctrl: false, shift: true, alt: false }),
{
    reveal_strlit("Shift+Tab");
    reveal_strlit("alt");
    reveal_strlit("backspace");
    reveal_strlit("bs");
    reveal_strlit("control");
    reveal_strlit("ctrl");
    reveal_strlit("shift");
    reveal_strlit("tab");
    let s = "Shift+Tab"@;
    let p0 = s.subrange(0, 5);
    let p1 = s.subrange(6, s.len() as int);
    assert(lacks_char(p0, '+'));
    assert(lacks_char(p1, '+'));
    assert(s =~= p0 + seq!['+'] + p1);
    lemma_split_plus_two(p0, p1);
    assert(split_plus(s) =~= seq![p0, p1]);
    assert(!spec_is_white_space(p0[0]) && !spec_is_white_space(p0.last()));
    assert(trim_start(p0) == p0 && trim_end(p0) == p0);
    assert(p0.map_values(|c: char| ascii_lower(c)) =~= "shift"@);
    assert(!spec_is_white_space(p1[0]) && !spec_is_white_space(p1.last()));
    assert(trim_start(p1) == p1 && trim_end(p1) == p1);
    assert(p1.map_values(|c: char| ascii_lower(c)) =~= "tab"@);
    let names = ascii_key_names(s);
    assert(names =~= seq!["shift"@, "tab"@]);
    assert(spec_name_to_vk("tab"@) == Some(0x9u16));
    assert("tab"@[0] != "alt"@[0]);
    assert(!("tab"@ == "ctrl"@ || "tab"@ == "control"@) && "tab"@ != "shift"@ && "tab"@ != "alt"@);
    assert(names.drop_last() =~= seq!["shift"@]);
    assert(names.drop_last().drop_last() =~= Seq::<Seq<char>>::empty());
    assert(parse_scan(Seq::<Seq<char>>::empty()) == Some((false, false, false, None::<u16>)));
    assert(names.drop_last().last() == "shift"@);
    assert(parse_scan(names.drop_last()) == Some((false, true, false, None::<u16>)));
    assert(names.last() == "tab"@);
    assert(parse_scan(names) == Some((false, true, false, Some(0x9u16))));
}

/// `PageDown` reads as its key.
proof fn lemma_parse_pagedown()
    ensures
        ascii_parse_key("PageDown"@) == Some(KeySpec { vk: 0x22u16, ctrl: false, shift: false, alt: false }),
{
    reveal_strlit("PageDown");
    reveal_strlit("alt");
    reveal_strlit("backquote");
    reveal_strlit("backslash");
    reveal_strlit("backspace");
    reveal_strlit("bs");
    reveal_strlit("comma");
    reveal_strlit("control");
    reveal_strlit("ctrl");
    reveal_strlit("enter");
    reveal_strlit("equal");
    reveal_strlit("esc");
    reveal_strlit("escape");
    reveal_strlit("grave");
    reveal_strlit("leftbracket");
    reveal_strlit("minus");
    reveal_strlit("pagedown");
    reveal_strlit("pageup");
    reveal_strlit("period");
    reveal_strlit("pgup");
    reveal_strlit("quote");
    reveal_strlit("return");
    reveal_strlit("rightbracket");
    reveal_strlit("semicolon");
    reveal_strlit("shift");
    reveal_strlit("slash");
    reveal_strlit("space");
    reveal_strlit("tab");
    let s = "PageDown"@;
    assert(lacks_char(s, '+'));
    lemma_split_plus_single(s);
    let p0 = s;
    assert(split_plus(s) =~= seq![p0]);
    assert(!spec_is_white_space(p0[0]) && !spec_is_white_space(p0.last()));
    assert(trim_start(p0) == p0 && trim_end(p0) == p0);
    assert(p0.map_values(|c: char| ascii_lower(c)) =~= "pagedown"@);
    let names = ascii_key_names(s);
    assert(names =~= seq!["pagedown"@]);
    assert(spec_name_to_vk("pagedown"@) == Some(0x22u16));
    assert(!("pagedown"@ == "ctrl"@ || "pagedown"@ == "control"@) && "pagedown"@ != "shift"@ && "pagedown"@ != "alt"@);
    assert(names.drop_last() =~= Seq::<Seq<char>>::empty());
    assert(parse_scan(names.drop_last()) == Some((false, false, false, None::<u16>)));
    assert(names.last() == "pagedown"@);
    assert(parse_scan(names) == Some((false, false, false, Some(0x22u16))));
}

/// `PageUp` reads as its key.
proof fn lemma_parse_pageup()
    ensures
        ascii_parse_key("PageUp"@) == Some(KeySpec { vk: 0x21u16, ctrl: false, shift: false, alt: false }),
{
    reveal_strlit("PageUp");
    reveal_strlit("alt");
    reveal_strlit("backquote");
    reveal_strlit("backslash");
    reveal_strlit("backspace");
    reveal_strlit("bs");
    reveal_strlit("comma");
    reveal_strlit("control");
    reveal_strlit("ctrl");
    reveal_strlit("enter");
    reveal_strlit("equal");
    reveal_strlit("esc");
    reveal_strlit("escape");
    reveal_strlit("grave");
    reveal_strlit("leftbracket");
    reveal_strlit("minus");
    reveal_strlit("pageup");
    reveal_strlit("period");
    reveal_strlit("quote");
    reveal_strlit("return");
    reveal_strlit("rightbracket");
    reveal_strlit("semicolon");
    reveal_strlit("shift");
    reveal_strlit("slash");
    reveal_strlit("space");
    reveal_strlit("tab");
    let s = "PageUp"@;
    assert(lacks_char(s, '+'));
    lemma_split_plus_single(s);
    let p0 = s;
    assert(split_plus(s) =~= seq![p0]);
    assert(!spec_is_white_space(p0[0]) && !spec_is_white_space(p0.last()));
    assert(trim_start(p0) == p0 && trim_end(p0) == p0);
    assert(p0.map_values(|c: char| ascii_lower(c)) =~= "pageup"@);
    let names = ascii_key_names(s);
    assert(names =~= seq!["pageup"@]);
    assert("pageup"@[0] != "return"@[0]);
    assert("pageup"@[0] != "escape"@[0]);
    assert("pageup"@[1] != "period"@[1]);
    assert(spec_name_to_vk("pageup"@) == Some(0x21u16));
    assert(!("pageup"@ == "ctrl"@ || "pageup"@ == "control"@) && "pageup"@ != "shift"@ && "pageup"@ != "alt"@);
    assert(names.drop_last() =~= Seq::<Seq<char>>::empty());
    assert(parse_scan(names.drop_last()) == Some((false, false, false, None::<u16>)));
    assert(names.last() == "pageup"@);
    assert(parse_scan(names) == Some((false, false, false, Some(0x21u16))));
}

/// `Left` reads as its key.
proof fn lemma_parse_left()
    ensures
        ascii_parse_key("Left"@) == Some(KeySpec { vk: 0x25u16, ctrl: false, shift: false, alt: false }),
{
    reveal_strlit("Left");
    reveal_strlit("alt");
    reveal_strlit("backquote");
    reveal_strlit("backslash");
    reveal_strlit("backspace");
    reveal_strlit("bs");
    reveal_strlit("comma");
    reveal_strlit("control");
    reveal_strlit("ctrl");
    reveal_strlit("end");
    reveal_strlit("enter");
    reveal_strlit("equal");
    reveal_strlit("esc");
    reveal_strlit("escape");
    reveal_strlit("grave");
    reveal_strlit("home");
    reveal_strlit("left");
    reveal_strlit("leftbracket");
    reveal_strlit("minus");
    reveal_strlit("pagedown");
    reveal_strlit("pageup");
    reveal_strlit("period");
    reveal_strlit("pgdn");
    reveal_strlit("pgup");
    reveal_strlit("quote");
    reveal_strlit("return");
    reveal_strlit("rightbracket");
    reveal_strlit("semicolon");
    reveal_strlit("shift");
    reveal_strlit("slash");
    reveal_strlit("space");
    reveal_strlit("tab");
    let s = "Left"@;
    assert(lacks_char(s, '+'));
    lemma_split_plus_single(s);
    let p0 = s;
    assert(split_plus(s) =~= seq![p0]);
    assert(!spec_is_white_space(p0[0]) && !spec_is_white_space(p0.last()));
    assert(trim_start(p0) == p0 && trim_end(p0) == p0);
    assert(p0.map_values(|c: char| ascii_lower(c)) =~= "left"@);
    let names = ascii_key_names(s);
    assert(names =~= seq!["left"@]);
    assert("left"@[0] != "pgup"@[0]);
    assert("left"@[0] != "pgdn"@[0]);
    assert("left"@[0] != "home"@[0]);
    assert(spec_name_to_vk("left"@) == Some(0x25u16));
    assert("left"@[0] != "ctrl"@[0]);
    assert(!("left"@ == "ctrl"@ || "left"@ == "control"@) && "left"@ != "shift"@ && "left"@ != "alt"@);
    assert(names.drop_last() =~= Seq::<Seq<char>>::empty());
    assert(parse_scan(names.drop_last()) == Some((false, false, false, None::<u16>)));
    assert(names.last() == "left"@);
    assert(parse_scan(names) == Some((false, false, false, Some(0x25u16))));
}

/// `Right` reads as its key.
proof fn lemma_parse_right()
    ensures
        ascii_parse_key("Right"@) == Some(KeySpec { vk: 0x27u16, ctrl: false, shift: false, alt: false }),
{
    reveal_strlit("Right");
    reveal_strlit("alt");
    reveal_strlit("backquote");
    reveal_strlit("backslash");
    reveal_strlit("backspace");
    reveal_strlit("bs");
    reveal_strlit("comma");
    reveal_strlit("control");
    reveal_strlit("ctrl");
    reveal_strlit("end");
    reveal_strlit("enter");
    reveal_strlit("equal");
    reveal_strlit("esc");
    reveal_strlit("escape");
    reveal_strlit("grave");
    reveal_strlit("home");
    reveal_strlit("left");
    reveal_strlit("leftbracket");
    reveal_strlit("minus");
    reveal_strlit("pagedown");
    reveal_strlit("pageup");
    reveal_strlit("period");
    reveal_strlit("pgdn");
    reveal_strlit("pgup");
    reveal_strlit("quote");
    reveal_strlit("return");
    reveal_strlit("right");
    reveal_strlit("rightbracket");
    reveal_strlit("semicolon");
    reveal_strlit("shift");
    reveal_strlit("slash");
    reveal_strlit("space");
    reveal_strlit("tab");
    reveal_strlit("up");
    let s = "Right"@;
    assert(lacks_char(s, '+'));
    lemma_split_plus_single(s);
    let p0 = s;
    assert(split_plus(s) =~= seq![p0]);
    assert(!spec_is_white_space(p0[0]) && !spec_is_white_space(p0.last()));
    assert(trim_start(p0) == p0 && trim_end(p0) == p0);
    assert(p0.map_values(|c: char| ascii_lower(c)) =~= "right"@);
    let names = ascii_key_names(s);
    assert(names =~= seq!["right"@]);
    assert("right"@[0] != "enter"@[0]);
    assert("right"@[0] != "space"@[0]);
    assert("right"@[0] != "grave"@[0]);
    assert("right"@[0] != "equal"@[0]);
    assert("right"@[0] != "comma"@[0]);
    assert("right"@[0] != "minus"@[0]);
    assert("right"@[0] != "slash"@[0]);
    assert("right"@[0] != "quote"@[0]);
    assert(spec_name_to_vk("right"@) == Some(0x27u16));
    assert("right"@[0] != "shift"@[0]);
    assert(!("right"@ == "ctrl"@ || "right"@ == "control"@) && "right"@ != "shift"@ && "right"@ != "alt"@);
    assert(names.drop_last() =~= Seq::<Seq<char>>::empty());
    assert(parse_scan(names.drop_last()) == Some((false, false, false, None::<u16>)));
    assert(names.last() == "right"@);
    assert(parse_scan(names) == Some((false, false, false, Some(0x27u16))));
}

/// `Shift+Left` reads as its key.
proof fn lemma_parse_shift_left()
    ensures
        ascii_parse_key("Shift+Left"@) == Some(KeySpec { vk: 0x25u16, ctrl: false, shift: true, alt: false }),
{
    reveal_strlit("Shift+Left");
    reveal_strlit("alt");
    reveal_strlit("backquote");
    reveal_strlit("backslash");
    reveal_strlit("backspace");
    reveal_strlit("bs");
    reveal_strlit("comma");
    reveal_strlit("control");
    reveal_strlit("ctrl");
    reveal_strlit("end");
    reveal_strlit("enter");
    reveal_strlit("equal");
    reveal_strlit("esc");
    reveal_strlit("escape");
    reveal_strlit("grave");
    reveal_strlit("home");
    reveal_strlit("left");
    reveal_strlit("leftbracket");
    reveal_strlit("minus");
    reveal_strlit("pagedown");
    reveal_strlit("pageup");
    reveal_strlit("period");
    reveal_strlit("pgdn");
    reveal_strlit("pgup");
    reveal_strlit("quote");
    reveal_strlit("return");
    reveal_strlit("rightbracket");
    reveal_strlit("semicolon");
    reveal_strlit("shift");
    reveal_strlit("slash");
    reveal_strlit("space");
    reveal_strlit("tab");
    let s = "Shift+Left"@;
    let p0 = s.subrange(0, 5);
    let p1 = s.subrange(6, s.len() as int);
    assert(lacks_char(p0, '+'));
    assert(lacks_char(p1, '+'));
    assert(s =~= p0 + seq!['+'] + p1);
    lemma_split_plus_two(p0, p1);
    assert(split_plus(s) =~= seq![p0, p1]);
    assert(!spec_is_white_space(p0[0]) && !spec_is_white_space(p0.last()));
    assert(trim_start(p0) == p0 && trim_end(p0) == p0);
    assert(p0.map_values(|c: char| ascii_lower(c)) =~= "shift"@);
    assert(!spec_is_white_space(p1[0]) && !spec_is_white_space(p1.last()));
    assert(trim_start(p1) == p1 && trim_end(p1) == p1);
    assert(p1.map_values(|c: char| ascii_lower(c)) =~= "left"@);
    let names = ascii_key_names(s);
    assert(names =~= seq!["shift"@, "left"@]);
    assert("left"@[0] != "pgup"@[0]);
    assert("left"@[0] != "pgdn"@[0]);
    assert("left"@[0] != "home"@[0]);
    assert(spec_name_to_vk("left"@) == Some(0x25u16));
    assert("left"@[0] != "ctrl"@[0]);
    assert(!("left"@ == "ctrl"@ || "left"@ == "control"@) && "left"@ != "shift"@ && "left"@ != "alt"@);
    assert(names.drop_last() =~= seq!["shift"@]);
    assert(names.drop_last().drop_last() =~= Seq::<Seq<char>>::empty());
    assert(parse_scan(Seq::<Seq<char>>::empty()) == Some((false, false, false, None::<u16>)));
    assert(names.drop_last().last() == "shift"@);
    assert(parse_scan(names.drop_last()) == Some((false, true, false, None::<u16>)));
    assert(names.last() == "left"@);
    assert(parse_scan(names) == Some((false, true, false, Some(0x25u16))));
}

/// `Shift+Right` reads as its key.
proof fn lemma_parse_shift_right()
    ensures
        ascii_parse_key("Shift+Right"@) == Some(KeySpec { vk: 0x27u16, ctrl: false, shift: true, alt: false }),
{
    reveal_strlit("Shift+Right");
    reveal_strlit("alt");
    reveal_strlit("backquote");
    reveal_strlit("backslash");
    reveal_strlit("backspace");
    reveal_strlit("bs");
    reveal_strlit("comma");
    reveal_strlit("control");
    reveal_strlit("ctrl");
    reveal_strlit("end");
    reveal_strlit("enter");
    reveal_strlit("equal");
    reveal_strlit("esc");
    reveal_strlit("escape");
    reveal_strlit("grave");
    reveal_strlit("home");
    reveal_strlit("left");
    reveal_strlit("leftbracket");
    reveal_strlit("minus");
    reveal_strlit("pagedown");
    reveal_strlit("pageup");
    reveal_strlit("period");
    reveal_strlit("pgdn");
    reveal_strlit("pgup");
    reveal_strlit("quote");
    reveal_strlit("return");
    reveal_strlit("right");
    reveal_strlit("rightbracket");
    reveal_strlit("semicolon");
    reveal_strlit("shift");
    reveal_strlit("slash");
    reveal_strlit("space");
    reveal_strlit("tab");
    reveal_strlit("up");
    let s = "Shift+Right"@;
    let p0 = s.subrange(0, 5);
    let p1 = s.subrange(6, s.len() as int);
    assert(lacks_char(p0, '+'));
    assert(lacks_char(p1, '+'));
    assert(s =~= p0 + seq!['+'] + p1);
    lemma_split_plus_two(p0, p1);
    assert(split_plus(s) =~= seq![p0, p1]);
    assert(!spec_is_white_space(p0[0]) && !spec_is_white_space(p0.last()));
    assert(trim_start(p0) == p0 && trim_end(p0) == p0);
    assert(p0.map_values(|c: char| ascii_lower(c)) =~= "shift"@);
    assert(!spec_is_white_space(p1[0]) && !spec_is_white_space(p1.last()));
    assert(trim_start(p1) == p1 && trim_end(p1) == p1);
    assert(p1.map_values(|c: char| ascii_lower(c)) =~= "right"@);
    let names = ascii_key_names(s);
    assert(names =~= seq!["shift"@, "right"@]);
    assert("right"@[0] != "enter"@[0]);
    assert("right"@[0] != "space"@[0]);
    assert("right"@[0] != "grave"@[0]);
    assert("right"@[0] != "equal"@[0]);
    assert("right"@[0] != "comma"@[0]);
    assert("right"@[0] != "minus"@[0]);
    assert("right"@[0] != "slash"@[0]);
    assert("right"@[0] != "quote"@[0]);
    assert(spec_name_to_vk("right"@) == Some(0x27u16));
    assert("right"@[0] != "shift"@[0]);
    assert(!("right"@ == "ctrl"@ || "right"@ == "control"@) && "right"@ != "shift"@ && "right"@ != "alt"@);
    assert(names.drop_last() =~= seq!["shift"@]);
    assert(names.drop_last().drop_last() =~= Seq::<Seq<char>>::empty());
    assert(parse_scan(Seq::<Seq<char>>::empty()) == Some((false, false, false, None::<u16>)));
    assert(names.drop_last().last() == "shift"@);
    assert(parse_scan(names.drop_last()) == Some((false, true, false, None::<u16>)));
    assert(names.last() == "right"@);
    assert(parse_scan(names) == Some((false, true, false, Some(0x27u16))));
}

/// `Henkan` reads as its key.
proof fn lemma_parse_henkan()
    ensures
        ascii_parse_key("Henkan"@) == Some(KeySpec { vk: 0x1cu16, ctrl: false, shift: false, alt: false }),
{
    reveal_strlit("Henkan");
    reveal_strlit("alt");
    reveal_strlit("backquote");
    reveal_strlit("backslash");
    reveal_strlit("backspace");
    reveal_strlit("bs");
    reveal_strlit("comma");
    reveal_strlit("control");
    reveal_strlit("ctrl");
    reveal_strlit("del");
    reveal_strlit("delete");
    reveal_strlit("down");
    reveal_strlit("end");
    reveal_strlit("enter");
    reveal_strlit("equal");
    reveal_strlit("esc");
    reveal_strlit("escape");
    reveal_strlit("f1");
    reveal_strlit("f10");
    reveal_strlit("f11");
    reveal_strlit("f12");
    reveal_strlit("f2");
    reveal_strlit("f3");
    reveal_strlit("f4");
    reveal_strlit("f5");
    reveal_strlit("f6");
    reveal_strlit("f7");
    reveal_strlit("f8");
    reveal_strlit("f9");
    reveal_strlit("grave");
    reveal_strlit("hankaku");
    reveal_strlit("henkan");
    reveal_strlit("home");
    reveal_strlit("kanji");
    reveal_strlit("left");
    reveal_strlit("leftbracket");
    reveal_strlit("minus");
    reveal_strlit("pagedown");
    reveal_strlit("pageup");
    reveal_strlit("period");
    reveal_strlit("pgdn");
    reveal_strlit("pgup");
    reveal_strlit("quote");
    reveal_strlit("return");
    reveal_strlit("right");
    reveal_strlit("rightbracket");
    reveal_strlit("semicolon");
    reveal_strlit("shift");
    reveal_strlit("slash");
    reveal_strlit("space");
    reveal_strlit("tab");
    reveal_strlit("up");
    reveal_strlit("zenkaku");
    let s = "Henkan"@;
    assert(lacks_char(s, '+'));
    lemma_split_plus_single(s);
    let p0 = s;
    assert(split_plus(s) =~= seq![p0]);
    assert(!spec_is_white_space(p0[0]) && !spec_is_white_space(p0.last()));
    assert(trim_start(p0) == p0 && trim_end(p0) == p0);
    assert(p0.map_values(|c: char| ascii_lower(c)) =~= "henkan"@);
    let names = ascii_key_names(s);
    assert(names =~= seq!["henkan"@]);
    assert("henkan"@[0] != "return"@[0]);
    assert("henkan"@[0] != "escape"@[0]);
    assert("henkan"@[0] != "period"@[0]);
    assert("henkan"@[0] != "pageup"@[0]);
    assert("henkan"@[0] != "delete"@[0]);
    assert(spec_name_to_vk("henkan"@) == Some(0x1cu16));
    assert(!("henkan"@ == "ctrl"@ || "henkan"@ == "control"@) && "henkan"@ != "shift"@ && "henkan"@ != "alt"@);
    assert(names.drop_last() =~= Seq::<Seq<char>>::empty());
    assert(parse_scan(names.drop_last()) == Some((false, false, false, None::<u16>)));
    assert(names.last() == "henkan"@);
    assert(parse_scan(names) == Some((false, false, false, Some(0x1cu16))));
}

/// `Muhenkan` reads as its key.
proof fn lemma_parse_muhenkan()
    ensures
        ascii_parse_key("Muhenkan"@) == Some(KeySpec { vk: 0x1du16, ctrl: false, shift: false, alt: false }),
{
    reveal_strlit("Muhenkan");
    reveal_strlit("alt");
    reveal_strlit("backquote");
    reveal_strlit("backslash");
    reveal_strlit("backspace");
    reveal_strlit("bs");
    reveal_strlit("comma");
    reveal_strlit("control");
    reveal_strlit("ctrl");
    reveal_strlit("del");
    reveal_strlit("delete");
    reveal_strlit("down");
    reveal_strlit("end");
    reveal_strlit("enter");
    reveal_strlit("equal");
    reveal_strlit("esc");
    reveal_strlit("escape");
    reveal_strlit("f1");
    reveal_strlit("f10");
    reveal_strlit("f11");
    reveal_strlit("f12");
    reveal_strlit("f2");
    reveal_strlit("f3");
    reveal_strlit("f4");
    reveal_strlit("f5");
    reveal_strlit("f6");
    reveal_strlit("f7");
    reveal_strlit("f8");
    reveal_strlit("f9");
    reveal_strlit("grave");
    reveal_strlit("hankaku");
    reveal_strlit("henkan");
    reveal_strlit("home");
    reveal_strlit("kanji");
    reveal_strlit("left");
    reveal_strlit("leftbracket");
    reveal_strlit("minus");
    reveal_strlit("muhenkan");
    reveal_strlit("pagedown");
    reveal_strlit("pageup");
    reveal_strlit("period");
    reveal_strlit("pgdn");
    reveal_strlit("pgup");
    reveal_strlit("quote");
    reveal_strlit("return");
    reveal_strlit("right");
    reveal_strlit("rightbracket");
    reveal_strlit("semicolon");
    reveal_strlit("shift");
    reveal_strlit("slash");
    reveal_strlit("space");
    reveal_strlit("tab");
    reveal_strlit("up");
    reveal_strlit("zenkaku");
    let s = "Muhenkan"@;
    assert(lacks_char(s, '+'));
    lemma_split_plus_single(s);
    let p0 = s;
    assert(split_plus(s) =~= seq![p0]);
    assert(!spec_is_white_space(p0[0]) && !spec_is_white_space(p0.last()));
    assert(trim_start(p0) == p0 && trim_end(p0) == p0);
    assert(p0.map_values(|c: char| ascii_lower(c)) =~= "muhenkan"@);
    let names = ascii_key_names(s);
    assert(names =~= seq!["muhenkan"@]);
    assert("muhenkan"@[0] != "pagedown"@[0]);
    assert(spec_name_to_vk("muhenkan"@) == Some(0x1du16));
    assert(!("muhenkan"@ == "ctrl"@ || "muhenkan"@ == "control"@) && "muhenkan"@ != "shift"@ && "muhenkan"@ != "alt"@);
    assert(names.drop_last() =~= Seq::<Seq<char>>::empty());
    assert(parse_scan(names.drop_last()) == Some((false, false, false, None::<u16>)));
    assert(names.last() == "muhenkan"@);
    assert(parse_scan(names) == Some((false, false, false, Some(0x1du16))));
}

/// `Zenkaku` reads as its key.
proof fn lemma_parse_zenkaku()
    ensures
        ascii_parse_key("Zenkaku"@) == Some(KeySpec { vk: 0x19u16, ctrl: false, shift: false, alt: false }),
{
    reveal_strlit("Zenkaku");
    reveal_strlit("alt");
    reveal_strlit("backquote");
    reveal_strlit("backslash");
    reveal_strlit("backspace");
    reveal_strlit("bs");
    reveal_strlit("comma");
    reveal_strlit("control");
    reveal_strlit("ctrl");
    reveal_strlit("del");
    reveal_strlit("delete");
    reveal_strlit("down");
    reveal_strlit("end");
    reveal_strlit("enter");
    reveal_strlit("equal");
    reveal_strlit("esc");
    reveal_strlit("escape");
    reveal_strlit("f1");
    reveal_strlit("f10");
    reveal_strlit("f11");
    reveal_strlit("f12");
    reveal_strlit("f2");
    reveal_strlit("f3");
    reveal_strlit("f4");
    reveal_strlit("f5");
    reveal_strlit("f6");
    reveal_strlit("f7");
    reveal_strlit("f8");
    reveal_strlit("f9");
    reveal_strlit("grave");
    reveal_strlit("home");
    reveal_strlit("left");
    reveal_strlit("leftbracket");
    reveal_strlit("minus");
    reveal_strlit("pagedown");
    reveal_strlit("pageup");
    reveal_strlit("period");
    reveal_strlit("pgdn");
    reveal_strlit("pgup");
    reveal_strlit("quote");
    reveal_strlit("return");
    reveal_strlit("right");
    reveal_strlit("rightbracket");
    reveal_strlit("semicolon");
    reveal_strlit("shift");
    reveal_strlit("slash");
    reveal_strlit("space");
    reveal_strlit("tab");
    reveal_strlit("up");
    reveal_strlit("zenkaku");
    let s = "Zenkaku"@;
    assert(lacks_char(s, '+'));
    lemma_split_plus_single(s);
    let p0 = s;
    assert(split_plus(s) =~= seq![p0]);
    assert(!spec_is_white_space(p0[0]) && !spec_is_white_space(p0.last()));
    assert(trim_start(p0) == p0 && trim_end(p0) == p0);
    assert(p0.map_values(|c: char| ascii_lower(c)) =~= "zenkaku"@);
    let names = ascii_key_names(s);
    assert(names =~= seq!["zenkaku"@]);
    assert(spec_name_to_vk("zenkaku"@) == Some(0x19u16));
    assert("zenkaku"@[0] != "control"@[0]);
    assert(!("zenkaku"@ == "ctrl"@ || "zenkaku"@ == "control"@) && "zenkaku"@ != "shift"@ && "zenkaku"@ != "alt"@);
    assert(names.drop_last() =~= Seq::<Seq<char>>::empty());
    assert(parse_scan(names.drop_last()) == Some((false, false, false, None::<u16>)));
    assert(names.last() == "zenkaku"@);
    assert(parse_scan(names) == Some((false, false, false, Some(0x19u16))));
}

/// `Hiragana_key` reads as its key.
proof fn lemma_parse_hiragana_key()
    ensures
        ascii_parse_key("Hiragana_key"@) == Some(KeySpec { vk: 0xf2u16, ctrl: false, shift: false, alt: false }),
{
    reveal_strlit("Hiragana_key");
    reveal_strlit("alphanumeric");
    reveal_strlit("alt");
    reveal_strlit("backquote");
    reveal_strlit("backslash");
    reveal_strlit("backspace");
    reveal_strlit("bs");
    reveal_strlit("comma");
    reveal_strlit("control");
    reveal_strlit("ctrl");
    reveal_strlit("del");
    reveal_strlit("delete");
    reveal_strlit("down");
    reveal_strlit("eisuu");
    reveal_strlit("end");
    reveal_strlit("enter");
    reveal_strlit("equal");
    reveal_strlit("esc");
    reveal_strlit("escape");
    reveal_strlit("f1");
    reveal_strlit("f10");
    reveal_strlit("f11");
    reveal_strlit("f12");
    reveal_strlit("f2");
    reveal_strlit("f3");
    reveal_strlit("f4");
    reveal_strlit("f5");
    reveal_strlit("f6");
    reveal_strlit("f7");
    reveal_strlit("f8");
    reveal_strlit("f9");
    reveal_strlit("grave");
    reveal_strlit("hankaku");
    reveal_strlit("henkan");
    reveal_strlit("hiragana_key");
    reveal_strlit("home");
    reveal_strlit("kanji");
    reveal_strlit("katakana");
    reveal_strlit("left");
    reveal_strlit("leftbracket");
    reveal_strlit("minus");
    reveal_strlit("muhenkan");
    reveal_strlit("pagedown");
    reveal_strlit("pageup");
    reveal_strlit("period");
    reveal_strlit("pgdn");
    reveal_strlit("pgup");
    reveal_strlit("quote");
    reveal_strlit("return");
    reveal_strlit("right");
    reveal_strlit("rightbracket");
    reveal_strlit("semicolon");
    reveal_strlit("shift");
    reveal_strlit("slash");
    reveal_strlit("space");
    reveal_strlit("tab");
    reveal_strlit("up");
    reveal_strlit("zenkaku");
    let s = "Hiragana_key"@;
    assert(lacks_char(s, '+'));
    lemma_split_plus_single(s);
    let p0 = s;
    assert(split_plus(s) =~= seq![p0]);
    assert(!spec_is_white_space(p0[0]) && !spec_is_white_space(p0.last()));
    assert(trim_start(p0) == p0 && trim_end(p0) == p0);
    assert(p0.map_values(|c: char| ascii_lower(c)) =~= "hiragana_key"@);
    let names = ascii_key_names(s);
    assert(names =~= seq!["hiragana_key"@]);
    assert("hiragana_key"@[0] != "rightbracket"@[0]);
    assert("hiragana_key"@[0] != "alphanumeric"@[0]);
    assert(spec_name_to_vk("hiragana_key"@) == Some(0xf2u16));
    assert(!("hiragana_key"@ == "ctrl"@ || "hiragana_key"@ == "control"@) && "hiragana_key"@ != "shift"@ && "hiragana_key"@ != "alt"@);
    assert(names.drop_last() =~= Seq::<Seq<char>>::empty());
    assert(parse_scan(names.drop_last()) == Some((false, false, false, None::<u16>)));
    assert(names.last() == "hiragana_key"@);
    assert(parse_scan(names) == Some((false, false, false, Some(0xf2u16))));
}

/// `Ctrl+Caps` reads as its key.
proof fn lemma_parse_ctrl_caps()
    ensures
        ascii_parse_key("Ctrl+Caps"@) == Some(KeySpec { vk: 0x14u16, ctrl: true, shift: false, alt: false }),
{
    reveal_strlit("Ctrl+Caps");
    reveal_strlit("alphanumeric");
    reveal_strlit("alt");
    reveal_strlit("backquote");
    reveal_strlit("backslash");
    reveal_strlit("backspace");
    reveal_strlit("bs");
    reveal_strlit("caps");
    reveal_strlit("comma");
    reveal_strlit("control");
    reveal_strlit("ctrl");
    reveal_strlit("del");
    reveal_strlit("delete");
    reveal_strlit("down");
    reveal_strlit("eisuu");
    reveal_strlit("end");
    reveal_strlit("enter");
    reveal_strlit("equal");
    reveal_strlit("esc");
    reveal_strlit("escape");
    reveal_strlit("f1");
    reveal_strlit("f10");
    reveal_strlit("f11");
    reveal_strlit("f12");
    reveal_strlit("f2");
    reveal_strlit("f3");
    reveal_strlit("f4");
    reveal_strlit("f5");
    reveal_strlit("f6");
    reveal_strlit("f7");
    reveal_strlit("f8");
    reveal_strlit("f9");
    reveal_strlit("grave");
    reveal_strlit("hankaku");
    reveal_strlit("henkan");
    reveal_strlit("hiragana_key");
    reveal_strlit("home");
    reveal_strlit("kanji");
    reveal_strlit("katakana");
    reveal_strlit("left");
    reveal_strlit("leftbracket");
    reveal_strlit("minus");
    reveal_strlit("muhenkan");
    reveal_strlit("pagedown");
    reveal_strlit("pageup");
    reveal_strlit("period");
    reveal_strlit("pgdn");
    reveal_strlit("pgup");
    reveal_strlit("quote");
    reveal_strlit("return");
    reveal_strlit("right");
    reveal_strlit("rightbracket");
    reveal_strlit("semicolon");
    reveal_strlit("shift");
    reveal_strlit("slash");
    reveal_strlit("space");
    reveal_strlit("tab");
    reveal_strlit("up");
    reveal_strlit("zenkaku");
    let s = "Ctrl+Caps"@;
    let p0 = s.subrange(0, 4);
    let p1 = s.subrange(5, s.len() as int);
    assert(lacks_char(p0, '+'));
    assert(lacks_char(p1, '+'));
    assert(s =~= p0 + seq!['+'] + p1);
    lemma_split_plus_two(p0, p1);
    assert(split_plus(s) =~= seq![p0, p1]);
    assert(!spec_is_white_space(p0[0]) && !spec_is_white_space(p0.last()));
    assert(trim_start(p0) == p0 && trim_end(p0) == p0);
    assert(p0.map_values(|c: char| ascii_lower(c)) =~= "ctrl"@);
    assert(!spec_is_white_space(p1[0]) && !spec_is_white_space(p1.last()));
    assert(trim_start(p1) == p1 && trim_end(p1) == p1);
    assert(p1.map_values(|c: char| ascii_lower(c)) =~= "caps"@);
    let names = ascii_key_names(s);
    assert(names =~= seq!["ctrl"@, "caps"@]);
    assert("caps"@[0] != "pgup"@[0]);
    assert("caps"@[0] != "pgdn"@[0]);
    assert("caps"@[0] != "home"@[0]);
    assert("caps"@[0] != "left"@[0]);
    assert("caps"@[0] != "down"@[0]);
    assert(spec_name_to_vk("caps"@) == Some(0x14u16));
    assert("caps"@[1] != "ctrl"@[1]);
    assert(!("caps"@ == "ctrl"@ || "caps"@ == "control"@) && "caps"@ != "shift"@ && "caps"@ != "alt"@);
    assert(names.drop_last() =~= seq!["ctrl"@]);
    assert(names.drop_last().drop_last() =~= Seq::<Seq<char>>::empty());
    assert(parse_scan(Seq::<Seq<char>>::empty()) == Some((false, false, false, None::<u16>)));
    assert(names.drop_last().last() == "ctrl"@);
    assert(parse_scan(names.drop_last()) == Some((true, false, false, None::<u16>)));
    assert(names.last() == "caps"@);
    assert(parse_scan(names) == Some((true, false, false, Some(0x14u16))));
}

/// `Katakana` reads as its key.
proof fn lemma_parse_katakana()
    ensures
        ascii_parse_key("Katakana"@) == Some(KeySpec { vk: 0xf1u16, ctrl: false, shift: false, alt: false }),
{
    reveal_strlit("Katakana");
    reveal_strlit("alphanumeric");
    reveal_strlit("alt");
    reveal_strlit("backquote");
    reveal_strlit("backslash");
    reveal_strlit("backspace");
    reveal_strlit("bs");
    reveal_strlit("comma");
    reveal_strlit("control");
    reveal_strlit("ctrl");
    reveal_strlit("del");
    reveal_strlit("delete");
    reveal_strlit("down");
    reveal_strlit("eisuu");
    reveal_strlit("end");
    reveal_strlit("enter");
    reveal_strlit("equal");
    reveal_strlit("esc");
    reveal_strlit("escape");
    reveal_strlit("f1");
    reveal_strlit("f10");
    reveal_strlit("f11");
    reveal_strlit("f12");
    reveal_strlit("f2");
    reveal_strlit("f3");
    reveal_strlit("f4");
    reveal_strlit("f5");
    reveal_strlit("f6");
    reveal_strlit("f7");
    reveal_strlit("f8");
    reveal_strlit("f9");
    reveal_strlit("grave");
    reveal_strlit("hankaku");
    reveal_strlit("henkan");
    reveal_strlit("home");
    reveal_strlit("kanji");
    reveal_strlit("katakana");
    reveal_strlit("left");
    reveal_strlit("leftbracket");
    reveal_strlit("minus");
    reveal_strlit("muhenkan");
    reveal_strlit("pagedown");
    reveal_strlit("pageup");
    reveal_strlit("period");
    reveal_strlit("pgdn");
    reveal_strlit("pgup");
    reveal_strlit("quote");
    reveal_strlit("return");
    reveal_strlit("right");
    reveal_strlit("rightbracket");
    reveal_strlit("semicolon");
    reveal_strlit("shift");
    reveal_strlit("slash");
    reveal_strlit("space");
    reveal_strlit("tab");
    reveal_strlit("up");
    reveal_strlit("zenkaku");
    let s = "Katakana"@;
    assert(lacks_char(s, '+'));
    lemma_split_plus_single(s);
    let p0 = s;
    assert(split_plus(s) =~= seq![p0]);
    assert(!spec_is_white_space(p0[0]) && !spec_is_white_space(p0.last()));
    assert(trim_start(p0) == p0 && trim_end(p0) == p0);
    assert(p0.map_values(|c: char| ascii_lower(c)) =~= "katakana"@);
    let names = ascii_key_names(s);
    assert(names =~= seq!["katakana"@]);
    assert("katakana"@[0] != "pagedown"@[0]);
    assert("katakana"@[0] != "muhenkan"@[0]);
    assert(spec_name_to_vk("katakana"@) == Some(0xf1u16));
    assert(!("katakana"@ == "ctrl"@ || "katakana"@ == "control"@) && "katakana"@ != "shift"@ && "katakana"@ != "alt"@);
    assert(names.drop_last() =~= Seq::<Seq<char>>::empty());
    assert(parse_scan(names.drop_last()) == Some((false, false, false, None::<u16>)));
    assert(names.last() == "katakana"@);
    assert(parse_scan(names) == Some((false, false, false, Some(0xf1u16))));
}

/// `Alt+Caps` reads as its key.
proof fn lemma_parse_alt_caps()
    ensures
        ascii_parse_key("Alt+Caps"@) == Some(KeySpec { vk: 0x14u16, ctrl: false, shift: false, alt: true }),
{
    reveal_strlit("Alt+Caps");
    reveal_strlit("alphanumeric");
    reveal_strlit("alt");
    reveal_strlit("backquote");
    reveal_strlit("backslash");
    reveal_strlit("backspace");
    reveal_strlit("bs");
    reveal_strlit("caps");
    reveal_strlit("comma");
    reveal_strlit("control");
    reveal_strlit("ctrl");
    reveal_strlit("del");
    reveal_strlit("delete");
    reveal_strlit("down");
    reveal_strlit("eisuu");
    reveal_strlit("end");
    reveal_strlit("enter");
    reveal_strlit("equal");
    reveal_strlit("esc");
    reveal_strlit("escape");
    reveal_strlit("f1");
    reveal_strlit("f10");
    reveal_strlit("f11");
    reveal_strlit("f12");
    reveal_strlit("f2");
    reveal_strlit("f3");
    reveal_strlit("f4");
    reveal_strlit("f5");
    reveal_strlit("f6");
    reveal_strlit("f7");
    reveal_strlit("f8");
    reveal_strlit("f9");
    reveal_strlit("grave");
    reveal_strlit("hankaku");
    reveal_strlit("henkan");
    reveal_strlit("hiragana_key");
    reveal_strlit("home");
    reveal_strlit("kanji");
    reveal_strlit("katakana");
    reveal_strlit("left");
    reveal_strlit("leftbracket");
    reveal_strlit("minus");
    reveal_strlit("muhenkan");
    reveal_strlit("pagedown");
    reveal_strlit("pageup");
    reveal_strlit("period");
    reveal_strlit("pgdn");
    reveal_strlit("pgup");
    reveal_strlit("quote");
    reveal_strlit("return");
    reveal_strlit("right");
    reveal_strlit("rightbracket");
    reveal_strlit("semicolon");
    reveal_strlit("shift");
    reveal_strlit("slash");
    reveal_strlit("space");
    reveal_strlit("tab");
    reveal_strlit("up");
    reveal_strlit("zenkaku");
    let s = "Alt+Caps"@;
    let p0 = s.subrange(0, 3);
    let p1 = s.subrange(4, s.len() as int);
    assert(lacks_char(p0, '+'));
    assert(lacks_char(p1, '+'));
    assert(s =~= p0 + seq!['+'] + p1);
    lemma_split_plus_two(p0, p1);
    assert(split_plus(s) =~= seq![p0, p1]);
    assert(!spec_is_white_space(p0[0]) && !spec_is_white_space(p0.last()));
    assert(trim_start(p0) == p0 && trim_end(p0) == p0);
    assert(p0.map_values(|c: char| ascii_lower(c)) =~= "alt"@);
    assert(!spec_is_white_space(p1[0]) && !spec_is_white_space(p1.last()));
    assert(trim_start(p1) == p1 && trim_end(p1) == p1);
    assert(p1.map_values(|c: char| ascii_lower(c)) =~= "caps"@);
    let names = ascii_key_names(s);
    assert(names =~= seq!["alt"@, "caps"@]);
    assert("caps"@[0] != "pgup"@[0]);
    assert("caps"@[0] != "pgdn"@[0]);
    assert("caps"@[0] != "home"@[0]);
    assert("caps"@[0] != "left"@[0]);
    assert("caps"@[0] != "down"@[0]);
    assert(spec_name_to_vk("caps"@) == Some(0x14u16));
    assert("caps"@[1] != "ctrl"@[1]);
    assert(!("caps"@ == "ctrl"@ || "caps"@ == "control"@) && "caps"@ != "shift"@ && "caps"@ != "alt"@);
    assert(names.drop_last() =~= seq!["alt"@]);
    assert(names.drop_last().drop_last() =~= Seq::<Seq<char>>::empty());
    assert(parse_scan(Seq::<Seq<char>>::empty()) == Some((false, false, false, None::<u16>)));
    assert(names.drop_last().last() == "alt"@);
    assert(parse_scan(names.drop_last()) == Some((false, false, true, None::<u16>)));
    assert(names.last() == "caps"@);
    assert(parse_scan(names) == Some((false, false, true, Some(0x14u16))));
}

/// `Eisuu` reads as its key.
proof fn lemma_parse_eisuu()
    ensures
        ascii_parse_key("Eisuu"@) == Some(KeySpec { vk: 0xf0u16, ctrl: false, shift: false, alt: false }),
{
    reveal_strlit("Eisuu");
    reveal_strlit("alt");
    reveal_strlit("backquote");
    reveal_strlit("backslash");
    reveal_strlit("backspace");
    reveal_strlit("bs");
    reveal_strlit("comma");
    reveal_strlit("control");
    reveal_strlit("ctrl");
    reveal_strlit("del");
    reveal_strlit("delete");
    reveal_strlit("down");
    reveal_strlit("eisuu");
    reveal_strlit("end");
    reveal_strlit("enter");
    reveal_strlit("equal");
    reveal_strlit("esc");
    reveal_strlit("escape");
    reveal_strlit("f1");
    reveal_strlit("f10");
    reveal_strlit("f11");
    reveal_strlit("f12");
    reveal_strlit("f2");
    reveal_strlit("f3");
    reveal_strlit("f4");
    reveal_strlit("f5");
    reveal_strlit("f6");
    reveal_strlit("f7");
    reveal_strlit("f8");
    reveal_strlit("f9");
    reveal_strlit("grave");
    reveal_strlit("hankaku");
    reveal_strlit("henkan");
    reveal_strlit("home");
    reveal_strlit("kanji");
    reveal_strlit("left");
    reveal_strlit("leftbracket");
    reveal_strlit("minus");
    reveal_strlit("muhenkan");
    reveal_strlit("pagedown");
    reveal_strlit("pageup");
    reveal_strlit("period");
    reveal_strlit("pgdn");
    reveal_strlit("pgup");
    reveal_strlit("quote");
    reveal_strlit("return");
    reveal_strlit("right");
    reveal_strlit("rightbracket");
    reveal_strlit("semicolon");
    reveal_strlit("shift");
    reveal_strlit("slash");
    reveal_strlit("space");
    reveal_strlit("tab");
    reveal_strlit("up");
    reveal_strlit("zenkaku");
    let s = "Eisuu"@;
    assert(lacks_char(s, '+'));
    lemma_split_plus_single(s);
    let p0 = s;
    assert(split_plus(s) =~= seq![p0]);
    assert(!spec_is_white_space(p0[0]) && !spec_is_white_space(p0.last()));
    assert(trim_start(p0) == p0 && trim_end(p0) == p0);
    assert(p0.map_values(|c: char| ascii_lower(c)) =~= "eisuu"@);
    let names = ascii_key_names(s);
    assert(names =~= seq!["eisuu"@]);
    assert("eisuu"@[1] != "enter"@[1]);
    assert("eisuu"@[0] != "space"@[0]);
    assert("eisuu"@[0] != "grave"@[0]);
    assert("eisuu"@[1] != "equal"@[1]);
    assert("eisuu"@[0] != "comma"@[0]);
    assert("eisuu"@[0] != "minus"@[0]);
    assert("eisuu"@[0] != "slash"@[0]);
    assert("eisuu"@[0] != "quote"@[0]);
    assert("eisuu"@[0] != "right"@[0]);
    assert("eisuu"@[0] != "kanji"@[0]);
    assert(spec_name_to_vk("eisuu"@) == Some(0xf0u16));
    assert("eisuu"@[0] != "shift"@[0]);
    assert(!("eisuu"@ == "ctrl"@ || "eisuu"@ == "control"@) && "eisuu"@ != "shift"@ && "eisuu"@ != "alt"@);
    assert(names.drop_last() =~= Seq::<Seq<char>>::empty());
    assert(parse_scan(names.drop_last()) == Some((false, false, false, None::<u16>)));
    assert(names.last() == "eisuu"@);
    assert(parse_scan(names) == Some((false, false, false, Some(0xf0u16))));
}

/// Every key string of the presets read as its key.
proof fn lemma_parse_preset_strings()
    ensures
        ascii_parse_key("Ctrl+Space"@) == Some(KeySpec { vk: 0x20u16, ctrl: true, shift: false, alt: false }),
        ascii_parse_key("Ctrl+J"@) == Some(KeySpec { vk: 0x4au16, ctrl: true, shift: false, alt: false }),
        ascii_parse_key("Ctrl+K"@) == Some(KeySpec { vk: 0x4bu16, ctrl: true, shift: false, alt: false }),
        ascii_parse_key("Ctrl+L"@) == Some(KeySpec { vk: 0x4cu16, ctrl: true, shift: false, alt: false }),
        ascii_parse_key("Space"@) == Some(KeySpec { vk: 0x20u16, ctrl: false, shift: false, alt: false }),
        ascii_parse_key("Enter"@) == Some(KeySpec { vk: 0xdu16, ctrl: false, shift: false, alt: false }),
        ascii_parse_key("Escape"@) == Some(KeySpec { vk: 0x1bu16, ctrl: false, shift: false, alt: false }),
        ascii_parse_key("Ctrl+Backspace"@) == Some(KeySpec { vk: 0x8u16, ctrl: true, shift: false, alt: false }),
        ascii_parse_key("Backspace"@) == Some(KeySpec { vk: 0x8u16, ctrl: false, shift: false, alt: false }),
        ascii_parse_key("F6"@) == Some(KeySpec { vk: 0x75u16, ctrl: false, shift: false, alt: false }),
        ascii_parse_key("F7"@) == Some(KeySpec { vk: 0x76u16, ctrl: false, shift: false, alt: false }),
        ascii_parse_key("F8"@) == Some(KeySpec { vk: 0x77u16, ctrl: false, shift: false, alt: false }),
        ascii_parse_key("F9"@) == Some(KeySpec { vk: 0x78u16, ctrl: false, shift: false, alt: false }),
        ascii_parse_key("F10"@) == Some(KeySpec { vk: 0x79u16, ctrl: false, shift: false, alt: false }),
        ascii_parse_key("Shift+Space"@) == Some(KeySpec { vk: 0x20u16, ctrl: false, shift: true, alt: false }),
        ascii_parse_key("Down"@) == Some(KeySpec { vk: 0x28u16, ctrl: false, shift: false, alt: false }),
        ascii_parse_key("Up"@) == Some(KeySpec { vk: 0x26u16, ctrl: false, shift: false, alt: false }),
        ascii_parse_key("Tab"@) == Some(KeySpec { vk: 0x9u16, ctrl: false, shift: false, alt: false }),
        ascii_parse_key("Shift+Tab"@) == Some(KeySpec { vk: 0x9u16, ctrl: false, shift: true, alt: false }),
        ascii_parse_key("PageDown"@) == Some(KeySpec { vk: 0x22u16, ctrl: false, shift: false, alt: false }),
        ascii_parse_key("PageUp"@) == Some(KeySpec { vk: 0x21u16, ctrl: false, shift: false, alt: false }),
        ascii_parse_key("Left"@) == Some(KeySpec { vk: 0x25u16, ctrl: false, shift: false, alt: false }),
        ascii_parse_key("Right"@) == Some(KeySpec { vk: 0x27u16, ctrl: false, shift: false, alt: false }),
        ascii_parse_key("Shift+Left"@) == Some(KeySpec { vk: 0x25u16, ctrl: false, shift: true, alt: false }),
        ascii_parse_key("Shift+Right"@) == Some(KeySpec { vk: 0x27u16, ctrl: false, shift: true, alt: false }),
        ascii_parse_key("Henkan"@) == Some(KeySpec { vk: 0x1cu16, ctrl: false, shift: false, alt: false }),
        ascii_parse_key("Muhenkan"@) == Some(KeySpec { vk: 0x1du16, ctrl: false, shift: false, alt: false }),
        ascii_parse_key("Zenkaku"@) == Some(KeySpec { vk: 0x19u16, ctrl: false, shift: false, alt: false }),
        ascii_parse_key("Hiragana_key"@) == Some(KeySpec { vk: 0xf2u16, ctrl: false, shift: false, alt: false }),
        ascii_parse_key("Ctrl+Caps"@) == Some(KeySpec { vk: 0x14u16, ctrl: true, shift: false, alt: false }),
        ascii_parse_key("Katakana"@) == Some(KeySpec { vk: 0xf1u16, ctrl: false, shift: false, alt: false }),
        ascii_parse_key("Alt+Caps"@) == Some(KeySpec { vk: 0x14u16, ctrl: false, shift: false, alt: true }),
        ascii_parse_key("Eisuu"@) == Some(KeySpec { vk: 0xf0u16, ctrl: false, shift: false, alt: false }),
{
    lemma_parse_ctrl_space();
    lemma_parse_ctrl_j();
    lemma_parse_ctrl_k();
    lemma_parse_ctrl_l();
    lemma_parse_space();
    lemma_parse_enter();
    lemma_parse_escape();
    lemma_parse_ctrl_backspace();
    lemma_parse_backspace();
    lemma_parse_f6();
    lemma_parse_f7();
    lemma_parse_f8();
    lemma_parse_f9();
    lemma_parse_f10();
    lemma_parse_shift_space();
    lemma_parse_down();
    lemma_parse_up();
    lemma_parse_tab();
    lemma_parse_shift_tab();
    lemma_parse_pagedown();
    lemma_parse_pageup();
    lemma_parse_left();
    lemma_parse_right();
    lemma_parse_shift_left();
    lemma_parse_shift_right();
    lemma_parse_henkan();
    lemma_parse_muhenkan();
    lemma_parse_zenkaku();
    lemma_parse_hiragana_key();
    lemma_parse_ctrl_caps();
    lemma_parse_katakana();
    lemma_parse_alt_caps();
    lemma_parse_eisuu();
}

// ─── every documented key of the presets ───────────────────────────────────

proof fn lemma_us_key_0()
    ensures
        spec_build_table_ascii(spec_preset_bindings(KeymapPreset::MsImeUs)).contains_key((KeySpec { vk: 0x20u16, ctrl: true, shift: false, alt: false }).spec_code()),
        spec_build_table_ascii(spec_preset_bindings(KeymapPreset::MsImeUs))[(KeySpec { vk: 0x20u16, ctrl: true, shift: false, alt: false }).spec_code()] == KeyAction::ImeToggle,
{
    lemma_parse_preset_strings();
    let bs = spec_preset_bindings(KeymapPreset::MsImeUs);
    let k = KeySpec { vk: 0x20u16, ctrl: true, shift: false, alt: false };
    assert(bs[0] == ("Ctrl+Space"@, KeyAction::ImeToggle));
    assert forall|m: int| 0 < m < bs.len() implies ascii_parse_key(#[trigger] bs[m].0) != Some(k) by {}
    lemma_ascii_table_value(bs, k, 0);
}

proof fn lemma_us_key_1()
    ensures
        spec_build_table_ascii(spec_preset_bindings(KeymapPreset::MsImeUs)).contains_key((KeySpec { vk: 0x4au16, ctrl: true, shift: false, alt: false }).spec_code()),
        spec_build_table_ascii(spec_preset_bindings(KeymapPreset::MsImeUs))[(KeySpec { vk: 0x4au16, ctrl: true, shift: false, alt: false }).spec_code()] == KeyAction::ModeHiragana,
{
    lemma_parse_preset_strings();
    let bs = spec_preset_bindings(KeymapPreset::MsImeUs);
    let k = KeySpec { vk: 0x4au16, ctrl: true, shift: false, alt: false };
    assert(bs[1] == ("Ctrl+J"@, KeyAction::ModeHiragana));
    assert forall|m: int| 1 < m < bs.len() implies ascii_parse_key(#[trigger] bs[m].0) != Some(k) by {}
    lemma_ascii_table_value(bs, k, 1);
}

proof fn lemma_us_key_2()
    ensures
        spec_build_table_ascii(spec_preset_bindings(KeymapPreset::MsImeUs)).contains_key((KeySpec { vk: 0x4bu16, ctrl: true, shift: false, alt: false }).spec_code()),
        spec_build_table_ascii(spec_preset_bindings(KeymapPreset::MsImeUs))[(KeySpec { vk: 0x4bu16, ctrl: true, shift: false, alt: false }).spec_code()] == KeyAction::ModeKatakana,
{
    lemma_parse_preset_strings();
    let bs = spec_preset_bindings(KeymapPreset::MsImeUs);
    let k = KeySpec { vk: 0x4bu16, ctrl: true, shift: false, alt: false };
    assert(bs[2] == ("Ctrl+K"@, KeyAction::ModeKatakana));
    assert forall|m: int| 2 < m < bs.len() implies ascii_parse_key(#[trigger] bs[m].0) != Some(k) by {}
    lemma_ascii_table_value(bs, k, 2);
}

proof fn lemma_us_key_3()
    ensures
        spec_build_table_ascii(spec_preset_bindings(KeymapPreset::MsImeUs)).contains_key((KeySpec { vk: 0x4cu16, ctrl: true, shift: false, alt: false }).spec_code()),
        spec_build_table_ascii(spec_preset_bindings(KeymapPreset::MsImeUs))[(KeySpec { vk: 0x4cu16, ctrl: true, shift: false, alt: false }).spec_code()] == KeyAction::ModeAlphanumeric,
{
    lemma_parse_preset_strings();
    let bs = spec_preset_bindings(KeymapPreset::MsImeUs);
    let k = KeySpec { vk: 0x4cu16, ctrl: true, shift: false, alt: false };
    assert(bs[3] == ("Ctrl+L"@, KeyAction::ModeAlphanumeric));
    assert forall|m: int| 3 < m < bs.len() implies ascii_parse_key(#[trigger] bs[m].0) != Some(k) by {}
    lemma_ascii_table_value(bs, k, 3);
}

proof fn lemma_us_key_4()
    ensures
        spec_build_table_ascii(spec_preset_bindings(KeymapPreset::MsImeUs)).contains_key((KeySpec { vk: 0x20u16, ctrl: false, shift: false, alt: false }).spec_code()),
        spec_build_table_ascii(spec_preset_bindings(KeymapPreset::MsImeUs))[(KeySpec { vk: 0x20u16, ctrl: false, shift: false, alt: false }).spec_code()] == KeyAction::Convert,
{
    lemma_parse_preset_strings();
    let bs = spec_preset_bindings(KeymapPreset::MsImeUs);
    let k = KeySpec { vk: 0x20u16, ctrl: false, shift: false, alt: false };
    assert(bs[4] == ("Space"@, KeyAction::Convert));
    assert forall|m: int| 4 < m < bs.len() implies ascii_parse_key(#[trigger] bs[m].0) != Some(k) by {}
    lemma_ascii_table_value(bs, k, 4);
}

proof fn lemma_us_key_5()
    ensures
        spec_build_table_ascii(spec_preset_bindings(KeymapPreset::MsImeUs)).contains_key((KeySpec { vk: 0xdu16, ctrl: false, shift: false, alt: false }).spec_code()),
        spec_build_table_ascii(spec_preset_bindings(KeymapPreset::MsImeUs))[(KeySpec { vk: 0xdu16, ctrl: false, shift: false, alt: false }).spec_code()] == KeyAction::CommitRaw,
{
    lemma_parse_preset_strings();
    let bs = spec_preset_bindings(KeymapPreset::MsImeUs);
    let k = KeySpec { vk: 0xdu16, ctrl: false, shift: false, alt: false };
    assert(bs[5] == ("Enter"@, KeyAction::CommitRaw));
    assert forall|m: int| 5 < m < bs.len() implies ascii_parse_key(#[trigger] bs[m].0) != Some(k) by {}
    lemma_ascii_table_value(bs, k, 5);
}

proof fn lemma_us_key_6()
    ensures
        spec_build_table_ascii(spec_preset_bindings(KeymapPreset::MsImeUs)).contains_key((KeySpec { vk: 0x1bu16, ctrl: false, shift: false, alt: false }).spec_code()),
        spec_build_table_ascii(spec_preset_bindings(KeymapPreset::MsImeUs))[(KeySpec { vk: 0x1bu16, ctrl: false, shift: false, alt: false }).spec_code()] == KeyAction::Cancel,
{
    lemma_parse_preset_strings();
    let bs = spec_preset_bindings(KeymapPreset::MsImeUs);
    let k = KeySpec { vk: 0x1bu16, ctrl: false, shift: false, alt: false };
    assert(bs[6] == ("Escape"@, KeyAction::Cancel));
    assert forall|m: int| 6 < m < bs.len() implies ascii_parse_key(#[trigger] bs[m].0) != Some(k) by {}
    lemma_ascii_table_value(bs, k, 6);
}

proof fn lemma_us_key_7()
    ensures
        spec_build_table_ascii(spec_preset_bindings(KeymapPreset::MsImeUs)).contains_key((KeySpec { vk: 0x8u16, ctrl: true, shift: false, alt: false }).spec_code()),
        spec_build_table_ascii(spec_preset_bindings(KeymapPreset::MsImeUs))[(KeySpec { vk: 0x8u16, ctrl: true, shift: false, alt: false }).spec_code()] == KeyAction::CancelAll,
{
    lemma_parse_preset_strings();
    let bs = spec_preset_bindings(KeymapPreset::MsImeUs);
    let k = KeySpec { vk: 0x8u16, ctrl: true, shift: false, alt: false };
    assert(bs[7] == ("Ctrl+Backspace"@, KeyAction::CancelAll));
    assert forall|m: int| 7 < m < bs.len() implies ascii_parse_key(#[trigger] bs[m].0) != Some(k) by {}
    lemma_ascii_table_value(bs, k, 7);
}

proof fn lemma_us_key_8()
    ensures
        spec_build_table_ascii(spec_preset_bindings(KeymapPreset::MsImeUs)).contains_key((KeySpec { vk: 0x8u16, ctrl: false, shift: false, alt: false }).spec_code()),
        spec_build_table_ascii(spec_preset_bindings(KeymapPreset::MsImeUs))[(KeySpec { vk: 0x8u16, ctrl: false, shift: false, alt: false }).spec_code()] == KeyAction::Backspace,
{
    lemma_parse_preset_strings();
    let bs = spec_preset_bindings(KeymapPreset::MsImeUs);
    let k = KeySpec { vk: 0x8u16, ctrl: false, shift: false, alt: false };
    assert(bs[8] == ("Backspace"@, KeyAction::Backspace));
    assert forall|m: int| 8 < m < bs.len() implies ascii_parse_key(#[trigger] bs[m].0) != Some(k) by {}
    lemma_ascii_table_value(bs, k, 8);
}

proof fn lemma_us_key_9()
    ensures
        spec_build_table_ascii(spec_preset_bindings(KeymapPreset::MsImeUs)).contains_key((KeySpec { vk: 0x75u16, ctrl: false, shift: false, alt: false }).spec_code()),
        spec_build_table_ascii(spec_preset_bindings(KeymapPreset::MsImeUs))[(KeySpec { vk: 0x75u16, ctrl: false, shift: false, alt: false }).spec_code()] == KeyAction::Hiragana,
{
    lemma_parse_preset_strings();
    let bs = spec_preset_bindings(KeymapPreset::MsImeUs);
    let k = KeySpec { vk: 0x75u16, ctrl: false, shift: false, alt: false };
    assert(bs[9] == ("F6"@, KeyAction::Hiragana));
    assert forall|m: int| 9 < m < bs.len() implies ascii_parse_key(#[trigger] bs[m].0) != Some(k) by {}
    lemma_ascii_table_value(bs, k, 9);
}

proof fn lemma_us_key_10()
    ensures
        spec_build_table_ascii(spec_preset_bindings(KeymapPreset::MsImeUs)).contains_key((KeySpec { vk: 0x76u16, ctrl: false, shift: false, alt: false }).spec_code()),
        spec_build_table_ascii(spec_preset_bindings(KeymapPreset::MsImeUs))[(KeySpec { vk: 0x76u16, ctrl: false, shift: false, alt: false }).spec_code()] == KeyAction::Katakana,
{
    lemma_parse_preset_strings();
    let bs = spec_preset_bindings(KeymapPreset::MsImeUs);
    let k = KeySpec { vk: 0x76u16, ctrl: false, shift: false, alt: false };
    assert(bs[10] == ("F7"@, KeyAction::Katakana));
    assert forall|m: int| 10 < m < bs.len() implies ascii_parse_key(#[trigger] bs[m].0) != Some(k) by {}
    lemma_ascii_table_value(bs, k, 10);
}

proof fn lemma_us_key_11()
    ensures
        spec_build_table_ascii(spec_preset_bindings(KeymapPreset::MsImeUs)).contains_key((KeySpec { vk: 0x77u16, ctrl: false, shift: false, alt: false }).spec_code()),
        spec_build_table_ascii(spec_preset_bindings(KeymapPreset::MsImeUs))[(KeySpec { vk: 0x77u16, ctrl: false, shift: false, alt: false }).spec_code()] == KeyAction::HalfKatakana,
{
    lemma_parse_preset_strings();
    let bs = spec_preset_bindings(KeymapPreset::MsImeUs);
    let k = KeySpec { vk: 0x77u16, ctrl: false, shift: false, alt: false };
    assert(bs[11] == ("F8"@, KeyAction::HalfKatakana));
    assert forall|m: int| 11 < m < bs.len() implies ascii_parse_key(#[trigger] bs[m].0) != Some(k) by {}
    lemma_ascii_table_value(bs, k, 11);
}

proof fn lemma_us_key_12()
    ensures
        spec_build_table_ascii(spec_preset_bindings(KeymapPreset::MsImeUs)).contains_key((KeySpec { vk: 0x78u16, ctrl: false, shift: false, alt: false }).spec_code()),
        spec_build_table_ascii(spec_preset_bindings(KeymapPreset::MsImeUs))[(KeySpec { vk: 0x78u16, ctrl: false, shift: false, alt: false }).spec_code()] == KeyAction::FullLatin,
{
    lemma_parse_preset_strings();
    let bs = spec_preset_bindings(KeymapPreset::MsImeUs);
    let k = KeySpec { vk: 0x78u16, ctrl: false, shift: false, alt: false };
    assert(bs[12] == ("F9"@, KeyAction::FullLatin));
    assert forall|m: int| 12 < m < bs.len() implies ascii_parse_key(#[trigger] bs[m].0) != Some(k) by {}
    lemma_ascii_table_value(bs, k, 12);
}

proof fn lemma_us_key_13()
    ensures
        spec_build_table_ascii(spec_preset_bindings(KeymapPreset::MsImeUs)).contains_key((KeySpec { vk: 0x79u16, ctrl: false, shift: false, alt: false }).spec_code()),
        spec_build_table_ascii(spec_preset_bindings(KeymapPreset::MsImeUs))[(KeySpec { vk: 0x79u16, ctrl: false, shift: false, alt: false }).spec_code()] == KeyAction::HalfLatin,
{
    lemma_parse_preset_strings();
    let bs = spec_preset_bindings(KeymapPreset::MsImeUs);
    let k = KeySpec { vk: 0x79u16, ctrl: false, shift: false, alt: false };
    assert(bs[13] == ("F10"@, KeyAction::HalfLatin));
    assert forall|m: int| 13 < m < bs.len() implies ascii_parse_key(#[trigger] bs[m].0) != Some(k) by {}
    lemma_ascii_table_value(bs, k, 13);
}

proof fn lemma_us_key_14()
    ensures
        spec_build_table_ascii(spec_preset_bindings(KeymapPreset::MsImeUs)).contains_key((KeySpec { vk: 0x20u16, ctrl: false, shift: true, alt: false }).spec_code()),
        spec_build_table_ascii(spec_preset_bindings(KeymapPreset::MsImeUs))[(KeySpec { vk: 0x20u16, ctrl: false, shift: true, alt: false }).spec_code()] == KeyAction::FullWidthSpace,
{
    lemma_parse_preset_strings();
    let bs = spec_preset_bindings(KeymapPreset::MsImeUs);
    let k = KeySpec { vk: 0x20u16, ctrl: false, shift: true, alt: false };
    assert(bs[14] == ("Shift+Space"@, KeyAction::FullWidthSpace));
    assert forall|m: int| 14 < m < bs.len() implies ascii_parse_key(#[trigger] bs[m].0) != Some(k) by {}
    lemma_ascii_table_value(bs, k, 14);
}

proof fn lemma_us_key_15()
    ensures
        spec_build_table_ascii(spec_preset_bindings(KeymapPreset::MsImeUs)).contains_key((KeySpec { vk: 0x28u16, ctrl: false, shift: false, alt: false }).spec_code()),
        spec_build_table_ascii(spec_preset_bindings(KeymapPreset::MsImeUs))[(KeySpec { vk: 0x28u16, ctrl: false, shift: false, alt: false }).spec_code()] == KeyAction::CandidateNext,
{
    lemma_parse_preset_strings();
    let bs = spec_preset_bindings(KeymapPreset::MsImeUs);
    let k = KeySpec { vk: 0x28u16, ctrl: false, shift: false, alt: false };
    assert(bs[15] == ("Down"@, KeyAction::CandidateNext));
    assert forall|m: int| 15 < m < bs.len() implies ascii_parse_key(#[trigger] bs[m].0) != Some(k) by {}
    lemma_ascii_table_value(bs, k, 15);
}

proof fn lemma_us_key_16()
    ensures
        spec_build_table_ascii(spec_preset_bindings(KeymapPreset::MsImeUs)).contains_key((KeySpec { vk: 0x26u16, ctrl: false, shift: false, alt: false }).spec_code()),
        spec_build_table_ascii(spec_preset_bindings(KeymapPreset::MsImeUs))[(KeySpec { vk: 0x26u16, ctrl: false, shift: false, alt: false }).spec_code()] == KeyAction::CandidatePrev,
{
    lemma_parse_preset_strings();
    let bs = spec_preset_bindings(KeymapPreset::MsImeUs);
    let k = KeySpec { vk: 0x26u16, ctrl: false, shift: false, alt: false };
    assert(bs[16] == ("Up"@, KeyAction::CandidatePrev));
    assert forall|m: int| 16 < m < bs.len() implies ascii_parse_key(#[trigger] bs[m].0) != Some(k) by {}
    lemma_ascii_table_value(bs, k, 16);
}

proof fn lemma_us_key_17()
    ensures
        spec_build_table_ascii(spec_preset_bindings(KeymapPreset::MsImeUs)).contains_key((KeySpec { vk: 0x9u16, ctrl: false, shift: false, alt: false }).spec_code()),
        spec_build_table_ascii(spec_preset_bindings(KeymapPreset::MsImeUs))[(KeySpec { vk: 0x9u16, ctrl: false, shift: false, alt: false }).spec_code()] == KeyAction::CandidatePageDown,
{
    lemma_parse_preset_strings();
    let bs = spec_preset_bindings(KeymapPreset::MsImeUs);
    let k = KeySpec { vk: 0x9u16, ctrl: false, shift: false, alt: false };
    assert(bs[17] == ("Tab"@, KeyAction::CandidatePageDown));
    assert forall|m: int| 17 < m < bs.len() implies ascii_parse_key(#[trigger] bs[m].0) != Some(k) by {}
    lemma_ascii_table_value(bs, k, 17);
}

proof fn lemma_us_key_18()
    ensures
        spec_build_table_ascii(spec_preset_bindings(KeymapPreset::MsImeUs)).contains_key((KeySpec { vk: 0x9u16, ctrl: false, shift: true, alt: false }).spec_code()),
        spec_build_table_ascii(spec_preset_bindings(KeymapPreset::MsImeUs))[(KeySpec { vk: 0x9u16, ctrl: false, shift: true, alt: false }).spec_code()] == KeyAction::CandidatePageUp,
{
    lemma_parse_preset_strings();
    let bs = spec_preset_bindings(KeymapPreset::MsImeUs);
    let k = KeySpec { vk: 0x9u16, ctrl: false, shift: true, alt: false };
    assert(bs[18] == ("Shift+Tab"@, KeyAction::CandidatePageUp));
    assert forall|m: int| 18 < m < bs.len() implies ascii_parse_key(#[trigger] bs[m].0) != Some(k) by {}
    lemma_ascii_table_value(bs, k, 18);
}

proof fn lemma_us_key_19()
    ensures
        spec_build_table_ascii(spec_preset_bindings(KeymapPreset::MsImeUs)).contains_key((KeySpec { vk: 0x22u16, ctrl: false, shift: false, alt: false }).spec_code()),
        spec_build_table_ascii(spec_preset_bindings(KeymapPreset::MsImeUs))[(KeySpec { vk: 0x22u16, ctrl: false, shift: false, alt: false }).spec_code()] == KeyAction::CandidatePageDown,
{
    lemma_parse_preset_strings();
    let bs = spec_preset_bindings(KeymapPreset::MsImeUs);
    let k = KeySpec { vk: 0x22u16, ctrl: false, shift: false, alt: false };
    assert(bs[19] == ("PageDown"@, KeyAction::CandidatePageDown));
    assert forall|m: int| 19 < m < bs.len() implies ascii_parse_key(#[trigger] bs[m].0) != Some(k) by {}
    lemma_ascii_table_value(bs, k, 19);
}

proof fn lemma_us_key_20()
    ensures
        spec_build_table_ascii(spec_preset_bindings(KeymapPreset::MsImeUs)).contains_key((KeySpec { vk: 0x21u16, ctrl: false, shift: false, alt: false }).spec_code()),
        spec_build_table_ascii(spec_preset_bindings(KeymapPreset::MsImeUs))[(KeySpec { vk: 0x21u16, ctrl: false, shift: false, alt: false }).spec_code()] == KeyAction::CandidatePageUp,
{
    lemma_parse_preset_strings();
    let bs = spec_preset_bindings(KeymapPreset::MsImeUs);
    let k = KeySpec { vk: 0x21u16, ctrl: false, shift: false, alt: false };
    assert(bs[20] == ("PageUp"@, KeyAction::CandidatePageUp));
    assert forall|m: int| 20 < m < bs.len() implies ascii_parse_key(#[trigger] bs[m].0) != Some(k) by {}
    lemma_ascii_table_value(bs, k, 20);
}

proof fn lemma_us_key_21()
    ensures
        spec_build_table_ascii(spec_preset_bindings(KeymapPreset::MsImeUs)).contains_key((KeySpec { vk: 0x25u16, ctrl: false, shift: false, alt: false }).spec_code()),
        spec_build_table_ascii(spec_preset_bindings(KeymapPreset::MsImeUs))[(KeySpec { vk: 0x25u16, ctrl: false, shift: false, alt: false }).spec_code()] == KeyAction::CursorLeft,
{
    lemma_parse_preset_strings();
    let bs = spec_preset_bindings(KeymapPreset::MsImeUs);
    let k = KeySpec { vk: 0x25u16, ctrl: false, shift: false, alt: false };
    assert(bs[21] == ("Left"@, KeyAction::CursorLeft));
    assert forall|m: int| 21 < m < bs.len() implies ascii_parse_key(#[trigger] bs[m].0) != Some(k) by {}
    lemma_ascii_table_value(bs, k, 21);
}

proof fn lemma_us_key_22()
    ensures
        spec_build_table_ascii(spec_preset_bindings(KeymapPreset::MsImeUs)).contains_key((KeySpec { vk: 0x27u16, ctrl: false, shift: false, alt: false }).spec_code()),
        spec_build_table_ascii(spec_preset_bindings(KeymapPreset::MsImeUs))[(KeySpec { vk: 0x27u16, ctrl: false, shift: false, alt: false }).spec_code()] == KeyAction::CursorRight,
{
    lemma_parse_preset_strings();
    let bs = spec_preset_bindings(KeymapPreset::MsImeUs);
    let k = KeySpec { vk: 0x27u16, ctrl: false, shift: false, alt: false };
    assert(bs[22] == ("Right"@, KeyAction::CursorRight));
    assert forall|m: int| 22 < m < bs.len() implies ascii_parse_key(#[trigger] bs[m].0) != Some(k) by {}
    lemma_ascii_table_value(bs, k, 22);
}

proof fn lemma_us_key_23()
    ensures
        spec_build_table_ascii(spec_preset_bindings(KeymapPreset::MsImeUs)).contains_key((KeySpec { vk: 0x25u16, ctrl: false, shift: true, alt: false }).spec_code()),
        spec_build_table_ascii(spec_preset_bindings(KeymapPreset::MsImeUs))[(KeySpec { vk: 0x25u16, ctrl: false, shift: true, alt: false }).spec_code()] == KeyAction::SegmentShrink,
{
    lemma_parse_preset_strings();
    let bs = spec_preset_bindings(KeymapPreset::MsImeUs);
    let k = KeySpec { vk: 0x25u16, ctrl: false, shift: true, alt: false };
    assert(bs[23] == ("Shift+Left"@, KeyAction::SegmentShrink));
    assert forall|m: int| 23 < m < bs.len() implies ascii_parse_key(#[trigger] bs[m].0) != Some(k) by {}
    lemma_ascii_table_value(bs, k, 23);
}

proof fn lemma_us_key_24()
    ensures
        spec_build_table_ascii(spec_preset_bindings(KeymapPreset::MsImeUs)).contains_key((KeySpec { vk: 0x27u16, ctrl: false, shift: true, alt: false }).spec_code()),
        spec_build_table_ascii(spec_preset_bindings(KeymapPreset::MsImeUs))[(KeySpec { vk: 0x27u16, ctrl: false, shift: true, alt: false }).spec_code()] == KeyAction::SegmentExtend,
{
    lemma_parse_preset_strings();
    let bs = spec_preset_bindings(KeymapPreset::MsImeUs);
    let k = KeySpec { vk: 0x27u16, ctrl: false, shift: true, alt: false };
    assert(bs[24] == ("Shift+Right"@, KeyAction::SegmentExtend));
    assert forall|m: int| 24 < m < bs.len() implies ascii_parse_key(#[trigger] bs[m].0) != Some(k) by {}
    lemma_ascii_table_value(bs, k, 24);
}

proof fn lemma_jis_key_0()
    ensures
        spec_build_table_ascii(spec_preset_bindings(KeymapPreset::MsImeJis)).contains_key((KeySpec { vk: 0x20u16, ctrl: false, shift: false, alt: false }).spec_code()),
        spec_build_table_ascii(spec_preset_bindings(KeymapPreset::MsImeJis))[(KeySpec { vk: 0x20u16, ctrl: false, shift: false, alt: false }).spec_code()] == KeyAction::Convert,
{
    lemma_parse_preset_strings();
    let bs = spec_preset_bindings(KeymapPreset::MsImeJis);
    let k = KeySpec { vk: 0x20u16, ctrl: false, shift: false, alt: false };
    assert(bs[0] == ("Space"@, KeyAction::Convert));
    assert forall|m: int| 0 < m < bs.len() implies ascii_parse_key(#[trigger] bs[m].0) != Some(k) by {}
    lemma_ascii_table_value(bs, k, 0);
}

proof fn lemma_jis_key_1()
    ensures
        spec_build_table_ascii(spec_preset_bindings(KeymapPreset::MsImeJis)).contains_key((KeySpec { vk: 0xdu16, ctrl: false, shift: false, alt: false }).spec_code()),
        spec_build_table_ascii(spec_preset_bindings(KeymapPreset::MsImeJis))[(KeySpec { vk: 0xdu16, ctrl: false, shift: false, alt: false }).spec_code()] == KeyAction::CommitRaw,
{
    lemma_parse_preset_strings();
    let bs = spec_preset_bindings(KeymapPreset::MsImeJis);
    let k = KeySpec { vk: 0xdu16, ctrl: false, shift: false, alt: false };
    assert(bs[1] == ("Enter"@, KeyAction::CommitRaw));
    assert forall|m: int| 1 < m < bs.len() implies ascii_parse_key(#[trigger] bs[m].0) != Some(k) by {}
    lemma_ascii_table_value(bs, k, 1);
}

proof fn lemma_jis_key_2()
    ensures
        spec_build_table_ascii(spec_preset_bindings(KeymapPreset::MsImeJis)).contains_key((KeySpec { vk: 0x1cu16, ctrl: false, shift: false, alt: false }).spec_code()),
        spec_build_table_ascii(spec_preset_bindings(KeymapPreset::MsImeJis))[(KeySpec { vk: 0x1cu16, ctrl: false, shift: false, alt: false }).spec_code()] == KeyAction::Convert,
{
    lemma_parse_preset_strings();
    let bs = spec_preset_bindings(KeymapPreset::MsImeJis);
    let k = KeySpec { vk: 0x1cu16, ctrl: false, shift: false, alt: false };
    assert(bs[2] == ("Henkan"@, KeyAction::Convert));
    assert forall|m: int| 2 < m < bs.len() implies ascii_parse_key(#[trigger] bs[m].0) != Some(k) by {}
    lemma_ascii_table_value(bs, k, 2);
}

proof fn lemma_jis_key_3()
    ensures
        spec_build_table_ascii(spec_preset_bindings(KeymapPreset::MsImeJis)).contains_key((KeySpec { vk: 0x1bu16, ctrl: false, shift: false, alt: false }).spec_code()),
        spec_build_table_ascii(spec_preset_bindings(KeymapPreset::MsImeJis))[(KeySpec { vk: 0x1bu16, ctrl: false, shift: false, alt: false }).spec_code()] == KeyAction::Cancel,
{
    lemma_parse_preset_strings();
    let bs = spec_preset_bindings(KeymapPreset::MsImeJis);
    let k = KeySpec { vk: 0x1bu16, ctrl: false, shift: false, alt: false };
    assert(bs[3] == ("Escape"@, KeyAction::Cancel));
    assert forall|m: int| 3 < m < bs.len() implies ascii_parse_key(#[trigger] bs[m].0) != Some(k) by {}
    lemma_ascii_table_value(bs, k, 3);
}

proof fn lemma_jis_key_4()
    ensures
        spec_build_table_ascii(spec_preset_bindings(KeymapPreset::MsImeJis)).contains_key((KeySpec { vk: 0x8u16, ctrl: true, shift: false, alt: false }).spec_code()),
        spec_build_table_ascii(spec_preset_bindings(KeymapPreset::MsImeJis))[(KeySpec { vk: 0x8u16, ctrl: true, shift: false, alt: false }).spec_code()] == KeyAction::CancelAll,
{
    lemma_parse_preset_strings();
    let bs = spec_preset_bindings(KeymapPreset::MsImeJis);
    let k = KeySpec { vk: 0x8u16, ctrl: true, shift: false, alt: false };
    assert(bs[4] == ("Ctrl+Backspace"@, KeyAction::CancelAll));
    assert forall|m: int| 4 < m < bs.len() implies ascii_parse_key(#[trigger] bs[m].0) != Some(k) by {}
    lemma_ascii_table_value(bs, k, 4);
}

proof fn lemma_jis_key_5()
    ensures
        spec_build_table_ascii(spec_preset_bindings(KeymapPreset::MsImeJis)).contains_key((KeySpec { vk: 0x8u16, ctrl: false, shift: false, alt: false }).spec_code()),
        spec_build_table_ascii(spec_preset_bindings(KeymapPreset::MsImeJis))[(KeySpec { vk: 0x8u16, ctrl: false, shift: false, alt: false }).spec_code()] == KeyAction::Backspace,
{
    lemma_parse_preset_strings();
    let bs = spec_preset_bindings(KeymapPreset::MsImeJis);
    let k = KeySpec { vk: 0x8u16, ctrl: false, shift: false, alt: false };
    assert(bs[5] == ("Backspace"@, KeyAction::Backspace));
    assert forall|m: int| 5 < m < bs.len() implies ascii_parse_key(#[trigger] bs[m].0) != Some(k) by {}
    lemma_ascii_table_value(bs, k, 5);
}

proof fn lemma_jis_key_6()
    ensures
        spec_build_table_ascii(spec_preset_bindings(KeymapPreset::MsImeJis)).contains_key((KeySpec { vk: 0x75u16, ctrl: false, shift: false, alt: false }).spec_code()),
        spec_build_table_ascii(spec_preset_bindings(KeymapPreset::MsImeJis))[(KeySpec { vk: 0x75u16, ctrl: false, shift: false, alt: false }).spec_code()] == KeyAction::Hiragana,
{
    lemma_parse_preset_strings();
    let bs = spec_preset_bindings(KeymapPreset::MsImeJis);
    let k = KeySpec { vk: 0x75u16, ctrl: false, shift: false, alt: false };
    assert(bs[6] == ("F6"@, KeyAction::Hiragana));
    assert forall|m: int| 6 < m < bs.len() implies ascii_parse_key(#[trigger] bs[m].0) != Some(k) by {}
    lemma_ascii_table_value(bs, k, 6);
}

proof fn lemma_jis_key_7()
    ensures
        spec_build_table_ascii(spec_preset_bindings(KeymapPreset::MsImeJis)).contains_key((KeySpec { vk: 0x76u16, ctrl: false, shift: false, alt: false }).spec_code()),
        spec_build_table_ascii(spec_preset_bindings(KeymapPreset::MsImeJis))[(KeySpec { vk: 0x76u16, ctrl: false, shift: false, alt: false }).spec_code()] == KeyAction::Katakana,
{
    lemma_parse_preset_strings();
    let bs = spec_preset_bindings(KeymapPreset::MsImeJis);
    let k = KeySpec { vk: 0x76u16, ctrl: false, shift: false, alt: false };
    assert(bs[7] == ("F7"@, KeyAction::Katakana));
    assert forall|m: int| 7 < m < bs.len() implies ascii_parse_key(#[trigger] bs[m].0) != Some(k) by {}
    lemma_ascii_table_value(bs, k, 7);
}

proof fn lemma_jis_key_8()
    ensures
        spec_build_table_ascii(spec_preset_bindings(KeymapPreset::MsImeJis)).contains_key((KeySpec { vk: 0x77u16, ctrl: false, shift: false, alt: false }).spec_code()),
        spec_build_table_ascii(spec_preset_bindings(KeymapPreset::MsImeJis))[(KeySpec { vk: 0x77u16, ctrl: false, shift: false, alt: false }).spec_code()] == KeyAction::HalfKatakana,
{
    lemma_parse_preset_strings();
    let bs = spec_preset_bindings(KeymapPreset::MsImeJis);
    let k = KeySpec { vk: 0x77u16, ctrl: false, shift: false, alt: false };
    assert(bs[8] == ("F8"@, KeyAction::HalfKatakana));
    assert forall|m: int| 8 < m < bs.len() implies ascii_parse_key(#[trigger] bs[m].0) != Some(k) by {}
    lemma_ascii_table_value(bs, k, 8);
}

proof fn lemma_jis_key_9()
    ensures
        spec_build_table_ascii(spec_preset_bindings(KeymapPreset::MsImeJis)).contains_key((KeySpec { vk: 0x78u16, ctrl: false, shift: false, alt: false }).spec_code()),
        spec_build_table_ascii(spec_preset_bindings(KeymapPreset::MsImeJis))[(KeySpec { vk: 0x78u16, ctrl: false, shift: false, alt: false }).spec_code()] == KeyAction::FullLatin,
{
    lemma_parse_preset_strings();
    let bs = spec_preset_bindings(KeymapPreset::MsImeJis);
    let k = KeySpec { vk: 0x78u16, ctrl: false, shift: false, alt: false };
    assert(bs[9] == ("F9"@, KeyAction::FullLatin));
    assert forall|m: int| 9 < m < bs.len() implies ascii_parse_key(#[trigger] bs[m].0) != Some(k) by {}
    lemma_ascii_table_value(bs, k, 9);
}

proof fn lemma_jis_key_10()
    ensures
        spec_build_table_ascii(spec_preset_bindings(KeymapPreset::MsImeJis)).contains_key((KeySpec { vk: 0x79u16, ctrl: false, shift: false, alt: false }).spec_code()),
        spec_build_table_ascii(spec_preset_bindings(KeymapPreset::MsImeJis))[(KeySpec { vk: 0x79u16, ctrl: false, shift: false, alt: false }).spec_code()] == KeyAction::HalfLatin,
{
    lemma_parse_preset_strings();
    let bs = spec_preset_bindings(KeymapPreset::MsImeJis);
    let k = KeySpec { vk: 0x79u16, ctrl: false, shift: false, alt: false };
    assert(bs[10] == ("F10"@, KeyAction::HalfLatin));
    assert forall|m: int| 10 < m < bs.len() implies ascii_parse_key(#[trigger] bs[m].0) != Some(k) by {}
    lemma_ascii_table_value(bs, k, 10);
}

proof fn lemma_jis_key_11()
    ensures
        spec_build_table_ascii(spec_preset_bindings(KeymapPreset::MsImeJis)).contains_key((KeySpec { vk: 0x1du16, ctrl: false, shift: false, alt: false }).spec_code()),
        spec_build_table_ascii(spec_preset_bindings(KeymapPreset::MsImeJis))[(KeySpec { vk: 0x1du16, ctrl: false, shift: false, alt: false }).spec_code()] == KeyAction::CycleKana,
{
    lemma_parse_preset_strings();
    let bs = spec_preset_bindings(KeymapPreset::MsImeJis);
    let k = KeySpec { vk: 0x1du16, ctrl: false, shift: false, alt: false };
    assert(bs[11] == ("Muhenkan"@, KeyAction::CycleKana));
    assert forall|m: int| 11 < m < bs.len() implies ascii_parse_key(#[trigger] bs[m].0) != Some(k) by {}
    lemma_ascii_table_value(bs, k, 11);
}

proof fn lemma_jis_key_12()
    ensures
        spec_build_table_ascii(spec_preset_bindings(KeymapPreset::MsImeJis)).contains_key((KeySpec { vk: 0x20u16, ctrl: false, shift: true, alt: false }).spec_code()),
        spec_build_table_ascii(spec_preset_bindings(KeymapPreset::MsImeJis))[(KeySpec { vk: 0x20u16, ctrl: false, shift: true, alt: false }).spec_code()] == KeyAction::FullWidthSpace,
{
    lemma_parse_preset_strings();
    let bs = spec_preset_bindings(KeymapPreset::MsImeJis);
    let k = KeySpec { vk: 0x20u16, ctrl: false, shift: true, alt: false };
    assert(bs[12] == ("Shift+Space"@, KeyAction::FullWidthSpace));
    assert forall|m: int| 12 < m < bs.len() implies ascii_parse_key(#[trigger] bs[m].0) != Some(k) by {}
    lemma_ascii_table_value(bs, k, 12);
}

proof fn lemma_jis_key_13()
    ensures
        spec_build_table_ascii(spec_preset_bindings(KeymapPreset::MsImeJis)).contains_key((KeySpec { vk: 0x28u16, ctrl: false, shift: false, alt: false }).spec_code()),
        spec_build_table_ascii(spec_preset_bindings(KeymapPreset::MsImeJis))[(KeySpec { vk: 0x28u16, ctrl: false, shift: false, alt: false }).spec_code()] == KeyAction::CandidateNext,
{
    lemma_parse_preset_strings();
    let bs = spec_preset_bindings(KeymapPreset::MsImeJis);
    let k = KeySpec { vk: 0x28u16, ctrl: false, shift: false, alt: false };
    assert(bs[13] == ("Down"@, KeyAction::CandidateNext));
    assert forall|m: int| 13 < m < bs.len() implies ascii_parse_key(#[trigger] bs[m].0) != Some(k) by {}
    lemma_ascii_table_value(bs, k, 13);
}

proof fn lemma_jis_key_14()
    ensures
        spec_build_table_ascii(spec_preset_bindings(KeymapPreset::MsImeJis)).contains_key((KeySpec { vk: 0x26u16, ctrl: false, shift: false, alt: false }).spec_code()),
        spec_build_table_ascii(spec_preset_bindings(KeymapPreset::MsImeJis))[(KeySpec { vk: 0x26u16, ctrl: false, shift: false, alt: false }).spec_code()] == KeyAction::CandidatePrev,
{
    lemma_parse_preset_strings();
    let bs = spec_preset_bindings(KeymapPreset::MsImeJis);
    let k = KeySpec { vk: 0x26u16, ctrl: false, shift: false, alt: false };
    assert(bs[14] == ("Up"@, KeyAction::CandidatePrev));
    assert forall|m: int| 14 < m < bs.len() implies ascii_parse_key(#[trigger] bs[m].0) != Some(k) by {}
    lemma_ascii_table_value(bs, k, 14);
}

proof fn lemma_jis_key_15()
    ensures
        spec_build_table_ascii(spec_preset_bindings(KeymapPreset::MsImeJis)).contains_key((KeySpec { vk: 0x9u16, ctrl: false, shift: false, alt: false }).spec_code()),
        spec_build_table_ascii(spec_preset_bindings(KeymapPreset::MsImeJis))[(KeySpec { vk: 0x9u16, ctrl: false, shift: false, alt: false }).spec_code()] == KeyAction::CandidatePageDown,
{
    lemma_parse_preset_strings();
    let bs = spec_preset_bindings(KeymapPreset::MsImeJis);
    let k = KeySpec { vk: 0x9u16, ctrl: false, shift: false, alt: false };
    assert(bs[15] == ("Tab"@, KeyAction::CandidatePageDown));
    assert forall|m: int| 15 < m < bs.len() implies ascii_parse_key(#[trigger] bs[m].0) != Some(k) by {}
    lemma_ascii_table_value(bs, k, 15);
}

proof fn lemma_jis_key_16()
    ensures
        spec_build_table_ascii(spec_preset_bindings(KeymapPreset::MsImeJis)).contains_key((KeySpec { vk: 0x9u16, ctrl: false, shift: true, alt: false }).spec_code()),
        spec_build_table_ascii(spec_preset_bindings(KeymapPreset::MsImeJis))[(KeySpec { vk: 0x9u16, ctrl: false, shift: true, alt: false }).spec_code()] == KeyAction::CandidatePageUp,
{
    lemma_parse_preset_strings();
    let bs = spec_preset_bindings(KeymapPreset::MsImeJis);
    let k = KeySpec { vk: 0x9u16, ctrl: false, shift: true, alt: false };
    assert(bs[16] == ("Shift+Tab"@, KeyAction::CandidatePageUp));
    assert forall|m: int| 16 < m < bs.len() implies ascii_parse_key(#[trigger] bs[m].0) != Some(k) by {}
    lemma_ascii_table_value(bs, k, 16);
}

proof fn lemma_jis_key_17()
    ensures
        spec_build_table_ascii(spec_preset_bindings(KeymapPreset::MsImeJis)).contains_key((KeySpec { vk: 0x22u16, ctrl: false, shift: false, alt: false }).spec_code()),
        spec_build_table_ascii(spec_preset_bindings(KeymapPreset::MsImeJis))[(KeySpec { vk: 0x22u16, ctrl: false, shift: false, alt: false }).spec_code()] == KeyAction::CandidatePageDown,
{
    lemma_parse_preset_strings();
    let bs = spec_preset_bindings(KeymapPreset::MsImeJis);
    let k = KeySpec { vk: 0x22u16, ctrl: false, shift: false, alt: false };
    assert(bs[17] == ("PageDown"@, KeyAction::CandidatePageDown));
    assert forall|m: int| 17 < m < bs.len() implies ascii_parse_key(#[trigger] bs[m].0) != Some(k) by {}
    lemma_ascii_table_value(bs, k, 17);
}

proof fn lemma_jis_key_18()
    ensures
        spec_build_table_ascii(spec_preset_bindings(KeymapPreset::MsImeJis)).contains_key((KeySpec { vk: 0x21u16, ctrl: false, shift: false, alt: false }).spec_code()),
        spec_build_table_ascii(spec_preset_bindings(KeymapPreset::MsImeJis))[(KeySpec { vk: 0x21u16, ctrl: false, shift: false, alt: false }).spec_code()] == KeyAction::CandidatePageUp,
{
    lemma_parse_preset_strings();
    let bs = spec_preset_bindings(KeymapPreset::MsImeJis);
    let k = KeySpec { vk: 0x21u16, ctrl: false, shift: false, alt: false };
    assert(bs[18] == ("PageUp"@, KeyAction::CandidatePageUp));
    assert forall|m: int| 18 < m < bs.len() implies ascii_parse_key(#[trigger] bs[m].0) != Some(k) by {}
    lemma_ascii_table_value(bs, k, 18);
}

proof fn lemma_jis_key_19()
    ensures
        spec_build_table_ascii(spec_preset_bindings(KeymapPreset::MsImeJis)).contains_key((KeySpec { vk: 0x19u16, ctrl: false, shift: false, alt: false }).spec_code()),
        spec_build_table_ascii(spec_preset_bindings(KeymapPreset::MsImeJis))[(KeySpec { vk: 0x19u16, ctrl: false, shift: false, alt: false }).spec_code()] == KeyAction::ImeToggle,
{
    lemma_parse_preset_strings();
    let bs = spec_preset_bindings(KeymapPreset::MsImeJis);
    let k = KeySpec { vk: 0x19u16, ctrl: false, shift: false, alt: false };
    assert(bs[19] == ("Zenkaku"@, KeyAction::ImeToggle));
    assert forall|m: int| 19 < m < bs.len() implies ascii_parse_key(#[trigger] bs[m].0) != Some(k) by {}
    lemma_ascii_table_value(bs, k, 19);
}

proof fn lemma_jis_key_20()
    ensures
        spec_build_table_ascii(spec_preset_bindings(KeymapPreset::MsImeJis)).contains_key((KeySpec { vk: 0x20u16, ctrl: true, shift: false, alt: false }).spec_code()),
        spec_build_table_ascii(spec_preset_bindings(KeymapPreset::MsImeJis))[(KeySpec { vk: 0x20u16, ctrl: true, shift: false, alt: false }).spec_code()] == KeyAction::ImeToggle,
{
    lemma_parse_preset_strings();
    let bs = spec_preset_bindings(KeymapPreset::MsImeJis);
    let k = KeySpec { vk: 0x20u16, ctrl: true, shift: false, alt: false };
    assert(bs[20] == ("Ctrl+Space"@, KeyAction::ImeToggle));
    assert forall|m: int| 20 < m < bs.len() implies ascii_parse_key(#[trigger] bs[m].0) != Some(k) by {}
    lemma_ascii_table_value(bs, k, 20);
}

proof fn lemma_jis_key_21()
    ensures
        spec_build_table_ascii(spec_preset_bindings(KeymapPreset::MsImeJis)).contains_key((KeySpec { vk: 0xf2u16, ctrl: false, shift: false, alt: false }).spec_code()),
        spec_build_table_ascii(spec_preset_bindings(KeymapPreset::MsImeJis))[(KeySpec { vk: 0xf2u16, ctrl: false, shift: false, alt: false }).spec_code()] == KeyAction::ModeHiragana,
{
    lemma_parse_preset_strings();
    let bs = spec_preset_bindings(KeymapPreset::MsImeJis);
    let k = KeySpec { vk: 0xf2u16, ctrl: false, shift: false, alt: false };
    assert(bs[21] == ("Hiragana_key"@, KeyAction::ModeHiragana));
    assert forall|m: int| 21 < m < bs.len() implies ascii_parse_key(#[trigger] bs[m].0) != Some(k) by {}
    lemma_ascii_table_value(bs, k, 21);
}

proof fn lemma_jis_key_22()
    ensures
        spec_build_table_ascii(spec_preset_bindings(KeymapPreset::MsImeJis)).contains_key((KeySpec { vk: 0x14u16, ctrl: true, shift: false, alt: false }).spec_code()),
        spec_build_table_ascii(spec_preset_bindings(KeymapPreset::MsImeJis))[(KeySpec { vk: 0x14u16, ctrl: true, shift: false, alt: false }).spec_code()] == KeyAction::ModeHiragana,
{
    lemma_parse_preset_strings();
    let bs = spec_preset_bindings(KeymapPreset::MsImeJis);
    let k = KeySpec { vk: 0x14u16, ctrl: true, shift: false, alt: false };
    assert(bs[22] == ("Ctrl+Caps"@, KeyAction::ModeHiragana));
    assert forall|m: int| 22 < m < bs.len() implies ascii_parse_key(#[trigger] bs[m].0) != Some(k) by {}
    lemma_ascii_table_value(bs, k, 22);
}

proof fn lemma_jis_key_23()
    ensures
        spec_build_table_ascii(spec_preset_bindings(KeymapPreset::MsImeJis)).contains_key((KeySpec { vk: 0xf1u16, ctrl: false, shift: false, alt: false }).spec_code()),
        spec_build_table_ascii(spec_preset_bindings(KeymapPreset::MsImeJis))[(KeySpec { vk: 0xf1u16, ctrl: false, shift: false, alt: false }).spec_code()] == KeyAction::ModeKatakana,
{
    lemma_parse_preset_strings();
    let bs = spec_preset_bindings(KeymapPreset::MsImeJis);
    let k = KeySpec { vk: 0xf1u16, ctrl: false, shift: false, alt: false };
    assert(bs[23] == ("Katakana"@, KeyAction::ModeKatakana));
    assert forall|m: int| 23 < m < bs.len() implies ascii_parse_key(#[trigger] bs[m].0) != Some(k) by {}
    lemma_ascii_table_value(bs, k, 23);
}

proof fn lemma_jis_key_24()
    ensures
        spec_build_table_ascii(spec_preset_bindings(KeymapPreset::MsImeJis)).contains_key((KeySpec { vk: 0x14u16, ctrl: false, shift: false, alt: true }).spec_code()),
        spec_build_table_ascii(spec_preset_bindings(KeymapPreset::MsImeJis))[(KeySpec { vk: 0x14u16, ctrl: false, shift: false, alt: true }).spec_code()] == KeyAction::ModeKatakana,
{
    lemma_parse_preset_strings();
    let bs = spec_preset_bindings(KeymapPreset::MsImeJis);
    let k = KeySpec { vk: 0x14u16, ctrl: false, shift: false, alt: true };
    assert(bs[24] == ("Alt+Caps"@, KeyAction::ModeKatakana));
    assert forall|m: int| 24 < m < bs.len() implies ascii_parse_key(#[trigger] bs[m].0) != Some(k) by {}
    lemma_ascii_table_value(bs, k, 24);
}

proof fn lemma_jis_key_25()
    ensures
        spec_build_table_ascii(spec_preset_bindings(KeymapPreset::MsImeJis)).contains_key((KeySpec { vk: 0xf0u16, ctrl: false, shift: false, alt: false }).spec_code()),
        spec_build_table_ascii(spec_preset_bindings(KeymapPreset::MsImeJis))[(KeySpec { vk: 0xf0u16, ctrl: false, shift: false, alt: false }).spec_code()] == KeyAction::ModeAlphanumeric,
{
    lemma_parse_preset_strings();
    let bs = spec_preset_bindings(KeymapPreset::MsImeJis);
    let k = KeySpec { vk: 0xf0u16, ctrl: false, shift: false, alt: false };
    assert(bs[25] == ("Eisuu"@, KeyAction::ModeAlphanumeric));
    assert forall|m: int| 25 < m < bs.len() implies ascii_parse_key(#[trigger] bs[m].0) != Some(k) by {}
    lemma_ascii_table_value(bs, k, 25);
}

proof fn lemma_jis_key_26()
    ensures
        spec_build_table_ascii(spec_preset_bindings(KeymapPreset::MsImeJis)).contains_key((KeySpec { vk: 0x25u16, ctrl: false, shift: false, alt: false }).spec_code()),
        spec_build_table_ascii(spec_preset_bindings(KeymapPreset::MsImeJis))[(KeySpec { vk: 0x25u16, ctrl: false, shift: false, alt: false }).spec_code()] == KeyAction::CursorLeft,
{
    lemma_parse_preset_strings();
    let bs = spec_preset_bindings(KeymapPreset::MsImeJis);
    let k = KeySpec { vk: 0x25u16, ctrl: false, shift: false, alt: false };
    assert(bs[26] == ("Left"@, KeyAction::CursorLeft));
    assert forall|m: int| 26 < m < bs.len() implies ascii_parse_key(#[trigger] bs[m].0) != Some(k) by {}
    lemma_ascii_table_value(bs, k, 26);
}

proof fn lemma_jis_key_27()
    ensures
        spec_build_table_ascii(spec_preset_bindings(KeymapPreset::MsImeJis)).contains_key((KeySpec { vk: 0x27u16, ctrl: false, shift: false, alt: false }).spec_code()),
        spec_build_table_ascii(spec_preset_bindings(KeymapPreset::MsImeJis))[(KeySpec { vk: 0x27u16, ctrl: false, shift: false, alt: false }).spec_code()] == KeyAction::CursorRight,
{
    lemma_parse_preset_strings();
    let bs = spec_preset_bindings(KeymapPreset::MsImeJis);
    let k = KeySpec { vk: 0x27u16, ctrl: false, shift: false, alt: false };
    assert(bs[27] == ("Right"@, KeyAction::CursorRight));
    assert forall|m: int| 27 < m < bs.len() implies ascii_parse_key(#[trigger] bs[m].0) != Some(k) by {}
    lemma_ascii_table_value(bs, k, 27);
}

proof fn lemma_jis_key_28()
    ensures
        spec_build_table_ascii(spec_preset_bindings(KeymapPreset::MsImeJis)).contains_key((KeySpec { vk: 0x25u16, ctrl: false, shift: true, alt: false }).spec_code()),
        spec_build_table_ascii(spec_preset_bindings(KeymapPreset::MsImeJis))[(KeySpec { vk: 0x25u16, ctrl: false, shift: true, alt: false }).spec_code()] == KeyAction::SegmentShrink,
{
    lemma_parse_preset_strings();
    let bs = spec_preset_bindings(KeymapPreset::MsImeJis);
    let k = KeySpec { vk: 0x25u16, ctrl: false, shift: true, alt: false };
    assert(bs[28] == ("Shift+Left"@, KeyAction::SegmentShrink));
    assert forall|m: int| 28 < m < bs.len() implies ascii_parse_key(#[trigger] bs[m].0) != Some(k) by {}
    lemma_ascii_table_value(bs, k, 28);
}

proof fn lemma_jis_key_29()
    ensures
        spec_build_table_ascii(spec_preset_bindings(KeymapPreset::MsImeJis)).contains_key((KeySpec { vk: 0x27u16, ctrl: false, shift: true, alt: false }).spec_code()),
        spec_build_table_ascii(spec_preset_bindings(KeymapPreset::MsImeJis))[(KeySpec { vk: 0x27u16, ctrl: false, shift: true, alt: false }).spec_code()] == KeyAction::SegmentExtend,
{
    lemma_parse_preset_strings();
    let bs = spec_preset_bindings(KeymapPreset::MsImeJis);
    let k = KeySpec { vk: 0x27u16, ctrl: false, shift: true, alt: false };
    assert(bs[29] == ("Shift+Right"@, KeyAction::SegmentExtend));
    assert forall|m: int| 29 < m < bs.len() implies ascii_parse_key(#[trigger] bs[m].0) != Some(k) by {}
    lemma_ascii_table_value(bs, k, 29);
}

/// The key assignments each built-in preset documents: for the US layout
/// Ctrl+Space toggles the input method and Ctrl+J/K/L pick the mode; for
/// JIS the Japanese keys do (Henkan converts, Muhenkan cycles kana, Zenkaku
/// toggles, Hiragana/Katakana/Eisuu and Ctrl/Alt+Caps pick the mode); both
/// convert with Space, commit with Enter, cancel with Escape, delete with
/// Backspace, convert to kana and Latin with F6 to F10, page candidates with
/// Up/Down/Tab/PageUp/PageDown and move or resize the selection with the
/// arrow keys.
pub open spec fn documented_keys(p: KeymapPreset) -> Seq<(Seq<char>, KeyAction)> {
    match p {
        KeymapPreset::MsImeUs => seq![
            ("Ctrl+Space"@, KeyAction::ImeToggle),
            ("Ctrl+J"@, KeyAction::ModeHiragana),
            ("Ctrl+K"@, KeyAction::ModeKatakana),
            ("Ctrl+L"@, KeyAction::ModeAlphanumeric),
            ("Space"@, KeyAction::Convert),
            ("Enter"@, KeyAction::CommitRaw),
            ("Escape"@, KeyAction::Cancel),
            ("Ctrl+Backspace"@, KeyAction::CancelAll),
            ("Backspace"@, KeyAction::Backspace),
            ("F6"@, KeyAction::Hiragana),
            ("F7"@, KeyAction::Katakana),
            ("F8"@, KeyAction::HalfKatakana),
            ("F9"@, KeyAction::FullLatin),
            ("F10"@, KeyAction::HalfLatin),
            ("Shift+Space"@, KeyAction::FullWidthSpace),
            ("Down"@, KeyAction::CandidateNext),
            ("Up"@, KeyAction::CandidatePrev),
            ("Tab"@, KeyAction::CandidatePageDown),
            ("Shift+Tab"@, KeyAction::CandidatePageUp),
            ("PageDown"@, KeyAction::CandidatePageDown),
            ("PageUp"@, KeyAction::CandidatePageUp),
            ("Left"@, KeyAction::CursorLeft),
            ("Right"@, KeyAction::CursorRight),
            ("Shift+Left"@, KeyAction::SegmentShrink),
            ("Shift+Right"@, KeyAction::SegmentExtend),
        ],
        KeymapPreset::MsImeJis => seq![
            ("Space"@, KeyAction::Convert),
            ("Enter"@, KeyAction::CommitRaw),
            ("Henkan"@, KeyAction::Convert),
            ("Escape"@, KeyAction::Cancel),
            ("Ctrl+Backspace"@, KeyAction::CancelAll),
            ("Backspace"@, KeyAction::Backspace),
            ("F6"@, KeyAction::Hiragana),
            ("F7"@, KeyAction::Katakana),
            ("F8"@, KeyAction::HalfKatakana),
            ("F9"@, KeyAction::FullLatin),
            ("F10"@, KeyAction::HalfLatin),
            ("Muhenkan"@, KeyAction::CycleKana),
            ("Shift+Space"@, KeyAction::FullWidthSpace),
            ("Down"@, KeyAction::CandidateNext),
            ("Up"@, KeyAction::CandidatePrev),
            ("Tab"@, KeyAction::CandidatePageDown),
            ("Shift+Tab"@, KeyAction::CandidatePageUp),
            ("PageDown"@, KeyAction::CandidatePageDown),
            ("PageUp"@, KeyAction::CandidatePageUp),
            ("Zenkaku"@, KeyAction::ImeToggle),
            ("Ctrl+Space"@, KeyAction::ImeToggle),
            ("Hiragana_key"@, KeyAction::ModeHiragana),
            ("Ctrl+Caps"@, KeyAction::ModeHiragana),
            ("Katakana"@, KeyAction::ModeKatakana),
            ("Alt+Caps"@, KeyAction::ModeKatakana),
            ("Eisuu"@, KeyAction::ModeAlphanumeric),
            ("Left"@, KeyAction::CursorLeft),
            ("Right"@, KeyAction::CursorRight),
            ("Shift+Left"@, KeyAction::SegmentShrink),
            ("Shift+Right"@, KeyAction::SegmentExtend),
        ],
        KeymapPreset::Custom => seq![],
    }
}

/// In each built-in preset every documented key assignment is in force:
/// the key string reads as a key, and that key resolves to the documented
/// action (no other binding of the preset takes the key).
pub proof fn lemma_preset_keys_resolve(p: KeymapPreset, i: int)
    requires
        p != KeymapPreset::Custom,
        0 <= i < documented_keys(p).len(),
    ensures
        ascii_parse_key(documented_keys(p)[i].0) matches Some(k) && spec_build_table_ascii(
            spec_preset_bindings(p),
        ).contains_key(k.spec_code()) && spec_build_table_ascii(spec_preset_bindings(p))[k.spec_code()]
            == documented_keys(p)[i].1,
{
    lemma_parse_preset_strings();
    if p == KeymapPreset::MsImeUs {
        if i == 0 {
            lemma_us_key_0();
        } else if i == 1 {
            lemma_us_key_1();
        } else if i == 2 {
            lemma_us_key_2();
        } else if i == 3 {
            lemma_us_key_3();
        } else if i == 4 {
            lemma_us_key_4();
        } else if i == 5 {
            lemma_us_key_5();
        } else if i == 6 {
            lemma_us_key_6();
        } else if i == 7 {
            lemma_us_key_7();
        } else if i == 8 {
            lemma_us_key_8();
        } else if i == 9 {
            lemma_us_key_9();
        } else if i == 10 {
            lemma_us_key_10();
        } else if i == 11 {
            lemma_us_key_11();
        } else if i == 12 {
            lemma_us_key_12();
        } else if i == 13 {
            lemma_us_key_13();
        } else if i == 14 {
            lemma_us_key_14();
        } else if i == 15 {
            lemma_us_key_15();
        } else if i == 16 {
            lemma_us_key_16();
        } else if i == 17 {
            lemma_us_key_17();
        } else if i == 18 {
            lemma_us_key_18();
        } else if i == 19 {
            lemma_us_key_19();
        } else if i == 20 {
            lemma_us_key_20();
        } else if i == 21 {
            lemma_us_key_21();
        } else if i == 22 {
            lemma_us_key_22();
        } else if i == 23 {
            lemma_us_key_23();
        } else if i == 24 {
            lemma_us_key_24();
        }
    } else {
        if i == 0 {
            lemma_jis_key_0();
        } else if i == 1 {
            lemma_jis_key_1();
        } else if i == 2 {
            lemma_jis_key_2();
        } else if i == 3 {
            lemma_jis_key_3();
        } else if i == 4 {
            lemma_jis_key_4();
        } else if i == 5 {
            lemma_jis_key_5();
        } else if i == 6 {
            lemma_jis_key_6();
        } else if i == 7 {
            lemma_jis_key_7();
        } else if i == 8 {
            lemma_jis_key_8();
        } else if i == 9 {
            lemma_jis_key_9();
        } else if i == 10 {
            lemma_jis_key_10();
        } else if i == 11 {
            lemma_jis_key_11();
        } else if i == 12 {
            lemma_jis_key_12();
        } else if i == 13 {
            lemma_jis_key_13();
        } else if i == 14 {
            lemma_jis_key_14();
        } else if i == 15 {
            lemma_jis_key_15();
        } else if i == 16 {
            lemma_jis_key_16();
        } else if i == 17 {
            lemma_jis_key_17();
        } else if i == 18 {
            lemma_jis_key_18();
        } else if i == 19 {
            lemma_jis_key_19();
        } else if i == 20 {
            lemma_jis_key_20();
        } else if i == 21 {
            lemma_jis_key_21();
        } else if i == 22 {
            lemma_jis_key_22();
        } else if i == 23 {
            lemma_jis_key_23();
        } else if i == 24 {
            lemma_jis_key_24();
        } else if i == 25 {
            lemma_jis_key_25();
        } else if i == 26 {
            lemma_jis_key_26();
        } else if i == 27 {
            lemma_jis_key_27();
        } else if i == 28 {
            lemma_jis_key_28();
        } else if i == 29 {
            lemma_jis_key_29();
        }
    }
}

} // verus!
