//! Text in the forms the Windows API takes: UTF-16 (with or without the
//! closing NUL), UTF-16 as little-endian bytes, and GUIDs in registry form.
use vstd::prelude::*;

use crate::text::{chars_of, push_char};

verus! {

/// The UTF-16 code units of one character: itself below U+10000, else a
/// surrogate pair.
pub open spec fn utf16_of(c: char) -> Seq<u16> {
    let n = c as u32;
    if n < 0x10000 {
        seq![n as u16]
    } else {
        let m = (n - 0x10000) as u32;
        seq![(0xD800 + m / 1024) as u16, (0xDC00 + m % 1024) as u16]
    }
}

/// The UTF-16 encoding of a character sequence.
pub open spec fn spec_utf16(s: Seq<char>) -> Seq<u16>
    decreases s.len(),
{
    if s.len() == 0 {
        seq![]
    } else {
        spec_utf16(s.drop_last()) + utf16_of(s.last())
    }
}

/// UTF-16 code units as little-endian bytes.
pub open spec fn spec_le_bytes(u: Seq<u16>) -> Seq<u8>
    decreases u.len(),
{
    if u.len() == 0 {
        seq![]
    } else {
        spec_le_bytes(u.drop_last()) + seq![(u.last() % 256) as u8, (u.last() / 256) as u8]
    }
}

fn encode_utf16(s: &str) -> (r: Vec<u16>)
    ensures
        r@ == spec_utf16(s@),
{
    let v = chars_of(s);
    let mut r: Vec<u16> = Vec::new();
    let mut i: usize = 0;
    while i < v.len()
        invariant
            i <= v.len(),
            v@ == s@,
            r@ == spec_utf16(v@.take(i as int)),
        decreases v.len() - i,
    {
        assert(v@.take(i + 1).drop_last() == v@.take(i as int));
        let n = v[i] as u32;
        if n < 0x10000 {
            r.push(n as u16);
        } else {
            let m = n - 0x10000;
            r.push((0xD800 + m / 1024) as u16);
            r.push((0xDC00 + m % 1024) as u16);
        }
        assert(r@ =~= spec_utf16(v@.take(i + 1)));
        i = i + 1;
    }
    assert(v@.take(v.len() as int) == v@);
    r
}

fn le_bytes(u: &Vec<u16>) -> (r: Vec<u8>)
    ensures
        r@ == spec_le_bytes(u@),
{
    let mut r: Vec<u8> = Vec::new();
    let mut i: usize = 0;
    while i < u.len()
        invariant
            i <= u.len(),
            r@ == spec_le_bytes(u@.take(i as int)),
        decreases u.len() - i,
    {
        assert(u@.take(i + 1).drop_last() == u@.take(i as int));
        r.push((u[i] % 256) as u8);
        r.push((u[i] / 256) as u8);
        assert(r@ =~= spec_le_bytes(u@.take(i + 1)));
        i = i + 1;
    }
    assert(u@.take(u.len() as int) == u@);
    r
}

/// Conversions of text for the Windows API.
pub trait StringExt {
    spec fn text(&self) -> Seq<char>;

    /// UTF-16 with a closing NUL.
    fn to_wide_16(&self) -> (r: Vec<u16>)
        ensures
            r@ == spec_utf16(self.text()).push(0),
    ;

    /// UTF-16 without a closing NUL.
    fn to_wide_16_unpadded(&self) -> (r: Vec<u16>)
        ensures
            r@ == spec_utf16(self.text()),
    ;

    /// UTF-16 as little-endian bytes, then one NUL byte.
    fn to_wide(&self) -> (r: Vec<u8>)
        ensures
            r@ == spec_le_bytes(spec_utf16(self.text())).push(0),
    ;
}

impl<'a> StringExt for &'a str {
    open spec fn text(&self) -> Seq<char> {
        (*self)@
    }

    fn to_wide_16(&self) -> (r: Vec<u16>) {
        let mut r = encode_utf16(*self);
        r.push(0);
        r
    }

    fn to_wide_16_unpadded(&self) -> (r: Vec<u16>) {
        encode_utf16(*self)
    }

    fn to_wide(&self) -> (r: Vec<u8>) {
        let u = encode_utf16(*self);
        let mut r = le_bytes(&u);
        r.push(0);
        r
    }
}

impl StringExt for String {
    open spec fn text(&self) -> Seq<char> {
        self@
    }

    fn to_wide_16(&self) -> (r: Vec<u16>) {
        let mut r = encode_utf16(self.as_str());
        r.push(0);
        r
    }

    fn to_wide_16_unpadded(&self) -> (r: Vec<u16>) {
        encode_utf16(self.as_str())
    }

    fn to_wide(&self) -> (r: Vec<u8>) {
        let u = encode_utf16(self.as_str());
        let mut r = le_bytes(&u);
        r.push(0);
        r
    }
}

// ─── GUIDs ──────────────────────────────────────────────────────────────────

/// A GUID in its four fields.
#[derive(Debug, Clone, Copy)]
pub struct Guid {
    pub data1: u32,
    pub data2: u16,
    pub data3: u16,
    pub data4: [u8; 8],
}

/// The lower-case hexadecimal digit of `d` (below 16).
pub open spec fn hex_digit(d: int) -> char {
    if d < 10 {
        (0x30 + d) as char
    } else {
        (0x61 + d - 10) as char
    }
}

/// `x` in `width` lower-case hexadecimal digits (the most significant first).
pub open spec fn hex(x: nat, width: nat) -> Seq<char>
    decreases width,
{
    if width == 0 {
        seq![]
    } else {
        hex(x / 16, (width - 1) as nat).push(hex_digit((x % 16) as int))
    }
}

/// The registry form `{xxxxxxxx-xxxx-xxxx-xxxx-xxxxxxxxxxxx}`.
pub open spec fn spec_guid_string(g: Guid) -> Seq<char> {
    seq!['{'] + hex(g.data1 as nat, 8) + seq!['-'] + hex(g.data2 as nat, 4) + seq!['-'] + hex(
        g.data3 as nat,
        4,
    ) + seq!['-'] + hex(g.data4[0] as nat, 2) + hex(g.data4[1] as nat, 2) + seq!['-'] + hex(
        g.data4[2] as nat,
        2,
    ) + hex(g.data4[3] as nat, 2) + hex(g.data4[4] as nat, 2) + hex(g.data4[5] as nat, 2) + hex(
        g.data4[6] as nat,
        2,
    ) + hex(g.data4[7] as nat, 2) + seq!['}']
}

fn hex_digit_char(d: u64) -> (c: char)
    requires
        d < 16,
    ensures
        c == hex_digit(d as int),
{
    let n: u32 = if d < 10 {
        0x30 + d as u32
    } else {
        0x61 + d as u32 - 10
    };
    let c = crate::text::shift_char('\u{0}', n as i64);
    assert(c as u32 == n);
    proof {
        vstd::utf8::char_u32_cast(c, n);
    }
    c
}

fn push_hex(s: &mut String, x: u64, width: usize)
    ensures
        final(s)@ == old(s)@ + hex(x as nat, width as nat),
    decreases width,
{
    if width == 0 {
        assert(old(s)@ + hex(x as nat, 0) == old(s)@);
        return;
    }
    push_hex(s, x / 16, width - 1);
    push_char(s, hex_digit_char(x % 16));
}

/// The registry form of a GUID.
pub trait GUIDExt {
    spec fn guid(&self) -> Guid;

    fn to_guid_string(&self) -> (s: String)
        ensures
            s@ == spec_guid_string(self.guid()),
    ;
}

impl GUIDExt for Guid {
    open spec fn guid(&self) -> Guid {
        *self
    }

    fn to_guid_string(&self) -> (s: String) {
        let mut s = String::new();
        push_char(&mut s, '{');
        push_hex(&mut s, self.data1 as u64, 8);
        push_char(&mut s, '-');
        push_hex(&mut s, self.data2 as u64, 4);
        push_char(&mut s, '-');
        push_hex(&mut s, self.data3 as u64, 4);
        push_char(&mut s, '-');
        push_hex(&mut s, self.data4[0] as u64, 2);
        push_hex(&mut s, self.data4[1] as u64, 2);
        push_char(&mut s, '-');
        push_hex(&mut s, self.data4[2] as u64, 2);
        push_hex(&mut s, self.data4[3] as u64, 2);
        push_hex(&mut s, self.data4[4] as u64, 2);
        push_hex(&mut s, self.data4[5] as u64, 2);
        push_hex(&mut s, self.data4[6] as u64, 2);
        push_hex(&mut s, self.data4[7] as u64, 2);
        push_char(&mut s, '}');
        assert(s@ =~= spec_guid_string(*self));
        s
    }
}

} // verus!
