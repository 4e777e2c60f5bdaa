//! Character-sequence helpers shared by the conversion modules: character
//! classes over code points, conversions between `&str`, `String` and
//! `Vec<char>`, and the few `std` text functions the library relies on.
use vstd::prelude::*;

verus! {

broadcast use vstd::utf8::char_u32_cast;

// ─── character classes ──────────────────────────────────────────────────────

/// `c` lies in the inclusive code point range `lo..=hi`.
pub open spec fn in_range(c: char, lo: u32, hi: u32) -> bool {
    lo <= (c as u32) && (c as u32) <= hi
}

pub open spec fn spec_is_ascii_digit(c: char) -> bool {
    in_range(c, 0x30, 0x39)
}

pub open spec fn spec_is_ascii_upper(c: char) -> bool {
    in_range(c, 0x41, 0x5A)
}

pub open spec fn spec_is_ascii_lower(c: char) -> bool {
    in_range(c, 0x61, 0x7A)
}

pub open spec fn spec_is_ascii_alpha(c: char) -> bool {
    spec_is_ascii_upper(c) || spec_is_ascii_lower(c)
}

pub open spec fn spec_is_ascii_alnum(c: char) -> bool {
    spec_is_ascii_alpha(c) || spec_is_ascii_digit(c)
}

/// Printable ASCII other than space (`!`..=`~`).
pub open spec fn spec_is_ascii_graphic(c: char) -> bool {
    in_range(c, 0x21, 0x7E)
}

/// Fullwidth digits `０`..=`９`.
pub open spec fn spec_is_fullwidth_digit(c: char) -> bool {
    in_range(c, 0xFF10, 0xFF19)
}

/// Fullwidth capital letters `Ａ`..=`Ｚ`.
pub open spec fn spec_is_fullwidth_upper(c: char) -> bool {
    in_range(c, 0xFF21, 0xFF3A)
}

/// Fullwidth small letters `ａ`..=`ｚ`.
pub open spec fn spec_is_fullwidth_lower(c: char) -> bool {
    in_range(c, 0xFF41, 0xFF5A)
}

/// The fullwidth ASCII block `！`..=`～`.
pub open spec fn spec_is_fullwidth_ascii(c: char) -> bool {
    in_range(c, 0xFF01, 0xFF5E)
}

/// The character whose code point is `c`'s moved by `delta`.
pub open spec fn shift(c: char, delta: int) -> char {
    ((c as u32) as int + delta) as u32 as char
}

/// Every character of `s` is ASCII.
pub open spec fn all_ascii(s: Seq<char>) -> bool {
    forall|i: int| 0 <= i < s.len() ==> in_range(#[trigger] s[i], 0, 0x7F)
}

/// `A`..=`Z` to `a`..=`z`, every other character kept.
pub open spec fn ascii_lower(c: char) -> char {
    if spec_is_ascii_upper(c) {
        shift(c, 0x20)
    } else {
        c
    }
}

/// `a`..=`z` to `A`..=`Z`, every other character kept.
pub open spec fn ascii_upper(c: char) -> char {
    if spec_is_ascii_lower(c) {
        shift(c, -0x20)
    } else {
        c
    }
}

pub fn is_ascii_digit(c: char) -> (b: bool)
    ensures
        b == spec_is_ascii_digit(c),
{
    0x30 <= (c as u32) && (c as u32) <= 0x39
}

pub fn is_ascii_upper(c: char) -> (b: bool)
    ensures
        b == spec_is_ascii_upper(c),
{
    0x41 <= (c as u32) && (c as u32) <= 0x5A
}

pub fn is_ascii_lower(c: char) -> (b: bool)
    ensures
        b == spec_is_ascii_lower(c),
{
    0x61 <= (c as u32) && (c as u32) <= 0x7A
}

pub fn is_ascii_alpha(c: char) -> (b: bool)
    ensures
        b == spec_is_ascii_alpha(c),
{
    is_ascii_upper(c) || is_ascii_lower(c)
}

pub fn is_ascii_alnum(c: char) -> (b: bool)
    ensures
        b == spec_is_ascii_alnum(c),
{
    is_ascii_alpha(c) || is_ascii_digit(c)
}

pub fn is_ascii_graphic(c: char) -> (b: bool)
    ensures
        b == spec_is_ascii_graphic(c),
{
    0x21 <= (c as u32) && (c as u32) <= 0x7E
}

pub fn is_fullwidth_digit(c: char) -> (b: bool)
    ensures
        b == spec_is_fullwidth_digit(c),
{
    0xFF10 <= (c as u32) && (c as u32) <= 0xFF19
}

pub fn is_fullwidth_upper(c: char) -> (b: bool)
    ensures
        b == spec_is_fullwidth_upper(c),
{
    0xFF21 <= (c as u32) && (c as u32) <= 0xFF3A
}

pub fn is_fullwidth_lower(c: char) -> (b: bool)
    ensures
        b == spec_is_fullwidth_lower(c),
{
    0xFF41 <= (c as u32) && (c as u32) <= 0xFF5A
}

pub fn is_fullwidth_ascii(c: char) -> (b: bool)
    ensures
        b == spec_is_fullwidth_ascii(c),
{
    0xFF01 <= (c as u32) && (c as u32) <= 0xFF5E
}

/// `char::from_u32`: the character with code point `n`, if `n` is a Unicode
/// scalar value (at most `0x10FFFF` and not a surrogate).
#[verifier::external_body]
pub(crate) fn char_from_u32(n: u32) -> (r: Option<char>)
    ensures
        r matches Some(c) ==> c as u32 == n,
        r is None <==> !(n <= 0xD7FF || (0xE000 <= n && n <= 0x10FFFF)),
{
    char::from_u32(n)
}

/// Moves `c`'s code point by `delta` where the target is a scalar value
/// outside the surrogate block (all the shifts of this library are between
/// ASCII, kana and fullwidth forms).
pub(crate) fn shift_char(c: char, delta: i64) -> (r: char)
    requires
        0 <= (c as u32) + delta <= 0xD7FF || 0xE000 <= (c as u32) + delta <= 0x10FFFF,
    ensures
        r == shift(c, delta as int),
        r as u32 == (c as u32) + delta,
{
    let n = ((c as u32) as i64 + delta) as u32;
    assert(n == ((c as u32) as int + delta) as u32);
    match char_from_u32(n) {
        Some(r) => {
            proof { vstd::utf8::char_u32_cast(r, n); }
            r
        },
        None => c,
    }
}

// ─── strings ────────────────────────────────────────────────────────────────

/// Appends one character to a string (`String::push`).
#[verifier::external_body]
pub(crate) fn push_char(s: &mut String, c: char)
    ensures
        final(s)@ == old(s)@.push(c),
{
    s.push(c);
}

/// Appends a string slice to a string (`String::push_str`).
#[verifier::external_body]
pub(crate) fn push_str(s: &mut String, t: &str)
    ensures
        final(s)@ == old(s)@ + t@,
{
    s.push_str(t);
}

/// The characters of a string slice, in order.
pub fn chars_of(s: &str) -> (v: Vec<char>)
    ensures
        v@ == s@,
{
    let mut v: Vec<char> = Vec::new();
    for c in it: s.chars()
        invariant
            v@ == it.seq().take(it.index() as int),
    {
        v.push(c);
    }
    v
}

/// Builds a string from the characters `v[from..to]`.
pub fn string_of_range(v: &Vec<char>, from: usize, to: usize) -> (s: String)
    requires
        from <= to <= v.len(),
    ensures
        s@ == v@.subrange(from as int, to as int),
{
    let mut s = String::new();
    let mut i: usize = from;
    while i < to
        invariant
            from <= i <= to <= v.len(),
            s@ == v@.subrange(from as int, i as int),
        decreases to - i,
    {
        push_char(&mut s, v[i]);
        assert(v@.subrange(from as int, i + 1) == v@.subrange(from as int, i as int).push(
            v@[i as int],
        ));
        i = i + 1;
    }
    s
}

/// Builds a string from a character sequence.
pub fn string_of(v: &Vec<char>) -> (s: String)
    ensures
        s@ == v@,
{
    let s = string_of_range(v, 0, v.len());
    assert(v@.subrange(0, v.len() as int) == v@);
    s
}

/// An owned copy of a string slice.
pub fn owned(s: &str) -> (r: String)
    ensures
        r@ == s@,
{
    s.to_owned()
}

/// Character-wise equality of two strings.
pub fn str_eq(a: &str, b: &str) -> (r: bool)
    ensures
        r == (a@ == b@),
{
    let va = chars_of(a);
    let vb = chars_of(b);
    seq_eq(&va, &vb)
}

/// Element-wise equality of two character vectors.
pub fn seq_eq(a: &Vec<char>, b: &Vec<char>) -> (r: bool)
    ensures
        r == (a@ == b@),
{
    if a.len() != b.len() {
        return false;
    }
    let mut i: usize = 0;
    while i < a.len()
        invariant
            a.len() == b.len(),
            i <= a.len(),
            forall|j: int| 0 <= j < i ==> a@[j] == b@[j],
        decreases a.len() - i,
    {
        if a[i] != b[i] {
            return false;
        }
        i = i + 1;
    }
    assert(a@ =~= b@);
    true
}

/// Whether `v` contains the character `c`.
pub fn vec_has_char(v: &Vec<char>, c: char) -> (r: bool)
    ensures
        r == v@.contains(c),
{
    let mut i: usize = 0;
    while i < v.len()
        invariant
            i <= v.len(),
            forall|j: int| 0 <= j < i ==> v@[j] != c,
        decreases v.len() - i,
    {
        if v[i] == c {
            return true;
        }
        i = i + 1;
    }
    false
}

/// The index of the first `c` in `s`, or -1.
pub open spec fn first_index(s: Seq<char>, c: char) -> int
    decreases s.len(),
{
    if s.len() == 0 {
        -1
    } else if s[0] == c {
        0
    } else {
        let r = first_index(s.skip(1), c);
        if r < 0 {
            -1
        } else {
            r + 1
        }
    }
}

pub proof fn lemma_first_index(s: Seq<char>, c: char, i: int)
    requires
        0 <= i <= s.len(),
        forall|j: int| 0 <= j < i ==> s[j] != c,
        i < s.len() ==> s[i] == c,
    ensures
        first_index(s, c) == (if i < s.len() {
            i
        } else {
            -1
        }),
    decreases i,
{
    if i > 0 {
        lemma_first_index(s.skip(1), c, i - 1);
    }
}

/// What `first_index` finds is a `c` inside `s`, with no `c` before it.
pub proof fn lemma_first_index_found(s: Seq<char>, c: char)
    ensures
        -1 <= first_index(s, c) < s.len(),
        first_index(s, c) >= 0 ==> s[first_index(s, c)] == c,
        forall|j: int| 0 <= j < first_index(s, c) ==> s[j] != c,
        first_index(s, c) < 0 ==> forall|j: int| 0 <= j < s.len() ==> s[j] != c,
    decreases s.len(),
{
    if s.len() > 0 && s[0] != c {
        lemma_first_index_found(s.skip(1), c);
        assert forall|j: int| 1 <= j < s.len() implies s[j] == s.skip(1)[j - 1] by {}
    }
}

/// Where the first `c` stands in `v`.
pub fn find_char(v: &Vec<char>, c: char) -> (r: Option<usize>)
    ensures
        r matches Some(k) ==> first_index(v@, c) == k && k < v@.len(),
        r is None ==> first_index(v@, c) == -1,
{
    let mut i: usize = 0;
    while i < v.len()
        invariant
            i <= v.len(),
            forall|j: int| 0 <= j < i ==> v@[j] != c,
        decreases v.len() - i,
    {
        if v[i] == c {
            proof {
                lemma_first_index(v@, c, i as int);
            }
            return Some(i);
        }
        i = i + 1;
    }
    proof {
        lemma_first_index(v@, c, v@.len() as int);
    }
    None
}

pub fn sub_vec(v: &Vec<char>, from: usize, to: usize) -> (r: Vec<char>)
    requires
        from <= to <= v.len(),
    ensures
        r@ == v@.subrange(from as int, to as int),
{
    let mut r: Vec<char> = Vec::new();
    let mut i: usize = from;
    while i < to
        invariant
            from <= i <= to <= v.len(),
            r@ == v@.subrange(from as int, i as int),
        decreases to - i,
    {
        r.push(v[i]);
        assert(v@.subrange(from as int, i + 1) == v@.subrange(from as int, i as int).push(
            v@[i as int],
        ));
        i = i + 1;
    }
    r
}

// ─── std case mapping ───────────────────────────────────────────────────────

/// What `str::to_lowercase` makes of a character sequence (full Unicode case
/// mapping, which may change the length).
pub uninterp spec fn lowercase_of(s: Seq<char>) -> Seq<char>;

/// What `str::to_uppercase` makes of a character sequence.
pub uninterp spec fn uppercase_of(s: Seq<char>) -> Seq<char>;

/// What `char::to_uppercase` yields for one character.
pub uninterp spec fn char_uppercase_of(c: char) -> Seq<char>;

/// `str::to_lowercase`: Unicode lowercase of `s`; the result is a function of
/// the characters of `s` alone. Of the mapping only its ASCII part is stated:
/// on all-ASCII text it lowers `A`..=`Z` and keeps every other character.
#[verifier::external_body]
pub(crate) fn to_lowercase(s: &str) -> (r: String)
    ensures
        r@ == lowercase_of(s@),
        all_ascii(s@) ==> r@ == s@.map_values(|c: char| ascii_lower(c)),
{
    s.to_lowercase()
}

/// `str::to_uppercase`: Unicode uppercase of `s`; the result is a function of
/// the characters of `s` alone. Of the mapping only its ASCII part is stated:
/// on all-ASCII text it raises `a`..=`z` and keeps every other character.
#[verifier::external_body]
pub(crate) fn to_uppercase(s: &str) -> (r: String)
    ensures
        r@ == uppercase_of(s@),
        all_ascii(s@) ==> r@ == s@.map_values(|c: char| ascii_upper(c)),
{
    s.to_uppercase()
}

/// `char::to_uppercase`, collected into a string; a function of `c` alone.
/// An ASCII character gives the one character `ascii_upper(c)`.
#[verifier::external_body]
pub(crate) fn char_to_uppercase(c: char) -> (r: String)
    ensures
        r@ == char_uppercase_of(c),
        in_range(c, 0, 0x7F) ==> r@ == seq![ascii_upper(c)],
{
    c.to_uppercase().collect()
}

// ─── character maps ─────────────────────────────────────────────────────────

/// Applies `f` to every character of `v`.
pub fn map_chars<F: Fn(char) -> char>(v: &Vec<char>, f: F) -> (r: Vec<char>)
    requires
        forall|c: char| f.requires((c,)),
    ensures
        r@.len() == v@.len(),
        forall|i: int| 0 <= i < v@.len() ==> f.ensures((v@[i],), #[trigger] r@[i]),
{
    let mut r: Vec<char> = Vec::new();
    let mut i: usize = 0;
    while i < v.len()
        invariant
            i <= v.len(),
            r@.len() == i,
            forall|c: char| f.requires((c,)),
            forall|j: int| 0 <= j < i ==> f.ensures((v@[j],), #[trigger] r@[j]),
        decreases v.len() - i,
    {
        let c = f(v[i]);
        r.push(c);
        i = i + 1;
    }
    r
}

/// Applies `f` to every character of `s`.
pub fn map_str<F: Fn(char) -> char>(s: &str, f: F) -> (r: String)
    requires
        forall|c: char| f.requires((c,)),
    ensures
        r@.len() == s@.len(),
        forall|i: int| 0 <= i < s@.len() ==> f.ensures((s@[i],), #[trigger] r@[i]),
{
    let v = chars_of(s);
    let mut r = String::new();
    let mut i: usize = 0;
    while i < v.len()
        invariant
            i <= v.len(),
            v@ == s@,
            r@.len() == i,
            forall|c: char| f.requires((c,)),
            forall|j: int| 0 <= j < i ==> f.ensures((v@[j],), #[trigger] r@[j]),
        decreases v.len() - i,
    {
        let c = f(v[i]);
        push_char(&mut r, c);
        i = i + 1;
    }
    r
}

} // verus!
