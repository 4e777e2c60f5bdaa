//! Decimal and kanji numerals: rendering an integer as positional kanji
//! (`二千二十四`), as daiji (`弐千弐拾四`) and in decimal digits, and reading
//! decimal digit strings back into integers.
use vstd::prelude::*;

verus! {

// ─── decimal digits ─────────────────────────────────────────────────────────

/// The ASCII digit for `d < 10`.
pub open spec fn digit_char(d: nat) -> char {
    (0x30 + d) as u32 as char
}

/// The value of an ASCII digit.
pub open spec fn digit_value(c: char) -> nat {
    ((c as u32) - 0x30) as nat
}

/// The decimal representation of `n`, without leading zeros (`"0"` for zero).
pub open spec fn decimal(n: nat) -> Seq<char>
    decreases n,
{
    if n < 10 {
        seq![digit_char(n)]
    } else {
        decimal(n / 10).push(digit_char(n % 10))
    }
}

/// The number that a string of ASCII digits denotes.
pub open spec fn digits_value(s: Seq<char>) -> nat
    decreases s.len(),
{
    if s.len() == 0 {
        0
    } else {
        digits_value(s.drop_last()) * 10 + digit_value(s.last())
    }
}

pub open spec fn all_ascii_digits(s: Seq<char>) -> bool {
    forall|i: int| 0 <= i < s.len() ==> crate::text::spec_is_ascii_digit(#[trigger] s[i])
}

proof fn lemma_digits_value_prefix(s: Seq<char>, i: int)
    requires
        0 <= i <= s.len(),
        all_ascii_digits(s),
    ensures
        digits_value(s.take(i)) <= digits_value(s),
    decreases s.len() - i,
{
    if i < s.len() {
        lemma_digits_value_prefix(s, i + 1);
        assert(s.take(i + 1).drop_last() == s.take(i));
    } else {
        assert(s.take(i) == s);
    }
}

fn push_decimal(n: u64, out: &mut Vec<char>)
    ensures
        final(out)@ == old(out)@ + decimal(n as nat),
    decreases n,
{
    if n >= 10 {
        push_decimal(n / 10, out);
    }
    let d = (n % 10) as u32;
    let c = crate::text::shift_char('0', d as i64);
    out.push(c);
    proof {
        assert(c == digit_char((n % 10) as nat)) by {
            vstd::utf8::char_u32_cast(c, (0x30 + d) as u32);
        }
    }
}

/// The decimal digits of `n` (what `u64::to_string` renders).
pub fn decimal_chars(n: u64) -> (v: Vec<char>)
    ensures
        v@ == decimal(n as nat),
{
    let mut v: Vec<char> = Vec::new();
    push_decimal(n, &mut v);
    assert(v@ == Seq::<char>::empty() + decimal(n as nat));
    v
}

/// Reads a non-empty string of ASCII digits as a `u64`; `None` exactly when the
/// value does not fit (leading zeros are allowed, as `str::parse` allows them).
pub fn parse_u64_digits(v: &Vec<char>) -> (r: Option<u64>)
    requires
        all_ascii_digits(v@),
    ensures
        r matches Some(x) ==> x as nat == digits_value(v@),
        r is None <==> digits_value(v@) > u64::MAX,
{
    let mut acc: u64 = 0;
    let mut i: usize = 0;
    while i < v.len()
        invariant
            i <= v.len(),
            all_ascii_digits(v@),
            acc as nat == digits_value(v@.take(i as int)),
        decreases v.len() - i,
    {
        let c = v[i];
        assert(crate::text::spec_is_ascii_digit(v@[i as int]));
        let d = ((c as u32) - 0x30) as u64;
        assert(v@.take(i + 1).drop_last() == v@.take(i as int));
        assert(v@.take(i + 1).last() == c);
        match acc.checked_mul(10) {
            Some(m) => match m.checked_add(d) {
                Some(a) => {
                    acc = a;
                },
                None => {
                    proof {
                        lemma_digits_value_prefix(v@, i + 1);
                    }
                    return None;
                },
            },
            None => {
                proof {
                    lemma_digits_value_prefix(v@, i + 1);
                }
                return None;
            },
        }
        i = i + 1;
    }
    assert(v@.take(v.len() as int) == v@);
    Some(acc)
}

// ─── kanji digits ───────────────────────────────────────────────────────────

/// The kanji numeral for a digit (`零`, `一`, ..., `九`).
pub open spec fn kanji_digit(d: nat) -> char {
    if d == 0 {
        '零'
    } else if d == 1 {
        '一'
    } else if d == 2 {
        '二'
    } else if d == 3 {
        '三'
    } else if d == 4 {
        '四'
    } else if d == 5 {
        '五'
    } else if d == 6 {
        '六'
    } else if d == 7 {
        '七'
    } else if d == 8 {
        '八'
    } else {
        '九'
    }
}

/// The daiji (formal numeral) for a digit: `零`, `壱`, `弐`, `参`, then as
/// the plain kanji.
pub open spec fn daiji_digit(d: nat) -> char {
    if d == 0 {
        '零'
    } else if d == 1 {
        '壱'
    } else if d == 2 {
        '弐'
    } else if d == 3 {
        '参'
    } else {
        kanji_digit(d)
    }
}

pub fn kanji_digit_char(d: u64) -> (c: char)
    requires
        d < 10,
    ensures
        c == kanji_digit(d as nat),
{
    if d == 0 {
        '零'
    } else if d == 1 {
        '一'
    } else if d == 2 {
        '二'
    } else if d == 3 {
        '三'
    } else if d == 4 {
        '四'
    } else if d == 5 {
        '五'
    } else if d == 6 {
        '六'
    } else if d == 7 {
        '七'
    } else if d == 8 {
        '八'
    } else {
        '九'
    }
}

pub fn daiji_digit_char(d: u64) -> (c: char)
    requires
        d < 10,
    ensures
        c == daiji_digit(d as nat),
{
    if d == 0 {
        '零'
    } else if d == 1 {
        '壱'
    } else if d == 2 {
        '弐'
    } else if d == 3 {
        '参'
    } else {
        kanji_digit_char(d)
    }
}

// ─── positional kanji ───────────────────────────────────────────────────────

/// One place of a number under 10000: nothing for a zero digit, the unit
/// alone for a one when leading ones are omitted, else digit and unit.
pub open spec fn kanji_place(d: nat, unit: char, omit_one: bool) -> Seq<char> {
    if d == 0 {
        seq![]
    } else if d == 1 && omit_one {
        seq![unit]
    } else {
        seq![kanji_digit(d), unit]
    }
}

/// The kanji numeral for `n < 10000` (`千二百三十四`; empty for zero).
pub open spec fn kanji_under_10000(n: nat, omit_one: bool) -> Seq<char> {
    kanji_place(n / 1000 % 10, '千', omit_one) + kanji_place(n / 100 % 10, '百', omit_one)
        + kanji_place(n / 10 % 10, '十', omit_one) + (if n % 10 == 0 {
        seq![]
    } else {
        seq![kanji_digit(n % 10)]
    })
}

/// One place of a daiji numeral under 10000 (the digit is always written).
pub open spec fn daiji_place(d: nat, unit: char) -> Seq<char> {
    if d == 0 {
        seq![]
    } else {
        seq![daiji_digit(d), unit]
    }
}

/// The daiji numeral for `n < 10000` (`壱千弐百参拾四`; empty for zero).
pub open spec fn daiji_under_10000(n: nat) -> Seq<char> {
    daiji_place(n / 1000 % 10, '千') + daiji_place(n / 100 % 10, '百') + daiji_place(
        n / 10 % 10,
        '拾',
    ) + (if n % 10 == 0 {
        seq![]
    } else {
        seq![daiji_digit(n % 10)]
    })
}

fn push_kanji_place(out: &mut Vec<char>, d: u64, unit: char, omit_one: bool)
    requires
        d < 10,
    ensures
        final(out)@ == old(out)@ + kanji_place(d as nat, unit, omit_one),
{
    if d == 0 {
    } else if d == 1 && omit_one {
        out.push(unit);
    } else {
        out.push(kanji_digit_char(d));
        out.push(unit);
    }
}

fn push_daiji_place(out: &mut Vec<char>, d: u64, unit: char)
    requires
        d < 10,
    ensures
        final(out)@ == old(out)@ + daiji_place(d as nat, unit),
{
    if d != 0 {
        out.push(daiji_digit_char(d));
        out.push(unit);
    }
}

#[verifier::spinoff_prover]
#[verifier::rlimit(30)]
fn push_kanji_under_10000(out: &mut Vec<char>, n: u64, omit_one: bool)
    requires
        n < 10000,
    ensures
        final(out)@ == old(out)@ + kanji_under_10000(n as nat, omit_one),
{
    let ghost start = out@;
    push_kanji_place(out, n / 1000 % 10, '千', omit_one);
    push_kanji_place(out, n / 100 % 10, '百', omit_one);
    push_kanji_place(out, n / 10 % 10, '十', omit_one);
    if n % 10 != 0 {
        out.push(kanji_digit_char(n % 10));
    }
    assert(out@ =~= start + kanji_under_10000(n as nat, omit_one));
}

#[verifier::spinoff_prover]
#[verifier::rlimit(30)]
fn push_daiji_under_10000(out: &mut Vec<char>, n: u64)
    requires
        n < 10000,
    ensures
        final(out)@ == old(out)@ + daiji_under_10000(n as nat),
{
    let ghost start = out@;
    push_daiji_place(out, n / 1000 % 10, '千');
    push_daiji_place(out, n / 100 % 10, '百');
    push_daiji_place(out, n / 10 % 10, '拾');
    if n % 10 != 0 {
        out.push(daiji_digit_char(n % 10));
    }
    assert(out@ =~= start + daiji_under_10000(n as nat));
}

/// The kanji numeral for `n < 10000`, leading ones omitted or not (`千` or `一千`).
pub fn to_kanji_under_10000(n: u16, omit_leading_one: bool) -> (s: Vec<char>)
    requires
        n < 10000,
    ensures
        s@ == kanji_under_10000(n as nat, omit_leading_one),
{
    let mut out: Vec<char> = Vec::new();
    push_kanji_under_10000(&mut out, n as u64, omit_leading_one);
    assert(out@ == Seq::<char>::empty() + kanji_under_10000(n as nat, omit_leading_one));
    out
}

/// The daiji numeral for `n < 10000` (`壱千弐百参拾四`).
pub fn to_daiji_under_10000(n: u16) -> (s: Vec<char>)
    requires
        n < 10000,
    ensures
        s@ == daiji_under_10000(n as nat),
{
    let mut out: Vec<char> = Vec::new();
    push_daiji_under_10000(&mut out, n as u64);
    assert(out@ == Seq::<char>::empty() + daiji_under_10000(n as nat));
    out
}

/// A group of four digits followed by its myriad unit (`万`, `億`, `兆`, `京`,
/// or nothing for the last group); a group of exactly one is written `一`.
pub open spec fn kanji_group(g: nat, unit: Seq<char>) -> Seq<char> {
    if g == 0 {
        seq![]
    } else if g == 1 {
        seq!['一'] + unit
    } else {
        kanji_under_10000(g, true) + unit
    }
}

/// As `kanji_group`, in daiji (a group of one is `壱`).
pub open spec fn daiji_group(g: nat, unit: Seq<char>) -> Seq<char> {
    if g == 0 {
        seq![]
    } else if g == 1 {
        seq!['壱'] + unit
    } else {
        daiji_under_10000(g) + unit
    }
}

pub open spec fn myriad(k: nat) -> nat {
    if k == 0 {
        1
    } else if k == 1 {
        10000
    } else if k == 2 {
        100000000
    } else if k == 3 {
        1000000000000
    } else {
        10000000000000000
    }
}

/// The four-digit group of `n` at myriad position `k` (the top group, `京`,
/// takes all that is above).
pub open spec fn group_at(n: nat, k: nat) -> nat {
    if k >= 4 {
        n / myriad(4)
    } else {
        n / myriad(k) % 10000
    }
}

/// The positional kanji numeral of `n` (`二千二十四`, `一万`, `零`).
pub open spec fn kanji_integer(n: nat) -> Seq<char> {
    if n == 0 {
        seq!['零']
    } else {
        kanji_group(group_at(n, 4), seq!['京']) + kanji_group(group_at(n, 3), seq!['兆'])
            + kanji_group(group_at(n, 2), seq!['億']) + kanji_group(group_at(n, 1), seq!['万'])
            + kanji_group(group_at(n, 0), seq![])
    }
}

/// The daiji numeral of `n` (`弐千弐拾四`, `壱万`, `零`).
pub open spec fn daiji_integer(n: nat) -> Seq<char> {
    if n == 0 {
        seq!['零']
    } else {
        daiji_group(group_at(n, 4), seq!['京']) + daiji_group(group_at(n, 3), seq!['兆'])
            + daiji_group(group_at(n, 2), seq!['億']) + daiji_group(group_at(n, 1), seq!['万'])
            + daiji_group(group_at(n, 0), seq![])
    }
}

fn push_kanji_group(out: &mut Vec<char>, g: u64, unit: Option<char>, daiji: bool)
    requires
        g < 10000,
    ensures
        final(out)@ == old(out)@ + (if daiji {
            daiji_group(
                g as nat,
                match unit {
                    Some(u) => seq![u],
                    None => seq![],
                },
            )
        } else {
            kanji_group(
                g as nat,
                match unit {
                    Some(u) => seq![u],
                    None => seq![],
                },
            )
        }),
{
    let ghost start = out@;
    if g == 0 {
        assert(out@ =~= start + seq![]);
        return ;
    }
    if g == 1 {
        out.push(if daiji {
            '壱'
        } else {
            '一'
        });
    } else if daiji {
        push_daiji_under_10000(out, g);
    } else {
        push_kanji_under_10000(out, g, true);
    }
    match unit {
        Some(u) => out.push(u),
        None => {},
    }
    assert(out@ =~= start + (if daiji {
        daiji_group(
            g as nat,
            match unit {
                Some(u) => seq![u],
                None => seq![],
            },
        )
    } else {
        kanji_group(
            g as nat,
            match unit {
                Some(u) => seq![u],
                None => seq![],
            },
        )
    }));
}

fn integer_numeral(n: u64, daiji: bool) -> (s: Vec<char>)
    ensures
        s@ == (if daiji {
            daiji_integer(n as nat)
        } else {
            kanji_integer(n as nat)
        }),
{
    if n == 0 {
        let mut v: Vec<char> = Vec::new();
        v.push('零');
        assert(v@ =~= seq!['零']);
        return v;
    }
    let mut out: Vec<char> = Vec::new();
    assert(n / 10000000000000000 < 10000) by {
        assert(n <= 0xffff_ffff_ffff_ffff);
    }
    push_kanji_group(&mut out, n / 10000000000000000, Some('京'), daiji);
    let ghost a = out@;
    push_kanji_group(&mut out, n / 1000000000000 % 10000, Some('兆'), daiji);
    let ghost b = out@;
    push_kanji_group(&mut out, n / 100000000 % 10000, Some('億'), daiji);
    let ghost c = out@;
    push_kanji_group(&mut out, n / 10000 % 10000, Some('万'), daiji);
    let ghost d = out@;
    push_kanji_group(&mut out, n % 10000, None, daiji);
    assert(n % 10000 == n / 1 % 10000);
    assert(out@ =~= (if daiji {
        daiji_integer(n as nat)
    } else {
        kanji_integer(n as nat)
    }));
    out
}

/// The positional kanji numeral of `n` (`to_kanji_integer(2024)` is
/// `二千二十四`); always present.
pub fn to_kanji_integer(n: u64) -> (s: Option<Vec<char>>)
    ensures
        s matches Some(v) && v@ == kanji_integer(n as nat),
{
    Some(integer_numeral(n, false))
}

/// The daiji numeral of `n` (`to_daiji_integer(1234)` is `壱千弐百参拾四`);
/// always present.
pub fn to_daiji_integer(n: u64) -> (s: Option<Vec<char>>)
    ensures
        s matches Some(v) && v@ == daiji_integer(n as nat),
{
    Some(integer_numeral(n, true))
}

} // verus!
