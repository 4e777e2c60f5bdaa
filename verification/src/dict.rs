//! The system dictionary builder: reading mozc's dictionary, symbol and emoji
//! TSV text into entries, grouping them by reading, and writing the binary
//! dictionary (`RKND`) that the engine maps into memory.
use vstd::prelude::*;

use crate::keymap::{spec_trim, trim_chars};
use crate::numerals::{all_ascii_digits, digits_value, parse_u64_digits};
use crate::text::{
    chars_of, find_char, first_index, is_ascii_digit, lemma_first_index, string_of, sub_vec,
};

verus! {

/// One dictionary entry: a reading, its surface, and mozc's cost (smaller is
/// more frequent).
#[derive(Debug, Clone)]
pub struct Entry {
    pub reading: String,
    pub surface: String,
    pub cost: u16,
}

pub open spec fn entry_view(e: Entry) -> (Seq<char>, Seq<char>, u16) {
    (e.reading@, e.surface@, e.cost)
}

pub open spec fn entries_view(v: Seq<Entry>) -> Seq<(Seq<char>, Seq<char>, u16)> {
    v.map_values(|e: Entry| entry_view(e))
}

// ─── characters the candidate window cannot draw ────────────────────────────

/// The kana blocks U+1AFF0..=U+1B16F (Kana Extended-B, Kana Supplement, Kana
/// Extended-A, Small Kana Extension), which the default fonts cannot draw.
pub open spec fn spec_is_unrenderable_kana(c: char) -> bool {
    crate::text::in_range(c, 0x1AFF0, 0x1B16F)
}

pub open spec fn spec_has_unrenderable_kana(s: Seq<char>) -> bool {
    exists|i: int| 0 <= i < s.len() && spec_is_unrenderable_kana(#[trigger] s[i])
}

fn has_unrenderable_kana_chars(v: &Vec<char>) -> (b: bool)
    ensures
        b == spec_has_unrenderable_kana(v@),
{
    let mut i: usize = 0;
    while i < v.len()
        invariant
            i <= v.len(),
            forall|j: int| 0 <= j < i ==> !spec_is_unrenderable_kana(#[trigger] v@[j]),
        decreases v.len() - i,
    {
        let n = v[i] as u32;
        if 0x1AFF0 <= n && n <= 0x1B16F {
            return true;
        }
        i = i + 1;
    }
    false
}

/// Whether `s` holds a character of those kana blocks.
pub fn has_unrenderable_kana(s: &str) -> (b: bool)
    ensures
        b == spec_has_unrenderable_kana(s@),
{
    let v = chars_of(s);
    has_unrenderable_kana_chars(&v)
}

// ─── splitting text ─────────────────────────────────────────────────────────

/// `s` cut at every `c` (an empty piece where two meet or at an end), as
/// `str::split` cuts it.
pub open spec fn split_on(s: Seq<char>, c: char) -> Seq<Seq<char>>
    decreases s.len(),
{
    if s.len() == 0 {
        seq![seq![]]
    } else {
        let parts = split_on(s.drop_last(), c);
        if s.last() == c {
            parts.push(seq![])
        } else {
            parts.update(parts.len() - 1, parts.last().push(s.last()))
        }
    }
}

/// `s` cut at the first `n - 1` occurrences of `c`, as `str::splitn` cuts it.
pub open spec fn splitn_on(s: Seq<char>, n: nat, c: char) -> Seq<Seq<char>>
    decreases n,
{
    if n <= 1 {
        seq![s]
    } else {
        let k = first_index(s, c);
        if k < 0 {
            seq![s]
        } else {
            seq![s.take(k)] + splitn_on(s.skip(k + 1), (n - 1) as nat, c)
        }
    }
}

/// The lines of `s`, as `str::lines` gives them: cut at each `\n`, a `\r`
/// just before the `\n` dropped, and no last line when `s` ends with `\n`.
pub open spec fn spec_lines(s: Seq<char>) -> Seq<Seq<char>> {
    let ps = split_on(s, '\n');
    let closed = ps.drop_last().map_values(
        |p: Seq<char>|
            if p.len() > 0 && p.last() == '\r' {
                p.drop_last()
            } else {
                p
            },
    );
    if ps.last().len() > 0 {
        closed.push(ps.last())
    } else {
        closed
    }
}

pub open spec fn vecs_view(v: Seq<Vec<char>>) -> Seq<Seq<char>> {
    v.map_values(|x: Vec<char>| x@)
}

proof fn lemma_split_on_len(s: Seq<char>, c: char)
    ensures
        split_on(s, c).len() >= 1,
    decreases s.len(),
{
    if s.len() > 0 {
        lemma_split_on_len(s.drop_last(), c);
    }
}

/// Cuts `v[from..to]` at every `c` (see `split_on`).
pub fn split_chars(v: &Vec<char>, from: usize, to: usize, c: char) -> (r: Vec<Vec<char>>)
    requires
        from <= to <= v.len(),
    ensures
        vecs_view(r@) == split_on(v@.subrange(from as int, to as int), c),
{
    let ghost s = v@.subrange(from as int, to as int);
    let mut parts: Vec<Vec<char>> = Vec::new();
    let mut start: usize = from;
    let mut i: usize = from;
    proof {
        lemma_split_on_len(s.take(0), c);
    }
    while i < to
        invariant
            from <= start <= i <= to <= v.len(),
            s == v@.subrange(from as int, to as int),
            split_on(s.take(i - from), c).len() == parts.len() + 1,
            forall|k: int|
                0 <= k < parts.len() ==> (#[trigger] parts@[k])@ == split_on(s.take(i - from), c)[k],
            split_on(s.take(i - from), c).last() == v@.subrange(start as int, i as int),
        decreases to - i,
    {
        assert(s.take(i - from + 1).drop_last() == s.take(i - from));
        assert(s.take(i - from + 1).last() == v@[i as int]);
        if v[i] == c {
            let part = sub_vec(v, start, i);
            parts.push(part);
            start = i + 1;
        } else {
            assert(v@.subrange(start as int, i + 1) == v@.subrange(start as int, i as int).push(
                v@[i as int],
            ));
        }
        i = i + 1;
    }
    let part = sub_vec(v, start, to);
    parts.push(part);
    assert(s.take(to - from) == s);
    assert(vecs_view(parts@) =~= split_on(s, c));
    parts
}

/// Cuts `v[from..to]` at the first `n - 1` occurrences of `c` (see
/// `splitn_on`).
pub fn splitn_chars(v: &Vec<char>, from: usize, to: usize, n: usize, c: char) -> (r: Vec<Vec<char>>)
    requires
        from <= to <= v.len(),
    ensures
        vecs_view(r@) == splitn_on(v@.subrange(from as int, to as int), n as nat, c),
    decreases n,
{
    let ghost s = v@.subrange(from as int, to as int);
    let mut r: Vec<Vec<char>> = Vec::new();
    if n <= 1 {
        r.push(sub_vec(v, from, to));
        assert(vecs_view(r@) =~= seq![s]);
        return r;
    }
    let mut k: usize = from;
    while k < to && v[k] != c
        invariant
            from <= k <= to <= v.len(),
            forall|j: int| from <= j < k ==> v@[j] != c,
        decreases to - k,
    {
        k = k + 1;
    }
    proof {
        assert forall|j: int| 0 <= j < k - from implies s[j] != c by {
            assert(s[j] == v@[from + j]);
        }
        lemma_first_index(s, c, k - from);
    }
    if k == to {
        r.push(sub_vec(v, from, to));
        assert(vecs_view(r@) =~= seq![s]);
        return r;
    }
    r.push(sub_vec(v, from, k));
    let rest = splitn_chars(v, k + 1, to, n - 1, c);
    assert(s.take(k - from) == v@.subrange(from as int, k as int));
    assert(s.skip(k - from + 1) == v@.subrange(k + 1, to as int));
    let mut i: usize = 0;
    let ghost head = r@;
    while i < rest.len()
        invariant
            i <= rest.len(),
            vecs_view(r@) == vecs_view(head) + vecs_view(rest@).take(i as int),
        decreases rest.len() - i,
    {
        let part = sub_vec(&rest[i], 0, rest[i].len());
        assert(part@ == rest@[i as int]@);
        let ghost before = r@;
        r.push(part);
        assert(vecs_view(r@) =~= vecs_view(before).push(part@));
        assert(vecs_view(rest@).take(i + 1) =~= vecs_view(rest@).take(i as int).push(
            rest@[i as int]@,
        ));
        i = i + 1;
    }
    assert(vecs_view(rest@).take(rest.len() as int) == vecs_view(rest@));
    assert(vecs_view(head) =~= seq![s.take(k - from)]);
    r
}

/// The lines of `v` (see `spec_lines`).
pub fn lines_of(v: &Vec<char>) -> (r: Vec<Vec<char>>)
    ensures
        vecs_view(r@) == spec_lines(v@),
{
    let ps = split_chars(v, 0, v.len(), '\n');
    assert(v@.subrange(0, v.len() as int) == v@);
    let ghost pv = vecs_view(ps@);
    proof {
        lemma_split_on_len(v@, '\n');
    }
    let mut r: Vec<Vec<char>> = Vec::new();
    let last = ps.len() - 1;
    let mut i: usize = 0;
    while i < last
        invariant
            i <= last == ps.len() - 1,
            pv == vecs_view(ps@),
            vecs_view(r@) == pv.drop_last().take(i as int).map_values(
                |p: Seq<char>|
                    if p.len() > 0 && p.last() == '\r' {
                        p.drop_last()
                    } else {
                        p
                    },
            ),
        decreases last - i,
    {
        let p = &ps[i];
        let n = p.len();
        let line = if n > 0 && p[n - 1] == '\r' {
            sub_vec(p, 0, n - 1)
        } else {
            sub_vec(p, 0, n)
        };
        assert(p@.subrange(0, n as int) == p@);
        assert(p@.subrange(0, n - 1) == p@.drop_last()) by {
            if n > 0 {
                assert(p@.subrange(0, n - 1) =~= p@.drop_last());
            }
        }
        let ghost before = r@;
        r.push(line);
        assert(vecs_view(r@) =~= vecs_view(before).push(line@));
        assert(pv.drop_last().take(i + 1) =~= pv.drop_last().take(i as int).push(pv[i as int]));
        i = i + 1;
    }
    assert(pv.drop_last().take(last as int) == pv.drop_last());
    if ps[last].len() > 0 {
        let l = sub_vec(&ps[last], 0, ps[last].len());
        assert(l@ == ps@[last as int]@);
        let ghost before = r@;
        r.push(l);
        assert(vecs_view(r@) =~= vecs_view(before).push(l@));
    }
    r
}

// ─── numbers ────────────────────────────────────────────────────────────────

/// What `str::parse::<u32>` reads: an optional `+`, then at least one ASCII
/// digit, the value at most `u32::MAX`.
pub open spec fn spec_parse_u32(s: Seq<char>) -> Option<u32> {
    let d = if s.len() > 0 && s[0] == '+' {
        s.drop_first()
    } else {
        s
    };
    if d.len() > 0 && all_ascii_digits(d) && digits_value(d) <= u32::MAX {
        Some(digits_value(d) as u32)
    } else {
        None
    }
}

pub fn parse_u32(v: &Vec<char>) -> (r: Option<u32>)
    ensures
        r == spec_parse_u32(v@),
{
    let d = if v.len() > 0 && v[0] == '+' {
        sub_vec(v, 1, v.len())
    } else {
        sub_vec(v, 0, v.len())
    };
    assert(v@.subrange(0, v.len() as int) == v@);
    assert(v.len() > 0 ==> v@.subrange(1, v.len() as int) == v@.drop_first());
    let ghost sd = if v@.len() > 0 && v@[0] == '+' {
        v@.drop_first()
    } else {
        v@
    };
    assert(d@ == sd);
    if d.len() == 0 {
        return None;
    }
    let mut i: usize = 0;
    while i < d.len()
        invariant
            i <= d.len(),
            d@ == sd,
            sd == (if v@.len() > 0 && v@[0] == '+' {
                v@.drop_first()
            } else {
                v@
            }),
            forall|j: int| 0 <= j < i ==> crate::text::spec_is_ascii_digit(#[trigger] d@[j]),
        decreases d.len() - i,
    {
        if !is_ascii_digit(d[i]) {
            assert(!crate::text::spec_is_ascii_digit(d@[i as int]));
            assert(!all_ascii_digits(d@));
            return None;
        }
        i = i + 1;
    }
    match parse_u64_digits(&d) {
        Some(x) => {
            if x <= 0xFFFF_FFFF {
                Some(x as u32)
            } else {
                None
            }
        },
        None => None,
    }
}

// ─── TSV lines ──────────────────────────────────────────────────────────────

/// A reading token: not empty, only hiragana (U+3041..=U+309F) and `ー`.
pub open spec fn is_hira_reading(t: Seq<char>) -> bool {
    t.len() > 0 && forall|i: int|
        0 <= i < t.len() ==> (crate::text::in_range(#[trigger] t[i], 0x3041, 0x309F) || t[i]
            == '\u{30FC}')
}

/// The reading tokens among `ts`, in order.
pub open spec fn hira_tokens(ts: Seq<Seq<char>>) -> Seq<Seq<char>>
    decreases ts.len(),
{
    if ts.len() == 0 {
        seq![]
    } else if is_hira_reading(ts.last()) {
        hira_tokens(ts.drop_last()).push(ts.last())
    } else {
        hira_tokens(ts.drop_last())
    }
}

/// The cost of a dictionary line: what the cost column reads, clamped to
/// `u16::MAX`.
pub open spec fn clamp_cost(c: u32) -> u16 {
    if c <= 65535 {
        c as u16
    } else {
        65535
    }
}

/// The entry of one line of mozc's dictionary TSV (`reading`, two ids, `cost`,
/// `surface`, tab-separated): none for a blank or `#` line, fewer than five
/// columns, a cost that does not read, a cost above `max_cost`, an empty
/// reading or surface, or a surface that cannot be drawn.
pub open spec fn tsv_line_entry(line: Seq<char>, max_cost: u16) -> Seq<(Seq<char>, Seq<char>, u16)> {
    let t = spec_trim(line);
    if t.len() == 0 || t[0] == '#' {
        seq![]
    } else {
        let cols = splitn_on(t, 5, '\t');
        if cols.len() < 5 {
            seq![]
        } else {
            match spec_parse_u32(cols[3]) {
                None => seq![],
                Some(c) => if clamp_cost(c) > max_cost || cols[0].len() == 0 || cols[4].len() == 0
                    || spec_has_unrenderable_kana(cols[4]) {
                    seq![]
                } else {
                    seq![(cols[0], cols[4], clamp_cost(c))]
                },
            }
        }
    }
}

/// `line` begins with `POS` and a tab (the header of the symbol TSV).
pub open spec fn is_pos_header(t: Seq<char>) -> bool {
    t.len() >= 4 && t[0] == 'P' && t[1] == 'O' && t[2] == 'S' && t[3] == '\t'
}

/// The entries of the surface of a symbol or emoji line under each of its
/// reading tokens, at `cost`; none when the surface is empty, cannot be drawn,
/// or has no reading token.
pub open spec fn readings_entries(surface: Seq<char>, readings: Seq<char>, cost: u16) -> Seq<
    (Seq<char>, Seq<char>, u16),
> {
    let rs = hira_tokens(split_on(readings, ' '));
    if surface.len() == 0 || spec_has_unrenderable_kana(surface) || rs.len() == 0 {
        seq![]
    } else {
        rs.map_values(|r: Seq<char>| (r, surface, cost))
    }
}

/// The entries of one line of mozc's symbol TSV (part of speech, symbol,
/// readings separated by spaces, ...), all at cost 3000.
pub open spec fn symbol_line_entries(line: Seq<char>) -> Seq<(Seq<char>, Seq<char>, u16)> {
    let t = spec_trim(line);
    if t.len() == 0 || t[0] == '#' || is_pos_header(t) {
        seq![]
    } else {
        let cols = splitn_on(t, 4, '\t');
        if cols.len() < 3 {
            seq![]
        } else {
            readings_entries(spec_trim(cols[1]), cols[2], 3000)
        }
    }
}

/// `s` without the `\r` characters at its end.
pub open spec fn trim_end_cr(s: Seq<char>) -> Seq<char>
    decreases s.len(),
{
    if s.len() > 0 && s.last() == '\r' {
        trim_end_cr(s.drop_last())
    } else {
        s
    }
}

/// The entries of one line of mozc's emoji TSV (code points, emoji, readings
/// separated by spaces, ...), all at `cost`.
pub open spec fn emoji_line_entries(line: Seq<char>, cost: u16) -> Seq<(Seq<char>, Seq<char>, u16)> {
    let l = trim_end_cr(line);
    if l.len() == 0 || l[0] == '#' {
        seq![]
    } else {
        let cols = split_on(l, '\t');
        if cols.len() < 3 {
            seq![]
        } else {
            readings_entries(spec_trim(cols[1]), cols[2], cost)
        }
    }
}

/// Which parser a text goes through.
#[derive(Debug, Clone, Copy, PartialEq, Eq, Structural)]
pub enum TsvKind {
    /// The dictionary TSV, with the highest cost kept.
    Dictionary(u16),
    /// The symbol TSV.
    Symbol,
    /// The emoji TSV, with the cost its entries get.
    Emoji(u16),
}

pub open spec fn line_entries(kind: TsvKind, line: Seq<char>) -> Seq<(Seq<char>, Seq<char>, u16)> {
    match kind {
        TsvKind::Dictionary(max_cost) => tsv_line_entry(line, max_cost),
        TsvKind::Symbol => symbol_line_entries(line),
        TsvKind::Emoji(cost) => emoji_line_entries(line, cost),
    }
}

/// The entries of all lines, in order.
pub open spec fn lines_entries(kind: TsvKind, lines: Seq<Seq<char>>) -> Seq<
    (Seq<char>, Seq<char>, u16),
>
    decreases lines.len(),
{
    if lines.len() == 0 {
        seq![]
    } else {
        lines_entries(kind, lines.drop_last()) + line_entries(kind, lines.last())
    }
}

pub open spec fn spec_parse_text(kind: TsvKind, text: Seq<char>) -> Seq<(Seq<char>, Seq<char>, u16)> {
    lines_entries(kind, spec_lines(text))
}

fn hira_token_vecs(ts: &Vec<Vec<char>>) -> (r: Vec<Vec<char>>)
    ensures
        vecs_view(r@) == hira_tokens(vecs_view(ts@)),
{
    let ghost tv = vecs_view(ts@);
    let mut r: Vec<Vec<char>> = Vec::new();
    let mut i: usize = 0;
    while i < ts.len()
        invariant
            i <= ts.len(),
            tv == vecs_view(ts@),
            vecs_view(r@) == hira_tokens(tv.take(i as int)),
        decreases ts.len() - i,
    {
        assert(tv.take(i + 1).drop_last() == tv.take(i as int));
        assert(tv[i as int] == ts@[i as int]@);
        let t = &ts[i];
        let mut ok = t.len() > 0;
        let mut k: usize = 0;
        while ok && k < t.len()
            invariant
                k <= t.len(),
                ok ==> t.len() > 0,
                ok ==> forall|j: int|
                    0 <= j < k ==> (crate::text::in_range(#[trigger] t@[j], 0x3041, 0x309F)
                        || t@[j] == '\u{30FC}'),
                !ok ==> !is_hira_reading(t@),
            decreases t.len() - k,
        {
            let n = t[k] as u32;
            if !((0x3041 <= n && n <= 0x309F) || t[k] == '\u{30FC}') {
                ok = false;
            }
            k = k + 1;
        }
        if ok {
            let c = sub_vec(t, 0, t.len());
            assert(c@ == t@);
            let ghost before = r@;
            r.push(c);
            assert(vecs_view(r@) =~= vecs_view(before).push(c@));
        }
        i = i + 1;
    }
    assert(tv.take(ts.len() as int) == tv);
    r
}

fn entries_under_readings(surface: &Vec<char>, readings: &Vec<char>, cost: u16) -> (r: Vec<Entry>)
    ensures
        entries_view(r@) == readings_entries(surface@, readings@, cost),
{
    let mut r: Vec<Entry> = Vec::new();
    if surface.len() == 0 || has_unrenderable_kana_chars(surface) {
        return r;
    }
    let tokens = split_chars(readings, 0, readings.len(), ' ');
    assert(readings@.subrange(0, readings.len() as int) == readings@);
    let rs = hira_token_vecs(&tokens);
    let ghost rv = vecs_view(rs@);
    let mut i: usize = 0;
    while i < rs.len()
        invariant
            i <= rs.len(),
            rv == vecs_view(rs@),
            entries_view(r@) == rv.take(i as int).map_values(
                |x: Seq<char>| (x, surface@, cost),
            ),
        decreases rs.len() - i,
    {
        let e = Entry { reading: string_of(&rs[i]), surface: string_of(surface), cost };
        let ghost before = r@;
        r.push(e);
        assert(entries_view(r@) =~= entries_view(before).push(entry_view(e)));
        assert(rv.take(i + 1) =~= rv.take(i as int).push(rv[i as int]));
        assert(entries_view(r@) =~= rv.take(i + 1).map_values(|x: Seq<char>| (x, surface@, cost)));
        i = i + 1;
    }
    assert(rv.take(rs.len() as int) == rv);
    r
}

fn starts_with_pos(t: &Vec<char>) -> (b: bool)
    ensures
        b == is_pos_header(t@),
{
    t.len() >= 4 && t[0] == 'P' && t[1] == 'O' && t[2] == 'S' && t[3] == '\t'
}

fn trim_vec(v: &Vec<char>) -> (r: Vec<char>)
    ensures
        r@ == spec_trim(v@),
{
    let s = trim_chars(v, 0, v.len());
    assert(v@.subrange(0, v.len() as int) == v@);
    chars_of(s.as_str())
}

/// The entries of one line (see `line_entries`).
pub fn parse_line(kind: TsvKind, line: &Vec<char>) -> (r: Vec<Entry>)
    ensures
        entries_view(r@) == line_entries(kind, line@),
{
    let mut r: Vec<Entry> = Vec::new();
    match kind {
        TsvKind::Dictionary(max_cost) => {
            let t = trim_vec(line);
            if t.len() == 0 || t[0] == '#' {
                return r;
            }
            let cols = splitn_chars(&t, 0, t.len(), 5, '\t');
            assert(t@.subrange(0, t.len() as int) == t@);
            if cols.len() < 5 {
                return r;
            }
            let cost = match parse_u32(&cols[3]) {
                None => {
                    return r;
                },
                Some(c) => if c <= 65535 {
                    c as u16
                } else {
                    65535
                },
            };
            if cost > max_cost || cols[0].len() == 0 || cols[4].len() == 0
                || has_unrenderable_kana_chars(&cols[4]) {
                return r;
            }
            let e = Entry { reading: string_of(&cols[0]), surface: string_of(&cols[4]), cost };
            r.push(e);
            assert(entries_view(r@) =~= seq![entry_view(e)]);
            r
        },
        TsvKind::Symbol => {
            let t = trim_vec(line);
            if t.len() == 0 || t[0] == '#' || starts_with_pos(&t) {
                return r;
            }
            let cols = splitn_chars(&t, 0, t.len(), 4, '\t');
            assert(t@.subrange(0, t.len() as int) == t@);
            if cols.len() < 3 {
                return r;
            }
            let surface = trim_vec(&cols[1]);
            entries_under_readings(&surface, &cols[2], 3000)
        },
        TsvKind::Emoji(cost) => {
            let mut end: usize = line.len();
            assert(line@.subrange(0, line.len() as int) == line@);
            while end > 0 && line[end - 1] == '\r'
                invariant
                    end <= line.len(),
                    trim_end_cr(line@.subrange(0, end as int)) == trim_end_cr(line@),
                decreases end,
            {
                assert(line@.subrange(0, end as int).drop_last() == line@.subrange(0, end - 1));
                end = end - 1;
            }
            assert(trim_end_cr(line@.subrange(0, end as int)) == line@.subrange(0, end as int));
            let l = sub_vec(line, 0, end);
            if l.len() == 0 || l[0] == '#' {
                return r;
            }
            let cols = split_chars(&l, 0, l.len(), '\t');
            assert(l@.subrange(0, l.len() as int) == l@);
            if cols.len() < 3 {
                return r;
            }
            let surface = trim_vec(&cols[1]);
            entries_under_readings(&surface, &cols[2], cost)
        },
    }
}

/// The entries of a whole TSV text (see `spec_parse_text`); reading the file
/// is the caller's part.
pub fn parse_text(kind: TsvKind, text: &str) -> (r: Vec<Entry>)
    ensures
        entries_view(r@) == spec_parse_text(kind, text@),
{
    let v = chars_of(text);
    let lines = lines_of(&v);
    let ghost lv = vecs_view(lines@);
    let mut r: Vec<Entry> = Vec::new();
    let mut i: usize = 0;
    while i < lines.len()
        invariant
            i <= lines.len(),
            lv == vecs_view(lines@),
            entries_view(r@) == lines_entries(kind, lv.take(i as int)),
        decreases lines.len() - i,
    {
        assert(lv.take(i + 1).drop_last() == lv.take(i as int));
        assert(lv[i as int] == lines@[i as int]@);
        let es = parse_line(kind, &lines[i]);
        let mut k: usize = 0;
        let ghost head = r@;
        while k < es.len()
            invariant
                k <= es.len(),
                entries_view(r@) == entries_view(head) + entries_view(es@).take(k as int),
            decreases es.len() - k,
        {
            let e = Entry {
                reading: es[k].reading.clone(),
                surface: es[k].surface.clone(),
                cost: es[k].cost,
            };
            let ghost before = r@;
            r.push(e);
            assert(entries_view(r@) =~= entries_view(before).push(entry_view(e)));
            assert(entries_view(es@).take(k + 1) =~= entries_view(es@).take(k as int).push(
                entry_view(es@[k as int]),
            ));
            k = k + 1;
        }
        assert(entries_view(es@).take(es.len() as int) == entries_view(es@));
        i = i + 1;
    }
    assert(lv.take(lines.len() as int) == lv);
    r
}

/// The entries of mozc's dictionary TSV (see `tsv_line_entry`).
pub fn parse_tsv_text(text: &str, max_cost: u16) -> (r: Vec<Entry>)
    ensures
        entries_view(r@) == spec_parse_text(TsvKind::Dictionary(max_cost), text@),
{
    parse_text(TsvKind::Dictionary(max_cost), text)
}

/// The entries of mozc's symbol TSV (see `symbol_line_entries`).
pub fn parse_symbol_tsv_text(text: &str) -> (r: Vec<Entry>)
    ensures
        entries_view(r@) == spec_parse_text(TsvKind::Symbol, text@),
{
    parse_text(TsvKind::Symbol, text)
}

/// The entries of mozc's emoji TSV (see `emoji_line_entries`).
pub fn parse_emoji_tsv_text(text: &str, cost: u16) -> (r: Vec<Entry>)
    ensures
        entries_view(r@) == spec_parse_text(TsvKind::Emoji(cost), text@),
{
    parse_text(TsvKind::Emoji(cost), text)
}

// ─── grouping by reading ────────────────────────────────────────────────────

/// Lexicographic order of character sequences by code point (the order of
/// their UTF-8 bytes): -1, 0 or 1.
pub open spec fn lex_order(a: Seq<char>, b: Seq<char>) -> int
    decreases a.len(),
{
    if a.len() == 0 {
        if b.len() == 0 {
            0
        } else {
            -1
        }
    } else if b.len() == 0 {
        1
    } else if (a[0] as u32) < (b[0] as u32) {
        -1
    } else if (a[0] as u32) > (b[0] as u32) {
        1
    } else {
        lex_order(a.drop_first(), b.drop_first())
    }
}

/// Compares two strings (see `lex_order`).
pub fn compare_strs(a: &str, b: &str) -> (r: i8)
    ensures
        r as int == lex_order(a@, b@),
{
    let va = chars_of(a);
    let vb = chars_of(b);
    let mut i: usize = 0;
    assert(a@.skip(0) == a@);
    assert(b@.skip(0) == b@);
    while i < va.len() && i < vb.len() && va[i] == vb[i]
        invariant
            i <= va.len(),
            i <= vb.len(),
            va@ == a@,
            vb@ == b@,
            lex_order(a@, b@) == lex_order(a@.skip(i as int), b@.skip(i as int)),
        decreases va.len() - i,
    {
        assert(a@.skip(i as int).drop_first() == a@.skip(i + 1));
        assert(b@.skip(i as int).drop_first() == b@.skip(i + 1));
        i = i + 1;
    }
    if i == va.len() {
        if i == vb.len() {
            0
        } else {
            -1
        }
    } else if i == vb.len() {
        1
    } else if (va[i] as u32) < (vb[i] as u32) {
        -1
    } else {
        assert(va[i as int] != vb[i as int]);
        assert((va[i as int] as u32) != (vb[i as int] as u32)) by {
            vstd::utf8::char_u32_cast(va[i as int], va[i as int] as u32);
            vstd::utf8::char_u32_cast(vb[i as int], vb[i as int] as u32);
        }
        1
    }
}

/// The order of a reading's candidates: by cost, then by surface.
pub open spec fn token_lt(x: (Seq<char>, u16), y: (Seq<char>, u16)) -> bool {
    x.1 < y.1 || (x.1 == y.1 && lex_order(x.0, y.0) < 0)
}

/// `x` put into `s` before the first token greater than it.
pub open spec fn insert_token(s: Seq<(Seq<char>, u16)>, x: (Seq<char>, u16)) -> Seq<
    (Seq<char>, u16),
>
    decreases s.len(),
{
    if s.len() == 0 {
        seq![x]
    } else if token_lt(x, s[0]) {
        seq![x] + s
    } else {
        seq![s[0]] + insert_token(s.drop_first(), x)
    }
}

/// The tokens sorted by `token_lt`, equal ones in their order (insertion sort,
/// as stable as `sort_by`).
pub open spec fn sort_tokens(s: Seq<(Seq<char>, u16)>) -> Seq<(Seq<char>, u16)>
    decreases s.len(),
{
    if s.len() == 0 {
        seq![]
    } else {
        insert_token(sort_tokens(s.drop_last()), s.last())
    }
}

/// Whether a token with surface `x` is among `d`.
pub open spec fn has_surface(d: Seq<(Seq<char>, u16)>, x: Seq<char>) -> bool {
    exists|i: int| 0 <= i < d.len() && (#[trigger] d[i]).0 == x
}

/// The tokens, each surface kept only at its first token (on a list sorted by
/// cost, the cheapest one).
pub open spec fn dedup_surfaces(s: Seq<(Seq<char>, u16)>) -> Seq<(Seq<char>, u16)>
    decreases s.len(),
{
    if s.len() == 0 {
        seq![]
    } else {
        let d = dedup_surfaces(s.drop_last());
        if has_surface(d, s.last().0) {
            d
        } else {
            d.push(s.last())
        }
    }
}

/// A reading's candidates as written: sorted, each surface kept once (at its
/// cheapest), at most `max` kept.
pub open spec fn process_tokens(s: Seq<(Seq<char>, u16)>, max: nat) -> Seq<(Seq<char>, u16)> {
    let d = dedup_surfaces(sort_tokens(s));
    if d.len() <= max {
        d
    } else {
        d.take(max as int)
    }
}

/// The index of the group of `r` in `a`, if any.
pub open spec fn find_group(a: Seq<(Seq<char>, Seq<(Seq<char>, u16)>)>, r: Seq<char>) -> Option<int>
    decreases a.len(),
{
    if a.len() == 0 {
        None
    } else if a.last().0 == r {
        match find_group(a.drop_last(), r) {
            Some(j) => Some(j),
            None => Some(a.len() - 1),
        }
    } else {
        find_group(a.drop_last(), r)
    }
}

/// The entries gathered by reading, readings in order of first appearance,
/// each with its (surface, cost) tokens in entry order.
pub open spec fn group_entries(es: Seq<(Seq<char>, Seq<char>, u16)>) -> Seq<
    (Seq<char>, Seq<(Seq<char>, u16)>),
>
    decreases es.len(),
{
    if es.len() == 0 {
        seq![]
    } else {
        let a = group_entries(es.drop_last());
        let e = es.last();
        match find_group(a, e.0) {
            Some(j) => a.update(j, (a[j].0, a[j].1.push((e.1, e.2)))),
            None => a.push((e.0, seq![(e.1, e.2)])),
        }
    }
}

/// `g` put into `s` before the first group whose reading is greater.
pub open spec fn insert_group(
    s: Seq<(Seq<char>, Seq<(Seq<char>, u16)>)>,
    g: (Seq<char>, Seq<(Seq<char>, u16)>),
) -> Seq<(Seq<char>, Seq<(Seq<char>, u16)>)>
    decreases s.len(),
{
    if s.len() == 0 {
        seq![g]
    } else if lex_order(g.0, s[0].0) < 0 {
        seq![g] + s
    } else {
        seq![s[0]] + insert_group(s.drop_first(), g)
    }
}

pub open spec fn sort_groups(s: Seq<(Seq<char>, Seq<(Seq<char>, u16)>)>) -> Seq<
    (Seq<char>, Seq<(Seq<char>, u16)>),
>
    decreases s.len(),
{
    if s.len() == 0 {
        seq![]
    } else {
        insert_group(sort_groups(s.drop_last()), s.last())
    }
}

/// The groups of the dictionary: one per reading, its candidates processed
/// (see `process_tokens`), the groups in the order of their readings.
pub open spec fn spec_build_groups(es: Seq<(Seq<char>, Seq<char>, u16)>, max: nat) -> Seq<
    (Seq<char>, Seq<(Seq<char>, u16)>),
> {
    sort_groups(
        group_entries(es).map_values(
            |g: (Seq<char>, Seq<(Seq<char>, u16)>)| (g.0, process_tokens(g.1, max)),
        ),
    )
}

/// A reading with its candidates, as written into the dictionary.
#[derive(Debug, Clone)]
pub struct ReadingGroup {
    pub reading: String,
    pub tokens: Vec<(String, u16)>,
}

pub open spec fn tokens_view(v: Seq<(String, u16)>) -> Seq<(Seq<char>, u16)> {
    v.map_values(|t: (String, u16)| (t.0@, t.1))
}

pub open spec fn group_view(g: ReadingGroup) -> (Seq<char>, Seq<(Seq<char>, u16)>) {
    (g.reading@, tokens_view(g.tokens@))
}

pub open spec fn groups_view(v: Seq<ReadingGroup>) -> Seq<(Seq<char>, Seq<(Seq<char>, u16)>)> {
    v.map_values(|g: ReadingGroup| group_view(g))
}

fn token_less(x: &(String, u16), y: &(String, u16)) -> (b: bool)
    ensures
        b == token_lt((x.0@, x.1), (y.0@, y.1)),
{
    x.1 < y.1 || (x.1 == y.1 && compare_strs(x.0.as_str(), y.0.as_str()) < 0)
}

proof fn lemma_insert_token_at(s: Seq<(Seq<char>, u16)>, x: (Seq<char>, u16), p: int)
    requires
        0 <= p <= s.len(),
        forall|j: int| 0 <= j < p ==> !token_lt(x, #[trigger] s[j]),
        p < s.len() ==> token_lt(x, s[p]),
    ensures
        insert_token(s, x) == s.insert(p, x),
    decreases s.len(),
{
    if s.len() > 0 && p > 0 {
        assert forall|j: int| 0 <= j < p - 1 implies !token_lt(x, #[trigger] s.drop_first()[j]) by {
            assert(s.drop_first()[j] == s[j + 1]);
        }
        lemma_insert_token_at(s.drop_first(), x, p - 1);
        assert(s.insert(p, x) =~= seq![s[0]] + s.drop_first().insert(p - 1, x));
    } else if s.len() > 0 {
        assert(s.insert(0, x) =~= seq![x] + s);
    } else {
        assert(s.insert(0, x) =~= seq![x]);
    }
}

fn clone_token(t: &(String, u16)) -> (r: (String, u16))
    ensures
        (r.0@, r.1) == (t.0@, t.1),
{
    (t.0.clone(), t.1)
}

/// Sorts tokens by cost, then surface (see `sort_tokens`).
pub fn sort_token_vec(v: &Vec<(String, u16)>) -> (r: Vec<(String, u16)>)
    ensures
        tokens_view(r@) == sort_tokens(tokens_view(v@)),
{
    let ghost tv = tokens_view(v@);
    let mut r: Vec<(String, u16)> = Vec::new();
    let mut i: usize = 0;
    while i < v.len()
        invariant
            i <= v.len(),
            tv == tokens_view(v@),
            tokens_view(r@) == sort_tokens(tv.take(i as int)),
        decreases v.len() - i,
    {
        assert(tv.take(i + 1).drop_last() == tv.take(i as int));
        assert(tv.take(i + 1).last() == tv[i as int]);
        let x = clone_token(&v[i]);
        let mut p: usize = 0;
        while p < r.len() && !token_less(&x, &r[p])
            invariant
                p <= r.len(),
                forall|j: int| 0 <= j < p ==> !token_lt((x.0@, x.1), #[trigger] tokens_view(r@)[j]),
            decreases r.len() - p,
        {
            p = p + 1;
        }
        proof {
            lemma_insert_token_at(tokens_view(r@), (x.0@, x.1), p as int);
        }
        let ghost before = r@;
        r.insert(p, x);
        assert(tokens_view(r@) =~= tokens_view(before).insert(p as int, (x.0@, x.1)));
        i = i + 1;
    }
    assert(tv.take(v.len() as int) == tv);
    r
}

/// Drops each token whose surface an earlier token already has (see
/// `dedup_surfaces`).
pub fn dedup_token_vec(v: &Vec<(String, u16)>) -> (r: Vec<(String, u16)>)
    ensures
        tokens_view(r@) == dedup_surfaces(tokens_view(v@)),
{
    let ghost tv = tokens_view(v@);
    let mut r: Vec<(String, u16)> = Vec::new();
    let mut i: usize = 0;
    while i < v.len()
        invariant
            i <= v.len(),
            tv == tokens_view(v@),
            tokens_view(r@) == dedup_surfaces(tv.take(i as int)),
        decreases v.len() - i,
    {
        assert(tv.take(i + 1).drop_last() == tv.take(i as int));
        assert(tv.take(i + 1).last() == tv[i as int]);
        let ghost rv = tokens_view(r@);
        let mut repeat = false;
        let mut j: usize = 0;
        while j < r.len()
            invariant
                j <= r.len(),
                i < v.len(),
                rv == tokens_view(r@),
                tv == tokens_view(v@),
                repeat <==> exists|k: int| 0 <= k < j && (#[trigger] rv[k]).0 == tv[i as int].0,
            decreases r.len() - j,
        {
            if crate::text::str_eq(r[j].0.as_str(), v[i].0.as_str()) {
                repeat = true;
            }
            assert(rv[j as int].0 == r@[j as int].0@);
            j = j + 1;
        }
        assert(repeat == has_surface(rv, tv[i as int].0));
        if !repeat {
            let x = clone_token(&v[i]);
            let ghost before = r@;
            r.push(x);
            assert(tokens_view(r@) =~= tokens_view(before).push((x.0@, x.1)));
        }
        i = i + 1;
    }
    assert(tv.take(v.len() as int) == tv);
    r
}

fn find_group_index(acc: &Vec<ReadingGroup>, r: &str) -> (k: Option<usize>)
    ensures
        match k {
            Some(j) => find_group(groups_view(acc@), r@) == Some(j as int) && j < acc.len(),
            None => find_group(groups_view(acc@), r@) is None,
        },
{
    let ghost gv = groups_view(acc@);
    let mut j: usize = 0;
    while j < acc.len()
        invariant
            j <= acc.len(),
            gv == groups_view(acc@),
            forall|k: int| 0 <= k < j ==> (#[trigger] gv[k]).0 != r@,
        decreases acc.len() - j,
    {
        if crate::text::str_eq(acc[j].reading.as_str(), r) {
            proof {
                lemma_find_group_at(gv, r@, j as int);
            }
            return Some(j);
        }
        j = j + 1;
    }
    proof {
        lemma_find_group_none(gv, r@);
    }
    None
}

proof fn lemma_find_group_at(a: Seq<(Seq<char>, Seq<(Seq<char>, u16)>)>, r: Seq<char>, j: int)
    requires
        0 <= j < a.len(),
        a[j].0 == r,
        forall|k: int| 0 <= k < j ==> (#[trigger] a[k]).0 != r,
    ensures
        find_group(a, r) == Some(j),
    decreases a.len(),
{
    if j < a.len() - 1 {
        lemma_find_group_at(a.drop_last(), r, j);
    } else {
        lemma_find_group_none(a.drop_last(), r);
    }
}

proof fn lemma_find_group_none(a: Seq<(Seq<char>, Seq<(Seq<char>, u16)>)>, r: Seq<char>)
    requires
        forall|k: int| 0 <= k < a.len() ==> (#[trigger] a[k]).0 != r,
    ensures
        find_group(a, r) is None,
    decreases a.len(),
{
    if a.len() > 0 {
        lemma_find_group_none(a.drop_last(), r);
    }
}

proof fn lemma_insert_group_at(
    s: Seq<(Seq<char>, Seq<(Seq<char>, u16)>)>,
    g: (Seq<char>, Seq<(Seq<char>, u16)>),
    p: int,
)
    requires
        0 <= p <= s.len(),
        forall|j: int| 0 <= j < p ==> !(lex_order(g.0, (#[trigger] s[j]).0) < 0),
        p < s.len() ==> lex_order(g.0, s[p].0) < 0,
    ensures
        insert_group(s, g) == s.insert(p, g),
    decreases s.len(),
{
    if s.len() > 0 && p > 0 {
        assert forall|j: int| 0 <= j < p - 1 implies !(lex_order(g.0, (
        #[trigger] s.drop_first()[j]).0) < 0) by {
            assert(s.drop_first()[j] == s[j + 1]);
        }
        lemma_insert_group_at(s.drop_first(), g, p - 1);
        assert(s.insert(p, g) =~= seq![s[0]] + s.drop_first().insert(p - 1, g));
    } else if s.len() > 0 {
        assert(s.insert(0, g) =~= seq![g] + s);
    } else {
        assert(s.insert(0, g) =~= seq![g]);
    }
}

/// Groups the entries by reading, sorts and trims each reading's candidates,
/// and sorts the groups by reading (see `spec_build_groups`).
pub fn build_groups(entries: Vec<Entry>, max_per_reading: usize) -> (r: Vec<ReadingGroup>)
    ensures
        groups_view(r@) == spec_build_groups(entries_view(entries@), max_per_reading as nat),
{
    let ghost ev = entries_view(entries@);
    let mut acc: Vec<ReadingGroup> = Vec::new();
    let mut i: usize = 0;
    while i < entries.len()
        invariant
            i <= entries.len(),
            ev == entries_view(entries@),
            groups_view(acc@) == group_entries(ev.take(i as int)),
        decreases entries.len() - i,
    {
        assert(ev.take(i + 1).drop_last() == ev.take(i as int));
        assert(ev.take(i + 1).last() == ev[i as int]);
        let e = &entries[i];
        let tok = (e.surface.clone(), e.cost);
        match find_group_index(&acc, e.reading.as_str()) {
            Some(j) => {
                let mut tokens: Vec<(String, u16)> = Vec::new();
                let mut k: usize = 0;
                while k < acc[j].tokens.len()
                    invariant
                        j < acc.len(),
                        k <= acc[j as int].tokens.len(),
                        tokens_view(tokens@) == tokens_view(acc[j as int].tokens@).take(k as int),
                    decreases acc[j as int].tokens.len() - k,
                {
                    let t = clone_token(&acc[j].tokens[k]);
                    let ghost before = tokens@;
                    tokens.push(t);
                    assert(tokens_view(tokens@) =~= tokens_view(before).push((t.0@, t.1)));
                    assert(tokens_view(acc[j as int].tokens@).take(k + 1) =~= tokens_view(
                        acc[j as int].tokens@,
                    ).take(k as int).push(tokens_view(acc[j as int].tokens@)[k as int]));
                    k = k + 1;
                }
                assert(tokens_view(acc[j as int].tokens@).take(acc[j as int].tokens.len() as int)
                    == tokens_view(acc[j as int].tokens@));
                let ghost before_t = tokens@;
                tokens.push(tok);
                assert(tokens_view(tokens@) =~= tokens_view(before_t).push((tok.0@, tok.1)));
                let g = ReadingGroup { reading: acc[j].reading.clone(), tokens };
                let ghost before = acc@;
                acc.set(j, g);
                assert(groups_view(acc@) =~= groups_view(before).update(j as int, group_view(g)));
            },
            None => {
                let mut tokens: Vec<(String, u16)> = Vec::new();
                tokens.push(tok);
                assert(tokens_view(tokens@) =~= seq![(tok.0@, tok.1)]);
                let g = ReadingGroup { reading: e.reading.clone(), tokens };
                let ghost before = acc@;
                acc.push(g);
                assert(groups_view(acc@) =~= groups_view(before).push(group_view(g)));
            },
        }
        i = i + 1;
    }
    assert(ev.take(entries.len() as int) == ev);
    let ghost grouped = groups_view(acc@);
    let ghost processed = grouped.map_values(
        |g: (Seq<char>, Seq<(Seq<char>, u16)>)| (g.0, process_tokens(g.1, max_per_reading as nat)),
    );
    let mut sorted: Vec<ReadingGroup> = Vec::new();
    let mut k: usize = 0;
    while k < acc.len()
        invariant
            k <= acc.len(),
            grouped == groups_view(acc@),
            processed == grouped.map_values(
                |g: (Seq<char>, Seq<(Seq<char>, u16)>)|
                    (g.0, process_tokens(g.1, max_per_reading as nat)),
            ),
            groups_view(sorted@) == sort_groups(processed.take(k as int)),
        decreases acc.len() - k,
    {
        assert(processed.take(k + 1).drop_last() == processed.take(k as int));
        assert(processed.take(k + 1).last() == processed[k as int]);
        let sorted_tokens = sort_token_vec(&acc[k].tokens);
        let mut tokens = dedup_token_vec(&sorted_tokens);
        if tokens.len() > max_per_reading {
            let ghost before = tokens@;
            tokens.truncate(max_per_reading);
            assert(tokens_view(tokens@) =~= tokens_view(before).take(max_per_reading as int));
        }
        let g = ReadingGroup { reading: acc[k].reading.clone(), tokens };
        assert(group_view(g) == processed[k as int]);
        let mut p: usize = 0;
        while p < sorted.len() && !(compare_strs(g.reading.as_str(), sorted[p].reading.as_str()) < 0)
            invariant
                p <= sorted.len(),
                forall|j: int|
                    0 <= j < p ==> !(lex_order(g.reading@, (#[trigger] groups_view(sorted@)[j]).0)
                        < 0),
            decreases sorted.len() - p,
        {
            p = p + 1;
        }
        proof {
            lemma_insert_group_at(groups_view(sorted@), group_view(g), p as int);
        }
        let ghost before = sorted@;
        sorted.insert(p, g);
        assert(groups_view(sorted@) =~= groups_view(before).insert(p as int, group_view(g)));
        k = k + 1;
    }
    assert(processed.take(acc.len() as int) == processed);
    sorted
}

// ─── the order of the groups ────────────────────────────────────────────────

pub(crate) proof fn lemma_lex_order(a: Seq<char>, b: Seq<char>)
    ensures
        lex_order(a, b) == -lex_order(b, a),
        lex_order(a, b) == 0 <==> a == b,
        -1 <= lex_order(a, b) <= 1,
    decreases a.len(),
{
    if a.len() > 0 && b.len() > 0 {
        lemma_lex_order(a.drop_first(), b.drop_first());
        if a[0] == b[0] && a.drop_first() == b.drop_first() {
            assert(a == seq![a[0]] + a.drop_first());
            assert(b == seq![b[0]] + b.drop_first());
        }
        if (a[0] as u32) == (b[0] as u32) {
            vstd::utf8::char_u32_cast(a[0], a[0] as u32);
            vstd::utf8::char_u32_cast(b[0], b[0] as u32);
        }
        if a == b {
            assert(a.drop_first() == b.drop_first());
        }
    } else if a.len() == 0 && b.len() == 0 {
        assert(a == b);
    }
}

pub(crate) proof fn lemma_lex_order_trans(a: Seq<char>, b: Seq<char>, c: Seq<char>)
    requires
        lex_order(a, b) < 0,
        lex_order(b, c) < 0,
    ensures
        lex_order(a, c) < 0,
    decreases a.len(),
{
    if a.len() > 0 && b.len() > 0 && c.len() > 0 {
        if (a[0] as u32) == (b[0] as u32) && (b[0] as u32) == (c[0] as u32) {
            lemma_lex_order_trans(a.drop_first(), b.drop_first(), c.drop_first());
        }
    }
}

/// The groups are in strictly increasing order of reading.
pub open spec fn groups_sorted(s: Seq<(Seq<char>, Seq<(Seq<char>, u16)>)>) -> bool {
    forall|i: int, j: int| 0 <= i < j < s.len() ==> lex_order((#[trigger] s[i]).0, (#[trigger] s[j]).0) < 0
}

/// No two groups have the same reading.
pub open spec fn readings_distinct(s: Seq<(Seq<char>, Seq<(Seq<char>, u16)>)>) -> bool {
    forall|i: int, j: int| 0 <= i < j < s.len() ==> (#[trigger] s[i]).0 != (#[trigger] s[j]).0
}

proof fn lemma_insert_group_members(
    s: Seq<(Seq<char>, Seq<(Seq<char>, u16)>)>,
    g: (Seq<char>, Seq<(Seq<char>, u16)>),
)
    ensures
        insert_group(s, g).len() == s.len() + 1,
        forall|k: int|
            0 <= k < insert_group(s, g).len() ==> (#[trigger] insert_group(s, g)[k] == g || s.contains(
                insert_group(s, g)[k],
            )),
        forall|k: int| 0 <= k < s.len() ==> insert_group(s, g).contains(#[trigger] s[k]),
        insert_group(s, g).contains(g),
    decreases s.len(),
{
    if s.len() > 0 && !(lex_order(g.0, s[0].0) < 0) {
        let rest = s.drop_first();
        lemma_insert_group_members(rest, g);
        let ins = insert_group(s, g);
        assert(ins == seq![s[0]] + insert_group(rest, g));
        assert forall|k: int| 0 <= k < ins.len() implies (#[trigger] ins[k] == g || s.contains(
            ins[k],
        )) by {
            if k == 0 {
                assert(s[0] == ins[0]);
            } else {
                assert(ins[k] == insert_group(rest, g)[k - 1]);
                if rest.contains(ins[k]) {
                    let m = choose|m: int| 0 <= m < rest.len() && rest[m] == ins[k];
                    assert(s[m + 1] == ins[k]);
                }
            }
        }
        assert forall|k: int| 0 <= k < s.len() implies ins.contains(#[trigger] s[k]) by {
            if k == 0 {
                assert(ins[0] == s[0]);
            } else {
                assert(s[k] == rest[k - 1]);
                let m = choose|m: int|
                    0 <= m < insert_group(rest, g).len() && insert_group(rest, g)[m] == rest[k - 1];
                assert(ins[m + 1] == s[k]);
            }
        }
        let m = choose|m: int| 0 <= m < insert_group(rest, g).len() && insert_group(rest, g)[m] == g;
        assert(ins[m + 1] == g);
    } else if s.len() > 0 {
        let ins = insert_group(s, g);
        assert(ins == seq![g] + s);
        assert(ins[0] == g);
        assert forall|k: int| 0 <= k < ins.len() implies (#[trigger] ins[k] == g || s.contains(
            ins[k],
        )) by {
            if k > 0 {
                assert(ins[k] == s[k - 1]);
            }
        }
        assert forall|k: int| 0 <= k < s.len() implies ins.contains(#[trigger] s[k]) by {
            assert(ins[k + 1] == s[k]);
        }
    } else {
        assert(insert_group(s, g)[0] == g);
    }
}

proof fn lemma_insert_group_sorted(
    s: Seq<(Seq<char>, Seq<(Seq<char>, u16)>)>,
    g: (Seq<char>, Seq<(Seq<char>, u16)>),
)
    requires
        groups_sorted(s),
        forall|k: int| 0 <= k < s.len() ==> (#[trigger] s[k]).0 != g.0,
    ensures
        groups_sorted(insert_group(s, g)),
    decreases s.len(),
{
    lemma_insert_group_members(s, g);
    if s.len() > 0 {
        let ins = insert_group(s, g);
        if lex_order(g.0, s[0].0) < 0 {
            assert forall|i: int, j: int| 0 <= i < j < ins.len() implies lex_order(
                (#[trigger] ins[i]).0,
                (#[trigger] ins[j]).0,
            ) < 0 by {
                if i == 0 {
                    if j > 1 {
                        assert(ins[j] == s[j - 1]);
                        lemma_lex_order_trans(g.0, s[0].0, s[j - 1].0);
                    }
                } else {
                    assert(ins[i] == s[i - 1] && ins[j] == s[j - 1]);
                }
            }
        } else {
            let rest = s.drop_first();
            assert(groups_sorted(rest)) by {
                assert forall|i: int, j: int| 0 <= i < j < rest.len() implies lex_order(
                    (#[trigger] rest[i]).0,
                    (#[trigger] rest[j]).0,
                ) < 0 by {
                    assert(rest[i] == s[i + 1] && rest[j] == s[j + 1]);
                }
            }
            assert forall|k: int| 0 <= k < rest.len() implies (#[trigger] rest[k]).0 != g.0 by {
                assert(rest[k] == s[k + 1]);
            }
            lemma_insert_group_sorted(rest, g);
            lemma_insert_group_members(rest, g);
            lemma_lex_order(g.0, s[0].0);
            assert(lex_order(s[0].0, g.0) < 0) by {
                assert(s[0].0 != g.0);
            }
            let tail = insert_group(rest, g);
            assert(ins == seq![s[0]] + tail);
            assert forall|i: int, j: int| 0 <= i < j < ins.len() implies lex_order(
                (#[trigger] ins[i]).0,
                (#[trigger] ins[j]).0,
            ) < 0 by {
                if i == 0 {
                    assert(ins[j] == tail[j - 1]);
                    if tail[j - 1] != g {
                        assert(rest.contains(tail[j - 1]));
                        let m = choose|m: int| 0 <= m < rest.len() && rest[m] == tail[j - 1];
                        assert(s[m + 1] == rest[m]);
                    }
                } else {
                    assert(ins[i] == tail[i - 1] && ins[j] == tail[j - 1]);
                }
            }
        }
    } else {
    }
}

pub(crate) proof fn lemma_sort_groups(s: Seq<(Seq<char>, Seq<(Seq<char>, u16)>)>)
    requires
        readings_distinct(s),
    ensures
        groups_sorted(sort_groups(s)),
        sort_groups(s).len() == s.len(),
        forall|k: int| 0 <= k < sort_groups(s).len() ==> s.contains(#[trigger] sort_groups(s)[k]),
        forall|k: int| 0 <= k < s.len() ==> sort_groups(s).contains(#[trigger] s[k]),
    decreases s.len(),
{
    if s.len() > 0 {
        let init = s.drop_last();
        assert(readings_distinct(init)) by {
            assert forall|i: int, j: int| 0 <= i < j < init.len() implies (#[trigger] init[i]).0
                != (#[trigger] init[j]).0 by {
                assert(init[i] == s[i] && init[j] == s[j]);
            }
        }
        lemma_sort_groups(init);
        let sg = sort_groups(init);
        let last = s.last();
        assert forall|k: int| 0 <= k < sg.len() implies (#[trigger] sg[k]).0 != last.0 by {
            let m = choose|m: int| 0 <= m < init.len() && init[m] == sg[k];
            assert(s[m] == init[m]);
            assert(s[s.len() - 1] == last);
        }
        lemma_insert_group_sorted(sg, last);
        lemma_insert_group_members(sg, last);
        let out = sort_groups(s);
        assert forall|k: int| 0 <= k < out.len() implies s.contains(#[trigger] out[k]) by {
            if out[k] == last {
                assert(s[s.len() - 1] == last);
            } else {
                let m = choose|m: int| 0 <= m < sg.len() && sg[m] == out[k];
                let n = choose|n: int| 0 <= n < init.len() && init[n] == sg[m];
                assert(s[n] == init[n]);
            }
        }
        assert forall|k: int| 0 <= k < s.len() implies out.contains(#[trigger] s[k]) by {
            if k < s.len() - 1 {
                assert(init[k] == s[k]);
                let m = choose|m: int| 0 <= m < sg.len() && sg[m] == init[k];
                assert(out.contains(sg[m]));
            } else {
                assert(s[k] == last);
            }
        }
    }
}

pub(crate) proof fn lemma_group_entries_distinct(es: Seq<(Seq<char>, Seq<char>, u16)>)
    ensures
        readings_distinct(group_entries(es)),
        forall|k: int| 0 <= k < es.len() ==> exists|j: int|
            0 <= j < group_entries(es).len() && (#[trigger] group_entries(es)[j]).0 == (
            #[trigger] es[k]).0,
    decreases es.len(),
{
    if es.len() > 0 {
        let init = es.drop_last();
        lemma_group_entries_distinct(init);
        let a = group_entries(init);
        let e = es.last();
        let out = group_entries(es);
        lemma_find_group(a, e.0);
        match find_group(a, e.0) {
            Some(j) => {
                assert forall|p: int, q: int| 0 <= p < q < out.len() implies (#[trigger] out[p]).0
                    != (#[trigger] out[q]).0 by {
                    assert(out[p].0 == a[p].0 && out[q].0 == a[q].0);
                }
                assert forall|k: int| 0 <= k < es.len() implies exists|jj: int|
                    0 <= jj < out.len() && (#[trigger] out[jj]).0 == (#[trigger] es[k]).0 by {
                    if k < es.len() - 1 {
                        assert(init[k] == es[k]);
                        let jj = choose|jj: int|
                            0 <= jj < a.len() && (#[trigger] a[jj]).0 == (#[trigger] init[k]).0;
                        assert(out[jj].0 == a[jj].0);
                    } else {
                        assert(out[j].0 == a[j].0);
                        assert(es[k] == e);
                    }
                }
            },
            None => {
                assert forall|p: int, q: int| 0 <= p < q < out.len() implies (#[trigger] out[p]).0
                    != (#[trigger] out[q]).0 by {
                    if q == a.len() {
                        assert(out[p] == a[p]);
                    } else {
                        assert(out[p] == a[p] && out[q] == a[q]);
                    }
                }
                assert forall|k: int| 0 <= k < es.len() implies exists|jj: int|
                    0 <= jj < out.len() && (#[trigger] out[jj]).0 == (#[trigger] es[k]).0 by {
                    if k < es.len() - 1 {
                        assert(init[k] == es[k]);
                        let jj = choose|jj: int|
                            0 <= jj < a.len() && (#[trigger] a[jj]).0 == (#[trigger] init[k]).0;
                        assert(out[jj] == a[jj]);
                    } else {
                        assert(out[a.len() as int].0 == e.0);
                        assert(es[k] == e);
                    }
                }
            },
        }
    }
}

pub(crate) proof fn lemma_find_group(a: Seq<(Seq<char>, Seq<(Seq<char>, u16)>)>, r: Seq<char>)
    ensures
        match find_group(a, r) {
            Some(j) => 0 <= j < a.len() && a[j].0 == r,
            None => forall|k: int| 0 <= k < a.len() ==> (#[trigger] a[k]).0 != r,
        },
    decreases a.len(),
{
    if a.len() > 0 {
        lemma_find_group(a.drop_last(), r);
        match find_group(a.drop_last(), r) {
            Some(j) => {
                assert(a[j] == a.drop_last()[j]);
            },
            None => {
                assert forall|k: int| 0 <= k < a.len() - 1 implies (#[trigger] a[k]).0 != r by {
                    assert(a[k] == a.drop_last()[k]);
                }
            },
        }
    }
}

/// The dictionary's groups are in strictly increasing order of reading (which
/// the engine's binary search needs), and every entry's reading has its
/// group.
pub proof fn lemma_build_groups_sorted(es: Seq<(Seq<char>, Seq<char>, u16)>, max: nat)
    ensures
        groups_sorted(spec_build_groups(es, max)),
        forall|k: int| 0 <= k < es.len() ==> exists|j: int|
            0 <= j < spec_build_groups(es, max).len() && (#[trigger] spec_build_groups(es, max)[j]).0
                == (#[trigger] es[k]).0,
{
    lemma_group_entries_distinct(es);
    let g = group_entries(es);
    let p = g.map_values(
        |x: (Seq<char>, Seq<(Seq<char>, u16)>)| (x.0, process_tokens(x.1, max)),
    );
    assert(readings_distinct(p)) by {
        assert forall|i: int, j: int| 0 <= i < j < p.len() implies (#[trigger] p[i]).0 != (
        #[trigger] p[j]).0 by {
            assert(p[i].0 == g[i].0 && p[j].0 == g[j].0);
        }
    }
    lemma_sort_groups(p);
    let out = spec_build_groups(es, max);
    assert forall|k: int| 0 <= k < es.len() implies exists|j: int|
        0 <= j < out.len() && (#[trigger] out[j]).0 == (#[trigger] es[k]).0 by {
        let jj = choose|jj: int| 0 <= jj < g.len() && (#[trigger] g[jj]).0 == (#[trigger] es[k]).0;
        assert(p[jj].0 == g[jj].0);
        let m = choose|m: int| 0 <= m < out.len() && out[m] == p[jj];
    }
}

/// The tokens in order of cost, cheapest first.
pub open spec fn costs_sorted(s: Seq<(Seq<char>, u16)>) -> bool {
    forall|i: int, j: int| 0 <= i < j < s.len() ==> (#[trigger] s[i]).1 <= (#[trigger] s[j]).1
}

proof fn lemma_costs_sorted_tail(s: Seq<(Seq<char>, u16)>)
    requires
        costs_sorted(s),
        s.len() > 0,
    ensures
        costs_sorted(s.drop_first()),
        costs_sorted(s.drop_last()),
{
    let t = s.drop_first();
    assert forall|i: int, j: int| 0 <= i < j < t.len() implies (#[trigger] t[i]).1 <= (
    #[trigger] t[j]).1 by {
        assert(t[i] == s[i + 1] && t[j] == s[j + 1]);
    }
    let u = s.drop_last();
    assert forall|i: int, j: int| 0 <= i < j < u.len() implies (#[trigger] u[i]).1 <= (
    #[trigger] u[j]).1 by {
        assert(u[i] == s[i] && u[j] == s[j]);
    }
}

proof fn lemma_insert_token_sorted(s: Seq<(Seq<char>, u16)>, x: (Seq<char>, u16))
    requires
        costs_sorted(s),
    ensures
        costs_sorted(insert_token(s, x)),
        forall|k: int|
            0 <= k < insert_token(s, x).len() ==> (#[trigger] insert_token(s, x)[k] == x || s.contains(
                insert_token(s, x)[k],
            )),
    decreases s.len(),
{
    if s.len() == 0 {
    } else if token_lt(x, s[0]) {
        let r = seq![x] + s;
        assert forall|i: int, j: int| 0 <= i < j < r.len() implies (#[trigger] r[i]).1 <= (
        #[trigger] r[j]).1 by {
            assert(r[j] == s[j - 1]);
            if i == 0 {
                if j > 1 {
                    assert(s[0].1 <= s[j - 1].1);
                }
            } else {
                assert(r[i] == s[i - 1]);
            }
        }
        assert forall|k: int| 0 <= k < r.len() implies (#[trigger] r[k] == x || s.contains(r[k])) by {
            if k > 0 {
                assert(r[k] == s[k - 1]);
            }
        }
    } else {
        let t = s.drop_first();
        lemma_costs_sorted_tail(s);
        lemma_insert_token_sorted(t, x);
        let it = insert_token(t, x);
        let r = seq![s[0]] + it;
        assert forall|k: int| 0 <= k < it.len() implies s[0].1 <= (#[trigger] it[k]).1 by {
            if it[k] != x {
                let m = choose|m: int| 0 <= m < t.len() && t[m] == it[k];
                assert(s[m + 1] == t[m]);
                assert(s[0].1 <= s[m + 1].1);
            }
        }
        assert forall|i: int, j: int| 0 <= i < j < r.len() implies (#[trigger] r[i]).1 <= (
        #[trigger] r[j]).1 by {
            assert(r[j] == it[j - 1]);
            if i > 0 {
                assert(r[i] == it[i - 1]);
            }
        }
        assert forall|k: int| 0 <= k < r.len() implies (#[trigger] r[k] == x || s.contains(r[k])) by {
            if k == 0 {
                assert(s[0] == r[0]);
            } else {
                assert(r[k] == it[k - 1]);
                if it[k - 1] != x {
                    let m = choose|m: int| 0 <= m < t.len() && t[m] == it[k - 1];
                    assert(s[m + 1] == t[m]);
                }
            }
        }
    }
}

proof fn lemma_sort_tokens_sorted(s: Seq<(Seq<char>, u16)>)
    ensures
        costs_sorted(sort_tokens(s)),
    decreases s.len(),
{
    if s.len() > 0 {
        lemma_sort_tokens_sorted(s.drop_last());
        lemma_insert_token_sorted(sort_tokens(s.drop_last()), s.last());
    }
}

proof fn lemma_dedup_sorted(s: Seq<(Seq<char>, u16)>)
    requires
        costs_sorted(s),
    ensures
        costs_sorted(dedup_surfaces(s)),
        forall|k: int| 0 <= k < dedup_surfaces(s).len() ==> s.contains(#[trigger] dedup_surfaces(s)[k]),
    decreases s.len(),
{
    if s.len() > 0 {
        let init = s.drop_last();
        lemma_costs_sorted_tail(s);
        lemma_dedup_sorted(init);
        let d = dedup_surfaces(init);
        assert forall|k: int| 0 <= k < d.len() implies s.contains(#[trigger] d[k]) && d[k].1 <= s.last().1 by {
            let m = choose|m: int| 0 <= m < init.len() && init[m] == d[k];
            assert(s[m] == init[m]);
            assert(s[m].1 <= s[s.len() - 1].1);
        }
        if !(d.len() > 0 && d.last().0 == s.last().0) {
            let r = d.push(s.last());
            assert forall|i: int, j: int| 0 <= i < j < r.len() implies (#[trigger] r[i]).1 <= (
            #[trigger] r[j]).1 by {
                assert(r[i] == d[i]);
                if j < d.len() {
                    assert(r[j] == d[j]);
                }
            }
            assert forall|k: int| 0 <= k < r.len() implies s.contains(#[trigger] r[k]) by {
                if k < d.len() {
                    assert(r[k] == d[k]);
                } else {
                    assert(r[k] == s[s.len() - 1]);
                }
            }
        }
    }
}

proof fn lemma_process_tokens(s: Seq<(Seq<char>, u16)>, max: nat)
    ensures
        costs_sorted(process_tokens(s, max)),
        process_tokens(s, max).len() <= max,
{
    lemma_sort_tokens_sorted(s);
    lemma_dedup_sorted(sort_tokens(s));
    let d = dedup_surfaces(sort_tokens(s));
    if d.len() > max {
        let t = d.take(max as int);
        assert forall|i: int, j: int| 0 <= i < j < t.len() implies (#[trigger] t[i]).1 <= (
        #[trigger] t[j]).1 by {
            assert(t[i] == d[i] && t[j] == d[j]);
        }
    }
}

/// Each reading's candidates in the dictionary come cheapest first, and
/// there are at most `max` of them.
pub proof fn lemma_build_groups_tokens(es: Seq<(Seq<char>, Seq<char>, u16)>, max: nat)
    ensures
        forall|j: int|
            0 <= j < spec_build_groups(es, max).len() ==> costs_sorted(
                (#[trigger] spec_build_groups(es, max)[j]).1,
            ) && spec_build_groups(es, max)[j].1.len() <= max,
{
    lemma_group_entries_distinct(es);
    let g = group_entries(es);
    let p = g.map_values(
        |x: (Seq<char>, Seq<(Seq<char>, u16)>)| (x.0, process_tokens(x.1, max)),
    );
    assert(readings_distinct(p)) by {
        assert forall|i: int, j: int| 0 <= i < j < p.len() implies (#[trigger] p[i]).0 != (
        #[trigger] p[j]).0 by {
            assert(p[i].0 == g[i].0 && p[j].0 == g[j].0);
        }
    }
    lemma_sort_groups(p);
    let out = spec_build_groups(es, max);
    assert forall|j: int| 0 <= j < out.len() implies costs_sorted((#[trigger] out[j]).1)
        && out[j].1.len() <= max by {
        let m = choose|m: int| 0 <= m < p.len() && p[m] == out[j];
        assert(p[m].1 == process_tokens(g[m].1, max));
        lemma_process_tokens(g[m].1, max);
    }
}

// ─── the binary dictionary ──────────────────────────────────────────────────

/// The bytes of `x`, least significant first.
pub open spec fn le16(x: u16) -> Seq<u8> {
    seq![(x % 256) as u8, (x / 256) as u8]
}

pub open spec fn le32(x: u32) -> Seq<u8> {
    seq![(x % 256) as u8, ((x / 256) % 256) as u8, ((x / 65536) % 256) as u8, (x / 16777216) as u8]
}

fn push_le16(out: &mut Vec<u8>, x: u16)
    ensures
        final(out)@ == old(out)@ + le16(x),
{
    out.push((x % 256) as u8);
    out.push((x / 256) as u8);
    assert(final(out)@ =~= old(out)@ + le16(x));
}

fn push_le32(out: &mut Vec<u8>, x: u32)
    ensures
        final(out)@ == old(out)@ + le32(x),
{
    out.push((x % 256) as u8);
    out.push(((x / 256) % 256) as u8);
    out.push(((x / 65536) % 256) as u8);
    out.push((x / 16777216) as u8);
    assert(final(out)@ =~= old(out)@ + le32(x));
}

fn push_bytes(out: &mut Vec<u8>, b: &[u8])
    ensures
        final(out)@ == old(out)@ + b@,
{
    let mut i: usize = 0;
    while i < b.len()
        invariant
            i <= b.len(),
            out@ == old(out)@ + b@.take(i as int),
        decreases b.len() - i,
    {
        out.push(b[i]);
        assert(b@.take(i + 1) == b@.take(i as int).push(b@[i as int]));
        assert(out@ =~= old(out)@ + b@.take(i + 1));
        i = i + 1;
    }
    assert(b@.take(b.len() as int) == b@);
}

/// The parts of the dictionary file that the groups fill in, in the order the
/// groups are written: the index, the reading heap, the entry records, the
/// surface heap, the next entry index, and the number of entries.
pub struct Layout {
    pub index: Seq<u8>,
    pub reading_heap: Seq<u8>,
    pub entries: Seq<u8>,
    pub surface_heap: Seq<u8>,
    pub cursor: int,
    pub n_entries: nat,
}

/// The entry records and surface heap after a group's tokens.
pub open spec fn tokens_layout(entries: Seq<u8>, surface_heap: Seq<u8>, toks: Seq<(Seq<char>, u16)>) -> (
    Seq<u8>,
    Seq<u8>,
)
    decreases toks.len(),
{
    if toks.len() == 0 {
        (entries, surface_heap)
    } else {
        let (e, h) = tokens_layout(entries, surface_heap, toks.drop_last());
        let t = toks.last();
        let bytes = vstd::utf8::encode_utf8(t.0);
        (e + le32(h.len() as u32) + le16(bytes.len() as u16) + le16(t.1), h + bytes)
    }
}

/// The layout after the given groups: each group adds an index record
/// (reading offset, reading length, first entry, number of entries), its
/// reading to the reading heap, and its tokens (see `tokens_layout`).
pub open spec fn groups_layout(gs: Seq<(Seq<char>, Seq<(Seq<char>, u16)>)>) -> Layout
    decreases gs.len(),
{
    if gs.len() == 0 {
        Layout {
            index: seq![],
            reading_heap: seq![],
            entries: seq![],
            surface_heap: seq![],
            cursor: 0,
            n_entries: 0,
        }
    } else {
        let l = groups_layout(gs.drop_last());
        let g = gs.last();
        let rb = vstd::utf8::encode_utf8(g.0);
        let n_tokens = g.1.len() as u16;
        let (e, h) = tokens_layout(l.entries, l.surface_heap, g.1);
        Layout {
            index: l.index + le32(l.reading_heap.len() as u32) + le16(rb.len() as u16) + le32(
                l.cursor as u32,
            ) + le16(n_tokens),
            reading_heap: l.reading_heap + rb,
            entries: e,
            surface_heap: h,
            cursor: l.cursor + n_tokens,
            n_entries: l.n_entries + g.1.len(),
        }
    }
}

/// The magic number `RKND`.
pub open spec fn magic() -> Seq<u8> {
    seq![0x52u8, 0x4Bu8, 0x4Eu8, 0x44u8]
}

/// The dictionary file: a 16-byte header (magic, version 1, number of
/// entries, number of readings), the index, the reading heap, the entry
/// records and the surface heap.
pub open spec fn spec_encode_dict(gs: Seq<(Seq<char>, Seq<(Seq<char>, u16)>)>) -> Seq<u8> {
    let l = groups_layout(gs);
    magic() + le32(1) + le32(l.n_entries as u32) + le32(gs.len() as u32) + l.index + l.reading_heap
        + l.entries + l.surface_heap
}

proof fn lemma_tokens_layout_len(entries: Seq<u8>, surface_heap: Seq<u8>, toks: Seq<(Seq<char>, u16)>)
    ensures
        tokens_layout(entries, surface_heap, toks).0.len() == entries.len() + 8 * toks.len(),
    decreases toks.len(),
{
    if toks.len() > 0 {
        lemma_tokens_layout_len(entries, surface_heap, toks.drop_last());
    }
}

proof fn lemma_layout_len(gs: Seq<(Seq<char>, Seq<(Seq<char>, u16)>)>)
    ensures
        groups_layout(gs).entries.len() == 8 * groups_layout(gs).n_entries,
        groups_layout(gs).index.len() == 12 * gs.len(),
    decreases gs.len(),
{
    if gs.len() > 0 {
        let l = groups_layout(gs.drop_last());
        lemma_layout_len(gs.drop_last());
        lemma_tokens_layout_len(l.entries, l.surface_heap, gs.last().1);
    }
}

/// The sum of the groups' token counts, each as the index records it.
pub open spec fn cursor_total(gs: Seq<(Seq<char>, Seq<(Seq<char>, u16)>)>) -> int
    decreases gs.len(),
{
    if gs.len() == 0 {
        0
    } else {
        cursor_total(gs.drop_last()) + (gs.last().1.len() as u16)
    }
}

proof fn lemma_cursor(gs: Seq<(Seq<char>, Seq<(Seq<char>, u16)>)>)
    ensures
        groups_layout(gs).cursor == cursor_total(gs),
        forall|i: int| 0 <= i <= gs.len() ==> cursor_total(#[trigger] gs.take(i)) <= cursor_total(gs),
    decreases gs.len(),
{
    if gs.len() > 0 {
        lemma_cursor(gs.drop_last());
        assert forall|i: int| 0 <= i <= gs.len() implies cursor_total(#[trigger] gs.take(i))
            <= cursor_total(gs) by {
            if i < gs.len() {
                assert(gs.take(i) == gs.drop_last().take(i));
            } else {
                assert(gs.take(i) == gs);
            }
        }
    }
}

/// Writes the dictionary file's bytes (see `spec_encode_dict`); the entry
/// count that the index records must fit in 32 bits.
#[verifier::spinoff_prover]
pub fn encode_dict(groups: &[ReadingGroup]) -> (r: Vec<u8>)
    requires
        cursor_total(groups_view(groups@)) <= u32::MAX,
    ensures
        r@ == spec_encode_dict(groups_view(groups@)),
{
    let ghost gv = groups_view(groups@);
    let mut index: Vec<u8> = Vec::new();
    let mut reading_heap: Vec<u8> = Vec::new();
    let mut entries: Vec<u8> = Vec::new();
    let mut surface_heap: Vec<u8> = Vec::new();
    let mut cursor: u32 = 0;
    proof {
        lemma_cursor(gv);
    }
    let mut i: usize = 0;
    while i < groups.len()
        invariant
            i <= groups.len(),
            gv == groups_view(groups@),
            cursor_total(gv) <= u32::MAX,
            forall|k: int| 0 <= k <= gv.len() ==> cursor_total(#[trigger] gv.take(k)) <= cursor_total(gv),
            ({
                let l = groups_layout(gv.take(i as int));
                &&& index@ == l.index
                &&& reading_heap@ == l.reading_heap
                &&& entries@ == l.entries
                &&& surface_heap@ == l.surface_heap
                &&& cursor as int == l.cursor
            }),
        decreases groups.len() - i,
    {
        let ghost prefix = gv.take(i as int);
        assert(gv.take(i + 1).drop_last() == prefix);
        assert(gv.take(i + 1).last() == gv[i as int]);
        proof {
            lemma_cursor(prefix);
            lemma_cursor(gv.take(i + 1));
        }
        let g = &groups[i];
        let rb = g.reading.as_str().as_bytes();
        let reading_off = reading_heap.len() as u32;
        push_bytes(&mut reading_heap, rb);
        let n_tokens = g.tokens.len() as u16;
        let ghost tv = tokens_view(g.tokens@);
        let mut k: usize = 0;
        while k < g.tokens.len()
            invariant
                k <= g.tokens.len(),
                tv == tokens_view(g.tokens@),
                (entries@, surface_heap@) == tokens_layout(
                    groups_layout(prefix).entries,
                    groups_layout(prefix).surface_heap,
                    tv.take(k as int),
                ),
            decreases g.tokens.len() - k,
        {
            assert(tv.take(k + 1).drop_last() == tv.take(k as int));
            assert(tv.take(k + 1).last() == tv[k as int]);
            let sb = g.tokens[k].0.as_str().as_bytes();
            let surface_off = surface_heap.len() as u32;
            push_bytes(&mut surface_heap, sb);
            push_le32(&mut entries, surface_off);
            push_le16(&mut entries, sb.len() as u16);
            push_le16(&mut entries, g.tokens[k].1);
            k = k + 1;
        }
        assert(tv.take(g.tokens.len() as int) == tv);
        push_le32(&mut index, reading_off);
        push_le16(&mut index, rb.len() as u16);
        push_le32(&mut index, cursor);
        push_le16(&mut index, n_tokens);
        assert(cursor_total(gv.take(i + 1)) == cursor_total(prefix) + n_tokens);
        cursor = cursor + n_tokens as u32;
        i = i + 1;
    }
    assert(gv.take(groups.len() as int) == gv);
    proof {
        lemma_layout_len(gv);
    }
    let n_entries = entries.len() / 8;
    let mut out: Vec<u8> = Vec::new();
    out.push(0x52);
    out.push(0x4B);
    out.push(0x4E);
    out.push(0x44);
    assert(out@ =~= magic());
    push_le32(&mut out, 1);
    push_le32(&mut out, n_entries as u32);
    push_le32(&mut out, groups.len() as u32);
    push_bytes(&mut out, index.as_slice());
    push_bytes(&mut out, reading_heap.as_slice());
    push_bytes(&mut out, entries.as_slice());
    push_bytes(&mut out, surface_heap.as_slice());
    out
}

// ─── checking a dictionary file ─────────────────────────────────────────────

/// The little-endian `u32` at `at`.
pub open spec fn read_le32(b: Seq<u8>, at: int) -> u32 {
    (b[at] as int + 256 * (b[at + 1] as int) + 65536 * (b[at + 2] as int) + 16777216 * (
    b[at + 3] as int)) as u32
}

/// The little-endian `u16` at `at`.
pub open spec fn read_le16(b: Seq<u8>, at: int) -> u16 {
    (b[at] as int + 256 * (b[at + 1] as int)) as u16
}

/// The furthest end (offset plus length) of the first `n` readings that the
/// index names.
pub open spec fn max_reading_end(b: Seq<u8>, n: nat) -> int
    decreases n,
{
    if n == 0 {
        0
    } else {
        let prev = max_reading_end(b, (n - 1) as nat);
        let at = 16 + 12 * (n - 1);
        let end = read_le32(b, at) as int + read_le16(b, at + 4) as int;
        if end > prev {
            end
        } else {
            prev
        }
    }
}

/// The outcome of loading the dictionaries: the store, or the step that
/// failed and why.
pub enum LoadResult<S> {
    Loaded(S),
    Failed { step: &'static str, reason: String },
}

/// Why a dictionary file is refused.
#[derive(Debug, Clone, Copy, PartialEq, Eq, Structural)]
pub enum DictCheckError {
    /// Shorter than the 16-byte header.
    TooSmall,
    /// The first four bytes are not `RKND`.
    BadMagic,
    /// A version other than 1.
    BadVersion(u32),
    /// The index runs past the end of the file.
    IndexOutOfBounds,
    /// The heaps and entry records run past the end of the file.
    TruncatedHeaps,
}

/// Where the parts of a dictionary file lie.
#[derive(Debug, Clone, Copy, PartialEq, Eq, Structural)]
pub struct DictHeader {
    pub n_entries: u32,
    pub n_readings: u32,
    pub reading_heap_off: u64,
    pub entries_off: u64,
    pub surface_heap_off: u64,
}

/// The header of a dictionary file, or why it is refused: too small, wrong
/// magic, wrong version, an index past the end, or heaps past the end (the
/// reading heap ends at the furthest reading the index names).
pub open spec fn spec_check_dict(b: Seq<u8>) -> Result<DictHeader, DictCheckError> {
    if b.len() < 16 {
        Err(DictCheckError::TooSmall)
    } else if b.take(4) != magic() {
        Err(DictCheckError::BadMagic)
    } else if read_le32(b, 4) != 1 {
        Err(DictCheckError::BadVersion(read_le32(b, 4)))
    } else {
        let ne = read_le32(b, 8);
        let nr = read_le32(b, 12);
        let rh = 16 + 12 * (nr as int);
        if rh > b.len() {
            Err(DictCheckError::IndexOutOfBounds)
        } else {
            let eo = rh + max_reading_end(b, nr as nat);
            let so = eo + 8 * (ne as int);
            if so > b.len() {
                Err(DictCheckError::TruncatedHeaps)
            } else {
                Ok(
                    DictHeader {
                        n_entries: ne,
                        n_readings: nr,
                        reading_heap_off: rh as u64,
                        entries_off: eo as u64,
                        surface_heap_off: so as u64,
                    },
                )
            }
        }
    }
}

fn le32_at(b: &[u8], at: usize) -> (x: u32)
    requires
        at + 4 <= b@.len(),
    ensures
        x == read_le32(b@, at as int),
{
    let x = b[at] as u32 + 256 * (b[at + 1] as u32) + 65536 * (b[at + 2] as u32) + 16777216 * (
    b[at + 3] as u32);
    x
}

fn le16_at(b: &[u8], at: usize) -> (x: u16)
    requires
        at + 2 <= b@.len(),
    ensures
        x == read_le16(b@, at as int),
{
    b[at] as u16 + 256 * (b[at + 1] as u16)
}

proof fn lemma_max_reading_end_bound(b: Seq<u8>, n: nat)
    ensures
        0 <= max_reading_end(b, n) <= 0x1_0000_FFFE,
    decreases n,
{
    if n > 0 {
        lemma_max_reading_end_bound(b, (n - 1) as nat);
    }
}

/// Checks the header of a dictionary file and where its parts lie (see
/// `spec_check_dict`); reading the file is the caller's part.
pub fn check_dict(b: &[u8]) -> (r: Result<DictHeader, DictCheckError>)
    ensures
        r == spec_check_dict(b@),
{
    if b.len() < 16 {
        return Err(DictCheckError::TooSmall);
    }
    if !(b[0] == 0x52 && b[1] == 0x4B && b[2] == 0x4E && b[3] == 0x44) {
        assert(b@.take(4) != magic()) by {
            if b@.take(4) == magic() {
                assert(b@[0] == b@.take(4)[0] && b@[1] == b@.take(4)[1]);
                assert(b@[2] == b@.take(4)[2] && b@[3] == b@.take(4)[3]);
            }
        }
        return Err(DictCheckError::BadMagic);
    }
    assert(b@.take(4) =~= magic());
    let version = le32_at(b, 4);
    if version != 1 {
        return Err(DictCheckError::BadVersion(version));
    }
    let ne = le32_at(b, 8);
    let nr = le32_at(b, 12);
    let rh: u64 = 16 + 12 * (nr as u64);
    if rh > b.len() as u64 {
        return Err(DictCheckError::IndexOutOfBounds);
    }
    let mut max_end: u64 = 0;
    let mut i: u32 = 0;
    let blen: usize = b.len();
    while i < nr
        invariant
            i <= nr,
            blen as int == b@.len(),
            rh == 16 + 12 * (nr as int),
            rh <= b@.len(),
            max_end as int == max_reading_end(b@, i as nat),
        decreases nr - i,
    {
        assert(16 + 12 * (i as int) + 12 <= rh);
        let at: usize = 16 + 12 * (i as usize);
        let off = le32_at(b, at);
        let len = le16_at(b, at + 4);
        let end: u64 = off as u64 + len as u64;
        if end > max_end {
            max_end = end;
        }
        i = i + 1;
    }
    proof {
        lemma_max_reading_end_bound(b@, nr as nat);
    }
    let eo: u64 = rh + max_end;
    let so: u64 = eo + 8 * (ne as u64);
    if so > b.len() as u64 {
        return Err(DictCheckError::TruncatedHeaps);
    }
    Ok(
        DictHeader {
            n_entries: ne,
            n_readings: nr,
            reading_heap_off: rh,
            entries_off: eo,
            surface_heap_off: so,
        },
    )
}


// ─── round trip of the dictionary file ──────────────────────────────────────

#[verifier::spinoff_prover]
proof fn lemma_read_le32(b: Seq<u8>, at: int, x: u32)
    requires
        0 <= at,
        at + 4 <= b.len(),
        b.subrange(at, at + 4) == le32(x),
    ensures
        read_le32(b, at) == x,
{
    let b0 = b[at];
    let b1 = b[at + 1];
    let b2 = b[at + 2];
    let b3 = b[at + 3];
    assert(b0 == b.subrange(at, at + 4)[0] && b1 == b.subrange(at, at + 4)[1]);
    assert(b2 == b.subrange(at, at + 4)[2] && b3 == b.subrange(at, at + 4)[3]);
    assert(b0 as int + 256 * (b1 as int) + 65536 * (b2 as int) + 16777216 * (b3 as int) == x);
}

#[verifier::spinoff_prover]
proof fn lemma_read_le16(b: Seq<u8>, at: int, x: u16)
    requires
        0 <= at,
        at + 2 <= b.len(),
        b.subrange(at, at + 2) == le16(x),
    ensures
        read_le16(b, at) == x,
{
    let b0 = b[at];
    let b1 = b[at + 1];
    assert(b0 == b.subrange(at, at + 2)[0] && b1 == b.subrange(at, at + 2)[1]);
    assert(b0 as int + 256 * (b1 as int) == x);
}

/// The index and reading heap of a prefix of the groups are prefixes of
/// those of all the groups.
#[verifier::spinoff_prover]
proof fn lemma_layout_prefix(gs: Seq<(Seq<char>, Seq<(Seq<char>, u16)>)>, k: int)
    requires
        0 <= k <= gs.len(),
    ensures
        groups_layout(gs.take(k)).index == groups_layout(gs).index.take(12 * k),
        groups_layout(gs.take(k)).reading_heap.len() <= groups_layout(gs).reading_heap.len(),
    decreases gs.len(),
{
    lemma_layout_len(gs);
    lemma_layout_len(gs.take(k));
    if k == gs.len() {
        assert(gs.take(k) == gs);
        assert(groups_layout(gs).index.take(12 * k) == groups_layout(gs).index);
    } else {
        let d = gs.drop_last();
        assert(gs.take(k) == d.take(k));
        lemma_layout_prefix(d, k);
        lemma_layout_len(d);
        assert(groups_layout(gs).index.take(12 * k) == groups_layout(d).index.take(12 * k));
    }
}

/// The index record of group `i` names where its reading lies in the heap.
#[verifier::spinoff_prover]
proof fn lemma_index_record(gs: Seq<(Seq<char>, Seq<(Seq<char>, u16)>)>, i: int)
    requires
        0 <= i < gs.len(),
    ensures
        groups_layout(gs).index.subrange(12 * i, 12 * i + 4) == le32(
            groups_layout(gs.take(i)).reading_heap.len() as u32,
        ),
        groups_layout(gs).index.subrange(12 * i + 4, 12 * i + 6) == le16(
            vstd::utf8::encode_utf8(gs[i].0).len() as u16,
        ),
        groups_layout(gs.take(i + 1)).reading_heap.len() == groups_layout(gs.take(i)).reading_heap.len()
            + vstd::utf8::encode_utf8(gs[i].0).len(),
{
    let t = gs.take(i + 1);
    assert(t.drop_last() == gs.take(i));
    assert(t.last() == gs[i]);
    lemma_layout_prefix(gs, i + 1);
    lemma_layout_len(gs.take(i));
    lemma_layout_len(gs);
    let pre = groups_layout(gs.take(i)).index;
    let full = groups_layout(gs).index;
    assert(full.subrange(12 * i, 12 * i + 4) == groups_layout(t).index.subrange(12 * i, 12 * i + 4));
    assert(full.subrange(12 * i + 4, 12 * i + 6) == groups_layout(t).index.subrange(
        12 * i + 4,
        12 * i + 6,
    ));
    assert(groups_layout(t).index.subrange(12 * i, 12 * i + 4) =~= le32(
        groups_layout(gs.take(i)).reading_heap.len() as u32,
    ));
    assert(groups_layout(t).index.subrange(12 * i + 4, 12 * i + 6) =~= le16(
        vstd::utf8::encode_utf8(gs[i].0).len() as u16,
    ));
}

/// The header that checking an encoded dictionary gives: its entry and
/// reading counts, and the offsets of the reading heap, the entry records and
/// the surface heap.
pub open spec fn encoded_header(gs: Seq<(Seq<char>, Seq<(Seq<char>, u16)>)>) -> DictHeader {
    let l = groups_layout(gs);
    let rh = 16 + 12 * gs.len();
    DictHeader {
        n_entries: l.n_entries as u32,
        n_readings: gs.len() as u32,
        reading_heap_off: rh as u64,
        entries_off: (rh + l.reading_heap.len()) as u64,
        surface_heap_off: (rh + l.reading_heap.len() + 8 * l.n_entries) as u64,
    }
}

/// Round trip of the dictionary file: the bytes that `encode_dict` writes are
/// accepted by `check_dict`, which finds the entry and reading counts and the
/// parts where they were written, as long as the counts, the reading heap and
/// each reading fit the widths that the file records them in.
#[verifier::spinoff_prover]
pub proof fn lemma_encoded_dict_checks(gs: Seq<(Seq<char>, Seq<(Seq<char>, u16)>)>)
    requires
        gs.len() <= u32::MAX,
        groups_layout(gs).n_entries <= u32::MAX,
        groups_layout(gs).reading_heap.len() <= u32::MAX,
        forall|i: int|
            0 <= i < gs.len() ==> vstd::utf8::encode_utf8(#[trigger] gs[i].0).len() <= u16::MAX,
    ensures
        spec_check_dict(spec_encode_dict(gs)) == Ok::<DictHeader, DictCheckError>(
            encoded_header(gs),
        ),
{
    let l = groups_layout(gs);
    let n = gs.len();
    let b = spec_encode_dict(gs);
    lemma_encoded_head(gs);
    lemma_max_reading_end_prefix(gs, n as nat);
    assert(gs.take(n as int) == gs);
    assert(max_reading_end(b, n as nat) == l.reading_heap.len());
    assert(read_le32(b, 8) == l.n_entries);
    assert(read_le32(b, 12) == n);
}

/// The header fields of the encoded file, and its length.
#[verifier::spinoff_prover]
proof fn lemma_encoded_head(gs: Seq<(Seq<char>, Seq<(Seq<char>, u16)>)>)
    requires
        gs.len() <= u32::MAX,
        groups_layout(gs).n_entries <= u32::MAX,
    ensures
        ({
            let l = groups_layout(gs);
            let b = spec_encode_dict(gs);
            &&& b.len() == 16 + 12 * gs.len() + l.reading_heap.len() + 8 * l.n_entries
                + l.surface_heap.len()
            &&& b.take(4) == magic()
            &&& read_le32(b, 4) == 1
            &&& read_le32(b, 8) == l.n_entries
            &&& read_le32(b, 12) == gs.len()
        }),
{
    let l = groups_layout(gs);
    let n = gs.len();
    let b = spec_encode_dict(gs);
    let head = magic() + le32(1) + le32(l.n_entries as u32) + le32(n as u32);
    lemma_layout_len(gs);
    assert(b == head + l.index + l.reading_heap + l.entries + l.surface_heap);
    assert(b.take(4) =~= magic());
    assert(b.subrange(4, 8) =~= le32(1));
    assert(b.subrange(8, 12) =~= le32(l.n_entries as u32));
    assert(b.subrange(12, 16) =~= le32(n as u32));
    lemma_read_le32(b, 4, 1);
    lemma_read_le32(b, 8, l.n_entries as u32);
    lemma_read_le32(b, 12, n as u32);
}

/// The index record of group `i` as it lies in the encoded file.
#[verifier::spinoff_prover]
proof fn lemma_encoded_record(gs: Seq<(Seq<char>, Seq<(Seq<char>, u16)>)>, i: int)
    requires
        0 <= i < gs.len(),
    ensures
        ({
            let b = spec_encode_dict(gs);
            let at = 16 + 12 * i;
            &&& at + 6 <= b.len()
            &&& b.subrange(at, at + 4) == le32(groups_layout(gs.take(i)).reading_heap.len() as u32)
            &&& b.subrange(at + 4, at + 6) == le16(vstd::utf8::encode_utf8(gs[i].0).len() as u16)
        }),
{
    let l = groups_layout(gs);
    let b = spec_encode_dict(gs);
    let head = magic() + le32(1) + le32(l.n_entries as u32) + le32(gs.len() as u32);
    lemma_layout_len(gs);
    lemma_index_record(gs, i);
    assert(b == head + l.index + l.reading_heap + l.entries + l.surface_heap);
    let at = 16 + 12 * i;
    assert(b.subrange(at, at + 4) =~= l.index.subrange(12 * i, 12 * i + 4));
    assert(b.subrange(at + 4, at + 6) =~= l.index.subrange(12 * i + 4, 12 * i + 6));
}

/// Over the encoded file, the furthest reading end of the first `k` index
/// records is the length of their reading heap.
#[verifier::spinoff_prover]
proof fn lemma_max_reading_end_prefix(gs: Seq<(Seq<char>, Seq<(Seq<char>, u16)>)>, k: nat)
    requires
        k <= gs.len(),
        groups_layout(gs).reading_heap.len() <= u32::MAX,
        forall|i: int|
            0 <= i < gs.len() ==> vstd::utf8::encode_utf8(#[trigger] gs[i].0).len() <= u16::MAX,
    ensures
        max_reading_end(spec_encode_dict(gs), k) == groups_layout(gs.take(k as int)).reading_heap.len(),
    decreases k,
{
    let b = spec_encode_dict(gs);
    if k == 0 {
        assert(gs.take(0) =~= Seq::<(Seq<char>, Seq<(Seq<char>, u16)>)>::empty());
    } else {
        let i = k - 1;
        lemma_max_reading_end_prefix(gs, i as nat);
        lemma_index_record(gs, i);
        lemma_layout_prefix(gs, i);
        lemma_encoded_record(gs, i);
        let at = 16 + 12 * i;
        let off = groups_layout(gs.take(i)).reading_heap.len();
        let len = vstd::utf8::encode_utf8(gs[i].0).len();
        lemma_read_le32(b, at, off as u32);
        lemma_read_le16(b, at + 4, len as u16);
        assert(read_le32(b, at) == off);
        assert(read_le16(b, at + 4) == len);
    }
}

} // verus!
