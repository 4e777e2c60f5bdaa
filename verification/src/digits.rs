//! Literal protection: a reading is cut into runs of digits, Latin letters,
//! symbols and kana. Only kana runs go to the language model; digits, letters
//! and symbols keep their text and are offered in halfwidth and fullwidth
//! (digits also as kanji numerals).
use vstd::prelude::*;

use crate::numerals;
use crate::text::{
    find_char, first_index, sub_vec,
    chars_of, in_range, is_ascii_alnum, is_ascii_alpha, is_ascii_digit, is_ascii_graphic,
    is_ascii_lower, is_ascii_upper,
    is_fullwidth_ascii, is_fullwidth_digit, is_fullwidth_lower, is_fullwidth_upper, map_chars,
    shift, shift_char, spec_is_ascii_alnum, spec_is_ascii_alpha, spec_is_ascii_digit,
    spec_is_ascii_graphic, spec_is_ascii_lower, spec_is_ascii_upper, spec_is_fullwidth_ascii,
    spec_is_fullwidth_digit, spec_is_fullwidth_lower, spec_is_fullwidth_upper, str_eq, string_of,
};

verus! {

// ─── character kinds ────────────────────────────────────────────────────────

/// A run of one kind of character and its text.
#[derive(Debug, Clone, PartialEq, Eq)]
pub enum Run {
    Digit(String),
    Alpha(String),
    Symbol(String),
    Kana(String),
}

/// What kind of run a character belongs to.
#[derive(Debug, Clone, Copy, PartialEq, Eq, Structural)]
pub enum CharKind {
    Digit,
    Alpha,
    Symbol,
    Kana,
}

impl Run {
    pub open spec fn kind(self) -> CharKind {
        match self {
            Run::Digit(_) => CharKind::Digit,
            Run::Alpha(_) => CharKind::Alpha,
            Run::Symbol(_) => CharKind::Symbol,
            Run::Kana(_) => CharKind::Kana,
        }
    }

    pub open spec fn text_of(self) -> Seq<char> {
        match self {
            Run::Digit(s) => s@,
            Run::Alpha(s) => s@,
            Run::Symbol(s) => s@,
            Run::Kana(s) => s@,
        }
    }

    /// The run's text.
    pub fn text(&self) -> (t: &str)
        ensures
            t@ == self.text_of(),
    {
        match self {
            Run::Digit(s) => s.as_str(),
            Run::Alpha(s) => s.as_str(),
            Run::Symbol(s) => s.as_str(),
            Run::Kana(s) => s.as_str(),
        }
    }

    /// Digit, letter and symbol runs are literals; kana runs are not.
    pub fn is_literal(&self) -> (b: bool)
        ensures
            b == (self.kind() != CharKind::Kana),
    {
        match self {
            Run::Kana(_) => false,
            _ => true,
        }
    }

    pub fn is_digit(&self) -> (b: bool)
        ensures
            b == (self.kind() == CharKind::Digit),
    {
        match self {
            Run::Digit(_) => true,
            _ => false,
        }
    }
}

/// ASCII symbols, fullwidth symbols (the fullwidth ASCII block without its
/// digits and letters) and the kana-rule brackets and middle dot `「」・`.
pub open spec fn spec_is_convertible_symbol(c: char) -> bool {
    (spec_is_ascii_graphic(c) && !spec_is_ascii_alnum(c)) || (spec_is_fullwidth_ascii(c)
        && !spec_is_fullwidth_digit(c) && !spec_is_fullwidth_upper(c) && !spec_is_fullwidth_lower(
        c,
    )) || c == '「' || c == '」' || c == '・'
}

#[verifier::opaque]
pub open spec fn spec_classify_char(c: char) -> CharKind {
    if spec_is_ascii_digit(c) || spec_is_fullwidth_digit(c) {
        CharKind::Digit
    } else if spec_is_ascii_alpha(c) || spec_is_fullwidth_upper(c) || spec_is_fullwidth_lower(c) {
        CharKind::Alpha
    } else if spec_is_convertible_symbol(c) {
        CharKind::Symbol
    } else {
        CharKind::Kana
    }
}

fn is_convertible_symbol(c: char) -> (b: bool)
    ensures
        b == spec_is_convertible_symbol(c),
{
    (is_ascii_graphic(c) && !is_ascii_alnum(c)) || (is_fullwidth_ascii(c) && !is_fullwidth_digit(c)
        && !is_fullwidth_upper(c) && !is_fullwidth_lower(c)) || c == '「' || c == '」' || c == '・'
}

pub fn classify_char(c: char) -> (k: CharKind)
    ensures
        k == spec_classify_char(c),
{
    reveal(spec_classify_char);
    if is_ascii_digit(c) || is_fullwidth_digit(c) {
        CharKind::Digit
    } else if is_ascii_alpha(c) || is_fullwidth_upper(c) || is_fullwidth_lower(c) {
        CharKind::Alpha
    } else if is_convertible_symbol(c) {
        CharKind::Symbol
    } else {
        CharKind::Kana
    }
}

// ─── splitting into runs ────────────────────────────────────────────────────

/// The texts of `runs`, concatenated.
pub open spec fn runs_text(runs: Seq<Run>) -> Seq<char>
    decreases runs.len(),
{
    if runs.len() == 0 {
        seq![]
    } else {
        runs_text(runs.drop_last()) + runs.last().text_of()
    }
}

/// The kind and text of each run.
pub open spec fn run_pairs(runs: Seq<Run>) -> Seq<(CharKind, Seq<char>)> {
    runs.map_values(|r: Run| (r.kind(), r.text_of()))
}

/// The maximal runs of one kind of character in `s`, left to right: each
/// character joins the last run when it is of the same kind, else starts a
/// new one.
pub open spec fn spec_split_runs(s: Seq<char>) -> Seq<(CharKind, Seq<char>)>
    decreases s.len(),
{
    if s.len() == 0 {
        seq![]
    } else {
        let prev = spec_split_runs(s.drop_last());
        let k = spec_classify_char(s.last());
        if prev.len() > 0 && prev.last().0 == k {
            prev.update(prev.len() - 1, (k, prev.last().1.push(s.last())))
        } else {
            prev.push((k, seq![s.last()]))
        }
    }
}

/// Every run is non-empty and holds only characters of its kind, and no two
/// neighbouring runs have the same kind: the runs are the maximal stretches of
/// one kind.
pub open spec fn runs_are_maximal(runs: Seq<Run>) -> bool {
    &&& forall|i: int| 0 <= i < runs.len() ==> run_is_uniform(#[trigger] runs[i])
    &&& forall|i: int| 0 < i < runs.len() ==> (#[trigger] runs[i]).kind() != runs[i - 1].kind()
}

/// All characters of `s` are of kind `k`.
pub open spec fn all_of_kind(s: Seq<char>, k: CharKind) -> bool {
    forall|j: int| 0 <= j < s.len() ==> spec_classify_char(#[trigger] s[j]) == k
}

/// A non-empty run of characters of its own kind.
pub open spec fn run_is_uniform(r: Run) -> bool {
    r.text_of().len() > 0 && all_of_kind(r.text_of(), r.kind())
}

pub fn make_run(kind: CharKind, text: String) -> (r: Run)
    ensures
        r.kind() == kind,
        r.text_of() == text@,
{
    match kind {
        CharKind::Digit => Run::Digit(text),
        CharKind::Alpha => Run::Alpha(text),
        CharKind::Symbol => Run::Symbol(text),
        CharKind::Kana => Run::Kana(text),
    }
}

proof fn lemma_run_pairs_push(runs: Seq<Run>, r: Run)
    ensures
        run_pairs(runs.push(r)) == run_pairs(runs).push((r.kind(), r.text_of())),
{
    assert(run_pairs(runs.push(r)) =~= run_pairs(runs).push((r.kind(), r.text_of())));
}

#[verifier::rlimit(50)]
#[verifier::spinoff_prover]
fn push_run(runs: &mut Vec<Run>, kind: CharKind, current: &Vec<char>)
    requires
        runs_are_maximal(old(runs)@),
        current@.len() > 0,
        all_of_kind(current@, kind),
        old(runs)@.len() > 0 ==> old(runs)@.last().kind() != kind,
    ensures
        runs_are_maximal(final(runs)@),
        runs_text(final(runs)@) == runs_text(old(runs)@) + current@,
        run_pairs(final(runs)@) == run_pairs(old(runs)@).push((kind, current@)),
        final(runs)@.len() == old(runs)@.len() + 1,
        final(runs)@.last().kind() == kind,
{
    let text = string_of(current);
    let run = make_run(kind, text);
    let ghost old_runs = runs@;
    runs.push(run);
    assert(runs@.drop_last() == old_runs);
    proof {
        lemma_run_pairs_push(old_runs, run);
    }
    assert forall|k: int| 0 <= k < runs@.len() implies run_is_uniform(#[trigger] runs@[k]) by {
        if k < old_runs.len() {
            assert(runs@[k] == old_runs[k]);
        }
    }
    assert forall|k: int| 0 < k < runs@.len() implies (#[trigger] runs@[k]).kind() != runs@[k
        - 1].kind() by {
        if k < old_runs.len() {
            assert(runs@[k] == old_runs[k]);
            assert(runs@[k - 1] == old_runs[k - 1]);
        }
    }
}

/// Cuts a reading into maximal runs of digits, letters, symbols and kana
/// (`2024ねん` gives `Digit("2024")`, `Kana("ねん")`).
#[verifier::rlimit(80)]
#[verifier::spinoff_prover]
pub fn split_by_digits(reading: &str) -> (runs: Vec<Run>)
    ensures
        run_pairs(runs@) == spec_split_runs(reading@),
        runs_text(runs@) == reading@,
        runs_are_maximal(runs@),
{
    let chars = chars_of(reading);
    let mut runs: Vec<Run> = Vec::new();
    let mut current: Vec<char> = Vec::new();
    let mut current_kind = CharKind::Kana;
    let mut i: usize = 0;
    while i < chars.len()
        invariant
            i <= chars.len(),
            chars@ == reading@,
            runs_text(runs@) + current@ == chars@.take(i as int),
            spec_split_runs(chars@.take(i as int)) == (if current@.len() == 0 {
                run_pairs(runs@)
            } else {
                run_pairs(runs@).push((current_kind, current@))
            }),
            i > 0 ==> current@.len() > 0,
            runs_are_maximal(runs@),
            runs@.len() > 0 ==> current@.len() > 0,
            all_of_kind(current@, current_kind),
            runs@.len() > 0 ==> runs@.last().kind() != current_kind,
        decreases chars.len() - i,
    {
        let c = chars[i];
        let kind = classify_char(c);
        assert(chars@.take(i + 1) == chars@.take(i as int).push(c));
        assert(chars@.take(i + 1).drop_last() == chars@.take(i as int));
        let ghost old_pairs = run_pairs(runs@);
        if current.len() == 0 {
            current_kind = kind;
            current.push(c);
        } else if kind == current_kind {
            let ghost prev = spec_split_runs(chars@.take(i as int));
            current.push(c);
            assert(prev.update(prev.len() - 1, (kind, prev.last().1.push(c))) =~= run_pairs(
                runs@,
            ).push((current_kind, current@)));
        } else {
            let ghost ck = current_kind;
            let ghost cur = current@;
            push_run(&mut runs, current_kind, &current);
            current = Vec::new();
            current_kind = kind;
            current.push(c);
            assert(current@ =~= seq![c]);
            assert(run_pairs(runs@).push((current_kind, current@)) == old_pairs.push((ck, cur)).push(
                (kind, seq![c]),
            ));
        }
        assert(runs_text(runs@) + current@ == chars@.take(i + 1));
        i = i + 1;
    }
    if current.len() > 0 {
        push_run(&mut runs, current_kind, &current);
    }
    assert(chars@.take(chars@.len() as int) == chars@);
    assert(run_pairs(runs@) == spec_split_runs(reading@));
    runs
}


// ─── halfwidth / fullwidth digits ───────────────────────────────────────────

pub open spec fn spec_halfwidth_digit(c: char) -> char {
    if spec_is_fullwidth_digit(c) {
        shift(c, -0xFEE0)
    } else {
        c
    }
}

pub open spec fn spec_fullwidth_digit(c: char) -> char {
    if spec_is_ascii_digit(c) {
        shift(c, 0xFEE0)
    } else {
        c
    }
}

fn halfwidth_digit(c: char) -> (r: char)
    ensures
        r == spec_halfwidth_digit(c),
{
    if is_fullwidth_digit(c) {
        shift_char(c, -0xFEE0)
    } else {
        c
    }
}

fn fullwidth_digit(c: char) -> (r: char)
    ensures
        r == spec_fullwidth_digit(c),
{
    if is_ascii_digit(c) {
        shift_char(c, 0xFEE0)
    } else {
        c
    }
}

/// Fullwidth digits to ASCII digits; everything else unchanged.
pub fn to_halfwidth_digits(s: &str) -> (r: String)
    ensures
        r@ == s@.map_values(|c: char| spec_halfwidth_digit(c)),
{
    let v = chars_of(s);
    let m = map_chars(&v, halfwidth_digit);
    assert(m@ =~= s@.map_values(|c: char| spec_halfwidth_digit(c)));
    string_of(&m)
}

/// ASCII digits to fullwidth digits; everything else unchanged.
pub fn to_fullwidth_digits(s: &str) -> (r: String)
    ensures
        r@ == s@.map_values(|c: char| spec_fullwidth_digit(c)),
{
    let v = chars_of(s);
    let m = map_chars(&v, fullwidth_digit);
    assert(m@ =~= s@.map_values(|c: char| spec_fullwidth_digit(c)));
    string_of(&m)
}

// ─── numeric literals ───────────────────────────────────────────────────────

/// A digit (either width) as an ASCII digit, `,`/`，` as `,` and `.`/`．` as
/// `.`; `None` for anything else.
pub open spec fn spec_normalize_numeric_char(c: char) -> Option<char> {
    if spec_is_ascii_digit(c) {
        Some(c)
    } else if spec_is_fullwidth_digit(c) {
        Some(shift(c, -0xFEE0))
    } else if c == ',' || c == '，' {
        Some(',')
    } else if c == '.' || c == '．' {
        Some('.')
    } else {
        None
    }
}

/// A numeric literal (digits of either width with `,` and `.` separators, at
/// least one digit) in ASCII form.
pub open spec fn spec_normalize_numeric_literal(s: Seq<char>) -> Option<Seq<char>> {
    if (forall|i: int| 0 <= i < s.len() ==> (#[trigger] spec_normalize_numeric_char(s[i])) is Some)
        && (exists|i: int|
        0 <= i < s.len() && (spec_is_ascii_digit(s[i]) || spec_is_fullwidth_digit(s[i]))) {
        Some(s.map_values(|c: char| spec_normalize_numeric_char(c)->0))
    } else {
        None
    }
}

pub fn normalize_numeric_char(c: char) -> (r: Option<char>)
    ensures
        r == spec_normalize_numeric_char(c),
{
    if is_ascii_digit(c) {
        Some(c)
    } else if is_fullwidth_digit(c) {
        Some(shift_char(c, -0xFEE0))
    } else if c == ',' || c == '，' {
        Some(',')
    } else if c == '.' || c == '．' {
        Some('.')
    } else {
        None
    }
}

fn normalize_numeric_chars(v: &Vec<char>) -> (r: Option<Vec<char>>)
    ensures
        r matches Some(x) ==> spec_normalize_numeric_literal(v@) == Some(x@),
        r is None ==> spec_normalize_numeric_literal(v@) is None,
{
    let mut out: Vec<char> = Vec::new();
    let mut has_digit = false;
    let mut i: usize = 0;
    while i < v.len()
        invariant
            i <= v.len(),
            out@ =~= v@.take(i as int).map_values(|c: char| spec_normalize_numeric_char(c)->0),
            forall|j: int| 0 <= j < i ==> (#[trigger] spec_normalize_numeric_char(v@[j])) is Some,
            has_digit <==> exists|j: int|
                0 <= j < i && (spec_is_ascii_digit(v@[j]) || spec_is_fullwidth_digit(v@[j])),
        decreases v.len() - i,
    {
        match normalize_numeric_char(v[i]) {
            Some(c) => {
                out.push(c);
                if is_ascii_digit(v[i]) || is_fullwidth_digit(v[i]) {
                    has_digit = true;
                }
            },
            None => {
                return None;
            },
        }
        i = i + 1;
    }
    assert(v@.take(v@.len() as int) == v@);
    if has_digit {
        Some(out)
    } else {
        None
    }
}

/// `s` read as a numeric literal in ASCII form (`２，４００．５` gives
/// `2,400.5`); `None` unless every character is a digit or separator and some
/// character is a digit.
pub fn normalize_numeric_literal(s: &str) -> (r: Option<String>)
    ensures
        r matches Some(x) ==> spec_normalize_numeric_literal(s@) == Some(x@),
        r is None ==> spec_normalize_numeric_literal(s@) is None,
{
    let v = chars_of(s);
    match normalize_numeric_chars(&v) {
        Some(x) => Some(string_of(&x)),
        None => None,
    }
}

// ─── kanji numeral characters ───────────────────────────────────────────────

/// The numeric value of a digit character of either width.
pub open spec fn any_digit_value(c: char) -> nat {
    if spec_is_ascii_digit(c) {
        ((c as u32) - 0x30) as nat
    } else {
        ((c as u32) - 0xFF10) as nat
    }
}

/// A digit (either width) written as a one-character kanji (`〇` for zero).
pub open spec fn spec_digit_to_per_digit_kanji(c: char) -> Option<char> {
    if spec_is_ascii_digit(c) || spec_is_fullwidth_digit(c) {
        if any_digit_value(c) == 0 {
            Some('〇')
        } else {
            Some(numerals::kanji_digit(any_digit_value(c)))
        }
    } else {
        None
    }
}

pub fn digit_to_per_digit_kanji(c: char) -> (r: Option<char>)
    ensures
        r == spec_digit_to_per_digit_kanji(c),
{
    let d: u64 = if is_ascii_digit(c) {
        ((c as u32) - 0x30) as u64
    } else if is_fullwidth_digit(c) {
        ((c as u32) - 0xFF10) as u64
    } else {
        return None;
    };
    if d == 0 {
        Some('〇')
    } else {
        Some(numerals::kanji_digit_char(d))
    }
}

/// The ASCII digit that a kanji numeral stands for (`〇`/`零`, `一`/`壱`,
/// `二`/`弐`, `三`/`参`, `四`..`九`).
pub open spec fn spec_kanji_to_digit(c: char) -> Option<char> {
    if c == '〇' || c == '零' {
        Some('0')
    } else if c == '一' || c == '壱' {
        Some('1')
    } else if c == '二' || c == '弐' {
        Some('2')
    } else if c == '三' || c == '参' {
        Some('3')
    } else if c == '四' {
        Some('4')
    } else if c == '五' {
        Some('5')
    } else if c == '六' {
        Some('6')
    } else if c == '七' {
        Some('7')
    } else if c == '八' {
        Some('8')
    } else if c == '九' {
        Some('9')
    } else {
        None
    }
}

pub fn kanji_to_digit(c: char) -> (r: Option<char>)
    ensures
        r == spec_kanji_to_digit(c),
{
    if c == '〇' || c == '零' {
        Some('0')
    } else if c == '一' || c == '壱' {
        Some('1')
    } else if c == '二' || c == '弐' {
        Some('2')
    } else if c == '三' || c == '参' {
        Some('3')
    } else if c == '四' {
        Some('4')
    } else if c == '五' {
        Some('5')
    } else if c == '六' {
        Some('6')
    } else if c == '七' {
        Some('7')
    } else if c == '八' {
        Some('8')
    } else if c == '九' {
        Some('9')
    } else {
        None
    }
}

pub open spec fn spec_kanji_digit_value(c: char) -> Option<u64> {
    match spec_kanji_to_digit(c) {
        Some(d) => Some(((d as u32) - 0x30) as u64),
        None => None,
    }
}

pub fn kanji_digit_value(c: char) -> (r: Option<u64>)
    ensures
        r == spec_kanji_digit_value(c),
        r matches Some(d) ==> d < 10,
{
    match kanji_to_digit(c) {
        Some(d) => Some(((d as u32) - 0x30) as u64),
        None => None,
    }
}

/// `十`/`拾` 10, `百` 100, `千` 1000.
pub open spec fn spec_small_kanji_unit(c: char) -> Option<u64> {
    if c == '十' || c == '拾' {
        Some(10)
    } else if c == '百' {
        Some(100)
    } else if c == '千' {
        Some(1000)
    } else {
        None
    }
}

/// `万` 10^4, `億` 10^8, `兆` 10^12, `京` 10^16.
pub open spec fn spec_large_kanji_unit(c: char) -> Option<u64> {
    if c == '万' {
        Some(10000)
    } else if c == '億' {
        Some(100000000)
    } else if c == '兆' {
        Some(1000000000000)
    } else if c == '京' {
        Some(10000000000000000)
    } else {
        None
    }
}

pub fn small_kanji_unit(c: char) -> (r: Option<u64>)
    ensures
        r == spec_small_kanji_unit(c),
{
    if c == '十' || c == '拾' {
        Some(10)
    } else if c == '百' {
        Some(100)
    } else if c == '千' {
        Some(1000)
    } else {
        None
    }
}

pub fn large_kanji_unit(c: char) -> (r: Option<u64>)
    ensures
        r == spec_large_kanji_unit(c),
{
    if c == '万' {
        Some(10000)
    } else if c == '億' {
        Some(100000000)
    } else if c == '兆' {
        Some(1000000000000)
    } else if c == '京' {
        Some(10000000000000000)
    } else {
        None
    }
}

/// Kanji digits, units and the decimal point `点`.
pub open spec fn spec_is_kanji_number_char(c: char) -> bool {
    spec_kanji_digit_value(c) is Some || spec_small_kanji_unit(c) is Some
        || spec_large_kanji_unit(c) is Some || c == '点'
}

pub fn is_kanji_number_char(c: char) -> (b: bool)
    ensures
        b == spec_is_kanji_number_char(c),
{
    kanji_digit_value(c).is_some() || small_kanji_unit(c).is_some() || large_kanji_unit(
        c,
    ).is_some() || c == '点'
}


// ─── reading kanji numerals ─────────────────────────────────────────────────

/// The state of a left-to-right scan of a kanji numeral: the myriads summed so
/// far, the group under the current myriad, a digit waiting for its unit, and
/// whether any unit has been seen.
#[derive(Clone, Copy)]
pub struct KanjiScan {
    pub total: u64,
    pub group: u64,
    pub pending: Option<u64>,
    pub saw_unit: bool,
}

pub open spec fn fits_u64(x: int) -> bool {
    0 <= x <= u64::MAX
}

/// One step of the scan; `None` when the character is no numeral character or
/// a value leaves `u64`.
pub open spec fn kanji_scan_step(st: KanjiScan, c: char) -> Option<KanjiScan> {
    if spec_kanji_digit_value(c) is Some {
        Some(KanjiScan { pending: spec_kanji_digit_value(c), ..st })
    } else if spec_small_kanji_unit(c) is Some {
        let unit = spec_small_kanji_unit(c)->0;
        let digit: int = match st.pending {
            Some(d) => d as int,
            None => 1,
        };
        let group = st.group + digit * unit;
        if fits_u64(digit * unit) && fits_u64(group) {
            Some(KanjiScan { total: st.total, group: group as u64, pending: None, saw_unit: true })
        } else {
            None
        }
    } else if spec_large_kanji_unit(c) is Some {
        let unit = spec_large_kanji_unit(c)->0;
        let with_pending: int = match st.pending {
            Some(d) => st.group + d,
            None => st.group as int,
        };
        let group_value: int = if with_pending == 0 {
            1
        } else {
            with_pending
        };
        let total = st.total + group_value * unit;
        if fits_u64(with_pending) && fits_u64(group_value * unit) && fits_u64(total) {
            Some(KanjiScan { total: total as u64, group: 0, pending: None, saw_unit: true })
        } else {
            None
        }
    } else {
        None
    }
}

pub open spec fn kanji_scan_start() -> KanjiScan {
    KanjiScan { total: 0, group: 0, pending: None, saw_unit: false }
}

pub open spec fn kanji_scan(s: Seq<char>) -> Option<KanjiScan>
    decreases s.len(),
{
    if s.len() == 0 {
        Some(kanji_scan_start())
    } else {
        match kanji_scan(s.drop_last()) {
            Some(st) => kanji_scan_step(st, s.last()),
            None => None,
        }
    }
}

/// The ASCII digits of a kanji integer (`二千二十四` gives `2024`, `二〇二四`
/// gives `2024`): without units the digits are read one by one, with units
/// the value is summed; `None` for other characters or values beyond `u64`.
pub open spec fn spec_parse_kanji_integer_digits(s: Seq<char>) -> Option<Seq<char>> {
    match kanji_scan(s) {
        None => None,
        Some(st) => if !st.saw_unit {
            Some(s.filter_map(|c: char| spec_kanji_to_digit(c)))
        } else {
            let group: int = match st.pending {
                Some(d) => st.group + d,
                None => st.group as int,
            };
            if fits_u64(group) && fits_u64(st.total + group) {
                Some(numerals::decimal((st.total + group) as nat))
            } else {
                None
            }
        },
    }
}

fn kanji_scan_next(st: KanjiScan, c: char) -> (r: Option<KanjiScan>)
    ensures
        r == kanji_scan_step(st, c),
{
    if let Some(digit) = kanji_digit_value(c) {
        Some(KanjiScan { pending: Some(digit), ..st })
    } else if let Some(unit) = small_kanji_unit(c) {
        let digit = match st.pending {
            Some(d) => d,
            None => 1,
        };
        let prod = digit.checked_mul(unit)?;
        let group = st.group.checked_add(prod)?;
        Some(KanjiScan { total: st.total, group, pending: None, saw_unit: true })
    } else if let Some(unit) = large_kanji_unit(c) {
        let mut group_value = st.group;
        if let Some(digit) = st.pending {
            group_value = group_value.checked_add(digit)?;
        }
        if group_value == 0 {
            group_value = 1;
        }
        let prod = group_value.checked_mul(unit)?;
        let total = st.total.checked_add(prod)?;
        Some(KanjiScan { total, group: 0, pending: None, saw_unit: true })
    } else {
        None
    }
}

/// The ASCII digits of a kanji integer; see `spec_parse_kanji_integer_digits`.
pub fn parse_kanji_integer_digits(v: &Vec<char>) -> (r: Option<Vec<char>>)
    ensures
        r matches Some(x) ==> spec_parse_kanji_integer_digits(v@) == Some(x@),
        r is None ==> spec_parse_kanji_integer_digits(v@) is None,
{
    let mut st = KanjiScan { total: 0, group: 0, pending: None, saw_unit: false };
    let mut i: usize = 0;
    while i < v.len()
        invariant
            i <= v.len(),
            kanji_scan(v@.take(i as int)) == Some(st),
        decreases v.len() - i,
    {
        assert(v@.take(i + 1).drop_last() == v@.take(i as int));
        match kanji_scan_next(st, v[i]) {
            Some(next) => {
                st = next;
            },
            None => {
                proof {
                    lemma_kanji_scan_fails_after(v@, i as int + 1);
                }
                return None;
            },
        }
        i = i + 1;
    }
    assert(v@.take(v@.len() as int) == v@);
    if !st.saw_unit {
        let mut out: Vec<char> = Vec::new();
        let mut j: usize = 0;
        while j < v.len()
            invariant
                j <= v.len(),
                out@ == v@.take(j as int).filter_map(|c: char| spec_kanji_to_digit(c)),
            decreases v.len() - j,
        {
            assert(v@.take(j + 1).drop_last() == v@.take(j as int));
            if let Some(d) = kanji_to_digit(v[j]) {
                out.push(d);
            }
            j = j + 1;
        }
        return Some(out);
    }
    let group = match st.pending {
        Some(d) => st.group.checked_add(d)?,
        None => st.group,
    };
    let total = st.total.checked_add(group)?;
    Some(numerals::decimal_chars(total))
}

proof fn lemma_kanji_scan_fails_after(s: Seq<char>, i: int)
    requires
        0 <= i <= s.len(),
        kanji_scan(s.take(i)) is None,
    ensures
        kanji_scan(s) is None,
    decreases s.len() - i,
{
    if i < s.len() {
        assert(s.take(i + 1).drop_last() == s.take(i));
        lemma_kanji_scan_fails_after(s, i + 1);
    } else {
        assert(s.take(i) == s);
    }
}

/// The part of `s` before its first `点` and the part after it (all of `s`
/// and nothing when there is none).
pub open spec fn split_at_point(s: Seq<char>) -> (Seq<char>, Seq<char>) {
    let k = first_index(s, '点');
    if k < 0 {
        (s, seq![])
    } else {
        (s.take(k), s.skip(k + 1))
    }
}

/// The ASCII digits of a kanji number with an optional decimal part
/// (`二点五` gives `25`: the point itself is dropped); `None` when the integer
/// part does not read or the decimal part has other than kanji digits.
pub open spec fn spec_parse_kanji_number_digits(s: Seq<char>) -> Option<Seq<char>> {
    let (integer, decimal) = split_at_point(s);
    match spec_parse_kanji_integer_digits(integer) {
        None => None,
        Some(out) => if decimal.len() == 0 {
            Some(out)
        } else if forall|i: int|
            0 <= i < decimal.len() ==> (#[trigger] spec_kanji_digit_value(decimal[i])) is Some {
            Some(out + decimal.filter_map(|c: char| spec_kanji_to_digit(c)))
        } else {
            None
        },
    }
}

pub fn parse_kanji_number_digits(v: &Vec<char>) -> (r: Option<Vec<char>>)
    ensures
        r matches Some(x) ==> spec_parse_kanji_number_digits(v@) == Some(x@),
        r is None ==> spec_parse_kanji_number_digits(v@) is None,
{
    let (integer, decimal) = match find_char(v, '点') {
        Some(k) => {
            let len = v.len();
            assert(k < len);
            (sub_vec(v, 0, k), sub_vec(v, k + 1, len))
        },
        None => {
            assert(v@.subrange(0, v@.len() as int) == v@);
            (sub_vec(v, 0, v.len()), Vec::new())
        },
    };
    assert(split_at_point(v@) == (integer@, decimal@));
    let mut out = parse_kanji_integer_digits(&integer)?;
    if decimal.len() == 0 {
        return Some(out);
    }
    let ghost int_digits = out@;
    let mut j: usize = 0;
    while j < decimal.len()
        invariant
            j <= decimal.len(),
            decimal@.len() > 0,
            split_at_point(v@) == (integer@, decimal@),
            spec_parse_kanji_integer_digits(integer@) == Some(int_digits),
            forall|i: int| 0 <= i < j ==> (#[trigger] spec_kanji_digit_value(decimal@[i])) is Some,
            out@ == int_digits + decimal@.take(j as int).filter_map(
                |c: char| spec_kanji_to_digit(c),
            ),
        decreases decimal.len() - j,
    {
        assert(decimal@.take(j + 1).drop_last() == decimal@.take(j as int));
        if kanji_digit_value(decimal[j]).is_none() {
            assert(spec_kanji_digit_value(decimal@[j as int]) is None);
            assert(!(forall|i: int|
                0 <= i < decimal@.len() ==> (#[trigger] spec_kanji_digit_value(decimal@[i])) is Some));
            assert(spec_parse_kanji_integer_digits(integer@) is Some);
            return None;
        }
        match kanji_to_digit(decimal[j]) {
            Some(d) => out.push(d),
            None => {},
        }
        j = j + 1;
    }
    assert(decimal@.take(decimal@.len() as int) == decimal@);
    Some(out)
}

// ─── comparing the digits of a reading and a conversion ─────────────────────

/// Appends the digits of a kanji number run (nothing when it does not read).
pub open spec fn flush_kanji_run(out: Seq<char>, run: Seq<char>) -> Seq<char> {
    if run.len() == 0 {
        out
    } else {
        match spec_parse_kanji_number_digits(run) {
            Some(d) => out + d,
            None => out,
        }
    }
}

pub open spec fn extract_step(st: (Seq<char>, Seq<char>), c: char) -> (Seq<char>, Seq<char>) {
    if spec_is_ascii_digit(c) {
        (flush_kanji_run(st.0, st.1).push(c), seq![])
    } else if spec_is_fullwidth_digit(c) {
        (flush_kanji_run(st.0, st.1).push(shift(c, -0xFEE0)), seq![])
    } else if spec_is_kanji_number_char(c) {
        (st.0, st.1.push(c))
    } else {
        (flush_kanji_run(st.0, st.1), seq![])
    }
}

pub open spec fn extract_scan(s: Seq<char>) -> (Seq<char>, Seq<char>)
    decreases s.len(),
{
    if s.len() == 0 {
        (seq![], seq![])
    } else {
        extract_step(extract_scan(s.drop_last()), s.last())
    }
}

/// The digits that a text spells, in order: ASCII and fullwidth digits as they
/// stand, and every maximal run of kanji numeral characters read as a number
/// (`２０２４ねん` and `二千二十四年` both give `2024`).
pub open spec fn spec_extract_digits(s: Seq<char>) -> Seq<char> {
    let st = extract_scan(s);
    flush_kanji_run(st.0, st.1)
}

fn flush_run(out: &mut Vec<char>, run: &mut Vec<char>)
    ensures
        final(out)@ == flush_kanji_run(old(out)@, old(run)@),
        final(run)@ == Seq::<char>::empty(),
{
    if run.len() > 0 {
        match parse_kanji_number_digits(run) {
            Some(d) => {
                let mut k: usize = 0;
                let ghost start = out@;
                while k < d.len()
                    invariant
                        k <= d.len(),
                        out@ == start + d@.take(k as int),
                    decreases d.len() - k,
                {
                    out.push(d[k]);
                    assert(d@.take(k + 1) == d@.take(k as int).push(d@[k as int]));
                    k = k + 1;
                }
                assert(d@.take(d@.len() as int) == d@);
            },
            None => {},
        }
    }
    *run = Vec::new();
}

/// The digits that `s` spells; see `spec_extract_digits`.
pub fn extract_digits(s: &str) -> (r: String)
    ensures
        r@ == spec_extract_digits(s@),
{
    let v = chars_of(s);
    let mut out: Vec<char> = Vec::new();
    let mut run: Vec<char> = Vec::new();
    let mut i: usize = 0;
    while i < v.len()
        invariant
            i <= v.len(),
            v@ == s@,
            extract_scan(v@.take(i as int)) == (out@, run@),
        decreases v.len() - i,
    {
        let c = v[i];
        assert(v@.take(i + 1).drop_last() == v@.take(i as int));
        if is_ascii_digit(c) {
            flush_run(&mut out, &mut run);
            out.push(c);
        } else if is_fullwidth_digit(c) {
            flush_run(&mut out, &mut run);
            out.push(shift_char(c, -0xFEE0));
        } else if is_kanji_number_char(c) {
            run.push(c);
        } else {
            flush_run(&mut out, &mut run);
        }
        assert(extract_scan(v@.take(i + 1)) == (out@, run@));
        i = i + 1;
    }
    assert(v@.take(v@.len() as int) == v@);
    flush_run(&mut out, &mut run);
    string_of(&out)
}

/// Whether a conversion keeps the digits of its reading: both spell the same
/// digits (`２０２４ねん` and `弐千弐拾四年` do; `２０２４ねん` and `2025年` do not).
pub fn verify_digits_preserved(input: &str, output: &str) -> (b: bool)
    ensures
        b == (spec_extract_digits(input@) == spec_extract_digits(output@)),
{
    let a = extract_digits(input);
    let b = extract_digits(output);
    str_eq(a.as_str(), b.as_str())
}


// ─── positional numerals from a numeric literal ─────────────────────────────

/// The number of times `c` occurs in `s`.
pub open spec fn count_char(s: Seq<char>, c: char) -> nat
    decreases s.len(),
{
    if s.len() == 0 {
        0
    } else {
        count_char(s.drop_last(), c) + (if s.last() == c {
            1nat
        } else {
            0nat
        })
    }
}

/// `s` without its commas.
pub open spec fn without_commas(s: Seq<char>) -> Seq<char> {
    s.filter_map(|c: char| if c == ',' { None } else { Some(c) })
}

/// A digit run written with per-digit kanji (zero as `〇`); other characters kept.
pub open spec fn spec_per_digit_kanji(s: Seq<char>) -> Seq<char> {
    s.map_values(
        |c: char|
            match spec_digit_to_per_digit_kanji(c) {
                Some(k) => k,
                None => c,
            },
    )
}

/// The decimal part of a positional numeral: commas dropped, `.` as `点`,
/// digits as kanji (zero as `零`).
pub open spec fn spec_per_digit_kanji_normalized(s: Seq<char>) -> Seq<char> {
    s.filter_map(
        |c: char|
            if c == '.' {
                Some('点')
            } else if spec_is_ascii_digit(c) {
                Some(numerals::kanji_digit(numerals::digit_value(c)))
            } else {
                None
            },
    )
}

/// The integer and decimal parts of a normalized literal around its first `.`.
pub open spec fn split_at_dot(s: Seq<char>) -> (Seq<char>, Seq<char>) {
    let k = first_index(s, '.');
    if k < 0 {
        (s, seq![])
    } else {
        (s.take(k), s.skip(k + 1))
    }
}

/// The integer value of a numeric literal with at most one `.`, when its
/// integer part has digits and fits in `u64` and its decimal part is only
/// digits: the numeral is built from the value and the decimal digits.
pub open spec fn positional_parts(s: Seq<char>) -> Option<(nat, Seq<char>)> {
    match spec_normalize_numeric_literal(s) {
        None => None,
        Some(n) => {
            let (integer, decimal) = split_at_dot(n);
            let digits = without_commas(integer);
            if count_char(n, '.') > 1 {
                None
            } else if digits.len() == 0 || !numerals::all_ascii_digits(digits) {
                None
            } else if numerals::digits_value(digits) > u64::MAX {
                None
            } else if decimal.len() > 0 && !numerals::all_ascii_digits(decimal) {
                None
            } else {
                Some((numerals::digits_value(digits), decimal))
            }
        },
    }
}

/// A numeric literal as a positional kanji numeral (`2,400` gives `二千四百`,
/// `2.5` gives `二点五`).
pub open spec fn spec_kanji_positional(s: Seq<char>) -> Option<Seq<char>> {
    match positional_parts(s) {
        None => None,
        Some((value, decimal)) => if decimal.len() == 0 {
            Some(numerals::kanji_integer(value))
        } else {
            Some(
                numerals::kanji_integer(value) + seq!['点'] + spec_per_digit_kanji_normalized(
                    decimal,
                ),
            )
        },
    }
}

/// A numeric literal as a daiji numeral (`1234` gives `壱千弐百参拾四`).
pub open spec fn spec_daiji_positional(s: Seq<char>) -> Option<Seq<char>> {
    match positional_parts(s) {
        None => None,
        Some((value, decimal)) => if decimal.len() == 0 {
            Some(numerals::daiji_integer(value))
        } else {
            Some(
                numerals::daiji_integer(value) + seq!['点'] + decimal.map_values(
                    |c: char| numerals::daiji_digit(numerals::digit_value(c)),
                ),
            )
        },
    }
}

fn per_digit_kanji_char(c: char) -> (r: char)
    ensures
        r == (match spec_digit_to_per_digit_kanji(c) {
            Some(k) => k,
            None => c,
        }),
{
    match digit_to_per_digit_kanji(c) {
        Some(k) => k,
        None => c,
    }
}

/// Digits written with per-digit kanji (`2024` gives `二〇二四`).
pub fn to_per_digit_kanji(s: &str) -> (r: String)
    ensures
        r@ == spec_per_digit_kanji(s@),
{
    let v = chars_of(s);
    let m = map_chars(&v, per_digit_kanji_char);
    assert(m@ =~= spec_per_digit_kanji(s@));
    string_of(&m)
}

fn count_dots(v: &Vec<char>) -> (n: usize)
    ensures
        n == count_char(v@, '.'),
{
    let mut n: usize = 0;
    let mut i: usize = 0;
    while i < v.len()
        invariant
            i <= v.len(),
            n == count_char(v@.take(i as int), '.'),
            n <= i,
        decreases v.len() - i,
    {
        assert(v@.take(i + 1).drop_last() == v@.take(i as int));
        if v[i] == '.' {
            n = n + 1;
        }
        i = i + 1;
    }
    assert(v@.take(v@.len() as int) == v@);
    n
}

fn all_digits(v: &Vec<char>) -> (b: bool)
    ensures
        b == numerals::all_ascii_digits(v@),
{
    let mut i: usize = 0;
    while i < v.len()
        invariant
            i <= v.len(),
            forall|j: int| 0 <= j < i ==> spec_is_ascii_digit(#[trigger] v@[j]),
        decreases v.len() - i,
    {
        if !is_ascii_digit(v[i]) {
            return false;
        }
        i = i + 1;
    }
    true
}

fn drop_commas(v: &Vec<char>) -> (r: Vec<char>)
    ensures
        r@ == without_commas(v@),
{
    let mut r: Vec<char> = Vec::new();
    let mut i: usize = 0;
    while i < v.len()
        invariant
            i <= v.len(),
            r@ == without_commas(v@.take(i as int)),
        decreases v.len() - i,
    {
        assert(v@.take(i + 1).drop_last() == v@.take(i as int));
        if v[i] != ',' {
            r.push(v[i]);
        }
        i = i + 1;
    }
    assert(v@.take(v@.len() as int) == v@);
    r
}

/// The integer value and decimal digits of a numeric literal; see
/// `positional_parts`.
fn positional_parts_of(s: &str) -> (r: Option<(u64, Vec<char>)>)
    ensures
        r matches Some((value, decimal)) ==> positional_parts(s@) == Some(
            (value as nat, decimal@),
        ),
        r is None ==> positional_parts(s@) is None,
{
    let v = chars_of(s);
    let n = normalize_numeric_chars(&v)?;
    if count_dots(&n) > 1 {
        return None;
    }
    let (integer, decimal) = match find_char(&n, '.') {
        Some(k) => {
            let len = n.len();
            assert(k < len);
            (sub_vec(&n, 0, k), sub_vec(&n, k + 1, len))
        },
        None => {
            assert(n@.subrange(0, n@.len() as int) == n@);
            (sub_vec(&n, 0, n.len()), Vec::new())
        },
    };
    assert(split_at_dot(n@) == (integer@, decimal@));
    let digits = drop_commas(&integer);
    if digits.len() == 0 || !all_digits(&digits) {
        return None;
    }
    let value = numerals::parse_u64_digits(&digits)?;
    if decimal.len() > 0 && !all_digits(&decimal) {
        return None;
    }
    Some((value, decimal))
}

/// A numeric literal as positional kanji (`２，４００．５` gives `二千四百点五`).
pub fn to_kanji_positional(s: &str) -> (r: Option<String>)
    ensures
        r matches Some(x) ==> spec_kanji_positional(s@) == Some(x@),
        r is None ==> spec_kanji_positional(s@) is None,
{
    let (value, decimal) = positional_parts_of(s)?;
    let mut out = numerals::to_kanji_integer(value)?;
    if decimal.len() > 0 {
        let ghost head = out@;
        out.push('点');
        let mut i: usize = 0;
        while i < decimal.len()
            invariant
                i <= decimal.len(),
                out@ == head + seq!['点'] + spec_per_digit_kanji_normalized(
                    decimal@.take(i as int),
                ),
            decreases decimal.len() - i,
        {
            let c = decimal[i];
            assert(decimal@.take(i + 1).drop_last() == decimal@.take(i as int));
            if c == '.' {
                out.push('点');
            } else if is_ascii_digit(c) {
                out.push(numerals::kanji_digit_char(((c as u32) - 0x30) as u64));
            }
            i = i + 1;
        }
        assert(decimal@.take(decimal@.len() as int) == decimal@);
    }
    Some(string_of(&out))
}

/// A numeric literal as daiji (`1234` gives `壱千弐百参拾四`).
#[verifier::spinoff_prover]
#[verifier::rlimit(40)]
pub fn to_daiji_positional(s: &str) -> (r: Option<String>)
    ensures
        r matches Some(x) ==> spec_daiji_positional(s@) == Some(x@),
        r is None ==> spec_daiji_positional(s@) is None,
{
    let (value, decimal) = positional_parts_of(s)?;
    let mut out = numerals::to_daiji_integer(value)?;
    if decimal.len() > 0 {
        let ghost head = out@;
        out.push('点');
        let mut i: usize = 0;
        while i < decimal.len()
            invariant
                i <= decimal.len(),
                numerals::all_ascii_digits(decimal@),
                out@ == head + seq!['点'] + decimal@.take(i as int).map_values(
                    |c: char| numerals::daiji_digit(numerals::digit_value(c)),
                ),
            decreases decimal.len() - i,
        {
            let c = decimal[i];
            assert(spec_is_ascii_digit(decimal@[i as int]));
            out.push(numerals::daiji_digit_char(((c as u32) - 0x30) as u64));
            assert(decimal@.take(i + 1).map_values(
                |c: char| numerals::daiji_digit(numerals::digit_value(c)),
            ) =~= decimal@.take(i as int).map_values(
                |c: char| numerals::daiji_digit(numerals::digit_value(c)),
            ).push(numerals::daiji_digit(numerals::digit_value(c))));
            i = i + 1;
        }
        assert(decimal@.take(decimal@.len() as int) == decimal@);
    }
    Some(string_of(&out))
}


// ─── candidate lists ────────────────────────────────────────────────────────

/// The characters of each string.
pub open spec fn views(v: Seq<String>) -> Seq<Seq<char>> {
    v.map_values(|s: String| s@)
}

/// One way of writing a digit literal.
#[derive(Debug, Clone, Copy, PartialEq, Eq, Structural)]
pub enum DigitCandidateKind {
    /// ASCII digits (`2024`).
    Arabic,
    /// Fullwidth digits (`２０２４`).
    Fullwidth,
    /// Positional kanji (`二千二十四`).
    Positional,
    /// Per-digit kanji (`二〇二四`).
    PerDigit,
    /// Daiji (`弐千弐拾四`).
    Daiji,
}

pub open spec fn spec_default_digit_candidates_order() -> Seq<DigitCandidateKind> {
    seq![
        DigitCandidateKind::Arabic,
        DigitCandidateKind::Fullwidth,
        DigitCandidateKind::Positional,
        DigitCandidateKind::PerDigit,
        DigitCandidateKind::Daiji,
    ]
}

/// The order in which digit candidates are offered unless configured:
/// halfwidth, fullwidth, positional kanji, per-digit kanji, daiji.
pub fn default_digit_candidates_order() -> (v: Vec<DigitCandidateKind>)
    ensures
        v@ == spec_default_digit_candidates_order(),
{
    let mut v: Vec<DigitCandidateKind> = Vec::new();
    v.push(DigitCandidateKind::Arabic);
    v.push(DigitCandidateKind::Fullwidth);
    v.push(DigitCandidateKind::Positional);
    v.push(DigitCandidateKind::PerDigit);
    v.push(DigitCandidateKind::Daiji);
    assert(v@ =~= spec_default_digit_candidates_order());
    v
}

pub open spec fn spec_effective_order(order: Seq<DigitCandidateKind>) -> Seq<DigitCandidateKind> {
    if order.len() == 0 {
        spec_default_digit_candidates_order()
    } else {
        order
    }
}

/// The configured order, or the default one when none is configured.
pub fn effective_digit_candidates_order(order: &[DigitCandidateKind]) -> (v: Vec<
    DigitCandidateKind,
>)
    ensures
        v@ == spec_effective_order(order@),
{
    if order.len() == 0 {
        default_digit_candidates_order()
    } else {
        let mut v: Vec<DigitCandidateKind> = Vec::new();
        let mut i: usize = 0;
        while i < order.len()
            invariant
                i <= order.len(),
                v@ == order@.take(i as int),
            decreases order.len() - i,
        {
            v.push(order[i]);
            assert(order@.take(i + 1) == order@.take(i as int).push(order@[i as int]));
            i = i + 1;
        }
        assert(order@.take(order@.len() as int) == order@);
        v
    }
}

/// `acc` with `v` appended unless it is already there.
pub open spec fn push_unique_spec(acc: Seq<Seq<char>>, v: Seq<char>) -> Seq<Seq<char>> {
    if acc.contains(v) {
        acc
    } else {
        acc.push(v)
    }
}

/// Appends `value` unless an equal string is already in the list.
pub fn push_unique(candidates: &mut Vec<String>, value: String)
    ensures
        views(final(candidates)@) == push_unique_spec(views(old(candidates)@), value@),
{
    let mut i: usize = 0;
    while i < candidates.len()
        invariant
            i <= candidates.len(),
            forall|j: int| 0 <= j < i ==> candidates@[j]@ != value@,
        decreases candidates.len() - i,
    {
        if str_eq(candidates[i].as_str(), value.as_str()) {
            assert(views(candidates@)[i as int] == value@);
            return ;
        }
        i = i + 1;
    }
    assert(!views(candidates@).contains(value@)) by {
        if views(candidates@).contains(value@) {
            let k = choose|k: int| 0 <= k < views(candidates@).len() && views(candidates@)[k] == value@;
            assert(candidates@[k]@ == value@);
        }
    }
    let ghost before = candidates@;
    candidates.push(value);
    assert(views(candidates@) =~= views(before).push(value@));
}

/// The candidate of one kind for a normalized literal, if that kind applies.
pub open spec fn digit_candidate(kind: DigitCandidateKind, n: Seq<char>) -> Option<Seq<char>> {
    match kind {
        DigitCandidateKind::Arabic => Some(n.map_values(|c: char| spec_halfwidth_digit(c))),
        DigitCandidateKind::Fullwidth => Some(n.map_values(|c: char| spec_fullwidth_digit(c))),
        DigitCandidateKind::Positional => spec_kanji_positional(n),
        DigitCandidateKind::PerDigit => Some(spec_per_digit_kanji(n)),
        DigitCandidateKind::Daiji => spec_daiji_positional(n),
    }
}

/// The candidates of the kinds in `order`, in that order, without repeats.
pub open spec fn digit_candidates_for(order: Seq<DigitCandidateKind>, n: Seq<char>) -> Seq<
    Seq<char>,
>
    decreases order.len(),
{
    if order.len() == 0 {
        seq![]
    } else {
        let acc = digit_candidates_for(order.drop_last(), n);
        match digit_candidate(order.last(), n) {
            Some(v) => push_unique_spec(acc, v),
            None => acc,
        }
    }
}

/// The digit candidates of a literal: the literal is normalized when it reads
/// as a numeric literal (else kept as written), then each kind of the
/// effective order contributes its form, repeats dropped.
pub open spec fn spec_digit_candidates(s: Seq<char>, order: Seq<DigitCandidateKind>) -> Seq<
    Seq<char>,
> {
    let n = match spec_normalize_numeric_literal(s) {
        Some(x) => x,
        None => s,
    };
    digit_candidates_for(spec_effective_order(order), n)
}

/// The ways of writing a digit literal, in the configured order
/// (`2024` gives `2024`, `２０２４`, `二千二十四`, `二〇二四`, `弐千弐拾四`).
pub fn digit_candidates(s: &str, order: &[DigitCandidateKind]) -> (r: Vec<String>)
    ensures
        views(r@) == spec_digit_candidates(s@, order@),
{
    let normalized = match normalize_numeric_literal(s) {
        Some(x) => x,
        None => s.to_owned(),
    };
    let half = to_halfwidth_digits(normalized.as_str());
    let full = to_fullwidth_digits(normalized.as_str());
    let kanji = to_per_digit_kanji(normalized.as_str());
    let kinds = effective_digit_candidates_order(order);
    let ghost n = normalized@;
    let mut candidates: Vec<String> = Vec::new();
    let mut i: usize = 0;
    while i < kinds.len()
        invariant
            i <= kinds.len(),
            normalized@ == n,
            half@ == n.map_values(|c: char| spec_halfwidth_digit(c)),
            full@ == n.map_values(|c: char| spec_fullwidth_digit(c)),
            kanji@ == spec_per_digit_kanji(n),
            views(candidates@) == digit_candidates_for(kinds@.take(i as int), n),
        decreases kinds.len() - i,
    {
        assert(kinds@.take(i + 1).drop_last() == kinds@.take(i as int));
        match kinds[i] {
            DigitCandidateKind::Arabic => push_unique(&mut candidates, half.clone()),
            DigitCandidateKind::Fullwidth => push_unique(&mut candidates, full.clone()),
            DigitCandidateKind::Positional => {
                if let Some(positional) = to_kanji_positional(normalized.as_str()) {
                    push_unique(&mut candidates, positional);
                }
            },
            DigitCandidateKind::PerDigit => push_unique(&mut candidates, kanji.clone()),
            DigitCandidateKind::Daiji => {
                if let Some(daiji) = to_daiji_positional(normalized.as_str()) {
                    push_unique(&mut candidates, daiji);
                }
            },
        }
        i = i + 1;
    }
    assert(kinds@.take(kinds@.len() as int) == kinds@);
    candidates
}


// ─── letters and symbols ────────────────────────────────────────────────────

pub open spec fn spec_halfwidth_alpha(c: char) -> char {
    if spec_is_fullwidth_upper(c) || spec_is_fullwidth_lower(c) {
        shift(c, -0xFEE0)
    } else {
        c
    }
}

pub open spec fn spec_fullwidth_alpha(c: char) -> char {
    if spec_is_ascii_upper(c) || spec_is_ascii_lower(c) {
        shift(c, 0xFEE0)
    } else {
        c
    }
}

pub open spec fn spec_halfwidth_symbol(c: char) -> char {
    if spec_is_fullwidth_ascii(c) {
        shift(c, -0xFEE0)
    } else {
        c
    }
}

pub open spec fn spec_fullwidth_symbol(c: char) -> char {
    if spec_is_ascii_graphic(c) && !spec_is_ascii_alnum(c) {
        shift(c, 0xFEE0)
    } else {
        c
    }
}

fn halfwidth_alpha(c: char) -> (r: char)
    ensures
        r == spec_halfwidth_alpha(c),
{
    if is_fullwidth_upper(c) || is_fullwidth_lower(c) {
        shift_char(c, -0xFEE0)
    } else {
        c
    }
}

fn fullwidth_alpha(c: char) -> (r: char)
    ensures
        r == spec_fullwidth_alpha(c),
{
    if is_ascii_upper(c) || is_ascii_lower(c) {
        shift_char(c, 0xFEE0)
    } else {
        c
    }
}

fn halfwidth_symbol(c: char) -> (r: char)
    ensures
        r == spec_halfwidth_symbol(c),
{
    if is_fullwidth_ascii(c) {
        shift_char(c, -0xFEE0)
    } else {
        c
    }
}

fn fullwidth_symbol(c: char) -> (r: char)
    ensures
        r == spec_fullwidth_symbol(c),
{
    if is_ascii_graphic(c) && !is_ascii_alnum(c) {
        shift_char(c, 0xFEE0)
    } else {
        c
    }
}

/// Fullwidth Latin letters to ASCII.
pub fn to_halfwidth_alpha(s: &str) -> (r: String)
    ensures
        r@ == s@.map_values(|c: char| spec_halfwidth_alpha(c)),
{
    let v = chars_of(s);
    let m = map_chars(&v, halfwidth_alpha);
    assert(m@ =~= s@.map_values(|c: char| spec_halfwidth_alpha(c)));
    string_of(&m)
}

/// ASCII letters to fullwidth.
pub fn to_fullwidth_alpha(s: &str) -> (r: String)
    ensures
        r@ == s@.map_values(|c: char| spec_fullwidth_alpha(c)),
{
    let v = chars_of(s);
    let m = map_chars(&v, fullwidth_alpha);
    assert(m@ =~= s@.map_values(|c: char| spec_fullwidth_alpha(c)));
    string_of(&m)
}

/// Fullwidth ASCII-block characters to ASCII.
pub fn to_halfwidth_symbol(s: &str) -> (r: String)
    ensures
        r@ == s@.map_values(|c: char| spec_halfwidth_symbol(c)),
{
    let v = chars_of(s);
    let m = map_chars(&v, halfwidth_symbol);
    assert(m@ =~= s@.map_values(|c: char| spec_halfwidth_symbol(c)));
    string_of(&m)
}

/// ASCII symbols to fullwidth.
pub fn to_fullwidth_symbol(s: &str) -> (r: String)
    ensures
        r@ == s@.map_values(|c: char| spec_fullwidth_symbol(c)),
{
    let v = chars_of(s);
    let m = map_chars(&v, fullwidth_symbol);
    assert(m@ =~= s@.map_values(|c: char| spec_fullwidth_symbol(c)));
    string_of(&m)
}

/// `[half]` when both forms agree, else both, in the preferred order.
pub open spec fn half_full_pair(half: Seq<char>, full: Seq<char>, fullwidth_first: bool) -> Seq<
    Seq<char>,
> {
    if half == full {
        seq![half]
    } else if fullwidth_first {
        seq![full, half]
    } else {
        seq![half, full]
    }
}

fn pair_candidates(half: String, full: String, fullwidth_first: bool) -> (r: Vec<String>)
    ensures
        views(r@) == half_full_pair(half@, full@, fullwidth_first),
{
    let same = str_eq(half.as_str(), full.as_str());
    let mut r: Vec<String> = Vec::new();
    if same {
        r.push(half);
    } else if fullwidth_first {
        r.push(full);
        r.push(half);
    } else {
        r.push(half);
        r.push(full);
    }
    assert(views(r@) =~= half_full_pair(half@, full@, fullwidth_first));
    r
}

pub open spec fn spec_alpha_candidates(s: Seq<char>, fullwidth_first: bool) -> Seq<Seq<char>> {
    half_full_pair(
        s.map_values(|c: char| spec_halfwidth_alpha(c)),
        s.map_values(|c: char| spec_fullwidth_alpha(c)),
        fullwidth_first,
    )
}

/// A letter literal in halfwidth and fullwidth (`PC` gives `PC`, `ＰＣ`, or
/// the reverse when fullwidth comes first).
pub fn alpha_candidates(s: &str, fullwidth_first: bool) -> (r: Vec<String>)
    ensures
        views(r@) == spec_alpha_candidates(s@, fullwidth_first),
{
    pair_candidates(to_halfwidth_alpha(s), to_fullwidth_alpha(s), fullwidth_first)
}

/// Symbols outside the automatic halfwidth/fullwidth mapping, with their
/// halfwidth and fullwidth forms (`・` gives `/` and `／`).
pub open spec fn symbol_extra_pair(s: Seq<char>) -> Option<(char, char)> {
    if s.len() != 1 {
        None
    } else {
        extra_pair_of(s[0])
    }
}

pub open spec fn extra_pair_of(c: char) -> Option<(char, char)> {
    if c == '\u{30FB}' {
        Some(('/', '\u{FF0F}'))
    } else if c == '\u{FFE5}' {
        Some(('$', '\u{A5}'))
    } else if c == '\u{FFE0}' {
        Some(('\u{A2}', '\u{FFE0}'))
    } else if c == '\u{FFE1}' {
        Some(('\u{A3}', '\u{FFE1}'))
    } else if c == '\u{FFE2}' {
        Some(('\u{AC}', '\u{FFE2}'))
    } else if c == '\u{FFE3}' {
        Some(('\u{AF}', '\u{FFE3}'))
    } else if c == '\u{FFE4}' {
        Some(('\u{A6}', '\u{FFE4}'))
    } else if c == '\u{FF3F}' {
        Some(('_', '\u{FF3F}'))
    } else if c == '\u{2225}' {
        Some(('\u{2016}', '\u{2225}'))
    } else {
        None
    }
}

fn extra_pair(c: char) -> (r: Option<(char, char)>)
    ensures
        r == extra_pair_of(c),
{
    if c == '\u{30FB}' {
        Some(('/', '\u{FF0F}'))
    } else if c == '\u{FFE5}' {
        Some(('$', '\u{A5}'))
    } else if c == '\u{FFE0}' {
        Some(('\u{A2}', '\u{FFE0}'))
    } else if c == '\u{FFE1}' {
        Some(('\u{A3}', '\u{FFE1}'))
    } else if c == '\u{FFE2}' {
        Some(('\u{AC}', '\u{FFE2}'))
    } else if c == '\u{FFE3}' {
        Some(('\u{AF}', '\u{FFE3}'))
    } else if c == '\u{FFE4}' {
        Some(('\u{A6}', '\u{FFE4}'))
    } else if c == '\u{FF3F}' {
        Some(('_', '\u{FF3F}'))
    } else if c == '\u{2225}' {
        Some(('\u{2016}', '\u{2225}'))
    } else {
        None
    }
}

pub open spec fn spec_symbol_candidates(s: Seq<char>, fullwidth_first: bool) -> Seq<Seq<char>> {
    match symbol_extra_pair(s) {
        Some((half, full)) => if fullwidth_first {
            seq![seq![full], s, seq![half]]
        } else {
            seq![seq![half], s, seq![full]]
        },
        None => half_full_pair(
            s.map_values(|c: char| spec_halfwidth_symbol(c)),
            s.map_values(|c: char| spec_fullwidth_symbol(c)),
            fullwidth_first,
        ),
    }
}

fn one_char_string(c: char) -> (s: String)
    ensures
        s@ == seq![c],
{
    let mut s = String::new();
    crate::text::push_char(&mut s, c);
    assert(s@ =~= seq![c]);
    s
}

/// A symbol literal in its forms: a symbol of the extra table gives its
/// halfwidth form, itself and its fullwidth form; others their halfwidth and
/// fullwidth forms (`+-*/` gives `+-*/`, `＋－＊／`).
pub fn symbol_candidates(s: &str, fullwidth_first: bool) -> (r: Vec<String>)
    ensures
        views(r@) == spec_symbol_candidates(s@, fullwidth_first),
{
    let v = chars_of(s);
    if v.len() == 1 {
        if let Some((half, full)) = extra_pair(v[0]) {
            let mut r: Vec<String> = Vec::new();
            if fullwidth_first {
                r.push(one_char_string(full));
                r.push(s.to_owned());
                r.push(one_char_string(half));
            } else {
                r.push(one_char_string(half));
                r.push(s.to_owned());
                r.push(one_char_string(full));
            }
            assert(views(r@) =~= spec_symbol_candidates(s@, fullwidth_first));
            return r;
        }
    }
    pair_candidates(to_halfwidth_symbol(s), to_fullwidth_symbol(s), fullwidth_first)
}

/// The candidates of one literal run: digit runs through `digit_candidates`,
/// letter and symbol runs through their halfwidth/fullwidth candidates.
pub open spec fn spec_literal_candidates(
    run: Run,
    order: Seq<DigitCandidateKind>,
    alpha_fullwidth_first: bool,
    symbol_fullwidth_first: bool,
) -> Seq<Seq<char>> {
    match run {
        Run::Digit(s) => spec_digit_candidates(s@, order),
        Run::Alpha(s) => spec_alpha_candidates(s@, alpha_fullwidth_first),
        Run::Symbol(s) => spec_symbol_candidates(s@, symbol_fullwidth_first),
        Run::Kana(s) => seq![],
    }
}

pub fn literal_candidates(
    run: &Run,
    digit_candidates_order: &[DigitCandidateKind],
    alpha_fullwidth_first: bool,
    symbol_fullwidth_first: bool,
) -> (r: Vec<String>)
    requires
        run.kind() != CharKind::Kana,
    ensures
        views(r@) == spec_literal_candidates(
            *run,
            digit_candidates_order@,
            alpha_fullwidth_first,
            symbol_fullwidth_first,
        ),
{
    match run {
        Run::Digit(s) => digit_candidates(s.as_str(), digit_candidates_order),
        Run::Alpha(s) => alpha_candidates(s.as_str(), alpha_fullwidth_first),
        Run::Symbol(s) => symbol_candidates(s.as_str(), symbol_fullwidth_first),
        Run::Kana(_) => Vec::new(),
    }
}

/// Halfwidth and fullwidth forms of one literal run only (digits never as
/// kanji; digits halfwidth first).
pub open spec fn spec_half_full_kind_candidates(
    kind: CharKind,
    s: Seq<char>,
    alpha_fullwidth_first: bool,
    symbol_fullwidth_first: bool,
) -> Seq<Seq<char>> {
    match kind {
        CharKind::Digit => half_full_pair(
            s.map_values(|c: char| spec_halfwidth_digit(c)),
            s.map_values(|c: char| spec_fullwidth_digit(c)),
            false,
        ),
        CharKind::Alpha => spec_alpha_candidates(s, alpha_fullwidth_first),
        CharKind::Symbol => half_full_pair(
            s.map_values(|c: char| spec_halfwidth_symbol(c)),
            s.map_values(|c: char| spec_fullwidth_symbol(c)),
            symbol_fullwidth_first,
        ),
        CharKind::Kana => seq![],
    }
}

pub fn half_full_literal_candidates(
    run: &Run,
    alpha_fullwidth_first: bool,
    symbol_fullwidth_first: bool,
) -> (r: Vec<String>)
    requires
        run.kind() != CharKind::Kana,
    ensures
        views(r@) == spec_half_full_kind_candidates(
            run.kind(),
            run.text_of(),
            alpha_fullwidth_first,
            symbol_fullwidth_first,
        ),
{
    match run {
        Run::Digit(s) => pair_candidates(
            to_halfwidth_digits(s.as_str()),
            to_fullwidth_digits(s.as_str()),
            false,
        ),
        Run::Alpha(s) => pair_candidates(
            to_halfwidth_alpha(s.as_str()),
            to_fullwidth_alpha(s.as_str()),
            alpha_fullwidth_first,
        ),
        Run::Symbol(s) => pair_candidates(
            to_halfwidth_symbol(s.as_str()),
            to_fullwidth_symbol(s.as_str()),
            symbol_fullwidth_first,
        ),
        Run::Kana(_) => Vec::new(),
    }
}


// ─── combining per-run candidates ───────────────────────────────────────────

/// Every `r + c` with `r` from `rs` and `c` from `cs`, `rs` outermost.
pub open spec fn product(rs: Seq<Seq<char>>, cs: Seq<Seq<char>>) -> Seq<Seq<char>>
    decreases rs.len(),
{
    if rs.len() == 0 {
        seq![]
    } else {
        product(rs.drop_last(), cs) + cs.map_values(|c: Seq<char>| rs.last() + c)
    }
}

/// How many partial results a product keeps: twice the limit, at least one.
pub open spec fn product_cap(limit: nat) -> nat {
    if limit == 0 {
        1
    } else {
        2 * limit
    }
}

pub open spec fn take_at_most<A>(s: Seq<A>, n: nat) -> Seq<A> {
    if s.len() > n {
        s.take(n as int)
    } else {
        s
    }
}

/// One run joined onto the partial results: an empty run is skipped, a single
/// candidate is appended to each result, several multiply the results (cut
/// at the product cap).
pub open spec fn combine_step(rs: Seq<Seq<char>>, cs: Seq<Seq<char>>, limit: nat) -> Seq<
    Seq<char>,
> {
    if cs.len() == 0 {
        rs
    } else if cs.len() == 1 {
        rs.map_values(|r: Seq<char>| r + cs[0])
    } else {
        take_at_most(product(rs, cs), product_cap(limit))
    }
}

pub open spec fn combine_fold(runs: Seq<Seq<Seq<char>>>, limit: nat) -> Seq<Seq<char>>
    decreases runs.len(),
{
    if runs.len() == 0 {
        seq![seq![]]
    } else {
        combine_step(combine_fold(runs.drop_last(), limit), runs.last(), limit)
    }
}

/// The candidates of a whole reading from the candidates of its runs, in
/// order: the first candidate of every run first, at most `limit` of them.
pub open spec fn spec_combine_runs(runs: Seq<Seq<Seq<char>>>, limit: nat) -> Seq<Seq<char>> {
    if runs.len() == 0 {
        seq![]
    } else {
        take_at_most(combine_fold(runs, limit), limit)
    }
}

pub(crate) proof fn lemma_product_prefix(rs: Seq<Seq<char>>, cs: Seq<Seq<char>>, i: int)
    requires
        0 <= i <= rs.len(),
    ensures
        product(rs.take(i), cs).len() <= product(rs, cs).len(),
        product(rs, cs).take(product(rs.take(i), cs).len() as int) == product(rs.take(i), cs),
    decreases rs.len() - i,
{
    if i == rs.len() {
        assert(rs.take(i) == rs);
    } else {
        lemma_product_prefix(rs, cs, i + 1);
        assert(rs.take(i + 1).drop_last() == rs.take(i));
        let a = product(rs.take(i), cs);
        let b = product(rs.take(i + 1), cs);
        assert(b == a + cs.map_values(|c: Seq<char>| rs.take(i + 1).last() + c));
        assert(b.take(a.len() as int) == a);
        assert(product(rs, cs).take(a.len() as int) == b.take(a.len() as int));
    }
}

fn concat_strings(a: &String, b: &String) -> (r: String)
    ensures
        r@ == a@ + b@,
{
    let mut r = a.clone();
    crate::text::push_str(&mut r, b.as_str());
    r
}

fn append_each(rs: &Vec<String>, c: &String) -> (r: Vec<String>)
    ensures
        views(r@) == views(rs@).map_values(|x: Seq<char>| x + c@),
{
    let mut r: Vec<String> = Vec::new();
    let mut i: usize = 0;
    while i < rs.len()
        invariant
            i <= rs.len(),
            views(r@) == views(rs@).take(i as int).map_values(|x: Seq<char>| x + c@),
        decreases rs.len() - i,
    {
        let x = concat_strings(&rs[i], c);
        let ghost prev = r@;
        r.push(x);
        assert(views(r@) =~= views(prev).push(x@));
        assert(views(rs@).take(i + 1) =~= views(rs@).take(i as int).push(rs@[i as int]@));
        assert(views(r@) =~= views(rs@).take(i + 1).map_values(|x: Seq<char>| x + c@));
        i = i + 1;
    }
    assert(views(rs@).take(rs@.len() as int) == views(rs@));
    r
}

#[verifier::rlimit(30)]
#[verifier::spinoff_prover]
fn product_capped(rs: &Vec<String>, cs: &Vec<String>, cap: usize) -> (r: Vec<String>)
    requires
        cap >= 1,
    ensures
        views(r@) == take_at_most(product(views(rs@), views(cs@)), cap as nat),
{
    let ghost rv = views(rs@);
    let ghost cv = views(cs@);
    let mut out: Vec<String> = Vec::new();
    let mut i: usize = 0;
    while i < rs.len()
        invariant
            i <= rs.len(),
            cap >= 1,
            rv == views(rs@),
            cv == views(cs@),
            views(out@) == product(rv.take(i as int), cv),
            out@.len() < cap,
        decreases rs.len() - i,
    {
        let ghost before = views(out@);
        let ghost row = cv.map_values(|c: Seq<char>| rv[i as int] + c);
        assert(rv.take(i + 1).drop_last() == rv.take(i as int));
        assert(rv.take(i + 1).last() == rv[i as int]);
        let mut j: usize = 0;
        while j < cs.len()
            invariant
                i < rs.len(),
                j <= cs.len(),
                cap >= 1,
                rv == views(rs@),
                cv == views(cs@),
                row == cv.map_values(|c: Seq<char>| rv[i as int] + c),
                views(out@) == before + row.take(j as int),
                before == product(rv.take(i as int), cv),
                product(rv.take(i + 1), cv) == before + row,
                out@.len() < cap,
            decreases cs.len() - j,
        {
            let combined = concat_strings(&rs[i], &cs[j]);
            let ghost prev = out@;
            out.push(combined);
            assert(views(out@) =~= views(prev).push(combined@));
            assert(row.take(j + 1) =~= row.take(j as int).push(row[j as int]));
            assert(views(out@) =~= before + row.take(j + 1));
            if out.len() >= cap {
                proof {
                    lemma_product_prefix(rv, cv, i + 1);
                    let p = product(rv, cv);
                    let q = product(rv.take(i + 1), cv);
                    assert(q.take(views(out@).len() as int) == views(out@));
                    assert(p.take(views(out@).len() as int) == q.take(views(out@).len() as int));
                }
                return out;
            }
            j = j + 1;
        }
        assert(row.take(cs@.len() as int) == row);
        i = i + 1;
    }
    assert(rv.take(rs@.len() as int) == rv);
    out
}

fn truncate_strings(v: &mut Vec<String>, n: usize)
    ensures
        views(final(v)@) == take_at_most(views(old(v)@), n as nat),
{
    if v.len() > n {
        v.truncate(n);
        assert(views(v@) =~= views(old(v)@).take(n as int));
    }
}

/// The views of a list of candidate lists.
pub open spec fn nested_views(v: Seq<Vec<String>>) -> Seq<Seq<Seq<char>>> {
    v.map_values(|x: Vec<String>| views(x@))
}

/// Whether some run has two candidates or more (then the results are
/// multiplied, capped at twice the limit).
pub open spec fn has_multi(runs: Seq<Seq<Seq<char>>>) -> bool {
    exists|i: int| 0 <= i < runs.len() && (#[trigger] runs[i]).len() >= 2
}

/// The candidates of a whole reading from the candidates of its runs; see
/// `spec_combine_runs` (`[2024, ２０２４]` then `[年, ねん]` give `2024年`,
/// `2024ねん`, `２０２４年`, `２０２４ねん`).
pub fn combine_runs(run_candidates: &[Vec<String>], limit: usize) -> (r: Vec<String>)
    requires
        limit <= usize::MAX / 2 || !has_multi(nested_views(run_candidates@)),
    ensures
        views(r@) == spec_combine_runs(nested_views(run_candidates@), limit as nat),
{
    if run_candidates.len() == 0 {
        return Vec::new();
    }
    let ghost runs = nested_views(run_candidates@);
    let mut results: Vec<String> = Vec::new();
    results.push(String::new());
    assert(views(results@) =~= seq![Seq::<char>::empty()]);
    let mut k: usize = 0;
    while k < run_candidates.len()
        invariant
            k <= run_candidates.len(),
            runs == nested_views(run_candidates@),
            limit <= usize::MAX / 2 || !has_multi(runs),
            views(results@) == combine_fold(runs.take(k as int), limit as nat),
        decreases run_candidates.len() - k,
    {
        let cands = &run_candidates[k];
        assert(runs.take(k + 1).drop_last() == runs.take(k as int));
        assert(runs.take(k + 1).last() == views(cands@));
        if cands.len() == 0 {
        } else if cands.len() == 1 {
            results = append_each(&results, &cands[0]);
        } else {
            assert(runs[k as int].len() >= 2);
            let cap: usize = if limit == 0 {
                1
            } else {
                limit * 2
            };
            results = product_capped(&results, cands, cap);
        }
        k = k + 1;
    }
    assert(runs.take(run_candidates@.len() as int) == runs);
    truncate_strings(&mut results, limit);
    results
}

// ─── protecting literals during conversion ──────────────────────────────────

/// The context handed to the model for the kana run at `kana_index`: the
/// global context, then (after `…` when the context is not empty) the text of
/// the literal run just before it.
pub open spec fn spec_local_context(runs: Seq<Run>, kana_index: int, global: Seq<char>) -> Seq<
    char,
> {
    if kana_index > 0 && kana_index - 1 < runs.len() && runs[kana_index - 1].kind()
        != CharKind::Kana {
        if global.len() > 0 {
            global + seq!['\u{2026}'] + runs[kana_index - 1].text_of()
        } else {
            global + runs[kana_index - 1].text_of()
        }
    } else {
        global
    }
}

pub fn build_local_context(runs: &[Run], kana_index: usize, global_context: &str) -> (r: String)
    ensures
        r@ == spec_local_context(runs@, kana_index as int, global_context@),
{
    let mut ctx = global_context.to_owned();
    if kana_index > 0 && kana_index - 1 < runs.len() {
        let run = &runs[kana_index - 1];
        if run.is_literal() {
            if !ctx.as_str().is_empty() {
                crate::text::push_char(&mut ctx, '\u{2026}');
            }
            crate::text::push_str(&mut ctx, run.text());
        }
    }
    ctx
}

/// The first step of converting a reading with literal protection.
pub enum DigitProtection {
    /// The reading has no literal: convert it whole, with the caller's context.
    Whole,
    /// The reading is only literals: these are its candidates.
    Literal(Vec<String>),
    /// Literals and kana mixed: convert each kana run (see `kana_requests`) and
    /// hand the results to `assemble_protected_candidates`.
    Runs(Vec<Run>),
}

pub open spec fn pairs_no_literal(ps: Seq<(CharKind, Seq<char>)>) -> bool {
    forall|i: int| 0 <= i < ps.len() ==> (#[trigger] ps[i]).0 == CharKind::Kana
}

pub open spec fn pairs_all_literal(ps: Seq<(CharKind, Seq<char>)>) -> bool {
    forall|i: int| 0 <= i < ps.len() ==> (#[trigger] ps[i]).0 != CharKind::Kana
}

pub open spec fn pairs_all_kind(ps: Seq<(CharKind, Seq<char>)>, k: CharKind) -> bool {
    forall|i: int| 0 <= i < ps.len() ==> (#[trigger] ps[i]).0 == k
}

/// The candidates of a reading made only of literal runs: a numeric literal
/// (or digits only) gets the digit candidates, only letters the letter
/// candidates, only symbols the symbol candidates, and a mix the combined
/// halfwidth/fullwidth forms of its runs.
pub open spec fn spec_all_literal_candidates(
    reading: Seq<char>,
    ps: Seq<(CharKind, Seq<char>)>,
    num_candidates: nat,
    order: Seq<DigitCandidateKind>,
    alpha_fullwidth_first: bool,
    symbol_fullwidth_first: bool,
) -> Seq<Seq<char>> {
    if pairs_all_kind(ps, CharKind::Digit) || spec_normalize_numeric_literal(reading) is Some {
        spec_digit_candidates(reading, order)
    } else if pairs_all_kind(ps, CharKind::Alpha) {
        spec_alpha_candidates(reading, alpha_fullwidth_first)
    } else if pairs_all_kind(ps, CharKind::Symbol) {
        spec_symbol_candidates(reading, symbol_fullwidth_first)
    } else {
        spec_combine_runs(
            half_full_table(ps, alpha_fullwidth_first, symbol_fullwidth_first),
            num_candidates,
        )
    }
}

/// The halfwidth/fullwidth candidates of each run, run by run.
pub open spec fn half_full_table(
    ps: Seq<(CharKind, Seq<char>)>,
    alpha_fullwidth_first: bool,
    symbol_fullwidth_first: bool,
) -> Seq<Seq<Seq<char>>> {
    Seq::new(
        ps.len(),
        |i: int|
            spec_half_full_kind_candidates(
                ps[i].0,
                ps[i].1,
                alpha_fullwidth_first,
                symbol_fullwidth_first,
            ),
    )
}

fn runs_all_kind(runs: &Vec<Run>, k: CharKind) -> (b: bool)
    ensures
        b == pairs_all_kind(run_pairs(runs@), k),
{
    let mut i: usize = 0;
    while i < runs.len()
        invariant
            i <= runs.len(),
            forall|j: int| 0 <= j < i ==> (#[trigger] runs@[j]).kind() == k,
        decreases runs.len() - i,
    {
        let rk = match &runs[i] {
            Run::Digit(_) => CharKind::Digit,
            Run::Alpha(_) => CharKind::Alpha,
            Run::Symbol(_) => CharKind::Symbol,
            Run::Kana(_) => CharKind::Kana,
        };
        if rk != k {
            assert(run_pairs(runs@)[i as int].0 != k);
            return false;
        }
        i = i + 1;
    }
    assert forall|j: int| 0 <= j < run_pairs(runs@).len() implies (#[trigger] run_pairs(
        runs@,
    )[j]).0 == k by {
        assert(runs@[j].kind() == k);
    }
    true
}

fn runs_all_literal(runs: &Vec<Run>) -> (b: bool)
    ensures
        b == pairs_all_literal(run_pairs(runs@)),
{
    let mut i: usize = 0;
    while i < runs.len()
        invariant
            i <= runs.len(),
            forall|j: int| 0 <= j < i ==> (#[trigger] runs@[j]).kind() != CharKind::Kana,
        decreases runs.len() - i,
    {
        if !runs[i].is_literal() {
            assert(run_pairs(runs@)[i as int].0 == CharKind::Kana);
            return false;
        }
        i = i + 1;
    }
    assert forall|j: int| 0 <= j < run_pairs(runs@).len() implies (#[trigger] run_pairs(
        runs@,
    )[j]).0 != CharKind::Kana by {
        assert(runs@[j].kind() != CharKind::Kana);
    }
    true
}

fn mixed_literal_candidates(
    runs: &Vec<Run>,
    num_candidates: usize,
    alpha_fullwidth_first: bool,
    symbol_fullwidth_first: bool,
) -> (r: Vec<String>)
    requires
        num_candidates <= usize::MAX / 2 || !has_multi(
            half_full_table(run_pairs(runs@), alpha_fullwidth_first, symbol_fullwidth_first),
        ),
        pairs_all_literal(run_pairs(runs@)),
    ensures
        views(r@) == spec_combine_runs(
            half_full_table(run_pairs(runs@), alpha_fullwidth_first, symbol_fullwidth_first),
            num_candidates as nat,
        ),
{
    let ghost table = half_full_table(
        run_pairs(runs@),
        alpha_fullwidth_first,
        symbol_fullwidth_first,
    );
    let mut per_run: Vec<Vec<String>> = Vec::new();
    let mut i: usize = 0;
    while i < runs.len()
        invariant
            i <= runs.len(),
            per_run.len() == i,
            pairs_all_literal(run_pairs(runs@)),
            table == half_full_table(run_pairs(runs@), alpha_fullwidth_first, symbol_fullwidth_first),
            forall|j: int| 0 <= j < i ==> views(#[trigger] per_run@[j]@) == table[j],
        decreases runs.len() - i,
    {
        assert(run_pairs(runs@)[i as int].0 != CharKind::Kana);
        let cands = half_full_literal_candidates(
            &runs[i],
            alpha_fullwidth_first,
            symbol_fullwidth_first,
        );
        assert(views(cands@) == table[i as int]);
        per_run.push(cands);
        i = i + 1;
    }
    assert(nested_views(per_run@) =~= table);
    combine_runs(per_run.as_slice(), num_candidates)
}

/// Whether a reading of literals only is a mix whose halfwidth/fullwidth
/// forms are multiplied (see `spec_all_literal_candidates`).
pub open spec fn literal_mix_multiplies(
    reading: Seq<char>,
    alpha_fullwidth_first: bool,
    symbol_fullwidth_first: bool,
) -> bool {
    let ps = spec_split_runs(reading);
    &&& pairs_all_literal(ps)
    &&& !pairs_no_literal(ps)
    &&& !(pairs_all_kind(ps, CharKind::Digit) || spec_normalize_numeric_literal(reading) is Some)
    &&& !pairs_all_kind(ps, CharKind::Alpha)
    &&& !pairs_all_kind(ps, CharKind::Symbol)
    &&& has_multi(half_full_table(ps, alpha_fullwidth_first, symbol_fullwidth_first))
}

/// Decides how a reading is converted under literal protection: whole when it
/// has no literal, by its literal candidates when it has only literals, run by
/// run otherwise.
#[verifier::rlimit(80)]
#[verifier::spinoff_prover]
pub fn plan_digit_protection(
    reading: &str,
    num_candidates: usize,
    digit_candidates_order: &[DigitCandidateKind],
    alpha_fullwidth_first: bool,
    symbol_fullwidth_first: bool,
) -> (p: DigitProtection)
    requires
        num_candidates <= usize::MAX / 2 || !literal_mix_multiplies(
            reading@,
            alpha_fullwidth_first,
            symbol_fullwidth_first,
        ),
    ensures
        match p {
            DigitProtection::Whole => pairs_no_literal(spec_split_runs(reading@)),
            DigitProtection::Literal(c) => pairs_all_literal(spec_split_runs(reading@))
                && !pairs_no_literal(spec_split_runs(reading@)) && views(c@)
                == spec_all_literal_candidates(
                reading@,
                spec_split_runs(reading@),
                num_candidates as nat,
                digit_candidates_order@,
                alpha_fullwidth_first,
                symbol_fullwidth_first,
            ),
            DigitProtection::Runs(runs) => run_pairs(runs@) == spec_split_runs(reading@)
                && !pairs_no_literal(spec_split_runs(reading@)) && !pairs_all_literal(
                spec_split_runs(reading@),
            ),
        },
{
    let runs = split_by_digits(reading);
    let ghost ps = run_pairs(runs@);
    if runs_all_kind(&runs, CharKind::Kana) {
        return DigitProtection::Whole;
    }
    if runs_all_literal(&runs) {
        let c = if runs_all_kind(&runs, CharKind::Digit) || normalize_numeric_literal(
            reading,
        ).is_some() {
            digit_candidates(reading, digit_candidates_order)
        } else if runs_all_kind(&runs, CharKind::Alpha) {
            alpha_candidates(reading, alpha_fullwidth_first)
        } else if runs_all_kind(&runs, CharKind::Symbol) {
            symbol_candidates(reading, symbol_fullwidth_first)
        } else {
            mixed_literal_candidates(&runs, num_candidates, alpha_fullwidth_first, symbol_fullwidth_first)
        };
        return DigitProtection::Literal(c);
    }
    DigitProtection::Runs(runs)
}


/// What the converter is asked for each run of a mixed reading: for a kana run
/// its text and its local context (see `spec_local_context`), for a literal run
/// nothing.
pub fn kana_requests(runs: &Vec<Run>, context: &str) -> (r: Vec<Option<(String, String)>>)
    ensures
        r.len() == runs.len(),
        forall|i: int|
            0 <= i < runs.len() ==> match #[trigger] r@[i] {
                Some(q) => runs@[i].kind() == CharKind::Kana && q.0@ == runs@[i].text_of() && q.1@
                    == spec_local_context(runs@, i, context@),
                None => runs@[i].kind() != CharKind::Kana,
            },
{
    let mut r: Vec<Option<(String, String)>> = Vec::new();
    let mut i: usize = 0;
    while i < runs.len()
        invariant
            i <= runs.len(),
            r.len() == i,
            forall|j: int|
                0 <= j < i ==> match #[trigger] r@[j] {
                    Some(q) => runs@[j].kind() == CharKind::Kana && q.0@ == runs@[j].text_of()
                        && q.1@ == spec_local_context(runs@, j, context@),
                    None => runs@[j].kind() != CharKind::Kana,
                },
        decreases runs.len() - i,
    {
        if runs[i].is_literal() {
            r.push(None);
        } else {
            let text = crate::text::owned(runs[i].text());
            let ctx = build_local_context(runs.as_slice(), i, context);
            r.push(Some((text, ctx)));
        }
        i = i + 1;
    }
    r
}

/// The candidates of `cs` whose digits (see `spec_extract_digits`) are those of
/// `reading`, in their order.
pub open spec fn digits_preserving(reading: Seq<char>, cs: Seq<Seq<char>>) -> Seq<Seq<char>>
    decreases cs.len(),
{
    if cs.len() == 0 {
        seq![]
    } else {
        let rest = digits_preserving(reading, cs.drop_last());
        if spec_extract_digits(cs.last()) == spec_extract_digits(reading) {
            rest.push(cs.last())
        } else {
            rest
        }
    }
}

/// `digits_preserving` keeps exactly the candidates whose digits match.
pub proof fn lemma_digits_preserving(reading: Seq<char>, cs: Seq<Seq<char>>)
    ensures
        digits_preserving(reading, cs).len() <= cs.len(),
        forall|i: int|
            0 <= i < digits_preserving(reading, cs).len() ==> spec_extract_digits(
                #[trigger] digits_preserving(reading, cs)[i],
            ) == spec_extract_digits(reading),
        forall|i: int|
            0 <= i < cs.len() && spec_extract_digits(#[trigger] cs[i]) == spec_extract_digits(
                reading,
            ) ==> digits_preserving(reading, cs).contains(cs[i]),
    decreases cs.len(),
{
    if cs.len() > 0 {
        let init = cs.drop_last();
        lemma_digits_preserving(reading, init);
        let rest = digits_preserving(reading, init);
        let out = digits_preserving(reading, cs);
        assert forall|i: int|
            0 <= i < cs.len() && spec_extract_digits(#[trigger] cs[i]) == spec_extract_digits(
                reading,
            ) implies out.contains(cs[i]) by {
            if i == cs.len() - 1 {
                assert(out[out.len() - 1] == cs[i]);
            } else {
                assert(init[i] == cs[i]);
                let j = choose|j: int| 0 <= j < rest.len() && rest[j] == init[i];
                assert(out[j] == cs[i]);
            }
        }
    }
}

/// The candidate table of a mixed reading: the converter's candidates for each
/// kana run, the literal candidates for each literal run.
pub open spec fn protected_table(
    runs: Seq<Run>,
    converted: Seq<Seq<Seq<char>>>,
    order: Seq<DigitCandidateKind>,
    alpha_fullwidth_first: bool,
    symbol_fullwidth_first: bool,
) -> Seq<Seq<Seq<char>>> {
    Seq::new(
        runs.len(),
        |i: int|
            if runs[i].kind() == CharKind::Kana {
                converted[i]
            } else {
                spec_literal_candidates(
                    runs[i],
                    order,
                    alpha_fullwidth_first,
                    symbol_fullwidth_first,
                )
            },
    )
}

/// The candidates of a mixed reading: the combinations of the run candidates
/// that keep the reading's digits, or the reading itself when none does.
pub open spec fn spec_protected_candidates(
    reading: Seq<char>,
    runs: Seq<Run>,
    converted: Seq<Seq<Seq<char>>>,
    num_candidates: nat,
    order: Seq<DigitCandidateKind>,
    alpha_fullwidth_first: bool,
    symbol_fullwidth_first: bool,
) -> Seq<Seq<char>> {
    let kept = digits_preserving(
        reading,
        spec_combine_runs(
            protected_table(runs, converted, order, alpha_fullwidth_first, symbol_fullwidth_first),
            num_candidates,
        ),
    );
    if kept.len() == 0 {
        seq![reading]
    } else {
        kept
    }
}

/// Puts the candidates of a mixed reading together from the converter's answers
/// (`converted[i]` for each kana run `i`; the entries of literal runs are not
/// read).
#[verifier::rlimit(40)]
#[verifier::spinoff_prover]
pub fn assemble_protected_candidates(
    reading: &str,
    runs: &Vec<Run>,
    converted: &[Vec<String>],
    num_candidates: usize,
    digit_candidates_order: &[DigitCandidateKind],
    alpha_fullwidth_first: bool,
    symbol_fullwidth_first: bool,
) -> (r: Vec<String>)
    requires
        converted.len() == runs.len(),
        num_candidates <= usize::MAX / 2 || !has_multi(
            protected_table(
                runs@,
                nested_views(converted@),
                digit_candidates_order@,
                alpha_fullwidth_first,
                symbol_fullwidth_first,
            ),
        ),
    ensures
        views(r@) == spec_protected_candidates(
            reading@,
            runs@,
            nested_views(converted@),
            num_candidates as nat,
            digit_candidates_order@,
            alpha_fullwidth_first,
            symbol_fullwidth_first,
        ),
{
    let ghost table = protected_table(
        runs@,
        nested_views(converted@),
        digit_candidates_order@,
        alpha_fullwidth_first,
        symbol_fullwidth_first,
    );
    let mut per_run: Vec<Vec<String>> = Vec::new();
    let mut i: usize = 0;
    while i < runs.len()
        invariant
            i <= runs.len(),
            per_run.len() == i,
            converted.len() == runs.len(),
            table == protected_table(
                runs@,
                nested_views(converted@),
                digit_candidates_order@,
                alpha_fullwidth_first,
                symbol_fullwidth_first,
            ),
            forall|j: int| 0 <= j < i ==> views(#[trigger] per_run@[j]@) == table[j],
        decreases runs.len() - i,
    {
        if runs[i].is_literal() {
            let c = literal_candidates(
                &runs[i],
                digit_candidates_order,
                alpha_fullwidth_first,
                symbol_fullwidth_first,
            );
            per_run.push(c);
        } else {
            let c = converted[i].clone();
            assert(views(c@) == nested_views(converted@)[i as int]);
            per_run.push(c);
        }
        i = i + 1;
    }
    assert(nested_views(per_run@) =~= table);
    let combined = combine_runs(per_run.as_slice(), num_candidates);
    let ghost cs = views(combined@);
    let mut kept: Vec<String> = Vec::new();
    let mut k: usize = 0;
    while k < combined.len()
        invariant
            k <= combined.len(),
            cs == views(combined@),
            views(kept@) == digits_preserving(reading@, cs.take(k as int)),
        decreases combined.len() - k,
    {
        assert(cs.take(k + 1).drop_last() =~= cs.take(k as int));
        if verify_digits_preserved(reading, combined[k].as_str()) {
            let c = combined[k].clone();
            kept.push(c);
            assert(views(kept@) =~= digits_preserving(reading@, cs.take(k + 1)));
        }
        k = k + 1;
    }
    assert(cs.take(combined.len() as int) =~= cs);
    if kept.len() == 0 {
        let mut only: Vec<String> = Vec::new();
        only.push(crate::text::owned(reading));
        assert(views(only@) =~= seq![reading@]);
        only
    } else {
        kept
    }
}

/// Every candidate that literal protection yields keeps the digits of the
/// reading, and there is always at least one.
pub proof fn lemma_protected_candidates_keep_digits(
    reading: Seq<char>,
    runs: Seq<Run>,
    converted: Seq<Seq<Seq<char>>>,
    num_candidates: nat,
    order: Seq<DigitCandidateKind>,
    alpha_fullwidth_first: bool,
    symbol_fullwidth_first: bool,
)
    ensures
        ({
            let r = spec_protected_candidates(
                reading,
                runs,
                converted,
                num_candidates,
                order,
                alpha_fullwidth_first,
                symbol_fullwidth_first,
            );
            &&& r.len() > 0
            &&& forall|i: int|
                0 <= i < r.len() ==> spec_extract_digits(#[trigger] r[i]) == spec_extract_digits(
                    reading,
                )
        }),
{
    lemma_digits_preserving(
        reading,
        spec_combine_runs(
            protected_table(runs, converted, order, alpha_fullwidth_first, symbol_fullwidth_first),
            num_candidates,
        ),
    );
}

// ─── candidates with notes ──────────────────────────────────────────────────

pub open spec fn candidate_view(c: crate::segments::Candidate) -> (
    Seq<char>,
    crate::segments::CandidateSource,
    Option<Seq<char>>,
) {
    (c.surface@, c.source, match c.annotation {
        Some(a) => Some(a@),
        None => None,
    })
}

pub open spec fn candidates_view(v: Seq<crate::segments::Candidate>) -> Seq<
    (Seq<char>, crate::segments::CandidateSource, Option<Seq<char>>),
> {
    v.map_values(|c: crate::segments::Candidate| candidate_view(c))
}

/// Halfwidth and fullwidth forms as literal candidates noted `半角` and `全角`
/// (one unnoted candidate when they are the same).
pub open spec fn annotated_pair(half: Seq<char>, full: Seq<char>) -> Seq<
    (Seq<char>, crate::segments::CandidateSource, Option<Seq<char>>),
> {
    if half == full {
        seq![(half, crate::segments::CandidateSource::Literal, None)]
    } else {
        seq![
            (half, crate::segments::CandidateSource::Literal, Some("\u{534A}\u{89D2}"@)),
            (full, crate::segments::CandidateSource::Literal, Some("\u{5168}\u{89D2}"@)),
        ]
    }
}

fn annotated_pair_of(half: String, full: String) -> (r: Vec<crate::segments::Candidate>)
    ensures
        candidates_view(r@) == annotated_pair(half@, full@),
{
    let mut r: Vec<crate::segments::Candidate> = Vec::new();
    if str_eq(half.as_str(), full.as_str()) {
        r.push(
            crate::segments::Candidate {
                surface: half,
                source: crate::segments::CandidateSource::Literal,
                annotation: None,
            },
        );
    } else {
        r.push(
            crate::segments::Candidate {
                surface: half,
                source: crate::segments::CandidateSource::Literal,
                annotation: Some("\u{534A}\u{89D2}".to_owned()),
            },
        );
        r.push(
            crate::segments::Candidate {
                surface: full,
                source: crate::segments::CandidateSource::Literal,
                annotation: Some("\u{5168}\u{89D2}".to_owned()),
            },
        );
    }
    assert(candidates_view(r@) =~= annotated_pair(half@, full@));
    r
}

/// The letter candidates with their notes.
pub fn alpha_candidate_structs(s: &str) -> (r: Vec<crate::segments::Candidate>)
    ensures
        candidates_view(r@) == annotated_pair(
            s@.map_values(|c: char| spec_halfwidth_alpha(c)),
            s@.map_values(|c: char| spec_fullwidth_alpha(c)),
        ),
{
    annotated_pair_of(to_halfwidth_alpha(s), to_fullwidth_alpha(s))
}

/// The symbol candidates with their notes (the halfwidth and fullwidth forms).
pub fn symbol_candidate_structs(s: &str) -> (r: Vec<crate::segments::Candidate>)
    ensures
        candidates_view(r@) == annotated_pair(
            s@.map_values(|c: char| spec_halfwidth_symbol(c)),
            s@.map_values(|c: char| spec_fullwidth_symbol(c)),
        ),
{
    annotated_pair_of(to_halfwidth_symbol(s), to_fullwidth_symbol(s))
}

/// The note of each kind of digit candidate.
pub open spec fn kind_annotation(kind: DigitCandidateKind) -> Seq<char> {
    match kind {
        DigitCandidateKind::Arabic => "\u{534A}\u{89D2}"@,
        DigitCandidateKind::Fullwidth => "\u{5168}\u{89D2}"@,
        DigitCandidateKind::Positional => "\u{6F22}\u{6570}\u{5B57}"@,
        DigitCandidateKind::PerDigit => "\u{6841}\u{4E26}\u{3073}\u{6F22}\u{6570}\u{5B57}"@,
        DigitCandidateKind::Daiji => "\u{5927}\u{5B57}"@,
    }
}

pub open spec fn has_surface(
    acc: Seq<(Seq<char>, crate::segments::CandidateSource, Option<Seq<char>>)>,
    v: Seq<char>,
) -> bool {
    exists|i: int| 0 <= i < acc.len() && (#[trigger] acc[i]).0 == v
}

/// The digit candidates of the kinds in `order`, each with its kind's note,
/// surfaces not repeated.
pub open spec fn digit_structs_for(order: Seq<DigitCandidateKind>, n: Seq<char>) -> Seq<
    (Seq<char>, crate::segments::CandidateSource, Option<Seq<char>>),
>
    decreases order.len(),
{
    if order.len() == 0 {
        seq![]
    } else {
        let acc = digit_structs_for(order.drop_last(), n);
        match digit_candidate(order.last(), n) {
            Some(v) => if has_surface(acc, v) {
                acc
            } else {
                acc.push(
                    (v, crate::segments::CandidateSource::Digit, Some(kind_annotation(order.last()))),
                )
            },
            None => acc,
        }
    }
}

fn kind_note(kind: DigitCandidateKind) -> (s: String)
    ensures
        s@ == kind_annotation(kind),
{
    match kind {
        DigitCandidateKind::Arabic => "\u{534A}\u{89D2}".to_owned(),
        DigitCandidateKind::Fullwidth => "\u{5168}\u{89D2}".to_owned(),
        DigitCandidateKind::Positional => "\u{6F22}\u{6570}\u{5B57}".to_owned(),
        DigitCandidateKind::PerDigit => "\u{6841}\u{4E26}\u{3073}\u{6F22}\u{6570}\u{5B57}".to_owned(),
        DigitCandidateKind::Daiji => "\u{5927}\u{5B57}".to_owned(),
    }
}

fn push_digit_struct(
    acc: &mut Vec<crate::segments::Candidate>,
    v: String,
    kind: DigitCandidateKind,
)
    ensures
        candidates_view(final(acc)@) == (if has_surface(candidates_view(old(acc)@), v@) {
            candidates_view(old(acc)@)
        } else {
            candidates_view(old(acc)@).push(
                (v@, crate::segments::CandidateSource::Digit, Some(kind_annotation(kind))),
            )
        }),
{
    let ghost av = candidates_view(acc@);
    let mut i: usize = 0;
    while i < acc.len()
        invariant
            i <= acc.len(),
            av == candidates_view(acc@),
            forall|j: int| 0 <= j < i ==> (#[trigger] av[j]).0 != v@,
        decreases acc.len() - i,
    {
        assert(av[i as int].0 == acc@[i as int].surface@);
        if str_eq(acc[i].surface.as_str(), v.as_str()) {
            return;
        }
        i = i + 1;
    }
    let note = kind_note(kind);
    let c = crate::segments::Candidate {
        surface: v,
        source: crate::segments::CandidateSource::Digit,
        annotation: Some(note),
    };
    acc.push(c);
    assert(candidates_view(acc@) =~= av.push(candidate_view(c)));
}

/// The digit candidates with their notes (see `digit_structs_for`).
pub fn digit_candidate_structs(s: &str, order: &[DigitCandidateKind]) -> (r: Vec<
    crate::segments::Candidate,
>)
    ensures
        candidates_view(r@) == digit_structs_for(
            spec_effective_order(order@),
            match spec_normalize_numeric_literal(s@) {
                Some(x) => x,
                None => s@,
            },
        ),
{
    let normalized = match normalize_numeric_literal(s) {
        Some(x) => x,
        None => s.to_owned(),
    };
    let half = to_halfwidth_digits(normalized.as_str());
    let full = to_fullwidth_digits(normalized.as_str());
    let kanji = to_per_digit_kanji(normalized.as_str());
    let kinds = effective_digit_candidates_order(order);
    let ghost n = normalized@;
    let mut candidates: Vec<crate::segments::Candidate> = Vec::new();
    let mut i: usize = 0;
    while i < kinds.len()
        invariant
            i <= kinds.len(),
            normalized@ == n,
            half@ == n.map_values(|c: char| spec_halfwidth_digit(c)),
            full@ == n.map_values(|c: char| spec_fullwidth_digit(c)),
            kanji@ == spec_per_digit_kanji(n),
            candidates_view(candidates@) == digit_structs_for(kinds@.take(i as int), n),
        decreases kinds.len() - i,
    {
        assert(kinds@.take(i + 1).drop_last() == kinds@.take(i as int));
        let k = kinds[i];
        match k {
            DigitCandidateKind::Arabic => push_digit_struct(&mut candidates, half.clone(), k),
            DigitCandidateKind::Fullwidth => push_digit_struct(&mut candidates, full.clone(), k),
            DigitCandidateKind::Positional => {
                if let Some(positional) = to_kanji_positional(normalized.as_str()) {
                    push_digit_struct(&mut candidates, positional, k);
                }
            },
            DigitCandidateKind::PerDigit => push_digit_struct(&mut candidates, kanji.clone(), k),
            DigitCandidateKind::Daiji => {
                if let Some(daiji) = to_daiji_positional(normalized.as_str()) {
                    push_digit_struct(&mut candidates, daiji, k);
                }
            },
        }
        i = i + 1;
    }
    assert(kinds@.take(kinds@.len() as int) == kinds@);
    candidates
}


// ─── letters and digits in both widths ──────────────────────────────────────

/// Splitting a text whose characters are all of one kind gives runs of that
/// kind only, at least one when the text is not empty.
proof fn lemma_split_runs_one_kind(s: Seq<char>, k: CharKind)
    requires
        forall|i: int| 0 <= i < s.len() ==> spec_classify_char(#[trigger] s[i]) == k,
    ensures
        pairs_all_kind(spec_split_runs(s), k),
        s.len() > 0 ==> spec_split_runs(s).len() > 0,
    decreases s.len(),
{
    if s.len() > 0 {
        let init = s.drop_last();
        assert forall|i: int| 0 <= i < init.len() implies spec_classify_char(#[trigger] init[i])
            == k by {
            assert(init[i] == s[i]);
        }
        lemma_split_runs_one_kind(init, k);
        assert(spec_classify_char(s.last()) == k) by {
            assert(s.last() == s[s.len() - 1]);
        }
        let prev = spec_split_runs(init);
        let r = spec_split_runs(s);
        assert forall|i: int| 0 <= i < r.len() implies (#[trigger] r[i]).0 == k by {
            if i < prev.len() && !(prev.len() > 0 && prev.last().0 == k && i == prev.len() - 1) {
                assert(r[i] == prev[i]);
            }
        }
    }
}

/// A Latin letter, halfwidth or fullwidth.
pub open spec fn spec_is_letter(c: char) -> bool {
    spec_is_ascii_alpha(c) || spec_is_fullwidth_upper(c) || spec_is_fullwidth_lower(c)
}

/// A reading of Latin letters only is offered in both widths: its candidates
/// are its halfwidth and its fullwidth form, in the configured order, and the
/// two differ.
pub proof fn lemma_letters_in_both_widths(
    reading: Seq<char>,
    num_candidates: nat,
    order: Seq<DigitCandidateKind>,
    alpha_fullwidth_first: bool,
    symbol_fullwidth_first: bool,
)
    requires
        reading.len() > 0,
        forall|i: int| 0 <= i < reading.len() ==> spec_is_letter(#[trigger] reading[i]),
    ensures
        ({
            let ps = spec_split_runs(reading);
            let half = reading.map_values(|c: char| spec_halfwidth_alpha(c));
            let full = reading.map_values(|c: char| spec_fullwidth_alpha(c));
            &&& pairs_all_literal(ps)
            &&& !pairs_no_literal(ps)
            &&& half != full
            &&& spec_all_literal_candidates(
                reading,
                ps,
                num_candidates,
                order,
                alpha_fullwidth_first,
                symbol_fullwidth_first,
            ) == (if alpha_fullwidth_first {
                seq![full, half]
            } else {
                seq![half, full]
            })
        }),
{
    assert forall|i: int| 0 <= i < reading.len() implies spec_classify_char(#[trigger] reading[i])
        == CharKind::Alpha by {
        assert(spec_is_letter(reading[i]));
        reveal(spec_classify_char);
    }
    lemma_split_runs_one_kind(reading, CharKind::Alpha);
    let ps = spec_split_runs(reading);
    assert(ps[0].0 == CharKind::Alpha);
    assert(!pairs_all_kind(ps, CharKind::Digit));
    assert(spec_normalize_numeric_literal(reading) is None) by {
        assert(!(exists|i: int|
            0 <= i < reading.len() && (spec_is_ascii_digit(reading[i]) || spec_is_fullwidth_digit(
                reading[i],
            )))) by {
            assert forall|i: int| 0 <= i < reading.len() implies !(spec_is_ascii_digit(reading[i])
                || spec_is_fullwidth_digit(reading[i])) by {
                assert(spec_is_letter(reading[i]));
            }
        }
    }
    let half = reading.map_values(|c: char| spec_halfwidth_alpha(c));
    let full = reading.map_values(|c: char| spec_fullwidth_alpha(c));
    let c = reading[0];
    assert(spec_is_letter(c));
    let h = spec_halfwidth_alpha(c);
    let f = spec_fullwidth_alpha(c);
    assert((h as u32) < 0x80 && (f as u32) >= 0xFF21) by {
        vstd::utf8::char_u32_cast(c, c as u32);
        if spec_is_ascii_alpha(c) {
            assert(h == c);
            assert(((c as u32) + 0xFEE0) as u32 as char as u32 == (c as u32) + 0xFEE0);
        } else {
            assert(f == c);
            assert(((c as u32) - 0xFEE0) as u32 as char as u32 == (c as u32) - 0xFEE0);
        }
    }
    assert(half[0] != full[0]);
}


proof fn lemma_push_unique_prefix(acc: Seq<Seq<char>>, v: Seq<char>)
    ensures
        push_unique_spec(acc, v).len() >= acc.len(),
        forall|i: int| 0 <= i < acc.len() ==> push_unique_spec(acc, v)[i] == acc[i],
{
}

/// With halfwidth then fullwidth first in the order, a literal's digit
/// candidates start with its halfwidth and its fullwidth form.
proof fn lemma_digit_candidates_head(order: Seq<DigitCandidateKind>, n: Seq<char>)
    requires
        order.len() >= 2,
        order[0] == DigitCandidateKind::Arabic,
        order[1] == DigitCandidateKind::Fullwidth,
        n.map_values(|c: char| spec_halfwidth_digit(c)) != n.map_values(
            |c: char| spec_fullwidth_digit(c),
        ),
    ensures
        digit_candidates_for(order, n).len() >= 2,
        digit_candidates_for(order, n)[0] == n.map_values(|c: char| spec_halfwidth_digit(c)),
        digit_candidates_for(order, n)[1] == n.map_values(|c: char| spec_fullwidth_digit(c)),
    decreases order.len(),
{
    let init = order.drop_last();
    if order.len() == 2 {
        assert(init.drop_last().len() == 0);
        assert(init.last() == DigitCandidateKind::Arabic);
        assert(order.last() == DigitCandidateKind::Fullwidth);
        let half = n.map_values(|c: char| spec_halfwidth_digit(c));
        assert(digit_candidates_for(init, n) == seq![half]) by {
            assert(digit_candidates_for(init.drop_last(), n) == Seq::<Seq<char>>::empty());
            assert(!Seq::<Seq<char>>::empty().contains(half));
        }
    } else {
        assert(init[0] == order[0] && init[1] == order[1]);
        lemma_digit_candidates_head(init, n);
        let acc = digit_candidates_for(init, n);
        match digit_candidate(order.last(), n) {
            Some(v) => lemma_push_unique_prefix(acc, v),
            None => {},
        }
    }
}

/// A reading of ASCII digits only is offered in both widths under the default
/// order: its first candidates are the digits as typed and their fullwidth
/// form, and the two differ.
pub proof fn lemma_digits_in_both_widths(
    reading: Seq<char>,
    num_candidates: nat,
    alpha_fullwidth_first: bool,
    symbol_fullwidth_first: bool,
)
    requires
        reading.len() > 0,
        forall|i: int| 0 <= i < reading.len() ==> spec_is_ascii_digit(#[trigger] reading[i]),
    ensures
        ({
            let ps = spec_split_runs(reading);
            let c = spec_all_literal_candidates(
                reading,
                ps,
                num_candidates,
                seq![],
                alpha_fullwidth_first,
                symbol_fullwidth_first,
            );
            &&& pairs_all_literal(ps)
            &&& !pairs_no_literal(ps)
            &&& c.len() >= 2
            &&& c[0] == reading
            &&& c[1] == reading.map_values(|x: char| spec_fullwidth_digit(x))
            &&& c[0] != c[1]
        }),
{
    assert forall|i: int| 0 <= i < reading.len() implies spec_classify_char(#[trigger] reading[i])
        == CharKind::Digit by {
        reveal(spec_classify_char);
    }
    lemma_split_runs_one_kind(reading, CharKind::Digit);
    let ps = spec_split_runs(reading);
    assert(ps[0].0 == CharKind::Digit);
    assert(spec_normalize_numeric_literal(reading) == Some(reading)) by {
        assert(spec_is_ascii_digit(reading[0]));
        assert forall|i: int| 0 <= i < reading.len() implies (#[trigger] spec_normalize_numeric_char(
            reading[i],
        )) is Some by {
            assert(spec_is_ascii_digit(reading[i]));
        }
        assert(reading.map_values(|c: char| spec_normalize_numeric_char(c)->0) =~= reading);
    }
    let half = reading.map_values(|c: char| spec_halfwidth_digit(c));
    let full = reading.map_values(|c: char| spec_fullwidth_digit(c));
    assert(half =~= reading) by {
        assert forall|i: int| 0 <= i < reading.len() implies half[i] == reading[i] by {
            assert(spec_is_ascii_digit(reading[i]));
        }
    }
    let c0 = reading[0];
    assert(spec_is_ascii_digit(c0));
    assert((full[0] as u32) >= 0xFF10) by {
        assert(((c0 as u32) + 0xFEE0) as u32 as char as u32 == (c0 as u32) + 0xFEE0);
    }
    assert(half != full) by {
        assert(half[0] == c0);
    }
    let order = spec_default_digit_candidates_order();
    assert(spec_effective_order(seq![]) == order);
    lemma_digit_candidates_head(order, reading);
}

} // verus!
