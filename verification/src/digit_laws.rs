//! Laws of the digit and symbol candidates: the candidates of a reading are
//! the row-major cartesian product of its runs' candidates, cut at the limit;
//! kanji numerals read back as the digits they were written for; the width
//! forms offered for a symbol agree with F9 and F10.
use vstd::prelude::*;

use crate::digits::{
    combine_fold, combine_step, lemma_product_prefix, product, product_cap, spec_combine_runs,
    any_digit_value, extra_pair_of, spec_digit_to_per_digit_kanji, spec_kanji_to_digit, spec_symbol_candidates, take_at_most,
};
use crate::text::{spec_is_ascii_digit, spec_is_ascii_graphic, spec_is_fullwidth_digit};
use crate::text_util::{latin_fullwidth_char, spec_fullwidth_symbol_to_ascii};
use crate::numerals::{daiji_digit, digit_char, kanji_digit};

verus! {

/// Every way of taking one candidate from each non-empty run, joined in run
/// order, the earlier runs varying slowest (one empty string when no run has
/// a candidate).
pub open spec fn cartesian(runs: Seq<Seq<Seq<char>>>) -> Seq<Seq<char>>
    decreases runs.len(),
{
    if runs.len() == 0 {
        seq![seq![]]
    } else if runs.last().len() == 0 {
        cartesian(runs.drop_last())
    } else {
        product(cartesian(runs.drop_last()), runs.last())
    }
}

proof fn lemma_product_len(rs: Seq<Seq<char>>, cs: Seq<Seq<char>>)
    requires
        cs.len() >= 1,
    ensures
        product(rs, cs).len() >= rs.len(),
    decreases rs.len(),
{
    if rs.len() > 0 {
        lemma_product_len(rs.drop_last(), cs);
    }
}

proof fn lemma_product_single(rs: Seq<Seq<char>>, c: Seq<char>)
    ensures
        product(rs, seq![c]) == rs.map_values(|r: Seq<char>| r + c),
    decreases rs.len(),
{
    if rs.len() > 0 {
        lemma_product_single(rs.drop_last(), c);
        let f = |r: Seq<char>| r + c;
        assert(seq![c].map_values(|x: Seq<char>| rs.last() + x) =~= seq![rs.last() + c]);
        assert(rs.drop_last().map_values(f).push(f(rs.last())) =~= rs.map_values(f));
    }
}

/// Cutting the partial results before a product changes nothing of the
/// product's first `n` results.
proof fn lemma_product_cut(rs: Seq<Seq<char>>, cs: Seq<Seq<char>>, n: nat)
    requires
        cs.len() >= 1,
        n >= 1,
    ensures
        take_at_most(product(take_at_most(rs, n), cs), n) == take_at_most(product(rs, cs), n),
{
    if rs.len() > n {
        let t = rs.take(n as int);
        lemma_product_prefix(rs, cs, n as int);
        lemma_product_len(t, cs);
        let a = product(t, cs);
        let p = product(rs, cs);
        assert(p.take(a.len() as int) == a);
        assert(a.take(n as int) =~= p.take(n as int));
        if a.len() == n {
            assert(a.take(n as int) =~= a);
        }
    }
}

proof fn lemma_fold_is_cut_cartesian(runs: Seq<Seq<Seq<char>>>, limit: nat)
    ensures
        combine_fold(runs, limit) == take_at_most(cartesian(runs), product_cap(limit)),
    decreases runs.len(),
{
    let cap = product_cap(limit);
    if runs.len() > 0 {
        let init = runs.drop_last();
        let cs = runs.last();
        lemma_fold_is_cut_cartesian(init, limit);
        let f = cartesian(init);
        let acc = combine_fold(init, limit);
        assert(combine_fold(runs, limit) == combine_step(acc, cs, limit));
        if cs.len() == 1 {
            let g = |r: Seq<char>| r + cs[0];
            assert(cs =~= seq![cs[0]]);
            lemma_product_single(f, cs[0]);
            if f.len() > cap {
                assert(f.take(cap as int).map_values(g) =~= f.map_values(g).take(cap as int));
            }
        } else if cs.len() >= 2 {
            lemma_product_cut(f, cs, cap);
        }
    } else {
        assert(take_at_most(cartesian(runs), cap) == cartesian(runs));
    }
}

/// The candidates of a reading are the first `limit` of the row-major
/// cartesian product of its runs' candidates (runs without candidates are
/// skipped); no runs give no candidates.
pub proof fn lemma_combine_runs_is_cartesian(runs: Seq<Seq<Seq<char>>>, limit: nat)
    ensures
        spec_combine_runs(runs, limit) == (if runs.len() == 0 {
            Seq::<Seq<char>>::empty()
        } else {
            take_at_most(cartesian(runs), limit)
        }),
{
    if runs.len() > 0 {
        lemma_fold_is_cut_cartesian(runs, limit);
        let c = cartesian(runs);
        let cap = product_cap(limit);
        if c.len() > cap {
            assert(c.take(cap as int).take(limit as int) =~= c.take(limit as int));
        }
    }
}

/// The kanji numeral and the daiji written for a digit read back as that
/// digit: writing digits in kanji and reading kanji numerals are inverse, so
/// no two digits share a numeral.
pub proof fn lemma_kanji_digit_reads_back(d: nat)
    requires
        d < 10,
    ensures
        spec_kanji_to_digit(kanji_digit(d)) == Some(digit_char(d)),
        spec_kanji_to_digit(daiji_digit(d)) == Some(digit_char(d)),
{
}

/// A symbol whose F10 form is an ASCII symbol other than itself, and whose F9
/// form is the fullwidth form of that ASCII symbol: F9 and F10 agree that it
/// stands for that ASCII symbol.
pub open spec fn width_variant_symbol(c: char) -> bool {
    let h = spec_fullwidth_symbol_to_ascii(c);
    &&& h != c
    &&& spec_is_ascii_graphic(h)
    &&& latin_fullwidth_char(h) == latin_fullwidth_char(c)
}

/// The halfwidth and fullwidth forms that the symbol table gives a symbol
/// are its F10 and F9 forms wherever those agree on what the symbol stands
/// for; and `・` and `＿` are in the table, so their symbol runs offer exactly
/// the F10 form, the symbol, and the F9 form (the F9 form first when
/// fullwidth comes first).
pub proof fn lemma_symbol_pairs_agree_with_f9_f10(c: char, fullwidth_first: bool)
    ensures
        extra_pair_of(c) is Some && width_variant_symbol(c) ==> extra_pair_of(c) == Some(
            (spec_fullwidth_symbol_to_ascii(c), latin_fullwidth_char(c)),
        ),
        (c == '\u{30FB}' || c == '\u{FF3F}') ==> width_variant_symbol(c) && spec_symbol_candidates(
            seq![c],
            fullwidth_first,
        ) == (if fullwidth_first {
            seq![seq![latin_fullwidth_char(c)], seq![c], seq![spec_fullwidth_symbol_to_ascii(c)]]
        } else {
            seq![seq![spec_fullwidth_symbol_to_ascii(c)], seq![c], seq![latin_fullwidth_char(c)]]
        }),
{
    if c == '\u{30FB}' || c == '\u{FF3F}' {
        assert(seq![c].len() == 1 && seq![c][0] == c);
    }
}

/// A digit of either width written as a one-character kanji (`〇` for zero)
/// reads back as that digit.
pub proof fn lemma_per_digit_kanji_reads_back(c: char)
    requires
        spec_is_ascii_digit(c) || spec_is_fullwidth_digit(c),
    ensures
        spec_digit_to_per_digit_kanji(c) matches Some(k) && spec_kanji_to_digit(k) == Some(
            digit_char(any_digit_value(c)),
        ),
{
    let d = any_digit_value(c);
    assert(d < 10);
    if d != 0 {
        lemma_kanji_digit_reads_back(d);
    }
}

} // verus!
