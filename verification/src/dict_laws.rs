//! Laws of the dictionary builder: every candidate of a reading comes from an
//! entry of that reading, once per surface, in order of cost then surface,
//! and every reading is an entry's reading.
use vstd::prelude::*;

use crate::dict::{
    dedup_surfaces, find_group, group_entries, has_surface, insert_token, lemma_find_group,
    lemma_group_entries_distinct, lemma_lex_order, lemma_lex_order_trans, lemma_sort_groups,
    process_tokens, readings_distinct, sort_tokens, spec_build_groups, token_lt,
};

verus! {

/// The tokens in the order of `token_lt`: no token is before one that it
/// should follow.
pub open spec fn tokens_sorted(s: Seq<(Seq<char>, u16)>) -> bool {
    forall|i: int, j: int| 0 <= i < j < s.len() ==> !token_lt(#[trigger] s[j], #[trigger] s[i])
}

/// No surface occurs twice.
pub open spec fn surfaces_distinct(s: Seq<(Seq<char>, u16)>) -> bool {
    forall|i: int, j: int| 0 <= i < j < s.len() ==> (#[trigger] s[i]).0 != (#[trigger] s[j]).0
}

proof fn lemma_token_lt_props(x: (Seq<char>, u16), y: (Seq<char>, u16), z: (Seq<char>, u16))
    ensures
        !token_lt(x, x),
        token_lt(x, y) && token_lt(y, z) ==> token_lt(x, z),
{
    lemma_lex_order(x.0, x.0);
    if token_lt(x, y) && token_lt(y, z) && x.1 == y.1 && y.1 == z.1 {
        lemma_lex_order_trans(x.0, y.0, z.0);
    }
}

proof fn lemma_insert_token_order(s: Seq<(Seq<char>, u16)>, x: (Seq<char>, u16))
    requires
        tokens_sorted(s),
    ensures
        tokens_sorted(insert_token(s, x)),
    decreases s.len(),
{
    lemma_insert_token_sorted_members(s, x);
    if s.len() == 0 {
    } else if token_lt(x, s[0]) {
        let r = seq![x] + s;
        assert forall|i: int, j: int| 0 <= i < j < r.len() implies !token_lt(
            #[trigger] r[j],
            #[trigger] r[i],
        ) by {
            assert(r[j] == s[j - 1]);
            if i == 0 {
                lemma_token_lt_props(s[j - 1], x, s[0]);
                lemma_token_lt_props(s[0], s[0], s[0]);
            } else {
                assert(r[i] == s[i - 1]);
            }
        }
    } else {
        let t = s.drop_first();
        assert(tokens_sorted(t)) by {
            assert forall|i: int, j: int| 0 <= i < j < t.len() implies !token_lt(
                #[trigger] t[j],
                #[trigger] t[i],
            ) by {
                assert(t[i] == s[i + 1] && t[j] == s[j + 1]);
            }
        }
        lemma_insert_token_order(t, x);
        lemma_insert_token_sorted_members(t, x);
        let it = insert_token(t, x);
        let r = seq![s[0]] + it;
        assert forall|i: int, j: int| 0 <= i < j < r.len() implies !token_lt(
            #[trigger] r[j],
            #[trigger] r[i],
        ) by {
            assert(r[j] == it[j - 1]);
            if i == 0 {
                if it[j - 1] != x {
                    let m = choose|m: int| 0 <= m < t.len() && t[m] == it[j - 1];
                    assert(s[m + 1] == t[m]);
                }
            } else {
                assert(r[i] == it[i - 1]);
            }
        }
    }
}

/// Members of `insert_token`: the new token or one of the old ones.
proof fn lemma_insert_token_sorted_members(s: Seq<(Seq<char>, u16)>, x: (Seq<char>, u16))
    ensures
        insert_token(s, x).len() == s.len() + 1,
        forall|k: int|
            0 <= k < insert_token(s, x).len() ==> (#[trigger] insert_token(s, x)[k] == x || s.contains(
                insert_token(s, x)[k],
            )),
        forall|k: int| 0 <= k < s.len() ==> insert_token(s, x).contains(#[trigger] s[k]),
    decreases s.len(),
{
    if s.len() > 0 && !token_lt(x, s[0]) {
        let t = s.drop_first();
        lemma_insert_token_sorted_members(t, x);
        let it = insert_token(t, x);
        let r = seq![s[0]] + it;
        assert forall|k: int| 0 <= k < r.len() implies (#[trigger] r[k] == x || s.contains(r[k])) by {
            if k == 0 {
                assert(s[0] == r[0]);
            } else {
                assert(r[k] == it[k - 1]);
                if it[k - 1] != x {
                    let m = choose|m: int| 0 <= m < t.len() && t[m] == it[k - 1];
                    assert(s[m + 1] == t[m]);
                }
            }
        }
        assert forall|k: int| 0 <= k < s.len() implies r.contains(#[trigger] s[k]) by {
            if k == 0 {
                assert(r[0] == s[0]);
            } else {
                assert(t[k - 1] == s[k]);
                let m = choose|m: int| 0 <= m < it.len() && it[m] == t[k - 1];
                assert(r[m + 1] == it[m]);
            }
        }
    } else if s.len() > 0 {
        let r = seq![x] + s;
        assert forall|k: int| 0 <= k < r.len() implies (#[trigger] r[k] == x || s.contains(r[k])) by {
            if k > 0 {
                assert(r[k] == s[k - 1]);
            }
        }
        assert forall|k: int| 0 <= k < s.len() implies r.contains(#[trigger] s[k]) by {
            assert(r[k + 1] == s[k]);
        }
    } else {
        assert(insert_token(s, x) == seq![x]);
        assert(insert_token(s, x)[0] == x);
    }
}

proof fn lemma_sort_tokens_order(s: Seq<(Seq<char>, u16)>)
    ensures
        tokens_sorted(sort_tokens(s)),
        forall|k: int| 0 <= k < sort_tokens(s).len() ==> s.contains(#[trigger] sort_tokens(s)[k]),
    decreases s.len(),
{
    if s.len() > 0 {
        let init = s.drop_last();
        lemma_sort_tokens_order(init);
        let p = sort_tokens(init);
        lemma_insert_token_order(p, s.last());
        lemma_insert_token_sorted_members(p, s.last());
        let r = sort_tokens(s);
        assert forall|k: int| 0 <= k < r.len() implies s.contains(#[trigger] r[k]) by {
            if r[k] == s.last() {
                assert(s[s.len() - 1] == s.last());
            } else {
                let m = choose|m: int| 0 <= m < p.len() && p[m] == r[k];
                let q = choose|q: int| 0 <= q < init.len() && init[q] == p[m];
                assert(s[q] == init[q]);
            }
        }
    }
}

proof fn lemma_dedup_order(s: Seq<(Seq<char>, u16)>)
    requires
        tokens_sorted(s),
    ensures
        tokens_sorted(dedup_surfaces(s)),
        surfaces_distinct(dedup_surfaces(s)),
        forall|k: int| 0 <= k < dedup_surfaces(s).len() ==> s.contains(#[trigger] dedup_surfaces(s)[k]),
    decreases s.len(),
{
    if s.len() > 0 {
        let init = s.drop_last();
        assert(tokens_sorted(init)) by {
            assert forall|i: int, j: int| 0 <= i < j < init.len() implies !token_lt(
                #[trigger] init[j],
                #[trigger] init[i],
            ) by {
                assert(init[i] == s[i] && init[j] == s[j]);
            }
        }
        lemma_dedup_order(init);
        let d = dedup_surfaces(init);
        let l = s.last();
        assert(l == s[s.len() - 1]);
        assert forall|k: int| 0 <= k < d.len() implies s.contains(#[trigger] d[k]) && !token_lt(
            l,
            d[k],
        ) by {
            let m = choose|m: int| 0 <= m < init.len() && init[m] == d[k];
            assert(s[m] == init[m]);
        }
        if !has_surface(d, l.0) {
            let r = d.push(l);
            assert forall|i: int, j: int| 0 <= i < j < r.len() implies !token_lt(
                #[trigger] r[j],
                #[trigger] r[i],
            ) by {
                assert(r[i] == d[i]);
                if j < d.len() {
                    assert(r[j] == d[j]);
                }
            }
            assert forall|i: int, j: int| 0 <= i < j < r.len() implies (#[trigger] r[i]).0 != (
            #[trigger] r[j]).0 by {
                assert(r[i] == d[i]);
                if j < d.len() {
                    assert(r[j] == d[j]);
                }
            }
            assert forall|k: int| 0 <= k < r.len() implies s.contains(#[trigger] r[k]) by {
                if k < d.len() {
                    assert(r[k] == d[k]);
                }
            }
        }
    }
}

/// Every token of every group is the surface and cost of an entry of the
/// group's reading.
pub open spec fn tokens_from_entries(
    es: Seq<(Seq<char>, Seq<char>, u16)>,
    g: Seq<(Seq<char>, Seq<(Seq<char>, u16)>)>,
) -> bool {
    forall|m: int, t: int|
        0 <= m < g.len() && 0 <= t < g[m].1.len() ==> #[trigger] token_of_entry(es, g[m].0, g[m].1[t])
}

/// Whether `tok` is the surface and cost of an entry of `es` with reading `r`.
pub open spec fn token_of_entry(
    es: Seq<(Seq<char>, Seq<char>, u16)>,
    r: Seq<char>,
    tok: (Seq<char>, u16),
) -> bool {
    exists|k: int| 0 <= k < es.len() && (#[trigger] es[k]).0 == r && es[k].1 == tok.0 && es[k].2 == tok.1
}

/// Members of a group's tokens: (surface, cost) of an entry of that reading.
/// Every reading gathered is the reading of some entry.
proof fn lemma_group_entries_readings(es: Seq<(Seq<char>, Seq<char>, u16)>)
    ensures
        forall|m: int|
            0 <= m < group_entries(es).len() ==> exists|k: int|
                0 <= k < es.len() && (#[trigger] es[k]).0 == (#[trigger] group_entries(es)[m]).0,
    decreases es.len(),
{
    if es.len() > 0 {
        let init = es.drop_last();
        lemma_group_entries_readings(init);
        let a = group_entries(init);
        let e = es.last();
        let n = es.len() - 1;
        let out = group_entries(es);
        lemma_find_group(a, e.0);
        assert forall|m: int| 0 <= m < out.len() implies exists|k: int|
            0 <= k < es.len() && (#[trigger] es[k]).0 == (#[trigger] out[m]).0 by {
            if m < a.len() {
                assert(out[m].0 == a[m].0);
                let k = choose|k: int| 0 <= k < init.len() && (#[trigger] init[k]).0 == a[m].0;
                assert(es[k] == init[k]);
            } else {
                assert(out[m].0 == e.0);
                assert(es[n] == e);
            }
        }
    }
}

proof fn lemma_group_entries_members(es: Seq<(Seq<char>, Seq<char>, u16)>)
    ensures
        tokens_from_entries(es, group_entries(es)),
    decreases es.len(),
{
    if es.len() == 0 {
        assert(group_entries(es).len() == 0);
    } else {
        let init = es.drop_last();
        lemma_group_entries_members(init);
        let a = group_entries(init);
        let e = es.last();
        let n = es.len() - 1;
        assert(es[n] == e);
        let out = group_entries(es);
        lemma_find_group(a, e.0);
        assert forall|m: int, t: int|
            0 <= m < out.len() && 0 <= t < out[m].1.len() implies #[trigger] token_of_entry(
                es,
                out[m].0,
                out[m].1[t],
            ) by {
            match find_group(a, e.0) {
                Some(j) => {
                    if m == j && t == a[j].1.len() {
                        assert(out[m].1[t] == (e.1, e.2));
                        assert(es[n].0 == out[m].0 && es[n].1 == out[m].1[t].0 && es[n].2
                            == out[m].1[t].1);
                    } else {
                        assert(out[m].1[t] == a[m].1[t]);
                        assert(out[m].0 == a[m].0);
                        assert(token_of_entry(init, a[m].0, a[m].1[t]));
                        let k = choose|k: int|
                            0 <= k < init.len() && (#[trigger] init[k]).0 == a[m].0 && init[k].1
                                == a[m].1[t].0 && init[k].2 == a[m].1[t].1;
                        assert(es[k] == init[k]);
                    }
                },
                None => {
                    if m == a.len() {
                        assert(out[m] == (e.0, seq![(e.1, e.2)]));
                        assert(es[n].0 == out[m].0 && es[n].1 == out[m].1[t].0 && es[n].2
                            == out[m].1[t].1);
                    } else {
                        assert(out[m] == a[m]);
                        assert(token_of_entry(init, a[m].0, a[m].1[t]));
                        let k = choose|k: int|
                            0 <= k < init.len() && (#[trigger] init[k]).0 == a[m].0 && init[k].1
                                == a[m].1[t].0 && init[k].2 == a[m].1[t].1;
                        assert(es[k] == init[k]);
                    }
                },
            }
        }
        assert(tokens_from_entries(es, out));
    }
}

/// The candidates of every reading in the dictionary: each is the surface and
/// cost of an entry of that reading, each surface occurs once, and they come
/// in order of cost, then surface; and every reading of the dictionary is the
/// reading of some entry (with `lemma_build_groups_sorted`, the readings are
/// exactly the entries' readings, each once, in order).
pub proof fn lemma_build_groups_candidates(es: Seq<(Seq<char>, Seq<char>, u16)>, max: nat)
    ensures
        forall|j: int|
            0 <= j < spec_build_groups(es, max).len() ==> tokens_sorted(
                (#[trigger] spec_build_groups(es, max)[j]).1,
            ) && surfaces_distinct(spec_build_groups(es, max)[j].1),
        tokens_from_entries(es, spec_build_groups(es, max)),
        forall|j: int|
            0 <= j < spec_build_groups(es, max).len() ==> exists|k: int|
                0 <= k < es.len() && (#[trigger] es[k]).0 == (
                #[trigger] spec_build_groups(es, max)[j]).0,
{
    lemma_group_entries_distinct(es);
    lemma_group_entries_members(es);
    lemma_group_entries_readings(es);
    let g = group_entries(es);
    let p = g.map_values(
        |x: (Seq<char>, Seq<(Seq<char>, u16)>)| (x.0, process_tokens(x.1, max)),
    );
    assert(readings_distinct(p)) by {
        assert forall|i: int, j: int| 0 <= i < j < p.len() implies (#[trigger] p[i]).0 != (
        #[trigger] p[j]).0 by {
            assert(p[i].0 == g[i].0 && p[j].0 == g[j].0);
        }
    }
    lemma_sort_groups(p);
    let out = spec_build_groups(es, max);
    assert forall|j: int| 0 <= j < out.len() implies tokens_sorted((#[trigger] out[j]).1)
        && surfaces_distinct(out[j].1) by {
        let m = choose|m: int| 0 <= m < p.len() && p[m] == out[j];
        lemma_process_order(g[m].1, max);
    }
    assert forall|j: int, t: int| 0 <= j < out.len() && 0 <= t < out[j].1.len() implies #[trigger] token_of_entry(
        es,
        out[j].0,
        out[j].1[t],
    ) by {
        let m = choose|m: int| 0 <= m < p.len() && p[m] == out[j];
        lemma_process_order(g[m].1, max);
        let q = choose|q: int| 0 <= q < g[m].1.len() && g[m].1[q] == out[j].1[t];
        assert(out[j].0 == g[m].0);
        assert(token_of_entry(es, g[m].0, g[m].1[q]));
    }
    assert(tokens_from_entries(es, out));
    assert forall|j: int| 0 <= j < out.len() implies exists|k: int|
        0 <= k < es.len() && (#[trigger] es[k]).0 == (#[trigger] out[j]).0 by {
        let m = choose|m: int| 0 <= m < p.len() && p[m] == out[j];
        assert(p[m].0 == g[m].0);
    }
}

proof fn lemma_process_order(s: Seq<(Seq<char>, u16)>, max: nat)
    ensures
        tokens_sorted(process_tokens(s, max)),
        surfaces_distinct(process_tokens(s, max)),
        forall|k: int| 0 <= k < process_tokens(s, max).len() ==> s.contains(
            #[trigger] process_tokens(s, max)[k],
        ),
{
    lemma_sort_tokens_order(s);
    lemma_dedup_order(sort_tokens(s));
    let so = sort_tokens(s);
    let d = dedup_surfaces(so);
    let r = process_tokens(s, max);
    assert forall|k: int| 0 <= k < r.len() implies s.contains(#[trigger] r[k]) by {
        assert(r[k] == d[k]);
        let m = choose|m: int| 0 <= m < so.len() && so[m] == d[k];
    }
    if d.len() > max {
        assert forall|i: int, j: int| 0 <= i < j < r.len() implies !token_lt(
            #[trigger] r[j],
            #[trigger] r[i],
        ) by {
            assert(r[i] == d[i] && r[j] == d[j]);
        }
        assert forall|i: int, j: int| 0 <= i < j < r.len() implies (#[trigger] r[i]).0 != (
        #[trigger] r[j]).0 by {
            assert(r[i] == d[i] && r[j] == d[j]);
        }
    }
}

} // verus!
