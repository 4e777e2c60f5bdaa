//! The user's own dictionary: readings with their surfaces, the first surface
//! of a reading being the one preferred.
use vstd::prelude::*;

use crate::text::str_eq;

verus! {

/// One reading with its surfaces, in order of preference.
#[derive(Debug, Clone)]
pub struct UserEntry {
    pub reading: String,
    pub surfaces: Vec<String>,
}

/// The user dictionary, in file order.
#[derive(Debug, Clone)]
pub struct UserDict {
    pub entries: Vec<UserEntry>,
}

pub open spec fn strings_view(v: Seq<String>) -> Seq<Seq<char>> {
    v.map_values(|s: String| s@)
}

pub open spec fn entry_view(e: UserEntry) -> (Seq<char>, Seq<Seq<char>>) {
    (e.reading@, strings_view(e.surfaces@))
}

pub open spec fn entries_view(v: Seq<UserEntry>) -> Seq<(Seq<char>, Seq<Seq<char>>)> {
    v.map_values(|e: UserEntry| entry_view(e))
}

impl View for UserDict {
    type V = Seq<(Seq<char>, Seq<Seq<char>>)>;

    open spec fn view(&self) -> Seq<(Seq<char>, Seq<Seq<char>>)> {
        entries_view(self.entries@)
    }
}

/// The index of the first entry for `reading`, if any.
pub open spec fn find_first(es: Seq<(Seq<char>, Seq<Seq<char>>)>, reading: Seq<char>) -> Option<
    int,
>
    decreases es.len(),
{
    if es.len() == 0 {
        None
    } else if es[0].0 == reading {
        Some(0)
    } else {
        match find_first(es.drop_first(), reading) {
            Some(i) => Some(i + 1),
            None => None,
        }
    }
}

/// `ss` without any copy of `s`, the rest in order.
pub open spec fn without(ss: Seq<Seq<char>>, s: Seq<char>) -> Seq<Seq<char>>
    decreases ss.len(),
{
    if ss.len() == 0 {
        seq![]
    } else if ss.last() == s {
        without(ss.drop_last(), s)
    } else {
        without(ss.drop_last(), s).push(ss.last())
    }
}

/// The entries whose surface lists are not empty, in order.
pub open spec fn non_empty_entries(es: Seq<(Seq<char>, Seq<Seq<char>>)>) -> Seq<
    (Seq<char>, Seq<Seq<char>>),
>
    decreases es.len(),
{
    if es.len() == 0 {
        seq![]
    } else if es.last().1.len() == 0 {
        non_empty_entries(es.drop_last())
    } else {
        non_empty_entries(es.drop_last()).push(es.last())
    }
}

/// Adding a surface: to the front of the first entry for the reading (any
/// other copy of it dropped), or as a new last entry.
pub open spec fn spec_add(es: Seq<(Seq<char>, Seq<Seq<char>>)>, reading: Seq<char>, surface: Seq<
    char,
>) -> Seq<(Seq<char>, Seq<Seq<char>>)> {
    match find_first(es, reading) {
        Some(i) => es.update(i, (es[i].0, seq![surface] + without(es[i].1, surface))),
        None => es.push((reading, seq![surface])),
    }
}

/// Removing a surface from the first entry for the reading, then every entry
/// left without surfaces.
pub open spec fn spec_remove(es: Seq<(Seq<char>, Seq<Seq<char>>)>, reading: Seq<char>, surface: Seq<
    char,
>) -> Seq<(Seq<char>, Seq<Seq<char>>)> {
    non_empty_entries(
        match find_first(es, reading) {
            Some(i) => es.update(i, (es[i].0, without(es[i].1, surface))),
            None => es,
        },
    )
}

proof fn lemma_find_first(es: Seq<(Seq<char>, Seq<Seq<char>>)>, reading: Seq<char>)
    ensures
        match find_first(es, reading) {
            Some(i) => 0 <= i < es.len() && es[i].0 == reading && forall|j: int|
                0 <= j < i ==> (#[trigger] es[j]).0 != reading,
            None => forall|j: int| 0 <= j < es.len() ==> (#[trigger] es[j]).0 != reading,
        },
    decreases es.len(),
{
    if es.len() > 0 {
        lemma_find_first(es.drop_first(), reading);
        assert forall|j: int| 0 < j < es.len() implies es[j] == es.drop_first()[j - 1] by {}
    }
}

proof fn lemma_without(ss: Seq<Seq<char>>, s: Seq<char>)
    ensures
        forall|k: int| 0 <= k < without(ss, s).len() ==> #[trigger] without(ss, s)[k] != s,
        without(ss, s).len() <= ss.len(),
    decreases ss.len(),
{
    if ss.len() > 0 {
        lemma_without(ss.drop_last(), s);
    }
}

fn without_vec(ss: &Vec<String>, s: &str) -> (r: Vec<String>)
    ensures
        strings_view(r@) == without(strings_view(ss@), s@),
{
    let mut r: Vec<String> = Vec::new();
    let ghost v = strings_view(ss@);
    let mut i: usize = 0;
    while i < ss.len()
        invariant
            i <= ss.len(),
            v == strings_view(ss@),
            strings_view(r@) == without(v.take(i as int), s@),
        decreases ss.len() - i,
    {
        assert(v.take(i + 1).drop_last() == v.take(i as int));
        if !str_eq(ss[i].as_str(), s) {
            let c = ss[i].clone();
            let ghost before = r@;
            r.push(c);
            assert(strings_view(r@) =~= strings_view(before).push(c@));
            assert(strings_view(r@) =~= without(v.take(i + 1), s@));
        }
        i = i + 1;
    }
    assert(v.take(ss.len() as int) == v);
    r
}

fn copy_strings(v: &Vec<String>) -> (r: Vec<String>)
    ensures
        strings_view(r@) == strings_view(v@),
{
    let mut r: Vec<String> = Vec::new();
    let mut i: usize = 0;
    while i < v.len()
        invariant
            i <= v.len(),
            strings_view(r@) == strings_view(v@).take(i as int),
        decreases v.len() - i,
    {
        let c = v[i].clone();
        let ghost before = r@;
        r.push(c);
        assert(strings_view(r@) =~= strings_view(before).push(c@));
        assert(strings_view(v@).take(i + 1) =~= strings_view(v@).take(i as int).push(v@[i as int]@));
        i = i + 1;
    }
    assert(strings_view(v@).take(v.len() as int) == strings_view(v@));
    r
}

fn copy_entry(e: &UserEntry) -> (r: UserEntry)
    ensures
        entry_view(r) == entry_view(*e),
{
    UserEntry { reading: e.reading.clone(), surfaces: copy_strings(&e.surfaces) }
}

impl Default for UserDict {
    fn default() -> (d: Self)
        ensures
            d@ == Seq::<(Seq<char>, Seq<Seq<char>>)>::empty(),
    {
        let d = UserDict { entries: Vec::new() };
        assert(d@ =~= Seq::<(Seq<char>, Seq<Seq<char>>)>::empty());
        d
    }
}

impl UserDict {
    fn find_entry(&self, reading: &str) -> (r: Option<usize>)
        ensures
            match r {
                Some(i) => Some(i as int) == find_first(self@, reading@) && i < self.entries.len(),
                None => find_first(self@, reading@) is None,
            },
    {
        let ghost es = self@;
        let mut i: usize = 0;
        proof {
            lemma_find_first(es, reading@);
        }
        while i < self.entries.len()
            invariant
                i <= self.entries.len(),
                es == self@,
                es.len() == self.entries.len(),
                forall|j: int| 0 <= j < i ==> (#[trigger] es[j]).0 != reading@,
                match find_first(es, reading@) {
                    Some(k) => 0 <= k < es.len() && es[k].0 == reading@ && forall|j: int|
                        0 <= j < k ==> (#[trigger] es[j]).0 != reading@,
                    None => forall|j: int| 0 <= j < es.len() ==> (#[trigger] es[j]).0 != reading@,
                },
            decreases self.entries.len() - i,
        {
            assert(es[i as int] == entry_view(self.entries@[i as int]));
            if str_eq(self.entries[i].reading.as_str(), reading) {
                return Some(i);
            }
            i = i + 1;
        }
        None
    }

    /// Puts `surface` first among the surfaces of `reading` (see `spec_add`).
    pub fn add(&mut self, reading: &str, surface: &str)
        ensures
            final(self)@ == spec_add(old(self)@, reading@, surface@),
    {
        match self.find_entry(reading) {
            Some(i) => {
                let kept = without_vec(&self.entries[i].surfaces, surface);
                let mut surfaces: Vec<String> = Vec::new();
                surfaces.push(surface.to_owned());
                let mut k: usize = 0;
                while k < kept.len()
                    invariant
                        k <= kept.len(),
                        strings_view(surfaces@) == seq![surface@] + strings_view(kept@).take(
                            k as int,
                        ),
                    decreases kept.len() - k,
                {
                    let c = kept[k].clone();
                    let ghost before = surfaces@;
                    surfaces.push(c);
                    assert(strings_view(surfaces@) =~= strings_view(before).push(c@));
                    assert(strings_view(kept@).take(k + 1) =~= strings_view(kept@).take(k as int).push(
                        kept@[k as int]@,
                    ));
                    assert(strings_view(surfaces@) =~= seq![surface@] + strings_view(kept@).take(
                        k + 1,
                    ));
                    k = k + 1;
                }
                assert(strings_view(kept@).take(kept.len() as int) == strings_view(kept@));
                let ghost old_entry = entry_view(self.entries@[i as int]);
                assert(old_entry == old(self)@[i as int]);
                let entry = UserEntry { reading: self.entries[i].reading.clone(), surfaces };
                assert(entry_view(entry) == (old_entry.0, seq![surface@] + without(
                    old_entry.1,
                    surface@,
                )));
                let ghost before = self.entries@;
                self.entries.set(i, entry);
                assert(entries_view(self.entries@) =~= entries_view(before).update(
                    i as int,
                    entry_view(entry),
                ));
                assert(entries_view(before) == old(self)@);
                assert(find_first(old(self)@, reading@) == Some(i as int));
                assert(spec_add(old(self)@, reading@, surface@) == old(self)@.update(
                    i as int,
                    (old_entry.0, seq![surface@] + without(old_entry.1, surface@)),
                ));
                assert(self@ == entries_view(self.entries@));
                assert(self@ == spec_add(old(self)@, reading@, surface@));
            },
            None => {
                let mut surfaces: Vec<String> = Vec::new();
                surfaces.push(surface.to_owned());
                assert(strings_view(surfaces@) =~= seq![surface@]);
                let entry = UserEntry { reading: reading.to_owned(), surfaces };
                let ghost before = self.entries@;
                self.entries.push(entry);
                assert(entries_view(self.entries@) =~= entries_view(before).push(entry_view(entry)));
                assert(self@ =~= spec_add(old(self)@, reading@, surface@));
            },
        }
    }

    /// Removes `surface` from `reading` and drops the entries left without
    /// surfaces (see `spec_remove`).
    pub fn remove(&mut self, reading: &str, surface: &str)
        ensures
            final(self)@ == spec_remove(old(self)@, reading@, surface@),
    {
        let ghost updated = match find_first(self@, reading@) {
            Some(i) => self@.update(i, (self@[i].0, without(self@[i].1, surface@))),
            None => self@,
        };
        match self.find_entry(reading) {
            Some(i) => {
                let kept = without_vec(&self.entries[i].surfaces, surface);
                let entry = UserEntry { reading: self.entries[i].reading.clone(), surfaces: kept };
                self.entries.set(i, entry);
            },
            None => {},
        }
        assert(self@ =~= updated);
        let mut entries: Vec<UserEntry> = Vec::new();
        let mut k: usize = 0;
        while k < self.entries.len()
            invariant
                k <= self.entries.len(),
                self@ == updated,
                entries_view(entries@) == non_empty_entries(updated.take(k as int)),
            decreases self.entries.len() - k,
        {
            assert(updated.take(k + 1).drop_last() == updated.take(k as int));
            assert(updated[k as int] == entry_view(self.entries@[k as int]));
            if self.entries[k].surfaces.len() > 0 {
                let e = copy_entry(&self.entries[k]);
                let ghost before = entries@;
                entries.push(e);
                assert(entries_view(entries@) =~= entries_view(before).push(entry_view(e)));
                assert(entries_view(entries@) =~= non_empty_entries(updated.take(k + 1)));
            }
            k = k + 1;
        }
        assert(updated.take(self.entries.len() as int) == updated);
        self.entries = entries;
    }
}

// ─── the dictionary as a map ────────────────────────────────────────────────

/// The surfaces of `reading`: those of its first entry, none without one.
pub open spec fn lookup(es: Seq<(Seq<char>, Seq<Seq<char>>)>, reading: Seq<char>) -> Seq<
    Seq<char>,
> {
    match find_first(es, reading) {
        Some(i) => es[i].1,
        None => seq![],
    }
}

/// No reading has two entries.
pub open spec fn unique_readings(es: Seq<(Seq<char>, Seq<Seq<char>>)>) -> bool {
    forall|i: int, j: int| 0 <= i < j < es.len() ==> (#[trigger] es[i]).0 != (#[trigger] es[j]).0
}

/// The map of the entries: one pair per reading, in order of first
/// appearance, with the surfaces of the reading's last entry.
pub open spec fn spec_to_map(es: Seq<(Seq<char>, Seq<Seq<char>>)>) -> Seq<
    (Seq<char>, Seq<Seq<char>>),
>
    decreases es.len(),
{
    if es.len() == 0 {
        seq![]
    } else {
        let m = spec_to_map(es.drop_last());
        match find_first(m, es.last().0) {
            Some(j) => m.update(j, es.last()),
            None => m.push(es.last()),
        }
    }
}

proof fn lemma_find_first_at(es: Seq<(Seq<char>, Seq<Seq<char>>)>, reading: Seq<char>, i: int)
    requires
        0 <= i < es.len(),
        es[i].0 == reading,
        forall|j: int| 0 <= j < i ==> (#[trigger] es[j]).0 != reading,
    ensures
        find_first(es, reading) == Some(i),
{
    lemma_find_first(es, reading);
}

proof fn lemma_find_first_same_readings(
    a: Seq<(Seq<char>, Seq<Seq<char>>)>,
    b: Seq<(Seq<char>, Seq<Seq<char>>)>,
    reading: Seq<char>,
)
    requires
        a.len() == b.len(),
        forall|j: int| 0 <= j < a.len() ==> (#[trigger] a[j]).0 == b[j].0,
    ensures
        find_first(a, reading) == find_first(b, reading),
{
    lemma_find_first(a, reading);
    lemma_find_first(b, reading);
    match find_first(a, reading) {
        Some(i) => {
            assert(b[i].0 == reading);
            assert forall|j: int| 0 <= j < i implies (#[trigger] b[j]).0 != reading by {
                assert(a[j].0 == b[j].0);
            }
            lemma_find_first_at(b, reading, i);
        },
        None => {
            match find_first(b, reading) {
                Some(k) => {
                    assert(a[k].0 == b[k].0);
                },
                None => {},
            }
        },
    }
}

proof fn lemma_find_first_push(
    m: Seq<(Seq<char>, Seq<Seq<char>>)>,
    e: (Seq<char>, Seq<Seq<char>>),
    reading: Seq<char>,
)
    ensures
        find_first(m.push(e), reading) == match find_first(m, reading) {
            Some(i) => Some(i),
            None => if e.0 == reading {
                Some(m.len() as int)
            } else {
                None
            },
        },
{
    let n = m.push(e);
    lemma_find_first(m, reading);
    lemma_find_first(n, reading);
    match find_first(m, reading) {
        Some(i) => {
            assert(n[i] == m[i]);
            assert forall|j: int| 0 <= j < i implies (#[trigger] n[j]).0 != reading by {
                assert(n[j] == m[j]);
            }
            lemma_find_first_at(n, reading, i);
        },
        None => {
            if e.0 == reading {
                assert forall|j: int| 0 <= j < m.len() implies (#[trigger] n[j]).0 != reading by {
                    assert(n[j] == m[j]);
                }
                lemma_find_first_at(n, reading, m.len() as int);
            } else {
                match find_first(n, reading) {
                    Some(k) => {
                        if k < m.len() {
                            assert(n[k] == m[k]);
                        }
                    },
                    None => {},
                }
            }
        },
    }
}

proof fn lemma_non_empty_lookup_step(
    es: Seq<(Seq<char>, Seq<Seq<char>>)>,
    init: Seq<(Seq<char>, Seq<Seq<char>>)>,
    last: (Seq<char>, Seq<Seq<char>>),
    m: Seq<(Seq<char>, Seq<Seq<char>>)>,
    r: Seq<char>,
)
    requires
        unique_readings(es),
        es == init.push(last),
        m == non_empty_entries(init),
        lookup(m, r) == lookup(init, r),
        forall|k: int|
            0 <= k < m.len() ==> exists|j: int| 0 <= j < init.len() && #[trigger] m[k] == init[j],
    ensures
        lookup(non_empty_entries(es), r) == lookup(es, r),
{
    assert(es.drop_last() == init);
    assert(es.last() == last);
    lemma_find_first_push(init, last, r);
    lemma_find_first_push(m, last, r);
    lemma_find_first(init, r);
    lemma_find_first(m, r);
    match find_first(init, r) {
        Some(i) => {
            assert(es[i] == init[i]);
            assert(es[es.len() - 1] == last);
            assert(last.0 != r);
            match find_first(m, r) {
                Some(k) => {
                    assert(m.push(last)[k] == m[k]);
                },
                None => {},
            }
        },
        None => {
            match find_first(m, r) {
                Some(k) => {
                    let j = choose|j: int| 0 <= j < init.len() && #[trigger] m[k] == init[j];
                    assert(init[j].0 == r);
                },
                None => {},
            }
            if last.0 == r && last.1.len() == 0 {
                assert(last.1 =~= Seq::<Seq<char>>::empty());
            }
        },
    }
}

proof fn lemma_non_empty_entries(es: Seq<(Seq<char>, Seq<Seq<char>>)>)
    requires
        unique_readings(es),
    ensures
        unique_readings(non_empty_entries(es)),
        forall|r: Seq<char>| #[trigger] lookup(non_empty_entries(es), r) == lookup(es, r),
        forall|k: int|
            0 <= k < non_empty_entries(es).len() ==> exists|j: int|
                0 <= j < es.len() && #[trigger] non_empty_entries(es)[k] == es[j],
    decreases es.len(),
{
    if es.len() > 0 {
        let init = es.drop_last();
        let last = es.last();
        assert(unique_readings(init)) by {
            assert forall|i: int, j: int| 0 <= i < j < init.len() implies (#[trigger] init[i]).0
                != (#[trigger] init[j]).0 by {
                assert(init[i] == es[i] && init[j] == es[j]);
            }
        }
        lemma_non_empty_entries(init);
        let m = non_empty_entries(init);
        assert(es == init.push(last));
        assert forall|r: Seq<char>| #[trigger] lookup(non_empty_entries(es), r) == lookup(es, r) by {
            lemma_non_empty_lookup_step(es, init, last, m, r);
        }
        let out = non_empty_entries(es);
        if last.1.len() != 0 {
            assert forall|k: int| 0 <= k < out.len() implies exists|j: int|
                0 <= j < es.len() && #[trigger] out[k] == es[j] by {
                if k < m.len() {
                    let j = choose|j: int| 0 <= j < init.len() && #[trigger] m[k] == init[j];
                    assert(es[j] == init[j]);
                } else {
                    assert(out[k] == es[es.len() - 1]);
                }
            }
            assert forall|i: int, j: int| 0 <= i < j < out.len() implies (#[trigger] out[i]).0
                != (#[trigger] out[j]).0 by {
                if j == out.len() - 1 {
                    let ii = choose|ii: int| 0 <= ii < init.len() && #[trigger] m[i] == init[ii];
                    assert(es[ii] == init[ii]);
                    assert(es[es.len() - 1] == last);
                } else {
                    assert(out[i] == m[i] && out[j] == m[j]);
                }
            }
        } else {
            assert forall|k: int| 0 <= k < out.len() implies exists|j: int|
                0 <= j < es.len() && #[trigger] out[k] == es[j] by {
                let j = choose|j: int| 0 <= j < init.len() && #[trigger] m[k] == init[j];
                assert(es[j] == init[j]);
            }
        }
    }
}

/// What adding gives back: the surfaces of the reading become `surface`
/// followed by its former surfaces without `surface`; every other reading
/// keeps its surfaces; no reading gets a second entry.
pub proof fn lemma_add_then_lookup(
    es: Seq<(Seq<char>, Seq<Seq<char>>)>,
    reading: Seq<char>,
    surface: Seq<char>,
    other: Seq<char>,
)
    requires
        unique_readings(es),
        other != reading,
    ensures
        unique_readings(spec_add(es, reading, surface)),
        lookup(spec_add(es, reading, surface), reading) == seq![surface] + without(
            lookup(es, reading),
            surface,
        ),
        lookup(spec_add(es, reading, surface), other) == lookup(es, other),
{
    let es2 = spec_add(es, reading, surface);
    lemma_find_first(es, reading);
    match find_first(es, reading) {
        Some(i) => {
            assert forall|j: int| 0 <= j < es.len() implies (#[trigger] es2[j]).0 == es[j].0 by {}
            lemma_find_first_same_readings(es2, es, reading);
            lemma_find_first_same_readings(es2, es, other);
            lemma_find_first(es, other);
            match find_first(es, other) {
                Some(k) => {
                    assert(k != i);
                },
                None => {},
            }
            assert forall|a: int, b: int| 0 <= a < b < es2.len() implies (#[trigger] es2[a]).0
                != (#[trigger] es2[b]).0 by {
                assert(es2[a].0 == es[a].0 && es2[b].0 == es[b].0);
            }
        },
        None => {
            lemma_find_first_push(es, (reading, seq![surface]), reading);
            lemma_find_first_push(es, (reading, seq![surface]), other);
            assert(without(Seq::<Seq<char>>::empty(), surface) == Seq::<Seq<char>>::empty());
            assert(seq![surface] + Seq::<Seq<char>>::empty() == seq![surface]);
            lemma_find_first(es, other);
            match find_first(es, other) {
                Some(k) => {
                    assert(es2[k] == es[k]);
                },
                None => {},
            }
            assert forall|a: int, b: int| 0 <= a < b < es2.len() implies (#[trigger] es2[a]).0
                != (#[trigger] es2[b]).0 by {
                if b == es.len() {
                    assert(es2[a] == es[a]);
                } else {
                    assert(es2[a] == es[a] && es2[b] == es[b]);
                }
            }
        },
    }
}

/// What removing gives back: the reading's surfaces lose `surface`, every
/// other reading keeps its surfaces, and no reading gets a second entry.
pub proof fn lemma_remove_then_lookup(
    es: Seq<(Seq<char>, Seq<Seq<char>>)>,
    reading: Seq<char>,
    surface: Seq<char>,
    other: Seq<char>,
)
    requires
        unique_readings(es),
        other != reading,
    ensures
        unique_readings(spec_remove(es, reading, surface)),
        lookup(spec_remove(es, reading, surface), reading) == without(
            lookup(es, reading),
            surface,
        ),
        lookup(spec_remove(es, reading, surface), other) == lookup(es, other),
{
    let es1 = match find_first(es, reading) {
        Some(i) => es.update(i, (es[i].0, without(es[i].1, surface))),
        None => es,
    };
    lemma_find_first(es, reading);
    assert forall|j: int| 0 <= j < es.len() implies (#[trigger] es1[j]).0 == es[j].0 by {}
    lemma_find_first_same_readings(es1, es, reading);
    lemma_find_first_same_readings(es1, es, other);
    assert(unique_readings(es1)) by {
        assert forall|a: int, b: int| 0 <= a < b < es1.len() implies (#[trigger] es1[a]).0
            != (#[trigger] es1[b]).0 by {
            assert(es1[a].0 == es[a].0 && es1[b].0 == es[b].0);
        }
    }
    lemma_non_empty_entries(es1);
    lemma_find_first(es, other);
    match find_first(es, reading) {
        Some(i) => {
            match find_first(es, other) {
                Some(k) => {
                    assert(k != i);
                },
                None => {},
            }
        },
        None => {
            assert(without(Seq::<Seq<char>>::empty(), surface) == Seq::<Seq<char>>::empty());
        },
    }
}

/// The map of unique entries is the entries themselves.
pub proof fn lemma_to_map_of_unique(es: Seq<(Seq<char>, Seq<Seq<char>>)>)
    requires
        unique_readings(es),
    ensures
        spec_to_map(es) == es,
    decreases es.len(),
{
    if es.len() > 0 {
        let init = es.drop_last();
        assert(unique_readings(init)) by {
            assert forall|i: int, j: int| 0 <= i < j < init.len() implies (#[trigger] init[i]).0
                != (#[trigger] init[j]).0 by {
                assert(init[i] == es[i] && init[j] == es[j]);
            }
        }
        lemma_to_map_of_unique(init);
        lemma_find_first(init, es.last().0);
        match find_first(init, es.last().0) {
            Some(k) => {
                assert(es[k] == init[k]);
                assert(es[es.len() - 1] == es.last());
            },
            None => {},
        }
        assert(init.push(es.last()) == es);
    }
}

fn find_in_map(m: &Vec<(String, Vec<String>)>, reading: &str) -> (r: Option<usize>)
    ensures
        ({
            let mv = m@.map_values(|p: (String, Vec<String>)| (p.0@, strings_view(p.1@)));
            match r {
                Some(j) => find_first(mv, reading@) == Some(j as int) && j < m.len(),
                None => find_first(mv, reading@) is None,
            }
        }),
{
    let ghost mv = m@.map_values(|p: (String, Vec<String>)| (p.0@, strings_view(p.1@)));
    proof {
        lemma_find_first(mv, reading@);
    }
    let mut j: usize = 0;
    while j < m.len()
        invariant
            j <= m.len(),
            mv == m@.map_values(|p: (String, Vec<String>)| (p.0@, strings_view(p.1@))),
            forall|k: int| 0 <= k < j ==> (#[trigger] mv[k]).0 != reading@,
            match find_first(mv, reading@) {
                Some(k) => 0 <= k < mv.len() && mv[k].0 == reading@ && forall|i: int|
                    0 <= i < k ==> (#[trigger] mv[i]).0 != reading@,
                None => forall|i: int| 0 <= i < mv.len() ==> (#[trigger] mv[i]).0 != reading@,
            },
        decreases m.len() - j,
    {
        assert(mv[j as int].0 == m@[j as int].0@);
        if str_eq(m[j].0.as_str(), reading) {
            return Some(j);
        }
        j = j + 1;
    }
    None
}

impl UserDict {
    /// The dictionary as a map from each reading to its surfaces (see
    /// `spec_to_map`: with two entries for a reading, the later one counts).
    pub fn to_map(&self) -> (m: Vec<(String, Vec<String>)>)
        ensures
            m@.map_values(|p: (String, Vec<String>)| (p.0@, strings_view(p.1@))) == spec_to_map(
                self@,
            ),
    {
        let mut m: Vec<(String, Vec<String>)> = Vec::new();
        let ghost es = self@;
        let mut i: usize = 0;
        while i < self.entries.len()
            invariant
                i <= self.entries.len(),
                es == self@,
                m@.map_values(|p: (String, Vec<String>)| (p.0@, strings_view(p.1@))) == spec_to_map(
                    es.take(i as int),
                ),
            decreases self.entries.len() - i,
        {
            let ghost mv = m@.map_values(|p: (String, Vec<String>)| (p.0@, strings_view(p.1@)));
            assert(es.take(i + 1).drop_last() == es.take(i as int));
            assert(es.take(i + 1).last() == es[i as int]);
            assert(es[i as int] == entry_view(self.entries@[i as int]));
            let reading = self.entries[i].reading.clone();
            let surfaces = copy_strings(&self.entries[i].surfaces);
            let found = find_in_map(&m, reading.as_str());
            match found {
                Some(j) => {
                    let ghost before = m@;
                    m.set(j, (reading, surfaces));
                    assert(m@.map_values(|p: (String, Vec<String>)| (p.0@, strings_view(p.1@)))
                        =~= mv.update(j as int, es[i as int]));
                },
                None => {
                    let ghost before = m@;
                    m.push((reading, surfaces));
                    assert(m@.map_values(|p: (String, Vec<String>)| (p.0@, strings_view(p.1@)))
                        =~= mv.push(es[i as int]));
                },
            }
            i = i + 1;
        }
        assert(es.take(self.entries.len() as int) == es);
        m
    }
}


/// The entry of `es` that is the last one for its reading.
pub open spec fn last_for_reading(es: Seq<(Seq<char>, Seq<Seq<char>>)>, i: int) -> bool {
    0 <= i < es.len() && forall|j: int| i < j < es.len() ==> (#[trigger] es[j]).0 != es[i].0
}

/// The facts of `m` as the map of `es`: each reading once, each pair the
/// last entry for its reading, every reading of `es` present.
pub open spec fn map_of(es: Seq<(Seq<char>, Seq<Seq<char>>)>, m: Seq<(Seq<char>, Seq<Seq<char>>)>) -> bool {
    &&& unique_readings(m)
    &&& forall|k: int|
        0 <= k < m.len() ==> exists|i: int| last_for_reading(es, i) && es[i] == #[trigger] m[k]
    &&& forall|i: int|
        0 <= i < es.len() ==> exists|k: int| 0 <= k < m.len() && (#[trigger] m[k]).0 == (
        #[trigger] es[i]).0
}

proof fn lemma_map_of_update(
    init: Seq<(Seq<char>, Seq<Seq<char>>)>,
    e: (Seq<char>, Seq<Seq<char>>),
    m: Seq<(Seq<char>, Seq<Seq<char>>)>,
    jj: int,
)
    requires
        map_of(init, m),
        0 <= jj < m.len(),
        m[jj].0 == e.0,
    ensures
        map_of(init.push(e), m.update(jj, e)),
{
    let es = init.push(e);
    let r = m.update(jj, e);
    let n = init.len() as int;
    assert forall|i: int| 0 <= i < init.len() implies init[i] == es[i] by {}
    assert forall|a: int, b: int| 0 <= a < b < r.len() implies (#[trigger] r[a]).0 != (
    #[trigger] r[b]).0 by {
        assert(m[a].0 != m[b].0);
    }
    assert forall|k: int| 0 <= k < r.len() implies exists|i: int|
        last_for_reading(es, i) && es[i] == #[trigger] r[k] by {
        if k == jj {
            assert(es[n] == e);
            assert(last_for_reading(es, n));
        } else {
            let i = choose|i: int| last_for_reading(init, i) && init[i] == m[k];
            assert(m[k].0 != m[jj].0);
            assert(es[i] == init[i]);
            assert(last_for_reading(es, i));
        }
    }
    assert forall|i: int| 0 <= i < es.len() implies exists|k: int|
        0 <= k < r.len() && (#[trigger] r[k]).0 == (#[trigger] es[i]).0 by {
        if i == n {
            assert(r[jj].0 == es[i].0);
        } else {
            let k = choose|k: int| 0 <= k < m.len() && (#[trigger] m[k]).0 == init[i].0;
            assert(r[k].0 == m[k].0);
        }
    }
}

proof fn lemma_map_of_push(
    init: Seq<(Seq<char>, Seq<Seq<char>>)>,
    e: (Seq<char>, Seq<Seq<char>>),
    m: Seq<(Seq<char>, Seq<Seq<char>>)>,
)
    requires
        map_of(init, m),
        forall|j: int| 0 <= j < m.len() ==> (#[trigger] m[j]).0 != e.0,
    ensures
        map_of(init.push(e), m.push(e)),
{
    let es = init.push(e);
    let r = m.push(e);
    let n = init.len() as int;
    assert(es.len() == n + 1 && r.len() == m.len() + 1);
    assert(es[n] == e && r[m.len() as int] == e);
    assert forall|i: int| 0 <= i < init.len() implies init[i] == es[i] by {}
    assert forall|a: int, b: int| 0 <= a < b < r.len() implies (#[trigger] r[a]).0 != (
    #[trigger] r[b]).0 by {
        assert(r[a] == m[a]);
        if b < m.len() {
            assert(m[a].0 != m[b].0);
        }
    }
    assert forall|k: int| 0 <= k < r.len() implies exists|i: int|
        last_for_reading(es, i) && es[i] == #[trigger] r[k] by {
        if k == m.len() {
            assert(es[n] == e);
            assert(last_for_reading(es, n));
        } else {
            assert(r[k] == m[k]);
            let i = choose|i: int| last_for_reading(init, i) && init[i] == m[k];
            assert(es[i] == init[i]);
            assert(last_for_reading(es, i));
        }
    }
    assert forall|i: int| 0 <= i < es.len() implies exists|k: int|
        0 <= k < r.len() && (#[trigger] r[k]).0 == (#[trigger] es[i]).0 by {
        if i == n {
            assert(r[m.len() as int].0 == es[i].0);
        } else {
            let k = choose|k: int| 0 <= k < m.len() && (#[trigger] m[k]).0 == init[i].0;
            assert(r[k] == m[k]);
        }
    }
    assert(map_of(es, r));
}

/// `to_map` on any entries: one pair per reading of the entries (and no
/// other), each reading once, with the surfaces of the last entry for it.
pub proof fn lemma_to_map_last_wins(es: Seq<(Seq<char>, Seq<Seq<char>>)>)
    ensures
        map_of(es, spec_to_map(es)),
    decreases es.len(),
{
    if es.len() > 0 {
        let init = es.drop_last();
        let e = es.last();
        assert(es == init.push(e));
        lemma_to_map_last_wins(init);
        let m = spec_to_map(init);
        lemma_find_first(m, e.0);
        match find_first(m, e.0) {
            Some(jj) => lemma_map_of_update(init, e, m, jj),
            None => lemma_map_of_push(init, e, m),
        }
    } else {
        assert(spec_to_map(es) == Seq::<(Seq<char>, Seq<Seq<char>>)>::empty());
    }
}

} // verus!
