//! The text around the kana-kanji model: the prompt in jinen form, the budget
//! of tokens, and the cleaning of what the model writes (furigana in
//! brackets, repeated tails, outputs too short for the reading).
use vstd::prelude::*;

use crate::kana::{spec_is_hiragana, spec_is_katakana};
use crate::keymap::{spec_trim, trim_chars};
use crate::text::{chars_of, in_range, owned, push_char, push_str, string_of};

verus! {

/// A token of the model's vocabulary.
#[derive(Debug, Clone, Copy, PartialEq, Eq, Hash, Structural)]
pub struct LlamaToken(pub i32);

/// The context mark of the jinen prompt format.
pub const CONTEXT_TOKEN: char = '\u{EE02}';

/// The mark before the input.
pub const INPUT_START_TOKEN: char = '\u{EE00}';

/// The mark before the output.
pub const OUTPUT_START_TOKEN: char = '\u{EE01}';

/// How many tokens the model may write for a reading: twice its length plus
/// eight, at least the configured number, at most 256.
pub open spec fn spec_generation_budget(reading_chars: nat, config_max_new_tokens: nat) -> nat {
    let grown = 2 * reading_chars + 8;
    let m = if config_max_new_tokens > grown {
        config_max_new_tokens
    } else {
        grown
    };
    if m > 256 {
        256
    } else {
        m
    }
}

pub fn generation_budget(reading: &str, config_max_new_tokens: usize) -> (r: usize)
    ensures
        r as nat == spec_generation_budget(reading@.len(), config_max_new_tokens as nat),
{
    let n = chars_of(reading).len();
    let grown: usize = if n > 1000 {
        1000
    } else {
        n * 2 + 8
    };
    let m = if config_max_new_tokens > grown {
        config_max_new_tokens
    } else {
        grown
    };
    if m > 256 {
        256
    } else {
        m
    }
}

/// The prompt: context mark, context, instruction, input mark, the reading in
/// katakana, output mark.
pub open spec fn spec_jinen_prompt(katakana: Seq<char>, context: Seq<char>, instr: Seq<char>) -> Seq<
    char,
> {
    seq![CONTEXT_TOKEN] + context + instr + seq![INPUT_START_TOKEN] + katakana + seq![
        OUTPUT_START_TOKEN,
    ]
}

/// Builds the prompt in jinen form; `instr` is an optional instruction put
/// between the context and the input.
pub fn build_jinen_prompt(katakana: &str, context: &str, instr: &str) -> (r: String)
    ensures
        r@ == spec_jinen_prompt(katakana@, context@, instr@),
{
    let mut r = String::new();
    push_char(&mut r, CONTEXT_TOKEN);
    push_str(&mut r, context);
    push_str(&mut r, instr);
    push_char(&mut r, INPUT_START_TOKEN);
    push_str(&mut r, katakana);
    push_char(&mut r, OUTPUT_START_TOKEN);
    assert(r@ =~= spec_jinen_prompt(katakana@, context@, instr@));
    r
}

/// Hiragana, katakana up to `ー`, `ー`, `・` and the halfwidth `ｰ`.
pub open spec fn spec_is_kana_or_prolonged(c: char) -> bool {
    spec_is_hiragana(c) || in_range(c, 0x30A1, 0x30FC) || c == '\u{30FC}' || c == '\u{30FB}' || c
        == '\u{FF70}'
}

pub fn is_kana_or_prolonged(c: char) -> (b: bool)
    ensures
        b == spec_is_kana_or_prolonged(c),
{
    let n = c as u32;
    (0x3041 <= n && n <= 0x3096) || (0x30A1 <= n && n <= 0x30FC) || c == '\u{30FC}' || c
        == '\u{30FB}' || c == '\u{FF70}'
}

/// The closing bracket of an opening one (fullwidth or ASCII parenthesis).
pub open spec fn closing_of(c: char) -> Option<char> {
    if c == '\u{FF08}' {
        Some('\u{FF09}')
    } else if c == '(' {
        Some(')')
    } else {
        None
    }
}

/// The (at most) 30 characters after the first.
pub open spec fn lookahead(s: Seq<char>) -> Seq<char> {
    if s.len() - 1 < 30 {
        s.skip(1)
    } else {
        s.skip(1).take(30)
    }
}

/// For `s` that opens a bracket: the length of what stands before its close
/// when the close comes within the next 30 characters, else -1.
pub open spec fn bracket_inner_len(s: Seq<char>) -> int {
    match closing_of(s[0]) {
        Some(close) => crate::text::first_index(lookahead(s), close),
        None => -1,
    }
}

/// `s` with each bracket that holds only kana (one or more) dropped together
/// with its content; a bracket's close is looked for within 30 characters.
pub open spec fn spec_strip_furigana(s: Seq<char>) -> Seq<char>
    decreases s.len(),
{
    if s.len() == 0 {
        seq![]
    } else {
        let k = bracket_inner_len(s);
        if k > 0 && forall|j: int| 1 <= j <= k ==> spec_is_kana_or_prolonged(#[trigger] s[j]) {
            proof {
                lemma_bracket_inner_len(s);
            }
            spec_strip_furigana(s.skip(k + 2))
        } else {
            seq![s[0]] + spec_strip_furigana(s.skip(1))
        }
    }
}

pub proof fn lemma_bracket_inner_len(s: Seq<char>)
    requires
        s.len() > 0,
    ensures
        bracket_inner_len(s) >= 0 ==> bracket_inner_len(s) + 2 <= s.len() && closing_of(s[0]) is Some
            && s[bracket_inner_len(s) + 1] == closing_of(s[0])->0 && bracket_inner_len(s) < 30,
{
    match closing_of(s[0]) {
        Some(close) => {
            let t = lookahead(s);
            crate::text::lemma_first_index_found(t, close);
            let k = crate::text::first_index(t, close);
            if k >= 0 {
                assert(t[k] == s[k + 1]);
            }
        },
        None => {},
    }
}

/// Drops brackets that hold only kana (see `spec_strip_furigana`).
pub fn strip_furigana(text: &str) -> (r: String)
    ensures
        r@ == spec_strip_furigana(text@),
{
    let v = chars_of(text);
    let mut r = String::new();
    let mut i: usize = 0;
    assert(v@.skip(0) == v@);
    while i < v.len()
        invariant
            i <= v.len(),
            v@ == text@,
            r@ + spec_strip_furigana(v@.skip(i as int)) == spec_strip_furigana(v@),
        decreases v.len() - i,
    {
        let ghost rest = v@.skip(i as int);
        proof {
            lemma_bracket_inner_len(rest);
        }
        let c = v[i];
        let close = if c == '\u{FF08}' {
            Some('\u{FF09}')
        } else if c == '(' {
            Some(')')
        } else {
            None
        };
        let mut skip_to: usize = 0;
        match close {
            Some(cl) => {
                let mut j: usize = 0;
                while j < 30 && i + 1 + j < v.len() && v[i + 1 + j] != cl
                    invariant
                        j <= 30,
                        i < v.len(),
                        i + 1 + j <= v.len(),
                        forall|m: int| i + 1 <= m < i + 1 + j ==> v@[m] != cl,
                    decreases 30 - j,
                {
                    j = j + 1;
                }
                let ghost t = lookahead(rest);
                assert(rest.skip(1).len() == v.len() - i - 1);
                proof {
                    assert forall|m: int| 0 <= m < j implies t[m] != cl by {
                        assert(t[m] == v@[i + 1 + m]);
                        assert(v@[i + 1 + m] != cl);
                    }
                    if j < 30 && i + 1 + j < v.len() {
                        assert(t[j as int] == v@[i + 1 + j]);
                    }
                    crate::text::lemma_first_index(
                        t,
                        cl,
                        if j < t.len() {
                            j as int
                        } else {
                            t.len() as int
                        },
                    );
                }
                if j < 30 && i + 1 + j < v.len() && j > 0 {
                    let mut all_kana = true;
                    let mut m: usize = 1;
                    while m <= j
                        invariant
                            1 <= m <= j + 1,
                            i + 1 + j < v.len(),
                            all_kana ==> forall|q: int|
                                1 <= q < m ==> spec_is_kana_or_prolonged(#[trigger] v@[i + q]),
                            !all_kana ==> exists|q: int|
                                1 <= q <= j && !spec_is_kana_or_prolonged(#[trigger] v@[i + q]),
                        decreases j + 1 - m,
                    {
                        if !is_kana_or_prolonged(v[i + m]) {
                            all_kana = false;
                        }
                        m = m + 1;
                    }
                    if all_kana {
                        skip_to = i + j + 2;
                        assert forall|q: int| 1 <= q <= j implies spec_is_kana_or_prolonged(
                            #[trigger] rest[q],
                        ) by {
                            assert(rest[q] == v@[i + q]);
                        }
                    } else {
                        let ghost q = choose|q: int|
                            1 <= q <= j && !spec_is_kana_or_prolonged(#[trigger] v@[i + q]);
                        assert(rest[q] == v@[i + q]);
                    }
                }
            },
            None => {},
        }
        if skip_to > 0 {
            assert(rest.skip(skip_to - i) == v@.skip(skip_to as int));
            i = skip_to;
        } else {
            assert(rest.skip(1) == v@.skip(i + 1));
            let ghost before = r@;
            push_char(&mut r, c);
            assert(r@ + spec_strip_furigana(v@.skip(i + 1)) == before + spec_strip_furigana(rest));
            i = i + 1;
        }
    }
    assert(v@.skip(i as int) == Seq::<char>::empty());
    assert(r@ + seq![] == r@);
    r
}

/// The model's output trimmed of white space, then of kana-only brackets.
pub fn clean_model_output(text: &str) -> (r: String)
    ensures
        r@ == spec_strip_furigana(spec_trim(text@)),
{
    let v = chars_of(text);
    let t = trim_chars(&v, 0, v.len());
    assert(v@.subrange(0, v.len() as int) == v@);
    strip_furigana(t.as_str())
}

// ─── repeated tails ─────────────────────────────────────────────────────────

/// Whether the last `seg` characters of `o` repeat the `seg` before them.
pub open spec fn repeats_tail(o: Seq<char>, seg: int) -> bool {
    o.subrange(o.len() - seg, o.len() as int) == o.subrange(o.len() - 2 * seg, o.len() - seg)
}

/// The shortest repeated tail of `o` from `seg` up (0 when none up to half
/// of `o`).
pub open spec fn shortest_repeat_from(o: Seq<char>, seg: int) -> int
    decreases o.len() / 2 - seg + 1,
{
    if seg < 1 || seg > o.len() / 2 {
        0
    } else if repeats_tail(o, seg) {
        seg
    } else {
        shortest_repeat_from(o, seg + 1)
    }
}

/// While the output is longer than the reading and ends with a repeated tail,
/// the last copy of the shortest such tail is dropped.
pub open spec fn spec_trim_repetition(reading_chars: nat, o: Seq<char>) -> Seq<char>
    decreases o.len(),
{
    if o.len() <= reading_chars {
        o
    } else {
        let seg = shortest_repeat_from(o, 1);
        if seg <= 0 {
            o
        } else {
            proof {
                lemma_shortest_repeat_from(o, 1);
            }
            spec_trim_repetition(reading_chars, o.take(o.len() - seg))
        }
    }
}

pub proof fn lemma_shortest_repeat_from(o: Seq<char>, seg: int)
    ensures
        shortest_repeat_from(o, seg) == 0 || (1 <= seg <= shortest_repeat_from(o, seg) <= o.len()
            / 2 && repeats_tail(o, shortest_repeat_from(o, seg))),
    decreases o.len() / 2 - seg + 1,
{
    if seg >= 1 && seg <= o.len() / 2 && !repeats_tail(o, seg) {
        lemma_shortest_repeat_from(o, seg + 1);
    }
}

/// `shortest_repeat_from(o, seg)` is 0 only when no tail from `seg` up to half
/// of `o` repeats.
proof fn lemma_no_repeat_from(o: Seq<char>, seg: int)
    requires
        seg >= 1,
        shortest_repeat_from(o, seg) == 0,
    ensures
        forall|k: int| seg <= k <= o.len() / 2 ==> !#[trigger] repeats_tail(o, k),
    decreases o.len() / 2 - seg + 1,
{
    if seg <= o.len() / 2 {
        lemma_no_repeat_from(o, seg + 1);
    }
}

/// Trimming keeps a prefix of the output; an output no longer than the
/// reading is kept whole; and what is left is either no longer than the
/// reading or ends in no repeated tail.
pub proof fn lemma_trim_repetition_law(reading_chars: nat, o: Seq<char>)
    ensures
        spec_trim_repetition(reading_chars, o).len() <= o.len(),
        spec_trim_repetition(reading_chars, o) == o.take(
            spec_trim_repetition(reading_chars, o).len() as int,
        ),
        o.len() <= reading_chars ==> spec_trim_repetition(reading_chars, o) == o,
        ({
            let r = spec_trim_repetition(reading_chars, o);
            r.len() <= reading_chars || forall|k: int|
                1 <= k <= r.len() / 2 ==> !#[trigger] repeats_tail(r, k)
        }),
    decreases o.len(),
{
    if o.len() > reading_chars {
        let seg = shortest_repeat_from(o, 1);
        lemma_shortest_repeat_from(o, 1);
        if seg <= 0 {
            lemma_no_repeat_from(o, 1);
            assert(o.take(o.len() as int) =~= o);
        } else {
            let t = o.take(o.len() - seg);
            lemma_trim_repetition_law(reading_chars, t);
            let r = spec_trim_repetition(reading_chars, t);
            assert(r =~= o.take(r.len() as int));
        }
    }
}

fn tail_repeats(o: &Vec<char>, seg: usize) -> (b: bool)
    requires
        1 <= seg,
        2 * seg <= o.len(),
    ensures
        b == repeats_tail(o@, seg as int),
{
    let n = o.len();
    let ghost tail = o@.subrange(n - seg, n as int);
    let ghost before = o@.subrange(n - 2 * seg, n - seg);
    let mut k: usize = 0;
    while k < seg
        invariant
            k <= seg,
            n == o.len(),
            2 * seg <= n,
            tail == o@.subrange(n - seg, n as int),
            before == o@.subrange(n - 2 * seg, n - seg),
            forall|m: int| 0 <= m < k ==> #[trigger] tail[m] == before[m],
        decreases seg - k,
    {
        assert(tail[k as int] == o@[n - seg + k]);
        assert(before[k as int] == o@[n - 2 * seg + k]);
        if o[n - seg + k] != o[n - 2 * seg + k] {
            return false;
        }
        k = k + 1;
    }
    assert(tail =~= before);
    true
}

/// Trims repeated tails off an output longer than its reading (see
/// `spec_trim_repetition`).
pub fn trim_output_repetition(reading_chars: usize, output: &str) -> (r: String)
    ensures
        r@ == spec_trim_repetition(reading_chars as nat, output@),
{
    let mut o = chars_of(output);
    loop
        invariant
            spec_trim_repetition(reading_chars as nat, o@) == spec_trim_repetition(
                reading_chars as nat,
                output@,
            ),
        decreases o.len(),
    {
        if o.len() <= reading_chars {
            return string_of(&o);
        }
        let mut seg: usize = 1;
        let mut found: usize = 0;
        proof {
            lemma_shortest_repeat_from(o@, 1);
        }
        while found == 0 && seg <= o.len() / 2
            invariant
                1 <= seg,
                found == 0 ==> shortest_repeat_from(o@, 1) == shortest_repeat_from(o@, seg as int),
                found != 0 ==> shortest_repeat_from(o@, 1) == found as int && 1 <= found <= o.len()
                    / 2,
            decreases o.len() / 2 + 1 - seg + (if found == 0 {
                1int
            } else {
                0int
            }),
        {
            if tail_repeats(&o, seg) {
                found = seg;
            } else {
                seg = seg + 1;
            }
        }
        if found == 0 {
            return string_of(&o);
        }
        let keep = o.len() - found;
        let t = crate::text::sub_vec(&o, 0, keep);
        assert(t@ == o@.take(keep as int));
        o = t;
    }
}

// ─── after decoding ─────────────────────────────────────────────────────────

/// A decoded output as a candidate: cleaned, then (unless `no_trim`) trimmed
/// of repeated tails down towards the reading's length.
pub open spec fn spec_clean_candidate(reading_chars: nat, decoded: Seq<char>, no_trim: bool) -> Seq<
    char,
> {
    let c = spec_strip_furigana(spec_trim(decoded));
    if no_trim {
        c
    } else {
        spec_trim_repetition(reading_chars, c)
    }
}

/// An output is long enough for its reading when it has at least a third of
/// the reading's characters (the check is off with `no_trim`).
pub open spec fn long_enough(reading_chars: nat, c: Seq<char>, no_trim: bool) -> bool {
    no_trim || 3 * c.len() >= reading_chars
}

pub fn clean_candidate(reading_chars: usize, decoded: &str, no_trim: bool) -> (r: String)
    ensures
        r@ == spec_clean_candidate(reading_chars as nat, decoded@, no_trim),
{
    let c = clean_model_output(decoded);
    if no_trim {
        c
    } else {
        trim_output_repetition(reading_chars, c.as_str())
    }
}

/// The candidates of a greedy conversion: its cleaned output when that is not
/// empty and long enough, else the reading itself.
pub fn greedy_candidates(reading: &str, decoded: &str, no_trim: bool) -> (r: Vec<String>)
    ensures
        ({
            let c = spec_clean_candidate(reading@.len(), decoded@, no_trim);
            r@.map_values(|x: String| x@) == if c.len() > 0 && long_enough(
                reading@.len(),
                c,
                no_trim,
            ) {
                seq![c]
            } else {
                seq![reading@]
            }
        }),
{
    let n = chars_of(reading).len();
    let c = clean_candidate(n, decoded, no_trim);
    let len = chars_of(c.as_str()).len();
    let mut r: Vec<String> = Vec::new();
    if len > 0 && (no_trim || len >= n / 3 + (if n % 3 == 0 { 0 } else { 1 })) {
        r.push(c);
    } else {
        r.push(owned(reading));
    }
    assert(r@.map_values(|x: String| x@) =~= seq![r@[0]@]);
    r
}

/// The texts of a beam search that become candidates, each with the index of
/// its beam: cleaned outputs that are not empty, not a repeat of an earlier
/// one, and long enough. (Ranking them by confidence is left to the caller.)
pub open spec fn spec_beam_texts(reading_chars: nat, decoded: Seq<Seq<char>>, no_trim: bool) -> Seq<
    (Seq<char>, int),
>
    decreases decoded.len(),
{
    if decoded.len() == 0 {
        seq![]
    } else {
        let prev = spec_beam_texts(reading_chars, decoded.drop_last(), no_trim);
        let c = spec_clean_candidate(reading_chars, decoded.last(), no_trim);
        if c.len() == 0 || (exists|k: int| 0 <= k < prev.len() && (#[trigger] prev[k]).0 == c)
            || !long_enough(reading_chars, c, no_trim) {
            prev
        } else {
            prev.push((c, decoded.len() - 1))
        }
    }
}

pub fn beam_texts(reading: &str, decoded: &Vec<String>, no_trim: bool) -> (r: Vec<(String, usize)>)
    ensures
        r@.map_values(|p: (String, usize)| (p.0@, p.1 as int)) == spec_beam_texts(
            reading@.len(),
            decoded@.map_values(|x: String| x@),
            no_trim,
        ),
{
    let n = chars_of(reading).len();
    let ghost dv = decoded@.map_values(|x: String| x@);
    let mut r: Vec<(String, usize)> = Vec::new();
    let mut i: usize = 0;
    while i < decoded.len()
        invariant
            i <= decoded.len(),
            n == reading@.len(),
            dv == decoded@.map_values(|x: String| x@),
            r@.map_values(|p: (String, usize)| (p.0@, p.1 as int)) == spec_beam_texts(
                n as nat,
                dv.take(i as int),
                no_trim,
            ),
        decreases decoded.len() - i,
    {
        let ghost rv = r@.map_values(|p: (String, usize)| (p.0@, p.1 as int));
        assert(dv.take(i + 1).drop_last() == dv.take(i as int));
        assert(dv.take(i + 1).last() == decoded@[i as int]@);
        let c = clean_candidate(n, decoded[i].as_str(), no_trim);
        let len = chars_of(c.as_str()).len();
        let mut dup = false;
        let mut k: usize = 0;
        while k < r.len()
            invariant
                k <= r.len(),
                rv == r@.map_values(|p: (String, usize)| (p.0@, p.1 as int)),
                dup == exists|q: int| 0 <= q < k && (#[trigger] rv[q]).0 == c@,
            decreases r.len() - k,
        {
            assert(rv[k as int].0 == r@[k as int].0@);
            if crate::text::str_eq(r[k].0.as_str(), c.as_str()) {
                dup = true;
            }
            k = k + 1;
        }
        let ok = len > 0 && !dup && (no_trim || len >= n / 3 + (if n % 3 == 0 { 0 } else { 1 }));
        if ok {
            let ghost cv = c@;
            r.push((c, i));
            assert(r@.map_values(|p: (String, usize)| (p.0@, p.1 as int)) =~= rv.push(
                (cv, i as int),
            ));
        }
        i = i + 1;
    }
    assert(dv.take(decoded.len() as int) == dv);
    r
}

// ─── the model files ────────────────────────────────────────────────────────

/// Where a model lies and how it runs: the GGUF file, the tokenizer, a
/// display name, the layers on the GPU (0 for none, `u32::MAX` for all) and
/// the GPU's index.
#[derive(Debug, Clone)]
pub struct Backend {
    gguf_path: String,
    tokenizer_json_path: String,
    display_name: String,
    pub n_gpu_layers: u32,
    pub main_gpu: i32,
}

impl Backend {
    pub closed spec fn spec_gguf_path(&self) -> Seq<char> {
        self.gguf_path@
    }

    pub closed spec fn spec_tokenizer_path(&self) -> Seq<char> {
        self.tokenizer_json_path@
    }

    pub closed spec fn spec_display_name(&self) -> Seq<char> {
        self.display_name@
    }

    pub closed spec fn spec_n_gpu_layers(&self) -> u32 {
        self.n_gpu_layers
    }

    pub closed spec fn spec_main_gpu(&self) -> i32 {
        self.main_gpu
    }

    /// A model variant whose files are in place (found or downloaded by the
    /// caller), named by its variant id, on the CPU.
    pub fn from_variant_files(gguf_path: &str, tokenizer_json_path: &str, variant_id: &str) -> (b:
        Backend)
        ensures
            b.spec_gguf_path() == gguf_path@,
            b.spec_tokenizer_path() == tokenizer_json_path@,
            b.spec_display_name() == variant_id@,
            b.spec_n_gpu_layers() == 0,
            b.spec_main_gpu() == 0,
    {
        Backend {
            gguf_path: owned(gguf_path),
            tokenizer_json_path: owned(tokenizer_json_path),
            display_name: owned(variant_id),
            n_gpu_layers: 0,
            main_gpu: 0,
        }
    }

    /// The same backend with `n` layers on the GPU.
    pub fn with_n_gpu_layers(self, n: u32) -> (b: Backend)
        ensures
            b.spec_n_gpu_layers() == n,
            b.spec_main_gpu() == self.spec_main_gpu(),
            b.spec_gguf_path() == self.spec_gguf_path(),
            b.spec_tokenizer_path() == self.spec_tokenizer_path(),
            b.spec_display_name() == self.spec_display_name(),
    {
        let mut b = self;
        b.n_gpu_layers = n;
        b
    }

    /// The same backend on GPU `gpu` (-1 to choose automatically).
    pub fn with_main_gpu(self, gpu: i32) -> (b: Backend)
        ensures
            b.spec_main_gpu() == gpu,
            b.spec_n_gpu_layers() == self.spec_n_gpu_layers(),
            b.spec_gguf_path() == self.spec_gguf_path(),
            b.spec_tokenizer_path() == self.spec_tokenizer_path(),
            b.spec_display_name() == self.spec_display_name(),
    {
        let mut b = self;
        b.main_gpu = gpu;
        b
    }

    pub fn gguf_path(&self) -> (r: &str)
        ensures
            r@ == self.spec_gguf_path(),
    {
        self.gguf_path.as_str()
    }

    pub fn tokenizer_json_path(&self) -> (r: &str)
        ensures
            r@ == self.spec_tokenizer_path(),
    {
        self.tokenizer_json_path.as_str()
    }

    pub fn display_name(&self) -> (r: &str)
        ensures
            r@ == self.spec_display_name(),
    {
        self.display_name.as_str()
    }
}

} // verus!
