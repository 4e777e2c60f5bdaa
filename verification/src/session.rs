//! The input method's session: the state of the composition between key
//! presses (a reading being typed, a live preview, candidates shown, a range
//! selected with Shift+Left/Right, a reading split at punctuation into
//! blocks), and the step that a key makes from one state to the next, with
//! the actions the text service is to perform: conversion, raw commit,
//! typing (romaji and raw), Shift+Left/Right, Escape, Backspace, punctuation,
//! F6 to F10, and the mode keys. The text service performs the actions and
//! hands the engine's answers back in an `EngineSnapshot`; where the engine
//! answers in the middle of a key, the step is split in two (`*_begin` and
//! the step after).
use vstd::prelude::*;

use crate::ime::{live_continuation_display, spec_live_continuation_display, InputMode};
use crate::text_util::suffix_after_prefix_or_empty;
use crate::text::{chars_of, owned, push_char, push_str, str_eq, string_of_range};
use crate::text_util::{
    block_views, contains_kuten, kana_convert_source, latin_convert_text,
    numeric_separator_after_digit, spec_contains_kuten, spec_numeric_separator_after_digit,
    spec_has_kana, spec_latin_convert_text, spec_split_by_punctuation, spec_to_half_katakana,
    spec_to_hiragana, spec_to_katakana, split_by_punctuation, to_half_katakana, to_hiragana,
    to_katakana,
};

verus! {

// ─── the state ──────────────────────────────────────────────────────────────

/// One block of a reading split at punctuation: its reading, the punctuation
/// after it, its candidates and the one chosen.
#[derive(Debug)]
pub struct ConversionBlock {
    pub reading: String,
    pub trailing_punct: Option<char>,
    pub candidates: Vec<String>,
    pub selected: usize,
}

/// The state of the composition.
#[derive(Debug)]
pub enum SessionState {
    /// No composition.
    Idle,
    /// A reading being typed (held by the engine).
    Preedit { text: String },
    /// A conversion asked for and not yet shown.
    Waiting { text: String },
    /// Candidates shown for `original`: the one chosen is shown between
    /// `prefix` and `suffix`; `rest_reading` is the reading that goes on being
    /// composed once the choice is committed.
    Selecting {
        original: String,
        candidates: Vec<String>,
        selected: usize,
        prefix: String,
        suffix: String,
        rest_reading: String,
        punct: Option<char>,
        llm_pending: bool,
    },
    /// A live preview of the reading.
    LiveConv { reading: String, preview: String },
    /// The first `select_end` characters of the reading selected.
    RangeSelect { reading: String, select_end: usize, preview: String },
    /// A reading split at punctuation, block `current` being chosen, the text
    /// of the blocks before it in `accumulated`.
    BlockSelecting {
        full_reading: String,
        blocks: Vec<ConversionBlock>,
        current: usize,
        accumulated: String,
    },
}

pub struct BlockModel {
    pub reading: Seq<char>,
    pub punct: Option<char>,
    pub candidates: Seq<Seq<char>>,
    pub selected: nat,
}

/// The state as values.
pub enum SessionModel {
    Idle,
    Preedit { text: Seq<char> },
    Waiting { text: Seq<char> },
    Selecting {
        original: Seq<char>,
        candidates: Seq<Seq<char>>,
        selected: nat,
        prefix: Seq<char>,
        suffix: Seq<char>,
        rest_reading: Seq<char>,
        punct: Option<char>,
        llm_pending: bool,
    },
    LiveConv { reading: Seq<char>, preview: Seq<char> },
    RangeSelect { reading: Seq<char>, select_end: nat, preview: Seq<char> },
    BlockSelecting {
        full_reading: Seq<char>,
        blocks: Seq<BlockModel>,
        current: nat,
        accumulated: Seq<char>,
    },
}

pub open spec fn strs(v: Seq<String>) -> Seq<Seq<char>> {
    v.map_values(|s: String| s@)
}

pub open spec fn block_model(b: ConversionBlock) -> BlockModel {
    BlockModel {
        reading: b.reading@,
        punct: b.trailing_punct,
        candidates: strs(b.candidates@),
        selected: b.selected as nat,
    }
}

pub open spec fn blocks_model(v: Seq<ConversionBlock>) -> Seq<BlockModel> {
    v.map_values(|b: ConversionBlock| block_model(b))
}

impl View for SessionState {
    type V = SessionModel;

    open spec fn view(&self) -> SessionModel {
        match self {
            SessionState::Idle => SessionModel::Idle,
            SessionState::Preedit { text } => SessionModel::Preedit { text: text@ },
            SessionState::Waiting { text } => SessionModel::Waiting { text: text@ },
            SessionState::Selecting {
                original,
                candidates,
                selected,
                prefix,
                suffix,
                rest_reading,
                punct,
                llm_pending,
            } => SessionModel::Selecting {
                original: original@,
                candidates: strs(candidates@),
                selected: *selected as nat,
                prefix: prefix@,
                suffix: suffix@,
                rest_reading: rest_reading@,
                punct: *punct,
                llm_pending: *llm_pending,
            },
            SessionState::LiveConv { reading, preview } => SessionModel::LiveConv {
                reading: reading@,
                preview: preview@,
            },
            SessionState::RangeSelect { reading, select_end, preview } => SessionModel::RangeSelect {
                reading: reading@,
                select_end: *select_end as nat,
                preview: preview@,
            },
            SessionState::BlockSelecting { full_reading, blocks, current, accumulated } =>
                SessionModel::BlockSelecting {
                full_reading: full_reading@,
                blocks: blocks_model(blocks@),
                current: *current as nat,
                accumulated: accumulated@,
            },
        }
    }
}

/// A list of candidates with a valid choice (none chosen of an empty list).
pub open spec fn choice_ok(candidates: Seq<Seq<char>>, selected: nat) -> bool {
    selected < candidates.len() || (candidates.len() == 0 && selected == 0)
}

/// The state's invariant: a valid choice of candidates, a selection within
/// the reading, a current block among the blocks.
pub open spec fn session_wf(s: SessionModel) -> bool {
    match s {
        SessionModel::Selecting { candidates, selected, .. } => choice_ok(candidates, selected),
        SessionModel::RangeSelect { reading, select_end, .. } => select_end <= reading.len(),
        SessionModel::BlockSelecting { blocks, current, .. } => current < blocks.len() && forall|
            i: int,
        | 0 <= i < blocks.len() ==> choice_ok(#[trigger] blocks[i].candidates, blocks[i].selected),
        _ => true,
    }
}

// ─── the actions ────────────────────────────────────────────────────────────

/// What the text service and the engine are asked to do, in order.
#[derive(Debug)]
pub enum TsfAction {
    /// Show the composition as three parts, the middle one focused.
    ShowParts { prefix: String, focused: String, rest: String },
    /// Hide the candidate window.
    HideCandidates,
    /// Stop the live-conversion timer.
    StopLiveTimer,
    /// Take the converter back from a background conversion.
    BgReclaim,
    /// Set the engine's reading.
    ForcePreedit(String),
    /// Record a conversion choice.
    Learn { reading: String, surface: String },
    /// Commit text in the engine and clear its reading.
    EngineCommit(String),
    /// End the composition with this text.
    EndComposition(String),
    /// Commit text and start a new composition showing `composing`.
    CommitThenStart { committed: String, composing: String },
    /// Type the reading into the engine again and restart live conversion.
    Retype(String),
    /// Commit text outside a composition.
    CommitText(String),
    /// Show candidates, one of them chosen.
    ShowCandidates { candidates: Vec<String>, selected: usize },
    /// Drop the queued live preview and deferred composition update.
    ClearLiveQueues,
    /// Type a character into the engine (as a fullwidth letter when asked).
    PushChar { c: char, fullwidth_alpha: bool },
    /// Start live conversion of the reading when the engine is ready.
    StartLive(String),
    /// Show the composition as this text.
    ShowComposition(String),
    /// Stop the timer that waits for a conversion.
    StopWaitingTimer,
    /// Clear the engine's reading and everything typed.
    ResetEngine,
    /// Keep the live conversion from committing the text just set.
    SuppressLiveCommit,
    /// Write a character into the engine's reading as it is, past the romaji
    /// rules.
    PushRaw(char),
}

pub enum ActionModel {
    ShowParts { prefix: Seq<char>, focused: Seq<char>, rest: Seq<char> },
    HideCandidates,
    StopLiveTimer,
    BgReclaim,
    ForcePreedit(Seq<char>),
    Learn { reading: Seq<char>, surface: Seq<char> },
    EngineCommit(Seq<char>),
    EndComposition(Seq<char>),
    CommitThenStart { committed: Seq<char>, composing: Seq<char> },
    Retype(Seq<char>),
    CommitText(Seq<char>),
    ShowCandidates { candidates: Seq<Seq<char>>, selected: nat },
    ClearLiveQueues,
    PushChar { c: char, fullwidth_alpha: bool },
    StartLive(Seq<char>),
    ShowComposition(Seq<char>),
    StopWaitingTimer,
    ResetEngine,
    SuppressLiveCommit,
    PushRaw(char),
}

impl View for TsfAction {
    type V = ActionModel;

    open spec fn view(&self) -> ActionModel {
        match self {
            TsfAction::ShowParts { prefix, focused, rest } => ActionModel::ShowParts {
                prefix: prefix@,
                focused: focused@,
                rest: rest@,
            },
            TsfAction::HideCandidates => ActionModel::HideCandidates,
            TsfAction::StopLiveTimer => ActionModel::StopLiveTimer,
            TsfAction::BgReclaim => ActionModel::BgReclaim,
            TsfAction::ForcePreedit(s) => ActionModel::ForcePreedit(s@),
            TsfAction::Learn { reading, surface } => ActionModel::Learn {
                reading: reading@,
                surface: surface@,
            },
            TsfAction::EngineCommit(s) => ActionModel::EngineCommit(s@),
            TsfAction::EndComposition(s) => ActionModel::EndComposition(s@),
            TsfAction::CommitThenStart { committed, composing } => ActionModel::CommitThenStart {
                committed: committed@,
                composing: composing@,
            },
            TsfAction::Retype(s) => ActionModel::Retype(s@),
            TsfAction::CommitText(s) => ActionModel::CommitText(s@),
            TsfAction::ShowCandidates { candidates, selected } => ActionModel::ShowCandidates {
                candidates: strs(candidates@),
                selected: *selected as nat,
            },
            TsfAction::ClearLiveQueues => ActionModel::ClearLiveQueues,
            TsfAction::PushChar { c, fullwidth_alpha } => ActionModel::PushChar {
                c: *c,
                fullwidth_alpha: *fullwidth_alpha,
            },
            TsfAction::StartLive(s) => ActionModel::StartLive(s@),
            TsfAction::ShowComposition(s) => ActionModel::ShowComposition(s@),
            TsfAction::StopWaitingTimer => ActionModel::StopWaitingTimer,
            TsfAction::ResetEngine => ActionModel::ResetEngine,
            TsfAction::SuppressLiveCommit => ActionModel::SuppressLiveCommit,
            TsfAction::PushRaw(c) => ActionModel::PushRaw(*c),
        }
    }
}

pub open spec fn actions_model(v: Seq<TsfAction>) -> Seq<ActionModel> {
    v.map_values(|a: TsfAction| a@)
}

// ─── helpers ────────────────────────────────────────────────────────────────

fn copy_str(s: &String) -> (r: String)
    ensures
        r@ == s@,
{
    owned(s.as_str())
}

fn copy_strs(v: &Vec<String>) -> (r: Vec<String>)
    ensures
        strs(r@) == strs(v@),
{
    let mut r: Vec<String> = Vec::new();
    let mut i: usize = 0;
    while i < v.len()
        invariant
            i <= v.len(),
            strs(r@) == strs(v@).take(i as int),
        decreases v.len() - i,
    {
        let s = copy_str(&v[i]);
        let ghost before = r@;
        r.push(s);
        assert(strs(r@) =~= strs(before).push(s@));
        assert(strs(v@).take(i + 1) =~= strs(v@).take(i as int).push(v@[i as int]@));
        i = i + 1;
    }
    assert(strs(v@).take(v.len() as int) =~= strs(v@));
    r
}

fn concat(a: &str, b: &str) -> (r: String)
    ensures
        r@ == a@ + b@,
{
    let mut r = owned(a);
    push_str(&mut r, b);
    r
}

/// The actions that show a range selection: the selected part focused, the
/// rest after it.
pub open spec fn show_range(reading: Seq<char>, end: nat) -> ActionModel {
    ActionModel::ShowParts {
        prefix: seq![],
        focused: reading.take(end as int),
        rest: reading.skip(end as int),
    }
}

fn show_range_action(v: &Vec<char>, end: usize) -> (a: TsfAction)
    requires
        end <= v.len(),
    ensures
        a@ == show_range(v@, end as nat),
{
    let r = TsfAction::ShowParts {
        prefix: String::new(),
        focused: string_of_range(v, 0, end),
        rest: string_of_range(v, end, v.len()),
    };
    assert(v@.subrange(0, end as int) == v@.take(end as int));
    assert(v@.subrange(end as int, v.len() as int) == v@.skip(end as int));
    r
}

// ─── Shift+Left and Shift+Right ─────────────────────────────────────────────

/// Shift+Left (`hiragana` is the engine's reading): a live preview goes to a
/// range selection of all its reading but the last character; a block
/// selection or a candidate selection does the same on the whole reading
/// (which goes back into the engine), the block selection only when the
/// reading has two or more characters; a range selection shrinks by one
/// character, never below one; a typed reading of two or more characters
/// starts a range selection of all but its last character. The flag says
/// whether the key was taken: where nothing of this applies, it is taken
/// when the engine shows anything (`preedit`, pending romaji included).
pub open spec fn spec_segment_shrink(s: SessionModel, hiragana: Seq<char>, preedit: Seq<char>) -> (
    SessionModel,
    Seq<ActionModel>,
    bool,
) {
    match s {
        SessionModel::LiveConv { reading, preview } => if reading.len() == 0 {
            (s, seq![], true)
        } else {
            let end = (reading.len() - 1) as nat;
            (
                SessionModel::RangeSelect { reading, select_end: end, preview },
                seq![
                    ActionModel::HideCandidates,
                    ActionModel::StopLiveTimer,
                    ActionModel::BgReclaim,
                    show_range(reading, end),
                ],
                true,
            )
        },
        SessionModel::BlockSelecting { full_reading, .. } => if full_reading.len() <= 1 {
            (s, seq![], true)
        } else {
            let end = (full_reading.len() - 1) as nat;
            (
                SessionModel::RangeSelect { reading: full_reading, select_end: end, preview: seq![] },
                seq![
                    ActionModel::HideCandidates,
                    ActionModel::StopLiveTimer,
                    ActionModel::BgReclaim,
                    ActionModel::ForcePreedit(full_reading),
                    show_range(full_reading, end),
                ],
                true,
            )
        },
        SessionModel::RangeSelect { reading, select_end, preview } => if select_end <= 1 {
            (s, seq![], true)
        } else {
            let end = (select_end - 1) as nat;
            (
                SessionModel::RangeSelect { reading, select_end: end, preview },
                seq![show_range(reading, end)],
                true,
            )
        },
        SessionModel::Selecting { original, .. } => if original.len() == 0 {
            (s, seq![], true)
        } else {
            let end = (original.len() - 1) as nat;
            (
                SessionModel::RangeSelect { reading: original, select_end: end, preview: seq![] },
                seq![
                    ActionModel::HideCandidates,
                    ActionModel::StopLiveTimer,
                    ActionModel::BgReclaim,
                    ActionModel::ForcePreedit(original),
                    show_range(original, end),
                ],
                true,
            )
        },
        SessionModel::Preedit { .. } => if hiragana.len() > 1 {
            let end = (hiragana.len() - 1) as nat;
            (
                SessionModel::RangeSelect { reading: hiragana, select_end: end, preview: seq![] },
                seq![ActionModel::StopLiveTimer, ActionModel::BgReclaim, show_range(hiragana, end)],
                true,
            )
        } else {
            (s, seq![], preedit.len() > 0)
        },
        _ => (s, seq![], preedit.len() > 0),
    }
}

/// Shift+Left on the session (see `spec_segment_shrink`).
pub fn segment_shrink_step(state: SessionState, hiragana: &str, preedit: &str) -> (r: (
    SessionState,
    Vec<TsfAction>,
    bool,
))
    requires
        session_wf(state@),
    ensures
        (r.0@, actions_model(r.1@), r.2) == spec_segment_shrink(state@, hiragana@, preedit@),
        session_wf(r.0@),
{
    let ghost s0 = state@;
    match state {
        SessionState::LiveConv { reading, preview } => {
            let v = chars_of(reading.as_str());
            if v.len() == 0 {
                let st = SessionState::LiveConv { reading, preview };
                return (st, Vec::new(), true);
            }
            let end = v.len() - 1;
            let mut acts: Vec<TsfAction> = Vec::new();
            acts.push(TsfAction::HideCandidates);
            acts.push(TsfAction::StopLiveTimer);
            acts.push(TsfAction::BgReclaim);
            acts.push(show_range_action(&v, end));
            assert(actions_model(acts@) =~= spec_segment_shrink(s0, hiragana@, preedit@).1);
            (SessionState::RangeSelect { reading, select_end: end, preview }, acts, true)
        },
        SessionState::BlockSelecting { full_reading, blocks, current, accumulated } => {
            let v = chars_of(full_reading.as_str());
            if v.len() <= 1 {
                let st = SessionState::BlockSelecting { full_reading, blocks, current, accumulated };
                return (st, Vec::new(), true);
            }
            let end = v.len() - 1;
            let mut acts: Vec<TsfAction> = Vec::new();
            acts.push(TsfAction::HideCandidates);
            acts.push(TsfAction::StopLiveTimer);
            acts.push(TsfAction::BgReclaim);
            acts.push(TsfAction::ForcePreedit(copy_str(&full_reading)));
            acts.push(show_range_action(&v, end));
            assert(actions_model(acts@) =~= spec_segment_shrink(s0, hiragana@, preedit@).1);
            (
                SessionState::RangeSelect {
                    reading: full_reading,
                    select_end: end,
                    preview: String::new(),
                },
                acts,
                true,
            )
        },
        SessionState::RangeSelect { reading, select_end, preview } => {
            if select_end <= 1 {
                let st = SessionState::RangeSelect { reading, select_end, preview };
                return (st, Vec::new(), true);
            }
            let v = chars_of(reading.as_str());
            let end = select_end - 1;
            let mut acts: Vec<TsfAction> = Vec::new();
            acts.push(show_range_action(&v, end));
            assert(actions_model(acts@) =~= spec_segment_shrink(s0, hiragana@, preedit@).1);
            (SessionState::RangeSelect { reading, select_end: end, preview }, acts, true)
        },
        SessionState::Selecting {
            original,
            candidates,
            selected,
            prefix,
            suffix,
            rest_reading,
            punct,
            llm_pending,
        } => {
            let v = chars_of(original.as_str());
            if v.len() == 0 {
                let st = SessionState::Selecting {
                    original,
                    candidates,
                    selected,
                    prefix,
                    suffix,
                    rest_reading,
                    punct,
                    llm_pending,
                };
                return (st, Vec::new(), true);
            }
            let end = v.len() - 1;
            let mut acts: Vec<TsfAction> = Vec::new();
            acts.push(TsfAction::HideCandidates);
            acts.push(TsfAction::StopLiveTimer);
            acts.push(TsfAction::BgReclaim);
            acts.push(TsfAction::ForcePreedit(copy_str(&original)));
            acts.push(show_range_action(&v, end));
            assert(actions_model(acts@) =~= spec_segment_shrink(s0, hiragana@, preedit@).1);
            (
                SessionState::RangeSelect { reading: original, select_end: end, preview: String::new() },
                acts,
                true,
            )
        },
        SessionState::Preedit { text } => {
            let v = chars_of(hiragana);
            if v.len() > 1 {
                let end = v.len() - 1;
                let mut acts: Vec<TsfAction> = Vec::new();
                acts.push(TsfAction::StopLiveTimer);
                acts.push(TsfAction::BgReclaim);
                acts.push(show_range_action(&v, end));
                assert(actions_model(acts@) =~= spec_segment_shrink(s0, hiragana@, preedit@).1);
                (
                    SessionState::RangeSelect {
                        reading: owned(hiragana),
                        select_end: end,
                        preview: String::new(),
                    },
                    acts,
                    true,
                )
            } else {
                (SessionState::Preedit { text }, Vec::new(), preedit.unicode_len() > 0)
            }
        },
        other => (other, Vec::new(), preedit.unicode_len() > 0),
    }
}


/// Shift+Right (`hiragana` is the engine's reading): a live preview, a block
/// selection, a candidate selection or a typed reading, when its reading is
/// not empty, goes to a range selection of its first character (the block
/// and candidate selections put their whole reading back into the engine); a
/// range selection grows by one character up to the whole reading. Where
/// nothing of this applies, the key is taken when the engine shows anything
/// (`preedit`, pending romaji included).
pub open spec fn spec_segment_extend(s: SessionModel, hiragana: Seq<char>, preedit: Seq<char>) -> (
    SessionModel,
    Seq<ActionModel>,
    bool,
) {
    match s {
        SessionModel::LiveConv { reading, preview } => if reading.len() == 0 {
            (s, seq![], true)
        } else {
            (
                SessionModel::RangeSelect { reading, select_end: 1, preview },
                seq![
                    ActionModel::HideCandidates,
                    ActionModel::StopLiveTimer,
                    ActionModel::BgReclaim,
                    show_range(reading, 1),
                ],
                true,
            )
        },
        SessionModel::BlockSelecting { full_reading, .. } => if full_reading.len() == 0 {
            (s, seq![], preedit.len() > 0)
        } else {
            (
                SessionModel::RangeSelect { reading: full_reading, select_end: 1, preview: seq![] },
                seq![
                    ActionModel::HideCandidates,
                    ActionModel::StopLiveTimer,
                    ActionModel::BgReclaim,
                    ActionModel::ForcePreedit(full_reading),
                    show_range(full_reading, 1),
                ],
                true,
            )
        },
        SessionModel::RangeSelect { reading, select_end, preview } => if select_end
            >= reading.len() {
            (s, seq![], true)
        } else {
            (
                SessionModel::RangeSelect { reading, select_end: select_end + 1, preview },
                seq![show_range(reading, select_end + 1)],
                true,
            )
        },
        SessionModel::Selecting { original, .. } => if original.len() == 0 {
            (s, seq![], preedit.len() > 0)
        } else {
            (
                SessionModel::RangeSelect { reading: original, select_end: 1, preview: seq![] },
                seq![
                    ActionModel::HideCandidates,
                    ActionModel::StopLiveTimer,
                    ActionModel::BgReclaim,
                    ActionModel::ForcePreedit(original),
                    show_range(original, 1),
                ],
                true,
            )
        },
        SessionModel::Preedit { .. } => if hiragana.len() > 0 {
            (
                SessionModel::RangeSelect { reading: hiragana, select_end: 1, preview: seq![] },
                seq![ActionModel::StopLiveTimer, ActionModel::BgReclaim, show_range(hiragana, 1)],
                true,
            )
        } else {
            (s, seq![], preedit.len() > 0)
        },
        _ => (s, seq![], preedit.len() > 0),
    }
}

/// Shift+Right on the session (see `spec_segment_extend`).
pub fn segment_extend_step(state: SessionState, hiragana: &str, preedit: &str) -> (r: (
    SessionState,
    Vec<TsfAction>,
    bool,
))
    requires
        session_wf(state@),
    ensures
        (r.0@, actions_model(r.1@), r.2) == spec_segment_extend(state@, hiragana@, preedit@),
        session_wf(r.0@),
{
    let ghost s0 = state@;
    let hv = chars_of(hiragana);
    match state {
        SessionState::LiveConv { reading, preview } => {
            let v = chars_of(reading.as_str());
            if v.len() == 0 {
                return (SessionState::LiveConv { reading, preview }, Vec::new(), true);
            }
            let mut acts: Vec<TsfAction> = Vec::new();
            acts.push(TsfAction::HideCandidates);
            acts.push(TsfAction::StopLiveTimer);
            acts.push(TsfAction::BgReclaim);
            acts.push(show_range_action(&v, 1));
            assert(actions_model(acts@) =~= spec_segment_extend(s0, hiragana@, preedit@).1);
            (SessionState::RangeSelect { reading, select_end: 1, preview }, acts, true)
        },
        SessionState::BlockSelecting { full_reading, blocks, current, accumulated } => {
            let v = chars_of(full_reading.as_str());
            if v.len() == 0 {
                let st = SessionState::BlockSelecting { full_reading, blocks, current, accumulated };
                return (st, Vec::new(), preedit.unicode_len() > 0);
            }
            let mut acts: Vec<TsfAction> = Vec::new();
            acts.push(TsfAction::HideCandidates);
            acts.push(TsfAction::StopLiveTimer);
            acts.push(TsfAction::BgReclaim);
            acts.push(TsfAction::ForcePreedit(copy_str(&full_reading)));
            acts.push(show_range_action(&v, 1));
            assert(actions_model(acts@) =~= spec_segment_extend(s0, hiragana@, preedit@).1);
            (
                SessionState::RangeSelect { reading: full_reading, select_end: 1, preview: String::new() },
                acts,
                true,
            )
        },
        SessionState::RangeSelect { reading, select_end, preview } => {
            let v = chars_of(reading.as_str());
            if select_end >= v.len() {
                return (SessionState::RangeSelect { reading, select_end, preview }, Vec::new(), true);
            }
            let mut acts: Vec<TsfAction> = Vec::new();
            acts.push(show_range_action(&v, select_end + 1));
            assert(actions_model(acts@) =~= spec_segment_extend(s0, hiragana@, preedit@).1);
            (SessionState::RangeSelect { reading, select_end: select_end + 1, preview }, acts, true)
        },
        SessionState::Selecting {
            original,
            candidates,
            selected,
            prefix,
            suffix,
            rest_reading,
            punct,
            llm_pending,
        } => {
            let v = chars_of(original.as_str());
            if v.len() == 0 {
                let st = SessionState::Selecting {
                    original,
                    candidates,
                    selected,
                    prefix,
                    suffix,
                    rest_reading,
                    punct,
                    llm_pending,
                };
                return (st, Vec::new(), preedit.unicode_len() > 0);
            }
            let mut acts: Vec<TsfAction> = Vec::new();
            acts.push(TsfAction::HideCandidates);
            acts.push(TsfAction::StopLiveTimer);
            acts.push(TsfAction::BgReclaim);
            acts.push(TsfAction::ForcePreedit(copy_str(&original)));
            acts.push(show_range_action(&v, 1));
            assert(actions_model(acts@) =~= spec_segment_extend(s0, hiragana@, preedit@).1);
            (
                SessionState::RangeSelect { reading: original, select_end: 1, preview: String::new() },
                acts,
                true,
            )
        },
        SessionState::Preedit { text } => {
            if hv.len() > 0 {
                let mut acts: Vec<TsfAction> = Vec::new();
                acts.push(TsfAction::StopLiveTimer);
                acts.push(TsfAction::BgReclaim);
                acts.push(show_range_action(&hv, 1));
                assert(actions_model(acts@) =~= spec_segment_extend(s0, hiragana@, preedit@).1);
                (
                    SessionState::RangeSelect {
                        reading: owned(hiragana),
                        select_end: 1,
                        preview: String::new(),
                    },
                    acts,
                    true,
                )
            } else {
                (SessionState::Preedit { text }, Vec::new(), preedit.unicode_len() > 0)
            }
        },
        other => (other, Vec::new(), preedit.unicode_len() > 0),
    }
}


// ─── the engine's answers ───────────────────────────────────────────────────

/// What the engine says when a key comes: its reading as shown (with pending
/// romaji) and as hiragana, the input mode, the top live-conversion candidate
/// for the reading when one is ready (and live conversion is on and not
/// suppressed), the candidates for the text being converted (see
/// `conversion_text`) and whether the model's are still to come, the model's
/// answer when a pending one came, the candidates of each block of a reading
/// split at punctuation, the symbol affixes of the reading (as
/// `split_symbol_affixes` finds them), and whether the candidate chosen is to
/// be learned when committed.
pub struct EngineSnapshot {
    pub preedit: String,
    pub hiragana: String,
    pub mode: InputMode,
    pub live_preview: Option<String>,
    pub candidates: Vec<String>,
    pub model_pending: bool,
    pub model_answer: Option<Vec<String>>,
    pub block_candidates: Vec<Vec<String>>,
    pub affixes: Option<(String, String, String)>,
    pub learn_choice: bool,
}

pub struct SnapshotModel {
    pub preedit: Seq<char>,
    pub hiragana: Seq<char>,
    pub mode: InputMode,
    pub live_preview: Option<Seq<char>>,
    pub candidates: Seq<Seq<char>>,
    pub model_pending: bool,
    pub model_answer: Option<Seq<Seq<char>>>,
    pub block_candidates: Seq<Seq<Seq<char>>>,
    pub affixes: Option<(Seq<char>, Seq<char>, Seq<char>)>,
    pub learn_choice: bool,
}

impl View for EngineSnapshot {
    type V = SnapshotModel;

    open spec fn view(&self) -> SnapshotModel {
        SnapshotModel {
            preedit: self.preedit@,
            hiragana: self.hiragana@,
            mode: self.mode,
            live_preview: match self.live_preview {
                Some(p) => Some(p@),
                None => None,
            },
            candidates: strs(self.candidates@),
            model_pending: self.model_pending,
            model_answer: match self.model_answer {
                Some(a) => Some(strs(a@)),
                None => None,
            },
            block_candidates: self.block_candidates@.map_values(|v: Vec<String>| strs(v@)),
            affixes: match self.affixes {
                Some(t) => Some((t.0@, t.1@, t.2@)),
                None => None,
            },
            learn_choice: self.learn_choice,
        }
    }
}

// ─── choices ────────────────────────────────────────────────────────────────

/// The candidate chosen, or `fallback` when there is none.
pub open spec fn chosen(candidates: Seq<Seq<char>>, selected: nat, fallback: Seq<char>) -> Seq<
    char,
> {
    if selected < candidates.len() {
        candidates[selected as int]
    } else {
        fallback
    }
}

fn chosen_of(candidates: &Vec<String>, selected: usize, fallback: &String) -> (r: String)
    ensures
        r@ == chosen(strs(candidates@), selected as nat, fallback@),
{
    if selected < candidates.len() {
        copy_str(&candidates[selected])
    } else {
        copy_str(fallback)
    }
}

/// `text` followed by the punctuation, if any.
pub open spec fn with_punct(text: Seq<char>, punct: Option<char>) -> Seq<char> {
    match punct {
        Some(p) => text.push(p),
        None => text,
    }
}

fn with_punct_of(text: String, punct: Option<char>) -> (r: String)
    ensures
        r@ == with_punct(text@, punct),
{
    match punct {
        Some(p) => {
            let mut t = text;
            crate::text::push_char(&mut t, p);
            t
        },
        None => text,
    }
}

/// The text of a block: its chosen candidate (its reading when it has none)
/// and its punctuation.
pub open spec fn block_text(b: BlockModel) -> Seq<char> {
    with_punct(chosen(b.candidates, b.selected, b.reading), b.punct)
}

/// The texts of the blocks from `k` on, one after another.
pub open spec fn texts_from(blocks: Seq<BlockModel>, k: int) -> Seq<char>
    decreases blocks.len() - k,
{
    if k >= blocks.len() || k < 0 {
        seq![]
    } else {
        block_text(blocks[k]) + texts_from(blocks, k + 1)
    }
}

fn block_text_of(b: &ConversionBlock) -> (r: String)
    ensures
        r@ == block_text(block_model(*b)),
{
    with_punct_of(chosen_of(&b.candidates, b.selected, &b.reading), b.trailing_punct)
}

fn texts_from_of(blocks: &Vec<ConversionBlock>, k: usize) -> (r: String)
    requires
        k <= blocks.len(),
    ensures
        r@ == texts_from(blocks_model(blocks@), k as int),
{
    let ghost bm = blocks_model(blocks@);
    let mut parts: Vec<String> = Vec::new();
    let mut i: usize = blocks.len();
    let mut acc = String::new();
    while i > k
        invariant
            k <= i <= blocks.len(),
            bm == blocks_model(blocks@),
            acc@ == texts_from(bm, i as int),
        decreases i - k,
    {
        i = i - 1;
        let t = block_text_of(&blocks[i]);
        acc = concat(t.as_str(), acc.as_str());
        assert(bm[i as int] == block_model(blocks@[i as int]));
    }
    acc
}

// ─── Enter ──────────────────────────────────────────────────────────────────

/// Enter. A live preview is committed (and learned, with learning on, when it
/// differs from its reading). A range selection commits exactly its selected
/// part and goes on composing the rest (typed again into the engine). A block
/// selection commits the current block and moves to the next; after the last
/// it commits the whole text (learned against the whole reading when it
/// differs). A pending conversion commits its reading. A candidate selection
/// commits the prefix, the chosen candidate (the reading when there is none)
/// and its punctuation (learned as the engine asks), then goes on composing
/// the rest of the reading or, when there is none, commits the suffix too.
/// Otherwise a ready live-conversion candidate that differs from the reading
/// is committed (and learned, with learning on); else the reading as shown;
/// with nothing shown the key is not taken.
pub open spec fn spec_commit_raw(s: SessionModel, snap: SnapshotModel, auto_learn: bool) -> (
    SessionModel,
    Seq<ActionModel>,
    bool,
) {
    match s {
        SessionModel::LiveConv { reading, preview } => if preview.len() == 0 {
            (s, seq![], false)
        } else {
            (
                SessionModel::Idle,
                seq![ActionModel::HideCandidates, ActionModel::StopLiveTimer] + (if preview
                    != reading && auto_learn {
                    seq![ActionModel::Learn { reading, surface: preview }]
                } else {
                    seq![]
                }) + seq![ActionModel::EngineCommit(preview), ActionModel::EndComposition(preview)],
                true,
            )
        },
        SessionModel::RangeSelect { reading, select_end, .. } => {
            let sel = reading.take(select_end as int);
            let rest = reading.skip(select_end as int);
            if sel.len() == 0 {
                (s, seq![], false)
            } else if rest.len() == 0 {
                (
                    SessionModel::Idle,
                    seq![
                        ActionModel::HideCandidates,
                        ActionModel::EngineCommit(sel),
                        ActionModel::EndComposition(sel),
                    ],
                    true,
                )
            } else {
                (
                    SessionModel::Preedit { text: rest },
                    seq![
                        ActionModel::HideCandidates,
                        ActionModel::EngineCommit(sel),
                        ActionModel::Retype(rest),
                        ActionModel::CommitThenStart { committed: sel, composing: rest },
                    ],
                    true,
                )
            }
        },
        SessionModel::BlockSelecting { full_reading, blocks, current, accumulated } => {
            let just = block_text(blocks[current as int]);
            let acc = accumulated + just;
            if current + 1 < blocks.len() {
                let next = blocks[current + 1 as int];
                (
                    SessionModel::BlockSelecting {
                        full_reading,
                        blocks,
                        current: current + 1,
                        accumulated: acc,
                    },
                    seq![
                        ActionModel::ShowCandidates {
                            candidates: next.candidates,
                            selected: next.selected,
                        },
                        ActionModel::CommitThenStart {
                            committed: just,
                            composing: texts_from(blocks, current + 1 as int),
                        },
                    ],
                    true,
                )
            } else {
                (
                    SessionModel::Idle,
                    seq![ActionModel::HideCandidates] + (if auto_learn && acc != full_reading
                        && full_reading.len() > 0 {
                        seq![ActionModel::Learn { reading: full_reading, surface: acc }]
                    } else {
                        seq![]
                    }) + seq![ActionModel::EngineCommit(acc), ActionModel::EndComposition(just)],
                    true,
                )
            }
        },
        SessionModel::Waiting { text } => (
            SessionModel::Idle,
            seq![
                ActionModel::HideCandidates,
                ActionModel::BgReclaim,
                ActionModel::EngineCommit(text),
                ActionModel::EndComposition(text),
            ],
            true,
        ),
        SessionModel::Selecting {
            original,
            candidates,
            selected,
            prefix,
            suffix,
            rest_reading,
            punct,
            ..
        } => {
            let text = chosen(candidates, selected, original);
            let confirmed = prefix + with_punct(text, punct);
            let learn = if snap.learn_choice {
                seq![ActionModel::Learn { reading: original, surface: text }]
            } else {
                seq![]
            };
            let head = learn + seq![ActionModel::HideCandidates, ActionModel::StopLiveTimer];
            if rest_reading.len() > 0 {
                (
                    SessionModel::Preedit { text: rest_reading },
                    head + seq![
                        ActionModel::EngineCommit(confirmed),
                        ActionModel::Retype(rest_reading),
                        ActionModel::CommitThenStart { committed: confirmed, composing: rest_reading },
                    ],
                    true,
                )
            } else {
                let full = confirmed + suffix;
                (
                    SessionModel::Idle,
                    head + seq![ActionModel::EngineCommit(full), ActionModel::EndComposition(full)],
                    true,
                )
            }
        },
        _ => match snap.live_preview {
            Some(p) if snap.hiragana.len() > 0 && p.len() > 0 && p != snap.hiragana => (
                SessionModel::Idle,
                seq![ActionModel::HideCandidates, ActionModel::StopLiveTimer] + (if auto_learn {
                    seq![ActionModel::Learn { reading: snap.hiragana, surface: p }]
                } else {
                    seq![]
                }) + seq![ActionModel::EngineCommit(p), ActionModel::EndComposition(p)],
                true,
            ),
            _ => if snap.preedit.len() == 0 {
                (s, seq![], false)
            } else {
                (
                    s,
                    seq![
                        ActionModel::BgReclaim,
                        ActionModel::EngineCommit(snap.preedit),
                        ActionModel::EndComposition(snap.preedit),
                    ],
                    true,
                )
            },
        },
    }
}

fn is_empty_str(s: &String) -> (b: bool)
    ensures
        b == (s@.len() == 0),
{
    s.as_str().unicode_len() == 0
}

/// Enter on the session (see `spec_commit_raw`).
pub fn commit_raw_step(state: SessionState, snap: &EngineSnapshot, auto_learn: bool) -> (r: (
    SessionState,
    Vec<TsfAction>,
    bool,
))
    requires
        session_wf(state@),
    ensures
        (r.0@, actions_model(r.1@), r.2) == spec_commit_raw(state@, snap@, auto_learn),
        session_wf(r.0@),
{
    let ghost s0 = state@;
    match state {
        SessionState::LiveConv { reading, preview } => {
            if is_empty_str(&preview) {
                return (SessionState::LiveConv { reading, preview }, Vec::new(), false);
            }
            let mut acts: Vec<TsfAction> = Vec::new();
            acts.push(TsfAction::HideCandidates);
            acts.push(TsfAction::StopLiveTimer);
            if !str_eq(preview.as_str(), reading.as_str()) && auto_learn {
                acts.push(TsfAction::Learn { reading: copy_str(&reading), surface: copy_str(&preview) });
            }
            acts.push(TsfAction::EngineCommit(copy_str(&preview)));
            acts.push(TsfAction::EndComposition(preview));
            assert(actions_model(acts@) =~= spec_commit_raw(s0, snap@, auto_learn).1);
            (SessionState::Idle, acts, true)
        },
        SessionState::RangeSelect { reading, select_end, preview } => {
            let v = chars_of(reading.as_str());
            let sel = string_of_range(&v, 0, select_end);
            let rest = string_of_range(&v, select_end, v.len());
            assert(sel@ == reading@.take(select_end as int));
            assert(rest@ == reading@.skip(select_end as int));
            if is_empty_str(&sel) {
                return (SessionState::RangeSelect { reading, select_end, preview }, Vec::new(), false);
            }
            let mut acts: Vec<TsfAction> = Vec::new();
            acts.push(TsfAction::HideCandidates);
            acts.push(TsfAction::EngineCommit(copy_str(&sel)));
            if is_empty_str(&rest) {
                acts.push(TsfAction::EndComposition(sel));
                assert(actions_model(acts@) =~= spec_commit_raw(s0, snap@, auto_learn).1);
                return (SessionState::Idle, acts, true);
            }
            acts.push(TsfAction::Retype(copy_str(&rest)));
            acts.push(TsfAction::CommitThenStart { committed: sel, composing: copy_str(&rest) });
            assert(actions_model(acts@) =~= spec_commit_raw(s0, snap@, auto_learn).1);
            (SessionState::Preedit { text: rest }, acts, true)
        },
        SessionState::BlockSelecting { full_reading, blocks, current, accumulated } => {
            let ghost bm = blocks_model(blocks@);
            assert(bm.len() == blocks@.len());
            assert(current < blocks.len());
            assert(bm[current as int] == block_model(blocks@[current as int]));
            let just = block_text_of(&blocks[current]);
            let acc = concat(accumulated.as_str(), just.as_str());
            if current + 1 < blocks.len() {
                let mut acts: Vec<TsfAction> = Vec::new();
                assert(bm[current + 1] == block_model(blocks@[current + 1]));
                acts.push(TsfAction::ShowCandidates {
                    candidates: copy_strs(&blocks[current + 1].candidates),
                    selected: blocks[current + 1].selected,
                });
                acts.push(TsfAction::CommitThenStart {
                    committed: just,
                    composing: texts_from_of(&blocks, current + 1),
                });
                assert(actions_model(acts@) =~= spec_commit_raw(s0, snap@, auto_learn).1);
                (
                    SessionState::BlockSelecting {
                        full_reading,
                        blocks,
                        current: current + 1,
                        accumulated: acc,
                    },
                    acts,
                    true,
                )
            } else {
                let mut acts: Vec<TsfAction> = Vec::new();
                acts.push(TsfAction::HideCandidates);
                if auto_learn && !str_eq(acc.as_str(), full_reading.as_str()) && !is_empty_str(
                    &full_reading,
                ) {
                    acts.push(TsfAction::Learn { reading: copy_str(&full_reading), surface: copy_str(&acc) });
                }
                acts.push(TsfAction::EngineCommit(acc));
                acts.push(TsfAction::EndComposition(just));
                assert(actions_model(acts@) =~= spec_commit_raw(s0, snap@, auto_learn).1);
                (SessionState::Idle, acts, true)
            }
        },
        SessionState::Waiting { text } => {
            let mut acts: Vec<TsfAction> = Vec::new();
            acts.push(TsfAction::HideCandidates);
            acts.push(TsfAction::BgReclaim);
            acts.push(TsfAction::EngineCommit(copy_str(&text)));
            acts.push(TsfAction::EndComposition(text));
            assert(actions_model(acts@) =~= spec_commit_raw(s0, snap@, auto_learn).1);
            (SessionState::Idle, acts, true)
        },
        SessionState::Selecting {
            original,
            candidates,
            selected,
            prefix,
            suffix,
            rest_reading,
            punct,
            llm_pending,
        } => {
            let text = chosen_of(&candidates, selected, &original);
            let confirmed = concat(prefix.as_str(), with_punct_of(copy_str(&text), punct).as_str());
            let mut acts: Vec<TsfAction> = Vec::new();
            if snap.learn_choice {
                acts.push(TsfAction::Learn { reading: copy_str(&original), surface: text });
            }
            acts.push(TsfAction::HideCandidates);
            acts.push(TsfAction::StopLiveTimer);
            if !is_empty_str(&rest_reading) {
                acts.push(TsfAction::EngineCommit(copy_str(&confirmed)));
                acts.push(TsfAction::Retype(copy_str(&rest_reading)));
                acts.push(TsfAction::CommitThenStart {
                    committed: confirmed,
                    composing: copy_str(&rest_reading),
                });
                assert(actions_model(acts@) =~= spec_commit_raw(s0, snap@, auto_learn).1);
                (SessionState::Preedit { text: rest_reading }, acts, true)
            } else {
                let full = concat(confirmed.as_str(), suffix.as_str());
                acts.push(TsfAction::EngineCommit(copy_str(&full)));
                acts.push(TsfAction::EndComposition(full));
                assert(actions_model(acts@) =~= spec_commit_raw(s0, snap@, auto_learn).1);
                (SessionState::Idle, acts, true)
            }
        },
        other => {
            match &snap.live_preview {
                Some(p) => {
                    if !is_empty_str(&snap.hiragana) && !is_empty_str(p) && !str_eq(
                        p.as_str(),
                        snap.hiragana.as_str(),
                    ) {
                        let mut acts: Vec<TsfAction> = Vec::new();
                        acts.push(TsfAction::HideCandidates);
                        acts.push(TsfAction::StopLiveTimer);
                        if auto_learn {
                            acts.push(TsfAction::Learn {
                                reading: copy_str(&snap.hiragana),
                                surface: copy_str(p),
                            });
                        }
                        acts.push(TsfAction::EngineCommit(copy_str(p)));
                        acts.push(TsfAction::EndComposition(copy_str(p)));
                        assert(actions_model(acts@) =~= spec_commit_raw(s0, snap@, auto_learn).1);
                        return (SessionState::Idle, acts, true);
                    }
                },
                None => {},
            }
            if is_empty_str(&snap.preedit) {
                return (other, Vec::new(), false);
            }
            let mut acts: Vec<TsfAction> = Vec::new();
            acts.push(TsfAction::BgReclaim);
            acts.push(TsfAction::EngineCommit(copy_str(&snap.preedit)));
            acts.push(TsfAction::EndComposition(copy_str(&snap.preedit)));
            assert(actions_model(acts@) =~= spec_commit_raw(s0, snap@, auto_learn).1);
            (other, acts, true)
        },
    }
}


// ─── Space ──────────────────────────────────────────────────────────────────

/// The candidates to show for `text`: the engine's, or the text itself when
/// it has none.
pub open spec fn or_itself(candidates: Seq<Seq<char>>, text: Seq<char>) -> Seq<Seq<char>> {
    if candidates.len() > 0 {
        candidates
    } else {
        seq![text]
    }
}

fn or_itself_of(candidates: &Vec<String>, text: &String) -> (r: Vec<String>)
    ensures
        strs(r@) == or_itself(strs(candidates@), text@),
        r@.len() > 0,
{
    if candidates.len() > 0 {
        copy_strs(candidates)
    } else {
        let mut r: Vec<String> = Vec::new();
        r.push(copy_str(text));
        assert(strs(r@) =~= seq![text@]);
        r
    }
}

/// The block list entry for a part of a reading split at punctuation: a part
/// without reading keeps its punctuation and has no candidates; a part that
/// ends at `・` is followed by a block of its own for the `・`, offered as
/// `／`, `/` and `・`.
pub open spec fn block_of(reading: Seq<char>, punct: Option<char>, candidates: Seq<Seq<char>>) -> Seq<
    BlockModel,
> {
    if reading.len() == 0 {
        seq![BlockModel { reading: seq![], punct, candidates: seq![], selected: 0 }]
    } else if punct == Some('\u{30FB}') {
        seq![
            BlockModel { reading, punct: None, candidates, selected: 0 },
            BlockModel {
                reading: seq!['\u{30FB}'],
                punct: None,
                candidates: seq![seq!['\u{FF0F}'], seq!['/'], seq!['\u{30FB}']],
                selected: 0,
            },
        ]
    } else {
        seq![BlockModel { reading, punct, candidates, selected: 0 }]
    }
}

pub open spec fn candidates_at(c: Seq<Seq<Seq<char>>>, i: int) -> Seq<Seq<char>> {
    if 0 <= i < c.len() {
        c[i]
    } else {
        seq![]
    }
}

/// The blocks of the parts, part `i` with the candidates `cands[i]`.
pub open spec fn build_blocks(parts: Seq<(Seq<char>, Option<char>)>, cands: Seq<Seq<Seq<char>>>) -> Seq<
    BlockModel,
>
    decreases parts.len(),
{
    if parts.len() == 0 {
        seq![]
    } else {
        build_blocks(parts.drop_last(), cands) + block_of(
            parts.last().0,
            parts.last().1,
            candidates_at(cands, parts.len() - 1),
        )
    }
}

/// Whether no part of a reading split at punctuation has a reading (the
/// reading is punctuation only).
pub open spec fn pure_punct(parts: Seq<(Seq<char>, Option<char>)>) -> bool {
    forall|i: int| 0 <= i < parts.len() ==> (#[trigger] parts[i]).0.len() == 0
}

/// A new conversion of `reading`. A reading with punctuation that is not only
/// punctuation: when it is a text between symbol affixes, the text's
/// candidates between the affixes; else its blocks (see `build_blocks`),
/// the first one current. Otherwise the reading's candidates, the model's
/// still to come when the engine says so.
pub open spec fn spec_new_conversion(s: SessionModel, reading: Seq<char>, snap: SnapshotModel) -> (
    SessionModel,
    Seq<ActionModel>,
    bool,
) {
    let parts = spec_split_by_punctuation(reading);
    if spec_contains_kuten(reading) && !pure_punct(parts) {
        match snap.affixes {
            Some((p, t, u)) => {
                let c = or_itself(snap.candidates, t);
                (
                    SessionModel::Selecting {
                        original: t,
                        candidates: c,
                        selected: 0,
                        prefix: p,
                        suffix: u,
                        rest_reading: u,
                        punct: None,
                        llm_pending: false,
                    },
                    seq![
                        ActionModel::BgReclaim,
                        ActionModel::ForcePreedit(t),
                        ActionModel::ShowCandidates { candidates: c, selected: 0 },
                        ActionModel::ShowParts { prefix: p, focused: c[0], rest: u },
                    ],
                    true,
                )
            },
            None => {
                let blocks = build_blocks(parts, snap.block_candidates);
                (
                    SessionModel::BlockSelecting {
                        full_reading: reading,
                        blocks,
                        current: 0,
                        accumulated: seq![],
                    },
                    seq![
                        ActionModel::BgReclaim,
                        ActionModel::ShowCandidates { candidates: blocks[0].candidates, selected: 0 },
                        ActionModel::ShowParts {
                            prefix: seq![],
                            focused: block_text(blocks[0]),
                            rest: texts_from(blocks, 1),
                        },
                    ],
                    true,
                )
            },
        }
    } else {
        let c = or_itself(snap.candidates, reading);
        (
            SessionModel::Selecting {
                original: reading,
                candidates: c,
                selected: 0,
                prefix: seq![],
                suffix: seq![],
                rest_reading: seq![],
                punct: None,
                llm_pending: snap.model_pending,
            },
            seq![
                ActionModel::BgReclaim,
                ActionModel::ShowCandidates { candidates: c, selected: 0 },
                ActionModel::ShowParts { prefix: seq![], focused: c[0], rest: seq![] },
            ],
            true,
        )
    }
}

/// Space. With candidates shown: the model's answer, when it was pending and
/// has come, replaces them (the first chosen); else the next candidate is
/// chosen, after the last the first. In a block selection the current
/// block's next candidate is chosen the same way. A range selection converts
/// its selected part and keeps the rest after it. A live preview goes back to
/// its reading, which is converted. With no reading, Space types a fullwidth
/// space in the kana modes and an ASCII space in the alphanumeric mode.
/// Otherwise the engine's reading is converted (see `spec_new_conversion`).
pub open spec fn spec_convert_step(s: SessionModel, snap: SnapshotModel) -> (
    SessionModel,
    Seq<ActionModel>,
    bool,
) {
    match s {
        SessionModel::Selecting {
            original,
            candidates,
            selected,
            prefix,
            suffix,
            rest_reading,
            punct,
            llm_pending,
        } => match snap.model_answer {
            Some(a) if llm_pending && a.len() > 0 => (
                SessionModel::Selecting {
                    original,
                    candidates: a,
                    selected: 0,
                    prefix,
                    suffix,
                    rest_reading,
                    punct,
                    llm_pending: false,
                },
                seq![
                    ActionModel::ShowCandidates { candidates: a, selected: 0 },
                    ActionModel::ShowParts { prefix, focused: a[0], rest: suffix },
                ],
                true,
            ),
            _ => if candidates.len() == 0 {
                (s, seq![], true)
            } else {
                let k = ((selected + 1) % candidates.len()) as nat;
                (
                    SessionModel::Selecting {
                        original,
                        candidates,
                        selected: k,
                        prefix,
                        suffix,
                        rest_reading,
                        punct,
                        llm_pending,
                    },
                    seq![
                        ActionModel::ShowCandidates { candidates, selected: k },
                        ActionModel::ShowParts { prefix, focused: candidates[k as int], rest: suffix },
                    ],
                    true,
                )
            },
        },
        SessionModel::BlockSelecting { full_reading, blocks, current, accumulated } => {
            let b = blocks[current as int];
            if b.candidates.len() == 0 {
                (s, seq![], true)
            } else {
                let k = ((b.selected + 1) % b.candidates.len()) as nat;
                let nb = blocks.update(current as int, BlockModel { selected: k, ..b });
                (
                    SessionModel::BlockSelecting { full_reading, blocks: nb, current, accumulated },
                    seq![
                        ActionModel::ShowCandidates { candidates: b.candidates, selected: k },
                        ActionModel::ShowParts {
                            prefix: seq![],
                            focused: block_text(nb[current as int]),
                            rest: texts_from(nb, current + 1 as int),
                        },
                    ],
                    true,
                )
            }
        },
        SessionModel::RangeSelect { reading, select_end, .. } => {
            let sel = reading.take(select_end as int);
            let rest = reading.skip(select_end as int);
            if sel.len() == 0 {
                (s, seq![], true)
            } else {
                let c = or_itself(snap.candidates, sel);
                (
                    SessionModel::Selecting {
                        original: sel,
                        candidates: c,
                        selected: 0,
                        prefix: seq![],
                        suffix: rest,
                        rest_reading: rest,
                        punct: None,
                        llm_pending: snap.model_pending,
                    },
                    seq![
                        ActionModel::BgReclaim,
                        ActionModel::ForcePreedit(sel),
                        ActionModel::StopLiveTimer,
                        ActionModel::ShowCandidates { candidates: c, selected: 0 },
                        ActionModel::ShowParts { prefix: seq![], focused: c[0], rest },
                    ],
                    true,
                )
            }
        },
        SessionModel::LiveConv { reading, .. } => spec_new_conversion(
            SessionModel::Preedit { text: reading },
            reading,
            snap,
        ),
        _ => if snap.preedit.len() == 0 {
            (
                s,
                seq![
                    ActionModel::CommitText(
                        if snap.mode == InputMode::Alphanumeric {
                            seq![' ']
                        } else {
                            seq!['\u{3000}']
                        },
                    ),
                ],
                true,
            )
        } else {
            spec_new_conversion(s, snap.hiragana, snap)
        },
    }
}


fn empty_block(punct: Option<char>) -> (b: ConversionBlock)
    ensures
        block_model(b) == (BlockModel { reading: seq![], punct, candidates: seq![], selected: 0 }),
{
    let b = ConversionBlock {
        reading: String::new(),
        trailing_punct: punct,
        candidates: Vec::new(),
        selected: 0,
    };
    assert(strs(b.candidates@) =~= Seq::<Seq<char>>::empty());
    b
}

fn middle_dot_block() -> (b: ConversionBlock)
    ensures
        block_model(b) == (BlockModel {
            reading: seq!['\u{30FB}'],
            punct: None,
            candidates: seq![seq!['\u{FF0F}'], seq!['/'], seq!['\u{30FB}']],
            selected: 0,
        }),
{
    let mut c: Vec<String> = Vec::new();
    let mut a = String::new();
    crate::text::push_char(&mut a, '\u{FF0F}');
    let mut b2 = String::new();
    crate::text::push_char(&mut b2, '/');
    let mut d = String::new();
    crate::text::push_char(&mut d, '\u{30FB}');
    let mut r = String::new();
    crate::text::push_char(&mut r, '\u{30FB}');
    c.push(a);
    c.push(b2);
    c.push(d);
    let b = ConversionBlock { reading: r, trailing_punct: None, candidates: c, selected: 0 };
    assert(strs(b.candidates@) =~= seq![seq!['\u{FF0F}'], seq!['/'], seq!['\u{30FB}']]);
    assert(b.reading@ =~= seq!['\u{30FB}']);
    b
}

fn candidates_at_of(c: &Vec<Vec<String>>, i: usize) -> (r: Vec<String>)
    ensures
        strs(r@) == candidates_at(c@.map_values(|v: Vec<String>| strs(v@)), i as int),
{
    if i < c.len() {
        copy_strs(&c[i])
    } else {
        let r: Vec<String> = Vec::new();
        assert(strs(r@) =~= Seq::<Seq<char>>::empty());
        r
    }
}

/// A new conversion of `reading` (see `spec_new_conversion`).
fn new_conversion(s: SessionState, reading: &String, snap: &EngineSnapshot) -> (r: (
    SessionState,
    Vec<TsfAction>,
    bool,
))
    ensures
        (r.0@, actions_model(r.1@), r.2) == spec_new_conversion(s@, reading@, snap@),
        session_wf(r.0@),
{
    let parts = split_by_punctuation(reading.as_str());
    let ghost pv = block_views(parts@);
    let mut pure = true;
    let mut i: usize = 0;
    while i < parts.len()
        invariant
            i <= parts.len(),
            pv == block_views(parts@),
            pure <==> forall|j: int| 0 <= j < i ==> (#[trigger] pv[j]).0.len() == 0,
        decreases parts.len() - i,
    {
        assert(pv[i as int].0 == parts@[i as int].0@);
        if !is_empty_str(&parts[i].0) {
            pure = false;
        }
        i = i + 1;
    }
    assert(pure == pure_punct(pv));
    if contains_kuten(reading.as_str()) && !pure {
        match &snap.affixes {
            Some(t3) => {
                let p = copy_str(&t3.0);
                let t = copy_str(&t3.1);
                let u = copy_str(&t3.2);
                let c = or_itself_of(&snap.candidates, &t);
                let mut acts: Vec<TsfAction> = Vec::new();
                acts.push(TsfAction::BgReclaim);
                acts.push(TsfAction::ForcePreedit(copy_str(&t)));
                acts.push(TsfAction::ShowCandidates { candidates: copy_strs(&c), selected: 0 });
                acts.push(TsfAction::ShowParts {
                    prefix: copy_str(&p),
                    focused: copy_str(&c[0]),
                    rest: copy_str(&u),
                });
                assert(actions_model(acts@) =~= spec_new_conversion(s@, reading@, snap@).1);
                let st = SessionState::Selecting {
                    original: t,
                    candidates: c,
                    selected: 0,
                    prefix: p,
                    suffix: copy_str(&u),
                    rest_reading: u,
                    punct: None,
                    llm_pending: false,
                };
                (st, acts, true)
            },
            None => {
                let ghost bc = snap.block_candidates@.map_values(|v: Vec<String>| strs(v@));
                let mut blocks: Vec<ConversionBlock> = Vec::new();
                let mut k: usize = 0;
                while k < parts.len()
                    invariant
                        k <= parts.len(),
                        pv == block_views(parts@),
                        bc == snap.block_candidates@.map_values(|v: Vec<String>| strs(v@)),
                        blocks_model(blocks@) == build_blocks(pv.take(k as int), bc),
                        blocks@.len() >= k,
                        forall|j: int| 0 <= j < blocks@.len() ==> (#[trigger] blocks@[j]).selected
                            == 0,
                    decreases parts.len() - k,
                {
                    assert(pv.take(k + 1).drop_last() == pv.take(k as int));
                    assert(pv.take(k + 1).last() == pv[k as int]);
                    assert(pv[k as int] == (parts@[k as int].0@, parts@[k as int].1));
                    let ghost before = blocks@;
                    let rd = copy_str(&parts[k].0);
                    let punct = parts[k].1;
                    if is_empty_str(&rd) {
                        blocks.push(empty_block(punct));
                    } else {
                        let cands = candidates_at_of(&snap.block_candidates, k);
                        let is_dot = match punct {
                            Some(ch) => ch == '\u{30FB}',
                            None => false,
                        };
                        if is_dot {
                            blocks.push(ConversionBlock {
                                reading: rd,
                                trailing_punct: None,
                                candidates: cands,
                                selected: 0,
                            });
                            blocks.push(middle_dot_block());
                        } else {
                            blocks.push(ConversionBlock {
                                reading: rd,
                                trailing_punct: punct,
                                candidates: cands,
                                selected: 0,
                            });
                        }
                    }
                    assert(blocks_model(blocks@) =~= blocks_model(before) + block_of(
                        pv[k as int].0,
                        pv[k as int].1,
                        candidates_at(bc, k as int),
                    ));
                    k = k + 1;
                }
                assert(pv.take(parts.len() as int) == pv);
                let ghost bm = blocks_model(blocks@);
                assert(bm[0] == block_model(blocks@[0]));
                let mut acts: Vec<TsfAction> = Vec::new();
                acts.push(TsfAction::BgReclaim);
                acts.push(TsfAction::ShowCandidates {
                    candidates: copy_strs(&blocks[0].candidates),
                    selected: 0,
                });
                acts.push(TsfAction::ShowParts {
                    prefix: String::new(),
                    focused: block_text_of(&blocks[0]),
                    rest: texts_from_of(&blocks, 1),
                });
                assert(actions_model(acts@) =~= spec_new_conversion(s@, reading@, snap@).1);
                assert forall|j: int| 0 <= j < bm.len() implies choice_ok(
                    #[trigger] bm[j].candidates,
                    bm[j].selected,
                ) by {
                    assert(bm[j] == block_model(blocks@[j]));
                }
                let st = SessionState::BlockSelecting {
                    full_reading: copy_str(reading),
                    blocks,
                    current: 0,
                    accumulated: String::new(),
                };
                (st, acts, true)
            },
        }
    } else {
        let c = or_itself_of(&snap.candidates, reading);
        let mut acts: Vec<TsfAction> = Vec::new();
        acts.push(TsfAction::BgReclaim);
        acts.push(TsfAction::ShowCandidates { candidates: copy_strs(&c), selected: 0 });
        acts.push(TsfAction::ShowParts {
            prefix: String::new(),
            focused: copy_str(&c[0]),
            rest: String::new(),
        });
        assert(actions_model(acts@) =~= spec_new_conversion(s@, reading@, snap@).1);
        let st = SessionState::Selecting {
            original: copy_str(reading),
            candidates: c,
            selected: 0,
            prefix: String::new(),
            suffix: String::new(),
            rest_reading: String::new(),
            punct: None,
            llm_pending: snap.model_pending,
        };
        (st, acts, true)
    }
}


/// Space on the session (see `spec_convert_step`).
pub fn convert_step(state: SessionState, snap: &EngineSnapshot) -> (r: (
    SessionState,
    Vec<TsfAction>,
    bool,
))
    requires
        session_wf(state@),
    ensures
        (r.0@, actions_model(r.1@), r.2) == spec_convert_step(state@, snap@),
        session_wf(r.0@),
{
    let ghost s0 = state@;
    match state {
        SessionState::Selecting {
            original,
            candidates,
            selected,
            prefix,
            suffix,
            rest_reading,
            punct,
            llm_pending,
        } => {
            if llm_pending {
                match &snap.model_answer {
                    Some(a) => {
                        if a.len() > 0 {
                            let mut acts: Vec<TsfAction> = Vec::new();
                            acts.push(TsfAction::ShowCandidates { candidates: copy_strs(a), selected: 0 });
                            acts.push(TsfAction::ShowParts {
                                prefix: copy_str(&prefix),
                                focused: copy_str(&a[0]),
                                rest: copy_str(&suffix),
                            });
                            assert(actions_model(acts@) =~= spec_convert_step(s0, snap@).1);
                            let st = SessionState::Selecting {
                                original,
                                candidates: copy_strs(a),
                                selected: 0,
                                prefix,
                                suffix,
                                rest_reading,
                                punct,
                                llm_pending: false,
                            };
                            return (st, acts, true);
                        }
                    },
                    None => {},
                }
            }
            if candidates.len() == 0 {
                let st = SessionState::Selecting {
                    original,
                    candidates,
                    selected,
                    prefix,
                    suffix,
                    rest_reading,
                    punct,
                    llm_pending,
                };
                return (st, Vec::new(), true);
            }
            let k = (selected + 1) % candidates.len();
            let mut acts: Vec<TsfAction> = Vec::new();
            acts.push(TsfAction::ShowCandidates { candidates: copy_strs(&candidates), selected: k });
            acts.push(TsfAction::ShowParts {
                prefix: copy_str(&prefix),
                focused: copy_str(&candidates[k]),
                rest: copy_str(&suffix),
            });
            assert(actions_model(acts@) =~= spec_convert_step(s0, snap@).1);
            let st = SessionState::Selecting {
                original,
                candidates,
                selected: k,
                prefix,
                suffix,
                rest_reading,
                punct,
                llm_pending,
            };
            (st, acts, true)
        },
        SessionState::BlockSelecting { full_reading, blocks, current, accumulated } => {
            let ghost bm = blocks_model(blocks@);
            assert(bm.len() == blocks@.len());
            assert(bm[current as int] == block_model(blocks@[current as int]));
            let n = blocks[current].candidates.len();
            if n == 0 {
                let st = SessionState::BlockSelecting { full_reading, blocks, current, accumulated };
                return (st, Vec::new(), true);
            }
            let k = (blocks[current].selected + 1) % n;
            let mut blocks = blocks;
            let ghost orig = blocks@;
            let shown = copy_strs(&blocks[current].candidates);
            let cur_block = blocks.remove(current);
            let nb = ConversionBlock {
                reading: cur_block.reading,
                trailing_punct: cur_block.trailing_punct,
                candidates: cur_block.candidates,
                selected: k,
            };
            blocks.insert(current, nb);
            let ghost nbm = blocks_model(blocks@);
            assert(nbm =~= bm.update(
                current as int,
                BlockModel { selected: k as nat, ..bm[current as int] },
            )) by {
                assert forall|j: int| 0 <= j < nbm.len() implies nbm[j] == bm.update(
                    current as int,
                    BlockModel { selected: k as nat, ..bm[current as int] },
                )[j] by {
                    assert(nbm[j] == block_model(blocks@[j]));
                    if j != current {
                        assert(bm[j] == block_model(orig[j]));
                    }
                }
            }
            assert(nbm[current as int] == block_model(blocks@[current as int]));
            assert(blocks.len() == nbm.len());
            assert(current < blocks.len());
            let mut acts: Vec<TsfAction> = Vec::new();
            acts.push(TsfAction::ShowCandidates { candidates: shown, selected: k });
            acts.push(TsfAction::ShowParts {
                prefix: String::new(),
                focused: block_text_of(&blocks[current]),
                rest: texts_from_of(&blocks, current + 1),
            });
            assert(actions_model(acts@) =~= spec_convert_step(s0, snap@).1);
            assert forall|j: int| 0 <= j < nbm.len() implies choice_ok(
                #[trigger] nbm[j].candidates,
                nbm[j].selected,
            ) by {
                if j != current {
                    assert(nbm[j] == bm[j]);
                }
            }
            (SessionState::BlockSelecting { full_reading, blocks, current, accumulated }, acts, true)
        },
        SessionState::RangeSelect { reading, select_end, preview } => {
            let v = chars_of(reading.as_str());
            let sel = string_of_range(&v, 0, select_end);
            let rest = string_of_range(&v, select_end, v.len());
            assert(sel@ == reading@.take(select_end as int));
            assert(rest@ == reading@.skip(select_end as int));
            if is_empty_str(&sel) {
                return (SessionState::RangeSelect { reading, select_end, preview }, Vec::new(), true);
            }
            let c = or_itself_of(&snap.candidates, &sel);
            let mut acts: Vec<TsfAction> = Vec::new();
            acts.push(TsfAction::BgReclaim);
            acts.push(TsfAction::ForcePreedit(copy_str(&sel)));
            acts.push(TsfAction::StopLiveTimer);
            acts.push(TsfAction::ShowCandidates { candidates: copy_strs(&c), selected: 0 });
            acts.push(TsfAction::ShowParts {
                prefix: String::new(),
                focused: copy_str(&c[0]),
                rest: copy_str(&rest),
            });
            assert(actions_model(acts@) =~= spec_convert_step(s0, snap@).1);
            let st = SessionState::Selecting {
                original: sel,
                candidates: c,
                selected: 0,
                prefix: String::new(),
                suffix: copy_str(&rest),
                rest_reading: rest,
                punct: None,
                llm_pending: snap.model_pending,
            };
            (st, acts, true)
        },
        SessionState::LiveConv { reading, preview } => {
            let text = copy_str(&reading);
            new_conversion(SessionState::Preedit { text }, &reading, snap)
        },
        other => {
            if is_empty_str(&snap.preedit) {
                let mut sp = String::new();
                if snap.mode == InputMode::Alphanumeric {
                    crate::text::push_char(&mut sp, ' ');
                } else {
                    crate::text::push_char(&mut sp, '\u{3000}');
                }
                let mut acts: Vec<TsfAction> = Vec::new();
                acts.push(TsfAction::CommitText(sp));
                assert(actions_model(acts@) =~= spec_convert_step(s0, snap@).1);
                (other, acts, true)
            } else {
                let h = copy_str(&snap.hiragana);
                new_conversion(other, &h, snap)
            }
        },
    }
}


pub open spec fn opt_view(o: Option<String>) -> Option<Seq<char>> {
    match o {
        Some(t) => Some(t@),
        None => None,
    }
}

// ─── typing ─────────────────────────────────────────────────────────────────

/// The whole text of a block selection: the blocks committed and those from
/// the current one on.
pub open spec fn block_full_text(accumulated: Seq<char>, blocks: Seq<BlockModel>, current: nat) -> Seq<
    char,
> {
    accumulated + texts_from(blocks, current as int)
}

/// What a typed character does before it reaches the engine. A block
/// selection commits its whole text (learned against the whole reading, with
/// learning on, when they differ) and leaves an empty reading for the
/// character to start; a candidate selection commits the prefix, the chosen
/// candidate with its punctuation and the suffix (learned when
/// `learn_choice`) and leaves the session idle; a range selection puts its
/// whole reading back into the engine; a pending conversion goes back to its
/// reading, its candidates hidden; a live preview drops its queued updates. Then the character is typed (an ASCII capital as
/// a fullwidth letter). The text committed, if any, comes back for
/// `input_step`.
pub open spec fn spec_input_begin(s: SessionModel, c: char, auto_learn: bool, learn_choice: bool) -> (
    SessionModel,
    Seq<ActionModel>,
    Option<Seq<char>>,
) {
    let push = ActionModel::PushChar { c, fullwidth_alpha: 'A' <= c && c <= 'Z' };
    match s {
        SessionModel::LiveConv { .. } => (
            s,
            seq![
                ActionModel::HideCandidates,
                ActionModel::StopLiveTimer,
                ActionModel::ClearLiveQueues,
                push,
            ],
            None,
        ),
        SessionModel::RangeSelect { reading, .. } => (
            SessionModel::Preedit { text: reading },
            seq![ActionModel::HideCandidates, ActionModel::ForcePreedit(reading), push],
            None,
        ),
        SessionModel::Waiting { text } => (
            SessionModel::Preedit { text },
            seq![ActionModel::HideCandidates, push],
            None,
        ),
        SessionModel::BlockSelecting { full_reading, blocks, current, accumulated } => {
            let full = block_full_text(accumulated, blocks, current);
            (
                SessionModel::Preedit { text: seq![] },
                seq![ActionModel::HideCandidates] + (if auto_learn && full != full_reading
                    && full_reading.len() > 0 {
                    seq![ActionModel::Learn { reading: full_reading, surface: full }]
                } else {
                    seq![]
                }) + seq![ActionModel::EngineCommit(full), push],
                Some(full),
            )
        },
        SessionModel::Selecting { original, candidates, selected, prefix, suffix, punct, .. } => {
            let text = chosen(candidates, selected, original);
            let full = prefix + with_punct(text, punct) + suffix;
            (
                SessionModel::Idle,
                seq![ActionModel::HideCandidates, ActionModel::StopLiveTimer] + (if learn_choice {
                    seq![ActionModel::Learn { reading: original, surface: text }]
                } else {
                    seq![]
                }) + seq![ActionModel::EngineCommit(full), push],
                Some(full),
            )
        },
        _ => (s, seq![push], None),
    }
}

/// Typing on the session before the engine (see `spec_input_begin`).
pub fn input_begin(state: SessionState, c: char, auto_learn: bool, learn_choice: bool) -> (r: (
    SessionState,
    Vec<TsfAction>,
    Option<String>,
))
    requires
        session_wf(state@),
    ensures
        (r.0@, actions_model(r.1@), opt_view(r.2)) == spec_input_begin(
            state@,
            c,
            auto_learn,
            learn_choice,
        ),
        session_wf(r.0@),
{
    let ghost s0 = state@;
    let push = TsfAction::PushChar { c, fullwidth_alpha: 'A' <= c && c <= 'Z' };
    let mut acts: Vec<TsfAction> = Vec::new();
    match state {
        SessionState::LiveConv { reading, preview } => {
            acts.push(TsfAction::HideCandidates);
            acts.push(TsfAction::StopLiveTimer);
            acts.push(TsfAction::ClearLiveQueues);
            acts.push(push);
            assert(actions_model(acts@) =~= spec_input_begin(s0, c, auto_learn, learn_choice).1);
            (SessionState::LiveConv { reading, preview }, acts, None)
        },
        SessionState::RangeSelect { reading, select_end, preview } => {
            acts.push(TsfAction::HideCandidates);
            acts.push(TsfAction::ForcePreedit(copy_str(&reading)));
            acts.push(push);
            assert(actions_model(acts@) =~= spec_input_begin(s0, c, auto_learn, learn_choice).1);
            (SessionState::Preedit { text: reading }, acts, None)
        },
        SessionState::Waiting { text } => {
            acts.push(TsfAction::HideCandidates);
            acts.push(push);
            assert(actions_model(acts@) =~= spec_input_begin(s0, c, auto_learn, learn_choice).1);
            (SessionState::Preedit { text }, acts, None)
        },
        SessionState::BlockSelecting { full_reading, blocks, current, accumulated } => {
            let rest = texts_from_of(&blocks, current);
            let full = concat(accumulated.as_str(), rest.as_str());
            acts.push(TsfAction::HideCandidates);
            if auto_learn && !str_eq(full.as_str(), full_reading.as_str()) && !is_empty_str(
                &full_reading,
            ) {
                acts.push(TsfAction::Learn { reading: copy_str(&full_reading), surface: copy_str(&full) });
            }
            acts.push(TsfAction::EngineCommit(copy_str(&full)));
            acts.push(push);
            assert(actions_model(acts@) =~= spec_input_begin(s0, c, auto_learn, learn_choice).1);
            (SessionState::Preedit { text: String::new() }, acts, Some(full))
        },
        SessionState::Selecting {
            original,
            candidates,
            selected,
            prefix,
            suffix,
            rest_reading,
            punct,
            llm_pending,
        } => {
            let text = chosen_of(&candidates, selected, &original);
            let head = concat(prefix.as_str(), with_punct_of(copy_str(&text), punct).as_str());
            let full = concat(head.as_str(), suffix.as_str());
            acts.push(TsfAction::HideCandidates);
            acts.push(TsfAction::StopLiveTimer);
            if learn_choice {
                acts.push(TsfAction::Learn { reading: copy_str(&original), surface: text });
            }
            acts.push(TsfAction::EngineCommit(copy_str(&full)));
            acts.push(push);
            assert(actions_model(acts@) =~= spec_input_begin(s0, c, auto_learn, learn_choice).1);
            (SessionState::Idle, acts, Some(full))
        },
        other => {
            acts.push(push);
            assert(actions_model(acts@) =~= spec_input_begin(s0, c, auto_learn, learn_choice).1);
            (other, acts, None)
        },
    }
}

/// `whole` without `prefix` when it starts with it, else all of `whole`.
pub open spec fn strip_or_whole(whole: Seq<char>, prefix: Seq<char>) -> Seq<char> {
    if prefix.is_prefix_of(whole) {
        whole.skip(prefix.len() as int)
    } else {
        whole
    }
}

fn strip_or_whole_of(whole: &str, prefix: &str) -> (r: String)
    ensures
        r@ == strip_or_whole(whole@, prefix@),
{
    let w = chars_of(whole);
    let p = chars_of(prefix);
    if p.len() > w.len() {
        return owned(whole);
    }
    let mut i: usize = 0;
    while i < p.len()
        invariant
            i <= p.len() <= w.len(),
            w@ == whole@,
            p@ == prefix@,
            forall|j: int| 0 <= j < i ==> p@[j] == w@[j],
        decreases p.len() - i,
    {
        if p[i] != w[i] {
            assert(!prefix@.is_prefix_of(whole@)) by {
                if prefix@.is_prefix_of(whole@) {
                    assert(whole@.subrange(0, prefix@.len() as int)[i as int] == w@[i as int]);
                }
            }
            return owned(whole);
        }
        i = i + 1;
    }
    assert(prefix@.is_prefix_of(whole@)) by {
        assert(whole@.subrange(0, prefix@.len() as int) =~= prefix@);
    }
    let r = string_of_range(&w, p.len(), w.len());
    assert(w@.subrange(p.len() as int, w.len() as int) == whole@.skip(p.len() as int));
    r
}

/// What the engine's answer to a typed character shows (`snap.preedit` and
/// `snap.hiragana` as they are after the character). A live preview goes on
/// with the new reading: the preview with what was added, or the new reading
/// when that display collapsed (see `spec_live_continuation_display`). After
/// a commit, the text committed and the new reading start a new composition
/// (the session holding the new reading after a block selection's commit,
/// idle after a candidate selection's).
/// Otherwise the reading is shown. Live conversion is started on a non-empty
/// reading.
pub open spec fn spec_input_step(s: SessionModel, committed: Option<Seq<char>>, snap: SnapshotModel) -> (
    SessionModel,
    Seq<ActionModel>,
) {
    let live = if snap.hiragana.len() > 0 {
        seq![ActionModel::StartLive(snap.hiragana)]
    } else {
        seq![]
    };
    match s {
        SessionModel::LiveConv { reading, preview } => {
            let suffix = strip_or_whole(snap.hiragana, reading);
            let pending = if snap.hiragana.len() == 0 {
                snap.preedit
            } else if snap.hiragana.is_prefix_of(snap.preedit) {
                snap.preedit.skip(snap.hiragana.len() as int)
            } else {
                seq![]
            };
            let (display, shown) = spec_live_continuation_display(
                preview,
                snap.hiragana,
                suffix,
                pending,
            );
            (
                SessionModel::LiveConv { reading: snap.hiragana, preview: display },
                seq![ActionModel::StartLive(snap.hiragana), ActionModel::ShowComposition(shown)],
            )
        },
        _ => match committed {
            Some(t) => (
                match s {
                    SessionModel::Preedit { .. } => SessionModel::Preedit { text: snap.hiragana },
                    _ => s,
                },
                seq![
                    ActionModel::StartLive(snap.hiragana),
                    ActionModel::CommitThenStart { committed: t, composing: snap.preedit },
                ],
            ),
            None => (s, live + seq![ActionModel::ShowComposition(snap.preedit)]),
        },
    }
}

/// Typing on the session after the engine (see `spec_input_step`); the
/// texts must be short enough for the display's arithmetic.
pub fn input_step(state: SessionState, committed: Option<String>, snap: &EngineSnapshot) -> (r: (
    SessionState,
    Vec<TsfAction>,
))
    requires
        session_wf(state@),
        state@ is LiveConv ==> state@->LiveConv_preview.len() + snap@.hiragana.len()
            <= usize::MAX / 5,
    ensures
        (r.0@, actions_model(r.1@)) == spec_input_step(state@, opt_view(committed), snap@),
        session_wf(r.0@),
{
    let ghost s0 = state@;
    let ghost cm = opt_view(committed);
    let mut acts: Vec<TsfAction> = Vec::new();
    match state {
        SessionState::LiveConv { reading, preview } => {
            let suffix = strip_or_whole_of(snap.hiragana.as_str(), reading.as_str());
            let pending = suffix_after_prefix_or_empty(
                snap.preedit.as_str(),
                snap.hiragana.as_str(),
                "live input",
            );
            assert(suffix@.len() <= snap@.hiragana.len());
            let (display, shown) = live_continuation_display(
                reading.as_str(),
                preview.as_str(),
                snap.hiragana.as_str(),
                suffix.as_str(),
                pending,
            );
            acts.push(TsfAction::StartLive(copy_str(&snap.hiragana)));
            acts.push(TsfAction::ShowComposition(shown));
            assert(actions_model(acts@) =~= spec_input_step(s0, cm, snap@).1);
            (SessionState::LiveConv { reading: copy_str(&snap.hiragana), preview: display }, acts)
        },
        other => match committed {
            Some(t) => {
                acts.push(TsfAction::StartLive(copy_str(&snap.hiragana)));
                acts.push(TsfAction::CommitThenStart { committed: t, composing: copy_str(&snap.preedit) });
                assert(actions_model(acts@) =~= spec_input_step(s0, cm, snap@).1);
                let next = match other {
                    SessionState::Preedit { .. } => SessionState::Preedit {
                        text: copy_str(&snap.hiragana),
                    },
                    o => o,
                };
                (next, acts)
            },
            None => {
                if !is_empty_str(&snap.hiragana) {
                    acts.push(TsfAction::StartLive(copy_str(&snap.hiragana)));
                }
                acts.push(TsfAction::ShowComposition(copy_str(&snap.preedit)));
                assert(actions_model(acts@) =~= spec_input_step(s0, cm, snap@).1);
                (other, acts)
            },
        },
    }
}


// ─── raw input ──────────────────────────────────────────────────────────────

/// A character written straight into the reading (a keypad symbol), before
/// the engine: a live preview drops its queued updates; a conversion waited
/// for goes back to its reading, its candidates hidden; a candidate selection
/// commits as typing does (see `spec_input_begin`) and leaves the session
/// idle; any other state stays. Then the character is written as it is.
pub open spec fn spec_input_raw_begin(s: SessionModel, c: char, learn_choice: bool) -> (
    SessionModel,
    Seq<ActionModel>,
    Option<Seq<char>>,
) {
    let push = ActionModel::PushRaw(c);
    match s {
        SessionModel::LiveConv { .. } => (
            s,
            seq![
                ActionModel::HideCandidates,
                ActionModel::StopLiveTimer,
                ActionModel::ClearLiveQueues,
                push,
            ],
            None,
        ),
        SessionModel::Waiting { text } => (
            SessionModel::Preedit { text },
            seq![ActionModel::HideCandidates, push],
            None,
        ),
        SessionModel::Selecting { original, candidates, selected, prefix, suffix, punct, .. } => {
            let text = chosen(candidates, selected, original);
            let full = prefix + with_punct(text, punct) + suffix;
            (
                SessionModel::Idle,
                seq![ActionModel::HideCandidates, ActionModel::StopLiveTimer] + (if learn_choice {
                    seq![ActionModel::Learn { reading: original, surface: text }]
                } else {
                    seq![]
                }) + seq![ActionModel::EngineCommit(full), push],
                Some(full),
            )
        },
        _ => (s, seq![push], None),
    }
}

/// Raw input on the session before the engine (see `spec_input_raw_begin`).
pub fn input_raw_begin(state: SessionState, c: char, learn_choice: bool) -> (r: (
    SessionState,
    Vec<TsfAction>,
    Option<String>,
))
    requires
        session_wf(state@),
    ensures
        (r.0@, actions_model(r.1@), opt_view(r.2)) == spec_input_raw_begin(state@, c, learn_choice),
        session_wf(r.0@),
{
    let ghost s0 = state@;
    let mut acts: Vec<TsfAction> = Vec::new();
    match state {
        SessionState::LiveConv { reading, preview } => {
            acts.push(TsfAction::HideCandidates);
            acts.push(TsfAction::StopLiveTimer);
            acts.push(TsfAction::ClearLiveQueues);
            acts.push(TsfAction::PushRaw(c));
            assert(actions_model(acts@) =~= spec_input_raw_begin(s0, c, learn_choice).1);
            (SessionState::LiveConv { reading, preview }, acts, None)
        },
        SessionState::Waiting { text } => {
            acts.push(TsfAction::HideCandidates);
            acts.push(TsfAction::PushRaw(c));
            assert(actions_model(acts@) =~= spec_input_raw_begin(s0, c, learn_choice).1);
            (SessionState::Preedit { text }, acts, None)
        },
        SessionState::Selecting { original, candidates, selected, prefix, suffix, punct, .. } => {
            let text = chosen_of(&candidates, selected, &original);
            let head = concat(prefix.as_str(), with_punct_of(copy_str(&text), punct).as_str());
            let full = concat(head.as_str(), suffix.as_str());
            acts.push(TsfAction::HideCandidates);
            acts.push(TsfAction::StopLiveTimer);
            if learn_choice {
                acts.push(TsfAction::Learn { reading: copy_str(&original), surface: text });
            }
            acts.push(TsfAction::EngineCommit(copy_str(&full)));
            acts.push(TsfAction::PushRaw(c));
            assert(actions_model(acts@) =~= spec_input_raw_begin(s0, c, learn_choice).1);
            (SessionState::Idle, acts, Some(full))
        },
        other => {
            acts.push(TsfAction::PushRaw(c));
            assert(actions_model(acts@) =~= spec_input_raw_begin(s0, c, learn_choice).1);
            (other, acts, None)
        },
    }
}

/// What the engine's answer to a raw character shows (`snap` as it is after
/// it): a live preview goes on with the new reading as typing does, with no
/// pending romaji; after a commit, the text committed and the new reading
/// start a new composition; otherwise the reading is shown. Live conversion
/// of the new reading is started when the engine is ready.
pub open spec fn spec_input_raw_step(
    s: SessionModel,
    committed: Option<Seq<char>>,
    snap: SnapshotModel,
) -> (SessionModel, Seq<ActionModel>) {
    match s {
        SessionModel::LiveConv { reading, preview } => {
            let suffix = strip_or_whole(snap.hiragana, reading);
            let (display, shown) = spec_live_continuation_display(
                preview,
                snap.hiragana,
                suffix,
                seq![],
            );
            (
                SessionModel::LiveConv { reading: snap.hiragana, preview: display },
                seq![ActionModel::StartLive(snap.hiragana), ActionModel::ShowComposition(shown)],
            )
        },
        _ => match committed {
            Some(t) => (
                s,
                seq![
                    ActionModel::StartLive(snap.hiragana),
                    ActionModel::CommitThenStart { committed: t, composing: snap.preedit },
                ],
            ),
            None => (
                s,
                seq![
                    ActionModel::StartLive(snap.hiragana),
                    ActionModel::ShowComposition(snap.preedit),
                ],
            ),
        },
    }
}

/// Raw input on the session after the engine (see `spec_input_raw_step`);
/// the texts must be short enough for the display's arithmetic.
pub fn input_raw_step(state: SessionState, committed: Option<String>, snap: &EngineSnapshot) -> (r: (
    SessionState,
    Vec<TsfAction>,
))
    requires
        session_wf(state@),
        state@ is LiveConv ==> state@->LiveConv_preview.len() + snap@.hiragana.len()
            <= usize::MAX / 5,
    ensures
        (r.0@, actions_model(r.1@)) == spec_input_raw_step(state@, opt_view(committed), snap@),
        session_wf(r.0@),
{
    let ghost s0 = state@;
    let ghost cm = opt_view(committed);
    let mut acts: Vec<TsfAction> = Vec::new();
    match state {
        SessionState::LiveConv { reading, preview } => {
            let suffix = strip_or_whole_of(snap.hiragana.as_str(), reading.as_str());
            assert(suffix@.len() <= snap@.hiragana.len());
            let (display, shown) = live_continuation_display(
                reading.as_str(),
                preview.as_str(),
                snap.hiragana.as_str(),
                suffix.as_str(),
                "",
            );
            proof {
                reveal_strlit("");
            }
            acts.push(TsfAction::StartLive(copy_str(&snap.hiragana)));
            acts.push(TsfAction::ShowComposition(shown));
            assert(actions_model(acts@) =~= spec_input_raw_step(s0, cm, snap@).1);
            (SessionState::LiveConv { reading: copy_str(&snap.hiragana), preview: display }, acts)
        },
        other => {
            acts.push(TsfAction::StartLive(copy_str(&snap.hiragana)));
            match committed {
                Some(t) => {
                    acts.push(
                        TsfAction::CommitThenStart { committed: t, composing: copy_str(&snap.preedit) },
                    );
                },
                None => {
                    acts.push(TsfAction::ShowComposition(copy_str(&snap.preedit)));
                },
            }
            assert(actions_model(acts@) =~= spec_input_raw_step(s0, cm, snap@).1);
            (other, acts)
        },
    }
}

// ─── punctuation ────────────────────────────────────────────────────────────

/// The character a punctuation key types: after a digit, with the automatic
/// digit separator on, `、`/`,` types `,` and `。`/`.` types `.`; else the key's
/// own character.
pub open spec fn punct_symbol(reading: Seq<char>, c: char, separator_on: bool) -> char {
    match spec_numeric_separator_after_digit(reading, c) {
        Some(x) if separator_on => x,
        _ => c,
    }
}

/// A punctuation key before the engine answers (`preedit_empty`: whether the
/// engine shows nothing, `hiragana`: its reading, `symbol` as
/// `punct_symbol` gives it). The candidate window and both timers stop.
/// With nothing shown, or in a state not named below, the symbol is written
/// into the engine and `spec_punctuate_finish` shows what it then shows
/// (`false` in the result). Otherwise (`true`): a live preview goes on with
/// the symbol after its reading and its preview; a block selection goes on
/// as a live preview of its whole reading and whole text, each with the
/// symbol; a candidate selection goes on as a live preview of the prefix,
/// its reading, the symbol and the rest of the reading, shown as the prefix,
/// the chosen candidate, the symbol and the suffix; a conversion waited for
/// goes back to its text with the symbol.
pub open spec fn spec_punctuate_begin(s: SessionModel, preedit_empty: bool, symbol: char) -> (
    SessionModel,
    Seq<ActionModel>,
    bool,
) {
    let stop = seq![
        ActionModel::HideCandidates,
        ActionModel::StopLiveTimer,
        ActionModel::StopWaitingTimer,
    ];
    let push = ActionModel::PushRaw(symbol);
    if preedit_empty {
        (s, stop.push(push), false)
    } else {
        match s {
            SessionModel::LiveConv { reading, preview } => {
                let display = preview.push(symbol);
                (
                    SessionModel::LiveConv { reading: reading.push(symbol), preview: display },
                    stop + seq![push, ActionModel::ShowComposition(display)],
                    true,
                )
            },
            SessionModel::BlockSelecting { full_reading, blocks, current, accumulated } => {
                let display = block_full_text(accumulated, blocks, current).push(symbol);
                (
                    SessionModel::LiveConv { reading: full_reading.push(symbol), preview: display },
                    stop + seq![
                        ActionModel::ForcePreedit(full_reading),
                        push,
                        ActionModel::ShowComposition(display),
                    ],
                    true,
                )
            },
            SessionModel::Selecting {
                original,
                candidates,
                selected,
                prefix,
                suffix,
                rest_reading,
                ..
            } => {
                let text = chosen(candidates, selected, original);
                let display = (prefix + text).push(symbol) + suffix;
                let next_reading = (prefix + original).push(symbol) + rest_reading;
                (
                    SessionModel::LiveConv { reading: next_reading, preview: display },
                    stop + seq![
                        ActionModel::ForcePreedit(next_reading),
                        ActionModel::ShowComposition(display),
                    ],
                    true,
                )
            },
            SessionModel::Waiting { text } => {
                let display = text.push(symbol);
                (
                    SessionModel::Preedit { text: display },
                    stop + seq![push, ActionModel::ShowComposition(display)],
                    true,
                )
            },
            _ => (s, stop.push(push), false),
        }
    }
}

/// A punctuation key after the engine wrote the symbol (`preedit`: what it
/// shows then): the session holds that text and the composition shows it.
pub open spec fn spec_punctuate_finish(preedit: Seq<char>) -> (SessionModel, Seq<ActionModel>) {
    (SessionModel::Preedit { text: preedit }, seq![ActionModel::ShowComposition(preedit)])
}

/// A punctuation key on the session before the engine answers (see
/// `spec_punctuate_begin`); the symbol typed is returned too.
pub fn punctuate_begin(
    state: SessionState,
    c: char,
    snap: &EngineSnapshot,
    separator_on: bool,
) -> (r: (SessionState, Vec<TsfAction>, bool, char))
    requires
        session_wf(state@),
    ensures
        r.3 == punct_symbol(snap@.hiragana, c, separator_on),
        (r.0@, actions_model(r.1@), r.2) == spec_punctuate_begin(
            state@,
            snap@.preedit.len() == 0,
            r.3,
        ),
        session_wf(r.0@),
{
    let ghost s0 = state@;
    let symbol = match numeric_separator_after_digit(snap.hiragana.as_str(), c) {
        Some(x) if separator_on => x,
        _ => c,
    };
    let preedit_empty = snap.preedit.as_str().unicode_len() == 0;
    let mut acts: Vec<TsfAction> = Vec::new();
    acts.push(TsfAction::HideCandidates);
    acts.push(TsfAction::StopLiveTimer);
    acts.push(TsfAction::StopWaitingTimer);
    if preedit_empty {
        acts.push(TsfAction::PushRaw(symbol));
        assert(actions_model(acts@) =~= spec_punctuate_begin(s0, preedit_empty, symbol).1);
        return (state, acts, false, symbol);
    }
    match state {
        SessionState::LiveConv { reading, preview } => {
            let mut display = copy_str(&preview);
            push_char(&mut display, symbol);
            let mut next = reading;
            push_char(&mut next, symbol);
            acts.push(TsfAction::PushRaw(symbol));
            acts.push(TsfAction::ShowComposition(copy_str(&display)));
            assert(actions_model(acts@) =~= spec_punctuate_begin(s0, preedit_empty, symbol).1);
            (SessionState::LiveConv { reading: next, preview: display }, acts, true, symbol)
        },
        SessionState::BlockSelecting { full_reading, blocks, current, accumulated } => {
            let rest = texts_from_of(&blocks, current);
            let mut display = concat(accumulated.as_str(), rest.as_str());
            push_char(&mut display, symbol);
            let mut next = copy_str(&full_reading);
            push_char(&mut next, symbol);
            acts.push(TsfAction::ForcePreedit(full_reading));
            acts.push(TsfAction::PushRaw(symbol));
            acts.push(TsfAction::ShowComposition(copy_str(&display)));
            assert(actions_model(acts@) =~= spec_punctuate_begin(s0, preedit_empty, symbol).1);
            (SessionState::LiveConv { reading: next, preview: display }, acts, true, symbol)
        },
        SessionState::Selecting { original, candidates, selected, prefix, suffix, rest_reading, .. } => {
            let text = chosen_of(&candidates, selected, &original);
            let mut display = concat(prefix.as_str(), text.as_str());
            push_char(&mut display, symbol);
            let display = concat(display.as_str(), suffix.as_str());
            let mut next = concat(prefix.as_str(), original.as_str());
            push_char(&mut next, symbol);
            let next = concat(next.as_str(), rest_reading.as_str());
            acts.push(TsfAction::ForcePreedit(copy_str(&next)));
            acts.push(TsfAction::ShowComposition(copy_str(&display)));
            assert(actions_model(acts@) =~= spec_punctuate_begin(s0, preedit_empty, symbol).1);
            (SessionState::LiveConv { reading: next, preview: display }, acts, true, symbol)
        },
        SessionState::Waiting { text } => {
            let mut display = text;
            push_char(&mut display, symbol);
            acts.push(TsfAction::PushRaw(symbol));
            acts.push(TsfAction::ShowComposition(copy_str(&display)));
            assert(actions_model(acts@) =~= spec_punctuate_begin(s0, preedit_empty, symbol).1);
            (SessionState::Preedit { text: display }, acts, true, symbol)
        },
        other => {
            acts.push(TsfAction::PushRaw(symbol));
            assert(actions_model(acts@) =~= spec_punctuate_begin(s0, preedit_empty, symbol).1);
            (other, acts, false, symbol)
        },
    }
}

/// A punctuation key on the session after the engine wrote the symbol (see
/// `spec_punctuate_finish`).
pub fn punctuate_finish(preedit: &str) -> (r: (SessionState, Vec<TsfAction>))
    ensures
        (r.0@, actions_model(r.1@)) == spec_punctuate_finish(preedit@),
        session_wf(r.0@),
{
    let mut acts: Vec<TsfAction> = Vec::new();
    acts.push(TsfAction::ShowComposition(owned(preedit)));
    assert(actions_model(acts@) =~= spec_punctuate_finish(preedit@).1);
    (SessionState::Preedit { text: owned(preedit) }, acts)
}

// ─── Escape and Backspace ───────────────────────────────────────────────────

/// Escape (`preedit_empty`: whether the engine holds no reading): a live
/// preview goes back to its reading; a block selection or a candidate
/// selection goes back to its whole reading (a candidate selection with the
/// text around it), which goes back into the engine; a range selection goes
/// back to the live preview it came from; a conversion waited for goes back
/// to its text, or to nothing when that is empty; otherwise a reading is
/// thrown away. The flag says whether the key was taken.
pub open spec fn spec_cancel(s: SessionModel, preedit_empty: bool) -> (
    SessionModel,
    Seq<ActionModel>,
    bool,
) {
    match s {
        SessionModel::LiveConv { reading, .. } => (
            SessionModel::Preedit { text: reading },
            seq![
                ActionModel::StopLiveTimer,
                ActionModel::ClearLiveQueues,
                ActionModel::ShowComposition(reading),
            ],
            true,
        ),
        SessionModel::BlockSelecting { full_reading, .. } => (
            SessionModel::Preedit { text: full_reading },
            seq![
                ActionModel::HideCandidates,
                ActionModel::BgReclaim,
                ActionModel::ForcePreedit(full_reading),
                ActionModel::ShowComposition(full_reading),
            ],
            true,
        ),
        SessionModel::RangeSelect { reading, preview, .. } => (
            SessionModel::LiveConv { reading, preview },
            seq![ActionModel::HideCandidates, ActionModel::ShowComposition(preview)],
            true,
        ),
        SessionModel::Selecting { original, prefix, suffix, .. } => {
            let full = prefix + original + suffix;
            (
                SessionModel::Preedit { text: full },
                seq![
                    ActionModel::HideCandidates,
                    ActionModel::BgReclaim,
                    ActionModel::ForcePreedit(full),
                    ActionModel::ShowComposition(full),
                ],
                true,
            )
        },
        SessionModel::Waiting { text } => if text.len() == 0 {
            (
                SessionModel::Idle,
                seq![
                    ActionModel::BgReclaim,
                    ActionModel::ResetEngine,
                    ActionModel::EndComposition(seq![]),
                ],
                true,
            )
        } else {
            (
                SessionModel::Preedit { text },
                seq![
                    ActionModel::HideCandidates,
                    ActionModel::StopWaitingTimer,
                    ActionModel::ShowComposition(text),
                ],
                true,
            )
        },
        _ => if preedit_empty {
            (s, seq![], false)
        } else {
            (
                s,
                seq![
                    ActionModel::BgReclaim,
                    ActionModel::ResetEngine,
                    ActionModel::EndComposition(seq![]),
                ],
                true,
            )
        },
    }
}

/// Escape on the session (see `spec_cancel`); `snap` is what the engine
/// says before the key.
pub fn cancel_step(state: SessionState, snap: &EngineSnapshot) -> (r: (
    SessionState,
    Vec<TsfAction>,
    bool,
))
    requires
        session_wf(state@),
    ensures
        (r.0@, actions_model(r.1@), r.2) == spec_cancel(state@, snap@.preedit.len() == 0),
        session_wf(r.0@),
{
    let ghost s0 = state@;
    let preedit_empty = snap.preedit.as_str().unicode_len() == 0;
    proof {
        assert(preedit_empty == (snap@.preedit.len() == 0));
    }
    match state {
        SessionState::LiveConv { reading, preview } => {
            let mut acts: Vec<TsfAction> = Vec::new();
            acts.push(TsfAction::StopLiveTimer);
            acts.push(TsfAction::ClearLiveQueues);
            acts.push(TsfAction::ShowComposition(copy_str(&reading)));
            assert(actions_model(acts@) =~= spec_cancel(s0, preedit_empty).1);
            (SessionState::Preedit { text: reading }, acts, true)
        },
        SessionState::BlockSelecting { full_reading, .. } => {
            let mut acts: Vec<TsfAction> = Vec::new();
            acts.push(TsfAction::HideCandidates);
            acts.push(TsfAction::BgReclaim);
            acts.push(TsfAction::ForcePreedit(copy_str(&full_reading)));
            acts.push(TsfAction::ShowComposition(copy_str(&full_reading)));
            assert(actions_model(acts@) =~= spec_cancel(s0, preedit_empty).1);
            (SessionState::Preedit { text: full_reading }, acts, true)
        },
        SessionState::RangeSelect { reading, preview, .. } => {
            let mut acts: Vec<TsfAction> = Vec::new();
            acts.push(TsfAction::HideCandidates);
            acts.push(TsfAction::ShowComposition(copy_str(&preview)));
            assert(actions_model(acts@) =~= spec_cancel(s0, preedit_empty).1);
            (SessionState::LiveConv { reading, preview }, acts, true)
        },
        SessionState::Selecting { original, prefix, suffix, .. } => {
            let head = concat(prefix.as_str(), original.as_str());
            let full = concat(head.as_str(), suffix.as_str());
            let mut acts: Vec<TsfAction> = Vec::new();
            acts.push(TsfAction::HideCandidates);
            acts.push(TsfAction::BgReclaim);
            acts.push(TsfAction::ForcePreedit(copy_str(&full)));
            acts.push(TsfAction::ShowComposition(copy_str(&full)));
            assert(actions_model(acts@) =~= spec_cancel(s0, preedit_empty).1);
            (SessionState::Preedit { text: full }, acts, true)
        },
        SessionState::Waiting { text } => {
            let mut acts: Vec<TsfAction> = Vec::new();
            if text.as_str().unicode_len() == 0 {
                acts.push(TsfAction::BgReclaim);
                acts.push(TsfAction::ResetEngine);
                acts.push(TsfAction::EndComposition(String::new()));
                assert(actions_model(acts@) =~= spec_cancel(s0, preedit_empty).1);
                (SessionState::Idle, acts, true)
            } else {
                acts.push(TsfAction::HideCandidates);
                acts.push(TsfAction::StopWaitingTimer);
                acts.push(TsfAction::ShowComposition(copy_str(&text)));
                assert(actions_model(acts@) =~= spec_cancel(s0, preedit_empty).1);
                (SessionState::Preedit { text }, acts, true)
            }
        },
        other => {
            if preedit_empty {
                (other, Vec::new(), false)
            } else {
                let mut acts: Vec<TsfAction> = Vec::new();
                acts.push(TsfAction::BgReclaim);
                acts.push(TsfAction::ResetEngine);
                acts.push(TsfAction::EndComposition(String::new()));
                assert(actions_model(acts@) =~= spec_cancel(s0, preedit_empty).1);
                (other, acts, true)
            }
        },
    }
}

/// Backspace, before the engine is asked: a live preview goes back to its
/// reading, and the engine then deletes a character; a range selection goes
/// back to the live preview it came from; a block selection or a candidate
/// selection goes back to its reading (a block selection's whole reading
/// going back into the engine); a conversion waited for goes back to its
/// text, and the engine then deletes. `Some(taken)` ends the key here;
/// `None` asks the engine to delete a character (see `spec_backspace_finish`).
pub open spec fn spec_backspace_begin(s: SessionModel) -> (
    SessionModel,
    Seq<ActionModel>,
    Option<bool>,
) {
    match s {
        SessionModel::LiveConv { reading, .. } => (
            SessionModel::Preedit { text: reading },
            seq![
                ActionModel::StopLiveTimer,
                ActionModel::ClearLiveQueues,
                ActionModel::ShowComposition(reading),
            ],
            None,
        ),
        SessionModel::RangeSelect { reading, preview, .. } => (
            SessionModel::LiveConv { reading, preview },
            seq![ActionModel::HideCandidates, ActionModel::ShowComposition(preview)],
            Some(true),
        ),
        SessionModel::BlockSelecting { full_reading, .. } => (
            SessionModel::Preedit { text: full_reading },
            seq![
                ActionModel::HideCandidates,
                ActionModel::BgReclaim,
                ActionModel::ForcePreedit(full_reading),
                ActionModel::ShowComposition(full_reading),
            ],
            Some(true),
        ),
        SessionModel::Selecting { original, .. } => (
            SessionModel::Preedit { text: original },
            seq![ActionModel::HideCandidates, ActionModel::ShowComposition(original)],
            Some(true),
        ),
        SessionModel::Waiting { text } => (
            SessionModel::Preedit { text },
            seq![ActionModel::HideCandidates],
            None,
        ),
        _ => (s, seq![], None),
    }
}

/// Backspace, after the engine was asked to delete (`consumed`: whether it
/// did; `preedit`: what it shows then): the session holds that text, and the
/// composition shows it or ends when it is empty; nothing happens when the
/// engine had nothing to delete. The flag says whether the key was taken.
pub open spec fn spec_backspace_finish(s: SessionModel, consumed: bool, preedit: Seq<char>) -> (
    SessionModel,
    Seq<ActionModel>,
    bool,
) {
    if consumed {
        (
            SessionModel::Preedit { text: preedit },
            seq![
                ActionModel::BgReclaim,
                if preedit.len() == 0 {
                    ActionModel::EndComposition(seq![])
                } else {
                    ActionModel::ShowComposition(preedit)
                },
            ],
            true,
        )
    } else {
        (s, seq![], false)
    }
}

/// Backspace on the session, before the engine is asked (see
/// `spec_backspace_begin`).
pub fn backspace_begin(state: SessionState) -> (r: (SessionState, Vec<TsfAction>, Option<bool>))
    requires
        session_wf(state@),
    ensures
        (r.0@, actions_model(r.1@), r.2) == spec_backspace_begin(state@),
        session_wf(r.0@),
{
    let ghost s0 = state@;
    match state {
        SessionState::LiveConv { reading, .. } => {
            let mut acts: Vec<TsfAction> = Vec::new();
            acts.push(TsfAction::StopLiveTimer);
            acts.push(TsfAction::ClearLiveQueues);
            acts.push(TsfAction::ShowComposition(copy_str(&reading)));
            assert(actions_model(acts@) =~= spec_backspace_begin(s0).1);
            (SessionState::Preedit { text: reading }, acts, None)
        },
        SessionState::RangeSelect { reading, preview, .. } => {
            let mut acts: Vec<TsfAction> = Vec::new();
            acts.push(TsfAction::HideCandidates);
            acts.push(TsfAction::ShowComposition(copy_str(&preview)));
            assert(actions_model(acts@) =~= spec_backspace_begin(s0).1);
            (SessionState::LiveConv { reading, preview }, acts, Some(true))
        },
        SessionState::BlockSelecting { full_reading, .. } => {
            let mut acts: Vec<TsfAction> = Vec::new();
            acts.push(TsfAction::HideCandidates);
            acts.push(TsfAction::BgReclaim);
            acts.push(TsfAction::ForcePreedit(copy_str(&full_reading)));
            acts.push(TsfAction::ShowComposition(copy_str(&full_reading)));
            assert(actions_model(acts@) =~= spec_backspace_begin(s0).1);
            (SessionState::Preedit { text: full_reading }, acts, Some(true))
        },
        SessionState::Selecting { original, .. } => {
            let mut acts: Vec<TsfAction> = Vec::new();
            acts.push(TsfAction::HideCandidates);
            acts.push(TsfAction::ShowComposition(copy_str(&original)));
            assert(actions_model(acts@) =~= spec_backspace_begin(s0).1);
            (SessionState::Preedit { text: original }, acts, Some(true))
        },
        SessionState::Waiting { text } => {
            let mut acts: Vec<TsfAction> = Vec::new();
            acts.push(TsfAction::HideCandidates);
            assert(actions_model(acts@) =~= spec_backspace_begin(s0).1);
            (SessionState::Preedit { text }, acts, None)
        },
        other => {
            let acts: Vec<TsfAction> = Vec::new();
            assert(actions_model(acts@) =~= Seq::<ActionModel>::empty());
            (other, acts, None)
        },
    }
}

/// Backspace on the session, after the engine was asked (see
/// `spec_backspace_finish`).
pub fn backspace_finish(state: SessionState, consumed: bool, preedit: &str) -> (r: (
    SessionState,
    Vec<TsfAction>,
    bool,
))
    requires
        session_wf(state@),
    ensures
        (r.0@, actions_model(r.1@), r.2) == spec_backspace_finish(state@, consumed, preedit@),
        session_wf(r.0@),
{
    if consumed {
        let mut acts: Vec<TsfAction> = Vec::new();
        acts.push(TsfAction::BgReclaim);
        if preedit.unicode_len() == 0 {
            acts.push(TsfAction::EndComposition(String::new()));
        } else {
            acts.push(TsfAction::ShowComposition(owned(preedit)));
        }
        assert(actions_model(acts@) =~= spec_backspace_finish(state@, consumed, preedit@).1);
        (SessionState::Preedit { text: owned(preedit) }, acts, true)
    } else {
        let acts: Vec<TsfAction> = Vec::new();
        assert(actions_model(acts@) =~= Seq::<ActionModel>::empty());
        (state, acts, false)
    }
}

// ─── F6 to F10 ──────────────────────────────────────────────────────────────

/// The kana form that F6, F7 or F8 asks for.
#[derive(Debug, Clone, Copy, PartialEq, Eq, Structural)]
pub enum KanaTarget {
    Hiragana,
    Katakana,
    HalfKatakana,
}

pub open spec fn kana_target_text(k: KanaTarget, s: Seq<char>) -> Seq<char> {
    match k {
        KanaTarget::Hiragana => spec_to_hiragana(s),
        KanaTarget::Katakana => spec_to_katakana(s),
        KanaTarget::HalfKatakana => spec_to_half_katakana(s),
    }
}

/// The reading replaced by `t` in the engine and shown: a candidate selection
/// or a live preview goes back to a typed reading (the candidates hidden and
/// the live timer stopped), a conversion waited for too (its timer stopped);
/// any other state stays.
pub open spec fn spec_retype_as(s: SessionModel, t: Seq<char>) -> (SessionModel, Seq<ActionModel>) {
    let head = seq![
        ActionModel::BgReclaim,
        ActionModel::ForcePreedit(t),
        ActionModel::SuppressLiveCommit,
    ];
    let tail = seq![ActionModel::ShowComposition(t)];
    match s {
        SessionModel::Selecting { .. } | SessionModel::LiveConv { .. } => (
            SessionModel::Preedit { text: t },
            head + seq![ActionModel::HideCandidates, ActionModel::StopLiveTimer] + tail,
        ),
        SessionModel::Waiting { .. } => (
            SessionModel::Preedit { text: t },
            head + seq![ActionModel::HideCandidates, ActionModel::StopWaitingTimer] + tail,
        ),
        _ => (s, head + tail),
    }
}

fn retype_as(state: SessionState, t: String) -> (r: (SessionState, Vec<TsfAction>))
    requires
        session_wf(state@),
    ensures
        (r.0@, actions_model(r.1@)) == spec_retype_as(state@, t@),
        session_wf(r.0@),
{
    let ghost s0 = state@;
    let mut acts: Vec<TsfAction> = Vec::new();
    acts.push(TsfAction::BgReclaim);
    acts.push(TsfAction::ForcePreedit(copy_str(&t)));
    acts.push(TsfAction::SuppressLiveCommit);
    let next = match state {
        SessionState::Selecting { .. } | SessionState::LiveConv { .. } => {
            acts.push(TsfAction::HideCandidates);
            acts.push(TsfAction::StopLiveTimer);
            SessionState::Preedit { text: copy_str(&t) }
        },
        SessionState::Waiting { .. } => {
            acts.push(TsfAction::HideCandidates);
            acts.push(TsfAction::StopWaitingTimer);
            SessionState::Preedit { text: copy_str(&t) }
        },
        other => other,
    };
    acts.push(TsfAction::ShowComposition(t));
    assert(actions_model(acts@) =~= spec_retype_as(s0, t@).1);
    (next, acts)
}

/// F9 (`full`) or F10 on the session (`preedit`: what the engine shows,
/// `hiragana`: its reading, `romaji_log`: the romaji typed): nothing shown,
/// the key is not taken; else the reading becomes the text of
/// `spec_latin_convert_text` (see `spec_retype_as`).
pub open spec fn spec_latin_step(
    s: SessionModel,
    preedit: Seq<char>,
    hiragana: Seq<char>,
    romaji_log: Seq<char>,
    full: bool,
) -> (SessionModel, Seq<ActionModel>, bool) {
    if preedit.len() == 0 {
        (s, seq![], false)
    } else {
        let r = spec_retype_as(s, spec_latin_convert_text(preedit, hiragana, romaji_log, full));
        (r.0, r.1, true)
    }
}

pub fn latin_convert_step(
    state: SessionState,
    preedit: &str,
    hiragana: &str,
    romaji_log: &str,
    full: bool,
) -> (r: (SessionState, Vec<TsfAction>, bool))
    requires
        session_wf(state@),
    ensures
        (r.0@, actions_model(r.1@), r.2) == spec_latin_step(
            state@,
            preedit@,
            hiragana@,
            romaji_log@,
            full,
        ),
        session_wf(r.0@),
{
    if preedit.unicode_len() == 0 {
        let acts: Vec<TsfAction> = Vec::new();
        assert(actions_model(acts@) =~= Seq::<ActionModel>::empty());
        return (state, acts, false);
    }
    let t = latin_convert_text(preedit, hiragana, romaji_log, full);
    let (next, acts) = retype_as(state, t);
    (next, acts, true)
}

/// F6, F7 or F8 on the session (`preedit`: what the engine shows,
/// `hiragana_from_log`: the hiragana of the romaji typed): nothing shown,
/// the key is not taken; else the text with kana in it (the shown text when
/// it has kana or the log gives nothing, else the log's hiragana) in the form
/// asked for becomes the reading (see `spec_retype_as`).
pub open spec fn spec_kana_step(
    s: SessionModel,
    preedit: Seq<char>,
    hiragana_from_log: Seq<char>,
    target: KanaTarget,
) -> (SessionModel, Seq<ActionModel>, bool) {
    if preedit.len() == 0 {
        (s, seq![], false)
    } else {
        let source = if spec_has_kana(preedit) || hiragana_from_log.len() == 0 {
            preedit
        } else {
            hiragana_from_log
        };
        let r = spec_retype_as(s, kana_target_text(target, source));
        (r.0, r.1, true)
    }
}

pub fn kana_convert_step(
    state: SessionState,
    preedit: &str,
    hiragana_from_log: &str,
    target: KanaTarget,
) -> (r: (SessionState, Vec<TsfAction>, bool))
    requires
        session_wf(state@),
    ensures
        (r.0@, actions_model(r.1@), r.2) == spec_kana_step(
            state@,
            preedit@,
            hiragana_from_log@,
            target,
        ),
        session_wf(r.0@),
{
    if preedit.unicode_len() == 0 {
        let acts: Vec<TsfAction> = Vec::new();
        assert(actions_model(acts@) =~= Seq::<ActionModel>::empty());
        return (state, acts, false);
    }
    let source = kana_convert_source(preedit, hiragana_from_log);
    let t = match target {
        KanaTarget::Hiragana => to_hiragana(source.as_str()),
        KanaTarget::Katakana => to_katakana(source.as_str()),
        KanaTarget::HalfKatakana => to_half_katakana(source.as_str()),
    };
    let (next, acts) = retype_as(state, t);
    (next, acts, true)
}

// ─── turning the input method off or over ──────────────────────────────────

/// Before the mode changes, what is being composed is committed (`preedit`:
/// what the engine shows): a live preview's text, else the shown text; when
/// there is any, the engine commits it, the live timer stops, the
/// composition ends with it and the session is idle; else nothing happens.
pub open spec fn spec_settle(s: SessionModel, preedit: Seq<char>) -> (SessionModel, Seq<ActionModel>) {
    let text = match s {
        SessionModel::LiveConv { preview, .. } => preview,
        _ => preedit,
    };
    if text.len() == 0 {
        (s, seq![])
    } else {
        (
            SessionModel::Idle,
            seq![
                ActionModel::BgReclaim,
                ActionModel::EngineCommit(text),
                ActionModel::StopLiveTimer,
                ActionModel::EndComposition(text),
            ],
        )
    }
}

fn settle(state: SessionState, preedit: &str) -> (r: (SessionState, Vec<TsfAction>))
    requires
        session_wf(state@),
    ensures
        (r.0@, actions_model(r.1@)) == spec_settle(state@, preedit@),
        session_wf(r.0@),
{
    let ghost s0 = state@;
    let text = match &state {
        SessionState::LiveConv { preview, .. } => copy_str(preview),
        _ => owned(preedit),
    };
    let mut acts: Vec<TsfAction> = Vec::new();
    if text.as_str().unicode_len() == 0 {
        assert(actions_model(acts@) =~= Seq::<ActionModel>::empty());
        return (state, acts);
    }
    acts.push(TsfAction::BgReclaim);
    acts.push(TsfAction::EngineCommit(copy_str(&text)));
    acts.push(TsfAction::StopLiveTimer);
    acts.push(TsfAction::EndComposition(text));
    assert(actions_model(acts@) =~= spec_settle(s0, preedit@).1);
    (SessionState::Idle, acts)
}

/// The IME on/off key (`mode`: the mode before it): what is composed is
/// committed (see `spec_settle`); alphanumeric turns to hiragana and the
/// input method opens, any other mode turns to alphanumeric and it closes.
/// The result is the state, the actions, the new mode and whether the input
/// method is open.
pub open spec fn spec_ime_toggle(s: SessionModel, preedit: Seq<char>, mode: InputMode) -> (
    SessionModel,
    Seq<ActionModel>,
    InputMode,
    bool,
) {
    let r = spec_settle(s, preedit);
    let was_alpha = mode == InputMode::Alphanumeric;
    (r.0, r.1, if was_alpha { InputMode::Hiragana } else { InputMode::Alphanumeric }, was_alpha)
}

pub fn ime_toggle_step(state: SessionState, preedit: &str, mode: InputMode) -> (r: (
    SessionState,
    Vec<TsfAction>,
    InputMode,
    bool,
))
    requires
        session_wf(state@),
    ensures
        (r.0@, actions_model(r.1@), r.2, r.3) == spec_ime_toggle(state@, preedit@, mode),
        session_wf(r.0@),
{
    let (next, acts) = settle(state, preedit);
    let was_alpha = match mode {
        InputMode::Alphanumeric => true,
        _ => false,
    };
    let new_mode = if was_alpha {
        InputMode::Hiragana
    } else {
        InputMode::Alphanumeric
    };
    (next, acts, new_mode, was_alpha)
}

/// The IME off key: what is composed is committed (see `spec_settle`); the
/// mode becomes alphanumeric.
pub fn ime_off_step(state: SessionState, preedit: &str) -> (r: (SessionState, Vec<TsfAction>, InputMode))
    requires
        session_wf(state@),
    ensures
        (r.0@, actions_model(r.1@)) == spec_settle(state@, preedit@),
        r.2 == InputMode::Alphanumeric,
        session_wf(r.0@),
{
    let (next, acts) = settle(state, preedit);
    (next, acts, InputMode::Alphanumeric)
}

/// The shown text committed as `t` (nothing when nothing is shown): the
/// engine commits it and the composition ends with it.
pub open spec fn spec_commit_shown(preedit: Seq<char>, t: Seq<char>) -> Seq<ActionModel> {
    if preedit.len() == 0 {
        seq![]
    } else {
        seq![ActionModel::BgReclaim, ActionModel::EngineCommit(t), ActionModel::EndComposition(t)]
    }
}

fn commit_shown(preedit: &str, t: String) -> (r: Vec<TsfAction>)
    ensures
        actions_model(r@) == spec_commit_shown(preedit@, t@),
{
    let mut acts: Vec<TsfAction> = Vec::new();
    if preedit.unicode_len() > 0 {
        acts.push(TsfAction::BgReclaim);
        acts.push(TsfAction::EngineCommit(copy_str(&t)));
        acts.push(TsfAction::EndComposition(t));
    }
    assert(actions_model(acts@) =~= spec_commit_shown(preedit@, t@));
    acts
}

/// The hiragana mode key: what is shown is committed as it is; the mode
/// becomes hiragana. The session is left as it is.
pub fn mode_hiragana_step(preedit: &str) -> (r: (Vec<TsfAction>, InputMode))
    ensures
        actions_model(r.0@) == spec_commit_shown(preedit@, preedit@),
        r.1 == InputMode::Hiragana,
{
    (commit_shown(preedit, owned(preedit)), InputMode::Hiragana)
}

/// The katakana mode key: what is shown is committed in katakana; the mode
/// becomes katakana. The session is left as it is.
pub fn mode_katakana_step(preedit: &str) -> (r: (Vec<TsfAction>, InputMode))
    ensures
        actions_model(r.0@) == spec_commit_shown(preedit@, spec_to_katakana(preedit@)),
        r.1 == InputMode::Katakana,
{
    (commit_shown(preedit, to_katakana(preedit)), InputMode::Katakana)
}

/// The katakana cycle key: nothing shown, the key is not taken; else what is
/// shown is committed in katakana.
pub fn cycle_kana_step(preedit: &str) -> (r: (Vec<TsfAction>, bool))
    ensures
        actions_model(r.0@) == spec_commit_shown(preedit@, spec_to_katakana(preedit@)),
        r.1 == (preedit@.len() > 0),
{
    (commit_shown(preedit, to_katakana(preedit)), preedit.unicode_len() > 0)
}

/// The fullwidth space key: what is shown is committed as it is (the engine
/// commits it and the composition ends with it), then an ideographic space
/// is committed.
pub open spec fn spec_full_width_space(preedit: Seq<char>) -> Seq<ActionModel> {
    (if preedit.len() == 0 {
        seq![]
    } else {
        seq![ActionModel::EngineCommit(preedit), ActionModel::EndComposition(preedit)]
    }) + seq![ActionModel::CommitText(seq!['\u{3000}'])]
}

pub fn full_width_space_step(preedit: &str) -> (r: Vec<TsfAction>)
    ensures
        actions_model(r@) == spec_full_width_space(preedit@),
{
    let mut acts: Vec<TsfAction> = Vec::new();
    if preedit.unicode_len() > 0 {
        acts.push(TsfAction::EngineCommit(owned(preedit)));
        acts.push(TsfAction::EndComposition(owned(preedit)));
    }
    let mut space = String::new();
    push_char(&mut space, '\u{3000}');
    acts.push(TsfAction::CommitText(space));
    assert(actions_model(acts@) =~= spec_full_width_space(preedit@));
    acts
}

/// On a range selection, Shift+Left then Shift+Right gives the same selection
/// back whenever Shift+Left could shrink it; and Shift+Right then Shift+Left
/// does whenever Shift+Right could grow it.
pub proof fn lemma_shrink_extend_round_trip(
    reading: Seq<char>,
    select_end: nat,
    preview: Seq<char>,
    hiragana: Seq<char>,
    preedit: Seq<char>,
)
    ensures
        ({
            let s = SessionModel::RangeSelect { reading, select_end, preview };
            2 <= select_end <= reading.len() ==> spec_segment_extend(
                spec_segment_shrink(s, hiragana, preedit).0,
                hiragana,
                preedit,
            ).0 == s
        }),
        ({
            let s = SessionModel::RangeSelect { reading, select_end, preview };
            1 <= select_end < reading.len() ==> spec_segment_shrink(
                spec_segment_extend(s, hiragana, preedit).0,
                hiragana,
                preedit,
            ).0 == s
        }),
{
}

/// Shift+Left (`true`) and Shift+Right (`false`) keys applied in order.
pub open spec fn apply_range_keys(
    s: SessionModel,
    hiragana: Seq<char>,
    preedit: Seq<char>,
    keys: Seq<bool>,
) -> SessionModel
    decreases keys.len(),
{
    if keys.len() == 0 {
        s
    } else {
        let p = apply_range_keys(s, hiragana, preedit, keys.drop_last());
        if keys.last() {
            spec_segment_shrink(p, hiragana, preedit).0
        } else {
            spec_segment_extend(p, hiragana, preedit).0
        }
    }
}

/// A range selection stays a range selection of the same reading and
/// preview under Shift+Left and Shift+Right.
proof fn lemma_range_keys_keep(
    reading: Seq<char>,
    preview: Seq<char>,
    hiragana: Seq<char>,
    preedit: Seq<char>,
    keys: Seq<bool>,
    select_end: nat,
)
    ensures
        ({
            let r = apply_range_keys(
                SessionModel::RangeSelect { reading, select_end, preview },
                hiragana,
                preedit,
                keys,
            );
            r is RangeSelect && r->RangeSelect_reading == reading && r->RangeSelect_preview
                == preview
        }),
    decreases keys.len(),
{
    if keys.len() > 0 {
        lemma_range_keys_keep(reading, preview, hiragana, preedit, keys.drop_last(), select_end);
    }
}

/// Escape or Backspace on a range selection started from a live preview (by
/// Shift+Left or Shift+Right, then any number of them) gives that live
/// preview back: the range selection keeps the preview it came from.
pub proof fn lemma_range_escape_restores_live(
    reading: Seq<char>,
    preview: Seq<char>,
    hiragana: Seq<char>,
    preedit: Seq<char>,
    keys: Seq<bool>,
    preedit_empty: bool,
)
    requires
        reading.len() > 0,
    ensures
        ({
            let live = SessionModel::LiveConv { reading, preview };
            let s = apply_range_keys(spec_segment_shrink(live, hiragana, preedit).0, hiragana, preedit, keys);
            &&& spec_cancel(s, preedit_empty).0 == live
            &&& spec_backspace_begin(s).0 == live
        }),
        ({
            let live = SessionModel::LiveConv { reading, preview };
            let s = apply_range_keys(spec_segment_extend(live, hiragana, preedit).0, hiragana, preedit, keys);
            &&& spec_cancel(s, preedit_empty).0 == live
            &&& spec_backspace_begin(s).0 == live
        }),
{
    lemma_range_keys_keep(reading, preview, hiragana, preedit, keys, (reading.len() - 1) as nat);
    lemma_range_keys_keep(reading, preview, hiragana, preedit, keys, 1);
}

} // verus!
