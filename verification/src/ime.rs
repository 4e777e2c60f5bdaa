//! The input method's own state: the input mode, the composition, what the
//! client is asked to do, the live-conversion preview, and the mode word that
//! the tray icon reads.
use vstd::prelude::*;

use crate::text::{chars_of, owned, push_str};

verus! {

/// The input mode.
#[derive(Debug, Clone, Copy, PartialEq, Eq, Structural)]
pub enum InputMode {
    /// Hiragana (kana mode).
    Hiragana,
    /// Fullwidth katakana.
    Katakana,
    /// Alphanumeric (keys pass through).
    Alphanumeric,
}

pub open spec fn spec_mode_label(m: InputMode) -> Seq<char> {
    match m {
        InputMode::Hiragana => "\u{3042}"@,
        InputMode::Katakana => "\u{30A2}"@,
        InputMode::Alphanumeric => "A"@,
    }
}

impl Default for InputMode {
    fn default() -> (m: Self)
        ensures
            m == InputMode::Hiragana,
    {
        InputMode::Hiragana
    }
}

impl InputMode {
    /// Whether the mode types kana.
    pub fn is_kana(&self) -> (b: bool)
        ensures
            b == (*self == InputMode::Hiragana || *self == InputMode::Katakana),
    {
        match self {
            InputMode::Hiragana | InputMode::Katakana => true,
            InputMode::Alphanumeric => false,
        }
    }

    /// The mode's mark: `あ`, `ア` or `A`.
    pub fn label(&self) -> (s: &'static str)
        ensures
            s@ == spec_mode_label(*self),
    {
        match self {
            InputMode::Hiragana => "\u{3042}",
            InputMode::Katakana => "\u{30A2}",
            InputMode::Alphanumeric => "A",
        }
    }
}

/// The composition shown to the user.
#[derive(Debug)]
pub struct Composition {
    /// The text shown.
    pub preedit: String,
    /// The candidates.
    pub candidates: Vec<String>,
    /// The candidate chosen, if any.
    pub candidate_index: Option<usize>,
    /// Whether a composition has been started.
    pub is_composing: bool,
}

impl Composition {
    pub open spec fn is_cleared(&self) -> bool {
        &&& self.preedit@.len() == 0
        &&& self.candidates@.len() == 0
        &&& self.candidate_index is None
        &&& !self.is_composing
    }

    /// An empty composition.
    pub fn new() -> (c: Composition)
        ensures
            c.is_cleared(),
    {
        Composition {
            preedit: String::new(),
            candidates: Vec::new(),
            candidate_index: None,
            is_composing: false,
        }
    }

    /// Whether nothing is shown.
    pub fn is_empty(&self) -> (b: bool)
        ensures
            b == (self.preedit@.len() == 0),
    {
        self.preedit.as_str().is_empty()
    }

    /// Back to an empty composition.
    pub fn clear(&mut self)
        ensures
            final(self).is_cleared(),
    {
        *self = Composition::new();
    }

    /// Shows `text`; a composition runs exactly while something is shown.
    pub fn set_preedit(&mut self, text: &str)
        ensures
            final(self).preedit@ == text@,
            final(self).is_composing == (text@.len() > 0),
            final(self).candidates@ == old(self).candidates@,
            final(self).candidate_index == old(self).candidate_index,
    {
        self.preedit = owned(text);
        self.is_composing = !text.is_empty();
    }
}

impl Default for Composition {
    fn default() -> (c: Self)
        ensures
            c.is_cleared(),
    {
        Composition::new()
    }
}

/// A character-kind conversion of the composition.
#[derive(Debug, Clone, Copy, PartialEq, Eq, Structural)]
pub enum SetTextType {
    /// F6.
    Hiragana,
    /// F7.
    Katakana,
    /// F8.
    HalfKatakana,
    /// F9.
    FullLatin,
    /// F10.
    HalfLatin,
}

/// A move of the candidate selection.
#[derive(Debug, Clone, Copy, PartialEq, Eq, Structural)]
pub enum SetSelectionType {
    Up,
    Down,
    Number(i32),
}

/// What the client application is asked to do.
#[derive(Debug, PartialEq)]
pub enum ClientAction {
    StartComposition,
    EndComposition,
    AppendText(String),
    RemoveText,
    /// Commits the chosen candidate and continues with the rest of the reading.
    ShrinkText(String),
    SetTextWithType(SetTextType),
    SetSelection(SetSelectionType),
    SetIMEMode(InputMode),
}

// ─── the tray icon's mode word ──────────────────────────────────────────────

/// The mode word: the mode in bits 0 and 1 (hiragana 0, katakana 1,
/// alphanumeric 2), whether the input method is open in bit 8.
pub open spec fn spec_encode_mode(open: bool, mode: InputMode) -> u32 {
    ((match mode {
        InputMode::Hiragana => 0int,
        InputMode::Katakana => 1int,
        InputMode::Alphanumeric => 2int,
    }) + (if open {
        256int
    } else {
        0int
    })) as u32
}

/// Reads the mode word: bit 8 for open, bits 0 and 1 for the mode (any value
/// but 1 and 2 reads as hiragana).
pub open spec fn spec_decode_mode(v: u32) -> (bool, InputMode) {
    let open = (v / 256) % 2 == 1;
    let m = v % 4;
    (open, if m == 1 {
        InputMode::Katakana
    } else if m == 2 {
        InputMode::Alphanumeric
    } else {
        InputMode::Hiragana
    })
}

pub fn encode_mode(open: bool, mode: InputMode) -> (v: u32)
    ensures
        v == spec_encode_mode(open, mode),
{
    let m: u32 = match mode {
        InputMode::Hiragana => 0,
        InputMode::Katakana => 1,
        InputMode::Alphanumeric => 2,
    };
    let o: u32 = if open {
        1
    } else {
        0
    };
    assert((m | (o << 8)) == m + 256 * o) by (bit_vector)
        requires
            m <= 2,
            o <= 1,
    ;
    m | (o << 8)
}

pub fn decode_mode(v: u32) -> (r: (bool, InputMode))
    ensures
        r == spec_decode_mode(v),
{
    let open = ((v >> 8) & 1) != 0;
    assert(((v >> 8) & 1) == (v / 256) % 2) by (bit_vector);
    let bits = v & 3;
    assert((v & 3) == v % 4) by (bit_vector);
    let m = if bits == 1 {
        InputMode::Katakana
    } else if bits == 2 {
        InputMode::Alphanumeric
    } else {
        InputMode::Hiragana
    };
    (open, m)
}

/// The tray reads back exactly the state that was published.
pub proof fn lemma_mode_word_round_trip(open: bool, mode: InputMode)
    ensures
        spec_decode_mode(spec_encode_mode(open, mode)) == (open, mode),
{
}

// ─── live conversion ────────────────────────────────────────────────────────

/// A reading of at least this many characters is guarded against a preview
/// that collapsed.
pub const LIVE_CONTINUATION_GUARD_MIN_READING_LEN: usize = 12;

/// What is shown when a live preview is continued by new input: the preview
/// with the new suffix (then the pending romaji); but when the reading is
/// long (at least 12 characters) and that display would be shorter than
/// three fifths of it, the new reading itself (then the pending romaji).
pub open spec fn spec_live_continuation_display(
    preview: Seq<char>,
    new_reading: Seq<char>,
    suffix: Seq<char>,
    pending: Seq<char>,
) -> (Seq<char>, Seq<char>) {
    let base = preview + suffix;
    if suffix.len() > 0 && new_reading.len() >= 12 && base.len() * 5 < new_reading.len() * 3 {
        (new_reading, new_reading + pending)
    } else {
        (base, base + pending)
    }
}

/// The shown text and the text with pending romaji for a continued preview
/// (see `spec_live_continuation_display`; `reading` is the reading the
/// preview was made for).
pub fn live_continuation_display(
    reading: &str,
    preview: &str,
    new_reading: &str,
    suffix: &str,
    pending: &str,
) -> (r: (String, String))
    requires
        preview@.len() + suffix@.len() <= usize::MAX / 5,
        new_reading@.len() <= usize::MAX / 3,
    ensures
        (r.0@, r.1@) == spec_live_continuation_display(preview@, new_reading@, suffix@, pending@),
{
    let mut base = owned(preview);
    push_str(&mut base, suffix);
    let mut shown = owned(base.as_str());
    push_str(&mut shown, pending);
    let new_len = chars_of(new_reading).len();
    let base_len = chars_of(base.as_str()).len();
    if !suffix.is_empty() && new_len >= LIVE_CONTINUATION_GUARD_MIN_READING_LEN && base_len * 5
        < new_len * 3 {
        let mut fallback = owned(new_reading);
        push_str(&mut fallback, pending);
        (owned(new_reading), fallback)
    } else {
        (base, shown)
    }
}

/// A preview waiting to be applied, with the reading, conversion generation
/// and composition identity it was asked for.
#[derive(Debug, Clone)]
pub struct PreviewEntry {
    pub preview: String,
    pub reading: String,
    pub gen_when_requested: u32,
    pub session_nonce_at_request: u64,
}

/// A composition update deferred until the next key.
#[derive(Debug, Clone)]
pub struct BgCompositionData {
    pub prefix: String,
    pub selected: String,
    pub remainder: String,
}

/// The state shared between the timer and the key handler: the preview slot
/// and its ready flag, the one-shot commit suppression, the conversion
/// generation, the composition identity, and the deferred-update slot with
/// its ready flag.
pub struct LiveShared {
    pub preview_queue: Option<PreviewEntry>,
    pub preview_ready: bool,
    pub suppress_commit_once: bool,
    pub conv_gen: u32,
    pub session_nonce: u64,
    pub bg_composition_queue: Option<BgCompositionData>,
    pub bg_composition_ready: bool,
}

impl LiveShared {
    /// Nothing queued, nothing suppressed, counters at zero.
    pub fn new() -> (s: LiveShared)
        ensures
            s.preview_queue is None,
            !s.preview_ready,
            !s.suppress_commit_once,
            s.conv_gen == 0,
            s.session_nonce == 0,
            s.bg_composition_queue is None,
            !s.bg_composition_ready,
    {
        LiveShared {
            preview_queue: None,
            preview_ready: false,
            suppress_commit_once: false,
            conv_gen: 0,
            session_nonce: 0,
            bg_composition_queue: None,
            bg_composition_ready: false,
        }
    }

    /// Queues a preview (replacing any) and raises the ready flag.
    pub fn queue_preview_set(&mut self, entry: PreviewEntry)
        ensures
            *final(self) == (LiveShared {
                preview_queue: Some(entry),
                preview_ready: true,
                ..*old(self)
            }),
    {
        self.preview_queue = Some(entry);
        self.preview_ready = true;
    }

    /// Takes the queued preview if the ready flag is up (lowering it and
    /// emptying the slot); nothing changes otherwise.
    pub fn queue_preview_consume(&mut self) -> (r: Option<PreviewEntry>)
        ensures
            old(self).preview_ready ==> r == old(self).preview_queue && *final(self) == (
            LiveShared { preview_queue: None, preview_ready: false, ..*old(self) }),
            !old(self).preview_ready ==> r is None && *final(self) == *old(self),
    {
        if !self.preview_ready {
            return None;
        }
        self.preview_ready = false;
        let r = self.preview_queue.take();
        r
    }

    /// Drops any queued preview and lowers the ready flag.
    pub fn queue_preview_clear(&mut self)
        ensures
            *final(self) == (LiveShared {
                preview_queue: None,
                preview_ready: false,
                ..*old(self)
            }),
    {
        self.preview_ready = false;
        self.preview_queue = None;
    }

    /// Suppresses the live preview's commit once.
    pub fn suppress_commit_arm(&mut self)
        ensures
            *final(self) == (LiveShared { suppress_commit_once: true, ..*old(self) }),
    {
        self.suppress_commit_once = true;
    }

    pub fn suppress_commit_clear(&mut self)
        ensures
            *final(self) == (LiveShared { suppress_commit_once: false, ..*old(self) }),
    {
        self.suppress_commit_once = false;
    }

    /// Whether the suppression was armed; it is disarmed either way.
    pub fn suppress_commit_take(&mut self) -> (b: bool)
        ensures
            b == old(self).suppress_commit_once,
            *final(self) == (LiveShared { suppress_commit_once: false, ..*old(self) }),
    {
        let b = self.suppress_commit_once;
        self.suppress_commit_once = false;
        b
    }

    /// Moves the conversion generation on (wrapping).
    pub fn conv_gen_bump(&mut self)
        ensures
            *final(self) == (LiveShared {
                conv_gen: if old(self).conv_gen == u32::MAX {
                    0
                } else {
                    (old(self).conv_gen + 1) as u32
                },
                ..*old(self)
            }),
    {
        self.conv_gen = self.conv_gen.wrapping_add(1);
    }

    pub fn conv_gen_snapshot(&self) -> (g: u32)
        ensures
            g == self.conv_gen,
    {
        self.conv_gen
    }

    /// Moves the composition identity on (wrapping).
    pub fn session_nonce_advance(&mut self)
        ensures
            *final(self) == (LiveShared {
                session_nonce: if old(self).session_nonce == u64::MAX {
                    0
                } else {
                    (old(self).session_nonce + 1) as u64
                },
                ..*old(self)
            }),
    {
        self.session_nonce = self.session_nonce.wrapping_add(1);
    }

    pub fn session_nonce_snapshot(&self) -> (n: u64)
        ensures
            n == self.session_nonce,
    {
        self.session_nonce
    }

    /// Queues a deferred composition update (replacing any) and raises its
    /// ready flag.
    pub fn queue_bg_composition_set(&mut self, data: BgCompositionData)
        ensures
            *final(self) == (LiveShared {
                bg_composition_queue: Some(data),
                bg_composition_ready: true,
                ..*old(self)
            }),
    {
        self.bg_composition_queue = Some(data);
        self.bg_composition_ready = true;
    }

    /// Takes the deferred update if its ready flag is up (lowering it and
    /// emptying the slot); nothing changes otherwise.
    pub fn queue_bg_composition_consume(&mut self) -> (r: Option<BgCompositionData>)
        ensures
            old(self).bg_composition_ready ==> r == old(self).bg_composition_queue && *final(self)
                == (LiveShared {
                bg_composition_queue: None,
                bg_composition_ready: false,
                ..*old(self)
            }),
            !old(self).bg_composition_ready ==> r is None && *final(self) == *old(self),
    {
        if !self.bg_composition_ready {
            return None;
        }
        self.bg_composition_ready = false;
        let r = self.bg_composition_queue.take();
        r
    }

    /// Drops any deferred update and lowers its ready flag.
    pub fn queue_bg_composition_clear(&mut self)
        ensures
            *final(self) == (LiveShared {
                bg_composition_queue: None,
                bg_composition_ready: false,
                ..*old(self)
            }),
    {
        self.bg_composition_ready = false;
        self.bg_composition_queue = None;
    }
}

/// Whether a queued preview still belongs to the current composition: asked
/// in this generation, for this reading, within this composition.
pub open spec fn spec_preview_is_current(
    entry: PreviewEntry,
    conv_gen: u32,
    session_nonce: u64,
    reading: Seq<char>,
) -> bool {
    entry.gen_when_requested == conv_gen && entry.session_nonce_at_request == session_nonce
        && entry.reading@ == reading
}

pub fn preview_is_current(entry: &PreviewEntry, conv_gen: u32, session_nonce: u64, reading: &str) -> (b:
    bool)
    ensures
        b == spec_preview_is_current(*entry, conv_gen, session_nonce, reading@),
{
    entry.gen_when_requested == conv_gen && entry.session_nonce_at_request == session_nonce
        && crate::text::str_eq(entry.reading.as_str(), reading)
}

/// A preview asked for before the reading changed again is never taken for
/// current: a set followed by a generation bump makes the entry stale.
pub proof fn lemma_bump_makes_preview_stale(
    entry: PreviewEntry,
    conv_gen: u32,
    session_nonce: u64,
    reading: Seq<char>,
)
    requires
        entry.gen_when_requested == conv_gen,
    ensures
        !spec_preview_is_current(
            entry,
            if conv_gen == u32::MAX {
                0
            } else {
                (conv_gen + 1) as u32
            },
            session_nonce,
            reading,
        ),
{
}

/// The timer's view of the live session on the input thread: the client id,
/// the document manager it was read from, whether the running state was
/// logged, and when input last came.
pub struct LiveConvSession {
    pub tid: u32,
    pub composition_dm_ptr: usize,
    pub fired_once: bool,
    pub last_input_ms: u64,
}

impl LiveConvSession {
    pub fn new() -> (s: LiveConvSession)
        ensures
            s.tid == 0,
            s.composition_dm_ptr == 0,
            !s.fired_once,
            s.last_input_ms == 0,
    {
        LiveConvSession { tid: 0, composition_dm_ptr: 0, fired_once: false, last_input_ms: 0 }
    }

    /// Records the client id and document manager of a new input.
    pub fn set_context_snapshot(&mut self, tid: u32, dm_ptr: usize)
        ensures
            final(self).tid == tid,
            final(self).composition_dm_ptr == dm_ptr,
            final(self).fired_once == old(self).fired_once,
            final(self).last_input_ms == old(self).last_input_ms,
    {
        self.tid = tid;
        self.composition_dm_ptr = dm_ptr;
    }

    pub fn clear_context_snapshot(&mut self)
        ensures
            final(self).tid == 0,
            final(self).composition_dm_ptr == 0,
            final(self).fired_once == old(self).fired_once,
            final(self).last_input_ms == old(self).last_input_ms,
    {
        self.tid = 0;
        self.composition_dm_ptr = 0;
    }

    /// Forgets the document manager if it is `dm_ptr` (it was destroyed);
    /// tells whether it was.
    pub fn invalidate_dm_ptr(&mut self, dm_ptr: usize) -> (b: bool)
        ensures
            b == (old(self).composition_dm_ptr == dm_ptr),
            final(self).composition_dm_ptr == (if b {
                0
            } else {
                old(self).composition_dm_ptr
            }),
            final(self).tid == old(self).tid,
            final(self).fired_once == old(self).fired_once,
            final(self).last_input_ms == old(self).last_input_ms,
    {
        if self.composition_dm_ptr == dm_ptr {
            self.composition_dm_ptr = 0;
            true
        } else {
            false
        }
    }

    /// Sets the logged flag and tells what it was.
    pub fn swap_fired_once(&mut self, new: bool) -> (b: bool)
        ensures
            b == old(self).fired_once,
            final(self).fired_once == new,
            final(self).tid == old(self).tid,
            final(self).composition_dm_ptr == old(self).composition_dm_ptr,
            final(self).last_input_ms == old(self).last_input_ms,
    {
        let b = self.fired_once;
        self.fired_once = new;
        b
    }

    pub fn reset_fired_once(&mut self)
        ensures
            !final(self).fired_once,
            final(self).tid == old(self).tid,
            final(self).composition_dm_ptr == old(self).composition_dm_ptr,
            final(self).last_input_ms == old(self).last_input_ms,
    {
        self.fired_once = false;
    }

    pub fn store_last_input_ms(&mut self, now_ms: u64)
        ensures
            final(self).last_input_ms == now_ms,
            final(self).tid == old(self).tid,
            final(self).composition_dm_ptr == old(self).composition_dm_ptr,
            final(self).fired_once == old(self).fired_once,
    {
        self.last_input_ms = now_ms;
    }
}


// ─── the mode indicator ─────────────────────────────────────────────────────

/// The mode indicator's width and height, in pixels.
pub const INDICATOR_SIZE: i32 = 32;

/// How tall a caret is taken to be, in pixels.
pub const CARET_HEIGHT_ESTIMATE: i32 = 24;

/// Where the mode indicator's top goes: at the caret's bottom, or above the
/// caret (its estimated height and four more pixels up) when it would cross
/// the bottom of the monitor's work area (`work_bottom`, when known).
pub open spec fn spec_indicator_window_y(caret_bottom: i32, work_bottom: Option<i32>) -> int {
    match work_bottom {
        Some(w) if caret_bottom + INDICATOR_SIZE > w => caret_bottom - CARET_HEIGHT_ESTIMATE
            - INDICATOR_SIZE - 4,
        _ => caret_bottom as int,
    }
}

pub fn indicator_window_y(caret_bottom: i32, work_bottom: Option<i32>) -> (y: i32)
    requires
        i32::MIN + 60 <= caret_bottom <= i32::MAX - 32,
    ensures
        y == spec_indicator_window_y(caret_bottom, work_bottom),
{
    match work_bottom {
        Some(w) => {
            if caret_bottom + INDICATOR_SIZE > w {
                caret_bottom - CARET_HEIGHT_ESTIMATE - INDICATOR_SIZE - 4
            } else {
                caret_bottom
            }
        },
        None => caret_bottom,
    }
}

} // verus!
