//! The conversion result as segments of candidates, as the engine and the
//! input method exchange it.
use vstd::prelude::*;

verus! {

/// Where a candidate comes from.
#[derive(Debug, Clone, Copy, PartialEq, Eq, Structural)]
pub enum CandidateSource {
    Llm,
    Dict,
    History,
    Digit,
    Literal,
}

/// One candidate: its surface, its source, and a note shown beside it.
#[derive(Debug, Clone)]
pub struct Candidate {
    pub surface: String,
    pub source: CandidateSource,
    pub annotation: Option<String>,
}

/// One segment of the reading with its candidates and the one chosen.
#[derive(Debug, Clone)]
pub struct Segment {
    pub reading: String,
    pub candidates: Vec<Candidate>,
    pub selected: usize,
    pub fixed: bool,
}

/// The segments of a conversion, how many of them come from history, and the
/// one in focus.
#[derive(Debug, Clone)]
pub struct Segments {
    pub segments: Vec<Segment>,
    pub history_size: usize,
    pub focused: usize,
}

} // verus!
