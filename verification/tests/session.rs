use rakukan::ime::InputMode;
use rakukan::session::{
    backspace_begin, backspace_finish, cancel_step, cycle_kana_step, full_width_space_step,
    mode_hiragana_step, mode_katakana_step, punctuate_begin, punctuate_finish, commit_raw_step, convert_step, input_begin,
    ime_off_step, ime_toggle_step, input_raw_begin, input_raw_step, input_step, kana_convert_step, latin_convert_step, segment_extend_step, segment_shrink_step,
    ConversionBlock, EngineSnapshot, KanaTarget, SessionState, TsfAction,
};

fn snap(preedit: &str, hiragana: &str) -> EngineSnapshot {
    EngineSnapshot {
        preedit: preedit.to_string(),
        hiragana: hiragana.to_string(),
        mode: InputMode::Hiragana,
        live_preview: None,
        candidates: vec![],
        model_pending: false,
        model_answer: None,
        block_candidates: vec![],
        affixes: None,
        learn_choice: false,
    }
}

fn strs(v: &[&str]) -> Vec<String> {
    v.iter().map(|s| s.to_string()).collect()
}

fn range(state: &SessionState) -> (String, usize) {
    match state {
        SessionState::RangeSelect { reading, select_end, .. } => (reading.clone(), *select_end),
        other => panic!("not a range selection: {other:?}"),
    }
}

#[test]
fn shrink_from_live_preview_and_within_range() {
    let live = SessionState::LiveConv { reading: "あいう".into(), preview: "愛鵜".into() };
    let (s, acts, eaten) = segment_shrink_step(live, "あいう", "あいう");
    assert!(eaten);
    assert_eq!(range(&s), ("あいう".to_string(), 2));
    assert!(matches!(&acts[3], TsfAction::ShowParts { focused, rest, .. } if focused == "あい" && rest == "う"));
    let (s, _, _) = segment_shrink_step(s, "あいう", "あいう");
    assert_eq!(range(&s), ("あいう".to_string(), 1));
    let (s, acts, eaten) = segment_shrink_step(s, "あいう", "あいう");
    assert!(eaten && acts.is_empty());
    assert_eq!(range(&s), ("あいう".to_string(), 1));
}

#[test]
fn shrink_starts_range_on_typed_reading() {
    let (s, _, eaten) = segment_shrink_step(SessionState::Preedit { text: "あい".into() }, "あい", "あい");
    assert!(eaten);
    assert_eq!(range(&s), ("あい".to_string(), 1));
    let (s, acts, eaten) = segment_shrink_step(SessionState::Preedit { text: "あ".into() }, "あ", "あ");
    assert!(eaten && acts.is_empty());
    assert!(matches!(s, SessionState::Preedit { .. }));
}

#[test]
fn extend_grows_range_up_to_reading() {
    let live = SessionState::LiveConv { reading: "あい".into(), preview: "".into() };
    let (s, _, _) = segment_extend_step(live, "あい", "あい");
    assert_eq!(range(&s), ("あい".to_string(), 1));
    let (s, _, _) = segment_extend_step(s, "あい", "あい");
    assert_eq!(range(&s), ("あい".to_string(), 2));
    let (s, acts, eaten) = segment_extend_step(s, "あい", "あい");
    assert!(eaten && acts.is_empty());
    assert_eq!(range(&s), ("あい".to_string(), 2));
}

#[test]
fn enter_commits_live_preview_and_learns() {
    let live = SessionState::LiveConv { reading: "にほん".into(), preview: "日本".into() };
    let (s, acts, eaten) = commit_raw_step(live, &snap("", ""), true);
    assert!(eaten);
    assert!(matches!(s, SessionState::Idle));
    assert!(acts.iter().any(|a| matches!(a, TsfAction::Learn { reading, surface } if reading == "にほん" && surface == "日本")));
    assert!(matches!(acts.last(), Some(TsfAction::EndComposition(t)) if t == "日本"));
}

#[test]
fn enter_commits_range_and_keeps_composing_rest() {
    let r = SessionState::RangeSelect { reading: "あいう".into(), select_end: 1, preview: "".into() };
    let (s, acts, eaten) = commit_raw_step(r, &snap("", ""), true);
    assert!(eaten);
    assert!(matches!(&s, SessionState::Preedit { text } if text == "いう"));
    assert!(matches!(acts.last(), Some(TsfAction::CommitThenStart { committed, composing }) if committed == "あ" && composing == "いう"));
}

#[test]
fn enter_commits_candidate_with_affixes() {
    let sel = SessionState::Selecting {
        original: "にほん".into(),
        candidates: strs(&["日本", "二本"]),
        selected: 1,
        prefix: "「".into(),
        suffix: "」".into(),
        rest_reading: "".into(),
        punct: None,
        llm_pending: false,
    };
    let (s, acts, _) = commit_raw_step(sel, &snap("", ""), false);
    assert!(matches!(s, SessionState::Idle));
    assert!(matches!(acts.last(), Some(TsfAction::EndComposition(t)) if t == "「二本」"));
}

#[test]
fn enter_on_blocks_commits_one_block_at_a_time() {
    let blocks = vec![
        ConversionBlock { reading: "あ".into(), trailing_punct: Some('、'), candidates: strs(&["亜"]), selected: 0 },
        ConversionBlock { reading: "い".into(), trailing_punct: None, candidates: strs(&["胃"]), selected: 0 },
    ];
    let b = SessionState::BlockSelecting {
        full_reading: "あ、い".into(),
        blocks,
        current: 0,
        accumulated: "".into(),
    };
    let (s, acts, _) = commit_raw_step(b, &snap("", ""), true);
    assert!(matches!(acts.last(), Some(TsfAction::CommitThenStart { committed, composing }) if committed == "亜、" && composing == "胃"));
    let (s, acts, _) = commit_raw_step(s, &snap("", ""), true);
    assert!(matches!(s, SessionState::Idle));
    assert!(acts.iter().any(|a| matches!(a, TsfAction::EngineCommit(t) if t == "亜、胃")));
    assert!(matches!(acts.last(), Some(TsfAction::EndComposition(t)) if t == "胃"));
}

#[test]
fn space_on_empty_reading_types_a_space() {
    let (_, acts, _) = convert_step(SessionState::Idle, &snap("", ""));
    assert!(matches!(&acts[0], TsfAction::CommitText(t) if t == "\u{3000}"));
    let mut sn = snap("", "");
    sn.mode = InputMode::Alphanumeric;
    let (_, acts, _) = convert_step(SessionState::Idle, &sn);
    assert!(matches!(&acts[0], TsfAction::CommitText(t) if t == " "));
}

#[test]
fn space_converts_and_cycles() {
    let mut sn = snap("にほん", "にほん");
    sn.candidates = strs(&["日本", "二本"]);
    let (s, _, _) = convert_step(SessionState::Preedit { text: "にほん".into() }, &sn);
    let (s, _, _) = convert_step(s, &sn);
    match &s {
        SessionState::Selecting { selected, .. } => assert_eq!(*selected, 1),
        other => panic!("{other:?}"),
    }
    let (s, _, _) = convert_step(s, &sn);
    match &s {
        SessionState::Selecting { selected, .. } => assert_eq!(*selected, 0),
        other => panic!("{other:?}"),
    }
}

#[test]
fn space_on_range_converts_selected_part() {
    let mut sn = snap("", "");
    sn.candidates = strs(&["亜"]);
    let r = SessionState::RangeSelect { reading: "あいう".into(), select_end: 1, preview: "".into() };
    let (s, _, _) = convert_step(r, &sn);
    match &s {
        SessionState::Selecting { original, suffix, rest_reading, .. } => {
            assert_eq!((original.as_str(), suffix.as_str(), rest_reading.as_str()), ("あ", "いう", "いう"));
        }
        other => panic!("{other:?}"),
    }
}

#[test]
fn space_splits_reading_at_punctuation() {
    let mut sn = snap("あ、い", "あ、い");
    sn.block_candidates = vec![strs(&["亜"]), strs(&["胃"])];
    let (s, _, _) = convert_step(SessionState::Preedit { text: "あ、い".into() }, &sn);
    match &s {
        SessionState::BlockSelecting { blocks, current, .. } => {
            assert_eq!(*current, 0);
            assert_eq!(blocks.len(), 2);
            assert_eq!(blocks[0].trailing_punct, Some('、'));
        }
        other => panic!("{other:?}"),
    }
}

#[test]
fn typing_on_candidates_commits_them() {
    let sel = SessionState::Selecting {
        original: "にほん".into(),
        candidates: strs(&["日本"]),
        selected: 0,
        prefix: "".into(),
        suffix: "".into(),
        rest_reading: "".into(),
        punct: Some('。'),
        llm_pending: false,
    };
    let (s, acts, committed) = input_begin(sel, 'k', true, false);
    assert_eq!(committed.as_deref(), Some("日本。"));
    assert!(matches!(acts.last(), Some(TsfAction::PushChar { c: 'k', fullwidth_alpha: false })));
    let (s, acts) = input_step(s, committed, &snap("k", ""));
    assert!(matches!(s, SessionState::Idle));
    assert!(matches!(acts.last(), Some(TsfAction::CommitThenStart { committed, composing }) if committed == "日本。" && composing == "k"));
}

#[test]
fn typing_continues_live_preview() {
    let live = SessionState::LiveConv { reading: "にほ".into(), preview: "日ほ".into() };
    let (s, _, committed) = input_begin(live, 'n', true, false);
    assert!(committed.is_none());
    let (s, acts) = input_step(s, None, &snap("にほn", "にほ"));
    assert!(matches!(&s, SessionState::LiveConv { reading, .. } if reading == "にほ"));
    assert!(matches!(acts.last(), Some(TsfAction::ShowComposition(t)) if t == "日ほn"));
}

#[test]
fn shrink_then_extend_gives_the_selection_back() {
    let start = || SessionState::RangeSelect {
        reading: "あいうえ".into(),
        select_end: 2,
        preview: "".into(),
    };
    let (s, _, _) = segment_shrink_step(start(), "あいうえ", "あいうえ");
    let (s, _, _) = segment_extend_step(s, "あいうえ", "あいうえ");
    assert_eq!(range(&s), ("あいうえ".to_string(), 2));
    let (s, _, _) = segment_extend_step(start(), "あいうえ", "あいうえ");
    let (s, _, _) = segment_shrink_step(s, "あいうえ", "あいうえ");
    assert_eq!(range(&s), ("あいうえ".to_string(), 2));
}

#[test]
fn escape_restores_the_reading() {
    let live = SessionState::LiveConv { reading: "かな".into(), preview: "仮名".into() };
    let (s, acts, eaten) = cancel_step(live, &snap("かな", "かな"));
    assert!(eaten);
    assert!(matches!(&s, SessionState::Preedit { text } if text == "かな"));
    assert!(matches!(acts.last(), Some(TsfAction::ShowComposition(t)) if t == "かな"));

    let range = SessionState::RangeSelect { reading: "かな".into(), select_end: 1, preview: "仮名".into() };
    let (s, _, _) = cancel_step(range, &snap("かな", "かな"));
    assert!(matches!(&s, SessionState::LiveConv { reading, preview } if reading == "かな" && preview == "仮名"));

    let sel = SessionState::Selecting {
        original: "な".into(),
        candidates: strs(&["名"]),
        selected: 0,
        prefix: "か".into(),
        suffix: "に".into(),
        rest_reading: "".into(),
        punct: None,
        llm_pending: false,
    };
    let (s, acts, _) = cancel_step(sel, &snap("な", "な"));
    assert!(matches!(&s, SessionState::Preedit { text } if text == "かなに"));
    assert!(matches!(&acts[2], TsfAction::ForcePreedit(t) if t == "かなに"));
}

#[test]
fn escape_on_a_plain_reading_throws_it_away() {
    let (s, acts, eaten) = cancel_step(SessionState::Preedit { text: "あ".into() }, &snap("あ", "あ"));
    assert!(eaten);
    assert!(matches!(s, SessionState::Preedit { .. }));
    assert!(matches!(acts[1], TsfAction::ResetEngine));
    let (_, acts, eaten) = cancel_step(SessionState::Idle, &snap("", ""));
    assert!(!eaten && acts.is_empty());
    let (s, _, eaten) = cancel_step(SessionState::Waiting { text: "".into() }, &snap("", ""));
    assert!(eaten && matches!(s, SessionState::Idle));
}

#[test]
fn backspace_paths() {
    let range = SessionState::RangeSelect { reading: "かな".into(), select_end: 1, preview: "仮名".into() };
    let (s, _, done) = backspace_begin(range);
    assert_eq!(done, Some(true));
    assert!(matches!(s, SessionState::LiveConv { .. }));

    let live = SessionState::LiveConv { reading: "かな".into(), preview: "仮名".into() };
    let (s, _, done) = backspace_begin(live);
    assert_eq!(done, None);
    let (s, acts, eaten) = backspace_finish(s, true, "か");
    assert!(eaten);
    assert!(matches!(&s, SessionState::Preedit { text } if text == "か"));
    assert!(matches!(&acts[1], TsfAction::ShowComposition(t) if t == "か"));
    let (_, acts, _) = backspace_finish(s, true, "");
    assert!(matches!(&acts[1], TsfAction::EndComposition(t) if t.is_empty()));
    let (_, acts, eaten) = backspace_finish(SessionState::Idle, false, "");
    assert!(!eaten && acts.is_empty());
}

#[test]
fn f10_on_a_typed_reading_shows_the_romaji() {
    let live = SessionState::LiveConv { reading: "てすと".into(), preview: "テスト".into() };
    let (s, acts, eaten) = latin_convert_step(live, "てすと", "てすと", "tesuto", false);
    assert!(eaten);
    assert!(matches!(&s, SessionState::Preedit { text } if text == "tesuto"));
    assert!(matches!(&acts[1], TsfAction::ForcePreedit(t) if t == "tesuto"));
    assert!(matches!(acts.last(), Some(TsfAction::ShowComposition(t)) if t == "tesuto"));
    let (_, acts, eaten) = latin_convert_step(SessionState::Idle, "", "", "", true);
    assert!(!eaten && acts.is_empty());
}

#[test]
fn f7_after_f10_goes_back_through_the_romaji_log() {
    let pre = SessionState::Preedit { text: "tesuto".into() };
    let (s, acts, eaten) = kana_convert_step(pre, "tesuto", "てすと", KanaTarget::Katakana);
    assert!(eaten);
    assert!(matches!(&s, SessionState::Preedit { text } if text == "tesuto"));
    assert!(matches!(acts.last(), Some(TsfAction::ShowComposition(t)) if t == "テスト"));
    let waiting = SessionState::Waiting { text: "かな".into() };
    let (s, acts, _) = kana_convert_step(waiting, "かな", "", KanaTarget::HalfKatakana);
    assert!(matches!(&s, SessionState::Preedit { text } if text == "ｶﾅ"));
    assert!(matches!(acts[4], TsfAction::StopWaitingTimer));
}

#[test]
fn toggling_commits_the_live_preview_and_flips_the_mode() {
    let live = SessionState::LiveConv { reading: "かな".into(), preview: "仮名".into() };
    let (s, acts, mode, open) = ime_toggle_step(live, "かな", InputMode::Hiragana);
    assert!(matches!(s, SessionState::Idle));
    assert_eq!(mode, InputMode::Alphanumeric);
    assert!(!open);
    assert!(matches!(&acts[1], TsfAction::EngineCommit(t) if t == "仮名"));
    assert!(matches!(&acts[3], TsfAction::EndComposition(t) if t == "仮名"));
    let (s, acts, mode, open) = ime_toggle_step(SessionState::Idle, "", InputMode::Alphanumeric);
    assert!(matches!(s, SessionState::Idle) && acts.is_empty());
    assert_eq!(mode, InputMode::Hiragana);
    assert!(open);
    let (s, acts, mode) = ime_off_step(SessionState::Preedit { text: "あ".into() }, "あ");
    assert!(matches!(s, SessionState::Idle));
    assert!(matches!(&acts[1], TsfAction::EngineCommit(t) if t == "あ"));
    assert_eq!(mode, InputMode::Alphanumeric);
}

#[test]
fn typing_on_blocks_commits_them_and_goes_on_with_the_new_reading() {
    let blocks = vec![
        ConversionBlock { reading: "あ".into(), trailing_punct: Some('、'), candidates: strs(&["亜"]), selected: 0 },
        ConversionBlock { reading: "い".into(), trailing_punct: None, candidates: strs(&["胃"]), selected: 0 },
    ];
    let state = SessionState::BlockSelecting {
        full_reading: "あ、い".into(),
        blocks,
        current: 0,
        accumulated: "".into(),
    };
    let (s, acts, committed) = input_begin(state, 'k', false, false);
    assert_eq!(committed.as_deref(), Some("亜、胃"));
    assert!(matches!(&acts[1], TsfAction::EngineCommit(t) if t == "亜、胃"));
    let (s, acts) = input_step(s, committed, &snap("k", ""));
    assert!(matches!(&s, SessionState::Preedit { text } if text.is_empty()));
    assert!(matches!(acts.last(), Some(TsfAction::CommitThenStart { committed, composing }) if committed == "亜、胃" && composing == "k"));
}

#[test]
fn raw_input_continues_a_live_preview_and_leaves_a_range_alone() {
    let live = SessionState::LiveConv { reading: "にほ".into(), preview: "日ほ".into() };
    let (s, acts, committed) = input_raw_begin(live, '/', false);
    assert!(committed.is_none());
    assert!(matches!(acts.last(), Some(TsfAction::PushRaw('/'))));
    let (s, acts) = input_raw_step(s, None, &snap("にほ/", "にほ/"));
    assert!(matches!(&s, SessionState::LiveConv { reading, .. } if reading == "にほ/"));
    assert!(matches!(acts.last(), Some(TsfAction::ShowComposition(t)) if t == "日ほ/"));

    let range = SessionState::RangeSelect { reading: "かな".into(), select_end: 1, preview: "".into() };
    let (s, acts, _) = input_raw_begin(range, '*', false);
    assert_eq!(acts.len(), 1);
    assert!(matches!(s, SessionState::RangeSelect { .. }));
}

#[test]
fn mode_keys_commit_what_is_shown() {
    let (acts, mode) = mode_katakana_step("かな");
    assert_eq!(mode, InputMode::Katakana);
    assert!(matches!(&acts[1], TsfAction::EngineCommit(t) if t == "カナ"));
    let (acts, mode) = mode_hiragana_step("");
    assert_eq!(mode, InputMode::Hiragana);
    assert!(acts.is_empty());
    let (acts, eaten) = cycle_kana_step("かな");
    assert!(eaten);
    assert!(matches!(&acts[2], TsfAction::EndComposition(t) if t == "カナ"));
    let (acts, eaten) = cycle_kana_step("");
    assert!(!eaten && acts.is_empty());
    let acts = full_width_space_step("あ");
    assert_eq!(acts.len(), 3);
    assert!(matches!(&acts[2], TsfAction::CommitText(t) if t == "\u{3000}"));
}

#[test]
fn punctuation_goes_on_with_the_composition() {
    let live = SessionState::LiveConv { reading: "にほん".into(), preview: "日本".into() };
    let (s, acts, done, sym) = punctuate_begin(live, '、', &snap("にほん", "にほん"), true);
    assert!(done);
    assert_eq!(sym, '、');
    assert!(matches!(&s, SessionState::LiveConv { reading, preview } if reading == "にほん、" && preview == "日本、"));
    assert!(matches!(acts.last(), Some(TsfAction::ShowComposition(t)) if t == "日本、"));

    let (_, _, _, sym) = punctuate_begin(SessionState::Preedit { text: "12".into() }, '、', &snap("12", "12"), true);
    assert_eq!(sym, ',');
    let (_, _, _, sym) = punctuate_begin(SessionState::Preedit { text: "12".into() }, '、', &snap("12", "12"), false);
    assert_eq!(sym, '、');

    let sel = SessionState::Selecting {
        original: "な".into(),
        candidates: strs(&["名"]),
        selected: 0,
        prefix: "「".into(),
        suffix: "」".into(),
        rest_reading: "」".into(),
        punct: None,
        llm_pending: false,
    };
    let (s, acts, done, _) = punctuate_begin(sel, '。', &snap("な", "な"), true);
    assert!(done);
    assert!(matches!(&s, SessionState::LiveConv { reading, preview } if reading == "「な。」" && preview == "「名。」"));
    assert!(matches!(&acts[3], TsfAction::ForcePreedit(t) if t == "「な。」"));

    let (s, acts, done, _) = punctuate_begin(SessionState::Idle, '。', &snap("", ""), true);
    assert!(!done);
    assert!(matches!(s, SessionState::Idle));
    assert!(matches!(acts.last(), Some(TsfAction::PushRaw('。'))));
    let (s, _) = punctuate_finish("。");
    assert!(matches!(&s, SessionState::Preedit { text } if text == "。"));
}

#[test]
fn escape_after_range_keys_gives_the_live_preview_back() {
    let live = SessionState::LiveConv { reading: "あいう".into(), preview: "愛鵜".into() };
    let (s, _, _) = segment_shrink_step(live, "あいう", "あいう");
    let (s, _, _) = segment_shrink_step(s, "あいう", "あいう");
    let (s, _, _) = segment_extend_step(s, "あいう", "あいう");
    let (s, _, _) = cancel_step(s, &snap("あいう", "あいう"));
    assert!(matches!(&s, SessionState::LiveConv { reading, preview } if reading == "あいう" && preview == "愛鵜"));
}

#[test]
fn shift_keys_on_pending_romaji_alone_are_taken() {
    let (s, acts, eaten) = segment_shrink_step(SessionState::Preedit { text: "k".into() }, "", "k");
    assert!(eaten && acts.is_empty());
    assert!(matches!(s, SessionState::Preedit { .. }));
    let (_, acts, eaten) = segment_extend_step(SessionState::Preedit { text: "k".into() }, "", "k");
    assert!(eaten && acts.is_empty());
    let (_, _, eaten) = segment_extend_step(SessionState::Idle, "", "");
    assert!(!eaten);
}
