use rakukan::ime::{
    decode_mode, encode_mode, indicator_window_y, preview_is_current, BgCompositionData, Composition, InputMode,
    LiveConvSession, LiveShared, PreviewEntry,
};

fn entry(reading: &str, gen: u32, nonce: u64) -> PreviewEntry {
    PreviewEntry {
        preview: "\u{65E5}\u{672C}".to_string(),
        reading: reading.to_string(),
        gen_when_requested: gen,
        session_nonce_at_request: nonce,
    }
}

#[test]
fn input_mode_labels() {
    assert_eq!(InputMode::default(), InputMode::Hiragana);
    assert_eq!(InputMode::Hiragana.label(), "\u{3042}");
    assert_eq!(InputMode::Katakana.label(), "\u{30A2}");
    assert_eq!(InputMode::Alphanumeric.label(), "A");
    assert!(InputMode::Katakana.is_kana());
    assert!(!InputMode::Alphanumeric.is_kana());
}

#[test]
fn composition_set_and_clear() {
    let mut c = Composition::new();
    assert!(c.is_empty());
    c.set_preedit("\u{3042}");
    assert!(!c.is_empty());
    assert!(c.is_composing);
    c.set_preedit("");
    assert!(!c.is_composing);
    c.set_preedit("x");
    c.clear();
    assert!(c.is_empty());
    assert!(!c.is_composing);
    assert_eq!(c.candidate_index, None);
}

#[test]
fn mode_word_round_trip() {
    assert_eq!(encode_mode(true, InputMode::Katakana), 0x101);
    assert_eq!(encode_mode(false, InputMode::Alphanumeric), 2);
    for open in [false, true] {
        for mode in [InputMode::Hiragana, InputMode::Katakana, InputMode::Alphanumeric] {
            assert_eq!(decode_mode(encode_mode(open, mode)), (open, mode));
        }
    }
    assert_eq!(decode_mode(3), (false, InputMode::Hiragana));
}

#[test]
fn preview_queue_is_taken_once() {
    let mut s = LiveShared::new();
    assert!(s.queue_preview_consume().is_none());
    s.queue_preview_set(entry("\u{306B}", 0, 0));
    let got = s.queue_preview_consume().unwrap();
    assert_eq!(got.reading, "\u{306B}");
    assert!(s.queue_preview_consume().is_none());
    s.queue_preview_set(entry("\u{306B}", 0, 0));
    s.queue_preview_clear();
    assert!(s.queue_preview_consume().is_none());
}

#[test]
fn commit_suppression_is_one_shot() {
    let mut s = LiveShared::new();
    assert!(!s.suppress_commit_take());
    s.suppress_commit_arm();
    assert!(s.suppress_commit_take());
    assert!(!s.suppress_commit_take());
    s.suppress_commit_arm();
    s.suppress_commit_clear();
    assert!(!s.suppress_commit_take());
}

#[test]
fn stale_previews_are_refused() {
    let mut s = LiveShared::new();
    let e = entry("\u{306B}", s.conv_gen_snapshot(), s.session_nonce_snapshot());
    assert!(preview_is_current(&e, s.conv_gen_snapshot(), s.session_nonce_snapshot(), "\u{306B}"));
    assert!(!preview_is_current(&e, s.conv_gen_snapshot(), s.session_nonce_snapshot(), "\u{306A}"));
    s.conv_gen_bump();
    assert!(!preview_is_current(&e, s.conv_gen_snapshot(), s.session_nonce_snapshot(), "\u{306B}"));
    let e = entry("\u{306B}", s.conv_gen_snapshot(), s.session_nonce_snapshot());
    s.session_nonce_advance();
    assert!(!preview_is_current(&e, s.conv_gen_snapshot(), s.session_nonce_snapshot(), "\u{306B}"));
}

#[test]
fn generation_wraps() {
    let mut s = LiveShared::new();
    s.conv_gen = u32::MAX;
    s.conv_gen_bump();
    assert_eq!(s.conv_gen_snapshot(), 0);
    s.session_nonce = u64::MAX;
    s.session_nonce_advance();
    assert_eq!(s.session_nonce_snapshot(), 0);
}

#[test]
fn deferred_composition_is_taken_once() {
    let mut s = LiveShared::new();
    s.queue_bg_composition_set(BgCompositionData {
        prefix: "a".into(),
        selected: "b".into(),
        remainder: "c".into(),
    });
    let d = s.queue_bg_composition_consume().unwrap();
    assert_eq!((d.prefix.as_str(), d.selected.as_str(), d.remainder.as_str()), ("a", "b", "c"));
    assert!(s.queue_bg_composition_consume().is_none());
}

#[test]
fn live_session_document_manager() {
    let mut l = LiveConvSession::new();
    l.set_context_snapshot(7, 0x1000);
    assert!(!l.invalidate_dm_ptr(0x2000));
    assert_eq!(l.composition_dm_ptr, 0x1000);
    assert!(l.invalidate_dm_ptr(0x1000));
    assert_eq!(l.composition_dm_ptr, 0);
    assert_eq!(l.tid, 7);
    assert!(!l.swap_fired_once(true));
    assert!(l.swap_fired_once(true));
    l.reset_fired_once();
    assert!(!l.fired_once);
    l.store_last_input_ms(42);
    assert_eq!(l.last_input_ms, 42);
    l.clear_context_snapshot();
    assert_eq!((l.tid, l.composition_dm_ptr), (0, 0));
}

#[test]
fn indicator_goes_above_caret_near_the_bottom() {
    assert_eq!(indicator_window_y(500, Some(1040)), 500);
    assert_eq!(indicator_window_y(1020, Some(1040)), 1020 - 24 - 32 - 4);
    assert_eq!(indicator_window_y(1008, Some(1040)), 1008);
    assert_eq!(indicator_window_y(1020, None), 1020);
}
