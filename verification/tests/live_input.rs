use rakukan::ime::live_continuation_display;

#[test]
fn live_continuation_falls_back_when_long_display_gets_too_short() {
    let (display_hira, display_shown) =
        live_continuation_display("abcdefghijkl", "ABC", "abcdefghijklm", "m", "");

    assert_eq!(display_hira, "abcdefghijklm");
    assert_eq!(display_shown, "abcdefghijklm");
}

#[test]
fn live_continuation_keeps_short_compact_preview() {
    let (display_hira, display_shown) =
        live_continuation_display("かっこ", "『", "かっこと", "と", "");

    assert_eq!(display_hira, "『と");
    assert_eq!(display_shown, "『と");
}

#[test]
fn live_continuation_keeps_reasonable_preview() {
    let (display_hira, display_shown) =
        live_continuation_display("ろぐを", "ログを", "ろぐをか", "か", "");

    assert_eq!(display_hira, "ログをか");
    assert_eq!(display_shown, "ログをか");
}
