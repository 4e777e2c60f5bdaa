use rakukan::kana::{
    hiragana_to_halfwidth_katakana, hiragana_to_katakana, katakana_to_hiragana, normalize_nfkc,
};
#[test]
fn test_hiragana_to_katakana() {
    assert_eq!(hiragana_to_katakana("あいうえお"), "アイウエオ");
    assert_eq!(hiragana_to_katakana("こんにちは"), "コンニチハ");
    assert_eq!(hiragana_to_katakana("きゃきゅきょ"), "キャキュキョ");
    assert_eq!(hiragana_to_katakana("がぎぐげご"), "ガギグゲゴ");
    assert_eq!(hiragana_to_katakana("ぱぴぷぺぽ"), "パピプペポ");

    // Mixed with non-hiragana should pass through
    assert_eq!(hiragana_to_katakana("abc123"), "abc123");
    assert_eq!(hiragana_to_katakana("あいうabc"), "アイウabc");
}

#[test]
fn test_katakana_to_hiragana() {
    assert_eq!(katakana_to_hiragana("アイウエオ"), "あいうえお");
    assert_eq!(katakana_to_hiragana("コンニチハ"), "こんにちは");
    assert_eq!(katakana_to_hiragana("キャキュキョ"), "きゃきゅきょ");
}

#[test]
fn test_round_trip() {
    let original = "こんにちは";
    let katakana = hiragana_to_katakana(original);
    let back = katakana_to_hiragana(&katakana);
    assert_eq!(original, back);
}

#[test]
fn test_hiragana_to_halfwidth_katakana() {
    assert_eq!(hiragana_to_halfwidth_katakana("あいうえお"), "ｱｲｳｴｵ");
    assert_eq!(hiragana_to_halfwidth_katakana("かきくけこ"), "ｶｷｸｹｺ");
    assert_eq!(hiragana_to_halfwidth_katakana("がぎぐげご"), "ｶﾞｷﾞｸﾞｹﾞｺﾞ");
    assert_eq!(hiragana_to_halfwidth_katakana("ぱぴぷぺぽ"), "ﾊﾟﾋﾟﾌﾟﾍﾟﾎﾟ");
    assert_eq!(hiragana_to_halfwidth_katakana("っ"), "ｯ");
    assert_eq!(hiragana_to_halfwidth_katakana("ゃゅょ"), "ｬｭｮ");
    // Mixed: non-hiragana passes through
    assert_eq!(hiragana_to_halfwidth_katakana("あいabc"), "ｱｲabc");
    // Long vowel mark
    assert_eq!(hiragana_to_halfwidth_katakana("カー"), "ｶｰ");
}

#[test]
fn test_normalize_nfkc() {
    // Full-width ASCII should be converted to half-width
    assert_eq!(normalize_nfkc("（）"), "()");
    assert_eq!(normalize_nfkc("！？"), "!?");
    assert_eq!(normalize_nfkc("Ａｂｃ"), "Abc");
    assert_eq!(normalize_nfkc("０１２３"), "0123");

    // Full-width punctuation
    assert_eq!(normalize_nfkc("、。"), "、。"); // These are NOT full-width ASCII
    assert_eq!(normalize_nfkc("「」"), "「」"); // Japanese brackets preserved

    // Hiragana, Katakana, Kanji should be preserved
    assert_eq!(normalize_nfkc("あいうえお"), "あいうえお");
    assert_eq!(normalize_nfkc("アイウエオ"), "アイウエオ");
    assert_eq!(normalize_nfkc("漢字"), "漢字");

    // Mixed text
    assert_eq!(normalize_nfkc("（カッコ）テスト！"), "(カッコ)テスト!");

    // Special jinen tokens (Private Use Area U+EE00-U+EE02) should be preserved
    assert_eq!(normalize_nfkc("\u{ee00}"), "\u{ee00}");
    assert_eq!(normalize_nfkc("\u{ee01}"), "\u{ee01}");
    assert_eq!(normalize_nfkc("\u{ee02}"), "\u{ee02}");
    assert_eq!(
        normalize_nfkc("\u{ee02}context\u{ee00}input\u{ee01}"),
        "\u{ee02}context\u{ee00}input\u{ee01}"
    );
}
