use rakukan::text_util::{
    contains_kuten, romaji_to_fullwidth_latin, romaji_to_halfwidth_latin, split_by_punctuation,
    split_symbol_affixes, to_full_latin, to_half_katakana, to_half_latin, to_hiragana,
    to_katakana, numeric_separator_after_digit, has_kana, kana_convert_source, latin_convert_text, is_numeric_digit, immediate_dict_candidates,
};
#[test]
fn katakana_from_hiragana() {
    assert_eq!(
        to_katakana("\u{3042}\u{3044}\u{3046}"),
        "\u{30A2}\u{30A4}\u{30A6}"
    );
}

#[test]
fn katakana_symbols_fullwidth() {
    // 入力は `,.[\\]` の 5 文字。`\x5C` は単一の backslash。
    // 過去 `"\\x5C"` と書かれていたが、それは 4 文字 `\`, `x`, `5`, `C`
    // を表す Rust 文字列リテラルで意図と異なっていた。
    assert_eq!(
        to_katakana(",.[\x5C]"),
        "\u{3001}\u{3002}\u{300C}\u{FFE5}\u{300D}"
    );
    assert_eq!(
        to_katakana("abc123"),
        "\u{FF41}\u{FF42}\u{FF43}\u{FF11}\u{FF12}\u{FF13}"
    );
}

#[test]
fn katakana_from_half_kata() {
    assert_eq!(
        to_katakana("\u{FF76}\u{FF72}\u{FF77}\u{FF9E}"),
        "\u{30AB}\u{30A4}\u{30AE}"
    );
}

#[test]
fn hiragana_from_katakana() {
    assert_eq!(
        to_hiragana("\u{30A2}\u{30A4}\u{30A6}"),
        "\u{3042}\u{3044}\u{3046}"
    );
}

#[test]
fn hiragana_symbols_fullwidth() {
    // katakana_symbols_fullwidth と同じ理由で `\x5C` は単一 backslash。
    assert_eq!(
        to_hiragana(",.[\x5C]"),
        "\u{3001}\u{3002}\u{300C}\u{FFE5}\u{300D}"
    );
}

#[test]
fn hiragana_from_half_kata() {
    assert_eq!(
        to_hiragana("\u{FF76}\u{FF72}\u{FF77}\u{FF9E}"),
        "\u{304B}\u{3044}\u{304E}"
    );
}

#[test]
fn half_kata_from_hiragana() {
    assert_eq!(
        to_half_katakana("\u{3042}\u{3044}\u{3046}"),
        "\u{FF71}\u{FF72}\u{FF73}"
    );
}

#[test]
fn half_kata_dakuten() {
    assert_eq!(
        to_half_katakana("\u{304C}\u{304E}\u{3050}\u{3052}\u{3054}"),
        "\u{FF76}\u{FF9E}\u{FF77}\u{FF9E}\u{FF78}\u{FF9E}\u{FF79}\u{FF9E}\u{FF7A}\u{FF9E}"
    );
}

#[test]
fn half_kata_handakuten() {
    assert_eq!(
        to_half_katakana("\u{3071}\u{3074}\u{3077}\u{307A}\u{307D}"),
        "\u{FF8A}\u{FF9F}\u{FF8B}\u{FF9F}\u{FF8C}\u{FF9F}\u{FF8D}\u{FF9F}\u{FF8E}\u{FF9F}"
    );
}

#[test]
fn half_kata_small() {
    assert_eq!(
        to_half_katakana("\u{3041}\u{3063}\u{3083}\u{3085}\u{3087}"),
        "\u{FF67}\u{FF6F}\u{FF6C}\u{FF6D}\u{FF6E}"
    );
}

#[test]
fn half_kata_from_kata() {
    assert_eq!(
        to_half_katakana("\u{30AB}\u{30A4}\u{30AE}"),
        "\u{FF76}\u{FF72}\u{FF77}\u{FF9E}"
    );
}

#[test]
fn half_kata_choon() {
    assert_eq!(
        to_half_katakana("\u{30E9}\u{30FC}\u{30E1}\u{30F3}"),
        "\u{FF97}\u{FF70}\u{FF92}\u{FF9D}"
    );
}

#[test]
fn half_kata_symbols() {
    assert_eq!(
        to_half_katakana("\u{3001}\u{3002}\u{300C}\u{300D}"),
        "\u{FF64}\u{FF61}\u{FF62}\u{FF63}"
    );
    assert_eq!(
        to_half_katakana("\u{FF41}\u{FF42}\u{FF43}\u{FF11}\u{FF12}\u{FF13}"),
        "abc123"
    );
    assert_eq!(to_half_katakana("\u{FFE5}"), "\x5C");
    assert_eq!(to_half_katakana("\u{FF0D}"), "-");
}

#[test]
fn full_latin_cycle() {
    let s = "tesuto";
    let s1 = to_full_latin(s);
    assert_eq!(s1, "\u{FF34}\u{FF25}\u{FF33}\u{FF35}\u{FF34}\u{FF2F}");
    let s2 = to_full_latin(&s1);
    assert_eq!(s2, "\u{FF34}\u{FF45}\u{FF53}\u{FF55}\u{FF54}\u{FF4F}");
    let s3 = to_full_latin(&s2);
    assert_eq!(s3, "\u{FF54}\u{FF45}\u{FF53}\u{FF55}\u{FF54}\u{FF4F}");
    let s4 = to_full_latin(&s3);
    assert_eq!(s4, "\u{FF34}\u{FF25}\u{FF33}\u{FF35}\u{FF34}\u{FF2F}");
}

#[test]
fn half_latin_cycle() {
    let s = "tesuto";
    let s1 = to_half_latin(s);
    assert_eq!(s1, "TESUTO");
    let s2 = to_half_latin(&s1);
    assert_eq!(s2, "Tesuto");
    let s3 = to_half_latin(&s2);
    assert_eq!(s3, "tesuto");
    let s4 = to_half_latin(&s3);
    assert_eq!(s4, "TESUTO");
}

#[test]
fn romaji_to_full() {
    assert_eq!(
        romaji_to_fullwidth_latin("tesuto"),
        "\u{FF54}\u{FF45}\u{FF53}\u{FF55}\u{FF54}\u{FF4F}"
    );
    assert_eq!(
        romaji_to_fullwidth_latin("schedule"),
        "\u{FF53}\u{FF43}\u{FF48}\u{FF45}\u{FF44}\u{FF55}\u{FF4C}\u{FF45}"
    );
}

#[test]
fn romaji_to_half() {
    assert_eq!(romaji_to_halfwidth_latin("tesuto"), "tesuto");
    assert_eq!(romaji_to_halfwidth_latin("SCHEDULE"), "schedule");
}

#[test]
fn latin_convert_japanese_symbols() {
    assert_eq!(to_full_latin("、。・ー"), "，．／－");
    assert_eq!(to_half_latin("、。・ー"), ",./-");
}

#[test]
fn romaji_log_latin_convert_japanese_symbols() {
    assert_eq!(romaji_to_fullwidth_latin("、。・-"), "，．／－");
    assert_eq!(romaji_to_halfwidth_latin("、。・-"), ",./-");
}

// ─── split_by_punctuation ─────────────────────────────────────────────────

#[test]
fn split_no_punctuation() {
    assert_eq!(
        split_by_punctuation("きのう"),
        vec![("きのう".to_string(), None)]
    );
}

#[test]
fn split_empty_string() {
    let result: Vec<(String, Option<char>)> = split_by_punctuation("");
    assert!(result.is_empty());
}

#[test]
fn split_single_punct_middle() {
    assert_eq!(
        split_by_punctuation("きのう、あめがふった"),
        vec![
            ("きのう".to_string(), Some('、')),
            ("あめがふった".to_string(), None),
        ]
    );
}

#[test]
fn split_trailing_punct() {
    assert_eq!(
        split_by_punctuation("きのう、あめがふった。"),
        vec![
            ("きのう".to_string(), Some('、')),
            ("あめがふった".to_string(), Some('。')),
        ]
    );
}

#[test]
fn split_multiple_puncts() {
    assert_eq!(
        split_by_punctuation("あ、い。う"),
        vec![
            ("あ".to_string(), Some('、')),
            ("い".to_string(), Some('。')),
            ("う".to_string(), None),
        ]
    );
}

#[test]
fn split_leading_punct() {
    // 文頭の区読点 → 空 reading のブロックが先頭に来る
    assert_eq!(
        split_by_punctuation("、あめがふった"),
        vec![
            ("".to_string(), Some('、')),
            ("あめがふった".to_string(), None),
        ]
    );
}

#[test]
fn split_symbol_affixes_for_leading_symbol() {
    assert_eq!(
        split_symbol_affixes("「かっことじ"),
        Some(("「".to_string(), "かっことじ".to_string(), "".to_string()))
    );
}

#[test]
fn split_symbol_affixes_for_surrounding_symbols() {
    assert_eq!(
        split_symbol_affixes("「かっことじ」"),
        Some(("「".to_string(), "かっことじ".to_string(), "」".to_string()))
    );
}

#[test]
fn split_symbol_affixes_keeps_internal_punctuation_for_block_conversion() {
    assert_eq!(split_symbol_affixes("「きょう、あした」"), None);
}

#[test]
fn split_punct_only() {
    assert_eq!(
        split_by_punctuation("。"),
        vec![("".to_string(), Some('。'))]
    );
}

#[test]
fn split_consecutive_puncts() {
    assert_eq!(
        split_by_punctuation("あ、、い"),
        vec![
            ("あ".to_string(), Some('、')),
            ("".to_string(), Some('、')),
            ("い".to_string(), None),
        ]
    );
}

#[test]
fn split_exclamation_question() {
    assert_eq!(
        split_by_punctuation("ほんとう！そうだ？"),
        vec![
            ("ほんとう".to_string(), Some('！')),
            ("そうだ".to_string(), Some('？')),
        ]
    );
}

#[test]
fn contains_kuten_true() {
    assert!(contains_kuten("きのう、あめ"));
    assert!(contains_kuten("おわり。"));
    assert!(contains_kuten("！"));
    assert!(contains_kuten("？"));
    // 全角記号
    assert!(contains_kuten("きょう（はれ）"));
    assert!(contains_kuten("タイトル～サブタイトル"));
    assert!(contains_kuten("メール；おわり"));
    // 和文記号（かなルール由来）
    assert!(contains_kuten("「にほんご」"));
    assert!(contains_kuten("なかぐろ・てすと"));
    // ASCII 印字可能記号
    assert!(contains_kuten("user@example"));
    assert!(contains_kuten("a(b)c"));
}

#[test]
fn contains_kuten_false() {
    assert!(!contains_kuten("きのう"));
    assert!(!contains_kuten(""));
    assert!(!contains_kuten("hello world"));
    // 全角数字・英字は区切りではない
    assert!(!contains_kuten("２０２４"));
    assert!(!contains_kuten("Ａｂｃ"));
}

#[test]
fn split_with_fullwidth_symbol() {
    // 全角括弧が区切りとして機能するかテスト
    assert_eq!(
        split_by_punctuation("きょう（てんき）よい"),
        vec![
            ("きょう".to_string(), Some('（')),
            ("てんき".to_string(), Some('）')),
            ("よい".to_string(), None),
        ]
    );
}

#[test]
fn split_with_kana_rule_symbol() {
    // かなルール由来の記号が区切りとして機能するかテスト
    assert_eq!(
        split_by_punctuation("いろは「にほんご」まとめ"),
        vec![
            ("いろは".to_string(), Some('「')),
            ("にほんご".to_string(), Some('」')),
            ("まとめ".to_string(), None),
        ]
    );
}

#[test]
fn split_with_middle_dot() {
    assert_eq!(
        split_by_punctuation("とうきょう・おおさか"),
        vec![
            ("とうきょう".to_string(), Some('・')),
            ("おおさか".to_string(), None),
        ]
    );
}

#[test]
fn numeric_digits_ascii_and_fullwidth() {
    assert!(is_numeric_digit('7'));
    assert!(is_numeric_digit('\u{FF17}'));
    assert!(!is_numeric_digit('a'));
    assert!(!is_numeric_digit('\u{4E03}'));
}

#[test]
fn separator_after_digit_keeps_number() {
    assert_eq!(numeric_separator_after_digit("12", '\u{3001}'), Some(','));
    assert_eq!(numeric_separator_after_digit("12", ','), Some(','));
    assert_eq!(numeric_separator_after_digit("\u{FF11}\u{FF12}", '\u{3002}'), Some('.'));
    assert_eq!(numeric_separator_after_digit("3", '.'), Some('.'));
    assert_eq!(numeric_separator_after_digit("3", '!'), None);
    assert_eq!(numeric_separator_after_digit("\u{3042}", '\u{3001}'), None);
    assert_eq!(numeric_separator_after_digit("", '.'), None);
}

#[test]
fn immediate_candidates_need_a_conversion() {
    let reading = "\u{306B}\u{307B}\u{3093}";
    let same = vec![reading.to_string()];
    assert_eq!(immediate_dict_candidates(same, reading), None);
    assert_eq!(immediate_dict_candidates(vec![], reading), None);
    let some = vec![reading.to_string(), "\u{65E5}\u{672C}".to_string()];
    assert_eq!(immediate_dict_candidates(some.clone(), reading), Some(some));
}

#[test]
fn half_katakana_then_katakana_restores_kana() {
    let reading = "\u{304C}\u{3063}\u{3053}\u{3046}\u{3071}\u{30F4}\u{30A1}";
    assert_eq!(
        to_katakana(&to_half_katakana(reading)),
        "\u{30AC}\u{30C3}\u{30B3}\u{30A6}\u{30D1}\u{30F4}\u{30A1}"
    );
}

#[test]
fn half_katakana_then_hiragana_restores_kana() {
    let reading = "\u{30AC}\u{3063}\u{3053}\u{3046}\u{3071}";
    assert_eq!(
        to_hiragana(&to_half_katakana(reading)),
        "\u{304C}\u{3063}\u{3053}\u{3046}\u{3071}"
    );
}

#[test]
fn kana_in_reading() {
    assert!(has_kana("abc\u{3042}"));
    assert!(has_kana("\u{30FC}"));
    assert!(has_kana("\u{FF71}"));
    assert!(!has_kana("abc\u{FF41}"));
}

#[test]
fn kana_conversion_source_after_latin() {
    assert_eq!(kana_convert_source("\u{304B}\u{306A}", "x"), "\u{304B}\u{306A}");
    assert_eq!(kana_convert_source("kana", "\u{304B}\u{306A}"), "\u{304B}\u{306A}");
    assert_eq!(kana_convert_source("kana", ""), "kana");
}

#[test]
fn latin_conversion_from_romaji_log() {
    let preedit = "\u{304B}\u{306A}k";
    assert_eq!(latin_convert_text(preedit, "\u{304B}\u{306A}", "kana", false), "kanak");
    assert_eq!(
        latin_convert_text(preedit, "\u{304B}\u{306A}", "kana", true),
        "\u{FF4B}\u{FF41}\u{FF4E}\u{FF41}\u{FF4B}"
    );
    assert_eq!(latin_convert_text("\u{304B}", "\u{3042}", "ka", false), "ka");
    assert_eq!(latin_convert_text("kana", "", "", false), to_half_latin("kana"));
    assert_eq!(latin_convert_text("kana", "", "", true), to_full_latin("kana"));
}

#[test]
fn one_block_per_delimiter_and_one_for_an_open_tail() {
    assert_eq!(split_by_punctuation("あ、い。").len(), 2);
    assert_eq!(split_by_punctuation("あ、い。う").len(), 3);
    assert_eq!(split_by_punctuation("、、").len(), 2);
    assert_eq!(split_by_punctuation("あい").len(), 1);
}
