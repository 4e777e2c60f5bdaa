use rakukan::digits::{
    alpha_candidate_structs, alpha_candidates, combine_runs, default_digit_candidates_order,
    digit_candidate_structs, digit_candidates, half_full_literal_candidates, split_by_digits,
    symbol_candidate_structs, symbol_candidates, to_daiji_positional, to_kanji_positional,
    verify_digits_preserved, DigitCandidateKind, Run,
};
use rakukan::digits::{assemble_protected_candidates, kana_requests, plan_digit_protection, DigitProtection};
#[test]
fn split_no_digits() {
    let runs = split_by_digits("ねんがつにち");
    assert_eq!(runs, vec![Run::Kana("ねんがつにち".into())]);
}

#[test]
fn split_only_digits() {
    let runs = split_by_digits("２０２４");
    assert_eq!(runs, vec![Run::Digit("２０２４".into())]);
}

#[test]
fn split_mixed() {
    let runs = split_by_digits("２０２４ねん４がつ１０にち");
    assert_eq!(
        runs,
        vec![
            Run::Digit("２０２４".into()),
            Run::Kana("ねん".into()),
            Run::Digit("４".into()),
            Run::Kana("がつ".into()),
            Run::Digit("１０".into()),
            Run::Kana("にち".into()),
        ]
    );
}

#[test]
fn split_ascii_digits() {
    let runs = split_by_digits("2024ねん");
    assert_eq!(
        runs,
        vec![Run::Digit("2024".into()), Run::Kana("ねん".into()),]
    );
}

#[test]
fn split_trailing_digits() {
    let runs = split_by_digits("でんわ０９０１２３４５６７８");
    assert_eq!(
        runs,
        vec![
            Run::Kana("でんわ".into()),
            Run::Digit("０９０１２３４５６７８".into()),
        ]
    );
}

#[test]
fn split_alpha_only() {
    let runs = split_by_digits("ＰＣ");
    assert_eq!(runs, vec![Run::Alpha("ＰＣ".into())]);
}

#[test]
fn split_alpha_ascii() {
    let runs = split_by_digits("USB");
    assert_eq!(runs, vec![Run::Alpha("USB".into())]);
}

#[test]
fn split_alpha_with_kana() {
    let runs = split_by_digits("ＰＣをかう");
    assert_eq!(
        runs,
        vec![Run::Alpha("ＰＣ".into()), Run::Kana("をかう".into()),]
    );
}

#[test]
fn split_digit_alpha_kana() {
    let runs = split_by_digits("3Dぷりんたー");
    assert_eq!(
        runs,
        vec![
            Run::Digit("3".into()),
            Run::Alpha("D".into()),
            Run::Kana("ぷりんたー".into()),
        ]
    );
}

#[test]
fn split_alpha_symbol_alpha() {
    let runs = split_by_digits("USB-C");
    assert_eq!(
        runs,
        vec![
            Run::Alpha("USB".into()),
            Run::Symbol("-".into()),
            Run::Alpha("C".into()),
        ]
    );
}

#[test]
fn split_fullwidth_symbol() {
    let runs = split_by_digits("（test）");
    assert_eq!(
        runs,
        vec![
            Run::Symbol("（".into()),
            Run::Alpha("test".into()),
            Run::Symbol("）".into()),
        ]
    );
}

#[test]
fn verify_preserved_ok() {
    assert!(verify_digits_preserved("２０２４ねん", "２０２４年"));
    assert!(verify_digits_preserved("２０２４ねん", "2024年"));
    assert!(verify_digits_preserved("２０２４ねん", "二〇二四年"));
    assert!(verify_digits_preserved("２０２４ねん", "二千二十四年"));
    assert!(verify_digits_preserved("２０２４ねん", "弐千弐拾四年"));
    assert!(verify_digits_preserved("２４００えん", "弐千四百円"));
    assert!(verify_digits_preserved("２．５", "弐点五"));
}

#[test]
fn verify_preserved_ng() {
    assert!(!verify_digits_preserved("２０２４ねん", "2025年"));
    assert!(!verify_digits_preserved("１００えん", "1000円"));
}

#[test]
fn verify_no_digits() {
    assert!(verify_digits_preserved("ねんがつ", "年月"));
}

#[test]
fn combine_single_run() {
    let runs = vec![vec!["年".into(), "ねん".into()]];
    let result = combine_runs(&runs, 5);
    assert_eq!(result, vec!["年", "ねん"]);
}

#[test]
fn combine_digit_and_kana() {
    let runs = vec![
        vec!["2024".into(), "２０２４".into(), "二〇二四".into()],
        vec!["年".into(), "ねん".into()],
    ];
    let result = combine_runs(&runs, 5);
    assert_eq!(
        result,
        vec![
            "2024年",
            "2024ねん",
            "２０２４年",
            "２０２４ねん",
            "二〇二四年"
        ]
    );
}

#[test]
fn combine_multi_kana_runs() {
    let runs = vec![
        vec!["2024".into(), "２０２４".into()],
        vec!["年".into()],
        vec!["4".into(), "４".into()],
        vec!["月".into(), "がつ".into()],
    ];
    let result = combine_runs(&runs, 5);
    assert_eq!(result.len(), 5);
    assert_eq!(result[0], "2024年4月");
}

#[test]
fn digit_candidates_halfwidth_input() {
    let cands = digit_candidates("2024", &default_digit_candidates_order());
    assert_eq!(
        cands,
        vec!["2024", "２０２４", "二千二十四", "二〇二四", "弐千弐拾四"]
    );
}

#[test]
fn digit_candidates_fullwidth_input() {
    let cands = digit_candidates("２０２４", &default_digit_candidates_order());
    assert_eq!(
        cands,
        vec!["2024", "２０２４", "二千二十四", "二〇二四", "弐千弐拾四"]
    );
}

#[test]
fn positional_kanji_basic_numbers() {
    assert_eq!(to_kanji_positional("0").as_deref(), Some("零"));
    assert_eq!(to_kanji_positional("10").as_deref(), Some("十"));
    assert_eq!(to_kanji_positional("100").as_deref(), Some("百"));
    assert_eq!(to_kanji_positional("1000").as_deref(), Some("千"));
    assert_eq!(to_kanji_positional("10000").as_deref(), Some("一万"));
    assert_eq!(to_kanji_positional("100000").as_deref(), Some("十万"));
    assert_eq!(to_kanji_positional("1000000").as_deref(), Some("百万"));
    assert_eq!(to_kanji_positional("101").as_deref(), Some("百一"));
    assert_eq!(to_kanji_positional("1234").as_deref(), Some("千二百三十四"));
}

#[test]
fn positional_kanji_with_separators() {
    assert_eq!(to_kanji_positional("2,400").as_deref(), Some("二千四百"));
    assert_eq!(to_kanji_positional("2.5").as_deref(), Some("二点五"));
    assert_eq!(
        to_kanji_positional("２，４００．５").as_deref(),
        Some("二千四百点五")
    );
}

#[test]
fn daiji_kanji_basic_numbers() {
    assert_eq!(to_daiji_positional("0").as_deref(), Some("零"));
    assert_eq!(to_daiji_positional("10").as_deref(), Some("壱拾"));
    assert_eq!(to_daiji_positional("100").as_deref(), Some("壱百"));
    assert_eq!(to_daiji_positional("1000").as_deref(), Some("壱千"));
    assert_eq!(to_daiji_positional("10000").as_deref(), Some("壱万"));
    assert_eq!(
        to_daiji_positional("1234").as_deref(),
        Some("壱千弐百参拾四")
    );
}

#[test]
fn digit_candidates_order_can_be_customized() {
    let order = [
        DigitCandidateKind::Daiji,
        DigitCandidateKind::Arabic,
        DigitCandidateKind::PerDigit,
    ];
    let cands = digit_candidates("1234", &order);
    assert_eq!(cands, vec!["壱千弐百参拾四", "1234", "一二三四"]);
}

#[test]
fn numeric_literal_candidates_with_symbols() {
    let cands = digit_candidates("2,400.5", &default_digit_candidates_order());
    assert_eq!(
        cands,
        vec![
            "2,400.5",
            "２,４００.５",
            "二千四百点五",
            "二,四〇〇.五",
            "弐千四百点五"
        ]
    );
}

#[test]
fn numeric_literal_candidates_normalize_fullwidth_punctuation() {
    let cands = digit_candidates("２，４００．５", &default_digit_candidates_order());
    assert_eq!(
        cands,
        vec![
            "2,400.5",
            "２,４００.５",
            "二千四百点五",
            "二,四〇〇.五",
            "弐千四百点五"
        ]
    );
}

#[test]
fn digit_candidate_structs_has_annotations() {
    let cands = digit_candidate_structs("100", &default_digit_candidates_order());
    assert_eq!(cands.len(), 5);
    assert_eq!(cands[0].surface, "100");
    assert_eq!(cands[0].annotation.as_deref(), Some("半角"));
    assert_eq!(cands[1].surface, "１００");
    assert_eq!(cands[1].annotation.as_deref(), Some("全角"));
    assert_eq!(cands[2].surface, "百");
    assert_eq!(cands[2].annotation.as_deref(), Some("漢数字"));
    assert_eq!(cands[3].surface, "一〇〇");
    assert_eq!(cands[3].annotation.as_deref(), Some("桁並び漢数字"));
    assert_eq!(cands[4].surface, "壱百");
    assert_eq!(cands[4].annotation.as_deref(), Some("大字"));
}

#[test]
fn alpha_candidates_halfwidth_first() {
    let cands = alpha_candidates("PC", false);
    assert_eq!(cands, vec!["PC", "ＰＣ"]);
}

#[test]
fn alpha_candidates_fullwidth_first() {
    let cands = alpha_candidates("PC", true);
    assert_eq!(cands, vec!["ＰＣ", "PC"]);
}

#[test]
fn alpha_candidate_structs_has_annotations() {
    let cands = alpha_candidate_structs("USB");
    assert_eq!(cands.len(), 2);
    assert_eq!(cands[0].surface, "USB");
    assert_eq!(cands[0].annotation.as_deref(), Some("半角"));
    assert_eq!(cands[1].surface, "ＵＳＢ");
    assert_eq!(cands[1].annotation.as_deref(), Some("全角"));
}

#[test]
fn alpha_lowercase_halfwidth_first() {
    let cands = alpha_candidates("abc", false);
    assert_eq!(cands, vec!["abc", "ａｂｃ"]);
}

#[test]
fn alpha_lowercase_fullwidth_first() {
    let cands = alpha_candidates("abc", true);
    assert_eq!(cands, vec!["ａｂｃ", "abc"]);
}

#[test]
fn symbol_candidates_halfwidth_first() {
    let cands = symbol_candidates("+-*/", false);
    assert_eq!(cands, vec!["+-*/", "＋－＊／"]);
}

#[test]
fn symbol_candidates_fullwidth_first() {
    let cands = symbol_candidates("+-*/", true);
    assert_eq!(cands, vec!["＋－＊／", "+-*/"]);
}

#[test]
fn symbol_candidate_structs_has_annotations() {
    let cands = symbol_candidate_structs("@");
    assert_eq!(cands.len(), 2);
    assert_eq!(cands[0].surface, "@");
    assert_eq!(cands[0].annotation.as_deref(), Some("半角"));
    assert_eq!(cands[1].surface, "＠");
    assert_eq!(cands[1].annotation.as_deref(), Some("全角"));
}

#[test]
fn combine_alpha_symbol_runs() {
    let runs = vec![
        alpha_candidates("USB", false),
        symbol_candidates("-", false),
        alpha_candidates("C", false),
    ];
    let result = combine_runs(&runs, 6);
    assert_eq!(
        result,
        vec![
            "USB-C",
            "USB-Ｃ",
            "USB－C",
            "USB－Ｃ",
            "ＵＳＢ-C",
            "ＵＳＢ-Ｃ"
        ]
    );
}

#[test]
fn combine_mixed_literal_runs_without_kanji_digits() {
    let runs = split_by_digits("3D-C");
    let run_candidates: Vec<Vec<String>> = runs
        .iter()
        .map(|r| half_full_literal_candidates(r, false, false))
        .collect();
    let result = combine_runs(&run_candidates, 6);
    assert_eq!(
        result,
        vec!["3D-C", "3D-Ｃ", "3D－C", "3D－Ｃ", "3Ｄ-C", "3Ｄ-Ｃ"]
    );
    assert!(!result.iter().any(|s| s.contains('三')));
}

#[test]
fn combine_respects_limit() {
    let runs = vec![
        vec!["A".into(), "B".into(), "C".into()],
        vec!["1".into(), "2".into(), "3".into()],
    ];
    let result = combine_runs(&runs, 3);
    assert_eq!(result.len(), 3);
}

#[test]
fn plan_letters_only_in_both_widths() {
    match plan_digit_protection("PC", 5, &[], false, false) {
        DigitProtection::Literal(c) => assert_eq!(c, vec!["PC", "\u{FF30}\u{FF23}"]),
        _ => panic!("letters are a literal"),
    }
    match plan_digit_protection("PC", 5, &[], true, false) {
        DigitProtection::Literal(c) => assert_eq!(c, vec!["\u{FF30}\u{FF23}", "PC"]),
        _ => panic!("letters are a literal"),
    }
}

#[test]
fn plan_digits_only_in_both_widths() {
    match plan_digit_protection("2024", 5, &[], false, false) {
        DigitProtection::Literal(c) => {
            assert_eq!(c[0], "2024");
            assert_eq!(c[1], "\u{FF12}\u{FF10}\u{FF12}\u{FF14}");
        }
        _ => panic!("digits are a literal"),
    }
}

#[test]
fn plan_kana_is_converted_whole() {
    assert!(matches!(
        plan_digit_protection("\u{306D}\u{3093}", 5, &[], false, false),
        DigitProtection::Whole
    ));
}

#[test]
fn plan_mixed_reading_keeps_the_digits() {
    let reading = "2024\u{306D}\u{3093}";
    let runs = match plan_digit_protection(reading, 5, &[], false, false) {
        DigitProtection::Runs(r) => r,
        _ => panic!("a mixed reading goes run by run"),
    };
    assert_eq!(runs.len(), 2);
    let requests = kana_requests(&runs, "");
    assert!(requests[0].is_none());
    assert_eq!(requests[1].as_ref().unwrap().0, "\u{306D}\u{3093}");
    let converted = vec![vec![], vec!["\u{5E74}".to_string()]];
    let out = assemble_protected_candidates(reading, &runs, &converted, 5, &[], false, false);
    assert_eq!(out[0], "2024\u{5E74}");
    for c in &out {
        assert!(verify_digits_preserved(reading, c));
    }
}

#[test]
fn combined_candidates_are_the_row_major_product_cut_at_the_limit() {
    let runs = vec![
        vec!["a".to_string(), "b".to_string()],
        vec![],
        vec!["1".to_string(), "2".to_string(), "3".to_string()],
        vec!["x".to_string()],
    ];
    assert_eq!(combine_runs(&runs, 4), vec!["a1x", "a2x", "a3x", "b1x"]);
    assert_eq!(combine_runs(&runs, 10), vec!["a1x", "a2x", "a3x", "b1x", "b2x", "b3x"]);
    assert!(combine_runs(&runs, 0).is_empty());
    let none: Vec<Vec<String>> = vec![vec![], vec![]];
    assert_eq!(combine_runs(&none, 3), vec![""]);
}
