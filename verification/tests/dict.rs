use rakukan::dict::{
    build_groups, check_dict, encode_dict, has_unrenderable_kana, parse_emoji_tsv_text,
    parse_symbol_tsv_text, parse_tsv_text, DictCheckError, Entry,
};

fn make_tsv(lines: &[&str]) -> String {
    lines.join("\n")
}

#[test]
fn test_parse_basic() {
    let content = make_tsv(&[
        "にほん\t日本\t名詞\t1849\t1849\t3394",
        "にほん\t二本\t名詞\t1234\t1234\t7800",
        "にほんご\t日本語\t名詞\t1849\t1849\t4000",
    ]);
    let entries = parse_tsv_text(&content, 65535);
    assert_eq!(entries.len(), 3);
}

#[test]
fn test_has_unrenderable_kana() {
    assert!(has_unrenderable_kana("\u{1B0B3}"));
    assert!(has_unrenderable_kana("\u{1B0B5}"));
    assert!(has_unrenderable_kana("\u{1B000}"));
    assert!(has_unrenderable_kana("\u{1B16F}"));
    assert!(has_unrenderable_kana("\u{1AFF0}"));
    assert!(has_unrenderable_kana("ふ\u{1B0B3}る"));

    assert!(!has_unrenderable_kana("日本"));
    assert!(!has_unrenderable_kana("にほん"));
    assert!(!has_unrenderable_kana("ニホン"));
    assert!(!has_unrenderable_kana("\u{23E9}"));
    assert!(!has_unrenderable_kana("\u{1F389}"));
    assert!(!has_unrenderable_kana("\u{1F680}"));
    assert!(!has_unrenderable_kana("\u{20000}"));
    assert!(!has_unrenderable_kana("\u{1AFEF}"));
    assert!(!has_unrenderable_kana("\u{1B170}"));
}

#[test]
fn test_parse_emoji_tsv() {
    let content = [
        "# This is a comment",
        "# The data format is tab separated fields",
        "23E9 FE0F\t\u{23E9}\u{FE0F}\tはやおくり ばいそく ぼたん\t\t早送り\tボタン 倍速\tE0.6",
        "31 FE0F 20E3\t1\u{FE0F}\u{20E3}\t1 いち\t\t絵文字\t1 一\tE0.6",
        "30\t0\t0\t\t絵文字\t\tE0.6",
    ]
    .join("\n");
    let entries = parse_emoji_tsv_text(&content, 6000);

    assert_eq!(entries.len(), 4);
    for e in &entries {
        assert!(!has_unrenderable_kana(&e.surface));
    }
    assert!(entries.iter().all(|e| e.cost == 6000));

    let hayaokuri: Vec<&Entry> = entries
        .iter()
        .filter(|e| e.reading == "はやおくり")
        .collect();
    assert_eq!(hayaokuri.len(), 1);
    assert_eq!(hayaokuri[0].surface, "\u{23E9}\u{FE0F}");

    let itchi: Vec<&Entry> = entries.iter().filter(|e| e.reading == "いち").collect();
    assert_eq!(itchi.len(), 1);
}

#[test]
fn test_parse_filters_unrenderable_kana() {
    let content = make_tsv(&[
        "にほん\t1849\t1849\t3394\t日本",
        "ふ\t1234\t1234\t5000\t\u{1B0B3}",
        "にほんご\t1849\t1849\t4000\t日本語",
    ]);
    let entries = parse_tsv_text(&content, 65535);
    assert_eq!(entries.len(), 2);
    assert!(entries.iter().all(|e| !has_unrenderable_kana(&e.surface)));
    let content2 = make_tsv(&[
        "はやおくり\t1849\t1849\t3000\t\u{23E9}",
        "にほん\t1849\t1849\t3394\t日本",
    ]);
    let entries2 = parse_tsv_text(&content2, 65535);
    assert_eq!(entries2.len(), 2);
}

#[test]
fn test_group_cost_sort() {
    let entries = vec![
        Entry {
            reading: "にほん".into(),
            surface: "二本".into(),
            cost: 7800,
        },
        Entry {
            reading: "にほん".into(),
            surface: "日本".into(),
            cost: 3394,
        },
    ];
    let groups = build_groups(entries, 50);
    assert_eq!(groups[0].tokens[0].0, "日本");
    assert_eq!(groups[0].tokens[1].0, "二本");
}

#[test]
fn test_group_dedup() {
    let entries = vec![
        Entry {
            reading: "tes".into(),
            surface: "X".into(),
            cost: 100,
        },
        Entry {
            reading: "tes".into(),
            surface: "X".into(),
            cost: 200,
        },
    ];
    let groups = build_groups(entries, 50);
    assert_eq!(groups[0].tokens.len(), 1);
}

#[test]
fn test_roundtrip() {
    let entries = vec![
        Entry {
            reading: "にほん".into(),
            surface: "日本".into(),
            cost: 3394,
        },
        Entry {
            reading: "にほん".into(),
            surface: "二本".into(),
            cost: 7800,
        },
        Entry {
            reading: "にほんご".into(),
            surface: "日本語".into(),
            cost: 4000,
        },
    ];
    let groups = build_groups(entries, 50);
    let data = encode_dict(&groups);
    assert_eq!(&data[0..4], b"RKND");
    let ver = u32::from_le_bytes(data[4..8].try_into().unwrap());
    assert_eq!(ver, 1);
    let n_entries = u32::from_le_bytes(data[8..12].try_into().unwrap());
    assert_eq!(n_entries, 3);
    let n_readings = u32::from_le_bytes(data[12..16].try_into().unwrap());
    assert_eq!(n_readings, 2);
}

// ─── more cases ─────────────────────────────────────────────────────────────

#[test]
fn groups_are_sorted_by_reading_and_trimmed() {
    let entries = vec![
        Entry { reading: "b".into(), surface: "B2".into(), cost: 5 },
        Entry { reading: "a".into(), surface: "A".into(), cost: 1 },
        Entry { reading: "b".into(), surface: "B1".into(), cost: 5 },
        Entry { reading: "b".into(), surface: "B0".into(), cost: 9 },
    ];
    let groups = build_groups(entries, 2);
    assert_eq!(groups.len(), 2);
    assert_eq!(groups[0].reading, "a");
    assert_eq!(groups[1].reading, "b");
    assert_eq!(groups[1].tokens, vec![("B1".to_string(), 5), ("B2".to_string(), 5)]);
}

#[test]
fn tsv_lines_that_do_not_read_are_skipped() {
    let content = make_tsv(&[
        "# comment",
        "",
        "   ",
        "short\t1\t2",
        "よみ\t1\t1\tcost\tかき",
        "よみ\t1\t1\t+70000\tかき",
        "よみ\t1\t1\t4294967296\tかき",
        "\t1\t1\t10\tかき",
        "よみ\t1\t1\t10\t",
        "  よみ\t1\t1\t10\t書き  \r",
    ]);
    let entries = parse_tsv_text(&content, 60000);
    assert_eq!(entries.len(), 1);
    assert_eq!(entries[0].reading, "よみ");
    assert_eq!(entries[0].surface, "書き");
    assert_eq!(entries[0].cost, 10);
    let clamped = parse_tsv_text("よみ\t1\t1\t70000\tかき", 65535);
    assert_eq!(clamped.len(), 1);
    assert_eq!(clamped[0].cost, 65535);
}

#[test]
fn symbol_tsv_keeps_hiragana_readings() {
    let content = make_tsv(&[
        "POS\tCHAR\tREADING\tDESCRIPTION",
        "記号\t→\tやじるし みぎ arrow\t右矢印",
        "記号\t★\tABC\t星",
        "記号\t\tほし\t空",
    ]);
    let entries = parse_symbol_tsv_text(&content);
    assert_eq!(entries.len(), 2);
    assert_eq!(entries[0].reading, "やじるし");
    assert_eq!(entries[1].reading, "みぎ");
    assert!(entries.iter().all(|e| e.surface == "→" && e.cost == 3000));
}

#[test]
fn written_dictionary_passes_the_check() {
    let entries = vec![
        Entry { reading: "にほん".into(), surface: "日本".into(), cost: 3394 },
        Entry { reading: "にほんご".into(), surface: "日本語".into(), cost: 4000 },
    ];
    let groups = build_groups(entries, 50);
    let data = encode_dict(&groups);
    let header = check_dict(&data).unwrap();
    assert_eq!(header.n_entries, 2);
    assert_eq!(header.n_readings, 2);
    assert_eq!(header.surface_heap_off as usize, data.len() - "日本日本語".len());
    assert_eq!(header.reading_heap_off, 16 + 12 * 2);
    assert_eq!(header.entries_off, 16 + 12 * 2 + "にほんにほんご".len() as u64);
    assert_eq!(header.surface_heap_off, header.entries_off + 8 * 2);
}

#[test]
fn groups_cheapest_first_and_capped() {
    let mut entries = Vec::new();
    for (surface, cost) in [("a", 30u16), ("b", 10), ("c", 20), ("d", 5)] {
        entries.push(Entry { reading: "\u{304B}".into(), surface: surface.into(), cost });
    }
    let groups = build_groups(entries, 3);
    let costs: Vec<u16> = groups[0].tokens.iter().map(|t| t.1).collect();
    assert_eq!(costs, vec![5, 10, 20]);
}

#[test]
fn check_refuses_broken_files() {
    assert_eq!(check_dict(b"RKND"), Err(DictCheckError::TooSmall));
    let mut data = vec![0u8; 16];
    assert_eq!(check_dict(&data), Err(DictCheckError::BadMagic));
    data[0..4].copy_from_slice(b"RKND");
    data[4] = 2;
    assert_eq!(check_dict(&data), Err(DictCheckError::BadVersion(2)));
    data[4] = 1;
    data[12] = 1;
    assert_eq!(check_dict(&data), Err(DictCheckError::IndexOutOfBounds));
    data[12] = 0;
    data[8] = 1;
    assert_eq!(check_dict(&data), Err(DictCheckError::TruncatedHeaps));
}

#[test]
fn repeated_surface_kept_once_at_lowest_cost() {
    let entries = vec![
        Entry { reading: "tes".into(), surface: "X".into(), cost: 100 },
        Entry { reading: "tes".into(), surface: "Y".into(), cost: 150 },
        Entry { reading: "tes".into(), surface: "X".into(), cost: 200 },
    ];
    let groups = build_groups(entries, 50);
    assert_eq!(
        groups[0].tokens,
        vec![("X".to_string(), 100u16), ("Y".to_string(), 150u16)]
    );
}
