use rakukan::user_dict::{UserDict, UserEntry};

fn surfaces_of(map: &[(String, Vec<String>)], reading: &str) -> Vec<String> {
    map.iter()
        .find(|(r, _)| r == reading)
        .map(|(_, s)| s.clone())
        .unwrap_or_default()
}

#[test]
fn test_add_and_save_load() {
    let mut ud = UserDict::default();
    ud.add("きむら", "木村");
    ud.add("きむら", "金村");
    assert_eq!(ud.entries[0].surfaces, vec!["金村", "木村"]);

    // The file form: one `[[entries]]` table per entry, written and read back.
    let mut entries = Vec::new();
    for e in &ud.entries {
        let mut t = toml::Table::new();
        t.insert("reading".into(), toml::Value::String(e.reading.clone()));
        t.insert(
            "surfaces".into(),
            toml::Value::Array(e.surfaces.iter().cloned().map(toml::Value::String).collect()),
        );
        entries.push(toml::Value::Table(t));
    }
    let mut doc = toml::Table::new();
    doc.insert("entries".into(), toml::Value::Array(entries));
    let text = toml::to_string_pretty(&doc).unwrap();

    let parsed: toml::Table = text.parse().unwrap();
    let loaded = parsed["entries"].as_array().unwrap();
    assert_eq!(loaded.len(), 1);
    assert_eq!(loaded[0]["surfaces"][0].as_str(), Some("金村"));
}

#[test]
fn test_remove() {
    let mut ud = UserDict::default();
    ud.add("きむら", "木村");
    ud.add("きむら", "金村");
    ud.remove("きむら", "木村");
    assert_eq!(ud.entries[0].surfaces, vec!["金村"]);
}

#[test]
fn test_to_map() {
    let mut ud = UserDict::default();
    ud.add("らくかん", "楽漢");
    let map = ud.to_map();
    assert_eq!(surfaces_of(&map, "らくかん"), vec!["楽漢"]);
}

#[test]
fn add_moves_an_existing_surface_to_the_front() {
    let mut ud = UserDict::default();
    ud.add("きむら", "木村");
    ud.add("きむら", "金村");
    ud.add("きむら", "木村");
    assert_eq!(ud.entries.len(), 1);
    assert_eq!(ud.entries[0].surfaces, vec!["木村", "金村"]);
}

#[test]
fn remove_drops_an_entry_left_empty() {
    let mut ud = UserDict::default();
    ud.add("らくかん", "楽漢");
    ud.add("きむら", "木村");
    ud.remove("らくかん", "楽漢");
    assert_eq!(ud.entries.len(), 1);
    assert_eq!(ud.entries[0].reading, "きむら");
    let map = ud.to_map();
    assert!(surfaces_of(&map, "らくかん").is_empty());
    assert_eq!(surfaces_of(&map, "きむら"), vec!["木村"]);
}

#[test]
fn remove_of_an_unknown_reading_changes_nothing() {
    let mut ud = UserDict::default();
    ud.add("きむら", "木村");
    ud.remove("たなか", "田中");
    assert_eq!(ud.entries.len(), 1);
    assert_eq!(ud.entries[0].surfaces, vec!["木村"]);
}

#[test]
fn to_map_keeps_the_last_entry_of_a_repeated_reading() {
    let entry = |r: &str, s: &str| UserEntry { reading: r.to_string(), surfaces: vec![s.to_string()] };
    let ud = UserDict { entries: vec![entry("あ", "x"), entry("い", "y"), entry("あ", "z")] };
    let map = ud.to_map();
    assert_eq!(map.len(), 2);
    assert_eq!(surfaces_of(&map, "あ"), vec!["z"]);
    assert_eq!(surfaces_of(&map, "い"), vec!["y"]);
}
