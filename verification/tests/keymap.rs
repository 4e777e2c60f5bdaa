use rakukan::keymap::{
    name_to_vk, normalize_key_event, preset_bindings, resolve_keymap_config, translated_action,
    KeyAction, KeyBinding, KeyResolution, KeySpec, Keymap, KeymapConfig, KeymapPreset, UserAction,
};

#[test]
fn custom_binding_overrides_preset_binding() {
    let cfg = resolve_keymap_config(
        KeymapConfig {
            preset: Some(KeymapPreset::MsImeJis),
            inherit_preset: true,
            bindings: vec![KeyBinding {
                key: "Ctrl+Space".to_string(),
                action: KeyAction::ModeAlphanumeric,
            }],
        },
        KeymapPreset::MsImeJis,
    );
    let keymap = Keymap::build(cfg);
    let action = keymap.resolve(0x20, true, false, false);
    assert_eq!(action, Some(&KeyAction::ModeAlphanumeric));
}

#[test]
fn custom_preset_disables_inherited_defaults() {
    let cfg = resolve_keymap_config(
        KeymapConfig {
            preset: Some(KeymapPreset::Custom),
            inherit_preset: false,
            bindings: vec![KeyBinding {
                key: "F6".to_string(),
                action: KeyAction::Hiragana,
            }],
        },
        KeymapPreset::MsImeJis,
    );
    let keymap = Keymap::build(cfg);
    assert_eq!(
        keymap.resolve(0x75, false, false, false),
        Some(&KeyAction::Hiragana)
    );
    assert_eq!(keymap.resolve(0x20, false, false, false), None);
}

#[test]
fn normalize_ctrl_alt_right_aliases_ctrl_space() {
    assert_eq!(
        normalize_key_event(0x27, true, false, true, true),
        (0x20, true, false, false)
    );
    assert_eq!(
        normalize_key_event(0x27, true, false, true, false),
        (0x27, true, false, true)
    );
}

#[test]
fn key_strings_parse_case_insensitively() {
    let spec = KeySpec::parse("CTRL+space").unwrap();
    assert_eq!(spec, KeySpec { vk: 0x20, ctrl: true, shift: false, alt: false });
    let spec = KeySpec::parse("Shift+Alt+F10").unwrap();
    assert_eq!(spec, KeySpec { vk: 0x79, ctrl: false, shift: true, alt: true });
    assert_eq!(KeySpec::parse("Ctrl+"), None);
    assert_eq!(KeySpec::parse("Hyper+A"), None);
}

#[test]
fn key_names_to_virtual_keys() {
    assert_eq!(name_to_vk("enter"), Some(0x0D));
    assert_eq!(name_to_vk("f12"), Some(0x7B));
    assert_eq!(name_to_vk("henkan"), Some(0x1C));
    assert_eq!(name_to_vk("q"), Some(0x51));
    assert_eq!(name_to_vk("nosuchkey"), None);
}

#[test]
fn presets_differ_by_layout() {
    assert_eq!(preset_bindings(KeymapPreset::MsImeUs).len(), 25);
    assert_eq!(preset_bindings(KeymapPreset::MsImeJis).len(), 30);
    assert!(preset_bindings(KeymapPreset::Custom).is_empty());
}

#[test]
fn unreadable_file_falls_back_to_layout_preset() {
    let keymap = Keymap::load(None, KeymapPreset::MsImeJis);
    assert_eq!(keymap.resolve(0x75, false, false, false), Some(&KeyAction::Hiragana));
}

#[test]
fn key_press_resolution() {
    let keymap = Keymap::load(None, KeymapPreset::MsImeJis);
    assert_eq!(
        keymap.resolve_key(0x20, false, false, false, false, false),
        KeyResolution::Action(UserAction::Convert)
    );
    assert_eq!(
        keymap.resolve_key(0x33, false, false, false, false, true),
        KeyResolution::Action(UserAction::CandidateSelect(3))
    );
    assert_eq!(
        keymap.resolve_key(0x33, false, false, false, false, false),
        KeyResolution::Translate(0x33)
    );
    assert_eq!(
        keymap.resolve_key(0x6B, false, false, false, false, false),
        KeyResolution::Action(UserAction::InputRaw('+'))
    );
}

#[test]
fn translated_characters_become_input() {
    assert_eq!(translated_action(0x41, Some(0x61)), Some(UserAction::Input('a')));
    assert_eq!(translated_action(0x09, Some(0x09)), Some(UserAction::Tab));
    assert_eq!(translated_action(0x41, Some(0x7F)), None);
    assert_eq!(translated_action(0x41, None), None);
}
