use personal_data_hub::local_data::{ThemePreset, TransparencyConfigRecord, TransparencyValue};
use personal_data_hub::settings::{
    normalize_transparency_file, pdh_theme_presets_delete, pdh_theme_presets_save,
    pdh_transparency_delete_config, pdh_transparency_get_config, pdh_transparency_save_config,
    SettingsError, ThemePresetsFile, TransparencyFile,
};

fn value(c: u8, s: u8, a: u8) -> TransparencyValue {
    TransparencyValue { cards: c, sidebar: s, app_bar: a }
}

fn record(name: &str, v: TransparencyValue) -> TransparencyConfigRecord {
    TransparencyConfigRecord {
        name: name.to_string(),
        description: format!("about {name}"),
        transparency: v,
        created_at: "c0".to_string(),
        updated_at: "u0".to_string(),
    }
}

fn names(file: &TransparencyFile) -> Vec<&str> {
    file.configs.iter().map(|r| r.name.as_str()).collect()
}

fn preset(id: &str, name: &str) -> ThemePreset {
    ThemePreset {
        id: id.to_string(),
        name: name.to_string(),
        created_at: "c0".to_string(),
        payload: serde_json::Value::Null,
    }
}

fn ids(file: &ThemePresetsFile) -> Vec<&str> {
    file.presets.iter().map(|p| p.id.as_str()).collect()
}

#[test]
fn default_settings_files() {
    let t = TransparencyFile::default();
    assert_eq!(t.version, 1);
    assert_eq!(t.current, None);
    assert!(t.configs.is_empty());
    let p = ThemePresetsFile::default();
    assert_eq!(p.version, 1);
    assert!(p.presets.is_empty());
}

#[test]
fn reading_caps_every_value() {
    let mut f = TransparencyFile {
        version: 3,
        current: Some(value(200, 50, 101)),
        configs: vec![record("a", value(255, 0, 100)), record("b", value(1, 2, 3))],
    };
    normalize_transparency_file(&mut f);
    assert_eq!(f.version, 3);
    assert_eq!(f.current, Some(value(100, 50, 100)));
    assert_eq!(f.configs[0].transparency, value(100, 0, 100));
    assert_eq!(f.configs[1].transparency, value(1, 2, 3));
    assert_eq!(f.configs[0].name, "a");
    assert_eq!(f.configs[0].description, "about a");
    assert_eq!(f.configs[1].created_at, "c0");
    assert_eq!(f.configs[1].updated_at, "u0");
    let mut f = TransparencyFile::default();
    normalize_transparency_file(&mut f);
    assert_eq!(f.current, None);
}

#[test]
fn saving_a_new_setting_adds_it_at_the_end() {
    let mut f = TransparencyFile { version: 1, current: None, configs: vec![record("a", value(1, 1, 1))] };
    let kept = pdh_transparency_save_config(
        &mut f,
        "  night ",
        " dark ",
        value(120, 30, 40),
        "c1".to_string(),
        "u1".to_string(),
    )
    .ok()
    .unwrap();
    assert_eq!(kept.name, "night");
    assert_eq!(kept.description, "dark");
    assert_eq!(kept.transparency, value(100, 30, 40));
    assert_eq!(kept.created_at, "c1");
    assert_eq!(kept.updated_at, "u1");
    assert_eq!(names(&f), vec!["a", "night"]);
    assert_eq!(f.configs[1].transparency, value(100, 30, 40));
}

#[test]
fn saving_an_existing_setting_keeps_its_place_and_creation_time() {
    let mut f = TransparencyFile {
        version: 1,
        current: Some(value(5, 5, 5)),
        configs: vec![record("a", value(1, 1, 1)), record("b", value(2, 2, 2)), record("a", value(3, 3, 3))],
    };
    let kept = pdh_transparency_save_config(
        &mut f,
        "a",
        "new",
        value(9, 9, 9),
        "c1".to_string(),
        "u1".to_string(),
    )
    .ok()
    .unwrap();
    assert_eq!(kept.created_at, "c0");
    assert_eq!(kept.updated_at, "u1");
    assert_eq!(kept.description, "new");
    assert_eq!(names(&f), vec!["a", "b", "a"]);
    assert_eq!(f.configs[0].transparency, value(9, 9, 9));
    assert_eq!(f.configs[0].created_at, "c0");
    assert_eq!(f.configs[2].transparency, value(3, 3, 3));
    assert_eq!(f.current, Some(value(5, 5, 5)));
}

#[test]
fn blank_setting_name_is_refused() {
    let mut f = TransparencyFile::default();
    let e = pdh_transparency_save_config(
        &mut f,
        "  ",
        "d",
        value(1, 1, 1),
        "c".to_string(),
        "u".to_string(),
    )
    .err()
    .unwrap();
    assert_eq!(e, SettingsError::EmptyConfigName);
    assert_eq!(e.message(), "config name is empty");
    assert!(f.configs.is_empty());
}

#[test]
fn getting_and_deleting_settings() {
    let mut f = TransparencyFile {
        version: 1,
        current: None,
        configs: vec![record("a", value(1, 1, 1)), record("b", value(2, 2, 2)), record("a", value(3, 3, 3))],
    };
    assert_eq!(pdh_transparency_get_config(&f, " a ").map(|r| r.transparency), Some(value(1, 1, 1)));
    assert_eq!(pdh_transparency_get_config(&f, "b").map(|r| r.description), Some("about b".to_string()));
    assert!(pdh_transparency_get_config(&f, "x").is_none());
    assert!(pdh_transparency_get_config(&f, "  ").is_none());
    pdh_transparency_delete_config(&mut f, "  ");
    assert_eq!(names(&f), vec!["a", "b", "a"]);
    pdh_transparency_delete_config(&mut f, "x");
    assert_eq!(names(&f), vec!["a", "b", "a"]);
    pdh_transparency_delete_config(&mut f, " a");
    assert_eq!(names(&f), vec!["b"]);
    assert_eq!(f.configs[0].transparency, value(2, 2, 2));
}

#[test]
fn saving_presets() {
    let mut f = ThemePresetsFile { version: 1, presets: vec![preset("p1", "one"), preset("p2", "two")] };
    let payload: serde_json::Value = serde_json::from_str(r#"{"primary":"blue"}"#).unwrap();
    let kept = pdh_theme_presets_save(&mut f, " p3 ", " three ", " 2024 ", payload.clone()).ok().unwrap();
    assert_eq!(kept.id, "p3");
    assert_eq!(kept.name, "three");
    assert_eq!(kept.created_at, "2024");
    assert_eq!(kept.payload, payload);
    assert_eq!(ids(&f), vec!["p3", "p1", "p2"]);
    let kept = pdh_theme_presets_save(&mut f, "p2", "zwei", "2025", serde_json::Value::Bool(true)).ok().unwrap();
    assert_eq!(kept.name, "zwei");
    assert_eq!(ids(&f), vec!["p3", "p1", "p2"]);
    assert_eq!(f.presets[2].name, "zwei");
    assert_eq!(f.presets[2].created_at, "2025");
    assert_eq!(f.presets[2].payload, serde_json::Value::Bool(true));
    assert_eq!(f.presets[0].payload, payload);
}

#[test]
fn presets_without_id_or_name_are_refused() {
    let mut f = ThemePresetsFile::default();
    let e = pdh_theme_presets_save(&mut f, " ", " ", "", serde_json::Value::Null).err().unwrap();
    assert_eq!(e, SettingsError::EmptyPresetId);
    assert_eq!(e.message(), "id is empty");
    let e = pdh_theme_presets_save(&mut f, "p", " ", "", serde_json::Value::Null).err().unwrap();
    assert_eq!(e, SettingsError::EmptyPresetName);
    assert_eq!(e.message(), "name is empty");
    assert!(f.presets.is_empty());
}

#[test]
fn deleting_presets() {
    let mut f = ThemePresetsFile {
        version: 1,
        presets: vec![preset("p1", "one"), preset("p2", "two"), preset("p1", "uno")],
    };
    assert!(!pdh_theme_presets_delete(&mut f, "  "));
    assert!(!pdh_theme_presets_delete(&mut f, "x"));
    assert_eq!(ids(&f), vec!["p1", "p2", "p1"]);
    assert!(pdh_theme_presets_delete(&mut f, " p1 "));
    assert_eq!(ids(&f), vec!["p2"]);
    assert_eq!(f.presets[0].name, "two");
}
