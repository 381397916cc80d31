use desk_pet::config::loader::{load_animation_path_config, load_panel_debug_config, runtime_config_path, FileConfig};
use desk_pet::config::model::{AnimationPathConfig, AnimationPathFileConfig, PanelDebugConfig, PanelDebugFileConfig};
use desk_pet::config::watcher::{is_config_change_event, ConfigEventKind};

#[test]
fn runtime_config_lives_in_settings() {
    assert_eq!(runtime_config_path(), "settings/config.toml");
}

#[test]
fn panel_defaults_without_file() {
    let c = load_panel_debug_config(None);
    assert_eq!(c, PanelDebugConfig::default());
    assert_eq!(c.basic_stat_max, 100);
    assert_eq!(c.default_level, 1);
    assert_eq!(c.default_affinity, 0);
}

#[test]
fn panel_defaults_without_panel_section() {
    let file = FileConfig { panel: None, animation: None };
    assert_eq!(load_panel_debug_config(Some(file)), PanelDebugConfig::default());
}

#[test]
fn panel_file_values_override_defaults() {
    let mut section = PanelDebugFileConfig::default();
    section.basic_stat_max = Some(200);
    section.default_mood = Some(150);
    section.default_level = Some(7);
    let c = load_panel_debug_config(Some(FileConfig { panel: Some(section), animation: None }));
    assert_eq!(c.basic_stat_max, 200);
    assert_eq!(c.default_mood, 150);
    assert_eq!(c.default_level, 7);
    assert_eq!(c.default_health, 100);
}

#[test]
fn panel_values_are_sanitized() {
    let mut section = PanelDebugFileConfig::default();
    section.basic_stat_max = Some(0);
    section.experience_max = Some(50);
    section.level_max = Some(5);
    section.default_level = Some(0);
    section.default_health = Some(30);
    section.default_experience = Some(80);
    let c = load_panel_debug_config(Some(FileConfig { panel: Some(section), animation: None }));
    assert_eq!(c.basic_stat_max, 1);
    assert_eq!(c.default_health, 1);
    assert_eq!(c.default_level, 1);
    assert_eq!(c.default_experience, 50);

    let mut high = PanelDebugFileConfig::default();
    high.level_max = Some(5);
    high.default_level = Some(9);
    let c = load_panel_debug_config(Some(FileConfig { panel: Some(high), animation: None }));
    assert_eq!(c.default_level, 5);
}

#[test]
fn sanitizing_twice_is_sanitizing_once() {
    let c = PanelDebugConfig { basic_stat_max: 0, experience_max: 0, level_max: 0, default_level: 9, default_health: 9, default_mood: 9, default_stamina: 9, default_satiety: 9, default_thirst: 9, default_affinity: 9, default_experience: 9 };
    let once = c.sanitized();
    assert_eq!(once.sanitized(), once);
}

#[test]
fn animation_defaults_without_file() {
    let c = load_animation_path_config(None);
    assert_eq!(c.assets_body_root, "assets/body");
    assert_eq!(c.default_happy_idle_variants, vec!["Default/Happy/1", "Default/Happy/2", "Default/Happy/3"]);
    assert_eq!(c.default_nomal_idle_root, "Default/Nomal");
    assert_eq!(c.pinch_root, "assets/body/Pinch");
}

#[test]
fn animation_file_paths_override_and_empty_ones_fall_back() {
    let mut section = AnimationPathFileConfig::default();
    section.assets_body_root = Some("my/body".to_string());
    section.pinch_root = Some(String::new());
    section.default_happy_idle_variants = Some(vec!["".to_string(), "H/a".to_string(), "".to_string()]);
    let c = load_animation_path_config(Some(FileConfig { panel: None, animation: Some(section) }));
    assert_eq!(c.assets_body_root, "my/body");
    assert_eq!(c.pinch_root, "assets/body/Pinch");
    assert_eq!(c.default_happy_idle_variants, vec!["H/a"]);
}

#[test]
fn animation_empty_variant_list_falls_back() {
    let mut section = AnimationPathFileConfig::default();
    section.default_happy_idle_variants = Some(vec![String::new()]);
    let c = load_animation_path_config(Some(FileConfig { panel: None, animation: Some(section) }));
    assert_eq!(c.default_happy_idle_variants, AnimationPathConfig::default().default_happy_idle_variants);
}

#[test]
fn merge_into_keeps_defaults_where_file_is_silent() {
    let mut section = AnimationPathFileConfig::default();
    section.startup_root = Some("s".to_string());
    let c = section.merge_into(AnimationPathConfig::default());
    assert_eq!(c.startup_root, "s");
    assert_eq!(c.shutdown_root, "assets/body/Shutdown");
}

#[test]
fn config_changes_call_for_reload() {
    let name = "config.toml".to_string();
    let ours = vec![Some("other.toml".to_string()), Some("config.toml".to_string())];
    let theirs = vec![Some("other.toml".to_string()), None];
    assert!(is_config_change_event(ConfigEventKind::Modify, &ours, &name));
    assert!(is_config_change_event(ConfigEventKind::Create, &ours, &name));
    assert!(is_config_change_event(ConfigEventKind::Remove, &ours, &name));
    assert!(is_config_change_event(ConfigEventKind::Any, &ours, &name));
    assert!(!is_config_change_event(ConfigEventKind::Modify, &theirs, &name));
    assert!(is_config_change_event(ConfigEventKind::Modify, &[], &name));
}

#[test]
fn other_event_kinds_never_reload() {
    let name = "config.toml".to_string();
    let ours = vec![Some("config.toml".to_string())];
    assert!(!is_config_change_event(ConfigEventKind::Access, &ours, &name));
    assert!(!is_config_change_event(ConfigEventKind::Other, &ours, &name));
    assert!(!is_config_change_event(ConfigEventKind::Access, &[], &name));
}
