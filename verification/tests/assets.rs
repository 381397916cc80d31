use desk_pet::animation::assets::common::{
    collect_usable_variants, dir_name_matches_mode, take_variant, AssetDir,
};
use desk_pet::animation::assets::default_idle::{
    collect_default_happy_idle_variants, collect_default_mode_idle_variants, default_idle_root_for_mode,
    flatten_variants_in_order, select_default_files_for_mode, AssetError, HappyIdleVariant,
};
use desk_pet::animation::assets::drag_raise::{
    collect_drag_raise_end_variants, collect_drag_raise_start_files, collect_drag_raise_static_b_variants,
};
use desk_pet::animation::assets::path_order::{path_le_exec, sort_dirs_by_path};
use desk_pet::animation::assets::pinch::{
    collect_pinch_end_files, collect_pinch_loop_variants, collect_pinch_start_files, pinch_files_with, PinchModeDir,
};
use desk_pet::animation::assets::shutdown::collect_shutdown_variants;
use desk_pet::animation::assets::startup::{choose_startup_animation_files, choose_startup_files_with};
use desk_pet::config::model::AnimationPathConfig;
use desk_pet::stats::model::PetMode;

fn files(names: &[&str]) -> Vec<String> {
    names.iter().map(|s| s.to_string()).collect()
}

fn dir(name: &str, pngs: &[&str]) -> AssetDir {
    AssetDir { name: name.to_string(), path: format!("root/{}", name), png_files: Ok(files(pngs)) }
}

fn dir_at(path: &str, pngs: &[&str]) -> AssetDir {
    let name = path.rsplit('/').next().unwrap_or(path).to_string();
    AssetDir { name, path: path.to_string(), png_files: Ok(files(pngs)) }
}

fn broken(name: &str, err: &str) -> AssetDir {
    AssetDir { name: name.to_string(), path: format!("root/{}", name), png_files: Err(err.to_string()) }
}

#[test]
fn mode_names_match_ignoring_case() {
    assert!(dir_name_matches_mode("A_Happy", PetMode::Happy));
    assert!(dir_name_matches_mode("b_HAPPY_2", PetMode::Happy));
    assert!(dir_name_matches_mode("Nomal", PetMode::Nomal));
    assert!(dir_name_matches_mode("C_PoorCondition", PetMode::PoorCondition));
    assert!(dir_name_matches_mode("ill", PetMode::Ill));
    assert!(!dir_name_matches_mode("A_Happy", PetMode::Nomal));
    assert!(!dir_name_matches_mode("", PetMode::Ill));
    assert!(!dir_name_matches_mode("hap", PetMode::Happy));
}

#[test]
fn usable_variants_skip_failed_and_empty_listings() {
    let dirs = vec![dir("a", &["1.png"]), dir("b", &[]), broken("c", "denied"), dir("d", &["2.png", "3.png"])];
    assert_eq!(collect_usable_variants(&dirs), vec![files(&["1.png"]), files(&["2.png", "3.png"])]);
}

#[test]
fn take_variant_wraps_the_choice() {
    let v = vec![files(&["a"]), files(&["b"]), files(&["c"])];
    assert_eq!(take_variant(v.clone(), 1), files(&["b"]));
    assert_eq!(take_variant(v.clone(), 4), files(&["b"]));
    assert_eq!(take_variant(Vec::new(), 3), Vec::<String>::new());
}

#[test]
fn drag_raise_start_uses_first_usable_dir_of_the_mode() {
    let dirs = vec![
        dir("A_Nomal", &["n.png"]),
        dir("A_Happy", &[]),
        dir("A_Happy_2", &["h2.png"]),
        dir("B_Happy", &["b.png"]),
    ];
    assert_eq!(collect_drag_raise_start_files(&dirs, PetMode::Happy), files(&["h2.png"]));
    assert_eq!(collect_drag_raise_start_files(&dirs, PetMode::Nomal), files(&["n.png"]));
}

#[test]
fn drag_raise_start_falls_back_to_normal_then_happy() {
    let dirs = vec![dir("a_happy", &["h.png"]), dir("a_nomal", &["n.png"])];
    assert_eq!(collect_drag_raise_start_files(&dirs, PetMode::Ill), files(&["n.png"]));
    let only_happy = vec![dir("a_happy", &["h.png"])];
    assert_eq!(collect_drag_raise_start_files(&only_happy, PetMode::PoorCondition), files(&["h.png"]));
    let none: Vec<AssetDir> = vec![dir("b_happy", &["b.png"])];
    assert!(collect_drag_raise_start_files(&none, PetMode::Ill).is_empty());
}

#[test]
fn drag_raise_held_stage_collects_every_usable_dir() {
    let dirs = vec![dir("B_Ill_1", &["1.png"]), dir("b_ill_2", &["2.png"]), dir("B_Happy", &["h.png"])];
    assert_eq!(collect_drag_raise_static_b_variants(&dirs, PetMode::Ill), vec![files(&["1.png"]), files(&["2.png"])]);
    assert_eq!(collect_drag_raise_static_b_variants(&dirs, PetMode::Nomal), vec![files(&["h.png"])]);
}

#[test]
fn drag_raise_end_skips_the_normal_fallback() {
    let dirs = vec![dir("C_Nomal", &["n.png"]), dir("C_Happy", &["h.png"])];
    assert_eq!(collect_drag_raise_end_variants(&dirs, PetMode::Ill), vec![files(&["h.png"])]);
    assert_eq!(collect_drag_raise_end_variants(&dirs, PetMode::Nomal), vec![files(&["n.png"])]);
    let no_happy = vec![dir("C_Nomal", &["n.png"])];
    assert!(collect_drag_raise_end_variants(&no_happy, PetMode::Happy).is_empty());
}

fn pinch_dirs() -> Vec<PinchModeDir> {
    vec![
        PinchModeDir { name: "Happy".to_string(), stages: vec![dir("A_1", &["ha1.png"]), dir("b_loop", &["hb.png"]), dir("C", &["hc.png"])] },
        PinchModeDir { name: "Nomal".to_string(), stages: vec![dir("a", &["na.png"]), dir("A2", &["na2.png"]), dir("B", &[])] },
    ]
}

#[test]
fn pinch_loop_uses_the_mode_dir_stage_variants() {
    let dirs = pinch_dirs();
    assert_eq!(collect_pinch_loop_variants(&dirs, PetMode::Happy), vec![files(&["hb.png"])]);
    assert!(collect_pinch_loop_variants(&dirs, PetMode::Nomal).is_empty());
    // Ill has no directory: the normal one is used.
    assert!(collect_pinch_loop_variants(&dirs, PetMode::Ill).is_empty());
    let only_happy = vec![PinchModeDir { name: "HAPPY".to_string(), stages: vec![dir("B1", &["x.png"])] }];
    assert_eq!(collect_pinch_loop_variants(&only_happy, PetMode::Ill), vec![files(&["x.png"])]);
    assert!(collect_pinch_loop_variants(&[], PetMode::Happy).is_empty());
}

#[test]
fn pinch_start_prefers_segment_frames() {
    let dirs = pinch_dirs();
    let direct = files(&["seg.png"]);
    assert_eq!(collect_pinch_start_files(direct.clone(), &dirs, PetMode::Happy), direct);
    assert_eq!(collect_pinch_end_files(direct.clone(), &dirs, PetMode::Happy), direct);
}

#[test]
fn pinch_start_picks_a_stage_variant() {
    let dirs = pinch_dirs();
    assert_eq!(collect_pinch_start_files(Vec::new(), &dirs, PetMode::Happy), files(&["ha1.png"]));
    assert_eq!(pinch_files_with(Vec::new(), &dirs, PetMode::Nomal, b'A', 0), files(&["na.png"]));
    assert_eq!(pinch_files_with(Vec::new(), &dirs, PetMode::Nomal, b'A', 1), files(&["na2.png"]));
    let picked = collect_pinch_start_files(Vec::new(), &dirs, PetMode::Nomal);
    assert!(picked == files(&["na.png"]) || picked == files(&["na2.png"]));
    assert_eq!(collect_pinch_end_files(Vec::new(), &dirs, PetMode::Happy), files(&["hc.png"]));
    assert!(collect_pinch_end_files(Vec::new(), &dirs, PetMode::Nomal).is_empty());
}

#[test]
fn shutdown_collects_usable_variants() {
    let dirs = vec![dir("1", &["a.png"]), dir("2", &[]), dir("3", &["b.png"])];
    assert_eq!(collect_shutdown_variants(&dirs), vec![files(&["a.png"]), files(&["b.png"])]);
}

#[test]
fn startup_picks_among_mode_dirs() {
    let dirs = vec![dir("Happy", &["h.png"]), dir("26NEW", &["n.png"]), dir("Ill", &["i.png"]), dir("happy_empty", &[])];
    assert_eq!(choose_startup_files_with(Some(dirs_copy(&dirs)), PetMode::Happy, 1), Some(files(&["n.png"])));
    assert_eq!(choose_startup_files_with(Some(dirs_copy(&dirs)), PetMode::Happy, 2), Some(files(&["h.png"])));
    assert_eq!(choose_startup_files_with(Some(dirs_copy(&dirs)), PetMode::Ill, 5), Some(files(&["i.png"])));
    assert_eq!(choose_startup_files_with(Some(dirs_copy(&dirs)), PetMode::Nomal, 0), None);
    assert_eq!(choose_startup_files_with(None, PetMode::Happy, 0), None);
    let picked = choose_startup_animation_files(Some(dirs_copy(&dirs)), PetMode::Happy);
    assert!(picked == Some(files(&["h.png"])) || picked == Some(files(&["n.png"])));
    assert_eq!(choose_startup_animation_files(Some(Vec::new()), PetMode::Happy), None);
}

fn dirs_copy(dirs: &[AssetDir]) -> Vec<AssetDir> {
    dirs.iter()
        .map(|d| AssetDir { name: d.name.clone(), path: d.path.clone(), png_files: d.png_files.clone() })
        .collect()
}

#[test]
fn paths_sort_component_by_component() {
    assert!(path_le_exec("a/b", "a-b"));
    assert!(!path_le_exec("a-b", "a/b"));
    assert!(path_le_exec("a", "a/b"));
    assert!(path_le_exec("a/b", "a/b"));
    assert!(!path_le_exec("b", "a/z"));
    let sorted = sort_dirs_by_path(vec![dir_at("v/b", &[]), dir_at("v/a-1", &[]), dir_at("v/a/1", &[]), dir_at("v/a", &[])]);
    let paths: Vec<&str> = sorted.iter().map(|d| d.path.as_str()).collect();
    assert_eq!(paths, vec!["v/a", "v/a/1", "v/a-1", "v/b"]);
}

#[test]
fn happy_idle_collects_variant_dirs_in_path_order() {
    let variants = vec![
        HappyIdleVariant { dir: "body/H1".to_string(), variant_dirs: Some(vec![dir_at("body/H1/2", &["2.png"]), dir_at("body/H1/1", &["1.png"])]) },
        HappyIdleVariant { dir: "body/H2".to_string(), variant_dirs: Some(vec![dir_at("body/H2/x", &[]), dir_at("body/H2/y", &["y.png"])]) },
    ];
    let r = collect_default_happy_idle_variants(variants).unwrap();
    assert_eq!(r, vec![files(&["1.png"]), files(&["2.png"]), files(&["y.png"])]);
}

#[test]
fn happy_idle_reports_missing_dir_and_listing_errors() {
    let missing = vec![
        HappyIdleVariant { dir: "body/H1".to_string(), variant_dirs: Some(vec![dir_at("body/H1/1", &["1.png"])]) },
        HappyIdleVariant { dir: "body/H9".to_string(), variant_dirs: None },
    ];
    match collect_default_happy_idle_variants(missing) {
        Err(AssetError::MissingDir(p)) => assert_eq!(p, "body/H9"),
        other => panic!("unexpected {:?}", other),
    }
    let failing = vec![HappyIdleVariant {
        dir: "body/H1".to_string(),
        variant_dirs: Some(vec![
            AssetDir { name: "b".to_string(), path: "body/H1/b".to_string(), png_files: Err("second".to_string()) },
            AssetDir { name: "a".to_string(), path: "body/H1/a".to_string(), png_files: Err("first".to_string()) },
        ]),
    }];
    match collect_default_happy_idle_variants(failing) {
        Err(AssetError::ListFailed(e)) => assert_eq!(e, "first"),
        other => panic!("unexpected {:?}", other),
    }
}

#[test]
fn mode_idle_variants_per_mode() {
    let happy = vec![HappyIdleVariant { dir: "H".to_string(), variant_dirs: Some(vec![dir_at("H/1", &["h.png"])]) }];
    let root = vec![dir("1", &["n.png"]), dir("2", &[])];
    assert_eq!(collect_default_mode_idle_variants(PetMode::Happy, happy, &root), vec![files(&["h.png"])]);
    let happy = vec![HappyIdleVariant { dir: "H".to_string(), variant_dirs: None }];
    assert!(collect_default_mode_idle_variants(PetMode::Happy, happy, &root).is_empty());
    assert_eq!(collect_default_mode_idle_variants(PetMode::Ill, Vec::new(), &root), vec![files(&["n.png"])]);
}

#[test]
fn idle_roots_come_from_the_config() {
    let c = AnimationPathConfig::default();
    assert_eq!(default_idle_root_for_mode(&c, PetMode::Happy), None);
    assert_eq!(default_idle_root_for_mode(&c, PetMode::Nomal), Some("Default/Nomal".to_string()));
    assert_eq!(default_idle_root_for_mode(&c, PetMode::PoorCondition), Some("Default/PoorCondition".to_string()));
    assert_eq!(default_idle_root_for_mode(&c, PetMode::Ill), Some("Default/Ill".to_string()));
}

#[test]
fn flatten_keeps_variant_order() {
    let v = vec![files(&["a", "b"]), files(&[]), files(&["c"])];
    assert_eq!(flatten_variants_in_order(&v), files(&["a", "b", "c"]));
    assert!(flatten_variants_in_order(&[]).is_empty());
}

#[test]
fn default_files_fall_back_to_normal_then_happy() {
    let happy = vec![files(&["h"])];
    let nomal = vec![files(&["n"])];
    let poor = vec![files(&["p"])];
    let ill: Vec<Vec<String>> = vec![files(&[])];
    assert_eq!(select_default_files_for_mode(PetMode::PoorCondition, &happy, &nomal, &poor, &ill), files(&["p"]));
    assert_eq!(select_default_files_for_mode(PetMode::Ill, &happy, &nomal, &poor, &ill), files(&["n"]));
    assert_eq!(select_default_files_for_mode(PetMode::Ill, &happy, &[], &poor, &ill), files(&["h"]));
    assert!(select_default_files_for_mode(PetMode::Ill, &[], &[], &poor, &ill).is_empty());
    assert_eq!(select_default_files_for_mode(PetMode::Happy, &happy, &nomal, &poor, &ill), files(&["h"]));
}
