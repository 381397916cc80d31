use desk_pet::animation::assets::common::AssetDir;
use desk_pet::animation::assets::listing::{has_png_extension, mode_dir_with_fallback, mode_variant_dirs, segment_child};
use desk_pet::animation::assets::pinch::{collect_pinch_loop_variants, pinch_files_with, PinchModeDir};
use desk_pet::stats::model::PetMode;

fn names(v: &[&str]) -> Vec<String> {
    v.iter().map(|s| s.to_string()).collect()
}

#[test]
fn png_names_by_extension_ignoring_case() {
    assert!(has_png_extension("frame_001.png"));
    assert!(has_png_extension("A.PNG"));
    assert!(has_png_extension("a.b.Png"));
    assert!(has_png_extension("..png"));
    assert!(!has_png_extension(".png"));
    assert!(!has_png_extension("png"));
    assert!(!has_png_extension("a.png.txt"));
    assert!(!has_png_extension("a.pngx"));
    assert!(!has_png_extension("a."));
    assert!(!has_png_extension(""));
}

#[test]
fn mode_dir_prefers_own_then_normal_then_happy() {
    let dirs = names(&["Happy", "Nomal", "Ill", "ill_2"]);
    assert_eq!(mode_dir_with_fallback(&dirs, PetMode::Ill), Some(2));
    assert_eq!(mode_dir_with_fallback(&dirs, PetMode::PoorCondition), Some(1));
    assert_eq!(mode_dir_with_fallback(&names(&["x", "HAPPY"]), PetMode::Ill), Some(1));
    assert_eq!(mode_dir_with_fallback(&names(&["x", ""]), PetMode::Happy), None);
    assert_eq!(mode_dir_with_fallback(&[], PetMode::Nomal), None);
}

#[test]
fn segment_child_matches_the_letter_ignoring_case() {
    let children = names(&["A_1", "b", "B", "c"]);
    assert_eq!(segment_child(&children, b'b'), Some(1));
    assert_eq!(segment_child(&children, b'B'), Some(1));
    assert_eq!(segment_child(&children, b'C'), Some(3));
    assert_eq!(segment_child(&children, b'a'), None);
}

#[test]
fn mode_variant_dirs_fall_back_to_normal() {
    let dirs = names(&["Nomal_1", "Ill_1", "nomal_2", "ILL_2"]);
    assert_eq!(mode_variant_dirs(&dirs, PetMode::Ill), vec![1, 3]);
    assert_eq!(mode_variant_dirs(&dirs, PetMode::Happy), vec![0, 2]);
    assert_eq!(mode_variant_dirs(&names(&["Happy"]), PetMode::Nomal), Vec::<usize>::new());
}

fn dir(name: &str, png: &str) -> AssetDir {
    AssetDir { name: name.to_string(), path: name.to_string(), png_files: Ok(vec![png.to_string()]) }
}

#[test]
fn pinch_stage_prefix_ignores_case() {
    let dirs = vec![PinchModeDir { name: "Nomal".to_string(), stages: vec![dir("b_1", "x.png"), dir("B_2", "y.png"), dir("c", "z.png")] }];
    let both = vec![vec!["x.png".to_string()], vec!["y.png".to_string()]];
    assert_eq!(collect_pinch_loop_variants(&dirs, PetMode::Nomal), both);
    assert_eq!(pinch_files_with(Vec::new(), &dirs, PetMode::Nomal, b'b', 1), pinch_files_with(Vec::new(), &dirs, PetMode::Nomal, b'B', 1));
    assert_eq!(pinch_files_with(Vec::new(), &dirs, PetMode::Nomal, b'c', 0), vec!["z.png".to_string()]);
    assert_eq!(pinch_files_with(Vec::new(), &dirs, PetMode::Nomal, b'C', 0), vec!["z.png".to_string()]);
}
