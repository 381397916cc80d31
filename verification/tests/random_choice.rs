use desk_pet::animation::assets::common::AssetDir;
use desk_pet::animation::assets::pinch::{collect_pinch_end_files, PinchModeDir};
use desk_pet::animation::assets::startup::choose_startup_animation_files;
use desk_pet::stats::model::PetMode;

fn dir(name: &str, png: &str) -> AssetDir {
    AssetDir { name: name.to_string(), path: name.to_string(), png_files: Ok(vec![png.to_string()]) }
}

#[test]
fn startup_draws_every_variant_over_many_draws() {
    let mut seen = [false, false];
    for _ in 0..200 {
        let dirs = vec![dir("Ill_1", "a.png"), dir("Ill_2", "b.png")];
        match choose_startup_animation_files(Some(dirs), PetMode::Ill) {
            Some(f) if f == vec!["a.png".to_string()] => seen[0] = true,
            Some(f) if f == vec!["b.png".to_string()] => seen[1] = true,
            other => panic!("unexpected {:?}", other),
        }
    }
    assert!(seen[0] && seen[1]);
}

#[test]
fn pinch_end_draws_every_variant_over_many_draws() {
    let mut seen = [false, false];
    for _ in 0..200 {
        let dirs = vec![PinchModeDir { name: "Ill".to_string(), stages: vec![dir("C1", "x.png"), dir("c2", "y.png")] }];
        let f = collect_pinch_end_files(Vec::new(), &dirs, PetMode::Ill);
        if f == vec!["x.png".to_string()] {
            seen[0] = true;
        } else if f == vec!["y.png".to_string()] {
            seen[1] = true;
        } else {
            panic!("unexpected {:?}", f);
        }
    }
    assert!(seen[0] && seen[1]);
}
