use desk_pet::stats::save::PetStatsSaveStore;

#[test]
fn save_store_points_at_settings_file() {
    let store = PetStatsSaveStore::load();
    assert_eq!(store.file_path().as_str(), "settings/pet_stats_save.toml");
}
