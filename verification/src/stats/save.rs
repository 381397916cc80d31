//! Where the pet's stats are saved.

use vstd::prelude::*;

verus! {

/// Location of the save file, relative to the working directory.
pub open spec fn pet_stats_save_file() -> Seq<char> {
    seq!['s', 'e', 't', 't', 'i', 'n', 'g', 's', '/', 'p', 'e', 't', '_', 's', 't', 'a', 't', 's', '_', 's', 'a', 'v', 'e', '.', 't', 'o', 'm', 'l']
}

/// Store for the pet's stats save file.
#[derive(Debug)]
pub struct PetStatsSaveStore {
    file_path: String,
}

impl PetStatsSaveStore {
    /// The store kept at `settings/pet_stats_save.toml`.
    pub fn load() -> (r: Self)
        ensures
            r.path_view() == pet_stats_save_file(),
    {
        let p = "settings/pet_stats_save.toml";
        proof {
            reveal_strlit("settings/pet_stats_save.toml");
        }
        PetStatsSaveStore { file_path: p.to_owned() }
    }

    /// The path of the save file, as text.
    pub closed spec fn path_view(&self) -> Seq<char> {
        self.file_path@
    }

    /// The path of the save file.
    pub fn file_path(&self) -> (r: &String)
        ensures
            r@ == self.path_view(),
    {
        &self.file_path
    }
}

} // verus!
