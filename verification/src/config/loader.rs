//! Loading of the configuration: the values of the runtime configuration
//! file, where it gives them, over the defaults, made sane.

use vstd::prelude::*;

use crate::config::model::{
    default_animation,
    default_panel,
    empty_animation_file,
    empty_panel_file,
    merge_animation,
    merge_panel,
    sanitize_animation,
    sanitize_panel,
    animation_is_sane,
    lemma_default_animation,
    lemma_default_panel,
    lemma_sanitize_animation,
    lemma_sanitize_panel,
    panel_is_sane,
    AnimationPathConfig,
    AnimationPathFile,
    AnimationPathFileConfig,
    AnimationPaths,
    PanelDebugConfig,
    PanelDebugFileConfig,
};

verus! {

/// The runtime configuration file's path, relative to the working directory.
pub open spec fn runtime_config_file() -> Seq<char> {
    "settings/config.toml"@
}

/// The path of the runtime configuration file.
pub fn runtime_config_path() -> (r: String)
    ensures
        r@ == runtime_config_file(),
{
    "settings/config.toml".to_owned()
}

/// The sections of the runtime configuration file.
#[derive(Debug)]
pub struct FileConfig {
    pub panel: Option<PanelDebugFileConfig>,
    pub animation: Option<AnimationPathFileConfig>,
}

/// The panel section of the file, or a section that gives nothing when the
/// file could not be read or parsed or has no panel section.
pub open spec fn panel_section(file: Option<FileConfig>) -> PanelDebugFileConfig {
    match file {
        Some(f) => match f.panel {
            Some(p) => p,
            None => empty_panel_file(),
        },
        None => empty_panel_file(),
    }
}

/// The animation section of the file, or a section that gives nothing.
pub open spec fn animation_section(file: Option<FileConfig>) -> AnimationPathFile {
    match file {
        Some(f) => match f.animation {
            Some(a) => a@,
            None => empty_animation_file(),
        },
        None => empty_animation_file(),
    }
}

/// The panel configuration loaded from the file's contents.
pub open spec fn loaded_panel(file: Option<FileConfig>) -> PanelDebugConfig {
    sanitize_panel(merge_panel(panel_section(file), default_panel()))
}

/// The animation paths loaded from the file's contents.
pub open spec fn loaded_animation(file: Option<FileConfig>) -> AnimationPaths {
    sanitize_animation(merge_animation(animation_section(file), default_animation()))
}

/// The panel configuration: the values of the file's panel section over the
/// defaults, made sane; `file` is `None` when the runtime configuration file
/// could not be read or parsed.
pub fn load_panel_debug_config(file: Option<FileConfig>) -> (r: PanelDebugConfig)
    ensures
        r == loaded_panel(file),
{
    let default_config = PanelDebugConfig::default();
    let section = match file {
        Some(f) => match f.panel {
            Some(p) => p,
            None => PanelDebugFileConfig::default(),
        },
        None => PanelDebugFileConfig::default(),
    };
    section.merge_into(default_config).sanitized()
}

/// The animation paths: the paths of the file's animation section over the
/// defaults, made sane; `file` is `None` when the runtime configuration file
/// could not be read or parsed.
pub fn load_animation_path_config(file: Option<FileConfig>) -> (r: AnimationPathConfig)
    ensures
        r@ == loaded_animation(file),
{
    let default_config = AnimationPathConfig::default();
    let ghost file_view = animation_section(file);
    let section = match file {
        Some(f) => match f.animation {
            Some(a) => a,
            None => AnimationPathFileConfig::default(),
        },
        None => AnimationPathFileConfig::default(),
    };
    assert(section@ == file_view);
    section.merge_into(default_config).sanitized()
}

/// Whatever the file holds, the loaded configuration is sane; without a
/// readable file, it is the defaults.
pub proof fn lemma_loaded_config(file: Option<FileConfig>)
    ensures
        panel_is_sane(loaded_panel(file)),
        animation_is_sane(loaded_animation(file)),
        loaded_panel(None) == default_panel(),
        loaded_animation(None) == default_animation(),
{
    lemma_sanitize_panel(merge_panel(panel_section(file), default_panel()));
    lemma_sanitize_animation(merge_animation(animation_section(file), default_animation()));
    lemma_default_panel();
    lemma_sanitize_panel(default_panel());
    lemma_default_animation();
    lemma_sanitize_animation(default_animation());
}

/// Loading keeps every sane value the file's panel section gives: a limit
/// of at least 1, a level between 1 and the loaded level limit, and a stat
/// within its loaded limit come out as the file gives them; and when the
/// merged values are sane, loading is merging.
pub proof fn lemma_load_keeps_file_values(file: Option<FileConfig>)
    ensures
        ({
            let s = panel_section(file);
            let c = loaded_panel(file);
            &&& (s.default_health is Some && s.default_health->0 <= c.basic_stat_max) ==> c.default_health == s.default_health->0
            &&& (s.default_mood is Some && s.default_mood->0 <= c.basic_stat_max) ==> c.default_mood == s.default_mood->0
            &&& (s.default_stamina is Some && s.default_stamina->0 <= c.basic_stat_max) ==> c.default_stamina == s.default_stamina->0
            &&& (s.default_satiety is Some && s.default_satiety->0 <= c.basic_stat_max) ==> c.default_satiety == s.default_satiety->0
            &&& (s.default_thirst is Some && s.default_thirst->0 <= c.basic_stat_max) ==> c.default_thirst == s.default_thirst->0
            &&& (s.default_affinity is Some && s.default_affinity->0 <= c.basic_stat_max) ==> c.default_affinity == s.default_affinity->0
            &&& (s.default_experience is Some && s.default_experience->0 <= c.experience_max) ==> c.default_experience == s.default_experience->0
            &&& (s.default_level is Some && 1 <= s.default_level->0 <= c.level_max) ==> c.default_level == s.default_level->0
            &&& (s.basic_stat_max is Some && s.basic_stat_max->0 >= 1) ==> c.basic_stat_max == s.basic_stat_max->0
            &&& (s.experience_max is Some && s.experience_max->0 >= 1) ==> c.experience_max == s.experience_max->0
            &&& (s.level_max is Some && s.level_max->0 >= 1) ==> c.level_max == s.level_max->0
            &&& panel_is_sane(merge_panel(s, default_panel())) ==> c == merge_panel(s, default_panel())
        }),
{
    lemma_sanitize_panel(merge_panel(panel_section(file), default_panel()));
}

} // verus!
