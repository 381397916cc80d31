//! The configuration values, the optional values a configuration file may
//! give, how a file's values override the defaults, and how values are made
//! sane.

use vstd::prelude::*;

verus! {

/// Stat limits and the starting stats shown on the panel.
#[derive(Clone, Copy, Debug, PartialEq, Eq, Structural)]
pub struct PanelDebugConfig {
    pub basic_stat_max: u32,
    pub experience_max: u32,
    pub level_max: u32,
    pub default_level: u32,
    pub default_health: u32,
    pub default_mood: u32,
    pub default_stamina: u32,
    pub default_satiety: u32,
    pub default_thirst: u32,
    pub default_affinity: u32,
    pub default_experience: u32,
}

/// The panel values a configuration file may give; absent ones keep the
/// default.
#[derive(Clone, Copy, Debug, PartialEq, Eq, Structural)]
pub struct PanelDebugFileConfig {
    pub basic_stat_max: Option<u32>,
    pub experience_max: Option<u32>,
    pub level_max: Option<u32>,
    pub default_level: Option<u32>,
    pub default_health: Option<u32>,
    pub default_mood: Option<u32>,
    pub default_stamina: Option<u32>,
    pub default_satiety: Option<u32>,
    pub default_thirst: Option<u32>,
    pub default_affinity: Option<u32>,
    pub default_experience: Option<u32>,
}

/// The default panel values.
pub open spec fn default_panel() -> PanelDebugConfig {
    PanelDebugConfig {
        basic_stat_max: 100,
        experience_max: 100,
        level_max: 100,
        default_level: 1,
        default_health: 100,
        default_mood: 100,
        default_stamina: 100,
        default_satiety: 100,
        default_thirst: 100,
        default_affinity: 0,
        default_experience: 0,
    }
}

/// The given value, else the default.
pub open spec fn or_default(v: Option<u32>, d: u32) -> u32 {
    match v {
        Some(x) => x,
        None => d,
    }
}

/// The file's values where it gives them, the defaults elsewhere.
pub open spec fn merge_panel(file: PanelDebugFileConfig, d: PanelDebugConfig) -> PanelDebugConfig {
    PanelDebugConfig {
        basic_stat_max: or_default(file.basic_stat_max, d.basic_stat_max),
        experience_max: or_default(file.experience_max, d.experience_max),
        level_max: or_default(file.level_max, d.level_max),
        default_level: or_default(file.default_level, d.default_level),
        default_health: or_default(file.default_health, d.default_health),
        default_mood: or_default(file.default_mood, d.default_mood),
        default_stamina: or_default(file.default_stamina, d.default_stamina),
        default_satiety: or_default(file.default_satiety, d.default_satiety),
        default_thirst: or_default(file.default_thirst, d.default_thirst),
        default_affinity: or_default(file.default_affinity, d.default_affinity),
        default_experience: or_default(file.default_experience, d.default_experience),
    }
}

/// The larger of `v` and 1.
pub open spec fn at_least_one(v: u32) -> u32 {
    if v < 1 {
        1
    } else {
        v
    }
}

/// The smaller of `v` and `max`.
pub open spec fn at_most(v: u32, max: u32) -> u32 {
    if v > max {
        max
    } else {
        v
    }
}

/// Sane panel values: every limit is at least 1, the level lies between 1
/// and the level limit, the basic stats are at most the basic stat limit and
/// the experience at most the experience limit.
pub open spec fn sanitize_panel(c: PanelDebugConfig) -> PanelDebugConfig {
    let basic = at_least_one(c.basic_stat_max);
    let exp = at_least_one(c.experience_max);
    let level_max = at_least_one(c.level_max);
    PanelDebugConfig {
        basic_stat_max: basic,
        experience_max: exp,
        level_max: level_max,
        default_level: at_most(at_least_one(c.default_level), level_max),
        default_health: at_most(c.default_health, basic),
        default_mood: at_most(c.default_mood, basic),
        default_stamina: at_most(c.default_stamina, basic),
        default_satiety: at_most(c.default_satiety, basic),
        default_thirst: at_most(c.default_thirst, basic),
        default_affinity: at_most(c.default_affinity, basic),
        default_experience: at_most(c.default_experience, exp),
    }
}

/// The panel values keep the bounds that `sanitize_panel` establishes.
pub open spec fn panel_is_sane(c: PanelDebugConfig) -> bool {
    &&& c.basic_stat_max >= 1
    &&& c.experience_max >= 1
    &&& c.level_max >= 1
    &&& 1 <= c.default_level <= c.level_max
    &&& c.default_health <= c.basic_stat_max
    &&& c.default_mood <= c.basic_stat_max
    &&& c.default_stamina <= c.basic_stat_max
    &&& c.default_satiety <= c.basic_stat_max
    &&& c.default_thirst <= c.basic_stat_max
    &&& c.default_affinity <= c.basic_stat_max
    &&& c.default_experience <= c.experience_max
}

fn or_default_exec(v: Option<u32>, d: u32) -> (r: u32)
    ensures
        r == or_default(v, d),
{
    match v {
        Some(x) => x,
        None => d,
    }
}

fn at_least_one_exec(v: u32) -> (r: u32)
    ensures
        r == at_least_one(v),
{
    if v < 1 {
        1
    } else {
        v
    }
}

fn at_most_exec(v: u32, max: u32) -> (r: u32)
    ensures
        r == at_most(v, max),
{
    if v > max {
        max
    } else {
        v
    }
}

impl Default for PanelDebugConfig {
    fn default() -> (r: Self)
        ensures
            r == default_panel(),
    {
        PanelDebugConfig {
            basic_stat_max: 100,
            experience_max: 100,
            level_max: 100,
            default_level: 1,
            default_health: 100,
            default_mood: 100,
            default_stamina: 100,
            default_satiety: 100,
            default_thirst: 100,
            default_affinity: 0,
            default_experience: 0,
        }
    }
}

impl PanelDebugConfig {
    /// The same values, made sane as `sanitize_panel` says.
    pub fn sanitized(self) -> (r: Self)
        ensures
            r == sanitize_panel(self),
    {
        let basic = at_least_one_exec(self.basic_stat_max);
        let exp = at_least_one_exec(self.experience_max);
        let level_max = at_least_one_exec(self.level_max);
        PanelDebugConfig {
            basic_stat_max: basic,
            experience_max: exp,
            level_max: level_max,
            default_level: at_most_exec(at_least_one_exec(self.default_level), level_max),
            default_health: at_most_exec(self.default_health, basic),
            default_mood: at_most_exec(self.default_mood, basic),
            default_stamina: at_most_exec(self.default_stamina, basic),
            default_satiety: at_most_exec(self.default_satiety, basic),
            default_thirst: at_most_exec(self.default_thirst, basic),
            default_affinity: at_most_exec(self.default_affinity, basic),
            default_experience: at_most_exec(self.default_experience, exp),
        }
    }
}

impl Default for PanelDebugFileConfig {
    fn default() -> (r: Self)
        ensures
            r == empty_panel_file(),
    {
        PanelDebugFileConfig {
            basic_stat_max: None,
            experience_max: None,
            level_max: None,
            default_level: None,
            default_health: None,
            default_mood: None,
            default_stamina: None,
            default_satiety: None,
            default_thirst: None,
            default_affinity: None,
            default_experience: None,
        }
    }
}

/// A panel section that gives no value.
pub open spec fn empty_panel_file() -> PanelDebugFileConfig {
    PanelDebugFileConfig {
        basic_stat_max: None,
        experience_max: None,
        level_max: None,
        default_level: None,
        default_health: None,
        default_mood: None,
        default_stamina: None,
        default_satiety: None,
        default_thirst: None,
        default_affinity: None,
        default_experience: None,
    }
}

impl PanelDebugFileConfig {
    /// The file's values where it gives them, `defaults` elsewhere.
    pub fn merge_into(self, defaults: PanelDebugConfig) -> (r: PanelDebugConfig)
        ensures
            r == merge_panel(self, defaults),
    {
        PanelDebugConfig {
            basic_stat_max: or_default_exec(self.basic_stat_max, defaults.basic_stat_max),
            experience_max: or_default_exec(self.experience_max, defaults.experience_max),
            level_max: or_default_exec(self.level_max, defaults.level_max),
            default_level: or_default_exec(self.default_level, defaults.default_level),
            default_health: or_default_exec(self.default_health, defaults.default_health),
            default_mood: or_default_exec(self.default_mood, defaults.default_mood),
            default_stamina: or_default_exec(self.default_stamina, defaults.default_stamina),
            default_satiety: or_default_exec(self.default_satiety, defaults.default_satiety),
            default_thirst: or_default_exec(self.default_thirst, defaults.default_thirst),
            default_affinity: or_default_exec(self.default_affinity, defaults.default_affinity),
            default_experience: or_default_exec(self.default_experience, defaults.default_experience),
        }
    }
}

/// Sanitized panel values are sane, and sanitizing sane values changes
/// nothing; so sanitizing twice is sanitizing once.
pub proof fn lemma_sanitize_panel(c: PanelDebugConfig)
    ensures
        panel_is_sane(sanitize_panel(c)),
        panel_is_sane(c) ==> sanitize_panel(c) == c,
        sanitize_panel(sanitize_panel(c)) == sanitize_panel(c),
{
}

/// The defaults are sane, and a file section that gives no value leaves the
/// defaults as they are.
pub proof fn lemma_default_panel()
    ensures
        panel_is_sane(default_panel()),
        merge_panel(empty_panel_file(), default_panel()) == default_panel(),
{
}

/// Where the animation assets are: the body asset root, the happy idle
/// variant directories and the idle roots of the other modes (both relative
/// to the body asset root), and the roots of the start-up, shutdown, raise
/// and pinch animations.
#[derive(Debug)]
pub struct AnimationPathConfig {
    pub assets_body_root: String,
    pub default_happy_idle_variants: Vec<String>,
    pub default_nomal_idle_root: String,
    pub default_poor_condition_idle_root: String,
    pub default_ill_idle_root: String,
    pub startup_root: String,
    pub shutdown_root: String,
    pub raise_static_root: String,
    pub raise_dynamic_root: String,
    pub pinch_root: String,
}

/// The value of an `AnimationPathConfig`.
pub struct AnimationPaths {
    pub assets_body_root: Seq<char>,
    pub default_happy_idle_variants: Seq<Seq<char>>,
    pub default_nomal_idle_root: Seq<char>,
    pub default_poor_condition_idle_root: Seq<char>,
    pub default_ill_idle_root: Seq<char>,
    pub startup_root: Seq<char>,
    pub shutdown_root: Seq<char>,
    pub raise_static_root: Seq<char>,
    pub raise_dynamic_root: Seq<char>,
    pub pinch_root: Seq<char>,
}

/// The texts of a list of strings.
pub open spec fn texts(v: Seq<String>) -> Seq<Seq<char>> {
    v.map_values(|s: String| s@)
}

impl View for AnimationPathConfig {
    type V = AnimationPaths;

    open spec fn view(&self) -> AnimationPaths {
        AnimationPaths {
            assets_body_root: self.assets_body_root@,
            default_happy_idle_variants: texts(self.default_happy_idle_variants@),
            default_nomal_idle_root: self.default_nomal_idle_root@,
            default_poor_condition_idle_root: self.default_poor_condition_idle_root@,
            default_ill_idle_root: self.default_ill_idle_root@,
            startup_root: self.startup_root@,
            shutdown_root: self.shutdown_root@,
            raise_static_root: self.raise_static_root@,
            raise_dynamic_root: self.raise_dynamic_root@,
            pinch_root: self.pinch_root@,
        }
    }
}

/// The animation paths a configuration file may give; absent ones keep the
/// default.
#[derive(Debug)]
pub struct AnimationPathFileConfig {
    pub assets_body_root: Option<String>,
    pub default_happy_idle_variants: Option<Vec<String>>,
    pub default_nomal_idle_root: Option<String>,
    pub default_poor_condition_idle_root: Option<String>,
    pub default_ill_idle_root: Option<String>,
    pub startup_root: Option<String>,
    pub shutdown_root: Option<String>,
    pub raise_static_root: Option<String>,
    pub raise_dynamic_root: Option<String>,
    pub pinch_root: Option<String>,
}

/// The value of an optional text.
pub open spec fn opt_text(v: Option<String>) -> Option<Seq<char>> {
    match v {
        Some(s) => Some(s@),
        None => None,
    }
}

/// The value of an optional list of texts.
pub open spec fn opt_texts(v: Option<Vec<String>>) -> Option<Seq<Seq<char>>> {
    match v {
        Some(s) => Some(texts(s@)),
        None => None,
    }
}

/// The value of an `AnimationPathFileConfig`.
pub struct AnimationPathFile {
    pub assets_body_root: Option<Seq<char>>,
    pub default_happy_idle_variants: Option<Seq<Seq<char>>>,
    pub default_nomal_idle_root: Option<Seq<char>>,
    pub default_poor_condition_idle_root: Option<Seq<char>>,
    pub default_ill_idle_root: Option<Seq<char>>,
    pub startup_root: Option<Seq<char>>,
    pub shutdown_root: Option<Seq<char>>,
    pub raise_static_root: Option<Seq<char>>,
    pub raise_dynamic_root: Option<Seq<char>>,
    pub pinch_root: Option<Seq<char>>,
}

impl View for AnimationPathFileConfig {
    type V = AnimationPathFile;

    open spec fn view(&self) -> AnimationPathFile {
        AnimationPathFile {
            assets_body_root: opt_text(self.assets_body_root),
            default_happy_idle_variants: opt_texts(self.default_happy_idle_variants),
            default_nomal_idle_root: opt_text(self.default_nomal_idle_root),
            default_poor_condition_idle_root: opt_text(self.default_poor_condition_idle_root),
            default_ill_idle_root: opt_text(self.default_ill_idle_root),
            startup_root: opt_text(self.startup_root),
            shutdown_root: opt_text(self.shutdown_root),
            raise_static_root: opt_text(self.raise_static_root),
            raise_dynamic_root: opt_text(self.raise_dynamic_root),
            pinch_root: opt_text(self.pinch_root),
        }
    }
}

/// The default animation paths.
pub open spec fn default_animation() -> AnimationPaths {
    AnimationPaths {
        assets_body_root: "assets/body"@,
        default_happy_idle_variants: seq!["Default/Happy/1"@, "Default/Happy/2"@, "Default/Happy/3"@],
        default_nomal_idle_root: "Default/Nomal"@,
        default_poor_condition_idle_root: "Default/PoorCondition"@,
        default_ill_idle_root: "Default/Ill"@,
        startup_root: "assets/body/StartUP"@,
        shutdown_root: "assets/body/Shutdown"@,
        raise_static_root: "assets/body/Raise/Raised_Static"@,
        raise_dynamic_root: "assets/body/Raise/Raised_Dynamic"@,
        pinch_root: "assets/body/Pinch"@,
    }
}

/// The given value, else the default.
pub open spec fn text_or<T>(v: Option<T>, d: T) -> T {
    match v {
        Some(x) => x,
        None => d,
    }
}

/// The file's paths where it gives them, the defaults elsewhere.
pub open spec fn merge_animation(file: AnimationPathFile, d: AnimationPaths) -> AnimationPaths {
    AnimationPaths {
        assets_body_root: text_or(file.assets_body_root, d.assets_body_root),
        default_happy_idle_variants: text_or(file.default_happy_idle_variants, d.default_happy_idle_variants),
        default_nomal_idle_root: text_or(file.default_nomal_idle_root, d.default_nomal_idle_root),
        default_poor_condition_idle_root: text_or(
            file.default_poor_condition_idle_root,
            d.default_poor_condition_idle_root,
        ),
        default_ill_idle_root: text_or(file.default_ill_idle_root, d.default_ill_idle_root),
        startup_root: text_or(file.startup_root, d.startup_root),
        shutdown_root: text_or(file.shutdown_root, d.shutdown_root),
        raise_static_root: text_or(file.raise_static_root, d.raise_static_root),
        raise_dynamic_root: text_or(file.raise_dynamic_root, d.raise_dynamic_root),
        pinch_root: text_or(file.pinch_root, d.pinch_root),
    }
}

/// A path, or the default one when it is empty.
pub open spec fn nonempty_or(v: Seq<char>, d: Seq<char>) -> Seq<char> {
    if v.len() == 0 {
        d
    } else {
        v
    }
}

/// The non-empty entries of a list of paths, in order.
pub open spec fn nonempty_entries(v: Seq<Seq<char>>) -> Seq<Seq<char>> {
    v.filter_map(|e: Seq<char>| if e.len() > 0 { Some(e) } else { None })
}

/// Sane animation paths: no path is empty (an empty one is replaced by its
/// default), empty entries are dropped from the happy idle variants, and a
/// variant list left empty is replaced by the default list.
pub open spec fn sanitize_animation(c: AnimationPaths) -> AnimationPaths {
    let d = default_animation();
    let variants = nonempty_entries(c.default_happy_idle_variants);
    AnimationPaths {
        assets_body_root: nonempty_or(c.assets_body_root, d.assets_body_root),
        default_happy_idle_variants: if variants.len() == 0 {
            d.default_happy_idle_variants
        } else {
            variants
        },
        default_nomal_idle_root: nonempty_or(c.default_nomal_idle_root, d.default_nomal_idle_root),
        default_poor_condition_idle_root: nonempty_or(
            c.default_poor_condition_idle_root,
            d.default_poor_condition_idle_root,
        ),
        default_ill_idle_root: nonempty_or(c.default_ill_idle_root, d.default_ill_idle_root),
        startup_root: nonempty_or(c.startup_root, d.startup_root),
        shutdown_root: nonempty_or(c.shutdown_root, d.shutdown_root),
        raise_static_root: nonempty_or(c.raise_static_root, d.raise_static_root),
        raise_dynamic_root: nonempty_or(c.raise_dynamic_root, d.raise_dynamic_root),
        pinch_root: nonempty_or(c.pinch_root, d.pinch_root),
    }
}

/// The animation paths keep the bounds that `sanitize_animation`
/// establishes: no path and no variant entry is empty, and there is at least
/// one variant.
pub open spec fn animation_is_sane(c: AnimationPaths) -> bool {
    &&& c.assets_body_root.len() > 0
    &&& c.default_happy_idle_variants.len() > 0
    &&& forall|i: int|
        0 <= i < c.default_happy_idle_variants.len() ==> #[trigger] c.default_happy_idle_variants[i].len() > 0
    &&& c.default_nomal_idle_root.len() > 0
    &&& c.default_poor_condition_idle_root.len() > 0
    &&& c.default_ill_idle_root.len() > 0
    &&& c.startup_root.len() > 0
    &&& c.shutdown_root.len() > 0
    &&& c.raise_static_root.len() > 0
    &&& c.raise_dynamic_root.len() > 0
    &&& c.pinch_root.len() > 0
}

/// A copy of a text.
fn text(s: &str) -> (r: String)
    ensures
        r@ == s@,
{
    s.to_owned()
}

impl Default for AnimationPathConfig {
    fn default() -> (r: Self)
        ensures
            r@ == default_animation(),
    {
        let mut variants: Vec<String> = Vec::new();
        variants.push(text("Default/Happy/1"));
        variants.push(text("Default/Happy/2"));
        variants.push(text("Default/Happy/3"));
        let r = AnimationPathConfig {
            assets_body_root: text("assets/body"),
            default_happy_idle_variants: variants,
            default_nomal_idle_root: text("Default/Nomal"),
            default_poor_condition_idle_root: text("Default/PoorCondition"),
            default_ill_idle_root: text("Default/Ill"),
            startup_root: text("assets/body/StartUP"),
            shutdown_root: text("assets/body/Shutdown"),
            raise_static_root: text("assets/body/Raise/Raised_Static"),
            raise_dynamic_root: text("assets/body/Raise/Raised_Dynamic"),
            pinch_root: text("assets/body/Pinch"),
        };
        assert(texts(r.default_happy_idle_variants@) =~= default_animation().default_happy_idle_variants);
        r
    }
}

impl Default for AnimationPathFileConfig {
    fn default() -> (r: Self)
        ensures
            r@ == empty_animation_file(),
    {
        AnimationPathFileConfig {
            assets_body_root: None,
            default_happy_idle_variants: None,
            default_nomal_idle_root: None,
            default_poor_condition_idle_root: None,
            default_ill_idle_root: None,
            startup_root: None,
            shutdown_root: None,
            raise_static_root: None,
            raise_dynamic_root: None,
            pinch_root: None,
        }
    }
}

/// An animation section that gives no path.
pub open spec fn empty_animation_file() -> AnimationPathFile {
    AnimationPathFile {
        assets_body_root: None,
        default_happy_idle_variants: None,
        default_nomal_idle_root: None,
        default_poor_condition_idle_root: None,
        default_ill_idle_root: None,
        startup_root: None,
        shutdown_root: None,
        raise_static_root: None,
        raise_dynamic_root: None,
        pinch_root: None,
    }
}

/// The given path, else the default.
fn path_or(v: Option<String>, d: String) -> (r: String)
    ensures
        r@ == text_or(opt_text(v), d@),
{
    match v {
        Some(x) => x,
        None => d,
    }
}

/// A path, or the default one when it is empty.
fn nonempty_or_exec(v: String, d: String) -> (r: String)
    ensures
        r@ == nonempty_or(v@, d@),
{
    if v.as_str().is_empty() {
        d
    } else {
        v
    }
}

impl AnimationPathFileConfig {
    /// The file's paths where it gives them, `defaults` elsewhere.
    pub fn merge_into(self, defaults: AnimationPathConfig) -> (r: AnimationPathConfig)
        ensures
            r@ == merge_animation(self@, defaults@),
    {
        let variants = match self.default_happy_idle_variants {
            Some(v) => v,
            None => defaults.default_happy_idle_variants,
        };
        AnimationPathConfig {
            assets_body_root: path_or(self.assets_body_root, defaults.assets_body_root),
            default_happy_idle_variants: variants,
            default_nomal_idle_root: path_or(self.default_nomal_idle_root, defaults.default_nomal_idle_root),
            default_poor_condition_idle_root: path_or(
                self.default_poor_condition_idle_root,
                defaults.default_poor_condition_idle_root,
            ),
            default_ill_idle_root: path_or(self.default_ill_idle_root, defaults.default_ill_idle_root),
            startup_root: path_or(self.startup_root, defaults.startup_root),
            shutdown_root: path_or(self.shutdown_root, defaults.shutdown_root),
            raise_static_root: path_or(self.raise_static_root, defaults.raise_static_root),
            raise_dynamic_root: path_or(self.raise_dynamic_root, defaults.raise_dynamic_root),
            pinch_root: path_or(self.pinch_root, defaults.pinch_root),
        }
    }
}

impl AnimationPathConfig {
    /// The same paths, made sane as `sanitize_animation` says.
    pub fn sanitized(self) -> (r: Self)
        ensures
            r@ == sanitize_animation(self@),
    {
        let d = AnimationPathConfig::default();
        let mut variants: Vec<String> = Vec::new();
        let src = self.default_happy_idle_variants;
        let n = src.len();
        let mut i: usize = 0;
        while i < n
            invariant
                n == src@.len(),
                i <= n,
                texts(variants@) == nonempty_entries(texts(src@).take(i as int)),
            decreases n - i,
        {
            let ghost before = variants@;
            assert(texts(src@).take(i + 1).drop_last() =~= texts(src@).take(i as int));
            if !src[i].as_str().is_empty() {
                variants.push(src[i].clone());
                assert(texts(variants@) =~= texts(before).push(src@[i as int]@));
            }
            i = i + 1;
        }
        assert(texts(src@).take(n as int) =~= texts(src@));
        let variants = if variants.len() == 0 {
            assert(texts(variants@) =~= Seq::<Seq<char>>::empty());
            d.default_happy_idle_variants
        } else {
            variants
        };
        AnimationPathConfig {
            assets_body_root: nonempty_or_exec(self.assets_body_root, d.assets_body_root),
            default_happy_idle_variants: variants,
            default_nomal_idle_root: nonempty_or_exec(self.default_nomal_idle_root, d.default_nomal_idle_root),
            default_poor_condition_idle_root: nonempty_or_exec(
                self.default_poor_condition_idle_root,
                d.default_poor_condition_idle_root,
            ),
            default_ill_idle_root: nonempty_or_exec(self.default_ill_idle_root, d.default_ill_idle_root),
            startup_root: nonempty_or_exec(self.startup_root, d.startup_root),
            shutdown_root: nonempty_or_exec(self.shutdown_root, d.shutdown_root),
            raise_static_root: nonempty_or_exec(self.raise_static_root, d.raise_static_root),
            raise_dynamic_root: nonempty_or_exec(self.raise_dynamic_root, d.raise_dynamic_root),
            pinch_root: nonempty_or_exec(self.pinch_root, d.pinch_root),
        }
    }
}

/// Every entry kept by `nonempty_entries` is non-empty, every non-empty
/// entry is kept, and keeping the non-empty entries of a list whose entries
/// are all non-empty changes nothing.
proof fn lemma_nonempty_entries(v: Seq<Seq<char>>)
    ensures
        forall|i: int|
            0 <= i < nonempty_entries(v).len() ==> #[trigger] nonempty_entries(v)[i].len() > 0,
        (forall|i: int| 0 <= i < v.len() ==> #[trigger] v[i].len() > 0) ==> nonempty_entries(v) == v,
    decreases v.len(),
{
    if v.len() > 0 {
        lemma_nonempty_entries(v.drop_last());
        let prev = nonempty_entries(v.drop_last());
        let cur = nonempty_entries(v);
        if v.last().len() > 0 {
            assert(cur == prev.add(seq![v.last()]));
        } else {
            assert(cur == prev);
        }
        assert forall|i: int| 0 <= i < cur.len() implies #[trigger] cur[i].len() > 0 by {
            if i < prev.len() {
                assert(cur[i] == prev[i]);
            }
        }
        if forall|i: int| 0 <= i < v.len() ==> #[trigger] v[i].len() > 0 {
            assert forall|i: int| 0 <= i < v.drop_last().len() implies #[trigger] v.drop_last()[i].len() > 0 by {
                assert(v.drop_last()[i] == v[i]);
            }
            assert(v.last().len() > 0);
            assert(nonempty_entries(v) =~= v.drop_last().push(v.last()));
        }
    } else {
        assert(nonempty_entries(v) =~= v);
    }
}

/// The default animation paths are sane.
proof fn lemma_default_animation_sane()
    ensures
        animation_is_sane(default_animation()),
{
    reveal_strlit("assets/body");
    reveal_strlit("Default/Happy/1");
    reveal_strlit("Default/Happy/2");
    reveal_strlit("Default/Happy/3");
    reveal_strlit("Default/Nomal");
    reveal_strlit("Default/PoorCondition");
    reveal_strlit("Default/Ill");
    reveal_strlit("assets/body/StartUP");
    reveal_strlit("assets/body/Shutdown");
    reveal_strlit("assets/body/Raise/Raised_Static");
    reveal_strlit("assets/body/Raise/Raised_Dynamic");
    reveal_strlit("assets/body/Pinch");
    let v = default_animation().default_happy_idle_variants;
    assert forall|i: int| 0 <= i < v.len() implies #[trigger] v[i].len() > 0 by {
        if i == 0 {
        } else if i == 1 {
        } else {
        }
    }
}

/// Sanitized animation paths are sane, sanitizing sane paths changes
/// nothing, and so sanitizing twice is sanitizing once.
pub proof fn lemma_sanitize_animation(c: AnimationPaths)
    ensures
        animation_is_sane(sanitize_animation(c)),
        animation_is_sane(c) ==> sanitize_animation(c) == c,
        sanitize_animation(sanitize_animation(c)) == sanitize_animation(c),
{
    lemma_default_animation_sane();
    lemma_nonempty_entries(c.default_happy_idle_variants);
    let s = sanitize_animation(c);
    assert(animation_is_sane(s));
    lemma_nonempty_entries(s.default_happy_idle_variants);
    if animation_is_sane(c) {
        assert(sanitize_animation(c) =~= c);
    }
    assert(sanitize_animation(s) =~= s);
}

/// The default paths are sane, and a file section that gives no path leaves
/// the defaults as they are.
pub proof fn lemma_default_animation()
    ensures
        animation_is_sane(default_animation()),
        merge_animation(empty_animation_file(), default_animation()) == default_animation(),
{
    lemma_default_animation_sane();
}

/// Merging takes each value the file gives, and the default exactly for the
/// values it leaves out.
pub proof fn lemma_merge_panel_fields(file: PanelDebugFileConfig, d: PanelDebugConfig)
    ensures
        file.basic_stat_max matches Some(v) ==> merge_panel(file, d).basic_stat_max == v,
        file.basic_stat_max is None ==> merge_panel(file, d).basic_stat_max == d.basic_stat_max,
        file.experience_max matches Some(v) ==> merge_panel(file, d).experience_max == v,
        file.experience_max is None ==> merge_panel(file, d).experience_max == d.experience_max,
        file.level_max matches Some(v) ==> merge_panel(file, d).level_max == v,
        file.level_max is None ==> merge_panel(file, d).level_max == d.level_max,
        file.default_level matches Some(v) ==> merge_panel(file, d).default_level == v,
        file.default_level is None ==> merge_panel(file, d).default_level == d.default_level,
        file.default_health matches Some(v) ==> merge_panel(file, d).default_health == v,
        file.default_health is None ==> merge_panel(file, d).default_health == d.default_health,
        file.default_mood matches Some(v) ==> merge_panel(file, d).default_mood == v,
        file.default_mood is None ==> merge_panel(file, d).default_mood == d.default_mood,
        file.default_stamina matches Some(v) ==> merge_panel(file, d).default_stamina == v,
        file.default_stamina is None ==> merge_panel(file, d).default_stamina == d.default_stamina,
        file.default_satiety matches Some(v) ==> merge_panel(file, d).default_satiety == v,
        file.default_satiety is None ==> merge_panel(file, d).default_satiety == d.default_satiety,
        file.default_thirst matches Some(v) ==> merge_panel(file, d).default_thirst == v,
        file.default_thirst is None ==> merge_panel(file, d).default_thirst == d.default_thirst,
        file.default_affinity matches Some(v) ==> merge_panel(file, d).default_affinity == v,
        file.default_affinity is None ==> merge_panel(file, d).default_affinity == d.default_affinity,
        file.default_experience matches Some(v) ==> merge_panel(file, d).default_experience == v,
        file.default_experience is None ==> merge_panel(file, d).default_experience == d.default_experience,
{
}

/// Merging takes each path the file gives, and the default exactly for the
/// paths it leaves out.
pub proof fn lemma_merge_animation_fields(file: AnimationPathFile, d: AnimationPaths)
    ensures
        file.assets_body_root matches Some(v) ==> merge_animation(file, d).assets_body_root == v,
        file.assets_body_root is None ==> merge_animation(file, d).assets_body_root == d.assets_body_root,
        file.default_happy_idle_variants matches Some(v) ==> merge_animation(file, d).default_happy_idle_variants == v,
        file.default_happy_idle_variants is None ==> merge_animation(file, d).default_happy_idle_variants == d.default_happy_idle_variants,
        file.default_nomal_idle_root matches Some(v) ==> merge_animation(file, d).default_nomal_idle_root == v,
        file.default_nomal_idle_root is None ==> merge_animation(file, d).default_nomal_idle_root == d.default_nomal_idle_root,
        file.default_poor_condition_idle_root matches Some(v) ==> merge_animation(file, d).default_poor_condition_idle_root == v,
        file.default_poor_condition_idle_root is None ==> merge_animation(file, d).default_poor_condition_idle_root == d.default_poor_condition_idle_root,
        file.default_ill_idle_root matches Some(v) ==> merge_animation(file, d).default_ill_idle_root == v,
        file.default_ill_idle_root is None ==> merge_animation(file, d).default_ill_idle_root == d.default_ill_idle_root,
        file.startup_root matches Some(v) ==> merge_animation(file, d).startup_root == v,
        file.startup_root is None ==> merge_animation(file, d).startup_root == d.startup_root,
        file.shutdown_root matches Some(v) ==> merge_animation(file, d).shutdown_root == v,
        file.shutdown_root is None ==> merge_animation(file, d).shutdown_root == d.shutdown_root,
        file.raise_static_root matches Some(v) ==> merge_animation(file, d).raise_static_root == v,
        file.raise_static_root is None ==> merge_animation(file, d).raise_static_root == d.raise_static_root,
        file.raise_dynamic_root matches Some(v) ==> merge_animation(file, d).raise_dynamic_root == v,
        file.raise_dynamic_root is None ==> merge_animation(file, d).raise_dynamic_root == d.raise_dynamic_root,
        file.pinch_root matches Some(v) ==> merge_animation(file, d).pinch_root == v,
        file.pinch_root is None ==> merge_animation(file, d).pinch_root == d.pinch_root,
{
}

} // verus!
