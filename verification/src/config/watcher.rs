//! When a file-system event calls for reloading the configuration.

use vstd::prelude::*;

verus! {

/// The kind of a file-system event in the configuration directory.
#[derive(Clone, Copy, Debug, PartialEq, Eq, Structural)]
pub enum ConfigEventKind {
    /// An event of unknown kind.
    Any,
    /// A file was read or opened.
    Access,
    /// A file was created.
    Create,
    /// A file's data or metadata changed, or it was renamed.
    Modify,
    /// A file was removed.
    Remove,
    /// Any other event.
    Other,
}

/// The event kinds that may change the configuration file's contents.
pub open spec fn kind_may_change(kind: ConfigEventKind) -> bool {
    kind == ConfigEventKind::Create || kind == ConfigEventKind::Modify || kind == ConfigEventKind::Remove
        || kind == ConfigEventKind::Any
}

/// The file names of an event's paths (`None` for a path without a file
/// name that is valid text).
pub open spec fn names_view(names: Seq<Option<String>>) -> Seq<Option<Seq<char>>> {
    names.map_values(|n: Option<String>| match n {
        Some(s) => Some(s@),
        None => None,
    })
}

/// An event calls for a reload when its kind may change a file and it names
/// no path or names the configuration file among its paths.
pub open spec fn calls_for_reload(kind: ConfigEventKind, names: Seq<Option<Seq<char>>>, config_name: Seq<char>) -> bool {
    kind_may_change(kind) && (names.len() == 0 || names.contains(Some(config_name)))
}

/// Whether an event with this kind and these path file names calls for
/// reloading the configuration file named `config_file_name`.
pub fn is_config_change_event(
    kind: ConfigEventKind,
    file_names: &[Option<String>],
    config_file_name: &String,
) -> (r: bool)
    ensures
        r == calls_for_reload(kind, names_view(file_names@), config_file_name@),
{
    let relevant = match kind {
        ConfigEventKind::Create | ConfigEventKind::Modify | ConfigEventKind::Remove | ConfigEventKind::Any => true,
        _ => false,
    };
    if !relevant {
        return false;
    }
    let n = file_names.len();
    if n == 0 {
        return true;
    }
    let ghost names = names_view(file_names@);
    let mut i: usize = 0;
    while i < n
        invariant
            n == file_names@.len(),
            names == names_view(file_names@),
            kind_may_change(kind),
            i <= n,
            forall|j: int| 0 <= j < i ==> names[j] != Some(config_file_name@),
        decreases n - i,
    {
        match &file_names[i] {
            Some(name) => {
                assert(names[i as int] == Some(name@));
                if name.eq(config_file_name) {
                    assert(names[i as int] == Some(config_file_name@));
                    assert(names.contains(Some(config_file_name@)));
                    return true;
                }
            },
            None => {
                assert(names[i as int] == None::<Seq<char>>);
            },
        }
        i = i + 1;
    }
    assert(!names.contains(Some(config_file_name@)));
    false
}

/// An event of a kind that cannot change a file never calls for a reload,
/// and one that may change a file and names no path always does.
pub proof fn lemma_reload_events(kind: ConfigEventKind, config_name: Seq<char>)
    ensures
        !kind_may_change(kind) ==> forall|names: Seq<Option<Seq<char>>>| !calls_for_reload(kind, names, config_name),
        kind_may_change(kind) ==> calls_for_reload(kind, Seq::empty(), config_name),
{
}

/// An event calls for a reload exactly when its kind is a creation, a
/// modification, a removal or unknown, and it names no path or names the
/// configuration file at some position among its paths.
pub proof fn lemma_reload_decision(kind: ConfigEventKind, names: Seq<Option<Seq<char>>>, config_name: Seq<char>)
    ensures
        calls_for_reload(kind, names, config_name) <==> ((kind == ConfigEventKind::Create || kind
            == ConfigEventKind::Modify || kind == ConfigEventKind::Remove || kind == ConfigEventKind::Any) && (
        names.len() == 0 || exists|i: int| 0 <= i < names.len() && #[trigger] names[i] == Some(config_name))),
{
    if exists|i: int| 0 <= i < names.len() && #[trigger] names[i] == Some(config_name) {
        let i = choose|i: int| 0 <= i < names.len() && #[trigger] names[i] == Some(config_name);
        assert(names.contains(Some(config_name)));
    }
}

} // verus!
