//! What the configuration watcher decides: whether a file-system event
//! concerns the watched configuration file. Watching the directory and
//! reloading the file are the caller's I/O.
use vstd::prelude::*;

use crate::config::ServiceConfig;
use crate::text::str_eq;

verus! {

/// A parsed new configuration, pushed to the daemon on every successful
/// reload.
#[derive(Debug)]
pub struct ConfigChangeEvent {
    pub config: ServiceConfig,
}

/// The kind of a file-system event, reduced to what the watcher reacts to.
#[derive(Clone, Copy, Debug, PartialEq, Eq, Structural)]
pub enum FsEventKind {
    Create,
    Modify,
    Remove,
    Other,
}

/// One file-system event: its kind and the final name component of each
/// path it mentions (`None` for a path without one).
#[derive(Debug)]
pub struct FsEventInfo {
    pub kind: FsEventKind,
    pub file_names: Vec<Option<String>>,
}

/// Two optional file names agree.
pub open spec fn spec_name_matches(a: Option<Seq<char>>, b: Option<Seq<char>>) -> bool {
    match (a, b) {
        (Some(x), Some(y)) => x == y,
        (None, None) => true,
        _ => false,
    }
}

/// The view of an optional file name.
pub open spec fn spec_opt_name(n: Option<String>) -> Option<Seq<char>> {
    match n {
        Some(s) => Some(s@),
        None => None,
    }
}

/// Whether the event concerns the configuration file: it creates, modifies
/// or removes something, and one of its paths carries the configuration
/// file's name.
pub open spec fn spec_is_config_modified(event: FsEventInfo, config_name: Option<Seq<char>>) -> bool {
    &&& (exists|i: int|
        0 <= i < event.file_names@.len() && spec_name_matches(
            spec_opt_name(#[trigger] event.file_names@[i]),
            config_name,
        ))
    &&& (event.kind == FsEventKind::Create || event.kind == FsEventKind::Modify || event.kind
        == FsEventKind::Remove)
}

/// Whether a file-system event calls for reloading the configuration.
pub fn is_config_modified(event: &FsEventInfo, config_name: &Option<String>) -> (r: bool)
    ensures
        r == spec_is_config_modified(*event, spec_opt_name(*config_name)),
{
    let mut matched: bool = false;
    let mut i: usize = 0;
    while i < event.file_names.len()
        invariant
            i <= event.file_names@.len(),
            matched == exists|k: int|
                0 <= k < i && spec_name_matches(
                    spec_opt_name(#[trigger] event.file_names@[k]),
                    spec_opt_name(*config_name),
                ),
        decreases event.file_names@.len() - i,
    {
        let here: bool = match (&event.file_names[i], config_name) {
            (Some(x), Some(y)) => str_eq(x.as_str(), y.as_str()),
            (None, None) => true,
            _ => false,
        };
        proof {
            assert(here == spec_name_matches(
                spec_opt_name(event.file_names@[i as int]),
                spec_opt_name(*config_name),
            ));
        }
        matched = matched || here;
        i = i + 1;
    }
    let kind_ok: bool = matches!(
        event.kind,
        FsEventKind::Create | FsEventKind::Modify | FsEventKind::Remove
    );
    matched && kind_ok
}

} // verus!
