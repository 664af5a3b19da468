//! Saved settings and the defaults taken from them.
use vstd::prelude::*;
use crate::paths::default_output_dir;
use crate::types::{AppSettings, OrganizeMode};

verus! {

/// The folder arrangement: as saved, else by ISO week.
pub fn default_organize(settings: &AppSettings) -> (m: OrganizeMode)
    ensures
        m == (match settings.organize {
            Some(o) => o,
            None => OrganizeMode::Week,
        }),
{
    match settings.organize {
        Some(o) => o,
        None => OrganizeMode::Week,
    }
}

/// The page limit: as saved, else 0 (no limit).
pub fn default_max_pages(settings: &AppSettings) -> (n: u32)
    ensures
        n == (match settings.max_pages {
            Some(m) => m,
            None => 0,
        }),
{
    match settings.max_pages {
        Some(m) => m,
        None => 0,
    }
}

/// The download folder: the one given explicitly, else the saved one, else the default
/// (`SUNO_OUTPUT_DIR` or `./suno-wav`). The settings are only needed, and only read by the
/// caller, when no folder is given explicitly.
pub fn resolve_output_dir(explicit: Option<&str>, settings: Option<&AppSettings>, env_output_dir: Option<String>) -> (r: String)
    ensures
        r@ == (match explicit {
            Some(d) => d@,
            None => match settings {
                Some(s) if s.output_dir is Some => s.output_dir->0@,
                _ => match env_output_dir {
                    Some(d) => d@,
                    None => "./suno-wav"@,
                },
            },
        }),
{
    if let Some(dir) = explicit {
        return dir.to_string();
    }
    if let Some(s) = settings {
        if let Some(dir) = &s.output_dir {
            return dir.clone();
        }
    }
    default_output_dir(env_output_dir)
}

} // verus!
