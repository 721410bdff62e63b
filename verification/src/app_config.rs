//! The user-level configuration: today only an optional override of the
//! pack data directory. Reading and writing the file is the caller's
//! business; the logic here is what the values mean.

use vstd::prelude::*;

verus! {

/// Application configuration as stored in the user's config file.
#[derive(Debug, Clone)]
pub struct AppConfig {
    /// Overrides the pack data directory when set.
    pub custom_packs_dir: Option<String>,
}

impl Default for AppConfig {
    /// No override: packs live in the platform's data directory.
    fn default() -> (r: Self)
        ensures
            r.custom_packs_dir is None,
    {
        AppConfig { custom_packs_dir: None }
    }
}

/// The custom packs directory the configuration selects, if any.
pub fn get_custom_packs_dir(config: &AppConfig) -> (r: Option<String>)
    ensures
        match config.custom_packs_dir {
            Option::Some(ref p) => r is Some && r->0@ == p@,
            Option::None => r is None,
        },
{
    match &config.custom_packs_dir {
        Some(p) => Some(p.clone()),
        None => None,
    }
}

/// Selects (or clears) the custom packs directory.
pub fn set_custom_packs_dir(config: &mut AppConfig, path: Option<String>)
    ensures
        final(config).custom_packs_dir == path,
{
    config.custom_packs_dir = path;
}

} // verus!
