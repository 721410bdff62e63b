//! The pack store's bookkeeping: what a stored pack looks like and how a
//! pack name maps to its directory. Archive extraction, directory walks
//! and deletion are filesystem work done by the caller around these
//! rules.

use vstd::prelude::*;
use vstd::string::StringExecFns;

verus! {

/// What is known of one imported pack.
#[derive(Debug, Clone)]
pub struct PackInfo {
    pub name: String,
    pub vendor: String,
    pub version: String,
    pub description: String,
    pub device_count: usize,
}

/// The pack store: all packs live under one directory, one subdirectory
/// per pack, named by the pack.
pub struct PackManager {
    packs_dir: String,
}

impl PackManager {
    /// A store rooted at `packs_dir` (already resolved by the caller:
    /// user override, the platform data directory, or the legacy
    /// directory beside the executable).
    pub fn new(packs_dir: String) -> (r: Self)
        ensures
            r.packs_dir() == packs_dir@,
    {
        PackManager { packs_dir }
    }

    /// The store's root directory.
    pub closed spec fn packs_dir(&self) -> Seq<char> {
        self.packs_dir@
    }

    /// The root directory as a string.
    pub fn root_dir(&self) -> (r: &String)
        ensures
            r@ == self.packs_dir(),
    {
        &self.packs_dir
    }

    /// The directory a pack of this name is extracted into.
    pub fn get_pack_dir(&self, pack_name: &str) -> (r: String)
        ensures
            r@ == self.packs_dir() + "/"@ + pack_name@,
    {
        let mut out = self.packs_dir.clone();
        out.append("/");
        out.append(pack_name);
        out
    }
}

} // verus!
