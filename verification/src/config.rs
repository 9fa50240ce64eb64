//! The persisted configuration shape and the directory lookups it offers.
//! The filesystem is only read, through a scan wrapper; everything decided
//! from what the scan saw is verified against the pure resolvers.

use vstd::prelude::*;

use crate::column::ColumnConfig;
use crate::column::ColumnModel;
use crate::flavor::Flavor;
use crate::paths::DirEntry;
use crate::paths::DirEntryModel;
use crate::paths::FlavorDirListing;
use crate::paths::addon_candidate;
use crate::paths::addon_candidate_parent;
use crate::paths::flavor_folder_exec;
use crate::paths::is_addon_case_variant;
use crate::paths::is_settings_case_variant;
use crate::paths::is_staging_case_variant;
use crate::paths::join_seg_exec;
use crate::paths::lemma_resolve_addon_shape;
use crate::paths::lemma_resolve_settings_shape;
use crate::paths::resolve_addon_dir;
use crate::paths::resolve_settings_dir;
use crate::paths::resolve_staging_dir;
use crate::paths::settings_candidate;

verus! {

/// Settings related to the game installation: its optional root directory
/// and the chosen flavor. An absent directory means "not configured" and
/// propagates as absence, never as an error.
#[derive(Debug, Clone, PartialEq)]
pub struct Wow {
    pub directory: Option<String>,
    pub flavor: Flavor,
}

impl Default for Wow {
    /// By default no directory is configured and the flavor is `Retail`.
    fn default() -> (r: Wow)
        ensures
            r.directory is None,
            r.flavor == Flavor::Retail,
    {
        Wow { directory: None, flavor: Flavor::Retail }
    }
}

/// The persisted configuration document shape: installation settings,
/// theme, column layout, window dimensions and an optional backup
/// directory. When and where it is stored is a caller's concern.
#[derive(Debug, Clone, PartialEq)]
pub struct Config {
    pub wow: Wow,
    pub theme: Option<String>,
    pub column_config: ColumnConfig,
    pub window_size: Option<(u32, u32)>,
    pub backup_directory: Option<String>,
}

impl Default for Config {
    /// By default nothing is configured and the column layout is the
    /// generation-one default.
    fn default() -> (r: Config)
        ensures
            r.wow.directory is None,
            r.wow.flavor == Flavor::Retail,
            r.theme is None,
            r.column_config@ == (ColumnModel::V1 { local: 150u16, remote: 150u16, status: 85u16 }),
            r.window_size is None,
            r.backup_directory is None,
    {
        Config {
            wow: Wow::default(),
            theme: None,
            column_config: ColumnConfig::default(),
            window_size: None,
            backup_directory: None,
        }
    }
}

/// Relies on glob::glob: lists the names of the entries of one directory.
/// A scan failure, an unreadable entry or a nameless match yields no
/// name; what comes back depends on the filesystem, so nothing is
/// promised of it.
#[verifier::external_body]
fn list_dir(path: &str) -> (r: Vec<String>) {
    let pattern = format!("{}/*", path);
    match glob::glob(&pattern) {
        Ok(entries) => entries
            .filter_map(Result::ok)
            .map(|p| match p.file_name() {
                Some(n) => n.to_string_lossy().into_owned(),
                None => String::new(),
            })
            .collect(),
        Err(_) => Vec::new(),
    }
}

/// Reads the flavor-scoped directory one level deep: its entries, each
/// with its own entries. What it sees depends on the filesystem; scan
/// errors yield empty listings.
fn scan_flavor_dir(base: &String) -> FlavorDirListing {
    let names = list_dir(base.as_str());
    let n = names.len();
    let mut entries: Vec<DirEntry> = Vec::new();
    let mut i: usize = 0;
    while i < n
        invariant
            i <= n,
            n == names@.len(),
        decreases n - i,
    {
        let sub = join_seg_exec(base.as_str(), names[i].as_str());
        let children = list_dir(sub.as_str());
        entries.push(DirEntry { name: names[i].clone(), children });
        i += 1;
    }
    FlavorDirListing { entries }
}

impl Config {
    /// The directory containing the add-ons for the given flavor: the
    /// expected path when present, else a deterministic case-variant of
    /// it, else the unchanged non-existent path. Absent whenever no
    /// installation directory is configured.
    pub fn get_addon_directory_for_flavor(&self, flavor: &Flavor) -> (r: Option<String>)
        ensures
            r is Some <==> self.wow.directory is Some,
            self.wow.directory matches Some(d) ==> r matches Some(p) && (p@ == addon_candidate(
                d@,
                *flavor,
            ) || is_addon_case_variant(p@, d@, *flavor)),
            self.wow.directory matches Some(d) ==> exists|l: Seq<DirEntryModel>|
                r matches Some(p) && p@ == #[trigger] crate::paths::spec_resolve_addon_dir(d@, *flavor, l),
    {
        match &self.wow.directory {
            None => None,
            Some(dir) => {
                let folder = flavor_folder_exec(*flavor);
                let base = join_seg_exec(dir.as_str(), folder.as_str());
                let listing = scan_flavor_dir(&base);
                let r = resolve_addon_dir(&self.wow.directory, *flavor, &listing);
                proof {
                    lemma_resolve_addon_shape(dir@, *flavor, listing@);
                }
                r
            },
        }
    }

    /// The directory that holds temporary downloaded archives: the parent
    /// of the resolved add-on directory for the configured flavor. Absent
    /// whenever no installation directory is configured.
    pub fn get_temporary_addon_directory(&self) -> (r: Option<String>)
        ensures
            r is Some <==> self.wow.directory is Some,
            self.wow.directory matches Some(d) ==> r matches Some(p) && (p@
                == addon_candidate_parent(d@, self.wow.flavor) || is_staging_case_variant(
                p@,
                d@,
                self.wow.flavor,
            )),
            self.wow.directory matches Some(d) ==> exists|l: Seq<DirEntryModel>|
                r matches Some(p) && p@ == #[trigger] crate::paths::spec_resolve_staging_dir(
                    d@,
                    self.wow.flavor,
                    l,
                ),
    {
        let flavor = self.wow.flavor;
        match &self.wow.directory {
            None => None,
            Some(dir) => {
                let folder = flavor_folder_exec(flavor);
                let base = join_seg_exec(dir.as_str(), folder.as_str());
                let listing = scan_flavor_dir(&base);
                let r = resolve_staging_dir(&self.wow.directory, flavor, &listing);
                proof {
                    lemma_resolve_addon_shape(dir@, flavor, listing@);
                }
                r
            },
        }
    }

    /// The per-flavor settings directory: the expected path when present,
    /// else a deterministic case-variant of it, else the unchanged
    /// non-existent path. Absent whenever no installation directory is
    /// configured.
    pub fn get_wtf_directory_for_flavor(&self, flavor: &Flavor) -> (r: Option<String>)
        ensures
            r is Some <==> self.wow.directory is Some,
            self.wow.directory matches Some(d) ==> r matches Some(p) && (p@ == settings_candidate(
                d@,
                *flavor,
            ) || is_settings_case_variant(p@, d@, *flavor)),
            self.wow.directory matches Some(d) ==> exists|l: Seq<DirEntryModel>|
                r matches Some(p) && p@ == #[trigger] crate::paths::spec_resolve_settings_dir(
                    d@,
                    *flavor,
                    l,
                ),
    {
        match &self.wow.directory {
            None => None,
            Some(dir) => {
                let folder = flavor_folder_exec(*flavor);
                let base = join_seg_exec(dir.as_str(), folder.as_str());
                let listing = scan_flavor_dir(&base);
                let r = resolve_settings_dir(&self.wow.directory, *flavor, &listing);
                proof {
                    lemma_resolve_settings_shape(dir@, *flavor, listing@);
                }
                r
            },
        }
    }
}

} // verus!
