use ajour_core::Flavor;
use ajour_core::paths::DirEntry;
use ajour_core::paths::FlavorDirListing;
use ajour_core::paths::resolve_addon_dir;
use ajour_core::paths::resolve_settings_dir;
use ajour_core::paths::resolve_staging_dir;

fn listing(entries: Vec<(&str, Vec<&str>)>) -> FlavorDirListing {
    FlavorDirListing {
        entries: entries
            .into_iter()
            .map(|(name, children)| DirEntry {
                name: name.to_string(),
                children: children.into_iter().map(|c| c.to_string()).collect(),
            })
            .collect(),
    }
}

#[test]
fn absent_root_resolves_to_absent() {
    let empty = listing(vec![]);
    for f in [
        Flavor::Retail,
        Flavor::Classic,
        Flavor::RetailPTR,
        Flavor::ClassicPTR,
        Flavor::Beta,
    ] {
        assert_eq!(resolve_addon_dir(&None, f, &empty), None);
        assert_eq!(resolve_settings_dir(&None, f, &empty), None);
        assert_eq!(resolve_staging_dir(&None, f, &empty), None);
    }
}

#[test]
fn exact_path_is_returned() {
    let root = Some("/games/wow".to_string());
    let l = listing(vec![("Interface", vec!["AddOns"]), ("Fonts", vec![])]);
    assert_eq!(
        resolve_addon_dir(&root, Flavor::Retail, &l),
        Some("/games/wow/_retail_/Interface/AddOns".to_string())
    );
}

#[test]
fn case_variant_is_returned_when_exact_is_missing() {
    let root = Some("/games/wow".to_string());
    let l = listing(vec![("interface", vec!["addons"])]);
    assert_eq!(
        resolve_addon_dir(&root, Flavor::Retail, &l),
        Some("/games/wow/_retail_/interface/addons".to_string())
    );
}

#[test]
fn missing_path_returns_unchanged_candidate() {
    let root = Some("/games/wow".to_string());
    let l = listing(vec![("Fonts", vec![]), ("Cache", vec!["junk"])]);
    assert_eq!(
        resolve_addon_dir(&root, Flavor::Retail, &l),
        Some("/games/wow/_retail_/Interface/AddOns".to_string())
    );
}

#[test]
fn ambiguity_breaks_ties_lexicographically() {
    let root = Some("/r".to_string());
    let l = listing(vec![
        ("interface", vec!["addons"]),
        ("INTERFACE", vec!["AdDoNs"]),
    ]);
    // Both case-variants exist; the lexicographically smallest full path
    // (by code point) wins: uppercase letters sort before lowercase ones.
    assert_eq!(
        resolve_addon_dir(&root, Flavor::Retail, &l),
        Some("/r/_retail_/INTERFACE/AdDoNs".to_string())
    );
}

#[test]
fn flavor_folder_follows_flavor() {
    let root = Some("/r".to_string());
    let l = listing(vec![]);
    assert_eq!(
        resolve_addon_dir(&root, Flavor::Classic, &l),
        Some("/r/_classic_/Interface/AddOns".to_string())
    );
    assert_eq!(
        resolve_addon_dir(&root, Flavor::ClassicPTR, &l),
        Some("/r/_classic_ptr_/Interface/AddOns".to_string())
    );
}

#[test]
fn settings_dir_exact_variant_and_missing() {
    let root = Some("/r".to_string());
    let exact = listing(vec![("WTF", vec![])]);
    assert_eq!(
        resolve_settings_dir(&root, Flavor::Retail, &exact),
        Some("/r/_retail_/WTF".to_string())
    );
    let variant = listing(vec![("wtf", vec![])]);
    assert_eq!(
        resolve_settings_dir(&root, Flavor::Retail, &variant),
        Some("/r/_retail_/wtf".to_string())
    );
    let missing = listing(vec![("Fonts", vec![])]);
    assert_eq!(
        resolve_settings_dir(&root, Flavor::Retail, &missing),
        Some("/r/_retail_/WTF".to_string())
    );
}

#[test]
fn staging_dir_is_parent_of_addon_dir() {
    let root = Some("/r".to_string());
    let exact = listing(vec![("Interface", vec!["AddOns"])]);
    assert_eq!(
        resolve_staging_dir(&root, Flavor::Retail, &exact),
        Some("/r/_retail_/Interface".to_string())
    );
    let variant = listing(vec![("iNtErFaCe", vec!["aDdOnS"])]);
    assert_eq!(
        resolve_staging_dir(&root, Flavor::Retail, &variant),
        Some("/r/_retail_/iNtErFaCe".to_string())
    );
    let missing = listing(vec![]);
    assert_eq!(
        resolve_staging_dir(&root, Flavor::Retail, &missing),
        Some("/r/_retail_/Interface".to_string())
    );
}

#[test]
fn identical_inputs_resolve_identically() {
    let root = Some("/r".to_string());
    let l = listing(vec![("interface", vec!["addons", "ADDONS"])]);
    let a = resolve_addon_dir(&root, Flavor::Retail, &l);
    let b = resolve_addon_dir(&root, Flavor::Retail, &l);
    assert_eq!(a, b);
    assert_eq!(a, Some("/r/_retail_/interface/ADDONS".to_string()));
}
