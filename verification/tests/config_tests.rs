use ajour_core::ColumnConfig;
use ajour_core::Config;
use ajour_core::Flavor;
use ajour_core::Wow;

#[test]
fn defaults_are_unconfigured() {
    let w = Wow::default();
    assert_eq!(w.directory, None);
    assert_eq!(w.flavor, Flavor::Retail);

    let mut c = Config::default();
    assert_eq!(c.wow, Wow::default());
    assert_eq!(c.theme, None);
    assert_eq!(c.column_config, ColumnConfig::default());
    assert_eq!(c.window_size, None);
    assert_eq!(c.backup_directory, None);
    assert_eq!(c.column_config.get_width("status"), Some(85));
}

#[test]
fn unconfigured_directory_resolves_to_absent() {
    let c = Config::default();
    for f in [
        Flavor::Retail,
        Flavor::Classic,
        Flavor::RetailPTR,
        Flavor::ClassicPTR,
        Flavor::Beta,
    ] {
        assert_eq!(c.get_addon_directory_for_flavor(&f), None);
        assert_eq!(c.get_wtf_directory_for_flavor(&f), None);
    }
    assert_eq!(c.get_temporary_addon_directory(), None);
}

#[test]
fn missing_installation_keeps_the_candidate_paths() {
    // The configured root does not exist, so the scan sees nothing and
    // every resolution falls back to the unchanged candidate.
    let mut c = Config::default();
    c.wow.directory = Some("/nonexistent-install-root".to_string());
    c.wow.flavor = Flavor::Classic;
    assert_eq!(
        c.get_addon_directory_for_flavor(&Flavor::Retail),
        Some("/nonexistent-install-root/_retail_/Interface/AddOns".to_string())
    );
    assert_eq!(
        c.get_wtf_directory_for_flavor(&Flavor::Beta),
        Some("/nonexistent-install-root/_beta_/WTF".to_string())
    );
    assert_eq!(
        c.get_temporary_addon_directory(),
        Some("/nonexistent-install-root/_classic_/Interface".to_string())
    );
}
