use ajour_core::Flavor;

#[test]
fn flavor_identifier_round_trip_all() {
    let all = [
        Flavor::Retail,
        Flavor::Classic,
        Flavor::RetailPTR,
        Flavor::ClassicPTR,
        Flavor::Beta,
    ];
    for f in all {
        assert_eq!(Flavor::from_identifier(f.identifier()), Some(f));
    }
}

#[test]
fn flavor_identifiers_are_canonical() {
    assert_eq!(Flavor::Retail.identifier(), "retail");
    assert_eq!(Flavor::Classic.identifier(), "classic");
    assert_eq!(Flavor::RetailPTR.identifier(), "ptr");
    assert_eq!(Flavor::ClassicPTR.identifier(), "classic_ptr");
    assert_eq!(Flavor::Beta.identifier(), "beta");
}

#[test]
fn flavor_unknown_identifier_fails() {
    assert_eq!(Flavor::from_identifier("Retail"), None);
    assert_eq!(Flavor::from_identifier(""), None);
    assert_eq!(Flavor::from_identifier("ptr_"), None);
}

#[test]
fn flavor_default_is_retail() {
    assert_eq!(Flavor::default(), Flavor::Retail);
}
