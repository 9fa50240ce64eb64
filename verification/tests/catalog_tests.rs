use ajour_core::Catalog;
use ajour_core::CatalogError;
use ajour_core::Flavor;
use ajour_core::Source;
use ajour_core::catalog::catalog_from_response;
use ajour_core::catalog::parse_catalog_document;

const ONE_RECORD: &str = r#"[{
    "id": 7,
    "name": "Tidy Bags",
    "categories": ["Inventory", "Quality of Life"],
    "summary": "Keeps bags tidy.",
    "numberOfDownloads": 123456,
    "source": "curse",
    "flavors": ["retail", "classic_ptr"]
}]"#;

fn fetch_ok(body: &str) -> Result<Catalog, CatalogError> {
    catalog_from_response(200, body.to_string())
}

#[test]
fn success_with_one_record_yields_matching_addon() {
    let catalog = fetch_ok(ONE_RECORD).expect("catalog should decode");
    assert_eq!(catalog.addons.len(), 1);
    let a = &catalog.addons[0];
    assert_eq!(a.id, 7);
    assert_eq!(a.name, "Tidy Bags");
    assert_eq!(a.categories, vec!["Inventory".to_string(), "Quality of Life".to_string()]);
    assert_eq!(a.summary, "Keeps bags tidy.");
    assert_eq!(a.number_of_downloads, 123456);
    assert_eq!(a.source, Source::Curse);
    assert_eq!(a.flavors, vec![Flavor::Retail, Flavor::ClassicPTR]);
}

#[test]
fn http_failure_carries_body_text() {
    let r = catalog_from_response(500, "oops".to_string());
    match r {
        Err(e @ CatalogError::Http { .. }) => {
            assert!(e.message().contains("oops"));
            match e {
                CatalogError::Http { status, body } => {
                    assert_eq!(status, 500);
                    assert_eq!(body, "oops");
                },
                _ => unreachable!(),
            }
        },
        _ => panic!("a non-success status must be an HTTP failure"),
    }
}

#[test]
fn malformed_body_is_a_decode_failure_distinct_from_http() {
    let r = catalog_from_response(200, "not json {{{".to_string());
    assert_eq!(r, Err(CatalogError::Decode));
    let http = catalog_from_response(500, "not json {{{".to_string());
    assert_ne!(r, http);
}

#[test]
fn empty_document_is_an_empty_catalog() {
    let catalog = fetch_ok("[]").expect("empty catalog should decode");
    assert_eq!(catalog.addons.len(), 0);
}

#[test]
fn redirect_status_is_not_success() {
    let r = catalog_from_response(301, ONE_RECORD.to_string());
    assert!(matches!(r, Err(CatalogError::Http { status: 301, .. })));
    let r2 = catalog_from_response(299, ONE_RECORD.to_string());
    assert!(r2.is_ok());
}

#[test]
fn missing_field_fails_decode() {
    let body = r#"[{
        "id": 7,
        "name": "x",
        "categories": [],
        "summary": "s",
        "numberOfDownloads": 1,
        "source": "curse"
    }]"#;
    assert_eq!(fetch_ok(body), Err(CatalogError::Decode));
}

#[test]
fn wrong_source_fails_decode() {
    let body = r#"[{
        "id": 7,
        "name": "x",
        "categories": [],
        "summary": "s",
        "numberOfDownloads": 1,
        "source": "elsewhere",
        "flavors": []
    }]"#;
    assert_eq!(fetch_ok(body), Err(CatalogError::Decode));
}

#[test]
fn unknown_flavor_fails_decode() {
    let body = r#"[{
        "id": 7,
        "name": "x",
        "categories": [],
        "summary": "s",
        "numberOfDownloads": 1,
        "source": "curse",
        "flavors": ["vanilla"]
    }]"#;
    assert_eq!(fetch_ok(body), Err(CatalogError::Decode));
}

#[test]
fn id_over_32_bits_fails_decode() {
    let body = r#"[{
        "id": 4294967296,
        "name": "x",
        "categories": [],
        "summary": "s",
        "numberOfDownloads": 1,
        "source": "curse",
        "flavors": []
    }]"#;
    assert_eq!(fetch_ok(body), Err(CatalogError::Decode));
    let boundary = r#"[{
        "id": 4294967295,
        "name": "x",
        "categories": [],
        "summary": "s",
        "numberOfDownloads": 1,
        "source": "curse",
        "flavors": []
    }]"#;
    let c = fetch_ok(boundary).expect("boundary id should decode");
    assert_eq!(c.addons[0].id, u32::MAX);
}

#[test]
fn negative_download_count_fails_decode() {
    let body = r#"[{
        "id": 7,
        "name": "x",
        "categories": [],
        "summary": "s",
        "numberOfDownloads": -1,
        "source": "curse",
        "flavors": []
    }]"#;
    assert_eq!(fetch_ok(body), Err(CatalogError::Decode));
}

#[test]
fn non_array_document_fails_decode() {
    assert_eq!(parse_catalog_document("{}"), None);
    assert_eq!(parse_catalog_document("3"), None);
    assert!(parse_catalog_document("[]").is_some());
}

#[test]
fn decode_error_message_is_distinct() {
    let decode = CatalogError::Decode;
    assert_eq!(decode.message(), "Couldn't decode catalog");
    let http = CatalogError::Http { status: 500, body: "oops".to_string() };
    assert_eq!(http.message(), "Couldn't fetch catalog: oops");
}
