use ajour_core::ColumnConfig;
use ajour_core::ColumnConfigV2;

fn v2_sample() -> ColumnConfig {
    ColumnConfig::V2 {
        columns: vec![
            ColumnConfigV2 { key: "name".to_string(), width: None, hidden: false },
            ColumnConfigV2 { key: "status".to_string(), width: Some(80), hidden: true },
        ],
    }
}

#[test]
fn default_schema_widths_and_orders() {
    let mut c = ColumnConfig::default();
    assert_eq!(c.get_width("local"), Some(150));
    assert_eq!(c.get_width("remote"), Some(150));
    assert_eq!(c.get_width("status"), Some(85));
    assert_eq!(c.get_order("local"), Some(1));
    assert_eq!(c.get_order("remote"), Some(2));
    assert_eq!(c.get_order("status"), Some(3));
    assert_eq!(c.get_width("bogus"), None);
    assert_eq!(c.get_order("bogus"), None);
}

#[test]
fn v1_update_width() {
    let mut c = ColumnConfig::default();
    c.update_width("remote", 42);
    assert_eq!(c.get_width("remote"), Some(42));
    assert_eq!(c.get_width("local"), Some(150));
    c.update_width("bogus", 7);
    assert_eq!(c.get_width("local"), Some(150));
    assert_eq!(c.get_width("remote"), Some(42));
    assert_eq!(c.get_width("status"), Some(85));
}

#[test]
fn v2_order_and_updates() {
    let mut c = v2_sample();
    assert_eq!(c.get_order("name"), Some(0));
    assert_eq!(c.get_order("status"), Some(1));
    assert_eq!(c.get_order("missing"), None);

    assert_eq!(c.get_width("name"), None);
    assert_eq!(c.get_width("status"), Some(80));

    c.update_width("name", 200);
    assert_eq!(c.get_width("name"), Some(200));

    let before = c.clone();
    c.update_width("missing", 10);
    assert_eq!(c, before);
}

#[test]
fn v2_update_keeps_hidden_and_order() {
    let mut c = v2_sample();
    c.update_width("status", 99);
    match &c {
        ColumnConfig::V2 { columns } => {
            assert_eq!(columns.len(), 2);
            assert_eq!(columns[1].key, "status");
            assert_eq!(columns[1].width, Some(99));
            assert!(columns[1].hidden);
            assert_eq!(columns[0].key, "name");
            assert_eq!(columns[0].width, None);
            assert!(!columns[0].hidden);
        },
        _ => panic!("schema generation changed"),
    }
}

#[test]
fn v2_duplicate_keys_first_match_wins() {
    let mut c = ColumnConfig::V2 {
        columns: vec![
            ColumnConfigV2 { key: "dup".to_string(), width: Some(1), hidden: false },
            ColumnConfigV2 { key: "dup".to_string(), width: Some(2), hidden: false },
        ],
    };
    assert_eq!(c.get_order("dup"), Some(0));
    assert_eq!(c.get_width("dup"), Some(1));
    c.update_width("dup", 5);
    assert_eq!(c.get_width("dup"), Some(5));
    match &c {
        ColumnConfig::V2 { columns } => {
            assert_eq!(columns[1].width, Some(2));
        },
        _ => panic!("schema generation changed"),
    }
}
