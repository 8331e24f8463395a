use band_ibc::table::Table;
use band_ibc::state::{Decimal, PriceData};

fn price_of(atomics: u128) -> PriceData {
    PriceData { rate: Decimal { atomics }, bandchain_request_id: 1, bandchain_resolve_time: 2 }
}

#[test]
fn new_table_is_empty() {
    let table: Table<PriceData> = Table::new();
    assert_eq!(table.len(), 0);
    assert_eq!(table.get("LUNA"), None);
    assert_eq!(table.get(""), None);
}

#[test]
fn insert_then_get() {
    let mut table: Table<PriceData> = Table::new();
    table.insert("LUNA".to_string(), price_of(3));
    table.insert("BTC".to_string(), price_of(5));
    assert_eq!(table.len(), 2);
    assert_eq!(table.get("LUNA"), Some(&price_of(3)));
    assert_eq!(table.get("BTC"), Some(&price_of(5)));
    assert_eq!(table.get("ETH"), None);
    assert_eq!(table.get("LUN"), None);
}

#[test]
fn insert_replaces_the_value_of_a_key() {
    let mut table: Table<PriceData> = Table::new();
    table.insert("LUNA".to_string(), price_of(3));
    table.insert("BTC".to_string(), price_of(5));
    table.insert("LUNA".to_string(), price_of(7));
    assert_eq!(table.len(), 2);
    assert_eq!(table.get("LUNA"), Some(&price_of(7)));
    assert_eq!(table.get("BTC"), Some(&price_of(5)));
}

#[test]
fn entries_come_in_the_order_of_first_writing() {
    let mut table: Table<PriceData> = Table::new();
    table.insert("LUNA".to_string(), price_of(3));
    table.insert("BTC".to_string(), price_of(5));
    table.insert("LUNA".to_string(), price_of(7));
    table.insert("".to_string(), price_of(9));
    assert_eq!(table.len(), 3);
    assert_eq!(table.entry(0).key, "LUNA");
    assert_eq!(table.entry(0).value, price_of(7));
    assert_eq!(table.entry(1).key, "BTC");
    assert_eq!(table.entry(1).value, price_of(5));
    assert_eq!(table.entry(2).key, "");
    assert_eq!(table.entry(2).value, price_of(9));
}
