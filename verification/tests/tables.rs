use turbo_session::table::Table;
use turbo_session::wire::{read_i32, write_i32};

#[test]
fn table_starts_empty() {
    let table: Table<u8> = Table::new();
    assert_eq!(table.len(), 0);
    assert_eq!(table.get("a"), None);
    assert!(!table.contains_key("a"));
}

#[test]
fn table_insert_replaces_under_the_same_key() {
    let mut table: Table<u8> = Table::new();
    table.insert("a", 1);
    table.insert("b", 2);
    table.insert("a", 3);
    assert_eq!(table.len(), 2);
    assert_eq!(table.get("a"), Some(&3));
    assert_eq!(table.get("b"), Some(&2));
    assert_eq!(table.get("c"), None);
    assert!(table.contains_key("b"));
}

#[test]
fn table_tells_keys_apart_to_the_letter() {
    let mut table: Table<u8> = Table::new();
    table.insert("", 0);
    table.insert("a", 1);
    table.insert("A", 2);
    table.insert("a ", 3);
    assert_eq!(table.len(), 4);
    assert_eq!(table.get(""), Some(&0));
    assert_eq!(table.get("a"), Some(&1));
    assert_eq!(table.get("A"), Some(&2));
    assert_eq!(table.get("a "), Some(&3));
}

#[test]
fn table_remove_takes_the_value_out() {
    let mut table: Table<u8> = Table::new();
    table.insert("a", 1);
    table.insert("b", 2);
    table.insert("c", 3);
    assert_eq!(table.remove("b"), Some(2));
    assert_eq!(table.remove("b"), None);
    assert_eq!(table.len(), 2);
    assert_eq!(table.get("a"), Some(&1));
    assert_eq!(table.get("c"), Some(&3));
}

#[test]
fn table_rows_keep_their_keys_when_a_value_is_replaced() {
    let mut table: Table<u8> = Table::new();
    table.insert("a", 1);
    table.insert("b", 2);
    let first = table.key_at(0).clone();
    let second = table.key_at(1).clone();
    assert_ne!(first, second);
    let held = *table.get(&first).unwrap();
    assert_eq!(table.replace_at(0, 9), held);
    assert_eq!(table.key_at(0), &first);
    assert_eq!(table.key_at(1), &second);
    assert_eq!(table.get(&first), Some(&9));
    assert_eq!(table.get(&second), Some(&(3 - held)));
    assert_eq!(table.len(), 2);
}

#[test]
fn wire_reads_a_number_at_an_offset() {
    let bytes = [9, 1, 0, 0, 0, 255, 255, 255, 255, 7];
    assert_eq!(read_i32(&bytes, 1), 1);
    assert_eq!(read_i32(&bytes, 5), -1);
    assert_eq!(read_i32(&bytes, 0), 265);
    assert_eq!(read_i32(&[0, 0, 0, 128], 0), i32::MIN);
    assert_eq!(read_i32(&[255, 255, 255, 127], 0), i32::MAX);
    assert_eq!(read_i32(&[0x78, 0x56, 0x34, 0x12], 0), 0x1234_5678);
}

#[test]
fn wire_appends_four_bytes() {
    let mut out = vec![42];
    write_i32(&mut out, 1);
    write_i32(&mut out, -2);
    assert_eq!(out, vec![42, 1, 0, 0, 0, 254, 255, 255, 255]);
}

#[test]
fn wire_agrees_with_the_machine() {
    for value in [0, 1, -1, 255, 256, -256, 65535, 65536, 1 << 30, i32::MAX, i32::MIN] {
        let mut out = Vec::new();
        write_i32(&mut out, value);
        assert_eq!(out, value.to_le_bytes().to_vec());
        assert_eq!(read_i32(&out, 0), value);
    }
}
