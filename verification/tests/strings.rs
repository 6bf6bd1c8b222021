use xlsxwriter::strings::StringTable;

#[test]
fn interning_the_same_text_twice_stores_it_once() {
    let mut table = StringTable::new();
    let first = table.intern(b"value 1");
    let second = table.intern(b"value 1");
    assert_eq!(first, 0);
    assert_eq!(second, 0);
    assert_eq!(table.len(), 1);
    assert_eq!(table.get(0).map(|e| e.as_slice()), Some(&b"value 1"[..]));
}

#[test]
fn interning_gives_indices_in_order_of_first_occurrence() {
    let mut table = StringTable::new();
    assert_eq!(table.intern(b"a"), 0);
    assert_eq!(table.intern(b"b"), 1);
    assert_eq!(table.intern(b"a"), 0);
    assert_eq!(table.intern(b""), 2);
    assert_eq!(table.intern(b"c"), 3);
    assert_eq!(table.intern(b"b"), 1);
    assert_eq!(table.intern(b""), 2);
    assert_eq!(table.len(), 4);
    assert_eq!(table.get(3).map(|e| e.as_slice()), Some(&b"c"[..]));
    assert!(table.get(4).is_none());
}

#[test]
fn find_does_not_change_the_table() {
    let mut table = StringTable::new();
    assert_eq!(table.find(b"a"), None);
    table.intern(b"a");
    table.intern(b"ab");
    assert_eq!(table.find(b"ab"), Some(1));
    assert_eq!(table.find(b"abc"), None);
    assert_eq!(table.len(), 2);
}
