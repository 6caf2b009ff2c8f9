use rpmsgfs::handles::HandleTable;

#[test]
fn ids_are_the_smallest_free_ones() {
    let mut table: HandleTable<char> = HandleTable::new();
    assert!(!table.is_full());
    assert_eq!(table.add('a', "/a".to_string()), 0);
    assert_eq!(table.add('b', "/b".to_string()), 1);
    assert_eq!(table.add('c', "/c".to_string()), 2);
    assert_eq!(table.remove(1), Some(('b', "/b".to_string())));
    assert_eq!(table.remove(1), None);
    assert_eq!(table.add('d', "/d".to_string()), 1);
    assert_eq!(table.add('e', "/e".to_string()), 3);
    assert_eq!(table.path(1).unwrap(), "/d");
    assert_eq!(table.path(2).unwrap(), "/c");
}

#[test]
fn handles_can_be_changed() {
    let mut table: HandleTable<u32> = HandleTable::new();
    let id = table.add(5, "/a".to_string());
    *table.get_mut(id).unwrap() = 6;
    assert_eq!(table.get_mut(id), Some(&mut 6));
    assert_eq!(table.remove(id), Some((6, "/a".to_string())));
    assert_eq!(table.get_mut(id), None);
}

#[test]
fn unknown_ids_have_nothing() {
    let mut table: HandleTable<u32> = HandleTable::new();
    table.add(5, "/a".to_string());
    assert_eq!(table.get_mut(-1), None);
    assert_eq!(table.get_mut(1), None);
    assert_eq!(table.path(-1), None);
    assert_eq!(table.path(i32::MAX), None);
    assert_eq!(table.remove(-1), None);
    assert_eq!(table.remove(i32::MIN), None);
    assert_eq!(table.get_mut(0), Some(&mut 5));
}
