use asset_server::assets::{AssetEntry, AssetTable};

#[test]
fn round_trip_gives_identical_bytes() {
    let bundle: Vec<(Vec<u8>, Vec<u8>)> = vec![
        (b"pages/index.html".to_vec(), b"<html><body>x</body></html>".to_vec()),
        (b"static/style.css".to_vec(), b"h1 { margin: 0 }".to_vec()),
        (b"static/favicon.ico".to_vec(), (0..=255u8).collect()),
        (b"static/resume.pdf".to_vec(), Vec::new()),
    ];
    let entries: Vec<AssetEntry> = bundle
        .iter()
        .map(|(n, c)| AssetEntry { name: n.clone(), content: c.clone() })
        .collect();
    let table = AssetTable::from_entries(&entries).unwrap();
    for (name, content) in &bundle {
        assert_eq!(table.get(name), Some(content));
    }
    assert_eq!(table.get(b"static/other.css"), None);
}

#[test]
fn duplicate_names_are_refused() {
    let entries = vec![
        AssetEntry { name: b"a".to_vec(), content: b"1".to_vec() },
        AssetEntry { name: b"b".to_vec(), content: b"2".to_vec() },
        AssetEntry { name: b"a".to_vec(), content: b"3".to_vec() },
    ];
    assert!(AssetTable::from_entries(&entries).is_none());
}

#[test]
fn insert_keeps_first_asset_of_a_name() {
    let mut table = AssetTable::new();
    assert!(table.insert(b"a", b"1".to_vec()));
    assert!(!table.insert(b"a", b"2".to_vec()));
    assert_eq!(table.get(b"a"), Some(&b"1".to_vec()));
}

#[test]
fn empty_table_has_nothing() {
    let table = AssetTable::new();
    assert_eq!(table.get(b""), None);
    assert_eq!(table.get(b"pages/index.html"), None);
}
