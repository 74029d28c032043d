use asset_server::fingerprint::fingerprint;

#[test]
fn fingerprint_of_empty_bytes() {
    assert_eq!(fingerprint(b""), b"xnK40e9W7Sirh8NiLFEUBpvdOte4-XN0mNDAHs7wlno".to_vec());
}

#[test]
fn fingerprint_of_abc() {
    assert_eq!(fingerprint(b"abc"), b"UwSOJoGUHvmbLim3a0x9q-TC0MY0_G1G4OLxMQfnryM".to_vec());
}

#[test]
fn fingerprint_of_stylesheet() {
    assert_eq!(
        fingerprint(b"body { color: red; }"),
        b"l-uzDnHugp2SUaml6WW02-hIW7aYovxnJWmjUVjrVj4".to_vec()
    );
}

#[test]
fn fingerprint_is_deterministic() {
    let bytes: Vec<u8> = (0..=255u8).cycle().take(10_000).collect();
    let copy = bytes.clone();
    assert_eq!(fingerprint(&bytes), fingerprint(&copy));
    assert_eq!(fingerprint(&bytes), fingerprint(&bytes));
}

#[test]
fn fingerprint_differs_for_different_bytes() {
    assert_ne!(fingerprint(b"abc"), fingerprint(b"abd"));
}

#[test]
fn fingerprint_is_header_safe() {
    for input in [&b""[..], b"\xff\xfe\xfd", b"hello world", b"<html></html>"] {
        let f = fingerprint(input);
        assert_eq!(f.len(), 43);
        assert!(f.iter().all(|c| c.is_ascii_alphanumeric() || *c == b'-' || *c == b'_'));
        assert!(!f.contains(&b'='));
    }
}
