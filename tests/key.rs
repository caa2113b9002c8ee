use api_version::Key;

#[test]
fn key_works() {
    let result = b"";
    assert_eq!(Key::from_raw(result).into_raw(), b"");
    assert_eq!(Key::from_raw(b"a").into_raw(), b"a");
}

#[test]
fn keys_order_byte_wise() {
    assert!(Key::from_raw(b"a") < Key::from_raw(b"b"));
    assert!(Key::from_raw(b"a") < Key::from_raw(b"ab"));
    assert_eq!(Key::from_raw(b"xy"), Key::from_raw(b"xy"));
    assert_eq!(Key::from_raw(b"xy").as_raw(), &vec![b'x', b'y']);
}
