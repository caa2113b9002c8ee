use api_version::number::{encode_u64, U64_SIZE};
use api_version::status_code::IS_TOMBSTONE_BIT;
use api_version::{ApiV1, Key, KvFormat, RawValue, StatusCode, TRAILER_SIZE};

#[test]
fn api_v1_works() {
    let k = Key::from_raw(b"123");
    let a = k.as_raw();
    assert_eq!(a, b"123");

    let v = RawValue {
        user_value: &b"123"[..],
        ts: Some(1654045749000),
        status: StatusCode::from_user_status(123),
        tombstone: true,
    };

    let b = ApiV1::encode_raw_value(v);
    let v1 = ApiV1::decode_raw_value(&b);
    assert!(v1 != None);
    assert_eq!(v1.unwrap().user_value, b"123".to_vec());
    assert_eq!(v1.unwrap().ts, Some(1654045749000));
    assert_eq!(v1.unwrap().status.user_status(), 123u64.into());
    assert_eq!(v1.unwrap().tombstone, true);
    assert!(!v1.unwrap().is_valid());

    // Test Null Value

    let v = RawValue {
        user_value: vec![],
        ts: None,
        status: StatusCode::good(),
        tombstone: false,
    };

    let b = ApiV1::encode_raw_value_owned(v);
    assert_eq!(b, &[0, 0, 0, 0, 0, 0, 0, 0, 0, 0, 0, 0, 0, 0, 0, 0]);

    let v1 = ApiV1::decode_raw_value(&b);
    assert!(v1 != None);
    assert_eq!(v1.unwrap().user_value, b"".to_vec());
    assert_eq!(v1.unwrap().ts, Some(0));
    assert_eq!(v1.unwrap().status, 0u64.into());
    assert!(v1.unwrap().is_valid());
}

#[test]
fn empty_value_is_sixteen_zero_bytes() {
    let v = RawValue { user_value: &b""[..], ts: None, status: StatusCode::good(), tombstone: false };
    let b = ApiV1::encode_raw_value(v);
    assert_eq!(b, vec![0u8; 16]);
    assert_eq!(TRAILER_SIZE, 2 * U64_SIZE);
}

#[test]
fn wire_layout_is_payload_then_big_endian_trailer() {
    let v = RawValue {
        user_value: &b"ab"[..],
        ts: Some(0x0102_0304_0506_0708),
        status: StatusCode::from(0x1112_1314_1516_1718),
        tombstone: false,
    };
    let b = ApiV1::encode_raw_value(v);
    assert_eq!(
        b,
        vec![
            b'a', b'b', 1, 2, 3, 4, 5, 6, 7, 8, 0x11, 0x12, 0x13, 0x14, 0x15, 0x16, 0x17, 0x18
        ]
    );
}

#[test]
fn tombstone_is_folded_into_status() {
    let v = RawValue { user_value: &b"x"[..], ts: Some(5), status: StatusCode::from(7), tombstone: true };
    let b = ApiV1::encode_raw_value(v);
    let mut expected = b"x".to_vec();
    encode_u64(&mut expected, 5);
    encode_u64(&mut expected, 7 | IS_TOMBSTONE_BIT);
    assert_eq!(b, expected);
    let d = ApiV1::decode_raw_value(&b).unwrap();
    assert_eq!(d.status.bits(), 7 | IS_TOMBSTONE_BIT);
    assert!(d.tombstone);
}

#[test]
fn raw_value_round_trip_all_timestamps() {
    let payloads: [&[u8]; 3] = [b"", b"v", b"a longer payload \x00\xff"];
    let stamps = [None, Some(0u64), Some(u64::MAX), Some(1654045749000)];
    let statuses = [0u64, 1, 123, u64::MAX, 0x8000_0000_0000_0000, 0x0000_0000_ffff_ffff];
    for p in payloads {
        for ts in stamps {
            for s in statuses {
                for tomb in [false, true] {
                    let v = RawValue { user_value: p, ts, status: StatusCode::from(s), tombstone: tomb };
                    let b = ApiV1::encode_raw_value(v);
                    assert_eq!(b.len(), p.len() + 16);
                    let owned = RawValue { user_value: p.to_vec(), ts, status: StatusCode::from(s), tombstone: tomb };
                    assert_eq!(ApiV1::encode_raw_value_owned(owned), b);
                    let d = ApiV1::decode_raw_value(&b).unwrap();
                    assert_eq!(d.user_value, p);
                    assert_eq!(d.ts, Some(ts.unwrap_or(0)));
                    let folded = if tomb { s | IS_TOMBSTONE_BIT } else { s };
                    assert_eq!(d.status, StatusCode::from(folded));
                    assert_eq!(d.is_valid(), folded & IS_TOMBSTONE_BIT == 0);
                }
            }
        }
    }
}

#[test]
fn deletion_flag_decides_validity() {
    let with_flag = RawValue {
        user_value: &b"k"[..],
        ts: Some(9),
        status: StatusCode::tombstone(),
        tombstone: false,
    };
    let b = ApiV1::encode_raw_value(with_flag);
    let d = ApiV1::decode_raw_value(&b).unwrap();
    assert!(d.tombstone);
    assert!(!d.is_valid());

    let without = RawValue { user_value: &b"k"[..], ts: Some(9), status: StatusCode::error(), tombstone: false };
    let b = ApiV1::encode_raw_value(without);
    let d = ApiV1::decode_raw_value(&b).unwrap();
    assert!(!d.tombstone);
    assert!(d.is_valid());

    let mut b = vec![0u8; 8];
    encode_u64(&mut b, IS_TOMBSTONE_BIT);
    assert!(!ApiV1::decode_raw_value(&b).unwrap().is_valid());
}

#[test]
fn truncated_input_has_no_value() {
    let full: Vec<u8> = (1u8..=16).collect();
    for n in 0..16 {
        assert!(ApiV1::decode_raw_value(&full[..n]).is_none());
    }
    let zeros = [0u8; 15];
    for n in 0..=15 {
        assert!(ApiV1::decode_raw_value(&zeros[..n]).is_none());
    }
    assert!(ApiV1::decode_raw_value(&full).is_some());
}

#[test]
fn raw_keys_pass_through() {
    let k = ApiV1::encode_raw_key(b"key\x00\xff");
    assert_eq!(k.as_raw(), &b"key\x00\xff".to_vec());
    assert_eq!(ApiV1::decode_raw_key(&k), b"key\x00\xff".to_vec());
}

#[test]
fn hand_built_value_with_flag_is_not_valid() {
    let v = RawValue { user_value: &b"x"[..], ts: None, status: StatusCode::tombstone(), tombstone: false };
    assert!(!v.is_valid());
    let v = RawValue { user_value: &b"x"[..], ts: None, status: StatusCode::from(IS_TOMBSTONE_BIT | 3), tombstone: false };
    assert!(!v.is_valid());
    let v = RawValue { user_value: &b"x"[..], ts: None, status: StatusCode::good(), tombstone: true };
    assert!(!v.is_valid());
    let v = RawValue { user_value: &b"x"[..], ts: None, status: StatusCode::error(), tombstone: false };
    assert!(v.is_valid());
}
