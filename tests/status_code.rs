use api_version::status_code::{SYSTEM_STATUS_BITS, USER_STATUS_BITS};
use api_version::StatusCode;

#[test]
fn status_code() {
    let s = StatusCode::default();
    assert_eq!(s, StatusCode::good());
    assert!(s.is_good());

    let s = StatusCode::error();
    assert!(s.is_bad());

    let s: StatusCode = StatusCode::uncertain();
    assert!(s.is_uncertain())
}

#[test]
fn status_transform() {
    let s = StatusCode::default();
    assert!(s.is_empty());

    let s = StatusCode::from(64);
    let code: u64 = s.into();
    assert_eq!(code, 64);

    let s: StatusCode = 64u64.into();
    assert_eq!(s.system_status(), StatusCode::good());
    let code: u64 = s.into();
    assert_eq!(code, 64);
}

#[test]
fn segments_partition_every_register() {
    let samples = [0u64, 1, 64, u64::MAX, 0x8000_0000_0000_0000, 0x1234_5678_9abc_def0, 0xffff_ffff, 0xffff_ffff_0000_0000];
    for x in samples {
        let s = StatusCode::from(x);
        let u = s.user_status().bits();
        let y = s.system_status().bits();
        assert_eq!(u | y, x);
        assert_eq!(u & y, 0);
    }
    assert_eq!(StatusCode::user_status_mask().bits() | StatusCode::system_status_mask().bits(), u64::MAX);
    assert_eq!(USER_STATUS_BITS & SYSTEM_STATUS_BITS, 0);
    assert_eq!(StatusCode::from(0x1234_5678_9abc_def0).user_status().bits(), 0x9abc_def0);
    assert_eq!(StatusCode::from(0x1234_5678_9abc_def0).system_status().bits(), 0x1234_5678_0000_0000);
}

#[test]
fn integer_view_hides_system_bits() {
    let s = StatusCode::from(0xC000_0000_0000_0042);
    let code: u64 = s.into();
    assert_eq!(code, 0x42);
    assert_eq!(StatusCode::from_user_status(0xC000_0000_0000_0042).bits(), 0x42);
}

#[test]
fn clear_keeps_system_flags() {
    let mut s = StatusCode::from(0x8000_0000_0000_0123);
    s.clear();
    assert_eq!(s.bits(), 0x8000_0000_0000_0000);
    assert!(s.is_bad());
}

#[test]
fn flags_and_insert() {
    let mut s = StatusCode::from_user_status(5);
    assert!(s.is_good());
    assert!(!s.is_tombstone());
    s.insert(StatusCode::uncertain());
    assert!(s.is_uncertain());
    assert!(!s.is_good());
    assert!(!s.is_bad());
    s.insert(StatusCode::tombstone());
    assert!(s.is_tombstone());
    assert!(s.contains(StatusCode::uncertain()));
    assert!(!s.contains(StatusCode::error()));
    assert_eq!(s.bits(), 0x6000_0000_0000_0005);
    assert!(!StatusCode::from(1).is_empty());
    assert_eq!(StatusCode::from_bits(77), StatusCode::from(77));
}

#[test]
fn text_form_shows_both_segments_in_hex() {
    assert_eq!(StatusCode::from(64).to_string(), "0x0 0x40");
    assert_eq!(StatusCode::good().to_string(), "0x0 0x0");
    assert_eq!(
        StatusCode::from(0x8000_0000_0000_00AB).to_string(),
        "0x8000000000000000 0xAB"
    );
    assert_eq!(StatusCode::from(u64::MAX).to_string(), "0xFFFFFFFF00000000 0xFFFFFFFF");
}

#[test]
fn bitwise_operations() {
    let a = StatusCode::from(0xF0F0);
    let b = StatusCode::from(0x0FF0);
    assert_eq!(a.bitand(b).bits(), 0x00F0);
    assert_eq!(a.bitor(b).bits(), 0xFFF0);
    assert_eq!(a.not().bits(), !0xF0F0u64);
    let mut s = StatusCode::from(0xC000_0000_0000_0007);
    s.remove(StatusCode::error());
    assert_eq!(s.bits(), 0x4000_0000_0000_0007);
    s.remove(StatusCode::from(0x5));
    assert_eq!(s.bits(), 0x4000_0000_0000_0002);
}
