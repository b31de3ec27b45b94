use tempshare::errors::Error;
use tempshare::files::FileID;

#[test]
fn test_fid() {
    let mut fid: FileID;
    for _ in 0..1000 {
        fid = FileID::from(rand::random::<u64>());
        assert!(!fid.to_decimal_string().contains(" "))
    }
}

#[test]
fn renders_fixed_width() {
    assert_eq!(FileID::from(42u64).to_decimal_string(), "00000000000000000042");
    assert_eq!(FileID::from(0u64).to_decimal_string(), "00000000000000000000");
    assert_eq!(
        FileID::from(u64::MAX).to_decimal_string(),
        "18446744073709551615"
    );
}

#[test]
fn parses_decimal_strings() {
    assert_eq!(FileID::from_str("123").unwrap().inner(), 123);
    assert_eq!(FileID::from_str("00000000000000000042").unwrap().inner(), 42);
    assert_eq!(
        FileID::from_str("18446744073709551615").unwrap().inner(),
        u64::MAX
    );
}

#[test]
fn rejects_bad_identifier_strings() {
    assert!(matches!(FileID::from_str(""), Err(Error::BadFileID)));
    assert!(matches!(FileID::from_str("12a"), Err(Error::BadFileID)));
    assert!(matches!(FileID::from_str("-5"), Err(Error::BadFileID)));
    // one past u64::MAX
    assert!(matches!(
        FileID::from_str("18446744073709551616"),
        Err(Error::BadFileID)
    ));
}

#[test]
fn render_parse_round_trip() {
    for v in [0u64, 1, 9, 10, 4096, u64::MAX / 2, u64::MAX] {
        let fid = FileID::from(v);
        let parsed = FileID::from_str(&fid.to_decimal_string()).unwrap();
        assert_eq!(parsed.inner(), v);
    }
}
