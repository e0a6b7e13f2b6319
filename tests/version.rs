use dream::{Error, Version, MAX_VERSION_NUMBER};

#[test]
fn encode_v000() {
    let version = Version::from(0);
    let bytes = version.as_bytes();
    assert_eq!(&bytes, b"000");
}

#[test]
fn encode_v001() {
    let version = Version::from(1);
    let bytes = version.as_bytes();
    assert_eq!(&bytes, b"001");
}

#[test]
#[allow(non_snake_case)]
fn encode_v00A() {
    let version = Version::from(10);
    let bytes = version.as_bytes();
    assert_eq!(&bytes, b"00A");
}

#[test]
fn encode_max() {
    let version = Version::from(MAX_VERSION_NUMBER);
    let bytes = version.as_bytes();
    assert_eq!(&bytes, b"///");
}

#[test]
fn version_round_trip_samples() {
    for n in [0u32, 1, 10, 63, 64, 87, 4095, 4096, 100000, MAX_VERSION_NUMBER] {
        let v = Version::from(n);
        assert_eq!(Version::parse(&v.as_bytes()).map(|p| p.as_u32()), Ok(n));
    }
    assert_eq!(Version::from(64 * 64 + 64 + 1).as_bytes(), *b"111");
    assert_eq!(Version::from(62).as_bytes(), *b"00+");
}

#[test]
fn version_bounds() {
    assert_eq!(MAX_VERSION_NUMBER, 64 * 64 * 64 - 1);
    assert!(Version::try_from(MAX_VERSION_NUMBER).is_ok());
    assert_eq!(Version::try_from(MAX_VERSION_NUMBER + 1), Err(Error::VersionOutOfBounds));
}

#[test]
fn version_parse_rejects() {
    assert_eq!(Version::parse(b"00"), Err(Error::VersionFromStrError));
    assert_eq!(Version::parse(b"0000"), Err(Error::VersionFromStrError));
    assert_eq!(Version::parse(b"0-0"), Err(Error::VersionFromStrError));
    assert_eq!(Version::parse(b"0\xff0"), Err(Error::VersionFromStrError));
    assert_eq!(Version::parse(b"zzz").map(|v| v.as_u32()), Ok(61 * 4096 + 61 * 64 + 61));
}
