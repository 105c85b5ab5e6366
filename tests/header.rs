use src_to_class::decimal::to_decimal;
use src_to_class::header::{decode_header, HeaderError, JavaClassVersion};

fn label(major: u16) -> String {
    JavaClassVersion { major, minor: 0 }.to_jdk_version()
}

#[test]
fn decodes_jdk8_header() {
    let bytes = [0xCA, 0xFE, 0xBA, 0xBE, 0x00, 0x00, 0x00, 0x34];
    let v = decode_header(&bytes).unwrap();
    assert_eq!(v, JavaClassVersion { major: 52, minor: 0 });
    assert_eq!(v.to_jdk_version(), "JDK 8");
}

#[test]
fn decodes_longer_file_and_minor_version() {
    let bytes = [0xCA, 0xFE, 0xBA, 0xBE, 0x01, 0x02, 0x00, 0x37, 0x00, 0x10];
    let v = decode_header(&bytes).unwrap();
    assert_eq!(v, JavaClassVersion { major: 55, minor: 258 });
}

#[test]
fn wrong_magic_is_rejected() {
    let bytes = [0xCA, 0xFE, 0xBA, 0xBF, 0x00, 0x00, 0x00, 0x34];
    assert_eq!(decode_header(&bytes), Err(HeaderError::InvalidMagicNumber));
}

#[test]
fn short_file_is_malformed() {
    assert_eq!(decode_header(&[0xCA, 0xFE, 0xBA, 0xBE, 0x00, 0x00, 0x00]), Err(HeaderError::MalformedArtifact));
    assert_eq!(decode_header(&[]), Err(HeaderError::MalformedArtifact));
    assert_eq!(decode_header(&[0x00, 0x01]), Err(HeaderError::MalformedArtifact));
}

#[test]
fn known_labels() {
    assert_eq!(label(45), "JDK 1.1");
    assert_eq!(label(48), "JDK 1.4");
    assert_eq!(label(49), "JDK 5");
    assert_eq!(label(53), "JDK 9");
    assert_eq!(label(55), "JDK 11");
    assert_eq!(label(61), "JDK 17");
    assert_eq!(label(65), "JDK 21");
}

#[test]
fn unknown_label_carries_number() {
    let l = label(999);
    assert_eq!(l, "unknown JDK version (major: 999)");
    assert!(l.contains("999"));
    for m in 45..=65u16 {
        assert_ne!(l, label(m));
    }
    assert_eq!(label(44), "unknown JDK version (major: 44)");
    assert_eq!(label(66), "unknown JDK version (major: 66)");
    assert_eq!(label(0), "unknown JDK version (major: 0)");
}

#[test]
fn decimal_notation() {
    assert_eq!(to_decimal(0), "0");
    assert_eq!(to_decimal(7), "7");
    assert_eq!(to_decimal(10), "10");
    assert_eq!(to_decimal(65535), "65535");
    assert_eq!(to_decimal(u64::MAX), "18446744073709551615");
}
