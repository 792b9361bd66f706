use studio_project_manager::errors::VersionError;
use studio_project_manager::numbers::IntErrorKind;
use studio_project_manager::types::AbletonVersion;
use studio_project_manager::version::load_version;
use studio_project_manager::xml::XmlAttribute;

#[test]
fn test_extract_version() {
    let xml_data = br#"<?xml version="1.0" encoding="UTF-8"?>
        <Ableton MajorVersion="11" MinorVersion="0" SchemaChangeCount="3" Creator="Ableton Live 11.0.1" Revision="1b1951c0f4b3d5a5ad5d1ac69c3d9b5aa7a36dd8">"#;

    let version = load_version(xml_data).unwrap();
    assert_eq!(version.major, 11);
    assert_eq!(version.minor, 0);
    assert_eq!(version.patch, 1);
    assert_eq!(version.beta, false);
}

#[test]
fn test_extract_version_beta() {
    let xml_data = br#"<?xml version="1.0" encoding="UTF-8"?>
        <Ableton MajorVersion="11" MinorVersion="1" SchemaChangeCount="0" Creator="Ableton Live 11.1 Beta" Revision="1b1951c0f4b3d5a5ad5d1ac69c3d9b5aa7a36dd8">"#;

    let version = load_version(xml_data).unwrap();
    assert_eq!(version.major, 11);
    assert_eq!(version.minor, 1);
    assert_eq!(version.patch, 0);
    assert_eq!(version.beta, true);
}

#[test]
fn test_extract_version_invalid_xml() {
    let xml_data = b"<Invalid>XML</Invalid>";
    assert!(load_version(xml_data).is_err());
}

#[test]
fn wrong_root_tag_is_named_in_the_error() {
    match load_version(b"<Invalid>XML</Invalid>") {
        Err(VersionError::InvalidFileStructure(m)) => {
            assert_eq!(m, "First element is 'Invalid', expected 'Ableton'")
        }
        other => panic!("unexpected {:?}", other),
    }
}

#[test]
fn document_without_root_tag() {
    match load_version(b"<?xml version=\"1.0\"?>") {
        Err(VersionError::InvalidFileStructure(m)) => {
            assert_eq!(m, "Reached end of file without finding Ableton tag")
        }
        other => panic!("unexpected {:?}", other),
    }
}

#[test]
fn missing_major_version_is_missing_info() {
    let xml = br#"<Ableton MinorVersion="1" Creator="Ableton Live 11.1.2">"#;
    assert!(matches!(load_version(xml), Err(VersionError::MissingInfo)));
}

#[test]
fn non_numeric_minor_version_is_a_parse_error() {
    let xml = br#"<Ableton MajorVersion="11" MinorVersion="1x" Creator="Ableton Live 11.1.2">"#;
    assert!(matches!(
        load_version(xml),
        Err(VersionError::ParseError(IntErrorKind::InvalidDigit))
    ));
}

#[test]
fn creator_without_version_word_is_invalid_format() {
    let xml = br#"<Ableton MajorVersion="11" MinorVersion="1" Creator="Ableton Live">"#;
    assert!(matches!(load_version(xml), Err(VersionError::InvalidFormat)));
}

#[test]
fn later_attribute_replaces_earlier_one() {
    let attrs = vec![
        Some(XmlAttribute { key: b"MajorVersion".to_vec(), value: b"10".to_vec() }),
        Some(XmlAttribute { key: b"MinorVersion".to_vec(), value: b"2".to_vec() }),
        Some(XmlAttribute { key: b"Creator".to_vec(), value: b"Ableton Live 12.0.5 Beta".to_vec() }),
        Some(XmlAttribute { key: b"MajorVersion".to_vec(), value: b"12".to_vec() }),
    ];
    let v = AbletonVersion::from_attributes(&attrs).unwrap();
    assert_eq!((v.major, v.minor, v.patch, v.beta), (12, 2, 5, true));
}

#[test]
fn unreadable_attribute_is_attr_error() {
    let attrs = vec![None];
    assert!(matches!(AbletonVersion::from_attributes(&attrs), Err(VersionError::AttrError)));
}

#[test]
fn version_text() {
    let v = AbletonVersion { major: 11, minor: 3, patch: 13, beta: false };
    assert_eq!(v.to_string(), "Ableton 11.3.13");
}
