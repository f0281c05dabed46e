use xml::common::XmlVersion;
use xml::reader::XmlEvent;
use xml::util::ByteSource;
use xml::EventReader;

#[test]
fn accepted_xml_versions() {
    let accepted_versions_enum = [
        XmlVersion::Version10,
        XmlVersion::Version11,
        XmlVersion::Version1x("1.2".into()),
        XmlVersion::Version1x("1.7".into()),
        XmlVersion::Version1x("1.1075".into()),
        XmlVersion::Version1x("1.000".into()),
    ];

    for (i, version) in accepted_versions_enum.iter().enumerate() {
        let source = format!(r#"<?xml version="{version}"?>"#, version = version.as_str());

        let buf = ByteSource::from_str(&source);
        let reader = EventReader::new(buf);
        let mut it = reader.into_iter();

        assert!(matches!(it.next(), Some(Ok(XmlEvent::StartDocument { version: v, .. })) if v == accepted_versions_enum[i]));
    }
}

#[test]
fn rejected_xml_versions() {
    let rejected_versions = ["1", "1.", "2.0", "1.0.0", "10", "1.0-", "100", "17.0"];

    for version in rejected_versions {
        let source = format!(r#"<?xml version="{version}"?>"#, version = version);

        let buf = ByteSource::from_str(&source);
        let reader = EventReader::new(buf);
        let mut it = reader.into_iter();

        let text = match it.next() {
            Some(Err(e)) => e.to_debug_string(),
            other => format!("{:?}", other),
        };
        assert!(text.contains("Invalid XML version"));
    }
}

#[test]
fn only_two_versions_where_minor_versions_are_not_allowed() {
    let mut config = xml::ParserConfig::new();
    config.allow_any_minor_version = false;
    let mut reader = EventReader::new_with_config(ByteSource::from_str(r#"<?xml version="1.2"?><a/>"#), config);
    assert!(reader.next().unwrap_err().msg().contains("Invalid XML version: 1.2"));
    let mut config = xml::ParserConfig::new();
    config.allow_any_minor_version = false;
    let mut reader = EventReader::new_with_config(ByteSource::from_str(r#"<?xml version="1.1"?><a/>"#), config);
    assert!(matches!(reader.next(), Ok(XmlEvent::StartDocument { version: XmlVersion::Version11, .. })));
}
