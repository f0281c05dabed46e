use xml::reader::{ParserConfig, XmlEvent};
use xml::util::ByteSource;
use xml::EventReader;

/// Puts `data` over the bytes that have not been read yet, as a write at the
/// reading position of a cursor does.
fn write_and_reset_position(c: &mut ByteSource, data: &[u8]) {
    let unread = c.remaining();
    let mut kept = Vec::new();
    for i in data.len()..unread {
        kept.push(c.peek(i).unwrap());
    }
    c.skip(unread);
    c.feed(data);
    c.feed(&kept);
}

#[test]
fn reading_streamed_content() {
    let buf = ByteSource::new(b"<root>".to_vec());
    let reader = EventReader::new(buf);

    let mut it = reader.into_iter();

    assert!(matches!(it.next(), Some(Ok(XmlEvent::StartDocument { .. }))));
    assert!(matches!(it.next(), Some(Ok(XmlEvent::StartElement { ref name, .. })) if name.local_name == "root"));

    write_and_reset_position(it.source_mut(), b"<child-1>content</child-1>");
    assert!(matches!(it.next(), Some(Ok(XmlEvent::StartElement { ref name, .. })) if name.local_name == "child-1"));
    assert!(matches!(it.next(), Some(Ok(XmlEvent::Characters(ref c))) if c == "content"));
    assert!(matches!(it.next(), Some(Ok(XmlEvent::EndElement { ref name })) if name.local_name == "child-1"));

    write_and_reset_position(it.source_mut(), b"<child-2/>");
    assert!(matches!(it.next(), Some(Ok(XmlEvent::StartElement { ref name, .. })) if name.local_name == "child-2"));
    assert!(matches!(it.next(), Some(Ok(XmlEvent::EndElement { ref name })) if name.local_name == "child-2"));

    write_and_reset_position(it.source_mut(), b"<child-3/>");
    assert!(matches!(it.next(), Some(Ok(XmlEvent::StartElement { ref name, .. })) if name.local_name == "child-3"));
    assert!(matches!(it.next(), Some(Ok(XmlEvent::EndElement { ref name })) if name.local_name == "child-3"));

    write_and_reset_position(it.source_mut(), b"</root>");
    assert!(matches!(it.next(), Some(Ok(XmlEvent::EndElement { ref name })) if name.local_name == "root"));
    assert!(matches!(it.next(), Some(Ok(XmlEvent::EndDocument))));
    assert!(matches!(it.next(), None));
}

#[test]
fn reading_streamed_content2() {
    let buf = ByteSource::new(b"<root>".to_vec());
    let mut config = ParserConfig::new();
    config.ignore_end_of_stream = true;
    let readerb = EventReader::new_with_config(buf, config);

    let mut reader = readerb.into_iter();

    assert!(matches!(reader.next(), Some(Ok(XmlEvent::StartDocument { .. }))));
    assert!(matches!(reader.next(), Some(Ok(XmlEvent::StartElement { ref name, .. })) if name.local_name == "root"));

    write_and_reset_position(reader.source_mut(), b"<child-1>content</child-1>");
    assert!(matches!(reader.next(), Some(Ok(XmlEvent::StartElement { ref name, .. })) if name.local_name == "child-1"));
    assert!(matches!(reader.next(), Some(Ok(XmlEvent::Characters(ref c))) if c == "content"));
    assert!(matches!(reader.next(), Some(Ok(XmlEvent::EndElement { ref name })) if name.local_name == "child-1"));

    write_and_reset_position(reader.source_mut(), b"<child-2>content</child-2>");

    assert!(matches!(reader.next(), Some(Ok(XmlEvent::StartElement { ref name, .. })) if name.local_name == "child-2"));
    assert!(matches!(reader.next(), Some(Ok(XmlEvent::Characters(ref c))) if c == "content"));
    assert!(matches!(reader.next(), Some(Ok(XmlEvent::EndElement { ref name })) if name.local_name == "child-2"));
    assert!(matches!(reader.next(), Some(Err(_))));
    write_and_reset_position(reader.source_mut(), b"<child-3></child-3>");
    assert!(matches!(reader.next(), Some(Ok(XmlEvent::StartElement { ref name, .. })) if name.local_name == "child-3"));
    write_and_reset_position(reader.source_mut(), b"<child-4 type='get'");
    match reader.next() {
        None | Some(Ok(_)) => {
            panic!("At this point, parser must not detect something.");
        },
        Some(Err(_)) => {},
    }
    write_and_reset_position(reader.source_mut(), b" />");
    assert!(matches!(reader.next(), Some(Ok(XmlEvent::StartElement { ref name, .. })) if name.local_name == "child-4"));
}

#[test]
fn stylesheet_pi_escaping() {
    let source = r#"<?xml version="1.0" standalone="no"?>
        <!DOCTYPE svg PUBLIC "-//W3C//DTD SVG 1.0//EN"
        "http://www.w3.org/TR/2001/REC-SVG-20010904/DTD/svg10.dtd">
        <?xml-stylesheet type="text/css" href="../resources/test.css" ?>
        <root>
        &custom;
        </root>
        "#;

    let buf = ByteSource::from_str(source);
    let reader = EventReader::new(buf);

    let mut it = reader.into_iter();

    assert!(matches!(it.next(), Some(Ok(XmlEvent::StartDocument { .. }))));
    assert!(matches!(it.next(), Some(Ok(XmlEvent::Doctype { .. }))));
    it.add_entities(&[("custom", "okay")]).unwrap();
    let pi = it.next();
    assert!(
        matches!(pi, Some(Ok(XmlEvent::ProcessingInstruction { ref name, ref data })) if name == "xml-stylesheet" && data.as_deref() == Some(r#"type="text/css" href="../resources/test.css" "#)),
        "{pi:#?}"
    );
    assert!(matches!(it.next(), Some(Ok(XmlEvent::StartElement { .. }))));
    assert!(it.add_entities(&[("too", "late")]).is_err());
    assert!(matches!(it.next(), Some(Ok(XmlEvent::Characters(c))) if c.trim() == "okay"));
}

#[test]
fn unicode_attribute() {
    let source = r#"<xml xmlns:â="_"><b:t â:a="_" xmlns:b="_"/></xml>"#;

    let buf = ByteSource::from_str(source);
    let reader = EventReader::new(buf);

    let mut it = reader.into_iter();

    assert!(matches!(it.next(), Some(Ok(XmlEvent::StartDocument { .. }))));
    assert!(matches!(it.next(), Some(Ok(XmlEvent::StartElement { name, attributes: _, namespace: _ })) if name.local_name == "xml"));
    assert!(matches!(it.next(), Some(Ok(XmlEvent::StartElement { name, attributes, namespace: _ }))
        if name.prefix == Some(String::from("b"))
        && name.local_name == "t"
        && attributes[0].name.prefix == Some(String::from("â"))
        && attributes[0].name.local_name == "a"));
    assert!(matches!(it.next(), Some(Ok(XmlEvent::EndElement { ref name }))
        if name.prefix == Some(String::from("b"))
        && name.local_name == "t"));
    assert!(matches!(it.next(), Some(Ok(XmlEvent::EndElement { ref name }))
        if name.local_name == "xml"));
}

fn debug_text(polled: Option<Result<XmlEvent, xml::reader::Error>>) -> String {
    match polled {
        Some(Err(e)) => format!("Some(Err({}))", e.to_debug_string()),
        other => format!("{:?}", other),
    }
}

#[test]
fn no_double_colon_in_tag_name() {
    let source = r#"<root::element/>"#;
    let buf = ByteSource::from_str(source);
    let reader = EventReader::new(buf);
    let mut it = reader.into_iter();

    assert!(matches!(it.next(), Some(Ok(XmlEvent::StartDocument { .. }))));
    assert!(debug_text(it.next()).contains("pos: 1:7, kind: Syntax(\"Unexpected token inside qualified name: :\")"));
}

#[test]
fn no_double_prefix() {
    let source = r#"<root><a:b:c/></root>"#;
    let buf = ByteSource::from_str(source);
    let reader = EventReader::new(buf);
    let mut it = reader.into_iter();

    assert!(matches!(it.next(), Some(Ok(XmlEvent::StartDocument { .. }))));
    assert!(matches!(it.next(), Some(Ok(XmlEvent::StartElement { ref name, .. })) if name.local_name == "root"));
    assert!(debug_text(it.next()).contains("pos: 1:11, kind: Syntax(\"Unexpected token inside qualified name: :\")"));
}

#[test]
fn no_double_colon_in_attr_name() {
    let source = r#"<root a::c="_"/>"#;
    let buf = ByteSource::from_str(source);
    let reader = EventReader::new(buf);
    let mut it = reader.into_iter();

    assert!(matches!(it.next(), Some(Ok(XmlEvent::StartDocument { .. }))));
    assert!(debug_text(it.next()).contains("pos: 1:9, kind: Syntax(\"Unexpected token inside qualified name: :\")"));
}

#[test]
fn doctype_public_sytem() {
    let source = r#"<!DOCTYPE svg PUBLIC "-//W3C//DTD SVG 1.1//EN" "http://www.w3.org/Graphics/SVG/1.1/DTD/svg11.dtd">"#;
    let buf = ByteSource::from_str(source);
    let reader = EventReader::new(buf);
    let mut it = reader.into_iter();

    assert!(matches!(it.next(), Some(Ok(XmlEvent::StartDocument { .. }))));
    assert!(matches!(it.next(), Some(Ok(XmlEvent::Doctype { name, syntax: _, public_id, system_id }))
      if name == "svg" &&
      public_id == Some(String::from("-//W3C//DTD SVG 1.1//EN")) &&
      system_id == Some(String::from("http://www.w3.org/Graphics/SVG/1.1/DTD/svg11.dtd"))));
}

#[test]
fn doctype_system_only() {
    let source = r#"<!DOCTYPE svg SYSTEM "http://www.w3.org/Graphics/SVG/1.1/DTD/svg11.dtd">"#;
    let buf = ByteSource::from_str(source);
    let reader = EventReader::new(buf);
    let mut it = reader.into_iter();

    assert!(matches!(it.next(), Some(Ok(XmlEvent::StartDocument { .. }))));
    assert!(matches!(it.next(), Some(Ok(XmlEvent::Doctype { name, syntax: _, public_id, system_id }))
      if name == "svg" &&
      public_id == None &&
      system_id == Some(String::from("http://www.w3.org/Graphics/SVG/1.1/DTD/svg11.dtd"))));
}

#[test]
fn doctype_name_only_with_space() {
    let source = r#"<!DOCTYPE svg >"#;
    let buf = ByteSource::from_str(source);
    let reader = EventReader::new(buf);
    let mut it = reader.into_iter();

    assert!(matches!(it.next(), Some(Ok(XmlEvent::StartDocument { .. }))));
    assert!(matches!(it.next(), Some(Ok(XmlEvent::Doctype { name, syntax: _, public_id, system_id }))
      if name == "svg" &&
      public_id.is_none() &&
      system_id.is_none()));
}

#[test]
fn doctype_name_only_name_closing_tag() {
    let source = r#"<!DOCTYPE svg>"#;
    let buf = ByteSource::from_str(source);
    let reader = EventReader::new(buf);
    let mut it = reader.into_iter();

    assert!(matches!(it.next(), Some(Ok(XmlEvent::StartDocument { .. }))));
    assert!(matches!(it.next(), Some(Ok(XmlEvent::Doctype { name, syntax: _, public_id, system_id }))
      if name == "svg" &&
      public_id.is_none() &&
      system_id.is_none()));
}
