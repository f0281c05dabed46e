use xml::attribute::Attribute;
use xml::common::XmlVersion;
use xml::name::Name;
use xml::writer::emitter::Emitter;
use xml::writer::{EmitterConfig, EmitterError, XmlEvent};

#[test]
fn document_declaration() {
    let mut w = EmitterConfig::new().create_writer();
    w.write(XmlEvent::StartDocument { version: XmlVersion::Version11, encoding: None, standalone: Some(true) })
        .unwrap();
    assert_eq!(r#"<?xml version="1.1" encoding="UTF-8" standalone="yes"?>"#, w.inner_ref());
    let again = w.write(XmlEvent::StartDocument {
        version: XmlVersion::Version10,
        encoding: Some("latin1"),
        standalone: Some(false),
    });
    assert_eq!(Err(EmitterError::DocumentStartAlreadyEmitted), again);
    assert_eq!(r#"<?xml version="1.1" encoding="UTF-8" standalone="yes"?>"#, w.inner_ref());
}

#[test]
fn default_declaration_comes_first() {
    let mut w = EmitterConfig::new().create_writer();
    w.write(XmlEvent::processing_instruction("pi", Some("x y"))).unwrap();
    w.write(XmlEvent::processing_instruction("empty", None)).unwrap();
    w.write(XmlEvent::start_element("a")).unwrap();
    w.write(XmlEvent::characters("1 < 2 & 3 > 2\r")).unwrap();
    w.write(XmlEvent::raw_characters("<raw/>")).unwrap();
    w.write(XmlEvent::end_element().name("a")).unwrap();
    assert_eq!(
        "<?xml version=\"1.0\" encoding=\"UTF-8\"?><?pi x y?><?empty?><a>1 &lt; 2 &amp; 3 &gt; 2&#xD;<raw/></a>",
        w.into_inner()
    );
}

#[test]
fn end_element_errors() {
    let mut w = EmitterConfig::new().write_document_declaration(false).create_writer();
    assert_eq!(Err(EmitterError::LastElementNameNotAvailable), w.write(XmlEvent::end_element()));
    w.write(XmlEvent::start_element("a")).unwrap();
    assert_eq!(
        Err(EmitterError::EndElementNameIsNotEqualToLastStartElementName),
        w.write(XmlEvent::end_element().name("b"))
    );

    let mut w = EmitterConfig::new().write_document_declaration(false).keep_element_names_stack(false).create_writer();
    w.write(XmlEvent::start_element("a")).unwrap();
    assert_eq!(Err(EmitterError::EndElementNameIsNotSpecified), w.write(XmlEvent::end_element()));
    w.write(XmlEvent::end_element().name("a")).unwrap();
    assert_eq!("<a />", w.into_inner());
}

#[test]
fn escaping_can_be_switched_off() {
    let mut w = EmitterConfig::new().write_document_declaration(false).perform_escaping(false).create_writer();
    w.write(XmlEvent::start_element("a").attr("k", "<&>")).unwrap();
    w.write(XmlEvent::characters("<&>")).unwrap();
    w.write(XmlEvent::end_element()).unwrap();
    assert_eq!("<a k=\"<&>\"><&></a>", w.into_inner());
}

#[test]
fn cdata_as_characters() {
    let mut w = EmitterConfig::new().write_document_declaration(false).cdata_to_characters(true).create_writer();
    w.write(XmlEvent::start_element("a")).unwrap();
    w.write(XmlEvent::cdata("x < y")).unwrap();
    w.write(XmlEvent::end_element()).unwrap();
    assert_eq!("<a>x &lt; y</a>", w.into_inner());
}

#[test]
fn reserved_prefixes_and_empty_default_are_not_declared() {
    let mut w = EmitterConfig::new().write_document_declaration(false).create_writer();
    w.write(
        XmlEvent::start_element("a")
            .ns("xml", "http://www.w3.org/XML/1998/namespace")
            .ns("xmlns", "http://www.w3.org/2000/xmlns/")
            .default_ns("")
            .ns("p", "urn:p"),
    )
    .unwrap();
    w.write(XmlEvent::end_element()).unwrap();
    assert_eq!(r#"<a xmlns:p="urn:p" />"#, w.into_inner());
}

#[test]
fn text_stops_indentation_until_markup_follows() {
    let mut w = EmitterConfig::new()
        .write_document_declaration(false)
        .perform_indent(true)
        .indent_string("\t")
        .line_separator("\r\n")
        .create_writer();
    w.write(XmlEvent::start_element("a")).unwrap();
    w.write(XmlEvent::start_element("b")).unwrap();
    w.write(XmlEvent::characters("t")).unwrap();
    w.write(XmlEvent::start_element("c")).unwrap();
    w.write(XmlEvent::end_element()).unwrap();
    w.write(XmlEvent::end_element()).unwrap();
    w.write(XmlEvent::start_element("d")).unwrap();
    w.write(XmlEvent::end_element()).unwrap();
    w.write(XmlEvent::end_element()).unwrap();
    assert_eq!("<a>\r\n\t<b>t<c />\r\n\t</b>\r\n\t<d />\r\n</a>", w.into_inner());
}

#[test]
fn emitter_on_its_own() {
    let mut emitter = Emitter::new(EmitterConfig::new().write_document_declaration(false));
    let mut out = String::new();
    emitter.namespace_stack_mut().push_empty();
    emitter.namespace_stack_mut().put("p", "urn:p");
    let attributes = [Attribute::new(Name::local("k"), "a\tb\nc")];
    emitter.emit_start_element(&mut out, Name::prefixed("e", "p"), &attributes).unwrap();
    emitter.emit_attributes(&mut out, &attributes).unwrap();
    emitter.emit_current_namespace_attributes(&mut out).unwrap();
    emitter.emit_comment(&mut out, "").unwrap();
    emitter.emit_end_element(&mut out, None).unwrap();
    assert_eq!(
        "<p:e xmlns:p=\"urn:p\" k=\"a&#x9;b&#xA;c\" k=\"a&#x9;b&#xA;c\" xmlns:p=\"urn:p\"><!--  --></p:e>",
        out
    );
}

#[test]
fn the_declaration_comes_before_a_comment_and_before_cdata() {
    let mut emitter = Emitter::new(EmitterConfig::new().autopad_comments(false));
    let mut out = String::new();
    assert_eq!(Ok(()), emitter.emit_comment(&mut out, "c"));
    assert_eq!("<?xml version=\"1.0\" encoding=\"UTF-8\"?><!--c-->", out);
    assert_eq!(Ok(()), emitter.emit_comment(&mut out, "d"));
    assert_eq!("<?xml version=\"1.0\" encoding=\"UTF-8\"?><!--c--><!--d-->", out);

    let mut emitter = Emitter::new(EmitterConfig::new());
    let mut out = String::new();
    assert_eq!(Ok(()), emitter.emit_cdata(&mut out, "x"));
    assert_eq!("<?xml version=\"1.0\" encoding=\"UTF-8\"?><![CDATA[x]]>", out);

    let mut emitter = Emitter::new(EmitterConfig::new().write_document_declaration(false));
    let mut out = String::new();
    emitter.emit_comment(&mut out, "\u{A0}c").unwrap();
    assert_eq!("<!-- \u{A0}c -->", out);
}
