use xml::writer::EmitterConfig;
use xml::writer::XmlEvent;

#[test]
fn writing_simple() {
    let mut w = EmitterConfig::new().write_document_declaration(false).create_writer();
    w.write(XmlEvent::start_element("h:hello").ns("h", "urn:hello-world")).unwrap();
    w.write("hello world").unwrap();
    w.write(XmlEvent::end_element()).unwrap();

    assert_eq!(
        &w.into_inner(),
        r#"<h:hello xmlns:h="urn:hello-world">hello world</h:hello>"#
    );
}

#[test]
fn writing_empty_elements_with_normalizing() {
    let mut w = EmitterConfig::new().write_document_declaration(false).create_writer();

    w.write(XmlEvent::start_element("hello")).unwrap();
    w.write(XmlEvent::start_element("world")).unwrap();
    w.write(XmlEvent::end_element()).unwrap();
    w.write(XmlEvent::end_element()).unwrap();

    assert_eq!(&w.into_inner(), r#"<hello><world /></hello>"#);
}

#[test]
fn writing_empty_elements_without_normalizing() {
    let mut w = EmitterConfig::new()
        .write_document_declaration(false)
        .normalize_empty_elements(false)
        .create_writer();
    w.write(XmlEvent::start_element("hello")).unwrap();
    w.write(XmlEvent::start_element("world")).unwrap();
    w.write(XmlEvent::end_element()).unwrap();
    w.write(XmlEvent::end_element()).unwrap();

    assert_eq!(&w.into_inner(), r#"<hello><world></world></hello>"#);
}

#[test]
fn writing_empty_elements_without_pad_self_closing() {
    let mut w = EmitterConfig::new()
        .write_document_declaration(false)
        .pad_self_closing(false)
        .create_writer();
    w.write(XmlEvent::start_element("hello")).unwrap();
    w.write(XmlEvent::start_element("world")).unwrap();
    w.write(XmlEvent::end_element()).unwrap();
    w.write(XmlEvent::end_element()).unwrap();

    assert_eq!(&w.into_inner(), r#"<hello><world/></hello>"#);
}

#[test]
fn writing_empty_elements_pad_self_closing_explicit() {
    let mut w = EmitterConfig::new()
        .write_document_declaration(false)
        .pad_self_closing(true)
        .create_writer();
    w.write(XmlEvent::start_element("hello")).unwrap();
    w.write(XmlEvent::start_element("world")).unwrap();
    w.write(XmlEvent::end_element()).unwrap();
    w.write(XmlEvent::end_element()).unwrap();

    assert_eq!(&w.into_inner(), r#"<hello><world /></hello>"#);
}

#[test]
fn writing_comments_with_indentation() {
    let mut w = EmitterConfig::new()
        .write_document_declaration(false)
        .perform_indent(true)
        .create_writer();
    w.write(XmlEvent::start_element("hello")).unwrap();
    w.write(XmlEvent::start_element("world")).unwrap();
    w.write(XmlEvent::comment("  this is a manually padded comment\t")).unwrap();
    w.write(XmlEvent::comment("this is an unpadded comment")).unwrap();
    w.write(XmlEvent::end_element()).unwrap();
    w.write(XmlEvent::end_element()).unwrap();

    assert_eq!(
        &w.into_inner(),
        "<hello>
  <world>
    <!--  this is a manually padded comment\t-->
    <!-- this is an unpadded comment -->
  </world>
</hello>"
    );
}

#[test]
fn issue_112_overriding_namepace_prefix() {
    let mut w = EmitterConfig::new()
        .write_document_declaration(false)
        .create_writer();
    w.write(XmlEvent::start_element("iq").ns("", "jabber:client").ns("a", "urn:A")).unwrap();
    w.write(XmlEvent::start_element("bind").ns("", "urn:ietf:params:xml:ns:xmpp-bind")).unwrap();
    w.write(XmlEvent::end_element()).unwrap();
    w.write(XmlEvent::start_element("whatever").ns("a", "urn:X")).unwrap();
    w.write(XmlEvent::end_element()).unwrap();
    w.write(XmlEvent::end_element()).unwrap();

    assert_eq!(
        &w.into_inner(),
        r#"<iq xmlns="jabber:client" xmlns:a="urn:A"><bind xmlns="urn:ietf:params:xml:ns:xmpp-bind" /><whatever xmlns:a="urn:X" /></iq>"#
    );
}

#[test]
fn attribute_escaping() {
    let mut w = EmitterConfig::new()
        .write_document_declaration(false)
        .perform_indent(true)
        .create_writer();
    w.write(
        XmlEvent::start_element("hello")
            .attr("testLt", "<")
            .attr("testGt", ">")
    ).unwrap();
    w.write(XmlEvent::end_element()).unwrap();
    w.write(
        XmlEvent::start_element("hello")
            .attr("testQuot", "\"")
            .attr("testApos", "\'")
    ).unwrap();
    w.write(XmlEvent::end_element()).unwrap();
    w.write(
        XmlEvent::start_element("hello")
            .attr("testAmp", "&")
    ).unwrap();
    w.write(XmlEvent::end_element()).unwrap();
    w.write(
        XmlEvent::start_element("hello")
            .attr("testNl", "\n")
            .attr("testCr", "\r")
    ).unwrap();
    w.write(XmlEvent::end_element()).unwrap();
    w.write(
        XmlEvent::start_element("hello")
            .attr("testNl", "\\n")
            .attr("testCr", "\\r")
    ).unwrap();
    w.write(XmlEvent::end_element()).unwrap();

    assert_eq!(
        &w.into_inner(),
        "<hello testLt=\"&lt;\" testGt=\"&gt;\" />
<hello testQuot=\"&quot;\" testApos=\"&apos;\" />
<hello testAmp=\"&amp;\" />
<hello testNl=\"&#xA;\" testCr=\"&#xD;\" />
<hello testNl=\"\\n\" testCr=\"\\r\" />"
    );
}
