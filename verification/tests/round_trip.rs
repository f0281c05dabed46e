use xml::reader::{ParserConfig, XmlEvent};
use xml::util::ByteSource;
use xml::writer::{EmitterConfig, XmlEvent as Out};
use xml::{EventReader, EventWriter};

fn read(source: &str, config: ParserConfig) -> Vec<XmlEvent> {
    let mut it = EventReader::new_with_config(ByteSource::from_str(source), config).into_iter();
    let mut out = Vec::new();
    while let Some(e) = it.next() {
        out.push(e.unwrap());
    }
    out
}

fn write(events: &[XmlEvent], config: EmitterConfig) -> String {
    let mut w: EventWriter = config.create_writer();
    for e in events {
        if let Some(out) = e.as_writer_event() {
            w.write(out).unwrap();
        }
    }
    w.into_inner()
}

#[test]
fn reading_what_was_written_gives_the_same_events() {
    let source = r#"<?xml version="1.0" encoding="UTF-8"?><!DOCTYPE r><r xmlns="urn:d" xmlns:p="urn:p" a="1 &lt; 2"><p:e p:k="&quot;v&quot;">text &amp; more<!-- note --><?pi data?></p:e><p:e/><![CDATA[a < b]]></r>"#;
    let first = read(source, ParserConfig::new());
    let text = write(&first, EmitterConfig::new());
    let second = read(&text, ParserConfig::new());
    assert_eq!(first, second);
    let again = write(&second, EmitterConfig::new());
    assert_eq!(text, again);
}

#[test]
fn indented_output_reads_back_without_the_white_space() {
    let source = "<r><a><b>text</b><c/></a></r>";
    let first = read(source, ParserConfig::new());
    let text = write(&first, EmitterConfig::new().perform_indent(true).write_document_declaration(false));
    assert_eq!(
        "<?xml version=\"1.0\" encoding=\"UTF-8\"?>\n<r>\n  <a>\n    <b>text</b>\n    <c />\n  </a>\n</r>",
        text
    );
    let mut config = ParserConfig::new();
    config.trim_whitespace = true;
    assert_eq!(first, read(&text, config));
}

#[test]
fn cdata_with_its_own_end_in_it() {
    let mut w = EmitterConfig::new().write_document_declaration(false).create_writer();
    w.write(Out::start_element("a")).unwrap();
    w.write(Out::cdata("ab]]>cd")).unwrap();
    w.write(Out::end_element()).unwrap();
    let text = w.into_inner();
    assert_eq!("<a><![CDATA[ab]]]]><![CDATA[>cd]]></a>", text);

    let mut config = ParserConfig::new();
    config.cdata_to_characters = true;
    let events = read(&text, config);
    assert_eq!(XmlEvent::Characters("ab]]>cd".to_string()), events[2]);

    let events = read(&text, ParserConfig::new());
    assert_eq!(XmlEvent::CData("ab]]".to_string()), events[2]);
    assert_eq!(XmlEvent::CData(">cd".to_string()), events[3]);
}

#[test]
fn comment_with_two_dashes_in_it() {
    let mut w = EmitterConfig::new().write_document_declaration(false).autopad_comments(false).create_writer();
    w.write(Out::start_element("a")).unwrap();
    w.write(Out::comment("a--b")).unwrap();
    w.write(Out::comment("---")).unwrap();
    w.write(Out::end_element()).unwrap();
    let text = w.into_inner();
    assert_eq!("<a><!--a- b--><!--- ---></a>", text);
    let events = read("<a><!--a- b--></a>", ParserConfig::new());
    assert_eq!(XmlEvent::Comment("a- b".to_string()), events[2]);
}

#[test]
fn a_namespace_in_scope_is_not_declared_again() {
    let source = r#"<a xmlns:p="urn:p"><p:b xmlns:p="urn:p"><c xmlns:p="urn:q"/></p:b></a>"#;
    let events = read(source, ParserConfig::new());
    let text = write(&events, EmitterConfig::new().write_document_declaration(false));
    assert_eq!(
        r#"<?xml version="1.0" encoding="UTF-8"?><a xmlns:p="urn:p"><p:b><c xmlns:p="urn:q" /></p:b></a>"#,
        text
    );
    assert_eq!(events.len(), read(&text, ParserConfig::new()).len());
}
