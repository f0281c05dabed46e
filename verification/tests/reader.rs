use xml::name::OwnedName;
use xml::reader::{ErrorKind, ParserConfig, XmlEvent};
use xml::util::ByteSource;
use xml::EventReader;

fn events_of(source: &str, config: ParserConfig) -> Vec<Result<XmlEvent, xml::reader::Error>> {
    let mut it = EventReader::new_with_config(ByteSource::from_str(source), config).into_iter();
    let mut out = Vec::new();
    while let Some(e) = it.next() {
        out.push(e);
        assert!(out.len() < 10_000);
    }
    out
}

fn oks(source: &str) -> Vec<XmlEvent> {
    events_of(source, ParserConfig::new()).into_iter().map(|e| e.unwrap()).collect()
}

#[test]
fn empty_element_with_an_attribute() {
    let events = oks("<a p='q'/>");
    assert_eq!(4, events.len());
    match &events[0] {
        XmlEvent::StartDocument { version, encoding, standalone } => {
            assert_eq!("1.0", version.as_str());
            assert_eq!("UTF-8", encoding);
            assert_eq!(&None, standalone);
        },
        other => panic!("{:?}", other),
    }
    match &events[1] {
        XmlEvent::StartElement { name, attributes, namespace } => {
            assert_eq!("a", name.local_name);
            assert_eq!(None, name.prefix);
            assert_eq!(None, name.namespace);
            assert_eq!(1, attributes.len());
            assert_eq!("p", attributes[0].name.local_name);
            assert_eq!("q", attributes[0].value);
            assert!(namespace.is_essentially_empty());
        },
        other => panic!("{:?}", other),
    }
    assert_eq!(XmlEvent::EndElement { name: OwnedName::local("a") }, events[2]);
    assert_eq!(XmlEvent::EndDocument, events[3]);
}

#[test]
fn declaration_text_and_comment() {
    let events = oks(r#"<?xml version="1.0"?><a>hi<!--c--></a>"#);
    assert_eq!(6, events.len());
    assert!(matches!(events[0], XmlEvent::StartDocument { .. }));
    assert!(matches!(&events[1], XmlEvent::StartElement { name, .. } if name.local_name == "a"));
    assert_eq!(XmlEvent::Characters("hi".to_string()), events[2]);
    assert_eq!(XmlEvent::Comment("c".to_string()), events[3]);
    assert!(matches!(&events[4], XmlEvent::EndElement { name } if name.local_name == "a"));
    assert_eq!(XmlEvent::EndDocument, events[5]);
}

#[test]
fn entity_that_names_itself_is_too_big() {
    let mut config = ParserConfig::new();
    config.max_entity_expansion_depth = 3;
    let events = events_of(r#"<!DOCTYPE r [<!ENTITY e "&e;">]><r>&e;</r>"#, config);
    assert_eq!(4, events.len());
    assert!(matches!(events[0], Ok(XmlEvent::StartDocument { .. })));
    assert!(matches!(&events[1], Ok(XmlEvent::Doctype { name, .. }) if name == "r"));
    assert!(matches!(events[2], Ok(XmlEvent::StartElement { .. })));
    let e = events[3].as_ref().unwrap_err();
    assert_eq!(&ErrorKind::Syntax("Entity too big".to_string()), e.kind());
}

#[test]
fn billion_laughs_fail_before_they_grow() {
    let mut doc = String::from("<!DOCTYPE lolz [<!ENTITY lol0 \"lol\">");
    for i in 1..30 {
        doc.push_str(&format!("<!ENTITY lol{} \"", i));
        for _ in 0..10 {
            doc.push_str(&format!("&lol{};", i - 1));
        }
        doc.push_str("\">");
    }
    doc.push_str("]><lolz>&lol29;</lolz>");
    let events = events_of(&doc, ParserConfig::new());
    let last = events.last().unwrap().as_ref().unwrap_err();
    assert!(last.msg().contains("Entity too big"), "{}", last.msg());
    assert!(events.len() < 10);
}

#[test]
fn prefixes_are_resolved() {
    let events = oks(r#"<x xmlns:a="U"><a:y a:k="v"/></x>"#);
    match &events[2] {
        XmlEvent::StartElement { name, attributes, namespace } => {
            assert_eq!(Some("U".to_string()), name.namespace);
            assert_eq!("y", name.local_name);
            assert_eq!("k", attributes[0].name.local_name);
            assert_eq!(Some("U".to_string()), attributes[0].name.namespace);
            assert_eq!(Some("U"), namespace.get("a"));
        },
        other => panic!("{:?}", other),
    }
}

#[test]
fn default_namespace_is_for_elements_only() {
    let events = oks(r#"<x xmlns="D" k="v"><y/></x>"#);
    match &events[1] {
        XmlEvent::StartElement { name, attributes, .. } => {
            assert_eq!(Some("D".to_string()), name.namespace);
            assert_eq!(None, attributes[0].name.namespace);
        },
        other => panic!("{:?}", other),
    }
    assert!(matches!(&events[2], XmlEvent::StartElement { name, .. } if name.namespace == Some("D".to_string())));
}

#[test]
fn bindings_end_with_their_element() {
    let events = events_of(r#"<x><y xmlns:a="U"><a:z/></y><a:w/></x>"#, ParserConfig::new());
    let last = events.last().unwrap().as_ref().unwrap_err();
    assert!(last.msg().contains("Element a:w prefix is unbound"), "{}", last.msg());
    assert!(matches!(&events[3], Ok(XmlEvent::StartElement { name, .. }) if name.namespace == Some("U".to_string())));
}

#[test]
fn end_of_document_and_errors_are_given_again() {
    let mut reader = EventReader::from_str("<a/>");
    let mut last = reader.next();
    while !matches!(last, Ok(XmlEvent::EndDocument)) {
        last = reader.next();
    }
    assert_eq!(Ok(XmlEvent::EndDocument), reader.next());
    assert_eq!(Ok(XmlEvent::EndDocument), reader.next());

    let mut reader = EventReader::from_str("<a></b>");
    reader.next().unwrap();
    reader.next().unwrap();
    let e = reader.next().unwrap_err();
    assert!(e.msg().contains("Unexpected closing tag: got b expected a"), "{}", e.msg());
    assert_eq!(Err(e.clone()), reader.next());
    assert_eq!(Err(e), reader.next());
}

#[test]
fn streaming_resumes() {
    let mut config = ParserConfig::new();
    config.ignore_end_of_stream = true;
    let mut reader = EventReader::new_with_config(ByteSource::from_str("<root>"), config);
    assert!(matches!(reader.next(), Ok(XmlEvent::StartDocument { .. })));
    assert!(matches!(reader.next(), Ok(XmlEvent::StartElement { ref name, .. }) if name.local_name == "root"));
    let e = reader.next().unwrap_err();
    assert_eq!(&ErrorKind::UnexpectedEof, e.kind());
    reader.source_mut().feed(b"</ro");
    assert_eq!(&ErrorKind::UnexpectedEof, reader.next().unwrap_err().kind());
    reader.source_mut().feed(b"ot>");
    assert!(matches!(reader.next(), Ok(XmlEvent::EndElement { ref name }) if name.local_name == "root"));
    assert_eq!(Ok(XmlEvent::EndDocument), reader.next());
}

#[test]
fn missing_and_unclosed_roots() {
    let e = EventReader::from_str("").next().unwrap_err();
    assert!(e.msg().contains("no root element found"), "{}", e.msg());
    let mut reader = EventReader::from_str("<a>");
    reader.next().unwrap();
    reader.next().unwrap();
    let e = reader.next().unwrap_err();
    assert!(e.msg().contains("still inside the root element"), "{}", e.msg());
}

#[test]
fn skip_goes_to_the_end_of_the_element() {
    let mut reader = EventReader::from_str("<a><b><c/>text<d>x</d></b><e/></a>");
    reader.next().unwrap();
    reader.next().unwrap();
    assert!(matches!(reader.next(), Ok(XmlEvent::StartElement { ref name, .. }) if name.local_name == "b"));
    reader.skip().unwrap();
    assert!(matches!(reader.next(), Ok(XmlEvent::StartElement { ref name, .. }) if name.local_name == "e"));
}

#[test]
fn references_and_cdata() {
    let events = oks("<a b='&lt;&#65;&#x42;'>&amp;<![CDATA[<x>]]>&#67;</a>");
    match &events[1] {
        XmlEvent::StartElement { attributes, .. } => assert_eq!("<AB", attributes[0].value),
        other => panic!("{:?}", other),
    }
    assert_eq!(XmlEvent::Characters("&".to_string()), events[2]);
    assert_eq!(XmlEvent::CData("<x>".to_string()), events[3]);
    assert_eq!(XmlEvent::Characters("C".to_string()), events[4]);

    let mut config = ParserConfig::new();
    config.cdata_to_characters = true;
    let events: Vec<_> = events_of("<a>&amp;<![CDATA[<x>]]>&#67;</a>", config).into_iter().map(|e| e.unwrap()).collect();
    assert_eq!(XmlEvent::Characters("&<x>C".to_string()), events[2]);
}

#[test]
fn whitespace_options() {
    let events = oks("<a> <b/> x </a>");
    assert_eq!(XmlEvent::Whitespace(" ".to_string()), events[2]);
    assert_eq!(XmlEvent::Characters(" x ".to_string()), events[5]);

    let mut config = ParserConfig::new();
    config.trim_whitespace = true;
    let events: Vec<_> = events_of("<a> <b/> x </a>", config).into_iter().map(|e| e.unwrap()).collect();
    assert!(matches!(&events[2], XmlEvent::StartElement { name, .. } if name.local_name == "b"));
    assert_eq!(XmlEvent::Characters("x".to_string()), events[4]);

    let mut config = ParserConfig::new();
    config.whitespace_to_characters = true;
    let events: Vec<_> = events_of("<a> <b/></a>", config).into_iter().map(|e| e.unwrap()).collect();
    assert_eq!(XmlEvent::Characters(" ".to_string()), events[2]);
}

#[test]
fn errors_of_the_parser() {
    let cases: Vec<(&str, &str)> = vec![
        ("<a b='1' b='2'/>", "Attribute 'b' is redefined"),
        ("<a xmlns:p='U' xmlns:q='U' p:b='1' q:b='2'/>", "is redefined"),
        ("<a xmlns:xmlns='U'/>", "Cannot redefine XMLNS prefix"),
        ("<a xmlns:xml='U'/>", "Default XMLNS prefix cannot be rebound to another value"),
        ("<p:a/>", "Element p:a prefix is unbound"),
        ("<a p:b='1'/>", "Attribute p:b prefix is unbound"),
        ("<a b='<x'/>", "'<' is not allowed in attributes"),
        ("<a b='<'/>", "Unexpected token '<' before"),
        ("<a>&nope;</a>", "Undefined entity: nope"),
        ("<a>&#xD800;</a>", "Invalid character U+D800"),
        ("<a>&#xZZ;</a>", "Invalid numeric entity: xZZ"),
        ("<a>&;</a>", "Encountered empty entity"),
        ("<?xml version='1.0' encoding='klingon'?><a/>", "Unsupported encoding: klingon"),
        ("<?xml version='1.0' encoding='utf-16'?><a/>", "Declared encoding UTF-16, but uses UTF-8"),
        ("<?xml version='1.0' standalone='maybe'?><a/>", "Invalid standalone declaration value: maybe"),
        ("<a/><?xml version='1.0'?>", "Invalid processing instruction: <?xml"),
        ("<!DOCTYPE a [<!ELEPHANT x>]><a/>", "Unknown markup declaration: ELEPHANT"),
        ("x<a/>", "Unexpected characters outside the root element: x"),
        ("<a><!-- a -- b --></a>", "Unexpected token '--' before ' '"),
        ("<a><![CDATA[x", "Unclosed <![CDATA["),
    ];
    for (source, message) in cases {
        let events = events_of(source, ParserConfig::new());
        let last = events.last().unwrap();
        match last {
            Err(e) => assert!(e.msg().contains(message), "{}: {}", source, e.msg()),
            Ok(e) => panic!("{}: {:?}", source, e),
        }
    }
    assert!(!events_of("<a xmlns:xml='http://www.w3.org/XML/1998/namespace'/>", ParserConfig::new())
        .iter()
        .any(|e| e.is_err()));
}

#[test]
fn limits_of_the_configuration() {
    let mut config = ParserConfig::new();
    config.max_attributes = 1;
    let events = events_of("<a b='1' c='2'/>", config);
    assert!(events.last().unwrap().as_ref().unwrap_err().msg().contains("larger/more complex than allowed"));
    let mut config = ParserConfig::new();
    config.max_name_length = 3;
    let events = events_of("<abcdefgh/>", config);
    assert!(events.last().unwrap().as_ref().unwrap_err().msg().contains("larger/more complex than allowed"));
    let mut config = ParserConfig::new();
    config.max_data_length = 4;
    let events = events_of("<a>0123456789</a>", config);
    assert!(events.last().unwrap().as_ref().unwrap_err().msg().contains("larger/more complex than allowed"));
}

#[test]
fn encodings_are_detected() {
    let mut utf16le: Vec<u8> = vec![0xFF, 0xFE];
    for c in "<a>ü😀</a>".encode_utf16() {
        utf16le.extend_from_slice(&c.to_le_bytes());
    }
    let mut it = EventReader::new(ByteSource::new(utf16le)).into_iter();
    assert!(matches!(it.next(), Some(Ok(XmlEvent::StartDocument { ref encoding, .. })) if encoding == "UTF-16"));
    it.next().unwrap().unwrap();
    assert_eq!(Some(Ok(XmlEvent::Characters("ü😀".to_string()))), it.next());

    let mut utf16be: Vec<u8> = vec![0xFE, 0xFF];
    for c in "<a>ü</a>".encode_utf16() {
        utf16be.extend_from_slice(&c.to_be_bytes());
    }
    let mut it = EventReader::new(ByteSource::new(utf16be)).into_iter();
    it.next().unwrap().unwrap();
    it.next().unwrap().unwrap();
    assert_eq!(Some(Ok(XmlEvent::Characters("ü".to_string()))), it.next());

    let mut bom = vec![0xEF, 0xBB, 0xBF];
    bom.extend_from_slice("<a>ü</a>".as_bytes());
    let mut it = EventReader::new(ByteSource::new(bom)).into_iter();
    assert!(matches!(it.next(), Some(Ok(XmlEvent::StartDocument { ref encoding, .. })) if encoding == "UTF-8"));
    it.next().unwrap().unwrap();
    assert_eq!(Some(Ok(XmlEvent::Characters("ü".to_string()))), it.next());

    let mut latin1 = b"<?xml version='1.0' encoding='ISO_8859-1'?><a>".to_vec();
    latin1.push(0xFC);
    latin1.extend_from_slice(b"</a>");
    let mut it = EventReader::new(ByteSource::new(latin1)).into_iter();
    assert!(matches!(it.next(), Some(Ok(XmlEvent::StartDocument { ref encoding, .. })) if encoding == "ISO_8859-1"));
    it.next().unwrap().unwrap();
    assert_eq!(Some(Ok(XmlEvent::Characters("ü".to_string()))), it.next());

    let mut ascii = b"<?xml version='1.0' encoding='ascii'?><a>".to_vec();
    ascii.push(0xFC);
    let events: Vec<_> = {
        let mut it = EventReader::new(ByteSource::new(ascii)).into_iter();
        let mut v = Vec::new();
        while let Some(e) = it.next() {
            v.push(e);
        }
        v
    };
    assert!(events.last().unwrap().as_ref().unwrap_err().msg().contains("char is not ASCII"));

    let mut bad = b"<a>".to_vec();
    bad.push(0xFF);
    bad.extend_from_slice(b"</a>");
    let mut it = EventReader::new(ByteSource::new(bad)).into_iter();
    it.next().unwrap().unwrap();
    it.next().unwrap().unwrap();
    assert_eq!(&ErrorKind::Utf8(0xFF), it.next().unwrap().unwrap_err().kind());

    let mut cut = b"<a>".to_vec();
    cut.push(0xC3);
    let mut it = EventReader::new(ByteSource::new(cut)).into_iter();
    it.next().unwrap().unwrap();
    it.next().unwrap().unwrap();
    assert_eq!(&ErrorKind::UnexpectedEof, it.next().unwrap().unwrap_err().kind());
}

#[test]
fn more_errors_of_the_parser() {
    let cases: Vec<(&str, &str)> = vec![
        ("<? x?><a/>", "Encountered processing instruction without a name"),
        ("<a/><!-", "Unexpected end of stream"),
        ("<a/><!DOCTYPE a>", "Unexpected token: <!DOCTYPE"),
        ("<a>&a b;</a>", "Unexpected token inside entity:  "),
        ("<a></a b>", "Unexpected token inside closing tag: b"),
        ("<a =/>", "Unexpected token inside opening tag: ="),
        ("<a:/>", "Qualified name is invalid: a:"),
        ("<?a$?><a/>", "Unexpected token inside processing instruction: <?a$"),
        ("<a xmlns='xml'/>", "Namespace 'xml' cannot be default"),
        ("<xml:a/>", "'xml' cannot be an element name prefix"),
        ("<?xml verzion='1.0'?><a/>", "Unexpected name inside XML declaration: erzion"),
        ("<a xmlns:p='U'><b xmlns:p=''><p:c/></b></a>", "Element p:c prefix is unbound"),
        ("<a></b>", "Unexpected closing tag: got b expected a"),
        ("<a>\u{1}</a>", "Invalid character U+0001"),
    ];
    for (source, message) in cases {
        let events = events_of(source, ParserConfig::new());
        match events.last().unwrap() {
            Err(e) => assert!(e.msg().contains(message), "{}: {}", source, e.msg()),
            Ok(e) => panic!("{}: {:?}", source, e),
        }
    }
}

#[test]
fn starts_and_ends_balance() {
    let events = oks("<a><b><c/><d>x</d></b><e><f><g/></f></e></a>");
    let mut open: Vec<String> = Vec::new();
    let mut starts = 0;
    let mut ends = 0;
    for e in &events {
        match e {
            XmlEvent::StartElement { name, .. } => {
                starts += 1;
                open.push(name.local_name.clone());
            },
            XmlEvent::EndElement { name } => {
                ends += 1;
                assert_eq!(Some(name.local_name.clone()), open.pop());
            },
            XmlEvent::EndDocument => assert!(open.is_empty()),
            _ => {},
        }
    }
    assert_eq!(7, starts);
    assert_eq!(7, ends);
    assert_eq!(Some(&XmlEvent::EndDocument), events.last());
}

#[test]
fn end_tag_may_use_another_prefix_of_the_same_namespace() {
    let events = oks("<p:a xmlns:p='U' xmlns:q='U'></q:a>");
    assert!(matches!(&events[2], XmlEvent::EndElement { name } if name.prefix == Some("q".to_string())));
}

#[test]
fn a_document_in_streaming_mode_never_runs_out_of_events() {
    let mut config = ParserConfig::new();
    config.ignore_end_of_stream = true;
    let mut it = EventReader::new_with_config(ByteSource::from_str("<a>"), config).into_iter();
    it.next().unwrap().unwrap();
    it.next().unwrap().unwrap();
    for _ in 0..3 {
        assert_eq!(&ErrorKind::UnexpectedEof, it.next().unwrap().unwrap_err().kind());
    }
    it.source_mut().feed(b"</a>");
    assert!(matches!(it.next(), Some(Ok(XmlEvent::EndElement { .. }))));
    assert_eq!(Some(Ok(XmlEvent::EndDocument)), it.next());
    assert_eq!(Some(Ok(XmlEvent::EndDocument)), it.next());
}

#[test]
fn instruction_before_anything_else() {
    let events = oks("<?go?><a/>");
    assert!(matches!(events[0], XmlEvent::StartDocument { .. }));
    assert_eq!(XmlEvent::ProcessingInstruction { name: "go".to_string(), data: None }, events[1]);
    assert_eq!(5, events.len());
}

#[test]
fn entities_of_the_document_and_of_the_caller() {
    let source = "<!DOCTYPE a [<!ENTITY one '1'><!ENTITY one 'no'><!ENTITY % p 'P'><!ENTITY two '&#50;%p;&one;'><!ENTITY el '<b/>'>]><a k='&two;'>&two;&el;&three;</a>";
    let mut reader = EventReader::from_str(source);
    reader.add_entities(&[("three", "3")]).unwrap();
    let mut events = Vec::new();
    loop {
        let e = reader.next().unwrap();
        if e == XmlEvent::EndDocument {
            break;
        }
        events.push(e);
    }
    match &events[2] {
        XmlEvent::StartElement { attributes, .. } => assert_eq!("2P&one;", attributes[0].value),
        other => panic!("{:?}", other),
    }
    assert_eq!(XmlEvent::Characters("2P1".to_string()), events[3]);
    assert!(matches!(&events[4], XmlEvent::StartElement { name, .. } if name.local_name == "b"));
    assert_eq!(XmlEvent::Characters("3".to_string()), events[6]);
}

#[test]
fn position_of_the_last_event() {
    let mut reader = EventReader::from_str("<a>\n  <b/></a>");
    reader.next().unwrap();
    reader.next().unwrap();
    reader.next().unwrap();
    assert!(matches!(reader.next(), Ok(XmlEvent::StartElement { .. })));
    assert_eq!(1, reader.position().row);
}

#[test]
fn readers_and_their_sources() {
    let mut config = ParserConfig::new();
    config.ignore_comments = true;
    let mut reader = config.create_reader(ByteSource::from_str("<a><!--gone-->b</a>tail"));
    assert_eq!(23, reader.source().remaining());
    reader.next().unwrap();
    reader.next().unwrap();
    assert_eq!(Ok(XmlEvent::Characters("b".to_string())), reader.next());
    let mut it = reader.into_iter();
    assert!(matches!(it.next(), Some(Ok(XmlEvent::EndElement { .. }))));
    assert_eq!(4, it.source().remaining());
    let reader = it.into_inner();
    let mut source = reader.into_inner();
    assert_eq!(Some(b't'), source.next_byte());
}

#[test]
fn entities_given_to_the_iterator() {
    let mut it = EventReader::from_str("<a>&one;<b/>&two;</a>").into_iter();
    it.add_entities(&[("one", "1"), ("two", "2")]).unwrap();
    assert!(matches!(it.next(), Some(Ok(XmlEvent::StartDocument { .. }))));
    assert!(matches!(it.next(), Some(Ok(XmlEvent::StartElement { .. }))));
    let late = it.add_entities(&[("two", "late"), ("three", "3")]);
    assert!(late.is_err());
    assert_eq!(Some(Ok(XmlEvent::Characters("1".to_string()))), it.next());
    it.next().unwrap().unwrap();
    it.next().unwrap().unwrap();
    assert_eq!(Some(Ok(XmlEvent::Characters("2".to_string()))), it.next());
}

#[test]
fn skip_gives_the_error_of_a_reader_that_has_ended() {
    let mut reader = EventReader::from_str("<a><b></c></b></a>");
    reader.next().unwrap();
    reader.next().unwrap();
    reader.next().unwrap();
    let e = reader.next().unwrap_err();
    assert_eq!(Err(e.clone()), reader.skip());
    assert_eq!(Err(e), reader.skip());
}

#[test]
fn the_same_error_has_the_same_kind() {
    let mut ascii = b"<?xml version='1.0' encoding='ascii'?><a>".to_vec();
    ascii.push(0xFC);
    let mut reader = EventReader::new(ByteSource::new(ascii));
    reader.next().unwrap();
    reader.next().unwrap();
    let e = reader.next().unwrap_err();
    assert_eq!(&ErrorKind::Io("char is not ASCII".to_string()), e.kind());
    assert_eq!(e.kind(), reader.next().unwrap_err().kind());
}
