use xml::common::{is_name_char, is_name_start_char, is_whitespace_char, is_xml10_char, is_xml11_char, TextPosition, XmlVersion};
use xml::escape::{escape_str_attribute, escape_str_pcdata};
use xml::name::{Name, OwnedName};
use xml::namespace::{Namespace, NamespaceStack, NS_XML_URI};
use xml::util::{ByteSource, CharReadError, CharReader, Encoding};

#[test]
fn positions() {
    let mut p = TextPosition::new();
    p.advance(3);
    assert_eq!(TextPosition { row: 0, column: 3 }, p);
    p.new_line();
    assert_eq!(TextPosition { row: 1, column: 0 }, p);
    let mut far = TextPosition { row: u64::MAX, column: u64::MAX };
    far.advance(1);
    far.new_line();
    assert_eq!(TextPosition { row: u64::MAX, column: 0 }, far);
}

#[test]
fn character_classes() {
    assert!(is_whitespace_char('\t') && is_whitespace_char('\r') && !is_whitespace_char('\u{A0}'));
    assert!(is_name_start_char('_') && is_name_start_char(':') && !is_name_start_char('-') && !is_name_start_char('1'));
    assert!(is_name_char('-') && is_name_char('9') && is_name_char('\u{B7}') && !is_name_char(' '));
    assert!(is_xml10_char('\n') && !is_xml10_char('\u{1}') && !is_xml10_char('\u{FFFE}'));
    assert!(is_xml11_char('\u{1}') && !is_xml11_char('\u{0}') && is_xml11_char('\u{10000}'));
}

#[test]
fn versions() {
    let chars = |s: &str| s.chars().collect::<Vec<char>>();
    assert_eq!(Some(XmlVersion::Version10), XmlVersion::parse(&chars("1.0"), false));
    assert_eq!(Some(XmlVersion::Version1x("1.25".to_string())), XmlVersion::parse(&chars("1.25"), true));
    assert_eq!(None, XmlVersion::parse(&chars("1.25"), false));
    assert_eq!(None, XmlVersion::parse(&chars("1."), true));
    assert_eq!(None, XmlVersion::parse(&chars("1.x"), true));
}

#[test]
fn names() {
    let n = Name::from_str("p:local");
    assert_eq!(Some("p"), n.prefix);
    assert_eq!("local", n.local_name);
    assert_eq!("p:local", n.to_repr());
    assert_eq!("", Name::local("x").prefix_repr());
    let chars = |s: &str| s.chars().collect::<Vec<char>>();
    assert_eq!(None, OwnedName::parse(&chars("a:b:c")));
    assert_eq!(None, OwnedName::parse(&chars(":b")));
    assert_eq!(None, OwnedName::parse(&chars("a:")));
    assert_eq!(None, OwnedName::parse(&chars("")));
    let parsed = OwnedName::parse(&chars("a:b")).unwrap();
    assert_eq!(Some("a".to_string()), parsed.prefix);
    assert_eq!("b", parsed.local_name);
    assert_eq!("{urn:x}p:l", OwnedName::qualified("l", "urn:x", Some("p")).to_string());
    assert_eq!(OwnedName::qualified("l", "urn:x", Some("p")), OwnedName::qualified("l", "urn:x", Some("q")));
    assert_ne!(OwnedName::qualified("l", "urn:x", None), OwnedName::local("l"));
}

#[test]
fn namespaces() {
    let mut ns = Namespace::empty();
    assert!(ns.is_empty());
    assert!(ns.put("a", "1"));
    assert!(!ns.put("a", "2"));
    assert_eq!(Some("1"), ns.get("a"));
    assert_eq!(Some("1".to_string()), ns.force_put("a", "3"));
    assert_eq!(None, ns.force_put("b", "4"));
    assert_eq!(Some("3"), ns.get("a"));
    assert!(ns.contains("b") && !ns.contains("c"));
    assert_eq!(("a", "3"), ns.entry(0));
    assert_eq!(2, ns.len());
    assert!(!ns.is_essentially_empty());

    let mut stack = NamespaceStack::default();
    assert_eq!(Some(NS_XML_URI), stack.get("xml"));
    assert_eq!(Some(""), stack.get(""));
    assert!(stack.squash().is_essentially_empty());
    stack.push_empty();
    assert!(stack.put("p", "outer"));
    stack.push_empty();
    assert!(stack.put("p", "inner"));
    assert!(stack.put_checked("q", "other"));
    assert!(!stack.put_checked("p", "outer"));
    assert_eq!(Some("inner"), stack.get("p"));
    assert_eq!(Some("inner"), stack.squash().get("p"));
    assert_eq!(Some("other"), stack.squash().get("q"));
    stack.try_pop();
    assert_eq!(Some("outer"), stack.get("p"));
    assert_eq!(None, stack.get("q"));
    assert_eq!(2, stack.len());
}

#[test]
fn escapes() {
    assert_eq!("&lt;a b=\"c\" d='e'&gt;&amp;\n\t&#xD;", escape_str_pcdata("<a b=\"c\" d='e'>&\n\t\r"));
    assert_eq!("&lt;&quot;&apos;&gt;&amp;&#xA;&#x9;&#xD;x", escape_str_attribute("<\"'>&\n\t\rx"));
}

#[test]
fn encoding_names() {
    assert_eq!(Some(Encoding::Utf8), Encoding::from_name("UTF-8"));
    assert_eq!(Some(Encoding::Utf8), Encoding::from_name("utf_8"));
    assert_eq!(Some(Encoding::Latin1), Encoding::from_name("Iso-8859-1"));
    assert_eq!(Some(Encoding::Latin1), Encoding::from_name("latin1"));
    assert_eq!(Some(Encoding::Utf16Le), Encoding::from_name("UTF-16LE"));
    assert_eq!(Some(Encoding::Utf16Be), Encoding::from_name("utf16be"));
    assert_eq!(Some(Encoding::Ascii), Encoding::from_name("US-ASCII"));
    assert_eq!(None, Encoding::from_name("ebcdic"));
    assert_eq!("ISO-8859-1", Encoding::Latin1.as_str());
    assert_eq!("UTF-8", Encoding::Default.as_str());
}

#[test]
fn characters_from_bytes() {
    let mut src = ByteSource::from_str("aé€😀");
    let mut reader = CharReader::new();
    assert_eq!(Ok(Some('a')), reader.next_char_from(&mut src));
    assert_eq!(Encoding::Default, reader.encoding);
    assert_eq!(Ok(Some('é')), reader.next_char_from(&mut src));
    assert_eq!(Ok(Some('€')), reader.next_char_from(&mut src));
    assert_eq!(Ok(Some('😀')), reader.next_char_from(&mut src));
    assert_eq!(Ok(None), reader.next_char_from(&mut src));

    let mut src = ByteSource::new(vec![0xE2, 0x82]);
    let mut reader = CharReader::new();
    assert_eq!(Err(CharReadError::UnexpectedEof), reader.next_char_from(&mut src));
    assert_eq!(2, src.remaining());
    src.feed(&[0xAC]);
    assert_eq!(Ok(Some('€')), reader.next_char_from(&mut src));

    for bad in [vec![0xC0, 0x80], vec![0xED, 0xA0, 0x80], vec![0xF4, 0x90, 0x80, 0x80], vec![0x80], vec![0xC3, 0x41]] {
        let first = bad[0];
        let mut src = ByteSource::new(bad);
        assert_eq!(Err(CharReadError::Utf8(first)), CharReader::new().next_char_from(&mut src));
    }

    let mut src = ByteSource::new(vec![0xD8, 0x00, 0x00, 0x41]);
    let mut reader = CharReader { encoding: Encoding::Utf16Be, after_cr: false };
    assert_eq!(Err(CharReadError::Utf16(0xD800)), reader.next_char_from(&mut src));

    let mut src = ByteSource::new(vec![0x41, 0x00]);
    let mut reader = CharReader { encoding: Encoding::Utf16, after_cr: false };
    assert_eq!(Ok(Some('A')), reader.next_char_from(&mut src));
    assert_eq!(Encoding::Utf16Le, reader.encoding);

    let mut src = ByteSource::new(vec![0xEF, 0xBB]);
    assert_eq!(Err(CharReadError::UnexpectedEof), CharReader::new().next_char_from(&mut src));
    assert_eq!(Some(0xEF), src.next_byte());
}
