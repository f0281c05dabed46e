use xml::reader::config::ParserConfig;
use xml::reader::lexer::{Lexer, State, Token};
use xml::util::ByteSource;

fn make_lex_and_buf(s: &str) -> (Lexer, ByteSource) {
    (Lexer::new(&ParserConfig::default()), ByteSource::new(s.to_owned().into_bytes()))
}

fn assert_oks(lex: &mut Lexer, buf: &mut ByteSource, expected: &[Token]) {
    for e in expected {
        assert_eq!(Ok(*e), lex.next_token(buf));
    }
}

fn assert_err(lex: &mut Lexer, buf: &mut ByteSource, row: u64, column: u64, message: &str) {
    let err = lex.next_token(buf);
    assert!(err.is_err());
    let err = err.unwrap_err();
    assert_eq!(row, err.position().row);
    assert_eq!(column, err.position().column);
    assert!(err.msg().contains(message));
}

fn assert_none(lex: &mut Lexer, buf: &mut ByteSource) {
    assert_eq!(Ok(Token::Eof), lex.next_token(buf));
}

fn chars(s: &str) -> Vec<Token> {
    s.chars().map(Token::Character).collect()
}

#[test]
fn tricky_pi() {
    let (mut lex, mut buf) = make_lex_and_buf(r"<?x<!-- &??><x>");

    assert_oks(&mut lex, &mut buf, &[
        Token::ProcessingInstructionStart,
        Token::Character('x'),
        Token::OpeningTagStart, // the declaration at the start of a document is read from these tokens
        Token::Character('!'),
        Token::Character('-'),
        Token::Character('-'),
        Token::Character(' '),
        Token::ReferenceStart,
        Token::Character('?'),
        Token::ProcessingInstructionEnd,
        Token::OpeningTagStart,
        Token::Character('x'),
        Token::TagEnd,
    ]);
    assert_none(&mut lex, &mut buf);
}

#[test]
fn reparser() {
    let (mut lex, mut buf) = make_lex_and_buf(r"&a;");

    assert_oks(&mut lex, &mut buf, &[
        Token::ReferenceStart,
        Token::Character('a'),
        Token::ReferenceEnd,
    ]);
    lex.reparse("<hi/>").unwrap();
    assert_oks(&mut lex, &mut buf, &[
        Token::OpeningTagStart,
        Token::Character('h'),
        Token::Character('i'),
        Token::EmptyTagEnd,
    ]);
    assert_none(&mut lex, &mut buf);
}

#[test]
fn simple_lexer_test() {
    let (mut lex, mut buf) = make_lex_and_buf(
        r#"<a p='q'> x<b z="y">d	</b></a><p/> <?nm ?> <!-- a c --> &nbsp;"#
    );

    assert_oks(&mut lex, &mut buf, &[
        Token::OpeningTagStart,
        Token::Character('a'),
        Token::Character(' '),
        Token::Character('p'),
        Token::EqualsSign,
        Token::SingleQuote,
        Token::Character('q'),
        Token::SingleQuote,
        Token::TagEnd,
        Token::Character(' '),
        Token::Character('x'),
        Token::OpeningTagStart,
        Token::Character('b'),
        Token::Character(' '),
        Token::Character('z'),
        Token::EqualsSign,
        Token::DoubleQuote,
        Token::Character('y'),
        Token::DoubleQuote,
        Token::TagEnd,
        Token::Character('d'),
        Token::Character('\t'),
        Token::ClosingTagStart,
        Token::Character('b'),
        Token::TagEnd,
        Token::ClosingTagStart,
        Token::Character('a'),
        Token::TagEnd,
        Token::OpeningTagStart,
        Token::Character('p'),
        Token::EmptyTagEnd,
        Token::Character(' '),
        Token::ProcessingInstructionStart,
        Token::Character('n'),
        Token::Character('m'),
        Token::Character(' '),
        Token::ProcessingInstructionEnd,
        Token::Character(' '),
        Token::CommentStart,
        Token::Character(' '),
        Token::Character('a'),
        Token::Character(' '),
        Token::Character('c'),
        Token::Character(' '),
        Token::CommentEnd,
        Token::Character(' '),
        Token::ReferenceStart,
        Token::Character('n'),
        Token::Character('b'),
        Token::Character('s'),
        Token::Character('p'),
        Token::ReferenceEnd,
    ]);
    assert_none(&mut lex, &mut buf);
}

#[test]
fn special_chars_test() {
    let (mut lex, mut buf) = make_lex_and_buf(
        r"?x!+ // -| ]z]]"
    );

    assert_oks(&mut lex, &mut buf, &[
        Token::Character('?'),
        Token::Character('x'),
        Token::Character('!'),
        Token::Character('+'),
        Token::Character(' '),
        Token::Character('/'),
        Token::Character('/'),
        Token::Character(' '),
        Token::Character('-'),
        Token::Character('|'),
        Token::Character(' '),
        Token::Character(']'),
        Token::Character('z'),
        Token::Character(']'),
        Token::Character(']'),
    ]);
    assert_none(&mut lex, &mut buf);
}

#[test]
fn cdata_test() {
    let (mut lex, mut buf) = make_lex_and_buf(
        r"<a><![CDATA[x y ?]]> </a>"
    );

    assert_oks(&mut lex, &mut buf, &[
        Token::OpeningTagStart,
        Token::Character('a'),
        Token::TagEnd,
        Token::CDataStart,
        Token::Character('x'),
        Token::Character(' '),
        Token::Character('y'),
        Token::Character(' '),
        Token::Character('?'),
        Token::CDataEnd,
        Token::Character(' '),
        Token::ClosingTagStart,
        Token::Character('a'),
        Token::TagEnd,
    ]);
    assert_none(&mut lex, &mut buf);
}

#[test]
fn cdata_closers_test() {
    let (mut lex, mut buf) = make_lex_and_buf(
        r"<![CDATA[] > ]> ]]><!---->]]<a>"
    );

    assert_oks(&mut lex, &mut buf, &[
        Token::CDataStart,
        Token::Character(']'),
        Token::Character(' '),
        Token::Character('>'),
        Token::Character(' '),
        Token::Character(']'),
        Token::Character('>'),
        Token::Character(' '),
        Token::CDataEnd,
        Token::CommentStart,
        Token::CommentEnd,
        Token::Character(']'),
        Token::Character(']'),
        Token::OpeningTagStart,
        Token::Character('a'),
        Token::TagEnd,
    ]);
    assert_none(&mut lex, &mut buf);
}

#[test]
fn doctype_test() {
    let (mut lex, mut buf) = make_lex_and_buf(
        r"<a><!DOCTYPE ab xx z> "
    );
    assert_oks(&mut lex, &mut buf, &[
        Token::OpeningTagStart,
        Token::Character('a'),
        Token::TagEnd,
        Token::DoctypeStart,
        Token::Character(' '),
        Token::Character('a'),
        Token::Character('b'),
        Token::Character(' '),
        Token::Character('x'),
        Token::Character('x'),
        Token::Character(' '),
        Token::Character('z'),
        Token::TagEnd,
        Token::Character(' '),
    ]);
    assert_none(&mut lex, &mut buf);
}

#[test]
fn tricky_comments() {
    let (mut lex, mut buf) = make_lex_and_buf(
        r"<a><!-- C ->--></a>"
    );
    assert_oks(&mut lex, &mut buf, &[
        Token::OpeningTagStart,
        Token::Character('a'),
        Token::TagEnd,
        Token::CommentStart,
        Token::Character(' '),
        Token::Character('C'),
        Token::Character(' '),
        Token::Character('-'),
        Token::Character('>'),
        Token::CommentEnd,
        Token::ClosingTagStart,
        Token::Character('a'),
        Token::TagEnd,
    ]);
    assert_none(&mut lex, &mut buf);
}

#[test]
fn doctype_with_internal_subset_test() {
    let (mut lex, mut buf) = make_lex_and_buf(
        r#"<a><!DOCTYPE ab[<!ELEMENT ba ">>>"> ]> "#
    );
    assert_oks(&mut lex, &mut buf, &[
        Token::OpeningTagStart,
        Token::Character('a'),
        Token::TagEnd,
        Token::DoctypeStart,
        Token::Character(' '),
        Token::Character('a'),
        Token::Character('b'),
        Token::Character('['),
        Token::MarkupDeclarationStart,
        Token::Character('E'),
        Token::Character('L'),
        Token::Character('E'),
        Token::Character('M'),
        Token::Character('E'),
        Token::Character('N'),
        Token::Character('T'),
        Token::Character(' '),
        Token::Character('b'),
        Token::Character('a'),
        Token::Character(' '),
        Token::DoubleQuote,
        Token::Character('>'),
        Token::Character('>'),
        Token::Character('>'),
        Token::DoubleQuote,
        Token::TagEnd,
        Token::Character(' '),
        Token::Character(']'),
        Token::TagEnd,
        Token::Character(' '),
    ]);
    assert_none(&mut lex, &mut buf);
}

#[test]
fn doctype_internal_pi_comment() {
    let (mut lex, mut buf) = make_lex_and_buf(
        "<!DOCTYPE a [\n<!ELEMENT l ANY> <!-- <?non?>--> <?pi > ?> \n]>"
    );
    assert_oks(&mut lex, &mut buf, &[
        Token::DoctypeStart,
        Token::Character(' '),
        Token::Character('a'),
        Token::Character(' '),
        Token::Character('['),
        Token::Character('\n'),
        Token::MarkupDeclarationStart,
        Token::Character('E'),
        Token::Character('L'),
        Token::Character('E'),
        Token::Character('M'),
        Token::Character('E'),
        Token::Character('N'),
        Token::Character('T'),
        Token::Character(' '),
        Token::Character('l'),
        Token::Character(' '),
        Token::Character('A'),
        Token::Character('N'),
        Token::Character('Y'),
        Token::TagEnd,
        Token::Character(' '),
        Token::CommentStart,
        Token::Character(' '),
        Token::Character('<'),
        Token::Character('?'),
        Token::Character('n'),
        Token::Character('o'),
        Token::Character('n'),
        Token::Character('?'),
        Token::Character('>'),
        Token::CommentEnd,
        Token::Character(' '),
        Token::ProcessingInstructionStart,
        Token::Character('p'),
        Token::Character('i'),
        Token::Character(' '),
        Token::TagEnd, // not really
        Token::Character(' '),
        Token::ProcessingInstructionEnd,
        Token::Character(' '),
        Token::Character('\n'),
        Token::Character(']'),
        Token::TagEnd, // of the document type declaration
    ]);
    assert_none(&mut lex, &mut buf);
}

fn eof_check_ok(data: &str, token: Token) {
    let (mut lex, mut buf) = make_lex_and_buf(data);
    assert_oks(&mut lex, &mut buf, &[token]);
    assert_none(&mut lex, &mut buf);
}

#[test]
fn end_of_stream_handling_ok() {
    eof_check_ok("?", Token::Character('?'));
    eof_check_ok("/", Token::Character('/'));
    eof_check_ok("-", Token::Character('-'));
    eof_check_ok("]", Token::Character(']'));
    eof_check_ok("]", Token::Character(']'));
    eof_check_ok("]", Token::Character(']'));
}

fn eof_check_err(data: &str, row: u64, column: u64) {
    let (mut lex, mut buf) = make_lex_and_buf(data);
    assert_err(&mut lex, &mut buf, row, column, "Unexpected end of stream");
    assert_none(&mut lex, &mut buf);
}

#[test]
fn end_of_stream_handling_error() {
    eof_check_err("<", 0, 1);
    eof_check_err("<!", 0, 2);
    eof_check_err("<!-", 0, 3);
    eof_check_err("<![", 0, 3);
    eof_check_err("<![C", 0, 4);
    eof_check_err("<![CD", 0, 5);
    eof_check_err("<![CDA", 0, 6);
    eof_check_err("<![CDAT", 0, 7);
    eof_check_err("<![CDATA", 0, 8);
}

#[test]
fn error_in_comment_or_cdata_prefix() {
    let (mut lex, mut buf) = make_lex_and_buf("<!x");
    assert_err(&mut lex, &mut buf, 0, 0, "Unexpected token '<!' before 'x'");

    let (mut lex, mut buf) = make_lex_and_buf("<!x");
    lex.disable_errors();
    assert_oks(&mut lex, &mut buf, &[
        Token::Character('<'),
        Token::Character('!'),
        Token::Character('x'),
    ]);
    assert_none(&mut lex, &mut buf);
}

#[test]
fn error_in_comment_started() {
    let (mut lex, mut buf) = make_lex_and_buf("<!-\t");
    assert_err(&mut lex, &mut buf, 0, 0, "Unexpected token '<!-' before '\t'");

    let (mut lex, mut buf) = make_lex_and_buf("<!-\t");
    lex.disable_errors();
    assert_oks(&mut lex, &mut buf, &[
        Token::Character('<'),
        Token::Character('!'),
        Token::Character('-'),
        Token::Character('\t'),
    ]);
    assert_none(&mut lex, &mut buf);
}

#[test]
fn error_in_comment_two_dashes_not_at_end() {
    let (mut lex, mut buf) = make_lex_and_buf("--x");
    lex.set_state(State::InsideComment);
    assert_err(&mut lex, &mut buf, 0, 0, "Unexpected token '--' before 'x'");

    let (mut lex, mut buf) = make_lex_and_buf("--x");
    assert_oks(&mut lex, &mut buf, &[
        Token::Character('-'),
        Token::Character('-'),
        Token::Character('x'),
    ]);
}

fn check_case(chunk: &str, app: char, data: &str, row: u64, column: u64, message: &str) {
    let (mut lex, mut buf) = make_lex_and_buf(data);
    assert_err(&mut lex, &mut buf, row, column, message);

    let (mut lex, mut buf) = make_lex_and_buf(data);
    lex.disable_errors();
    for t in chars(chunk) {
        assert_eq!(Ok(t), lex.next_token(&mut buf));
    }
    assert_oks(&mut lex, &mut buf, &[Token::Character(app)]);
    assert_none(&mut lex, &mut buf);
}

#[test]
fn token_size() {
    assert_eq!(4, std::mem::size_of::<Token>());
    assert_eq!(2, std::mem::size_of::<State>());
}

#[test]
fn error_in_cdata_started() {
    check_case("<![", '[', "<![[", 0, 0, "Unexpected token '<![' before '['");
    check_case("<![C", '[', "<![C[", 0, 0, "Unexpected token '<![C' before '['");
    check_case("<![CD", '[', "<![CD[", 0, 0, "Unexpected token '<![CD' before '['");
    check_case("<![CDA", '[', "<![CDA[", 0, 0, "Unexpected token '<![CDA' before '['");
    check_case("<![CDAT", '[', "<![CDAT[", 0, 0, "Unexpected token '<![CDAT' before '['");
    check_case("<![CDATA", '|', "<![CDATA|", 0, 0, "Unexpected token '<![CDATA' before '|'");
}

#[test]
fn error_in_doctype_started() {
    check_case("<!D", 'a', "<!Da", 0, 0, "Unexpected token '<!D' before 'a'");
    check_case("<!DO", 'b', "<!DOb", 0, 0, "Unexpected token '<!DO' before 'b'");
    check_case("<!DOC", 'c', "<!DOCc", 0, 0, "Unexpected token '<!DOC' before 'c'");
    check_case("<!DOCT", 'd', "<!DOCTd", 0, 0, "Unexpected token '<!DOCT' before 'd'");
    check_case("<!DOCTY", 'e', "<!DOCTYe", 0, 0, "Unexpected token '<!DOCTY' before 'e'");
    check_case("<!DOCTYP", 'f', "<!DOCTYPf", 0, 0, "Unexpected token '<!DOCTYP' before 'f'");
}

#[test]
fn issue_98_cdata_ending_with_right_bracket() {
    let (mut lex, mut buf) = make_lex_and_buf(
        r"<![CDATA[Foo [Bar]]]>"
    );

    assert_oks(&mut lex, &mut buf, &[
        Token::CDataStart,
        Token::Character('F'),
        Token::Character('o'),
        Token::Character('o'),
        Token::Character(' '),
        Token::Character('['),
        Token::Character('B'),
        Token::Character('a'),
        Token::Character('r'),
        Token::Character(']'),
        Token::CDataEnd,
    ]);
    assert_none(&mut lex, &mut buf);
}

#[test]
fn reparse_is_refused_beyond_the_allowed_depth() {
    let mut config = ParserConfig::new();
    config.max_entity_expansion_depth = 3;
    let mut lex = Lexer::new(&config);
    let mut buf = ByteSource::new(Vec::new());
    for _ in 0..3 {
        lex.reparse("&e;").unwrap();
        assert_oks(&mut lex, &mut buf, &[Token::ReferenceStart, Token::Character('e'), Token::ReferenceEnd]);
    }
    let err = lex.reparse("&e;").unwrap_err();
    assert!(err.msg().contains("Entity too big"));
}

#[test]
fn reparse_of_nothing_changes_nothing() {
    let mut config = ParserConfig::new();
    config.max_entity_expansion_depth = 0;
    let mut lex = Lexer::new(&config);
    let mut buf = ByteSource::new(Vec::new());
    assert!(lex.reparse("").is_ok());
    assert!(lex.reparse("x").is_err());
    assert_none(&mut lex, &mut buf);
}

#[test]
fn line_endings_become_line_feeds() {
    let (mut lex, mut buf) = make_lex_and_buf("a\r\nb\rc\n");
    assert_oks(&mut lex, &mut buf, &[
        Token::Character('a'),
        Token::Character('\n'),
        Token::Character('b'),
        Token::Character('\n'),
        Token::Character('c'),
        Token::Character('\n'),
    ]);
    assert_none(&mut lex, &mut buf);
    assert_eq!(3, lex.position().row);
}

#[test]
fn token_text() {
    assert_eq!(Some("<![CDATA["), Token::CDataStart.as_static_str());
    assert_eq!(None, Token::Character('x').as_static_str());
    assert_eq!(None, Token::MarkupDeclarationStart.as_static_str());
    let mut s = String::from("a");
    Token::Character('b').push_to_string(&mut s);
    Token::CommentEnd.push_to_string(&mut s);
    Token::Eof.push_to_string(&mut s);
    assert_eq!("ab-->", s);
    assert_eq!("<!", Token::MarkupDeclarationStart.to_string());
}

#[test]
fn only_a_name_start_opens_a_tag() {
    let (mut lex, mut buf) = make_lex_and_buf("<-");
    assert_err(&mut lex, &mut buf, 0, 0, "Unexpected token '<' before '-'");
    let (mut lex, mut buf) = make_lex_and_buf("<1a>");
    assert_err(&mut lex, &mut buf, 0, 0, "Unexpected token '<' before '1'");
    let (mut lex, mut buf) = make_lex_and_buf("<_ < :");
    assert_oks(&mut lex, &mut buf, &[
        Token::OpeningTagStart,
        Token::Character('_'),
        Token::Character(' '),
        Token::OpeningTagStart,
        Token::Character(' '),
        Token::Character(':'),
    ]);
    assert_none(&mut lex, &mut buf);
}
