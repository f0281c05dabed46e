//! The emit engine of the writer.

use vstd::prelude::*;
use vstd::string::*;
use crate::attribute::{Attribute, AttributeView};
use crate::common::XmlVersion;
use crate::escape::{escaped, push_escaped, Context};
use crate::name::{Name, NameView, OwnedName};
use crate::namespace::{
    Bindings, Namespace, NamespaceStack, NS_EMPTY_URI, NS_NO_PREFIX, NS_XMLNS_PREFIX, NS_XML_PREFIX,
};
use crate::text::{str_chars, str_eq};
use crate::writer::config::{ConfigView, EmitterConfig};

verus! {

/// An error that the writer reports.
#[derive(Debug, PartialEq, Eq)]
pub enum EmitterError {
    /// The sink that the text was handed to failed.
    Io(String),
    /// The document declaration has already been written.
    DocumentStartAlreadyEmitted,
    /// There is no open element whose name could be used.
    LastElementNameNotAvailable,
    /// The name given for the end of an element is not the name of the element
    /// that is open.
    EndElementNameIsNotEqualToLastStartElementName,
    /// No name was given for the end of an element, and names are not tracked.
    EndElementNameIsNotSpecified,
}

/// An error of the writer as a value.
pub ghost enum EmitterErrorView {
    Io(Seq<char>),
    DocumentStartAlreadyEmitted,
    LastElementNameNotAvailable,
    EndElementNameIsNotEqualToLastStartElementName,
    EndElementNameIsNotSpecified,
}

impl View for EmitterError {
    type V = EmitterErrorView;

    open spec fn view(&self) -> EmitterErrorView {
        match *self {
            EmitterError::Io(s) => EmitterErrorView::Io(s@),
            EmitterError::DocumentStartAlreadyEmitted => EmitterErrorView::DocumentStartAlreadyEmitted,
            EmitterError::LastElementNameNotAvailable => EmitterErrorView::LastElementNameNotAvailable,
            EmitterError::EndElementNameIsNotEqualToLastStartElementName => {
                EmitterErrorView::EndElementNameIsNotEqualToLastStartElementName
            },
            EmitterError::EndElementNameIsNotSpecified => EmitterErrorView::EndElementNameIsNotSpecified,
        }
    }
}

impl Clone for EmitterError {
    fn clone(&self) -> (r: Self)
        ensures
            r == *self,
    {
        match self {
            EmitterError::Io(s) => EmitterError::Io(s.clone()),
            EmitterError::DocumentStartAlreadyEmitted => EmitterError::DocumentStartAlreadyEmitted,
            EmitterError::LastElementNameNotAvailable => EmitterError::LastElementNameNotAvailable,
            EmitterError::EndElementNameIsNotEqualToLastStartElementName => {
                EmitterError::EndElementNameIsNotEqualToLastStartElementName
            },
            EmitterError::EndElementNameIsNotSpecified => EmitterError::EndElementNameIsNotSpecified,
        }
    }
}

impl EmitterError {
    /// The error in words.
    pub open spec fn text(&self) -> Seq<char> {
        match *self {
            EmitterError::Io(s) => "emitter error: I/O error: "@ + s@,
            EmitterError::DocumentStartAlreadyEmitted => {
                "emitter error: document start event has already been emitted"@
            },
            EmitterError::LastElementNameNotAvailable => "emitter error: last element name is not available"@,
            EmitterError::EndElementNameIsNotEqualToLastStartElementName => {
                "emitter error: end element name is not equal to last start element name"@
            },
            EmitterError::EndElementNameIsNotSpecified => {
                "emitter error: end element name is not specified and can't be inferred"@
            },
        }
    }

    /// The error in words.
    pub fn message(&self) -> (r: String)
        ensures
            r@ == self.text(),
    {
        match self {
            EmitterError::Io(s) => {
                let mut r = String::from_str("emitter error: I/O error: ");
                r.append(s.as_str());
                r
            },
            EmitterError::DocumentStartAlreadyEmitted => {
                String::from_str("emitter error: document start event has already been emitted")
            },
            EmitterError::LastElementNameNotAvailable => {
                String::from_str("emitter error: last element name is not available")
            },
            EmitterError::EndElementNameIsNotEqualToLastStartElementName => {
                String::from_str("emitter error: end element name is not equal to last start element name")
            },
            EmitterError::EndElementNameIsNotSpecified => {
                String::from_str("emitter error: end element name is not specified and can't be inferred")
            },
        }
    }
}


/// What has been written inside an element so far.
#[derive(Copy, Clone, PartialEq, Eq, Structural, Debug)]
pub enum IndentFlags {
    WroteNothing,
    WroteMarkup,
    WroteText,
}

/// `s` repeated `n` times.
pub open spec fn repeated(s: Seq<char>, n: nat) -> Seq<char>
    decreases n,
{
    if n == 0 {
        Seq::empty()
    } else {
        repeated(s, (n - 1) as nat) + s
    }
}

/// The declaration of one namespace binding as an attribute.  The prefixes
/// `xml` and `xmlns` are never declared, and neither is an empty default
/// namespace.
pub open spec fn namespace_attribute(prefix: Seq<char>, uri: Seq<char>) -> Seq<char> {
    if prefix == NS_XMLNS_PREFIX@ || prefix == NS_XML_PREFIX@ {
        Seq::empty()
    } else if prefix == NS_NO_PREFIX@ {
        if uri != NS_EMPTY_URI@ {
            " xmlns=\""@ + uri + "\""@
        } else {
            Seq::empty()
        }
    } else {
        " xmlns:"@ + prefix + "=\""@ + uri + "\""@
    }
}

/// The declarations of the bindings of a frame, in their order.
pub open spec fn namespace_attributes(frame: Bindings) -> Seq<char>
    decreases frame.len(),
{
    if frame.len() == 0 {
        Seq::empty()
    } else {
        namespace_attributes(frame.drop_last()) + namespace_attribute(frame.last().0, frame.last().1)
    }
}

/// One attribute as it is written: a space, the name, and the value between
/// double quotes, escaped where `escaping` is set.
pub open spec fn attribute_text(a: AttributeView, escaping: bool) -> Seq<char> {
    " "@ + a.name.repr() + "=\""@ + (if escaping { escaped(a.value, Context::Attribute) } else { a.value }) + "\""@
}

/// Attributes as they are written, in their order.
pub open spec fn attributes_text(attributes: Seq<AttributeView>, escaping: bool) -> Seq<char>
    decreases attributes.len(),
{
    if attributes.len() == 0 {
        Seq::empty()
    } else {
        attributes_text(attributes.drop_last(), escaping) + attribute_text(attributes.last(), escaping)
    }
}

/// The contents of a CDATA section for `s`: every `]]>` in `s` is written as
/// the end of one section, `]]]]>`, and the start of the next, `<![CDATA[>`.
pub open spec fn cdata_escaped(s: Seq<char>) -> Seq<char>
    decreases s.len(),
{
    if s.len() == 0 {
        Seq::empty()
    } else if s.len() >= 3 && s[0] == ']' && s[1] == ']' && s[2] == '>' {
        "]]]]><![CDATA[>"@ + cdata_escaped(s.skip(3))
    } else {
        seq![s[0]] + cdata_escaped(s.skip(1))
    }
}

/// The contents of a comment for `s`: every `--` in `s` is written as `- `.
pub open spec fn comment_escaped(s: Seq<char>) -> Seq<char>
    decreases s.len(),
{
    if s.len() == 0 {
        Seq::empty()
    } else if s.len() >= 2 && s[0] == '-' && s[1] == '-' {
        "- "@ + comment_escaped(s.skip(2))
    } else {
        seq![s[0]] + comment_escaped(s.skip(1))
    }
}

/// Whether two dashes stand side by side in `s`.
pub open spec fn has_double_dash(s: Seq<char>) -> bool {
    exists|i: int| 0 <= i < s.len() - 1 && s[i] == '-' && #[trigger] s[i + 1] == '-'
}

/// The contents of a comment never hold two dashes side by side, whatever
/// the comment was made from; and they start with the first character of what
/// they were made from.
pub proof fn comment_escaped_is_safe(s: Seq<char>)
    ensures
        !has_double_dash(comment_escaped(s)),
        s.len() > 0 ==> comment_escaped(s).len() > 0 && comment_escaped(s)[0] == s[0],
        s.len() == 0 ==> comment_escaped(s).len() == 0,
    decreases s.len(),
{
    reveal_strlit("- ");
    if s.len() == 0 {
    } else if s.len() >= 2 && s[0] == '-' && s[1] == '-' {
        let rest = comment_escaped(s.skip(2));
        comment_escaped_is_safe(s.skip(2));
        let out = "- "@ + rest;
        assert(out[0] == '-' && out[1] == ' ');
        assert forall|i: int| 0 <= i < out.len() - 1 implies !(out[i] == '-' && #[trigger] out[i + 1] == '-') by {
            if i >= 2 {
                assert(rest[i - 2] == out[i] && rest[i - 2 + 1] == out[i + 1]);
            }
        }
    } else {
        let rest = comment_escaped(s.skip(1));
        comment_escaped_is_safe(s.skip(1));
        let out = seq![s[0]] + rest;
        assert forall|i: int| 0 <= i < out.len() - 1 implies !(out[i] == '-' && #[trigger] out[i + 1] == '-') by {
            if i >= 1 {
                assert(rest[i - 1] == out[i] && rest[i - 1 + 1] == out[i + 1]);
            } else {
                if s.len() > 1 {
                    assert(s.skip(1)[0] == s[1]);
                    assert(out[1] == rest[0]);
                }
            }
        }
    }
}

/// The views of a sequence of borrowed attributes.
pub open spec fn views_of(attributes: Seq<Attribute<'_>>) -> Seq<AttributeView> {
    attributes.map_values(|a: Attribute<'_>| a@)
}

/// No frame binds a prefix twice.
pub open spec fn frames_wf(frames: Seq<Bindings>) -> bool {
    forall|i: int| 0 <= i < frames.len() ==> crate::namespace::distinct(#[trigger] frames[i])
}

/// `frames` after `prefix` has been bound to `uri` in the top frame, which
/// happens unless some frame binds it to that URI already or the top frame
/// binds it to another.
pub open spec fn checked(frames: Seq<Bindings>, prefix: Seq<char>, uri: Seq<char>) -> Seq<Bindings> {
    if !crate::namespace::declared(frames, prefix, uri) && frames.len() > 0 && crate::namespace::bound(
        frames.last(),
        prefix,
    ) is None {
        frames.update(frames.len() - 1, frames.last().push((prefix, uri)))
    } else {
        frames
    }
}

/// `frames` after the bindings of `namespace` have been bound in the top
/// frame, one after the other, each unless it is in scope already.
pub open spec fn extended(frames: Seq<Bindings>, namespace: Bindings) -> Seq<Bindings>
    decreases namespace.len(),
{
    if namespace.len() == 0 {
        frames
    } else {
        checked(extended(frames, namespace.drop_last()), namespace.last().0, namespace.last().1)
    }
}

/// `frames` with a new frame on top that binds what `namespace` binds and
/// what is not in scope already.
pub open spec fn scoped(frames: Seq<Bindings>, namespace: Bindings) -> Seq<Bindings> {
    extended(frames.push(Seq::empty()), namespace)
}

/// The emitter as a value.
pub ghost struct EmitterView {
    pub config: ConfigView,
    pub frames: Seq<Bindings>,
    pub indent_level: nat,
    pub indent_stack: Seq<IndentFlags>,
    pub element_names: Seq<NameView>,
    pub start_document_emitted: bool,
    pub just_wrote_start_element: bool,
}

impl EmitterView {
    /// There is one entry of the indent stack for each level of indentation,
    /// and one below them.
    pub open spec fn wf(self) -> bool {
        self.indent_stack.len() == self.indent_level + 1
    }

    /// Whether text was the last thing written inside the current element.
    pub open spec fn wrote_text(self) -> bool {
        self.indent_stack.len() > 0 && self.indent_stack.last() == IndentFlags::WroteText
    }

    /// Whether markup was the last thing written inside the current element.
    pub open spec fn wrote_markup(self) -> bool {
        self.indent_stack.len() > 0 && self.indent_stack.last() == IndentFlags::WroteMarkup
    }

    /// The emitter after `flag` has been noted for the current element.
    pub open spec fn marked(self, flag: IndentFlags) -> EmitterView {
        if self.indent_stack.len() > 0 {
            EmitterView { indent_stack: self.indent_stack.update(self.indent_stack.len() - 1, flag), ..self }
        } else {
            self
        }
    }

    /// The end of a line and the indentation of the next one.
    pub open spec fn newline(self, level: nat) -> Seq<char> {
        self.config.line_separator + repeated(self.config.indent_string, level)
    }

    /// Whether markup starts on a new line: the output is indented, the
    /// current element holds no text, and this is not the very first thing
    /// written.
    pub open spec fn breaks_line(self) -> bool {
        self.config.perform_indent && !self.wrote_text() && (self.indent_level > 0 || self.wrote_markup())
    }

    /// What goes before a piece of markup, and the emitter after it.
    #[verifier::opaque]
    pub open spec fn before_markup(self) -> (EmitterView, Seq<char>) {
        if self.breaks_line() {
            (
                if self.indent_level > 0 && self.config.indent_string.len() > 0 {
                    self.marked(IndentFlags::WroteMarkup)
                } else {
                    self
                },
                self.newline(self.indent_level),
            )
        } else {
            (self, Seq::empty())
        }
    }

    /// What goes before the end tag of the current element.
    pub open spec fn before_end_element(self) -> Seq<char> {
        if self.config.perform_indent && self.indent_level > 0 && self.wrote_markup() && !self.wrote_text() {
            self.newline((self.indent_level - 1) as nat)
        } else {
            Seq::empty()
        }
    }

    /// The emitter after the end of the current element.
    pub open spec fn after_end_element(self) -> EmitterView {
        (if self.indent_level > 0 {
            EmitterView {
                indent_level: (self.indent_level - 1) as nat,
                indent_stack: self.indent_stack.drop_last(),
                ..self
            }
        } else {
            self
        }).marked(IndentFlags::WroteMarkup)
    }

    /// The document declaration, and the emitter after it.
    #[verifier::opaque]
    pub open spec fn start_document(self, version: Seq<char>, encoding: Seq<char>, standalone: Option<bool>) -> (
        EmitterView,
        Seq<char>,
    ) {
        let (v, lead) = (EmitterView { start_document_emitted: true, ..self }).before_markup();
        (
            v.marked(IndentFlags::WroteMarkup),
            lead + "<?xml version=\""@ + version + "\" encoding=\""@ + encoding + "\""@ + (match standalone {
                Some(true) => " standalone=\"yes\""@,
                Some(false) => " standalone=\"no\""@,
                None => Seq::empty(),
            }) + "?>"@,
        )
    }

    /// The default document declaration where one is due and none has been
    /// written, and the emitter after it.
    pub open spec fn document_checked(self) -> (EmitterView, Seq<char>) {
        if !self.start_document_emitted && self.config.write_document_declaration {
            self.start_document("1.0"@, "UTF-8"@, None)
        } else {
            (self, Seq::empty())
        }
    }

    /// The `>` that is still owed to the last start tag, and the emitter after
    /// it.
    pub open spec fn element_fixed(self) -> (EmitterView, Seq<char>) {
        if self.config.normalize_empty_elements && self.just_wrote_start_element {
            (EmitterView { just_wrote_start_element: false, ..self }, ">"@)
        } else {
            (self, Seq::empty())
        }
    }

    /// A processing instruction as it is written, and the emitter after it.
    pub open spec fn processing_instruction(self, name: Seq<char>, data: Option<Seq<char>>) -> (
        EmitterView,
        Seq<char>,
    ) {
        let (a, t1) = self.document_checked();
        let (b, t2) = a.element_fixed();
        let (c, t3) = b.before_markup();
        (
            c.marked(IndentFlags::WroteMarkup),
            t1 + t2 + t3 + "<?"@ + name + (match data {
                Some(d) => " "@ + d,
                None => Seq::empty(),
            }) + "?>"@,
        )
    }

    /// The declarations of the bindings of the top frame.
    pub open spec fn current_namespace_attributes(self) -> Seq<char> {
        if self.frames.len() > 0 {
            namespace_attributes(self.frames.last())
        } else {
            Seq::empty()
        }
    }

    /// A start tag without its `>`, as it is written, and the emitter after
    /// it.
    pub open spec fn start_element_initial(self, name: NameView, attributes: Seq<AttributeView>) -> (
        EmitterView,
        Seq<char>,
    ) {
        let (a, t1) = self.document_checked();
        let (b, t2) = a.element_fixed();
        let (c, t3) = b.before_markup();
        let d = EmitterView { indent_stack: c.indent_stack.push(IndentFlags::WroteNothing), ..c };
        let e = d.marked(IndentFlags::WroteMarkup);
        (
            EmitterView { indent_level: e.indent_level + 1, ..e },
            t1 + t2 + t3 + "<"@ + name.repr() + self.current_namespace_attributes() + attributes_text(
                attributes,
                self.config.perform_escaping,
            ),
        )
    }

    /// A start tag as it is written, and the emitter after it.  The `>` is
    /// left out where empty elements are written as one tag: it is written
    /// once it is known that the element has content.
    pub open spec fn start_element(self, name: NameView, attributes: Seq<AttributeView>) -> (
        EmitterView,
        Seq<char>,
    ) {
        let named = if self.config.keep_element_names_stack {
            EmitterView { element_names: self.element_names.push(name), ..self }
        } else {
            self
        };
        let (a, t) = named.start_element_initial(name, attributes);
        (
            EmitterView { just_wrote_start_element: true, ..a },
            t + (if self.config.normalize_empty_elements { Seq::empty() } else { ">"@ }),
        )
    }

    /// The end of an element as it is written, the emitter after it, and the
    /// error if there is one.
    ///
    /// Where names are remembered, the name of the open element is taken
    /// from the stack; it is an error if there is none, or if a name is
    /// given that differs from it.  Where they are not, the given name is
    /// used, and it is an error if none is given.
    pub open spec fn end_element(self, name: Option<NameView>) -> (EmitterView, Seq<char>, Option<EmitterError>) {
        if self.config.keep_element_names_stack && self.element_names.len() == 0 {
            (self, Seq::empty(), Some(EmitterError::LastElementNameNotAvailable))
        } else {
            let popped = if self.config.keep_element_names_stack {
                EmitterView { element_names: self.element_names.drop_last(), ..self }
            } else {
                self
            };
            let owned = if self.config.keep_element_names_stack {
                Some(self.element_names.last())
            } else {
                None
            };
            if owned is Some && name is Some && owned->0 != name->0 {
                (popped, Seq::empty(), Some(EmitterError::EndElementNameIsNotEqualToLastStartElementName))
            } else if owned is None && name is None {
                (popped, Seq::empty(), Some(EmitterError::EndElementNameIsNotSpecified))
            } else {
                let used = if owned is Some { owned->0 } else { name->0 };
                let closed = EmitterView { just_wrote_start_element: false, ..popped };
                if self.config.normalize_empty_elements && self.just_wrote_start_element {
                    (
                        closed.after_end_element(),
                        if self.config.pad_self_closing { " />"@ } else { "/>"@ },
                        None,
                    )
                } else {
                    (
                        closed.after_end_element(),
                        closed.before_end_element() + "</"@ + used.repr() + ">"@,
                        None,
                    )
                }
            }
        }
    }

    /// Character data as it is written, and the emitter after it.
    pub open spec fn characters(self, content: Seq<char>) -> (EmitterView, Seq<char>) {
        let (a, t1) = self.document_checked();
        let (b, t2) = a.element_fixed();
        (
            b.marked(IndentFlags::WroteText),
            t1 + t2 + (if self.config.perform_escaping { escaped(content, Context::PcData) } else { content }),
        )
    }

    /// Text that is written as it is, and the emitter after it.
    pub open spec fn raw_characters(self, content: Seq<char>) -> (EmitterView, Seq<char>) {
        let (a, t1) = self.document_checked();
        let (b, t2) = a.element_fixed();
        (b.marked(IndentFlags::WroteText), t1 + t2 + content)
    }

    /// A CDATA section as it is written, and the emitter after it.  The
    /// default document declaration comes first where it is due.
    pub open spec fn cdata(self, content: Seq<char>) -> (EmitterView, Seq<char>) {
        let (d, t0) = self.document_checked();
        let (a, t1) = d.element_fixed();
        if self.config.cdata_to_characters {
            let (b, t2) = a.characters(content);
            (b, t0 + t1 + t2)
        } else {
            (a.marked(IndentFlags::WroteText), t0 + t1 + "<![CDATA["@ + cdata_escaped(content) + "]]>"@)
        }
    }

    /// A comment as it is written, and the emitter after it.  The default
    /// document declaration comes first where it is due.  Where comments are
    /// padded, a space goes at each end of the content that does not have
    /// white space of the XML grammar there: space, tab, line feed or
    /// carriage return.
    pub open spec fn comment(self, content: Seq<char>) -> (EmitterView, Seq<char>) {
        let (d, t0) = self.document_checked();
        let (a, t1) = d.element_fixed();
        let (b, t2) = a.before_markup();
        let pad_front = self.config.autopad_comments && !(content.len() > 0 && crate::common::is_whitespace(
            content[0],
        ));
        let pad_back = self.config.autopad_comments && !(content.len() > 0 && crate::common::is_whitespace(
            content.last(),
        ));
        (
            b.marked(IndentFlags::WroteMarkup),
            t0 + t1 + t2 + "<!--"@ + (if pad_front { " "@ } else { Seq::empty() }) + comment_escaped(content) + (if pad_back {
                " "@
            } else {
                Seq::empty()
            }) + "-->"@,
        )
    }
}


/// Appends the contents of a CDATA section for `s` to `out`.
pub fn push_cdata_escaped(out: &mut String, s: &str)
    ensures
        final(out)@ == old(out)@ + cdata_escaped(s@),
{
    let chars = str_chars(s);
    let ghost before = out@;
    let ghost done = Seq::<char>::empty();
    let mut i: usize = 0;
    assert(chars@.skip(0) == chars@);
    assert(before + done == before);
    assert(done + cdata_escaped(chars@) == cdata_escaped(chars@));
    while i < chars.len()
        invariant
            i <= chars.len(),
            chars@ == s@,
            out@ == before + done,
            cdata_escaped(chars@) == done + cdata_escaped(chars@.skip(i as int)),
        decreases chars.len() - i,
    {
        let ghost rest = chars@.skip(i as int);
        let ghost tail = cdata_escaped(rest);
        if chars[i] == ']' && chars.len() - i > 2 && chars[i + 1] == ']' && chars[i + 2] == '>' {
            out.append("]]]]><![CDATA[>");
            proof {
                assert(rest.skip(3) == chars@.skip(i + 3));
                let piece = "]]]]><![CDATA[>"@;
                assert(done + tail == (done + piece) + cdata_escaped(rest.skip(3)));
                assert(before + done + piece == before + (done + piece));
                done = done + piece;
            }
            i = i + 3;
        } else {
            crate::text::push_char(out, chars[i]);
            proof {
                assert(rest.skip(1) == chars@.skip(i + 1));
                let piece = seq![chars@[i as int]];
                assert(rest[0] == chars@[i as int]);
                assert(done + tail == (done + piece) + cdata_escaped(rest.skip(1)));
                assert(before + done + piece == before + (done + piece));
                done = done + piece;
            }
            i = i + 1;
        }
    }
    proof {
        assert(chars@.skip(chars@.len() as int).len() == 0);
        assert(done + Seq::<char>::empty() == done);
    }
}

/// Appends the contents of a comment for `s` to `out`.
pub fn push_comment_escaped(out: &mut String, s: &str)
    ensures
        final(out)@ == old(out)@ + comment_escaped(s@),
{
    let chars = str_chars(s);
    let ghost before = out@;
    let ghost done = Seq::<char>::empty();
    let mut i: usize = 0;
    assert(chars@.skip(0) == chars@);
    assert(before + done == before);
    assert(done + comment_escaped(chars@) == comment_escaped(chars@));
    while i < chars.len()
        invariant
            i <= chars.len(),
            chars@ == s@,
            out@ == before + done,
            comment_escaped(chars@) == done + comment_escaped(chars@.skip(i as int)),
        decreases chars.len() - i,
    {
        let ghost rest = chars@.skip(i as int);
        let ghost tail = comment_escaped(rest);
        if chars[i] == '-' && chars.len() - i > 1 && chars[i + 1] == '-' {
            out.append("- ");
            proof {
                assert(rest.skip(2) == chars@.skip(i + 2));
                let piece = "- "@;
                assert(done + tail == (done + piece) + comment_escaped(rest.skip(2)));
                assert(before + done + piece == before + (done + piece));
                done = done + piece;
            }
            i = i + 2;
        } else {
            crate::text::push_char(out, chars[i]);
            proof {
                assert(rest.skip(1) == chars@.skip(i + 1));
                let piece = seq![chars@[i as int]];
                assert(rest[0] == chars@[i as int]);
                assert(done + tail == (done + piece) + comment_escaped(rest.skip(1)));
                assert(before + done + piece == before + (done + piece));
                done = done + piece;
            }
            i = i + 1;
        }
    }
    proof {
        assert(chars@.skip(chars@.len() as int).len() == 0);
        assert(done + Seq::<char>::empty() == done);
    }
}

/// The emit engine of the writer.  It keeps track of the open elements, of
/// the namespaces in scope and of the indentation, and writes each piece of
/// a document to a sink of text.
pub struct Emitter {
    config: EmitterConfig,
    nst: NamespaceStack,
    indent_level: usize,
    indent_stack: Vec<IndentFlags>,
    element_names: Vec<OwnedName>,
    start_document_emitted: bool,
    just_wrote_start_element: bool,
}

impl View for Emitter {
    type V = EmitterView;

    closed spec fn view(&self) -> EmitterView {
        EmitterView {
            config: self.config@,
            frames: self.nst@,
            indent_level: self.indent_level as nat,
            indent_stack: self.indent_stack@,
            element_names: self.element_names@.map_values(|n: OwnedName| n@),
            start_document_emitted: self.start_document_emitted,
            just_wrote_start_element: self.just_wrote_start_element,
        }
    }
}

/// The emitter before anything has been written.
pub open spec fn fresh(config: ConfigView) -> EmitterView {
    EmitterView {
        config,
        frames: Seq::empty(),
        indent_level: 0,
        indent_stack: seq![IndentFlags::WroteNothing],
        element_names: Seq::empty(),
        start_document_emitted: false,
        just_wrote_start_element: false,
    }
}

impl Emitter {
    /// An emitter that has written nothing yet.
    pub fn new(config: EmitterConfig) -> (r: Emitter)
        ensures
            r@ == fresh(config@),
            r@.wf(),
    {
        let mut indent_stack: Vec<IndentFlags> = Vec::new();
        indent_stack.push(IndentFlags::WroteNothing);
        let r = Emitter {
            config,
            nst: NamespaceStack::empty(),
            indent_level: 0,
            indent_stack,
            element_names: Vec::new(),
            start_document_emitted: false,
            just_wrote_start_element: false,
        };
        assert(r@.element_names =~= Seq::empty());
        assert(r@.frames =~= Seq::empty());
        assert(r@.indent_stack =~= seq![IndentFlags::WroteNothing]);
        r
    }

    /// The namespaces in scope, for the caller to change.
    pub fn namespace_stack_mut(&mut self) -> (r: &mut NamespaceStack)
        ensures
            r@ == old(self)@.frames,
            final(self)@ == (EmitterView { frames: final(r)@, ..old(self)@ }),
    {
        &mut self.nst
    }

    /// Opens a scope for an element: puts a new frame on the namespace
    /// stack and binds in it what `namespace` binds and what is not in scope
    /// already.
    pub fn push_namespaces(&mut self, namespace: &Namespace)
        requires
            frames_wf(old(self)@.frames),
        ensures
            frames_wf(final(self)@.frames),
            final(self)@ == (EmitterView { frames: scoped(old(self)@.frames, namespace@), ..old(self)@ }),
    {
        self.nst.push_empty();
        let mut i: usize = 0;
        assert(namespace@.take(0) == Bindings::empty());
        while i < namespace.len()
            invariant
                i <= namespace@.len(),
                self.nst.wf(),
                self.nst@ == extended(old(self)@.frames.push(Seq::empty()), namespace@.take(i as int)),
                self.config == old(self).config,
                self.indent_level == old(self).indent_level,
                self.indent_stack == old(self).indent_stack,
                self.element_names == old(self).element_names,
                self.start_document_emitted == old(self).start_document_emitted,
                self.just_wrote_start_element == old(self).just_wrote_start_element,
            decreases namespace@.len() - i,
        {
            let (p, u) = namespace.entry(i);
            proof {
                let t = namespace@.take(i + 1);
                assert(t.drop_last() == namespace@.take(i as int));
                assert(t.last() == namespace@[i as int]);
            }
            self.nst.put_checked(p, u);
            i = i + 1;
        }
        assert(namespace@.take(namespace@.len() as int) == namespace@);
    }

    /// Closes the scope of an element: takes the top frame off the namespace
    /// stack, if there is one.
    pub fn pop_namespaces(&mut self)
        ensures
            final(self)@ == (EmitterView {
                frames: if old(self)@.frames.len() > 0 {
                    old(self)@.frames.drop_last()
                } else {
                    old(self)@.frames
                },
                ..old(self)@
            }),
            frames_wf(old(self)@.frames) ==> frames_wf(final(self)@.frames),
    {
        let _ = self.nst.try_pop();
    }

    fn wrote_text(&self) -> (r: bool)
        ensures
            r == self@.wrote_text(),
    {
        let n = self.indent_stack.len();
        n > 0 && self.indent_stack[n - 1] == IndentFlags::WroteText
    }

    fn wrote_markup(&self) -> (r: bool)
        ensures
            r == self@.wrote_markup(),
    {
        let n = self.indent_stack.len();
        n > 0 && self.indent_stack[n - 1] == IndentFlags::WroteMarkup
    }

    fn set_wrote_text(&mut self)
        ensures
            final(self)@ == old(self)@.marked(IndentFlags::WroteText),
    {
        let n = self.indent_stack.len();
        if n > 0 {
            self.indent_stack[n - 1] = IndentFlags::WroteText;
        }
    }

    fn set_wrote_markup(&mut self)
        ensures
            final(self)@ == old(self)@.marked(IndentFlags::WroteMarkup),
    {
        let n = self.indent_stack.len();
        if n > 0 {
            self.indent_stack[n - 1] = IndentFlags::WroteMarkup;
        }
    }

    /// Ends the line and indents the next one by `level` levels.
    fn write_newline(&self, target: &mut String, level: usize)
        ensures
            final(target)@ == old(target)@ + self@.newline(level as nat),
    {
        let ghost before = target@;
        target.append(self.config.line_separator.as_str());
        let mut i: usize = 0;
        assert(target@ == before + (self@.config.line_separator + repeated(self@.config.indent_string, 0)));
        while i < level
            invariant
                i <= level,
                target@ == before + (self@.config.line_separator + repeated(self@.config.indent_string, i as nat)),
            decreases level - i,
        {
            target.append(self.config.indent_string.as_str());
            assert(target@ == before + (self@.config.line_separator + repeated(
                self@.config.indent_string,
                (i + 1) as nat,
            )));
            i = i + 1;
        }
    }

    /// Starts a new line before a piece of markup where the output is
    /// indented.
    fn before_markup(&mut self, target: &mut String)
        ensures
            final(self)@ == old(self)@.before_markup().0,
            final(target)@ == old(target)@ + old(self)@.before_markup().1,
            final(self)@.indent_level == old(self)@.indent_level,
            final(self)@.indent_stack.len() == old(self)@.indent_stack.len(),
            final(self)@.frames == old(self)@.frames,
            final(self)@.config == old(self)@.config,
    {
        proof {
            reveal(EmitterView::before_markup);
        }
        if self.config.perform_indent && !self.wrote_text() && (self.indent_level > 0 || self.wrote_markup()) {
            let indent_level = self.indent_level;
            self.write_newline(target, indent_level);
            if self.indent_level > 0 && self.config.indent_string.as_str().unicode_len() > 0 {
                self.after_markup();
            }
        } else {
            assert(target@ + Seq::<char>::empty() == target@);
        }
    }

    fn after_markup(&mut self)
        ensures
            final(self)@ == old(self)@.marked(IndentFlags::WroteMarkup),
    {
        self.set_wrote_markup();
    }

    fn before_start_element(&mut self, target: &mut String)
        ensures
            final(self)@ == (EmitterView {
                indent_stack: old(self)@.before_markup().0.indent_stack.push(IndentFlags::WroteNothing),
                ..old(self)@.before_markup().0
            }),
            final(target)@ == old(target)@ + old(self)@.before_markup().1,
            final(self)@.indent_level == old(self)@.indent_level,
            final(self)@.indent_stack.len() == old(self)@.indent_stack.len() + 1,
            final(self)@.frames == old(self)@.frames,
            final(self)@.config == old(self)@.config,
    {
        self.before_markup(target);
        self.indent_stack.push(IndentFlags::WroteNothing);
    }

    fn after_start_element(&mut self)
        requires
            old(self)@.indent_level + 2 == old(self)@.indent_stack.len(),
        ensures
            final(self)@ == (EmitterView {
                indent_level: old(self)@.indent_level + 1,
                ..old(self)@.marked(IndentFlags::WroteMarkup)
            }),
    {
        self.after_markup();
        assert(self.indent_level + 2 == self.indent_stack.len());
        self.indent_level = self.indent_level + 1;
    }

    fn before_end_element(&self, target: &mut String)
        ensures
            final(target)@ == old(target)@ + self@.before_end_element(),
    {
        if self.config.perform_indent && self.indent_level > 0 && self.wrote_markup() && !self.wrote_text() {
            let indent_level = self.indent_level;
            self.write_newline(target, indent_level - 1);
        } else {
            assert(target@ + Seq::<char>::empty() == target@);
        }
    }

    fn after_end_element(&mut self)
        requires
            old(self)@.wf(),
        ensures
            final(self)@.wf(),
            final(self)@ == old(self)@.after_end_element(),
    {
        if self.indent_level > 0 {
            self.indent_level = self.indent_level - 1;
            self.indent_stack.pop();
        }
        self.set_wrote_markup();
    }

    fn after_text(&mut self)
        ensures
            final(self)@ == old(self)@.marked(IndentFlags::WroteText),
    {
        self.set_wrote_text();
    }

    /// Writes the document declaration.  Fails, and writes nothing, where one
    /// has been written already.
    pub fn emit_start_document(
        &mut self,
        target: &mut String,
        version: XmlVersion,
        encoding: &str,
        standalone: Option<bool>,
    ) -> (r: Result<(), EmitterError>)
        ensures
            old(self)@.start_document_emitted ==> r == Err::<(), EmitterError>(
                EmitterError::DocumentStartAlreadyEmitted,
            ) && final(self)@ == old(self)@ && final(target)@ == old(target)@,
            !old(self)@.start_document_emitted ==> r is Ok && final(self)@ == old(self)@.start_document(
                version.text(),
                encoding@,
                standalone,
            ).0 && final(target)@ == old(target)@ + old(self)@.start_document(version.text(), encoding@, standalone).1,
            final(self)@.indent_level == old(self)@.indent_level,
            final(self)@.indent_stack.len() == old(self)@.indent_stack.len(),
            final(self)@.frames == old(self)@.frames,
            final(self)@.config == old(self)@.config,
            old(self)@.wf() ==> final(self)@.wf(),
    {
        proof {
            reveal(EmitterView::start_document);
        }
        if self.start_document_emitted {
            return Err(EmitterError::DocumentStartAlreadyEmitted);
        }
        self.start_document_emitted = true;
        let ghost lead = self@.before_markup().1;
        self.before_markup(target);
        target.append("<?xml version=\"");
        target.append(version.as_str());
        target.append("\" encoding=\"");
        target.append(encoding);
        target.append("\"");
        match standalone {
            Some(true) => target.append(" standalone=\"yes\""),
            Some(false) => target.append(" standalone=\"no\""),
            None => {},
        }
        target.append("?>");
        self.after_markup();
        assert(target@ =~= old(target)@ + old(self)@.start_document(version.text(), encoding@, standalone).1);
        Ok(())
    }

    /// Writes the default document declaration where one is due and none
    /// has been written.
    fn check_document_started(&mut self, target: &mut String)
        ensures
            final(self)@ == old(self)@.document_checked().0,
            final(target)@ == old(target)@ + old(self)@.document_checked().1,
            final(self)@.indent_level == old(self)@.indent_level,
            final(self)@.indent_stack.len() == old(self)@.indent_stack.len(),
            final(self)@.frames == old(self)@.frames,
            final(self)@.config == old(self)@.config,
    {
        if !self.start_document_emitted && self.config.write_document_declaration {
            let _ = self.emit_start_document(target, XmlVersion::Version10, "UTF-8", None);
        } else {
            assert(target@ + Seq::<char>::empty() == target@);
        }
    }

    /// Writes the `>` that is still owed to the last start tag.
    fn fix_non_empty_element(&mut self, target: &mut String)
        ensures
            final(self)@ == old(self)@.element_fixed().0,
            final(target)@ == old(target)@ + old(self)@.element_fixed().1,
    {
        if self.config.normalize_empty_elements && self.just_wrote_start_element {
            self.just_wrote_start_element = false;
            target.append(">");
        } else {
            assert(target@ + Seq::<char>::empty() == target@);
        }
    }

    /// Writes a processing instruction: `<?name data?>`, or `<?name?>`
    /// without data.
    pub fn emit_processing_instruction(&mut self, target: &mut String, name: &str, data: Option<&str>) -> (r:
        Result<(), EmitterError>)
        ensures
            r is Ok,
            final(self)@ == old(self)@.processing_instruction(
                name@,
                match data {
                    Some(d) => Some(d@),
                    None => None,
                },
            ).0,
            final(target)@ == old(target)@ + old(self)@.processing_instruction(
                name@,
                match data {
                    Some(d) => Some(d@),
                    None => None,
                },
            ).1,
            old(self)@.wf() ==> final(self)@.wf(),
            final(self)@.frames == old(self)@.frames,
    {
        self.check_document_started(target);
        self.fix_non_empty_element(target);
        self.before_markup(target);
        target.append("<?");
        target.append(name);
        if let Some(d) = data {
            target.append(" ");
            target.append(d);
        }
        target.append("?>");
        self.after_markup();
        assert(target@ =~= old(target)@ + old(self)@.processing_instruction(
            name@,
            match data {
                Some(d) => Some(d@),
                None => None,
            },
        ).1);
        Ok(())
    }

    /// Writes a start tag without its `>`.
    fn emit_start_element_initial(&mut self, target: &mut String, name: Name<'_>, attributes: &[Attribute<'_>])
        requires
            old(self)@.wf(),
        ensures
            final(self)@.wf(),
            final(self)@ == old(self)@.start_element_initial(name@, views_of(attributes@)).0,
            final(target)@ == old(target)@ + old(self)@.start_element_initial(name@, views_of(attributes@)).1,
            final(self)@.config == old(self)@.config,
            final(self)@.frames == old(self)@.frames,
    {
        let ghost (a, t1) = old(self)@.document_checked();
        let ghost (b, t2) = a.element_fixed();
        let ghost (c, t3) = b.before_markup();
        self.check_document_started(target);
        assert(self@ == a && target@ == old(target)@ + t1);
        self.fix_non_empty_element(target);
        assert(self@ == b && target@ == old(target)@ + t1 + t2);
        self.before_start_element(target);
        assert(target@ == old(target)@ + t1 + t2 + t3);
        assert(self@.frames == old(self)@.frames && self@.config == old(self)@.config);
        target.append("<");
        name.push_repr(target);
        let _ = self.emit_current_namespace_attributes(target);
        let _ = self.emit_attributes(target, attributes);
        self.after_start_element();
        assert(target@ =~= old(target)@ + (t1 + t2 + t3 + "<"@ + name@.repr() + old(self)@.current_namespace_attributes()
            + attributes_text(views_of(attributes@), old(self)@.config.perform_escaping)));
    }

    /// Writes a start tag with the declarations of the namespaces of the top
    /// frame and the given attributes.
    pub fn emit_start_element(&mut self, target: &mut String, name: Name<'_>, attributes: &[Attribute<'_>]) -> (r:
        Result<(), EmitterError>)
        requires
            old(self)@.wf(),
        ensures
            final(self)@.wf(),
            r is Ok,
            final(self)@ == old(self)@.start_element(name@, views_of(attributes@)).0,
            final(target)@ == old(target)@ + old(self)@.start_element(name@, views_of(attributes@)).1,
            final(self)@.frames == old(self)@.frames,
    {
        if self.config.keep_element_names_stack {
            self.element_names.push(name.to_owned());
            assert(self@.element_names =~= old(self)@.element_names.push(name@));
        }
        let ghost named = self@;
        let ghost t = named.start_element_initial(name@, views_of(attributes@)).1;
        self.emit_start_element_initial(target, name, attributes);
        self.just_wrote_start_element = true;
        if !self.config.normalize_empty_elements {
            target.append(">");
            assert(target@ =~= old(target)@ + (t + ">"@));
        } else {
            assert(target@ =~= old(target)@ + (t + Seq::<char>::empty()));
        }
        Ok(())
    }

    /// Writes the declarations of the namespaces of the top frame.
    pub fn emit_current_namespace_attributes(&self, target: &mut String) -> (r: Result<(), EmitterError>)
        ensures
            r is Ok,
            final(target)@ == old(target)@ + self@.current_namespace_attributes(),
    {
        let ghost before = target@;
        if self.nst.len() == 0 {
            assert(target@ + Seq::<char>::empty() == target@);
            return Ok(());
        }
        let frame = self.nst.peek();
        let mut i: usize = 0;
        assert(frame@.take(0) == Bindings::empty());
        assert(before + namespace_attributes(frame@.take(0)) == before);
        while i < frame.len()
            invariant
                i <= frame@.len(),
                frame@ == self@.frames.last(),
                target@ == before + namespace_attributes(frame@.take(i as int)),
            decreases frame@.len() - i,
        {
            let (prefix, uri) = frame.entry(i);
            proof {
                let t = frame@.take(i + 1);
                assert(t.drop_last() == frame@.take(i as int));
                assert(t.last() == frame@[i as int]);
            }
            let ghost prev = target@;
            if str_eq(prefix, NS_XMLNS_PREFIX) || str_eq(prefix, NS_XML_PREFIX) {
            } else if str_eq(prefix, NS_NO_PREFIX) {
                if !str_eq(uri, NS_EMPTY_URI) {
                    target.append(" xmlns=\"");
                    target.append(uri);
                    target.append("\"");
                }
            } else {
                target.append(" xmlns:");
                target.append(prefix);
                target.append("=\"");
                target.append(uri);
                target.append("\"");
            }
            assert(target@ =~= prev + namespace_attribute(prefix@, uri@));
            assert(target@ =~= before + namespace_attributes(frame@.take(i + 1)));
            i = i + 1;
        }
        assert(frame@.take(frame@.len() as int) == frame@);
        Ok(())
    }

    /// Writes attributes: for each a space, the name and the value between
    /// double quotes.
    pub fn emit_attributes(&self, target: &mut String, attributes: &[Attribute<'_>]) -> (r: Result<
        (),
        EmitterError,
    >)
        ensures
            r is Ok,
            final(target)@ == old(target)@ + attributes_text(views_of(attributes@), self@.config.perform_escaping),
    {
        let ghost before = target@;
        let ghost all = views_of(attributes@);
        let ghost escaping = self@.config.perform_escaping;
        let mut i: usize = 0;
        assert(all.take(0) == Seq::<AttributeView>::empty());
        assert(before + attributes_text(all.take(0), escaping) == before);
        while i < attributes.len()
            invariant
                i <= attributes.len(),
                all == views_of(attributes@),
                escaping == self@.config.perform_escaping,
                target@ == before + attributes_text(all.take(i as int), escaping),
            decreases attributes.len() - i,
        {
            let attr = &attributes[i];
            proof {
                let t = all.take(i + 1);
                assert(t.drop_last() == all.take(i as int));
                assert(t.last() == attr@);
            }
            let ghost prev = target@;
            target.append(" ");
            attr.name.push_repr(target);
            target.append("=\"");
            if self.config.perform_escaping {
                push_escaped(target, attr.value, Context::Attribute);
            } else {
                target.append(attr.value);
            }
            target.append("\"");
            assert(target@ =~= prev + attribute_text(attr@, escaping));
            assert(target@ =~= before + attributes_text(all.take(i + 1), escaping));
            i = i + 1;
        }
        assert(all.take(all.len() as int) == all);
        Ok(())
    }

    /// Writes the end of the current element: the rest of a self-closing tag
    /// where nothing was written since the start tag and empty elements are
    /// written as one tag, else an end tag.
    ///
    /// Fails where the name of the element is not known, or where the given
    /// name is not the name of the open element.
    pub fn emit_end_element(&mut self, target: &mut String, name: Option<Name<'_>>) -> (r: Result<
        (),
        EmitterError,
    >)
        requires
            old(self)@.wf(),
        ensures
            final(self)@.wf(),
            final(self)@ == old(self)@.end_element(
                match name {
                    Some(n) => Some(n@),
                    None => None,
                },
            ).0,
            final(target)@ == old(target)@ + old(self)@.end_element(
                match name {
                    Some(n) => Some(n@),
                    None => None,
                },
            ).1,
            match old(self)@.end_element(
                match name {
                    Some(n) => Some(n@),
                    None => None,
                },
            ).2 {
                Some(e) => r == Err::<(), EmitterError>(e),
                None => r is Ok,
            },
            final(self)@.frames == old(self)@.frames,
    {
        proof {
            assert(target@ + Seq::<char>::empty() == target@);
        }
        let owned_name: Option<OwnedName> = if self.config.keep_element_names_stack {
            match self.element_names.pop() {
                Some(n) => {
                    assert(self@.element_names =~= old(self)@.element_names.drop_last());
                    Some(n)
                },
                None => {
                    assert(self@.element_names =~= old(self)@.element_names);
                    return Err(EmitterError::LastElementNameNotAvailable);
                },
            }
        } else {
            None
        };
        if let Some(last_name) = &owned_name {
            if let Some(given) = &name {
                if !last_name.borrow().same_as(given) {
                    return Err(EmitterError::EndElementNameIsNotEqualToLastStartElementName);
                }
            }
        }
        let used: Name<'_> = match &owned_name {
            Some(n) => n.borrow(),
            None => match name {
                Some(n) => n,
                None => {
                    return Err(EmitterError::EndElementNameIsNotSpecified);
                },
            },
        };
        if self.config.normalize_empty_elements && self.just_wrote_start_element {
            self.just_wrote_start_element = false;
            if self.config.pad_self_closing {
                target.append(" />");
            } else {
                target.append("/>");
            }
            self.after_end_element();
            Ok(())
        } else {
            self.just_wrote_start_element = false;
            self.before_end_element(target);
            target.append("</");
            used.push_repr(target);
            target.append(">");
            self.after_end_element();
            assert(target@ =~= old(target)@ + old(self)@.end_element(
                match name {
                    Some(n) => Some(n@),
                    None => None,
                },
            ).1);
            Ok(())
        }
    }

    /// Writes a CDATA section, or character data where CDATA sections are
    /// written as such, after the default document declaration where that is
    /// due.
    pub fn emit_cdata(&mut self, target: &mut String, content: &str) -> (r: Result<(), EmitterError>)
        ensures
            r is Ok,
            final(self)@ == old(self)@.cdata(content@).0,
            final(target)@ == old(target)@ + old(self)@.cdata(content@).1,
            old(self)@.wf() ==> final(self)@.wf(),
            final(self)@.frames == old(self)@.frames,
    {
        self.check_document_started(target);
        self.fix_non_empty_element(target);
        if self.config.cdata_to_characters {
            let r = self.emit_characters(target, content);
            assert(target@ =~= old(target)@ + old(self)@.cdata(content@).1);
            r
        } else {
            target.append("<![CDATA[");
            push_cdata_escaped(target, content);
            target.append("]]>");
            self.after_text();
            assert(target@ =~= old(target)@ + old(self)@.cdata(content@).1);
            Ok(())
        }
    }

    /// Writes character data, escaped where escaping is switched on.
    pub fn emit_characters(&mut self, target: &mut String, content: &str) -> (r: Result<(), EmitterError>)
        ensures
            r is Ok,
            final(self)@ == old(self)@.characters(content@).0,
            final(target)@ == old(target)@ + old(self)@.characters(content@).1,
            old(self)@.wf() ==> final(self)@.wf(),
            final(self)@.frames == old(self)@.frames,
    {
        self.check_document_started(target);
        self.fix_non_empty_element(target);
        if self.config.perform_escaping {
            push_escaped(target, content, Context::PcData);
        } else {
            target.append(content);
        }
        self.after_text();
        assert(target@ =~= old(target)@ + old(self)@.characters(content@).1);
        Ok(())
    }

    /// Writes text as it is.
    pub fn emit_raw_characters(&mut self, target: &mut String, content: &str) -> (r: Result<(), EmitterError>)
        ensures
            r is Ok,
            final(self)@ == old(self)@.raw_characters(content@).0,
            final(target)@ == old(target)@ + old(self)@.raw_characters(content@).1,
            old(self)@.wf() ==> final(self)@.wf(),
            final(self)@.frames == old(self)@.frames,
    {
        self.check_document_started(target);
        self.fix_non_empty_element(target);
        target.append(content);
        self.after_text();
        assert(target@ =~= old(target)@ + old(self)@.raw_characters(content@).1);
        Ok(())
    }

    /// Writes a comment, after the default document declaration where that
    /// is due.  Every `--` in the content is written as `- `; where comments
    /// are padded, a space goes at each end that has no white space of the
    /// XML grammar (space, tab, line feed, carriage return).
    pub fn emit_comment(&mut self, target: &mut String, content: &str) -> (r: Result<(), EmitterError>)
        ensures
            r is Ok,
            final(self)@ == old(self)@.comment(content@).0,
            final(target)@ == old(target)@ + old(self)@.comment(content@).1,
            old(self)@.wf() ==> final(self)@.wf(),
            final(self)@.frames == old(self)@.frames,
    {
        self.check_document_started(target);
        self.fix_non_empty_element(target);
        let chars = str_chars(content);
        let n = chars.len();
        let pad_front = self.config.autopad_comments && !(n > 0 && crate::common::is_whitespace_char(chars[0]));
        let pad_back = self.config.autopad_comments && !(n > 0 && crate::common::is_whitespace_char(chars[n - 1]));
        self.before_markup(target);
        target.append("<!--");
        if pad_front {
            target.append(" ");
        }
        push_comment_escaped(target, content);
        if pad_back {
            target.append(" ");
        }
        target.append("-->");
        self.after_markup();
        assert(target@ =~= old(target)@ + old(self)@.comment(content@).1);
        Ok(())
    }
}

} // verus!
