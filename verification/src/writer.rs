//! The streaming writer: events in, text out.

use vstd::prelude::*;
use vstd::string::*;
use crate::writer::emitter::{fresh, frames_wf, scoped, views_of, Emitter, EmitterView};

pub use crate::writer::config::EmitterConfig;
pub use crate::writer::emitter::EmitterError;
pub use crate::writer::events::XmlEvent;

pub mod config;
pub mod emitter;
pub mod events;

verus! {

/// What writing `event` adds to the text, the emitter afterwards, and the
/// error if there is one.
///
/// The start of an element opens a scope that binds those namespaces of the
/// event that are not in scope already, and declares them on the element; the
/// end of an element closes the scope.  A document declaration without an
/// encoding declares UTF-8.  A document type declaration is written as it
/// is.
pub open spec fn written(v: EmitterView, event: XmlEvent<'_>) -> (EmitterView, Seq<char>, Option<EmitterError>) {
    match event {
        XmlEvent::StartDocument { version, encoding, standalone } => {
            if v.start_document_emitted {
                (v, Seq::empty(), Some(EmitterError::DocumentStartAlreadyEmitted))
            } else {
                let m = v.start_document(
                    version.text(),
                    match encoding {
                        Some(e) => e@,
                        None => "UTF-8"@,
                    },
                    standalone,
                );
                (m.0, m.1, None)
            }
        },
        XmlEvent::ProcessingInstruction { name, data } => {
            let m = v.processing_instruction(
                name@,
                match data {
                    Some(d) => Some(d@),
                    None => None,
                },
            );
            (m.0, m.1, None)
        },
        XmlEvent::StartElement { name, attributes, namespace } => {
            let m = (EmitterView { frames: scoped(v.frames, namespace@), ..v }).start_element(
                name@,
                views_of(attributes@),
            );
            (m.0, m.1, None)
        },
        XmlEvent::EndElement { name } => {
            let m = v.end_element(
                match name {
                    Some(n) => Some(n@),
                    None => None,
                },
            );
            (
                EmitterView { frames: if m.0.frames.len() > 0 { m.0.frames.drop_last() } else { m.0.frames }, ..m.0 },
                m.1,
                m.2,
            )
        },
        XmlEvent::Comment(content) => {
            let m = v.comment(content@);
            (m.0, m.1, None)
        },
        XmlEvent::CData(content) => {
            let m = v.cdata(content@);
            (m.0, m.1, None)
        },
        XmlEvent::Characters(content) => {
            let m = v.characters(content@);
            (m.0, m.1, None)
        },
        XmlEvent::RawCharacters(content) => {
            let m = v.raw_characters(content@);
            (m.0, m.1, None)
        },
        XmlEvent::Doctype(content) => {
            let m = v.raw_characters(content@);
            (m.0, m.1, None)
        },
    }
}

/// A writer of XML documents: it takes events and keeps the text that they
/// make.
pub struct EventWriter {
    sink: String,
    emitter: Emitter,
}

impl EventWriter {
    /// The emitter of the writer as a value.
    pub closed spec fn state(&self) -> EmitterView {
        self.emitter@
    }

    /// The text written so far.
    pub closed spec fn text(&self) -> Seq<char> {
        self.sink@
    }

    /// The indentation is consistent and no namespace frame binds a prefix
    /// twice.
    pub open spec fn wf(&self) -> bool {
        self.state().wf() && frames_wf(self.state().frames)
    }

    /// A writer with the default options that has written nothing.
    pub fn new() -> (r: EventWriter)
        ensures
            r.wf(),
            r.state() == fresh(EmitterConfig::defaults()),
            r.text() == Seq::<char>::empty(),
    {
        EventWriter::new_with_config(EmitterConfig::new())
    }

    /// A writer with the given options that has written nothing.
    pub fn new_with_config(config: EmitterConfig) -> (r: EventWriter)
        ensures
            r.wf(),
            r.state() == fresh(config@),
            r.text() == Seq::<char>::empty(),
    {
        EventWriter { sink: String::new(), emitter: Emitter::new(config) }
    }

    /// Writes an event.  On an error nothing more is added to the text than
    /// `written` says, and the text so far should be thrown away.
    pub fn write_event(&mut self, event: XmlEvent<'_>) -> (r: Result<(), EmitterError>)
        requires
            old(self).wf(),
        ensures
            final(self).wf(),
            final(self).state() == written(old(self).state(), event).0,
            final(self).text() == old(self).text() + written(old(self).state(), event).1,
            match written(old(self).state(), event).2 {
                Some(e) => r == Err::<(), EmitterError>(e),
                None => r is Ok,
            },
    {
        match event {
            XmlEvent::StartDocument { version, encoding, standalone } => {
                proof {
                    assert(self.sink@ + Seq::<char>::empty() == self.sink@);
                }
                let encoding: &str = match encoding {
                    Some(e) => e,
                    None => "UTF-8",
                };
                self.emitter.emit_start_document(&mut self.sink, version, encoding, standalone)
            },
            XmlEvent::ProcessingInstruction { name, data } => {
                self.emitter.emit_processing_instruction(&mut self.sink, name, data)
            },
            XmlEvent::StartElement { name, attributes, namespace } => {
                self.emitter.push_namespaces(&namespace);
                self.emitter.emit_start_element(&mut self.sink, name, attributes.as_slice())
            },
            XmlEvent::EndElement { name } => {
                let r = self.emitter.emit_end_element(&mut self.sink, name);
                self.emitter.pop_namespaces();
                r
            },
            XmlEvent::Comment(content) => self.emitter.emit_comment(&mut self.sink, content),
            XmlEvent::CData(content) => self.emitter.emit_cdata(&mut self.sink, content),
            XmlEvent::Characters(content) => self.emitter.emit_characters(&mut self.sink, content),
            XmlEvent::RawCharacters(content) => self.emitter.emit_raw_characters(&mut self.sink, content),
            XmlEvent::Doctype(content) => self.emitter.emit_raw_characters(&mut self.sink, content),
        }
    }

    /// Writes what can be made into an event: an event, a builder of one, or
    /// a string slice, which is written as character data.
    pub fn write<'a, E: Into<XmlEvent<'a>>>(&mut self, event: E) -> (r: Result<(), EmitterError>)
        requires
            old(self).wf(),
        ensures
            final(self).wf(),
            exists|made: XmlEvent<'a>| #[trigger]
                call_ensures(E::into, (event,), made) && final(self).state() == written(old(self).state(), made).0
                    && final(self).text() == old(self).text() + written(old(self).state(), made).1 && (match written(
                    old(self).state(),
                    made,
                ).2 {
                    Some(e) => r == Err::<(), EmitterError>(e),
                    None => r is Ok,
                }),
    {
        let made: XmlEvent<'a> = event.into();
        self.write_event(made)
    }

    /// The text written so far.
    pub fn inner_ref(&self) -> (r: &String)
        ensures
            r@ == self.text(),
    {
        &self.sink
    }

    /// The text that was written; the writer is used up.
    pub fn into_inner(self) -> (r: String)
        ensures
            r@ == self.text(),
    {
        self.sink
    }
}

impl EmitterConfig {
    /// A writer with these options.
    pub fn create_writer(self) -> (r: EventWriter)
        ensures
            r.wf(),
            r.state() == fresh(self@),
            r.text() == Seq::<char>::empty(),
    {
        EventWriter::new_with_config(self)
    }
}

} // verus!
