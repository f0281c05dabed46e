//! The pull reader: bytes in, events out.

use vstd::prelude::*;
use vstd::string::*;
use crate::common::TextPosition;
use crate::name::NameView;
use crate::namespace::{Bindings, NamespaceStack};
use crate::reader::events::{polled, Polled};
use crate::reader::parser::model::{parsed, skipped, ParserView};
use crate::reader::parser::{event_step, PullParser};
use crate::util::ByteSource;

pub use crate::reader::config::ParserConfig;
pub use crate::reader::error::{Error, ErrorKind};
pub use crate::reader::events::XmlEvent;

pub mod config;
pub mod error;
pub mod events;
pub mod laws;
pub mod lexer;
pub mod parser;

verus! {

/// A reader of XML documents: it takes bytes from a source and gives the
/// events of the document, one for each call of `next`.
pub struct EventReader {
    source: ByteSource,
    parser: PullParser,
}

impl EventReader {
    /// The source and the parser are well formed.
    pub closed spec fn wf(&self) -> bool {
        self.source.wf() && self.parser.wf()
    }

    /// The parser of the reader as a value.
    pub closed spec fn model(&self) -> ParserView {
        self.parser.model()
    }

    /// The bytes that have not been read yet.
    pub closed spec fn remaining(&self) -> Seq<u8> {
        self.source@
    }

    /// The names of the elements that are open, outermost first: those whose
    /// start has been reported and whose end has not.
    pub closed spec fn open_elements(&self) -> Seq<NameView> {
        self.parser.open_elements()
    }

    /// The namespace scopes of the document so far: one for each open
    /// element, and the one below them that every document starts with.
    pub closed spec fn scopes(&self) -> Seq<Bindings> {
        self.parser.scopes()
    }

    /// What the reader has ended with, if it has ended: the end of the
    /// document or an error.
    pub closed spec fn finished(&self) -> Option<Polled> {
        self.parser.finished()
    }

    /// Whether the end of the source within the document is an error that
    /// passes.
    pub closed spec fn streaming(&self) -> bool {
        self.parser.streaming()
    }

    /// Whether the start of an element has been read.
    pub closed spec fn root_started(&self) -> bool {
        self.parser.root_started()
    }

    /// Whether this reader is nearer to the end of its input than `other`:
    /// it has fewer bytes left in its source, or else its lexer has less to
    /// give out, or else it holds no event that waits to be reported where
    /// the other holds one.
    pub closed spec fn nearer(&self, other: &EventReader) -> bool {
        self.parser.nearer(self.source@.len(), &other.parser, other.source@.len())
    }

    /// What the contracts of the reader say of its state, they say of its
    /// parser as a value.
    pub proof fn state_is_of_model(&self)
        ensures
            self.open_elements() == crate::reader::parser::model::open_elements(self.model()),
            self.scopes() == crate::reader::parser::model::scopes(self.model()),
            self.finished() == self.model().final_result,
            self.streaming() == self.model().config.ignore_end_of_stream,
            self.root_started() == (self.model().encountered == crate::reader::parser::Encountered::Element),
            forall|other: EventReader|
                self.nearer(&other) == crate::reader::parser::model::nearer(
                    self.model(),
                    self.remaining().len(),
                    #[trigger] other.model(),
                    other.remaining().len(),
                ),
    {
    }

    /// There is a namespace scope for each open element, and one below them.
    pub proof fn scopes_follow_open(&self)
        requires
            self.wf(),
        ensures
            self.scopes().len() == self.open_elements().len() + 1,
    {
        self.parser.scopes_match_open();
    }

    /// A reader that has ended has ended with an error, or with the end of
    /// the document and no element open.
    pub proof fn ended_is_terminal(&self)
        requires
            self.wf(),
        ensures
            match self.finished() {
                Some(Polled::Event(e)) => e is EndDocument && self.open_elements().len() == 0,
                _ => true,
            },
    {
    }

    /// What one poll does: `r` is what a reader in state `before` gives, and
    /// `after` is its state then.
    ///
    /// What the reader gives, and the bytes that it leaves in its source, are
    /// what the parser as a function gives and leaves; and unless the reader
    /// has ended with an error, its parser is afterwards as that function
    /// says.
    ///
    /// A reader that has ended gives what it ended with and does not change.
    /// Otherwise the reader ends exactly where it gives the end of the
    /// document or an error, except that in streaming mode an error of the
    /// kind `UnexpectedEof` passes.  An event does to the open elements and
    /// to the namespace scopes what `event_step` says; an error leaves them
    /// as they are.  The document ends only when no element is open, and
    /// every other event brings the reader nearer to the end of its input.
    pub open spec fn polls(before: EventReader, after: EventReader, r: Result<XmlEvent, Error>) -> bool {
        &&& after.streaming() == before.streaming()
        &&& after.open_elements().len() <= usize::MAX + 1
        &&& after.scopes().len() == after.open_elements().len() + 1
        &&& polled(r) == parsed(before.model(), before.remaining()).2
        &&& after.remaining() == parsed(before.model(), before.remaining()).1
        &&& (!(r is Err && after.finished() is Some) ==> after.model() == parsed(
            before.model(),
            before.remaining(),
        ).0)
        &&& match before.finished() {
            Some(v) => polled(r) == v && after.finished() == Some(v) && after.remaining() == before.remaining()
                && after.open_elements() == before.open_elements() && after.scopes() == before.scopes(),
            None => {
                &&& after.finished() == (if (r matches Ok(e) && e is EndDocument) || (r matches Err(e) && !(
                before.streaming() && e.kind is UnexpectedEof)) {
                    Some(polled(r))
                } else {
                    None
                })
                &&& match r {
                    Ok(ev) => event_step(
                        before.open_elements(),
                        before.scopes(),
                        ev@,
                        after.open_elements(),
                        after.scopes(),
                    ) && (if ev is EndDocument {
                        before.open_elements().len() == 0
                    } else {
                        after.nearer(&before)
                    }),
                    Err(_) => after.open_elements() == before.open_elements() && after.scopes() == before.scopes(),
                }
            },
        }
    }

    /// A reader of the document in `source`, with the default options.
    pub fn new(source: ByteSource) -> (r: EventReader)
        requires
            source.wf(),
        ensures
            r.wf(),
            r.remaining() == source@,
            r.finished() is None,
            r.open_elements().len() == 0,
            r.scopes() == seq![NamespaceStack::base_frame()],
            !r.streaming(),
            r.model().config.is_default(),
            r.model() == crate::reader::parser::model::fresh(r.model().config),
    {
        EventReader::new_with_config(source, ParserConfig::new())
    }

    /// A reader of the document in `source`, with the given options.
    pub fn new_with_config(source: ByteSource, config: ParserConfig) -> (r: EventReader)
        requires
            source.wf(),
        ensures
            r.wf(),
            r.remaining() == source@,
            r.finished() is None,
            r.open_elements().len() == 0,
            r.scopes() == seq![NamespaceStack::base_frame()],
            r.streaming() == config.ignore_end_of_stream,
            r.model() == crate::reader::parser::model::fresh(config),
    {
        EventReader { source, parser: PullParser::new(config) }
    }

    /// A reader of the document in `source`, with the default options.
    pub fn from_str(source: &str) -> (r: EventReader)
        ensures
            r.wf(),
            r.remaining() == vstd::utf8::encode_utf8(source@),
            r.finished() is None,
            r.open_elements().len() == 0,
            r.scopes() == seq![NamespaceStack::base_frame()],
            !r.streaming(),
            r.model().config.is_default(),
            r.model() == crate::reader::parser::model::fresh(r.model().config),
    {
        EventReader::new(ByteSource::from_str(source))
    }

    /// Reads the next event of the document.
    ///
    /// Once the end of the document or an error has been given, every call
    /// gives it again and changes nothing.  In streaming mode an error of
    /// the kind `UnexpectedEof` passes: it is given where the source runs dry
    /// before the document has ended, and the next call reads on.
    ///
    /// The start of an element opens the element and its namespace scope;
    /// the namespace of the event is all scopes seen as one, and the names of
    /// the element and of its attributes are resolved against it.  The end of
    /// an element closes the element that was opened last and its scope.
    /// The document ends only when no element is open.
    pub fn next(&mut self) -> (r: Result<XmlEvent, Error>)
        requires
            old(self).wf(),
        ensures
            final(self).wf(),
            Self::polls(*old(self), *final(self), r),
    {
        let r = self.parser.next(&mut self.source);
        proof {
            self.parser.open_elements_bound();
            self.parser.scopes_match_open();
        }
        r
    }

    /// Reads on to the end of the element that is open: skips its content,
    /// the elements within it included.
    ///
    /// Polls until one more element has ended than has started.  Fails with
    /// the first error that a poll gives; a reader that has ended with an
    /// error gives that error.  Afterwards the element is closed, and so is
    /// its namespace scope.
    pub fn skip(&mut self) -> (r: Result<(), Error>)
        requires
            old(self).wf(),
            old(self).open_elements().len() > 0,
        ensures
            final(self).wf(),
            r is Ok ==> final(self).open_elements() == old(self).open_elements().drop_last() && final(self).scopes()
                == old(self).scopes().drop_last() && final(self).finished() is None,
            match skipped(old(self).model(), old(self).remaining(), 1).2 {
                None => r is Ok,
                Some(failure) => r matches Err(e) && polled(Err::<XmlEvent, Error>(e)) == failure,
            },
            final(self).remaining() == skipped(old(self).model(), old(self).remaining(), 1).1,
            !(r is Err && final(self).finished() is Some) ==> final(self).model() == skipped(
                old(self).model(),
                old(self).remaining(),
                1,
            ).0,
    {
        let mut depth: u128 = 1;
        let ghost goal = skipped(self.model(), self.remaining(), 1);
        let ghost open = self.open_elements();
        let ghost scopes = self.scopes();
        proof {
            self.parser.open_elements_bound();
        }
        assert(open.take(open.len() - 1) == open.drop_last());
        proof {
            self.parser.scopes_match_open();
        }
        assert(scopes.take(scopes.len() - 1) == scopes.drop_last());
        proof {
            self.ended_is_terminal();
        }
        while depth > 0
            invariant
                self.wf(),
                self.finished() is None || (self.finished() matches Some(Polled::Failure(..)) && depth == 1),
                open.len() > 0,
                open == old(self).open_elements(),
                scopes == old(self).scopes(),
                scopes.len() == open.len() + 1,
                self.open_elements().len() == open.len() - 1 + depth,
                self.scopes().len() == scopes.len() - 1 + depth,
                self.open_elements().len() <= usize::MAX + 1,
                self.open_elements().take(open.len() - 1) == open.drop_last(),
                self.scopes().take(scopes.len() - 1) == scopes.drop_last(),
                goal == skipped(old(self).model(), old(self).remaining(), 1),
                skipped(self.model(), self.remaining(), depth as nat) == goal,
            decreases
                    self.source@.len(),
                    self.parser.lexer@.phase(),
                    self.parser.lexer@.budget(),
                    self.parser.lexer@.weight(),
                    (if self.parser.next_event is Some { 1nat } else { 0nat }),
        {
            let ghost before_open = self.open_elements();
            let ghost before_scopes = self.scopes();
            let ghost before = *self;
            let polled_now = self.next();
            match polled_now {
                Err(e) => {
                    return Err(e);
                },
                Ok(event) => {
                    proof {
                        assert(crate::reader::parser::model::nearer(
                            self.model(),
                            self.remaining().len(),
                            before.model(),
                            before.remaining().len(),
                        ));
                        let after_open = self.open_elements();
                        let after_scopes = self.scopes();
                        match event {
                            XmlEvent::StartElement { .. } => {
                                assert(after_open.take(open.len() - 1) == before_open.take(open.len() - 1));
                                assert(after_scopes.drop_last() == before_scopes);
                                assert(after_scopes.take(scopes.len() - 1) == before_scopes.take(scopes.len() - 1));
                            },
                            XmlEvent::EndElement { .. } => {
                                assert(after_open.take(open.len() - 1) == before_open.take(open.len() - 1));
                                assert(after_scopes.take(scopes.len() - 1) == before_scopes.take(scopes.len() - 1));
                            },
                            _ => {},
                        }
                    }
                    match event {
                        XmlEvent::StartElement { .. } => {
                            depth = depth + 1;
                        },
                        XmlEvent::EndElement { .. } => {
                            depth = depth - 1;
                        },
                        _ => {},
                    }
                },
            }
        }
        proof {
            assert(self.open_elements().take(open.len() - 1) == self.open_elements());
            assert(self.scopes().take(scopes.len() - 1) == self.scopes());
        }
        Ok(())
    }

    /// The source of the reader.
    pub fn source(&self) -> (r: &ByteSource)
        ensures
            r@ == self.remaining(),
    {
        &self.source
    }

    /// The source of the reader, for the caller to refill.  The reader is
    /// well formed afterwards where the source is.
    pub fn source_mut(&mut self) -> (r: &mut ByteSource)
        ensures
            r@ == old(self).remaining(),
            old(self).wf() ==> r.wf(),
            final(self).remaining() == final(r)@,
            final(self).finished() == old(self).finished(),
            final(self).open_elements() == old(self).open_elements(),
            final(self).scopes() == old(self).scopes(),
            final(self).streaming() == old(self).streaming(),
            final(self).model() == old(self).model(),
            old(self).wf() && final(r).wf() ==> final(self).wf(),
    {
        &mut self.source
    }

    /// The source of the reader; the reader is used up.
    pub fn into_inner(self) -> (r: ByteSource)
        ensures
            r@ == self.remaining(),
    {
        self.source
    }

    /// The position at which the last event started.
    pub fn position(&self) -> (r: TextPosition)
        requires
            self.wf(),
        ensures
            self.model().pos.len() > 0,
            r == self.model().pos[0],
    {
        self.parser.position()
    }

    /// Defines entities, each a name and its replacement text, in addition to
    /// those that are defined already.  Fails, and defines nothing, once the
    /// start of an element has been read.
    pub fn add_entities(&mut self, entities: &[(&str, &str)]) -> (r: Result<(), Error>)
        requires
            old(self).wf(),
        ensures
            final(self).wf(),
            final(self).remaining() == old(self).remaining(),
            final(self).finished() == old(self).finished(),
            final(self).open_elements() == old(self).open_elements(),
            final(self).scopes() == old(self).scopes(),
            final(self).streaming() == old(self).streaming(),
            r is Ok <==> !old(self).root_started(),
            final(self).model() == (ParserView { config: final(self).model().config, ..old(self).model() }),
            crate::reader::parser::model::same_options(final(self).model().config, old(self).model().config),
            crate::reader::parser::model::pairs(final(self).model().config.extra_entities@) == (if r is Ok {
                crate::reader::parser::model::pairs(old(self).model().config.extra_entities@)
                    + crate::reader::parser::model::slices(entities@)
            } else {
                crate::reader::parser::model::pairs(old(self).model().config.extra_entities@)
            }),
    {
        self.parser.add_entities(entities)
    }

    /// The events of the document, one after the other.
    pub fn into_iter(self) -> (r: Events)
        ensures
            r.reader() == self,
            !r.done(),
    {
        Events { reader: self, finished: false }
    }
}

/// The events of a document, one after the other, up to and including the
/// end of the document or the first error.
pub struct Events {
    reader: EventReader,
    finished: bool,
}

impl Events {
    /// The reader that the events come from.
    pub closed spec fn reader(&self) -> EventReader {
        self.reader
    }

    /// Whether the end of the document or an error has been given.
    pub closed spec fn done(&self) -> bool {
        self.finished
    }

    /// The next event, or nothing once the end of the document or an error
    /// has been given.  In streaming mode there is always a next event.
    pub fn next(&mut self) -> (r: Option<Result<XmlEvent, Error>>)
        requires
            old(self).reader().wf(),
        ensures
            final(self).reader().wf(),
            final(self).reader().streaming() == old(self).reader().streaming(),
            r is None <==> old(self).done() && !old(self).reader().streaming(),
            r is None ==> final(self).reader() == old(self).reader() && final(self).done(),
            r matches Some(v) ==> final(self).done() == (old(self).done() || v is Err || (v matches Ok(e) && e
                is EndDocument)) && EventReader::polls(old(self).reader(), final(self).reader(), v),
    {
        if self.finished && !self.reader.parser.is_ignoring_end_of_stream() {
            None
        } else {
            let ev = self.reader.next();
            let last = match &ev {
                Ok(XmlEvent::EndDocument) => true,
                Err(_) => true,
                _ => false,
            };
            if last {
                self.finished = true;
            }
            Some(ev)
        }
    }

    /// The reader that the events come from; the iterator is used up.
    pub fn into_inner(self) -> (r: EventReader)
        ensures
            r == self.reader(),
    {
        self.reader
    }

    /// The source of the reader.
    pub fn source(&self) -> (r: &ByteSource)
        ensures
            r@ == self.reader().remaining(),
    {
        &self.reader.source
    }

    /// The source of the reader, for the caller to refill.
    pub fn source_mut(&mut self) -> (r: &mut ByteSource)
        ensures
            r@ == old(self).reader().remaining(),
            old(self).reader().wf() ==> r.wf(),
            final(self).reader().remaining() == final(r)@,
            final(self).done() == old(self).done(),
            final(self).reader().finished() == old(self).reader().finished(),
            final(self).reader().open_elements() == old(self).reader().open_elements(),
            final(self).reader().scopes() == old(self).reader().scopes(),
            final(self).reader().streaming() == old(self).reader().streaming(),
            final(self).reader().model() == old(self).reader().model(),
            old(self).reader().wf() && final(r).wf() ==> final(self).reader().wf(),
    {
        &mut self.reader.source
    }

    /// Defines entities; see `EventReader::add_entities`.
    pub fn add_entities(&mut self, entities: &[(&str, &str)]) -> (r: Result<(), Error>)
        requires
            old(self).reader().wf(),
        ensures
            final(self).reader().wf(),
            final(self).done() == old(self).done(),
            final(self).reader().remaining() == old(self).reader().remaining(),
            final(self).reader().finished() == old(self).reader().finished(),
            final(self).reader().open_elements() == old(self).reader().open_elements(),
            final(self).reader().scopes() == old(self).reader().scopes(),
            final(self).reader().streaming() == old(self).reader().streaming(),
            r is Ok <==> !old(self).reader().root_started(),
            final(self).reader().model() == (ParserView {
                config: final(self).reader().model().config,
                ..old(self).reader().model()
            }),
            crate::reader::parser::model::same_options(
                final(self).reader().model().config,
                old(self).reader().model().config,
            ),
            crate::reader::parser::model::pairs(final(self).reader().model().config.extra_entities@) == (if r is Ok {
                crate::reader::parser::model::pairs(old(self).reader().model().config.extra_entities@)
                    + crate::reader::parser::model::slices(entities@)
            } else {
                crate::reader::parser::model::pairs(old(self).reader().model().config.extra_entities@)
            }),
    {
        self.reader.add_entities(entities)
    }
}

impl ParserConfig {
    /// A reader of the document in `source` with these options.
    pub fn create_reader(self, source: ByteSource) -> (r: EventReader)
        requires
            source.wf(),
        ensures
            r.wf(),
            r.remaining() == source@,
            r.finished() is None,
            r.open_elements().len() == 0,
            r.scopes() == seq![NamespaceStack::base_frame()],
            r.streaming() == self.ignore_end_of_stream,
            r.model() == crate::reader::parser::model::fresh(self),
    {
        EventReader::new_with_config(source, self)
    }
}

} // verus!
