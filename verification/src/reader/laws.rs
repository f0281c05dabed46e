//! Laws of the reader: what holds of every run of polls.

use vstd::prelude::*;
use crate::name::NameView;
use crate::namespace::bound;
use crate::reader::error::Error;
use crate::reader::events::{attribute_resolved, polled, EventView, Polled, XmlEvent};
use crate::reader::parser::event_step;
use crate::reader::EventReader;

verus! {

/// A run of a reader: the states that it goes through, the first one
/// included, all of them well formed, and what it gives from each to the
/// next.
pub open spec fn run(states: Seq<EventReader>, results: Seq<Result<XmlEvent, Error>>) -> bool {
    &&& states.len() == results.len() + 1
    &&& forall|i: int| 0 <= i < states.len() ==> (#[trigger] states[i]).wf()
    &&& forall|i: int| 0 <= i < results.len() ==> EventReader::polls(#[trigger] states[i], states[i + 1], results[i])
}

/// Whether a result ends a document: it is the end of the document or an
/// error.
pub open spec fn terminal(r: Result<XmlEvent, Error>) -> bool {
    match r {
        Ok(e) => e is EndDocument,
        Err(_) => true,
    }
}

/// The elements that are open after the given results, in a document in
/// which `open` were open before them: the start of an element opens it, the
/// end of an element closes the one that was opened last.
pub open spec fn opened(open: Seq<NameView>, results: Seq<Result<XmlEvent, Error>>) -> Seq<NameView>
    decreases results.len(),
{
    if results.len() == 0 {
        open
    } else {
        let before = opened(open, results.drop_last());
        match polled(results.last()) {
            Polled::Event(EventView::StartElement { name, .. }) => before.push(name),
            Polled::Event(EventView::EndElement { .. }) => if before.len() > 0 {
                before.drop_last()
            } else {
                before
            },
            _ => before,
        }
    }
}

/// Terminal idempotence: once a reader that is not streaming has given the
/// end of the document or an error, every later poll gives the same: the
/// same event, or an error of the same kind with the same message at the
/// same position; and the reader stays as it is.
pub proof fn terminal_idempotence(
    states: Seq<EventReader>,
    results: Seq<Result<XmlEvent, Error>>,
    first: int,
    later: int,
)
    requires
        run(states, results),
        !states[0].streaming(),
        0 <= first < later < results.len(),
        terminal(results[first]),
    ensures
        polled(results[later]) == polled(results[first]),
        terminal(results[later]),
        states[later + 1].finished() == Some(polled(results[first])),
        states[later + 1].open_elements() == states[first + 1].open_elements(),
        states[later + 1].scopes() == states[first + 1].scopes(),
        states[later + 1].remaining() == states[first + 1].remaining(),
    decreases later,
{
    never_streaming(states, results, first);
    ended_by(states, results, first);
    if later > first + 1 {
        terminal_idempotence(states, results, first, later - 1);
    }
    assert(EventReader::polls(states[later], states[later + 1], results[later]));
}

/// A reader keeps its streaming mode.
pub proof fn never_streaming(states: Seq<EventReader>, results: Seq<Result<XmlEvent, Error>>, k: int)
    requires
        run(states, results),
        0 <= k <= results.len(),
    ensures
        states[k].streaming() == states[0].streaming(),
    decreases k,
{
    if k > 0 {
        never_streaming(states, results, k - 1);
        assert(EventReader::polls(states[k - 1], states[k], results[k - 1]));
    }
}

/// A reader that is not streaming has ended with what it gave, once it has
/// given the end of the document or an error.
pub proof fn ended_by(states: Seq<EventReader>, results: Seq<Result<XmlEvent, Error>>, k: int)
    requires
        run(states, results),
        !states[0].streaming(),
        0 <= k < results.len(),
        terminal(results[k]),
    ensures
        states[k + 1].finished() == Some(polled(results[k])),
{
    never_streaming(states, results, k);
    assert(EventReader::polls(states[k], states[k + 1], results[k]));
}

/// A reader that has ended gives the end of the document or an error.
pub proof fn ended_gives_terminal(before: EventReader, after: EventReader, r: Result<XmlEvent, Error>)
    requires
        before.wf(),
        before.finished() is Some,
        EventReader::polls(before, after, r),
    ensures
        terminal(r),
        r is Ok ==> before.open_elements().len() == 0,
{
    before.ended_is_terminal();
}

/// The number of starts of elements among the results.
pub open spec fn starts(results: Seq<Result<XmlEvent, Error>>) -> nat
    decreases results.len(),
{
    if results.len() == 0 {
        0
    } else {
        starts(results.drop_last()) + (if results.last() matches Ok(XmlEvent::StartElement { .. }) {
            1nat
        } else {
            0nat
        })
    }
}

/// The number of ends of elements among the results.
pub open spec fn ends(results: Seq<Result<XmlEvent, Error>>) -> nat
    decreases results.len(),
{
    if results.len() == 0 {
        0
    } else {
        ends(results.drop_last()) + (if results.last() matches Ok(XmlEvent::EndElement { .. }) {
            1nat
        } else {
            0nat
        })
    }
}

/// Stack balance: in every run the open elements are those that the events
/// so far have opened and not closed; the end of an element closes the
/// element that was opened last, which has its name; and the document ends
/// only when every element that was opened has been closed.  So no end comes
/// before its start, there are as many elements open as more have started
/// than ended, and at the end of a document that began with no element open
/// every start has been matched by one end.
pub proof fn stack_balance(states: Seq<EventReader>, results: Seq<Result<XmlEvent, Error>>, k: int)
    requires
        run(states, results),
        0 <= k < results.len(),
    ensures
        states[k + 1].open_elements() == opened(states[0].open_elements(), results.take(k + 1)),
        states[k].open_elements() == opened(states[0].open_elements(), results.take(k)),
        states[k].open_elements().len() + ends(results.take(k)) == states[0].open_elements().len() + starts(
            results.take(k),
        ),
        states[k + 1].open_elements().len() + ends(results.take(k + 1)) == states[0].open_elements().len() + starts(
            results.take(k + 1),
        ),
        match results[k] {
            Ok(XmlEvent::EndElement { name }) => states[k].open_elements().len() > 0 && states[k].open_elements().last().same(
                name@,
            ),
            Ok(XmlEvent::EndDocument) => states[k].open_elements().len() == 0 && (states[0].open_elements().len() == 0
                ==> starts(results.take(k)) == ends(results.take(k))),
            _ => true,
        },
    decreases k,
{
    let open = states[0].open_elements();
    if k == 0 {
        assert(results.take(0) == Seq::<Result<XmlEvent, Error>>::empty());
    } else {
        stack_balance(states, results, k - 1);
    }
    assert(states[k].wf());
    assert(EventReader::polls(states[k], states[k + 1], results[k]));
    let taken = results.take(k + 1);
    assert(taken.drop_last() == results.take(k));
    assert(taken.last() == results[k]);
    let before = opened(open, results.take(k));
    assert(opened(open, taken) == match polled(results[k]) {
        Polled::Event(EventView::StartElement { name, .. }) => before.push(name),
        Polled::Event(EventView::EndElement { .. }) => if before.len() > 0 {
            before.drop_last()
        } else {
            before
        },
        _ => before,
    });
    if states[k].finished() is Some {
        ended_gives_terminal(states[k], states[k + 1], results[k]);
        assert(opened(open, taken) == before);
    } else {
        match results[k] {
            Ok(ev) => {
                assert(polled(results[k]) == Polled::Event(ev@));
                assert(event_step(
                    states[k].open_elements(),
                    states[k].scopes(),
                    ev@,
                    states[k + 1].open_elements(),
                    states[k + 1].scopes(),
                ));
            },
            Err(_) => {},
        }
    }
}

/// Scope balance: once the elements that were opened after some point of a
/// run have been closed, the namespace scopes are what they were at that
/// point.  In particular a prefix that is declared on an element is not bound
/// by it after the end of the element.
pub proof fn scope_balance(states: Seq<EventReader>, results: Seq<Result<XmlEvent, Error>>, from: int, to: int)
    requires
        run(states, results),
        0 <= from <= to <= results.len(),
        forall|m: int| from <= m <= to ==> (#[trigger] states[m]).open_elements().len() >= states[from].open_elements().len(),
    ensures
        states[to].scopes().take(states[from].scopes().len() as int) == states[from].scopes(),
        states[to].open_elements().take(states[from].open_elements().len() as int) == states[from].open_elements(),
        states[to].scopes().len() == states[to].open_elements().len() + 1,
        states[to].open_elements().len() == states[from].open_elements().len() ==> states[to].scopes() == states[from].scopes()
            && states[to].open_elements() == states[from].open_elements(),
    decreases to - from,
{
    let base_scopes = states[from].scopes();
    let base_open = states[from].open_elements();
    states[from].scopes_follow_open();
    if to == from {
        assert(base_scopes.take(base_scopes.len() as int) == base_scopes);
        assert(base_open.take(base_open.len() as int) == base_open);
    } else {
        scope_balance(states, results, from, to - 1);
        assert(EventReader::polls(states[to - 1], states[to], results[to - 1]));
        assert(states[to - 1].open_elements().len() >= base_open.len());
        assert(states[to].open_elements().len() >= base_open.len());
        let before_scopes = states[to - 1].scopes();
        let before_open = states[to - 1].open_elements();
        let after_scopes = states[to].scopes();
        let after_open = states[to].open_elements();
        if after_scopes != before_scopes || after_open != before_open {
            match results[to - 1] {
                Ok(XmlEvent::StartElement { .. }) => {
                    assert(after_scopes.drop_last() == before_scopes);
                    assert(after_scopes.take(base_scopes.len() as int) == before_scopes.take(base_scopes.len() as int));
                    assert(after_open.take(base_open.len() as int) == before_open.take(base_open.len() as int));
                },
                Ok(XmlEvent::EndElement { .. }) => {
                    assert(after_scopes.take(base_scopes.len() as int) == before_scopes.take(base_scopes.len() as int));
                    assert(after_open.take(base_open.len() as int) == before_open.take(base_open.len() as int));
                },
                _ => {},
            }
        }
        if after_open.len() == base_open.len() {
            assert(after_scopes.take(base_scopes.len() as int) == after_scopes);
            assert(after_open.take(base_open.len() as int) == after_open);
        }
    }
}

/// Namespace visibility: the namespace that the start of an element carries
/// binds the prefix of the element, and the element belongs to what the
/// prefix is bound to; an element without prefix belongs to the default
/// namespace, which is bound to the empty prefix.  Every prefix of an
/// attribute is bound likewise, and an attribute without prefix belongs to no
/// namespace, whatever the default namespace.
pub proof fn namespace_visibility(before: EventReader, after: EventReader, r: Result<XmlEvent, Error>)
    requires
        before.wf(),
        EventReader::polls(before, after, r),
    ensures
        match r {
            Ok(XmlEvent::StartElement { name, attributes, namespace }) => {
                &&& namespace@ == crate::namespace::squashed(after.scopes())
                &&& bound(namespace@, name@.prefix_repr()) is Some
                &&& name@.prefix is Some ==> name@.namespace is Some && name@.namespace == bound(
                    namespace@,
                    name@.prefix->0,
                )
                &&& name@.prefix is None ==> name@.namespace == (if bound(namespace@, Seq::empty())->0.len() == 0 {
                    None
                } else {
                    bound(namespace@, Seq::empty())
                })
                &&& forall|i: int|
                    0 <= i < attributes@.len() ==> match (#[trigger] attributes@[i]).name@.prefix {
                        Some(p) => attributes@[i].name@.namespace is Some && attributes@[i].name@.namespace == bound(
                            namespace@,
                            p,
                        ),
                        None => attributes@[i].name@.namespace is None,
                    }
            },
            _ => true,
        },
{
    if before.finished() is Some {
        ended_gives_terminal(before, after, r);
    }
    match r {
        Ok(XmlEvent::StartElement { name, attributes, namespace }) => {
            let views = crate::attribute::attribute_views(attributes@);
            assert forall|i: int| 0 <= i < attributes@.len() implies match (#[trigger] attributes@[i]).name@.prefix {
                Some(p) => attributes@[i].name@.namespace is Some && attributes@[i].name@.namespace == bound(namespace@, p),
                None => attributes@[i].name@.namespace is None,
            } by {
                assert(views[i] == attributes@[i]@);
                assert(attribute_resolved(views[i].name, namespace@));
            }
        },
        _ => {},
    }
}

} // verus!
