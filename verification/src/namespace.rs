//! Namespaces: mappings from prefixes to URIs, and a stack of them that
//! follows the nesting of elements.

use vstd::prelude::*;
use vstd::string::*;
use crate::text::str_eq;

verus! {

/// The prefix of the namespace of XML itself.
pub const NS_XML_PREFIX: &'static str = "xml";

/// The namespace of XML itself.
pub const NS_XML_URI: &'static str = "http://www.w3.org/XML/1998/namespace";

/// The prefix under which namespaces are declared.
pub const NS_XMLNS_PREFIX: &'static str = "xmlns";

/// The namespace of namespace declarations.
pub const NS_XMLNS_URI: &'static str = "http://www.w3.org/2000/xmlns/";

/// The prefix of the default namespace: no prefix.
pub const NS_NO_PREFIX: &'static str = "";

/// The URI that stands for no namespace.
pub const NS_EMPTY_URI: &'static str = "";

/// The bindings of a namespace as a value: pairs of a prefix and a URI, in the
/// order in which the prefixes were first bound.
pub type Bindings = Seq<(Seq<char>, Seq<char>)>;

/// The URI that `prefix` is bound to in `bindings`.
pub open spec fn bound(bindings: Bindings, prefix: Seq<char>) -> Option<Seq<char>>
    decreases bindings.len(),
{
    if bindings.len() == 0 {
        None
    } else if bindings.last().0 == prefix {
        Some(bindings.last().1)
    } else {
        bound(bindings.drop_last(), prefix)
    }
}

/// The place of `prefix` in `bindings`.
pub open spec fn place(bindings: Bindings, prefix: Seq<char>) -> Option<int>
    decreases bindings.len(),
{
    if bindings.len() == 0 {
        None
    } else if bindings.last().0 == prefix {
        Some(bindings.len() - 1)
    } else {
        place(bindings.drop_last(), prefix)
    }
}

/// No prefix occurs twice.
pub open spec fn distinct(bindings: Bindings) -> bool {
    forall|i: int, j: int| 0 <= i < j < bindings.len() ==> (#[trigger] bindings[i]).0 != (#[trigger] bindings[j]).0
}

/// `bindings` with `prefix` bound to `uri`, whatever it was bound to before:
/// a prefix that is bound keeps its place, a new one goes to the end.
pub open spec fn rebound(bindings: Bindings, prefix: Seq<char>, uri: Seq<char>) -> Bindings {
    match place(bindings, prefix) {
        Some(k) => bindings.update(k, (prefix, uri)),
        None => bindings.push((prefix, uri)),
    }
}

/// The place of a prefix lies within the bindings and holds that prefix;
/// a prefix has a place exactly where it is bound.
pub proof fn place_is_bound(bindings: Bindings, prefix: Seq<char>)
    ensures
        match place(bindings, prefix) {
            Some(k) => 0 <= k < bindings.len() && bindings[k].0 == prefix && bound(bindings, prefix) == Some(
                bindings[k].1,
            ),
            None => bound(bindings, prefix) is None && forall|i: int|
                0 <= i < bindings.len() ==> (#[trigger] bindings[i]).0 != prefix,
        },
    decreases bindings.len(),
{
    if bindings.len() > 0 && bindings.last().0 != prefix {
        place_is_bound(bindings.drop_last(), prefix);
        if place(bindings, prefix) is None {
            assert forall|i: int| 0 <= i < bindings.len() implies (#[trigger] bindings[i]).0 != prefix by {
                if i < bindings.len() - 1 {
                    assert(bindings.drop_last()[i] == bindings[i]);
                }
            }
        }
    }
}

/// After a prefix has been bound anew, it is bound to the new URI and every
/// other prefix is bound as before; no prefix occurs twice afterwards if none
/// did before.
pub proof fn rebound_binds(bindings: Bindings, prefix: Seq<char>, uri: Seq<char>, other: Seq<char>)
    requires
        distinct(bindings),
    ensures
        distinct(rebound(bindings, prefix, uri)),
        bound(rebound(bindings, prefix, uri), other) == (if other == prefix {
            Some(uri)
        } else {
            bound(bindings, other)
        }),
    decreases bindings.len(),
{
    place_is_bound(bindings, prefix);
    let after = rebound(bindings, prefix, uri);
    match place(bindings, prefix) {
        None => {
            assert(after.drop_last() == bindings);
        },
        Some(k) => {
            if k == bindings.len() - 1 {
                assert(after.drop_last() == bindings.drop_last());
                assert(after.last() == (prefix, uri));
            } else {
                let shorter = bindings.drop_last();
                assert(distinct(shorter)) by {
                    assert forall|i: int, j: int| 0 <= i < j < shorter.len() implies (#[trigger] shorter[i]).0 != (
                    #[trigger] shorter[j]).0 by {
                        assert(shorter[i] == bindings[i] && shorter[j] == bindings[j]);
                    }
                }
                assert(place(shorter, prefix) == Some(k));
                rebound_binds(shorter, prefix, uri, other);
                assert(after.drop_last() == rebound(shorter, prefix, uri));
                assert(after.last() == bindings.last());
                assert(bindings[k].0 != bindings[bindings.len() - 1].0);
            }
        },
    }
}

/// A mapping from prefixes to namespace URIs.  The empty prefix stands for
/// the default namespace.
#[derive(PartialEq, Eq, Debug)]
pub struct Namespace(pub Vec<(String, String)>);

impl View for Namespace {
    type V = Bindings;

    open spec fn view(&self) -> Bindings {
        self.0@.map_values(|b: (String, String)| (b.0@, b.1@))
    }
}

impl Clone for Namespace {
    fn clone(&self) -> (r: Self)
        ensures
            r@ == self@,
    {
        let mut v: Vec<(String, String)> = Vec::new();
        let mut i: usize = 0;
        while i < self.0.len()
            invariant
                i <= self.0.len(),
                v.len() == i,
                forall|j: int| 0 <= j < i ==> v@[j].0@ == self.0@[j].0@ && v@[j].1@ == self.0@[j].1@,
            decreases self.0.len() - i,
        {
            v.push((self.0[i].0.clone(), self.0[i].1.clone()));
            i = i + 1;
        }
        let r = Namespace(v);
        assert(r@ =~= self@);
        r
    }
}

impl Namespace {
    /// No prefix is bound twice.
    pub open spec fn wf(&self) -> bool {
        distinct(self@)
    }

    /// A namespace without bindings.
    pub fn empty() -> (r: Namespace)
        ensures
            r.wf(),
            r@.len() == 0,
    {
        Namespace(Vec::new())
    }

    /// Whether the namespace has no bindings.
    pub fn is_empty(&self) -> (r: bool)
        ensures
            r == (self@.len() == 0),
    {
        self.0.len() == 0
    }

    /// The number of bindings.
    pub fn len(&self) -> (r: usize)
        ensures
            r == self@.len(),
    {
        self.0.len()
    }

    /// The binding at place `i`: the prefix and the URI.
    pub fn entry(&self, i: usize) -> (r: (&str, &str))
        requires
            i < self@.len(),
        ensures
            r.0@ == self@[i as int].0,
            r.1@ == self@[i as int].1,
    {
        (self.0[i].0.as_str(), self.0[i].1.as_str())
    }

    /// The place of `prefix` among the bindings.
    pub fn find(&self, prefix: &str) -> (r: Option<usize>)
        ensures
            match r {
                Some(k) => place(self@, prefix@) == Some(k as int),
                None => place(self@, prefix@) is None,
            },
    {
        let mut i: usize = self.0.len();
        assert(self@.take(i as int) == self@);
        while i > 0
            invariant
                i <= self.0.len(),
                place(self@, prefix@) == place(self@.take(i as int), prefix@),
            decreases i,
        {
            i = i - 1;
            assert(self@.take(i + 1).drop_last() == self@.take(i as int));
            if str_eq(self.0[i].0.as_str(), prefix) {
                return Some(i);
            }
        }
        None
    }

    /// Whether `prefix` is bound.
    pub fn contains(&self, prefix: &str) -> (r: bool)
        ensures
            r == (bound(self@, prefix@) is Some),
    {
        proof {
            place_is_bound(self@, prefix@);
        }
        self.find(prefix).is_some()
    }

    /// The URI that `prefix` is bound to.
    pub fn get(&self, prefix: &str) -> (r: Option<&str>)
        ensures
            match r {
                Some(uri) => bound(self@, prefix@) == Some(uri@),
                None => bound(self@, prefix@) is None,
            },
    {
        proof {
            place_is_bound(self@, prefix@);
        }
        match self.find(prefix) {
            Some(k) => Some(self.0[k].1.as_str()),
            None => None,
        }
    }

    /// Binds `prefix` to `uri` unless it is bound already.  Returns whether
    /// it was bound now.
    pub fn put(&mut self, prefix: &str, uri: &str) -> (r: bool)
        requires
            old(self).wf(),
        ensures
            final(self).wf(),
            r == (bound(old(self)@, prefix@) is None),
            final(self)@ == (if r { old(self)@.push((prefix@, uri@)) } else { old(self)@ }),
    {
        proof {
            place_is_bound(self@, prefix@);
        }
        if self.find(prefix).is_some() {
            return false;
        }
        self.0.push((String::from_str(prefix), String::from_str(uri)));
        assert(self@ =~= old(self)@.push((prefix@, uri@)));
        true
    }

    /// Binds `prefix` to `uri`, whatever it was bound to before.  Returns
    /// what it was bound to.
    pub fn force_put(&mut self, prefix: &str, uri: &str) -> (r: Option<String>)
        requires
            old(self).wf(),
        ensures
            final(self).wf(),
            final(self)@ == rebound(old(self)@, prefix@, uri@),
            match r {
                Some(s) => bound(old(self)@, prefix@) == Some(s@),
                None => bound(old(self)@, prefix@) is None,
            },
    {
        proof {
            place_is_bound(self@, prefix@);
            rebound_binds(self@, prefix@, uri@, prefix@);
        }
        match self.find(prefix) {
            Some(k) => {
                let mut fresh = (String::from_str(prefix), String::from_str(uri));
                let slot = &mut self.0[k];
                core::mem::swap(slot, &mut fresh);
                assert(self@ =~= old(self)@.update(k as int, (prefix@, uri@)));
                Some(fresh.1)
            },
            None => {
                self.0.push((String::from_str(prefix), String::from_str(uri)));
                assert(self@ =~= old(self)@.push((prefix@, uri@)));
                None
            },
        }
    }

    /// Whether the namespace binds nothing but what every document binds:
    /// `xml`, `xmlns` and the empty default namespace.
    pub open spec fn essentially_empty(bindings: Bindings) -> bool {
        forall|i: int|
            0 <= i < bindings.len() ==> (#[trigger] bindings[i]) == (NS_XML_PREFIX@, NS_XML_URI@) || bindings[i] == (
                NS_XMLNS_PREFIX@,
                NS_XMLNS_URI@,
            ) || bindings[i] == (NS_NO_PREFIX@, NS_EMPTY_URI@)
    }

    /// Whether the namespace binds nothing but what every document binds.
    pub fn is_essentially_empty(&self) -> (r: bool)
        ensures
            r == Self::essentially_empty(self@),
    {
        let mut i: usize = 0;
        while i < self.0.len()
            invariant
                i <= self.0.len(),
                forall|j: int|
                    0 <= j < i ==> (#[trigger] self@[j]) == (NS_XML_PREFIX@, NS_XML_URI@) || self@[j] == (
                        NS_XMLNS_PREFIX@,
                        NS_XMLNS_URI@,
                    ) || self@[j] == (NS_NO_PREFIX@, NS_EMPTY_URI@),
            decreases self.0.len() - i,
        {
            let (p, u) = self.entry(i);
            let known = (str_eq(p, NS_XML_PREFIX) && str_eq(u, NS_XML_URI)) || (str_eq(p, NS_XMLNS_PREFIX) && str_eq(
                u,
                NS_XMLNS_URI,
            )) || (str_eq(p, NS_NO_PREFIX) && str_eq(u, NS_EMPTY_URI));
            if !known {
                assert(!(self@[i as int] == (NS_XML_PREFIX@, NS_XML_URI@) || self@[i as int] == (
                    NS_XMLNS_PREFIX@,
                    NS_XMLNS_URI@,
                ) || self@[i as int] == (NS_NO_PREFIX@, NS_EMPTY_URI@)));
                return false;
            }
            i = i + 1;
        }
        true
    }
}


/// The URI that `prefix` is bound to in a stack of frames: the binding of the
/// topmost frame that binds it.
pub open spec fn lookup(frames: Seq<Bindings>, prefix: Seq<char>) -> Option<Seq<char>>
    decreases frames.len(),
{
    if frames.len() == 0 {
        None
    } else {
        match bound(frames.last(), prefix) {
            Some(uri) => Some(uri),
            None => lookup(frames.drop_last(), prefix),
        }
    }
}

/// `base` with every binding of `frame` laid over it, in the order of `frame`.
pub open spec fn merged(base: Bindings, frame: Bindings) -> Bindings
    decreases frame.len(),
{
    if frame.len() == 0 {
        base
    } else {
        rebound(merged(base, frame.drop_last()), frame.last().0, frame.last().1)
    }
}

/// All frames of a stack as one namespace: each frame laid over those below.
pub open spec fn squashed(frames: Seq<Bindings>) -> Bindings
    decreases frames.len(),
{
    if frames.len() == 0 {
        Seq::empty()
    } else {
        merged(squashed(frames.drop_last()), frames.last())
    }
}

/// Whether some frame binds `prefix` to `uri`.
pub open spec fn declared(frames: Seq<Bindings>, prefix: Seq<char>, uri: Seq<char>) -> bool {
    exists|i: int| 0 <= i < frames.len() && bound(#[trigger] frames[i], prefix) == Some(uri)
}

/// In a frame laid over a base, a prefix is bound as in the frame, and where
/// the frame does not bind it, as in the base.
pub proof fn merged_binds(base: Bindings, frame: Bindings, prefix: Seq<char>)
    requires
        distinct(base),
    ensures
        distinct(merged(base, frame)),
        bound(merged(base, frame), prefix) == (match bound(frame, prefix) {
            Some(uri) => Some(uri),
            None => bound(base, prefix),
        }),
    decreases frame.len(),
{
    if frame.len() > 0 {
        merged_binds(base, frame.drop_last(), prefix);
        rebound_binds(merged(base, frame.drop_last()), frame.last().0, frame.last().1, prefix);
    }
}

/// A stack squashed into one namespace binds every prefix as the stack does.
pub proof fn squashed_resolves(frames: Seq<Bindings>, prefix: Seq<char>)
    ensures
        distinct(squashed(frames)),
        bound(squashed(frames), prefix) == lookup(frames, prefix),
    decreases frames.len(),
{
    if frames.len() > 0 {
        squashed_resolves(frames.drop_last(), prefix);
        merged_binds(squashed(frames.drop_last()), frames.last(), prefix);
    }
}

/// A stack of namespaces, one frame for each open element and one below
/// them.  A prefix is looked up from the top down.
#[derive(PartialEq, Eq, Debug)]
pub struct NamespaceStack(pub Vec<Namespace>);

impl View for NamespaceStack {
    type V = Seq<Bindings>;

    open spec fn view(&self) -> Seq<Bindings> {
        self.0@.map_values(|n: Namespace| n@)
    }
}

impl NamespaceStack {
    /// No frame binds a prefix twice.
    pub open spec fn wf(&self) -> bool {
        forall|i: int| 0 <= i < self@.len() ==> distinct(#[trigger] self@[i])
    }

    /// The frame that every document starts with: `xml` and `xmlns` bound to
    /// their namespaces, and the empty prefix to no namespace.
    pub open spec fn base_frame() -> Bindings {
        seq![(NS_XML_PREFIX@, NS_XML_URI@), (NS_XMLNS_PREFIX@, NS_XMLNS_URI@), (NS_NO_PREFIX@, NS_EMPTY_URI@)]
    }

    /// A stack without frames.
    pub fn empty() -> (r: NamespaceStack)
        ensures
            r.wf(),
            r@.len() == 0,
    {
        NamespaceStack(Vec::new())
    }

    /// A stack with the one frame that every document starts with.
    pub fn default() -> (r: NamespaceStack)
        ensures
            r.wf(),
            r@ == seq![Self::base_frame()],
    {
        proof {
            reveal_strlit("xml");
            reveal_strlit("xmlns");
            reveal_strlit("");
        }
        let mut frame = Namespace::empty();
        frame.put(NS_XML_PREFIX, NS_XML_URI);
        assert(bound(frame@, NS_XMLNS_PREFIX@) is None) by {
            reveal_with_fuel(bound, 3);
            assert(frame@.len() == 1);
            assert(frame@.last().0.len() == 3 && NS_XMLNS_PREFIX@.len() == 5);
            assert(frame@.drop_last().len() == 0);
        }
        frame.put(NS_XMLNS_PREFIX, NS_XMLNS_URI);
        assert(bound(frame@, NS_NO_PREFIX@) is None) by {
            reveal_with_fuel(bound, 4);
            assert(frame@.len() == 2);
            assert(frame@.last().0.len() == 5 && NS_NO_PREFIX@.len() == 0);
            assert(frame@.drop_last().last().0.len() == 3);
            assert(frame@.drop_last().drop_last().len() == 0);
        }
        frame.put(NS_NO_PREFIX, NS_EMPTY_URI);
        assert(frame@ =~= Self::base_frame());
        let mut v: Vec<Namespace> = Vec::new();
        v.push(frame);
        let r = NamespaceStack(v);
        assert(r@ =~= seq![Self::base_frame()]);
        r
    }

    /// The number of frames.
    pub fn len(&self) -> (r: usize)
        ensures
            r == self@.len(),
    {
        self.0.len()
    }

    /// Puts an empty frame on top.
    pub fn push_empty(&mut self)
        ensures
            final(self)@ == old(self)@.push(Seq::empty()),
            old(self).wf() ==> final(self).wf(),
    {
        self.0.push(Namespace::empty());
        assert(self@.last() =~= Bindings::empty());
        assert(self@ =~= old(self)@.push(Seq::empty()));
    }

    /// Takes the top frame off, if there is one.
    pub fn try_pop(&mut self) -> (r: Option<Namespace>)
        ensures
            match r {
                Some(frame) => old(self)@.len() > 0 && frame@ == old(self)@.last() && final(self)@ == old(self)@.drop_last(),
                None => old(self)@.len() == 0 && final(self)@ == old(self)@,
            },
            old(self).wf() ==> final(self).wf(),
    {
        let r = self.0.pop();
        proof {
            if old(self)@.len() > 0 {
                assert(self@ =~= old(self)@.drop_last());
            } else {
                assert(self@ =~= old(self)@);
            }
        }
        r
    }

    /// The top frame.
    pub fn peek(&self) -> (r: &Namespace)
        requires
            self@.len() > 0,
        ensures
            r@ == self@.last(),
    {
        &self.0[self.0.len() - 1]
    }

    /// Binds `prefix` to `uri` in the top frame unless that frame binds it
    /// already.  Returns whether it was bound now.
    pub fn put(&mut self, prefix: &str, uri: &str) -> (r: bool)
        requires
            old(self).wf(),
        ensures
            final(self).wf(),
            r == (old(self)@.len() > 0 && bound(old(self)@.last(), prefix@) is None),
            final(self)@ == (if r {
                old(self)@.update(old(self)@.len() - 1, old(self)@.last().push((prefix@, uri@)))
            } else {
                old(self)@
            }),
    {
        let n = self.0.len();
        if n == 0 {
            return false;
        }
        assert(distinct(self@[n - 1]));
        let top = &mut self.0[n - 1];
        let r = top.put(prefix, uri);
        proof {
            if r {
                assert(self@ =~= old(self)@.update(n - 1, old(self)@.last().push((prefix@, uri@))));
            } else {
                assert(self@ =~= old(self)@);
            }
            assert forall|i: int| 0 <= i < self@.len() implies distinct(#[trigger] self@[i]) by {
                if i != n - 1 {
                    assert(self@[i] == old(self)@[i]);
                }
            }
        }
        r
    }

    /// Whether some frame binds `prefix` to `uri`.
    pub fn is_declared(&self, prefix: &str, uri: &str) -> (r: bool)
        ensures
            r == declared(self@, prefix@, uri@),
    {
        let mut i: usize = 0;
        while i < self.0.len()
            invariant
                i <= self.0.len(),
                forall|j: int| 0 <= j < i ==> bound(#[trigger] self@[j], prefix@) != Some(uri@),
            decreases self.0.len() - i,
        {
            if let Some(u) = self.0[i].get(prefix) {
                if str_eq(u, uri) {
                    assert(bound(self@[i as int], prefix@) == Some(uri@));
                    return true;
                }
            }
            i = i + 1;
        }
        false
    }

    /// Binds `prefix` to `uri` in the top frame unless some frame binds it
    /// to that URI already.  Returns `false` where one does.
    pub fn put_checked(&mut self, prefix: &str, uri: &str) -> (r: bool)
        requires
            old(self).wf(),
        ensures
            final(self).wf(),
            r == !declared(old(self)@, prefix@, uri@),
            final(self)@ == (if r && old(self)@.len() > 0 && bound(old(self)@.last(), prefix@) is None {
                old(self)@.update(old(self)@.len() - 1, old(self)@.last().push((prefix@, uri@)))
            } else {
                old(self)@
            }),
    {
        if self.is_declared(prefix, uri) {
            false
        } else {
            self.put(prefix, uri);
            true
        }
    }

    /// The URI that `prefix` is bound to: the binding of the topmost frame
    /// that binds it.
    pub fn get(&self, prefix: &str) -> (r: Option<&str>)
        ensures
            match r {
                Some(uri) => lookup(self@, prefix@) == Some(uri@),
                None => lookup(self@, prefix@) is None,
            },
    {
        let mut i: usize = self.0.len();
        assert(self@.take(i as int) == self@);
        while i > 0
            invariant
                i <= self.0.len(),
                lookup(self@, prefix@) == lookup(self@.take(i as int), prefix@),
            decreases i,
        {
            i = i - 1;
            assert(self@.take(i + 1).drop_last() == self@.take(i as int));
            assert(self@.take(i + 1).last() == self@[i as int]);
            match self.0[i].get(prefix) {
                Some(uri) => {
                    return Some(uri);
                },
                None => {},
            }
        }
        None
    }

    /// All frames as one namespace, each frame laid over those below it.
    /// The result binds every prefix as the stack does.
    pub fn squash(&self) -> (r: Namespace)
        ensures
            r.wf(),
            r@ == squashed(self@),
            forall|prefix: Seq<char>| bound(r@, prefix) == lookup(self@, prefix),
    {
        let mut result = Namespace::empty();
        let mut i: usize = 0;
        assert(self@.take(0) == Seq::<Bindings>::empty());
        assert(result@ == squashed(self@.take(0)));
        proof {
            squashed_resolves(self@.take(0), Seq::empty());
        }
        while i < self.0.len()
            invariant
                i <= self.0.len(),
                result.wf(),
                result@ == squashed(self@.take(i as int)),
            decreases self.0.len() - i,
        {
            let frame = &self.0[i];
            let ghost base = result@;
            let mut j: usize = 0;
            assert(frame@.take(0) == Bindings::empty());
            while j < frame.len()
                invariant
                    j <= frame@.len(),
                    frame@ == self@[i as int],
                    result.wf(),
                    result@ == merged(base, frame@.take(j as int)),
                decreases frame@.len() - j,
            {
                let (p, u) = frame.entry(j);
                proof {
                    let t = frame@.take(j + 1);
                    assert(t.drop_last() == frame@.take(j as int));
                    assert(t.last() == frame@[j as int]);
                }
                result.force_put(p, u);
                j = j + 1;
            }
            proof {
                assert(frame@.take(frame@.len() as int) == frame@);
                let t = self@.take(i + 1);
                assert(t.drop_last() == self@.take(i as int));
                assert(t.last() == self@[i as int]);
            }
            i = i + 1;
        }
        proof {
            assert(self@.take(self@.len() as int) == self@);
            assert forall|prefix: Seq<char>| bound(result@, prefix) == lookup(self@, prefix) by {
                squashed_resolves(self@, prefix);
            }
        }
        result
    }
}

} // verus!
