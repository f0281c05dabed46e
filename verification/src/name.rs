//! Qualified names.

use vstd::prelude::*;
use vstd::string::*;
use crate::text::{push_str_chars, str_chars, str_eq, string_from_chars};

verus! {

/// A qualified name as a value: a local name, and optionally the namespace
/// it belongs to and the prefix it was written with.
pub ghost struct NameView {
    pub local_name: Seq<char>,
    pub namespace: Option<Seq<char>>,
    pub prefix: Option<Seq<char>>,
}

impl NameView {
    /// The name as it stands in a document: the prefix and a colon, if there
    /// is a prefix, then the local name.
    pub open spec fn repr(self) -> Seq<char> {
        match self.prefix {
            Some(p) => p.push(':') + self.local_name,
            None => self.local_name,
        }
    }

    /// The name in full: the namespace between braces, if there is one, then
    /// the name as it stands in a document.
    pub open spec fn text(self) -> Seq<char> {
        match self.namespace {
            Some(ns) => seq!['{'] + ns + seq!['}'] + self.repr(),
            None => self.repr(),
        }
    }

    /// The prefix, or the empty prefix where the name has none.
    pub open spec fn prefix_repr(self) -> Seq<char> {
        match self.prefix {
            Some(p) => p,
            None => Seq::empty(),
        }
    }

    /// Whether two names name the same thing: the same local name in the same
    /// namespace.  The prefix does not count.
    pub open spec fn same(self, other: NameView) -> bool {
        self.local_name == other.local_name && self.namespace == other.namespace
    }
}

/// The position of the first colon in `s`, or the length of `s` where it has
/// none.
pub open spec fn first_colon(s: Seq<char>) -> int
    decreases s.len(),
{
    if s.len() == 0 || s[0] == ':' {
        0
    } else {
        1 + first_colon(s.drop_first())
    }
}

/// The first colon lies within the text or at its end, and no colon comes
/// before it.
pub proof fn first_colon_bounds(s: Seq<char>)
    ensures
        0 <= first_colon(s) <= s.len(),
        first_colon(s) < s.len() ==> s[first_colon(s)] == ':',
        forall|i: int| 0 <= i < first_colon(s) ==> s[i] != ':',
    decreases s.len(),
{
    if s.len() > 0 && s[0] != ':' {
        first_colon_bounds(s.drop_first());
        assert forall|i: int| 0 <= i < first_colon(s) implies s[i] != ':' by {
            if i > 0 {
                assert(s.drop_first()[i - 1] == s[i]);
            }
        }
    }
}

/// The name that `s` is read as: what comes before the first colon is the
/// prefix, what comes after it the local name; without a colon all of `s` is
/// the local name.
pub open spec fn split_name(s: Seq<char>) -> NameView {
    let k = first_colon(s);
    if k < s.len() {
        NameView { local_name: s.subrange(k + 1, s.len() as int), namespace: None, prefix: Some(s.subrange(0, k)) }
    } else {
        NameView { local_name: s, namespace: None, prefix: None }
    }
}

/// The qualified name that `s` is, if it is one: a local name that is not
/// empty, or a prefix and a local name, neither empty, with one colon between
/// them and no other colon.
pub open spec fn parsed_name(s: Seq<char>) -> Option<NameView> {
    let n = split_name(s);
    if n.local_name.len() == 0 || n.local_name.contains(':') || (n.prefix is Some && n.prefix->0.len() == 0) {
        None
    } else {
        Some(n)
    }
}

/// The position of the first colon in `s`, or the length of `s`.
pub fn find_colon(s: &Vec<char>) -> (k: usize)
    ensures
        k == first_colon(s@),
        k <= s.len(),
{
    let mut i: usize = 0;
    assert(s@.skip(0) == s@);
    while i < s.len() && s[i] != ':'
        invariant
            i <= s.len(),
            first_colon(s@) == i + first_colon(s@.skip(i as int)),
        decreases s.len() - i,
    {
        assert(s@.skip(i as int).drop_first() == s@.skip(i + 1));
        i = i + 1;
    }
    i
}

/// A qualified name whose parts are borrowed.
#[derive(Copy, Clone, PartialEq, Eq, Debug)]
pub struct Name<'a> {
    /// The local name.
    pub local_name: &'a str,
    /// The namespace that the name belongs to.
    pub namespace: Option<&'a str>,
    /// The prefix that the name was written with.
    pub prefix: Option<&'a str>,
}

impl<'a> View for Name<'a> {
    type V = NameView;

    open spec fn view(&self) -> NameView {
        NameView {
            local_name: self.local_name@,
            namespace: match self.namespace {
                Some(s) => Some(s@),
                None => None,
            },
            prefix: match self.prefix {
                Some(s) => Some(s@),
                None => None,
            },
        }
    }
}

/// Whether two optional texts are both absent or hold the same characters.
pub fn opt_str_eq(a: Option<&str>, b: Option<&str>) -> (r: bool)
    ensures
        r == (match (a, b) {
            (Some(x), Some(y)) => x@ == y@,
            (None, None) => true,
            _ => false,
        }),
{
    match (a, b) {
        (Some(x), Some(y)) => str_eq(x, y),
        (None, None) => true,
        _ => false,
    }
}

impl<'a> Name<'a> {
    /// A name without prefix and namespace.
    pub fn local(local_name: &'a str) -> (r: Name<'a>)
        ensures
            r@ == (NameView { local_name: local_name@, namespace: None, prefix: None }),
    {
        Name { local_name, prefix: None, namespace: None }
    }

    /// A name with a prefix and no namespace.
    pub fn prefixed(local_name: &'a str, prefix: &'a str) -> (r: Name<'a>)
        ensures
            r@ == (NameView { local_name: local_name@, namespace: None, prefix: Some(prefix@) }),
    {
        Name { local_name, namespace: None, prefix: Some(prefix) }
    }

    /// A name with a namespace and, optionally, a prefix.
    pub fn qualified(local_name: &'a str, namespace: &'a str, prefix: Option<&'a str>) -> (r: Name<'a>)
        ensures
            r.local_name == local_name,
            r.namespace == Some(namespace),
            r.prefix == prefix,
    {
        Name { local_name, namespace: Some(namespace), prefix }
    }

    /// Reads `s` as a name: what comes before the first colon is the prefix.
    pub fn from_str(s: &'a str) -> (r: Name<'a>)
        ensures
            r@ == split_name(s@),
    {
        let chars = str_chars(s);
        let k = find_colon(&chars);
        if k < chars.len() {
            Name {
                local_name: s.substring_char(k + 1, chars.len()),
                namespace: None,
                prefix: Some(s.substring_char(0, k)),
            }
        } else {
            Name { local_name: s, namespace: None, prefix: None }
        }
    }

    /// A copy of the name that owns its parts.
    pub fn to_owned(&self) -> (r: OwnedName)
        ensures
            r@ == self@,
    {
        OwnedName {
            local_name: String::from_str(self.local_name),
            namespace: match self.namespace {
                Some(s) => Some(String::from_str(s)),
                None => None,
            },
            prefix: match self.prefix {
                Some(s) => Some(String::from_str(s)),
                None => None,
            },
        }
    }

    /// The prefix, or the empty prefix where the name has none.
    pub fn prefix_repr(&self) -> (r: &'a str)
        ensures
            r@ == self@.prefix_repr(),
    {
        proof {
            reveal_strlit("");
            assert(""@ == Seq::<char>::empty());
        }
        match self.prefix {
            Some(p) => p,
            None => "",
        }
    }

    /// Appends the name as it stands in a document to `out`.
    pub fn push_repr(&self, out: &mut String)
        ensures
            final(out)@ == old(out)@ + self@.repr(),
    {
        let ghost before = out@;
        match self.prefix {
            Some(p) => {
                out.append(p);
                out.append(":");
                proof {
                    reveal_strlit(":");
                    assert(":"@ == seq![':']);
                    assert(before + p@ + seq![':'] + self.local_name@ == before + (p@.push(':') + self.local_name@));
                }
            },
            None => {},
        }
        out.append(self.local_name);
    }

    /// The name as it stands in a document: `prefix:local_name`, or the
    /// local name alone.
    pub fn to_repr(&self) -> (r: String)
        ensures
            r@ == self@.repr(),
    {
        let mut r = String::new();
        self.push_repr(&mut r);
        assert(Seq::<char>::empty() + self@.repr() == self@.repr());
        r
    }

    /// Whether the two names are written alike: the same local name, the same
    /// prefix and the same namespace.
    pub fn same_as(&self, other: &Name<'_>) -> (r: bool)
        ensures
            r == (self@ == other@),
    {
        str_eq(self.local_name, other.local_name) && opt_str_eq(self.namespace, other.namespace) && opt_str_eq(
            self.prefix,
            other.prefix,
        )
    }
}

/// A qualified name that owns its parts.
#[derive(Eq, Debug)]
pub struct OwnedName {
    /// The local name.
    pub local_name: String,
    /// The namespace that the name belongs to.
    pub namespace: Option<String>,
    /// The prefix that the name was written with.
    pub prefix: Option<String>,
}

impl View for OwnedName {
    type V = NameView;

    open spec fn view(&self) -> NameView {
        NameView {
            local_name: self.local_name@,
            namespace: match self.namespace {
                Some(s) => Some(s@),
                None => None,
            },
            prefix: match self.prefix {
                Some(s) => Some(s@),
                None => None,
            },
        }
    }
}

impl Clone for OwnedName {
    fn clone(&self) -> (r: Self)
        ensures
            r == *self,
    {
        OwnedName {
            local_name: self.local_name.clone(),
            namespace: match &self.namespace {
                Some(s) => Some(s.clone()),
                None => None,
            },
            prefix: match &self.prefix {
                Some(s) => Some(s.clone()),
                None => None,
            },
        }
    }
}

impl PartialEq for OwnedName {
    /// Two names are equal where they have the same local name in the same
    /// namespace, whatever their prefixes.
    fn eq(&self, other: &Self) -> (r: bool) {
        let a = self.borrow();
        let b = other.borrow();
        str_eq(a.local_name, b.local_name) && opt_str_eq(a.namespace, b.namespace)
    }
}

impl vstd::std_specs::cmp::PartialEqSpecImpl for OwnedName {
    open spec fn obeys_eq_spec() -> bool {
        true
    }

    open spec fn eq_spec(&self, other: &Self) -> bool {
        self@.same(other@)
    }
}

impl OwnedName {
    /// A name without prefix and namespace.
    pub fn local(local_name: &str) -> (r: OwnedName)
        ensures
            r@ == (NameView { local_name: local_name@, namespace: None, prefix: None }),
    {
        OwnedName { local_name: String::from_str(local_name), namespace: None, prefix: None }
    }

    /// A name with a namespace and, optionally, a prefix.
    pub fn qualified(local_name: &str, namespace: &str, prefix: Option<&str>) -> (r: OwnedName)
        ensures
            r@ == (NameView {
                local_name: local_name@,
                namespace: Some(namespace@),
                prefix: match prefix {
                    Some(p) => Some(p@),
                    None => None,
                },
            }),
    {
        OwnedName {
            local_name: String::from_str(local_name),
            namespace: Some(String::from_str(namespace)),
            prefix: match prefix {
                Some(p) => Some(String::from_str(p)),
                None => None,
            },
        }
    }

    /// The name with its parts borrowed.
    pub fn borrow(&self) -> (r: Name<'_>)
        ensures
            r@ == self@,
    {
        Name {
            local_name: self.local_name.as_str(),
            namespace: match &self.namespace {
                Some(s) => Some(s.as_str()),
                None => None,
            },
            prefix: match &self.prefix {
                Some(s) => Some(s.as_str()),
                None => None,
            },
        }
    }

    /// Reads a qualified name: a local name, or a prefix, a colon and a local
    /// name.  Nothing where a part is empty or there is a second colon.
    pub fn parse(s: &Vec<char>) -> (r: Option<OwnedName>)
        ensures
            match r {
                Some(n) => parsed_name(s@) == Some(n@),
                None => parsed_name(s@) is None,
            },
    {
        let k = find_colon(s);
        proof {
            first_colon_bounds(s@);
        }
        if k < s.len() {
            if k == 0 || k + 1 == s.len() {
                return None;
            }
            let mut prefix: Vec<char> = Vec::new();
            let mut local: Vec<char> = Vec::new();
            let mut i: usize = 0;
            while i < k
                invariant
                    i <= k <= s.len(),
                    0 < k,
                    k + 1 < s.len(),
                    k == first_colon(s@),
                    prefix@ == s@.subrange(0, i as int),
                decreases k - i,
            {
                prefix.push(s[i]);
                assert(s@.subrange(0, i + 1) == s@.subrange(0, i as int).push(s@[i as int]));
                i = i + 1;
            }
            i = k + 1;
            while i < s.len()
                invariant
                    k + 1 <= i <= s.len(),
                    0 < k,
                    k + 1 < s.len(),
                    k == first_colon(s@),
                    prefix@ == s@.subrange(0, k as int),
                    local@ == s@.subrange(k + 1, i as int),
                    !local@.contains(':'),
                decreases s.len() - i,
            {
                if s[i] == ':' {
                    proof {
                        let rest = s@.subrange(k + 1, s@.len() as int);
                        assert(rest[i - k - 1] == ':');
                    }
                    return None;
                }
                local.push(s[i]);
                proof {
                    let grown = s@.subrange(k + 1, i + 1);
                    assert(grown == s@.subrange(k + 1, i as int).push(s@[i as int]));
                    assert forall|j: int| 0 <= j < grown.len() implies grown[j] != ':' by {
                        if j < grown.len() - 1 {
                            assert(s@.subrange(k + 1, i as int)[j] == grown[j]);
                        }
                    }
                }
                i = i + 1;
            }
            Some(
                OwnedName {
                    local_name: string_from_chars(&local),
                    namespace: None,
                    prefix: Some(string_from_chars(&prefix)),
                },
            )
        } else {
            if s.len() == 0 {
                return None;
            }
            proof {
                assert forall|j: int| 0 <= j < s@.len() implies s@[j] != ':' by {}
            }
            Some(OwnedName { local_name: string_from_chars(s), namespace: None, prefix: None })
        }
    }

    /// The name in full: the namespace between braces, if there is one, then
    /// the prefix and a colon, if there is a prefix, then the local name.
    pub fn to_string(&self) -> (r: String)
        ensures
            r@ == self@.text(),
    {
        let mut v: Vec<char> = Vec::new();
        if let Some(ns) = &self.namespace {
            v.push('{');
            push_str_chars(&mut v, ns.as_str());
            v.push('}');
        }
        let ghost head = v@;
        if let Some(p) = &self.prefix {
            push_str_chars(&mut v, p.as_str());
            v.push(':');
            assert(v@ == head + p@.push(':'));
        }
        push_str_chars(&mut v, self.local_name.as_str());
        proof {
            assert(v@ == head + self@.repr());
            if self.namespace is Some {
                assert(head == seq!['{'] + self.namespace->0@ + seq!['}']);
            } else {
                assert(head + self@.repr() == self@.repr());
            }
        }
        string_from_chars(&v)
    }
}

} // verus!
