//! The diagnostic tree: one [`Node`] per validated tag instance, each
//! carrying its own attributes and errors plus the nodes of its children.
//!
//! Every executable type has a mathematical model (`TagNameS`, `ValueS`,
//! `ErrorS`, `NodeS`) reached through `@`; the analyzer's contracts are
//! stated over these models.

use vstd::prelude::*;

verus! {

/// The tag namespaces that the validator distinguishes from plain RSS.
#[derive(Clone, Copy, Debug, PartialEq, Eq, Structural)]
pub enum Namespace {
    Podcast,
}

/// A qualified tag name: an optional namespace and the local part.
#[derive(Clone, Debug, PartialEq, Eq)]
pub struct TagName(pub Option<Namespace>, pub String);

/// Model of [`TagName`].
#[verifier::ext_equal]
pub struct TagNameS {
    pub ns: Option<Namespace>,
    pub local: Seq<char>,
}

impl View for TagName {
    type V = TagNameS;

    open spec fn view(&self) -> TagNameS {
        TagNameS { ns: self.0, local: self.1@ }
    }
}

impl DeepView for TagName {
    type V = TagNameS;

    open spec fn deep_view(&self) -> TagNameS {
        self.view()
    }
}

/// An attribute value attached to a node.
///
/// `Text` is quoted user content; `Object` is a canonical rendering of a
/// typed value (booleans, numbers, composite records); `Url` is a validated
/// absolute URL.
#[derive(Clone, Debug, PartialEq, Eq)]
pub enum Value {
    Text(String),
    Object(String),
    Url(String),
}

/// Model of [`Value`].
#[verifier::ext_equal]
pub enum ValueS {
    Text(Seq<char>),
    Object(Seq<char>),
    Url(Seq<char>),
}

impl View for Value {
    type V = ValueS;

    open spec fn view(&self) -> ValueS {
        match self {
            Value::Text(s) => ValueS::Text(s@),
            Value::Object(s) => ValueS::Object(s@),
            Value::Url(s) => ValueS::Url(s@),
        }
    }
}

impl DeepView for Value {
    type V = ValueS;

    open spec fn deep_view(&self) -> ValueS {
        self.view()
    }
}

/// A diagnostic attached directly to one node.
///
/// The attribute key may be the sentinel [`node_value_key`], which denotes
/// the tag's own text content rather than an XML-style attribute.
#[derive(Clone, Debug, PartialEq, Eq)]
pub enum Error {
    /// A required attribute is absent.
    MissingAttribute(String),
    /// An attribute value was rejected by the decoder; no reason available.
    InvalidAttribute(String, String),
    /// An attribute value was rejected by the decoder, with a reason.
    InvalidAttributeWithReason(String, String, String),
    /// A required child tag is absent.
    MissingChild(TagName),
    /// A child tag allowed at most once occurs more than once.
    MultipleChildren(TagName),
    /// A free-text attribute is over its declared length limit.
    AttributeExceedsMaxLength(String, String, usize),
    /// A one-off rule not fitting the other variants.
    Custom(String),
    /// A one-off rule with a disclosable extra explanation.
    CustomWithExtraInfo(String, String),
}

/// Model of [`Error`].
#[verifier::ext_equal]
pub enum ErrorS {
    MissingAttribute(Seq<char>),
    InvalidAttribute(Seq<char>, Seq<char>),
    InvalidAttributeWithReason(Seq<char>, Seq<char>, Seq<char>),
    MissingChild(TagNameS),
    MultipleChildren(TagNameS),
    AttributeExceedsMaxLength(Seq<char>, Seq<char>, int),
    Custom(Seq<char>),
    CustomWithExtraInfo(Seq<char>, Seq<char>),
}

impl DeepView for Error {
    type V = ErrorS;

    open spec fn deep_view(&self) -> ErrorS {
        self.view()
    }
}

impl View for Error {
    type V = ErrorS;

    open spec fn view(&self) -> ErrorS {
        match self {
            Error::MissingAttribute(k) => ErrorS::MissingAttribute(k@),
            Error::InvalidAttribute(k, v) => ErrorS::InvalidAttribute(k@, v@),
            Error::InvalidAttributeWithReason(k, v, r) => ErrorS::InvalidAttributeWithReason(
                k@,
                v@,
                r@,
            ),
            Error::MissingChild(t) => ErrorS::MissingChild(t@),
            Error::MultipleChildren(t) => ErrorS::MultipleChildren(t@),
            Error::AttributeExceedsMaxLength(k, v, m) => ErrorS::AttributeExceedsMaxLength(
                k@,
                v@,
                *m as int,
            ),
            Error::Custom(m) => ErrorS::Custom(m@),
            Error::CustomWithExtraInfo(m, e) => ErrorS::CustomWithExtraInfo(m@, e@),
        }
    }
}

/// The attribute key that stands for a tag's own text content.
pub fn node_value_key() -> (k: String)
    ensures
        k@ == spec_node_value_key(),
{
    proof {
        reveal_strlit("node value");
    }
    String::from_str("node value")
}

/// Model of the sentinel key.
pub open spec fn spec_node_value_key() -> Seq<char> {
    "node value"@
}

/// One validated tag instance.
///
/// Children are in document order; attributes are in the order the analyzer
/// attached them.  Errors describe only this node's own problems: a child's
/// problems live in the child's own `errors`.
#[derive(Debug, PartialEq, Eq)]
pub struct Node {
    pub name: TagName,
    pub children: Vec<Node>,
    pub attributes: Vec<(String, Value)>,
    pub errors: Vec<Error>,
}

/// Model of [`Node`].
#[verifier::ext_equal]
pub struct NodeS {
    pub name: TagNameS,
    pub children: Seq<NodeS>,
    pub attributes: Seq<(Seq<char>, ValueS)>,
    pub errors: Seq<ErrorS>,
}

/// The model of an attribute list, element by element.
pub open spec fn attrs_view(s: Seq<(String, Value)>) -> Seq<(Seq<char>, ValueS)> {
    Seq::new(s.len(), |i: int| (s[i].0@, s[i].1@))
}

/// The model of an error list, element by element.
pub open spec fn errs_view(s: Seq<Error>) -> Seq<ErrorS> {
    Seq::new(s.len(), |i: int| s[i]@)
}

/// Model of a [`Node`], reached recursively through the children.
pub open spec fn spec_node_view(n: Node) -> NodeS
    decreases n,
{
    NodeS {
        name: n.name@,
        children: Seq::new(
            n.children@.len(),
            |i: int|
                if 0 <= i < n.children@.len() {
                    proof {
                        assert(decreases_to!(n => n.children));
                        assert(decreases_to!(n.children => n.children[i]));
                    }
                    spec_node_view(n.children[i])
                } else {
                    arbitrary()
                },
        ),
        attributes: attrs_view(n.attributes@),
        errors: errs_view(n.errors@),
    }
}

impl View for Node {
    type V = NodeS;

    open spec fn view(&self) -> NodeS {
        spec_node_view(*self)
    }
}

impl DeepView for Node {
    type V = NodeS;

    open spec fn deep_view(&self) -> NodeS {
        self.view()
    }
}

/// The model of a sequence of nodes, element by element.
pub open spec fn nodes_view(s: Seq<Node>) -> Seq<NodeS> {
    Seq::new(s.len(), |i: int| spec_node_view(s[i]))
}

/// The list views grow element by element as the lists do.
pub proof fn lemma_attrs_view_push(s: Seq<(String, Value)>, a: (String, Value))
    ensures
        attrs_view(s.push(a)) == attrs_view(s).push((a.0@, a.1@)),
{
    assert(attrs_view(s.push(a)) =~= attrs_view(s).push((a.0@, a.1@)));
}

pub proof fn lemma_errs_view_push(s: Seq<Error>, e: Error)
    ensures
        errs_view(s.push(e)) == errs_view(s).push(e@),
{
    assert(errs_view(s.push(e)) =~= errs_view(s).push(e@));
}

/// Whether a subtree contains any error: true iff the node's own `errors`
/// is non-empty or the predicate holds for some child.  A leaf without
/// errors yields false.
pub open spec fn subtree_has_errors(n: NodeS) -> bool
    decreases n,
{
    n.errors.len() > 0 || exists|i: int|
        0 <= i < n.children.len() && subtree_has_errors(#[trigger] n.children[i])
}

/// Whether a subtree mentions the validated namespace at all: true iff this
/// node's own tag is namespaced or some descendant's is.
pub open spec fn subtree_has_namespace(n: NodeS) -> bool
    decreases n,
{
    n.name.ns == Some(Namespace::Podcast) || exists|i: int|
        0 <= i < n.children.len() && subtree_has_namespace(#[trigger] n.children[i])
}

impl Node {
    /// Rollup used to decide default-expanded presentation: exact, with no
    /// false negatives, so that a "no problems found" affirmation can be
    /// trusted.
    pub fn descendants_have_errors(&self) -> (found: bool)
        ensures
            found == subtree_has_errors(self@),
        decreases *self,
    {
        if self.errors.len() > 0 {
            return true;
        }
        let n = self.children.len();
        let mut i: usize = 0;
        while i < n
            invariant
                n == self.children.len(),
                i <= n,
                self.errors.len() == 0,
                forall|j: int| 0 <= j < i ==> !subtree_has_errors(self@.children[j]),
            decreases n - i,
        {
            if self.children[i].descendants_have_errors() {
                assert(subtree_has_errors(self@.children[i as int]));
                return true;
            }
            i += 1;
        }
        false
    }

    /// Rollup used to distinguish "nothing to validate" from "validated
    /// cleanly".
    pub fn descendants_have_podcast_tags(&self) -> (found: bool)
        ensures
            found == subtree_has_namespace(self@),
        decreases *self,
    {
        if let Some(Namespace::Podcast) = self.name.0 {
            assert(self@.name.ns == Some(Namespace::Podcast));
            return true;
        }
        let n = self.children.len();
        let mut i: usize = 0;
        while i < n
            invariant
                n == self.children.len(),
                i <= n,
                self.name.0 is None,
                forall|j: int| 0 <= j < i ==> !subtree_has_namespace(self@.children[j]),
            decreases n - i,
        {
            if self.children[i].descendants_have_podcast_tags() {
                assert(subtree_has_namespace(self@.children[i as int]));
                return true;
            }
            i += 1;
        }
        false
    }
}

} // verus!
