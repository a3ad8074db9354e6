//! The element abstraction consumed from the element-tree walker: namespace
//! and tag, ordered attributes, fallibly decoded children in document
//! order, and the two text extractions.

use vstd::prelude::*;

verus! {

/// The namespace of an element, as the walker reports it: the MediaRSS
/// namespace, or anything else (another namespace, or none).
#[derive(Clone, Copy, PartialEq, Eq, Structural, Debug)]
pub enum Ns {
    MediaRss,
    Other,
}

/// One `name="value"` attribute.
#[derive(Clone, Debug)]
pub struct Attribute {
    pub name: String,
    pub value: String,
}

/// The outcome of a text extraction by the walker: the text, no text, or a
/// decode fault of the walker itself.
#[derive(Clone, Debug)]
pub enum Fetched {
    Text(String),
    Absent,
    Fault,
}

/// One child slot of an element: a decoded child element, or a decode
/// failure reported by the walker for that child.
pub enum Child {
    Node(Element),
    Fault,
}

/// An element as handed over by the walker.
///
/// `flat_text` is the flattened text-only content; `serialized` is the
/// whole serialized child content, nested markup included. Both are
/// extracted lazily by the walker, so each carries its own outcome.
pub struct Element {
    pub ns: Ns,
    pub tag: String,
    pub attributes: Vec<Attribute>,
    pub children: Vec<Child>,
    pub flat_text: Fetched,
    pub serialized: Fetched,
}

} // verus!
