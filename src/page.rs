//! A parsed HTML page, read through the `select` crate.
//!
//! The page's nodes are known by their position in the parsed document. What
//! the parser makes of a page is named below as a function of the page's text.
use select::document::Document;
use select::predicate::{Attr, Class, Name};
use vstd::prelude::*;

verus! {

#[verifier::external_type_specification]
#[verifier::external_body]
pub struct ExDocument(select::document::Document);

/// The first node, in document order, whose attribute `attr` is `value`.
pub uninterp spec fn first_with_attr(html: Seq<char>, attr: Seq<char>, value: Seq<char>) -> Option<
    usize,
>;

/// The elements called `name` below a node, in document order.
pub uninterp spec fn named_below(html: Seq<char>, node: usize, name: Seq<char>) -> Seq<usize>;

/// The value of the attribute `attr` of a node.
pub uninterp spec fn attr_at(html: Seq<char>, node: usize, attr: Seq<char>) -> Option<Seq<char>>;

/// The text of a node and all the nodes below it.
pub uninterp spec fn text_at(html: Seq<char>, node: usize) -> Seq<char>;

/// The elements whose class list holds `class`, in document order.
pub uninterp spec fn with_class(html: Seq<char>, class: Seq<char>) -> Seq<usize>;

/// The children of a node, in order.
pub uninterp spec fn children_at(html: Seq<char>, node: usize) -> Seq<usize>;

/// The element name of a node; none for text and comments.
pub uninterp spec fn name_at(html: Seq<char>, node: usize) -> Option<Seq<char>>;

/// An HTML page, parsed.
///
/// The fields are private and only [`Page::parse`] builds a page, so the
/// document is always the one that select makes of `source`; the contracts of
/// the methods below rest on that.
pub struct Page {
    doc: Document,
    source: Ghost<Seq<char>>,
}

impl Page {
    /// The text the page was parsed from.
    pub closed spec fn source(&self) -> Seq<char> {
        self.source@
    }

    /// Parses the text as HTML.
    pub fn parse(html: &str) -> (r: Page)
        ensures
            r.source() == html@,
    {
        Page { doc: parse_document(html), source: Ghost(html@) }
    }

    /// Relies on select's `Document::find` with `Attr(attr, value)`, which walks
    /// the nodes in document order: the position of the first node whose
    /// attribute `attr` is `value`.
    #[verifier::external_body]
    pub(crate) fn first_with_attr(&self, attr: &str, value: &str) -> (r: Option<usize>)
        ensures
            r == first_with_attr(self.source(), attr@, value@),
    {
        self.doc.find(Attr(attr, value)).next().map(|n| n.index())
    }

    /// Relies on select's `Document::nth` and `Node::find` with `Name(name)`:
    /// the positions of the elements called `name` below the node.
    #[verifier::external_body]
    pub(crate) fn named_below(&self, node: usize, name: &str) -> (r: Vec<usize>)
        ensures
            r@ == named_below(self.source(), node, name@),
    {
        match self.doc.nth(node) {
            Some(n) => n.find(Name(name)).map(|d| d.index()).collect(),
            None => Vec::new(),
        }
    }

    /// Relies on select's `Document::nth` and `Node::attr`: the value of the
    /// node's attribute `attr`, none for a missing one or a node that is not
    /// an element.
    #[verifier::external_body]
    pub(crate) fn attr(&self, node: usize, attr: &str) -> (r: Option<String>)
        ensures
            r matches Some(v) ==> attr_at(self.source(), node, attr@) == Some(v@),
            r is None ==> attr_at(self.source(), node, attr@) is None,
    {
        match self.doc.nth(node) {
            Some(n) => n.attr(attr).map(String::from),
            None => None,
        }
    }

    /// Relies on select's `Document::nth` and `Node::text`: the text of the
    /// node and all the nodes below it.
    #[verifier::external_body]
    pub(crate) fn text(&self, node: usize) -> (r: String)
        ensures
            r@ == text_at(self.source(), node),
    {
        match self.doc.nth(node) {
            Some(n) => n.text(),
            None => String::new(),
        }
    }

    /// Relies on select's `Document::find` with `Class(class)`: the positions
    /// of the elements whose class list holds `class`, in document order.
    #[verifier::external_body]
    pub(crate) fn with_class(&self, class: &str) -> (r: Vec<usize>)
        ensures
            r@ == with_class(self.source(), class@),
    {
        self.doc.find(Class(class)).map(|n| n.index()).collect()
    }

    /// Relies on select's `Document::nth` and `Node::children`: the positions of
    /// the node's children, in order.
    #[verifier::external_body]
    pub(crate) fn children(&self, node: usize) -> (r: Vec<usize>)
        ensures
            r@ == children_at(self.source(), node),
    {
        match self.doc.nth(node) {
            Some(n) => n.children().map(|c| c.index()).collect(),
            None => Vec::new(),
        }
    }

    /// Relies on select's `Document::nth` and `Node::name`: the element name of
    /// the node, none for text and comments.
    #[verifier::external_body]
    pub(crate) fn name(&self, node: usize) -> (r: Option<String>)
        ensures
            r matches Some(v) ==> name_at(self.source(), node) == Some(v@),
            r is None ==> name_at(self.source(), node) is None,
    {
        match self.doc.nth(node) {
            Some(n) => n.name().map(String::from),
            None => None,
        }
    }
}

/// Relies on select's `Document::from(&str)`, which parses the text as HTML.
#[verifier::external_body]
fn parse_document(html: &str) -> Document {
    Document::from(html)
}

} // verus!
