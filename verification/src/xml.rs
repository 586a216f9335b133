use vstd::prelude::*;

use crate::node::Node;
use sxd_document::dom::{ChildOfElement, ChildOfRoot};
use sxd_document::parser;

verus! {

/// What `sxd_document::parser::parse` yields on a given text, carried into
/// this library's tree type: the document's top-level nodes on success, the
/// parser's diagnostic text on failure. The parse depends on the text alone.
pub uninterp spec fn xml_parse(s: Seq<char>) -> Result<Seq<Node>, Seq<char>>;

#[verifier::external_type_specification]
#[verifier::external_body]
pub struct ExElement<'d>(sxd_document::dom::Element<'d>);

/// Builds a text node from borrowed text.
fn text_node(t: &str) -> (r: Node)
    ensures
        r matches Node::Text { text } && text@ == t@,
{
    Node::Text { text: t.to_owned() }
}

/// Builds a comment node from borrowed text.
fn comment_node(t: &str) -> (r: Node)
    ensures
        r matches Node::Comment { text } && text@ == t@,
{
    Node::Comment { text: t.to_owned() }
}

/// Builds a processing-instruction node from borrowed parts.
fn pi_node(target: &str, value: Option<&str>) -> (r: Node)
    ensures
        r matches Node::ProcessingInstruction { .. },
{
    let v: Option<String> = match value {
        Some(v) => Some(v.to_owned()),
        None => None,
    };
    Node::ProcessingInstruction { target: target.to_owned(), value: v }
}

/// Relies on sxd_document's DOM accessors (`name`, `attributes`,
/// `children`): they reproduce what the parser read, in document order.
/// This is the recursive converter behind [`parse_to_nodes`]; nothing else
/// calls it.
#[verifier::external_body]
fn convert_element<'d>(e: sxd_document::dom::Element<'d>) -> Node {
    let name = e.name().local_part().to_string();
    let attributes = e.attributes().iter().map(|a| (a.name().local_part().to_string(), a.value().to_string())).collect();
    let children = e.children().into_iter().map(|c| match c {
        ChildOfElement::Element(x) => convert_element(x),
        ChildOfElement::Text(x) => text_node(x.text()),
        ChildOfElement::Comment(x) => comment_node(x.text()),
        ChildOfElement::ProcessingInstruction(x) => pi_node(x.target(), x.value()),
    }).collect();
    Node::Element { name, attributes, children }
}

/// Relies on sxd_document::parser::parse: a deterministic parse of the
/// text. On success the document's top-level nodes are handed back as this
/// library's tree; on failure, the parser's diagnostic text.
#[verifier::external_body]
pub(crate) fn parse_to_nodes(s: &str) -> (r: Result<Vec<Node>, String>)
    ensures
        match r {
            Ok(ns) => xml_parse(s@) == Ok::<Seq<Node>, Seq<char>>(ns@),
            Err(e) => xml_parse(s@) == Err::<Seq<Node>, Seq<char>>(e@),
        },
{
    match parser::parse(s) {
        Ok(package) => Ok(package.as_document().root().children().into_iter().map(|c| match c {
            ChildOfRoot::Element(x) => convert_element(x),
            ChildOfRoot::Comment(x) => comment_node(x.text()),
            ChildOfRoot::ProcessingInstruction(x) => pi_node(x.target(), x.value()),
        }).collect()),
        Err(e) => Err(format!("{}", e)),
    }
}

} // verus!
