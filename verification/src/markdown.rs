//! Reading Markdown: comrak parses the text, and the tree it builds is handed
//! over as a walk of enter/leave events, from which the library's own tree is
//! rebuilt.
use vstd::prelude::*;
use std::collections::VecDeque;
use comrak::arena_tree::NodeEdge;
use comrak::nodes::{ListType, NodeValue};
use crate::document::{Event, ListKind, Node, NodeKind, tree_events, tree_from_events};

verus! {

#[verifier::external_type_specification]
#[verifier::external_body]
pub struct ExNodeValue(NodeValue);

/// The walk through the tree that comrak builds for a Markdown text, with
/// footnotes, dollar and code math, strikethrough, tables, autolinks, task
/// lists, superscript and smart punctuation switched on.
pub uninterp spec fn markdown_events(input: Seq<char>) -> Seq<Event>;

/// Converts the comrak node kinds that carry no values; the others go on to
/// [`node_kind_text`].
#[verifier::external_body]
fn node_kind(v: &NodeValue) -> NodeKind {
    match v {
        NodeValue::Document => NodeKind::Document,
        NodeValue::FrontMatter(_) => NodeKind::FrontMatter,
        NodeValue::BlockQuote => NodeKind::BlockQuote,
        NodeValue::Item(_) => NodeKind::Item,
        NodeValue::Paragraph => NodeKind::Paragraph,
        NodeValue::ThematicBreak => NodeKind::ThematicBreak,
        NodeValue::TableRow(_) => NodeKind::TableRow,
        NodeValue::TableCell => NodeKind::TableCell,
        NodeValue::SoftBreak => NodeKind::SoftBreak,
        NodeValue::LineBreak => NodeKind::LineBreak,
        NodeValue::Emph => NodeKind::Emph,
        NodeValue::Strong => NodeKind::Strong,
        _ => node_kind_text(v),
    }
}

/// Converts the comrak node kinds that carry one text; the others go on to
/// [`node_kind_block`].
#[verifier::external_body]
fn node_kind_text(v: &NodeValue) -> NodeKind {
    match v {
        NodeValue::Strikethrough => NodeKind::Strikethrough,
        NodeValue::Text(t) => NodeKind::Text(t.to_string()),
        NodeValue::Code(c) => NodeKind::Code(c.literal.clone()),
        NodeValue::HtmlInline(h) => NodeKind::HtmlInline(h.clone()),
        NodeValue::HtmlBlock(hb) => NodeKind::HtmlBlock(hb.literal.clone()),
        NodeValue::Link(l) => NodeKind::Link(l.url.clone()),
        NodeValue::Image(l) => NodeKind::Image(l.url.clone()),
        NodeValue::FootnoteReference(f) => NodeKind::FootnoteReference(f.name.clone()),
        NodeValue::FootnoteDefinition(d) => NodeKind::FootnoteDefinition(d.name.clone()),
        _ => node_kind_block(v),
    }
}

/// Converts the remaining comrak node kinds that the converter reads; every
/// other kind becomes `Other`.
#[verifier::external_body]
fn node_kind_block(v: &NodeValue) -> NodeKind {
    match v {
        NodeValue::List(l) if l.list_type == ListType::Ordered => NodeKind::List(ListKind::Ordered),
        NodeValue::List(_) => NodeKind::List(ListKind::Bullet),
        NodeValue::CodeBlock(b) => NodeKind::CodeBlock { info: b.info.clone(), literal: b.literal.clone() },
        NodeValue::Heading(h) => NodeKind::Heading(h.level),
        NodeValue::Table(t) => NodeKind::Table(t.alignments.len()),
        NodeValue::TaskItem(t) => NodeKind::TaskItem(t.symbol),
        NodeValue::Math(m) => NodeKind::Math { display: m.display_math, literal: m.literal.clone() },
        _ => NodeKind::Other,
    }
}

/// comrak's `parse_document` on the text, and the walk (`traverse`) through
/// the tree it returns. Claimed: the walk depends on the text alone, and it is
/// the walk of some tree (every node is entered, then its children are
/// walked, then it is left).
#[verifier::external_body]
fn markdown_walk(input: &str) -> (evs: VecDeque<Event>)
    ensures
        evs@ == markdown_events(input@),
        exists|t: Node| evs@ == tree_events(t),
{
    let arena = comrak::Arena::new();
    let mut options = comrak::Options::default();
    let ext = &mut options.extension;
    (ext.footnotes, ext.math_dollars, ext.math_code, ext.strikethrough) = (true, true, true, true);
    (ext.table, ext.autolink, ext.tasklist, ext.superscript) = (true, true, true, true);
    options.parse.smart = true;
    let root = comrak::parse_document(&arena, input, &options);
    root.traverse().map(|edge| match edge {
        NodeEdge::Start(n) => Event::Enter(node_kind(&n.data().value)),
        NodeEdge::End(_) => Event::Leave,
    }).collect()
}

/// Parses a Markdown text into a document tree.
pub fn parse(input: &str) -> (doc: Node)
    ensures
        tree_events(doc) == markdown_events(input@),
{
    tree_from_events(markdown_walk(input))
}

} // verus!
