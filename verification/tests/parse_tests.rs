use orthos::convert::convert_with;
use orthos::document::{tree_from_events, Event, Node, NodeKind};
use orthos::markdown::parse;
use orthos::pipeline::typst_markup;
use orthos::template::PREAMBLE;
use std::collections::VecDeque;

fn kinds(n: &Node, out: &mut Vec<String>) {
    out.push(format!("{:?}", std::mem::discriminant(&n.kind)));
    for c in &n.children {
        kinds(c, out);
    }
}

#[test]
fn events_rebuild_the_tree() {
    let mut evs = VecDeque::new();
    evs.push_back(Event::Enter(NodeKind::Document));
    evs.push_back(Event::Enter(NodeKind::Paragraph));
    evs.push_back(Event::Enter(NodeKind::Text("a".to_string())));
    evs.push_back(Event::Leave);
    evs.push_back(Event::Enter(NodeKind::Text("b".to_string())));
    evs.push_back(Event::Leave);
    evs.push_back(Event::Leave);
    evs.push_back(Event::Enter(NodeKind::ThematicBreak));
    evs.push_back(Event::Leave);
    evs.push_back(Event::Leave);
    let t = tree_from_events(evs);
    assert!(matches!(t.kind, NodeKind::Document));
    assert_eq!(t.children.len(), 2);
    assert_eq!(t.children[0].children.len(), 2);
    assert!(matches!(t.children[1].kind, NodeKind::ThematicBreak));
    assert_eq!(convert_with(&t, &vec![]), "ab\n\n\n#line(length: 100%)\n\n");
}

#[test]
fn parse_builds_document_tree() {
    let d = parse("Hello *world*\n");
    assert!(matches!(d.kind, NodeKind::Document));
    let mut ks = Vec::new();
    kinds(&d, &mut ks);
    assert_eq!(ks.len(), 5);
    assert_eq!(convert_with(&d, &vec![]), "Hello _world_\n\n");
}

#[test]
fn parse_heading_and_math() {
    let d = parse("# Hi\n\n$x^2$\n");
    assert_eq!(convert_with(&d, &vec![]), "\n= Hi\n\n$ x^2 $\n\n");
}

#[test]
fn parse_footnotes() {
    let d = parse("A[^1]\n\n[^1]: Note\n");
    assert_eq!(convert_with(&d, &vec![]), "A#footnote[Note]\n\n");
}

#[test]
fn markup_starts_with_the_preamble() {
    let m = typst_markup("# Hi\n").unwrap();
    assert_eq!(m, format!("{}\n= Hi\n\n", PREAMBLE));
}
