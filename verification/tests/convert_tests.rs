use orthos::convert::{convert, convert_with, document_converts, try_convert};
use orthos::document::{ListKind, Node, NodeKind};

fn leaf(kind: NodeKind) -> Node {
    Node { kind, children: vec![] }
}

fn node(kind: NodeKind, children: Vec<Node>) -> Node {
    Node { kind, children }
}

fn text(s: &str) -> Node {
    leaf(NodeKind::Text(s.to_string()))
}

fn doc(children: Vec<Node>) -> Node {
    node(NodeKind::Document, children)
}

fn para(children: Vec<Node>) -> Node {
    node(NodeKind::Paragraph, children)
}

fn render(children: Vec<Node>) -> String {
    convert_with(&doc(children), &vec![])
}

#[test]
fn paragraph_with_strong_text() {
    let out = render(vec![para(vec![
        text("Hello "),
        node(NodeKind::Strong, vec![text("world")]),
    ])]);
    assert_eq!(out, "Hello *world*\n\n");
}

#[test]
fn inline_styles() {
    assert_eq!(render(vec![node(NodeKind::Emph, vec![text("e")])]), "_e_");
    assert_eq!(render(vec![node(NodeKind::Strikethrough, vec![text("s")])]), "#strike[s]");
    assert_eq!(render(vec![leaf(NodeKind::Code("let x".to_string()))]), "`let x`");
    assert_eq!(render(vec![leaf(NodeKind::SoftBreak)]), " ");
    assert_eq!(render(vec![leaf(NodeKind::LineBreak)]), "\\\n");
}

#[test]
fn text_is_escaped() {
    assert_eq!(render(vec![text("#1 costs $2")]), "\\#1 costs \\$2");
}

#[test]
fn heading_levels() {
    assert_eq!(render(vec![node(NodeKind::Heading(2), vec![text("Title")])]), "\n== Title\n\n");
    assert_eq!(render(vec![node(NodeKind::Heading(1), vec![text("T")])]), "\n= T\n\n");
}

#[test]
fn paragraph_is_trimmed() {
    assert_eq!(render(vec![para(vec![text("  x  ")])]), "x\n\n");
}

#[test]
fn bullet_and_ordered_lists() {
    let item = |s: &str| node(NodeKind::Item, vec![para(vec![text(s)])]);
    assert_eq!(
        render(vec![node(NodeKind::List(ListKind::Bullet), vec![item("a"), item("b")])]),
        "\n- a\n- b\n\n"
    );
    assert_eq!(
        render(vec![node(NodeKind::List(ListKind::Ordered), vec![item("one")])]),
        "\n+ one\n\n"
    );
}

#[test]
fn task_list_items() {
    let list = node(
        NodeKind::List(ListKind::Bullet),
        vec![
            node(NodeKind::TaskItem(Some('x')), vec![para(vec![text("done")])]),
            node(NodeKind::TaskItem(None), vec![para(vec![text("todo")])]),
            node(NodeKind::Paragraph, vec![text("dropped")]),
        ],
    );
    assert_eq!(render(vec![list]), "\n- [x] done\n- [ ] todo\n\n");
    assert_eq!(
        render(vec![node(NodeKind::TaskItem(Some('X')), vec![text(" t ")])]),
        "[x] t"
    );
}

#[test]
fn footnotes_are_inlined() {
    let out = render(vec![
        para(vec![text("See"), leaf(NodeKind::FootnoteReference("1".to_string()))]),
        node(NodeKind::FootnoteDefinition("1".to_string()), vec![para(vec![text("Note")])]),
    ]);
    assert_eq!(out, "See#footnote[Note]\n\n");
}

#[test]
fn first_footnote_definition_wins() {
    let out = render(vec![
        leaf(NodeKind::FootnoteReference("n".to_string())),
        node(NodeKind::FootnoteDefinition("n".to_string()), vec![text("first")]),
        node(NodeKind::FootnoteDefinition("n".to_string()), vec![text("second")]),
    ]);
    assert_eq!(out, "#footnote[first]");
}

#[test]
fn undefined_footnote_shows_its_name() {
    assert_eq!(
        render(vec![leaf(NodeKind::FootnoteReference("x".to_string()))]),
        "#footnote[x]"
    );
}

#[test]
fn math_inline_and_display() {
    let m = |display: bool, s: &str| leaf(NodeKind::Math { display, literal: s.to_string() });
    assert_eq!(render(vec![m(false, " x^2 ")]), "$ x^2 $");
    assert_eq!(render(vec![m(true, "\\frac{a}{b}")]), "$ (a)/(b) $\n\n");
    assert_eq!(render(vec![m(true, "   ")]), "");
}

#[test]
fn code_blocks() {
    let cb = |info: &str, lit: &str| {
        leaf(NodeKind::CodeBlock { info: info.to_string(), literal: lit.to_string() })
    };
    assert_eq!(render(vec![cb("rust", "fn main() {}\n")]), "```rust\nfn main() {}\n```\n\n");
    assert_eq!(render(vec![cb("", "x\n")]), "```\nx\n```\n\n");
}

#[test]
fn links() {
    assert_eq!(
        render(vec![node(NodeKind::Link("https://a.b/\"q".to_string()), vec![text("x")])]),
        "#link(\"https://a.b/%22q\")[x]"
    );
    assert_eq!(
        render(vec![leaf(NodeKind::Link("https://a.b".to_string()))]),
        "#link(\"https://a.b\")"
    );
}

#[test]
fn images() {
    let img = |u: &str| leaf(NodeKind::Image(u.to_string()));
    assert_eq!(render(vec![img("https://x/y.png")]), "#image(\"https://x/y.png\")");
    assert_eq!(render(vec![img("nope.png")]), "");
    let present = vec!["pic.png".to_string(), "/abs.png".to_string()];
    assert_eq!(convert_with(&doc(vec![img("pic.png")]), &present), "#image(\"./pic.png\")");
    assert_eq!(convert_with(&doc(vec![img("/abs.png")]), &present), "#image(\"/abs.png\")");
}

#[test]
fn tables() {
    let cell = |s: &str| node(NodeKind::TableCell, vec![text(s)]);
    let row = node(NodeKind::TableRow, vec![cell("a"), cell("b")]);
    assert_eq!(
        render(vec![node(NodeKind::Table(2), vec![row])]),
        "\n#table(columns: (auto, auto),\n  [a], [b],\n)\n\n"
    );
    let empty_row = node(NodeKind::TableRow, vec![]);
    assert_eq!(
        render(vec![node(NodeKind::Table(0), vec![empty_row])]),
        "\n#table(columns: (auto),\n)\n\n"
    );
    let comma_cell = node(NodeKind::TableRow, vec![leaf(NodeKind::Text("x,,".to_string()))]);
    assert_eq!(
        render(vec![node(NodeKind::Table(1), vec![comma_cell])]),
        "\n#table(columns: (auto),\n  x,\n)\n\n"
    );
}

#[test]
fn quotes_and_rules() {
    assert_eq!(
        render(vec![node(NodeKind::BlockQuote, vec![para(vec![text("q")])])]),
        "#quote[q]\n\n"
    );
    assert_eq!(render(vec![leaf(NodeKind::ThematicBreak)]), "\n#line(length: 100%)\n\n");
    assert_eq!(render(vec![leaf(NodeKind::FrontMatter), leaf(NodeKind::Other)]), "");
}

#[test]
fn html_images() {
    assert_eq!(
        render(vec![leaf(NodeKind::HtmlInline("<img src=\"https://x/p.png\">".to_string()))]),
        "#image(\"https://x/p.png\")\n\n"
    );
    assert_eq!(render(vec![leaf(NodeKind::HtmlBlock("<div>hi</div>".to_string()))]), "");
    assert_eq!(render(vec![leaf(NodeKind::HtmlInline("<img src='local.png'>".to_string()))]), "");
    let present = vec!["local.png".to_string()];
    assert_eq!(
        convert_with(&doc(vec![leaf(NodeKind::HtmlInline("<img src='local.png'>".to_string()))]), &present),
        "#image(\"local.png\")\n\n"
    );
}

#[test]
fn misaligned_tag_does_not_convert() {
    let bad = doc(vec![leaf(NodeKind::HtmlInline("\u{23a}<img\u{e9} src='x'>".to_string()))]);
    assert!(!document_converts(&bad));
    assert_eq!(try_convert(&bad), None);
    let good = doc(vec![para(vec![text("ok")])]);
    assert!(document_converts(&good));
    assert_eq!(try_convert(&good), Some("ok\n\n".to_string()));
}

#[test]
fn convert_looks_up_remote_images_without_files() {
    let d = doc(vec![leaf(NodeKind::Image("http://h/i.png".to_string()))]);
    assert_eq!(convert(&d), "#image(\"http://h/i.png\")");
}
