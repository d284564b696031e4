use orthos::convert::{convert_with, try_convert};
use orthos::document::{Node, NodeKind};
use orthos::escape::{escape_typst, escape_url};
use orthos::math::{latex_to_typst_math, parse_math_content, parse_math_group};

fn unescape(t: &str) -> String {
    let cs: Vec<char> = t.chars().collect();
    let mut out = String::new();
    let mut i = 0;
    while i < cs.len() {
        if cs[i] == '\\' && i + 1 < cs.len() {
            out.push(cs[i + 1]);
            i += 2;
        } else {
            out.push(cs[i]);
            i += 1;
        }
    }
    out
}

#[test]
fn escaped_text_reads_back() {
    for s in ["", "a\\#b", "$$", "\"quoted\"", "\\\\#", "tail\\"] {
        assert_eq!(unescape(&escape_typst(s)), s);
    }
}

#[test]
fn escaped_urls_hold_no_quotes() {
    let e = escape_url("x\"\"y\"");
    assert!(!e.contains('"'));
    assert_eq!(e, "x%22%22y%22");
}

#[test]
fn math_without_commands_is_only_spaced() {
    assert_eq!(latex_to_typst_math("ab{c}d"), "a b(c)d");
    assert_eq!(latex_to_typst_math("x^2 + y_1"), "x^2 + y_1");
}

#[test]
fn math_never_adds_backslashes() {
    for s in ["\\setminus", "\\foo\\bar", "\\\\", "\\{x\\}", "\\frac{\\a}{\\b}"] {
        let out = latex_to_typst_math(s);
        assert!(out.matches('\\').count() <= s.matches('\\').count());
    }
}

#[test]
fn uppercase_img_tags_are_found() {
    let d = Node {
        kind: NodeKind::Document,
        children: vec![Node {
            kind: NodeKind::HtmlInline("<IMG src='https://x/a.png'>".to_string()),
            children: vec![],
        }],
    };
    assert_eq!(convert_with(&d, &vec![]), "#image(\"https://x/a.png\")\n\n");
}

#[test]
fn table_commands_are_replaced_before_the_rest() {
    assert_eq!(latex_to_typst_math("\\cdot x"), format!("dot{}", latex_to_typst_math(" x")));
    assert_eq!(latex_to_typst_math("\\in\\mathbb{N}"), "inbb(N)");
    assert_eq!(latex_to_typst_math("\\int_a"), "integral_a");
    assert_eq!(latex_to_typst_math("\\times"), "*");
}

#[test]
fn unknown_commands_stay_as_written() {
    assert_eq!(latex_to_typst_math("\\foo+1"), "\\foo+1");
    assert_eq!(latex_to_typst_math("\\hat{x}"), "\\hat(x)");
}

#[test]
fn fractions_and_roots_of_groups() {
    assert_eq!(latex_to_typst_math("\\frac{a+b}{c}d"), "(a+b)/(c)d");
    assert_eq!(latex_to_typst_math("\\frac{\\alpha}{{x}}"), "(alpha)/((x))");
    assert_eq!(latex_to_typst_math("\\sqrt{xy}+1"), "sqrt(x y)+1");
    assert_eq!(latex_to_typst_math("\\sqrt[n]{x}"), "root(n,x)");
    assert_eq!(latex_to_typst_math("\\sqrt[3]{\\frac{1}{2}}"), "root(3,(1)/(2))");
}

#[test]
fn argument_readers_on_well_formed_input() {
    let chars: Vec<char> = " \t{a{b}} c".chars().collect();
    let mut i = 0usize;
    assert_eq!(parse_math_group(&chars, &mut i, chars.len()), latex_to_typst_math("a{b}"));
    assert_eq!(i, 8);
    let chars: Vec<char> = "x+y]z".chars().collect();
    let mut i = 0usize;
    assert_eq!(parse_math_content(&chars, &mut i, chars.len(), ']'), "x+y");
    assert_eq!(i, 4);
    let mut i = 0usize;
    assert_eq!(parse_math_content(&chars, &mut i, chars.len(), '!'), "x+y]z");
    assert_eq!(i, 5);
}

#[test]
fn readers_stop_inside_a_longer_length() {
    let chars: Vec<char> = "{ab}".chars().collect();
    let mut i = 0usize;
    assert_eq!(parse_math_group(&chars, &mut i, 10), "a b");
    assert_eq!(i, 4);
}

#[test]
fn setminus_is_replaced_before_the_rest() {
    assert_eq!(latex_to_typst_math("\\setminus B"), format!("\\{}", latex_to_typst_math(" B")));
}

fn leaf(kind: NodeKind) -> Node {
    Node { kind, children: vec![] }
}

fn with(kind: NodeKind, children: Vec<Node>) -> Node {
    Node { kind, children }
}

#[test]
fn documents_with_ascii_html_always_convert() {
    let d = with(
        NodeKind::Document,
        vec![
            with(
                NodeKind::Paragraph,
                vec![leaf(NodeKind::HtmlInline("<IMG src=\"https://e/x.png\">".to_string()))],
            ),
            leaf(NodeKind::HtmlBlock("<p>no image</p>".to_string())),
        ],
    );
    assert_eq!(
        try_convert(&d),
        Some("#image(\"https://e/x.png\")\n\n".to_string())
    );
}

#[test]
fn markup_rules_by_kind() {
    let t = |s: &str| leaf(NodeKind::Text(s.to_string()));
    let doc = with(
        NodeKind::Document,
        vec![
            with(NodeKind::Heading(2), vec![t("Title")]),
            with(
                NodeKind::Paragraph,
                vec![
                    with(NodeKind::Strong, vec![t("b")]),
                    leaf(NodeKind::SoftBreak),
                    with(NodeKind::Emph, vec![t("i")]),
                    with(NodeKind::Strikethrough, vec![t("s#")]),
                    with(NodeKind::Link("u\"".to_string()), vec![]),
                ],
            ),
            with(NodeKind::BlockQuote, vec![with(NodeKind::Paragraph, vec![t("q")])]),
            leaf(NodeKind::ThematicBreak),
            leaf(NodeKind::FrontMatter),
        ],
    );
    assert_eq!(
        convert_with(&doc, &vec![]),
        "\n== Title\n\n*b* _i_#strike[s\\#]#link(\"u%22\")\n\n#quote[q]\n\n\n#line(length: 100%)\n\n"
    );
}
