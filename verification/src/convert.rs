//! Conversion of the document tree into Typst markup.
use vstd::prelude::*;
use crate::document::{lemma_child_decreases, ListKind, Node, NodeKind};
use crate::escape::{escape_text, escape_url_text, escape_typst_chars, escape_url_chars};
use crate::html::{ascii, html_markup, img_src, img_tag_source, lemma_ascii_lowered, lemma_ascii_tag_ok, lowercase, shown, tag_fits, tag_ok, to_lowercase};
use crate::math::{latex_math, latex_to_typst_math};
use crate::text::{
    starts_with, trim, trim_end_char, chars_of, string_of, push_str, push_chars, eq_chars, has_prefix,
    trimmed, trimmed_end_char,
};

verus! {

/// Footnote bodies by name; the first entry with a name is the one used.
pub type Notes = Seq<(Seq<char>, Seq<char>)>;

/// The body of the footnote with this name.
pub open spec fn note_lookup(notes: Notes, name: Seq<char>) -> Option<Seq<char>>
    decreases notes.len(),
{
    if notes.len() == 0 {
        None
    } else if notes[0].0 == name {
        Some(notes[0].1)
    } else {
        note_lookup(notes.drop_first(), name)
    }
}

/// The box of a task list item.
pub open spec fn checkbox(symbol: Option<char>) -> Seq<char> {
    if symbol is Some {
        "[x]"@
    } else {
        "[ ]"@
    }
}

/// `n` equals signs.
pub open spec fn equals_signs(n: nat) -> Seq<char> {
    Seq::new(n, |i: int| '=')
}

/// The column list of a table with `n` alignments: at least one `auto`.
pub open spec fn auto_columns(n: nat) -> Seq<char>
    decreases n,
{
    if n <= 1 {
        "auto"@
    } else {
        auto_columns((n - 1) as nat) + ", auto"@
    }
}

/// The marker of the items of a list.
pub open spec fn list_marker(kind: ListKind) -> char {
    match kind {
        ListKind::Ordered => '+',
        ListKind::Bullet => '-',
    }
}

/// Where an image's markup points: absolute and remote sources as they are,
/// other ones relative to the current directory.
pub open spec fn image_target(url: Seq<char>) -> Seq<char> {
    if starts_with(url, seq!['/']) || starts_with(url, "http"@) {
        url
    } else {
        "./"@ + url
    }
}

/// The line of a table for one rendered row.
pub open spec fn row_line(rendered: Seq<char>) -> Seq<char> {
    if rendered.len() == 0 {
        seq![]
    } else {
        "  "@ + trim_end_char(rendered, ',') + ",\n"@
    }
}

/// Typst markup for a math node.
pub open spec fn math_markup(display: bool, literal: Seq<char>) -> Seq<char> {
    let t = trim(literal);
    if t.len() == 0 {
        seq![]
    } else if display {
        "$ "@ + latex_math(t) + " $\n\n"@
    } else {
        "$ "@ + latex_math(t) + " $"@
    }
}

/// Typst markup for a link around already rendered text.
pub open spec fn link_markup(url: Seq<char>, inner: Seq<char>) -> Seq<char> {
    let u = escape_url_text(url);
    if inner.len() == 0 {
        "#link(\""@ + u + "\")"@
    } else {
        "#link(\""@ + u + "\")["@ + inner + "]"@
    }
}

/// Typst markup for a fenced code block.
pub open spec fn code_block_markup(info: Seq<char>, literal: Seq<char>) -> Seq<char> {
    if info.len() == 0 {
        "```\n"@ + literal + "```\n\n"@
    } else {
        "```"@ + info + "\n"@ + literal + "```\n\n"@
    }
}

/// Typst markup for an image node; `present` holds the local paths that exist.
pub open spec fn image_markup(url: Seq<char>, present: Set<Seq<char>>) -> Seq<char> {
    if shown(url, present) {
        "#image(\""@ + image_target(url) + "\")"@
    } else {
        seq![]
    }
}

/// Typst markup for a footnote reference.
pub open spec fn footnote_markup(notes: Notes, name: Seq<char>) -> Seq<char> {
    match note_lookup(notes, name) {
        Some(body) => "#footnote["@ + body + "]"@,
        None => "#footnote["@ + name + "]"@,
    }
}

/// Typst markup for a node.
pub open spec fn render(n: Node, notes: Notes, present: Set<Seq<char>>) -> Seq<char>
    decreases n,
{
    let kids = render_seq(n.children@, notes, present);
    match n.kind {
        NodeKind::Text(t) => escape_text(t@),
        NodeKind::SoftBreak => " "@,
        NodeKind::LineBreak => "\\\n"@,
        NodeKind::Strong => "*"@ + kids + "*"@,
        NodeKind::Emph => "_"@ + kids + "_"@,
        NodeKind::Strikethrough => "#strike["@ + kids + "]"@,
        NodeKind::Code(c) => "`"@ + c@ + "`"@,
        NodeKind::Link(url) => link_markup(url@, kids),
        NodeKind::Image(url) => image_markup(url@, present),
        NodeKind::Heading(level) => "\n"@ + equals_signs(level as nat) + " "@ + kids + "\n\n"@,
        NodeKind::Paragraph => trim(kids) + "\n\n"@,
        NodeKind::CodeBlock { info, literal } => code_block_markup(info@, literal@),
        NodeKind::ThematicBreak => "\n#line(length: 100%)\n\n"@,
        NodeKind::List(kind) => "\n"@ + list_lines(n.children@, list_marker(kind), notes, present)
            + "\n"@,
        NodeKind::BlockQuote => "#quote["@ + trim(kids) + "]\n\n"@,
        NodeKind::FootnoteReference(name) => footnote_markup(notes, name@),
        NodeKind::FootnoteDefinition(_) => seq![],
        NodeKind::Math { display, literal } => math_markup(display, literal@),
        NodeKind::Item => kids,
        NodeKind::Document => kids,
        NodeKind::Table(alignments) => "\n#table(columns: ("@ + auto_columns(alignments as nat)
            + "),\n"@ + table_lines(n.children@, notes, present) + ")\n\n"@,
        NodeKind::TableRow => row_cells(n.children@, notes, present),
        NodeKind::TableCell => "["@ + trim(kids) + "]"@,
        NodeKind::TaskItem(symbol) => checkbox(symbol) + " "@ + trim(kids),
        NodeKind::HtmlInline(h) => html_markup(h@, present),
        NodeKind::HtmlBlock(h) => html_markup(h@, present),
        NodeKind::FrontMatter => seq![],
        NodeKind::Other => seq![],
    }
}

/// The markup of sibling nodes, one after the other.
pub open spec fn render_seq(ns: Seq<Node>, notes: Notes, present: Set<Seq<char>>) -> Seq<char>
    decreases ns,
{
    if ns.len() == 0 {
        seq![]
    } else {
        render_seq(ns.drop_last(), notes, present) + render(ns.last(), notes, present)
    }
}

/// The lines of a list: one per item or task item, other children dropped.
pub open spec fn list_lines(ns: Seq<Node>, marker: char, notes: Notes, present: Set<Seq<char>>) -> Seq<
    char,
>
    decreases ns,
{
    if ns.len() == 0 {
        seq![]
    } else {
        let c = ns.last();
        let t = trim(render_seq(c.children@, notes, present));
        list_lines(ns.drop_last(), marker, notes, present) + match c.kind {
            NodeKind::TaskItem(symbol) => "- "@ + checkbox(symbol) + " "@ + t + "\n"@,
            NodeKind::Item => seq![marker, ' '] + t + "\n"@,
            _ => seq![],
        }
    }
}

/// The rows of a table, each on a line of its own; empty rows are dropped.
pub open spec fn table_lines(ns: Seq<Node>, notes: Notes, present: Set<Seq<char>>) -> Seq<char>
    decreases ns,
{
    if ns.len() == 0 {
        seq![]
    } else {
        table_lines(ns.drop_last(), notes, present) + row_line(render(ns.last(), notes, present))
    }
}

/// The cells of a row, separated by a comma and a space.
pub open spec fn row_cells(ns: Seq<Node>, notes: Notes, present: Set<Seq<char>>) -> Seq<char>
    decreases ns,
{
    if ns.len() == 0 {
        seq![]
    } else if ns.len() == 1 {
        render(ns[0], notes, present)
    } else {
        row_cells(ns.drop_last(), notes, present) + ", "@ + render(ns.last(), notes, present)
    }
}


/// Whether converting a node cuts every HTML text it reaches at a character
/// boundary (the cut of an `<img>` tag made through the lowercased text).
pub open spec fn safe(n: Node) -> bool
    decreases n,
{
    match n.kind {
        NodeKind::HtmlInline(h) => tag_ok(h@, lowercase(h@)),
        NodeKind::HtmlBlock(h) => tag_ok(h@, lowercase(h@)),
        NodeKind::Text(_) => true,
        NodeKind::SoftBreak => true,
        NodeKind::LineBreak => true,
        NodeKind::Code(_) => true,
        NodeKind::Image(_) => true,
        NodeKind::CodeBlock { .. } => true,
        NodeKind::ThematicBreak => true,
        NodeKind::FootnoteReference(_) => true,
        NodeKind::FootnoteDefinition(_) => true,
        NodeKind::Math { .. } => true,
        NodeKind::FrontMatter => true,
        NodeKind::Other => true,
        NodeKind::List(_) => items_safe(n.children@),
        _ => safe_seq(n.children@),
    }
}

/// [`safe`] for each of a sequence of siblings.
pub open spec fn safe_seq(ns: Seq<Node>) -> bool
    decreases ns,
{
    if ns.len() == 0 {
        true
    } else {
        safe_seq(ns.drop_last()) && safe(ns.last())
    }
}

/// [`safe`] for the children of each list child.
pub open spec fn items_safe(ns: Seq<Node>) -> bool
    decreases ns,
{
    if ns.len() == 0 {
        true
    } else {
        items_safe(ns.drop_last()) && safe_seq(ns.last().children@)
    }
}

/// The footnote bodies of a document: for each definition among the top-level
/// nodes, its children rendered (without footnotes) and trimmed; the first
/// definition of a name wins.
pub open spec fn footnote_table(ns: Seq<Node>, present: Set<Seq<char>>) -> Notes
    decreases ns.len(),
{
    if ns.len() == 0 {
        seq![]
    } else {
        let t = footnote_table(ns.drop_last(), present);
        match ns.last().kind {
            NodeKind::FootnoteDefinition(name) => if note_lookup(t, name@) is Some {
                t
            } else {
                t.push((name@, trim(render_seq(ns.last().children@, seq![], present))))
            },
            _ => t,
        }
    }
}

/// The footnote definitions among the nodes convert safely.
pub open spec fn definitions_safe(ns: Seq<Node>) -> bool
    decreases ns.len(),
{
    if ns.len() == 0 {
        true
    } else {
        definitions_safe(ns.drop_last()) && (ns.last().kind is FootnoteDefinition ==> safe_seq(
            ns.last().children@,
        ))
    }
}

/// Converting the document does not fail.
pub open spec fn doc_safe(root: Node) -> bool {
    safe_seq(root.children@) && definitions_safe(root.children@)
}

/// Every HTML text in the node and its descendants is ASCII.
pub open spec fn html_ascii(n: Node) -> bool
    decreases n,
{
    (match n.kind {
        NodeKind::HtmlInline(h) => ascii(h@),
        NodeKind::HtmlBlock(h) => ascii(h@),
        _ => true,
    }) && html_ascii_seq(n.children@)
}

/// [`html_ascii`] for each of a sequence of siblings.
pub open spec fn html_ascii_seq(ns: Seq<Node>) -> bool
    decreases ns,
{
    if ns.len() == 0 {
        true
    } else {
        html_ascii_seq(ns.drop_last()) && html_ascii(ns.last())
    }
}

proof fn lemma_html_ascii_at(ns: Seq<Node>, k: int)
    requires
        html_ascii_seq(ns),
        0 <= k < ns.len(),
    ensures
        html_ascii(ns[k]),
    decreases ns.len(),
{
    if k < ns.len() - 1 {
        lemma_html_ascii_at(ns.drop_last(), k);
        assert(ns.drop_last()[k] == ns[k]);
    }
}

/// The Typst markup of a document: its top-level nodes, converted with the
/// footnotes it defines.
pub open spec fn document_markup(root: Node, present: Set<Seq<char>>) -> Seq<char> {
    render_seq(root.children@, footnote_table(root.children@, present), present)
}

/// The paths listed.
pub open spec fn listed(present: Seq<String>) -> Set<Seq<char>> {
    Set::new(|p: Seq<char>| exists|i: int| 0 <= i < present.len() && present[i]@ == p)
}

/// Footnote bodies as sequences.
pub open spec fn notes_view(notes: Seq<(Vec<char>, Vec<char>)>) -> Notes {
    notes.map_values(|e: (Vec<char>, Vec<char>)| (e.0@, e.1@))
}

fn is_listed(present: &Vec<String>, p: &[char]) -> (b: bool)
    ensures
        b == listed(present@).contains(p@),
{
    let mut k: usize = 0;
    while k < present.len()
        invariant
            k <= present.len(),
            forall|j: int| 0 <= j < k ==> present@[j]@ != p@,
        decreases present.len() - k,
    {
        let v = chars_of(present[k].as_str());
        if eq_chars(v.as_slice(), p) {
            return true;
        }
        k = k + 1;
    }
    false
}

fn note_index(notes: &Vec<(Vec<char>, Vec<char>)>, name: &[char]) -> (r: Option<usize>)
    ensures
        match r {
            Some(k) => k < notes@.len() && note_lookup(notes_view(notes@), name@) == Some(
                notes@[k as int].1@,
            ),
            None => note_lookup(notes_view(notes@), name@) is None,
        },
{
    let ghost nv = notes_view(notes@);
    assert(nv.skip(0) == nv);
    let mut k: usize = 0;
    while k < notes.len()
        invariant
            k <= notes.len(),
            nv == notes_view(notes@),
            note_lookup(nv, name@) == note_lookup(nv.skip(k as int), name@),
        decreases notes.len() - k,
    {
        assert(nv.skip(k as int)[0] == (notes@[k as int].0@, notes@[k as int].1@));
        if eq_chars(notes[k].0.as_slice(), name) {
            return Some(k);
        }
        assert(nv.skip(k as int).drop_first() == nv.skip(k + 1));
        k = k + 1;
    }
    None
}

fn lit(s: &str) -> (r: Vec<char>)
    ensures
        r@ == s@,
{
    chars_of(s)
}

fn surround(a: &str, mid: Vec<char>, b: &str) -> (r: Vec<char>)
    ensures
        r@ == a@ + mid@ + b@,
{
    let mut out = chars_of(a);
    let mut m = mid;
    out.append(&mut m);
    push_str(&mut out, b);
    out
}

/// Typst markup for an HTML text: its first `<img>` tag as an image.
fn convert_img_tag(html: &str, present: &Vec<String>) -> (r: Vec<char>)
    requires
        tag_ok(html@, lowercase(html@)),
    ensures
        r@ == html_markup(html@, listed(present@)),
{
    let lower = to_lowercase(html);
    let hv = chars_of(html);
    let lv = chars_of(lower.as_str());
    match img_tag_source(hv.as_slice(), lv.as_slice()) {
        None => Vec::new(),
        Some(src) => {
            if has_prefix(src.as_slice(), "http") || is_listed(present, src.as_slice()) {
                surround("#image(\"", src, "\")\n\n")
            } else {
                Vec::new()
            }
        },
    }
}

fn image_chars(url: &str, present: &Vec<String>) -> (r: Vec<char>)
    ensures
        r@ == image_markup(url@, listed(present@)),
{
    let u = chars_of(url);
    let remote = has_prefix(u.as_slice(), "http");
    if remote || is_listed(present, u.as_slice()) {
        let target = if has_prefix(u.as_slice(), "/") || remote {
            proof {
                reveal_strlit("/");
                assert("/"@ == seq!['/']);
            }
            u
        } else {
            proof {
                reveal_strlit("/");
                assert("/"@ == seq!['/']);
            }
            surround("./", u, "")
        };
        proof {
            reveal_strlit("");
            assert(image_target(url@) + ""@ == image_target(url@));
        }
        surround("#image(\"", target, "\")")
    } else {
        Vec::new()
    }
}

fn math_chars(display: bool, literal: &str) -> (r: Vec<char>)
    ensures
        r@ == math_markup(display, literal@),
{
    let v = chars_of(literal);
    let t = trimmed(v.as_slice());
    if t.len() == 0 {
        Vec::new()
    } else {
        let ts = string_of(t.as_slice());
        let p = latex_to_typst_math(ts.as_str());
        let pv = chars_of(p.as_str());
        if display {
            surround("$ ", pv, " $\n\n")
        } else {
            surround("$ ", pv, " $")
        }
    }
}

fn code_block_chars(info: &str, literal: &str) -> (r: Vec<char>)
    ensures
        r@ == code_block_markup(info@, literal@),
{
    let i = chars_of(info);
    let l = chars_of(literal);
    if i.len() == 0 {
        surround("```\n", l, "```\n\n")
    } else {
        let mut out = chars_of("```");
        let mut iv = i;
        out.append(&mut iv);
        push_str(&mut out, "\n");
        let mut lv = l;
        out.append(&mut lv);
        push_str(&mut out, "```\n\n");
        out
    }
}

fn link_chars(url: &str, inner: Vec<char>) -> (r: Vec<char>)
    ensures
        r@ == link_markup(url@, inner@),
{
    let u = chars_of(url);
    let e = escape_url_chars(u.as_slice());
    if inner.len() == 0 {
        surround("#link(\"", e, "\")")
    } else {
        let mut out = surround("#link(\"", e, "\")[");
        let mut iv = inner;
        out.append(&mut iv);
        push_str(&mut out, "]");
        out
    }
}

fn footnote_chars(notes: &Vec<(Vec<char>, Vec<char>)>, name: &str) -> (r: Vec<char>)
    ensures
        r@ == footnote_markup(notes_view(notes@), name@),
{
    let nv = chars_of(name);
    match note_index(notes, nv.as_slice()) {
        Some(k) => {
            let mut out = chars_of("#footnote[");
            push_chars(&mut out, notes[k].1.as_slice());
            push_str(&mut out, "]");
            out
        },
        None => surround("#footnote[", nv, "]"),
    }
}

fn heading_chars(level: u8, kids: Vec<char>) -> (r: Vec<char>)
    ensures
        r@ == "\n"@ + equals_signs(level as nat) + " "@ + kids@ + "\n\n"@,
{
    let mut out = chars_of("\n");
    let ghost start = out@;
    let mut k: u8 = 0;
    while k < level
        invariant
            k <= level,
            out@ == start + equals_signs(k as nat),
        decreases level - k,
    {
        out.push('=');
        k = k + 1;
        assert(equals_signs(k as nat) =~= equals_signs((k - 1) as nat).push('='));
    }
    push_str(&mut out, " ");
    let mut kv = kids;
    out.append(&mut kv);
    push_str(&mut out, "\n\n");
    out
}

fn columns_chars(alignments: usize) -> (r: Vec<char>)
    ensures
        r@ == auto_columns(alignments as nat),
{
    let mut out = chars_of("auto");
    let mut k: usize = 1;
    while k < alignments
        invariant
            1 <= k,
            k <= alignments || k == 1,
            out@ == auto_columns(k as nat),
        decreases alignments - k,
    {
        push_str(&mut out, ", auto");
        k = k + 1;
    }
    out
}


proof fn lemma_take_last<T>(ns: Seq<T>, k: int)
    requires
        0 <= k < ns.len(),
    ensures
        ns.take(k + 1).drop_last() == ns.take(k),
        ns.take(k + 1).last() == ns[k],
        ns.take(k + 1).len() == k + 1,
{
}

/// The markup of a node's children, one after the other (`render_children`).
fn render_children(n: &Node, notes: &Vec<(Vec<char>, Vec<char>)>, present: &Vec<String>) -> (r: Vec<
    char,
>)
    requires
        safe_seq(n.children@),
    ensures
        r@ == render_seq(n.children@, notes_view(notes@), listed(present@)),
    decreases *n, 0int,
{
    let ghost ns = n.children@;
    let ghost nv = notes_view(notes@);
    let ghost ps = listed(present@);
    let mut out: Vec<char> = Vec::new();
    let mut k: usize = 0;
    while k < n.children.len()
        invariant
            ns == n.children@,
            nv == notes_view(notes@),
            ps == listed(present@),
            k <= ns.len(),
            safe_seq(ns),
            out@ == render_seq(ns.take(k as int), nv, ps),
        decreases ns.len() - k,
    {
        proof {
            lemma_take_last(ns, k as int);
            lemma_safe_seq_at(ns, k as int);
        }
        proof {
            lemma_child_decreases(*n, k as int);
        }
        let mut piece = convert_inner(&n.children[k], notes, present);
        out.append(&mut piece);
        k = k + 1;
    }
    assert(ns.take(ns.len() as int) == ns);
    out
}

proof fn lemma_safe_seq_at(ns: Seq<Node>, k: int)
    requires
        safe_seq(ns),
        0 <= k < ns.len(),
    ensures
        safe(ns[k]),
    decreases ns.len(),
{
    if k < ns.len() - 1 {
        lemma_safe_seq_at(ns.drop_last(), k);
    }
}

proof fn lemma_items_safe_at(ns: Seq<Node>, k: int)
    requires
        items_safe(ns),
        0 <= k < ns.len(),
    ensures
        safe_seq(ns[k].children@),
    decreases ns.len(),
{
    if k < ns.len() - 1 {
        lemma_items_safe_at(ns.drop_last(), k);
    }
}

/// The lines of a list.
fn list_chars(n: &Node, marker: char, notes: &Vec<(Vec<char>, Vec<char>)>, present: &Vec<String>) -> (r:
    Vec<char>)
    requires
        items_safe(n.children@),
    ensures
        r@ == list_lines(n.children@, marker, notes_view(notes@), listed(present@)),
    decreases *n, 0int,
{
    let ghost ns = n.children@;
    let ghost nv = notes_view(notes@);
    let ghost ps = listed(present@);
    let mut out: Vec<char> = Vec::new();
    let mut k: usize = 0;
    while k < n.children.len()
        invariant
            ns == n.children@,
            nv == notes_view(notes@),
            ps == listed(present@),
            k <= ns.len(),
            items_safe(ns),
            out@ == list_lines(ns.take(k as int), marker, nv, ps),
        decreases ns.len() - k,
    {
        proof {
            lemma_take_last(ns, k as int);
            lemma_items_safe_at(ns, k as int);
        }
        let c = &n.children[k];
        proof {
            lemma_child_decreases(*n, k as int);
        }
        let inner = render_children(c, notes, present);
        let t = trimmed(inner.as_slice());
        let ghost old_out = out@;
        match &c.kind {
            NodeKind::TaskItem(symbol) => {
                push_str(&mut out, "- ");
                if symbol.is_some() {
                    push_str(&mut out, "[x]");
                } else {
                    push_str(&mut out, "[ ]");
                }
                push_str(&mut out, " ");
                push_chars(&mut out, t.as_slice());
                push_str(&mut out, "\n");
                assert(out@ == old_out + ("- "@ + checkbox(*symbol) + " "@ + t@ + "\n"@));
            },
            NodeKind::Item => {
                out.push(marker);
                out.push(' ');
                push_chars(&mut out, t.as_slice());
                push_str(&mut out, "\n");
                assert(out@ == old_out + (seq![marker, ' '] + t@ + "\n"@));
            },
            _ => {
                assert(out@ == old_out + Seq::<char>::empty());
            },
        }
        k = k + 1;
    }
    assert(ns.take(ns.len() as int) == ns);
    out
}

/// The rows of a table.
fn table_chars(n: &Node, notes: &Vec<(Vec<char>, Vec<char>)>, present: &Vec<String>) -> (r: Vec<char>)
    requires
        safe_seq(n.children@),
    ensures
        r@ == table_lines(n.children@, notes_view(notes@), listed(present@)),
    decreases *n, 0int,
{
    let ghost ns = n.children@;
    let ghost nv = notes_view(notes@);
    let ghost ps = listed(present@);
    let mut out: Vec<char> = Vec::new();
    let mut k: usize = 0;
    while k < n.children.len()
        invariant
            ns == n.children@,
            nv == notes_view(notes@),
            ps == listed(present@),
            k <= ns.len(),
            safe_seq(ns),
            out@ == table_lines(ns.take(k as int), nv, ps),
        decreases ns.len() - k,
    {
        proof {
            lemma_take_last(ns, k as int);
            lemma_safe_seq_at(ns, k as int);
        }
        proof {
            lemma_child_decreases(*n, k as int);
        }
        let rc = convert_inner(&n.children[k], notes, present);
        let ghost old_out = out@;
        if rc.len() > 0 {
            push_str(&mut out, "  ");
            let t = trimmed_end_char(rc.as_slice(), ',');
            push_chars(&mut out, t.as_slice());
            push_str(&mut out, ",\n");
            assert(out@ == old_out + row_line(rc@));
        } else {
            assert(out@ == old_out + row_line(rc@));
        }
        k = k + 1;
    }
    assert(ns.take(ns.len() as int) == ns);
    out
}

/// The cells of a table row.
fn row_chars(n: &Node, notes: &Vec<(Vec<char>, Vec<char>)>, present: &Vec<String>) -> (r: Vec<char>)
    requires
        safe_seq(n.children@),
    ensures
        r@ == row_cells(n.children@, notes_view(notes@), listed(present@)),
    decreases *n, 0int,
{
    let ghost ns = n.children@;
    let ghost nv = notes_view(notes@);
    let ghost ps = listed(present@);
    let mut out: Vec<char> = Vec::new();
    let mut k: usize = 0;
    while k < n.children.len()
        invariant
            ns == n.children@,
            nv == notes_view(notes@),
            ps == listed(present@),
            k <= ns.len(),
            safe_seq(ns),
            out@ == row_cells(ns.take(k as int), nv, ps),
        decreases ns.len() - k,
    {
        proof {
            lemma_take_last(ns, k as int);
            lemma_safe_seq_at(ns, k as int);
        }
        proof {
            lemma_child_decreases(*n, k as int);
        }
        let mut cell = convert_inner(&n.children[k], notes, present);
        let ghost old_out = out@;
        let ghost cv = cell@;
        if k > 0 {
            push_str(&mut out, ", ");
        }
        out.append(&mut cell);
        proof {
            if k == 0 {
                assert(ns.take(1)[0] == ns[0]);
                assert(out@ == cv);
            } else {
                assert(out@ == old_out + ", "@ + cv);
            }
        }
        k = k + 1;
    }
    assert(ns.take(ns.len() as int) == ns);
    out
}

/// Typst markup for a node (`convert_inner`).
fn convert_inner(n: &Node, notes: &Vec<(Vec<char>, Vec<char>)>, present: &Vec<String>) -> (r: Vec<
    char,
>)
    requires
        safe(*n),
    ensures
        r@ == render(*n, notes_view(notes@), listed(present@)),
    decreases *n, 1int,
{
    match &n.kind {
        NodeKind::Text(t) => {
            let v = chars_of(t.as_str());
            escape_typst_chars(v.as_slice())
        },
        NodeKind::SoftBreak => lit(" "),
        NodeKind::LineBreak => lit("\\\n"),
        NodeKind::Strong => surround("*", render_children(n, notes, present), "*"),
        NodeKind::Emph => surround("_", render_children(n, notes, present), "_"),
        NodeKind::Strikethrough => surround("#strike[", render_children(n, notes, present), "]"),
        NodeKind::Code(c) => surround("`", chars_of(c.as_str()), "`"),
        NodeKind::Link(url) => link_chars(url.as_str(), render_children(n, notes, present)),
        NodeKind::Image(url) => image_chars(url.as_str(), present),
        NodeKind::Heading(level) => heading_chars(*level, render_children(n, notes, present)),
        NodeKind::Paragraph => {
            let kids = render_children(n, notes, present);
            let mut t = trimmed(kids.as_slice());
            push_str(&mut t, "\n\n");
            t
        },
        NodeKind::CodeBlock { info, literal } => code_block_chars(info.as_str(), literal.as_str()),
        NodeKind::ThematicBreak => lit("\n#line(length: 100%)\n\n"),
        NodeKind::List(kind) => {
            let marker = match kind {
                ListKind::Ordered => '+',
                ListKind::Bullet => '-',
            };
            surround("\n", list_chars(n, marker, notes, present), "\n")
        },
        NodeKind::BlockQuote => {
            let kids = render_children(n, notes, present);
            surround("#quote[", trimmed(kids.as_slice()), "]\n\n")
        },
        NodeKind::FootnoteReference(name) => footnote_chars(notes, name.as_str()),
        NodeKind::FootnoteDefinition(_) => Vec::new(),
        NodeKind::Math { display, literal } => math_chars(*display, literal.as_str()),
        NodeKind::Item => render_children(n, notes, present),
        NodeKind::Document => render_children(n, notes, present),
        NodeKind::Table(alignments) => {
            let mut out = surround("\n#table(columns: (", columns_chars(*alignments), "),\n");
            let mut rows = table_chars(n, notes, present);
            out.append(&mut rows);
            push_str(&mut out, ")\n\n");
            out
        },
        NodeKind::TableRow => row_chars(n, notes, present),
        NodeKind::TableCell => {
            let kids = render_children(n, notes, present);
            surround("[", trimmed(kids.as_slice()), "]")
        },
        NodeKind::TaskItem(symbol) => {
            let kids = render_children(n, notes, present);
            let b = if symbol.is_some() {
                "[x] "
            } else {
                "[ ] "
            };
            proof {
                reveal_strlit("[x] ");
                reveal_strlit("[x]");
                reveal_strlit("[ ] ");
                reveal_strlit("[ ]");
                reveal_strlit(" ");
                assert("[x] "@ == "[x]"@ + " "@);
                assert("[ ] "@ == "[ ]"@ + " "@);
                reveal_strlit("");
            }
            surround(b, trimmed(kids.as_slice()), "")
        },
        NodeKind::HtmlInline(h) => convert_img_tag(h.as_str(), present),
        NodeKind::HtmlBlock(h) => convert_img_tag(h.as_str(), present),
        NodeKind::FrontMatter => Vec::new(),
        NodeKind::Other => Vec::new(),
    }
}


proof fn lemma_definitions_safe_at(ns: Seq<Node>, k: int)
    requires
        definitions_safe(ns),
        0 <= k < ns.len(),
        ns[k].kind is FootnoteDefinition,
    ensures
        safe_seq(ns[k].children@),
    decreases ns.len(),
{
    if k < ns.len() - 1 {
        lemma_definitions_safe_at(ns.drop_last(), k);
    }
}

proof fn lemma_notes_view_push(notes: Seq<(Vec<char>, Vec<char>)>, e: (Vec<char>, Vec<char>))
    ensures
        notes_view(notes.push(e)) == notes_view(notes).push((e.0@, e.1@)),
{
    assert(notes_view(notes.push(e)) =~= notes_view(notes).push((e.0@, e.1@)));
}

/// The footnote bodies of a document, as name and body pairs searched in
/// order rather than a `HashMap` keyed by strings: the search can be proved,
/// and keeping only the first definition of a name makes it the one used.
fn footnotes(root: &Node, present: &Vec<String>) -> (notes: Vec<(Vec<char>, Vec<char>)>)
    requires
        definitions_safe(root.children@),
    ensures
        notes_view(notes@) == footnote_table(root.children@, listed(present@)),
{
    let ghost ns = root.children@;
    let ghost ps = listed(present@);
    let empty: Vec<(Vec<char>, Vec<char>)> = Vec::new();
    assert(notes_view(empty@) =~= Seq::<(Seq<char>, Seq<char>)>::empty());
    let mut notes: Vec<(Vec<char>, Vec<char>)> = Vec::new();
    let mut k: usize = 0;
    assert(notes_view(notes@) =~= Seq::<(Seq<char>, Seq<char>)>::empty());
    while k < root.children.len()
        invariant
            ns == root.children@,
            ps == listed(present@),
            k <= ns.len(),
            definitions_safe(ns),
            notes_view(empty@) == Seq::<(Seq<char>, Seq<char>)>::empty(),
            notes_view(notes@) == footnote_table(ns.take(k as int), ps),
        decreases ns.len() - k,
    {
        proof {
            lemma_take_last(ns, k as int);
        }
        let c = &root.children[k];
        match &c.kind {
            NodeKind::FootnoteDefinition(name) => {
                proof {
                    lemma_definitions_safe_at(ns, k as int);
                }
                let body = render_children(c, &empty, present);
                let nv = chars_of(name.as_str());
                if note_index(&notes, nv.as_slice()).is_none() {
                    let t = trimmed(body.as_slice());
                    let ghost before = notes@;
                    notes.push((nv, t));
                    proof {
                        lemma_notes_view_push(before, (nv, t));
                    }
                }
            },
            _ => {},
        }
        k = k + 1;
    }
    assert(ns.take(ns.len() as int) == ns);
    notes
}

/// Converts a document to Typst markup; `present` lists the local image
/// paths that exist.
pub fn convert_with(root: &Node, present: &Vec<String>) -> (r: String)
    requires
        doc_safe(*root),
    ensures
        r@ == document_markup(*root, listed(present@)),
{
    let notes = footnotes(root, present);
    let ghost ns = root.children@;
    let ghost ps = listed(present@);
    let ghost nv = notes_view(notes@);
    let mut body: Vec<char> = Vec::new();
    let mut k: usize = 0;
    while k < root.children.len()
        invariant
            ns == root.children@,
            ps == listed(present@),
            nv == notes_view(notes@),
            nv == footnote_table(ns, ps),
            k <= ns.len(),
            safe_seq(ns),
            body@ == render_seq(ns.take(k as int), nv, ps),
        decreases ns.len() - k,
    {
        proof {
            lemma_take_last(ns, k as int);
            lemma_safe_seq_at(ns, k as int);
        }
        let mut piece = convert_inner(&root.children[k], &notes, present);
        body.append(&mut piece);
        k = k + 1;
    }
    assert(ns.take(ns.len() as int) == ns);
    string_of(body.as_slice())
}


/// Whether the `<img>` tag of an HTML text can be cut out.
fn html_safe(h: &str) -> (b: bool)
    ensures
        b == tag_ok(h@, lowercase(h@)),
        ascii(h@) ==> b,
{
    let lower = to_lowercase(h);
    proof {
        if ascii(h@) {
            lemma_ascii_lowered(h@, lower@);
            lemma_ascii_tag_ok(h@, lower@);
        }
    }
    let hv = chars_of(h);
    let lv = chars_of(lower.as_str());
    tag_fits(hv.as_slice(), lv.as_slice())
}

fn node_safe(n: &Node) -> (b: bool)
    ensures
        b == safe(*n),
        html_ascii(*n) ==> b,
    decreases *n, 1int,
{
    match &n.kind {
        NodeKind::HtmlInline(h) => html_safe(h.as_str()),
        NodeKind::HtmlBlock(h) => html_safe(h.as_str()),
        NodeKind::Text(_) => true,
        NodeKind::SoftBreak => true,
        NodeKind::LineBreak => true,
        NodeKind::Code(_) => true,
        NodeKind::Image(_) => true,
        NodeKind::CodeBlock { .. } => true,
        NodeKind::ThematicBreak => true,
        NodeKind::FootnoteReference(_) => true,
        NodeKind::FootnoteDefinition(_) => true,
        NodeKind::Math { .. } => true,
        NodeKind::FrontMatter => true,
        NodeKind::Other => true,
        NodeKind::List(_) => items_safe_check(n),
        _ => children_safe(n),
    }
}

fn children_safe(n: &Node) -> (b: bool)
    ensures
        b == safe_seq(n.children@),
        html_ascii_seq(n.children@) ==> b,
    decreases *n, 0int,
{
    let ghost ns = n.children@;
    let mut k: usize = 0;
    assert(safe_seq(ns.take(0)));
    while k < n.children.len()
        invariant
            ns == n.children@,
            k <= ns.len(),
            safe_seq(ns.take(k as int)),
        decreases ns.len() - k,
    {
        proof {
            lemma_take_last(ns, k as int);
        }
        proof {
            lemma_child_decreases(*n, k as int);
        }
        if !node_safe(&n.children[k]) {
            proof {
                if safe_seq(ns) {
                    lemma_safe_seq_prefix(ns, k + 1);
                }
                if html_ascii_seq(ns) {
                    lemma_html_ascii_at(ns, k as int);
                }
            }
            return false;
        }
        k = k + 1;
    }
    assert(ns.take(ns.len() as int) == ns);
    true
}

proof fn lemma_safe_seq_prefix(ns: Seq<Node>, k: int)
    requires
        0 <= k <= ns.len(),
        safe_seq(ns),
    ensures
        safe_seq(ns.take(k)),
    decreases ns.len() - k,
{
    if k < ns.len() {
        lemma_safe_seq_prefix(ns.drop_last(), k);
        assert(ns.drop_last().take(k) == ns.take(k));
    } else {
        assert(ns.take(k) == ns);
    }
}

proof fn lemma_items_safe_prefix(ns: Seq<Node>, k: int)
    requires
        0 <= k <= ns.len(),
        items_safe(ns),
    ensures
        items_safe(ns.take(k)),
    decreases ns.len() - k,
{
    if k < ns.len() {
        lemma_items_safe_prefix(ns.drop_last(), k);
        assert(ns.drop_last().take(k) == ns.take(k));
    } else {
        assert(ns.take(k) == ns);
    }
}

proof fn lemma_definitions_safe_prefix(ns: Seq<Node>, k: int)
    requires
        0 <= k <= ns.len(),
        definitions_safe(ns),
    ensures
        definitions_safe(ns.take(k)),
    decreases ns.len() - k,
{
    if k < ns.len() {
        lemma_definitions_safe_prefix(ns.drop_last(), k);
        assert(ns.drop_last().take(k) == ns.take(k));
    } else {
        assert(ns.take(k) == ns);
    }
}

fn items_safe_check(n: &Node) -> (b: bool)
    ensures
        b == items_safe(n.children@),
        html_ascii_seq(n.children@) ==> b,
    decreases *n, 0int,
{
    let ghost ns = n.children@;
    let mut k: usize = 0;
    assert(items_safe(ns.take(0)));
    while k < n.children.len()
        invariant
            ns == n.children@,
            k <= ns.len(),
            items_safe(ns.take(k as int)),
        decreases ns.len() - k,
    {
        proof {
            lemma_take_last(ns, k as int);
        }
        proof {
            lemma_child_decreases(*n, k as int);
        }
        if !children_safe(&n.children[k]) {
            proof {
                if items_safe(ns) {
                    lemma_items_safe_prefix(ns, k + 1);
                }
                if html_ascii_seq(ns) {
                    lemma_html_ascii_at(ns, k as int);
                }
            }
            return false;
        }
        k = k + 1;
    }
    assert(ns.take(ns.len() as int) == ns);
    true
}

/// Whether converting the document succeeds (see [`doc_safe`]).
pub fn document_converts(root: &Node) -> (b: bool)
    ensures
        b == doc_safe(*root),
        html_ascii(*root) ==> b,
{
    if !children_safe(root) {
        return false;
    }
    let ghost ns = root.children@;
    let mut k: usize = 0;
    assert(definitions_safe(ns.take(0)));
    while k < root.children.len()
        invariant
            ns == root.children@,
            k <= ns.len(),
            definitions_safe(ns.take(k as int)),
        decreases ns.len() - k,
    {
        proof {
            lemma_take_last(ns, k as int);
        }
        let c = &root.children[k];
        if let NodeKind::FootnoteDefinition(_) = &c.kind {
            if !children_safe(c) {
                proof {
                    if definitions_safe(ns) {
                        lemma_definitions_safe_prefix(ns, k + 1);
                    }
                    if html_ascii_seq(ns) {
                        lemma_html_ascii_at(ns, k as int);
                    }
                }
                return false;
            }
        }
        k = k + 1;
    }
    assert(ns.take(ns.len() as int) == ns);
    true
}

/// std's `Path::exists`: whether something is found at the path. What it
/// returns depends on the file system at the time of the call; nothing is
/// claimed of it.
#[verifier::external_body]
fn path_exists(p: &str) -> bool {
    std::path::Path::new(p).exists()
}

/// The paths as character sequences, in order.
pub open spec fn path_views(v: Seq<String>) -> Seq<Seq<char>> {
    v.map_values(|s: String| s@)
}

/// A source named by an image, unless it is remote (starts with `http`).
pub open spec fn local_source(src: Seq<char>) -> Seq<Seq<char>> {
    if starts_with(src, "http"@) {
        seq![]
    } else {
        seq![src]
    }
}

/// The local path that a node names itself: the source of a Markdown image,
/// or that of an HTML `<img>` tag whose place can be found.
pub open spec fn own_local_paths(k: NodeKind) -> Seq<Seq<char>> {
    match k {
        NodeKind::Image(url) => local_source(url@),
        NodeKind::HtmlInline(h) => html_local_paths(h@),
        NodeKind::HtmlBlock(h) => html_local_paths(h@),
        _ => seq![],
    }
}

/// The local source of an HTML `<img>` tag, if it has one.
pub open spec fn html_local_paths(h: Seq<char>) -> Seq<Seq<char>> {
    if tag_ok(h, lowercase(h)) {
        match img_src(h, lowercase(h)) {
            Some(src) => local_source(src),
            None => seq![],
        }
    } else {
        seq![]
    }
}

/// The local paths that a node and its descendants name, in document order.
pub open spec fn local_paths_of(n: Node) -> Seq<Seq<char>>
    decreases n,
{
    own_local_paths(n.kind) + local_paths_forest(n.children@)
}

/// The local paths that a sequence of sibling nodes names, one after the other.
pub open spec fn local_paths_forest(ns: Seq<Node>) -> Seq<Seq<char>>
    decreases ns,
{
    if ns.len() == 0 {
        seq![]
    } else {
        local_paths_of(ns[0]) + local_paths_forest(ns.drop_first())
    }
}

proof fn lemma_local_paths_forest_push(xs: Seq<Node>, y: Node)
    ensures
        local_paths_forest(xs.push(y)) == local_paths_forest(xs) + local_paths_of(y),
    decreases xs.len(),
{
    if xs.len() == 0 {
        assert(xs.push(y).drop_first() == Seq::<Node>::empty());
        assert(local_paths_forest(Seq::<Node>::empty()) == Seq::<Seq<char>>::empty());
        assert(local_paths_forest(xs.push(y)) == local_paths_of(y) + Seq::<Seq<char>>::empty());
        assert(xs == Seq::<Node>::empty());
    } else {
        lemma_local_paths_forest_push(xs.drop_first(), y);
        assert(xs.push(y).drop_first() == xs.drop_first().push(y));
        assert(xs.push(y)[0] == xs[0]);
    }
}

/// Appends the local image paths that the node and its descendants name.
fn local_paths(n: &Node, acc: &mut Vec<String>)
    ensures
        path_views(final(acc)@) == path_views(old(acc)@) + local_paths_of(*n),
    decreases *n,
{
    let ghost start = path_views(acc@);
    match &n.kind {
        NodeKind::Image(url) => {
            let u = chars_of(url.as_str());
            if !has_prefix(u.as_slice(), "http") {
                acc.push(url.clone());
            }
        },
        NodeKind::HtmlInline(h) | NodeKind::HtmlBlock(h) => {
            let lower = to_lowercase(h.as_str());
            let hv = chars_of(h.as_str());
            let lv = chars_of(lower.as_str());
            if tag_fits(hv.as_slice(), lv.as_slice()) {
                if let Some(src) = img_tag_source(hv.as_slice(), lv.as_slice()) {
                    if !has_prefix(src.as_slice(), "http") {
                        acc.push(string_of(src.as_slice()));
                    }
                }
            }
        },
        _ => {},
    }
    assert(path_views(acc@) == start + own_local_paths(n.kind));
    let ghost ns = n.children@;
    let mut k: usize = 0;
    assert(ns.take(0) == Seq::<Node>::empty());
    assert(local_paths_forest(Seq::<Node>::empty()) == Seq::<Seq<char>>::empty());
    while k < n.children.len()
        invariant
            ns == n.children@,
            k <= ns.len(),
            path_views(acc@) == start + own_local_paths(n.kind) + local_paths_forest(ns.take(k as int)),
        decreases ns.len() - k,
    {
        proof {
            lemma_child_decreases(*n, k as int);
        }
        local_paths(&n.children[k], acc);
        proof {
            assert(ns.take(k + 1) == ns.take(k as int).push(ns[k as int]));
            lemma_local_paths_forest_push(ns.take(k as int), ns[k as int]);
        }
        k = k + 1;
    }
    assert(ns.take(ns.len() as int) == ns);
}

/// Converts a document to Typst markup, looking local images up in the file
/// system.
pub fn convert(root: &Node) -> (r: String)
    requires
        doc_safe(*root),
    ensures
        exists|present: Set<Seq<char>>|
            present.subset_of(local_paths_of(*root).to_set()) && r@ == document_markup(*root, present),
{
    let mut paths: Vec<String> = Vec::new();
    local_paths(root, &mut paths);
    proof {
        assert(path_views(Seq::<String>::empty()) == Seq::<Seq<char>>::empty());
        assert(path_views(paths@) == local_paths_of(*root));
    }
    let ghost named = local_paths_of(*root);
    let mut present: Vec<String> = Vec::new();
    let mut k: usize = 0;
    while k < paths.len()
        invariant
            k <= paths.len(),
            path_views(paths@) == named,
            forall|j: int| 0 <= j < present@.len() ==> named.contains(#[trigger] present@[j]@),
        decreases paths.len() - k,
    {
        if path_exists(paths[k].as_str()) {
            let p = paths[k].clone();
            proof {
                assert(path_views(paths@)[k as int] == paths@[k as int]@);
                assert(named[k as int] == p@);
            }
            present.push(p);
        }
        k = k + 1;
    }
    let r = convert_with(root, &present);
    assert(r@ == document_markup(*root, listed(present@)));
    assert(listed(present@).subset_of(named.to_set()));
    r
}

/// Converts a document to Typst markup, or gives `None` where cutting out an
/// HTML `<img>` tag would fail.
pub fn try_convert(root: &Node) -> (r: Option<String>)
    ensures
        r is Some <==> doc_safe(*root),
        html_ascii(*root) ==> r is Some,
        r matches Some(m) ==> exists|present: Set<Seq<char>>|
            present.subset_of(local_paths_of(*root).to_set()) && m@ == document_markup(*root, present),
{
    if document_converts(root) {
        Some(convert(root))
    } else {
        None
    }
}


/// The trimmed body of the first definition of `name` among the nodes.
pub open spec fn first_definition(ns: Seq<Node>, name: Seq<char>, present: Set<Seq<char>>) -> Option<
    Seq<char>,
>
    decreases ns.len(),
{
    if ns.len() == 0 {
        None
    } else {
        match first_definition(ns.drop_last(), name, present) {
            Some(b) => Some(b),
            None => match ns.last().kind {
                NodeKind::FootnoteDefinition(n) => if n@ == name {
                    Some(trim(render_seq(ns.last().children@, seq![], present)))
                } else {
                    None
                },
                _ => None,
            },
        }
    }
}

proof fn lemma_note_lookup_push(t: Notes, e: (Seq<char>, Seq<char>), name: Seq<char>)
    ensures
        note_lookup(t.push(e), name) == match note_lookup(t, name) {
            Some(b) => Some(b),
            None => if e.0 == name {
                Some(e.1)
            } else {
                None
            },
        },
    decreases t.len(),
{
    if t.len() > 0 {
        assert(t.push(e)[0] == t[0]);
        assert(t.push(e).drop_first() == t.drop_first().push(e));
        lemma_note_lookup_push(t.drop_first(), e, name);
    } else {
        assert(t.push(e).drop_first() == t);
    }
}

/// When a name is defined more than once, a reference to it shows the body of
/// the first definition.
pub proof fn first_footnote_definition_wins(ns: Seq<Node>, name: Seq<char>, present: Set<Seq<char>>)
    ensures
        note_lookup(footnote_table(ns, present), name) == first_definition(ns, name, present),
    decreases ns.len(),
{
    if ns.len() > 0 {
        first_footnote_definition_wins(ns.drop_last(), name, present);
        let t = footnote_table(ns.drop_last(), present);
        match ns.last().kind {
            NodeKind::FootnoteDefinition(n) => {
                if note_lookup(t, n@) is None {
                    let e = (n@, trim(render_seq(ns.last().children@, seq![], present)));
                    lemma_note_lookup_push(t, e, name);
                }
            },
            _ => {},
        }
    }
}

/// How each kind of node becomes Typst markup, given the markup of its
/// children in order: inline styles wrap it, blocks trim it and end with a
/// blank line, containers pass it on, and kinds with no Typst form give
/// nothing. A node's children are rendered one after the other, with nothing
/// between them.
pub proof fn node_markup_rules(n: Node, notes: Notes, present: Set<Seq<char>>)
    ensures
        ({
            let r = render(n, notes, present);
            let kids = render_seq(n.children@, notes, present);
            &&& n.kind matches NodeKind::Text(t) ==> r == escape_text(t@)
            &&& n.kind is Strong ==> r == "*"@ + kids + "*"@
            &&& n.kind is Emph ==> r == "_"@ + kids + "_"@
            &&& n.kind is Strikethrough ==> r == "#strike["@ + kids + "]"@
            &&& n.kind matches NodeKind::Link(url) ==> r == if kids.len() == 0 {
                "#link(\""@ + escape_url_text(url@) + "\")"@
            } else {
                "#link(\""@ + escape_url_text(url@) + "\")["@ + kids + "]"@
            }
            &&& n.kind matches NodeKind::Heading(level) ==> r == "\n"@ + Seq::new(
                level as nat,
                |i: int| '=',
            ) + " "@ + kids + "\n\n"@
            &&& n.kind is Paragraph ==> r == trim(kids) + "\n\n"@
            &&& n.kind is BlockQuote ==> r == "#quote["@ + trim(kids) + "]\n\n"@
            &&& n.kind is TableCell ==> r == "["@ + trim(kids) + "]"@
            &&& n.kind matches NodeKind::TaskItem(sym) ==> r == (if sym is Some {
                "[x]"@
            } else {
                "[ ]"@
            }) + " "@ + trim(kids)
            &&& (n.kind is Document || n.kind is Item) ==> r == kids
            &&& n.kind matches NodeKind::List(kind) ==> r == "\n"@ + list_lines(
                n.children@,
                list_marker(kind),
                notes,
                present,
            ) + "\n"@
            &&& n.kind matches NodeKind::Math { display, literal } ==> r == if trim(literal@).len()
                == 0 {
                seq![]
            } else if display {
                "$ "@ + latex_math(trim(literal@)) + " $\n\n"@
            } else {
                "$ "@ + latex_math(trim(literal@)) + " $"@
            }
            &&& n.kind matches NodeKind::Table(columns) ==> r == "\n#table(columns: ("@
                + auto_columns(columns as nat) + "),\n"@ + table_lines(n.children@, notes, present)
                + ")\n\n"@
            &&& n.kind is TableRow ==> r == row_cells(n.children@, notes, present)
            &&& n.kind matches NodeKind::HtmlInline(h) ==> r == html_markup(h@, present)
            &&& n.kind matches NodeKind::HtmlBlock(h) ==> r == html_markup(h@, present)
            &&& n.kind is SoftBreak ==> r == " "@
            &&& n.kind is LineBreak ==> r == "\\\n"@
            &&& n.kind is ThematicBreak ==> r == "\n#line(length: 100%)\n\n"@
            &&& (n.kind is FrontMatter || n.kind is Other || n.kind is FootnoteDefinition) ==> r
                == Seq::<char>::empty()
        }),
        render_seq(Seq::<Node>::empty(), notes, present) == Seq::<char>::empty(),
        forall|ns: Seq<Node>, c: Node|
            #[trigger] render_seq(ns.push(c), notes, present) == render_seq(ns, notes, present)
                + render(c, notes, present),
{
    assert forall|ns: Seq<Node>, c: Node|
        #[trigger] render_seq(ns.push(c), notes, present) == render_seq(ns, notes, present) + render(
            c,
            notes,
            present,
        ) by {
        assert(ns.push(c).drop_last() == ns);
    }
}

/// Leaves whose text is not Typst markup: inline code and code blocks copy
/// their text verbatim between backticks, an image points at its source
/// (made relative to the current directory unless absolute or remote) and is
/// left out when it is local and absent, and a footnote reference shows the
/// body of the first definition of its name, or the name itself.
pub proof fn leaf_markup_rules(n: Node, notes: Notes, present: Set<Seq<char>>)
    ensures
        n.kind matches NodeKind::Code(c) ==> render(n, notes, present) == "`"@ + c@ + "`"@,
        n.kind matches NodeKind::CodeBlock { info, literal } ==> render(n, notes, present) == if info@.len()
            == 0 {
            "```\n"@ + literal@ + "```\n\n"@
        } else {
            "```"@ + info@ + "\n"@ + literal@ + "```\n\n"@
        },
        n.kind matches NodeKind::Image(url) ==> render(n, notes, present) == if starts_with(url@, "http"@)
            || present.contains(url@) {
            "#image(\""@ + (if starts_with(url@, "/"@) || starts_with(url@, "http"@) {
                url@
            } else {
                "./"@ + url@
            }) + "\")"@
        } else {
            Seq::<char>::empty()
        },
        n.kind matches NodeKind::FootnoteReference(name) ==> render(n, notes, present) == "#footnote["@
            + (match note_lookup(notes, name@) {
            Some(body) => body,
            None => name@,
        }) + "]"@,
{
    reveal_strlit("/");
    assert("/"@ == seq!['/']);
}

/// A table row joins its cells' markup with a comma and a space: a row of one
/// cell is that cell's markup, and a further cell adds a separator and its
/// markup after the row without it.
pub proof fn table_row_joins_cells(row: Node, shorter: Node, notes: Notes, present: Set<Seq<char>>)
    requires
        row.kind is TableRow,
        shorter.kind is TableRow,
        row.children@.len() > 0,
        shorter.children@ == row.children@.drop_last(),
    ensures
        shorter.children@.len() == 0 ==> render(row, notes, present) == render(
            row.children@.last(),
            notes,
            present,
        ),
        shorter.children@.len() > 0 ==> render(row, notes, present) == render(shorter, notes, present)
            + ", "@ + render(row.children@.last(), notes, present),
{
    if shorter.children@.len() == 0 {
        assert(row.children@[0] == row.children@.last());
    }
}

/// A list has one line per item, in order: an item adds its marker (`+` in
/// ordered lists, `-` in bullet lists) and the trimmed markup of all its
/// children; a task item adds `- `, its checkbox and the same; any other
/// child adds nothing. An empty list is two line breaks.
pub proof fn list_adds_item_lines(
    list: Node,
    shorter: Node,
    kind: ListKind,
    notes: Notes,
    present: Set<Seq<char>>,
)
    requires
        list.kind == NodeKind::List(kind),
        shorter.kind == NodeKind::List(kind),
        list.children@.len() > 0,
        shorter.children@ == list.children@.drop_last(),
    ensures
        shorter.children@.len() == 0 ==> render(shorter, notes, present) == "\n\n"@,
        ({
            let c = list.children@.last();
            let t = trim(render_seq(c.children@, notes, present));
            let m = if kind is Ordered {
                '+'
            } else {
                '-'
            };
            let before = render(shorter, notes, present).drop_last();
            &&& c.kind is Item ==> render(list, notes, present) == before + seq![m, ' '] + t + "\n\n"@
            &&& c.kind matches NodeKind::TaskItem(sym) ==> render(list, notes, present) == before
                + "- "@ + (if sym is Some {
                "[x]"@
            } else {
                "[ ]"@
            }) + " "@ + t + "\n\n"@
            &&& !(c.kind is Item) && !(c.kind is TaskItem) ==> render(list, notes, present) == render(
                shorter,
                notes,
                present,
            )
        }),
{
    reveal_strlit("\n\n");
    reveal_strlit("\n");
    let c = list.children@.last();
    let t = trim(render_seq(c.children@, notes, present));
    let m = list_marker(kind);
    let ll = list_lines(shorter.children@, m, notes, present);
    assert(render(shorter, notes, present) == "\n"@ + ll + "\n"@);
    assert(("\n"@ + ll + "\n"@).drop_last() == "\n"@ + ll);
    assert(list_lines(shorter.children@, m, notes, present) == ll);
    if shorter.children@.len() == 0 {
        assert(ll == Seq::<char>::empty());
        assert("\n"@ + ll + "\n"@ == "\n\n"@);
    }
    let line = match c.kind {
        NodeKind::TaskItem(symbol) => "- "@ + checkbox(symbol) + " "@ + t + "\n"@,
        NodeKind::Item => seq![m, ' '] + t + "\n"@,
        _ => seq![],
    };
    assert(list_lines(list.children@, m, notes, present) == ll + line);
    assert(render(list, notes, present) == "\n"@ + (ll + line) + "\n"@);
    if c.kind is Item || c.kind is TaskItem {
        assert("\n"@ + (ll + line) + "\n"@ == "\n"@ + ll + line + "\n"@);
    } else {
        assert(line == Seq::<char>::empty());
        assert(ll + line == ll);
    }
}

/// A table's column list holds one `auto` per alignment, and at least one.
pub proof fn table_columns_are_auto(n: nat)
    ensures
        auto_columns(0) == "auto"@,
        auto_columns(1) == "auto"@,
        n >= 1 ==> auto_columns(n + 1) == auto_columns(n) + ", auto"@,
{
}

/// A table has one line per row, in order: a row whose markup is not empty
/// adds two spaces, that markup without trailing commas, and a comma, just
/// before the closing `)`; an empty row adds nothing.
pub proof fn table_adds_row_lines(table: Node, shorter: Node, columns: usize, notes: Notes, present: Set<Seq<char>>)
    requires
        table.kind == NodeKind::Table(columns),
        shorter.kind == NodeKind::Table(columns),
        table.children@.len() > 0,
        shorter.children@ == table.children@.drop_last(),
    ensures
        shorter.children@.len() == 0 ==> render(shorter, notes, present) == "\n#table(columns: ("@
            + auto_columns(columns as nat) + "),\n"@ + ")\n\n"@,
        ({
            let row = render(table.children@.last(), notes, present);
            let before = render(shorter, notes, present);
            let head = before.take(before.len() - 3);
            &&& before.len() >= 3
            &&& row.len() == 0 ==> render(table, notes, present) == before
            &&& row.len() > 0 ==> render(table, notes, present) == head + "  "@ + trim_end_char(row, ',')
                + ",\n"@ + ")\n\n"@
        }),
{
    reveal_strlit(")\n\n");
    let head = "\n#table(columns: ("@ + auto_columns(columns as nat) + "),\n"@;
    let tl = table_lines(shorter.children@, notes, present);
    let row = render(table.children@.last(), notes, present);
    let before = render(shorter, notes, present);
    assert(before == head + tl + ")\n\n"@);
    assert(before.take(before.len() - 3) == head + tl);
    assert(table_lines(table.children@, notes, present) == tl + row_line(row));
    if shorter.children@.len() == 0 {
        assert(tl == Seq::<char>::empty());
        assert(head + tl == head);
    }
    if row.len() == 0 {
        assert(row_line(row) == Seq::<char>::empty());
        assert(tl + row_line(row) == tl);
    }
}

/// A document's markup is its top-level nodes' markup in order, where a
/// footnote reference finds the body of the first definition of its name.
pub proof fn document_markup_uses_first_definitions(root: Node, present: Set<Seq<char>>)
    ensures
        exists|notes: Notes|
            (forall|name: Seq<char>|
                #[trigger] note_lookup(notes, name) == first_definition(root.children@, name, present))
                && document_markup(root, present) == render_seq(root.children@, notes, present),
{
    let notes = footnote_table(root.children@, present);
    assert forall|name: Seq<char>|
        #[trigger] note_lookup(notes, name) == first_definition(root.children@, name, present) by {
        first_footnote_definition_wins(root.children@, name, present);
    }
    assert(document_markup(root, present) == render_seq(root.children@, notes, present));
    assert((forall|name: Seq<char>|
        #[trigger] note_lookup(notes, name) == first_definition(root.children@, name, present))
        && document_markup(root, present) == render_seq(root.children@, notes, present));
}

} // verus!
