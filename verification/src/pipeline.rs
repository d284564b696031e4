//! From Markdown text to the Typst markup that is compiled.
use vstd::prelude::*;
use crate::convert::{doc_safe, document_converts, document_markup, convert, html_ascii, local_paths_of};
use crate::document::{Node, tree_events};
use crate::markdown::{markdown_events, parse};
use crate::template::{preamble, PREAMBLE};
use crate::text::{chars_of, push_str, string_of};

verus! {

/// The Typst markup for a Markdown text: the preamble, then the converted
/// document; `None` where converting the parsed document would fail (see
/// [`doc_safe`]), which needs an HTML text that is not ASCII.
pub fn typst_markup(input: &str) -> (r: Option<String>)
    ensures
        r matches Some(m) ==> exists|doc: Node, present: Set<Seq<char>>| {
            &&& tree_events(doc) == markdown_events(input@)
            &&& doc_safe(doc)
            &&& present.subset_of(local_paths_of(doc).to_set())
            &&& m@ == PREAMBLE@ + document_markup(doc, present)
        },
        r is None ==> exists|doc: Node|
            tree_events(doc) == markdown_events(input@) && !doc_safe(doc) && !html_ascii(doc),
{
    let doc = parse(input);
    if !document_converts(&doc) {
        return None;
    }
    let body = convert(&doc);
    let mut out = chars_of(preamble());
    push_str(&mut out, body.as_str());
    let m = string_of(out.as_slice());
    let ghost present = choose|present: Set<Seq<char>>|
        present.subset_of(local_paths_of(doc).to_set()) && body@ == document_markup(doc, present);
    assert(m@ == PREAMBLE@ + document_markup(doc, present));
    Some(m)
}

/// Lines joined by newlines, as `join("\n")` does.
pub open spec fn joined_lines(lines: Seq<Seq<char>>) -> Seq<char>
    decreases lines.len(),
{
    if lines.len() == 0 {
        seq![]
    } else if lines.len() == 1 {
        lines[0]
    } else {
        joined_lines(lines.drop_last()) + seq!['\n'] + lines.last()
    }
}

/// The message of a failed compilation: the diagnostics' messages, one per
/// line.
pub fn diagnostics_message(messages: &Vec<String>) -> (r: String)
    ensures
        r@ == joined_lines(messages@.map_values(|m: String| m@)),
{
    let ghost lines = messages@.map_values(|m: String| m@);
    let mut out: Vec<char> = Vec::new();
    let mut k: usize = 0;
    while k < messages.len()
        invariant
            lines == messages@.map_values(|m: String| m@),
            k <= messages.len(),
            out@ == joined_lines(lines.take(k as int)),
        decreases messages.len() - k,
    {
        let ghost before = out@;
        assert(lines.take(k + 1).drop_last() == lines.take(k as int));
        assert(lines.take(k + 1).last() == messages@[k as int]@);
        if k > 0 {
            out.push('\n');
        }
        push_str(&mut out, messages[k].as_str());
        proof {
            if k == 0 {
                assert(out@ == messages@[0]@);
            } else {
                assert(out@ == before + seq!['\n'] + messages@[k as int]@);
            }
        }
        k = k + 1;
    }
    assert(lines.take(lines.len() as int) == lines);
    string_of(out.as_slice())
}

/// Joining puts exactly one newline between consecutive lines: no lines give
/// nothing, one line is itself, and a further line adds a newline and the
/// line.
pub proof fn lines_are_joined_by_newlines(lines: Seq<Seq<char>>, x: Seq<char>)
    ensures
        joined_lines(Seq::<Seq<char>>::empty()) == Seq::<char>::empty(),
        joined_lines(seq![x]) == x,
        lines.len() > 0 ==> joined_lines(lines.push(x)) == joined_lines(lines) + seq!['\n'] + x,
{
    assert(seq![x][0] == x);
    assert(lines.push(x).drop_last() == lines);
}

} // verus!
