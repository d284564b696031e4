//! The fixed Typst preamble: page, fonts, and the look of headings, code,
//! quotes, links, lists and tables.
use vstd::prelude::*;

verus! {

/// The preamble text.
pub const PREAMBLE: &'static str = "#set page(\n  paper: \"a4\",\n  margin: (top: 3cm, bottom: 3cm, left: 3cm, right: 3cm),\n  fill: rgb(\"faf9f8\"),\n)\n#set text(font: (\"Lora\"), size: 11pt, lang: \"en\")\n#show math.equation: set text(font: \"Latin Modern Math\")\n#set par(justify: true, leading: 0.8em)\n\n#show heading: set block(above: 1.2em, below: 0.5em)\n#show heading.where(level: 1): set text(size: 1.6em, weight: \"bold\")\n#show heading.where(level: 2): set text(size: 1.35em, weight: \"bold\")\n#show heading.where(level: 3): set text(size: 1.15em, weight: 600)\n#show heading.where(level: 4): set text(size: 1.05em, weight: 600)\n\n#show raw.where(block: true): set block(\n  fill: rgb(\"f0ede8\"),\n  inset: (top: 10pt, bottom: 10pt, left: 14pt, right: 14pt),\n  radius: 6pt,\n  stroke: 0.5pt + rgb(\"e2ddd5\"),\n  above: 0.8em,\n  below: 0.8em,\n)\n#show raw.where(block: true): set text(font: \"JetBrains Mono\", size: 9.5pt)\n#show raw.where(block: false): set block(\n  fill: rgb(\"e8e2d8\"),\n  inset: (left: 5pt, right: 5pt, top: 1pt, bottom: 1pt),\n  radius: 3pt,\n)\n#show raw.where(block: false): set text(\n  font: \"JetBrains Mono\",\n  fill: rgb(\"5c4f3f\"),\n)\n\n#show quote: set block(\n  stroke: (left: 3pt + rgb(\"a27e5c\")),\n  fill: rgb(\"f4f0eb\"),\n  inset: (top: 8pt, bottom: 8pt, left: 14pt, right: 14pt),\n  radius: 0pt,\n  above: 1em,\n  below: 1em,\n)\n#show quote: set text(style: \"italic\", size: 0.95em, fill: rgb(\"5c4f3f\"))\n\n#show link: set text(fill: rgb(\"3674b5\"))\n\n#show list: set block(below: 0.5em)\n\n#show table: set table(\n  inset: 8pt,\n  stroke: 0.5pt + rgb(\"d8d0c4\"),\n)\n#show table.header: set block(fill: rgb(\"ece6dc\"))\n#show table.cell.where(y: 0): set text(weight: \"bold\")\n";

/// The preamble that every document starts with.
pub fn preamble() -> (r: &'static str)
    ensures
        r@ == PREAMBLE@,
{
    PREAMBLE
}

} // verus!
