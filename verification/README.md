# orthos

Markdown to PDF compiler: Markdown is parsed with comrak, turned into Typst
markup (with LaTeX math rewritten in Typst notation), and compiled to PDF with
Typst.

- `src/` is the verified library (Verus): the document tree and its rebuilding
  from comrak's walk (`document`, `markdown`), the conversion to Typst markup
  (`convert`), LaTeX math (`math`, with its laws in `math_laws`), escaping (`escape`), HTML `<img>` tags
  (`html`), the preamble (`template`) and the whole text-to-markup step
  (`pipeline`).
- `app/` is the command line program: argument handling, file I/O, and the
  Typst compilation (`World` implementation, fonts, PDF export).
- `tests/` exercises the library on concrete inputs.

Fonts are read at run time from `ORTHOS_FONT_DIR`, or `assets/fonts` under the
current directory.
