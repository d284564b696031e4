use orthos::escape::{escape_typst, escape_url};
use orthos::html::img_source;
use orthos::pipeline::diagnostics_message;
use orthos::template::{preamble, PREAMBLE};

#[test]
fn typst_special_characters_are_escaped() {
    assert_eq!(escape_typst("a#b$c\"d\\e"), "a\\#b\\$c\\\"d\\\\e");
    assert_eq!(escape_typst("plain"), "plain");
}

#[test]
fn url_quotes_are_percent_encoded() {
    assert_eq!(escape_url("a\"b\"c"), "a%22b%22c");
    assert_eq!(escape_url("https://x.y/z"), "https://x.y/z");
}

#[test]
fn img_source_double_quoted() {
    assert_eq!(
        img_source("<IMG src=\"pic.png\">", "<img src=\"pic.png\">"),
        Some("pic.png".to_string())
    );
}

#[test]
fn img_source_single_quoted_after_spaces() {
    assert_eq!(
        img_source("<img alt='a' src=  'b.png' >", "<img alt='a' src=  'b.png' >"),
        Some("b.png".to_string())
    );
}

#[test]
fn img_source_missing_pieces() {
    assert_eq!(img_source("<p>no image</p>", "<p>no image</p>"), None);
    assert_eq!(img_source("<img alt='x'>", "<img alt='x'>"), None);
    assert_eq!(img_source("<img src=x.png>", "<img src=x.png>"), None);
    assert_eq!(img_source("<img src='x.png", "<img src='x.png"), None);
}

#[test]
fn img_source_measures_lowercase_in_bytes() {
    let html = "\u{130}<img src='x'>";
    let lower = html.to_lowercase();
    assert_eq!(img_source(html, &lower), Some("x".to_string()));
}

#[test]
fn preamble_sets_up_the_page() {
    assert_eq!(preamble(), PREAMBLE);
    assert!(preamble().starts_with("#set page(\n  paper: \"a4\","));
    assert!(preamble().contains("#set text(font: (\"Lora\"), size: 11pt, lang: \"en\")"));
    assert!(preamble().ends_with("#show table.cell.where(y: 0): set text(weight: \"bold\")\n"));
}

#[test]
fn diagnostics_are_joined_by_lines() {
    assert_eq!(diagnostics_message(&vec!["a".to_string(), "b".to_string()]), "a\nb");
    assert_eq!(diagnostics_message(&vec!["only".to_string()]), "only");
    assert_eq!(diagnostics_message(&vec![]), "");
}
