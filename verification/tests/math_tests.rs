use orthos::math::{latex_to_typst_math, parse_math_content, parse_math_group};

#[test]
fn frac_becomes_division() {
    assert_eq!(latex_to_typst_math("\\frac{a}{b}"), "(a)/(b)");
}

#[test]
fn frac_without_braces() {
    assert_eq!(latex_to_typst_math("\\frac12"), "(12)/()");
}

#[test]
fn greek_letters_and_operators() {
    assert_eq!(latex_to_typst_math("\\alpha + \\beta"), "alpha + beta");
}

#[test]
fn adjacent_letters_are_spaced() {
    assert_eq!(latex_to_typst_math("xy"), "x y");
    assert_eq!(latex_to_typst_math("ab+c"), "a b+c");
}

#[test]
fn braces_become_parentheses() {
    assert_eq!(latex_to_typst_math("{a}"), "(a)");
}

#[test]
fn square_root_and_nth_root() {
    assert_eq!(latex_to_typst_math("\\sqrt{x}"), "sqrt(x)");
    assert_eq!(latex_to_typst_math("\\sqrt[3]{x}"), "root(3,x)");
}

#[test]
fn integral_keeps_limits() {
    assert_eq!(latex_to_typst_math("\\int_0^1"), "integral_0^1");
    assert_eq!(latex_to_typst_math("\\sum^n"), "sum^n");
}

#[test]
fn blackboard_and_fraktur() {
    assert_eq!(latex_to_typst_math("\\mathbb{R}"), "bb(R)");
    assert_eq!(latex_to_typst_math("\\mathbb R"), "frak(R)");
}

#[test]
fn font_commands() {
    assert_eq!(latex_to_typst_math("\\mathrm{d}"), "upright(d)");
    assert_eq!(latex_to_typst_math("\\mathbf{v}"), "bold(v)");
    assert_eq!(latex_to_typst_math("\\mathcal{L}"), "cal(L)");
    assert_eq!(latex_to_typst_math("\\mathscr{F}"), "cal(F)");
}

#[test]
fn operatorname_and_text() {
    assert_eq!(latex_to_typst_math("\\operatorname{sgn}"), "s g n");
    assert_eq!(latex_to_typst_math("\\operatorname{{x}}"), "x");
    assert_eq!(latex_to_typst_math("\\text{if } x"), "i f  x");
}

#[test]
fn left_and_right_delimiters() {
    assert_eq!(latex_to_typst_math("\\left( x \\right)"), "( x )");
    assert_eq!(latex_to_typst_math("\\left. x \\right|"), " x |");
}

#[test]
fn unknown_commands_are_kept() {
    assert_eq!(latex_to_typst_math("\\unknown x"), "\\unknown x");
    assert_eq!(latex_to_typst_math("\\{"), "\\(");
}

#[test]
fn backslash_ends_a_command_name() {
    assert_eq!(latex_to_typst_math("\\alpha\\beta"), "alphabeta");
    assert_eq!(latex_to_typst_math("\\alpha\\,x"), "alpha\\,x");
    assert_eq!(latex_to_typst_math("\\left\\{ y \\right\\}"), "( y )");
}

#[test]
fn double_backslash_is_one_command_start() {
    assert_eq!(latex_to_typst_math("a \\\\ b"), "a \\ b");
}

#[test]
fn trailing_backslash_is_dropped() {
    assert_eq!(latex_to_typst_math("a\\"), "a");
}

#[test]
fn symbol_table_entries() {
    assert_eq!(latex_to_typst_math("\\setminus"), "\\");
    assert_eq!(latex_to_typst_math("\\infty"), "oo");
    assert_eq!(latex_to_typst_math("a \\leq b"), "a <= b");
    assert_eq!(latex_to_typst_math("\\to"), "->");
}

#[test]
fn empty_math() {
    assert_eq!(latex_to_typst_math(""), "");
}

#[test]
fn group_reads_a_brace_group() {
    let chars: Vec<char> = "{a b} c".chars().collect();
    let mut i = 0usize;
    let r = parse_math_group(&chars, &mut i, chars.len());
    assert_eq!(r, "a b");
    assert_eq!(i, 5);
}

#[test]
fn group_reads_up_to_a_space() {
    let chars: Vec<char> = "  xy z".chars().collect();
    let mut i = 0usize;
    let r = parse_math_group(&chars, &mut i, chars.len());
    assert_eq!(r, "x y");
    assert_eq!(i, 5);
}

#[test]
fn group_past_the_end() {
    let chars: Vec<char> = "ab".chars().collect();
    let mut i = 7usize;
    let r = parse_math_group(&chars, &mut i, chars.len());
    assert_eq!(r, "");
    assert_eq!(i, 7);
}

#[test]
fn content_stops_at_terminator() {
    let chars: Vec<char> = "3]{x}".chars().collect();
    let mut i = 0usize;
    let r = parse_math_content(&chars, &mut i, chars.len(), ']');
    assert_eq!(r, "3");
    assert_eq!(i, 2);
}

#[test]
fn content_stops_before_closing_brace() {
    let chars: Vec<char> = "ab}c".chars().collect();
    let mut i = 0usize;
    let r = parse_math_content(&chars, &mut i, chars.len(), ' ');
    assert_eq!(r, "a b");
    assert_eq!(i, 2);
}

#[test]
fn content_translates_inner_groups() {
    let chars: Vec<char> = "x{ab} y".chars().collect();
    let mut i = 0usize;
    let r = parse_math_content(&chars, &mut i, chars.len(), ' ');
    assert_eq!(r, "x(a b)");
    assert_eq!(i, 6);
}
