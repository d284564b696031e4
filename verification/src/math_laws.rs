//! Laws of the LaTeX math translation: how a command and the text after it
//! are translated, and what the argument readers give on well-formed input.
use vstd::prelude::*;
use crate::math::{
    backslashes, brace_at, brace_close, collect, command, content, group, latex_math,
    lemma_backslashes_concat, lemma_backslashes_one, lemma_backslashes_split,
    lemma_backslashes_within, lemma_brace_close, lemma_plain, lemma_skip_white, lemma_skip_white_bounds,
    lemma_subrange_whole, limits_command, math_budget_is_enough, math_content, math_group, run,
    skip_white, symbol,
};
use crate::text::{is_letter, is_white};

verus! {

/// The translation looks only at the text from its position on, so a prefix
/// in front of the text shifts every position and changes nothing else.
proof fn shift_skip_white(a: Seq<char>, t: Seq<char>, j: int)
    requires
        0 <= j <= t.len(),
    ensures
        skip_white(a + t, a.len() + j) == skip_white(t, j) + a.len(),
    decreases t.len() - j,
{
    if j < t.len() {
        assert((a + t)[a.len() + j] == t[j]);
        if is_white(t[j]) {
            shift_skip_white(a, t, j + 1);
        }
    }
}

proof fn shift_brace_close(a: Seq<char>, t: Seq<char>, j: int, d: nat)
    requires
        0 <= j <= t.len(),
    ensures
        brace_close(a + t, a.len() + j, d) == brace_close(t, j, d) + a.len(),
    decreases t.len() - j,
{
    if j < t.len() {
        assert((a + t)[a.len() + j] == t[j]);
        if t[j] == '{' {
            shift_brace_close(a, t, j + 1, d + 1);
        } else if t[j] == '}' {
            if d > 1 {
                shift_brace_close(a, t, j + 1, (d - 1) as nat);
            }
        } else {
            shift_brace_close(a, t, j + 1, d);
        }
    }
}

proof fn shift_brace_at(a: Seq<char>, t: Seq<char>, j: int)
    requires
        0 <= j <= t.len(),
    ensures
        brace_at(a + t, a.len() + j) == brace_at(t, j),
{
    shift_skip_white(a, t, j);
    lemma_skip_white_bounds(t, j);
    let k = skip_white(t, j);
    if k < t.len() {
        assert((a + t)[a.len() + k] == t[k]);
    }
}

proof fn shift_run(a: Seq<char>, t: Seq<char>, j: int, p: bool, cmd: Option<Seq<char>>, f: nat)
    requires
        0 <= j <= t.len(),
    ensures
        run(a + t, a.len() + j, p, cmd, f) == run(t, j, p, cmd, f),
    decreases f, t.len() + 1 - j, if cmd is Some {
        6int
    } else {
        5int
    },
{
    let s = a + t;
    let o = a.len() as int;
    if j < t.len() {
        let c = t[j];
        assert(s[o + j] == c);
        if c == '\\' && !(cmd matches Some(b) && b.len() > 0) {
            shift_run(a, t, j + 1, p, Some(seq![]), f);
        } else if cmd is Some {
            let buf = cmd->0;
            if is_letter(c) && j + 1 < t.len() {
                shift_run(a, t, j + 1, p, Some(buf.push(c)), f);
            } else {
                let k = if is_letter(c) {
                    j + 1
                } else {
                    j
                };
                let name = if is_letter(c) {
                    buf.push(c)
                } else {
                    buf
                };
                shift_command(a, t, k, name, f);
                let r = command(t, k, name, f);
                if r.1 <= k {
                    shift_run(a, t, k, false, None, f);
                } else if r.1 <= t.len() {
                    shift_run(a, t, r.1, false, None, f);
                }
            }
        } else {
            shift_run(a, t, j + 1, is_letter(c), None, f);
        }
    }
}

proof fn shift_command(a: Seq<char>, t: Seq<char>, j: int, name: Seq<char>, f: nat)
    requires
        0 <= j <= t.len(),
    ensures
        command(a + t, a.len() + j, name, f) == (command(t, j, name, f).0, command(t, j, name, f).1
            + a.len()),
    decreases f, t.len() + 1 - j, 4int,
{
    let s = a + t;
    let o = a.len() as int;
    if j < t.len() {
        assert(s[o + j] == t[j]);
    }
    match symbol(name) {
        Some(rep) => {},
        None => {
            if name == "frac"@ {
                shift_group(a, t, j, f);
                let num = group(t, j, f);
                if j <= num.1 <= t.len() {
                    shift_group(a, t, num.1, f);
                }
            } else if name == "sqrt"@ {
                if j < t.len() && t[j] == '[' {
                    shift_content(a, t, j + 1, ']', f);
                    let n = content(t, j + 1, ']', f);
                    if j + 1 <= n.1 <= t.len() {
                        shift_group(a, t, n.1, f);
                    }
                } else {
                    shift_group(a, t, j, f);
                }
            } else if name == "mathrm"@ || name == "mathbf"@ || name == "mathcal"@ || name
                == "mathscr"@ || name == "mathbb"@ || name == "operatorname"@ || name == "text"@ {
                shift_group(a, t, j, f);
            }
        },
    }
}

proof fn shift_group(a: Seq<char>, t: Seq<char>, j: int, f: nat)
    requires
        0 <= j <= t.len(),
    ensures
        group(a + t, a.len() + j, f) == (group(t, j, f).0, group(t, j, f).1 + a.len()),
    decreases f, t.len() + 1 - j, if brace_at(t, j) {
        0int
    } else {
        3int
    },
{
    let s = a + t;
    let o = a.len() as int;
    shift_skip_white(a, t, j);
    shift_brace_at(a, t, j);
    lemma_skip_white_bounds(t, j);
    let k = skip_white(t, j);
    if brace_at(t, j) {
        shift_brace_close(a, t, k + 1, 1);
        lemma_brace_close(t, k + 1, 1);
        let close = brace_close(t, k + 1, 1);
        assert(s.subrange(o + k + 1, o + close) == t.subrange(k + 1, close));
    } else {
        shift_content(a, t, k, ' ', f);
    }
}

proof fn shift_content(a: Seq<char>, t: Seq<char>, j: int, term: char, f: nat)
    requires
        0 <= j <= t.len(),
    ensures
        content(a + t, a.len() + j, term, f) == (content(t, j, term, f).0, content(t, j, term, f).1
            + a.len()),
    decreases f, t.len() + 1 - j, 2int,
{
    shift_collect(a, t, j, term, f);
}

proof fn shift_collect(a: Seq<char>, t: Seq<char>, j: int, term: char, f: nat)
    requires
        0 <= j <= t.len(),
    ensures
        collect(a + t, a.len() + j, term, f) == (collect(t, j, term, f).0, collect(t, j, term, f).1
            + a.len()),
    decreases f, t.len() + 1 - j, 1int,
{
    let s = a + t;
    let o = a.len() as int;
    if j < t.len() {
        assert(s[o + j] == t[j]);
        if t[j] == term {
        } else if t[j] == '{' {
            lemma_skip_white(t, j, j);
            shift_group(a, t, j, f);
            let g = group(t, j, f);
            if j < g.1 <= t.len() {
                shift_collect(a, t, g.1, term, f);
            }
        } else if t[j] == '}' {
        } else {
            shift_collect(a, t, j + 1, term, f);
        }
    }
}

/// Every name in the symbol table is a non-empty run of ASCII letters, and
/// `sqrt` is not one of them.
proof fn lemma_symbol_keys(name: Seq<char>)
    ensures
        symbol(name) is Some ==> name.len() > 0 && forall|j: int|
            0 <= j < name.len() ==> is_letter(#[trigger] name[j]),
        symbol("sqrt"@) is None,
{
    letters_big_operator_commands();
    letters_greek_letter_commands_alpha_to_mu();
    letters_greek_letter_commands_nu_to_omega();
    letters_capital_greek_commands();
    letters_arrow_commands();
    letters_calculus_logic_and_set_commands();
    letters_trigonometric_commands();
    letters_function_name_commands();
    letters_relation_and_arithmetic_commands();
    letters_dot_and_binary_operator_commands();
    letters_similarity_and_letterlike_commands();
    letters_logic_and_circled_commands();
    letters_angle_and_delimiter_commands();
    reveal_strlit("sqrt");
    assert("sqrt"@.len() == 4 && "sqrt"@[0] == 's' && "sqrt"@[1] == 'q');
}

/// `frac` is not in the symbol table.
proof fn lemma_frac_not_symbol()
    ensures
        symbol("frac"@) is None,
{
    letters_big_operator_commands();
    letters_greek_letter_commands_alpha_to_mu();
    letters_greek_letter_commands_nu_to_omega();
    letters_capital_greek_commands();
    letters_arrow_commands();
    letters_calculus_logic_and_set_commands();
    letters_trigonometric_commands();
    letters_function_name_commands();
    letters_relation_and_arithmetic_commands();
    letters_dot_and_binary_operator_commands();
    letters_similarity_and_letterlike_commands();
    letters_logic_and_circled_commands();
    letters_angle_and_delimiter_commands();
    reveal_strlit("frac");
    assert("frac"@.len() == 4 && "frac"@[0] == 'f' && "frac"@[1] == 'r');
}

/// `{` minus `}` in a text.
pub open spec fn brace_depth(x: Seq<char>) -> int
    decreases x.len(),
{
    if x.len() == 0 {
        0
    } else {
        brace_depth(x.drop_last()) + if x.last() == '{' {
            1int
        } else if x.last() == '}' {
            -1int
        } else {
            0int
        }
    }
}

/// Every `}` closes an earlier `{`, and every `{` is closed.
pub open spec fn balanced(x: Seq<char>) -> bool {
    brace_depth(x) == 0 && forall|j: int| 0 <= j <= x.len() ==> brace_depth(#[trigger] x.take(j)) >= 0
}

proof fn lemma_close_from(s: Seq<char>, b: int, x: Seq<char>, p: int)
    requires
        0 <= b,
        b + x.len() < s.len(),
        s.subrange(b, b + x.len()) == x,
        s[b + x.len()] == '}',
        balanced(x),
        0 <= p <= x.len(),
    ensures
        brace_close(s, b + p, (1 + brace_depth(x.take(p))) as nat) == b + x.len(),
    decreases x.len() - p,
{
    let d = (1 + brace_depth(x.take(p))) as nat;
    assert(brace_depth(x.take(p)) >= 0);
    if p == x.len() {
        assert(x.take(p) == x);
    } else {
        let c = x[p];
        assert(s[b + p] == s.subrange(b, b + x.len())[p]);
        assert(x.take(p + 1).drop_last() == x.take(p));
        assert(x.take(p + 1).last() == c);
        assert(brace_depth(x.take(p + 1)) >= 0);
        lemma_close_from(s, b, x, p + 1);
    }
}

/// A balanced text followed by `}` is closed by that brace.
proof fn lemma_balanced_close(s: Seq<char>, b: int, x: Seq<char>)
    requires
        0 <= b,
        b + x.len() < s.len(),
        s.subrange(b, b + x.len()) == x,
        s[b + x.len()] == '}',
        balanced(x),
    ensures
        brace_close(s, b, 1) == b + x.len(),
{
    assert(x.take(0) == Seq::<char>::empty());
    assert(brace_depth(Seq::<char>::empty()) == 0);
    lemma_close_from(s, b, x, 0);
}

/// A part of a text holds no more backslashes than the text, and one fewer
/// where the text starts with a backslash that the part leaves out.
proof fn lemma_part_backslashes(s: Seq<char>, i: int, j: int)
    requires
        0 <= i <= j <= s.len(),
    ensures
        backslashes(s.subrange(i, j)) <= backslashes(s),
        1 <= i && s[0] == '\\' ==> backslashes(s.subrange(i, j)) < backslashes(s),
{
    lemma_subrange_whole(s);
    lemma_backslashes_within(s, 0, i, j, s.len() as int);
    if 1 <= i && s[0] == '\\' {
        lemma_backslashes_split(s, 0, 1, s.len() as int);
        lemma_backslashes_one('\\');
        assert(s.subrange(0, 1) == seq!['\\']);
        lemma_backslashes_within(s, 1, i, j, s.len() as int);
    }
}

/// A brace group after white space is translated as a whole.
proof fn lemma_group_braced(s: Seq<char>, i: int, k: int, x: Seq<char>, f: nat)
    requires
        0 <= i <= k,
        k + x.len() + 1 < s.len(),
        forall|j: int| i <= j < k ==> is_white(#[trigger] s[j]),
        s[k] == '{',
        s.subrange(k + 1, k + 1 + x.len()) == x,
        s[k + 1 + x.len()] == '}',
        balanced(x),
        f >= 1,
        f - 1 > backslashes(x),
    ensures
        group(s, i, f) == (latex_math(x), k + x.len() + 2),
{
    lemma_skip_white(s, i, k);
    lemma_balanced_close(s, k + 1, x);
    math_budget_is_enough(x, (f - 1) as nat);
}

/// Text without braces is gathered up to the first `term`, or to the end.
proof fn lemma_collect_plain(s: Seq<char>, i: int, term: char, p: int, f: nat)
    requires
        0 <= i <= p <= s.len(),
        forall|j: int| i <= j < p ==> #[trigger] s[j] != term && s[j] != '{' && s[j] != '}',
        p < s.len() ==> s[p] == term,
    ensures
        collect(s, i, term, f) == (s.subrange(i, p), if p < s.len() {
            p + 1
        } else {
            p
        }),
    decreases p - i,
{
    if i < p {
        lemma_collect_plain(s, i + 1, term, p, f);
        assert(seq![s[i]] + s.subrange(i + 1, p) == s.subrange(i, p));
    } else {
        assert(s.subrange(i, p) == Seq::<char>::empty());
    }
}

/// What the translation does once a command's name has been read up to `pos`.
spec fn after_command(s: Seq<char>, pos: int, name: Seq<char>, f: nat) -> Seq<char> {
    let r = command(s, pos, name, f);
    if r.1 <= pos {
        r.0 + run(s, pos, false, None, f)
    } else if r.1 <= s.len() {
        r.0 + run(s, r.1, false, None, f)
    } else {
        r.0
    }
}

/// The letters of a command's name are read one by one; the name ends where
/// the letters do.
proof fn lemma_read_name(s: Seq<char>, start: int, k: Seq<char>, p: bool, f: nat, j: int)
    requires
        0 <= start,
        0 <= j < k.len(),
        start + k.len() <= s.len(),
        s.subrange(start, start + k.len()) == k,
        forall|m: int| 0 <= m < k.len() ==> is_letter(#[trigger] k[m]),
        start + k.len() == s.len() || !is_letter(s[start + k.len()]),
    ensures
        run(s, start + j, p, Some(k.take(j)), f) == after_command(s, start + k.len(), k, f),
    decreases k.len() - j,
{
    let i = start + j;
    assert(s[i] == s.subrange(start, start + k.len())[j]);
    assert(is_letter(k[j]));
    assert(k.take(j).push(k[j]) == k.take(j + 1));
    if j + 1 < k.len() {
        lemma_read_name(s, start, k, p, f, j + 1);
    } else {
        assert(k.take(j + 1) == k);
        if i + 1 < s.len() {
            assert(run(s, i, p, Some(k.take(j)), f) == run(s, i + 1, p, Some(k), f));
            assert(!is_letter(s[i + 1]));
            assert(run(s, i + 1, p, Some(k), f) == after_command(s, i + 1, k, f));
        }
    }
}

/// The text after a finished command is translated as if it stood alone.
proof fn lemma_tail(a: Seq<char>, t: Seq<char>, f: nat)
    requires
        f > backslashes(t),
    ensures
        run(a + t, a.len() as int, false, None, f) == latex_math(t),
{
    shift_run(a, t, 0, false, None, f);
    math_budget_is_enough(t, f);
}

/// Reading `\` and then the name `k` in front of `t`.
proof fn lemma_command_start(k: Seq<char>, t: Seq<char>)
    requires
        k.len() > 0,
        forall|m: int| 0 <= m < k.len() ==> is_letter(#[trigger] k[m]),
        t.len() == 0 || !is_letter(t[0]),
    ensures
        ({
            let s = seq!['\\'] + k + t;
            &&& latex_math(s) == after_command(s, k.len() + 1int, k, backslashes(s) + 1)
            &&& backslashes(s) == backslashes(t) + 1
        }),
{
    let s = seq!['\\'] + k + t;
    let f = backslashes(s) + 1;
    assert(s.subrange(1, k.len() + 1int) == k);
    if t.len() > 0 {
        assert(s[k.len() + 1int] == t[0]);
    }
    lemma_read_name(s, 1, k, false, f, 0);
    assert(k.take(0) == Seq::<char>::empty());
    assert(s[0] == '\\');
    lemma_plain(k);
    lemma_backslashes_one('\\');
    lemma_backslashes_concat(seq!['\\'], k);
    lemma_backslashes_concat(seq!['\\'] + k, t);
}

/// A command of the symbol table is replaced by its Typst name, and what
/// follows the name is translated on its own; after `\int`, `\sum` and the
/// like a `_` or `^` is passed through.
pub proof fn table_command_is_replaced(k: Seq<char>, t: Seq<char>)
    requires
        symbol(k) is Some,
        t.len() == 0 || !is_letter(t[0]),
    ensures
        latex_math(seq!['\\'] + k + t) == symbol(k)->0 + latex_math(t),
{
    lemma_symbol_keys(k);
    lemma_command_start(k, t);
    let a = seq!['\\'] + k;
    let s = a + t;
    let f = backslashes(s) + 1;
    let rep = symbol(k)->0;
    lemma_tail(a, t, f);
    if limits_command(k) && t.len() > 0 && (t[0] == '_' || t[0] == '^') {
        assert(s[a.len() as int] == t[0]);
        shift_run(a, t, 1, false, None, f);
        math_budget_is_enough(t, f);
        assert(rep.push(t[0]) + run(t, 1, false, None, f) == rep + (seq![t[0]] + run(
            t,
            1,
            false,
            None,
            f,
        )));
    }
}

/// A command that is neither in the symbol table nor a structural command is
/// kept as it is written.
pub proof fn unknown_command_is_kept(k: Seq<char>, t: Seq<char>)
    requires
        k.len() > 0,
        forall|m: int| 0 <= m < k.len() ==> is_letter(#[trigger] k[m]),
        symbol(k) is None,
        k != "frac"@ && k != "sqrt"@ && k != "mathrm"@ && k != "mathbf"@ && k != "mathcal"@ && k
            != "mathscr"@ && k != "mathbb"@ && k != "operatorname"@ && k != "text"@ && k
            != "left"@ && k != "right"@,
        t.len() == 0 || !is_letter(t[0]),
    ensures
        latex_math(seq!['\\'] + k + t) == seq!['\\'] + k + latex_math(t),
{
    lemma_command_start(k, t);
    let a = seq!['\\'] + k;
    let s = a + t;
    lemma_tail(a, t, backslashes(s) + 1);
}

/// A fraction of two balanced brace groups becomes a division of their
/// translations in parentheses, and the text after it is translated on its
/// own.
pub proof fn fraction_of_groups(x: Seq<char>, y: Seq<char>, t: Seq<char>)
    requires
        balanced(x),
        balanced(y),
    ensures
        latex_math("\\frac{"@ + x + "}{"@ + y + "}"@ + t) == seq!['('] + latex_math(x) + ")/("@
            + latex_math(y) + seq![')'] + latex_math(t),
{
    reveal_strlit("\\frac{");
    reveal_strlit("}{");
    reveal_strlit("}");
    reveal_strlit("frac");
    let a = "\\frac{"@ + x + "}{"@ + y + "}"@;
    let s = a + t;
    let f = backslashes(s) + 1;
    let lx = x.len() as int;
    let ly = y.len() as int;
    assert(s.subrange(1, 5) == "frac"@);
    assert(s[5] == '{');
    assert(forall|m: int| 0 <= m < 4 ==> is_letter(#[trigger] "frac"@[m]));
    lemma_read_name(s, 1, "frac"@, false, f, 0);
    assert("frac"@.take(0) == Seq::<char>::empty());
    assert(s[0] == '\\');
    lemma_frac_not_symbol();
    assert(s.subrange(6, 6 + lx) == x);
    assert(s[6 + lx] == '}');
    lemma_part_backslashes(s, 6, 6 + lx);
    lemma_group_braced(s, 5, 5, x, f);
    assert(s[7 + lx] == '{');
    assert(s.subrange(8 + lx, 8 + lx + ly) == y);
    assert(s[8 + lx + ly] == '}');
    lemma_part_backslashes(s, 8 + lx, 8 + lx + ly);
    lemma_group_braced(s, 7 + lx, 7 + lx, y, f);
    assert(s.subrange(a.len() as int, s.len() as int) == t);
    lemma_part_backslashes(s, a.len() as int, s.len() as int);
    lemma_tail(a, t, f);
}

/// A square root of a balanced brace group becomes `sqrt` of its translation.
pub proof fn square_root_of_group(x: Seq<char>, t: Seq<char>)
    requires
        balanced(x),
    ensures
        latex_math("\\sqrt{"@ + x + "}"@ + t) == "sqrt("@ + latex_math(x) + seq![')'] + latex_math(t),
{
    reveal_strlit("\\sqrt{");
    reveal_strlit("}");
    reveal_strlit("sqrt");
    let a = "\\sqrt{"@ + x + "}"@;
    let s = a + t;
    let f = backslashes(s) + 1;
    let lx = x.len() as int;
    assert(s.subrange(1, 5) == "sqrt"@);
    assert(s[5] == '{');
    assert(forall|m: int| 0 <= m < 4 ==> is_letter(#[trigger] "sqrt"@[m]));
    lemma_read_name(s, 1, "sqrt"@, false, f, 0);
    assert("sqrt"@.take(0) == Seq::<char>::empty());
    assert(s[0] == '\\');
    lemma_symbol_keys("sqrt"@);
    assert(s.subrange(6, 6 + lx) == x);
    assert(s[6 + lx] == '}');
    lemma_part_backslashes(s, 6, 6 + lx);
    lemma_group_braced(s, 5, 5, x, f);
    reveal_strlit("frac");
    assert("sqrt"@ != "frac"@) by {
        assert("sqrt"@[0] != "frac"@[0]);
    }
    assert(command(s, 5, "sqrt"@, f) == ("sqrt("@ + latex_math(x) + seq![')'], 7 + lx));
    assert(s.subrange(a.len() as int, s.len() as int) == t);
    lemma_part_backslashes(s, a.len() as int, s.len() as int);
    lemma_tail(a, t, f);
}

/// A root with an index in square brackets becomes `root` of the translated
/// index, then the translated radicand.
#[verifier::rlimit(40)]
pub proof fn indexed_root_of_group(n: Seq<char>, x: Seq<char>, t: Seq<char>)
    requires
        forall|j: int| 0 <= j < n.len() ==> #[trigger] n[j] != '{' && n[j] != '}' && n[j] != ']',
        balanced(x),
    ensures
        latex_math("\\sqrt["@ + n + "]{"@ + x + "}"@ + t) == "root("@ + latex_math(n) + seq![',']
            + latex_math(x) + seq![')'] + latex_math(t),
{
    reveal_strlit("\\sqrt[");
    reveal_strlit("]{");
    reveal_strlit("}");
    reveal_strlit("sqrt");
    let a = "\\sqrt["@ + n + "]{"@ + x + "}"@;
    let s = a + t;
    let f = backslashes(s) + 1;
    let ln = n.len() as int;
    let lx = x.len() as int;
    assert(s.subrange(1, 5) == "sqrt"@);
    assert(s[5] == '[');
    assert(forall|m: int| 0 <= m < 4 ==> is_letter(#[trigger] "sqrt"@[m]));
    lemma_read_name(s, 1, "sqrt"@, false, f, 0);
    assert("sqrt"@.take(0) == Seq::<char>::empty());
    assert(s[0] == '\\');
    lemma_symbol_keys("sqrt"@);
    assert(s.subrange(6, 6 + ln) == n);
    assert(s[6 + ln] == ']');
    assert forall|j: int| 6 <= j < 6 + ln implies #[trigger] s[j] != ']' && s[j] != '{' && s[j]
        != '}' by {
        assert(s[j] == n[j - 6]);
    }
    lemma_collect_plain(s, 6, ']', 6 + ln, f);
    lemma_part_backslashes(s, 6, 6 + ln);
    math_budget_is_enough(n, (f - 1) as nat);
    assert(s.subrange(8 + ln, 8 + ln + lx) == x);
    assert(s[7 + ln] == '{');
    assert(s[8 + ln + lx] == '}');
    lemma_part_backslashes(s, 8 + ln, 8 + ln + lx);
    lemma_group_braced(s, 7 + ln, 7 + ln, x, f);
    reveal_strlit("frac");
    assert("sqrt"@ != "frac"@) by {
        assert("sqrt"@[0] != "frac"@[0]);
    }
    assert(content(s, 6, ']', f) == (latex_math(n), 7 + ln));
    assert(command(s, 5, "sqrt"@, f) == ("root("@ + latex_math(n) + seq![','] + latex_math(x)
        + seq![')'], 9 + ln + lx));
    assert(s.subrange(a.len() as int, s.len() as int) == t);
    lemma_part_backslashes(s, a.len() as int, s.len() as int);
    lemma_tail(a, t, f);
}

/// An argument that is a balanced brace group after white space is
/// translated as a whole, and reading moves past its closing brace.
pub proof fn braced_argument_is_translated(s: Seq<char>, i: int, w: Seq<char>, x: Seq<char>)
    requires
        0 <= i,
        i + w.len() + x.len() + 2 <= s.len(),
        s.subrange(i, i + w.len() + x.len() + 2) == w + seq!['{'] + x + seq!['}'],
        forall|j: int| 0 <= j < w.len() ==> is_white(#[trigger] w[j]),
        balanced(x),
    ensures
        math_group(s, i) == (latex_math(x), i + w.len() + x.len() + 2),
{
    let k = i + w.len();
    let lx = x.len() as int;
    let part = s.subrange(i, i + w.len() + x.len() + 2);
    assert forall|j: int| i <= j < k implies is_white(#[trigger] s[j]) by {
        assert(s[j] == part[j - i]);
        assert(part[j - i] == w[j - i]);
    }
    assert(s[k] == part[k - i]);
    assert(s[k + 1 + lx] == part[k + 1 + lx - i]);
    assert(s.subrange(k + 1, k + 1 + lx) == x) by {
        assert forall|j: int| 0 <= j < lx implies s.subrange(k + 1, k + 1 + lx)[j] == x[j] by {
            assert(s[k + 1 + j] == part[k + 1 + j - i]);
        }
    }
    lemma_part_backslashes(s, k + 1, k + 1 + lx);
    lemma_group_braced(s, i, k, x, backslashes(s) + 2);
}

/// Text without braces is read up to the first terminator, which is consumed,
/// or to the end, and translated.
pub proof fn brace_free_content_is_translated(s: Seq<char>, i: int, term: char, p: int)
    requires
        0 <= i <= p <= s.len(),
        forall|j: int| i <= j < p ==> #[trigger] s[j] != term,
        forall|j: int| i <= j < s.len() ==> #[trigger] s[j] != '{' && s[j] != '}',
        p < s.len() ==> s[p] == term,
    ensures
        math_content(s, i, term) == (latex_math(s.subrange(i, p)), if p < s.len() {
            p + 1
        } else {
            p
        }),
{
    let f = backslashes(s) + 2;
    lemma_collect_plain(s, i, term, p, f);
    lemma_part_backslashes(s, i, p);
    math_budget_is_enough(s.subrange(i, p), (f - 1) as nat);
}

/// The names of the symbol table for integrals, sums, products, infinity and pi, letter by letter.
proof fn letters_big_operator_commands()
    ensures
        "int"@.len() == 3 && "int"@[0] == 'i' && "int"@[1] == 'n' && "int"@[2] == 't',
        "iint"@.len() == 4 && "iint"@[0] == 'i' && "iint"@[1] == 'i' && "iint"@[2] == 'n' && "iint"@[3] == 't',
        "iiint"@.len() == 5 && "iiint"@[0] == 'i' && "iiint"@[1] == 'i' && "iiint"@[2] == 'i' && "iiint"@[3] == 'n' && "iiint"@[4] == 't',
        "oint"@.len() == 4 && "oint"@[0] == 'o' && "oint"@[1] == 'i' && "oint"@[2] == 'n' && "oint"@[3] == 't',
        "infty"@.len() == 5 && "infty"@[0] == 'i' && "infty"@[1] == 'n' && "infty"@[2] == 'f' && "infty"@[3] == 't' && "infty"@[4] == 'y',
        "sum"@.len() == 3 && "sum"@[0] == 's' && "sum"@[1] == 'u' && "sum"@[2] == 'm',
        "prod"@.len() == 4 && "prod"@[0] == 'p' && "prod"@[1] == 'r' && "prod"@[2] == 'o' && "prod"@[3] == 'd',
        "coprod"@.len() == 6 && "coprod"@[0] == 'c' && "coprod"@[1] == 'o' && "coprod"@[2] == 'p' && "coprod"@[3] == 'r' && "coprod"@[4] == 'o' && "coprod"@[5] == 'd',
        "pi"@.len() == 2 && "pi"@[0] == 'p' && "pi"@[1] == 'i',
{
    reveal_strlit("int");
    reveal_strlit("iint");
    reveal_strlit("iiint");
    reveal_strlit("oint");
    reveal_strlit("infty");
    reveal_strlit("sum");
    reveal_strlit("prod");
    reveal_strlit("coprod");
    reveal_strlit("pi");
}

/// The names of the symbol table for lowercase Greek letters from alpha to mu, letter by letter.
proof fn letters_greek_letter_commands_alpha_to_mu()
    ensures
        "alpha"@.len() == 5 && "alpha"@[0] == 'a' && "alpha"@[1] == 'l' && "alpha"@[2] == 'p' && "alpha"@[3] == 'h' && "alpha"@[4] == 'a',
        "beta"@.len() == 4 && "beta"@[0] == 'b' && "beta"@[1] == 'e' && "beta"@[2] == 't' && "beta"@[3] == 'a',
        "gamma"@.len() == 5 && "gamma"@[0] == 'g' && "gamma"@[1] == 'a' && "gamma"@[2] == 'm' && "gamma"@[3] == 'm' && "gamma"@[4] == 'a',
        "delta"@.len() == 5 && "delta"@[0] == 'd' && "delta"@[1] == 'e' && "delta"@[2] == 'l' && "delta"@[3] == 't' && "delta"@[4] == 'a',
        "epsilon"@.len() == 7 && "epsilon"@[0] == 'e' && "epsilon"@[1] == 'p' && "epsilon"@[2] == 's' && "epsilon"@[3] == 'i' && "epsilon"@[4] == 'l' && "epsilon"@[5] == 'o' && "epsilon"@[6] == 'n',
        "varepsilon"@.len() == 10 && "varepsilon"@[0] == 'v' && "varepsilon"@[1] == 'a' && "varepsilon"@[2] == 'r' && "varepsilon"@[3] == 'e' && "varepsilon"@[4] == 'p' && "varepsilon"@[5] == 's' && "varepsilon"@[6] == 'i' && "varepsilon"@[7] == 'l' && "varepsilon"@[8] == 'o' && "varepsilon"@[9] == 'n',
        "zeta"@.len() == 4 && "zeta"@[0] == 'z' && "zeta"@[1] == 'e' && "zeta"@[2] == 't' && "zeta"@[3] == 'a',
        "eta"@.len() == 3 && "eta"@[0] == 'e' && "eta"@[1] == 't' && "eta"@[2] == 'a',
        "theta"@.len() == 5 && "theta"@[0] == 't' && "theta"@[1] == 'h' && "theta"@[2] == 'e' && "theta"@[3] == 't' && "theta"@[4] == 'a',
        "vartheta"@.len() == 8 && "vartheta"@[0] == 'v' && "vartheta"@[1] == 'a' && "vartheta"@[2] == 'r' && "vartheta"@[3] == 't' && "vartheta"@[4] == 'h' && "vartheta"@[5] == 'e' && "vartheta"@[6] == 't' && "vartheta"@[7] == 'a',
        "iota"@.len() == 4 && "iota"@[0] == 'i' && "iota"@[1] == 'o' && "iota"@[2] == 't' && "iota"@[3] == 'a',
        "kappa"@.len() == 5 && "kappa"@[0] == 'k' && "kappa"@[1] == 'a' && "kappa"@[2] == 'p' && "kappa"@[3] == 'p' && "kappa"@[4] == 'a',
        "lambda"@.len() == 6 && "lambda"@[0] == 'l' && "lambda"@[1] == 'a' && "lambda"@[2] == 'm' && "lambda"@[3] == 'b' && "lambda"@[4] == 'd' && "lambda"@[5] == 'a',
        "mu"@.len() == 2 && "mu"@[0] == 'm' && "mu"@[1] == 'u',
{
    reveal_strlit("alpha");
    reveal_strlit("beta");
    reveal_strlit("gamma");
    reveal_strlit("delta");
    reveal_strlit("epsilon");
    reveal_strlit("varepsilon");
    reveal_strlit("zeta");
    reveal_strlit("eta");
    reveal_strlit("theta");
    reveal_strlit("vartheta");
    reveal_strlit("iota");
    reveal_strlit("kappa");
    reveal_strlit("lambda");
    reveal_strlit("mu");
}

/// The names of the symbol table for lowercase Greek letters from nu to omega, letter by letter.
proof fn letters_greek_letter_commands_nu_to_omega()
    ensures
        "nu"@.len() == 2 && "nu"@[0] == 'n' && "nu"@[1] == 'u',
        "xi"@.len() == 2 && "xi"@[0] == 'x' && "xi"@[1] == 'i',
        "rho"@.len() == 3 && "rho"@[0] == 'r' && "rho"@[1] == 'h' && "rho"@[2] == 'o',
        "varrho"@.len() == 6 && "varrho"@[0] == 'v' && "varrho"@[1] == 'a' && "varrho"@[2] == 'r' && "varrho"@[3] == 'r' && "varrho"@[4] == 'h' && "varrho"@[5] == 'o',
        "sigma"@.len() == 5 && "sigma"@[0] == 's' && "sigma"@[1] == 'i' && "sigma"@[2] == 'g' && "sigma"@[3] == 'm' && "sigma"@[4] == 'a',
        "varsigma"@.len() == 8 && "varsigma"@[0] == 'v' && "varsigma"@[1] == 'a' && "varsigma"@[2] == 'r' && "varsigma"@[3] == 's' && "varsigma"@[4] == 'i' && "varsigma"@[5] == 'g' && "varsigma"@[6] == 'm' && "varsigma"@[7] == 'a',
        "tau"@.len() == 3 && "tau"@[0] == 't' && "tau"@[1] == 'a' && "tau"@[2] == 'u',
        "upsilon"@.len() == 7 && "upsilon"@[0] == 'u' && "upsilon"@[1] == 'p' && "upsilon"@[2] == 's' && "upsilon"@[3] == 'i' && "upsilon"@[4] == 'l' && "upsilon"@[5] == 'o' && "upsilon"@[6] == 'n',
        "phi"@.len() == 3 && "phi"@[0] == 'p' && "phi"@[1] == 'h' && "phi"@[2] == 'i',
        "varphi"@.len() == 6 && "varphi"@[0] == 'v' && "varphi"@[1] == 'a' && "varphi"@[2] == 'r' && "varphi"@[3] == 'p' && "varphi"@[4] == 'h' && "varphi"@[5] == 'i',
        "chi"@.len() == 3 && "chi"@[0] == 'c' && "chi"@[1] == 'h' && "chi"@[2] == 'i',
        "psi"@.len() == 3 && "psi"@[0] == 'p' && "psi"@[1] == 's' && "psi"@[2] == 'i',
        "omega"@.len() == 5 && "omega"@[0] == 'o' && "omega"@[1] == 'm' && "omega"@[2] == 'e' && "omega"@[3] == 'g' && "omega"@[4] == 'a',
{
    reveal_strlit("nu");
    reveal_strlit("xi");
    reveal_strlit("rho");
    reveal_strlit("varrho");
    reveal_strlit("sigma");
    reveal_strlit("varsigma");
    reveal_strlit("tau");
    reveal_strlit("upsilon");
    reveal_strlit("phi");
    reveal_strlit("varphi");
    reveal_strlit("chi");
    reveal_strlit("psi");
    reveal_strlit("omega");
}

/// The names of the symbol table for capital Greek letters, letter by letter.
proof fn letters_capital_greek_commands()
    ensures
        "Gamma"@.len() == 5 && "Gamma"@[0] == 'G' && "Gamma"@[1] == 'a' && "Gamma"@[2] == 'm' && "Gamma"@[3] == 'm' && "Gamma"@[4] == 'a',
        "Delta"@.len() == 5 && "Delta"@[0] == 'D' && "Delta"@[1] == 'e' && "Delta"@[2] == 'l' && "Delta"@[3] == 't' && "Delta"@[4] == 'a',
        "Theta"@.len() == 5 && "Theta"@[0] == 'T' && "Theta"@[1] == 'h' && "Theta"@[2] == 'e' && "Theta"@[3] == 't' && "Theta"@[4] == 'a',
        "Lambda"@.len() == 6 && "Lambda"@[0] == 'L' && "Lambda"@[1] == 'a' && "Lambda"@[2] == 'm' && "Lambda"@[3] == 'b' && "Lambda"@[4] == 'd' && "Lambda"@[5] == 'a',
        "Xi"@.len() == 2 && "Xi"@[0] == 'X' && "Xi"@[1] == 'i',
        "Pi"@.len() == 2 && "Pi"@[0] == 'P' && "Pi"@[1] == 'i',
        "Sigma"@.len() == 5 && "Sigma"@[0] == 'S' && "Sigma"@[1] == 'i' && "Sigma"@[2] == 'g' && "Sigma"@[3] == 'm' && "Sigma"@[4] == 'a',
        "Phi"@.len() == 3 && "Phi"@[0] == 'P' && "Phi"@[1] == 'h' && "Phi"@[2] == 'i',
        "Psi"@.len() == 3 && "Psi"@[0] == 'P' && "Psi"@[1] == 's' && "Psi"@[2] == 'i',
        "Omega"@.len() == 5 && "Omega"@[0] == 'O' && "Omega"@[1] == 'm' && "Omega"@[2] == 'e' && "Omega"@[3] == 'g' && "Omega"@[4] == 'a',
{
    reveal_strlit("Gamma");
    reveal_strlit("Delta");
    reveal_strlit("Theta");
    reveal_strlit("Lambda");
    reveal_strlit("Xi");
    reveal_strlit("Pi");
    reveal_strlit("Sigma");
    reveal_strlit("Phi");
    reveal_strlit("Psi");
    reveal_strlit("Omega");
}

/// The names of the symbol table for arrows and implications, letter by letter.
proof fn letters_arrow_commands()
    ensures
        "to"@.len() == 2 && "to"@[0] == 't' && "to"@[1] == 'o',
        "rightarrow"@.len() == 10 && "rightarrow"@[0] == 'r' && "rightarrow"@[1] == 'i' && "rightarrow"@[2] == 'g' && "rightarrow"@[3] == 'h' && "rightarrow"@[4] == 't' && "rightarrow"@[5] == 'a' && "rightarrow"@[6] == 'r' && "rightarrow"@[7] == 'r' && "rightarrow"@[8] == 'o' && "rightarrow"@[9] == 'w',
        "Rightarrow"@.len() == 10 && "Rightarrow"@[0] == 'R' && "Rightarrow"@[1] == 'i' && "Rightarrow"@[2] == 'g' && "Rightarrow"@[3] == 'h' && "Rightarrow"@[4] == 't' && "Rightarrow"@[5] == 'a' && "Rightarrow"@[6] == 'r' && "Rightarrow"@[7] == 'r' && "Rightarrow"@[8] == 'o' && "Rightarrow"@[9] == 'w',
        "leftarrow"@.len() == 9 && "leftarrow"@[0] == 'l' && "leftarrow"@[1] == 'e' && "leftarrow"@[2] == 'f' && "leftarrow"@[3] == 't' && "leftarrow"@[4] == 'a' && "leftarrow"@[5] == 'r' && "leftarrow"@[6] == 'r' && "leftarrow"@[7] == 'o' && "leftarrow"@[8] == 'w',
        "Leftarrow"@.len() == 9 && "Leftarrow"@[0] == 'L' && "Leftarrow"@[1] == 'e' && "Leftarrow"@[2] == 'f' && "Leftarrow"@[3] == 't' && "Leftarrow"@[4] == 'a' && "Leftarrow"@[5] == 'r' && "Leftarrow"@[6] == 'r' && "Leftarrow"@[7] == 'o' && "Leftarrow"@[8] == 'w',
        "leftrightarrow"@.len() == 14 && "leftrightarrow"@[0] == 'l' && "leftrightarrow"@[1] == 'e' && "leftrightarrow"@[2] == 'f' && "leftrightarrow"@[3] == 't' && "leftrightarrow"@[4] == 'r' && "leftrightarrow"@[5] == 'i' && "leftrightarrow"@[6] == 'g' && "leftrightarrow"@[7] == 'h' && "leftrightarrow"@[8] == 't' && "leftrightarrow"@[9] == 'a' && "leftrightarrow"@[10] == 'r' && "leftrightarrow"@[11] == 'r' && "leftrightarrow"@[12] == 'o' && "leftrightarrow"@[13] == 'w',
        "mapsto"@.len() == 6 && "mapsto"@[0] == 'm' && "mapsto"@[1] == 'a' && "mapsto"@[2] == 'p' && "mapsto"@[3] == 's' && "mapsto"@[4] == 't' && "mapsto"@[5] == 'o',
        "implies"@.len() == 7 && "implies"@[0] == 'i' && "implies"@[1] == 'm' && "implies"@[2] == 'p' && "implies"@[3] == 'l' && "implies"@[4] == 'i' && "implies"@[5] == 'e' && "implies"@[6] == 's',
        "iff"@.len() == 3 && "iff"@[0] == 'i' && "iff"@[1] == 'f' && "iff"@[2] == 'f',
{
    reveal_strlit("to");
    reveal_strlit("rightarrow");
    reveal_strlit("Rightarrow");
    reveal_strlit("leftarrow");
    reveal_strlit("Leftarrow");
    reveal_strlit("leftrightarrow");
    reveal_strlit("mapsto");
    reveal_strlit("implies");
    reveal_strlit("iff");
}

/// The names of the symbol table for derivatives, quantifiers and set notation, letter by letter.
proof fn letters_calculus_logic_and_set_commands()
    ensures
        "partial"@.len() == 7 && "partial"@[0] == 'p' && "partial"@[1] == 'a' && "partial"@[2] == 'r' && "partial"@[3] == 't' && "partial"@[4] == 'i' && "partial"@[5] == 'a' && "partial"@[6] == 'l',
        "nabla"@.len() == 5 && "nabla"@[0] == 'n' && "nabla"@[1] == 'a' && "nabla"@[2] == 'b' && "nabla"@[3] == 'l' && "nabla"@[4] == 'a',
        "forall"@.len() == 6 && "forall"@[0] == 'f' && "forall"@[1] == 'o' && "forall"@[2] == 'r' && "forall"@[3] == 'a' && "forall"@[4] == 'l' && "forall"@[5] == 'l',
        "exists"@.len() == 6 && "exists"@[0] == 'e' && "exists"@[1] == 'x' && "exists"@[2] == 'i' && "exists"@[3] == 's' && "exists"@[4] == 't' && "exists"@[5] == 's',
        "nexists"@.len() == 7 && "nexists"@[0] == 'n' && "nexists"@[1] == 'e' && "nexists"@[2] == 'x' && "nexists"@[3] == 'i' && "nexists"@[4] == 's' && "nexists"@[5] == 't' && "nexists"@[6] == 's',
        "in"@.len() == 2 && "in"@[0] == 'i' && "in"@[1] == 'n',
        "notin"@.len() == 5 && "notin"@[0] == 'n' && "notin"@[1] == 'o' && "notin"@[2] == 't' && "notin"@[3] == 'i' && "notin"@[4] == 'n',
        "subset"@.len() == 6 && "subset"@[0] == 's' && "subset"@[1] == 'u' && "subset"@[2] == 'b' && "subset"@[3] == 's' && "subset"@[4] == 'e' && "subset"@[5] == 't',
        "subseteq"@.len() == 8 && "subseteq"@[0] == 's' && "subseteq"@[1] == 'u' && "subseteq"@[2] == 'b' && "subseteq"@[3] == 's' && "subseteq"@[4] == 'e' && "subseteq"@[5] == 't' && "subseteq"@[6] == 'e' && "subseteq"@[7] == 'q',
        "supset"@.len() == 6 && "supset"@[0] == 's' && "supset"@[1] == 'u' && "supset"@[2] == 'p' && "supset"@[3] == 's' && "supset"@[4] == 'e' && "supset"@[5] == 't',
        "supseteq"@.len() == 8 && "supseteq"@[0] == 's' && "supseteq"@[1] == 'u' && "supseteq"@[2] == 'p' && "supseteq"@[3] == 's' && "supseteq"@[4] == 'e' && "supseteq"@[5] == 't' && "supseteq"@[6] == 'e' && "supseteq"@[7] == 'q',
        "cup"@.len() == 3 && "cup"@[0] == 'c' && "cup"@[1] == 'u' && "cup"@[2] == 'p',
        "cap"@.len() == 3 && "cap"@[0] == 'c' && "cap"@[1] == 'a' && "cap"@[2] == 'p',
        "emptyset"@.len() == 8 && "emptyset"@[0] == 'e' && "emptyset"@[1] == 'm' && "emptyset"@[2] == 'p' && "emptyset"@[3] == 't' && "emptyset"@[4] == 'y' && "emptyset"@[5] == 's' && "emptyset"@[6] == 'e' && "emptyset"@[7] == 't',
        "varnothing"@.len() == 10 && "varnothing"@[0] == 'v' && "varnothing"@[1] == 'a' && "varnothing"@[2] == 'r' && "varnothing"@[3] == 'n' && "varnothing"@[4] == 'o' && "varnothing"@[5] == 't' && "varnothing"@[6] == 'h' && "varnothing"@[7] == 'i' && "varnothing"@[8] == 'n' && "varnothing"@[9] == 'g',
{
    reveal_strlit("partial");
    reveal_strlit("nabla");
    reveal_strlit("forall");
    reveal_strlit("exists");
    reveal_strlit("nexists");
    reveal_strlit("in");
    reveal_strlit("notin");
    reveal_strlit("subset");
    reveal_strlit("subseteq");
    reveal_strlit("supset");
    reveal_strlit("supseteq");
    reveal_strlit("cup");
    reveal_strlit("cap");
    reveal_strlit("emptyset");
    reveal_strlit("varnothing");
}

/// The names of the symbol table for trigonometric and hyperbolic functions, letter by letter.
proof fn letters_trigonometric_commands()
    ensures
        "sin"@.len() == 3 && "sin"@[0] == 's' && "sin"@[1] == 'i' && "sin"@[2] == 'n',
        "cos"@.len() == 3 && "cos"@[0] == 'c' && "cos"@[1] == 'o' && "cos"@[2] == 's',
        "tan"@.len() == 3 && "tan"@[0] == 't' && "tan"@[1] == 'a' && "tan"@[2] == 'n',
        "csc"@.len() == 3 && "csc"@[0] == 'c' && "csc"@[1] == 's' && "csc"@[2] == 'c',
        "sec"@.len() == 3 && "sec"@[0] == 's' && "sec"@[1] == 'e' && "sec"@[2] == 'c',
        "cot"@.len() == 3 && "cot"@[0] == 'c' && "cot"@[1] == 'o' && "cot"@[2] == 't',
        "sinh"@.len() == 4 && "sinh"@[0] == 's' && "sinh"@[1] == 'i' && "sinh"@[2] == 'n' && "sinh"@[3] == 'h',
        "cosh"@.len() == 4 && "cosh"@[0] == 'c' && "cosh"@[1] == 'o' && "cosh"@[2] == 's' && "cosh"@[3] == 'h',
        "tanh"@.len() == 4 && "tanh"@[0] == 't' && "tanh"@[1] == 'a' && "tanh"@[2] == 'n' && "tanh"@[3] == 'h',
        "arcsin"@.len() == 6 && "arcsin"@[0] == 'a' && "arcsin"@[1] == 'r' && "arcsin"@[2] == 'c' && "arcsin"@[3] == 's' && "arcsin"@[4] == 'i' && "arcsin"@[5] == 'n',
        "arccos"@.len() == 6 && "arccos"@[0] == 'a' && "arccos"@[1] == 'r' && "arccos"@[2] == 'c' && "arccos"@[3] == 'c' && "arccos"@[4] == 'o' && "arccos"@[5] == 's',
        "arctan"@.len() == 6 && "arctan"@[0] == 'a' && "arctan"@[1] == 'r' && "arctan"@[2] == 'c' && "arctan"@[3] == 't' && "arctan"@[4] == 'a' && "arctan"@[5] == 'n',
{
    reveal_strlit("sin");
    reveal_strlit("cos");
    reveal_strlit("tan");
    reveal_strlit("csc");
    reveal_strlit("sec");
    reveal_strlit("cot");
    reveal_strlit("sinh");
    reveal_strlit("cosh");
    reveal_strlit("tanh");
    reveal_strlit("arcsin");
    reveal_strlit("arccos");
    reveal_strlit("arctan");
}

/// The names of the symbol table for logarithms, limits and other named operators, letter by letter.
proof fn letters_function_name_commands()
    ensures
        "log"@.len() == 3 && "log"@[0] == 'l' && "log"@[1] == 'o' && "log"@[2] == 'g',
        "ln"@.len() == 2 && "ln"@[0] == 'l' && "ln"@[1] == 'n',
        "lg"@.len() == 2 && "lg"@[0] == 'l' && "lg"@[1] == 'g',
        "lim"@.len() == 3 && "lim"@[0] == 'l' && "lim"@[1] == 'i' && "lim"@[2] == 'm',
        "det"@.len() == 3 && "det"@[0] == 'd' && "det"@[1] == 'e' && "det"@[2] == 't',
        "gcd"@.len() == 3 && "gcd"@[0] == 'g' && "gcd"@[1] == 'c' && "gcd"@[2] == 'd',
        "lcm"@.len() == 3 && "lcm"@[0] == 'l' && "lcm"@[1] == 'c' && "lcm"@[2] == 'm',
        "max"@.len() == 3 && "max"@[0] == 'm' && "max"@[1] == 'a' && "max"@[2] == 'x',
        "min"@.len() == 3 && "min"@[0] == 'm' && "min"@[1] == 'i' && "min"@[2] == 'n',
        "sup"@.len() == 3 && "sup"@[0] == 's' && "sup"@[1] == 'u' && "sup"@[2] == 'p',
        "inf"@.len() == 3 && "inf"@[0] == 'i' && "inf"@[1] == 'n' && "inf"@[2] == 'f',
        "arg"@.len() == 3 && "arg"@[0] == 'a' && "arg"@[1] == 'r' && "arg"@[2] == 'g',
        "deg"@.len() == 3 && "deg"@[0] == 'd' && "deg"@[1] == 'e' && "deg"@[2] == 'g',
        "dim"@.len() == 3 && "dim"@[0] == 'd' && "dim"@[1] == 'i' && "dim"@[2] == 'm',
        "hom"@.len() == 3 && "hom"@[0] == 'h' && "hom"@[1] == 'o' && "hom"@[2] == 'm',
        "ker"@.len() == 3 && "ker"@[0] == 'k' && "ker"@[1] == 'e' && "ker"@[2] == 'r',
        "Pr"@.len() == 2 && "Pr"@[0] == 'P' && "Pr"@[1] == 'r',
        "exp"@.len() == 3 && "exp"@[0] == 'e' && "exp"@[1] == 'x' && "exp"@[2] == 'p',
{
    reveal_strlit("log");
    reveal_strlit("ln");
    reveal_strlit("lg");
    reveal_strlit("lim");
    reveal_strlit("det");
    reveal_strlit("gcd");
    reveal_strlit("lcm");
    reveal_strlit("max");
    reveal_strlit("min");
    reveal_strlit("sup");
    reveal_strlit("inf");
    reveal_strlit("arg");
    reveal_strlit("deg");
    reveal_strlit("dim");
    reveal_strlit("hom");
    reveal_strlit("ker");
    reveal_strlit("Pr");
    reveal_strlit("exp");
}

/// The names of the symbol table for relations and arithmetic operators, letter by letter.
proof fn letters_relation_and_arithmetic_commands()
    ensures
        "approx"@.len() == 6 && "approx"@[0] == 'a' && "approx"@[1] == 'p' && "approx"@[2] == 'p' && "approx"@[3] == 'r' && "approx"@[4] == 'o' && "approx"@[5] == 'x',
        "equiv"@.len() == 5 && "equiv"@[0] == 'e' && "equiv"@[1] == 'q' && "equiv"@[2] == 'u' && "equiv"@[3] == 'i' && "equiv"@[4] == 'v',
        "ne"@.len() == 2 && "ne"@[0] == 'n' && "ne"@[1] == 'e',
        "neq"@.len() == 3 && "neq"@[0] == 'n' && "neq"@[1] == 'e' && "neq"@[2] == 'q',
        "ge"@.len() == 2 && "ge"@[0] == 'g' && "ge"@[1] == 'e',
        "geq"@.len() == 3 && "geq"@[0] == 'g' && "geq"@[1] == 'e' && "geq"@[2] == 'q',
        "le"@.len() == 2 && "le"@[0] == 'l' && "le"@[1] == 'e',
        "leq"@.len() == 3 && "leq"@[0] == 'l' && "leq"@[1] == 'e' && "leq"@[2] == 'q',
        "times"@.len() == 5 && "times"@[0] == 't' && "times"@[1] == 'i' && "times"@[2] == 'm' && "times"@[3] == 'e' && "times"@[4] == 's',
        "div"@.len() == 3 && "div"@[0] == 'd' && "div"@[1] == 'i' && "div"@[2] == 'v',
        "pm"@.len() == 2 && "pm"@[0] == 'p' && "pm"@[1] == 'm',
        "mp"@.len() == 2 && "mp"@[0] == 'm' && "mp"@[1] == 'p',
{
    reveal_strlit("approx");
    reveal_strlit("equiv");
    reveal_strlit("ne");
    reveal_strlit("neq");
    reveal_strlit("ge");
    reveal_strlit("geq");
    reveal_strlit("le");
    reveal_strlit("leq");
    reveal_strlit("times");
    reveal_strlit("div");
    reveal_strlit("pm");
    reveal_strlit("mp");
}

/// The names of the symbol table for dots, binary operators and set difference, letter by letter.
proof fn letters_dot_and_binary_operator_commands()
    ensures
        "cdot"@.len() == 4 && "cdot"@[0] == 'c' && "cdot"@[1] == 'd' && "cdot"@[2] == 'o' && "cdot"@[3] == 't',
        "cdots"@.len() == 5 && "cdots"@[0] == 'c' && "cdots"@[1] == 'd' && "cdots"@[2] == 'o' && "cdots"@[3] == 't' && "cdots"@[4] == 's',
        "dots"@.len() == 4 && "dots"@[0] == 'd' && "dots"@[1] == 'o' && "dots"@[2] == 't' && "dots"@[3] == 's',
        "ldots"@.len() == 5 && "ldots"@[0] == 'l' && "ldots"@[1] == 'd' && "ldots"@[2] == 'o' && "ldots"@[3] == 't' && "ldots"@[4] == 's',
        "circ"@.len() == 4 && "circ"@[0] == 'c' && "circ"@[1] == 'i' && "circ"@[2] == 'r' && "circ"@[3] == 'c',
        "bullet"@.len() == 6 && "bullet"@[0] == 'b' && "bullet"@[1] == 'u' && "bullet"@[2] == 'l' && "bullet"@[3] == 'l' && "bullet"@[4] == 'e' && "bullet"@[5] == 't',
        "star"@.len() == 4 && "star"@[0] == 's' && "star"@[1] == 't' && "star"@[2] == 'a' && "star"@[3] == 'r',
        "ast"@.len() == 3 && "ast"@[0] == 'a' && "ast"@[1] == 's' && "ast"@[2] == 't',
        "dagger"@.len() == 6 && "dagger"@[0] == 'd' && "dagger"@[1] == 'a' && "dagger"@[2] == 'g' && "dagger"@[3] == 'g' && "dagger"@[4] == 'e' && "dagger"@[5] == 'r',
        "ddagger"@.len() == 7 && "ddagger"@[0] == 'd' && "ddagger"@[1] == 'd' && "ddagger"@[2] == 'a' && "ddagger"@[3] == 'g' && "ddagger"@[4] == 'g' && "ddagger"@[5] == 'e' && "ddagger"@[6] == 'r',
        "setminus"@.len() == 8 && "setminus"@[0] == 's' && "setminus"@[1] == 'e' && "setminus"@[2] == 't' && "setminus"@[3] == 'm' && "setminus"@[4] == 'i' && "setminus"@[5] == 'n' && "setminus"@[6] == 'u' && "setminus"@[7] == 's',
{
    reveal_strlit("cdot");
    reveal_strlit("cdots");
    reveal_strlit("dots");
    reveal_strlit("ldots");
    reveal_strlit("circ");
    reveal_strlit("bullet");
    reveal_strlit("star");
    reveal_strlit("ast");
    reveal_strlit("dagger");
    reveal_strlit("ddagger");
    reveal_strlit("setminus");
}

/// The names of the symbol table for similarity relations and letterlike symbols, letter by letter.
proof fn letters_similarity_and_letterlike_commands()
    ensures
        "sim"@.len() == 3 && "sim"@[0] == 's' && "sim"@[1] == 'i' && "sim"@[2] == 'm',
        "simeq"@.len() == 5 && "simeq"@[0] == 's' && "simeq"@[1] == 'i' && "simeq"@[2] == 'm' && "simeq"@[3] == 'e' && "simeq"@[4] == 'q',
        "cong"@.len() == 4 && "cong"@[0] == 'c' && "cong"@[1] == 'o' && "cong"@[2] == 'n' && "cong"@[3] == 'g',
        "propto"@.len() == 6 && "propto"@[0] == 'p' && "propto"@[1] == 'r' && "propto"@[2] == 'o' && "propto"@[3] == 'p' && "propto"@[4] == 't' && "propto"@[5] == 'o',
        "perp"@.len() == 4 && "perp"@[0] == 'p' && "perp"@[1] == 'e' && "perp"@[2] == 'r' && "perp"@[3] == 'p',
        "parallel"@.len() == 8 && "parallel"@[0] == 'p' && "parallel"@[1] == 'a' && "parallel"@[2] == 'r' && "parallel"@[3] == 'a' && "parallel"@[4] == 'l' && "parallel"@[5] == 'l' && "parallel"@[6] == 'e' && "parallel"@[7] == 'l',
        "mid"@.len() == 3 && "mid"@[0] == 'm' && "mid"@[1] == 'i' && "mid"@[2] == 'd',
        "ell"@.len() == 3 && "ell"@[0] == 'e' && "ell"@[1] == 'l' && "ell"@[2] == 'l',
        "hbar"@.len() == 4 && "hbar"@[0] == 'h' && "hbar"@[1] == 'b' && "hbar"@[2] == 'a' && "hbar"@[3] == 'r',
        "hslash"@.len() == 6 && "hslash"@[0] == 'h' && "hslash"@[1] == 's' && "hslash"@[2] == 'l' && "hslash"@[3] == 'a' && "hslash"@[4] == 's' && "hslash"@[5] == 'h',
        "Re"@.len() == 2 && "Re"@[0] == 'R' && "Re"@[1] == 'e',
        "Im"@.len() == 2 && "Im"@[0] == 'I' && "Im"@[1] == 'm',
        "aleph"@.len() == 5 && "aleph"@[0] == 'a' && "aleph"@[1] == 'l' && "aleph"@[2] == 'e' && "aleph"@[3] == 'p' && "aleph"@[4] == 'h',
{
    reveal_strlit("sim");
    reveal_strlit("simeq");
    reveal_strlit("cong");
    reveal_strlit("propto");
    reveal_strlit("perp");
    reveal_strlit("parallel");
    reveal_strlit("mid");
    reveal_strlit("ell");
    reveal_strlit("hbar");
    reveal_strlit("hslash");
    reveal_strlit("Re");
    reveal_strlit("Im");
    reveal_strlit("aleph");
}

/// The names of the symbol table for primes, logic and circled operators, letter by letter.
proof fn letters_logic_and_circled_commands()
    ensures
        "prime"@.len() == 5 && "prime"@[0] == 'p' && "prime"@[1] == 'r' && "prime"@[2] == 'i' && "prime"@[3] == 'm' && "prime"@[4] == 'e',
        "neg"@.len() == 3 && "neg"@[0] == 'n' && "neg"@[1] == 'e' && "neg"@[2] == 'g',
        "lnot"@.len() == 4 && "lnot"@[0] == 'l' && "lnot"@[1] == 'n' && "lnot"@[2] == 'o' && "lnot"@[3] == 't',
        "wedge"@.len() == 5 && "wedge"@[0] == 'w' && "wedge"@[1] == 'e' && "wedge"@[2] == 'd' && "wedge"@[3] == 'g' && "wedge"@[4] == 'e',
        "land"@.len() == 4 && "land"@[0] == 'l' && "land"@[1] == 'a' && "land"@[2] == 'n' && "land"@[3] == 'd',
        "vee"@.len() == 3 && "vee"@[0] == 'v' && "vee"@[1] == 'e' && "vee"@[2] == 'e',
        "lor"@.len() == 3 && "lor"@[0] == 'l' && "lor"@[1] == 'o' && "lor"@[2] == 'r',
        "oplus"@.len() == 5 && "oplus"@[0] == 'o' && "oplus"@[1] == 'p' && "oplus"@[2] == 'l' && "oplus"@[3] == 'u' && "oplus"@[4] == 's',
        "ominus"@.len() == 6 && "ominus"@[0] == 'o' && "ominus"@[1] == 'm' && "ominus"@[2] == 'i' && "ominus"@[3] == 'n' && "ominus"@[4] == 'u' && "ominus"@[5] == 's',
        "otimes"@.len() == 6 && "otimes"@[0] == 'o' && "otimes"@[1] == 't' && "otimes"@[2] == 'i' && "otimes"@[3] == 'm' && "otimes"@[4] == 'e' && "otimes"@[5] == 's',
        "oslash"@.len() == 6 && "oslash"@[0] == 'o' && "oslash"@[1] == 's' && "oslash"@[2] == 'l' && "oslash"@[3] == 'a' && "oslash"@[4] == 's' && "oslash"@[5] == 'h',
        "odot"@.len() == 4 && "odot"@[0] == 'o' && "odot"@[1] == 'd' && "odot"@[2] == 'o' && "odot"@[3] == 't',
{
    reveal_strlit("prime");
    reveal_strlit("neg");
    reveal_strlit("lnot");
    reveal_strlit("wedge");
    reveal_strlit("land");
    reveal_strlit("vee");
    reveal_strlit("lor");
    reveal_strlit("oplus");
    reveal_strlit("ominus");
    reveal_strlit("otimes");
    reveal_strlit("oslash");
    reveal_strlit("odot");
}

/// The names of the symbol table for angles, roots, colons and bars, letter by letter.
proof fn letters_angle_and_delimiter_commands()
    ensures
        "angle"@.len() == 5 && "angle"@[0] == 'a' && "angle"@[1] == 'n' && "angle"@[2] == 'g' && "angle"@[3] == 'l' && "angle"@[4] == 'e',
        "measuredangle"@.len() == 13 && "measuredangle"@[0] == 'm' && "measuredangle"@[1] == 'e' && "measuredangle"@[2] == 'a' && "measuredangle"@[3] == 's' && "measuredangle"@[4] == 'u' && "measuredangle"@[5] == 'r' && "measuredangle"@[6] == 'e' && "measuredangle"@[7] == 'd' && "measuredangle"@[8] == 'a' && "measuredangle"@[9] == 'n' && "measuredangle"@[10] == 'g' && "measuredangle"@[11] == 'l' && "measuredangle"@[12] == 'e',
        "surd"@.len() == 4 && "surd"@[0] == 's' && "surd"@[1] == 'u' && "surd"@[2] == 'r' && "surd"@[3] == 'd',
        "colon"@.len() == 5 && "colon"@[0] == 'c' && "colon"@[1] == 'o' && "colon"@[2] == 'l' && "colon"@[3] == 'o' && "colon"@[4] == 'n',
        "vert"@.len() == 4 && "vert"@[0] == 'v' && "vert"@[1] == 'e' && "vert"@[2] == 'r' && "vert"@[3] == 't',
        "Vert"@.len() == 4 && "Vert"@[0] == 'V' && "Vert"@[1] == 'e' && "Vert"@[2] == 'r' && "Vert"@[3] == 't',
        "lvert"@.len() == 5 && "lvert"@[0] == 'l' && "lvert"@[1] == 'v' && "lvert"@[2] == 'e' && "lvert"@[3] == 'r' && "lvert"@[4] == 't',
        "rvert"@.len() == 5 && "rvert"@[0] == 'r' && "rvert"@[1] == 'v' && "rvert"@[2] == 'e' && "rvert"@[3] == 'r' && "rvert"@[4] == 't',
        "lVert"@.len() == 5 && "lVert"@[0] == 'l' && "lVert"@[1] == 'V' && "lVert"@[2] == 'e' && "lVert"@[3] == 'r' && "lVert"@[4] == 't',
        "rVert"@.len() == 5 && "rVert"@[0] == 'r' && "rVert"@[1] == 'V' && "rVert"@[2] == 'e' && "rVert"@[3] == 'r' && "rVert"@[4] == 't',
{
    reveal_strlit("angle");
    reveal_strlit("measuredangle");
    reveal_strlit("surd");
    reveal_strlit("colon");
    reveal_strlit("vert");
    reveal_strlit("Vert");
    reveal_strlit("lvert");
    reveal_strlit("rvert");
    reveal_strlit("lVert");
    reveal_strlit("rVert");
}

/// The commands for integrals, sums, products, infinity and pi, each standing alone, become their Typst
/// notation.
pub proof fn big_operator_commands()
    ensures
        latex_math(seq!['\\'] + "int"@) == "integral"@,
        latex_math(seq!['\\'] + "iint"@) == "integral.double"@,
        latex_math(seq!['\\'] + "iiint"@) == "integral.triple"@,
        latex_math(seq!['\\'] + "oint"@) == "integral.contour"@,
        latex_math(seq!['\\'] + "infty"@) == "oo"@,
        latex_math(seq!['\\'] + "sum"@) == "sum"@,
        latex_math(seq!['\\'] + "prod"@) == "product"@,
        latex_math(seq!['\\'] + "coprod"@) == "coprod"@,
        latex_math(seq!['\\'] + "pi"@) == "pi"@,
{
    letters_big_operator_commands();
    let e = Seq::<char>::empty();
    assert(latex_math(e) == e);
    table_command_is_replaced("int"@, e);
    assert(seq!['\\'] + "int"@ + e == seq!['\\'] + "int"@);
    table_command_is_replaced("iint"@, e);
    assert(seq!['\\'] + "iint"@ + e == seq!['\\'] + "iint"@);
    table_command_is_replaced("iiint"@, e);
    assert(seq!['\\'] + "iiint"@ + e == seq!['\\'] + "iiint"@);
    table_command_is_replaced("oint"@, e);
    assert(seq!['\\'] + "oint"@ + e == seq!['\\'] + "oint"@);
    table_command_is_replaced("infty"@, e);
    assert(seq!['\\'] + "infty"@ + e == seq!['\\'] + "infty"@);
    table_command_is_replaced("sum"@, e);
    assert(seq!['\\'] + "sum"@ + e == seq!['\\'] + "sum"@);
    table_command_is_replaced("prod"@, e);
    assert(seq!['\\'] + "prod"@ + e == seq!['\\'] + "prod"@);
    table_command_is_replaced("coprod"@, e);
    assert(seq!['\\'] + "coprod"@ + e == seq!['\\'] + "coprod"@);
    table_command_is_replaced("pi"@, e);
    assert(seq!['\\'] + "pi"@ + e == seq!['\\'] + "pi"@);
}

/// The commands for lowercase Greek letters from alpha to mu, each standing alone, become their Typst
/// notation.
pub proof fn greek_letter_commands_alpha_to_mu()
    ensures
        latex_math(seq!['\\'] + "alpha"@) == "alpha"@,
        latex_math(seq!['\\'] + "beta"@) == "beta"@,
        latex_math(seq!['\\'] + "gamma"@) == "gamma"@,
        latex_math(seq!['\\'] + "delta"@) == "delta"@,
        latex_math(seq!['\\'] + "epsilon"@) == "epsilon"@,
        latex_math(seq!['\\'] + "varepsilon"@) == "epsilon"@,
        latex_math(seq!['\\'] + "zeta"@) == "zeta"@,
        latex_math(seq!['\\'] + "eta"@) == "eta"@,
        latex_math(seq!['\\'] + "theta"@) == "theta"@,
        latex_math(seq!['\\'] + "vartheta"@) == "theta"@,
        latex_math(seq!['\\'] + "iota"@) == "iota"@,
        latex_math(seq!['\\'] + "kappa"@) == "kappa"@,
        latex_math(seq!['\\'] + "lambda"@) == "lambda"@,
        latex_math(seq!['\\'] + "mu"@) == "mu"@,
{
    letters_big_operator_commands();
    letters_greek_letter_commands_alpha_to_mu();
    let e = Seq::<char>::empty();
    assert(latex_math(e) == e);
    table_command_is_replaced("alpha"@, e);
    assert(seq!['\\'] + "alpha"@ + e == seq!['\\'] + "alpha"@);
    table_command_is_replaced("beta"@, e);
    assert(seq!['\\'] + "beta"@ + e == seq!['\\'] + "beta"@);
    table_command_is_replaced("gamma"@, e);
    assert(seq!['\\'] + "gamma"@ + e == seq!['\\'] + "gamma"@);
    table_command_is_replaced("delta"@, e);
    assert(seq!['\\'] + "delta"@ + e == seq!['\\'] + "delta"@);
    table_command_is_replaced("epsilon"@, e);
    assert(seq!['\\'] + "epsilon"@ + e == seq!['\\'] + "epsilon"@);
    table_command_is_replaced("varepsilon"@, e);
    assert(seq!['\\'] + "varepsilon"@ + e == seq!['\\'] + "varepsilon"@);
    table_command_is_replaced("zeta"@, e);
    assert(seq!['\\'] + "zeta"@ + e == seq!['\\'] + "zeta"@);
    table_command_is_replaced("eta"@, e);
    assert(seq!['\\'] + "eta"@ + e == seq!['\\'] + "eta"@);
    table_command_is_replaced("theta"@, e);
    assert(seq!['\\'] + "theta"@ + e == seq!['\\'] + "theta"@);
    table_command_is_replaced("vartheta"@, e);
    assert(seq!['\\'] + "vartheta"@ + e == seq!['\\'] + "vartheta"@);
    table_command_is_replaced("iota"@, e);
    assert(seq!['\\'] + "iota"@ + e == seq!['\\'] + "iota"@);
    table_command_is_replaced("kappa"@, e);
    assert(seq!['\\'] + "kappa"@ + e == seq!['\\'] + "kappa"@);
    table_command_is_replaced("lambda"@, e);
    assert(seq!['\\'] + "lambda"@ + e == seq!['\\'] + "lambda"@);
    table_command_is_replaced("mu"@, e);
    assert(seq!['\\'] + "mu"@ + e == seq!['\\'] + "mu"@);
}

/// The commands for lowercase Greek letters from nu to omega, each standing alone, become their Typst
/// notation.
pub proof fn greek_letter_commands_nu_to_omega()
    ensures
        latex_math(seq!['\\'] + "nu"@) == "nu"@,
        latex_math(seq!['\\'] + "xi"@) == "xi"@,
        latex_math(seq!['\\'] + "rho"@) == "rho"@,
        latex_math(seq!['\\'] + "varrho"@) == "rho"@,
        latex_math(seq!['\\'] + "sigma"@) == "sigma"@,
        latex_math(seq!['\\'] + "varsigma"@) == "sigma"@,
        latex_math(seq!['\\'] + "tau"@) == "tau"@,
        latex_math(seq!['\\'] + "upsilon"@) == "upsilon"@,
        latex_math(seq!['\\'] + "phi"@) == "phi"@,
        latex_math(seq!['\\'] + "varphi"@) == "varphi"@,
        latex_math(seq!['\\'] + "chi"@) == "chi"@,
        latex_math(seq!['\\'] + "psi"@) == "psi"@,
        latex_math(seq!['\\'] + "omega"@) == "omega"@,
{
    letters_big_operator_commands();
    letters_greek_letter_commands_alpha_to_mu();
    letters_greek_letter_commands_nu_to_omega();
    let e = Seq::<char>::empty();
    assert(latex_math(e) == e);
    table_command_is_replaced("nu"@, e);
    assert(seq!['\\'] + "nu"@ + e == seq!['\\'] + "nu"@);
    table_command_is_replaced("xi"@, e);
    assert(seq!['\\'] + "xi"@ + e == seq!['\\'] + "xi"@);
    table_command_is_replaced("rho"@, e);
    assert(seq!['\\'] + "rho"@ + e == seq!['\\'] + "rho"@);
    table_command_is_replaced("varrho"@, e);
    assert(seq!['\\'] + "varrho"@ + e == seq!['\\'] + "varrho"@);
    table_command_is_replaced("sigma"@, e);
    assert(seq!['\\'] + "sigma"@ + e == seq!['\\'] + "sigma"@);
    table_command_is_replaced("varsigma"@, e);
    assert(seq!['\\'] + "varsigma"@ + e == seq!['\\'] + "varsigma"@);
    table_command_is_replaced("tau"@, e);
    assert(seq!['\\'] + "tau"@ + e == seq!['\\'] + "tau"@);
    table_command_is_replaced("upsilon"@, e);
    assert(seq!['\\'] + "upsilon"@ + e == seq!['\\'] + "upsilon"@);
    table_command_is_replaced("phi"@, e);
    assert(seq!['\\'] + "phi"@ + e == seq!['\\'] + "phi"@);
    table_command_is_replaced("varphi"@, e);
    assert(seq!['\\'] + "varphi"@ + e == seq!['\\'] + "varphi"@);
    table_command_is_replaced("chi"@, e);
    assert(seq!['\\'] + "chi"@ + e == seq!['\\'] + "chi"@);
    table_command_is_replaced("psi"@, e);
    assert(seq!['\\'] + "psi"@ + e == seq!['\\'] + "psi"@);
    table_command_is_replaced("omega"@, e);
    assert(seq!['\\'] + "omega"@ + e == seq!['\\'] + "omega"@);
}

/// The commands for capital Greek letters, each standing alone, become their Typst
/// notation.
pub proof fn capital_greek_commands()
    ensures
        latex_math(seq!['\\'] + "Gamma"@) == "Gamma"@,
        latex_math(seq!['\\'] + "Delta"@) == "Delta"@,
        latex_math(seq!['\\'] + "Theta"@) == "Theta"@,
        latex_math(seq!['\\'] + "Lambda"@) == "Lambda"@,
        latex_math(seq!['\\'] + "Xi"@) == "Xi"@,
        latex_math(seq!['\\'] + "Pi"@) == "Pi"@,
        latex_math(seq!['\\'] + "Sigma"@) == "Sigma"@,
        latex_math(seq!['\\'] + "Phi"@) == "Phi"@,
        latex_math(seq!['\\'] + "Psi"@) == "Psi"@,
        latex_math(seq!['\\'] + "Omega"@) == "Omega"@,
{
    letters_big_operator_commands();
    letters_greek_letter_commands_alpha_to_mu();
    letters_greek_letter_commands_nu_to_omega();
    letters_capital_greek_commands();
    let e = Seq::<char>::empty();
    assert(latex_math(e) == e);
    table_command_is_replaced("Gamma"@, e);
    assert(seq!['\\'] + "Gamma"@ + e == seq!['\\'] + "Gamma"@);
    table_command_is_replaced("Delta"@, e);
    assert(seq!['\\'] + "Delta"@ + e == seq!['\\'] + "Delta"@);
    table_command_is_replaced("Theta"@, e);
    assert(seq!['\\'] + "Theta"@ + e == seq!['\\'] + "Theta"@);
    table_command_is_replaced("Lambda"@, e);
    assert(seq!['\\'] + "Lambda"@ + e == seq!['\\'] + "Lambda"@);
    table_command_is_replaced("Xi"@, e);
    assert(seq!['\\'] + "Xi"@ + e == seq!['\\'] + "Xi"@);
    table_command_is_replaced("Pi"@, e);
    assert(seq!['\\'] + "Pi"@ + e == seq!['\\'] + "Pi"@);
    table_command_is_replaced("Sigma"@, e);
    assert(seq!['\\'] + "Sigma"@ + e == seq!['\\'] + "Sigma"@);
    table_command_is_replaced("Phi"@, e);
    assert(seq!['\\'] + "Phi"@ + e == seq!['\\'] + "Phi"@);
    table_command_is_replaced("Psi"@, e);
    assert(seq!['\\'] + "Psi"@ + e == seq!['\\'] + "Psi"@);
    table_command_is_replaced("Omega"@, e);
    assert(seq!['\\'] + "Omega"@ + e == seq!['\\'] + "Omega"@);
}

/// The commands for arrows and implications, each standing alone, become their Typst
/// notation.
pub proof fn arrow_commands()
    ensures
        latex_math(seq!['\\'] + "to"@) == "->"@,
        latex_math(seq!['\\'] + "rightarrow"@) == "->"@,
        latex_math(seq!['\\'] + "Rightarrow"@) == "=>"@,
        latex_math(seq!['\\'] + "leftarrow"@) == "<-"@,
        latex_math(seq!['\\'] + "Leftarrow"@) == "<="@,
        latex_math(seq!['\\'] + "leftrightarrow"@) == "<->"@,
        latex_math(seq!['\\'] + "mapsto"@) == "|->"@,
        latex_math(seq!['\\'] + "implies"@) == "=>"@,
        latex_math(seq!['\\'] + "iff"@) == "<=>"@,
{
    letters_big_operator_commands();
    letters_greek_letter_commands_alpha_to_mu();
    letters_greek_letter_commands_nu_to_omega();
    letters_capital_greek_commands();
    letters_arrow_commands();
    let e = Seq::<char>::empty();
    assert(latex_math(e) == e);
    table_command_is_replaced("to"@, e);
    assert(seq!['\\'] + "to"@ + e == seq!['\\'] + "to"@);
    table_command_is_replaced("rightarrow"@, e);
    assert(seq!['\\'] + "rightarrow"@ + e == seq!['\\'] + "rightarrow"@);
    table_command_is_replaced("Rightarrow"@, e);
    assert(seq!['\\'] + "Rightarrow"@ + e == seq!['\\'] + "Rightarrow"@);
    table_command_is_replaced("leftarrow"@, e);
    assert(seq!['\\'] + "leftarrow"@ + e == seq!['\\'] + "leftarrow"@);
    table_command_is_replaced("Leftarrow"@, e);
    assert(seq!['\\'] + "Leftarrow"@ + e == seq!['\\'] + "Leftarrow"@);
    table_command_is_replaced("leftrightarrow"@, e);
    assert(seq!['\\'] + "leftrightarrow"@ + e == seq!['\\'] + "leftrightarrow"@);
    table_command_is_replaced("mapsto"@, e);
    assert(seq!['\\'] + "mapsto"@ + e == seq!['\\'] + "mapsto"@);
    table_command_is_replaced("implies"@, e);
    assert(seq!['\\'] + "implies"@ + e == seq!['\\'] + "implies"@);
    table_command_is_replaced("iff"@, e);
    assert(seq!['\\'] + "iff"@ + e == seq!['\\'] + "iff"@);
}

/// The commands for derivatives, quantifiers and set notation, each standing alone, become their Typst
/// notation.
pub proof fn calculus_logic_and_set_commands()
    ensures
        latex_math(seq!['\\'] + "partial"@) == "partial"@,
        latex_math(seq!['\\'] + "nabla"@) == "nabla"@,
        latex_math(seq!['\\'] + "forall"@) == "forall"@,
        latex_math(seq!['\\'] + "exists"@) == "exists"@,
        latex_math(seq!['\\'] + "nexists"@) == "not.exists"@,
        latex_math(seq!['\\'] + "in"@) == "in"@,
        latex_math(seq!['\\'] + "notin"@) == "not.in"@,
        latex_math(seq!['\\'] + "subset"@) == "subset"@,
        latex_math(seq!['\\'] + "subseteq"@) == "subset.eq"@,
        latex_math(seq!['\\'] + "supset"@) == "supset"@,
        latex_math(seq!['\\'] + "supseteq"@) == "supset.eq"@,
        latex_math(seq!['\\'] + "cup"@) == "union"@,
        latex_math(seq!['\\'] + "cap"@) == "intersect"@,
        latex_math(seq!['\\'] + "emptyset"@) == "nothing"@,
        latex_math(seq!['\\'] + "varnothing"@) == "nothing"@,
{
    letters_big_operator_commands();
    letters_greek_letter_commands_alpha_to_mu();
    letters_greek_letter_commands_nu_to_omega();
    letters_capital_greek_commands();
    letters_arrow_commands();
    letters_calculus_logic_and_set_commands();
    let e = Seq::<char>::empty();
    assert(latex_math(e) == e);
    table_command_is_replaced("partial"@, e);
    assert(seq!['\\'] + "partial"@ + e == seq!['\\'] + "partial"@);
    table_command_is_replaced("nabla"@, e);
    assert(seq!['\\'] + "nabla"@ + e == seq!['\\'] + "nabla"@);
    table_command_is_replaced("forall"@, e);
    assert(seq!['\\'] + "forall"@ + e == seq!['\\'] + "forall"@);
    table_command_is_replaced("exists"@, e);
    assert(seq!['\\'] + "exists"@ + e == seq!['\\'] + "exists"@);
    table_command_is_replaced("nexists"@, e);
    assert(seq!['\\'] + "nexists"@ + e == seq!['\\'] + "nexists"@);
    table_command_is_replaced("in"@, e);
    assert(seq!['\\'] + "in"@ + e == seq!['\\'] + "in"@);
    table_command_is_replaced("notin"@, e);
    assert(seq!['\\'] + "notin"@ + e == seq!['\\'] + "notin"@);
    table_command_is_replaced("subset"@, e);
    assert(seq!['\\'] + "subset"@ + e == seq!['\\'] + "subset"@);
    table_command_is_replaced("subseteq"@, e);
    assert(seq!['\\'] + "subseteq"@ + e == seq!['\\'] + "subseteq"@);
    table_command_is_replaced("supset"@, e);
    assert(seq!['\\'] + "supset"@ + e == seq!['\\'] + "supset"@);
    table_command_is_replaced("supseteq"@, e);
    assert(seq!['\\'] + "supseteq"@ + e == seq!['\\'] + "supseteq"@);
    table_command_is_replaced("cup"@, e);
    assert(seq!['\\'] + "cup"@ + e == seq!['\\'] + "cup"@);
    table_command_is_replaced("cap"@, e);
    assert(seq!['\\'] + "cap"@ + e == seq!['\\'] + "cap"@);
    table_command_is_replaced("emptyset"@, e);
    assert(seq!['\\'] + "emptyset"@ + e == seq!['\\'] + "emptyset"@);
    table_command_is_replaced("varnothing"@, e);
    assert(seq!['\\'] + "varnothing"@ + e == seq!['\\'] + "varnothing"@);
}

/// The commands for trigonometric and hyperbolic functions, each standing alone, become their Typst
/// notation.
pub proof fn trigonometric_commands()
    ensures
        latex_math(seq!['\\'] + "sin"@) == "sin"@,
        latex_math(seq!['\\'] + "cos"@) == "cos"@,
        latex_math(seq!['\\'] + "tan"@) == "tan"@,
        latex_math(seq!['\\'] + "csc"@) == "csc"@,
        latex_math(seq!['\\'] + "sec"@) == "sec"@,
        latex_math(seq!['\\'] + "cot"@) == "cot"@,
        latex_math(seq!['\\'] + "sinh"@) == "sinh"@,
        latex_math(seq!['\\'] + "cosh"@) == "cosh"@,
        latex_math(seq!['\\'] + "tanh"@) == "tanh"@,
        latex_math(seq!['\\'] + "arcsin"@) == "arcsin"@,
        latex_math(seq!['\\'] + "arccos"@) == "arccos"@,
        latex_math(seq!['\\'] + "arctan"@) == "arctan"@,
{
    letters_big_operator_commands();
    letters_greek_letter_commands_alpha_to_mu();
    letters_greek_letter_commands_nu_to_omega();
    letters_capital_greek_commands();
    letters_arrow_commands();
    letters_calculus_logic_and_set_commands();
    letters_trigonometric_commands();
    let e = Seq::<char>::empty();
    assert(latex_math(e) == e);
    table_command_is_replaced("sin"@, e);
    assert(seq!['\\'] + "sin"@ + e == seq!['\\'] + "sin"@);
    table_command_is_replaced("cos"@, e);
    assert(seq!['\\'] + "cos"@ + e == seq!['\\'] + "cos"@);
    table_command_is_replaced("tan"@, e);
    assert(seq!['\\'] + "tan"@ + e == seq!['\\'] + "tan"@);
    table_command_is_replaced("csc"@, e);
    assert(seq!['\\'] + "csc"@ + e == seq!['\\'] + "csc"@);
    table_command_is_replaced("sec"@, e);
    assert(seq!['\\'] + "sec"@ + e == seq!['\\'] + "sec"@);
    table_command_is_replaced("cot"@, e);
    assert(seq!['\\'] + "cot"@ + e == seq!['\\'] + "cot"@);
    table_command_is_replaced("sinh"@, e);
    assert(seq!['\\'] + "sinh"@ + e == seq!['\\'] + "sinh"@);
    table_command_is_replaced("cosh"@, e);
    assert(seq!['\\'] + "cosh"@ + e == seq!['\\'] + "cosh"@);
    table_command_is_replaced("tanh"@, e);
    assert(seq!['\\'] + "tanh"@ + e == seq!['\\'] + "tanh"@);
    table_command_is_replaced("arcsin"@, e);
    assert(seq!['\\'] + "arcsin"@ + e == seq!['\\'] + "arcsin"@);
    table_command_is_replaced("arccos"@, e);
    assert(seq!['\\'] + "arccos"@ + e == seq!['\\'] + "arccos"@);
    table_command_is_replaced("arctan"@, e);
    assert(seq!['\\'] + "arctan"@ + e == seq!['\\'] + "arctan"@);
}

/// The commands for logarithms, limits and other named operators, each standing alone, become their Typst
/// notation.
pub proof fn function_name_commands()
    ensures
        latex_math(seq!['\\'] + "log"@) == "log"@,
        latex_math(seq!['\\'] + "ln"@) == "ln"@,
        latex_math(seq!['\\'] + "lg"@) == "lg"@,
        latex_math(seq!['\\'] + "lim"@) == "lim"@,
        latex_math(seq!['\\'] + "det"@) == "det"@,
        latex_math(seq!['\\'] + "gcd"@) == "gcd"@,
        latex_math(seq!['\\'] + "lcm"@) == "lcm"@,
        latex_math(seq!['\\'] + "max"@) == "max"@,
        latex_math(seq!['\\'] + "min"@) == "min"@,
        latex_math(seq!['\\'] + "sup"@) == "sup"@,
        latex_math(seq!['\\'] + "inf"@) == "inf"@,
        latex_math(seq!['\\'] + "arg"@) == "arg"@,
        latex_math(seq!['\\'] + "deg"@) == "deg"@,
        latex_math(seq!['\\'] + "dim"@) == "dim"@,
        latex_math(seq!['\\'] + "hom"@) == "hom"@,
        latex_math(seq!['\\'] + "ker"@) == "ker"@,
        latex_math(seq!['\\'] + "Pr"@) == "Pr"@,
        latex_math(seq!['\\'] + "exp"@) == "exp"@,
{
    letters_big_operator_commands();
    letters_greek_letter_commands_alpha_to_mu();
    letters_greek_letter_commands_nu_to_omega();
    letters_capital_greek_commands();
    letters_arrow_commands();
    letters_calculus_logic_and_set_commands();
    letters_trigonometric_commands();
    letters_function_name_commands();
    let e = Seq::<char>::empty();
    assert(latex_math(e) == e);
    table_command_is_replaced("log"@, e);
    assert(seq!['\\'] + "log"@ + e == seq!['\\'] + "log"@);
    table_command_is_replaced("ln"@, e);
    assert(seq!['\\'] + "ln"@ + e == seq!['\\'] + "ln"@);
    table_command_is_replaced("lg"@, e);
    assert(seq!['\\'] + "lg"@ + e == seq!['\\'] + "lg"@);
    table_command_is_replaced("lim"@, e);
    assert(seq!['\\'] + "lim"@ + e == seq!['\\'] + "lim"@);
    table_command_is_replaced("det"@, e);
    assert(seq!['\\'] + "det"@ + e == seq!['\\'] + "det"@);
    table_command_is_replaced("gcd"@, e);
    assert(seq!['\\'] + "gcd"@ + e == seq!['\\'] + "gcd"@);
    table_command_is_replaced("lcm"@, e);
    assert(seq!['\\'] + "lcm"@ + e == seq!['\\'] + "lcm"@);
    table_command_is_replaced("max"@, e);
    assert(seq!['\\'] + "max"@ + e == seq!['\\'] + "max"@);
    table_command_is_replaced("min"@, e);
    assert(seq!['\\'] + "min"@ + e == seq!['\\'] + "min"@);
    table_command_is_replaced("sup"@, e);
    assert(seq!['\\'] + "sup"@ + e == seq!['\\'] + "sup"@);
    table_command_is_replaced("inf"@, e);
    assert(seq!['\\'] + "inf"@ + e == seq!['\\'] + "inf"@);
    table_command_is_replaced("arg"@, e);
    assert(seq!['\\'] + "arg"@ + e == seq!['\\'] + "arg"@);
    table_command_is_replaced("deg"@, e);
    assert(seq!['\\'] + "deg"@ + e == seq!['\\'] + "deg"@);
    table_command_is_replaced("dim"@, e);
    assert(seq!['\\'] + "dim"@ + e == seq!['\\'] + "dim"@);
    table_command_is_replaced("hom"@, e);
    assert(seq!['\\'] + "hom"@ + e == seq!['\\'] + "hom"@);
    table_command_is_replaced("ker"@, e);
    assert(seq!['\\'] + "ker"@ + e == seq!['\\'] + "ker"@);
    table_command_is_replaced("Pr"@, e);
    assert(seq!['\\'] + "Pr"@ + e == seq!['\\'] + "Pr"@);
    table_command_is_replaced("exp"@, e);
    assert(seq!['\\'] + "exp"@ + e == seq!['\\'] + "exp"@);
}

/// The commands for relations and arithmetic operators, each standing alone, become their Typst
/// notation.
pub proof fn relation_and_arithmetic_commands()
    ensures
        latex_math(seq!['\\'] + "approx"@) == "~="@,
        latex_math(seq!['\\'] + "equiv"@) == "=="@,
        latex_math(seq!['\\'] + "ne"@) == "!="@,
        latex_math(seq!['\\'] + "neq"@) == "!="@,
        latex_math(seq!['\\'] + "ge"@) == ">="@,
        latex_math(seq!['\\'] + "geq"@) == ">="@,
        latex_math(seq!['\\'] + "le"@) == "<="@,
        latex_math(seq!['\\'] + "leq"@) == "<="@,
        latex_math(seq!['\\'] + "times"@) == "*"@,
        latex_math(seq!['\\'] + "div"@) == "/"@,
        latex_math(seq!['\\'] + "pm"@) == "plus.minus"@,
        latex_math(seq!['\\'] + "mp"@) == "minus.plus"@,
{
    letters_big_operator_commands();
    letters_greek_letter_commands_alpha_to_mu();
    letters_greek_letter_commands_nu_to_omega();
    letters_capital_greek_commands();
    letters_arrow_commands();
    letters_calculus_logic_and_set_commands();
    letters_trigonometric_commands();
    letters_function_name_commands();
    letters_relation_and_arithmetic_commands();
    let e = Seq::<char>::empty();
    assert(latex_math(e) == e);
    table_command_is_replaced("approx"@, e);
    assert(seq!['\\'] + "approx"@ + e == seq!['\\'] + "approx"@);
    table_command_is_replaced("equiv"@, e);
    assert(seq!['\\'] + "equiv"@ + e == seq!['\\'] + "equiv"@);
    table_command_is_replaced("ne"@, e);
    assert(seq!['\\'] + "ne"@ + e == seq!['\\'] + "ne"@);
    table_command_is_replaced("neq"@, e);
    assert(seq!['\\'] + "neq"@ + e == seq!['\\'] + "neq"@);
    table_command_is_replaced("ge"@, e);
    assert(seq!['\\'] + "ge"@ + e == seq!['\\'] + "ge"@);
    table_command_is_replaced("geq"@, e);
    assert(seq!['\\'] + "geq"@ + e == seq!['\\'] + "geq"@);
    table_command_is_replaced("le"@, e);
    assert(seq!['\\'] + "le"@ + e == seq!['\\'] + "le"@);
    table_command_is_replaced("leq"@, e);
    assert(seq!['\\'] + "leq"@ + e == seq!['\\'] + "leq"@);
    table_command_is_replaced("times"@, e);
    assert(seq!['\\'] + "times"@ + e == seq!['\\'] + "times"@);
    table_command_is_replaced("div"@, e);
    assert(seq!['\\'] + "div"@ + e == seq!['\\'] + "div"@);
    table_command_is_replaced("pm"@, e);
    assert(seq!['\\'] + "pm"@ + e == seq!['\\'] + "pm"@);
    table_command_is_replaced("mp"@, e);
    assert(seq!['\\'] + "mp"@ + e == seq!['\\'] + "mp"@);
}

/// The commands for dots, binary operators and set difference, each standing alone, become their Typst
/// notation.
pub proof fn dot_and_binary_operator_commands()
    ensures
        latex_math(seq!['\\'] + "cdot"@) == "dot"@,
        latex_math(seq!['\\'] + "cdots"@) == ".."@,
        latex_math(seq!['\\'] + "dots"@) == "..."@,
        latex_math(seq!['\\'] + "ldots"@) == "..."@,
        latex_math(seq!['\\'] + "circ"@) == "circ"@,
        latex_math(seq!['\\'] + "bullet"@) == "bullet"@,
        latex_math(seq!['\\'] + "star"@) == "star"@,
        latex_math(seq!['\\'] + "ast"@) == "ast"@,
        latex_math(seq!['\\'] + "dagger"@) == "dagger"@,
        latex_math(seq!['\\'] + "ddagger"@) == "ddagger"@,
        latex_math(seq!['\\'] + "setminus"@) == "\\"@,
{
    letters_big_operator_commands();
    letters_greek_letter_commands_alpha_to_mu();
    letters_greek_letter_commands_nu_to_omega();
    letters_capital_greek_commands();
    letters_arrow_commands();
    letters_calculus_logic_and_set_commands();
    letters_trigonometric_commands();
    letters_function_name_commands();
    letters_relation_and_arithmetic_commands();
    letters_dot_and_binary_operator_commands();
    let e = Seq::<char>::empty();
    assert(latex_math(e) == e);
    table_command_is_replaced("cdot"@, e);
    assert(seq!['\\'] + "cdot"@ + e == seq!['\\'] + "cdot"@);
    table_command_is_replaced("cdots"@, e);
    assert(seq!['\\'] + "cdots"@ + e == seq!['\\'] + "cdots"@);
    table_command_is_replaced("dots"@, e);
    assert(seq!['\\'] + "dots"@ + e == seq!['\\'] + "dots"@);
    table_command_is_replaced("ldots"@, e);
    assert(seq!['\\'] + "ldots"@ + e == seq!['\\'] + "ldots"@);
    table_command_is_replaced("circ"@, e);
    assert(seq!['\\'] + "circ"@ + e == seq!['\\'] + "circ"@);
    table_command_is_replaced("bullet"@, e);
    assert(seq!['\\'] + "bullet"@ + e == seq!['\\'] + "bullet"@);
    table_command_is_replaced("star"@, e);
    assert(seq!['\\'] + "star"@ + e == seq!['\\'] + "star"@);
    table_command_is_replaced("ast"@, e);
    assert(seq!['\\'] + "ast"@ + e == seq!['\\'] + "ast"@);
    table_command_is_replaced("dagger"@, e);
    assert(seq!['\\'] + "dagger"@ + e == seq!['\\'] + "dagger"@);
    table_command_is_replaced("ddagger"@, e);
    assert(seq!['\\'] + "ddagger"@ + e == seq!['\\'] + "ddagger"@);
    table_command_is_replaced("setminus"@, e);
    assert(seq!['\\'] + "setminus"@ + e == seq!['\\'] + "setminus"@);
}

/// The commands for similarity relations and letterlike symbols, each standing alone, become their Typst
/// notation.
pub proof fn similarity_and_letterlike_commands()
    ensures
        latex_math(seq!['\\'] + "sim"@) == "~"@,
        latex_math(seq!['\\'] + "simeq"@) == "~="@,
        latex_math(seq!['\\'] + "cong"@) == "~="@,
        latex_math(seq!['\\'] + "propto"@) == "prop"@,
        latex_math(seq!['\\'] + "perp"@) == "perp"@,
        latex_math(seq!['\\'] + "parallel"@) == "parallel"@,
        latex_math(seq!['\\'] + "mid"@) == "|"@,
        latex_math(seq!['\\'] + "ell"@) == "ell"@,
        latex_math(seq!['\\'] + "hbar"@) == "hbar"@,
        latex_math(seq!['\\'] + "hslash"@) == "hslash"@,
        latex_math(seq!['\\'] + "Re"@) == "Re"@,
        latex_math(seq!['\\'] + "Im"@) == "Im"@,
        latex_math(seq!['\\'] + "aleph"@) == "aleph"@,
{
    letters_big_operator_commands();
    letters_greek_letter_commands_alpha_to_mu();
    letters_greek_letter_commands_nu_to_omega();
    letters_capital_greek_commands();
    letters_arrow_commands();
    letters_calculus_logic_and_set_commands();
    letters_trigonometric_commands();
    letters_function_name_commands();
    letters_relation_and_arithmetic_commands();
    letters_dot_and_binary_operator_commands();
    letters_similarity_and_letterlike_commands();
    let e = Seq::<char>::empty();
    assert(latex_math(e) == e);
    table_command_is_replaced("sim"@, e);
    assert(seq!['\\'] + "sim"@ + e == seq!['\\'] + "sim"@);
    table_command_is_replaced("simeq"@, e);
    assert(seq!['\\'] + "simeq"@ + e == seq!['\\'] + "simeq"@);
    table_command_is_replaced("cong"@, e);
    assert(seq!['\\'] + "cong"@ + e == seq!['\\'] + "cong"@);
    table_command_is_replaced("propto"@, e);
    assert(seq!['\\'] + "propto"@ + e == seq!['\\'] + "propto"@);
    table_command_is_replaced("perp"@, e);
    assert(seq!['\\'] + "perp"@ + e == seq!['\\'] + "perp"@);
    table_command_is_replaced("parallel"@, e);
    assert(seq!['\\'] + "parallel"@ + e == seq!['\\'] + "parallel"@);
    table_command_is_replaced("mid"@, e);
    assert(seq!['\\'] + "mid"@ + e == seq!['\\'] + "mid"@);
    table_command_is_replaced("ell"@, e);
    assert(seq!['\\'] + "ell"@ + e == seq!['\\'] + "ell"@);
    table_command_is_replaced("hbar"@, e);
    assert(seq!['\\'] + "hbar"@ + e == seq!['\\'] + "hbar"@);
    table_command_is_replaced("hslash"@, e);
    assert(seq!['\\'] + "hslash"@ + e == seq!['\\'] + "hslash"@);
    table_command_is_replaced("Re"@, e);
    assert(seq!['\\'] + "Re"@ + e == seq!['\\'] + "Re"@);
    table_command_is_replaced("Im"@, e);
    assert(seq!['\\'] + "Im"@ + e == seq!['\\'] + "Im"@);
    table_command_is_replaced("aleph"@, e);
    assert(seq!['\\'] + "aleph"@ + e == seq!['\\'] + "aleph"@);
}

/// The commands for primes, logic and circled operators, each standing alone, become their Typst
/// notation.
pub proof fn logic_and_circled_commands()
    ensures
        latex_math(seq!['\\'] + "prime"@) == "'"@,
        latex_math(seq!['\\'] + "neg"@) == "not"@,
        latex_math(seq!['\\'] + "lnot"@) == "not"@,
        latex_math(seq!['\\'] + "wedge"@) == "and"@,
        latex_math(seq!['\\'] + "land"@) == "and"@,
        latex_math(seq!['\\'] + "vee"@) == "or"@,
        latex_math(seq!['\\'] + "lor"@) == "or"@,
        latex_math(seq!['\\'] + "oplus"@) == "oplus"@,
        latex_math(seq!['\\'] + "ominus"@) == "ominus"@,
        latex_math(seq!['\\'] + "otimes"@) == "otimes"@,
        latex_math(seq!['\\'] + "oslash"@) == "oslash"@,
        latex_math(seq!['\\'] + "odot"@) == "odot"@,
{
    letters_big_operator_commands();
    letters_greek_letter_commands_alpha_to_mu();
    letters_greek_letter_commands_nu_to_omega();
    letters_capital_greek_commands();
    letters_arrow_commands();
    letters_calculus_logic_and_set_commands();
    letters_trigonometric_commands();
    letters_function_name_commands();
    letters_relation_and_arithmetic_commands();
    letters_dot_and_binary_operator_commands();
    letters_similarity_and_letterlike_commands();
    letters_logic_and_circled_commands();
    let e = Seq::<char>::empty();
    assert(latex_math(e) == e);
    table_command_is_replaced("prime"@, e);
    assert(seq!['\\'] + "prime"@ + e == seq!['\\'] + "prime"@);
    table_command_is_replaced("neg"@, e);
    assert(seq!['\\'] + "neg"@ + e == seq!['\\'] + "neg"@);
    table_command_is_replaced("lnot"@, e);
    assert(seq!['\\'] + "lnot"@ + e == seq!['\\'] + "lnot"@);
    table_command_is_replaced("wedge"@, e);
    assert(seq!['\\'] + "wedge"@ + e == seq!['\\'] + "wedge"@);
    table_command_is_replaced("land"@, e);
    assert(seq!['\\'] + "land"@ + e == seq!['\\'] + "land"@);
    table_command_is_replaced("vee"@, e);
    assert(seq!['\\'] + "vee"@ + e == seq!['\\'] + "vee"@);
    table_command_is_replaced("lor"@, e);
    assert(seq!['\\'] + "lor"@ + e == seq!['\\'] + "lor"@);
    table_command_is_replaced("oplus"@, e);
    assert(seq!['\\'] + "oplus"@ + e == seq!['\\'] + "oplus"@);
    table_command_is_replaced("ominus"@, e);
    assert(seq!['\\'] + "ominus"@ + e == seq!['\\'] + "ominus"@);
    table_command_is_replaced("otimes"@, e);
    assert(seq!['\\'] + "otimes"@ + e == seq!['\\'] + "otimes"@);
    table_command_is_replaced("oslash"@, e);
    assert(seq!['\\'] + "oslash"@ + e == seq!['\\'] + "oslash"@);
    table_command_is_replaced("odot"@, e);
    assert(seq!['\\'] + "odot"@ + e == seq!['\\'] + "odot"@);
}

/// The commands for angles, roots, colons and bars, each standing alone, become their Typst
/// notation.
pub proof fn angle_and_delimiter_commands()
    ensures
        latex_math(seq!['\\'] + "angle"@) == "angle"@,
        latex_math(seq!['\\'] + "measuredangle"@) == "angle"@,
        latex_math(seq!['\\'] + "surd"@) == "surd"@,
        latex_math(seq!['\\'] + "colon"@) == ":"@,
        latex_math(seq!['\\'] + "vert"@) == "|"@,
        latex_math(seq!['\\'] + "Vert"@) == "||"@,
        latex_math(seq!['\\'] + "lvert"@) == "|"@,
        latex_math(seq!['\\'] + "rvert"@) == "|"@,
        latex_math(seq!['\\'] + "lVert"@) == "||"@,
        latex_math(seq!['\\'] + "rVert"@) == "||"@,
{
    letters_big_operator_commands();
    letters_greek_letter_commands_alpha_to_mu();
    letters_greek_letter_commands_nu_to_omega();
    letters_capital_greek_commands();
    letters_arrow_commands();
    letters_calculus_logic_and_set_commands();
    letters_trigonometric_commands();
    letters_function_name_commands();
    letters_relation_and_arithmetic_commands();
    letters_dot_and_binary_operator_commands();
    letters_similarity_and_letterlike_commands();
    letters_logic_and_circled_commands();
    letters_angle_and_delimiter_commands();
    let e = Seq::<char>::empty();
    assert(latex_math(e) == e);
    table_command_is_replaced("angle"@, e);
    assert(seq!['\\'] + "angle"@ + e == seq!['\\'] + "angle"@);
    table_command_is_replaced("measuredangle"@, e);
    assert(seq!['\\'] + "measuredangle"@ + e == seq!['\\'] + "measuredangle"@);
    table_command_is_replaced("surd"@, e);
    assert(seq!['\\'] + "surd"@ + e == seq!['\\'] + "surd"@);
    table_command_is_replaced("colon"@, e);
    assert(seq!['\\'] + "colon"@ + e == seq!['\\'] + "colon"@);
    table_command_is_replaced("vert"@, e);
    assert(seq!['\\'] + "vert"@ + e == seq!['\\'] + "vert"@);
    table_command_is_replaced("Vert"@, e);
    assert(seq!['\\'] + "Vert"@ + e == seq!['\\'] + "Vert"@);
    table_command_is_replaced("lvert"@, e);
    assert(seq!['\\'] + "lvert"@ + e == seq!['\\'] + "lvert"@);
    table_command_is_replaced("rvert"@, e);
    assert(seq!['\\'] + "rvert"@ + e == seq!['\\'] + "rvert"@);
    table_command_is_replaced("lVert"@, e);
    assert(seq!['\\'] + "lVert"@ + e == seq!['\\'] + "lVert"@);
    table_command_is_replaced("rVert"@, e);
    assert(seq!['\\'] + "rVert"@ + e == seq!['\\'] + "rVert"@);
}

/// The structural commands, letter by letter; none is in the symbol table.
proof fn lemma_structural_names()
    ensures
        "mathrm"@.len() == 6 && "mathrm"@[0] == 'm' && "mathrm"@[1] == 'a' && "mathrm"@[2] == 't' && "mathrm"@[3] == 'h' && "mathrm"@[4] == 'r' && "mathrm"@[5] == 'm' && symbol("mathrm"@) is None,
        "mathbf"@.len() == 6 && "mathbf"@[0] == 'm' && "mathbf"@[1] == 'a' && "mathbf"@[2] == 't' && "mathbf"@[3] == 'h' && "mathbf"@[4] == 'b' && "mathbf"@[5] == 'f' && symbol("mathbf"@) is None,
        "mathcal"@.len() == 7 && "mathcal"@[0] == 'm' && "mathcal"@[1] == 'a' && "mathcal"@[2] == 't' && "mathcal"@[3] == 'h' && "mathcal"@[4] == 'c' && "mathcal"@[5] == 'a' && "mathcal"@[6] == 'l' && symbol("mathcal"@) is None,
        "mathscr"@.len() == 7 && "mathscr"@[0] == 'm' && "mathscr"@[1] == 'a' && "mathscr"@[2] == 't' && "mathscr"@[3] == 'h' && "mathscr"@[4] == 's' && "mathscr"@[5] == 'c' && "mathscr"@[6] == 'r' && symbol("mathscr"@) is None,
        "mathbb"@.len() == 6 && "mathbb"@[0] == 'm' && "mathbb"@[1] == 'a' && "mathbb"@[2] == 't' && "mathbb"@[3] == 'h' && "mathbb"@[4] == 'b' && "mathbb"@[5] == 'b' && symbol("mathbb"@) is None,
        "operatorname"@.len() == 12 && "operatorname"@[0] == 'o' && "operatorname"@[1] == 'p' && "operatorname"@[2] == 'e' && "operatorname"@[3] == 'r' && "operatorname"@[4] == 'a' && "operatorname"@[5] == 't' && "operatorname"@[6] == 'o' && "operatorname"@[7] == 'r' && "operatorname"@[8] == 'n' && "operatorname"@[9] == 'a' && "operatorname"@[10] == 'm' && "operatorname"@[11] == 'e' && symbol("operatorname"@) is None,
        "text"@.len() == 4 && "text"@[0] == 't' && "text"@[1] == 'e' && "text"@[2] == 'x' && "text"@[3] == 't' && symbol("text"@) is None,
        "left"@.len() == 4 && "left"@[0] == 'l' && "left"@[1] == 'e' && "left"@[2] == 'f' && "left"@[3] == 't' && symbol("left"@) is None,
        "right"@.len() == 5 && "right"@[0] == 'r' && "right"@[1] == 'i' && "right"@[2] == 'g' && "right"@[3] == 'h' && "right"@[4] == 't' && symbol("right"@) is None,
        "frac"@.len() == 4 && "frac"@[0] == 'f',
        "sqrt"@.len() == 4 && "sqrt"@[0] == 's' && "sqrt"@[1] == 'q',
{
    letters_big_operator_commands();
    letters_greek_letter_commands_alpha_to_mu();
    letters_greek_letter_commands_nu_to_omega();
    letters_capital_greek_commands();
    letters_arrow_commands();
    letters_calculus_logic_and_set_commands();
    letters_trigonometric_commands();
    letters_function_name_commands();
    letters_relation_and_arithmetic_commands();
    letters_dot_and_binary_operator_commands();
    letters_similarity_and_letterlike_commands();
    letters_logic_and_circled_commands();
    letters_angle_and_delimiter_commands();
    reveal_strlit("frac");
    reveal_strlit("sqrt");
    reveal_strlit("mathrm");
    reveal_strlit("mathbf");
    reveal_strlit("mathcal");
    reveal_strlit("mathscr");
    reveal_strlit("mathbb");
    reveal_strlit("operatorname");
    reveal_strlit("text");
    reveal_strlit("left");
    reveal_strlit("right");
}

/// A command whose name is followed by a balanced brace group: the name is
/// read, the group is translated as a whole, and the text after it on its own.
proof fn lemma_braced_command(k: Seq<char>, x: Seq<char>, t: Seq<char>)
    requires
        k.len() > 0,
        forall|m: int| 0 <= m < k.len() ==> is_letter(#[trigger] k[m]),
        balanced(x),
    ensures
        ({
            let s = seq!['\\'] + k + seq!['{'] + x + seq!['}'] + t;
            let f = backslashes(s) + 1;
            let end = k.len() + x.len() + 3int;
            &&& latex_math(s) == after_command(s, k.len() + 1int, k, f)
            &&& group(s, k.len() + 1int, f) == (latex_math(x), end)
            &&& end <= s.len()
            &&& run(s, end, false, None, f) == latex_math(t)
        }),
{
    let a = seq!['\\'] + k + seq!['{'] + x + seq!['}'];
    let s = a + t;
    let f = backslashes(s) + 1;
    let p = k.len() + 1int;
    let lx = x.len() as int;
    assert(s.subrange(1, p) == k);
    assert(s[p] == '{');
    assert(s[0] == '\\');
    lemma_read_name(s, 1, k, false, f, 0);
    assert(k.take(0) == Seq::<char>::empty());
    assert(s.subrange(p + 1, p + 1 + lx) == x);
    assert(s[p + 1 + lx] == '}');
    lemma_part_backslashes(s, p + 1, p + 1 + lx);
    lemma_group_braced(s, p, p, x, f);
    assert(a.len() == k.len() + x.len() + 3);
    assert(s.subrange(a.len() as int, s.len() as int) == t);
    lemma_part_backslashes(s, a.len() as int, s.len() as int);
    lemma_tail(a, t, f);
}

/// The font commands wrap the translation of their brace group: `\mathrm` in
/// `upright`, `\mathbf` in `bold`, `\mathcal` and `\mathscr` in `cal`, and
/// `\mathbb` in `bb`; the text after the group is translated on its own.
pub proof fn font_commands_wrap_groups(x: Seq<char>, t: Seq<char>)
    requires
        balanced(x),
    ensures
        latex_math(seq!['\\'] + "mathrm"@ + seq!['{'] + x + seq!['}'] + t) == "upright("@ + latex_math(x)
            + seq![')'] + latex_math(t),
        latex_math(seq!['\\'] + "mathbf"@ + seq!['{'] + x + seq!['}'] + t) == "bold("@ + latex_math(x)
            + seq![')'] + latex_math(t),
        latex_math(seq!['\\'] + "mathcal"@ + seq!['{'] + x + seq!['}'] + t) == "cal("@ + latex_math(x)
            + seq![')'] + latex_math(t),
        latex_math(seq!['\\'] + "mathscr"@ + seq!['{'] + x + seq!['}'] + t) == "cal("@ + latex_math(x)
            + seq![')'] + latex_math(t),
        latex_math(seq!['\\'] + "mathbb"@ + seq!['{'] + x + seq!['}'] + t) == "bb("@ + latex_math(x)
            + seq![')'] + latex_math(t),
{
    lemma_structural_names();
    lemma_braced_command("mathrm"@, x, t);
    lemma_braced_command("mathbf"@, x, t);
    lemma_braced_command("mathcal"@, x, t);
    lemma_braced_command("mathscr"@, x, t);
    lemma_braced_command("mathbb"@, x, t);
    assert(("mathbb"@).len() + 1int < (seq!['\\'] + "mathbb"@ + seq!['{'] + x + seq!['}'] + t).len());
    assert((seq!['\\'] + "mathbb"@ + seq!['{'] + x + seq!['}'] + t)[("mathbb"@).len() + 1int] == '{');
}

/// `\text` gives the translation of its brace group, and `\operatorname`
/// the same with one pair of enclosing parentheses removed.
pub proof fn text_and_operator_names(x: Seq<char>, t: Seq<char>)
    requires
        balanced(x),
    ensures
        latex_math(seq!['\\'] + "text"@ + seq!['{'] + x + seq!['}'] + t) == latex_math(x) + latex_math(t),
        latex_math(seq!['\\'] + "operatorname"@ + seq!['{'] + x + seq!['}'] + t) == (if latex_math(x).len()
            > 0 && latex_math(x)[0] == '(' && latex_math(x).last() == ')' {
            latex_math(x).subrange(1, latex_math(x).len() - 1)
        } else {
            latex_math(x)
        }) + latex_math(t),
{
    lemma_structural_names();
    lemma_braced_command("text"@, x, t);
    lemma_braced_command("operatorname"@, x, t);
}

/// `\left` and `\right` keep the delimiter that follows them, drop `.` (no
/// delimiter) and an escaping backslash, and the text after the delimiter is
/// translated on its own.
pub proof fn left_and_right_keep_delimiters(d: char, t: Seq<char>)
    requires
        !is_letter(d),
    ensures
        latex_math(seq!['\\'] + "left"@ + seq![d] + t) == (if d == '.' || d == '\\' {
            Seq::<char>::empty()
        } else {
            seq![d]
        }) + latex_math(t),
        latex_math(seq!['\\'] + "right"@ + seq![d] + t) == (if d == '.' || d == '\\' {
            Seq::<char>::empty()
        } else {
            seq![d]
        }) + latex_math(t),
{
    lemma_structural_names();
    lemma_delimited("left"@, d, t);
    lemma_delimited("right"@, d, t);
}

proof fn lemma_delimited(k: Seq<char>, d: char, t: Seq<char>)
    requires
        k.len() > 0,
        forall|m: int| 0 <= m < k.len() ==> is_letter(#[trigger] k[m]),
        !is_letter(d),
    ensures
        ({
            let s = seq!['\\'] + k + seq![d] + t;
            let f = backslashes(s) + 1;
            &&& latex_math(s) == after_command(s, k.len() + 1int, k, f)
            &&& s[k.len() + 1int] == d
            &&& k.len() + 2int <= s.len()
            &&& run(s, k.len() + 2int, false, None, f) == latex_math(t)
        }),
{
    let a = seq!['\\'] + k + seq![d];
    let s = a + t;
    let f = backslashes(s) + 1;
    let p = k.len() + 1int;
    assert(s.subrange(1, p) == k);
    assert(s[p] == d);
    assert(s[0] == '\\');
    lemma_read_name(s, 1, k, false, f, 0);
    assert(k.take(0) == Seq::<char>::empty());
    assert(s.subrange(a.len() as int, s.len() as int) == t);
    lemma_part_backslashes(s, a.len() as int, s.len() as int);
    lemma_tail(a, t, f);
}

} // verus!
