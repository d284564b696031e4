//! LaTeX math rewritten in Typst math notation.
//!
//! The translator walks the characters once. A backslash starts a command
//! name made of ASCII letters; the name is looked up in a symbol table, or is
//! one of the structural commands (`\frac`, `\sqrt`, `\mathbb`, ...) whose
//! brace groups are translated recursively. Outside commands, consecutive
//! letters are separated by a space and braces become parentheses.
//!
//! Every recursive translation is entered right after a command backslash has
//! been consumed, and a translation never outputs more backslashes than it
//! reads, so the number of backslashes bounds the nesting depth. The
//! specification carries that bound as an explicit budget `f`.
use vstd::prelude::*;
use crate::text::{is_letter, is_white, letter, chars_of, string_of, push_str, push_chars, eq_str, first_non_white, sub_chars};

verus! {

/// Number of backslashes in a text.
pub open spec fn backslashes(s: Seq<char>) -> nat
    decreases s.len(),
{
    if s.len() == 0 {
        0
    } else {
        backslashes(s.drop_last()) + if s.last() == '\\' {
            1nat
        } else {
            0nat
        }
    }
}

pub(crate) proof fn lemma_plain(s: Seq<char>)
    requires
        forall|j: int| 0 <= j < s.len() ==> s[j] != '\\',
    ensures
        backslashes(s) == 0,
    decreases s.len(),
{
    if s.len() > 0 {
        lemma_plain(s.drop_last());
    }
}

proof fn lemma_backslash_alone()
    ensures
        backslashes("\\"@) == 1,
{
    reveal_strlit("\\");
    assert(backslashes("\\"@) == 1) by {
        reveal_with_fuel(backslashes, 2);
    }
}

pub(crate) proof fn lemma_backslashes_concat(a: Seq<char>, b: Seq<char>)
    ensures
        backslashes(a + b) == backslashes(a) + backslashes(b),
    decreases b.len(),
{
    if b.len() == 0 {
        assert(a + b == a);
    } else {
        lemma_backslashes_concat(a, b.drop_last());
        assert((a + b).drop_last() == a + b.drop_last());
    }
}

pub(crate) proof fn lemma_backslashes_one(c: char)
    ensures
        backslashes(seq![c]) == if c == '\\' { 1nat } else { 0nat },
{
    let e = Seq::<char>::empty();
    assert(seq![c].drop_last() == e);
    assert(backslashes(e) == 0);
    assert(seq![c].last() == c);
}

/// Splitting a range of the text splits its backslash count.
pub(crate) proof fn lemma_backslashes_split(s: Seq<char>, i: int, j: int, k: int)
    requires
        0 <= i <= j <= k <= s.len(),
    ensures
        backslashes(s.subrange(i, k)) == backslashes(s.subrange(i, j)) + backslashes(
            s.subrange(j, k),
        ),
{
    assert(s.subrange(i, k) == s.subrange(i, j) + s.subrange(j, k));
    lemma_backslashes_concat(s.subrange(i, j), s.subrange(j, k));
}

/// A range holds no more backslashes than a range around it.
pub(crate) proof fn lemma_backslashes_within(s: Seq<char>, a: int, i: int, j: int, b: int)
    requires
        0 <= a <= i <= j <= b <= s.len(),
    ensures
        backslashes(s.subrange(i, j)) <= backslashes(s.subrange(a, b)),
{
    lemma_backslashes_split(s, a, i, b);
    lemma_backslashes_split(s, i, j, b);
}

pub(crate) proof fn lemma_subrange_whole(s: Seq<char>)
    ensures
        s.subrange(0, s.len() as int) == s,
{
}

/// Commands after which a `_` or `^` is passed through untouched.
pub open spec fn limits_command(name: Seq<char>) -> bool {
    ||| name == "int"@
    ||| name == "iint"@
    ||| name == "iiint"@
    ||| name == "oint"@
    ||| name == "sum"@
    ||| name == "prod"@
}

/// Index of the first character at or after `i` that is not white space.
pub open spec fn skip_white(s: Seq<char>, i: int) -> int
    decreases s.len() - i,
{
    if 0 <= i < s.len() && is_white(s[i]) {
        skip_white(s, i + 1)
    } else {
        i
    }
}

/// After skipping white space from `i`, a brace group starts.
pub open spec fn brace_at(s: Seq<char>, i: int) -> bool {
    let k = skip_white(s, i);
    0 <= k < s.len() && s[k] == '{'
}

/// Index of the brace that closes a group whose nesting is `d` at `j`, or the
/// length of the text if the group is never closed.
pub open spec fn brace_close(s: Seq<char>, j: int, d: nat) -> int
    decreases s.len() - j,
{
    if j < 0 || j >= s.len() {
        s.len() as int
    } else if s[j] == '{' {
        brace_close(s, j + 1, d + 1)
    } else if s[j] == '}' {
        if d <= 1 {
            j
        } else {
            brace_close(s, j + 1, (d - 1) as nat)
        }
    } else {
        brace_close(s, j + 1, d)
    }
}

/// `prefix`, the translated argument and a closing parenthesis.
pub open spec fn wrapped(prefix: Seq<char>, arg: (Seq<char>, int)) -> (Seq<char>, int) {
    (prefix + arg.0 + seq![')'], arg.1)
}

/// The argument of `\operatorname` loses one pair of enclosing parentheses.
pub open spec fn strip_parens(a: Seq<char>) -> Seq<char> {
    if a.len() > 0 && a[0] == '(' && a.last() == ')' {
        a.subrange(1, a.len() - 1)
    } else {
        a
    }
}

/// Translation of a whole text with nesting budget `f`.
pub open spec fn translate(s: Seq<char>, f: nat) -> Seq<char>
    decreases f, s.len() + 2, 0int,
{
    run(s, 0, false, None, f)
}

/// Output produced from position `i` on. `prev_letter` tells whether the last
/// character written outside a command was a letter; `cmd` holds the command
/// name read so far while a command is being read. Any character but a letter
/// ends a name; a backslash that ends a name starts the next command, and one
/// that follows a lone backslash starts the command afresh.
pub open spec fn run(s: Seq<char>, i: int, prev_letter: bool, cmd: Option<Seq<char>>, f: nat) -> Seq<
    char,
>
    decreases f, s.len() + 1 - i, if cmd is Some {
        6int
    } else {
        5int
    },
{
    if i < 0 || i >= s.len() {
        seq![]
    } else {
        let c = s[i];
        if c == '\\' && !(cmd matches Some(b) && b.len() > 0) {
            run(s, i + 1, prev_letter, Some(seq![]), f)
        } else if cmd is Some {
            let buf = cmd->0;
            if is_letter(c) && i + 1 < s.len() {
                run(s, i + 1, prev_letter, Some(buf.push(c)), f)
            } else {
                let k = if is_letter(c) {
                    i + 1
                } else {
                    i
                };
                let name = if is_letter(c) {
                    buf.push(c)
                } else {
                    buf
                };
                let r = command(s, k, name, f);
                if r.1 <= k {
                    r.0 + run(s, k, false, None, f)
                } else if r.1 <= s.len() {
                    r.0 + run(s, r.1, false, None, f)
                } else {
                    r.0
                }
            }
        } else if is_letter(c) {
            (if prev_letter {
                seq![' ', c]
            } else {
                seq![c]
            }) + run(s, i + 1, true, None, f)
        } else if c == '{' {
            seq!['('] + run(s, i + 1, false, None, f)
        } else if c == '}' {
            seq![')'] + run(s, i + 1, false, None, f)
        } else {
            seq![c] + run(s, i + 1, false, None, f)
        }
    }
}

/// Output of the command `name` whose arguments start at `i`, and the index
/// after what it consumed.
pub open spec fn command(s: Seq<char>, i: int, name: Seq<char>, f: nat) -> (Seq<char>, int)
    decreases f, s.len() + 1 - i, 4int,
{
    if i < 0 || i > s.len() {
        (seq![], i)
    } else {
        match symbol(name) {
            Some(rep) => {
                if limits_command(name) && i < s.len() && (s[i] == '_' || s[i] == '^') {
                    (rep.push(s[i]), i + 1)
                } else {
                    (rep, i)
                }
            },
            None => {
                if name == "frac"@ {
                    let num = group(s, i, f);
                    if i <= num.1 <= s.len() {
                        let den = group(s, num.1, f);
                        (seq!['('] + num.0 + ")/("@ + den.0 + seq![')'], den.1)
                    } else {
                        (seq![], num.1)
                    }
                } else if name == "sqrt"@ {
                    if i < s.len() && s[i] == '[' {
                        let n = content(s, i + 1, ']', f);
                        if i + 1 <= n.1 <= s.len() {
                            let rad = group(s, n.1, f);
                            ("root("@ + n.0 + seq![','] + rad.0 + seq![')'], rad.1)
                        } else {
                            (seq![], n.1)
                        }
                    } else {
                        wrapped("sqrt("@, group(s, i, f))
                    }
                } else if name == "mathrm"@ {
                    wrapped("upright("@, group(s, i, f))
                } else if name == "mathbf"@ {
                    wrapped("bold("@, group(s, i, f))
                } else if name == "mathcal"@ || name == "mathscr"@ {
                    wrapped("cal("@, group(s, i, f))
                } else if name == "mathbb"@ {
                    if i < s.len() && s[i] == '{' {
                        wrapped("bb("@, group(s, i, f))
                    } else {
                        wrapped("frak("@, group(s, i, f))
                    }
                } else if name == "operatorname"@ {
                    let a = group(s, i, f);
                    (strip_parens(a.0), a.1)
                } else if name == "text"@ {
                    group(s, i, f)
                } else if name == "left"@ || name == "right"@ {
                    if i < s.len() {
                        (
                            if s[i] == '.' || s[i] == '\\' {
                                seq![]
                            } else {
                                seq![s[i]]
                            },
                            i + 1,
                        )
                    } else {
                        (seq![], i)
                    }
                } else {
                    (seq!['\\'] + name, i)
                }
            },
        }
    }
}

/// A command argument: a brace group, translated as a whole, or else the text
/// up to the next space.
pub open spec fn group(s: Seq<char>, i: int, f: nat) -> (Seq<char>, int)
    decreases f, s.len() + 1 - i, if brace_at(s, i) {
        0int
    } else {
        3int
    },
{
    let k = skip_white(s, i);
    if brace_at(s, i) {
        let close = brace_close(s, k + 1, 1);
        let next = if close < s.len() {
            close + 1
        } else {
            s.len() as int
        };
        if f == 0 {
            (seq![], next)
        } else {
            (translate(s.subrange(k + 1, close), (f - 1) as nat), next)
        }
    } else if i <= k <= s.len() {
        content(s, k, ' ', f)
    } else {
        (seq![], i)
    }
}

/// The text up to `term` (consumed), an unmatched `}` (not consumed) or the
/// end, with brace groups translated in place, then translated as a whole.
pub open spec fn content(s: Seq<char>, i: int, term: char, f: nat) -> (Seq<char>, int)
    decreases f, s.len() + 1 - i, 2int,
{
    let r = collect(s, i, term, f);
    if f == 0 {
        (seq![], r.1)
    } else {
        (translate(r.0, (f - 1) as nat), r.1)
    }
}

/// The raw text gathered by [`content`] before its final translation.
pub open spec fn collect(s: Seq<char>, i: int, term: char, f: nat) -> (Seq<char>, int)
    decreases f, s.len() + 1 - i, 1int,
{
    if i < 0 || i >= s.len() {
        (seq![], i)
    } else if s[i] == term {
        (seq![], i + 1)
    } else if s[i] == '{' {
        let g = group(s, i, f);
        if i < g.1 <= s.len() {
            let rest = collect(s, g.1, term, f);
            (seq!['{'] + g.0 + seq!['}'] + rest.0, rest.1)
        } else {
            (seq!['{'] + g.0 + seq!['}'], g.1)
        }
    } else if s[i] == '}' {
        (seq![], i)
    } else {
        let rest = collect(s, i + 1, term, f);
        (seq![s[i]] + rest.0, rest.1)
    }
}

/// What `latex_to_typst_math` makes of a text: its translation with a budget
/// of one more than its backslashes; any larger budget gives the same result
/// ([`math_budget_is_enough`]).
pub open spec fn latex_math(s: Seq<char>) -> Seq<char> {
    translate(s, backslashes(s) + 1)
}

/// The symbol table of named commands: LaTeX command name to Typst notation.
/// It is a chain of comparisons rather than a `HashMap` keyed by strings, so
/// that every lookup in it can be proved; a lookup in a string-keyed map
/// cannot be.
pub open spec fn symbol(name: Seq<char>) -> Option<Seq<char>> {
    if name == "int"@ {
        Some("integral"@)
    } else if name == "iint"@ {
        Some("integral.double"@)
    } else if name == "iiint"@ {
        Some("integral.triple"@)
    } else if name == "oint"@ {
        Some("integral.contour"@)
    } else if name == "infty"@ {
        Some("oo"@)
    } else if name == "sum"@ {
        Some("sum"@)
    } else if name == "prod"@ {
        Some("product"@)
    } else if name == "coprod"@ {
        Some("coprod"@)
    } else if name == "pi"@ {
        Some("pi"@)
    } else if name == "alpha"@ {
        Some("alpha"@)
    } else if name == "beta"@ {
        Some("beta"@)
    } else if name == "gamma"@ {
        Some("gamma"@)
    } else if name == "delta"@ {
        Some("delta"@)
    } else if name == "epsilon"@ {
        Some("epsilon"@)
    } else if name == "varepsilon"@ {
        Some("epsilon"@)
    } else if name == "zeta"@ {
        Some("zeta"@)
    } else if name == "eta"@ {
        Some("eta"@)
    } else if name == "theta"@ {
        Some("theta"@)
    } else if name == "vartheta"@ {
        Some("theta"@)
    } else if name == "iota"@ {
        Some("iota"@)
    } else if name == "kappa"@ {
        Some("kappa"@)
    } else if name == "lambda"@ {
        Some("lambda"@)
    } else if name == "mu"@ {
        Some("mu"@)
    } else if name == "nu"@ {
        Some("nu"@)
    } else if name == "xi"@ {
        Some("xi"@)
    } else if name == "rho"@ {
        Some("rho"@)
    } else if name == "varrho"@ {
        Some("rho"@)
    } else if name == "sigma"@ {
        Some("sigma"@)
    } else if name == "varsigma"@ {
        Some("sigma"@)
    } else if name == "tau"@ {
        Some("tau"@)
    } else if name == "upsilon"@ {
        Some("upsilon"@)
    } else if name == "phi"@ {
        Some("phi"@)
    } else if name == "varphi"@ {
        Some("varphi"@)
    } else if name == "chi"@ {
        Some("chi"@)
    } else if name == "psi"@ {
        Some("psi"@)
    } else if name == "omega"@ {
        Some("omega"@)
    } else if name == "Gamma"@ {
        Some("Gamma"@)
    } else if name == "Delta"@ {
        Some("Delta"@)
    } else if name == "Theta"@ {
        Some("Theta"@)
    } else if name == "Lambda"@ {
        Some("Lambda"@)
    } else if name == "Xi"@ {
        Some("Xi"@)
    } else if name == "Pi"@ {
        Some("Pi"@)
    } else if name == "Sigma"@ {
        Some("Sigma"@)
    } else if name == "Phi"@ {
        Some("Phi"@)
    } else if name == "Psi"@ {
        Some("Psi"@)
    } else if name == "Omega"@ {
        Some("Omega"@)
    } else if name == "to"@ {
        Some("->"@)
    } else if name == "rightarrow"@ {
        Some("->"@)
    } else if name == "Rightarrow"@ {
        Some("=>"@)
    } else if name == "leftarrow"@ {
        Some("<-"@)
    } else if name == "Leftarrow"@ {
        Some("<="@)
    } else if name == "leftrightarrow"@ {
        Some("<->"@)
    } else if name == "mapsto"@ {
        Some("|->"@)
    } else if name == "implies"@ {
        Some("=>"@)
    } else if name == "iff"@ {
        Some("<=>"@)
    } else if name == "partial"@ {
        Some("partial"@)
    } else if name == "nabla"@ {
        Some("nabla"@)
    } else if name == "forall"@ {
        Some("forall"@)
    } else if name == "exists"@ {
        Some("exists"@)
    } else if name == "nexists"@ {
        Some("not.exists"@)
    } else if name == "in"@ {
        Some("in"@)
    } else if name == "notin"@ {
        Some("not.in"@)
    } else if name == "subset"@ {
        Some("subset"@)
    } else if name == "subseteq"@ {
        Some("subset.eq"@)
    } else if name == "supset"@ {
        Some("supset"@)
    } else if name == "supseteq"@ {
        Some("supset.eq"@)
    } else if name == "cup"@ {
        Some("union"@)
    } else if name == "cap"@ {
        Some("intersect"@)
    } else if name == "emptyset"@ {
        Some("nothing"@)
    } else if name == "varnothing"@ {
        Some("nothing"@)
    } else if name == "sin"@ {
        Some("sin"@)
    } else if name == "cos"@ {
        Some("cos"@)
    } else if name == "tan"@ {
        Some("tan"@)
    } else if name == "csc"@ {
        Some("csc"@)
    } else if name == "sec"@ {
        Some("sec"@)
    } else if name == "cot"@ {
        Some("cot"@)
    } else if name == "sinh"@ {
        Some("sinh"@)
    } else if name == "cosh"@ {
        Some("cosh"@)
    } else if name == "tanh"@ {
        Some("tanh"@)
    } else if name == "arcsin"@ {
        Some("arcsin"@)
    } else if name == "arccos"@ {
        Some("arccos"@)
    } else if name == "arctan"@ {
        Some("arctan"@)
    } else if name == "log"@ {
        Some("log"@)
    } else if name == "ln"@ {
        Some("ln"@)
    } else if name == "lg"@ {
        Some("lg"@)
    } else if name == "lim"@ {
        Some("lim"@)
    } else if name == "det"@ {
        Some("det"@)
    } else if name == "gcd"@ {
        Some("gcd"@)
    } else if name == "lcm"@ {
        Some("lcm"@)
    } else if name == "max"@ {
        Some("max"@)
    } else if name == "min"@ {
        Some("min"@)
    } else if name == "sup"@ {
        Some("sup"@)
    } else if name == "inf"@ {
        Some("inf"@)
    } else if name == "arg"@ {
        Some("arg"@)
    } else if name == "deg"@ {
        Some("deg"@)
    } else if name == "dim"@ {
        Some("dim"@)
    } else if name == "hom"@ {
        Some("hom"@)
    } else if name == "ker"@ {
        Some("ker"@)
    } else if name == "Pr"@ {
        Some("Pr"@)
    } else if name == "exp"@ {
        Some("exp"@)
    } else if name == "approx"@ {
        Some("~="@)
    } else if name == "equiv"@ {
        Some("=="@)
    } else if name == "ne"@ {
        Some("!="@)
    } else if name == "neq"@ {
        Some("!="@)
    } else if name == "ge"@ {
        Some(">="@)
    } else if name == "geq"@ {
        Some(">="@)
    } else if name == "le"@ {
        Some("<="@)
    } else if name == "leq"@ {
        Some("<="@)
    } else if name == "times"@ {
        Some("*"@)
    } else if name == "div"@ {
        Some("/"@)
    } else if name == "pm"@ {
        Some("plus.minus"@)
    } else if name == "mp"@ {
        Some("minus.plus"@)
    } else if name == "cdot"@ {
        Some("dot"@)
    } else if name == "cdots"@ {
        Some(".."@)
    } else if name == "dots"@ {
        Some("..."@)
    } else if name == "ldots"@ {
        Some("..."@)
    } else if name == "circ"@ {
        Some("circ"@)
    } else if name == "bullet"@ {
        Some("bullet"@)
    } else if name == "star"@ {
        Some("star"@)
    } else if name == "ast"@ {
        Some("ast"@)
    } else if name == "dagger"@ {
        Some("dagger"@)
    } else if name == "ddagger"@ {
        Some("ddagger"@)
    } else if name == "setminus"@ {
        Some("\\"@)
    } else if name == "sim"@ {
        Some("~"@)
    } else if name == "simeq"@ {
        Some("~="@)
    } else if name == "cong"@ {
        Some("~="@)
    } else if name == "propto"@ {
        Some("prop"@)
    } else if name == "perp"@ {
        Some("perp"@)
    } else if name == "parallel"@ {
        Some("parallel"@)
    } else if name == "mid"@ {
        Some("|"@)
    } else if name == "ell"@ {
        Some("ell"@)
    } else if name == "hbar"@ {
        Some("hbar"@)
    } else if name == "hslash"@ {
        Some("hslash"@)
    } else if name == "Re"@ {
        Some("Re"@)
    } else if name == "Im"@ {
        Some("Im"@)
    } else if name == "aleph"@ {
        Some("aleph"@)
    } else if name == "prime"@ {
        Some("'"@)
    } else if name == "neg"@ {
        Some("not"@)
    } else if name == "lnot"@ {
        Some("not"@)
    } else if name == "wedge"@ {
        Some("and"@)
    } else if name == "land"@ {
        Some("and"@)
    } else if name == "vee"@ {
        Some("or"@)
    } else if name == "lor"@ {
        Some("or"@)
    } else if name == "oplus"@ {
        Some("oplus"@)
    } else if name == "ominus"@ {
        Some("ominus"@)
    } else if name == "otimes"@ {
        Some("otimes"@)
    } else if name == "oslash"@ {
        Some("oslash"@)
    } else if name == "odot"@ {
        Some("odot"@)
    } else if name == "angle"@ {
        Some("angle"@)
    } else if name == "measuredangle"@ {
        Some("angle"@)
    } else if name == "surd"@ {
        Some("surd"@)
    } else if name == "colon"@ {
        Some(":"@)
    } else if name == "vert"@ {
        Some("|"@)
    } else if name == "Vert"@ {
        Some("||"@)
    } else if name == "lvert"@ {
        Some("|"@)
    } else if name == "rvert"@ {
        Some("|"@)
    } else if name == "lVert"@ {
        Some("||"@)
    } else if name == "rVert"@ {
        Some("||"@)
    } else {
        None
    }
}

/// Looks a command name up in the symbol table, comparing the name with each
/// entry in turn.
pub fn symbol_for(name: &[char]) -> (r: Option<&'static str>)
    ensures
        match r {
            Some(t) => symbol(name@) == Some(t@),
            None => symbol(name@) is None,
        },
{
    if eq_str(name, "int") {
        Some("integral")
    } else if eq_str(name, "iint") {
        Some("integral.double")
    } else if eq_str(name, "iiint") {
        Some("integral.triple")
    } else if eq_str(name, "oint") {
        Some("integral.contour")
    } else if eq_str(name, "infty") {
        Some("oo")
    } else if eq_str(name, "sum") {
        Some("sum")
    } else if eq_str(name, "prod") {
        Some("product")
    } else if eq_str(name, "coprod") {
        Some("coprod")
    } else if eq_str(name, "pi") {
        Some("pi")
    } else if eq_str(name, "alpha") {
        Some("alpha")
    } else if eq_str(name, "beta") {
        Some("beta")
    } else if eq_str(name, "gamma") {
        Some("gamma")
    } else if eq_str(name, "delta") {
        Some("delta")
    } else if eq_str(name, "epsilon") {
        Some("epsilon")
    } else if eq_str(name, "varepsilon") {
        Some("epsilon")
    } else if eq_str(name, "zeta") {
        Some("zeta")
    } else if eq_str(name, "eta") {
        Some("eta")
    } else if eq_str(name, "theta") {
        Some("theta")
    } else if eq_str(name, "vartheta") {
        Some("theta")
    } else if eq_str(name, "iota") {
        Some("iota")
    } else if eq_str(name, "kappa") {
        Some("kappa")
    } else if eq_str(name, "lambda") {
        Some("lambda")
    } else if eq_str(name, "mu") {
        Some("mu")
    } else if eq_str(name, "nu") {
        Some("nu")
    } else if eq_str(name, "xi") {
        Some("xi")
    } else if eq_str(name, "rho") {
        Some("rho")
    } else if eq_str(name, "varrho") {
        Some("rho")
    } else if eq_str(name, "sigma") {
        Some("sigma")
    } else if eq_str(name, "varsigma") {
        Some("sigma")
    } else if eq_str(name, "tau") {
        Some("tau")
    } else if eq_str(name, "upsilon") {
        Some("upsilon")
    } else if eq_str(name, "phi") {
        Some("phi")
    } else if eq_str(name, "varphi") {
        Some("varphi")
    } else if eq_str(name, "chi") {
        Some("chi")
    } else if eq_str(name, "psi") {
        Some("psi")
    } else if eq_str(name, "omega") {
        Some("omega")
    } else if eq_str(name, "Gamma") {
        Some("Gamma")
    } else if eq_str(name, "Delta") {
        Some("Delta")
    } else if eq_str(name, "Theta") {
        Some("Theta")
    } else if eq_str(name, "Lambda") {
        Some("Lambda")
    } else if eq_str(name, "Xi") {
        Some("Xi")
    } else if eq_str(name, "Pi") {
        Some("Pi")
    } else if eq_str(name, "Sigma") {
        Some("Sigma")
    } else if eq_str(name, "Phi") {
        Some("Phi")
    } else if eq_str(name, "Psi") {
        Some("Psi")
    } else if eq_str(name, "Omega") {
        Some("Omega")
    } else if eq_str(name, "to") {
        Some("->")
    } else if eq_str(name, "rightarrow") {
        Some("->")
    } else if eq_str(name, "Rightarrow") {
        Some("=>")
    } else if eq_str(name, "leftarrow") {
        Some("<-")
    } else if eq_str(name, "Leftarrow") {
        Some("<=")
    } else if eq_str(name, "leftrightarrow") {
        Some("<->")
    } else if eq_str(name, "mapsto") {
        Some("|->")
    } else if eq_str(name, "implies") {
        Some("=>")
    } else if eq_str(name, "iff") {
        Some("<=>")
    } else if eq_str(name, "partial") {
        Some("partial")
    } else if eq_str(name, "nabla") {
        Some("nabla")
    } else if eq_str(name, "forall") {
        Some("forall")
    } else if eq_str(name, "exists") {
        Some("exists")
    } else if eq_str(name, "nexists") {
        Some("not.exists")
    } else if eq_str(name, "in") {
        Some("in")
    } else if eq_str(name, "notin") {
        Some("not.in")
    } else if eq_str(name, "subset") {
        Some("subset")
    } else if eq_str(name, "subseteq") {
        Some("subset.eq")
    } else if eq_str(name, "supset") {
        Some("supset")
    } else if eq_str(name, "supseteq") {
        Some("supset.eq")
    } else if eq_str(name, "cup") {
        Some("union")
    } else if eq_str(name, "cap") {
        Some("intersect")
    } else if eq_str(name, "emptyset") {
        Some("nothing")
    } else if eq_str(name, "varnothing") {
        Some("nothing")
    } else if eq_str(name, "sin") {
        Some("sin")
    } else if eq_str(name, "cos") {
        Some("cos")
    } else if eq_str(name, "tan") {
        Some("tan")
    } else if eq_str(name, "csc") {
        Some("csc")
    } else if eq_str(name, "sec") {
        Some("sec")
    } else if eq_str(name, "cot") {
        Some("cot")
    } else if eq_str(name, "sinh") {
        Some("sinh")
    } else if eq_str(name, "cosh") {
        Some("cosh")
    } else if eq_str(name, "tanh") {
        Some("tanh")
    } else if eq_str(name, "arcsin") {
        Some("arcsin")
    } else if eq_str(name, "arccos") {
        Some("arccos")
    } else if eq_str(name, "arctan") {
        Some("arctan")
    } else if eq_str(name, "log") {
        Some("log")
    } else if eq_str(name, "ln") {
        Some("ln")
    } else if eq_str(name, "lg") {
        Some("lg")
    } else if eq_str(name, "lim") {
        Some("lim")
    } else if eq_str(name, "det") {
        Some("det")
    } else if eq_str(name, "gcd") {
        Some("gcd")
    } else if eq_str(name, "lcm") {
        Some("lcm")
    } else if eq_str(name, "max") {
        Some("max")
    } else if eq_str(name, "min") {
        Some("min")
    } else if eq_str(name, "sup") {
        Some("sup")
    } else if eq_str(name, "inf") {
        Some("inf")
    } else if eq_str(name, "arg") {
        Some("arg")
    } else if eq_str(name, "deg") {
        Some("deg")
    } else if eq_str(name, "dim") {
        Some("dim")
    } else if eq_str(name, "hom") {
        Some("hom")
    } else if eq_str(name, "ker") {
        Some("ker")
    } else if eq_str(name, "Pr") {
        Some("Pr")
    } else if eq_str(name, "exp") {
        Some("exp")
    } else if eq_str(name, "approx") {
        Some("~=")
    } else if eq_str(name, "equiv") {
        Some("==")
    } else if eq_str(name, "ne") {
        Some("!=")
    } else if eq_str(name, "neq") {
        Some("!=")
    } else if eq_str(name, "ge") {
        Some(">=")
    } else if eq_str(name, "geq") {
        Some(">=")
    } else if eq_str(name, "le") {
        Some("<=")
    } else if eq_str(name, "leq") {
        Some("<=")
    } else if eq_str(name, "times") {
        Some("*")
    } else if eq_str(name, "div") {
        Some("/")
    } else if eq_str(name, "pm") {
        Some("plus.minus")
    } else if eq_str(name, "mp") {
        Some("minus.plus")
    } else if eq_str(name, "cdot") {
        Some("dot")
    } else if eq_str(name, "cdots") {
        Some("..")
    } else if eq_str(name, "dots") {
        Some("...")
    } else if eq_str(name, "ldots") {
        Some("...")
    } else if eq_str(name, "circ") {
        Some("circ")
    } else if eq_str(name, "bullet") {
        Some("bullet")
    } else if eq_str(name, "star") {
        Some("star")
    } else if eq_str(name, "ast") {
        Some("ast")
    } else if eq_str(name, "dagger") {
        Some("dagger")
    } else if eq_str(name, "ddagger") {
        Some("ddagger")
    } else if eq_str(name, "setminus") {
        Some("\\")
    } else if eq_str(name, "sim") {
        Some("~")
    } else if eq_str(name, "simeq") {
        Some("~=")
    } else if eq_str(name, "cong") {
        Some("~=")
    } else if eq_str(name, "propto") {
        Some("prop")
    } else if eq_str(name, "perp") {
        Some("perp")
    } else if eq_str(name, "parallel") {
        Some("parallel")
    } else if eq_str(name, "mid") {
        Some("|")
    } else if eq_str(name, "ell") {
        Some("ell")
    } else if eq_str(name, "hbar") {
        Some("hbar")
    } else if eq_str(name, "hslash") {
        Some("hslash")
    } else if eq_str(name, "Re") {
        Some("Re")
    } else if eq_str(name, "Im") {
        Some("Im")
    } else if eq_str(name, "aleph") {
        Some("aleph")
    } else if eq_str(name, "prime") {
        Some("'")
    } else if eq_str(name, "neg") {
        Some("not")
    } else if eq_str(name, "lnot") {
        Some("not")
    } else if eq_str(name, "wedge") {
        Some("and")
    } else if eq_str(name, "land") {
        Some("and")
    } else if eq_str(name, "vee") {
        Some("or")
    } else if eq_str(name, "lor") {
        Some("or")
    } else if eq_str(name, "oplus") {
        Some("oplus")
    } else if eq_str(name, "ominus") {
        Some("ominus")
    } else if eq_str(name, "otimes") {
        Some("otimes")
    } else if eq_str(name, "oslash") {
        Some("oslash")
    } else if eq_str(name, "odot") {
        Some("odot")
    } else if eq_str(name, "angle") {
        Some("angle")
    } else if eq_str(name, "measuredangle") {
        Some("angle")
    } else if eq_str(name, "surd") {
        Some("surd")
    } else if eq_str(name, "colon") {
        Some(":")
    } else if eq_str(name, "vert") {
        Some("|")
    } else if eq_str(name, "Vert") {
        Some("||")
    } else if eq_str(name, "lvert") {
        Some("|")
    } else if eq_str(name, "rvert") {
        Some("|")
    } else if eq_str(name, "lVert") {
        Some("||")
    } else if eq_str(name, "rVert") {
        Some("||")
    } else {
        None
    }
}
/// No symbol holds more than one backslash.
proof fn lemma_symbol_backslashes(name: Seq<char>)
    ensures
        symbol(name) matches Some(r) ==> backslashes(r) <= 1,
{
    reveal_strlit("!=");
    lemma_plain("!="@);
    reveal_strlit("'");
    lemma_plain("'"@);
    reveal_strlit("*");
    lemma_plain("*"@);
    reveal_strlit("->");
    lemma_plain("->"@);
    reveal_strlit("..");
    lemma_plain(".."@);
    reveal_strlit("...");
    lemma_plain("..."@);
    reveal_strlit("/");
    lemma_plain("/"@);
    reveal_strlit(":");
    lemma_plain(":"@);
    reveal_strlit("<-");
    lemma_plain("<-"@);
    reveal_strlit("<->");
    lemma_plain("<->"@);
    reveal_strlit("<=");
    lemma_plain("<="@);
    reveal_strlit("<=>");
    lemma_plain("<=>"@);
    reveal_strlit("==");
    lemma_plain("=="@);
    reveal_strlit("=>");
    lemma_plain("=>"@);
    reveal_strlit(">=");
    lemma_plain(">="@);
    reveal_strlit("Delta");
    lemma_plain("Delta"@);
    reveal_strlit("Gamma");
    lemma_plain("Gamma"@);
    reveal_strlit("Im");
    lemma_plain("Im"@);
    reveal_strlit("Lambda");
    lemma_plain("Lambda"@);
    reveal_strlit("Omega");
    lemma_plain("Omega"@);
    reveal_strlit("Phi");
    lemma_plain("Phi"@);
    reveal_strlit("Pi");
    lemma_plain("Pi"@);
    reveal_strlit("Pr");
    lemma_plain("Pr"@);
    reveal_strlit("Psi");
    lemma_plain("Psi"@);
    reveal_strlit("Re");
    lemma_plain("Re"@);
    reveal_strlit("Sigma");
    lemma_plain("Sigma"@);
    reveal_strlit("Theta");
    lemma_plain("Theta"@);
    reveal_strlit("Xi");
    lemma_plain("Xi"@);
    reveal_strlit("\\");
    lemma_backslash_alone();
    reveal_strlit("aleph");
    lemma_plain("aleph"@);
    reveal_strlit("alpha");
    lemma_plain("alpha"@);
    reveal_strlit("and");
    lemma_plain("and"@);
    reveal_strlit("angle");
    lemma_plain("angle"@);
    reveal_strlit("arccos");
    lemma_plain("arccos"@);
    reveal_strlit("arcsin");
    lemma_plain("arcsin"@);
    reveal_strlit("arctan");
    lemma_plain("arctan"@);
    reveal_strlit("arg");
    lemma_plain("arg"@);
    reveal_strlit("ast");
    lemma_plain("ast"@);
    reveal_strlit("beta");
    lemma_plain("beta"@);
    reveal_strlit("bullet");
    lemma_plain("bullet"@);
    reveal_strlit("chi");
    lemma_plain("chi"@);
    reveal_strlit("circ");
    lemma_plain("circ"@);
    reveal_strlit("coprod");
    lemma_plain("coprod"@);
    reveal_strlit("cos");
    lemma_plain("cos"@);
    reveal_strlit("cosh");
    lemma_plain("cosh"@);
    reveal_strlit("cot");
    lemma_plain("cot"@);
    reveal_strlit("csc");
    lemma_plain("csc"@);
    reveal_strlit("dagger");
    lemma_plain("dagger"@);
    reveal_strlit("ddagger");
    lemma_plain("ddagger"@);
    reveal_strlit("deg");
    lemma_plain("deg"@);
    reveal_strlit("delta");
    lemma_plain("delta"@);
    reveal_strlit("det");
    lemma_plain("det"@);
    reveal_strlit("dim");
    lemma_plain("dim"@);
    reveal_strlit("dot");
    lemma_plain("dot"@);
    reveal_strlit("ell");
    lemma_plain("ell"@);
    reveal_strlit("epsilon");
    lemma_plain("epsilon"@);
    reveal_strlit("eta");
    lemma_plain("eta"@);
    reveal_strlit("exists");
    lemma_plain("exists"@);
    reveal_strlit("exp");
    lemma_plain("exp"@);
    reveal_strlit("forall");
    lemma_plain("forall"@);
    reveal_strlit("gamma");
    lemma_plain("gamma"@);
    reveal_strlit("gcd");
    lemma_plain("gcd"@);
    reveal_strlit("hbar");
    lemma_plain("hbar"@);
    reveal_strlit("hom");
    lemma_plain("hom"@);
    reveal_strlit("hslash");
    lemma_plain("hslash"@);
    reveal_strlit("in");
    lemma_plain("in"@);
    reveal_strlit("inf");
    lemma_plain("inf"@);
    reveal_strlit("integral");
    lemma_plain("integral"@);
    reveal_strlit("integral.contour");
    lemma_plain("integral.contour"@);
    reveal_strlit("integral.double");
    lemma_plain("integral.double"@);
    reveal_strlit("integral.triple");
    lemma_plain("integral.triple"@);
    reveal_strlit("intersect");
    lemma_plain("intersect"@);
    reveal_strlit("iota");
    lemma_plain("iota"@);
    reveal_strlit("kappa");
    lemma_plain("kappa"@);
    reveal_strlit("ker");
    lemma_plain("ker"@);
    reveal_strlit("lambda");
    lemma_plain("lambda"@);
    reveal_strlit("lcm");
    lemma_plain("lcm"@);
    reveal_strlit("lg");
    lemma_plain("lg"@);
    reveal_strlit("lim");
    lemma_plain("lim"@);
    reveal_strlit("ln");
    lemma_plain("ln"@);
    reveal_strlit("log");
    lemma_plain("log"@);
    reveal_strlit("max");
    lemma_plain("max"@);
    reveal_strlit("min");
    lemma_plain("min"@);
    reveal_strlit("minus.plus");
    lemma_plain("minus.plus"@);
    reveal_strlit("mu");
    lemma_plain("mu"@);
    reveal_strlit("nabla");
    lemma_plain("nabla"@);
    reveal_strlit("not");
    lemma_plain("not"@);
    reveal_strlit("not.exists");
    lemma_plain("not.exists"@);
    reveal_strlit("not.in");
    lemma_plain("not.in"@);
    reveal_strlit("nothing");
    lemma_plain("nothing"@);
    reveal_strlit("nu");
    lemma_plain("nu"@);
    reveal_strlit("odot");
    lemma_plain("odot"@);
    reveal_strlit("omega");
    lemma_plain("omega"@);
    reveal_strlit("ominus");
    lemma_plain("ominus"@);
    reveal_strlit("oo");
    lemma_plain("oo"@);
    reveal_strlit("oplus");
    lemma_plain("oplus"@);
    reveal_strlit("or");
    lemma_plain("or"@);
    reveal_strlit("oslash");
    lemma_plain("oslash"@);
    reveal_strlit("otimes");
    lemma_plain("otimes"@);
    reveal_strlit("parallel");
    lemma_plain("parallel"@);
    reveal_strlit("partial");
    lemma_plain("partial"@);
    reveal_strlit("perp");
    lemma_plain("perp"@);
    reveal_strlit("phi");
    lemma_plain("phi"@);
    reveal_strlit("pi");
    lemma_plain("pi"@);
    reveal_strlit("plus.minus");
    lemma_plain("plus.minus"@);
    reveal_strlit("product");
    lemma_plain("product"@);
    reveal_strlit("prop");
    lemma_plain("prop"@);
    reveal_strlit("psi");
    lemma_plain("psi"@);
    reveal_strlit("rho");
    lemma_plain("rho"@);
    reveal_strlit("sec");
    lemma_plain("sec"@);
    reveal_strlit("sigma");
    lemma_plain("sigma"@);
    reveal_strlit("sin");
    lemma_plain("sin"@);
    reveal_strlit("sinh");
    lemma_plain("sinh"@);
    reveal_strlit("star");
    lemma_plain("star"@);
    reveal_strlit("subset");
    lemma_plain("subset"@);
    reveal_strlit("subset.eq");
    lemma_plain("subset.eq"@);
    reveal_strlit("sum");
    lemma_plain("sum"@);
    reveal_strlit("sup");
    lemma_plain("sup"@);
    reveal_strlit("supset");
    lemma_plain("supset"@);
    reveal_strlit("supset.eq");
    lemma_plain("supset.eq"@);
    reveal_strlit("surd");
    lemma_plain("surd"@);
    reveal_strlit("tan");
    lemma_plain("tan"@);
    reveal_strlit("tanh");
    lemma_plain("tanh"@);
    reveal_strlit("tau");
    lemma_plain("tau"@);
    reveal_strlit("theta");
    lemma_plain("theta"@);
    reveal_strlit("union");
    lemma_plain("union"@);
    reveal_strlit("upsilon");
    lemma_plain("upsilon"@);
    reveal_strlit("varphi");
    lemma_plain("varphi"@);
    reveal_strlit("xi");
    lemma_plain("xi"@);
    reveal_strlit("zeta");
    lemma_plain("zeta"@);
    reveal_strlit("|");
    lemma_plain("|"@);
    reveal_strlit("|->");
    lemma_plain("|->"@);
    reveal_strlit("||");
    lemma_plain("||"@);
    reveal_strlit("~");
    lemma_plain("~"@);
    reveal_strlit("~=");
    lemma_plain("~="@);
}

pub(crate) proof fn lemma_skip_white(s: Seq<char>, i: int, k: int)
    requires
        0 <= i <= k <= s.len(),
        forall|j: int| i <= j < k ==> is_white(#[trigger] s[j]),
        k < s.len() ==> !is_white(s[k]),
    ensures
        skip_white(s, i) == k,
    decreases k - i,
{
    if i < k {
        lemma_skip_white(s, i + 1, k);
    }
}

pub(crate) proof fn lemma_brace_close(s: Seq<char>, j: int, d: nat)
    requires
        0 <= j <= s.len(),
    ensures
        j <= brace_close(s, j, d) <= s.len(),
        brace_close(s, j, d) < s.len() ==> s[brace_close(s, j, d)] == '}',
    decreases s.len() - j,
{
    if j < s.len() {
        if s[j] == '{' {
            lemma_brace_close(s, j + 1, d + 1);
        } else if s[j] == '}' {
            if d > 1 {
                lemma_brace_close(s, j + 1, (d - 1) as nat);
            }
        } else {
            lemma_brace_close(s, j + 1, d);
        }
    }
}

proof fn lemma_fixed_words()
    ensures
        backslashes(")/("@) == 0,
        backslashes("root("@) == 0,
        backslashes("sqrt("@) == 0,
        backslashes("upright("@) == 0,
        backslashes("bold("@) == 0,
        backslashes("cal("@) == 0,
        backslashes("bb("@) == 0,
        backslashes("frak("@) == 0,
{
    reveal_strlit(")/(");
    lemma_plain(")/("@);
    reveal_strlit("root(");
    lemma_plain("root("@);
    reveal_strlit("sqrt(");
    lemma_plain("sqrt("@);
    reveal_strlit("upright(");
    lemma_plain("upright("@);
    reveal_strlit("bold(");
    lemma_plain("bold("@);
    reveal_strlit("cal(");
    lemma_plain("cal("@);
    reveal_strlit("bb(");
    lemma_plain("bb("@);
    reveal_strlit("frak(");
    lemma_plain("frak("@);
}

proof fn lemma_backslashes_wrap(a: Seq<char>, b: Seq<char>, c: Seq<char>)
    ensures
        backslashes(a + b + c) == backslashes(a) + backslashes(b) + backslashes(c),
{
    lemma_backslashes_concat(a, b);
    lemma_backslashes_concat(a + b, c);
}

fn is_limits(name: &[char]) -> (b: bool)
    ensures
        b == limits_command(name@),
{
    eq_str(name, "int") || eq_str(name, "iint") || eq_str(name, "iiint") || eq_str(name, "oint")
        || eq_str(name, "sum") || eq_str(name, "prod")
}

/// Index of the brace closing the group opened at `k`, or the length.
fn brace_scan(s: &[char], k: usize) -> (r: usize)
    requires
        k < s.len(),
        s@[k as int] == '{',
    ensures
        r as int == brace_close(s@, k + 1, 1),
        k + 1 <= r <= s.len(),
        r < s.len() ==> s@[r as int] == '}',
{
    proof {
        lemma_brace_close(s@, k + 1, 1);
    }
    let mut j = k + 1;
    let mut depth: usize = 1;
    while j < s.len()
        invariant
            k + 1 <= j <= s.len(),
            1 <= depth <= j - k,
            brace_close(s@, k + 1, 1) == brace_close(s@, j as int, depth as nat),
        decreases s.len() - j,
    {
        if s[j] == '{' {
            depth = depth + 1;
            j = j + 1;
        } else if s[j] == '}' {
            if depth == 1 {
                return j;
            }
            depth = depth - 1;
            j = j + 1;
        } else {
            j = j + 1;
        }
    }
    j
}

/// The argument of `\operatorname` without one pair of enclosing parentheses.
fn strip_parens_chars(a: Vec<char>) -> (r: Vec<char>)
    ensures
        r@ == strip_parens(a@),
        backslashes(r@) <= backslashes(a@),
{
    if a.len() > 0 && a[0] == '(' && a[a.len() - 1] == ')' {
        let r = sub_chars(&a, 1, a.len() - 1);
        proof {
            lemma_backslashes_within(a@, 0, 1, a@.len() - 1, a@.len() as int);
            lemma_subrange_whole(a@);
        }
        r
    } else {
        a
    }
}

/// `prefix`, the argument and a closing parenthesis, as in [`wrapped`].
fn wrap_chars(prefix: &str, arg: (Vec<char>, usize)) -> (r: (Vec<char>, usize))
    ensures
        (r.0@, r.1 as int) == wrapped(prefix@, (arg.0@, arg.1 as int)),
        backslashes(r.0@) == backslashes(prefix@) + backslashes(arg.0@),
{
    let (mut a, j) = arg;
    let mut out: Vec<char> = Vec::new();
    push_str(&mut out, prefix);
    let ghost av = a@;
    out.append(&mut a);
    out.push(')');
    proof {
        assert(seq![] + prefix@ == prefix@);
        assert(out@ == prefix@ + av + seq![')']);
        lemma_backslashes_wrap(prefix@, av, seq![')']);
        lemma_backslashes_one(')');
    }
    (out, j)
}

fn command_chars(s: &[char], i: usize, name: &[char], Ghost(f): Ghost<nat>) -> (r: (
    Vec<char>,
    usize,
))
    requires
        i <= s.len(),
        f >= backslashes(s@.subrange(i as int, s@.len() as int)) + 2,
        backslashes(name@) == 0,
    ensures
        (r.0@, r.1 as int) == command(s@, i as int, name@, f),
        i <= r.1 <= s.len(),
        backslashes(r.0@) <= backslashes(s@.subrange(i as int, r.1 as int)) + 1,
    decreases f, s@.len() + 1 - i, 4int,
{
    let n = s.len();
    let ghost sv = s@;
    proof {
        lemma_fixed_words();
        lemma_backslashes_one('(');
        lemma_backslashes_one(')');
        lemma_backslashes_one(',');
    }
    match symbol_for(name) {
        Some(rep) => {
            let mut out: Vec<char> = Vec::new();
            push_str(&mut out, rep);
            proof {
                lemma_symbol_backslashes(name@);
                assert(seq![] + rep@ == rep@);
            }
            if is_limits(name) && i < n && (s[i] == '_' || s[i] == '^') {
                out.push(s[i]);
                proof {
                    lemma_backslashes_concat(rep@, seq![s@[i as int]]);
                    lemma_backslashes_one(s@[i as int]);
                    assert(rep@.push(s@[i as int]) == rep@ + seq![s@[i as int]]);
                }
                (out, i + 1)
            } else {
                (out, i)
            }
        },
        None => {
            if eq_str(name, "frac") {
                let (mut num, j) = group_chars(s, i, Ghost(f));
                proof {
                    lemma_backslashes_within(sv, i as int, j as int, n as int, n as int);
                }
                let (mut den, k) = group_chars(s, j, Ghost(f));
                let ghost nv = num@;
                let ghost dv = den@;
                let mut out: Vec<char> = Vec::new();
                out.push('(');
                out.append(&mut num);
                push_str(&mut out, ")/(");
                out.append(&mut den);
                out.push(')');
                proof {
                    assert(out@ == seq!['('] + nv + ")/("@ + dv + seq![')']);
                    lemma_backslashes_wrap(seq!['('], nv, ")/("@);
                    lemma_backslashes_wrap(seq!['('] + nv + ")/("@, dv, seq![')']);
                    lemma_backslashes_split(sv, i as int, j as int, k as int);
                }
                (out, k)
            } else if eq_str(name, "sqrt") {
                if i < n && s[i] == '[' {
                    proof {
                        lemma_backslashes_within(sv, i as int, i + 1, n as int, n as int);
                    }
                    let (mut deg, j) = content_chars(s, i + 1, ']', Ghost(f));
                    proof {
                        lemma_backslashes_within(sv, i as int, j as int, n as int, n as int);
                    }
                    let (mut rad, k) = group_chars(s, j, Ghost(f));
                    let ghost gv = deg@;
                    let ghost rv = rad@;
                    let mut out: Vec<char> = Vec::new();
                    push_str(&mut out, "root(");
                    out.append(&mut deg);
                    out.push(',');
                    out.append(&mut rad);
                    out.push(')');
                    proof {
                        assert(out@ == "root("@ + gv + seq![','] + rv + seq![')']);
                        lemma_backslashes_wrap("root("@, gv, seq![',']);
                        lemma_backslashes_wrap("root("@ + gv + seq![','], rv, seq![')']);
                        lemma_backslashes_split(sv, i as int, i + 1, j as int);
                        lemma_backslashes_split(sv, i as int, j as int, k as int);
                    }
                    (out, k)
                } else {
                    let g = group_chars(s, i, Ghost(f));
                    wrap_chars("sqrt(", g)
                }
            } else if eq_str(name, "mathrm") {
                let g = group_chars(s, i, Ghost(f));
                wrap_chars("upright(", g)
            } else if eq_str(name, "mathbf") {
                let g = group_chars(s, i, Ghost(f));
                wrap_chars("bold(", g)
            } else if eq_str(name, "mathcal") || eq_str(name, "mathscr") {
                let g = group_chars(s, i, Ghost(f));
                wrap_chars("cal(", g)
            } else if eq_str(name, "mathbb") {
                if i < n && s[i] == '{' {
                    let g = group_chars(s, i, Ghost(f));
                    wrap_chars("bb(", g)
                } else {
                    let g = group_chars(s, i, Ghost(f));
                    wrap_chars("frak(", g)
                }
            } else if eq_str(name, "operatorname") {
                let (a, j) = group_chars(s, i, Ghost(f));
                (strip_parens_chars(a), j)
            } else if eq_str(name, "text") {
                group_chars(s, i, Ghost(f))
            } else if eq_str(name, "left") || eq_str(name, "right") {
                if i < n {
                    let c = s[i];
                    let mut out: Vec<char> = Vec::new();
                    if c != '.' && c != '\\' {
                        out.push(c);
                        proof {
                            lemma_backslashes_one(c);
                            assert(out@ == seq![c]);
                        }
                    }
                    (out, i + 1)
                } else {
                    (Vec::new(), i)
                }
            } else {
                let mut out: Vec<char> = Vec::new();
                out.push('\\');
                push_chars(&mut out, name);
                proof {
                    assert(out@ == seq!['\\'] + name@);
                    lemma_backslashes_concat(seq!['\\'], name@);
                    lemma_backslashes_one('\\');
                }
                (out, i)
            }
        },
    }
}

fn group_chars(s: &[char], i: usize, Ghost(f): Ghost<nat>) -> (r: (Vec<char>, usize))
    requires
        i <= s.len(),
        f >= backslashes(s@.subrange(i as int, s@.len() as int)) + 2,
    ensures
        (r.0@, r.1 as int) == group(s@, i as int, f),
        i <= r.1 <= s.len(),
        brace_at(s@, i as int) ==> i < r.1,
        backslashes(r.0@) <= backslashes(s@.subrange(i as int, r.1 as int)),
    decreases f, s@.len() + 1 - i, if brace_at(s@, i as int) {
        0int
    } else {
        3int
    },
{
    let n = s.len();
    let k = first_non_white(s, i);
    proof {
        lemma_skip_white(s@, i as int, k as int);
    }
    if k < n && s[k] == '{' {
        let close = brace_scan(s, k);
        let inner = sub_chars(s, k + 1, close);
        let next = if close < n {
            close + 1
        } else {
            n
        };
        proof {
            lemma_backslashes_within(s@, i as int, k + 1, close as int, n as int);
            lemma_backslashes_within(s@, i as int, k + 1, close as int, next as int);
        }
        let t = translate_chars(&inner, Ghost((f - 1) as nat));
        (t, next)
    } else {
        proof {
            lemma_backslashes_within(s@, i as int, k as int, n as int, n as int);
        }
        let r = content_chars(s, k, ' ', Ghost(f));
        proof {
            lemma_backslashes_within(s@, i as int, k as int, r.1 as int, r.1 as int);
        }
        r
    }
}

fn content_chars(s: &[char], i: usize, term: char, Ghost(f): Ghost<nat>) -> (r: (Vec<char>, usize))
    requires
        i <= s.len(),
        f >= backslashes(s@.subrange(i as int, s@.len() as int)) + 2,
    ensures
        (r.0@, r.1 as int) == content(s@, i as int, term, f),
        i <= r.1 <= s.len(),
        backslashes(r.0@) <= backslashes(s@.subrange(i as int, r.1 as int)),
    decreases f, s@.len() + 1 - i, 2int,
{
    let n = s.len();
    let mut raw: Vec<char> = Vec::new();
    let mut j = i;
    let mut done = false;
    while j < n && !done
        invariant
            n == s@.len(),
            i <= j <= n,
            f >= backslashes(s@.subrange(i as int, n as int)) + 2,
            done ==> collect(s@, i as int, term, f) == (raw@, j as int),
            !done ==> collect(s@, i as int, term, f) == (raw@ + collect(s@, j as int, term, f).0,
                collect(s@, j as int, term, f).1),
            backslashes(raw@) <= backslashes(s@.subrange(i as int, j as int)),
        decreases n - j, if done {
            0int
        } else {
            1int
        },
    {
        let c = s[j];
        proof {
            lemma_backslashes_split(s@, i as int, j as int, j + 1);
            lemma_backslashes_one(c);
            assert(s@.subrange(j as int, j + 1) == seq![c]);
        }
        if c == term {
            j = j + 1;
            done = true;
            proof {
                assert(raw@ + seq![] == raw@);
            }
        } else if c == '{' {
            proof {
                lemma_skip_white(s@, j as int, j as int);
                lemma_backslashes_within(s@, i as int, j as int, n as int, n as int);
            }
            let (mut g, e) = group_chars(s, j, Ghost(f));
            let ghost old_raw = raw@;
            let ghost gv = g@;
            raw.push('{');
            raw.append(&mut g);
            raw.push('}');
            proof {
                assert(raw@ == old_raw + (seq!['{'] + gv + seq!['}']));
                lemma_backslashes_wrap(seq!['{'], gv, seq!['}']);
                lemma_backslashes_one('{');
                lemma_backslashes_one('}');
                lemma_backslashes_concat(old_raw, seq!['{'] + gv + seq!['}']);
                lemma_backslashes_split(s@, i as int, j as int, e as int);
                let rest = collect(s@, e as int, term, f);
                assert(old_raw + (seq!['{'] + gv + seq!['}'] + rest.0) == raw@ + rest.0);
            }
            j = e;
        } else if c == '}' {
            done = true;
            proof {
                assert(raw@ + seq![] == raw@);
            }
        } else {
            let ghost old_raw = raw@;
            raw.push(c);
            proof {
                assert(raw@ == old_raw + seq![c]);
                lemma_backslashes_concat(old_raw, seq![c]);
                let rest = collect(s@, j + 1, term, f);
                assert(old_raw + (seq![c] + rest.0) == raw@ + rest.0);
            }
            j = j + 1;
        }
    }
    proof {
        if !done {
            assert(raw@ + seq![] == raw@);
        }
        lemma_backslashes_within(s@, i as int, i as int, j as int, n as int);
    }
    let t = translate_chars(&raw, Ghost((f - 1) as nat));
    (t, j)
}

fn translate_chars(s: &[char], Ghost(f): Ghost<nat>) -> (r: Vec<char>)
    requires
        f > backslashes(s@),
    ensures
        r@ == translate(s@, f),
        backslashes(r@) <= backslashes(s@),
    decreases f, s@.len() + 2, 0int,
{
    let n = s.len();
    let mut out: Vec<char> = Vec::new();
    let mut prev_letter = false;
    let mut in_cmd = false;
    let mut buf: Vec<char> = Vec::new();
    let mut i: usize = 0;
    proof {
        lemma_subrange_whole(s@);
    }
    while i < n
        invariant
            n == s@.len(),
            i <= n,
            f > backslashes(s@),
            translate(s@, f) == out@ + run(s@, i as int, prev_letter, if in_cmd {
                Some(buf@)
            } else {
                None
            }, f),
            backslashes(out@) + backslashes(s@.subrange(i as int, n as int)) + (if in_cmd {
                1nat
            } else {
                0nat
            }) <= backslashes(s@),
            forall|j: int| 0 <= j < buf@.len() ==> is_letter(#[trigger] buf@[j]),
        decreases n - i, if in_cmd {
            1int
        } else {
            0int
        },
    {
        let c = s[i];
        let ghost old_out = out@;
        proof {
            lemma_backslashes_split(s@, i as int, i + 1, n as int);
            lemma_backslashes_one(c);
            assert(s@.subrange(i as int, i + 1) == seq![c]);
        }
        if c == '\\' && !(in_cmd && buf.len() > 0) {
            buf = Vec::new();
            in_cmd = true;
            i = i + 1;
        } else if in_cmd {
            if letter(c) && i + 1 < n {
                buf.push(c);
                i = i + 1;
            } else {
                let k = if letter(c) {
                    buf.push(c);
                    i + 1
                } else {
                    i
                };
                in_cmd = false;
                proof {
                    lemma_plain(buf@);
                    lemma_backslashes_within(s@, i as int, k as int, n as int, n as int);
                }
                let (mut o, j) = command_chars(s, k, &buf, Ghost(f));
                let ghost ov = o@;
                out.append(&mut o);
                proof {
                    lemma_backslashes_concat(old_out, ov);
                    lemma_backslashes_split(s@, k as int, j as int, n as int);
                    lemma_backslashes_within(s@, i as int, k as int, n as int, n as int);
                    assert(old_out + (ov + run(s@, j as int, false, None, f)) == out@ + run(
                        s@,
                        j as int,
                        false,
                        None,
                        f,
                    ));
                }
                i = j;
                prev_letter = false;
            }
        } else if letter(c) {
            if prev_letter {
                out.push(' ');
            }
            out.push(c);
            proof {
                let piece = if prev_letter {
                    seq![' ', c]
                } else {
                    seq![c]
                };
                assert(out@ == old_out + piece);
                lemma_backslashes_concat(old_out, piece);
                lemma_backslashes_concat(seq![' '], seq![c]);
                lemma_backslashes_one(' ');
                assert(seq![' ', c] == seq![' '] + seq![c]);
                let rest = run(s@, i + 1, true, None, f);
                assert(old_out + (piece + rest) == out@ + rest);
            }
            prev_letter = true;
            i = i + 1;
        } else {
            let d = if c == '{' {
                '('
            } else if c == '}' {
                ')'
            } else {
                c
            };
            out.push(d);
            proof {
                assert(out@ == old_out + seq![d]);
                lemma_backslashes_concat(old_out, seq![d]);
                lemma_backslashes_one(d);
                let rest = run(s@, i + 1, false, None, f);
                assert(old_out + (seq![d] + rest) == out@ + rest);
            }
            prev_letter = false;
            i = i + 1;
        }
    }
    out
}

/// Translates LaTeX math into Typst math.
pub fn latex_to_typst_math(s: &str) -> (r: String)
    ensures
        r@ == latex_math(s@),
        backslashes(r@) <= backslashes(s@),
{
    let v = chars_of(s);
    let t = translate_chars(v.as_slice(), Ghost(backslashes(v@) + 1));
    string_of(t.as_slice())
}

/// What `parse_math_group` reads at `i`: the translated argument and the
/// index after it. Only the first `len` characters are looked at.
pub open spec fn math_group(chars: Seq<char>, i: int) -> (Seq<char>, int) {
    group(chars, i, backslashes(chars) + 2)
}

/// What `parse_math_content` reads at `i`.
pub open spec fn math_content(chars: Seq<char>, i: int, term: char) -> (Seq<char>, int) {
    content(chars, i, term, backslashes(chars) + 2)
}

/// Reading an argument at `i` reaches the end of the text before the argument
/// is over: only white space is left, a brace group is never closed, or the
/// text up to the next space runs out.
pub open spec fn group_runs_out(s: Seq<char>, i: int) -> bool {
    let k = skip_white(s, i);
    if k < 0 || k >= s.len() {
        true
    } else if s[k] == '{' {
        brace_close(s, k + 1, 1) >= s.len()
    } else {
        collect_runs_out(s, k, ' ')
    }
}

/// Gathering the text at `i` reaches the end before `term`, an unmatched `}`,
/// or inside an unclosed brace group.
pub open spec fn collect_runs_out(s: Seq<char>, i: int, term: char) -> bool
    decreases s.len() - i,
{
    if i < 0 || i >= s.len() {
        true
    } else if s[i] == term {
        false
    } else if s[i] == '{' {
        let close = brace_close(s, i + 1, 1);
        if close >= s.len() || close < i {
            true
        } else {
            collect_runs_out(s, close + 1, term)
        }
    } else if s[i] == '}' {
        false
    } else {
        collect_runs_out(s, i + 1, term)
    }
}

/// The characters that are read: the first `len`, or all where there are
/// fewer.
pub open spec fn read_part(chars: Seq<char>, len: int) -> Seq<char> {
    if len <= chars.len() {
        chars.take(len)
    } else {
        chars
    }
}

/// Reads and translates one command argument at `*i`: a brace group, or the
/// text up to the next space; `*i` is moved past it. Where `len` is beyond the
/// characters, the argument must end before they do.
pub fn parse_math_group(chars: &[char], i: &mut usize, len: usize) -> (r: String)
    requires
        len <= chars.len() || *old(i) >= len || !group_runs_out(chars@, *old(i) as int),
    ensures
        (r@, *final(i) as int) == math_group(read_part(chars@, len as int), *old(i) as int),
        *old(i) <= *final(i),
        *old(i) <= len ==> *final(i) <= len,
{
    let m = if len <= chars.len() {
        len
    } else {
        chars.len()
    };
    let s = sub_chars(chars, 0, m);
    proof {
        assert(s@ == read_part(chars@, len as int));
    }
    if *i > m {
        proof {
            assert(skip_white(s@, *old(i) as int) == *old(i) as int);
        }
        return string_of(&[]);
    }
    proof {
        lemma_backslashes_within(s@, 0, *i as int, m as int, m as int);
        lemma_subrange_whole(s@);
    }
    let (t, j) = group_chars(s.as_slice(), *i, Ghost(backslashes(s@) + 2));
    *i = j;
    string_of(t.as_slice())
}

/// Reads the text at `*i` up to `terminator` (consumed), an unmatched `}`
/// (not consumed) or the end, and translates it; `*i` is moved past it.
/// Where `len` is beyond the characters, the text must end before they do.
pub fn parse_math_content(chars: &[char], i: &mut usize, len: usize, terminator: char) -> (r:
    String)
    requires
        len <= chars.len() || *old(i) >= len || !collect_runs_out(chars@, *old(i) as int, terminator),
    ensures
        (r@, *final(i) as int) == math_content(read_part(chars@, len as int), *old(i) as int, terminator),
        *old(i) <= *final(i),
        *old(i) <= len ==> *final(i) <= len,
{
    let m = if len <= chars.len() {
        len
    } else {
        chars.len()
    };
    let s = sub_chars(chars, 0, m);
    proof {
        assert(s@ == read_part(chars@, len as int));
    }
    if *i > m {
        let e: Vec<char> = Vec::new();
        let t = translate_chars(e.as_slice(), Ghost(1));
        return string_of(t.as_slice());
    }
    proof {
        lemma_backslashes_within(s@, 0, *i as int, m as int, m as int);
        lemma_subrange_whole(s@);
    }
    let (t, j) = content_chars(s.as_slice(), *i, terminator, Ghost(backslashes(s@) + 2));
    *i = j;
    string_of(t.as_slice())
}

/// Math without commands, from position `i` on: letters that follow a letter
/// get a space in front, braces become parentheses, the rest stays.
pub open spec fn spaced(s: Seq<char>, i: int, prev_letter: bool) -> Seq<char>
    decreases s.len() - i,
{
    if i < 0 || i >= s.len() {
        seq![]
    } else {
        let c = s[i];
        if is_letter(c) {
            (if prev_letter {
                seq![' ', c]
            } else {
                seq![c]
            }) + spaced(s, i + 1, true)
        } else if c == '{' {
            seq!['('] + spaced(s, i + 1, false)
        } else if c == '}' {
            seq![')'] + spaced(s, i + 1, false)
        } else {
            seq![c] + spaced(s, i + 1, false)
        }
    }
}

proof fn lemma_run_plain(s: Seq<char>, i: int, prev_letter: bool, f: nat)
    requires
        0 <= i,
        forall|j: int| 0 <= j < s.len() ==> s[j] != '\\',
    ensures
        run(s, i, prev_letter, None, f) == spaced(s, i, prev_letter),
    decreases s.len() - i,
{
    if i < s.len() {
        let c = s[i];
        if is_letter(c) {
            lemma_run_plain(s, i + 1, true, f);
        } else {
            lemma_run_plain(s, i + 1, false, f);
        }
    }
}

/// Math without backslashes has no commands: only its letters are spaced and
/// its braces turned into parentheses.
pub proof fn plain_math_is_spaced(s: Seq<char>)
    requires
        forall|j: int| 0 <= j < s.len() ==> s[j] != '\\',
    ensures
        latex_math(s) == spaced(s, 0, false),
{
    lemma_run_plain(s, 0, false, backslashes(s) + 1);
}

/// The output for one character of plain math after a character that was or
/// was not a letter.
spec fn plain_piece(prev_letter: bool, c: char) -> Seq<char> {
    if is_letter(c) {
        if prev_letter {
            seq![' ', c]
        } else {
            seq![c]
        }
    } else if c == '{' {
        seq!['(']
    } else if c == '}' {
        seq![')']
    } else {
        seq![c]
    }
}

proof fn lemma_spaced_push(s: Seq<char>, c: char, i: int, p: bool)
    requires
        0 <= i <= s.len(),
    ensures
        spaced(s.push(c), i, p) == spaced(s, i, p) + plain_piece(
            if i < s.len() {
                is_letter(s.last())
            } else {
                p
            },
            c,
        ),
    decreases s.len() - i,
{
    let t = s.push(c);
    assert(t[i] == if i < s.len() { s[i] } else { c });
    if i < s.len() {
        lemma_spaced_push(s, c, i + 1, is_letter(s[i]));
        if i + 1 == s.len() {
            assert(s.last() == s[i]);
        }
        assert(spaced(t, i + 1, is_letter(s[i])) == spaced(s, i + 1, is_letter(s[i])) + plain_piece(
            if i + 1 < s.len() {
                is_letter(s.last())
            } else {
                is_letter(s[i])
            },
            c,
        ));
    } else {
        assert(spaced(t, i + 1, is_letter(c)) == Seq::<char>::empty());
        assert(spaced(s, i, p) == Seq::<char>::empty());
    }
}

/// Plain math (no backslash) is translated one character at a time: an empty
/// text gives nothing, and a further character adds a letter (with a space
/// before it when it follows a letter), `(` for `{`, `)` for `}`, or itself.
pub proof fn plain_math_grows_by_characters(s: Seq<char>, c: char)
    requires
        forall|j: int| 0 <= j < s.len() ==> s[j] != '\\',
        c != '\\',
    ensures
        latex_math(Seq::<char>::empty()) == Seq::<char>::empty(),
        latex_math(s.push(c)) == latex_math(s) + if is_letter(c) {
            if s.len() > 0 && is_letter(s.last()) {
                seq![' ', c]
            } else {
                seq![c]
            }
        } else if c == '{' {
            seq!['(']
        } else if c == '}' {
            seq![')']
        } else {
            seq![c]
        },
{
    plain_math_is_spaced(s);
    let t = s.push(c);
    assert forall|j: int| 0 <= j < t.len() implies t[j] != '\\' by {
        if j < s.len() {
            assert(t[j] == s[j]);
        }
    }
    plain_math_is_spaced(t);
    lemma_spaced_push(s, c, 0, false);
    plain_math_is_spaced(Seq::<char>::empty());
}

/// Backslashes in the text from `i` on.
spec fn tail_backslashes(s: Seq<char>, i: int) -> nat {
    backslashes(s.subrange(i, s.len() as int))
}

proof fn lemma_tail_step(s: Seq<char>, i: int)
    requires
        0 <= i < s.len(),
    ensures
        tail_backslashes(s, i) == tail_backslashes(s, i + 1) + if s[i] == '\\' {
            1nat
        } else {
            0nat
        },
{
    lemma_backslashes_split(s, i, i + 1, s.len() as int);
    lemma_backslashes_one(s[i]);
    assert(s.subrange(i, i + 1) == seq![s[i]]);
}

proof fn budget_translate(s: Seq<char>, f: nat, g: nat)
    requires
        f > backslashes(s),
        g > backslashes(s),
    ensures
        translate(s, f) == translate(s, g),
        backslashes(translate(s, f)) <= backslashes(s),
    decreases f + g, s.len() + 2, 0int,
{
    lemma_subrange_whole(s);
    budget_run(s, 0, false, None, f, g);
}

proof fn budget_run(s: Seq<char>, i: int, prev_letter: bool, cmd: Option<Seq<char>>, f: nat, g: nat)
    requires
        0 <= i <= s.len(),
        f > tail_backslashes(s, i) + if cmd is Some {
            1nat
        } else {
            0nat
        },
        g > tail_backslashes(s, i) + if cmd is Some {
            1nat
        } else {
            0nat
        },
        cmd matches Some(b) ==> backslashes(b) == 0 && forall|j: int|
            0 <= j < b.len() ==> is_letter(#[trigger] b[j]),
    ensures
        run(s, i, prev_letter, cmd, f) == run(s, i, prev_letter, cmd, g),
        backslashes(run(s, i, prev_letter, cmd, f)) <= tail_backslashes(s, i) + if cmd is Some {
            1nat
        } else {
            0nat
        },
    decreases f + g, s.len() + 1 - i, if cmd is Some {
        6int
    } else {
        5int
    },
{
    if i < s.len() {
        let c = s[i];
        lemma_tail_step(s, i);
        lemma_backslashes_one(c);
        if c == '\\' && !(cmd matches Some(b) && b.len() > 0) {
            lemma_plain(Seq::<char>::empty());
            budget_run(s, i + 1, prev_letter, Some(seq![]), f, g);
        } else if cmd is Some {
            let buf = cmd->0;
            if is_letter(c) && i + 1 < s.len() {
                let b2 = buf.push(c);
                assert forall|j: int| 0 <= j < b2.len() implies is_letter(#[trigger] b2[j]) by {
                    if j < buf.len() {
                        assert(b2[j] == buf[j]);
                    }
                }
                lemma_plain(b2);
                budget_run(s, i + 1, prev_letter, Some(b2), f, g);
            } else {
                let k = if is_letter(c) {
                    i + 1
                } else {
                    i
                };
                let name = if is_letter(c) {
                    buf.push(c)
                } else {
                    buf
                };
                assert forall|j: int| 0 <= j < name.len() implies is_letter(#[trigger] name[j]) by {
                    if j < buf.len() {
                        assert(name[j] == buf[j]);
                    }
                }
                lemma_plain(name);
                budget_command(s, k, name, f, g);
                let r = command(s, k, name, f);
                lemma_backslashes_split(s, k, r.1, s.len() as int);
                budget_run(s, r.1, false, None, f, g);
                let rest = run(s, r.1, false, None, f);
                lemma_backslashes_concat(r.0, rest);
                if r.1 <= k {
                    assert(r.1 == k);
                }
            }
        } else {
            budget_run(s, i + 1, is_letter(c), None, f, g);
            let rest = run(s, i + 1, is_letter(c), None, f);
            if is_letter(c) {
                lemma_backslashes_one(' ');
                lemma_backslashes_concat(seq![' '], seq![c]);
                assert(seq![' ', c] == seq![' '] + seq![c]);
                let piece = if prev_letter {
                    seq![' ', c]
                } else {
                    seq![c]
                };
                lemma_backslashes_concat(piece, rest);
            } else {
                let d = if c == '{' {
                    '('
                } else if c == '}' {
                    ')'
                } else {
                    c
                };
                lemma_backslashes_one(d);
                lemma_backslashes_concat(seq![d], rest);
            }
        }
    }
}

proof fn budget_command(s: Seq<char>, i: int, name: Seq<char>, f: nat, g: nat)
    requires
        0 <= i <= s.len(),
        f >= tail_backslashes(s, i) + 2,
        g >= tail_backslashes(s, i) + 2,
        backslashes(name) == 0,
    ensures
        command(s, i, name, f) == command(s, i, name, g),
        i <= command(s, i, name, f).1 <= s.len(),
        backslashes(command(s, i, name, f).0) <= backslashes(s.subrange(i, command(s, i, name, f).1))
            + 1,
    decreases f + g, s.len() + 1 - i, 4int,
{
    let n = s.len() as int;
    lemma_fixed_words();
    lemma_backslashes_one('(');
    lemma_backslashes_one(')');
    lemma_backslashes_one(',');
    match symbol(name) {
        Some(rep) => {
            lemma_symbol_backslashes(name);
            if limits_command(name) && i < s.len() && (s[i] == '_' || s[i] == '^') {
                lemma_backslashes_concat(rep, seq![s[i]]);
                lemma_backslashes_one(s[i]);
                assert(rep.push(s[i]) == rep + seq![s[i]]);
            }
        },
        None => {
            if name == "frac"@ {
                budget_group(s, i, f, g);
                let num = group(s, i, f);
                lemma_backslashes_within(s, i, num.1, n, n);
                budget_group(s, num.1, f, g);
                let den = group(s, num.1, f);
                lemma_backslashes_wrap(seq!['('], num.0, ")/("@);
                lemma_backslashes_wrap(seq!['('] + num.0 + ")/("@, den.0, seq![')']);
                lemma_backslashes_split(s, i, num.1, den.1);
            } else if name == "sqrt"@ {
                if i < s.len() && s[i] == '[' {
                    lemma_backslashes_within(s, i, i + 1, n, n);
                    budget_content(s, i + 1, ']', f, g);
                    let deg = content(s, i + 1, ']', f);
                    lemma_backslashes_within(s, i, deg.1, n, n);
                    budget_group(s, deg.1, f, g);
                    let rad = group(s, deg.1, f);
                    lemma_backslashes_wrap("root("@, deg.0, seq![',']);
                    lemma_backslashes_wrap("root("@ + deg.0 + seq![','], rad.0, seq![')']);
                    lemma_backslashes_split(s, i, i + 1, deg.1);
                    lemma_backslashes_split(s, i, deg.1, rad.1);
                } else {
                    budget_group(s, i, f, g);
                    lemma_backslashes_wrap("sqrt("@, group(s, i, f).0, seq![')']);
                }
            } else if name == "mathrm"@ {
                budget_group(s, i, f, g);
                lemma_backslashes_wrap("upright("@, group(s, i, f).0, seq![')']);
            } else if name == "mathbf"@ {
                budget_group(s, i, f, g);
                lemma_backslashes_wrap("bold("@, group(s, i, f).0, seq![')']);
            } else if name == "mathcal"@ || name == "mathscr"@ {
                budget_group(s, i, f, g);
                lemma_backslashes_wrap("cal("@, group(s, i, f).0, seq![')']);
            } else if name == "mathbb"@ {
                budget_group(s, i, f, g);
                lemma_backslashes_wrap("bb("@, group(s, i, f).0, seq![')']);
                lemma_backslashes_wrap("frak("@, group(s, i, f).0, seq![')']);
            } else if name == "operatorname"@ {
                budget_group(s, i, f, g);
                let a = group(s, i, f).0;
                if a.len() > 0 && a[0] == '(' && a.last() == ')' {
                    lemma_subrange_whole(a);
                    lemma_backslashes_within(a, 0, 1, a.len() - 1, a.len() as int);
                }
            } else if name == "text"@ {
                budget_group(s, i, f, g);
            } else if name == "left"@ || name == "right"@ {
                if i < s.len() {
                    lemma_backslashes_one(s[i]);
                }
            } else {
                lemma_backslashes_concat(seq!['\\'], name);
                lemma_backslashes_one('\\');
            }
        },
    }
}

proof fn budget_group(s: Seq<char>, i: int, f: nat, g: nat)
    requires
        0 <= i <= s.len(),
        f >= tail_backslashes(s, i) + 2,
        g >= tail_backslashes(s, i) + 2,
    ensures
        group(s, i, f) == group(s, i, g),
        i <= group(s, i, f).1 <= s.len(),
        brace_at(s, i) ==> i < group(s, i, f).1,
        backslashes(group(s, i, f).0) <= backslashes(s.subrange(i, group(s, i, f).1)),
    decreases f + g, s.len() + 1 - i, if brace_at(s, i) {
        0int
    } else {
        3int
    },
{
    let n = s.len() as int;
    let k = skip_white(s, i);
    lemma_skip_white_bounds(s, i);
    if brace_at(s, i) {
        let close = brace_close(s, k + 1, 1);
        lemma_brace_close(s, k + 1, 1);
        let next = if close < s.len() {
            close + 1
        } else {
            n
        };
        lemma_backslashes_within(s, i, k + 1, close, n);
        lemma_backslashes_within(s, i, k + 1, close, next);
        budget_translate(s.subrange(k + 1, close), (f - 1) as nat, (g - 1) as nat);
    } else {
        lemma_backslashes_within(s, i, k, n, n);
        budget_content(s, k, ' ', f, g);
        lemma_backslashes_within(s, i, k, content(s, k, ' ', f).1, content(s, k, ' ', f).1);
    }
}

pub(crate) proof fn lemma_skip_white_bounds(s: Seq<char>, i: int)
    requires
        0 <= i <= s.len(),
    ensures
        i <= skip_white(s, i) <= s.len(),
    decreases s.len() - i,
{
    if i < s.len() && is_white(s[i]) {
        lemma_skip_white_bounds(s, i + 1);
    }
}

proof fn budget_content(s: Seq<char>, i: int, term: char, f: nat, g: nat)
    requires
        0 <= i <= s.len(),
        f >= tail_backslashes(s, i) + 2,
        g >= tail_backslashes(s, i) + 2,
    ensures
        content(s, i, term, f) == content(s, i, term, g),
        i <= content(s, i, term, f).1 <= s.len(),
        backslashes(content(s, i, term, f).0) <= backslashes(s.subrange(i, content(s, i, term, f).1)),
    decreases f + g, s.len() + 1 - i, 2int,
{
    budget_collect(s, i, term, f, g);
    let r = collect(s, i, term, f);
    lemma_backslashes_within(s, i, i, r.1, s.len() as int);
    budget_translate(r.0, (f - 1) as nat, (g - 1) as nat);
}

proof fn budget_collect(s: Seq<char>, i: int, term: char, f: nat, g: nat)
    requires
        0 <= i <= s.len(),
        f >= tail_backslashes(s, i) + 2,
        g >= tail_backslashes(s, i) + 2,
    ensures
        collect(s, i, term, f) == collect(s, i, term, g),
        i <= collect(s, i, term, f).1 <= s.len(),
        backslashes(collect(s, i, term, f).0) <= backslashes(s.subrange(i, collect(s, i, term, f).1)),
    decreases f + g, s.len() + 1 - i, 1int,
{
    let n = s.len() as int;
    if i < s.len() {
        let c = s[i];
        lemma_backslashes_split(s, i, i + 1, n);
        lemma_backslashes_one(c);
        assert(s.subrange(i, i + 1) == seq![c]);
        if c == term {
        } else if c == '{' {
            lemma_skip_white(s, i, i);
            budget_group(s, i, f, g);
            let gr = group(s, i, f);
            lemma_backslashes_within(s, i, gr.1, n, n);
            budget_collect(s, gr.1, term, f, g);
            let rest = collect(s, gr.1, term, f);
            lemma_backslashes_wrap(seq!['{'], gr.0, seq!['}']);
            lemma_backslashes_one('{');
            lemma_backslashes_one('}');
            lemma_backslashes_concat(seq!['{'] + gr.0 + seq!['}'], rest.0);
            lemma_backslashes_split(s, i, gr.1, rest.1);
        } else if c == '}' {
        } else {
            lemma_backslashes_within(s, i, i + 1, n, n);
            budget_collect(s, i + 1, term, f, g);
            let rest = collect(s, i + 1, term, f);
            lemma_backslashes_concat(seq![c], rest.0);
            lemma_backslashes_split(s, i, i + 1, rest.1);
        }
    }
}

/// Any budget above the backslash count gives the same translation, so the
/// budget chosen in [`latex_math`] is never what shapes its result.
pub proof fn math_budget_is_enough(s: Seq<char>, f: nat)
    requires
        f > backslashes(s),
    ensures
        translate(s, f) == latex_math(s),
        backslashes(latex_math(s)) <= backslashes(s),
{
    budget_translate(s, f, backslashes(s) + 1);
}

} // verus!
