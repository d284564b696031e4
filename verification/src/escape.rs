//! Escaping of text and URLs for Typst markup.
use vstd::prelude::*;
use crate::text::{chars_of, string_of, push_str};

verus! {

/// Every `c` of the text replaced by `r`, as `str::replace(c, r)` does.
pub open spec fn replace_char(s: Seq<char>, c: char, r: Seq<char>) -> Seq<char>
    decreases s.len(),
{
    if s.len() == 0 {
        seq![]
    } else {
        replace_char(s.drop_last(), c, r) + if s.last() == c {
            r
        } else {
            seq![s.last()]
        }
    }
}

/// Text escaped for Typst markup: backslashes first, then `#`, `$` and `"`
/// each get a backslash in front.
pub open spec fn escape_text(s: Seq<char>) -> Seq<char> {
    replace_char(
        replace_char(replace_char(replace_char(s, '\\', "\\\\"@), '#', "\\#"@), '$', "\\$"@),
        '"',
        "\\\""@,
    )
}

/// A URL made safe inside a Typst string: double quotes are percent-encoded.
pub open spec fn escape_url_text(s: Seq<char>) -> Seq<char> {
    replace_char(s, '"', "%22"@)
}

/// `str::replace(c, r)` on characters.
pub fn replace_chars(s: &[char], c: char, r: &str) -> (out: Vec<char>)
    ensures
        out@ == replace_char(s@, c, r@),
{
    let mut out: Vec<char> = Vec::new();
    let mut k: usize = 0;
    while k < s.len()
        invariant
            k <= s.len(),
            out@ == replace_char(s@.take(k as int), c, r@),
        decreases s.len() - k,
    {
        assert(s@.take(k + 1).drop_last() == s@.take(k as int));
        if s[k] == c {
            push_str(&mut out, r);
        } else {
            out.push(s[k]);
        }
        k = k + 1;
    }
    assert(s@.take(s@.len() as int) == s@);
    out
}

/// Typst escaping on characters.
pub fn escape_typst_chars(s: &[char]) -> (r: Vec<char>)
    ensures
        r@ == escape_text(s@),
{
    let a = replace_chars(s, '\\', "\\\\");
    let b = replace_chars(a.as_slice(), '#', "\\#");
    let c = replace_chars(b.as_slice(), '$', "\\$");
    replace_chars(c.as_slice(), '"', "\\\"")
}

/// URL escaping on characters.
pub fn escape_url_chars(s: &[char]) -> (r: Vec<char>)
    ensures
        r@ == escape_url_text(s@),
{
    replace_chars(s, '"', "%22")
}

/// Escapes text so that Typst shows it literally.
pub fn escape_typst(s: &str) -> (r: String)
    ensures
        r@ == escape_text(s@),
{
    let v = chars_of(s);
    string_of(escape_typst_chars(v.as_slice()).as_slice())
}

/// Escapes a URL for use inside a Typst string literal.
pub fn escape_url(s: &str) -> (r: String)
    ensures
        r@ == escape_url_text(s@),
{
    let v = chars_of(s);
    string_of(escape_url_chars(v.as_slice()).as_slice())
}


/// Reading escaped text back: a backslash stands for the character after it.
pub open spec fn unescape(t: Seq<char>) -> Seq<char>
    decreases t.len(),
{
    if t.len() == 0 {
        seq![]
    } else if t[0] == '\\' && t.len() >= 2 {
        seq![t[1]] + unescape(t.skip(2))
    } else {
        seq![t[0]] + unescape(t.skip(1))
    }
}

/// The escape of one character.
pub open spec fn escape_one(c: char) -> Seq<char> {
    if c == '\\' || c == '#' || c == '$' || c == '"' {
        seq!['\\', c]
    } else {
        seq![c]
    }
}

/// The escapes of the characters, from `i` on.
pub open spec fn escape_each(s: Seq<char>, i: int) -> Seq<char>
    decreases s.len() - i,
{
    if i < 0 || i >= s.len() {
        seq![]
    } else {
        escape_one(s[i]) + escape_each(s, i + 1)
    }
}

proof fn lemma_replace_concat(a: Seq<char>, b: Seq<char>, c: char, r: Seq<char>)
    ensures
        replace_char(a + b, c, r) == replace_char(a, c, r) + replace_char(b, c, r),
    decreases b.len(),
{
    if b.len() == 0 {
        assert(a + b == a);
        assert(replace_char(a, c, r) + Seq::<char>::empty() == replace_char(a, c, r));
    } else {
        lemma_replace_concat(a, b.drop_last(), c, r);
        assert((a + b).drop_last() == a + b.drop_last());
        assert((a + b).last() == b.last());
    }
}

proof fn lemma_replace_one(x: char, c: char, r: Seq<char>)
    ensures
        replace_char(seq![x], c, r) == if x == c { r } else { seq![x] },
{
    assert(seq![x].drop_last() == Seq::<char>::empty());
    assert(replace_char(Seq::<char>::empty(), c, r) == Seq::<char>::empty());
    assert(Seq::<char>::empty() + r == r);
    assert(Seq::<char>::empty() + seq![x] == seq![x]);
}

proof fn lemma_replace_absent(s: Seq<char>, c: char, r: Seq<char>)
    requires
        forall|j: int| 0 <= j < s.len() ==> s[j] != c,
    ensures
        replace_char(s, c, r) == s,
    decreases s.len(),
{
    if s.len() > 0 {
        lemma_replace_absent(s.drop_last(), c, r);
        assert(s.drop_last() + seq![s.last()] == s);
    }
}

proof fn lemma_escape_char(x: char)
    ensures
        escape_text(seq![x]) == escape_one(x),
{
    reveal_strlit("\\\\");
    reveal_strlit("\\#");
    reveal_strlit("\\$");
    reveal_strlit("\\\"");
    let bs = seq!['\\', '\\'];
    let hs = seq!['\\', '#'];
    let ds = seq!['\\', '$'];
    let qs = seq!['\\', '"'];
    assert("\\\\"@ == bs);
    assert("\\#"@ == hs);
    assert("\\$"@ == ds);
    assert("\\\""@ == qs);
    let one = seq![x];
    lemma_replace_one(x, '\\', bs);
    if x == '\\' {
        lemma_replace_absent(bs, '#', hs);
        lemma_replace_absent(bs, '$', ds);
        lemma_replace_absent(bs, '"', qs);
    } else if x == '#' {
        lemma_replace_one(x, '#', hs);
        lemma_replace_absent(hs, '$', ds);
        lemma_replace_absent(hs, '"', qs);
    } else if x == '$' {
        lemma_replace_absent(one, '#', hs);
        lemma_replace_one(x, '$', ds);
        lemma_replace_absent(ds, '"', qs);
    } else if x == '"' {
        lemma_replace_absent(one, '#', hs);
        lemma_replace_absent(one, '$', ds);
        lemma_replace_one(x, '"', qs);
    } else {
        lemma_replace_absent(one, '#', hs);
        lemma_replace_absent(one, '$', ds);
        lemma_replace_absent(one, '"', qs);
    }
}

proof fn lemma_escape_concat(a: Seq<char>, b: Seq<char>)
    ensures
        escape_text(a + b) == escape_text(a) + escape_text(b),
{
    lemma_replace_concat(a, b, '\\', "\\\\"@);
    let a1 = replace_char(a, '\\', "\\\\"@);
    let b1 = replace_char(b, '\\', "\\\\"@);
    lemma_replace_concat(a1, b1, '#', "\\#"@);
    let a2 = replace_char(a1, '#', "\\#"@);
    let b2 = replace_char(b1, '#', "\\#"@);
    lemma_replace_concat(a2, b2, '$', "\\$"@);
    let a3 = replace_char(a2, '$', "\\$"@);
    let b3 = replace_char(b2, '$', "\\$"@);
    lemma_replace_concat(a3, b3, '"', "\\\""@);
}

proof fn lemma_escape_each(s: Seq<char>, i: int)
    requires
        0 <= i <= s.len(),
    ensures
        escape_text(s.skip(i)) == escape_each(s, i),
    decreases s.len() - i,
{
    if i == s.len() {
        assert(s.skip(i) == Seq::<char>::empty());
        assert(replace_char(Seq::<char>::empty(), '\\', "\\\\"@) == Seq::<char>::empty());
        assert(replace_char(Seq::<char>::empty(), '#', "\\#"@) == Seq::<char>::empty());
        assert(replace_char(Seq::<char>::empty(), '$', "\\$"@) == Seq::<char>::empty());
        assert(replace_char(Seq::<char>::empty(), '"', "\\\""@) == Seq::<char>::empty());
    } else {
        lemma_escape_each(s, i + 1);
        assert(s.skip(i) == seq![s[i]] + s.skip(i + 1));
        lemma_escape_concat(seq![s[i]], s.skip(i + 1));
        lemma_escape_char(s[i]);
    }
}

proof fn lemma_unescape_each(s: Seq<char>, i: int)
    requires
        0 <= i <= s.len(),
    ensures
        unescape(escape_each(s, i)) == s.skip(i),
    decreases s.len() - i,
{
    if i == s.len() {
        assert(s.skip(i) == Seq::<char>::empty());
    } else {
        lemma_unescape_each(s, i + 1);
        let c = s[i];
        let rest = escape_each(s, i + 1);
        let t = escape_one(c) + rest;
        if c == '\\' || c == '#' || c == '$' || c == '"' {
            assert(t[0] == '\\' && t[1] == c);
            assert(t.skip(2) == rest);
        } else {
            assert(t[0] == c);
            assert(t.skip(1) == rest);
        }
        assert(s.skip(i) == seq![c] + s.skip(i + 1));
    }
}

/// Escaping for Typst loses nothing: reading the escapes back gives the text.
pub proof fn typst_escaping_is_reversible(s: Seq<char>)
    ensures
        unescape(escape_text(s)) == s,
{
    lemma_escape_each(s, 0);
    lemma_unescape_each(s, 0);
    assert(s.skip(0) == s);
}

proof fn lemma_replace_removes(s: Seq<char>, c: char, r: Seq<char>)
    requires
        forall|j: int| 0 <= j < r.len() ==> r[j] != c,
    ensures
        forall|j: int| 0 <= j < replace_char(s, c, r).len() ==> replace_char(s, c, r)[j] != c,
    decreases s.len(),
{
    if s.len() > 0 {
        lemma_replace_removes(s.drop_last(), c, r);
        let a = replace_char(s.drop_last(), c, r);
        let piece = if s.last() == c {
            r
        } else {
            seq![s.last()]
        };
        let t = replace_char(s, c, r);
        assert(t == a + piece);
        assert forall|j: int| 0 <= j < t.len() implies t[j] != c by {
            if j < a.len() {
                assert(t[j] == a[j]);
            } else {
                assert(t[j] == piece[j - a.len()]);
            }
        }
    }
}

/// An escaped URL holds no double quote, so it cannot end the Typst string it
/// is put in.
pub proof fn url_escaping_removes_quotes(s: Seq<char>)
    ensures
        forall|j: int| 0 <= j < escape_url_text(s).len() ==> escape_url_text(s)[j] != '"',
{
    reveal_strlit("%22");
    lemma_replace_removes(s, '"', "%22"@);
}

/// Typst escaping works character by character: the escape of a text is the
/// escapes of its parts one after the other, and a character gets a backslash
/// in front exactly when it is a backslash, `#`, `$` or `"`.
pub proof fn typst_escaping_is_per_character(a: Seq<char>, b: Seq<char>, x: char)
    ensures
        escape_text(a + b) == escape_text(a) + escape_text(b),
        escape_text(Seq::<char>::empty()) == Seq::<char>::empty(),
        escape_text(seq![x]) == if x == '\\' || x == '#' || x == '$' || x == '"' {
            seq!['\\', x]
        } else {
            seq![x]
        },
{
    lemma_escape_concat(a, b);
    lemma_escape_char(x);
    lemma_escape_each(Seq::<char>::empty(), 0);
    assert(Seq::<char>::empty().skip(0) == Seq::<char>::empty());
}

/// URL escaping works character by character: a double quote becomes `%22`
/// and every other character stays.
pub proof fn url_escaping_is_per_character(a: Seq<char>, b: Seq<char>, x: char)
    ensures
        escape_url_text(a + b) == escape_url_text(a) + escape_url_text(b),
        escape_url_text(Seq::<char>::empty()) == Seq::<char>::empty(),
        escape_url_text(seq![x]) == if x == '"' {
            seq!['%', '2', '2']
        } else {
            seq![x]
        },
{
    reveal_strlit("%22");
    lemma_replace_concat(a, b, '"', "%22"@);
    lemma_replace_one(x, '"', "%22"@);
}

} // verus!
