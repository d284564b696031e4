//! Images given as HTML `<img>` tags.
//!
//! The tag is looked for in the lowercased text, and the byte position found
//! there is used to cut the original text, so both texts are measured in
//! UTF-8 bytes here.
use vstd::prelude::*;
use crate::text::{is_white, lemma_trim_start_skip, starts_with, trim_start, chars_of, trimmed_start, sub_chars};

verus! {

/// What `str::to_lowercase` makes of a text.
pub uninterp spec fn lowercase(s: Seq<char>) -> Seq<char>;

/// Every character of the text is ASCII.
pub open spec fn ascii(s: Seq<char>) -> bool {
    forall|j: int| 0 <= j < s.len() ==> (#[trigger] s[j] as u32) < 0x80
}

/// `d` is the ASCII character `c` lowercased: `A` to `Z` become `a` to `z`,
/// every other character stays.
pub open spec fn ascii_lowered(c: char, d: char) -> bool {
    if 'A' <= c && c <= 'Z' {
        d as u32 == c as u32 + 32
    } else {
        d == c
    }
}

/// std's `str::to_lowercase`. Claimed: its result depends on the text alone,
/// and on ASCII text it lowercases `A` to `Z` one for one and keeps every other
/// character, as the Unicode lowercase mapping does for ASCII.
#[verifier::external_body]
pub(crate) fn to_lowercase(s: &str) -> (r: String)
    ensures
        r@ == lowercase(s@),
        ascii(s@) ==> r@.len() == s@.len() && forall|j: int|
            0 <= j < s@.len() ==> ascii_lowered(s@[j], #[trigger] r@[j]),
{
    s.to_lowercase()
}

/// Number of bytes of the UTF-8 encoding of a character.
pub open spec fn utf8_len(c: char) -> nat {
    if (c as u32) < 0x80 {
        1
    } else if (c as u32) < 0x800 {
        2
    } else if (c as u32) < 0x10000 {
        3
    } else {
        4
    }
}

/// Number of bytes of the UTF-8 encoding of a text.
pub open spec fn utf8_bytes(s: Seq<char>) -> nat
    decreases s.len(),
{
    if s.len() == 0 {
        0
    } else {
        utf8_bytes(s.drop_last()) + utf8_len(s.last())
    }
}

/// The number of characters, from `k` on, whose encoding takes exactly `b`
/// bytes; none if `b` is not a character boundary of the text.
pub open spec fn char_at_byte(s: Seq<char>, k: int, b: int) -> Option<int>
    decreases s.len() + 1 - k,
{
    if k < 0 || k > s.len() {
        None
    } else if utf8_bytes(s.take(k)) == b {
        Some(k)
    } else if k == s.len() {
        None
    } else {
        char_at_byte(s, k + 1, b)
    }
}

/// Index of the first occurrence of `p` in `s` at or after `k`.
pub open spec fn find_from(s: Seq<char>, p: Seq<char>, k: int) -> Option<int>
    decreases s.len() + 1 - k,
{
    if k < 0 || k + p.len() > s.len() {
        None
    } else if s.subrange(k, k + p.len()) == p {
        Some(k)
    } else {
        find_from(s, p, k + 1)
    }
}

/// Index of the first occurrence of `p` in `s`.
pub open spec fn find(s: Seq<char>, p: Seq<char>) -> Option<int> {
    find_from(s, p, 0)
}

/// Byte position, in the lowercased text, just after the first `<img`.
pub open spec fn img_offset(lower: Seq<char>) -> Option<int> {
    match find(lower, "<img"@) {
        Some(q) => Some(utf8_bytes(lower.take(q)) + 4int),
        None => None,
    }
}

/// Cutting the original text at that byte position does not fail: the
/// position is a character boundary within the text.
pub open spec fn tag_ok(html: Seq<char>, lower: Seq<char>) -> bool {
    img_offset(lower) matches Some(b) ==> char_at_byte(html, 0, b) is Some
}

/// The quoted value of the first `src=` in the text after the tag.
pub open spec fn src_after(after: Seq<char>) -> Option<Seq<char>> {
    match find(after, "src="@) {
        None => None,
        Some(p) => {
            let a = trim_start(after.skip(p + 4));
            if a.len() > 0 && (a[0] == '"' || a[0] == '\'') {
                let rest = a.skip(1);
                match find(rest, seq![a[0]]) {
                    Some(e) => Some(rest.take(e)),
                    None => None,
                }
            } else {
                None
            }
        },
    }
}

/// The image source of the first `<img>` tag of an HTML text.
pub open spec fn img_src(html: Seq<char>, lower: Seq<char>) -> Option<Seq<char>> {
    match img_offset(lower) {
        None => None,
        Some(b) => match char_at_byte(html, 0, b) {
            Some(k) => src_after(html.skip(k)),
            None => None,
        },
    }
}

/// A source is shown if it is remote (starts with `http`) or names a file
/// that exists.
pub open spec fn shown(src: Seq<char>, present: Set<Seq<char>>) -> bool {
    starts_with(src, "http"@) || present.contains(src)
}

/// Typst markup for an image found in an HTML text; `present` holds the local
/// paths that exist.
pub open spec fn img_markup(src: Option<Seq<char>>, present: Set<Seq<char>>) -> Seq<char> {
    match src {
        None => seq![],
        Some(p) => if shown(p, present) {
            "#image(\""@ + p + "\")\n\n"@
        } else {
            seq![]
        },
    }
}

/// What an HTML node of the document becomes.
pub open spec fn html_markup(html: Seq<char>, present: Set<Seq<char>>) -> Seq<char> {
    img_markup(img_src(html, lowercase(html)), present)
}

proof fn lemma_find_from(s: Seq<char>, p: Seq<char>, k0: int)
    ensures
        find_from(s, p, k0) matches Some(k) ==> k0 <= k && 0 <= k && k + p.len() <= s.len()
            && s.subrange(k, k + p.len()) == p,
    decreases s.len() + 1 - k0,
{
    if !(k0 < 0 || k0 + p.len() > s.len()) && s.subrange(k0, k0 + p.len()) != p {
        lemma_find_from(s, p, k0 + 1);
    }
}

proof fn lemma_char_at_byte(s: Seq<char>, k0: int, b: int)
    ensures
        char_at_byte(s, k0, b) matches Some(k) ==> k0 <= k <= s.len() && 0 <= k,
    decreases s.len() + 1 - k0,
{
    if !(k0 < 0 || k0 > s.len()) && utf8_bytes(s.take(k0)) != b && k0 != s.len() {
        lemma_char_at_byte(s, k0 + 1, b);
    }
}

proof fn lemma_utf8_ascii(s: Seq<char>)
    requires
        ascii(s),
    ensures
        utf8_bytes(s) == s.len(),
    decreases s.len(),
{
    if s.len() > 0 {
        assert(ascii(s.drop_last())) by {
            assert forall|j: int| 0 <= j < s.drop_last().len() implies (#[trigger] s.drop_last()[j]
                as u32) < 0x80 by {
                assert(s.drop_last()[j] == s[j]);
            }
        }
        lemma_utf8_ascii(s.drop_last());
        assert((s.last() as u32) < 0x80) by {
            assert(s.last() == s[s.len() - 1]);
        }
    }
}

proof fn lemma_char_at_byte_ascii(s: Seq<char>, k: int, b: int)
    requires
        ascii(s),
        0 <= k <= b <= s.len(),
    ensures
        char_at_byte(s, k, b) == Some(b),
    decreases b - k,
{
    assert(ascii(s.take(k))) by {
        assert forall|j: int| 0 <= j < s.take(k).len() implies (#[trigger] s.take(k)[j] as u32)
            < 0x80 by {
            assert(s.take(k)[j] == s[j]);
        }
    }
    lemma_utf8_ascii(s.take(k));
    if k < b {
        lemma_char_at_byte_ascii(s, k + 1, b);
    }
}

/// In an ASCII text lowercased one for one, the `<img` tag, if any, ends at a
/// character boundary of the original text.
pub(crate) proof fn lemma_ascii_tag_ok(html: Seq<char>, lower: Seq<char>)
    requires
        ascii(html),
        ascii(lower),
        lower.len() == html.len(),
    ensures
        tag_ok(html, lower),
{
    reveal_strlit("<img");
    lemma_find_from(lower, "<img"@, 0);
    if let Some(q) = find(lower, "<img"@) {
        assert(ascii(lower.take(q))) by {
            assert forall|j: int| 0 <= j < lower.take(q).len() implies (
            #[trigger] lower.take(q)[j] as u32) < 0x80 by {
                assert(lower.take(q)[j] == lower[j]);
            }
        }
        lemma_utf8_ascii(lower.take(q));
        lemma_char_at_byte_ascii(html, 0, q + 4);
    }
}

/// Lowercasing an ASCII text one for one gives an ASCII text of the same
/// length.
pub(crate) proof fn lemma_ascii_lowered(s: Seq<char>, r: Seq<char>)
    requires
        ascii(s),
        r.len() == s.len(),
        forall|j: int| 0 <= j < s.len() ==> ascii_lowered(s[j], #[trigger] r[j]),
    ensures
        ascii(r),
{
    assert forall|j: int| 0 <= j < r.len() implies (#[trigger] r[j] as u32) < 0x80 by {
        assert(ascii_lowered(s[j], r[j]));
        assert((s[j] as u32) < 0x80);
    }
}

/// Remote images are shown whatever the file system holds: whether a source
/// starting with `http` is shown does not depend on the local paths present.
pub proof fn remote_images_need_no_file(src: Seq<char>, p1: Set<Seq<char>>, p2: Set<Seq<char>>)
    requires
        starts_with(src, "http"@),
    ensures
        img_markup(Some(src), p1) == img_markup(Some(src), p2),
        shown(src, p1) && shown(src, p2),
{
}

fn matches_at(s: &[char], k: usize, p: &[char]) -> (b: bool)
    requires
        k + p.len() <= s.len(),
    ensures
        b == (s@.subrange(k as int, k + p.len()) == p@),
{
    let mut j: usize = 0;
    while j < p.len()
        invariant
            k + p.len() <= s.len(),
            j <= p.len(),
            forall|m: int| 0 <= m < j ==> s@[k + m] == p@[m],
        decreases p.len() - j,
    {
        if s[k + j] != p[j] {
            assert(s@.subrange(k as int, k + p.len())[j as int] != p@[j as int]);
            return false;
        }
        j = j + 1;
    }
    assert(s@.subrange(k as int, k + p.len()) =~= p@);
    true
}

/// Index of the first occurrence of `p` in `s`.
pub fn find_chars(s: &[char], p: &[char]) -> (r: Option<usize>)
    ensures
        match r {
            Some(k) => find(s@, p@) == Some(k as int),
            None => find(s@, p@) is None,
        },
        r matches Some(k) ==> k + p@.len() <= s@.len(),
{
    proof {
        lemma_find_from(s@, p@, 0);
    }
    let mut k: usize = 0;
    while k <= s.len() && p.len() <= s.len() - k
        invariant
            k <= s.len() + 1,
            find(s@, p@) == find_from(s@, p@, k as int),
        decreases s.len() + 1 - k,
    {
        if matches_at(s, k, p) {
            return Some(k);
        }
        assert(p@.len() > 0) by {
            if p@.len() == 0 {
                assert(s@.subrange(k as int, k as int) =~= p@);
            }
        }
        k = k + 1;
    }
    None
}

/// Bytes of the UTF-8 encoding of a character.
fn char_bytes(c: char) -> (n: u128)
    ensures
        n == utf8_len(c),
{
    if (c as u32) < 0x80 {
        1
    } else if (c as u32) < 0x800 {
        2
    } else if (c as u32) < 0x10000 {
        3
    } else {
        4
    }
}

/// Bytes of the UTF-8 encoding of the first `q` characters.
fn prefix_bytes(s: &[char], q: usize) -> (n: u128)
    requires
        q <= s.len(),
    ensures
        n == utf8_bytes(s@.take(q as int)),
        n <= 4 * q,
{
    let mut n: u128 = 0;
    let mut j: usize = 0;
    while j < q
        invariant
            j <= q <= s.len(),
            n == utf8_bytes(s@.take(j as int)),
            n <= 4 * j,
        decreases q - j,
    {
        assert(s@.take(j + 1).drop_last() == s@.take(j as int));
        n = n + char_bytes(s[j]);
        j = j + 1;
    }
    n
}

/// The character index at byte position `b`, if it is a boundary.
fn index_at_byte(s: &[char], b: u128) -> (r: Option<usize>)
    ensures
        match r {
            Some(k) => char_at_byte(s@, 0, b as int) == Some(k as int),
            None => char_at_byte(s@, 0, b as int) is None,
        },
        r matches Some(k) ==> k <= s@.len(),
{
    let mut n: u128 = 0;
    let mut k: usize = 0;
    loop
        invariant
            k <= s.len(),
            n == utf8_bytes(s@.take(k as int)),
            n <= 4 * k,
            char_at_byte(s@, 0, b as int) == char_at_byte(s@, k as int, b as int),
        decreases s.len() - k,
    {
        if n == b {
            return Some(k);
        }
        if k == s.len() {
            return None;
        }
        assert(s@.take(k + 1).drop_last() == s@.take(k as int));
        n = n + char_bytes(s[k]);
        k = k + 1;
    }
}

/// Whether cutting the original text after the lowercased tag succeeds.
pub fn tag_fits(html: &[char], lower: &[char]) -> (b: bool)
    ensures
        b == tag_ok(html@, lower@),
{
    let pat = chars_of("<img");
    proof {
        reveal_strlit("<img");
    }
    match find_chars(lower, pat.as_slice()) {
        None => true,
        Some(q) => {
            let b = prefix_bytes(lower, q) + 4;
            index_at_byte(html, b).is_some()
        },
    }
}

fn src_after_chars(after: &[char]) -> (r: Option<Vec<char>>)
    ensures
        match r {
            Some(v) => src_after(after@) == Some(v@),
            None => src_after(after@) is None,
        },
{
    let pat = chars_of("src=");
    proof {
        reveal_strlit("src=");
        assert(pat@.len() == 4);
    }
    let found = find_chars(after, pat.as_slice());
    match found {
        None => None,
        Some(p) => {
            let n = after.len();
            assert(p + 4 <= n);
            let tail = sub_chars(after, p + 4, n);
            assert(tail@ == after@.skip(p + 4));
            let a = trimmed_start(tail.as_slice());
            if a.len() > 0 && (a[0] == '"' || a[0] == '\'') {
                let rest = sub_chars(a.as_slice(), 1, a.len());
                assert(rest@ == a@.skip(1));
                let q = vec![a[0]];
                assert(q@ == seq![a@[0]]);
                match find_chars(rest.as_slice(), q.as_slice()) {
                    Some(e) => {
                        let v = sub_chars(rest.as_slice(), 0, e);
                        assert(v@ == rest@.take(e as int));
                        Some(v)
                    },
                    None => None,
                }
            } else {
                None
            }
        },
    }
}

/// The image source of the first `<img>` tag of `html`, found through its
/// lowercased form `lower`.
pub fn img_tag_source(html: &[char], lower: &[char]) -> (r: Option<Vec<char>>)
    requires
        tag_ok(html@, lower@),
    ensures
        match r {
            Some(v) => img_src(html@, lower@) == Some(v@),
            None => img_src(html@, lower@) is None,
        },
{
    let pat = chars_of("<img");
    proof {
        reveal_strlit("<img");
    }
    match find_chars(lower, pat.as_slice()) {
        None => None,
        Some(q) => {
            let b = prefix_bytes(lower, q) + 4;
            match index_at_byte(html, b) {
                Some(k) => {
                    let after = sub_chars(html, k, html.len());
                    assert(after@ == html@.skip(k as int));
                    src_after_chars(after.as_slice())
                },
                None => None,
            }
        },
    }
}

/// The image source of the first `<img>` tag, with the lowercased text given.
pub fn img_source(html: &str, lower: &str) -> (r: Option<String>)
    requires
        tag_ok(html@, lower@),
    ensures
        match r {
            Some(v) => img_src(html@, lower@) == Some(v@),
            None => img_src(html@, lower@) is None,
        },
{
    let h = chars_of(html);
    let l = chars_of(lower);
    match img_tag_source(h.as_slice(), l.as_slice()) {
        Some(v) => Some(crate::text::string_of(v.as_slice())),
        None => None,
    }
}

proof fn lemma_find_first(s: Seq<char>, p: Seq<char>, k: int, m: int)
    requires
        0 <= k <= m,
        m + p.len() <= s.len(),
        s.subrange(m, m + p.len()) == p,
        forall|i: int| k <= i < m ==> #[trigger] s.subrange(i, i + p.len()) != p,
    ensures
        find_from(s, p, k) == Some(m),
    decreases m - k,
{
    if k < m {
        lemma_find_first(s, p, k + 1, m);
    }
}

/// The source of an image tag is the value in quotes after the first `src=`
/// that follows the tag: white space may stand between `=` and the opening
/// quote, either kind of quote may be used, and the value ends at the first
/// quote of the same kind.
pub proof fn source_is_first_quoted_value(w: Seq<char>, ws: Seq<char>, q: char, p: Seq<char>, rest: Seq<char>)
    requires
        forall|i: int| 0 <= i < w.len() ==> #[trigger] (w + "src="@ + ws).subrange(i, i + 4) != "src="@,
        forall|i: int| 0 <= i < ws.len() ==> is_white(#[trigger] ws[i]),
        q == '"' || q == '\'',
        forall|i: int| 0 <= i < p.len() ==> #[trigger] p[i] != q,
    ensures
        src_after(w + "src="@ + ws + seq![q] + p + seq![q] + rest) == Some(p),
{
    reveal_strlit("src=");
    let after = w + "src="@ + ws + seq![q] + p + seq![q] + rest;
    let n = w.len() as int;
    assert forall|i: int| 0 <= i < n implies #[trigger] after.subrange(i, i + 4) != "src="@ by {
        assert(after.subrange(i, i + 4) == (w + "src="@ + ws).subrange(i, i + 4));
    }
    assert(after.subrange(n, n + 4) == "src="@);
    lemma_find_first(after, "src="@, 0, n);
    let tail = after.skip(n + 4);
    let quoted = seq![q] + p + seq![q] + rest;
    assert(tail == ws + quoted);
    assert forall|j: int| 0 <= j < ws.len() implies is_white(#[trigger] tail[j]) by {
        assert(tail[j] == ws[j]);
    }
    lemma_trim_start_skip(tail, ws.len() as int);
    assert(tail.skip(ws.len() as int) == quoted);
    assert(!is_white(q));
    assert(trim_start(quoted) == quoted);
    let r = quoted.skip(1);
    assert(r == p + seq![q] + rest);
    assert forall|i: int| 0 <= i < p.len() implies #[trigger] r.subrange(i, i + 1) != seq![q] by {
        assert(r.subrange(i, i + 1)[0] == p[i]);
    }
    assert(r.subrange(p.len() as int, p.len() + 1int) == seq![q]);
    lemma_find_first(r, seq![q], 0, p.len() as int);
    assert(r.take(p.len() as int) == p);
}

/// In ASCII text lowercased one for one, the tag is cut where `<img` was found:
/// the source is read from the text after the first `<img` of the lowercased
/// text, at the same position of the original.
pub proof fn ascii_tag_is_cut_where_found(html: Seq<char>, lower: Seq<char>)
    requires
        ascii(html),
        ascii(lower),
        lower.len() == html.len(),
    ensures
        img_src(html, lower) == match find(lower, "<img"@) {
            None => None,
            Some(q) => src_after(html.skip(q + 4)),
        },
{
    reveal_strlit("<img");
    lemma_find_from(lower, "<img"@, 0);
    if let Some(q) = find(lower, "<img"@) {
        assert(ascii(lower.take(q))) by {
            assert forall|j: int| 0 <= j < lower.take(q).len() implies (
            #[trigger] lower.take(q)[j] as u32) < 0x80 by {
                assert(lower.take(q)[j] == lower[j]);
            }
        }
        lemma_utf8_ascii(lower.take(q));
        lemma_char_at_byte_ascii(html, 0, q + 4);
    }
}

/// What an HTML node shows: nothing without a source; with one, an image of
/// it on a paragraph of its own, if it is remote or present.
pub proof fn html_image_markup(src: Option<Seq<char>>, present: Set<Seq<char>>)
    ensures
        src is None ==> img_markup(src, present) == Seq::<char>::empty(),
        src matches Some(p) ==> img_markup(src, present) == if starts_with(p, "http"@) || present.contains(p) {
            "#image(\""@ + p + "\")\n\n"@
        } else {
            Seq::<char>::empty()
        },
{
}

} // verus!
