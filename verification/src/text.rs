//! Text as sequences of characters: the words of a query and the
//! case-blind substring test behind the tag search.

use vstd::prelude::*;

verus! {

/// Whether `c` separates the words of a query: the characters that Unicode
/// marks as white space.
pub open spec fn is_space(c: char) -> bool {
    let n = c as u32;
    ||| 0x09 <= n <= 0x0d
    ||| n == 0x20
    ||| n == 0x85
    ||| n == 0xa0
    ||| n == 0x1680
    ||| 0x2000 <= n <= 0x200a
    ||| n == 0x2028
    ||| n == 0x2029
    ||| n == 0x202f
    ||| n == 0x205f
    ||| n == 0x3000
}

/// The length of the longest prefix of `s` whose characters all satisfy `p`.
pub open spec fn span(s: Seq<char>, p: spec_fn(char) -> bool) -> nat
    decreases s.len(),
{
    if s.len() == 0 || !p(s[0]) {
        0
    } else {
        1 + span(s.drop_first(), p)
    }
}

/// The predicate "the character is no white space".
pub open spec fn in_word() -> spec_fn(char) -> bool {
    |c: char| !is_space(c)
}

/// The length of the longest prefix of `s` that holds no white space.
pub open spec fn word_len(s: Seq<char>) -> nat {
    span(s, in_word())
}

/// The words of `s`: its maximal runs of characters that are not white
/// space, from left to right. No word is empty.
pub open spec fn words_of(s: Seq<char>) -> Seq<Seq<char>>
    decreases s.len(),
{
    if s.len() == 0 {
        Seq::empty()
    } else if is_space(s[0]) {
        words_of(s.drop_first())
    } else {
        let n = word_len(s) as int;
        if 0 < n <= s.len() {
            seq![s.take(n)] + words_of(s.skip(n))
        } else {
            Seq::empty()
        }
    }
}

/// `c` with the letters `A` to `Z` mapped to `a` to `z`.
pub open spec fn fold_case(c: char) -> char {
    if 'A' <= c <= 'Z' {
        ((c as u8) + 32) as char
    } else {
        c
    }
}

/// Whether `pat` occurs in `text` at offset `at`, letters compared without
/// regard to ASCII case.
pub open spec fn matches_at(text: Seq<char>, pat: Seq<char>, at: int) -> bool {
    &&& 0 <= at
    &&& at + pat.len() <= text.len()
    &&& forall|j: int|
        0 <= j < pat.len() ==> fold_case(#[trigger] text[at + j]) == fold_case(pat[j])
}

/// Whether `pat` occurs somewhere in `text`, letters compared without regard
/// to ASCII case.
pub open spec fn contains_fold(text: Seq<char>, pat: Seq<char>) -> bool {
    exists|at: int| matches_at(text, pat, at)
}

/// A run of `n` characters that satisfy `p`, ending where `p` fails or the
/// text ends, is the longest such prefix.
pub proof fn lemma_span_is(s: Seq<char>, p: spec_fn(char) -> bool, n: int)
    requires
        0 <= n <= s.len(),
        forall|k: int| 0 <= k < n ==> p(#[trigger] s[k]),
        n < s.len() ==> !p(s[n]),
    ensures
        span(s, p) == n,
    decreases s.len(),
{
    if s.len() > 0 && p(s[0]) {
        lemma_span_is(s.drop_first(), p, n - 1);
    }
}

/// The first word of a text is the first word of the text with more written
/// behind it, where the word ends within the text or what follows starts
/// with white space.
pub proof fn lemma_span_append(a: Seq<char>, b: Seq<char>, p: spec_fn(char) -> bool)
    requires
        span(a, p) < a.len() || b.len() == 0 || !p(b[0]),
    ensures
        span(a + b, p) == span(a, p),
    decreases a.len(),
{
    if a.len() > 0 && p(a[0]) {
        assert((a + b).drop_first() =~= a.drop_first() + b);
        lemma_span_append(a.drop_first(), b, p);
    }
}

/// A run without white space does not end before the text does.
pub proof fn lemma_span_bound(s: Seq<char>, p: spec_fn(char) -> bool)
    ensures
        span(s, p) <= s.len(),
        s.len() > 0 && p(s[0]) ==> span(s, p) > 0,
    decreases s.len(),
{
    if s.len() > 0 && p(s[0]) {
        lemma_span_bound(s.drop_first(), p);
    }
}

/// A word written behind a text, after a blank, is the last of its words.
pub proof fn lemma_words_append(a: Seq<char>, w: Seq<char>)
    requires
        w.len() > 0,
        forall|k: int| 0 <= k < w.len() ==> !is_space(#[trigger] w[k]),
    ensures
        words_of(a + seq![' '] + w) == words_of(a).push(w),
    decreases a.len(),
{
    let tail = seq![' '] + w;
    let all = a + seq![' '] + w;
    assert(all =~= a + tail);
    if a.len() == 0 {
        assert(tail.drop_first() =~= w);
        lemma_span_is(w, in_word(), w.len() as int);
        assert(w.take(w.len() as int) =~= w);
        assert(words_of(w) =~= seq![w.take(w.len() as int)] + words_of(w.skip(w.len() as int)));
    } else if is_space(a[0]) {
        assert(all.drop_first() =~= a.drop_first() + seq![' '] + w);
        lemma_words_append(a.drop_first(), w);
    } else {
        lemma_span_bound(a, in_word());
        lemma_span_append(a, tail, in_word());
        let n = span(a, in_word()) as int;
        assert(all.take(n) =~= a.take(n));
        assert(all.skip(n) =~= a.skip(n) + seq![' '] + w);
        lemma_words_append(a.skip(n), w);
    }
}

/// Decides [`is_space`].
pub fn is_space_char(c: char) -> (r: bool)
    ensures
        r == is_space(c),
{
    let n: u32 = c as u32;
    (0x09 <= n && n <= 0x0d) || n == 0x20 || n == 0x85 || n == 0xa0 || n == 0x1680 || (0x2000 <= n
        && n <= 0x200a) || n == 0x2028 || n == 0x2029 || n == 0x202f || n == 0x205f || n == 0x3000
}

/// Computes [`fold_case`].
pub fn fold_char(c: char) -> (r: char)
    ensures
        r == fold_case(c),
{
    if 'A' <= c && c <= 'Z' {
        let b: u8 = c as u8;
        (b + 32) as char
    } else {
        c
    }
}

/// Whether two texts are the same.
pub fn same_text(a: &str, b: &str) -> (r: bool)
    ensures
        r == (a@ == b@),
{
    let left: String = a.to_owned();
    let right: String = b.to_owned();
    left == right
}

/// The characters of `s`, one by one.
pub fn chars_of(s: &str) -> (v: Vec<char>)
    ensures
        v@ == s@,
{
    let n: usize = s.unicode_len();
    let mut v: Vec<char> = Vec::new();
    let mut i: usize = 0;
    while i < n
        invariant
            i <= n,
            n == s@.len(),
            v@ == s@.take(i as int),
        decreases n - i,
    {
        v.push(s.get_char(i));
        i += 1;
    }
    v
}

/// Splits `s` into its words.
pub fn split_words(s: &str) -> (r: Vec<String>)
    ensures
        r.deep_view() == words_of(s@),
{
    let chars = chars_of(s);
    let n: usize = chars.len();
    let mut out: Vec<String> = Vec::new();
    let mut i: usize = 0;
    proof {
        assert(s@.skip(0) =~= s@);
    }
    while i < n
        invariant
            i <= n,
            n == chars@.len(),
            chars@ == s@,
            out.deep_view() + words_of(s@.skip(i as int)) == words_of(s@),
        decreases n - i,
    {
        let ghost rest = s@.skip(i as int);
        if is_space_char(chars[i]) {
            proof {
                assert(rest.drop_first() =~= s@.skip(i + 1));
            }
            i += 1;
        } else {
            let start: usize = i;
            while i < n && !is_space_char(chars[i])
                invariant
                    start <= i <= n,
                    n == chars@.len(),
                    chars@ == s@,
                    forall|k: int| start <= k < i ==> !is_space(#[trigger] s@[k]),
                decreases n - i,
            {
                i += 1;
            }
            let word = s.substring_char(start, i).to_owned();
            proof {
                let len = i - start;
                lemma_span_is(rest, in_word(), len);
                assert(rest.take(len) =~= s@.subrange(start as int, i as int));
                assert(rest.skip(len) =~= s@.skip(i as int));
            }
            out.push(word);
        }
    }
    out
}

/// Decides [`matches_at`] for a position inside the text.
fn matches_here(text: &Vec<char>, pat: &Vec<char>, at: usize) -> (r: bool)
    requires
        at + pat@.len() <= text@.len(),
    ensures
        r == matches_at(text@, pat@, at as int),
{
    let m: usize = pat.len();
    let mut j: usize = 0;
    while j < m
        invariant
            j <= m,
            m == pat@.len(),
            at + m <= text.len(),
            forall|k: int| 0 <= k < j ==> fold_case(#[trigger] text@[at + k]) == fold_case(pat@[k]),
        decreases m - j,
    {
        if fold_char(text[at + j]) != fold_char(pat[j]) {
            return false;
        }
        j += 1;
    }
    true
}

/// Decides [`contains_fold`].
pub fn contains_ignoring_case(text: &str, pat: &str) -> (r: bool)
    ensures
        r == contains_fold(text@, pat@),
{
    let t = chars_of(text);
    let p = chars_of(pat);
    if p.len() > t.len() {
        return false;
    }
    let last: usize = t.len() - p.len();
    let mut at: usize = 0;
    while at < last
        invariant
            at <= last,
            last == t@.len() - p@.len(),
            t@ == text@,
            p@ == pat@,
            forall|k: int| 0 <= k < at ==> !matches_at(text@, pat@, k),
        decreases last - at,
    {
        if matches_here(&t, &p, at) {
            return true;
        }
        at += 1;
    }
    matches_here(&t, &p, last)
}

} // verus!
