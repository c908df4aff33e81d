//! Characters, whitespace and the splitting of a command line into words.

use vstd::prelude::*;
use vstd::std_specs::iter::IteratorSpec;

verus! {

/// Whether `c` is a white-space character: one of the code points that carry the Unicode
/// property `White_Space`.
pub open spec fn is_space(c: char) -> bool {
    let n = c as u32;
    ||| 0x09 <= n <= 0x0D
    ||| n == 0x20
    ||| n == 0x85
    ||| n == 0xA0
    ||| n == 0x1680
    ||| 0x2000 <= n <= 0x200A
    ||| n == 0x2028
    ||| n == 0x2029
    ||| n == 0x202F
    ||| n == 0x205F
    ||| n == 0x3000
}

/// Tests a character for white space.
pub fn is_whitespace(c: char) -> (b: bool)
    ensures
        b == is_space(c),
{
    let n: u32 = c as u32;
    (0x09 <= n && n <= 0x0D) || n == 0x20 || n == 0x85 || n == 0xA0 || n == 0x1680 || (0x2000 <= n
        && n <= 0x200A) || n == 0x2028 || n == 0x2029 || n == 0x202F || n == 0x205F || n == 0x3000
}

/// The characters of a string, in order.
pub fn chars_of(s: &str) -> (v: Vec<char>)
    ensures
        v@ == s@,
{
    let mut v: Vec<char> = Vec::new();
    for c in it: s.chars()
        invariant
            it.seq() == s@,
            v@ == s@.take(it.index() as int),
    {
        v.push(c);
    }
    v
}

/// Whether two strings hold the same text.
pub fn same_text(a: &str, b: &str) -> (r: bool)
    ensures
        r == (a@ == b@),
{
    let x = chars_of(a);
    let y = chars_of(b);
    if x.len() != y.len() {
        return false;
    }
    let mut i: usize = 0;
    while i < x.len()
        invariant
            x@ == a@,
            y@ == b@,
            x.len() == y.len(),
            i <= x.len(),
            forall|j: int| 0 <= j < i ==> x@[j] == y@[j],
        decreases x.len() - i,
    {
        if x[i] != y[i] {
            return false;
        }
        i += 1;
    }
    assert(x@ =~= y@);
    true
}

/// Where the run of characters that are no white space, and that starts at `i`, ends: the
/// first index from `i` on that holds white space, or the length of `s`.
pub open spec fn word_end(s: Seq<char>, i: int) -> int
    decreases s.len() - i,
{
    if 0 <= i < s.len() && !is_space(s[i]) {
        word_end(s, i + 1)
    } else {
        i
    }
}

/// `word_end` stays within the text, passes over no white space and stops at white space.
pub proof fn lemma_word_end(s: Seq<char>, i: int)
    requires
        0 <= i <= s.len(),
    ensures
        i <= word_end(s, i) <= s.len(),
        forall|k: int| i <= k < word_end(s, i) ==> !is_space(#[trigger] s[k]),
        word_end(s, i) < s.len() ==> is_space(s[word_end(s, i)]),
    decreases s.len() - i,
{
    if i < s.len() && !is_space(s[i]) {
        lemma_word_end(s, i + 1);
    }
}

/// The words of `s` from index `i` on: the maximal runs of characters that are no white
/// space, in the order in which they stand.
pub open spec fn words_from(s: Seq<char>, i: int) -> Seq<Seq<char>>
    decreases s.len() - i,
{
    if i < 0 || i >= s.len() {
        Seq::empty()
    } else if is_space(s[i]) {
        words_from(s, i + 1)
    } else {
        proof {
            lemma_word_end(s, i + 1);
        }
        seq![s.subrange(i, word_end(s, i))] + words_from(s, word_end(s, i))
    }
}

/// The words of a line.
pub open spec fn words(s: Seq<char>) -> Seq<Seq<char>> {
    words_from(s, 0)
}

/// The texts of a sequence of strings.
pub open spec fn texts(v: Seq<String>) -> Seq<Seq<char>> {
    Seq::new(v.len(), |i: int| v[i]@)
}

/// Whether `w` is non-empty and free of white space.
pub open spec fn is_solid(w: Seq<char>) -> bool {
    w.len() > 0 && forall|j: int| 0 <= j < w.len() ==> !is_space(#[trigger] w[j])
}

/// Every word of a line is non-empty and free of white space.
pub proof fn lemma_words_are_solid(s: Seq<char>, i: int)
    requires
        0 <= i <= s.len(),
    ensures
        forall|k: int| 0 <= k < words_from(s, i).len() ==> is_solid(#[trigger] words_from(s, i)[k]),
    decreases s.len() - i,
{
    if i < s.len() {
        if is_space(s[i]) {
            lemma_words_are_solid(s, i + 1);
            assert(words_from(s, i) == words_from(s, i + 1));
        } else {
            lemma_word_end(s, i);
            lemma_words_are_solid(s, word_end(s, i));
            let first = s.subrange(i, word_end(s, i));
            let rest = words_from(s, word_end(s, i));
            assert(words_from(s, i) == seq![first] + rest);
            assert(is_solid(first)) by {
                assert forall|j: int| 0 <= j < first.len() implies !is_space(
                    #[trigger] first[j],
                ) by {
                    assert(first[j] == s[i + j]);
                }
            }
            assert forall|k: int| 0 <= k < words_from(s, i).len() implies is_solid(
                #[trigger] words_from(s, i)[k],
            ) by {
                if k > 0 {
                    assert(words_from(s, i)[k] == rest[k - 1]);
                }
            }
        }
    } else {
        assert(words_from(s, i).len() == 0);
    }
}

/// Splits a line into its words: the maximal runs of characters that are no white space, in
/// the order in which they stand. None is empty, and none holds white space.
pub fn split_words(line: &str) -> (out: Vec<String>)
    ensures
        texts(out@) == words(line@),
        forall|k: int| 0 <= k < out@.len() ==> is_solid(#[trigger] out@[k]@),
{
    let cs = chars_of(line);
    let n = cs.len();
    let mut out: Vec<String> = Vec::new();
    let mut i: usize = 0;
    while i < n
        invariant
            cs@ == line@,
            n == cs.len(),
            i <= n,
            texts(out@) + words_from(line@, i as int) == words(line@),
        decreases n - i,
    {
        if is_whitespace(cs[i]) {
            i += 1;
        } else {
            let start = i;
            while i < n && !is_whitespace(cs[i])
                invariant
                    cs@ == line@,
                    n == cs.len(),
                    start <= i <= n,
                    word_end(line@, i as int) == word_end(line@, start as int),
                decreases n - i,
            {
                i += 1;
            }
            let word = line.substring_char(start, i);
            let ghost before = out@;
            out.push(word.to_owned());
            proof {
                let w = line@.subrange(start as int, i as int);
                assert(texts(out@) =~= texts(before) + seq![w]);
                assert(texts(out@) + words_from(line@, i as int) =~= texts(before) + (seq![w]
                    + words_from(line@, i as int)));
            }
        }
    }
    proof {
        assert(texts(out@) + Seq::<Seq<char>>::empty() =~= texts(out@));
        lemma_words_are_solid(line@, 0);
        assert forall|k: int| 0 <= k < out@.len() implies is_solid(#[trigger] out@[k]@) by {
            assert(out@[k]@ == texts(out@)[k]);
        }
    }
    out
}

} // verus!
