//! Character-level helpers shared by the parser and the response builder.

use vstd::prelude::*;
use vstd::std_specs::iter::IteratorSpec;

verus! {

/// The characters that separate the tokens of a request line: the code
/// points with the Unicode `White_Space` property.
pub open spec fn is_space(c: char) -> bool {
    let n = c as u32;
    ||| 0x09 <= n <= 0x0D
    ||| n == 0x20
    ||| n == 0x85
    ||| n == 0xA0
    ||| n == 0x1680
    ||| 0x2000 <= n <= 0x200A
    ||| n == 0x2028
    ||| n == 0x2029
    ||| n == 0x202F
    ||| n == 0x205F
    ||| n == 0x3000
}

/// Decides whether `c` separates tokens.
pub fn is_whitespace(c: char) -> (r: bool)
    ensures
        r == is_space(c),
{
    let n: u32 = c as u32;
    (0x09 <= n && n <= 0x0D) || n == 0x20 || n == 0x85 || n == 0xA0 || n == 0x1680 || (0x2000 <= n
        && n <= 0x200A) || n == 0x2028 || n == 0x2029 || n == 0x202F || n == 0x205F || n == 0x3000
}

/// Collects the characters of `s`, in order.
pub fn chars_of(s: &str) -> (v: Vec<char>)
    ensures
        v@ == s@,
{
    broadcast use vstd::string::group_string_axioms;

    let mut v: Vec<char> = Vec::new();
    let mut it = s.chars();
    loop
        invariant
            it.obeys_prophetic_iter_laws(),
            v@ + it.remaining() == s@,
            it.decrease() is Some,
        ensures
            v@ == s@,
        decreases it.decrease()->0,
    {
        match it.next() {
            Some(c) => {
                v.push(c);
            },
            None => {
                assert(it.remaining().len() == 0);
                break ;
            },
        }
    }
    v
}

/// The end of the run of non-separators that starts at `i`: the first index
/// from `i` on that holds a separator, or the length of `s`.
pub open spec fn word_end(s: Seq<char>, i: int) -> int
    decreases s.len() - i,
{
    if 0 <= i < s.len() && !is_space(s[i]) {
        word_end(s, i + 1)
    } else {
        i
    }
}

/// A run never ends before it starts, nor past the end of `s`, and it stops
/// only at a separator or at the end.
pub proof fn lemma_word_end(s: Seq<char>, i: int)
    requires
        0 <= i <= s.len(),
    ensures
        i <= word_end(s, i) <= s.len(),
        i < s.len() && !is_space(s[i]) ==> i < word_end(s, i),
        word_end(s, i) < s.len() ==> is_space(s[word_end(s, i)]),
        forall|k: int| i <= k < word_end(s, i) ==> !is_space(#[trigger] s[k]),
    decreases s.len() - i,
{
    if i < s.len() && !is_space(s[i]) {
        lemma_word_end(s, i + 1);
    }
}

/// Where the tokens of `s` from index `i` on begin and end: for each
/// maximal run of non-separators, in the order in which they occur, the
/// index of its first character and the index just past its last one.
pub open spec fn token_bounds(s: Seq<char>, i: int) -> Seq<(int, int)>
    decreases s.len() - i,
{
    if 0 <= i < s.len() {
        if is_space(s[i]) {
            token_bounds(s, i + 1)
        } else {
            proof {
                lemma_word_end(s, i);
            }
            seq![(i, word_end(s, i))] + token_bounds(s, word_end(s, i))
        }
    } else {
        Seq::empty()
    }
}

/// `bounds` cuts `s` from index `i` on into its maximal runs of
/// non-separators: each piece is non-empty and free of separators, the
/// pieces come in order with at least one character between two of them,
/// and every character from `i` on that lies in no piece is a separator.
pub open spec fn cuts_into_runs(s: Seq<char>, i: int, bounds: Seq<(int, int)>) -> bool {
    &&& forall|k: int|
        0 <= k < bounds.len() ==> i <= (#[trigger] bounds[k]).0 < bounds[k].1 <= s.len()
    &&& forall|k: int, j: int|
        #![trigger bounds[k], s[j]]
        0 <= k < bounds.len() && bounds[k].0 <= j < bounds[k].1 ==> !is_space(s[j])
    &&& forall|k: int, l: int|
        0 <= k < l < bounds.len() ==> (#[trigger] bounds[k]).1 < (#[trigger] bounds[l]).0
    &&& forall|j: int|
        i <= j < s.len() && !is_space(#[trigger] s[j]) ==> exists|k: int|
            0 <= k < bounds.len() && (#[trigger] bounds[k]).0 <= j < bounds[k].1
}

/// The index pairs of [`token_bounds`] cut `s` into its maximal runs of
/// non-separators.
pub proof fn law_tokens_are_maximal_runs(s: Seq<char>, i: int)
    requires
        0 <= i <= s.len(),
    ensures
        cuts_into_runs(s, i, token_bounds(s, i)),
    decreases s.len() - i,
{
    let bounds = token_bounds(s, i);
    if i < s.len() {
        if is_space(s[i]) {
            law_tokens_are_maximal_runs(s, i + 1);
            assert(bounds == token_bounds(s, i + 1));
            assert forall|j: int| i <= j < s.len() && !is_space(#[trigger] s[j]) implies exists|
                k: int,
            |
                0 <= k < bounds.len() && (#[trigger] bounds[k]).0 <= j < bounds[k].1 by {
                assert(j >= i + 1);
            }
        } else {
            let e = word_end(s, i);
            lemma_word_end(s, i);
            law_tokens_are_maximal_runs(s, e);
            let rest = token_bounds(s, e);
            assert(bounds == seq![(i, e)] + rest);
            assert forall|k: int| 0 <= k < bounds.len() implies i <= (#[trigger] bounds[k]).0
                < bounds[k].1 <= s.len() by {
                if k > 0 {
                    assert(bounds[k] == rest[k - 1]);
                }
            }
            assert forall|k: int, j: int|
                #![trigger bounds[k], s[j]]
                0 <= k < bounds.len() && bounds[k].0 <= j < bounds[k].1 implies !is_space(s[j]) by {
                if k > 0 {
                    assert(bounds[k] == rest[k - 1]);
                }
            }
            assert forall|k: int, l: int| 0 <= k < l < bounds.len() implies (#[trigger] bounds[k]).1
                < (#[trigger] bounds[l]).0 by {
                assert(bounds[l] == rest[l - 1]);
                if k > 0 {
                    assert(bounds[k] == rest[k - 1]);
                } else {
                    assert(e < s.len() ==> is_space(s[e]));
                    assert(!is_space(s[rest[l - 1].0]));
                }
            }
            assert forall|j: int| i <= j < s.len() && !is_space(#[trigger] s[j]) implies exists|
                k: int,
            |
                0 <= k < bounds.len() && (#[trigger] bounds[k]).0 <= j < bounds[k].1 by {
                if j < e {
                    assert(bounds[0] == (i, e));
                } else {
                    let k = choose|k: int|
                        0 <= k < rest.len() && (#[trigger] rest[k]).0 <= j < rest[k].1;
                    assert(bounds[k + 1] == rest[k]);
                }
            }
        }
    }
}

/// The whitespace-separated tokens of `s`: the pieces that its maximal
/// runs of non-separators cut out, in the order in which they occur.
pub open spec fn tokens(s: Seq<char>) -> Seq<Seq<char>> {
    Seq::new(
        token_bounds(s, 0).len(),
        |k: int| s.subrange(token_bounds(s, 0)[k].0, token_bounds(s, 0)[k].1),
    )
}

/// The index pairs of `spans` as integers.
pub open spec fn span_bounds(spans: Seq<(usize, usize)>) -> Seq<(int, int)> {
    Seq::new(spans.len(), |k: int| (spans[k].0 as int, spans[k].1 as int))
}

/// Finds the tokens of `chars` and returns, for each, the index of its
/// first character and the index just past its last one.
pub fn token_spans(chars: &Vec<char>) -> (spans: Vec<(usize, usize)>)
    ensures
        span_bounds(spans@) == token_bounds(chars@, 0),
{
    let n = chars.len();
    let mut spans: Vec<(usize, usize)> = Vec::new();
    let mut i: usize = 0;
    while i < n
        invariant
            n == chars@.len(),
            i <= n,
            span_bounds(spans@) + token_bounds(chars@, i as int) == token_bounds(chars@, 0),
        decreases n - i,
    {
        if is_whitespace(chars[i]) {
            i = i + 1;
        } else {
            let start = i;
            let ghost before = spans@;
            while i < n && !is_whitespace(chars[i])
                invariant
                    n == chars@.len(),
                    start <= i <= n,
                    word_end(chars@, i as int) == word_end(chars@, start as int),
                decreases n - i,
            {
                i = i + 1;
            }
            spans.push((start, i));
            assert(span_bounds(spans@) == span_bounds(before) + seq![(start as int, i as int)]);
        }
    }
    spans
}

} // verus!
