//! Whitespace and the splitting of a string into whitespace-separated tokens.

use vstd::prelude::*;

verus! {

/// Whether `c` is a Unicode `White_Space` code point.
pub open spec fn is_space(c: char) -> bool {
    let n = c as u32;
    ||| 0x09 <= n <= 0x0D
    ||| n == 0x20
    ||| n == 0x85
    ||| n == 0xA0
    ||| n == 0x1680
    ||| 0x2000 <= n <= 0x200A
    ||| n == 0x2028
    ||| n == 0x2029
    ||| n == 0x202F
    ||| n == 0x205F
    ||| n == 0x3000
}

/// Tests one character for being whitespace.
pub fn is_whitespace(c: char) -> (r: bool)
    ensures
        r == is_space(c),
{
    let n: u32 = c as u32;
    (0x09 <= n && n <= 0x0D) || n == 0x20 || n == 0x85 || n == 0xA0 || n == 0x1680 || (0x2000 <= n
        && n <= 0x200A) || n == 0x2028 || n == 0x2029 || n == 0x202F || n == 0x205F || n == 0x3000
}

/// Whether every character of `s` is whitespace.
pub open spec fn all_space(s: Seq<char>) -> bool {
    forall|i: int| 0 <= i < s.len() ==> is_space(#[trigger] s[i])
}

/// Whether no character of `s` is whitespace.
pub open spec fn no_space(s: Seq<char>) -> bool {
    forall|i: int| 0 <= i < s.len() ==> !is_space(#[trigger] s[i])
}

/// The length of the run of non-whitespace characters that `s` starts with.
pub open spec fn word_len(s: Seq<char>) -> nat
    decreases s.len(),
{
    if s.len() == 0 || is_space(s[0]) {
        0
    } else {
        1 + word_len(s.skip(1))
    }
}

/// The maximal runs of non-whitespace characters of `s`, from left to right.
pub open spec fn tokens(s: Seq<char>) -> Seq<Seq<char>>
    decreases s.len(),
    via tokens_decreases
{
    if s.len() == 0 {
        Seq::empty()
    } else if is_space(s[0]) {
        tokens(s.skip(1))
    } else {
        seq![s.take(word_len(s) as int)] + tokens(s.skip(word_len(s) as int))
    }
}

#[via_fn]
proof fn tokens_decreases(s: Seq<char>) {
    lemma_word_len_bound(s);
}

/// The views of a vector of strings.
pub open spec fn texts(v: Seq<String>) -> Seq<Seq<char>> {
    v.map_values(|s: String| s@)
}

/// A word's length is at most the length of the string it starts.
pub proof fn lemma_word_len_bound(s: Seq<char>)
    ensures
        word_len(s) <= s.len(),
        s.len() > 0 && !is_space(s[0]) ==> word_len(s) >= 1,
    decreases s.len(),
{
    if s.len() > 0 && !is_space(s[0]) {
        lemma_word_len_bound(s.skip(1));
    }
}

/// A run of `n` non-whitespace characters that ends the string, or is followed
/// by whitespace, is the leading word.
pub proof fn lemma_word_len_is(s: Seq<char>, n: int)
    requires
        0 <= n <= s.len(),
        forall|i: int| 0 <= i < n ==> !is_space(#[trigger] s[i]),
        n == s.len() || is_space(s[n]),
    ensures
        word_len(s) == n,
    decreases n,
{
    if n > 0 {
        let t = s.skip(1);
        assert forall|i: int| 0 <= i < n - 1 implies !is_space(#[trigger] t[i]) by {
            assert(t[i] == s[i + 1]);
        }
        lemma_word_len_is(t, n - 1);
    }
}

/// The leading word holds no whitespace, and whitespace or the end of the
/// string follows it.
pub proof fn lemma_word_len_run(s: Seq<char>)
    ensures
        word_len(s) <= s.len(),
        forall|i: int| 0 <= i < word_len(s) ==> !is_space(#[trigger] s[i]),
        word_len(s) == s.len() || is_space(s[word_len(s) as int]),
    decreases s.len(),
{
    if s.len() > 0 && !is_space(s[0]) {
        let t = s.skip(1);
        lemma_word_len_run(t);
        assert forall|i: int| 0 <= i < word_len(s) implies !is_space(#[trigger] s[i]) by {
            if i > 0 {
                assert(s[i] == t[i - 1]);
            }
        }
        if word_len(s) < s.len() {
            assert(s[word_len(s) as int] == t[word_len(t) as int]);
        }
    }
}

/// Whitespace in front of a string adds no token.
pub proof fn lemma_tokens_after_space(gap: Seq<char>, rest: Seq<char>)
    requires
        all_space(gap),
    ensures
        tokens(gap + rest) == tokens(rest),
    decreases gap.len(),
{
    if gap.len() == 0 {
        assert(gap + rest =~= rest);
    } else {
        assert(is_space(gap[0]));
        assert((gap + rest).skip(1) =~= gap.skip(1) + rest);
        lemma_tokens_after_space(gap.skip(1), rest);
    }
}

/// Where the second part is empty or starts with whitespace, the tokens of
/// the whole are those of the first part followed by those of the second.
pub proof fn lemma_tokens_concat(first: Seq<char>, second: Seq<char>)
    requires
        second.len() == 0 || is_space(second[0]),
    ensures
        tokens(first + second) == tokens(first) + tokens(second),
    decreases first.len(),
{
    let whole = first + second;
    if first.len() == 0 {
        assert(whole =~= second);
        assert(tokens(first) + tokens(second) =~= tokens(second));
    } else if is_space(first[0]) {
        assert(whole.skip(1) =~= first.skip(1) + second);
        lemma_tokens_concat(first.skip(1), second);
    } else {
        let w = word_len(first) as int;
        lemma_word_len_run(first);
        lemma_word_len_bound(first);
        assert forall|i: int| 0 <= i < w implies !is_space(#[trigger] whole[i]) by {
            assert(whole[i] == first[i]);
        }
        lemma_word_len_is(whole, w);
        assert(whole.take(w) =~= first.take(w));
        assert(whole.skip(w) =~= first.skip(w) + second);
        lemma_tokens_concat(first.skip(w), second);
        assert(tokens(whole) =~= tokens(first) + tokens(second));
    }
}

/// A non-empty string without whitespace is its own single token.
pub proof fn lemma_tokens_of_word(word: Seq<char>)
    requires
        word.len() > 0,
        no_space(word),
    ensures
        tokens(word) == seq![word],
{
    lemma_word_len_is(word, word.len() as int);
    assert(word.take(word.len() as int) =~= word);
    assert(word.skip(word.len() as int) =~= Seq::<char>::empty());
    assert(!is_space(word[0]));
    assert(tokens(Seq::<char>::empty()) =~= Seq::<Seq<char>>::empty());
    assert(tokens(word) =~= seq![word]);
}

/// How much whitespace separates two parts of a string makes no difference to
/// its tokens: any two non-empty runs of whitespace in the same place give
/// the same tokens, those of the part before followed by those of the part
/// after.
pub proof fn lemma_gap_length_irrelevant(
    before: Seq<char>,
    gap: Seq<char>,
    other_gap: Seq<char>,
    after: Seq<char>,
)
    requires
        gap.len() > 0,
        other_gap.len() > 0,
        all_space(gap),
        all_space(other_gap),
    ensures
        tokens(before + gap + after) == tokens(before) + tokens(after),
        tokens(before + gap + after) == tokens(before + other_gap + after),
{
    lemma_tokens_across_gap(before, gap, after);
    lemma_tokens_across_gap(before, other_gap, after);
}

proof fn lemma_tokens_across_gap(before: Seq<char>, gap: Seq<char>, after: Seq<char>)
    requires
        gap.len() > 0,
        all_space(gap),
    ensures
        tokens(before + gap + after) == tokens(before) + tokens(after),
{
    assert(is_space(gap[0]));
    assert(before + gap + after =~= before + (gap + after));
    lemma_tokens_concat(before, gap + after);
    lemma_tokens_after_space(gap, after);
}

/// Two words with whitespace between them, and any whitespace around them,
/// are exactly two tokens, in their order.
pub proof fn lemma_tokens_of_two_words(
    lead: Seq<char>,
    first: Seq<char>,
    gap: Seq<char>,
    second: Seq<char>,
    trail: Seq<char>,
)
    requires
        all_space(lead),
        all_space(trail),
        all_space(gap),
        gap.len() > 0,
        first.len() > 0,
        second.len() > 0,
        no_space(first),
        no_space(second),
    ensures
        tokens(lead + first + gap + second + trail) == seq![first, second],
{
    let tail = gap + (second + trail);
    assert(lead + first + gap + second + trail =~= lead + (first + tail));
    lemma_tokens_after_space(lead, first + tail);
    assert(is_space(gap[0]));
    lemma_tokens_concat(first, tail);
    lemma_tokens_of_word(first);
    lemma_tokens_after_space(gap, second + trail);
    lemma_tokens_concat(second, trail);
    lemma_tokens_of_word(second);
    lemma_tokens_after_space(trail, Seq::<char>::empty());
    assert(trail + Seq::<char>::empty() =~= trail);
    assert(tokens(Seq::<char>::empty()) =~= Seq::<Seq<char>>::empty());
    assert(seq![first] + (seq![second] + Seq::<Seq<char>>::empty()) =~= seq![first, second]);
}

/// Splits `s` at whitespace: the result holds the maximal runs of
/// non-whitespace characters, in the order in which they occur. Leading and
/// trailing whitespace, and the length of each run of whitespace between two
/// tokens, make no difference.
pub fn split_whitespace(s: &str) -> (out: Vec<String>)
    ensures
        texts(out@) == tokens(s@),
{
    let n: usize = s.unicode_len();
    let mut out: Vec<String> = Vec::new();
    let mut i: usize = 0;
    assert(s@.skip(0) =~= s@);
    assert(texts(out@) =~= Seq::<Seq<char>>::empty());
    while i < n
        invariant
            n == s@.len(),
            i <= n,
            texts(out@) + tokens(s@.skip(i as int)) == tokens(s@),
        decreases n - i,
    {
        let ghost rest = s@.skip(i as int);
        if is_whitespace(s.get_char(i)) {
            assert(rest.skip(1) =~= s@.skip(i + 1));
            i += 1;
        } else {
            let start: usize = i;
            let mut j: usize = i + 1;
            while j < n && !is_whitespace(s.get_char(j))
                invariant
                    n == s@.len(),
                    start < j <= n,
                    forall|k: int| start <= k < j ==> !is_space(#[trigger] s@[k]),
                decreases n - j,
            {
                j += 1;
            }
            let word = s.substring_char(start, j).to_owned();
            proof {
                let w = j - start;
                lemma_word_len_is(rest, w);
                assert(rest.take(w) =~= word@);
                assert(rest.skip(w) =~= s@.skip(j as int));
                assert(texts(out@.push(word)) =~= texts(out@).push(word@));
                assert(texts(out@).push(word@) + tokens(s@.skip(j as int)) =~= texts(out@) + tokens(
                    rest,
                ));
            }
            out.push(word);
            i = j;
        }
    }
    assert(texts(out@) + tokens(s@.skip(i as int)) =~= texts(out@));
    out
}

} // verus!
