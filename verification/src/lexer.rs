//! The lexical splitter: a line is cut into the maximal runs of characters
//! that hold no white space. There is no quoting and no escaping.

use crate::text::{chars_of, is_whitespace, joined, string_of, whitespace};
use vstd::prelude::*;

verus! {

/// Length of the longest prefix of `s` that holds no white space.
pub open spec fn word_len(s: Seq<char>) -> nat
    decreases s.len(),
{
    if s.len() == 0 || is_whitespace(s[0]) {
        0
    } else {
        1 + word_len(s.skip(1))
    }
}

/// The tokens of `s`: leading white space is skipped, the longest prefix
/// without white space is a token, and the rest is split in the same way.
pub open spec fn tokens(s: Seq<char>) -> Seq<Seq<char>>
    decreases s.len(),
{
    if s.len() == 0 {
        Seq::empty()
    } else if is_whitespace(s[0]) {
        tokens(s.skip(1))
    } else {
        let n = word_len(s) as int;
        proof {
            lemma_word_len_bounds(s);
        }
        seq![s.take(n)] + tokens(s.skip(n))
    }
}

/// A word is a non-empty run of characters without white space.
pub open spec fn is_word(w: Seq<char>) -> bool {
    w.len() > 0 && forall|k: int| 0 <= k < w.len() ==> !is_whitespace(#[trigger] w[k])
}

/// `word_len` never runs past the end, and stops only at white space or at the end.
pub proof fn lemma_word_len_bounds(s: Seq<char>)
    ensures
        word_len(s) <= s.len(),
        forall|k: int| 0 <= k < word_len(s) ==> !is_whitespace(#[trigger] s[k]),
        word_len(s) < s.len() ==> is_whitespace(s[word_len(s) as int]),
        s.len() > 0 && !is_whitespace(s[0]) ==> word_len(s) > 0,
    decreases s.len(),
{
    if s.len() > 0 && !is_whitespace(s[0]) {
        let t = s.skip(1);
        lemma_word_len_bounds(t);
        assert forall|k: int| 0 <= k < word_len(s) implies !is_whitespace(#[trigger] s[k]) by {
            if k > 0 {
                assert(s[k] == t[k - 1]);
            }
        }
        if word_len(s) < s.len() {
            assert(s[word_len(s) as int] == t[word_len(t) as int]);
        }
    }
}

/// A prefix of `n` characters without white space that ends at white space or
/// at the end of `s` is the first word of `s`.
pub proof fn lemma_word_len_is(s: Seq<char>, n: int)
    requires
        0 <= n <= s.len(),
        forall|k: int| 0 <= k < n ==> !is_whitespace(#[trigger] s[k]),
        n < s.len() ==> is_whitespace(s[n]),
    ensures
        word_len(s) == n,
    decreases n,
{
    if n > 0 {
        let t = s.skip(1);
        assert forall|k: int| 0 <= k < n - 1 implies !is_whitespace(#[trigger] t[k]) by {
            assert(t[k] == s[k + 1]);
        }
        if n - 1 < t.len() {
            assert(t[n - 1] == s[n]);
        }
        lemma_word_len_is(t, n - 1);
    }
}

/// Splits `chars[from..to]` into its tokens.
pub(crate) fn split_range(chars: &Vec<char>, from: usize, to: usize) -> (r: Vec<String>)
    requires
        from <= to <= chars.len(),
    ensures
        r.deep_view() == tokens(chars@.subrange(from as int, to as int)),
{
    let mut out: Vec<String> = Vec::new();
    let mut i: usize = from;
    let ghost whole = chars@.subrange(from as int, to as int);
    assert(out.deep_view() =~= Seq::<Seq<char>>::empty());
    assert(Seq::<Seq<char>>::empty() + tokens(whole) =~= tokens(whole));
    while i < to
        invariant
            from <= i <= to <= chars.len(),
            whole == chars@.subrange(from as int, to as int),
            tokens(whole) == out.deep_view() + tokens(chars@.subrange(i as int, to as int)),
        decreases to - i,
    {
        let ghost rest = chars@.subrange(i as int, to as int);
        if whitespace(chars[i]) {
            assert(rest.skip(1) =~= chars@.subrange(i + 1, to as int));
            i += 1;
        } else {
            let start: usize = i;
            while i < to && !whitespace(chars[i])
                invariant
                    start <= i <= to <= chars.len(),
                    forall|k: int| start <= k < i ==> !is_whitespace(#[trigger] chars@[k]),
                decreases to - i,
            {
                i += 1;
            }
            let word = string_of(chars, start, i);
            proof {
                let n = i - start;
                assert forall|k: int| 0 <= k < n implies !is_whitespace(#[trigger] rest[k]) by {
                    assert(rest[k] == chars@[start + k]);
                }
                lemma_word_len_is(rest, n);
                assert(rest.take(n) =~= word@);
                assert(rest.skip(n) =~= chars@.subrange(i as int, to as int));
            }
            let ghost before = out.deep_view();
            out.push(word);
            assert(out.deep_view() =~= before.push(word@));
            assert(before.push(word@) + tokens(chars@.subrange(i as int, to as int)) =~= before + (
            seq![word@] + tokens(chars@.subrange(i as int, to as int))));
        }
    }
    assert(chars@.subrange(to as int, to as int) =~= Seq::<char>::empty());
    assert(out.deep_view() + Seq::<Seq<char>>::empty() =~= out.deep_view());
    out
}

/// Splits a line into its tokens. An empty or blank line has none.
pub fn split(line: &str) -> (r: Vec<String>)
    ensures
        r.deep_view() == tokens(line@),
{
    let chars = chars_of(line);
    assert(chars@.subrange(0, chars@.len() as int) =~= line@);
    split_range(&chars, 0, chars.len())
}

/// A line that holds nothing but white space.
pub open spec fn is_blank(s: Seq<char>) -> bool {
    forall|k: int| 0 <= k < s.len() ==> is_whitespace(#[trigger] s[k])
}

/// A blank line has no tokens.
pub proof fn lemma_blank_has_no_tokens(s: Seq<char>)
    requires
        is_blank(s),
    ensures
        tokens(s) == Seq::<Seq<char>>::empty(),
    decreases s.len(),
{
    if s.len() > 0 {
        let rest = s.skip(1);
        assert(is_whitespace(s[0]));
        assert forall|k: int| 0 <= k < rest.len() implies is_whitespace(#[trigger] rest[k]) by {
            assert(rest[k] == s[k + 1]);
        }
        lemma_blank_has_no_tokens(rest);
    }
}

/// A line in normal form: no white space at either end, and between two
/// words exactly one space character.
pub open spec fn normalised(s: Seq<char>) -> bool {
    &&& s.len() > 0 ==> !is_whitespace(s[0]) && !is_whitespace(s.last())
    &&& forall|k: int|
        0 <= k < s.len() && is_whitespace(#[trigger] s[k]) ==> s[k] == ' ' && (k + 1 < s.len()
            ==> !is_whitespace(s[k + 1]))
}

/// Every token is a word: it is not empty and holds no white space.
pub proof fn lemma_tokens_are_words(s: Seq<char>)
    ensures
        forall|i: int| 0 <= i < tokens(s).len() ==> is_word(#[trigger] tokens(s)[i]),
    decreases s.len(),
{
    if s.len() == 0 {
        assert(tokens(s).len() == 0);
    } else if is_whitespace(s[0]) {
        lemma_tokens_are_words(s.skip(1));
        assert(tokens(s) == tokens(s.skip(1)));
    } else {
        let n = word_len(s) as int;
        lemma_word_len_bounds(s);
        lemma_tokens_are_words(s.skip(n));
        let first = s.take(n);
        let rest = tokens(s.skip(n));
        assert forall|i: int| 0 <= i < tokens(s).len() implies is_word(#[trigger] tokens(s)[i]) by {
            if i == 0 {
                assert(tokens(s)[0] == first);
                assert forall|k: int| 0 <= k < first.len() implies !is_whitespace(
                    #[trigger] first[k],
                ) by {
                    assert(first[k] == s[k]);
                }
            } else {
                assert(tokens(s)[i] == rest[i - 1]);
            }
        }
    }
}

/// Words joined by single spaces split back into the same words.
pub proof fn lemma_split_of_joined_words(words: Seq<Seq<char>>)
    requires
        forall|i: int| 0 <= i < words.len() ==> is_word(#[trigger] words[i]),
    ensures
        tokens(joined(words, seq![' '])) == words,
    decreases words.len(),
{
    let sep = seq![' '];
    let line = joined(words, sep);
    if words.len() == 0 {
    } else {
        let w = words[0];
        assert(is_word(w));
        if words.len() == 1 {
            lemma_word_len_is(line, w.len() as int);
            assert(line.take(w.len() as int) =~= w);
            assert(line.skip(w.len() as int) =~= Seq::<char>::empty());
            assert(tokens(line.skip(w.len() as int)) =~= Seq::<Seq<char>>::empty());
            assert(tokens(line) =~= words);
        } else {
            let others = words.skip(1);
            assert forall|i: int| 0 <= i < others.len() implies is_word(#[trigger] others[i]) by {
                assert(others[i] == words[i + 1]);
            }
            lemma_split_of_joined_words(others);
            let tail = joined(others, sep);
            assert(line == w + sep + tail);
            assert forall|k: int| 0 <= k < w.len() implies !is_whitespace(#[trigger] line[k]) by {
                assert(line[k] == w[k]);
            }
            assert(line[w.len() as int] == ' ');
            lemma_word_len_is(line, w.len() as int);
            assert(line.take(w.len() as int) =~= w);
            let after = line.skip(w.len() as int);
            assert(after =~= sep + tail);
            assert(is_whitespace(after[0]));
            assert(after.skip(1) =~= tail);
            assert(tokens(after) == tokens(tail));
            assert(tokens(line) =~= seq![w] + others);
            assert(seq![w] + others =~= words);
        }
    }
}

/// Splitting is idempotent: the tokens of a line, written out with single
/// spaces between them, split into the same tokens again.
pub proof fn lemma_split_is_idempotent(s: Seq<char>)
    ensures
        tokens(joined(tokens(s), seq![' '])) == tokens(s),
{
    lemma_tokens_are_words(s);
    lemma_split_of_joined_words(tokens(s));
}

/// On a line in normal form splitting loses nothing: joining its tokens with
/// single spaces gives the line back.
pub proof fn lemma_normalised_round_trip(s: Seq<char>)
    requires
        normalised(s),
    ensures
        joined(tokens(s), seq![' ']) == s,
    decreases s.len(),
{
    let sep = seq![' '];
    if s.len() > 0 {
        let n = word_len(s) as int;
        lemma_word_len_bounds(s);
        let first = s.take(n);
        if n == s.len() {
            assert(s.skip(n) =~= Seq::<char>::empty());
            assert(tokens(s.skip(n)) =~= Seq::<Seq<char>>::empty());
            assert(tokens(s) =~= seq![first]);
            assert(first =~= s);
        } else {
            assert(is_whitespace(s[n]));
            assert(s[n] == ' ');
            assert(n + 1 < s.len()) by {
                if n + 1 == s.len() {
                    assert(s.last() == s[n]);
                }
            }
            let after = s.skip(n);
            let tail = s.skip(n + 1);
            assert(after[0] == s[n]);
            assert(after.skip(1) =~= tail);
            assert(tokens(after) == tokens(tail));
            assert(normalised(tail)) by {
                assert(tail[0] == s[n + 1]);
                assert(tail.last() == s.last());
                assert forall|k: int|
                    0 <= k < tail.len() && is_whitespace(#[trigger] tail[k]) implies tail[k] == ' '
                    && (k + 1 < tail.len() ==> !is_whitespace(tail[k + 1])) by {
                    assert(tail[k] == s[k + n + 1]);
                    if k + 1 < tail.len() {
                        assert(tail[k + 1] == s[k + n + 2]);
                    }
                }
            }
            lemma_normalised_round_trip(tail);
            let rest = tokens(tail);
            assert(rest.len() > 0) by {
                lemma_word_len_bounds(tail);
            }
            let all = seq![first] + rest;
            assert(tokens(s) == all);
            assert(all.skip(1) =~= rest);
            assert(joined(all, sep) == first + sep + joined(rest, sep));
            assert(first + sep + tail =~= s);
        }
    } else {
        assert(joined(tokens(s), sep) =~= s);
    }
}

} // verus!
