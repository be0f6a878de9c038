//! Spacing does not matter to the parser: what a line parses to depends on
//! its tokens alone, not on the white space between and around them.

use crate::lexer::{
    is_word, lemma_split_is_idempotent, lemma_tokens_are_words, lemma_word_len_bounds,
    lemma_word_len_is, tokens, word_len,
};
use crate::parser::{parsed, pipeline};
use crate::text::{is_whitespace, joined, lemma_until_is, trimmed_end, until};
use vstd::prelude::*;

verus! {

/// `until` never runs past the end, and stops only at `stop` or at the end.
proof fn lemma_until_bounds(s: Seq<char>, stop: char)
    ensures
        until(s, stop) <= s.len(),
        forall|k: int| 0 <= k < until(s, stop) ==> #[trigger] s[k] != stop,
        until(s, stop) < s.len() ==> s[until(s, stop) as int] == stop,
    decreases s.len(),
{
    if s.len() > 0 && s[0] != stop {
        let t = s.skip(1);
        lemma_until_bounds(t, stop);
        assert forall|k: int| 0 <= k < until(s, stop) implies #[trigger] s[k] != stop by {
            if k > 0 {
                assert(s[k] == t[k - 1]);
            }
        }
        if until(s, stop) < s.len() {
            assert(s[until(s, stop) as int] == t[until(t, stop) as int]);
        }
    }
}

/// A word of `w` characters at the start of `s`, followed by white space or
/// by the end, is the first token of `s`; the other tokens are those of the rest.
proof fn lemma_first_token(s: Seq<char>, w: int)
    requires
        0 < w <= s.len(),
        forall|k: int| 0 <= k < w ==> !is_whitespace(#[trigger] s[k]),
        w < s.len() ==> is_whitespace(s[w]),
    ensures
        tokens(s) == seq![s.take(w)] + tokens(s.skip(w)),
{
    lemma_word_len_is(s, w);
    assert(!is_whitespace(s[0]));
}

/// A run of characters without white space is its own single token.
proof fn lemma_word_is_one_token(x: Seq<char>)
    requires
        is_word(x),
    ensures
        tokens(x) == seq![x],
{
    lemma_first_token(x, x.len() as int);
    assert(x.take(x.len() as int) =~= x);
    assert(x.skip(x.len() as int) =~= Seq::<char>::empty());
    assert(tokens(x.skip(x.len() as int)) =~= Seq::<Seq<char>>::empty());
    assert(seq![x] + Seq::<Seq<char>>::empty() =~= seq![x]);
}

/// The tokens of a text with one more character at its end. White space
/// adds nothing. Another character starts a new token after white space or
/// at the start, and otherwise lengthens the last token.
proof fn lemma_tokens_push(x: Seq<char>, c: char)
    ensures
        is_whitespace(c) ==> tokens(x.push(c)) == tokens(x),
        !is_whitespace(c) && (x.len() == 0 || is_whitespace(x.last())) ==> tokens(x.push(c))
            == tokens(x).push(seq![c]),
        !is_whitespace(c) && x.len() > 0 && !is_whitespace(x.last()) ==> tokens(x).len() > 0
            && tokens(x.push(c)) == tokens(x).drop_last().push(tokens(x).last().push(c)),
    decreases x.len(),
{
    let y = x.push(c);
    if x.len() == 0 {
        assert(y.skip(1) =~= Seq::<char>::empty());
        assert(tokens(y.skip(1)) =~= Seq::<Seq<char>>::empty());
        if !is_whitespace(c) {
            lemma_first_token(y, 1);
            assert(y.take(1) =~= seq![c]);
            assert(tokens(x) =~= Seq::<Seq<char>>::empty());
            assert(seq![seq![c]] + Seq::<Seq<char>>::empty() =~= tokens(x).push(seq![c]));
        } else {
            assert(tokens(y) == tokens(y.skip(1)));
            assert(tokens(x) =~= Seq::<Seq<char>>::empty());
        }
    } else if is_whitespace(x[0]) {
        let rest = x.skip(1);
        assert(y.skip(1) =~= rest.push(c));
        assert(y[0] == x[0]);
        lemma_tokens_push(rest, c);
        assert(tokens(y) == tokens(rest.push(c)));
        assert(tokens(x) == tokens(rest));
        if rest.len() > 0 {
            assert(rest.last() == x.last());
        }
    } else {
        let w = word_len(x) as int;
        lemma_word_len_bounds(x);
        let head = x.take(w);
        let rest = x.skip(w);
        let old_tail = tokens(rest);
        assert(tokens(x) == seq![head] + old_tail);
        if w == x.len() {
            assert(rest =~= Seq::<char>::empty());
            assert(old_tail =~= Seq::<Seq<char>>::empty());
            assert(head =~= x);
            assert(tokens(x) =~= seq![x]);
            assert(!is_whitespace(x.last()));
            if is_whitespace(c) {
                assert forall|k: int| 0 <= k < w implies !is_whitespace(#[trigger] y[k]) by {
                    assert(y[k] == x[k]);
                }
                lemma_first_token(y, w);
                assert(y.take(w) =~= x);
                assert(y.skip(w) =~= seq![c]);
                assert(seq![c].skip(1) =~= Seq::<char>::empty());
                assert(tokens(seq![c]) == tokens(seq![c].skip(1)));
                assert(tokens(seq![c].skip(1)) =~= Seq::<Seq<char>>::empty());
                assert(tokens(y) =~= seq![x]);
            } else {
                assert forall|k: int| 0 <= k < y.len() implies !is_whitespace(#[trigger] y[k]) by {
                    if k < w {
                        assert(y[k] == x[k]);
                    }
                }
                lemma_word_is_one_token(y);
                assert(tokens(x).drop_last().push(tokens(x).last().push(c)) =~= seq![y]);
            }
        } else {
            assert(is_whitespace(x[w]));
            assert forall|k: int| 0 <= k < w implies !is_whitespace(#[trigger] y[k]) by {
                assert(y[k] == x[k]);
            }
            assert(y[w] == x[w]);
            lemma_first_token(y, w);
            assert(y.take(w) =~= head);
            assert(y.skip(w) =~= rest.push(c));
            lemma_tokens_push(rest, c);
            assert(rest.last() == x.last());
            let new_tail = tokens(rest.push(c));
            assert(tokens(y) == seq![head] + new_tail);
            if is_whitespace(c) {
            } else if is_whitespace(x.last()) {
                assert(seq![head] + old_tail.push(seq![c]) =~= (seq![head] + old_tail).push(
                    seq![c],
                ));
            } else {
                assert(old_tail.len() > 0);
                let all = seq![head] + old_tail;
                assert(all.last() == old_tail.last());
                assert(all.drop_last() =~= seq![head] + old_tail.drop_last());
                assert(seq![head] + old_tail.drop_last().push(old_tail.last().push(c))
                    =~= all.drop_last().push(all.last().push(c)));
            }
        }
    }
}

/// White space at the end of a text adds no token.
proof fn lemma_tokens_of_trimmed(s: Seq<char>)
    ensures
        tokens(trimmed_end(s)) == tokens(s),
        trimmed_end(s).len() > 0 ==> !is_whitespace(trimmed_end(s).last()),
    decreases s.len(),
{
    if s.len() > 0 && is_whitespace(s.last()) {
        let x = s.drop_last();
        lemma_tokens_of_trimmed(x);
        lemma_tokens_push(x, s.last());
        assert(x.push(s.last()) =~= s);
    }
}

/// A word as a list of tokens: itself, or no token where it is empty.
pub open spec fn optional(word: Seq<char>) -> Seq<Seq<char>> {
    if word.len() > 0 {
        seq![word]
    } else {
        Seq::empty()
    }
}

/// The last character of the last token is `&`.
pub open spec fn ends_with_ampersand(toks: Seq<Seq<char>>) -> bool {
    toks.len() > 0 && toks.last().len() > 0 && toks.last().last() == '&'
}

/// The tokens without the last character of the last one.
pub open spec fn without_last_character(toks: Seq<Seq<char>>) -> Seq<Seq<char>> {
    toks.drop_last() + optional(toks.last().drop_last())
}

/// Whether a line's last visible character is `&`, and the tokens of what
/// stands before it, can be read off the line's tokens.
proof fn lemma_background_by_tokens(s: Seq<char>)
    ensures
        (trimmed_end(s).len() > 0 && trimmed_end(s).last() == '&') == ends_with_ampersand(
            tokens(s),
        ),
        trimmed_end(s).len() > 0 ==> tokens(trimmed_end(s).drop_last()) == without_last_character(
            tokens(s),
        ),
{
    let b = trimmed_end(s);
    lemma_tokens_of_trimmed(s);
    if b.len() > 0 {
        let x = b.drop_last();
        let c = b.last();
        assert(x.push(c) =~= b);
        lemma_tokens_push(x, c);
        lemma_tokens_are_words(x);
        let before = tokens(x);
        if x.len() == 0 || is_whitespace(x.last()) {
            let all = before.push(seq![c]);
            assert(all.last() == seq![c]);
            assert(all.drop_last() =~= before);
            assert(seq![c].drop_last() =~= Seq::<char>::empty());
            assert(without_last_character(all) =~= before);
        } else {
            let all = before.drop_last().push(before.last().push(c));
            assert(is_word(before[before.len() - 1]));
            assert(all.last() == before.last().push(c));
            assert(all.last().last() == c);
            assert(all.drop_last() =~= before.drop_last());
            assert(before.last().push(c).drop_last() =~= before.last());
            assert(without_last_character(all) =~= before);
        }
    } else {
        assert(tokens(b) =~= Seq::<Seq<char>>::empty());
    }
}

/// A token that holds a `|`.
pub open spec fn has_bar(word: Seq<char>) -> bool {
    until(word, '|') < word.len()
}

/// Some token holds a `|`.
pub open spec fn bars_in(toks: Seq<Seq<char>>) -> bool
    decreases toks.len(),
{
    toks.len() > 0 && (has_bar(toks[0]) || bars_in(toks.skip(1)))
}

/// The tokens before the first `|`: the tokens before the one that holds it,
/// and what that token holds before it.
pub open spec fn before_bar(toks: Seq<Seq<char>>) -> Seq<Seq<char>>
    decreases toks.len(),
{
    if toks.len() == 0 {
        toks
    } else if has_bar(toks[0]) {
        optional(toks[0].take(until(toks[0], '|') as int))
    } else {
        seq![toks[0]] + before_bar(toks.skip(1))
    }
}

/// The tokens after the first `|`: what the token that holds it holds after
/// it, and the tokens after that one.
pub open spec fn after_bar(toks: Seq<Seq<char>>) -> Seq<Seq<char>>
    decreases toks.len(),
{
    if toks.len() == 0 {
        toks
    } else if has_bar(toks[0]) {
        optional(toks[0].skip(until(toks[0], '|') as int + 1)) + toks.skip(1)
    } else {
        after_bar(toks.skip(1))
    }
}

/// Cutting a text at its first `|` and cutting its tokens there come to the
/// same: whether there is a `|`, and the tokens on either side of it, can be
/// read off the text's tokens.
proof fn lemma_cut_at_bar(s: Seq<char>)
    ensures
        bars_in(tokens(s)) == (until(s, '|') < s.len()),
        until(s, '|') < s.len() ==> tokens(s.take(until(s, '|') as int)) == before_bar(tokens(s)),
        until(s, '|') < s.len() ==> tokens(s.skip(until(s, '|') as int + 1)) == after_bar(
            tokens(s),
        ),
    decreases s.len(),
{
    let n = until(s, '|') as int;
    let toks = tokens(s);
    lemma_until_bounds(s, '|');
    if s.len() == 0 {
    } else if is_whitespace(s[0]) {
        let rest = s.skip(1);
        lemma_cut_at_bar(rest);
        lemma_until_bounds(rest, '|');
        assert(toks == tokens(rest));
        assert(n == until(rest, '|') + 1);
        if n < s.len() {
            let left = s.take(n);
            assert(left[0] == s[0]);
            assert(left.skip(1) =~= rest.take(n - 1));
            assert(tokens(left) == tokens(left.skip(1)));
            assert(s.skip(n + 1) =~= rest.skip(n));
        }
    } else {
        let w = word_len(s) as int;
        lemma_word_len_bounds(s);
        let head = s.take(w);
        let rest = s.skip(w);
        assert(toks == seq![head] + tokens(rest));
        assert(toks[0] == head);
        assert(toks.skip(1) =~= tokens(rest));
        if n < w {
            assert forall|k: int| 0 <= k < n implies #[trigger] head[k] != '|' by {
                assert(head[k] == s[k]);
            }
            assert(head[n] == s[n]);
            lemma_until_is(head, '|', n);
            assert(has_bar(head));
            assert(bars_in(toks));
            let left = s.take(n);
            assert(head.take(n) =~= left);
            if n > 0 {
                assert forall|k: int| 0 <= k < left.len() implies !is_whitespace(
                    #[trigger] left[k],
                ) by {
                    assert(left[k] == s[k]);
                }
                lemma_word_is_one_token(left);
            } else {
                assert(tokens(left) =~= Seq::<Seq<char>>::empty());
            }
            let right = s.skip(n + 1);
            let more = w - n - 1;
            assert(head.skip(n + 1) =~= s.subrange(n + 1, w));
            if more > 0 {
                assert forall|k: int| 0 <= k < more implies !is_whitespace(#[trigger] right[k]) by {
                    assert(right[k] == s[k + n + 1]);
                }
                if more < right.len() {
                    assert(right[more] == s[w]);
                }
                lemma_first_token(right, more);
                assert(right.take(more) =~= s.subrange(n + 1, w));
                assert(right.skip(more) =~= rest);
            } else {
                assert(right =~= rest);
                assert(head.skip(n + 1).len() == 0);
                assert(Seq::<Seq<char>>::empty() + toks.skip(1) =~= toks.skip(1));
            }
        } else {
            assert forall|k: int| 0 <= k < w implies #[trigger] head[k] != '|' by {
                assert(head[k] == s[k]);
            }
            lemma_until_is(head, '|', w);
            assert(!has_bar(head));
            lemma_cut_at_bar(rest);
            lemma_until_bounds(rest, '|');
            assert(until(rest, '|') == n - w) by {
                assert forall|k: int| 0 <= k < n - w implies #[trigger] rest[k] != '|' by {
                    assert(rest[k] == s[k + w]);
                }
                if n - w < rest.len() {
                    assert(rest[n - w] == s[n]);
                }
                lemma_until_is(rest, '|', n - w);
            }
            assert(bars_in(toks) == bars_in(toks.skip(1)));
            if n < s.len() {
                let left = s.take(n);
                assert forall|k: int| 0 <= k < w implies !is_whitespace(#[trigger] left[k]) by {
                    assert(left[k] == s[k]);
                }
                if w < left.len() {
                    assert(left[w] == s[w]);
                }
                lemma_first_token(left, w);
                assert(left.take(w) =~= head);
                assert(left.skip(w) =~= rest.take(n - w));
                assert(s.skip(n + 1) =~= rest.skip(n - w + 1));
            }
        }
    }
}

/// What a segment parses to depends on its tokens alone.
pub proof fn lemma_pipeline_depends_on_tokens(s: Seq<char>, t: Seq<char>)
    requires
        tokens(s) == tokens(t),
    ensures
        pipeline(s) == pipeline(t),
    decreases s.len(),
{
    lemma_cut_at_bar(s);
    lemma_cut_at_bar(t);
    let n = until(s, '|') as int;
    let m = until(t, '|') as int;
    if n < s.len() {
        lemma_pipeline_depends_on_tokens(s.skip(n + 1), t.skip(m + 1));
    }
}

/// What a line parses to depends on its tokens alone: two lines that differ
/// only in the white space between and around their tokens parse to the same
/// command, or fail with the same error.
pub proof fn lemma_parse_depends_on_tokens(s: Seq<char>, t: Seq<char>)
    requires
        tokens(s) == tokens(t),
    ensures
        parsed(s) == parsed(t),
{
    lemma_background_by_tokens(s);
    lemma_background_by_tokens(t);
    let a = trimmed_end(s);
    let b = trimmed_end(t);
    if a.len() > 0 && a.last() == '&' {
        lemma_pipeline_depends_on_tokens(a.drop_last(), b.drop_last());
    } else {
        lemma_pipeline_depends_on_tokens(s, t);
    }
}

/// Parsing ignores spacing: a line, and the same line with its tokens set
/// one space apart and nothing around them, parse to the same.
pub proof fn lemma_parse_ignores_spacing(line: Seq<char>)
    ensures
        parsed(joined(tokens(line), seq![' '])) == parsed(line),
{
    lemma_split_is_idempotent(line);
    lemma_parse_depends_on_tokens(joined(tokens(line), seq![' ']), line);
}

} // verus!
