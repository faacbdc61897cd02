//! Tokens: the stretches of a text between white space and delimiters, and
//! those among them that write a number.

use crate::pipeline::text::lines::{
    keep_nonempty, lemma_keep_nonempty_push, lemma_line_len_bound, line_len, lines_of,
    nonempty_lines_of, without_cr,
};
use crate::pipeline::text::literals::{float_literal, is_float_literal};
use crate::pipeline::text::strings::string_of;
use vstd::prelude::*;
use vstd::seq_lib::lemma_flatten_concat;

verus! {

/// White space, as the Unicode property `White_Space` lists it.
pub open spec fn is_white_space(c: char) -> bool {
    ||| '\u{9}' <= c <= '\u{d}'
    ||| c == ' '
    ||| c == '\u{85}'
    ||| c == '\u{a0}'
    ||| c == '\u{1680}'
    ||| '\u{2000}' <= c <= '\u{200a}'
    ||| c == '\u{2028}'
    ||| c == '\u{2029}'
    ||| c == '\u{202f}'
    ||| c == '\u{205f}'
    ||| c == '\u{3000}'
}

/// What parts tokens: white space, and the comma, the semicolon and the
/// vertical bar. (The tab, a delimiter too, is white space already.)
pub open spec fn is_separator(c: char) -> bool {
    c == ',' || c == ';' || c == '|' || is_white_space(c)
}

/// No separator stands in `s`.
pub open spec fn no_separator(s: Seq<char>) -> bool {
    forall|i: int| 0 <= i < s.len() ==> !is_separator(s[i])
}

/// The length of the stretch without separator that `s` begins with.
pub open spec fn token_len(s: Seq<char>) -> nat
    decreases s.len(),
{
    if s.len() == 0 || is_separator(s[0]) {
        0
    } else {
        1 + token_len(s.skip(1))
    }
}

/// The tokens of `s`: its maximal stretches without separator, from left to
/// right. None is empty.
pub open spec fn tokens_of(s: Seq<char>) -> Seq<Seq<char>>
    decreases s.len(),
{
    if s.len() == 0 {
        Seq::empty()
    } else if is_separator(s[0]) {
        tokens_of(s.skip(1))
    } else {
        proof {
            lemma_token_len_bound(s);
        }
        let k = token_len(s) as int;
        seq![s.take(k)] + tokens_of(s.skip(k))
    }
}

/// Those of `tokens` that are literals of floating-point numbers, in their
/// order.
pub open spec fn keep_floats(tokens: Seq<Seq<char>>) -> Seq<Seq<char>> {
    tokens.filter(|token: Seq<char>| is_float_literal(token))
}

/// The tokens of `s` that are literals of floating-point numbers.
pub open spec fn float_tokens_of(s: Seq<char>) -> Seq<Seq<char>> {
    keep_floats(tokens_of(s))
}

/// For each of `lines`, the tokens of it that are literals of floating-point
/// numbers.
pub open spec fn float_tokens_of_each(lines: Seq<Seq<char>>) -> Seq<Seq<Seq<char>>> {
    Seq::new(lines.len(), |i: int| float_tokens_of(lines[i]))
}

/// Whether `c` is white space.
pub fn white_space(c: char) -> (b: bool)
    ensures
        b == is_white_space(c),
{
    ('\u{9}' <= c && c <= '\u{d}') || c == ' ' || c == '\u{85}' || c == '\u{a0}' || c
        == '\u{1680}' || ('\u{2000}' <= c && c <= '\u{200a}') || c == '\u{2028}' || c
        == '\u{2029}' || c == '\u{202f}' || c == '\u{205f}' || c == '\u{3000}'
}

/// Whether `c` parts tokens.
pub fn separator(c: char) -> (b: bool)
    ensures
        b == is_separator(c),
{
    c == ',' || c == ';' || c == '|' || white_space(c)
}

/// The tokens of `text` that are literals of floating-point numbers, in
/// their order.
pub fn float_tokens(text: &str) -> (tokens: Vec<String>)
    ensures
        tokens.deep_view() == float_tokens_of(text@),
{
    let mut tokens: Vec<String> = Vec::new();
    let mut token: Vec<char> = Vec::new();
    let ghost mut done: Seq<Seq<char>> = Seq::empty();
    proof {
        assert(token@ + text@.skip(0) =~= text@);
        assert(done + tokens_of(text@) =~= tokens_of(text@));
        assert(tokens.deep_view() =~= keep_floats(done));
    }
    for c in it: text.chars()
        invariant
            it.seq() == text@,
            no_separator(token@),
            tokens_of(text@) == done + tokens_of(token@ + text@.skip(it.index() as int)),
            tokens.deep_view() == keep_floats(done),
    {
        let ghost rest = text@.skip(it.index() as int);
        proof {
            assert(rest.len() > 0 && rest[0] == c);
            assert(rest.skip(1) =~= text@.skip(it.index() + 1));
            lemma_tokens_after_prefix(token@, rest);
        }
        if separator(c) {
            if token.len() > 0 {
                proof {
                    lemma_keep_floats_push(done, token@);
                    assert(done + (seq![token@] + tokens_of(rest.skip(1))) =~= done.push(token@)
                        + tokens_of(rest.skip(1)));
                    done = done.push(token@);
                }
                if float_literal(&token) {
                    let ghost before = tokens.deep_view();
                    let literal = string_of(&token);
                    tokens.push(literal);
                    assert(tokens.deep_view() =~= before.push(token@));
                }
                token = Vec::new();
            }
            assert(token@ + rest.skip(1) =~= rest.skip(1));
        } else {
            token.push(c);
        }
    }
    proof {
        assert(text@.skip(text@.len() as int) =~= Seq::<char>::empty());
        lemma_tokens_after_prefix(token@, Seq::empty());
        lemma_keep_floats_push(done, token@);
        assert(done + seq![token@] =~= done.push(token@));
        assert(done + Seq::<Seq<char>>::empty() =~= done);
    }
    if token.len() > 0 && float_literal(&token) {
        let ghost before = tokens.deep_view();
        let literal = string_of(&token);
        tokens.push(literal);
        assert(tokens.deep_view() =~= before.push(token@));
    }
    tokens
}

/// A first stretch ends within the text, at a separator or at the end.
pub proof fn lemma_token_len_bound(s: Seq<char>)
    ensures
        token_len(s) <= s.len(),
        token_len(s) < s.len() ==> is_separator(s[token_len(s) as int]),
        no_separator(s.take(token_len(s) as int)),
    decreases s.len(),
{
    if s.len() == 0 || is_separator(s[0]) {
    } else {
        let t = s.skip(1);
        lemma_token_len_bound(t);
        assert forall|i: int| 0 <= i < token_len(s) implies !is_separator(
            #[trigger] s.take(token_len(s) as int)[i],
        ) by {
            if i > 0 {
                assert(s[i] == t.take(token_len(t) as int)[i - 1]);
            }
        }
    }
}

/// A stretch without separator in front of `rest` lengthens the first token
/// by its own length.
pub proof fn lemma_token_len_after_prefix(cur: Seq<char>, rest: Seq<char>)
    requires
        no_separator(cur),
    ensures
        token_len(cur + rest) == cur.len() + token_len(rest),
    decreases cur.len(),
{
    if cur.len() == 0 {
        assert(cur + rest =~= rest);
    } else {
        assert((cur + rest).skip(1) =~= cur.skip(1) + rest);
        lemma_token_len_after_prefix(cur.skip(1), rest);
    }
}

/// How the tokens of a text unfold where its first stretch `cur` holds no
/// separator.
pub proof fn lemma_tokens_after_prefix(cur: Seq<char>, rest: Seq<char>)
    requires
        no_separator(cur),
    ensures
        rest.len() == 0 ==> tokens_of(cur + rest) == (if cur.len() == 0 {
            Seq::<Seq<char>>::empty()
        } else {
            seq![cur]
        }),
        rest.len() > 0 && is_separator(rest[0]) ==> tokens_of(cur + rest) == (if cur.len() == 0 {
            tokens_of(rest.skip(1))
        } else {
            seq![cur] + tokens_of(rest.skip(1))
        }),
        rest.len() > 0 && !is_separator(rest[0]) ==> cur + rest == cur.push(rest[0]) + rest.skip(1),
{
    lemma_token_len_after_prefix(cur, rest);
    let s = cur + rest;
    if cur.len() > 0 {
        assert(s[0] == cur[0]);
        assert(s.take(cur.len() as int) =~= cur);
        assert(s.skip(cur.len() as int) =~= rest);
    }
    if rest.len() == 0 {
        assert(s =~= cur);
        assert(tokens_of(rest) =~= Seq::<Seq<char>>::empty());
        assert(seq![cur] + Seq::<Seq<char>>::empty() =~= seq![cur]);
    } else if is_separator(rest[0]) {
        assert(tokens_of(rest) == tokens_of(rest.skip(1)));
        if cur.len() == 0 {
            assert(s =~= rest);
        }
    } else {
        assert(s =~= cur.push(rest[0]) + rest.skip(1));
    }
}

/// One more token at the end is kept if it is such a literal.
pub proof fn lemma_keep_floats_push(tokens: Seq<Seq<char>>, token: Seq<char>)
    ensures
        keep_floats(tokens.push(token)) == (if is_float_literal(token) {
            keep_floats(tokens).push(token)
        } else {
            keep_floats(tokens)
        }),
{
    assert(tokens.push(token).drop_last() =~= tokens);
    reveal(Seq::filter);
}

/// The tokens of a text are those of what stands before one of its
/// separators, and then those of what stands after it.
pub proof fn lemma_tokens_around_separator(before: Seq<char>, c: char, after: Seq<char>)
    requires
        is_separator(c),
    ensures
        tokens_of(before + seq![c] + after) == tokens_of(before) + tokens_of(after),
    decreases before.len(),
{
    let s = before + seq![c] + after;
    if before.len() == 0 {
        assert(s.skip(1) =~= after);
        assert(tokens_of(before) + tokens_of(after) =~= tokens_of(after));
    } else if is_separator(before[0]) {
        assert(s[0] == before[0]);
        assert(s.skip(1) =~= before.skip(1) + seq![c] + after);
        lemma_tokens_around_separator(before.skip(1), c, after);
    } else {
        let k = token_len(before) as int;
        lemma_token_len_bound(before);
        let token = before.take(k);
        let tail = before.skip(k) + seq![c] + after;
        assert(s =~= token + tail);
        assert(s[0] == before[0]);
        assert(is_separator(tail[0])) by {
            if k < before.len() {
                assert(tail[0] == before[k]);
            } else {
                assert(tail[0] == c);
            }
        }
        lemma_token_len_after_prefix(token, tail);
        assert(token_len(s) == k);
        assert(s.take(k) =~= token);
        assert(s.skip(k) =~= tail);
        lemma_tokens_around_separator(before.skip(k), c, after);
        assert(seq![token] + (tokens_of(before.skip(k)) + tokens_of(after)) =~= (seq![token]
            + tokens_of(before.skip(k))) + tokens_of(after));
    }
}

/// The carriage return at the end of a line parts tokens and belongs to
/// none.
pub proof fn lemma_tokens_without_cr(line: Seq<char>)
    ensures
        tokens_of(without_cr(line)) == tokens_of(line),
{
    if line.len() > 0 && line.last() == '\r' {
        let kept = line.drop_last();
        assert(line =~= kept + seq!['\r'] + Seq::<char>::empty());
        lemma_tokens_around_separator(kept, '\r', Seq::empty());
        assert(tokens_of(Seq::<char>::empty()) =~= Seq::<Seq<char>>::empty());
        assert(tokens_of(kept) + Seq::<Seq<char>>::empty() =~= tokens_of(kept));
    }
}

/// To take the numbers out of a text line by line, leaving out the empty
/// lines, is to take them out of the text at once: the same literals come
/// out, in the same order.
pub proof fn lemma_float_tokens_by_line(s: Seq<char>)
    ensures
        float_tokens_of_each(nonempty_lines_of(s)).flatten() == float_tokens_of(s),
    decreases s.len(),
{
    let nothing = Seq::<Seq<char>>::empty();
    let k = line_len(s) as int;
    lemma_line_len_bound(s);
    if s.len() == 0 {
        reveal(Seq::filter);
        assert(float_tokens_of_each(nonempty_lines_of(s)) =~= Seq::<Seq<Seq<char>>>::empty());
    } else if k < s.len() {
        let head = without_cr(s.take(k));
        let rest = s.skip(k + 1);
        lemma_float_tokens_by_line(rest);
        // The numbers of the text are those of its first line, then those of the rest.
        assert(s =~= s.take(k) + seq!['\n'] + rest);
        lemma_tokens_around_separator(s.take(k), '\n', rest);
        lemma_tokens_without_cr(s.take(k));
        Seq::filter_distributes_over_add(
            tokens_of(head),
            tokens_of(rest),
            |token: Seq<char>| is_float_literal(token),
        );
        assert(float_tokens_of(s) == float_tokens_of(head) + float_tokens_of(rest));
        // The lines of the text are its first line, then those of the rest.
        Seq::filter_distributes_over_add(
            seq![head],
            lines_of(rest),
            |line: Seq<char>| line.len() > 0,
        );
        lemma_keep_nonempty_push(nothing, head);
        assert(nothing.push(head) =~= seq![head]);
        assert(keep_nonempty(nothing) =~= nothing) by {
            reveal(Seq::filter);
        }
        let kept = nonempty_lines_of(rest);
        if head.len() > 0 {
            assert(nonempty_lines_of(s) == seq![head] + kept);
            assert(float_tokens_of_each(seq![head] + kept) =~= seq![float_tokens_of(head)]
                + float_tokens_of_each(kept));
            lemma_flatten_concat(seq![float_tokens_of(head)], float_tokens_of_each(kept));
            seq![float_tokens_of(head)].lemma_flatten_one_element();
        } else {
            assert(nonempty_lines_of(s) =~= kept);
            assert(tokens_of(head) =~= nothing);
            assert(float_tokens_of(head) =~= nothing) by {
                reveal(Seq::filter);
            }
            assert(float_tokens_of(head) + float_tokens_of(rest) =~= float_tokens_of(rest));
        }
    } else {
        lemma_keep_nonempty_push(nothing, s);
        assert(nothing.push(s) =~= seq![s]);
        assert(keep_nonempty(nothing) =~= nothing) by {
            reveal(Seq::filter);
        }
        assert(float_tokens_of_each(seq![s]) =~= seq![float_tokens_of(s)]);
        seq![float_tokens_of(s)].lemma_flatten_one_element();
    }
}

} // verus!
