//! Lines: where a text is cut at its line feeds.

use vstd::prelude::*;

verus! {

/// The length of the first line of `s`: the place of its first line feed, or
/// the length of `s` where it holds none.
pub open spec fn line_len(s: Seq<char>) -> nat
    decreases s.len(),
{
    if s.len() == 0 || s[0] == '\n' {
        0
    } else {
        1 + line_len(s.skip(1))
    }
}

/// A line without the carriage return that stood before its line feed.
pub open spec fn without_cr(line: Seq<char>) -> Seq<char> {
    if line.len() > 0 && line.last() == '\r' {
        line.drop_last()
    } else {
        line
    }
}

/// The lines of `s`. A line ends at a line feed, or at a carriage return
/// followed by one; neither belongs to the line. A carriage return elsewhere
/// is part of the line. What follows the last line feed is a line only if it
/// is not empty.
pub open spec fn lines_of(s: Seq<char>) -> Seq<Seq<char>>
    decreases s.len(),
{
    let k = line_len(s) as int;
    if s.len() == 0 {
        Seq::empty()
    } else if k < s.len() {
        seq![without_cr(s.take(k))] + lines_of(s.skip(k + 1))
    } else {
        seq![s]
    }
}

/// Those of `lines` that hold at least one character, in their order.
pub open spec fn keep_nonempty(lines: Seq<Seq<char>>) -> Seq<Seq<char>> {
    lines.filter(|line: Seq<char>| line.len() > 0)
}

/// The lines of `s` that are not empty.
pub open spec fn nonempty_lines_of(s: Seq<char>) -> Seq<Seq<char>> {
    keep_nonempty(lines_of(s))
}

/// No line feed stands in `s`.
pub open spec fn no_line_feed(s: Seq<char>) -> bool {
    forall|i: int| 0 <= i < s.len() ==> s[i] != '\n'
}

/// The lines of `text` that are not empty, in their order.
pub fn nonempty_lines(text: &str) -> (lines: Vec<String>)
    ensures
        lines.deep_view() == nonempty_lines_of(text@),
{
    let mut lines: Vec<String> = Vec::new();
    let mut line = String::new();
    let mut pending_cr = false;
    let ghost mut done: Seq<Seq<char>> = Seq::empty();
    let ghost mut cur: Seq<char> = Seq::empty();
    proof {
        assert(cur + text@.skip(0) =~= text@);
        assert(done + lines_of(text@) =~= lines_of(text@));
        assert(lines.deep_view() =~= keep_nonempty(done));
    }
    for c in it: text.chars()
        invariant
            it.seq() == text@,
            cur == (if pending_cr {
                line@.push('\r')
            } else {
                line@
            }),
            !pending_cr ==> line@.len() == 0 || line@.last() != '\r',
            no_line_feed(cur),
            lines_of(text@) == done + lines_of(cur + text@.skip(it.index() as int)),
            lines.deep_view() == keep_nonempty(done),
    {
        let ghost rest = text@.skip(it.index() as int);
        proof {
            assert(rest.len() > 0 && rest[0] == c);
            assert(rest.skip(1) =~= text@.skip(it.index() + 1));
            lemma_lines_after_prefix(cur, rest);
        }
        if c == '\n' {
            proof {
                assert(without_cr(cur) == line@) by {
                    if pending_cr {
                        assert(line@.push('\r').drop_last() =~= line@);
                    }
                }
                lemma_keep_nonempty_push(done, line@);
                assert(done + (seq![line@] + lines_of(rest.skip(1))) =~= done.push(line@)
                    + lines_of(rest.skip(1)));
                done = done.push(line@);
                cur = Seq::empty();
                assert(cur + rest.skip(1) =~= rest.skip(1));
            }
            if !line.as_str().is_empty() {
                let ghost before = lines.deep_view();
                lines.push(line);
                assert(lines.deep_view() =~= before.push(line@));
            }
            line = String::new();
            pending_cr = false;
        } else {
            if pending_cr {
                line.push('\r');
            }
            if c == '\r' {
                pending_cr = true;
            } else {
                line.push(c);
                pending_cr = false;
            }
            proof {
                cur = cur.push(c);
            }
        }
    }
    proof {
        assert(text@.skip(text@.len() as int) =~= Seq::<char>::empty());
        lemma_lines_after_prefix(cur, Seq::empty());
        lemma_keep_nonempty_push(done, cur);
        assert(done + seq![cur] =~= done.push(cur));
        assert(done + Seq::<Seq<char>>::empty() =~= done);
    }
    if pending_cr {
        line.push('\r');
    }
    if !line.as_str().is_empty() {
        let ghost before = lines.deep_view();
        lines.push(line);
        assert(lines.deep_view() =~= before.push(line@));
    }
    lines
}

/// A stretch without line feed in front of `rest` lengthens the first line
/// by its own length.
pub proof fn lemma_line_len_after_prefix(cur: Seq<char>, rest: Seq<char>)
    requires
        no_line_feed(cur),
    ensures
        line_len(cur + rest) == cur.len() + line_len(rest),
    decreases cur.len(),
{
    if cur.len() == 0 {
        assert(cur + rest =~= rest);
    } else {
        assert((cur + rest).skip(1) =~= cur.skip(1) + rest);
        lemma_line_len_after_prefix(cur.skip(1), rest);
    }
}

/// The first line ends within the text.
pub proof fn lemma_line_len_bound(s: Seq<char>)
    ensures
        line_len(s) <= s.len(),
        line_len(s) < s.len() ==> s[line_len(s) as int] == '\n',
        forall|i: int| 0 <= i < line_len(s) ==> s[i] != '\n',
    decreases s.len(),
{
    if s.len() == 0 || s[0] == '\n' {
    } else {
        lemma_line_len_bound(s.skip(1));
        assert forall|i: int| 0 <= i < line_len(s) implies s[i] != '\n' by {
            if i > 0 {
                assert(s[i] == s.skip(1)[i - 1]);
            }
        }
    }
}

/// How the lines of a text unfold where its first stretch `cur` holds no
/// line feed.
pub proof fn lemma_lines_after_prefix(cur: Seq<char>, rest: Seq<char>)
    requires
        no_line_feed(cur),
    ensures
        rest.len() == 0 ==> lines_of(cur + rest) == (if cur.len() == 0 {
            Seq::<Seq<char>>::empty()
        } else {
            seq![cur]
        }),
        rest.len() > 0 && rest[0] == '\n' ==> lines_of(cur + rest) == seq![without_cr(cur)]
            + lines_of(rest.skip(1)),
        rest.len() > 0 && rest[0] != '\n' ==> cur + rest == cur.push(rest[0]) + rest.skip(1),
{
    lemma_line_len_after_prefix(cur, rest);
    let s = cur + rest;
    if rest.len() == 0 {
        assert(s =~= cur);
    } else if rest[0] == '\n' {
        assert(line_len(s) == cur.len());
        assert(s.take(cur.len() as int) =~= cur);
        assert(s.skip(cur.len() as int + 1) =~= rest.skip(1));
    } else {
        assert(s =~= cur.push(rest[0]) + rest.skip(1));
    }
}

/// One more line at the end is kept if it is not empty.
pub proof fn lemma_keep_nonempty_push(lines: Seq<Seq<char>>, line: Seq<char>)
    ensures
        keep_nonempty(lines.push(line)) == (if line.len() > 0 {
            keep_nonempty(lines).push(line)
        } else {
            keep_nonempty(lines)
        }),
{
    assert(lines.push(line).drop_last() =~= lines);
    reveal(Seq::filter);
}

/// A text without line feed that is not empty is one line, which is kept.
pub proof fn lemma_single_line(s: Seq<char>)
    requires
        s.len() > 0,
        no_line_feed(s),
    ensures
        lines_of(s) == seq![s],
        nonempty_lines_of(s) == seq![s],
{
    lemma_lines_after_prefix(s, Seq::empty());
    assert(s + Seq::<char>::empty() =~= s);
    lemma_keep_nonempty_push(Seq::empty(), s);
    assert(Seq::<Seq<char>>::empty().push(s) =~= seq![s]);
    assert(keep_nonempty(Seq::<Seq<char>>::empty()) =~= Seq::<Seq<char>>::empty());
}

} // verus!
