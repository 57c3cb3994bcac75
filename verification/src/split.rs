//! Splitting text on a separator character and joining it back.
//!
//! `split_on` is what `str::split` with a `char` pattern yields: always at
//! least one piece, empty pieces kept. `join_with` puts the separator
//! between consecutive pieces.

use vstd::prelude::*;

use crate::model::names_view;
use crate::text::{push_char, push_str};

verus! {

/// The pieces of `s` between occurrences of `c`.
pub open spec fn split_on(s: Seq<char>, c: char) -> Seq<Seq<char>>
    decreases s.len(),
{
    if s.len() == 0 {
        seq![Seq::<char>::empty()]
    } else {
        let init = split_on(s.drop_last(), c);
        if s.last() == c {
            init.push(Seq::<char>::empty())
        } else {
            init.update(init.len() - 1, init.last().push(s.last()))
        }
    }
}

/// The pieces joined by `c`.
pub open spec fn join_with(pieces: Seq<Seq<char>>, c: char) -> Seq<char>
    decreases pieces.len(),
{
    if pieces.len() == 0 {
        Seq::<char>::empty()
    } else if pieces.len() == 1 {
        pieces[0]
    } else {
        join_with(pieces.drop_last(), c).push(c) + pieces.last()
    }
}

/// No piece holds the separator.
pub open spec fn pieces_free_of(pieces: Seq<Seq<char>>, c: char) -> bool {
    forall|i: int| 0 <= i < pieces.len() ==> !(#[trigger] pieces[i]).contains(c)
}

/// Splitting always gives at least one piece.
pub proof fn lemma_split_len(s: Seq<char>, c: char)
    ensures
        split_on(s, c).len() >= 1,
    decreases s.len(),
{
    if s.len() > 0 {
        lemma_split_len(s.drop_last(), c);
    }
}

/// Pieces never hold the separator.
pub proof fn lemma_split_free(s: Seq<char>, c: char)
    ensures
        pieces_free_of(split_on(s, c), c),
    decreases s.len(),
{
    lemma_split_len(s, c);
    if s.len() > 0 {
        lemma_split_free(s.drop_last(), c);
        lemma_split_len(s.drop_last(), c);
        let init = split_on(s.drop_last(), c);
        if s.last() != c {
            assert forall|i: int| 0 <= i < split_on(s, c).len() implies !(#[trigger] split_on(s, c)[i]).contains(c) by {
                if i == init.len() - 1 {
                    let p = init.last().push(s.last());
                    assert(!init.last().contains(c));
                    if p.contains(c) {
                        let k = choose|k: int| 0 <= k < p.len() && p[k] == c;
                        assert(k < init.last().len() ==> init.last()[k] == c);
                    }
                }
            }
        } else {
            assert forall|i: int| 0 <= i < split_on(s, c).len() implies !(#[trigger] split_on(s, c)[i]).contains(c) by {
                if i < init.len() {
                    assert(split_on(s, c)[i] == init[i]);
                }
            }
        }
    }
}

proof fn lemma_join_update_last(pieces: Seq<Seq<char>>, c: char, x: char)
    requires
        pieces.len() >= 1,
    ensures
        join_with(pieces.update(pieces.len() - 1, pieces.last().push(x)), c) == join_with(pieces, c).push(x),
{
    let updated = pieces.update(pieces.len() - 1, pieces.last().push(x));
    if pieces.len() == 1 {
    } else {
        assert(updated.drop_last() == pieces.drop_last());
        assert(join_with(pieces.drop_last(), c).push(c) + pieces.last().push(x) == (join_with(
            pieces.drop_last(),
            c,
        ).push(c) + pieces.last()).push(x));
    }
}

/// Joining the pieces restores the text.
pub proof fn lemma_join_split(s: Seq<char>, c: char)
    ensures
        join_with(split_on(s, c), c) == s,
    decreases s.len(),
{
    if s.len() > 0 {
        lemma_join_split(s.drop_last(), c);
        lemma_split_len(s.drop_last(), c);
        let init = split_on(s.drop_last(), c);
        if s.last() == c {
            let p = init.push(Seq::<char>::empty());
            assert(p.drop_last() == init);
            assert(join_with(p, c) == join_with(init, c).push(c) + Seq::<char>::empty());
            assert(s == s.drop_last().push(s.last()));
        } else {
            lemma_join_update_last(init, c, s.last());
            assert(s == s.drop_last().push(s.last()));
        }
    }
}

proof fn lemma_split_append_free(x: Seq<char>, y: Seq<char>, c: char)
    requires
        !y.contains(c),
    ensures
        split_on(x + y, c) == split_on(x, c).update(
            split_on(x, c).len() - 1,
            split_on(x, c).last() + y,
        ),
    decreases y.len(),
{
    lemma_split_len(x, c);
    if y.len() == 0 {
        assert(x + y == x);
        assert(split_on(x, c).last() + y == split_on(x, c).last());
        assert(split_on(x, c).update(split_on(x, c).len() - 1, split_on(x, c).last()) == split_on(
            x,
            c,
        ));
    } else {
        let y0 = y.drop_last();
        assert(!y0.contains(c)) by {
            if y0.contains(c) {
                let k = choose|k: int| 0 <= k < y0.len() && y0[k] == c;
                assert(y[k] == c);
            }
        }
        lemma_split_append_free(x, y0, c);
        assert((x + y).drop_last() == x + y0);
        assert((x + y).last() == y.last());
        assert(y.last() != c) by {
            assert(y[y.len() - 1] == y.last());
        }
        lemma_split_len(x + y0, c);
        assert(split_on(x, c).last() + y == (split_on(x, c).last() + y0).push(y.last()));
    }
}

/// Splitting joined pieces that lack the separator restores the pieces.
pub proof fn lemma_split_join(pieces: Seq<Seq<char>>, c: char)
    requires
        pieces.len() >= 1,
        pieces_free_of(pieces, c),
    ensures
        split_on(join_with(pieces, c), c) == pieces,
    decreases pieces.len(),
{
    if pieces.len() == 1 {
        lemma_split_append_free(Seq::<char>::empty(), pieces[0], c);
        assert(Seq::<char>::empty() + pieces[0] == pieces[0]);
        assert(split_on(Seq::<char>::empty(), c) == seq![Seq::<char>::empty()]);
        assert(seq![Seq::<char>::empty()].update(0, Seq::<char>::empty() + pieces[0]) == pieces);
    } else {
        let init = pieces.drop_last();
        assert(pieces_free_of(init, c)) by {
            assert forall|i: int| 0 <= i < init.len() implies !(#[trigger] init[i]).contains(c) by {
                assert(init[i] == pieces[i]);
            }
        }
        lemma_split_join(init, c);
        let j = join_with(init, c);
        assert(!pieces.last().contains(c)) by {
            assert(pieces[pieces.len() - 1] == pieces.last());
        }
        lemma_split_append_free(j.push(c), pieces.last(), c);
        assert(j.push(c).drop_last() == j);
        assert(split_on(j.push(c), c) == init.push(Seq::<char>::empty()));
        assert(Seq::<char>::empty() + pieces.last() == pieces.last());
        assert(init.push(Seq::<char>::empty()).update(init.len() as int, pieces.last()) =~= pieces);
    }
}

/// The characters of each piece.
pub open spec fn pieces_view(v: Seq<Vec<char>>) -> Seq<Seq<char>> {
    v.map_values(|p: Vec<char>| p@)
}

/// Splits `s` on `c`, as `str::split` does.
pub fn split_chars(s: &[char], c: char) -> (r: Vec<Vec<char>>)
    ensures
        pieces_view(r@) == split_on(s@, c),
{
    let mut done: Vec<Vec<char>> = Vec::new();
    let mut current: Vec<char> = Vec::new();
    let mut i: usize = 0;
    assert(s@.take(0) =~= Seq::<char>::empty());
    while i < s.len()
        invariant
            i <= s@.len(),
            pieces_view(done@).push(current@) == split_on(s@.take(i as int), c),
        decreases s.len() - i,
    {
        let ghost before = pieces_view(done@).push(current@);
        assert(s@.take(i + 1).drop_last() == s@.take(i as int));
        assert(s@.take(i + 1).last() == s@[i as int]);
        if s[i] == c {
            let finished = current;
            let ghost done_before = done@;
            done.push(finished);
            current = Vec::new();
            assert(pieces_view(done@) =~= pieces_view(done_before).push(finished@));
            assert(pieces_view(done@).push(current@) =~= split_on(s@.take(i + 1), c));
        } else {
            current.push(s[i]);
            assert(pieces_view(done@).push(current@) =~= before.update(
                before.len() - 1,
                before.last().push(s[i as int]),
            ));
        }
        i += 1;
    }
    assert(s@.take(s@.len() as int) == s@);
    done.push(current);
    assert(pieces_view(done@) =~= split_on(s@, c));
    done
}

/// A line without the carriage return of a `\r\n` ending.
pub open spec fn strip_cr(line: Seq<char>) -> Seq<char> {
    if line.len() > 0 && line.last() == '\r' {
        line.drop_last()
    } else {
        line
    }
}

/// The lines of `text` as `str::lines` yields them: split at `\n`, a `\r`
/// before a `\n` dropped, and no empty line after a final `\n`.
pub open spec fn text_lines(text: Seq<char>) -> Seq<Seq<char>> {
    let p = split_on(text, '\n');
    let ended = p.drop_last().map_values(|l: Seq<char>| strip_cr(l));
    if p.last().len() == 0 {
        ended
    } else {
        ended.push(p.last())
    }
}

/// Appends the characters of `v`.
fn push_chars(out: &mut String, v: &Vec<char>, count: usize)
    requires
        count <= v@.len(),
    ensures
        final(out)@ == old(out)@ + v@.take(count as int),
{
    let ghost start = out@;
    for k in 0..count
        invariant
            count <= v@.len(),
            out@ == start + v@.take(k as int),
    {
        push_char(out, v[k]);
        assert(v@.take(k + 1) == v@.take(k as int).push(v@[k as int]));
        assert(start + v@.take(k + 1) =~= (start + v@.take(k as int)).push(v@[k as int]));
    }
}

/// The lines of `text`, as `str::lines` yields them.
pub fn lines_of(text: &str) -> (r: Vec<String>)
    ensures
        names_view(r@) == text_lines(text@),
{
    let chars = crate::text::chars_of(text);
    let pieces = split_chars(chars.as_slice(), '\n');
    let ghost p = split_on(text@, '\n');
    proof {
        lemma_split_len(text@, '\n');
        assert(pieces_view(pieces@) == p);
    }
    let n = pieces.len();
    let mut out: Vec<String> = Vec::new();
    for k in 0..n - 1
        invariant
            n == pieces@.len(),
            n >= 1,
            pieces_view(pieces@) == p,
            names_view(out@) == p.drop_last().map_values(|l: Seq<char>| strip_cr(l)).take(k as int),
    {
        let piece = &pieces[k];
        assert(piece@ == p[k as int]);
        let mut line = String::new();
        let len = piece.len();
        if len > 0 && piece[len - 1] == '\r' {
            push_chars(&mut line, piece, len - 1);
            assert(piece@.take(len - 1) =~= strip_cr(piece@));
        } else {
            push_chars(&mut line, piece, len);
            assert(piece@.take(len as int) =~= strip_cr(piece@));
        }
        let ghost before = out@;
        out.push(line);
        assert(names_view(out@) =~= names_view(before).push(line@));
        assert(p.drop_last().map_values(|l: Seq<char>| strip_cr(l)).take(k + 1) =~= p.drop_last().map_values(
            |l: Seq<char>| strip_cr(l),
        ).take(k as int).push(strip_cr(p[k as int])));
    }
    assert(p.drop_last().map_values(|l: Seq<char>| strip_cr(l)).take(n - 1) =~= p.drop_last().map_values(
        |l: Seq<char>| strip_cr(l),
    ));
    let last = &pieces[n - 1];
    assert(last@ == p.last());
    if last.len() > 0 {
        let mut line = String::new();
        push_chars(&mut line, last, last.len());
        assert(last@.take(last@.len() as int) =~= last@);
        let ghost before = out@;
        out.push(line);
        assert(names_view(out@) =~= names_view(before).push(line@));
    }
    out
}

/// Joins the strings with `\n` between consecutive ones.
pub fn join_lines(lines: &Vec<String>) -> (r: String)
    ensures
        r@ == join_with(names_view(lines@), '\n'),
{
    let ghost v = names_view(lines@);
    let mut out = String::new();
    for k in 0..lines.len()
        invariant
            v == names_view(lines@),
            out@ == join_with(v.take(k as int), '\n'),
    {
        let ghost before = out@;
        if k > 0 {
            push_char(&mut out, '\n');
        }
        push_str(&mut out, lines[k].as_str());
        proof {
            let t = v.take(k + 1);
            assert(t.drop_last() =~= v.take(k as int));
            assert(t.last() == v[k as int]);
            if k == 0 {
                assert(before =~= Seq::<char>::empty());
                assert(out@ =~= t[0]);
            }
        }
    }
    assert(v.take(v.len() as int) =~= v);
    out
}

} // verus!
