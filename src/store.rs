//! The text form of the list: one path per line, each ended by a newline.
//! Reading drops empty lines and accepts "\r\n" line endings.

use vstd::prelude::*;
use crate::engine::paths;

verus! {

/// The pieces of `s` between its newlines, in order: one more piece than
/// `s` has newlines.
pub open spec fn pieces(s: Seq<char>) -> Seq<Seq<char>>
    decreases s.len(),
{
    if s.len() == 0 {
        seq![Seq::empty()]
    } else {
        let p = pieces(s.drop_last());
        if s.last() == '\n' {
            p.push(Seq::empty())
        } else {
            p.update(p.len() - 1, p.last().push(s.last()))
        }
    }
}

/// A line ended by a newline, without a carriage return just before it.
pub open spec fn strip_cr(l: Seq<char>) -> Seq<char> {
    if l.len() > 0 && l.last() == '\r' {
        l.drop_last()
    } else {
        l
    }
}

/// The lines of `ls` that are not empty, in order.
pub open spec fn nonempty(ls: Seq<Seq<char>>) -> Seq<Seq<char>>
    decreases ls.len(),
{
    if ls.len() == 0 {
        ls
    } else if ls.last().len() == 0 {
        nonempty(ls.drop_last())
    } else {
        nonempty(ls.drop_last()).push(ls.last())
    }
}

/// The paths that the text `s` holds: its lines without their endings
/// ("\n", or "\r\n"), empty ones left out. The text after the last newline
/// counts as a line too.
pub open spec fn entries_of(s: Seq<char>) -> Seq<Seq<char>> {
    let p = pieces(s);
    nonempty(p.drop_last().map_values(|l: Seq<char>| strip_cr(l)).push(p.last()))
}

/// The text that holds the paths `ls`: each one followed by a newline.
pub open spec fn joined(ls: Seq<Seq<char>>) -> Seq<char>
    decreases ls.len(),
{
    if ls.len() == 0 {
        Seq::empty()
    } else {
        joined(ls.drop_last()) + ls.last() + seq!['\n']
    }
}

/// A path that a line can hold and give back unchanged: not empty, with no
/// newline, and not ending in a carriage return.
pub open spec fn storable(p: Seq<char>) -> bool {
    &&& p.len() > 0
    &&& forall|i: int| 0 <= i < p.len() ==> p[i] != '\n'
    &&& p.last() != '\r'
}

/// Text without newlines extends the last piece.
proof fn lemma_pieces_append(p: Seq<char>, x: Seq<char>)
    requires
        forall|i: int| 0 <= i < x.len() ==> x[i] != '\n',
    ensures
        pieces(p + x) == pieces(p).update(pieces(p).len() - 1, pieces(p).last() + x),
    decreases x.len(),
{
    lemma_pieces_len(p);
    if x.len() == 0 {
        assert(p + x =~= p);
        assert(pieces(p).last() + x =~= pieces(p).last());
        assert(pieces(p).update(pieces(p).len() - 1, pieces(p).last()) =~= pieces(p));
    } else {
        let y = x.drop_last();
        lemma_pieces_append(p, y);
        assert((p + x).drop_last() =~= p + y);
        assert((pieces(p).last() + y).push(x.last()) =~= pieces(p).last() + x);
        lemma_pieces_len(p + y);
        assert(pieces(p + x) =~= pieces(p).update(pieces(p).len() - 1, pieces(p).last() + x));
    }
}

/// Every text has at least one piece.
proof fn lemma_pieces_len(s: Seq<char>)
    ensures
        pieces(s).len() >= 1,
    decreases s.len(),
{
    if s.len() > 0 {
        lemma_pieces_len(s.drop_last());
    }
}

/// The pieces of joined lines are the lines, then the empty rest.
proof fn lemma_pieces_joined(ls: Seq<Seq<char>>)
    requires
        forall|i: int| 0 <= i < ls.len() ==> #[trigger] storable(ls[i]),
    ensures
        pieces(joined(ls)) == ls.push(Seq::empty()),
    decreases ls.len(),
{
    if ls.len() == 0 {
        assert(pieces(Seq::empty()) =~= seq![Seq::<char>::empty()]);
        assert(ls.push(Seq::empty()) =~= seq![Seq::<char>::empty()]);
    } else {
        let init = ls.drop_last();
        let l = ls.last();
        assert(storable(ls[ls.len() - 1]));
        assert forall|i: int| 0 <= i < init.len() implies #[trigger] storable(init[i]) by {
            assert(storable(ls[i]));
        }
        lemma_pieces_joined(init);
        let body = joined(init) + l;
        lemma_pieces_append(joined(init), l);
        assert(init.push(Seq::empty()).update(init.len() as int, Seq::<char>::empty() + l)
            =~= ls);
        assert((body + seq!['\n']).drop_last() =~= body);
        assert(joined(ls) == body + seq!['\n']);
        assert(pieces(joined(ls)) =~= ls.push(Seq::empty()));
    }
}

/// Lines that are all non-empty are kept as they are.
proof fn lemma_nonempty_keeps(ls: Seq<Seq<char>>)
    requires
        forall|i: int| 0 <= i < ls.len() ==> #[trigger] ls[i].len() > 0,
    ensures
        nonempty(ls) == ls,
    decreases ls.len(),
{
    if ls.len() > 0 {
        let init = ls.drop_last();
        assert(ls[ls.len() - 1].len() > 0);
        assert forall|i: int| 0 <= i < init.len() implies #[trigger] init[i].len() > 0 by {
            assert(ls[i].len() > 0);
        }
        lemma_nonempty_keeps(init);
        assert(init.push(ls.last()) =~= ls);
    }
}

/// Writing paths out and reading the text back gives the same paths in
/// the same order, provided each path can be held by a line.
pub proof fn lemma_round_trip(ls: Seq<Seq<char>>)
    requires
        forall|i: int| 0 <= i < ls.len() ==> #[trigger] storable(ls[i]),
    ensures
        entries_of(joined(ls)) == ls,
{
    lemma_pieces_joined(ls);
    let p = pieces(joined(ls));
    let f = |l: Seq<char>| strip_cr(l);
    assert(p.drop_last() =~= ls);
    assert forall|i: int| 0 <= i < ls.len() implies #[trigger] ls.map_values(f)[i] == ls[i] by {
        assert(storable(ls[i]));
    }
    assert(ls.map_values(f) =~= ls);
    assert(p.last() =~= Seq::<char>::empty());
    assert(ls.push(Seq::empty()).drop_last() =~= ls);
    assert forall|i: int| 0 <= i < ls.len() implies #[trigger] ls[i].len() > 0 by {
        assert(storable(ls[i]));
    }
    lemma_nonempty_keeps(ls);
}

/// Every path of `ls` can be held by a line.
pub open spec fn all_storable(ls: Seq<Seq<char>>) -> bool {
    forall|i: int| 0 <= i < ls.len() ==> #[trigger] storable(ls[i])
}

/// The paths held by `text`.
pub fn parse_lines(text: &str) -> (r: Vec<String>)
    ensures
        paths(r@) == entries_of(text@),
{
    let n = text.unicode_len();
    let mut out: Vec<String> = Vec::new();
    let mut start: usize = 0;
    let mut i: usize = 0;
    let ghost mut done: Seq<Seq<char>> = Seq::empty();
    assert(text@.take(0) =~= Seq::<char>::empty());
    assert(text@.subrange(0, 0) =~= Seq::<char>::empty());
    while i < n
        invariant
            n == text@.len(),
            start <= i <= n,
            pieces(text@.take(i as int)) == done.push(text@.subrange(start as int, i as int)),
            paths(out@) == nonempty(done.map_values(|l: Seq<char>| strip_cr(l))),
        decreases n - i,
    {
        let ghost before = text@.take(i as int);
        assert(text@.take(i + 1).drop_last() =~= before);
        let c = text.get_char(i);
        if c == '\n' {
            let ghost piece = text@.subrange(start as int, i as int);
            let end = if i > start && text.get_char(i - 1) == '\r' {
                i - 1
            } else {
                i
            };
            assert(strip_cr(piece) =~= text@.subrange(start as int, end as int));
            proof {
                let f = |l: Seq<char>| strip_cr(l);
                assert(done.push(piece).map_values(f) =~= done.map_values(f).push(strip_cr(piece)));
                assert(done.map_values(f).push(strip_cr(piece)).drop_last() =~= done.map_values(f));
            }
            if end > start {
                let line = String::from_str(text.substring_char(start, end));
                let ghost prev = out@;
                out.push(line);
                proof {
                    assert(paths(out@) =~= paths(prev).push(line@));
                    assert(paths(out@).drop_last() =~= paths(prev));
                }
            }
            proof {
                done = done.push(piece);
            }
            start = i + 1;
            assert(text@.subrange(start as int, i + 1) =~= Seq::<char>::empty());
        } else {
            assert(text@.subrange(start as int, i + 1) =~= text@.subrange(
                start as int,
                i as int,
            ).push(c));
        }
        i = i + 1;
    }
    assert(text@.take(n as int) =~= text@);
    let ghost last = text@.subrange(start as int, n as int);
    proof {
        let f = |l: Seq<char>| strip_cr(l);
        assert(done.push(last).drop_last() =~= done);
        assert(done.map_values(f).push(last).drop_last() =~= done.map_values(f));
    }
    if n > start {
        let line = String::from_str(text.substring_char(start, n));
        let ghost prev = out@;
        out.push(line);
        proof {
            assert(paths(out@) =~= paths(prev).push(line@));
            assert(paths(out@).drop_last() =~= paths(prev));
        }
    }
    out
}

/// The text that holds `lines`, one per line.
pub fn render_lines(lines: &Vec<String>) -> (s: String)
    ensures
        s@ == joined(paths(lines@)),
{
    let mut s = String::new();
    let mut i: usize = 0;
    assert(paths(lines@).take(0) =~= Seq::<Seq<char>>::empty());
    while i < lines.len()
        invariant
            i <= lines@.len(),
            s@ == joined(paths(lines@).take(i as int)),
        decreases lines.len() - i,
    {
        assert(paths(lines@).take(i + 1).drop_last() =~= paths(lines@).take(i as int));
        s.append(lines[i].as_str());
        s.append("\n");
        proof {
            reveal_strlit("\n");
        }
        assert(s@ =~= joined(paths(lines@).take(i + 1)));
        i = i + 1;
    }
    assert(paths(lines@).take(i as int) =~= paths(lines@));
    s
}

} // verus!
