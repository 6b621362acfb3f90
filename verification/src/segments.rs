//! Splitting a character sequence at a separator and joining it again.

use vstd::prelude::*;

verus! {

/// The pieces of `s` between occurrences of `sep`. There is always at least
/// one piece; a separator at either end gives an empty piece there.
pub open spec fn split(s: Seq<char>, sep: char) -> Seq<Seq<char>>
    decreases s.len(),
{
    if s.len() == 0 {
        seq![Seq::<char>::empty()]
    } else {
        let before = split(s.drop_last(), sep);
        if s.last() == sep {
            before.push(Seq::<char>::empty())
        } else {
            before.update(before.len() - 1, before.last().push(s.last()))
        }
    }
}

/// The pieces of `parts` with `sep` between each two neighbours.
pub open spec fn join(parts: Seq<Seq<char>>, sep: char) -> Seq<char>
    decreases parts.len(),
{
    if parts.len() == 0 {
        Seq::<char>::empty()
    } else if parts.len() == 1 {
        parts[0]
    } else {
        join(parts.drop_last(), sep).push(sep) + parts.last()
    }
}

/// The views of the vectors in `v`.
pub open spec fn views(v: Seq<Vec<char>>) -> Seq<Seq<char>> {
    Seq::new(v.len(), |i: int| v[i]@)
}

/// No piece holds the separator.
pub open spec fn free_of(parts: Seq<Seq<char>>, sep: char) -> bool {
    forall|i: int, j: int|
        0 <= i < parts.len() && 0 <= j < parts[i].len() ==> #[trigger] parts[i][j] != sep
}

pub proof fn lemma_split_nonempty(s: Seq<char>, sep: char)
    ensures
        split(s, sep).len() >= 1,
    decreases s.len(),
{
    if s.len() > 0 {
        lemma_split_nonempty(s.drop_last(), sep);
    }
}

pub proof fn lemma_split_free_of(s: Seq<char>, sep: char)
    ensures
        free_of(split(s, sep), sep),
    decreases s.len(),
{
    if s.len() > 0 {
        lemma_split_nonempty(s.drop_last(), sep);
        lemma_split_free_of(s.drop_last(), sep);
    }
}

/// Splitting what ends in a separator and a separator-free piece gives the
/// pieces of what came before, then that piece.
pub proof fn lemma_split_append(a: Seq<char>, piece: Seq<char>, sep: char)
    requires
        forall|j: int| 0 <= j < piece.len() ==> piece[j] != sep,
    ensures
        split(a.push(sep) + piece, sep) == split(a, sep).push(piece),
    decreases piece.len(),
{
    let whole = a.push(sep) + piece;
    lemma_split_nonempty(a, sep);
    if piece.len() == 0 {
        assert(whole == a.push(sep));
        assert(whole.drop_last() == a);
        assert(piece == Seq::<char>::empty());
    } else {
        let shorter = piece.drop_last();
        lemma_split_append(a, shorter, sep);
        assert(whole.drop_last() == a.push(sep) + shorter);
        assert(whole.last() == piece.last());
        assert(shorter.push(piece.last()) == piece);
        let before = split(a, sep).push(shorter);
        assert(before.update(before.len() - 1, before.last().push(piece.last())) == split(
            a,
            sep,
        ).push(piece));
    }
}

/// A separator-free piece splits into itself.
pub proof fn lemma_split_single(piece: Seq<char>, sep: char)
    requires
        forall|j: int| 0 <= j < piece.len() ==> piece[j] != sep,
    ensures
        split(piece, sep) == seq![piece],
    decreases piece.len(),
{
    if piece.len() > 0 {
        lemma_split_single(piece.drop_last(), sep);
        assert(piece.drop_last().push(piece.last()) == piece);
        assert(seq![piece.drop_last()].update(0, piece) == seq![piece]);
    } else {
        assert(piece == Seq::<char>::empty());
    }
}

/// Joining separator-free pieces and splitting again gives the pieces back.
pub proof fn lemma_split_join(parts: Seq<Seq<char>>, sep: char)
    requires
        parts.len() >= 1,
        free_of(parts, sep),
    ensures
        split(join(parts, sep), sep) == parts,
    decreases parts.len(),
{
    if parts.len() == 1 {
        lemma_split_single(parts[0], sep);
        assert(seq![parts[0]] == parts);
    } else {
        let front = parts.drop_last();
        assert(free_of(front, sep)) by {
            assert forall|i: int, j: int|
                0 <= i < front.len() && 0 <= j < front[i].len() implies #[trigger] front[i][j]
                != sep by {
                assert(front[i] == parts[i]);
                assert(parts[i][j] != sep);
            }
        }
        lemma_split_join(front, sep);
        assert forall|j: int| 0 <= j < parts.last().len() implies parts.last()[j] != sep by {
            assert(parts[parts.len() - 1][j] != sep);
        }
        lemma_split_append(join(front, sep), parts.last(), sep);
        assert(front.push(parts.last()) == parts);
    }
}

/// Joining one piece more puts the separator and the piece behind what was
/// joined before.
pub proof fn lemma_join_push(parts: Seq<Seq<char>>, piece: Seq<char>, sep: char)
    requires
        parts.len() >= 1,
    ensures
        join(parts.push(piece), sep) == join(parts, sep).push(sep) + piece,
        join(parts.push(piece), sep).len() == join(parts, sep).len() + 1 + piece.len(),
{
    let all = parts.push(piece);
    assert(all.drop_last() == parts);
    assert(all.last() == piece);
}

/// Splitting a text and joining the pieces gives the text back.
pub proof fn lemma_join_split(s: Seq<char>, sep: char)
    ensures
        join(split(s, sep), sep) == s,
    decreases s.len(),
{
    if s.len() == 0 {
        assert(join(seq![Seq::<char>::empty()], sep) == Seq::<char>::empty());
        assert(s == Seq::<char>::empty());
    } else {
        let front = s.drop_last();
        let before = split(front, sep);
        lemma_split_nonempty(front, sep);
        lemma_join_split(front, sep);
        assert(front.push(s.last()) == s);
        if s.last() == sep {
            lemma_join_push(before, Seq::<char>::empty(), sep);
            assert(join(before, sep).push(sep) + Seq::<char>::empty() == s);
        } else {
            let grown = before.last().push(s.last());
            let after = before.update(before.len() - 1, grown);
            if before.len() == 1 {
                assert(join(before, sep) == before[0]);
                assert(join(after, sep) == grown);
            } else {
                assert(after.drop_last() == before.drop_last());
                assert(after.last() == grown);
                assert(join(before.drop_last(), sep).push(sep) + grown == (join(
                    before.drop_last(),
                    sep,
                ).push(sep) + before.last()).push(s.last()));
            }
        }
    }
}

/// A text that begins with the separator splits into an empty first piece
/// and one piece more at least.
pub proof fn lemma_split_leading(s: Seq<char>, sep: char)
    requires
        s.len() >= 1,
        s[0] == sep,
    ensures
        split(s, sep).len() >= 2,
        split(s, sep)[0].len() == 0,
    decreases s.len(),
{
    if s.len() == 1 {
        assert(s.drop_last().len() == 0);
        assert(s.last() == sep);
        assert(split(s.drop_last(), sep) == seq![Seq::<char>::empty()]);
    } else {
        assert(s.drop_last()[0] == sep);
        lemma_split_leading(s.drop_last(), sep);
    }
}

/// Pieces joined behind an empty first piece begin with the separator.
pub proof fn lemma_join_rooted(parts: Seq<Seq<char>>, sep: char)
    requires
        parts.len() >= 2,
        parts[0].len() == 0,
    ensures
        join(parts, sep).len() >= 1,
        join(parts, sep)[0] == sep,
    decreases parts.len(),
{
    let front = parts.drop_last();
    assert(front[0] == parts[0]);
    if parts.len() > 2 {
        lemma_join_rooted(front, sep);
    } else {
        assert(join(front, sep) == parts[0]);
    }
}

/// The pieces of `v` between occurrences of `sep`.
pub fn split_chars(v: &Vec<char>, sep: char) -> (parts: Vec<Vec<char>>)
    ensures
        views(parts@) == split(v@, sep),
{
    let mut parts: Vec<Vec<char>> = Vec::new();
    let mut piece: Vec<char> = Vec::new();
    let mut i: usize = 0;
    while i < v.len()
        invariant
            i <= v.len(),
            views(parts@).push(piece@) == split(v@.take(i as int), sep),
        decreases v.len() - i,
    {
        let c = v[i];
        proof {
            let next = v@.take(i + 1);
            assert(next.drop_last() == v@.take(i as int));
            assert(next.last() == c);
        }
        if c == sep {
            let ghost before = views(parts@).push(piece@);
            parts.push(piece);
            piece = Vec::new();
            assert(views(parts@) == before);
        } else {
            let ghost before = views(parts@).push(piece@);
            piece.push(c);
            assert(views(parts@).push(piece@) == before.update(
                before.len() - 1,
                before.last().push(c),
            ));
        }
        i += 1;
    }
    let ghost before = views(parts@).push(piece@);
    parts.push(piece);
    assert(views(parts@) == before);
    assert(v@.take(v.len() as int) == v@);
    parts
}

/// The pieces of `parts` with `sep` between each two neighbours.
pub fn join_chars(parts: &Vec<Vec<char>>, sep: char) -> (out: Vec<char>)
    ensures
        out@ == join(views(parts@), sep),
{
    let mut out: Vec<char> = Vec::new();
    let mut i: usize = 0;
    while i < parts.len()
        invariant
            i <= parts.len(),
            out@ == join(views(parts@).take(i as int), sep),
        decreases parts.len() - i,
    {
        let ghost done = views(parts@).take(i as int);
        let ghost next = views(parts@).take(i + 1);
        if i > 0 {
            out.push(sep);
        }
        let piece = &parts[i];
        let ghost base = out@;
        let mut j: usize = 0;
        while j < piece.len()
            invariant
                j <= piece.len(),
                out@ == base + piece@.take(j as int),
            decreases piece.len() - j,
        {
            out.push(piece[j]);
            assert(piece@.take(j + 1) == piece@.take(j as int).push(piece@[j as int]));
            j += 1;
        }
        proof {
            assert(piece@.take(piece.len() as int) == piece@);
            assert(next.drop_last() == done);
            assert(next.last() == piece@);
            if i == 0 {
                assert(base == Seq::<char>::empty());
                assert(base + piece@ == piece@);
            }
        }
        i += 1;
    }
    assert(views(parts@).take(parts.len() as int) == views(parts@));
    out
}

} // verus!

