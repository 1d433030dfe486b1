//! Character-level helpers: splitting on a delimiter and joining pieces back.
use vstd::prelude::*;

verus! {

/// The pieces of `s` between occurrences of `d`, in order. There is always
/// at least one piece: the empty text splits into one empty piece.
pub open spec fn split(s: Seq<char>, d: char) -> Seq<Seq<char>>
    decreases s.len(),
{
    if s.len() == 0 {
        seq![Seq::<char>::empty()]
    } else {
        let p = split(s.drop_last(), d);
        if s.last() == d {
            p.push(Seq::<char>::empty())
        } else {
            p.update(p.len() - 1, p.last().push(s.last()))
        }
    }
}

/// The pieces written one after another with `d` between two neighbours.
pub open spec fn join(ps: Seq<Seq<char>>, d: char) -> Seq<char>
    decreases ps.len(),
{
    if ps.len() == 0 {
        Seq::<char>::empty()
    } else if ps.len() == 1 {
        ps[0]
    } else {
        join(ps.drop_last(), d) + seq![d] + ps.last()
    }
}

pub open spec fn free_of(s: Seq<char>, c: char) -> bool {
    !s.contains(c)
}

pub proof fn lemma_split_nonempty(s: Seq<char>, d: char)
    ensures
        split(s, d).len() >= 1,
    decreases s.len(),
{
    if s.len() > 0 {
        lemma_split_nonempty(s.drop_last(), d);
    }
}

/// No piece of a split holds the delimiter.
pub proof fn lemma_split_pieces_free(s: Seq<char>, d: char)
    ensures
        forall|i: int| 0 <= i < split(s, d).len() ==> free_of(#[trigger] split(s, d)[i], d),
    decreases s.len(),
{
    if s.len() > 0 {
        lemma_split_pieces_free(s.drop_last(), d);
        lemma_split_nonempty(s.drop_last(), d);
        let p = split(s.drop_last(), d);
        if s.last() != d {
            assert forall|i: int| 0 <= i < split(s, d).len() implies free_of(
                #[trigger] split(s, d)[i],
                d,
            ) by {
                if i == p.len() - 1 {
                    let q = p.last().push(s.last());
                    assert(free_of(p.last(), d));
                    if q.contains(d) {
                        let k = choose|k: int| 0 <= k < q.len() && q[k] == d;
                        if k < p.last().len() {
                            assert(p.last()[k] == d);
                        }
                    }
                }
            }
        } else {
            assert forall|i: int| 0 <= i < split(s, d).len() implies free_of(
                #[trigger] split(s, d)[i],
                d,
            ) by {
                if i == p.len() {
                    assert(split(s, d)[i] =~= Seq::<char>::empty());
                }
            }
        }
    }
}

/// Appending text free of the delimiter extends the last piece.
proof fn lemma_split_append_free(s: Seq<char>, b: Seq<char>, d: char)
    requires
        free_of(b, d),
    ensures
        split(s + b, d) == split(s, d).update(split(s, d).len() - 1, split(s, d).last() + b),
    decreases b.len(),
{
    lemma_split_nonempty(s, d);
    if b.len() == 0 {
        assert(s + b =~= s);
        assert(split(s, d).last() + b =~= split(s, d).last());
        assert(split(s, d).update(split(s, d).len() - 1, split(s, d).last()) =~= split(s, d));
    } else {
        let b0 = b.drop_last();
        assert(free_of(b0, d)) by {
            if b0.contains(d) {
                let k = choose|k: int| 0 <= k < b0.len() && b0[k] == d;
                assert(b[k] == d);
            }
        }
        lemma_split_append_free(s, b0, d);
        assert((s + b).drop_last() =~= s + b0);
        assert((s + b).last() == b.last());
        assert(b.last() != d) by {
            assert(b[b.len() - 1] == b.last());
        }
        let p = split(s, d);
        assert(p.last() + b0 + seq![b.last()] =~= p.last() + b);
        assert((p.last() + b0).push(b.last()) =~= p.last() + b);
        assert(split(s + b, d) =~= p.update(p.len() - 1, p.last() + b));
    }
}

/// Splitting what was joined gives back the pieces, when none holds the
/// delimiter and there is at least one.
pub proof fn lemma_split_join(ps: Seq<Seq<char>>, d: char)
    requires
        ps.len() >= 1,
        forall|i: int| 0 <= i < ps.len() ==> free_of(#[trigger] ps[i], d),
    ensures
        split(join(ps, d), d) == ps,
    decreases ps.len(),
{
    if ps.len() == 1 {
        lemma_split_append_free(Seq::<char>::empty(), ps[0], d);
        assert(Seq::<char>::empty() + ps[0] =~= ps[0]);
        assert(split(Seq::<char>::empty(), d) =~= seq![Seq::<char>::empty()]);
        assert(Seq::<char>::empty() + ps[0] =~= ps[0]);
        assert(split(ps[0], d) =~= ps);
    } else {
        let init = ps.drop_last();
        assert forall|i: int| 0 <= i < init.len() implies free_of(#[trigger] init[i], d) by {
            assert(init[i] == ps[i]);
        }
        lemma_split_join(init, d);
        let a = join(init, d) + seq![d];
        assert(free_of(ps.last(), d)) by {
            assert(ps[ps.len() - 1] == ps.last());
        }
        lemma_split_append_free(a, ps.last(), d);
        assert(a.drop_last() =~= join(init, d));
        assert(split(a, d) =~= init.push(Seq::<char>::empty()));
        assert(Seq::<char>::empty() + ps.last() =~= ps.last());
        assert(split(a + ps.last(), d) =~= ps);
    }
}

/// The pieces of `s` between occurrences of `d`.
pub fn split_str(s: &str, d: char) -> (r: Vec<String>)
    ensures
        r@.len() == split(s@, d).len(),
        forall|i: int| 0 <= i < r@.len() ==> (#[trigger] r@[i])@ == split(s@, d)[i],
{
    let n: usize = s.unicode_len();
    let mut done: Vec<String> = Vec::new();
    let mut start: usize = 0;
    let mut i: usize = 0;
    while i < n
        invariant
            n == s@.len(),
            start <= i <= n,
            split(s@.subrange(0, i as int), d).len() == done@.len() + 1,
            forall|k: int|
                0 <= k < done@.len() ==> (#[trigger] done@[k])@ == split(
                    s@.subrange(0, i as int),
                    d,
                )[k],
            s@.subrange(start as int, i as int) == split(s@.subrange(0, i as int), d).last(),
        decreases n - i,
    {
        let ghost pre = s@.subrange(0, i as int);
        let ghost next = s@.subrange(0, i + 1);
        assert(next.drop_last() =~= pre);
        assert(next.last() == s@[i as int]);
        let c = s.get_char(i);
        if c == d {
            let piece = s.substring_char(start, i).to_owned();
            done.push(piece);
            start = i + 1;
            assert(s@.subrange(start as int, i + 1) =~= Seq::<char>::empty());
        } else {
            assert(s@.subrange(start as int, i + 1) =~= s@.subrange(start as int, i as int).push(c));
        }
        i = i + 1;
    }
    assert(s@.subrange(0, n as int) =~= s@);
    let last = s.substring_char(start, n).to_owned();
    done.push(last);
    done
}

} // verus!
