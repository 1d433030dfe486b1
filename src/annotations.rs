//! Annotation maps, held as key/value pairs; a key names the value of its
//! first pair.
use vstd::prelude::*;

verus! {

/// The value that the first pair with `key` holds.
pub open spec fn lookup(pairs: Seq<(String, String)>, key: Seq<char>) -> Option<Seq<char>>
    decreases pairs.len(),
{
    if pairs.len() == 0 {
        None
    } else if pairs[0].0@ == key {
        Some(pairs[0].1@)
    } else {
        lookup(pairs.drop_first(), key)
    }
}

/// The value of `key` in `pairs`, if any pair has it.
pub fn get_annotation<'a>(pairs: &'a Vec<(String, String)>, key: &str) -> (r: Option<&'a String>)
    ensures
        match r {
            Some(v) => lookup(pairs@, key@) == Some(v@),
            None => lookup(pairs@, key@) is None,
        },
{
    let k = key.to_owned();
    let mut i: usize = 0;
    assert(pairs@.subrange(0, pairs@.len() as int) =~= pairs@);
    while i < pairs.len()
        invariant
            i <= pairs@.len(),
            k@ == key@,
            lookup(pairs@, key@) == lookup(pairs@.subrange(i as int, pairs@.len() as int), key@),
        decreases pairs.len() - i,
    {
        let ghost rest = pairs@.subrange(i as int, pairs@.len() as int);
        assert(rest.drop_first() =~= pairs@.subrange(i + 1, pairs@.len() as int));
        assert(rest[0] == pairs@[i as int]);
        if pairs[i].0 == k {
            return Some(&pairs[i].1);
        }
        i = i + 1;
    }
    None
}

/// `pairs` with `key` set to `value`: the first pair with `key` takes the
/// value, or a pair is added at the end.
pub fn set_annotation(pairs: &Vec<(String, String)>, key: &str, value: String) -> (r: Vec<
    (String, String),
>)
    ensures
        lookup(r@, key@) == Some(value@),
        forall|other: Seq<char>| other != key@ ==> #[trigger] lookup(r@, other) == lookup(pairs@, other),
{
    let k = key.to_owned();
    let mut r: Vec<(String, String)> = Vec::new();
    let mut first: Option<usize> = None;
    let mut i: usize = 0;
    while i < pairs.len()
        invariant
            i <= pairs@.len(),
            k@ == key@,
            r@ == pairs@.subrange(0, i as int),
            match first {
                Some(m) => m < i && pairs@[m as int].0@ == key@ && forall|j: int|
                    0 <= j < m ==> (#[trigger] pairs@[j]).0@ != key@,
                None => forall|j: int| 0 <= j < i ==> (#[trigger] pairs@[j]).0@ != key@,
            },
        decreases pairs.len() - i,
    {
        if first.is_none() && pairs[i].0 == k {
            first = Some(i);
        }
        r.push((pairs[i].0.clone(), pairs[i].1.clone()));
        assert(r@ =~= pairs@.subrange(0, i + 1));
        i = i + 1;
    }
    assert(pairs@.subrange(0, pairs@.len() as int) =~= pairs@);
    let ghost v = value@;
    match first {
        Some(m) => {
            r.set(m, (k, value));
            proof {
                lemma_lookup_update(pairs@, m as int, r@[m as int], key@);
                assert(r@ =~= pairs@.update(m as int, r@[m as int]));
            }
        },
        None => {
            r.push((k, value));
            proof {
                lemma_lookup_push(pairs@, r@.last(), key@);
            }
        },
    }
    r
}

proof fn lemma_lookup_update(
    pairs: Seq<(String, String)>,
    m: int,
    x: (String, String),
    key: Seq<char>,
)
    requires
        0 <= m < pairs.len(),
        pairs[m].0@ == key,
        x.0@ == key,
        forall|j: int| 0 <= j < m ==> (#[trigger] pairs[j]).0@ != key,
    ensures
        lookup(pairs.update(m, x), key) == Some(x.1@),
        forall|other: Seq<char>|
            other != key ==> #[trigger] lookup(pairs.update(m, x), other) == lookup(pairs, other),
    decreases m,
{
    let u = pairs.update(m, x);
    if m == 0 {
        assert(u.drop_first() =~= pairs.drop_first());
        assert forall|other: Seq<char>| other != key implies #[trigger] lookup(u, other) == lookup(
            pairs,
            other,
        ) by {
            assert(lookup(u, other) == lookup(u.drop_first(), other));
            assert(lookup(pairs, other) == lookup(pairs.drop_first(), other));
        }
    } else {
        let p = pairs.drop_first();
        assert(u.drop_first() =~= p.update(m - 1, x));
        assert forall|j: int| 0 <= j < m - 1 implies (#[trigger] p[j]).0@ != key by {
            assert(p[j] == pairs[j + 1]);
        }
        assert(pairs[0].0@ != key);
        lemma_lookup_update(p, m - 1, x, key);
        assert(u[0] == pairs[0]);
        assert forall|other: Seq<char>| other != key implies #[trigger] lookup(u, other) == lookup(
            pairs,
            other,
        ) by {
            if pairs[0].0@ != other {
                assert(lookup(u, other) == lookup(u.drop_first(), other));
                assert(lookup(pairs, other) == lookup(p, other));
            }
        }
    }
}

proof fn lemma_lookup_push(pairs: Seq<(String, String)>, x: (String, String), key: Seq<char>)
    requires
        x.0@ == key,
        forall|j: int| 0 <= j < pairs.len() ==> (#[trigger] pairs[j]).0@ != key,
    ensures
        lookup(pairs.push(x), key) == Some(x.1@),
        forall|other: Seq<char>|
            other != key ==> #[trigger] lookup(pairs.push(x), other) == lookup(pairs, other),
    decreases pairs.len(),
{
    let u = pairs.push(x);
    if pairs.len() == 0 {
        assert(u.drop_first().len() == 0);
        assert forall|other: Seq<char>| other != key implies #[trigger] lookup(u, other) == lookup(
            pairs,
            other,
        ) by {
            assert(lookup(u, other) == lookup(u.drop_first(), other));
        }
    } else {
        let p = pairs.drop_first();
        assert(u.drop_first() =~= p.push(x));
        assert forall|j: int| 0 <= j < p.len() implies (#[trigger] p[j]).0@ != key by {
            assert(p[j] == pairs[j + 1]);
        }
        assert(pairs[0].0@ != key);
        lemma_lookup_push(p, x, key);
        assert(u[0] == pairs[0]);
        assert forall|other: Seq<char>| other != key implies #[trigger] lookup(u, other) == lookup(
            pairs,
            other,
        ) by {
            if pairs[0].0@ != other {
                assert(lookup(u, other) == lookup(u.drop_first(), other));
                assert(lookup(pairs, other) == lookup(p, other));
            }
        }
    }
}

} // verus!
