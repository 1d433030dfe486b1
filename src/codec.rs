//! The back-reference index: a set of route identities kept on a certificate
//! as one comma-delimited annotation value.
use crate::identity::{
    id_text, lemma_parse_free, lemma_parse_text, parse_entry, well_formed, IdView, Identity,
};
use crate::text::{free_of, join, lemma_split_join, lemma_split_pieces_free, split, split_str};
use vstd::prelude::*;

verus! {

/// The identities that the entries name, in order; an entry without a slash is dropped.
pub open spec fn parse_all(es: Seq<Seq<char>>) -> Seq<IdView>
    decreases es.len(),
{
    if es.len() == 0 {
        Seq::<IdView>::empty()
    } else {
        let p = parse_all(es.drop_last());
        match parse_entry(es.last()) {
            Some(id) => p.push(id),
            None => p,
        }
    }
}

/// Each identity once, at its first place.
pub open spec fn dedup(s: Seq<IdView>) -> Seq<IdView>
    decreases s.len(),
{
    if s.len() == 0 {
        s
    } else {
        let p = dedup(s.drop_last());
        if p.contains(s.last()) {
            p
        } else {
            p.push(s.last())
        }
    }
}

/// The identities that an index value lists.
pub open spec fn index_entries(s: Seq<char>) -> Seq<IdView> {
    dedup(parse_all(split(s, ',')))
}

pub open spec fn texts(ids: Seq<IdView>) -> Seq<Seq<char>> {
    ids.map_values(|id: IdView| id_text(id))
}

/// The index value that lists `ids`, in order.
pub open spec fn index_text(ids: Seq<IdView>) -> Seq<char> {
    join(texts(ids), ',')
}

pub open spec fn with_id(ids: Seq<IdView>, id: IdView) -> Seq<IdView> {
    if ids.contains(id) {
        ids
    } else {
        ids.push(id)
    }
}

pub open spec fn without_id(ids: Seq<IdView>, id: IdView) -> Seq<IdView>
    decreases ids.len(),
{
    if ids.len() == 0 {
        ids
    } else {
        let p = without_id(ids.drop_last(), id);
        if ids.last() == id {
            p
        } else {
            p.push(ids.last())
        }
    }
}

pub open spec fn text_of(current: Option<Seq<char>>) -> Seq<char> {
    match current {
        Some(t) => t,
        None => Seq::<char>::empty(),
    }
}

/// The index value after adding (`add`) or removing `id`. Adding to an absent
/// or empty value gives the identity's text alone.
pub open spec fn updated_index(current: Option<Seq<char>>, id: IdView, add: bool) -> Seq<char> {
    let t = text_of(current);
    if add && t.len() == 0 {
        id_text(id)
    } else if add {
        index_text(with_id(index_entries(t), id))
    } else {
        index_text(without_id(index_entries(t), id))
    }
}

/// `id` is listed by the index value `s`.
pub open spec fn lists(s: Seq<char>, id: IdView) -> bool {
    index_entries(s).contains(id)
}

pub open spec fn views(v: Seq<Identity>) -> Seq<IdView> {
    v.map_values(|i: Identity| i@)
}

pub open spec fn all_well_formed(ids: Seq<IdView>) -> bool {
    forall|k: int| 0 <= k < ids.len() ==> well_formed(#[trigger] ids[k])
}

pub open spec fn opt_view(o: Option<&String>) -> Option<Seq<char>> {
    match o {
        Some(s) => Some(s@),
        None => None,
    }
}

proof fn lemma_dedup_contains(s: Seq<IdView>)
    ensures
        forall|x: IdView| #[trigger] dedup(s).contains(x) <==> s.contains(x),
        dedup(s).no_duplicates(),
    decreases s.len(),
{
    if s.len() > 0 {
        let init = s.drop_last();
        lemma_dedup_contains(init);
        assert forall|x: IdView| #[trigger] dedup(s).contains(x) <==> s.contains(x) by {
            if s.contains(x) && x != s.last() {
                let k = choose|k: int| 0 <= k < s.len() && s[k] == x;
                assert(init[k] == x);
            }
            if init.contains(x) {
                let k = choose|k: int| 0 <= k < init.len() && init[k] == x;
                assert(s[k] == x);
            }
            if !dedup(init).contains(s.last()) {
                assert(dedup(s) == dedup(init).push(s.last()));
                if dedup(s).contains(x) {
                    let k = choose|k: int| 0 <= k < dedup(s).len() && dedup(s)[k] == x;
                    if k < dedup(init).len() {
                        assert(dedup(init)[k] == x);
                    }
                }
                if dedup(init).contains(x) {
                    let k = choose|k: int| 0 <= k < dedup(init).len() && dedup(init)[k] == x;
                    assert(dedup(s)[k] == x);
                }
                assert(dedup(s)[dedup(init).len() as int] == s.last());
            }
            assert(s[s.len() - 1] == s.last());
        }
        if !dedup(init).contains(s.last()) {
            let d = dedup(s);
            assert forall|i: int, j: int| 0 <= i < d.len() && 0 <= j < d.len() && i != j implies d[i]
                != d[j] by {
                if i < d.len() - 1 && j < d.len() - 1 {
                    assert(d[i] == dedup(init)[i]);
                    assert(d[j] == dedup(init)[j]);
                } else if i == d.len() - 1 {
                    assert(d[j] == dedup(init)[j]);
                } else {
                    assert(d[i] == dedup(init)[i]);
                }
            }
        }
    }
}

proof fn lemma_dedup_distinct(s: Seq<IdView>)
    requires
        s.no_duplicates(),
    ensures
        dedup(s) == s,
    decreases s.len(),
{
    if s.len() > 0 {
        let init = s.drop_last();
        assert(init.no_duplicates()) by {
            assert forall|i: int, j: int|
                0 <= i < init.len() && 0 <= j < init.len() && i != j implies init[i]
                != init[j] by {
                assert(init[i] == s[i] && init[j] == s[j]);
            }
        }
        lemma_dedup_distinct(init);
        if init.contains(s.last()) {
            let k = choose|k: int| 0 <= k < init.len() && init[k] == s.last();
            assert(s[k] == s[s.len() - 1]);
        }
        assert(init.push(s.last()) =~= s);
    }
}

proof fn lemma_parse_all_texts(ids: Seq<IdView>)
    requires
        all_well_formed(ids),
    ensures
        parse_all(texts(ids)) == ids,
    decreases ids.len(),
{
    if ids.len() > 0 {
        let init = ids.drop_last();
        assert(texts(ids).drop_last() =~= texts(init));
        assert(all_well_formed(init)) by {
            assert forall|k: int| 0 <= k < init.len() implies well_formed(#[trigger] init[k]) by {
                assert(init[k] == ids[k]);
            }
        }
        lemma_parse_all_texts(init);
        assert(well_formed(ids[ids.len() - 1]));
        lemma_parse_text(ids.last());
        assert(texts(ids).last() == id_text(ids.last()));
        assert(init.push(ids.last()) =~= ids);
    }
}

proof fn lemma_parse_all_well_formed(es: Seq<Seq<char>>)
    requires
        forall|i: int| 0 <= i < es.len() ==> free_of(#[trigger] es[i], ','),
    ensures
        all_well_formed(parse_all(es)),
    decreases es.len(),
{
    if es.len() > 0 {
        let init = es.drop_last();
        assert forall|i: int| 0 <= i < init.len() implies free_of(#[trigger] init[i], ',') by {
            assert(init[i] == es[i]);
        }
        lemma_parse_all_well_formed(init);
        if parse_entry(es.last()) is Some {
            assert(es[es.len() - 1] == es.last());
            lemma_parse_free(es.last());
            let p = parse_all(es);
            assert forall|k: int| 0 <= k < p.len() implies well_formed(#[trigger] p[k]) by {
                if k < p.len() - 1 {
                    assert(p[k] == parse_all(init)[k]);
                }
            }
        }
    }
}

/// What an index value lists is free of duplicates and well formed.
pub proof fn lemma_entries_well_formed(s: Seq<char>)
    ensures
        all_well_formed(index_entries(s)),
        index_entries(s).no_duplicates(),
{
    lemma_split_pieces_free(s, ',');
    lemma_parse_all_well_formed(split(s, ','));
    let p = parse_all(split(s, ','));
    lemma_dedup_contains(p);
    assert forall|k: int| 0 <= k < dedup(p).len() implies well_formed(#[trigger] dedup(p)[k]) by {
        assert(dedup(p).contains(dedup(p)[k]));
        assert(p.contains(dedup(p)[k]));
        let j = choose|j: int| 0 <= j < p.len() && p[j] == dedup(p)[k];
    }
}

/// Reading back an index value written from a set of well-formed identities
/// gives that set, in the order it was written.
pub proof fn lemma_round_trip(ids: Seq<IdView>)
    requires
        ids.no_duplicates(),
        all_well_formed(ids),
    ensures
        index_entries(index_text(ids)) == ids,
{
    if ids.len() == 0 {
        assert(texts(ids) =~= Seq::<Seq<char>>::empty());
        assert(index_text(ids) =~= Seq::<char>::empty());
        assert(split(Seq::<char>::empty(), ',') =~= seq![Seq::<char>::empty()]);
        let e = Seq::<char>::empty();
        assert(!exists|id: IdView| crate::identity::reads_as(e, id)) by {
            if exists|id: IdView| crate::identity::reads_as(e, id) {
                let id = choose|id: IdView| crate::identity::reads_as(e, id);
                assert(id_text(id).len() >= 1);
            }
        }
        assert(parse_entry(e) is None);
        assert(seq![e].last() == e);
        assert(seq![e].drop_last() =~= Seq::<Seq<char>>::empty());
        assert(parse_all(seq![e]) == parse_all(Seq::<Seq<char>>::empty()));
    } else {
        assert forall|i: int| 0 <= i < texts(ids).len() implies free_of(
            #[trigger] texts(ids)[i],
            ',',
        ) by {
            let id = ids[i];
            assert(well_formed(id));
            let t = id_text(id);
            assert(texts(ids)[i] == t);
            if t.contains(',') {
                let k = choose|k: int| 0 <= k < t.len() && t[k] == ',';
                if k < id.0.len() {
                    assert(id.0[k] == ',');
                } else if k > id.0.len() {
                    assert(id.1[k - id.0.len() - 1] == ',');
                }
            }
        }
        lemma_split_join(texts(ids), ',');
        lemma_parse_all_texts(ids);
        lemma_dedup_distinct(ids);
    }
}

proof fn lemma_without_id(ids: Seq<IdView>, id: IdView)
    ensures
        forall|x: IdView| #[trigger] without_id(ids, id).contains(x) <==> (ids.contains(x) && x
            != id),
        ids.no_duplicates() ==> without_id(ids, id).no_duplicates(),
        !ids.contains(id) ==> without_id(ids, id) == ids,
    decreases ids.len(),
{
    if ids.len() > 0 {
        let init = ids.drop_last();
        lemma_without_id(init, id);
        let w = without_id(ids, id);
        let wi = without_id(init, id);
        assert forall|x: IdView| #[trigger] w.contains(x) <==> (ids.contains(x) && x != id) by {
            if ids.contains(x) && x != ids.last() {
                let k = choose|k: int| 0 <= k < ids.len() && ids[k] == x;
                assert(init[k] == x);
            }
            if init.contains(x) {
                let k = choose|k: int| 0 <= k < init.len() && init[k] == x;
                assert(ids[k] == x);
            }
            assert(ids[ids.len() - 1] == ids.last());
            if ids.last() != id {
                if w.contains(x) {
                    let k = choose|k: int| 0 <= k < w.len() && w[k] == x;
                    if k < wi.len() {
                        assert(wi[k] == x);
                    }
                }
                if wi.contains(x) {
                    let k = choose|k: int| 0 <= k < wi.len() && wi[k] == x;
                    assert(w[k] == x);
                }
                assert(w[wi.len() as int] == ids.last());
            }
        }
        if ids.no_duplicates() {
            assert(init.no_duplicates()) by {
                assert forall|i: int, j: int|
                    0 <= i < init.len() && 0 <= j < init.len() && i != j implies init[i]
                    != init[j] by {
                    assert(init[i] == ids[i] && init[j] == ids[j]);
                }
            }
            if ids.last() != id {
                assert(!init.contains(ids.last())) by {
                    if init.contains(ids.last()) {
                        let k = choose|k: int| 0 <= k < init.len() && init[k] == ids.last();
                        assert(ids[k] == ids[ids.len() - 1]);
                    }
                }
                assert(!wi.contains(ids.last()));
                assert forall|i: int, j: int|
                    0 <= i < w.len() && 0 <= j < w.len() && i != j implies w[i] != w[j] by {
                    if i < wi.len() && j < wi.len() {
                        assert(w[i] == wi[i] && w[j] == wi[j]);
                    } else if i < wi.len() {
                        assert(w[i] == wi[i]);
                    } else {
                        assert(w[j] == wi[j]);
                    }
                }
            }
        }
        if !ids.contains(id) {
            assert(ids[ids.len() - 1] == ids.last());
            assert(!init.contains(id)) by {
                if init.contains(id) {
                    let k = choose|k: int| 0 <= k < init.len() && init[k] == id;
                    assert(ids[k] == id);
                }
            }
            assert(init.push(ids.last()) =~= ids);
        }
    }
}

/// The identities that `updated_index` leaves listed: those listed before,
/// with `id` added or taken out.
proof fn lemma_updated_entries(current: Option<Seq<char>>, id: IdView, add: bool)
    requires
        add ==> well_formed(id),
    ensures
        add ==> index_entries(updated_index(current, id, add)) == with_id(
            index_entries(text_of(current)),
            id,
        ),
        !add ==> index_entries(updated_index(current, id, add)) == without_id(
            index_entries(text_of(current)),
            id,
        ),
{
    let t = text_of(current);
    let before = index_entries(t);
    lemma_entries_well_formed(t);
    if add {
        let after = with_id(before, id);
        assert(after.no_duplicates()) by {
            if !before.contains(id) {
                assert forall|i: int, j: int|
                    0 <= i < after.len() && 0 <= j < after.len() && i != j implies after[i]
                    != after[j] by {
                    if i < before.len() && j < before.len() {
                        assert(after[i] == before[i] && after[j] == before[j]);
                    } else if i < before.len() {
                        assert(after[i] == before[i]);
                    } else {
                        assert(after[j] == before[j]);
                    }
                }
            }
        }
        assert(all_well_formed(after)) by {
            assert forall|k: int| 0 <= k < after.len() implies well_formed(#[trigger] after[k]) by {
                if k < before.len() {
                    assert(after[k] == before[k]);
                }
            }
        }
        lemma_round_trip(after);
        if t.len() == 0 {
            assert(split(t, ',') =~= seq![Seq::<char>::empty()]);
            lemma_round_trip(Seq::<IdView>::empty());
            assert(index_text(Seq::<IdView>::empty()) =~= t);
            assert(before =~= Seq::<IdView>::empty());
            assert(after =~= seq![id]);
            assert(texts(seq![id]) =~= seq![id_text(id)]);
            assert(index_text(after) == id_text(id));
        }
    } else {
        lemma_without_id(before, id);
        let after = without_id(before, id);
        assert(all_well_formed(after)) by {
            assert forall|k: int| 0 <= k < after.len() implies well_formed(#[trigger] after[k]) by {
                assert(after.contains(after[k]));
                assert(before.contains(after[k]));
                let j = choose|j: int| 0 <= j < before.len() && before[j] == after[k];
            }
        }
        lemma_round_trip(after);
    }
}

/// Adding a route to an index value, then adding it again, gives the value
/// that the first addition gave: no entry is written twice.
pub proof fn lemma_add_idempotent(current: Option<Seq<char>>, id: IdView)
    requires
        well_formed(id),
    ensures
        updated_index(Some(updated_index(current, id, true)), id, true) == updated_index(
            current,
            id,
            true,
        ),
{
    let once = updated_index(current, id, true);
    let t = text_of(current);
    lemma_updated_entries(current, id, true);
    let listed = with_id(index_entries(t), id);
    assert(listed.contains(id)) by {
        if !index_entries(t).contains(id) {
            assert(listed[listed.len() - 1] == id);
        }
    }
    assert(once.len() > 0) by {
        if once.len() == 0 {
            assert(split(once, ',') =~= seq![Seq::<char>::empty()]);
            lemma_round_trip(Seq::<IdView>::empty());
            assert(index_text(Seq::<IdView>::empty()) =~= once);
        }
    }
    lemma_updated_entries(Some(once), id, true);
    lemma_entries_well_formed(t);
    if t.len() == 0 {
        assert(index_entries(once) == listed);
    }
    assert(with_id(index_entries(once), id) == index_entries(once));
    lemma_entries_well_formed(once);
    lemma_round_trip(index_entries(once));
    assert(index_entries(once) == listed);
    if t.len() != 0 {
        assert(once == index_text(listed));
    } else {
        assert(once == id_text(id));
        assert(listed =~= seq![id]) by {
            assert(split(t, ',') =~= seq![Seq::<char>::empty()]);
            lemma_round_trip(Seq::<IdView>::empty());
            assert(index_text(Seq::<IdView>::empty()) =~= t);
        }
        assert(texts(seq![id]) =~= seq![id_text(id)]);
    }
}

/// After adding a well-formed identity, the index lists it.
pub proof fn lemma_add_lists(current: Option<Seq<char>>, id: IdView)
    requires
        well_formed(id),
    ensures
        lists(updated_index(current, id, true), id),
{
    lemma_updated_entries(current, id, true);
    let before = index_entries(text_of(current));
    if !before.contains(id) {
        assert(with_id(before, id)[before.len() as int] == id);
    }
}

/// After removing an identity, the index no longer lists it; the others stay.
pub proof fn lemma_remove_unlists(current: Option<Seq<char>>, id: IdView)
    ensures
        !lists(updated_index(current, id, false), id),
        forall|x: IdView|
            x != id ==> (#[trigger] lists(updated_index(current, id, false), x) <==> lists(
                text_of(current),
                x,
            )),
{
    lemma_updated_entries(current, id, false);
    lemma_without_id(index_entries(text_of(current)), id);
}

/// Reads an index value: the identities it lists, each once, in order of
/// first appearance. Entries without a slash are dropped.
pub fn decode(s: &str) -> (r: Vec<Identity>)
    ensures
        views(r@) == index_entries(s@),
{
    let pieces = split_str(s, ',');
    let ghost es = split(s@, ',');
    let mut r: Vec<Identity> = Vec::new();
    let mut i: usize = 0;
    while i < pieces.len()
        invariant
            i <= pieces@.len() == es.len(),
            forall|k: int| 0 <= k < pieces@.len() ==> (#[trigger] pieces@[k])@ == es[k],
            views(r@) == dedup(parse_all(es.subrange(0, i as int))),
        decreases pieces.len() - i,
    {
        assert(es.subrange(0, i + 1).drop_last() =~= es.subrange(0, i as int));
        assert(es.subrange(0, i + 1).last() == es[i as int]);
        assert(pieces@[i as int]@ == es[i as int]);
        let ghost pre = parse_all(es.subrange(0, i as int));
        match Identity::parse(pieces[i].as_str()) {
            Some(id) => {
                let mut found = false;
                let mut j: usize = 0;
                while j < r.len()
                    invariant
                        j <= r@.len(),
                        found == exists|k: int| 0 <= k < j && (#[trigger] r@[k])@ == id@,
                    decreases r.len() - j,
                {
                    if r[j].same(&id) {
                        found = true;
                    }
                    j = j + 1;
                }
                proof {
                    if found {
                        let k = choose|k: int| 0 <= k < r@.len() && (#[trigger] r@[k])@ == id@;
                        assert(views(r@)[k] == id@);
                    } else {
                        if views(r@).contains(id@) {
                            let k = choose|k: int| 0 <= k < views(r@).len() && views(r@)[k] == id@;
                            assert(r@[k]@ == id@);
                        }
                    }
                }
                assert(parse_all(es.subrange(0, i + 1)) == pre.push(id@));
                assert(pre.push(id@).drop_last() =~= pre);
                assert(pre.push(id@).last() == id@);
                if !found {
                    r.push(id);
                    assert(views(r@) =~= views(r@.drop_last()).push(id@));
                }
            },
            None => {
                assert(parse_all(es.subrange(0, i + 1)) == pre);
            },
        }
        i = i + 1;
    }
    assert(es.subrange(0, pieces.len() as int) =~= es);
    r
}

/// Writes an index value listing `ids` in order, comma-delimited.
pub fn encode(ids: &Vec<Identity>) -> (r: String)
    ensures
        r@ == index_text(views(ids@)),
{
    let mut r = String::new();
    let mut i: usize = 0;
    while i < ids.len()
        invariant
            i <= ids@.len(),
            r@ == join(texts(views(ids@).subrange(0, i as int)), ','),
        decreases ids.len() - i,
    {
        let ghost before = texts(views(ids@).subrange(0, i as int));
        let ghost after = texts(views(ids@).subrange(0, i + 1));
        assert(after.drop_last() =~= before);
        assert(after.last() == id_text(ids@[i as int]@));
        proof {
            reveal_strlit(",");
        }
        if i > 0 {
            r.append(",");
        }
        let t = ids[i].to_text();
        r.append(t.as_str());
        if i == 0 {
            assert(r@ =~= after[0]);
        } else {
            assert(r@ =~= join(before, ',') + seq![','] + after.last());
        }
        i = i + 1;
    }
    assert(views(ids@).subrange(0, ids.len() as int) =~= views(ids@));
    r
}

/// The index value after adding or removing `id` (see `updated_index`).
pub fn update_index(current: Option<&String>, id: &Identity, add: bool) -> (r: String)
    ensures
        r@ == updated_index(opt_view(current), id@, add),
{
    let empty = current.is_none() || current.unwrap().unicode_len() == 0;
    if add && empty {
        return id.to_text();
    }
    let mut ids = match current {
        Some(s) => decode(s.as_str()),
        None => Vec::new(),
    };
    proof {
        if current is None {
            assert(split(Seq::<char>::empty(), ',') =~= seq![Seq::<char>::empty()]);
            lemma_round_trip(Seq::<IdView>::empty());
            assert(index_text(Seq::<IdView>::empty()) =~= Seq::<char>::empty());
            assert(views(ids@) =~= index_entries(Seq::<char>::empty()));
        }
    }
    let ghost before = views(ids@);
    if add {
        let mut found = false;
        let mut j: usize = 0;
        while j < ids.len()
            invariant
                j <= ids@.len(),
                found == exists|k: int| 0 <= k < j && (#[trigger] ids@[k])@ == id@,
            decreases ids.len() - j,
        {
            if ids[j].same(id) {
                found = true;
            }
            j = j + 1;
        }
        proof {
            if found {
                let k = choose|k: int| 0 <= k < ids@.len() && (#[trigger] ids@[k])@ == id@;
                assert(before[k] == id@);
            } else if before.contains(id@) {
                let k = choose|k: int| 0 <= k < before.len() && before[k] == id@;
                assert(ids@[k]@ == id@);
            }
        }
        if !found {
            ids.push(id.duplicate());
            assert(views(ids@) =~= before.push(id@));
        }
        encode(&ids)
    } else {
        let mut kept: Vec<Identity> = Vec::new();
        let mut j: usize = 0;
        while j < ids.len()
            invariant
                j <= ids@.len(),
                before == views(ids@),
                views(kept@) == without_id(before.subrange(0, j as int), id@),
            decreases ids.len() - j,
        {
            assert(before.subrange(0, j + 1).drop_last() =~= before.subrange(0, j as int));
            assert(before.subrange(0, j + 1).last() == ids@[j as int]@);
            if !ids[j].same(id) {
                kept.push(ids[j].duplicate());
                assert(views(kept@) =~= views(kept@.drop_last()).push(ids@[j as int]@));
            }
            j = j + 1;
        }
        assert(before.subrange(0, ids.len() as int) =~= before);
        encode(&kept)
    }
}

} // verus!
