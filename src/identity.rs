//! Resource identities: a namespace and a name, written `namespace/name`.
use crate::text::free_of;
use vstd::prelude::*;

verus! {

/// A namespace and a name, as a pair of texts.
pub type IdView = (Seq<char>, Seq<char>);

/// The identity of a namespaced resource.
#[derive(Clone, Debug, PartialEq, Eq)]
pub struct Identity {
    pub namespace: String,
    pub name: String,
}

impl View for Identity {
    type V = IdView;

    open spec fn view(&self) -> IdView {
        (self.namespace@, self.name@)
    }
}

/// `namespace/name`.
pub open spec fn id_text(id: IdView) -> Seq<char> {
    id.0 + seq!['/'] + id.1
}

/// An identity that survives being written into an index and read back:
/// the namespace holds neither separator, the name holds no comma.
pub open spec fn well_formed(id: IdView) -> bool {
    free_of(id.0, '/') && free_of(id.0, ',') && free_of(id.1, ',')
}

/// `e` reads as `id`: the namespace is what stands before the first slash.
pub open spec fn reads_as(e: Seq<char>, id: IdView) -> bool {
    e == id_text(id) && free_of(id.0, '/')
}

/// The identity that an index entry names, if it has a slash.
pub open spec fn parse_entry(e: Seq<char>) -> Option<IdView> {
    if exists|id: IdView| reads_as(e, id) {
        Some(choose|id: IdView| reads_as(e, id))
    } else {
        None
    }
}

proof fn lemma_reads_as_unique(e: Seq<char>, a: IdView, b: IdView)
    requires
        reads_as(e, a),
        reads_as(e, b),
    ensures
        a == b,
{
    if a.0.len() < b.0.len() {
        assert(e[a.0.len() as int] == '/');
        assert(b.0[a.0.len() as int] == e[a.0.len() as int]);
    } else if b.0.len() < a.0.len() {
        assert(e[b.0.len() as int] == '/');
        assert(a.0[b.0.len() as int] == e[b.0.len() as int]);
    }
    assert(a.0 =~= e.subrange(0, a.0.len() as int));
    assert(b.0 =~= e.subrange(0, b.0.len() as int));
    assert(a.1 =~= e.subrange(a.0.len() as int + 1, e.len() as int));
    assert(b.1 =~= e.subrange(b.0.len() as int + 1, e.len() as int));
}

/// An identity whose namespace has no slash is read back from its text.
pub proof fn lemma_parse_text(id: IdView)
    requires
        free_of(id.0, '/'),
    ensures
        parse_entry(id_text(id)) == Some(id),
{
    assert(reads_as(id_text(id), id));
    let c = choose|c: IdView| reads_as(id_text(id), c);
    lemma_reads_as_unique(id_text(id), c, id);
}

/// What an entry reads as holds no more separators than the entry.
pub proof fn lemma_parse_free(e: Seq<char>)
    requires
        free_of(e, ','),
        parse_entry(e) is Some,
    ensures
        well_formed(parse_entry(e)->0),
{
    let id = parse_entry(e)->0;
    assert(reads_as(e, id));
    if id.0.contains(',') {
        let k = choose|k: int| 0 <= k < id.0.len() && id.0[k] == ',';
        assert(e[k] == ',');
    }
    if id.1.contains(',') {
        let k = choose|k: int| 0 <= k < id.1.len() && id.1[k] == ',';
        assert(e[id.0.len() + 1 + k] == ',');
    }
}

/// The text `namespace/name` for a resource.
pub fn resource_to_string(name: &str, namespace: &str) -> (r: String)
    ensures
        r@ == id_text((namespace@, name@)),
{
    let mut r = String::from_str(namespace);
    proof {
        reveal_strlit("/");
    }
    r.append("/");
    r.append(name);
    assert(r@ =~= namespace@ + seq!['/'] + name@);
    r
}

impl Identity {
    pub fn new(namespace: &str, name: &str) -> (r: Identity)
        ensures
            r@ == (namespace@, name@),
    {
        Identity { namespace: namespace.to_owned(), name: name.to_owned() }
    }

    /// A copy with the same texts.
    pub fn duplicate(&self) -> (r: Identity)
        ensures
            r@ == self@,
    {
        Identity { namespace: self.namespace.clone(), name: self.name.clone() }
    }

    /// The text `namespace/name`.
    pub fn to_text(&self) -> (r: String)
        ensures
            r@ == id_text(self@),
    {
        resource_to_string(self.name.as_str(), self.namespace.as_str())
    }

    pub fn same(&self, other: &Identity) -> (r: bool)
        ensures
            r == (self@ == other@),
    {
        self.namespace == other.namespace && self.name == other.name
    }

    /// Reads an entry `namespace/name`, splitting at the first slash; `None`
    /// where the entry has no slash.
    pub fn parse(entry: &str) -> (r: Option<Identity>)
        ensures
            match r {
                Some(id) => parse_entry(entry@) == Some(id@),
                None => parse_entry(entry@) is None,
            },
    {
        let n: usize = entry.unicode_len();
        let mut i: usize = 0;
        while i < n
            invariant
                n == entry@.len(),
                i <= n,
                free_of(entry@.subrange(0, i as int), '/'),
            decreases n - i,
        {
            let c = entry.get_char(i);
            if c == '/' {
                let namespace = entry.substring_char(0, i).to_owned();
                let name = entry.substring_char(i + 1, n).to_owned();
                let id = Identity { namespace, name };
                assert(entry@ =~= id_text(id@));
                proof {
                    lemma_parse_text(id@);
                }
                return Some(id);
            }
            assert(entry@.subrange(0, i + 1) =~= entry@.subrange(0, i as int).push(c));
            assert(free_of(entry@.subrange(0, i + 1), '/')) by {
                let s = entry@.subrange(0, i + 1);
                if s.contains('/') {
                    let k = choose|k: int| 0 <= k < s.len() && s[k] == '/';
                    if k < i {
                        assert(entry@.subrange(0, i as int)[k] == '/');
                    }
                }
            }
            i = i + 1;
        }
        assert(entry@.subrange(0, n as int) =~= entry@);
        proof {
            if exists|id: IdView| reads_as(entry@, id) {
                let id = choose|id: IdView| reads_as(entry@, id);
                assert(entry@[id.0.len() as int] == '/');
            }
        }
        None
    }
}

} // verus!
