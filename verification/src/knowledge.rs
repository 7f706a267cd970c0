//! The knowledge store: what the steps of a run have observed, and how a
//! term's variables find it again.

use crate::algebra::TypeShape;
use vstd::prelude::*;

verus! {

/// One observed value: the step that produced it, its position among that
/// step's observations, its type, and its bytes.
pub struct Knowledge {
    pub step: u64,
    pub index: u64,
    pub typ: TypeShape,
    pub data: Vec<u8>,
}

/// The mathematical model of a [`Knowledge`].
pub struct KnowledgeView {
    pub step: u64,
    pub index: u64,
    pub typ: TypeShape,
    pub data: Seq<u8>,
}

impl View for Knowledge {
    type V = KnowledgeView;

    open spec fn view(&self) -> KnowledgeView {
        KnowledgeView { step: self.step, index: self.index, typ: self.typ, data: self.data@ }
    }
}

/// A typed value that a step has observed, before it is stored.
pub struct Observation {
    pub typ: TypeShape,
    pub data: Vec<u8>,
}

/// The mathematical model of an [`Observation`].
pub struct ObservationView {
    pub typ: TypeShape,
    pub data: Seq<u8>,
}

impl View for Observation {
    type V = ObservationView;

    open spec fn view(&self) -> ObservationView {
        ObservationView { typ: self.typ, data: self.data@ }
    }
}

impl DeepView for Observation {
    type V = ObservationView;

    open spec fn deep_view(&self) -> ObservationView {
        self@
    }
}

/// The mathematical model of a store.
pub open spec fn store_view(store: Seq<Knowledge>) -> Seq<KnowledgeView> {
    store.map_values(|k: Knowledge| k@)
}

/// What a lookup asks for: values of a type, and where `at` names a step and
/// a position, only the values that the step has produced at the position.
#[derive(Clone, Copy, Debug)]
pub struct Lookup {
    pub at: Option<(u64, u64)>,
    pub typ: TypeShape,
}

impl Lookup {
    /// The lookup of the values of type `typ` at position `index` of what
    /// step `step` has produced.
    pub open spec fn keyed(step: u64, index: u64, typ: TypeShape) -> Lookup {
        Lookup { at: Some((step, index)), typ }
    }

    /// The lookup of all values of type `typ`.
    pub open spec fn typed(typ: TypeShape) -> Lookup {
        Lookup { at: None, typ }
    }
}

impl KnowledgeView {
    /// The entry is what the lookup asks for.
    pub open spec fn answers(self, query: Lookup) -> bool {
        &&& self.typ == query.typ
        &&& query.at matches Some((step, index)) ==> self.step == step && self.index == index
    }
}

impl Knowledge {

    /// The bytes of the entry, where it has the type asked for.
    pub fn downcast(&self, typ: TypeShape) -> (r: Option<&Vec<u8>>)
        ensures
            r == (if self.typ == typ {
                Some(&self.data)
            } else {
                None
            }),
    {
        if self.typ == typ {
            Some(&self.data)
        } else {
            None
        }
    }

    /// Does the entry answer the lookup?
    pub fn is_answer(&self, query: Lookup) -> (b: bool)
        ensures
            b == self@.answers(query),
    {
        self.typ == query.typ && match query.at {
            Some((step, index)) => self.step == step && self.index == index,
            None => true,
        }
    }
}

/// The bytes of the first entry at or after position `from` that answers the
/// lookup.
pub open spec fn first_match(
    store: Seq<KnowledgeView>,
    query: Lookup,
    from: int,
) -> Option<Seq<u8>>
    decreases store.len() - from,
{
    if from < 0 || from >= store.len() {
        None
    } else if store[from].answers(query) {
        Some(store[from].data)
    } else {
        first_match(store, query, from + 1)
    }
}

/// The bytes of every entry among the first `n` that answers the lookup, in
/// the order of insertion.
pub open spec fn matching(
    store: Seq<KnowledgeView>,
    query: Lookup,
    n: nat,
) -> Seq<Seq<u8>>
    decreases n,
{
    if n == 0 || n > store.len() {
        Seq::empty()
    } else {
        let before = matching(store, query, (n - 1) as nat);
        if store[n - 1].answers(query) {
            before.push(store[n - 1].data)
        } else {
            before
        }
    }
}

/// The byte strings of `parts`, one after another.
pub open spec fn concat(parts: Seq<Seq<u8>>) -> Seq<u8>
    decreases parts.len(),
{
    if parts.len() == 0 {
        Seq::empty()
    } else {
        concat(parts.drop_last()) + parts.last()
    }
}

/// What a variable `(step, index)` of type `typ` stands for: the first match,
/// or for a collection type all matches, one after another.
pub open spec fn resolve(store: Seq<KnowledgeView>, step: u64, index: u64, typ: TypeShape) -> Option<
    Seq<u8>,
> {
    if typ.collection {
        Some(concat(matching(store, Lookup::keyed(step, index, typ), store.len())))
    } else {
        first_match(store, Lookup::keyed(step, index, typ), 0)
    }
}

/// Appending a part appends its bytes.
pub proof fn lemma_concat_push(parts: Seq<Seq<u8>>, part: Seq<u8>)
    ensures
        concat(parts.push(part)) == concat(parts) + part,
{
    assert(parts.push(part).drop_last() =~= parts);
}

/// A lookup that starts after every entry that does not answer it finds what
/// a lookup from the start finds.
pub proof fn lemma_first_match_skips(
    store: Seq<KnowledgeView>,
    query: Lookup,
    from: int,
)
    requires
        0 <= from <= store.len(),
        forall|j: int| 0 <= j < from ==> !(#[trigger] store[j]).answers(query),
    ensures
        first_match(store, query, 0) == first_match(store, query, from),
    decreases from,
{
    if from > 0 {
        lemma_first_match_skips(store, query, from - 1);
    }
}

/// The store is append-only: a lookup that has found a value finds the same
/// value after any insertion.
pub proof fn lemma_first_match_stable(
    store: Seq<KnowledgeView>,
    added: KnowledgeView,
    query: Lookup,
    from: int,
)
    requires
        0 <= from,
        first_match(store, query, from) is Some,
    ensures
        first_match(store.push(added), query, from) == first_match(
            store,
            query,
            from,
        ),
    decreases store.len() - from,
{
    if from < store.len() {
        assert(store.push(added)[from] == store[from]);
        if !store[from].answers(query) {
            lemma_first_match_stable(store, added, query, from + 1);
        }
    }
}

/// A copy of `bytes`.
pub fn copy_bytes(bytes: &Vec<u8>) -> (r: Vec<u8>)
    ensures
        r@ == bytes@,
{
    let mut r: Vec<u8> = Vec::new();
    let mut i: usize = 0;
    while i < bytes.len()
        invariant
            i <= bytes.len(),
            r@ == bytes@.take(i as int),
        decreases bytes.len() - i,
    {
        r.push(bytes[i]);
        assert(bytes@.take(i + 1) =~= bytes@.take(i as int).push(bytes@[i as int]));
        i += 1;
    }
    assert(bytes@.take(bytes.len() as int) =~= bytes@);
    r
}

/// Appends `bytes` to `out`.
pub fn append_bytes(out: &mut Vec<u8>, bytes: &Vec<u8>)
    ensures
        final(out)@ == old(out)@ + bytes@,
{
    let mut i: usize = 0;
    while i < bytes.len()
        invariant
            i <= bytes.len(),
            out@ == old(out)@ + bytes@.take(i as int),
        decreases bytes.len() - i,
    {
        out.push(bytes[i]);
        assert(bytes@.take(i + 1) =~= bytes@.take(i as int).push(bytes@[i as int]));
        assert(old(out)@ + bytes@.take(i + 1) =~= (old(out)@ + bytes@.take(i as int)).push(
            bytes@[i as int],
        ));
        i += 1;
    }
    assert(bytes@.take(bytes.len() as int) =~= bytes@);
}

/// The first entry of the store that answers the lookup.
pub fn find_first(store: &Vec<Knowledge>, query: Lookup) -> (r: Option<
    &Vec<u8>,
>)
    ensures
        r is Some <==> first_match(store_view(store@), query, 0) is Some,
        r matches Some(data) ==> first_match(store_view(store@), query, 0) == Some(data@),
{
    let mut i: usize = 0;
    while i < store.len()
        invariant
            i <= store.len(),
            forall|j: int| 0 <= j < i ==> !(#[trigger] store@[j])@.answers(query),
        decreases store.len() - i,
    {
        if store[i].is_answer(query) {
            proof {
                lemma_first_match_skips(store_view(store@), query, i as int);
            }
            return Some(&store[i].data);
        }
        i += 1;
    }
    proof {
        lemma_first_match_skips(store_view(store@), query, store@.len() as int);
    }
    None
}

/// Every entry of the store that answers the lookup, in the order of
/// insertion.
pub fn find_all(store: &Vec<Knowledge>, query: Lookup) -> (r: Vec<
    &Vec<u8>,
>)
    ensures
        r@.len() == matching(store_view(store@), query, store@.len()).len(),
        forall|k: int|
            0 <= k < r@.len() ==> (#[trigger] r@[k])@ == matching(
                store_view(store@),
                query,
                store@.len(),
            )[k],
{
    let mut r: Vec<&Vec<u8>> = Vec::new();
    let mut i: usize = 0;
    while i < store.len()
        invariant
            i <= store.len(),
            r@.len() == matching(store_view(store@), query, i as nat).len(),
            forall|k: int|
                0 <= k < r@.len() ==> (#[trigger] r@[k])@ == matching(
                    store_view(store@),
                    query,
                    i as nat,
                )[k],
        decreases store.len() - i,
    {
        if store[i].is_answer(query) {
            r.push(&store[i].data);
        }
        i += 1;
    }
    r
}

/// The bytes that a variable stands for, where the store has them.
pub fn lookup(store: &Vec<Knowledge>, step: u64, index: u64, typ: TypeShape) -> (r: Option<
    Vec<u8>,
>)
    ensures
        r is Some <==> resolve(store_view(store@), step, index, typ) is Some,
        r matches Some(data) ==> resolve(store_view(store@), step, index, typ) == Some(data@),
{
    let query = Lookup { at: Some((step, index)), typ };
    if typ.collection {
        let mut out: Vec<u8> = Vec::new();
        let mut i: usize = 0;
        while i < store.len()
            invariant
                i <= store.len(),
                out@ == concat(matching(store_view(store@), query, i as nat)),
            decreases store.len() - i,
        {
            if store[i].is_answer(query) {
                proof {
                    lemma_concat_push(
                        matching(store_view(store@), query, i as nat),
                        store@[i as int].data@,
                    );
                }
                append_bytes(&mut out, &store[i].data);
            }
            i += 1;
        }
        Some(out)
    } else {
        match find_first(store, query) {
            Some(data) => Some(copy_bytes(data)),
            None => None,
        }
    }
}

} // verus!
