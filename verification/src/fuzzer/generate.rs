//! Generating fresh terms from a signature, guided by a sequence of rolls.

use crate::algebra::{term_views, Signature, SymbolView, Term, TermView, TypeShape};
use vstd::prelude::*;

verus! {

/// The positions, among the first `n` symbols of the signature, of the
/// symbols that give a value of type `typ`, in order.
pub open spec fn producers(sig: Seq<SymbolView>, typ: TypeShape, n: nat) -> Seq<usize>
    decreases n,
{
    if n == 0 || n > sig.len() {
        Seq::empty()
    } else {
        let before = producers(sig, typ, (n - 1) as nat);
        if sig[n - 1].output == typ {
            before.push((n - 1) as usize)
        } else {
            before
        }
    }
}

/// The term of type `typ` that the rolls lead to, and the rolls that are
/// left. The first roll picks, among the symbols that give `typ`, the root;
/// the rolls behind it lead to the children, one after another. A term is no
/// deeper than `depth`, and there is none where the rolls run out or no
/// symbol gives the type.
pub open spec fn generated(
    sig: Seq<SymbolView>,
    typ: TypeShape,
    depth: nat,
    rolls: Seq<u64>,
) -> Option<(TermView, Seq<u64>)>
    decreases depth, 0nat,
{
    let options = producers(sig, typ, sig.len());
    if depth == 0 || rolls.len() == 0 || options.len() == 0 {
        None
    } else {
        let symbol = options[(rolls[0] as int) % (options.len() as int)];
        match generated_children(
            sig,
            sig[symbol as int].inputs,
            sig[symbol as int].inputs.len(),
            (depth - 1) as nat,
            rolls.skip(1),
        ) {
            Some((children, rest)) => Some(
                (TermView::Application { symbol, args: children }, rest),
            ),
            None => None,
        }
    }
}

/// The terms of the first `n` of the types `inputs` that the rolls lead to,
/// and the rolls that are left.
pub open spec fn generated_children(
    sig: Seq<SymbolView>,
    inputs: Seq<TypeShape>,
    n: nat,
    depth: nat,
    rolls: Seq<u64>,
) -> Option<(Seq<TermView>, Seq<u64>)>
    decreases depth, n,
{
    if n == 0 || n > inputs.len() {
        Some((Seq::empty(), rolls))
    } else {
        match generated_children(sig, inputs, (n - 1) as nat, depth, rolls) {
            None => None,
            Some((before, rest)) => match generated(sig, inputs[n - 1], depth, rest) {
                None => None,
                Some((child, left)) => Some((before.push(child), left)),
            },
        }
    }
}

/// Every position among the producers of a type is the position of a symbol
/// of the signature that gives the type.
pub proof fn lemma_producers(sig: Seq<SymbolView>, typ: TypeShape, n: nat, k: int)
    requires
        n <= sig.len() <= usize::MAX,
        0 <= k < producers(sig, typ, n).len(),
    ensures
        producers(sig, typ, n)[k] < n,
        sig[producers(sig, typ, n)[k] as int].output == typ,
    decreases n,
{
    if n > 0 {
        let before = producers(sig, typ, (n - 1) as nat);
        if k < before.len() {
            lemma_producers(sig, typ, (n - 1) as nat, k);
        }
    }
}

/// A generated term is a well-typed term of the type asked for. It holds no
/// variable, and it has as many nodes as rolls were used.
pub proof fn lemma_generated(sig: Seq<SymbolView>, typ: TypeShape, depth: nat, rolls: Seq<u64>)
    requires
        sig.len() <= usize::MAX,
    ensures
        generated(sig, typ, depth, rolls) matches Some((t, rest)) ==> {
            &&& t.well_typed(sig)
            &&& t.result_type(sig) == typ
            &&& t.refers_within(Set::<u64>::empty())
            &&& t.size() + rest.len() == rolls.len()
        },
    decreases depth, 0nat,
{
    let options = producers(sig, typ, sig.len());
    if depth == 0 || rolls.len() == 0 || options.len() == 0 {
    } else {
        let pick = (rolls[0] as int) % (options.len() as int);
        let symbol = options[pick];
        lemma_producers(sig, typ, sig.len(), pick);
        let inputs = sig[symbol as int].inputs;
        lemma_generated_children(sig, inputs, inputs.len(), (depth - 1) as nat, rolls.skip(1));
        match generated_children(sig, inputs, inputs.len(), (depth - 1) as nat, rolls.skip(1)) {
            Some((children, rest)) => {
                let t = TermView::Application { symbol, args: children };
                assert(t.root_fits(sig));
                assert(t.well_typed(sig));
            },
            None => {},
        }
    }
}

/// Generated children are well-typed terms of the types asked for. They hold
/// no variable, and they have as many nodes as rolls were used.
pub proof fn lemma_generated_children(
    sig: Seq<SymbolView>,
    inputs: Seq<TypeShape>,
    n: nat,
    depth: nat,
    rolls: Seq<u64>,
)
    requires
        sig.len() <= usize::MAX,
        n <= inputs.len(),
    ensures
        generated_children(sig, inputs, n, depth, rolls) matches Some((children, rest)) ==> {
            &&& children.len() == n
            &&& forall|i: int|
                0 <= i < n ==> {
                    &&& (#[trigger] children[i]).well_typed(sig)
                    &&& children[i].root_known(sig)
                    &&& children[i].result_type(sig) == inputs[i]
                    &&& children[i].refers_within(Set::<u64>::empty())
                }
            &&& TermView::size_of_first(children, n) + rest.len() == rolls.len()
        },
    decreases depth, n,
{
    if n > 0 {
        lemma_generated_children(sig, inputs, (n - 1) as nat, depth, rolls);
        match generated_children(sig, inputs, (n - 1) as nat, depth, rolls) {
            None => {},
            Some((before, rest)) => {
                lemma_generated(sig, inputs[n - 1], depth, rest);
                match generated(sig, inputs[n - 1], depth, rest) {
                    None => {},
                    Some((child, left)) => {
                        let children = before.push(child);
                        lemma_size_of_first_push(before, child);
                    },
                }
            },
        }
    }
}

/// The nodes of a sequence of terms with one more term.
pub proof fn lemma_size_of_first_push(terms: Seq<TermView>, added: TermView)
    ensures
        TermView::size_of_first(terms.push(added), terms.len() + 1) == TermView::size_of_first(
            terms,
            terms.len(),
        ) + added.size(),
{
    lemma_size_of_first_same(terms, terms.push(added), terms.len());
}

/// The nodes of the first `n` terms depend on those terms alone.
pub proof fn lemma_size_of_first_same(a: Seq<TermView>, b: Seq<TermView>, n: nat)
    requires
        n <= a.len(),
        n <= b.len(),
        forall|i: int| 0 <= i < n ==> a[i] == b[i],
    ensures
        TermView::size_of_first(a, n) == TermView::size_of_first(b, n),
    decreases n,
{
    if n > 0 {
        lemma_size_of_first_same(a, b, (n - 1) as nat);
    }
}

impl Signature {
    /// The positions of the symbols that give a value of type `typ`, in
    /// order.
    pub fn producers(&self, typ: TypeShape) -> (r: Vec<usize>)
        ensures
            r@ == producers(self@, typ, self@.len()),
    {
        let mut r: Vec<usize> = Vec::new();
        let mut i: usize = 0;
        while i < self.functions.len()
            invariant
                i <= self.functions.len(),
                self@.len() == self.functions@.len(),
                r@ == producers(self@, typ, i as nat),
            decreases self.functions.len() - i,
        {
            if self.functions[i].output == typ {
                r.push(i);
            }
            i += 1;
        }
        r
    }
}

/// Generates the term that the rolls from position `at` lead to. Returns the
/// term and the position of the first roll that is left.
fn generate_from(sig: &Signature, typ: TypeShape, depth: usize, rolls: &Vec<u64>, at: usize) -> (r:
    Option<(Term, usize)>)
    requires
        at <= rolls.len(),
    ensures
        r is Some <==> generated(sig@, typ, depth as nat, rolls@.skip(at as int)) is Some,
        r matches Some((t, next)) ==> at <= next <= rolls.len() && generated(
            sig@,
            typ,
            depth as nat,
            rolls@.skip(at as int),
        ) == Some((t@, rolls@.skip(next as int))),
    decreases depth,
{
    let options = sig.producers(typ);
    if depth == 0 || at >= rolls.len() || options.len() == 0 {
        return None;
    }
    let pick = (rolls[at] % (options.len() as u64)) as usize;
    let symbol = options[pick];
    proof {
        assert(sig.functions.len() <= usize::MAX);
        assert(sig@.len() == sig.functions@.len());
        lemma_producers(sig@, typ, sig@.len(), pick as int);
        assert(rolls@.skip(at as int)[0] == rolls@[at as int]);
        assert(rolls@.skip(at as int).skip(1) =~= rolls@.skip(at + 1));
    }
    let inputs = &sig.functions[symbol].inputs;
    let ghost wanted = sig@[symbol as int].inputs;
    let ghost start = rolls@.skip(at + 1);
    let mut children: Vec<Term> = Vec::new();
    let mut next: usize = at + 1;
    let mut i: usize = 0;
    assert(term_views(children@) =~= Seq::<TermView>::empty());
    while i < inputs.len()
        invariant
            i <= inputs.len(),
            wanted == inputs@,
            wanted == sig@[symbol as int].inputs,
            start == rolls@.skip(at + 1),
            start == rolls@.skip(at as int).skip(1),
            rolls@.skip(at as int).len() > 0,
            options@ == producers(sig@, typ, sig@.len()),
            options@.len() > 0,
            symbol == options@[(rolls@.skip(at as int)[0] as int) % (options@.len() as int)],
            at < next <= rolls.len(),
            depth > 0,
            generated_children(sig@, wanted, i as nat, (depth - 1) as nat, start) == Some(
                (term_views(children@), rolls@.skip(next as int)),
            ),
        decreases inputs.len() - i,
    {
        match generate_from(sig, inputs[i], depth - 1, rolls, next) {
            None => {
                proof {
                    lemma_generated_children_fail(
                        sig@,
                        wanted,
                        (i + 1) as nat,
                        wanted.len(),
                        (depth - 1) as nat,
                        start,
                    );
                }
                return None;
            },
            Some((child, after)) => {
                let ghost before = term_views(children@);
                let ghost added = child@;
                children.push(child);
                assert(term_views(children@) =~= before.push(added));
                next = after;
            },
        }
        i += 1;
    }
    Some((Term::apply(symbol, children), next))
}

/// Where no terms of the first `n` types can be generated, none can be of
/// more types.
pub proof fn lemma_generated_children_fail(
    sig: Seq<SymbolView>,
    inputs: Seq<TypeShape>,
    n: nat,
    m: nat,
    depth: nat,
    rolls: Seq<u64>,
)
    requires
        n <= m <= inputs.len(),
        generated_children(sig, inputs, n, depth, rolls) is None,
    ensures
        generated_children(sig, inputs, m, depth, rolls) is None,
    decreases m,
{
    if n < m {
        lemma_generated_children_fail(sig, inputs, n, (m - 1) as nat, depth, rolls);
    }
}

/// The generate operator: the term of type `typ`, no deeper than `depth`,
/// that the rolls lead to. It has no more nodes than there are rolls.
pub fn generate(sig: &Signature, typ: TypeShape, depth: usize, rolls: &Vec<u64>) -> (r: Option<
    Term,
>)
    ensures
        r is Some <==> generated(sig@, typ, depth as nat, rolls@) is Some,
        r matches Some(t) ==> {
            &&& t@ == generated(sig@, typ, depth as nat, rolls@).unwrap().0
            &&& t@.well_typed(sig@)
            &&& t@.result_type(sig@) == typ
            &&& t@.refers_within(Set::<u64>::empty())
            &&& t@.size() <= rolls@.len()
        },
{
    proof {
        assert(rolls@.skip(0) =~= rolls@);
        assert(sig.functions.len() <= usize::MAX);
        assert(sig@.len() == sig.functions@.len());
        lemma_generated(sig@, typ, depth as nat, rolls@);
    }
    match generate_from(sig, typ, depth, rolls, 0) {
        None => None,
        Some((t, _)) => Some(t),
    }
}

} // verus!
