//! Building the terms of TLS: each constructor applies a function symbol of
//! the catalog to children of the symbol's input types.

use crate::algebra::{Term, TermView, TypeShape};
use crate::tls::signature::{tls_symbol, tls_symbols, TLS_SYMBOL_COUNT};
use vstd::prelude::*;

verus! {

/// The children are well-typed terms of TLS of the input types of `symbol`.
pub open spec fn fits(symbol: usize, args: Seq<TermView>) -> bool {
    &&& symbol < TLS_SYMBOL_COUNT
    &&& args.len() == tls_symbol(symbol as int).inputs.len()
    &&& forall|i: int|
        0 <= i < args.len() ==> {
            &&& (#[trigger] args[i]).well_typed(tls_symbols())
            &&& args[i].result_type(tls_symbols()) == tls_symbol(symbol as int).inputs[i]
        }
}

/// A symbol of TLS applied to children of its input types is a well-typed
/// term of the symbol's output type, and names no step but those that a child
/// names.
pub proof fn lemma_application(symbol: usize, args: Seq<TermView>)
    requires
        fits(symbol, args),
    ensures
        (TermView::Application { symbol, args }).well_typed(tls_symbols()),
        (TermView::Application { symbol, args }).result_type(tls_symbols()) == tls_symbol(
            symbol as int,
        ).output,
        forall|s: Set<u64>|
            (forall|i: int| 0 <= i < args.len() ==> (#[trigger] args[i]).refers_within(s)) ==> (
            #[trigger] (TermView::Application { symbol, args }).refers_within(s)),
{
    let t = TermView::Application { symbol, args };
    assert(t.root_fits(tls_symbols()));
}

/// The term that names the value at position `index` among those that step
/// `step` has produced, at type `typ`.
pub open spec fn variable(step: u64, index: u64, typ: TypeShape) -> TermView {
    TermView::Variable { step, index, typ }
}

/// The term that applies `symbol` to `args`.
pub open spec fn apply(symbol: usize, args: Seq<TermView>) -> TermView {
    TermView::Application { symbol, args }
}

/// The variable `(step, index)` of type `typ`.
pub fn var(step: u64, index: u64, typ: TypeShape) -> (t: Term)
    ensures
        t@ == variable(step, index, typ),
        t@.well_typed(tls_symbols()),
        t@.result_type(tls_symbols()) == typ,
        forall|s: Set<u64>| s.contains(step) ==> #[trigger] t@.refers_within(s),
{
    Term::variable(step, index, typ)
}

/// The constant `symbol`.
pub fn app0(symbol: usize) -> (t: Term)
    requires
        fits(symbol, Seq::empty()),
    ensures
        t@ == apply(symbol, Seq::empty()),
        t@.well_typed(tls_symbols()),
        t@.result_type(tls_symbols()) == tls_symbol(symbol as int).output,
        forall|s: Set<u64>| #[trigger] t@.refers_within(s),
{
    let t = Term::apply(symbol, Vec::new());
    proof {
        assert(t@->args =~= Seq::empty());
        lemma_application(symbol, Seq::empty());
    }
    t
}

/// The symbol applied to one child.
pub fn app1(symbol: usize, a: Term) -> (t: Term)
    requires
        fits(symbol, seq![a@]),
    ensures
        t@ == apply(symbol, seq![a@]),
        t@.well_typed(tls_symbols()),
        t@.result_type(tls_symbols()) == tls_symbol(symbol as int).output,
        forall|s: Set<u64>|
            a@.refers_within(s) ==> #[trigger] t@.refers_within(s),
{
    let ghost args = seq![a@];
    let t = Term::apply(symbol, vec![a]);
    proof {
        assert(t@->args =~= args);
        lemma_application(symbol, args);
    }
    t
}

/// The symbol applied to two children.
pub fn app2(symbol: usize, a: Term, b: Term) -> (t: Term)
    requires
        fits(symbol, seq![a@, b@]),
    ensures
        t@ == apply(symbol, seq![a@, b@]),
        t@.well_typed(tls_symbols()),
        t@.result_type(tls_symbols()) == tls_symbol(symbol as int).output,
        forall|s: Set<u64>|
            a@.refers_within(s) && b@.refers_within(s) ==> #[trigger] t@.refers_within(s),
{
    let ghost args = seq![a@, b@];
    let t = Term::apply(symbol, vec![a, b]);
    proof {
        assert(t@->args =~= args);
        lemma_application(symbol, args);
    }
    t
}

/// The symbol applied to three children.
pub fn app3(symbol: usize, a: Term, b: Term, c: Term) -> (t: Term)
    requires
        fits(symbol, seq![a@, b@, c@]),
    ensures
        t@ == apply(symbol, seq![a@, b@, c@]),
        t@.well_typed(tls_symbols()),
        t@.result_type(tls_symbols()) == tls_symbol(symbol as int).output,
        forall|s: Set<u64>|
            a@.refers_within(s)
            && b@.refers_within(s)
            && c@.refers_within(s) ==> #[trigger] t@.refers_within(s),
{
    let ghost args = seq![a@, b@, c@];
    let t = Term::apply(symbol, vec![a, b, c]);
    proof {
        assert(t@->args =~= args);
        lemma_application(symbol, args);
    }
    t
}

/// The symbol applied to four children.
pub fn app4(symbol: usize, a: Term, b: Term, c: Term, d: Term) -> (t: Term)
    requires
        fits(symbol, seq![a@, b@, c@, d@]),
    ensures
        t@ == apply(symbol, seq![a@, b@, c@, d@]),
        t@.well_typed(tls_symbols()),
        t@.result_type(tls_symbols()) == tls_symbol(symbol as int).output,
        forall|s: Set<u64>|
            a@.refers_within(s)
            && b@.refers_within(s)
            && c@.refers_within(s)
            && d@.refers_within(s) ==> #[trigger] t@.refers_within(s),
{
    let ghost args = seq![a@, b@, c@, d@];
    let t = Term::apply(symbol, vec![a, b, c, d]);
    proof {
        assert(t@->args =~= args);
        lemma_application(symbol, args);
    }
    t
}

/// The symbol applied to five children.
pub fn app5(symbol: usize, a: Term, b: Term, c: Term, d: Term, e: Term) -> (t: Term)
    requires
        fits(symbol, seq![a@, b@, c@, d@, e@]),
    ensures
        t@ == apply(symbol, seq![a@, b@, c@, d@, e@]),
        t@.well_typed(tls_symbols()),
        t@.result_type(tls_symbols()) == tls_symbol(symbol as int).output,
        forall|s: Set<u64>|
            a@.refers_within(s)
            && b@.refers_within(s)
            && c@.refers_within(s)
            && d@.refers_within(s)
            && e@.refers_within(s) ==> #[trigger] t@.refers_within(s),
{
    let ghost args = seq![a@, b@, c@, d@, e@];
    let t = Term::apply(symbol, vec![a, b, c, d, e]);
    proof {
        assert(t@->args =~= args);
        lemma_application(symbol, args);
    }
    t
}

/// The symbol applied to six children.
pub fn app6(symbol: usize, a: Term, b: Term, c: Term, d: Term, e: Term, f: Term) -> (t: Term)
    requires
        fits(symbol, seq![a@, b@, c@, d@, e@, f@]),
    ensures
        t@ == apply(symbol, seq![a@, b@, c@, d@, e@, f@]),
        t@.well_typed(tls_symbols()),
        t@.result_type(tls_symbols()) == tls_symbol(symbol as int).output,
        forall|s: Set<u64>|
            a@.refers_within(s)
            && b@.refers_within(s)
            && c@.refers_within(s)
            && d@.refers_within(s)
            && e@.refers_within(s)
            && f@.refers_within(s) ==> #[trigger] t@.refers_within(s),
{
    let ghost args = seq![a@, b@, c@, d@, e@, f@];
    let t = Term::apply(symbol, vec![a, b, c, d, e, f]);
    proof {
        assert(t@->args =~= args);
        lemma_application(symbol, args);
    }
    t
}

} // verus!
