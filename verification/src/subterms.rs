//! The subterms of a term: how a path names one, and what replacing one
//! keeps.

use crate::algebra::{term_views, Signature, SymbolView, Term, TermView};
use vstd::prelude::*;

verus! {

impl TermView {
    /// The subterm that `path` leads to: each entry of the path picks a child.
    pub open spec fn subterm(self, path: Seq<usize>) -> Option<TermView>
        decreases path.len(),
    {
        if path.len() == 0 {
            Some(self)
        } else {
            match self {
                TermView::Variable { .. } => None,
                TermView::Application { args, .. } => if path[0] < args.len() {
                    args[path[0] as int].subterm(path.skip(1))
                } else {
                    None
                },
            }
        }
    }

    /// The term with `new` in place of the subterm that `path` leads to. A
    /// path that leads nowhere changes nothing.
    pub open spec fn replace(self, path: Seq<usize>, new: TermView) -> TermView
        decreases path.len(),
    {
        if path.len() == 0 {
            new
        } else {
            match self {
                TermView::Variable { .. } => self,
                TermView::Application { symbol, args } => if path[0] < args.len() {
                    TermView::Application {
                        symbol,
                        args: args.update(
                            path[0] as int,
                            args[path[0] as int].replace(path.skip(1), new),
                        ),
                    }
                } else {
                    self
                },
            }
        }
    }
}

impl TermView {
    /// The paths to the subterms of the term: the empty path to the term
    /// itself, then the paths into each child, child by child.
    pub open spec fn paths(self) -> Seq<Seq<usize>>
        decreases self, 0nat,
    {
        match self {
            TermView::Variable { .. } => seq![Seq::empty()],
            TermView::Application { args, .. } => seq![Seq::empty()] + Self::paths_of_first(
                args,
                args.len(),
            ),
        }
    }

    /// The paths into the first `n` terms of `args`, each path headed by the
    /// position of the term that it leads into.
    pub open spec fn paths_of_first(args: Seq<TermView>, n: nat) -> Seq<Seq<usize>>
        decreases args, n,
    {
        if n == 0 || n > args.len() {
            Seq::empty()
        } else {
            Self::paths_of_first(args, (n - 1) as nat) + headed(
                (n - 1) as usize,
                args[n - 1].paths(),
            )
        }
    }
}

/// The paths, each headed by `head`.
pub open spec fn headed(head: usize, paths: Seq<Seq<usize>>) -> Seq<Seq<usize>> {
    paths.map_values(|p: Seq<usize>| seq![head] + p)
}

/// The paths, each behind `prefix`.
pub open spec fn prefixed(prefix: Seq<usize>, paths: Seq<Seq<usize>>) -> Seq<Seq<usize>> {
    paths.map_values(|p: Seq<usize>| prefix + p)
}

/// The paths that the vectors hold.
pub open spec fn path_views(paths: Seq<Vec<usize>>) -> Seq<Seq<usize>> {
    paths.map_values(|p: Vec<usize>| p@)
}

impl TermView {
    /// No node of the term has more children than a machine can count.
    pub open spec fn representable(self) -> bool
        decreases self,
    {
        match self {
            TermView::Variable { .. } => true,
            TermView::Application { args, .. } => {
                &&& args.len() <= usize::MAX
                &&& forall|i: int| 0 <= i < args.len() ==> (#[trigger] args[i]).representable()
            },
        }
    }
}

impl Term {
    /// The model of a term in memory is representable.
    pub proof fn lemma_representable(&self)
        ensures
            self@.representable(),
        decreases self,
    {
        self.lemma_view_children();
        match self {
            Term::Variable { .. } => {},
            Term::Application { symbol, args } => {
                let a = self@->args;
                assert forall|i: int| 0 <= i < a.len() implies (
                #[trigger] a[i]).representable() by {
                    args@[i].lemma_representable();
                }
                assert(args.len() <= usize::MAX);
            },
        }
    }
}

/// Every path of a term leads to a subterm of it.
pub proof fn lemma_paths_lead_to_subterms(t: TermView, k: int)
    requires
        t.representable(),
        0 <= k < t.paths().len(),
    ensures
        t.subterm(t.paths()[k]) is Some,
    decreases t, 0nat,
{
    match t {
        TermView::Variable { .. } => {},
        TermView::Application { args, .. } => {
            if k > 0 {
                lemma_paths_of_first_lead_to_subterms(args, args.len(), k - 1);
                let p = TermView::paths_of_first(args, args.len())[k - 1];
                assert(t.paths()[k] == p);
            }
        },
    }
}

/// Every path into one of the first `n` terms of `args` is headed by the
/// position of a term and leads on to a subterm of that term.
pub proof fn lemma_paths_of_first_lead_to_subterms(args: Seq<TermView>, n: nat, k: int)
    requires
        n <= args.len() <= usize::MAX,
        forall|i: int| 0 <= i < args.len() ==> (#[trigger] args[i]).representable(),
        0 <= k < TermView::paths_of_first(args, n).len(),
    ensures
        ({
            let p = TermView::paths_of_first(args, n)[k];
            &&& p.len() > 0
            &&& p[0] < n
            &&& args[p[0] as int].subterm(p.skip(1)) is Some
        }),
    decreases args, n,
{
    let before = TermView::paths_of_first(args, (n - 1) as nat);
    if k < before.len() {
        lemma_paths_of_first_lead_to_subterms(args, (n - 1) as nat, k);
    } else {
        let j = k - before.len();
        let inner = args[n - 1].paths();
        lemma_paths_lead_to_subterms(args[n - 1], j);
        let p = TermView::paths_of_first(args, n)[k];
        assert(p == seq![(n - 1) as usize] + inner[j]);
        assert(p.skip(1) =~= inner[j]);
    }
}

/// A term has as many paths as it has nodes.
pub proof fn lemma_paths_count(t: TermView)
    ensures
        t.paths().len() == t.size(),
    decreases t, 0nat,
{
    match t {
        TermView::Variable { .. } => {},
        TermView::Application { args, .. } => {
            lemma_paths_of_first_count(args, args.len());
        },
    }
}

/// The first `n` terms of `args` have as many paths as they have nodes.
pub proof fn lemma_paths_of_first_count(args: Seq<TermView>, n: nat)
    requires
        n <= args.len(),
    ensures
        TermView::paths_of_first(args, n).len() == TermView::size_of_first(args, n),
    decreases args, n,
{
    if n > 0 {
        lemma_paths_of_first_count(args, (n - 1) as nat);
        lemma_paths_count(args[n - 1]);
    }
}

/// Replacing a subterm of a well-typed term by a well-typed term of the same
/// type gives a well-typed term of the type of the whole.
pub proof fn lemma_replace_well_typed(
    t: TermView,
    path: Seq<usize>,
    new: TermView,
    sig: Seq<SymbolView>,
)
    requires
        t.well_typed(sig),
        t.subterm(path) is Some,
        new.well_typed(sig),
        new.result_type(sig) == t.subterm(path).unwrap().result_type(sig),
    ensures
        t.replace(path, new).well_typed(sig),
        t.replace(path, new).result_type(sig) == t.result_type(sig),
    decreases path.len(),
{
    if path.len() > 0 {
        let i = path[0] as int;
        let args = t->args;
        let child = args[i].replace(path.skip(1), new);
        lemma_replace_well_typed(args[i], path.skip(1), new, sig);
        let after = t.replace(path, new);
        assert(after->args == args.update(i, child));
        assert forall|k: int| 0 <= k < after->args.len() implies {
            &&& (#[trigger] after->args[k]).well_typed(sig)
            &&& after->args[k].root_known(sig)
            &&& after->args[k].result_type(sig) == sig[t->symbol as int].inputs[k]
        } by {
            if k != i {
                assert(after->args[k] == args[k]);
            }
            assert(args[k].well_typed(sig));
            assert(args[k].root_known(sig));
        }
        assert(after.root_fits(sig));
    }
}

/// Replacing a subterm by a term that names only steps of a set, in a term
/// that names only steps of the set, gives such a term.
pub proof fn lemma_replace_refers_within(
    t: TermView,
    path: Seq<usize>,
    new: TermView,
    available: Set<u64>,
)
    requires
        t.refers_within(available),
        new.refers_within(available),
    ensures
        t.replace(path, new).refers_within(available),
    decreases path.len(),
{
    if path.len() > 0 {
        match t {
            TermView::Variable { .. } => {},
            TermView::Application { symbol, args } => {
                if path[0] < args.len() {
                    let i = path[0] as int;
                    lemma_replace_refers_within(args[i], path.skip(1), new, available);
                    let after = t.replace(path, new);
                    assert forall|k: int| 0 <= k < after->args.len() implies (
                    #[trigger] after->args[k]).refers_within(available) by {
                        if k != i {
                            assert(after->args[k] == args[k]);
                        }
                        assert(args[k].refers_within(available));
                    }
                }
            },
        }
    }
}

/// A copy of `path`.
pub fn copy_path(path: &Vec<usize>) -> (r: Vec<usize>)
    ensures
        r@ == path@,
{
    let mut r: Vec<usize> = Vec::new();
    let mut i: usize = 0;
    while i < path.len()
        invariant
            i <= path.len(),
            r@ == path@.take(i as int),
        decreases path.len() - i,
    {
        r.push(path[i]);
        assert(path@.take(i + 1) =~= path@.take(i as int).push(path@[i as int]));
        i += 1;
    }
    assert(path@.take(path.len() as int) =~= path@);
    r
}

impl Term {
    /// The subterm that `path` leads to.
    pub fn subterm(&self, path: &Vec<usize>) -> (r: Option<&Term>)
        ensures
            r is Some <==> self@.subterm(path@) is Some,
            r matches Some(t) ==> self@.subterm(path@) == Some(t@),
    {
        let mut current: &Term = self;
        let mut k: usize = 0;
        assert(path@.skip(0) =~= path@);
        while k < path.len()
            invariant
                k <= path.len(),
                self@.subterm(path@) == current@.subterm(path@.skip(k as int)),
            decreases path.len() - k,
        {
            proof {
                current.lemma_view_children();
                assert(path@.skip(k as int).skip(1) =~= path@.skip(k + 1));
            }
            match current {
                Term::Variable { .. } => {
                    return None;
                },
                Term::Application { args, .. } => {
                    if path[k] >= args.len() {
                        return None;
                    }
                    current = &args[path[k]];
                },
            }
            k += 1;
        }
        assert(path@.skip(path@.len() as int).len() == 0);
        Some(current)
    }

    /// Appends to `out` the paths to the subterms of the term, each behind
    /// `prefix`.
    fn collect_paths(&self, prefix: &Vec<usize>, out: &mut Vec<Vec<usize>>)
        ensures
            path_views(final(out)@) == path_views(old(out)@) + prefixed(prefix@, self@.paths()),
        decreases self,
    {
        proof {
            self.lemma_view_children();
        }
        let ghost start = path_views(out@);
        out.push(copy_path(prefix));
        assert(path_views(out@) =~= start.push(prefix@));
        match self {
            Term::Variable { .. } => {
                assert(prefixed(prefix@, self@.paths()) =~= seq![prefix@]) by {
                    assert(prefix@ + Seq::<usize>::empty() =~= prefix@);
                }
                assert(path_views(out@) =~= start + prefixed(prefix@, self@.paths()));
            },
            Term::Application { symbol, args } => {
                let ghost a = self@->args;
                let mut i: usize = 0;
                assert(prefix@ + Seq::<usize>::empty() =~= prefix@);
                assert(path_views(out@) =~= start + seq![prefix@] + prefixed(
                    prefix@,
                    TermView::paths_of_first(a, 0),
                ));
                while i < args.len()
                    invariant
                        i <= args.len(),
                        self matches Term::Application { args: own, .. } && own == args,
                        a.len() == args@.len(),
                        forall|k: int| 0 <= k < args@.len() ==> #[trigger] a[k] == args@[k]@,
                        path_views(out@) == start + seq![prefix@] + prefixed(
                            prefix@,
                            TermView::paths_of_first(a, i as nat),
                        ),
                    decreases args.len() - i,
                {
                    let mut longer = copy_path(prefix);
                    longer.push(i);
                    let ghost before = path_views(out@);
                    args[i].collect_paths(&longer, out);
                    proof {
                        let inner = a[i as int].paths();
                        assert(prefixed(longer@, inner) =~= prefixed(
                            prefix@,
                            headed(i, inner),
                        )) by {
                            assert forall|k: int| 0 <= k < inner.len() implies longer@ + inner[k]
                                == prefix@ + (seq![i] + inner[k]) by {
                                assert(longer@ + inner[k] =~= prefix@ + (seq![i] + inner[k]));
                            }
                        }
                        assert(prefixed(prefix@, TermView::paths_of_first(a, (i + 1) as nat))
                            =~= prefixed(prefix@, TermView::paths_of_first(a, i as nat))
                            + prefixed(prefix@, headed(i, inner)));
                        assert(path_views(out@) =~= start + seq![prefix@] + prefixed(
                            prefix@,
                            TermView::paths_of_first(a, (i + 1) as nat),
                        ));
                    }
                    i += 1;
                }
                assert(prefixed(prefix@, self@.paths()) =~= seq![prefix@] + prefixed(
                    prefix@,
                    TermView::paths_of_first(a, a.len()),
                ));
                assert(path_views(out@) =~= start + prefixed(prefix@, self@.paths()));
            },
        }
    }

    /// The paths to the subterms of the term.
    pub fn paths(&self) -> (r: Vec<Vec<usize>>)
        ensures
            path_views(r@) == self@.paths(),
    {
        let mut out: Vec<Vec<usize>> = Vec::new();
        let prefix: Vec<usize> = Vec::new();
        self.collect_paths(&prefix, &mut out);
        proof {
            assert(path_views(Seq::<Vec<usize>>::empty()) =~= Seq::<Seq<usize>>::empty());
            assert(prefixed(prefix@, self@.paths()) =~= self@.paths()) by {
                assert forall|k: int| 0 <= k < self@.paths().len() implies prefix@
                    + self@.paths()[k] == self@.paths()[k] by {
                    assert(prefix@ + self@.paths()[k] =~= self@.paths()[k]);
                }
            }
            assert(path_views(out@) =~= self@.paths());
        }
        out
    }

    /// The term with `new` in place of the subterm that the rest of `path`
    /// from position `from` leads to.
    fn replaced_from(&self, path: &Vec<usize>, from: usize, new: &Term) -> (r: Term)
        requires
            from <= path.len(),
        ensures
            r@ == self@.replace(path@.skip(from as int), new@),
        decreases path.len() - from,
    {
        proof {
            self.lemma_view_children();
        }
        if from == path.len() {
            return new.duplicate();
        }
        assert(path@.skip(from as int).skip(1) =~= path@.skip(from + 1));
        match self {
            Term::Variable { .. } => self.duplicate(),
            Term::Application { symbol, args } => {
                let target = path[from];
                if target >= args.len() {
                    return self.duplicate();
                }
                let ghost a = self@->args;
                let ghost child = a[target as int].replace(path@.skip(from + 1), new@);
                let mut children: Vec<Term> = Vec::new();
                let mut i: usize = 0;
                while i < args.len()
                    invariant
                        i <= args.len(),
                        from < path.len(),
                        target == path[from as int],
                        target < args.len(),
                        self matches Term::Application { args: own, .. } && own == args,
                        a.len() == args@.len(),
                        forall|k: int| 0 <= k < args@.len() ==> #[trigger] a[k] == args@[k]@,
                        child == a[target as int].replace(path@.skip(from + 1), new@),
                        children@.len() == i,
                        forall|k: int|
                            0 <= k < i ==> (#[trigger] children@[k])@ == a.update(
                                target as int,
                                child,
                            )[k],
                    decreases args.len() - i,
                {
                    if i == target {
                        children.push(args[i].replaced_from(path, from + 1, new));
                    } else {
                        children.push(args[i].duplicate());
                    }
                    i += 1;
                }
                assert(term_views(children@) =~= a.update(target as int, child));
                Term::apply(*symbol, children)
            },
        }
    }

    /// The term with `new` in place of the subterm that `path` leads to. A
    /// path that leads nowhere changes nothing.
    pub fn replaced(&self, path: &Vec<usize>, new: &Term) -> (r: Term)
        ensures
            r@ == self@.replace(path@, new@),
    {
        assert(path@.skip(0) =~= path@);
        self.replaced_from(path, 0, new)
    }
}

} // verus!
