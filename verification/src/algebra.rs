//! The typed term algebra: type shapes, function symbols, signatures and terms.

use vstd::prelude::*;

verus! {

/// The identity of a type of the algebra.
///
/// A collection shape asks a knowledge lookup for every match instead of the
/// first one.
#[derive(Clone, Copy, Debug, PartialEq, Eq, Structural)]
pub struct TypeShape {
    pub id: u32,
    pub collection: bool,
}

impl TypeShape {
    /// The shape of a single value of the type `id`.
    pub open spec fn single_shape(id: u32) -> TypeShape {
        TypeShape { id, collection: false }
    }

    /// The shape of a collection of values of the type `id`.
    pub open spec fn many_shape(id: u32) -> TypeShape {
        TypeShape { id, collection: true }
    }

    /// The shape of a single value of the type `id`.
    #[verifier::when_used_as_spec(single_shape)]
    pub fn single(id: u32) -> (shape: TypeShape)
        ensures
            shape == Self::single_shape(id),
    {
        TypeShape { id, collection: false }
    }

    /// The shape of a collection of values of the type `id`.
    #[verifier::when_used_as_spec(many_shape)]
    pub fn many(id: u32) -> (shape: TypeShape)
        ensures
            shape == Self::many_shape(id),
    {
        TypeShape { id, collection: true }
    }
}

/// A typed function symbol.
pub struct Symbol {
    pub name: String,
    pub inputs: Vec<TypeShape>,
    pub output: TypeShape,
}

/// The mathematical model of a [`Symbol`].
pub struct SymbolView {
    pub name: Seq<char>,
    pub inputs: Seq<TypeShape>,
    pub output: TypeShape,
}

impl View for Symbol {
    type V = SymbolView;

    open spec fn view(&self) -> SymbolView {
        SymbolView { name: self.name@, inputs: self.inputs@, output: self.output }
    }
}

/// The catalog of function symbols of one protocol. A term names a symbol by
/// its position in the catalog.
pub struct Signature {
    pub functions: Vec<Symbol>,
}

impl View for Signature {
    type V = Seq<SymbolView>;

    open spec fn view(&self) -> Seq<SymbolView> {
        self.functions@.map_values(|f: Symbol| f@)
    }
}

/// The positions, among the first `n` symbols, of the constants: the symbols
/// without inputs.
pub open spec fn constants_of(sig: Seq<SymbolView>, n: nat) -> Seq<usize>
    decreases n,
{
    if n == 0 || n > sig.len() {
        Seq::empty()
    } else {
        let before = constants_of(sig, (n - 1) as nat);
        if sig[n - 1].inputs.len() == 0 {
            before.push((n - 1) as usize)
        } else {
            before
        }
    }
}

/// The position of the first symbol at or after `from` that has the name.
pub open spec fn position_of(sig: Seq<SymbolView>, name: Seq<char>, from: int) -> Option<usize>
    decreases sig.len() - from,
{
    if from < 0 || from >= sig.len() {
        None
    } else if sig[from].name == name {
        Some(from as usize)
    } else {
        position_of(sig, name, from + 1)
    }
}

/// A search for a symbol may start behind the symbols of other names.
pub proof fn lemma_position_of_skips(sig: Seq<SymbolView>, name: Seq<char>, from: int)
    requires
        0 <= from <= sig.len(),
        forall|j: int| 0 <= j < from ==> (#[trigger] sig[j]).name != name,
    ensures
        position_of(sig, name, 0) == position_of(sig, name, from),
    decreases from,
{
    if from > 0 {
        lemma_position_of_skips(sig, name, from - 1);
    }
}

impl Signature {
    /// The positions of the constants of the signature, in order.
    pub fn constants(&self) -> (r: Vec<usize>)
        ensures
            r@ == constants_of(self@, self@.len()),
    {
        let mut r: Vec<usize> = Vec::new();
        let mut i: usize = 0;
        while i < self.functions.len()
            invariant
                i <= self.functions.len(),
                self@.len() == self.functions@.len(),
                r@ == constants_of(self@, i as nat),
            decreases self.functions.len() - i,
        {
            if self.functions[i].inputs.len() == 0 {
                r.push(i);
            }
            i += 1;
        }
        r
    }

    /// The position of the first symbol of the given name.
    pub fn find(&self, name: &String) -> (r: Option<usize>)
        ensures
            r == position_of(self@, name@, 0),
    {
        let mut i: usize = 0;
        while i < self.functions.len()
            invariant
                i <= self.functions.len(),
                self@.len() == self.functions@.len(),
                forall|j: int| 0 <= j < i ==> (#[trigger] self@[j]).name != name@,
            decreases self.functions.len() - i,
        {
            if self.functions[i].name == *name {
                proof {
                    lemma_position_of_skips(self@, name@, i as int);
                }
                return Some(i);
            }
            i += 1;
        }
        proof {
            lemma_position_of_skips(self@, name@, self@.len() as int);
        }
        None
    }
}

/// The mathematical model of a [`Term`].
pub enum TermView {
    Variable { step: u64, index: u64, typ: TypeShape },
    Application { symbol: usize, args: Seq<TermView> },
}

/// A node of an expression tree: a reference to an observed value, or a
/// function symbol applied to child terms. Every child is owned by its parent.
pub enum Term {
    Variable { step: u64, index: u64, typ: TypeShape },
    Application { symbol: usize, args: Vec<Term> },
}

impl Term {
    /// The term as a mathematical value.
    pub open spec fn model(&self) -> TermView
        decreases self,
    {
        match self {
            Term::Variable { step, index, typ } => TermView::Variable {
                step: *step,
                index: *index,
                typ: *typ,
            },
            Term::Application { symbol, args } => TermView::Application {
                symbol: *symbol,
                args: Seq::new(
                    args@.len(),
                    |i: int|
                        if 0 <= i < args@.len() {
                            args@[i].model()
                        } else {
                            arbitrary()
                        },
                ),
            },
        }
    }
}

impl View for Term {
    type V = TermView;

    open spec fn view(&self) -> TermView {
        self.model()
    }
}

impl TermView {
    /// The type that the term evaluates to. Meaningful where the term's root
    /// symbol is in the signature.
    pub open spec fn result_type(self, sig: Seq<SymbolView>) -> TypeShape {
        match self {
            TermView::Variable { typ, .. } => typ,
            TermView::Application { symbol, .. } => sig[symbol as int].output,
        }
    }

    /// The root applies a symbol of the signature to as many children as the
    /// symbol has inputs, each of the input's type.
    pub open spec fn root_fits(self, sig: Seq<SymbolView>) -> bool {
        match self {
            TermView::Variable { .. } => true,
            TermView::Application { symbol, args } => {
                &&& (symbol as int) < sig.len()
                &&& args.len() == sig[symbol as int].inputs.len()
                &&& forall|i: int|
                    0 <= i < args.len() ==> {
                        &&& (#[trigger] args[i]).root_known(sig)
                        &&& args[i].result_type(sig) == sig[symbol as int].inputs[i]
                    }
            },
        }
    }

    /// The root is a variable or a symbol of the signature.
    pub open spec fn root_known(self, sig: Seq<SymbolView>) -> bool {
        match self {
            TermView::Variable { .. } => true,
            TermView::Application { symbol, .. } => (symbol as int) < sig.len(),
        }
    }

    /// Every node of the term fits the signature.
    pub open spec fn well_typed(self, sig: Seq<SymbolView>) -> bool
        decreases self,
    {
        match self {
            TermView::Variable { .. } => true,
            TermView::Application { symbol, args } => {
                &&& self.root_fits(sig)
                &&& forall|i: int| 0 <= i < args.len() ==> (#[trigger] args[i]).well_typed(sig)
            },
        }
    }

    /// The number of nodes of the term.
    pub open spec fn size(self) -> nat
        decreases self, 0nat,
    {
        match self {
            TermView::Variable { .. } => 1,
            TermView::Application { args, .. } => 1 + Self::size_of_first(args, args.len()),
        }
    }

    /// The number of nodes of the first `n` terms of `args`.
    pub open spec fn size_of_first(args: Seq<TermView>, n: nat) -> nat
        decreases args, n,
    {
        if n == 0 || n > args.len() {
            0
        } else {
            Self::size_of_first(args, (n - 1) as nat) + args[n - 1].size()
        }
    }

    /// The children of the term, none for a variable.
    pub open spec fn children(self) -> Seq<TermView> {
        match self {
            TermView::Variable { .. } => Seq::empty(),
            TermView::Application { args, .. } => args,
        }
    }
}

/// The mathematical models of the terms of a sequence.
pub open spec fn term_views(terms: Seq<Term>) -> Seq<TermView> {
    terms.map_values(|t: Term| t@)
}

/// More children have no fewer nodes.
pub proof fn lemma_size_of_first_grows(args: Seq<TermView>, n: nat, m: nat)
    requires
        n <= m <= args.len(),
    ensures
        TermView::size_of_first(args, n) <= TermView::size_of_first(args, m),
    decreases m,
{
    if n < m {
        lemma_size_of_first_grows(args, n, (m - 1) as nat);
    }
}

/// A term has at least one node.
pub proof fn lemma_size_positive(t: TermView)
    ensures
        t.size() >= 1,
{
}

impl Term {
    /// The children of the term, as the view has them.
    pub proof fn lemma_view_children(&self)
        ensures
            self matches Term::Application { symbol, args } ==> {
                &&& self@ matches TermView::Application { symbol: s, args: a }
                &&& s == *symbol
                &&& a.len() == args@.len()
                &&& forall|i: int| 0 <= i < args@.len() ==> #[trigger] a[i] == args@[i]@
            },
            self matches Term::Variable { step, index, typ } ==> self@ == (TermView::Variable {
                step: *step,
                index: *index,
                typ: *typ,
            }),
    {
        match self {
            Term::Variable { .. } => {},
            Term::Application { symbol, args } => {
                let a = self@->args;
                assert(a.len() == args@.len());
                assert forall|i: int| 0 <= i < args@.len() implies #[trigger] a[i]
                    == args@[i]@ by {}
            },
        }
    }

    /// The variable `(step, index)` of type `typ`.
    pub fn variable(step: u64, index: u64, typ: TypeShape) -> (t: Term)
        ensures
            t@ == (TermView::Variable { step, index, typ }),
    {
        Term::Variable { step, index, typ }
    }

    /// The symbol applied to `args`.
    pub fn apply(symbol: usize, args: Vec<Term>) -> (t: Term)
        ensures
            t@ == (TermView::Application { symbol, args: term_views(args@) }),
    {
        let t = Term::Application { symbol, args };
        proof {
            t.lemma_view_children();
            assert(t@->args =~= term_views(args@));
        }
        t
    }

    /// A copy of the term.
    pub fn duplicate(&self) -> (t: Term)
        ensures
            t@ == self@,
        decreases self,
    {
        proof {
            self.lemma_view_children();
        }
        match self {
            Term::Variable { step, index, typ } => Term::Variable {
                step: *step,
                index: *index,
                typ: *typ,
            },
            Term::Application { symbol, args } => {
                let ghost a = self@->args;
                let mut copies: Vec<Term> = Vec::new();
                let mut i: usize = 0;
                while i < args.len()
                    invariant
                        i <= args.len(),
                        self matches Term::Application { args: own, .. } && own == args,
                        a.len() == args@.len(),
                        forall|k: int| 0 <= k < args@.len() ==> #[trigger] a[k] == args@[k]@,
                        copies@.len() == i,
                        forall|k: int| 0 <= k < i ==> (#[trigger] copies@[k])@ == a[k],
                    decreases args.len() - i,
                {
                    copies.push(args[i].duplicate());
                    i += 1;
                }
                assert(term_views(copies@) =~= a);
                Term::apply(*symbol, copies)
            },
        }
    }

    /// The number of nodes of the term, where it is at most `limit`.
    pub fn size_within(&self, limit: usize) -> (r: Option<usize>)
        ensures
            r is Some <==> self@.size() <= limit,
            r matches Some(n) ==> n == self@.size(),
        decreases self,
    {
        proof {
            self.lemma_view_children();
        }
        if limit == 0 {
            proof {
                lemma_size_positive(self@);
            }
            return None;
        }
        match self {
            Term::Variable { .. } => Some(1),
            Term::Application { symbol, args } => {
                let ghost a = self@->args;
                let mut total: usize = 1;
                let mut i: usize = 0;
                while i < args.len()
                    invariant
                        i <= args.len(),
                        self matches Term::Application { args: own, .. } && own == args,
                        self@ == (TermView::Application { symbol: *symbol, args: a }),
                        a.len() == args@.len(),
                        forall|k: int| 0 <= k < args@.len() ==> #[trigger] a[k] == args@[k]@,
                        total == 1 + TermView::size_of_first(a, i as nat),
                        total <= limit,
                    decreases args.len() - i,
                {
                    match args[i].size_within(limit - total) {
                        None => {
                            proof {
                                lemma_size_of_first_grows(a, (i + 1) as nat, a.len());
                            }
                            return None;
                        },
                        Some(n) => {
                            total = total + n;
                        },
                    }
                    i += 1;
                }
                Some(total)
            },
        }
    }

    /// The type of the term, where its root is a variable or a symbol of the
    /// signature.
    pub fn result_type(&self, sig: &Signature) -> (r: Option<TypeShape>)
        ensures
            r is Some <==> self@.root_known(sig@),
            r matches Some(t) ==> t == self@.result_type(sig@),
    {
        proof {
            self.lemma_view_children();
        }
        match self {
            Term::Variable { typ, .. } => Some(*typ),
            Term::Application { symbol, .. } => {
                if *symbol < sig.functions.len() {
                    Some(sig.functions[*symbol].output)
                } else {
                    None
                }
            },
        }
    }

    /// Does the root fit the signature?
    pub fn root_fits(&self, sig: &Signature) -> (b: bool)
        ensures
            b == self@.root_fits(sig@),
    {
        proof {
            self.lemma_view_children();
        }
        match self {
            Term::Variable { .. } => true,
            Term::Application { symbol, args } => {
                if *symbol >= sig.functions.len() {
                    return false;
                }
                let function = &sig.functions[*symbol];
                if args.len() != function.inputs.len() {
                    return false;
                }
                let ghost a = self@->args;
                let mut i: usize = 0;
                while i < args.len()
                    invariant
                        i <= args.len(),
                        args.len() == function.inputs.len(),
                        (*symbol as int) < sig@.len(),
                        function@ == sig@[*symbol as int],
                        self@ == (TermView::Application { symbol: *symbol, args: a }),
                        a.len() == args@.len(),
                        forall|k: int| 0 <= k < args@.len() ==> #[trigger] a[k] == args@[k]@,
                        forall|k: int|
                            0 <= k < i ==> {
                                &&& (#[trigger] a[k]).root_known(sig@)
                                &&& a[k].result_type(sig@) == function.inputs@[k]
                            },
                    decreases args.len() - i,
                {
                    let fits = match args[i].result_type(sig) {
                        Some(t) => t == function.inputs[i],
                        None => false,
                    };
                    if !fits {
                        assert(!(a[i as int].root_known(sig@) && a[i as int].result_type(sig@)
                            == function.inputs@[i as int]));
                        return false;
                    }
                    i += 1;
                }
                true
            },
        }
    }

    /// Does every node fit the signature?
    pub fn well_typed(&self, sig: &Signature) -> (b: bool)
        ensures
            b == self@.well_typed(sig@),
        decreases self,
    {
        proof {
            self.lemma_view_children();
        }
        match self {
            Term::Variable { .. } => true,
            Term::Application { symbol, args } => {
                if !self.root_fits(sig) {
                    return false;
                }
                let ghost a = self@->args;
                let mut i: usize = 0;
                while i < args.len()
                    invariant
                        i <= args.len(),
                        self matches Term::Application { args: own, .. } && own == args,
                        self@ == (TermView::Application { symbol: *symbol, args: a }),
                        self@.root_fits(sig@),
                        a.len() == args@.len(),
                        forall|k: int| 0 <= k < args@.len() ==> #[trigger] a[k] == args@[k]@,
                        forall|k: int| 0 <= k < i ==> (#[trigger] a[k]).well_typed(sig@),
                    decreases args.len() - i,
                {
                    if !args[i].well_typed(sig) {
                        assert(!a[i as int].well_typed(sig@));
                        return false;
                    }
                    i += 1;
                }
                true
            },
        }
    }
}

} // verus!
