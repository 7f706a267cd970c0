//! Evaluating a term to bytes against the knowledge of a run.

use crate::algebra::{Signature, SymbolView, Term, TermView};
use crate::knowledge::{copy_bytes, lookup, resolve, store_view, Knowledge, KnowledgeView};
use crate::policy::bytes_equal;
use vstd::prelude::*;

verus! {

/// Why a term has no value.
#[derive(Debug)]
pub enum EvalError {
    /// A variable names a value that the store lacks at the variable's type.
    KnowledgeNotFound,
    /// A node does not fit the signature.
    TypeMismatch,
    /// The procedure of a symbol refused its arguments.
    Domain(String),
}

/// The mathematical model of an [`EvalError`].
pub enum EvalErrorView {
    KnowledgeNotFound,
    TypeMismatch,
    Domain(Seq<char>),
}

impl View for EvalError {
    type V = EvalErrorView;

    open spec fn view(&self) -> EvalErrorView {
        match self {
            EvalError::KnowledgeNotFound => EvalErrorView::KnowledgeNotFound,
            EvalError::TypeMismatch => EvalErrorView::TypeMismatch,
            EvalError::Domain(reason) => EvalErrorView::Domain(reason@),
        }
    }
}

/// The evaluation procedures of a signature's symbols: what the application
/// of a symbol to byte strings gives. A procedure is a function of its
/// arguments alone.
pub trait Procedures {
    /// What the symbol's procedure gives on `args`: bytes, or the reason why
    /// it refuses them.
    open spec fn outcome(&self, symbol: usize, args: Seq<Seq<u8>>) -> Result<
        Seq<u8>,
        Seq<char>,
    > {
        arbitrary()
    }

    /// Runs the symbol's procedure on `args`.
    fn apply(&self, symbol: usize, args: &Vec<Vec<u8>>) -> (r: Result<Vec<u8>, String>)
        ensures
            procedure_result(r) == self.outcome(symbol, byte_strings(args@)),
    ;
}

/// The byte strings that the vectors hold.
pub open spec fn byte_strings(values: Seq<Vec<u8>>) -> Seq<Seq<u8>> {
    values.map_values(|value: Vec<u8>| value@)
}

/// The mathematical model of what a procedure returns.
pub open spec fn procedure_result(r: Result<Vec<u8>, String>) -> Result<Seq<u8>, Seq<char>> {
    match r {
        Ok(bytes) => Ok(bytes@),
        Err(reason) => Err(reason@),
    }
}

/// The mathematical model of what an evaluation returns.
pub open spec fn eval_result(r: Result<Vec<u8>, EvalError>) -> Result<Seq<u8>, EvalErrorView> {
    match r {
        Ok(bytes) => Ok(bytes@),
        Err(e) => Err(e@),
    }
}

/// One application that was recorded: the symbol, its arguments, and what
/// the procedure of the symbol gave.
pub struct Recording {
    pub symbol: usize,
    pub args: Vec<Vec<u8>>,
    pub result: Result<Vec<u8>, String>,
}

/// Procedures that play back recorded applications, so that a run can be
/// repeated without the library that computed them. An application that was
/// not recorded is refused.
pub struct Recorded {
    pub recordings: Vec<Recording>,
}

/// What the first recording at or after position `from` gave for the
/// application.
pub open spec fn played_back(
    recordings: Seq<Recording>,
    symbol: usize,
    args: Seq<Seq<u8>>,
    from: int,
) -> Result<Seq<u8>, Seq<char>>
    decreases recordings.len() - from,
{
    if from < 0 || from >= recordings.len() {
        Err("not recorded"@)
    } else if recordings[from].symbol == symbol && byte_strings(recordings[from].args@) == args {
        procedure_result(recordings[from].result)
    } else {
        played_back(recordings, symbol, args, from + 1)
    }
}

/// A search for a recording may start behind the recordings of other
/// applications.
pub proof fn lemma_played_back_skips(
    recordings: Seq<Recording>,
    symbol: usize,
    args: Seq<Seq<u8>>,
    from: int,
)
    requires
        0 <= from <= recordings.len(),
        forall|j: int|
            0 <= j < from ==> !((#[trigger] recordings[j]).symbol == symbol && byte_strings(
                recordings[j].args@,
            ) == args),
    ensures
        played_back(recordings, symbol, args, 0) == played_back(recordings, symbol, args, from),
    decreases from,
{
    if from > 0 {
        lemma_played_back_skips(recordings, symbol, args, from - 1);
    }
}

/// Do the two lists hold the same byte strings?
pub fn same_arguments(a: &Vec<Vec<u8>>, b: &Vec<Vec<u8>>) -> (same: bool)
    ensures
        same == (byte_strings(a@) == byte_strings(b@)),
{
    if a.len() != b.len() {
        assert(byte_strings(a@).len() != byte_strings(b@).len());
        return false;
    }
    let mut i: usize = 0;
    while i < a.len()
        invariant
            i <= a.len(),
            a.len() == b.len(),
            forall|k: int| 0 <= k < i ==> a@[k]@ == b@[k]@,
        decreases a.len() - i,
    {
        if !bytes_equal(&a[i], &b[i]) {
            assert(byte_strings(a@)[i as int] != byte_strings(b@)[i as int]);
            return false;
        }
        i += 1;
    }
    assert(byte_strings(a@) =~= byte_strings(b@));
    true
}

impl Procedures for Recorded {
    open spec fn outcome(&self, symbol: usize, args: Seq<Seq<u8>>) -> Result<Seq<u8>, Seq<char>> {
        played_back(self.recordings@, symbol, args, 0)
    }

    fn apply(&self, symbol: usize, args: &Vec<Vec<u8>>) -> (r: Result<Vec<u8>, String>) {
        let mut i: usize = 0;
        while i < self.recordings.len()
            invariant
                i <= self.recordings.len(),
                forall|j: int|
                    0 <= j < i ==> !((#[trigger] self.recordings@[j]).symbol == symbol
                        && byte_strings(self.recordings@[j].args@) == byte_strings(args@)),
            decreases self.recordings.len() - i,
        {
            let recording = &self.recordings[i];
            if recording.symbol == symbol && same_arguments(&recording.args, args) {
                proof {
                    lemma_played_back_skips(
                        self.recordings@,
                        symbol,
                        byte_strings(args@),
                        i as int,
                    );
                }
                return match &recording.result {
                    Ok(bytes) => Ok(copy_bytes(bytes)),
                    Err(reason) => Err(reason.clone()),
                };
            }
            i += 1;
        }
        proof {
            lemma_played_back_skips(
                self.recordings@,
                symbol,
                byte_strings(args@),
                self.recordings@.len() as int,
            );
        }
        Err("not recorded".to_owned())
    }
}

impl TermView {
    /// The value of the term: a variable is looked up in the store; an
    /// application evaluates its children from left to right, then checks
    /// that its root fits the signature, then runs the symbol's procedure.
    /// The first failure is the result.
    pub open spec fn eval<F: Procedures>(
        self,
        sig: Seq<SymbolView>,
        store: Seq<KnowledgeView>,
        procedures: &F,
    ) -> Result<Seq<u8>, EvalErrorView>
        decreases self, 0nat,
    {
        match self {
            TermView::Variable { step, index, typ } => match resolve(store, step, index, typ) {
                Some(bytes) => Ok(bytes),
                None => Err(EvalErrorView::KnowledgeNotFound),
            },
            TermView::Application { symbol, args } => match Self::eval_first(
                args,
                args.len(),
                sig,
                store,
                procedures,
            ) {
                Err(e) => Err(e),
                Ok(values) => if !self.root_fits(sig) {
                    Err(EvalErrorView::TypeMismatch)
                } else {
                    match procedures.outcome(symbol, values) {
                        Ok(bytes) => Ok(bytes),
                        Err(reason) => Err(EvalErrorView::Domain(reason)),
                    }
                },
            },
        }
    }

    /// The values of the first `n` terms of `args`, or the first failure
    /// among them.
    pub open spec fn eval_first<F: Procedures>(
        args: Seq<TermView>,
        n: nat,
        sig: Seq<SymbolView>,
        store: Seq<KnowledgeView>,
        procedures: &F,
    ) -> Result<Seq<Seq<u8>>, EvalErrorView>
        decreases args, n,
    {
        if n == 0 || n > args.len() {
            Ok(Seq::empty())
        } else {
            match Self::eval_first(args, (n - 1) as nat, sig, store, procedures) {
                Err(e) => Err(e),
                Ok(values) => match args[n - 1].eval(sig, store, procedures) {
                    Err(e) => Err(e),
                    Ok(value) => Ok(values.push(value)),
                },
            }
        }
    }
}

impl Term {
    /// Evaluates the term against the store.
    pub fn evaluate<F: Procedures>(
        &self,
        sig: &Signature,
        store: &Vec<Knowledge>,
        procedures: &F,
    ) -> (r: Result<Vec<u8>, EvalError>)
        ensures
            eval_result(r) == self@.eval(sig@, store_view(store@), procedures),
        decreases self,
    {
        proof {
            self.lemma_view_children();
        }
        match self {
            Term::Variable { step, index, typ } => match lookup(store, *step, *index, *typ) {
                Some(bytes) => Ok(bytes),
                None => Err(EvalError::KnowledgeNotFound),
            },
            Term::Application { symbol, args } => {
                let ghost a = self@->args;
                let mut values: Vec<Vec<u8>> = Vec::new();
                let mut i: usize = 0;
                assert(byte_strings(values@) =~= Seq::<Seq<u8>>::empty());
                while i < args.len()
                    invariant
                        i <= args.len(),
                        self matches Term::Application { args: own, .. } && own == args,
                        self@ == (TermView::Application { symbol: *symbol, args: a }),
                        a.len() == args@.len(),
                        forall|k: int| 0 <= k < args@.len() ==> #[trigger] a[k] == args@[k]@,
                        TermView::eval_first(a, i as nat, sig@, store_view(store@), procedures) == Ok::<
                            Seq<Seq<u8>>,
                            EvalErrorView,
                        >(byte_strings(values@)),
                    decreases args.len() - i,
                {
                    match args[i].evaluate(sig, store, procedures) {
                        Err(e) => {
                            proof {
                                lemma_eval_first_fails(
                                    a,
                                    (i + 1) as nat,
                                    a.len(),
                                    sig@,
                                    store_view(store@),
                                    procedures,
                                );
                            }
                            return Err(e);
                        },
                        Ok(value) => {
                            let ghost before = byte_strings(values@);
                            let ghost bytes = value@;
                            values.push(value);
                            assert(byte_strings(values@) =~= before.push(bytes));
                        },
                    }
                    i += 1;
                }
                if !self.root_fits(sig) {
                    return Err(EvalError::TypeMismatch);
                }
                match procedures.apply(*symbol, &values) {
                    Ok(bytes) => Ok(bytes),
                    Err(reason) => Err(EvalError::Domain(reason)),
                }
            },
        }
    }
}

/// A failure among the first `n` children is the failure of any longer
/// prefix.
pub proof fn lemma_eval_first_fails<F: Procedures>(
    args: Seq<TermView>,
    n: nat,
    m: nat,
    sig: Seq<SymbolView>,
    store: Seq<KnowledgeView>,
    procedures: &F,
)
    requires
        n <= m <= args.len(),
        TermView::eval_first(args, n, sig, store, procedures) is Err,
    ensures
        TermView::eval_first(args, m, sig, store, procedures) == TermView::eval_first(
            args,
            n,
            sig,
            store,
            procedures,
        ),
    decreases m,
{
    if n < m {
        lemma_eval_first_fails(args, n, (m - 1) as nat, sig, store, procedures);
    }
}

/// A well-typed term never fails to evaluate for a mismatch with the
/// signature.
pub proof fn lemma_well_typed_never_mismatches<F: Procedures>(
    t: TermView,
    sig: Seq<SymbolView>,
    store: Seq<KnowledgeView>,
    procedures: &F,
)
    requires
        t.well_typed(sig),
    ensures
        t.eval(sig, store, procedures) != Err::<Seq<u8>, EvalErrorView>(
            EvalErrorView::TypeMismatch,
        ),
    decreases t, 0nat,
{
    match t {
        TermView::Variable { .. } => {},
        TermView::Application { symbol, args } => {
            lemma_children_never_mismatch(args, args.len(), sig, store, procedures);
        },
    }
}

/// The children of a well-typed term never fail for a mismatch with the
/// signature.
pub proof fn lemma_children_never_mismatch<F: Procedures>(
    args: Seq<TermView>,
    n: nat,
    sig: Seq<SymbolView>,
    store: Seq<KnowledgeView>,
    procedures: &F,
)
    requires
        n <= args.len(),
        forall|i: int| 0 <= i < args.len() ==> (#[trigger] args[i]).well_typed(sig),
    ensures
        TermView::eval_first(args, n, sig, store, procedures) != Err::<
            Seq<Seq<u8>>,
            EvalErrorView,
        >(EvalErrorView::TypeMismatch),
    decreases args, n,
{
    if n > 0 {
        lemma_children_never_mismatch(args, (n - 1) as nat, sig, store, procedures);
        lemma_well_typed_never_mismatches(args[n - 1], sig, store, procedures);
    }
}

} // verus!
