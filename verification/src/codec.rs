//! Traces as bytes: how a trace is written as a corpus entry, and how it is
//! read back.

use crate::agent::{AgentDescriptor, AgentName, TLSVersion};
use crate::algebra::{term_views, Term, TermView, TypeShape};
use crate::knowledge::append_bytes;
use crate::trace::{
    input_step, output_step, Action, ActionView, InputAction, OutputAction, Step, StepView, Trace,
    TraceView,
};
use vstd::bytes::{
    lemma_auto_spec_u128_to_from_le_bytes, lemma_auto_spec_u32_to_from_le_bytes,
    lemma_auto_spec_u64_to_from_le_bytes, spec_u128_from_le_bytes, spec_u128_to_le_bytes,
    spec_u32_from_le_bytes, spec_u32_to_le_bytes, spec_u64_from_le_bytes, spec_u64_to_le_bytes,
    u128_from_le_bytes, u128_to_le_bytes, u32_from_le_bytes, u32_to_le_bytes, u64_from_le_bytes,
    u64_to_le_bytes,
};
use vstd::prelude::*;

verus! {

/// The tag of a variable, and of an input step.
pub const TAG_FIRST: u8 = 0;

/// The tag of an application, and of an output step.
pub const TAG_SECOND: u8 = 1;

/// The bytes of a type shape: its identifier, then whether it is a
/// collection.
pub open spec fn shape_bytes(typ: TypeShape) -> Seq<u8> {
    spec_u32_to_le_bytes(typ.id) + seq![if typ.collection { 1u8 } else { 0u8 }]
}

/// The bytes of a term. A variable is its tag, its step, its index and its
/// type; an application is its tag, its symbol, the number of its children
/// and the children.
pub open spec fn term_bytes(t: TermView) -> Seq<u8>
    decreases t, 0nat,
{
    match t {
        TermView::Variable { step, index, typ } => seq![TAG_FIRST] + spec_u64_to_le_bytes(step)
            + spec_u64_to_le_bytes(index) + shape_bytes(typ),
        TermView::Application { symbol, args } => seq![TAG_SECOND] + spec_u64_to_le_bytes(
            symbol as u64,
        ) + spec_u64_to_le_bytes(args.len() as u64) + terms_bytes(args, 0),
    }
}

/// The bytes of the terms of `args` from position `from` on.
pub open spec fn terms_bytes(args: Seq<TermView>, from: nat) -> Seq<u8>
    decreases args, args.len() - from,
{
    if from >= args.len() {
        Seq::empty()
    } else {
        term_bytes(args[from as int]) + terms_bytes(args, from + 1)
    }
}

/// The type shape that the bytes begin with, and the bytes behind it.
pub open spec fn parse_shape(bytes: Seq<u8>) -> Option<(TypeShape, Seq<u8>)> {
    if bytes.len() >= 5 && bytes[4] <= 1 {
        Some(
            (
                TypeShape {
                    id: spec_u32_from_le_bytes(bytes.subrange(0, 4)),
                    collection: bytes[4] == 1,
                },
                bytes.skip(5),
            ),
        )
    } else {
        None
    }
}

/// The number that the bytes begin with, and the bytes behind it.
pub open spec fn parse_number(bytes: Seq<u8>) -> Option<(u64, Seq<u8>)> {
    if bytes.len() >= 8 {
        Some((spec_u64_from_le_bytes(bytes.subrange(0, 8)), bytes.skip(8)))
    } else {
        None
    }
}

/// The term that the bytes begin with, and the bytes behind it.
pub open spec fn parse_term(bytes: Seq<u8>) -> Option<(TermView, Seq<u8>)>
    decreases bytes.len(), 0nat,
{
    if bytes.len() == 0 {
        None
    } else if bytes[0] == TAG_FIRST {
        match parse_number(bytes.skip(1)) {
            None => None,
            Some((step, behind_step)) => match parse_number(behind_step) {
                None => None,
                Some((index, behind_index)) => match parse_shape(behind_index) {
                    None => None,
                    Some((typ, rest)) => Some((TermView::Variable { step, index, typ }, rest)),
                },
            },
        }
    } else if bytes[0] == TAG_SECOND {
        match parse_number(bytes.skip(1)) {
            None => None,
            Some((symbol, behind_symbol)) => match parse_number(behind_symbol) {
                None => None,
                Some((count, behind_count)) => if symbol <= usize::MAX && behind_count.len()
                    < bytes.len() {
                    match parse_terms(behind_count, count as nat) {
                        None => None,
                        Some((args, rest)) => Some(
                            (TermView::Application { symbol: symbol as usize, args }, rest),
                        ),
                    }
                } else {
                    None
                },
            },
        }
    } else {
        None
    }
}

/// The `count` terms that the bytes begin with, and the bytes behind them.
pub open spec fn parse_terms(bytes: Seq<u8>, count: nat) -> Option<(Seq<TermView>, Seq<u8>)>
    decreases bytes.len(), count + 1,
{
    if count == 0 {
        Some((Seq::empty(), bytes))
    } else {
        match parse_term(bytes) {
            None => None,
            Some((first, behind)) => if behind.len() < bytes.len() {
                match parse_terms(behind, (count - 1) as nat) {
                    None => None,
                    Some((others, rest)) => Some((seq![first] + others, rest)),
                }
            } else {
                None
            },
        }
    }
}

/// A number is read back from its bytes, whatever follows them.
pub proof fn lemma_parse_number(n: u64, rest: Seq<u8>)
    ensures
        parse_number(spec_u64_to_le_bytes(n) + rest) == Some((n, rest)),
        spec_u64_to_le_bytes(n).len() == 8,
{
    lemma_auto_spec_u64_to_from_le_bytes();
    let bytes = spec_u64_to_le_bytes(n) + rest;
    assert(bytes.subrange(0, 8) =~= spec_u64_to_le_bytes(n));
    assert(bytes.skip(8) =~= rest);
}

/// A type shape is read back from its bytes, whatever follows them.
pub proof fn lemma_parse_shape(typ: TypeShape, rest: Seq<u8>)
    ensures
        parse_shape(shape_bytes(typ) + rest) == Some((typ, rest)),
        shape_bytes(typ).len() == 5,
{
    lemma_auto_spec_u32_to_from_le_bytes();
    let bytes = shape_bytes(typ) + rest;
    assert(bytes.subrange(0, 4) =~= spec_u32_to_le_bytes(typ.id));
    assert(bytes.skip(5) =~= rest);
}

/// A term is read back from its bytes, whatever follows them.
pub proof fn lemma_parse_term(t: TermView, rest: Seq<u8>)
    requires
        t.representable(),
    ensures
        parse_term(term_bytes(t) + rest) == Some((t, rest)),
    decreases t, 0nat,
{
    let bytes = term_bytes(t) + rest;
    match t {
        TermView::Variable { step, index, typ } => {
            let behind_index = shape_bytes(typ) + rest;
            let behind_step = spec_u64_to_le_bytes(index) + behind_index;
            lemma_parse_number(step, behind_step);
            lemma_parse_number(index, behind_index);
            lemma_parse_shape(typ, rest);
            assert(bytes.skip(1) =~= spec_u64_to_le_bytes(step) + behind_step);
        },
        TermView::Application { symbol, args } => {
            let behind_count = terms_bytes(args, 0) + rest;
            let behind_symbol = spec_u64_to_le_bytes(args.len() as u64) + behind_count;
            lemma_parse_number(symbol as u64, behind_symbol);
            lemma_parse_number(args.len() as u64, behind_count);
            assert(bytes.skip(1) =~= spec_u64_to_le_bytes(symbol as u64) + behind_symbol);
            lemma_parse_terms(args, 0, rest);
            assert(args.skip(0) =~= args);
            assert(behind_count.len() < bytes.len());
        },
    }
}

/// The terms of `args` from position `from` on are read back from their
/// bytes, whatever follows them.
pub proof fn lemma_parse_terms(args: Seq<TermView>, from: nat, rest: Seq<u8>)
    requires
        from <= args.len(),
        forall|i: int| 0 <= i < args.len() ==> (#[trigger] args[i]).representable(),
    ensures
        parse_terms(terms_bytes(args, from) + rest, (args.len() - from) as nat) == Some(
            (args.skip(from as int), rest),
        ),
    decreases args, args.len() - from,
{
    if from >= args.len() {
        assert(terms_bytes(args, from) + rest =~= rest);
        assert(args.skip(from as int) =~= Seq::<TermView>::empty());
    } else {
        let first = args[from as int];
        let behind = terms_bytes(args, from + 1) + rest;
        lemma_parse_term(first, behind);
        lemma_parse_terms(args, from + 1, rest);
        assert(terms_bytes(args, from) + rest =~= term_bytes(first) + behind);
        lemma_term_bytes_not_empty(first);
        assert(args.skip(from as int) =~= seq![first] + args.skip(from as int + 1));
    }
}

/// The bytes of a term begin with its tag.
pub proof fn lemma_term_bytes_not_empty(t: TermView)
    ensures
        term_bytes(t).len() > 0,
{
}

/// A term takes at least one byte, and reading one leaves fewer bytes.
pub proof fn lemma_parse_term_consumes(bytes: Seq<u8>)
    ensures
        parse_term(bytes) matches Some((_, rest)) ==> rest.len() < bytes.len(),
    decreases bytes.len(), 0nat,
{
    if bytes.len() > 0 && bytes[0] == TAG_SECOND {
        match parse_number(bytes.skip(1)) {
            None => {},
            Some((symbol, behind_symbol)) => match parse_number(behind_symbol) {
                None => {},
                Some((count, behind_count)) => {
                    if symbol <= usize::MAX && behind_count.len() < bytes.len() {
                        lemma_parse_terms_consumes(behind_count, count as nat);
                    }
                },
            },
        }
    }
}

/// Reading terms leaves no more bytes than there were.
pub proof fn lemma_parse_terms_consumes(bytes: Seq<u8>, count: nat)
    ensures
        parse_terms(bytes, count) matches Some((_, rest)) ==> rest.len() <= bytes.len(),
    decreases bytes.len(), count + 1,
{
    if count > 0 {
        lemma_parse_term_consumes(bytes);
        match parse_term(bytes) {
            None => {},
            Some((first, behind)) => {
                if behind.len() < bytes.len() {
                    lemma_parse_terms_consumes(behind, (count - 1) as nat);
                }
            },
        }
    }
}

/// Appends the bytes of a number to `out`.
pub fn write_number(out: &mut Vec<u8>, n: u64)
    ensures
        final(out)@ == old(out)@ + spec_u64_to_le_bytes(n),
{
    let bytes = u64_to_le_bytes(n);
    append_bytes(out, &bytes);
}

/// Appends the bytes of a type shape to `out`.
pub fn write_shape(out: &mut Vec<u8>, typ: TypeShape)
    ensures
        final(out)@ == old(out)@ + shape_bytes(typ),
{
    let bytes = u32_to_le_bytes(typ.id);
    append_bytes(out, &bytes);
    out.push(if typ.collection { 1u8 } else { 0u8 });
    assert(out@ =~= old(out)@ + shape_bytes(typ));
}

/// Reads the number at position `at`.
pub fn read_number(bytes: &Vec<u8>, at: usize) -> (r: Option<(u64, usize)>)
    requires
        at <= bytes.len(),
    ensures
        r is Some <==> parse_number(bytes@.skip(at as int)) is Some,
        r matches Some((n, next)) ==> next == at + 8 && next <= bytes.len() && parse_number(
            bytes@.skip(at as int),
        ) == Some((n, bytes@.skip(next as int))),
{
    if bytes.len() - at < 8 {
        return None;
    }
    let n = u64_from_le_bytes(vstd::slice::slice_subrange(bytes.as_slice(), at, at + 8));
    proof {
        assert(bytes@.skip(at as int).subrange(0, 8) =~= bytes@.subrange(at as int, at + 8));
        assert(bytes@.skip(at as int).skip(8) =~= bytes@.skip(at + 8));
    }
    Some((n, at + 8))
}

/// Reads the type shape at position `at`.
pub fn read_shape(bytes: &Vec<u8>, at: usize) -> (r: Option<(TypeShape, usize)>)
    requires
        at <= bytes.len(),
    ensures
        r is Some <==> parse_shape(bytes@.skip(at as int)) is Some,
        r matches Some((typ, next)) ==> next == at + 5 && next <= bytes.len() && parse_shape(
            bytes@.skip(at as int),
        ) == Some((typ, bytes@.skip(next as int))),
{
    if bytes.len() - at < 5 || bytes[at + 4] > 1 {
        return None;
    }
    let id = u32_from_le_bytes(vstd::slice::slice_subrange(bytes.as_slice(), at, at + 4));
    proof {
        assert(bytes@.skip(at as int).subrange(0, 4) =~= bytes@.subrange(at as int, at + 4));
        assert(bytes@.skip(at as int).skip(5) =~= bytes@.skip(at + 5));
    }
    Some((TypeShape { id, collection: bytes[at + 4] == 1 }, at + 5))
}

impl Term {
    /// Appends the bytes of the term to `out`.
    pub fn write(&self, out: &mut Vec<u8>)
        ensures
            final(out)@ == old(out)@ + term_bytes(self@),
        decreases self,
    {
        proof {
            self.lemma_view_children();
        }
        match self {
            Term::Variable { step, index, typ } => {
                out.push(TAG_FIRST);
                write_number(out, *step);
                write_number(out, *index);
                write_shape(out, *typ);
                assert(out@ =~= old(out)@ + term_bytes(self@));
            },
            Term::Application { symbol, args } => {
                out.push(TAG_SECOND);
                write_number(out, *symbol as u64);
                write_number(out, args.len() as u64);
                let ghost a = self@->args;
                let ghost head = out@;
                let mut i: usize = 0;
                assert(terms_bytes(a, a.len()) =~= Seq::<u8>::empty());
                while i < args.len()
                    invariant
                        i <= args.len(),
                        self matches Term::Application { args: own, .. } && own == args,
                        a.len() == args@.len(),
                        forall|k: int| 0 <= k < args@.len() ==> #[trigger] a[k] == args@[k]@,
                        out@ + terms_bytes(a, i as nat) == head + terms_bytes(a, 0),
                    decreases args.len() - i,
                {
                    let ghost before = out@;
                    args[i].write(out);
                    assert(out@ + terms_bytes(a, (i + 1) as nat) =~= before + terms_bytes(
                        a,
                        i as nat,
                    ));
                    i += 1;
                }
                assert(out@ =~= out@ + terms_bytes(a, a.len()));
                assert(out@ =~= old(out)@ + term_bytes(self@));
            },
        }
    }
}

/// Reads the term at position `at`. Returns the term and the position
/// behind it.
#[verifier::loop_isolation(false)]
pub fn read_term(bytes: &Vec<u8>, at: usize) -> (r: Option<(Term, usize)>)
    requires
        at <= bytes.len(),
    ensures
        r is Some <==> parse_term(bytes@.skip(at as int)) is Some,
        r matches Some((t, next)) ==> at < next <= bytes.len() && parse_term(
            bytes@.skip(at as int),
        ) == Some((t@, bytes@.skip(next as int))),
    decreases bytes.len() - at,
{
    let ghost input = bytes@.skip(at as int);
    if at >= bytes.len() {
        return None;
    }
    let tag = bytes[at];
    assert(input[0] == tag);
    assert(input.skip(1) =~= bytes@.skip(at + 1));
    if tag == TAG_FIRST {
        let (step, behind_step) = match read_number(bytes, at + 1) {
            None => {
                return None;
            },
            Some(read) => read,
        };
        let (index, behind_index) = match read_number(bytes, behind_step) {
            None => {
                return None;
            },
            Some(read) => read,
        };
        let (typ, next) = match read_shape(bytes, behind_index) {
            None => {
                return None;
            },
            Some(read) => read,
        };
        Some((Term::variable(step, index, typ), next))
    } else if tag == TAG_SECOND {
        let (symbol, behind_symbol) = match read_number(bytes, at + 1) {
            None => {
                return None;
            },
            Some(read) => read,
        };
        let (count, behind_count) = match read_number(bytes, behind_symbol) {
            None => {
                return None;
            },
            Some(read) => read,
        };
        if symbol > usize::MAX as u64 {
            return None;
        }
        let ghost start = bytes@.skip(behind_count as int);
        let mut args: Vec<Term> = Vec::new();
        let mut next: usize = behind_count;
        let mut i: u64 = 0;
        assert(term_views(args@) =~= Seq::<TermView>::empty());
        assert(in_front(Seq::empty(), parse_terms(start, count as nat))
            =~= parse_terms(start, count as nat)) by {
            match parse_terms(start, count as nat) {
                None => {},
                Some((terms, rest)) => {
                    assert(Seq::<TermView>::empty() + terms =~= terms);
                },
            }
        }
        while i < count
            invariant
                i <= count,
                at < behind_count <= next <= bytes.len(),
                start == bytes@.skip(behind_count as int),
                parse_terms(start, count as nat) == in_front(
                    term_views(args@),
                    parse_terms(bytes@.skip(next as int), (count - i) as nat),
                ),
            decreases count - i,
        {
            let ghost current = bytes@.skip(next as int);
            proof {
                lemma_parse_term_consumes(current);
            }
            match read_term(bytes, next) {
                None => {
                    return None;
                },
                Some((child, behind)) => {
                    let ghost done = term_views(args@);
                    let ghost first = child@;
                    args.push(child);
                    proof {
                        assert(term_views(args@) =~= done.push(first));
                        match parse_terms(bytes@.skip(behind as int), (count - i - 1) as nat) {
                            None => {},
                            Some((others, rest)) => {
                                assert(done + (seq![first] + others) =~= done.push(first)
                                    + others);
                            },
                        }
                    }
                    next = behind;
                },
            }
            i += 1;
        }
        proof {
            assert(term_views(args@) + Seq::<TermView>::empty() =~= term_views(args@));
        }
        Some((Term::apply(symbol as usize, args), next))
    } else {
        None
    }
}

/// The bytes of the elements from position `from` on, each as `write` gives
/// them.
pub open spec fn many_bytes<T>(elements: Seq<T>, from: nat, write: spec_fn(T) -> Seq<u8>) -> Seq<
    u8,
>
    decreases elements.len() - from,
{
    if from >= elements.len() {
        Seq::empty()
    } else {
        write(elements[from as int]) + many_bytes(elements, from + 1, write)
    }
}

/// The `count` elements that the bytes begin with, each as `read` reads it,
/// and the bytes behind them.
pub open spec fn parse_many<T>(
    bytes: Seq<u8>,
    count: nat,
    read: spec_fn(Seq<u8>) -> Option<(T, Seq<u8>)>,
) -> Option<(Seq<T>, Seq<u8>)>
    decreases count,
{
    if count == 0 {
        Some((Seq::empty(), bytes))
    } else {
        match read(bytes) {
            None => None,
            Some((first, behind)) => match parse_many(behind, (count - 1) as nat, read) {
                None => None,
                Some((others, rest)) => Some((seq![first] + others, rest)),
            },
        }
    }
}

/// Elements that are each read back from their bytes are read back, one after
/// another, from the bytes of all of them.
pub proof fn lemma_parse_many<T>(
    elements: Seq<T>,
    from: nat,
    rest: Seq<u8>,
    write: spec_fn(T) -> Seq<u8>,
    read: spec_fn(Seq<u8>) -> Option<(T, Seq<u8>)>,
)
    requires
        from <= elements.len(),
        forall|i: int, behind: Seq<u8>|
            0 <= i < elements.len() ==> #[trigger] read(write(elements[i]) + behind) == Some(
                (elements[i], behind),
            ),
    ensures
        parse_many(many_bytes(elements, from, write) + rest, (elements.len() - from) as nat, read)
            == Some((elements.skip(from as int), rest)),
    decreases elements.len() - from,
{
    if from >= elements.len() {
        assert(many_bytes(elements, from, write) + rest =~= rest);
        assert(elements.skip(from as int) =~= Seq::<T>::empty());
    } else {
        let first = elements[from as int];
        let behind = many_bytes(elements, from + 1, write) + rest;
        lemma_parse_many(elements, from + 1, rest, write, read);
        assert(many_bytes(elements, from, write) + rest =~= write(first) + behind);
        assert(read(write(elements[from as int]) + behind) == Some((first, behind)));
        assert(elements.skip(from as int) =~= seq![first] + elements.skip(from as int + 1));
    }
}

/// What is read, with `done` in front of the elements.
pub open spec fn in_front<T>(done: Seq<T>, read: Option<(Seq<T>, Seq<u8>)>) -> Option<
    (Seq<T>, Seq<u8>),
> {
    match read {
        None => None,
        Some((elements, rest)) => Some((done + elements, rest)),
    }
}

/// The code of a protocol version.
pub open spec fn version_code(version: TLSVersion) -> u8 {
    match version {
        TLSVersion::V1_3 => 0,
        TLSVersion::V1_2 => 1,
    }
}

/// The bytes of a descriptor: the name, the protocol version and the role.
pub open spec fn descriptor_bytes(d: AgentDescriptor) -> Seq<u8> {
    spec_u128_to_le_bytes(d.name.0) + seq![version_code(d.tls_version)] + seq![
        if d.server {
            1u8
        } else {
            0u8
        },
    ]
}

/// The descriptor that the bytes begin with, and the bytes behind it.
pub open spec fn parse_descriptor(bytes: Seq<u8>) -> Option<(AgentDescriptor, Seq<u8>)> {
    if bytes.len() >= 18 && bytes[16] <= 1 && bytes[17] <= 1 {
        Some(
            (
                AgentDescriptor {
                    name: AgentName(spec_u128_from_le_bytes(bytes.subrange(0, 16))),
                    tls_version: if bytes[16] == 0 {
                        TLSVersion::V1_3
                    } else {
                        TLSVersion::V1_2
                    },
                    server: bytes[17] == 1,
                },
                bytes.skip(18),
            ),
        )
    } else {
        None
    }
}

/// The bytes of a step: the agent, then the tag of the action, then the term
/// of an input step or the identifier of an output step.
pub open spec fn step_bytes(step: StepView) -> Seq<u8> {
    spec_u128_to_le_bytes(step.agent.0) + match step.action {
        ActionView::Input(recipe) => seq![TAG_FIRST] + term_bytes(recipe),
        ActionView::Output(id) => seq![TAG_SECOND] + spec_u64_to_le_bytes(id),
    }
}

/// The step that the bytes begin with, and the bytes behind it.
pub open spec fn parse_step(bytes: Seq<u8>) -> Option<(StepView, Seq<u8>)> {
    if bytes.len() >= 17 {
        let agent = AgentName(spec_u128_from_le_bytes(bytes.subrange(0, 16)));
        if bytes[16] == TAG_FIRST {
            match parse_term(bytes.skip(17)) {
                None => None,
                Some((recipe, rest)) => Some((input_step(agent, recipe), rest)),
            }
        } else if bytes[16] == TAG_SECOND {
            match parse_number(bytes.skip(17)) {
                None => None,
                Some((id, rest)) => Some((output_step(agent, id), rest)),
            }
        } else {
            None
        }
    } else {
        None
    }
}

/// The bytes of the descriptors and the steps of a trace: the number of the
/// descriptors and the descriptors, the number of the steps and the steps.
pub open spec fn lists_bytes(descriptors: Seq<AgentDescriptor>, steps: Seq<StepView>) -> Seq<u8> {
    spec_u64_to_le_bytes(descriptors.len() as u64) + many_bytes(
        descriptors,
        0,
        |d: AgentDescriptor| descriptor_bytes(d),
    ) + spec_u64_to_le_bytes(steps.len() as u64) + many_bytes(
        steps,
        0,
        |s: StepView| step_bytes(s),
    )
}

/// The descriptors and the steps that the bytes begin with, and the bytes
/// behind them.
pub open spec fn parse_lists(bytes: Seq<u8>) -> Option<
    ((Seq<AgentDescriptor>, Seq<StepView>), Seq<u8>),
> {
    match parse_number(bytes) {
        None => None,
        Some((count, behind_count)) => match parse_many(
            behind_count,
            count as nat,
            |b: Seq<u8>| parse_descriptor(b),
        ) {
            None => None,
            Some((descriptors, behind_descriptors)) => match parse_number(behind_descriptors) {
                None => None,
                Some((length, behind_length)) => match parse_many(
                    behind_length,
                    length as nat,
                    |b: Seq<u8>| parse_step(b),
                ) {
                    None => None,
                    Some((steps, rest)) => Some(((descriptors, steps), rest)),
                },
            },
        },
    }
}

/// The bytes of a trace: the number of the traces that run first and those
/// traces, then its descriptors and its steps.
pub open spec fn trace_bytes(trace: TraceView) -> Seq<u8>
    decreases trace, 0nat,
{
    spec_u64_to_le_bytes(trace.prior_traces.len() as u64) + traces_bytes(trace.prior_traces, 0)
        + lists_bytes(trace.descriptors, trace.steps)
}

/// The bytes of the traces from position `from` on.
pub open spec fn traces_bytes(traces: Seq<TraceView>, from: nat) -> Seq<u8>
    decreases traces, traces.len() - from,
{
    if from >= traces.len() {
        Seq::empty()
    } else {
        trace_bytes(traces[from as int]) + traces_bytes(traces, from + 1)
    }
}

/// The trace that the bytes begin with, and the bytes behind it.
pub open spec fn parse_trace(bytes: Seq<u8>) -> Option<(TraceView, Seq<u8>)>
    decreases bytes.len(), 0nat,
{
    match parse_number(bytes) {
        None => None,
        Some((priors, behind_priors_count)) => if behind_priors_count.len() < bytes.len() {
            match parse_traces(behind_priors_count, priors as nat) {
                None => None,
                Some((prior_traces, behind_priors)) => match parse_lists(behind_priors) {
                    None => None,
                    Some(((descriptors, steps), rest)) => Some(
                        (TraceView { prior_traces, descriptors, steps }, rest),
                    ),
                },
            }
        } else {
            None
        },
    }
}

/// The `count` traces that the bytes begin with, and the bytes behind them.
pub open spec fn parse_traces(bytes: Seq<u8>, count: nat) -> Option<(Seq<TraceView>, Seq<u8>)>
    decreases bytes.len(), count + 1,
{
    if count == 0 {
        Some((Seq::empty(), bytes))
    } else {
        match parse_trace(bytes) {
            None => None,
            Some((first, behind)) => if behind.len() < bytes.len() {
                match parse_traces(behind, (count - 1) as nat) {
                    None => None,
                    Some((others, rest)) => Some((seq![first] + others, rest)),
                }
            } else {
                None
            },
        }
    }
}

/// The trace that the bytes are the bytes of.
pub open spec fn deserialized(bytes: Seq<u8>) -> Option<TraceView> {
    match parse_trace(bytes) {
        Some((trace, rest)) => if rest.len() == 0 {
            Some(trace)
        } else {
            None
        },
        None => None,
    }
}

impl StepView {
    /// The term of the step, if it has one, is representable.
    pub open spec fn representable(self) -> bool {
        self.action matches ActionView::Input(recipe) ==> recipe.representable()
    }
}

impl TraceView {
    /// No list of the trace is longer than a machine can count.
    pub open spec fn representable(self) -> bool
        decreases self,
    {
        &&& self.prior_traces.len() <= usize::MAX
        &&& self.descriptors.len() <= usize::MAX
        &&& self.steps.len() <= usize::MAX
        &&& forall|i: int|
            0 <= i < self.steps.len() ==> (#[trigger] self.steps[i]).representable()
        &&& forall|p: int|
            0 <= p < self.prior_traces.len() ==> (#[trigger] self.prior_traces[p]).representable()
    }
}

/// A descriptor is read back from its bytes, whatever follows them.
pub proof fn lemma_parse_descriptor(d: AgentDescriptor, rest: Seq<u8>)
    ensures
        parse_descriptor(descriptor_bytes(d) + rest) == Some((d, rest)),
{
    lemma_auto_spec_u128_to_from_le_bytes();
    let bytes = descriptor_bytes(d) + rest;
    assert(bytes.subrange(0, 16) =~= spec_u128_to_le_bytes(d.name.0));
    assert(bytes.skip(18) =~= rest);
}

/// A step is read back from its bytes, whatever follows them.
pub proof fn lemma_parse_step(step: StepView, rest: Seq<u8>)
    requires
        step.representable(),
    ensures
        parse_step(step_bytes(step) + rest) == Some((step, rest)),
{
    lemma_auto_spec_u128_to_from_le_bytes();
    let bytes = step_bytes(step) + rest;
    assert(bytes.subrange(0, 16) =~= spec_u128_to_le_bytes(step.agent.0));
    match step.action {
        ActionView::Input(recipe) => {
            lemma_parse_term(recipe, rest);
            assert(bytes.skip(17) =~= term_bytes(recipe) + rest);
        },
        ActionView::Output(id) => {
            lemma_parse_number(id, rest);
            assert(bytes.skip(17) =~= spec_u64_to_le_bytes(id) + rest);
        },
    }
}

/// The descriptors and the steps of a trace are read back from their bytes,
/// whatever follows them.
pub proof fn lemma_parse_lists(
    descriptors: Seq<AgentDescriptor>,
    steps: Seq<StepView>,
    rest: Seq<u8>,
)
    requires
        descriptors.len() <= usize::MAX,
        steps.len() <= usize::MAX,
        forall|i: int| 0 <= i < steps.len() ==> (#[trigger] steps[i]).representable(),
    ensures
        parse_lists(lists_bytes(descriptors, steps) + rest) == Some(((descriptors, steps), rest)),
{
    let write_descriptor = |d: AgentDescriptor| descriptor_bytes(d);
    let read_descriptor = |b: Seq<u8>| parse_descriptor(b);
    let write_step = |s: StepView| step_bytes(s);
    let read_step = |b: Seq<u8>| parse_step(b);
    let behind_length = many_bytes(steps, 0, write_step) + rest;
    let behind_descriptors = spec_u64_to_le_bytes(steps.len() as u64) + behind_length;
    let behind_count = many_bytes(descriptors, 0, write_descriptor) + behind_descriptors;
    let bytes = lists_bytes(descriptors, steps) + rest;
    assert(bytes =~= spec_u64_to_le_bytes(descriptors.len() as u64) + behind_count);
    lemma_parse_number(descriptors.len() as u64, behind_count);
    assert forall|i: int, behind: Seq<u8>|
        0 <= i < descriptors.len() implies #[trigger] read_descriptor(
        write_descriptor(descriptors[i]) + behind,
    ) == Some((descriptors[i], behind)) by {
        lemma_parse_descriptor(descriptors[i], behind);
    }
    lemma_parse_many(descriptors, 0, behind_descriptors, write_descriptor, read_descriptor);
    assert(descriptors.skip(0) =~= descriptors);
    assert(parse_many(behind_count, descriptors.len(), read_descriptor) == Some(
        (descriptors, behind_descriptors),
    ));
    lemma_parse_number(steps.len() as u64, behind_length);
    assert forall|i: int, behind: Seq<u8>| 0 <= i < steps.len() implies #[trigger] read_step(
        write_step(steps[i]) + behind,
    ) == Some((steps[i], behind)) by {
        lemma_parse_step(steps[i], behind);
    }
    lemma_parse_many(steps, 0, rest, write_step, read_step);
    assert(steps.skip(0) =~= steps);
    assert(parse_many(behind_length, steps.len(), read_step) == Some((steps, rest)));
}

/// A trace is read back from its bytes, whatever follows them.
pub proof fn lemma_parse_trace(trace: TraceView, rest: Seq<u8>)
    requires
        trace.representable(),
    ensures
        parse_trace(trace_bytes(trace) + rest) == Some((trace, rest)),
    decreases trace, 0nat,
{
    let behind_priors = lists_bytes(trace.descriptors, trace.steps) + rest;
    let behind_priors_count = traces_bytes(trace.prior_traces, 0) + behind_priors;
    let bytes = trace_bytes(trace) + rest;
    assert(bytes =~= spec_u64_to_le_bytes(trace.prior_traces.len() as u64)
        + behind_priors_count);
    lemma_parse_number(trace.prior_traces.len() as u64, behind_priors_count);
    lemma_parse_traces(trace.prior_traces, 0, behind_priors);
    assert(trace.prior_traces.skip(0) =~= trace.prior_traces);
    lemma_parse_lists(trace.descriptors, trace.steps, rest);
}

/// The traces from position `from` on are read back from their bytes,
/// whatever follows them.
pub proof fn lemma_parse_traces(traces: Seq<TraceView>, from: nat, rest: Seq<u8>)
    requires
        from <= traces.len(),
        forall|i: int| 0 <= i < traces.len() ==> (#[trigger] traces[i]).representable(),
    ensures
        parse_traces(traces_bytes(traces, from) + rest, (traces.len() - from) as nat) == Some(
            (traces.skip(from as int), rest),
        ),
    decreases traces, traces.len() - from,
{
    if from >= traces.len() {
        assert(traces_bytes(traces, from) + rest =~= rest);
        assert(traces.skip(from as int) =~= Seq::<TraceView>::empty());
    } else {
        let first = traces[from as int];
        let behind = traces_bytes(traces, from + 1) + rest;
        lemma_parse_trace(first, behind);
        lemma_parse_traces(traces, from + 1, rest);
        assert(traces_bytes(traces, from) + rest =~= trace_bytes(first) + behind);
        lemma_parse_number(traces[from as int].prior_traces.len() as u64, Seq::empty());
        assert(trace_bytes(first).len() >= 8);
        assert(traces.skip(from as int) =~= seq![first] + traces.skip(from as int + 1));
    }
}

/// Appends the bytes of a name to `out`.
pub fn write_name(out: &mut Vec<u8>, name: AgentName)
    ensures
        final(out)@ == old(out)@ + spec_u128_to_le_bytes(name.0),
{
    let bytes = u128_to_le_bytes(name.0);
    append_bytes(out, &bytes);
}

/// Reads the name at position `at`.
pub fn read_name(bytes: &Vec<u8>, at: usize) -> (name: AgentName)
    requires
        at + 16 <= bytes.len(),
    ensures
        name == AgentName(spec_u128_from_le_bytes(bytes@.skip(at as int).subrange(0, 16))),
{
    let n = u128_from_le_bytes(vstd::slice::slice_subrange(bytes.as_slice(), at, at + 16));
    proof {
        assert(bytes@.skip(at as int).subrange(0, 16) =~= bytes@.subrange(at as int, at + 16));
    }
    AgentName(n)
}

/// Appends the bytes of a descriptor to `out`.
pub fn write_descriptor(out: &mut Vec<u8>, d: &AgentDescriptor)
    ensures
        final(out)@ == old(out)@ + descriptor_bytes(*d),
{
    write_name(out, d.name);
    out.push(
        match d.tls_version {
            TLSVersion::V1_3 => 0u8,
            TLSVersion::V1_2 => 1u8,
        },
    );
    out.push(if d.server { 1u8 } else { 0u8 });
    assert(out@ =~= old(out)@ + descriptor_bytes(*d));
}

/// Reads the descriptor at position `at`.
pub fn read_descriptor(bytes: &Vec<u8>, at: usize) -> (r: Option<(AgentDescriptor, usize)>)
    requires
        at <= bytes.len(),
    ensures
        r is Some <==> parse_descriptor(bytes@.skip(at as int)) is Some,
        r matches Some((d, next)) ==> next == at + 18 && next <= bytes.len() && parse_descriptor(
            bytes@.skip(at as int),
        ) == Some((d, bytes@.skip(next as int))),
{
    if bytes.len() - at < 18 || bytes[at + 16] > 1 || bytes[at + 17] > 1 {
        return None;
    }
    let name = read_name(bytes, at);
    proof {
        assert(bytes@.skip(at as int).skip(18) =~= bytes@.skip(at + 18));
    }
    Some(
        (
            AgentDescriptor {
                name,
                tls_version: if bytes[at + 16] == 0 {
                    TLSVersion::V1_3
                } else {
                    TLSVersion::V1_2
                },
                server: bytes[at + 17] == 1,
            },
            at + 18,
        ),
    )
}

impl Step {
    /// Appends the bytes of the step to `out`.
    pub fn write(&self, out: &mut Vec<u8>)
        ensures
            final(out)@ == old(out)@ + step_bytes(self@),
    {
        write_name(out, self.agent);
        match &self.action {
            Action::Input(input) => {
                out.push(TAG_FIRST);
                input.recipe.write(out);
            },
            Action::Output(output) => {
                out.push(TAG_SECOND);
                write_number(out, output.id);
            },
        }
        assert(out@ =~= old(out)@ + step_bytes(self@));
    }
}

/// Reads the step at position `at`.
pub fn read_step(bytes: &Vec<u8>, at: usize) -> (r: Option<(Step, usize)>)
    requires
        at <= bytes.len(),
    ensures
        r is Some <==> parse_step(bytes@.skip(at as int)) is Some,
        r matches Some((step, next)) ==> at < next <= bytes.len() && parse_step(
            bytes@.skip(at as int),
        ) == Some((step@, bytes@.skip(next as int))),
{
    if bytes.len() - at < 17 {
        return None;
    }
    let agent = read_name(bytes, at);
    let tag = bytes[at + 16];
    proof {
        assert(bytes@.skip(at as int).skip(17) =~= bytes@.skip(at + 17));
    }
    if tag == TAG_FIRST {
        match read_term(bytes, at + 17) {
            None => None,
            Some((recipe, next)) => Some((InputAction::new_step(agent, recipe), next)),
        }
    } else if tag == TAG_SECOND {
        match read_number(bytes, at + 17) {
            None => None,
            Some((id, next)) => Some((OutputAction::new_step(agent, id), next)),
        }
    } else {
        None
    }
}

impl Trace {
    /// The model of a trace in memory is representable.
    pub proof fn lemma_representable(&self)
        ensures
            self@.representable(),
        decreases self,
    {
        self.lemma_view_parts();
        let v = self@;
        assert(self.prior_traces.len() <= usize::MAX);
        assert(self.descriptors.len() <= usize::MAX);
        assert(self.steps.len() <= usize::MAX);
        assert forall|i: int| 0 <= i < v.steps.len() implies (
        #[trigger] v.steps[i]).representable() by {
            match self.steps@[i].action {
                Action::Input(input) => {
                    input.recipe.lemma_representable();
                },
                Action::Output(_) => {},
            }
        }
        assert forall|p: int| 0 <= p < v.prior_traces.len() implies (
        #[trigger] v.prior_traces[p]).representable() by {
            self.prior_traces@[p].lemma_representable();
        }
    }

    /// Appends the bytes of the trace to `out`.
    pub fn write(&self, out: &mut Vec<u8>)
        ensures
            final(out)@ == old(out)@ + trace_bytes(self@),
        decreases self,
    {
        proof {
            self.lemma_view_parts();
        }
        let ghost v = self@;
        let ghost write_d = |d: AgentDescriptor| descriptor_bytes(d);
        let ghost write_s = |s: StepView| step_bytes(s);
        write_number(out, self.prior_traces.len() as u64);
        let ghost head = out@;
        let mut p: usize = 0;
        while p < self.prior_traces.len()
            invariant
                p <= self.prior_traces.len(),
                v == self@,
                v.prior_traces.len() == self.prior_traces@.len(),
                forall|q: int|
                    0 <= q < self.prior_traces@.len() ==> #[trigger] v.prior_traces[q]
                        == self.prior_traces@[q]@,
                out@ + traces_bytes(v.prior_traces, p as nat) == head + traces_bytes(
                    v.prior_traces,
                    0,
                ),
            decreases self.prior_traces.len() - p,
        {
            let ghost before = out@;
            self.prior_traces[p].write(out);
            assert(out@ + traces_bytes(v.prior_traces, (p + 1) as nat) =~= before + traces_bytes(
                v.prior_traces,
                p as nat,
            ));
            p += 1;
        }
        assert(out@ =~= out@ + traces_bytes(v.prior_traces, v.prior_traces.len()));
        write_number(out, self.descriptors.len() as u64);
        let ghost head_d = out@;
        let mut d: usize = 0;
        while d < self.descriptors.len()
            invariant
                d <= self.descriptors.len(),
                v == self@,
                v.descriptors == self.descriptors@,
                write_d == |d: AgentDescriptor| descriptor_bytes(d),
                out@ + many_bytes(v.descriptors, d as nat, write_d) == head_d + many_bytes(
                    v.descriptors,
                    0,
                    write_d,
                ),
            decreases self.descriptors.len() - d,
        {
            let ghost before = out@;
            write_descriptor(out, &self.descriptors[d]);
            assert(out@ + many_bytes(v.descriptors, (d + 1) as nat, write_d) =~= before
                + many_bytes(v.descriptors, d as nat, write_d));
            d += 1;
        }
        assert(out@ =~= out@ + many_bytes(v.descriptors, v.descriptors.len(), write_d));
        write_number(out, self.steps.len() as u64);
        let ghost head_s = out@;
        let mut i: usize = 0;
        while i < self.steps.len()
            invariant
                i <= self.steps.len(),
                v == self@,
                v.steps.len() == self.steps@.len(),
                forall|k: int|
                    0 <= k < self.steps@.len() ==> #[trigger] v.steps[k] == self.steps@[k]@,
                write_s == |s: StepView| step_bytes(s),
                out@ + many_bytes(v.steps, i as nat, write_s) == head_s + many_bytes(
                    v.steps,
                    0,
                    write_s,
                ),
            decreases self.steps.len() - i,
        {
            let ghost before = out@;
            self.steps[i].write(out);
            assert(out@ + many_bytes(v.steps, (i + 1) as nat, write_s) =~= before + many_bytes(
                v.steps,
                i as nat,
                write_s,
            ));
            i += 1;
        }
        assert(out@ =~= out@ + many_bytes(v.steps, v.steps.len(), write_s));
        assert(out@ =~= head + traces_bytes(v.prior_traces, 0) + lists_bytes(
            v.descriptors,
            v.steps,
        ));
        assert(out@ =~= old(out)@ + trace_bytes(v));
    }

    /// The bytes of the trace. The trace is read back from them.
    pub fn serialize(&self) -> (bytes: Vec<u8>)
        ensures
            bytes@ == trace_bytes(self@),
            deserialized(bytes@) == Some(self@),
    {
        let mut bytes: Vec<u8> = Vec::new();
        self.write(&mut bytes);
        assert(Seq::<u8>::empty() + trace_bytes(self@) =~= trace_bytes(self@));
        proof {
            self.lemma_representable();
            lemma_round_trip(self@);
        }
        bytes
    }

    /// The trace that the bytes are the bytes of, where they are the bytes of
    /// one.
    pub fn deserialize(bytes: &Vec<u8>) -> (r: Option<Trace>)
        ensures
            r is Some <==> deserialized(bytes@) is Some,
            r matches Some(trace) ==> deserialized(bytes@) == Some(trace@),
    {
        assert(bytes@.skip(0) =~= bytes@);
        match read_trace(bytes, 0) {
            None => None,
            Some((trace, next)) => {
                if next == bytes.len() {
                    Some(trace)
                } else {
                    None
                }
            },
        }
    }
}

/// Reads the trace at position `at`. Returns the trace and the position
/// behind it.
#[verifier::loop_isolation(false)]
pub fn read_trace(bytes: &Vec<u8>, at: usize) -> (r: Option<(Trace, usize)>)
    requires
        at <= bytes.len(),
    ensures
        r is Some <==> parse_trace(bytes@.skip(at as int)) is Some,
        r matches Some((trace, next)) ==> at < next <= bytes.len() && parse_trace(
            bytes@.skip(at as int),
        ) == Some((trace@, bytes@.skip(next as int))),
    decreases bytes.len() - at,
{
    let ghost read_d = |b: Seq<u8>| parse_descriptor(b);
    let ghost read_s = |b: Seq<u8>| parse_step(b);
    let (priors, behind_priors_count) = match read_number(bytes, at) {
        None => {
            return None;
        },
        Some(read) => read,
    };
    let ghost start = bytes@.skip(behind_priors_count as int);
    let mut prior_traces: Vec<Trace> = Vec::new();
    let mut next: usize = behind_priors_count;
    let mut p: u64 = 0;
    let ghost mut done: Seq<TraceView> = Seq::empty();
    proof {
        match parse_traces(start, priors as nat) {
            None => {},
            Some((traces, rest)) => {
                assert(Seq::<TraceView>::empty() + traces =~= traces);
            },
        }
    }
    while p < priors
        invariant
            p <= priors,
            at < behind_priors_count <= next <= bytes.len(),
            done.len() == prior_traces@.len(),
            forall|q: int| 0 <= q < done.len() ==> #[trigger] done[q] == prior_traces@[q]@,
            parse_traces(start, priors as nat) == in_front(
                done,
                parse_traces(bytes@.skip(next as int), (priors - p) as nat),
            ),
        decreases priors - p,
    {
        match read_trace(bytes, next) {
            None => {
                return None;
            },
            Some((prior, behind)) => {
                let ghost first = prior@;
                let ghost before = done;
                prior_traces.push(prior);
                proof {
                    done = done.push(first);
                    match parse_traces(bytes@.skip(behind as int), (priors - p - 1) as nat) {
                        None => {},
                        Some((others, rest)) => {
                            assert(before + (seq![first] + others) =~= before.push(first)
                                + others);
                        },
                    }
                }
                next = behind;
            },
        }
        p += 1;
    }
    proof {
        assert(done + Seq::<TraceView>::empty() =~= done);
    }
    let (count, behind_count) = match read_number(bytes, next) {
        None => {
            return None;
        },
        Some(read) => read,
    };
    let ghost start_d = bytes@.skip(behind_count as int);
    let mut descriptors: Vec<AgentDescriptor> = Vec::new();
    next = behind_count;
    let mut d: u64 = 0;
    proof {
        match parse_many(start_d, count as nat, read_d) {
            None => {},
            Some((elements, rest)) => {
                assert(Seq::<AgentDescriptor>::empty() + elements =~= elements);
            },
        }
    }
    while d < count
        invariant
            d <= count,
            behind_count <= next <= bytes.len(),
            parse_many(start_d, count as nat, read_d) == in_front(
                descriptors@,
                parse_many(bytes@.skip(next as int), (count - d) as nat, read_d),
            ),
        decreases count - d,
    {
        match read_descriptor(bytes, next) {
            None => {
                return None;
            },
            Some((descriptor, behind)) => {
                let ghost before = descriptors@;
                descriptors.push(descriptor);
                proof {
                    match parse_many(bytes@.skip(behind as int), (count - d - 1) as nat, read_d) {
                        None => {},
                        Some((others, rest)) => {
                            assert(before + (seq![descriptor] + others) =~= before.push(
                                descriptor,
                            ) + others);
                        },
                    }
                }
                next = behind;
            },
        }
        d += 1;
    }
    proof {
        assert(descriptors@ + Seq::<AgentDescriptor>::empty() =~= descriptors@);
    }
    let (length, behind_length) = match read_number(bytes, next) {
        None => {
            return None;
        },
        Some(read) => read,
    };
    let ghost start_s = bytes@.skip(behind_length as int);
    let mut steps: Vec<Step> = Vec::new();
    next = behind_length;
    let mut i: u64 = 0;
    let ghost mut read_steps: Seq<StepView> = Seq::empty();
    proof {
        match parse_many(start_s, length as nat, read_s) {
            None => {},
            Some((elements, rest)) => {
                assert(Seq::<StepView>::empty() + elements =~= elements);
            },
        }
    }
    while i < length
        invariant
            i <= length,
            behind_length <= next <= bytes.len(),
            read_steps.len() == steps@.len(),
            forall|k: int| 0 <= k < read_steps.len() ==> #[trigger] read_steps[k] == steps@[k]@,
            parse_many(start_s, length as nat, read_s) == in_front(
                read_steps,
                parse_many(bytes@.skip(next as int), (length - i) as nat, read_s),
            ),
        decreases length - i,
    {
        match read_step(bytes, next) {
            None => {
                return None;
            },
            Some((step, behind)) => {
                let ghost first = step@;
                let ghost before = read_steps;
                steps.push(step);
                proof {
                    read_steps = read_steps.push(first);
                    match parse_many(bytes@.skip(behind as int), (length - i - 1) as nat, read_s) {
                        None => {},
                        Some((others, rest)) => {
                            assert(before + (seq![first] + others) =~= before.push(first)
                                + others);
                        },
                    }
                }
                next = behind;
            },
        }
        i += 1;
    }
    let trace = Trace { prior_traces, descriptors, steps };
    proof {
        assert(read_steps + Seq::<StepView>::empty() =~= read_steps);
        trace.lemma_view_parts();
        assert(trace@.steps =~= read_steps);
        assert(trace@.prior_traces =~= done);
    }
    Some((trace, next))
}

/// The round trip: a trace is read back from its bytes, with the same traces
/// that run first, the same descriptors, the same steps and the same terms.
pub proof fn lemma_round_trip(trace: TraceView)
    requires
        trace.representable(),
    ensures
        deserialized(trace_bytes(trace)) == Some(trace),
{
    lemma_parse_trace(trace, Seq::empty());
    assert(trace_bytes(trace) + Seq::<u8>::empty() =~= trace_bytes(trace));
}

} // verus!
