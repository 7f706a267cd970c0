use tlspuffin::algebra::{Signature, Symbol, Term, TypeShape};

const NUMBER: u32 = 1;
const TEXT: u32 = 2;

fn number() -> TypeShape {
    TypeShape::single(NUMBER)
}

fn text() -> TypeShape {
    TypeShape::single(TEXT)
}

/// 0: zero() -> number, 1: add(number, number) -> number, 2: show(number) -> text
fn signature() -> Signature {
    Signature {
        functions: vec![
            Symbol { name: "zero".to_string(), inputs: vec![], output: number() },
            Symbol { name: "add".to_string(), inputs: vec![number(), number()], output: number() },
            Symbol { name: "show".to_string(), inputs: vec![number()], output: text() },
        ],
    }
}

fn zero() -> Term {
    Term::apply(0, vec![])
}

fn add(a: Term, b: Term) -> Term {
    Term::apply(1, vec![a, b])
}

fn show(a: Term) -> Term {
    Term::apply(2, vec![a])
}

fn same(a: &Term, b: &Term) -> bool {
    match (a, b) {
        (
            Term::Variable { step: s1, index: i1, typ: t1 },
            Term::Variable { step: s2, index: i2, typ: t2 },
        ) => s1 == s2 && i1 == i2 && t1 == t2,
        (
            Term::Application { symbol: f, args: x },
            Term::Application { symbol: g, args: y },
        ) => f == g && x.len() == y.len() && x.iter().zip(y).all(|(p, q)| same(p, q)),
        _ => false,
    }
}

#[test]
fn shapes_tell_single_from_many() {
    assert_eq!(TypeShape::single(3), TypeShape { id: 3, collection: false });
    assert_eq!(TypeShape::many(3), TypeShape { id: 3, collection: true });
    assert_ne!(TypeShape::single(3), TypeShape::many(3));
}

#[test]
fn well_typed_term_is_accepted() {
    let sig = signature();
    let t = show(add(zero(), Term::variable(0, 0, number())));
    assert!(t.well_typed(&sig));
    assert!(t.root_fits(&sig));
    assert_eq!(t.result_type(&sig), Some(text()));
}

#[test]
fn wrong_arity_is_rejected() {
    let sig = signature();
    let t = Term::apply(1, vec![zero()]);
    assert!(!t.root_fits(&sig));
    assert!(!t.well_typed(&sig));
}

#[test]
fn wrong_argument_type_is_rejected() {
    let sig = signature();
    let t = add(zero(), show(zero()));
    assert!(!t.well_typed(&sig));
    let v = add(zero(), Term::variable(0, 0, text()));
    assert!(!v.well_typed(&sig));
}

#[test]
fn unknown_symbol_is_rejected() {
    let sig = signature();
    let t = Term::apply(7, vec![]);
    assert!(!t.well_typed(&sig));
    assert_eq!(t.result_type(&sig), None);
}

#[test]
fn ill_typed_child_deep_inside_is_found() {
    let sig = signature();
    let bad = Term::apply(1, vec![zero()]);
    let t = show(add(zero(), add(bad, zero())));
    assert!(t.root_fits(&sig));
    assert!(!t.well_typed(&sig));
}

#[test]
fn size_counts_nodes() {
    let t = show(add(zero(), add(zero(), Term::variable(1, 2, number()))));
    assert_eq!(t.size_within(100), Some(6));
    assert_eq!(t.size_within(6), Some(6));
    assert_eq!(t.size_within(5), None);
    assert_eq!(t.size_within(0), None);
    assert_eq!(zero().size_within(1), Some(1));
}

#[test]
fn duplicate_is_a_deep_copy() {
    let t = show(add(zero(), Term::variable(4, 5, number())));
    let copy = t.duplicate();
    assert!(same(&t, &copy));
}

#[test]
fn subterm_follows_the_path() {
    let t = show(add(zero(), Term::variable(4, 5, number())));
    assert!(same(t.subterm(&vec![]).unwrap(), &t));
    assert!(same(t.subterm(&vec![0]).unwrap(), &add(zero(), Term::variable(4, 5, number()))));
    assert!(same(t.subterm(&vec![0, 1]).unwrap(), &Term::variable(4, 5, number())));
    assert!(t.subterm(&vec![1]).is_none());
    assert!(t.subterm(&vec![0, 1, 0]).is_none());
    assert!(t.subterm(&vec![0, 0, 0]).is_none());
}

#[test]
fn paths_list_every_subterm_in_order() {
    let t = show(add(zero(), Term::variable(4, 5, number())));
    let expected: Vec<Vec<usize>> = vec![vec![], vec![0], vec![0, 0], vec![0, 1]];
    assert_eq!(t.paths(), expected);
    assert_eq!(zero().paths(), vec![Vec::<usize>::new()]);
    for p in t.paths() {
        assert!(t.subterm(&p).is_some());
    }
    assert_eq!(t.paths().len(), t.size_within(usize::MAX).unwrap());
}

#[test]
fn replaced_puts_the_new_term_in_place() {
    let t = show(add(zero(), Term::variable(4, 5, number())));
    let r = t.replaced(&vec![0, 1], &add(zero(), zero()));
    assert!(same(&r, &show(add(zero(), add(zero(), zero())))));
    let whole = t.replaced(&vec![], &zero());
    assert!(same(&whole, &zero()));
    let nowhere = t.replaced(&vec![3], &zero());
    assert!(same(&nowhere, &t));
    let too_deep = t.replaced(&vec![0, 0, 0], &zero());
    assert!(same(&too_deep, &t));
}

#[test]
fn replacing_by_the_same_type_keeps_the_term_well_typed() {
    let sig = signature();
    let t = show(add(zero(), Term::variable(4, 5, number())));
    let r = t.replaced(&vec![0, 0], &add(zero(), zero()));
    assert!(r.well_typed(&sig));
    assert_eq!(r.result_type(&sig), t.result_type(&sig));
    let broken = t.replaced(&vec![0, 0], &show(zero()));
    assert!(!broken.well_typed(&sig));
}

#[test]
fn mentions_and_refers_within() {
    let t = add(Term::variable(1, 0, number()), add(zero(), Term::variable(3, 0, number())));
    assert!(t.mentions(1));
    assert!(t.mentions(3));
    assert!(!t.mentions(0));
    assert!(t.refers_within(&vec![3, 1]));
    assert!(t.refers_within(&vec![0, 1, 2, 3]));
    assert!(!t.refers_within(&vec![1]));
    assert!(!t.refers_within(&vec![]));
    assert!(zero().refers_within(&vec![]));
}

#[test]
fn constants_and_names_are_found() {
    let sig = signature();
    assert_eq!(sig.constants(), vec![0]);
    assert_eq!(sig.find(&"zero".to_string()), Some(0));
    assert_eq!(sig.find(&"show".to_string()), Some(2));
    assert_eq!(sig.find(&"shown".to_string()), None);
    assert_eq!(sig.find(&"".to_string()), None);
    let empty = Signature { functions: vec![] };
    assert!(empty.constants().is_empty());
    assert_eq!(empty.find(&"zero".to_string()), None);
}
