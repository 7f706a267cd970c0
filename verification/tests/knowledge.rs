use tlspuffin::algebra::TypeShape;
use tlspuffin::knowledge::{
    append_bytes, copy_bytes, find_all, find_first, lookup, Knowledge, Lookup,
};

fn entry(step: u64, index: u64, typ: TypeShape, data: &[u8]) -> Knowledge {
    Knowledge { step, index, typ, data: data.to_vec() }
}

fn store() -> Vec<Knowledge> {
    vec![
        entry(0, 0, TypeShape::single(1), &[1]),
        entry(0, 0, TypeShape::single(2), &[2, 2]),
        entry(0, 0, TypeShape::single(1), &[3]),
        entry(0, 1, TypeShape::single(1), &[4]),
        entry(1, 0, TypeShape::many(1), &[5, 5]),
        entry(1, 0, TypeShape::many(1), &[6]),
    ]
}

#[test]
fn downcast_checks_the_type_tag() {
    let k = entry(0, 0, TypeShape::single(1), &[9, 8]);
    assert_eq!(k.downcast(TypeShape::single(1)), Some(&vec![9u8, 8]));
    assert_eq!(k.downcast(TypeShape::single(2)), None);
    assert_eq!(k.downcast(TypeShape::many(1)), None);
}

#[test]
fn first_match_wins() {
    let s = store();
    let q = Lookup { at: Some((0, 0)), typ: TypeShape::single(1) };
    assert_eq!(find_first(&s, q), Some(&vec![1u8]));
    assert_eq!(lookup(&s, 0, 0, TypeShape::single(1)), Some(vec![1u8]));
    assert_eq!(lookup(&s, 0, 0, TypeShape::single(2)), Some(vec![2u8, 2]));
    assert_eq!(lookup(&s, 0, 1, TypeShape::single(1)), Some(vec![4u8]));
}

#[test]
fn lookup_is_exact_on_step_index_and_type() {
    let s = store();
    assert_eq!(lookup(&s, 0, 2, TypeShape::single(1)), None);
    assert_eq!(lookup(&s, 2, 0, TypeShape::single(1)), None);
    assert_eq!(lookup(&s, 0, 0, TypeShape::single(3)), None);
    assert_eq!(lookup(&s, 1, 0, TypeShape::single(1)), None);
    assert_eq!(lookup(&Vec::new(), 0, 0, TypeShape::single(1)), None);
}

#[test]
fn collection_lookup_gives_every_match() {
    let s = store();
    assert_eq!(lookup(&s, 1, 0, TypeShape::many(1)), Some(vec![5u8, 5, 6]));
    assert_eq!(lookup(&s, 0, 0, TypeShape::many(1)), Some(vec![]));
    assert_eq!(lookup(&Vec::new(), 0, 0, TypeShape::many(1)), Some(vec![]));
}

#[test]
fn typed_lookup_ignores_step_and_index() {
    let s = store();
    let q = Lookup { at: None, typ: TypeShape::single(1) };
    assert_eq!(find_first(&s, q), Some(&vec![1u8]));
    let all: Vec<Vec<u8>> = find_all(&s, q).into_iter().cloned().collect();
    assert_eq!(all, vec![vec![1u8], vec![3], vec![4]]);
    let none = Lookup { at: None, typ: TypeShape::single(9) };
    assert_eq!(find_first(&s, none), None);
    assert!(find_all(&s, none).is_empty());
}

#[test]
fn insertion_does_not_change_an_earlier_answer() {
    let mut s = store();
    let before = lookup(&s, 0, 0, TypeShape::single(1));
    s.push(entry(0, 0, TypeShape::single(1), &[42]));
    assert_eq!(lookup(&s, 0, 0, TypeShape::single(1)), before);
}

#[test]
fn bytes_are_copied_and_appended() {
    let a = vec![1u8, 2, 3];
    assert_eq!(copy_bytes(&a), a);
    assert_eq!(copy_bytes(&vec![]), Vec::<u8>::new());
    let mut out = vec![9u8];
    append_bytes(&mut out, &a);
    assert_eq!(out, vec![9u8, 1, 2, 3]);
    append_bytes(&mut out, &vec![]);
    assert_eq!(out, vec![9u8, 1, 2, 3]);
}
