use hacspec_lang::ast::BaseTyp;
use hacspec_lang::ast::Borrowing;
use hacspec_lang::ast::Span;
use hacspec_lang::ast::Typ;
use hacspec_lang::ast::TypePath;
use hacspec_lang::types::equal_types;
use hacspec_lang::types::is_copy;

fn sp(n: usize) -> Span {
    Span { lo: n, hi: n + 1 }
}

fn consumed(b: BaseTyp, n: usize) -> Typ {
    ((Borrowing::Consumed, sp(n)), (b, sp(n)))
}

fn borrowed(b: BaseTyp, n: usize) -> Typ {
    ((Borrowing::Borrowed, sp(n)), (b, sp(n)))
}

fn named(segments: &[&str], arg: Option<BaseTyp>, n: usize) -> BaseTyp {
    BaseTyp::Named(TypePath {
        location: segments.iter().map(|s| (s.to_string(), sp(n))).collect(),
        arg: arg.map(Box::new),
    })
}

#[test]
fn atoms_are_copy() {
    assert!(is_copy(&BaseTyp::Unit));
    assert!(is_copy(&BaseTyp::Bool));
    assert!(is_copy(&BaseTyp::UInt8));
    assert!(is_copy(&BaseTyp::Int128));
    assert!(is_copy(&BaseTyp::Usize));
    assert!(is_copy(&BaseTyp::Isize));
}

#[test]
fn sequences_and_named_are_never_copy() {
    assert!(!is_copy(&BaseTyp::Sequence(Box::new((BaseTyp::Bool, sp(1))))));
    assert!(!is_copy(&named(&["Word"], None, 1)));
}

#[test]
fn tuple_is_copy_iff_all_components_are() {
    let all_copy = BaseTyp::Tuple(vec![(BaseTyp::Bool, sp(1)), (BaseTyp::UInt32, sp(2))]);
    assert!(is_copy(&all_copy));
    let with_seq = BaseTyp::Tuple(vec![
        (BaseTyp::Bool, sp(1)),
        (BaseTyp::Sequence(Box::new((BaseTyp::UInt8, sp(2)))), sp(3)),
    ]);
    assert!(!is_copy(&with_seq));
    let empty = BaseTyp::Tuple(vec![]);
    assert!(is_copy(&empty));
}

#[test]
fn type_equality_is_reflexive_on_samples() {
    let samples = vec![
        consumed(BaseTyp::Bool, 1),
        borrowed(BaseTyp::UInt64, 2),
        consumed(BaseTyp::Sequence(Box::new((BaseTyp::Int16, sp(3)))), 4),
        consumed(named(&["crypto", "Word"], Some(BaseTyp::Bool), 5), 6),
        consumed(
            BaseTyp::Tuple(vec![(BaseTyp::Unit, sp(7)), (BaseTyp::Usize, sp(8))]),
            9,
        ),
    ];
    for t in &samples {
        assert!(equal_types(t, t));
    }
}

#[test]
fn type_equality_is_symmetric_on_samples() {
    let a = consumed(BaseTyp::Sequence(Box::new((BaseTyp::Int16, sp(3)))), 4);
    let b = consumed(BaseTyp::Sequence(Box::new((BaseTyp::Int16, sp(8)))), 9);
    let c = consumed(BaseTyp::Sequence(Box::new((BaseTyp::Int32, sp(3)))), 4);
    assert_eq!(equal_types(&a, &b), equal_types(&b, &a));
    assert_eq!(equal_types(&a, &c), equal_types(&c, &a));
    assert!(equal_types(&a, &b));
    assert!(!equal_types(&a, &c));
}

#[test]
fn type_equality_ignores_source_locations() {
    let a = consumed(named(&["crypto", "Word"], Some(BaseTyp::Bool), 1), 2);
    let b = consumed(named(&["crypto", "Word"], Some(BaseTyp::Bool), 40), 77);
    assert!(equal_types(&a, &b));
}

#[test]
fn type_equality_never_holds_across_modes() {
    let kinds = vec![BaseTyp::Unit, BaseTyp::Bool, BaseTyp::UInt8, BaseTyp::Isize];
    for k1 in &kinds {
        let a = match k1 {
            BaseTyp::Unit => consumed(BaseTyp::Unit, 1),
            BaseTyp::Bool => consumed(BaseTyp::Bool, 1),
            BaseTyp::UInt8 => consumed(BaseTyp::UInt8, 1),
            _ => consumed(BaseTyp::Isize, 1),
        };
        let b = match k1 {
            BaseTyp::Unit => borrowed(BaseTyp::Unit, 1),
            BaseTyp::Bool => borrowed(BaseTyp::Bool, 1),
            BaseTyp::UInt8 => borrowed(BaseTyp::UInt8, 1),
            _ => borrowed(BaseTyp::Isize, 1),
        };
        assert!(!equal_types(&a, &b));
        assert!(!equal_types(&b, &a));
    }
}

#[test]
fn widths_and_signedness_never_widen() {
    assert!(!equal_types(&consumed(BaseTyp::UInt8, 1), &consumed(BaseTyp::UInt16, 1)));
    assert!(!equal_types(&consumed(BaseTyp::Int32, 1), &consumed(BaseTyp::UInt32, 1)));
    assert!(!equal_types(&consumed(BaseTyp::Usize, 1), &consumed(BaseTyp::UInt64, 1)));
}

#[test]
fn named_types_compare_component_wise() {
    let a = consumed(named(&["crypto", "Word"], None, 1), 1);
    let b = consumed(named(&["crypto", "Word"], None, 2), 2);
    let c = consumed(named(&["crypto", "Block"], None, 1), 1);
    let d = consumed(named(&["Word"], None, 1), 1);
    assert!(equal_types(&a, &b));
    assert!(!equal_types(&a, &c));
    assert!(!equal_types(&a, &d));
}

#[test]
fn named_type_arguments_compare_recursively() {
    let some_bool = consumed(named(&["Word"], Some(BaseTyp::Bool), 1), 1);
    let some_bool2 = consumed(named(&["Word"], Some(BaseTyp::Bool), 9), 9);
    let some_u8 = consumed(named(&["Word"], Some(BaseTyp::UInt8), 1), 1);
    let none = consumed(named(&["Word"], None, 1), 1);
    assert!(equal_types(&some_bool, &some_bool2));
    assert!(!equal_types(&some_bool, &some_u8));
    assert!(!equal_types(&some_bool, &none));
    assert!(!equal_types(&none, &some_bool));
}

#[test]
fn tuples_compare_length_and_components() {
    let ab = consumed(
        BaseTyp::Tuple(vec![(BaseTyp::Bool, sp(1)), (BaseTyp::UInt8, sp(2))]),
        3,
    );
    let ab2 = consumed(
        BaseTyp::Tuple(vec![(BaseTyp::Bool, sp(8)), (BaseTyp::UInt8, sp(9))]),
        10,
    );
    let a = consumed(BaseTyp::Tuple(vec![(BaseTyp::Bool, sp(1))]), 3);
    let ba = consumed(
        BaseTyp::Tuple(vec![(BaseTyp::UInt8, sp(1)), (BaseTyp::Bool, sp(2))]),
        3,
    );
    assert!(equal_types(&ab, &ab2));
    assert!(!equal_types(&ab, &a));
    assert!(!equal_types(&ab, &ba));
}

#[test]
fn sequences_compare_element_types() {
    let s1 = consumed(BaseTyp::Sequence(Box::new((BaseTyp::UInt8, sp(1)))), 2);
    let s2 = consumed(BaseTyp::Sequence(Box::new((BaseTyp::UInt8, sp(5)))), 6);
    let s3 = consumed(BaseTyp::Sequence(Box::new((BaseTyp::Bool, sp(1)))), 2);
    assert!(equal_types(&s1, &s2));
    assert!(!equal_types(&s1, &s3));
}
