use hacspec_lang::ast::BaseTyp;
use hacspec_lang::ast::BinOpKind;
use hacspec_lang::ast::Borrowing;
use hacspec_lang::ast::Diagnostic;
use hacspec_lang::ast::Expression;
use hacspec_lang::ast::FnKey;
use hacspec_lang::ast::FuncSig;
use hacspec_lang::ast::Literal;
use hacspec_lang::ast::Pattern;
use hacspec_lang::ast::Span;
use hacspec_lang::ast::Statement;
use hacspec_lang::ast::Typ;
use hacspec_lang::ast::TypePath;
use hacspec_lang::context::FnContext;
use hacspec_lang::context::Reporter;
use hacspec_lang::context::VarContext;
use hacspec_lang::types::equal_types;
use hacspec_lang::typechecker::typecheck_expression;
use hacspec_lang::typechecker::typecheck_pattern;
use hacspec_lang::typechecker::typecheck_statement;

fn sp(n: usize) -> Span {
    Span { lo: n, hi: n + 1 }
}

fn consumed(b: BaseTyp, n: usize) -> Typ {
    ((Borrowing::Consumed, sp(n)), (b, sp(n)))
}

fn borrowed(b: BaseTyp, n: usize) -> Typ {
    ((Borrowing::Borrowed, sp(n)), (b, sp(n)))
}

fn ident_path(name: &str, n: usize) -> TypePath {
    TypePath { location: vec![(name.to_string(), sp(n))], arg: None }
}

fn var(name: &str, n: usize) -> (Expression, Span) {
    (Expression::Named(ident_path(name, n)), sp(n))
}

fn lit(l: Literal, n: usize) -> (Expression, Span) {
    (Expression::Lit(l), sp(n))
}

fn seq_of(b: BaseTyp, n: usize) -> BaseTyp {
    BaseTyp::Sequence(Box::new((b, sp(n))))
}

#[test]
fn copy_variable_referenced_twice_stays_bound() {
    let mut rep = Reporter::new();
    let ctx = VarContext::empty().update(&"x".to_string(), &consumed(BaseTyp::Bool, 1));
    let fnc = FnContext::empty();
    let (t1, ctx1) = typecheck_expression(&mut rep, &var("x", 2), &fnc, &ctx).unwrap();
    assert!(equal_types(&t1, &consumed(BaseTyp::Bool, 1)));
    let (t2, ctx2) = typecheck_expression(&mut rep, &var("x", 3), &fnc, &ctx1).unwrap();
    assert!(equal_types(&t2, &consumed(BaseTyp::Bool, 1)));
    assert!(ctx2.get(&"x".to_string()).is_some());
    assert!(rep.log.is_empty());
}

#[test]
fn noncopy_variable_is_consumed_by_one_reference() {
    let mut rep = Reporter::new();
    let t = consumed(seq_of(BaseTyp::UInt8, 1), 1);
    let ctx = VarContext::empty().update(&"buf".to_string(), &t);
    let fnc = FnContext::empty();
    let (t1, ctx1) = typecheck_expression(&mut rep, &var("buf", 2), &fnc, &ctx).unwrap();
    assert!(equal_types(&t1, &t));
    assert!(ctx1.get(&"buf".to_string()).is_none());
    let second = typecheck_expression(&mut rep, &var("buf", 3), &fnc, &ctx1);
    assert_eq!(
        second.unwrap_err(),
        Diagnostic::UnknownIdentifier(sp(3), ident_path("buf", 3))
    );
    assert_eq!(rep.log.len(), 1);
}

#[test]
fn borrowed_variable_is_never_removed() {
    let mut rep = Reporter::new();
    let t = borrowed(seq_of(BaseTyp::UInt8, 1), 1);
    let ctx = VarContext::empty().update(&"buf".to_string(), &t);
    let fnc = FnContext::empty();
    let (_, ctx1) = typecheck_expression(&mut rep, &var("buf", 2), &fnc, &ctx).unwrap();
    assert!(ctx1.get(&"buf".to_string()).is_some());
    let (_, ctx2) = typecheck_expression(&mut rep, &var("buf", 3), &fnc, &ctx1).unwrap();
    assert!(ctx2.get(&"buf".to_string()).is_some());
    assert!(rep.log.is_empty());
}

#[test]
fn unknown_variable_fails() {
    let mut rep = Reporter::new();
    let r = typecheck_expression(
        &mut rep,
        &var("ghostly", 4),
        &FnContext::empty(),
        &VarContext::empty(),
    );
    assert_eq!(
        r.unwrap_err(),
        Diagnostic::UnknownIdentifier(sp(4), ident_path("ghostly", 4))
    );
}

#[test]
fn qualified_variable_fails() {
    let mut rep = Reporter::new();
    let path = TypePath {
        location: vec![("a".to_string(), sp(1)), ("b".to_string(), sp(2))],
        arg: None,
    };
    let e = (Expression::Named(path), sp(3));
    let r = typecheck_expression(&mut rep, &e, &FnContext::empty(), &VarContext::empty());
    let expected_path = TypePath {
        location: vec![("a".to_string(), sp(1)), ("b".to_string(), sp(2))],
        arg: None,
    };
    assert_eq!(r.unwrap_err(), Diagnostic::UnknownIdentifier(sp(3), expected_path));
}

#[test]
fn tuple_literal_with_borrowed_element_fails() {
    let mut rep = Reporter::new();
    let ctx = VarContext::empty().update(&"b".to_string(), &borrowed(BaseTyp::Bool, 1));
    let e = (
        Expression::Tuple(vec![lit(Literal::UInt8(1), 2), var("b", 3)]),
        sp(4),
    );
    let r = typecheck_expression(&mut rep, &e, &FnContext::empty(), &ctx);
    assert_eq!(r.unwrap_err(), Diagnostic::IllegalBorrowedInTuple(sp(3)));
}

#[test]
fn tuple_literal_types_its_elements_in_order() {
    let mut rep = Reporter::new();
    let e = (
        Expression::Tuple(vec![lit(Literal::UInt8(1), 2), lit(Literal::Bool(true), 3)]),
        sp(4),
    );
    let (t, _) =
        typecheck_expression(&mut rep, &e, &FnContext::empty(), &VarContext::empty()).unwrap();
    let expected = (
        (Borrowing::Consumed, sp(4)),
        (
            BaseTyp::Tuple(vec![(BaseTyp::UInt8, sp(2)), (BaseTyp::Bool, sp(3))]),
            sp(4),
        ),
    );
    assert_eq!(t, expected);
}

#[test]
fn tuple_consumes_linear_elements_left_to_right() {
    let mut rep = Reporter::new();
    let t = consumed(seq_of(BaseTyp::UInt8, 1), 1);
    let ctx = VarContext::empty().update(&"buf".to_string(), &t);
    // the first element consumes `buf`; the second reference no longer sees it
    let e = (Expression::Tuple(vec![var("buf", 2), var("buf", 3)]), sp(4));
    let r = typecheck_expression(&mut rep, &e, &FnContext::empty(), &ctx);
    assert_eq!(
        r.unwrap_err(),
        Diagnostic::UnknownIdentifier(sp(3), ident_path("buf", 3))
    );
}

#[test]
fn binary_operands_must_have_equal_types() {
    let mut rep = Reporter::new();
    let e = (
        Expression::Binary(
            BinOpKind::Plus,
            Box::new(lit(Literal::UInt8(1), 1)),
            Box::new(lit(Literal::Bool(true), 2)),
        ),
        sp(3),
    );
    let r = typecheck_expression(&mut rep, &e, &FnContext::empty(), &VarContext::empty());
    assert_eq!(
        r.unwrap_err(),
        Diagnostic::TypeMismatch(
            sp(3),
            Some(consumed(BaseTyp::UInt8, 1)),
            consumed(BaseTyp::Bool, 2)
        )
    );
}

#[test]
fn binary_result_is_the_shared_operand_type() {
    let mut rep = Reporter::new();
    let e = (
        Expression::Binary(
            BinOpKind::Plus,
            Box::new(lit(Literal::UInt32(1), 1)),
            Box::new(lit(Literal::UInt32(2), 2)),
        ),
        sp(3),
    );
    let (t, _) =
        typecheck_expression(&mut rep, &e, &FnContext::empty(), &VarContext::empty()).unwrap();
    assert_eq!(t, consumed(BaseTyp::UInt32, 1));
}

#[test]
fn indexing_with_consumed_integer_yields_element_type() {
    let mut rep = Reporter::new();
    let ctx = VarContext::empty().update(
        &"buf".to_string(),
        &borrowed(seq_of(BaseTyp::UInt16, 7), 1),
    );
    let e = (
        Expression::ArrayIndex(Box::new(var("buf", 2)), Box::new(lit(Literal::Usize(0), 3))),
        sp(4),
    );
    let (t, _) = typecheck_expression(&mut rep, &e, &FnContext::empty(), &ctx).unwrap();
    // the result is Consumed even when the sequence itself is borrowed
    assert_eq!(t, ((Borrowing::Consumed, sp(1)), (BaseTyp::UInt16, sp(7))));
}

#[test]
fn indexing_with_borrowed_index_fails() {
    let mut rep = Reporter::new();
    let ctx = VarContext::empty()
        .update(&"buf".to_string(), &consumed(seq_of(BaseTyp::UInt16, 7), 1))
        .update(&"i".to_string(), &borrowed(BaseTyp::Usize, 8));
    let e = (
        Expression::ArrayIndex(Box::new(var("buf", 2)), Box::new(var("i", 3))),
        sp(4),
    );
    let r = typecheck_expression(&mut rep, &e, &FnContext::empty(), &ctx);
    assert_eq!(r.unwrap_err(), Diagnostic::BorrowedIndex(sp(3)));
}

#[test]
fn indexing_with_bool_index_fails() {
    let mut rep = Reporter::new();
    let ctx = VarContext::empty().update(
        &"buf".to_string(),
        &consumed(seq_of(BaseTyp::UInt16, 7), 1),
    );
    let e = (
        Expression::ArrayIndex(Box::new(var("buf", 2)), Box::new(lit(Literal::Bool(true), 3))),
        sp(4),
    );
    let r = typecheck_expression(&mut rep, &e, &FnContext::empty(), &ctx);
    assert_eq!(
        r.unwrap_err(),
        Diagnostic::NonIntegerIndex(sp(3), consumed(BaseTyp::Bool, 3))
    );
}

#[test]
fn indexing_a_non_sequence_fails() {
    let mut rep = Reporter::new();
    let ctx = VarContext::empty().update(&"x".to_string(), &consumed(BaseTyp::Bool, 1));
    let e = (
        Expression::ArrayIndex(Box::new(var("x", 2)), Box::new(lit(Literal::Usize(0), 3))),
        sp(4),
    );
    let r = typecheck_expression(&mut rep, &e, &FnContext::empty(), &ctx);
    assert_eq!(
        r.unwrap_err(),
        Diagnostic::NonSequenceIndexed(sp(2), consumed(BaseTyp::Bool, 1))
    );
}

fn sig(params: Vec<(&str, Typ)>, ret: Typ) -> FuncSig {
    FuncSig {
        args: params
            .into_iter()
            .map(|(x, t)| ((x.to_string(), sp(90)), t))
            .collect(),
        ret,
    }
}

fn call(name: &str, args: Vec<(Expression, Span)>, n: usize) -> (Expression, Span) {
    (
        Expression::FuncCall((ident_path(name, n), sp(n)), args),
        sp(n),
    )
}

#[test]
fn call_argument_with_wrong_mode_fails_despite_matching_base_type() {
    let mut rep = Reporter::new();
    let fnc = FnContext::empty().update(
        FnKey::Static("f".to_string()),
        sig(vec![("x", borrowed(BaseTyp::Bool, 50))], consumed(BaseTyp::Unit, 51)),
    );
    let e = call("f", vec![lit(Literal::Bool(true), 2)], 1);
    let r = typecheck_expression(&mut rep, &e, &fnc, &VarContext::empty());
    assert_eq!(
        r.unwrap_err(),
        Diagnostic::BorrowModeMismatch(sp(2), Borrowing::Borrowed, Borrowing::Consumed)
    );
}

#[test]
fn call_argument_with_superfluous_borrow_fails() {
    let mut rep = Reporter::new();
    let fnc = FnContext::empty().update(
        FnKey::Static("f".to_string()),
        sig(vec![("x", consumed(BaseTyp::Bool, 50))], consumed(BaseTyp::Unit, 51)),
    );
    let ctx = VarContext::empty().update(&"b".to_string(), &borrowed(BaseTyp::Bool, 1));
    let e = call("f", vec![var("b", 2)], 1);
    let r = typecheck_expression(&mut rep, &e, &fnc, &ctx);
    assert_eq!(
        r.unwrap_err(),
        Diagnostic::BorrowModeMismatch(sp(2), Borrowing::Consumed, Borrowing::Borrowed)
    );
}

#[test]
fn call_result_comes_from_the_declared_signature() {
    let mut rep = Reporter::new();
    let fnc = FnContext::empty().update(
        FnKey::Static("f".to_string()),
        sig(vec![], consumed(BaseTyp::Int32, 51)),
    );
    let e = call("f", vec![], 1);
    let (t, _) = typecheck_expression(&mut rep, &e, &fnc, &VarContext::empty()).unwrap();
    assert_eq!(t, consumed(BaseTyp::Int32, 51));
    assert!(rep.log.is_empty());
}

#[test]
fn unknown_function_fails() {
    let mut rep = Reporter::new();
    let e = call("nowhere", vec![], 1);
    let r = typecheck_expression(&mut rep, &e, &FnContext::empty(), &VarContext::empty());
    assert_eq!(
        r.unwrap_err(),
        Diagnostic::UnknownFunctionOrMethod(sp(1), FnKey::Static("nowhere".to_string()))
    );
}

#[test]
fn qualified_callee_is_rejected() {
    let mut rep = Reporter::new();
    let path = TypePath {
        location: vec![("m".to_string(), sp(1)), ("f".to_string(), sp(2))],
        arg: None,
    };
    let e = (Expression::FuncCall((path, sp(3)), vec![]), sp(4));
    let r = typecheck_expression(&mut rep, &e, &FnContext::empty(), &VarContext::empty());
    assert_eq!(r.unwrap_err(), Diagnostic::UnsupportedQualifiedCall(sp(3)));
}

#[test]
fn arity_mismatch_is_reported_but_checking_continues() {
    let mut rep = Reporter::new();
    let fnc = FnContext::empty().update(
        FnKey::Static("f".to_string()),
        sig(
            vec![("x", consumed(BaseTyp::Bool, 50)), ("y", consumed(BaseTyp::Bool, 52))],
            consumed(BaseTyp::Int32, 51),
        ),
    );
    // one argument for two parameters: reported, then the zipped shorter
    // list is checked and the call still succeeds
    let e = call("f", vec![lit(Literal::Bool(true), 2)], 1);
    let r = typecheck_expression(&mut rep, &e, &fnc, &VarContext::empty());
    let (t, _) = r.unwrap();
    assert_eq!(t, consumed(BaseTyp::Int32, 51));
    assert_eq!(rep.log, vec![Diagnostic::ArityMismatch(sp(1), 2, 1)]);
}

#[test]
fn arity_mismatch_then_bad_argument_still_fails() {
    let mut rep = Reporter::new();
    let fnc = FnContext::empty().update(
        FnKey::Static("f".to_string()),
        sig(
            vec![("x", consumed(BaseTyp::Bool, 50)), ("y", consumed(BaseTyp::Bool, 52))],
            consumed(BaseTyp::Int32, 51),
        ),
    );
    let e = call("f", vec![lit(Literal::UInt8(7), 2)], 1);
    let r = typecheck_expression(&mut rep, &e, &fnc, &VarContext::empty());
    assert_eq!(
        r.unwrap_err(),
        Diagnostic::TypeMismatch(
            sp(2),
            Some(consumed(BaseTyp::Bool, 50)),
            consumed(BaseTyp::UInt8, 2)
        )
    );
    assert_eq!(rep.log.len(), 2);
    assert_eq!(rep.log[0], Diagnostic::ArityMismatch(sp(1), 2, 1));
}

#[test]
fn method_call_appends_receiver_as_final_argument() {
    let mut rep = Reporter::new();
    // double: (self: Consumed UInt8) -> Consumed UInt8, keyed by receiver type
    let fnc = FnContext::empty().update(
        FnKey::Method(BaseTyp::UInt8, "double".to_string()),
        sig(vec![("self", consumed(BaseTyp::UInt8, 50))], consumed(BaseTyp::UInt8, 51)),
    );
    let e = (
        Expression::MethodCall(
            Box::new(lit(Literal::UInt8(3), 1)),
            ("double".to_string(), sp(2)),
            vec![],
        ),
        sp(3),
    );
    let (t, _) = typecheck_expression(&mut rep, &e, &fnc, &VarContext::empty()).unwrap();
    assert_eq!(t, consumed(BaseTyp::UInt8, 51));
    assert!(rep.log.is_empty());
}

#[test]
fn method_call_checks_receiver_mode_as_argument() {
    let mut rep = Reporter::new();
    let fnc = FnContext::empty().update(
        FnKey::Method(BaseTyp::UInt8, "double".to_string()),
        sig(vec![("self", borrowed(BaseTyp::UInt8, 50))], consumed(BaseTyp::UInt8, 51)),
    );
    let e = (
        Expression::MethodCall(
            Box::new(lit(Literal::UInt8(3), 1)),
            ("double".to_string(), sp(2)),
            vec![],
        ),
        sp(3),
    );
    let r = typecheck_expression(&mut rep, &e, &fnc, &VarContext::empty());
    assert_eq!(
        r.unwrap_err(),
        Diagnostic::BorrowModeMismatch(sp(1), Borrowing::Borrowed, Borrowing::Consumed)
    );
}

#[test]
fn unknown_method_fails_with_receiver_type() {
    let mut rep = Reporter::new();
    let e = (
        Expression::MethodCall(
            Box::new(lit(Literal::UInt8(3), 1)),
            ("spin".to_string(), sp(2)),
            vec![],
        ),
        sp(3),
    );
    let r = typecheck_expression(&mut rep, &e, &FnContext::empty(), &VarContext::empty());
    assert_eq!(
        r.unwrap_err(),
        Diagnostic::UnknownFunctionOrMethod(
            sp(2),
            FnKey::Method(BaseTyp::UInt8, "spin".to_string())
        )
    );
}

#[test]
fn method_lookup_ignores_spans_inside_the_receiver_type() {
    let mut rep = Reporter::new();
    let fnc = FnContext::empty().update(
        FnKey::Method(seq_of(BaseTyp::UInt8, 77), "len".to_string()),
        sig(
            vec![("self", borrowed(seq_of(BaseTyp::UInt8, 78), 50))],
            consumed(BaseTyp::Usize, 51),
        ),
    );
    let ctx = VarContext::empty().update(
        &"buf".to_string(),
        &borrowed(seq_of(BaseTyp::UInt8, 5), 1),
    );
    let e = (
        Expression::MethodCall(Box::new(var("buf", 2)), ("len".to_string(), sp(3)), vec![]),
        sp(4),
    );
    let (t, _) = typecheck_expression(&mut rep, &e, &fnc, &ctx).unwrap();
    assert_eq!(t, consumed(BaseTyp::Usize, 51));
}

#[test]
fn wildcard_pattern_binds_nothing() {
    let mut rep = Reporter::new();
    let ctx =
        typecheck_pattern(&mut rep, &(Pattern::WildCard, sp(1)), &consumed(BaseTyp::Bool, 2))
            .unwrap();
    assert!(ctx.get(&"x".to_string()).is_none());
}

#[test]
fn identifier_pattern_binds_the_full_type() {
    let mut rep = Reporter::new();
    let t = borrowed(seq_of(BaseTyp::UInt8, 3), 2);
    let ctx = typecheck_pattern(&mut rep, &(Pattern::IdentPat("x".to_string()), sp(1)), &t)
        .unwrap();
    assert_eq!(ctx.get(&"x".to_string()).unwrap(), &t);
}

#[test]
fn tuple_pattern_against_non_tuple_type_fails() {
    let mut rep = Reporter::new();
    let pat = (
        Pattern::Tuple(vec![(Pattern::IdentPat("a".to_string()), sp(1))]),
        sp(2),
    );
    let r = typecheck_pattern(&mut rep, &pat, &consumed(BaseTyp::Bool, 3));
    assert_eq!(
        r.unwrap_err(),
        Diagnostic::TypeMismatch(sp(2), None, consumed(BaseTyp::Bool, 3))
    );
}

#[test]
fn let_binds_the_call_result_type() {
    let mut rep = Reporter::new();
    let fnc = FnContext::empty().update(
        FnKey::Static("f".to_string()),
        sig(vec![], consumed(BaseTyp::Int32, 51)),
    );
    let s = (
        Statement::LetBinding(
            (Pattern::IdentPat("x".to_string()), sp(1)),
            None,
            call("f", vec![], 2),
        ),
        sp(3),
    );
    let (t, ctx2, _) =
        typecheck_statement(&mut rep, &s, &fnc, &VarContext::empty()).unwrap();
    assert_eq!(t, consumed(BaseTyp::Unit, 3));
    assert_eq!(ctx2.get(&"x".to_string()).unwrap(), &consumed(BaseTyp::Int32, 51));
}

#[test]
fn declared_type_must_equal_the_inferred_type() {
    let mut rep = Reporter::new();
    let s = (
        Statement::LetBinding(
            (Pattern::IdentPat("x".to_string()), sp(1)),
            Some((consumed(BaseTyp::Bool, 4), sp(5))),
            lit(Literal::UInt8(1), 2),
        ),
        sp(3),
    );
    let r = typecheck_statement(&mut rep, &s, &FnContext::empty(), &VarContext::empty());
    assert_eq!(
        r.unwrap_err(),
        Diagnostic::TypeMismatch(
            sp(1),
            Some(consumed(BaseTyp::Bool, 4)),
            consumed(BaseTyp::UInt8, 2)
        )
    );
}

#[test]
fn matching_declared_type_is_accepted() {
    let mut rep = Reporter::new();
    let s = (
        Statement::LetBinding(
            (Pattern::IdentPat("x".to_string()), sp(1)),
            Some((consumed(BaseTyp::UInt8, 4), sp(5))),
            lit(Literal::UInt8(1), 2),
        ),
        sp(3),
    );
    assert!(typecheck_statement(&mut rep, &s, &FnContext::empty(), &VarContext::empty()).is_ok());
    assert!(rep.log.is_empty());
}

#[test]
fn destructuring_binds_each_component() {
    let mut rep = Reporter::new();
    let s = (
        Statement::LetBinding(
            (
                Pattern::Tuple(vec![
                    (Pattern::IdentPat("a".to_string()), sp(1)),
                    (Pattern::IdentPat("b".to_string()), sp(2)),
                ]),
                sp(3),
            ),
            None,
            (
                Expression::Tuple(vec![lit(Literal::UInt8(1), 4), lit(Literal::Bool(true), 5)]),
                sp(6),
            ),
        ),
        sp(7),
    );
    let (_, ctx2, _) =
        typecheck_statement(&mut rep, &s, &FnContext::empty(), &VarContext::empty()).unwrap();
    assert!(equal_types(
        ctx2.get(&"a".to_string()).unwrap(),
        &consumed(BaseTyp::UInt8, 0)
    ));
    assert!(equal_types(
        ctx2.get(&"b".to_string()).unwrap(),
        &consumed(BaseTyp::Bool, 0)
    ));
    assert!(rep.log.is_empty());
}

#[test]
fn short_tuple_pattern_reports_arity_and_still_binds() {
    let mut rep = Reporter::new();
    let s = (
        Statement::LetBinding(
            (
                Pattern::Tuple(vec![(Pattern::IdentPat("a".to_string()), sp(1))]),
                sp(3),
            ),
            None,
            (
                Expression::Tuple(vec![lit(Literal::UInt8(1), 4), lit(Literal::Bool(true), 5)]),
                sp(6),
            ),
        ),
        sp(7),
    );
    let (_, ctx2, _) =
        typecheck_statement(&mut rep, &s, &FnContext::empty(), &VarContext::empty()).unwrap();
    assert_eq!(rep.log, vec![Diagnostic::ArityMismatch(sp(3), 2, 1)]);
    assert!(equal_types(
        ctx2.get(&"a".to_string()).unwrap(),
        &consumed(BaseTyp::UInt8, 0)
    ));
    assert!(ctx2.get(&"b".to_string()).is_none());
}

#[test]
fn later_duplicate_bindings_overwrite_earlier_ones() {
    let mut rep = Reporter::new();
    let s = (
        Statement::LetBinding(
            (
                Pattern::Tuple(vec![
                    (Pattern::IdentPat("a".to_string()), sp(1)),
                    (Pattern::IdentPat("a".to_string()), sp(2)),
                ]),
                sp(3),
            ),
            None,
            (
                Expression::Tuple(vec![lit(Literal::UInt8(1), 4), lit(Literal::Bool(true), 5)]),
                sp(6),
            ),
        ),
        sp(7),
    );
    let (_, ctx2, _) =
        typecheck_statement(&mut rep, &s, &FnContext::empty(), &VarContext::empty()).unwrap();
    assert!(equal_types(
        ctx2.get(&"a".to_string()).unwrap(),
        &consumed(BaseTyp::Bool, 0)
    ));
}

#[test]
fn let_shadows_an_existing_binding() {
    let mut rep = Reporter::new();
    let ctx = VarContext::empty().update(&"x".to_string(), &consumed(BaseTyp::Bool, 1));
    let s = (
        Statement::LetBinding(
            (Pattern::IdentPat("x".to_string()), sp(2)),
            None,
            lit(Literal::UInt8(9), 3),
        ),
        sp(4),
    );
    let (_, ctx2, _) = typecheck_statement(&mut rep, &s, &FnContext::empty(), &ctx).unwrap();
    assert!(equal_types(
        ctx2.get(&"x".to_string()).unwrap(),
        &consumed(BaseTyp::UInt8, 0)
    ));
}

#[test]
fn unary_propagates_the_operand_type_unchanged() {
    let mut rep = Reporter::new();
    let e = (
        Expression::Unary(
            hacspec_lang::ast::UnOpKind::Negate,
            Box::new(lit(Literal::Int32(5), 1)),
        ),
        sp(2),
    );
    let (t, _) =
        typecheck_expression(&mut rep, &e, &FnContext::empty(), &VarContext::empty()).unwrap();
    assert_eq!(t, consumed(BaseTyp::Int32, 1));
}

#[test]
fn unary_consumes_what_its_operand_consumes() {
    let mut rep = Reporter::new();
    let t = consumed(seq_of(BaseTyp::UInt8, 1), 1);
    let ctx = VarContext::empty().update(&"buf".to_string(), &t);
    let e = (
        Expression::Unary(hacspec_lang::ast::UnOpKind::Not, Box::new(var("buf", 2))),
        sp(3),
    );
    let (_, ctx1) = typecheck_expression(&mut rep, &e, &FnContext::empty(), &ctx).unwrap();
    assert!(ctx1.get(&"buf".to_string()).is_none());
}

#[test]
fn method_call_checks_explicit_arguments_before_the_receiver() {
    let mut rep = Reporter::new();
    // add: (other: Consumed UInt8, self: Consumed UInt8) -> Consumed UInt8
    let fnc = FnContext::empty().update(
        FnKey::Method(BaseTyp::UInt8, "plus".to_string()),
        sig(
            vec![("other", consumed(BaseTyp::UInt8, 50)), ("self", consumed(BaseTyp::UInt8, 52))],
            consumed(BaseTyp::UInt8, 51),
        ),
    );
    let e = (
        Expression::MethodCall(
            Box::new(lit(Literal::UInt8(3), 1)),
            ("plus".to_string(), sp(2)),
            vec![lit(Literal::Bool(true), 9)],
        ),
        sp(3),
    );
    let r = typecheck_expression(&mut rep, &e, &fnc, &VarContext::empty());
    assert_eq!(
        r.unwrap_err(),
        Diagnostic::TypeMismatch(
            sp(9),
            Some(consumed(BaseTyp::UInt8, 50)),
            consumed(BaseTyp::Bool, 9)
        )
    );
}

#[test]
fn method_arity_mismatch_is_reported_but_checking_continues() {
    let mut rep = Reporter::new();
    // one declared parameter, but one explicit argument plus the receiver
    let fnc = FnContext::empty().update(
        FnKey::Method(BaseTyp::UInt8, "plus".to_string()),
        sig(vec![("other", consumed(BaseTyp::UInt8, 50))], consumed(BaseTyp::UInt8, 51)),
    );
    let e = (
        Expression::MethodCall(
            Box::new(lit(Literal::UInt8(3), 1)),
            ("plus".to_string(), sp(2)),
            vec![lit(Literal::UInt8(4), 9)],
        ),
        sp(3),
    );
    let (t, _) = typecheck_expression(&mut rep, &e, &fnc, &VarContext::empty()).unwrap();
    assert_eq!(t, consumed(BaseTyp::UInt8, 51));
    assert_eq!(rep.log, vec![Diagnostic::ArityMismatch(sp(3), 1, 1)]);
}
