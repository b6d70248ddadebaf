//! The ownership and typing laws the checker guarantees, stated and proved
//! against the typing rules of `crate::rules`.

use vstd::prelude::*;
use crate::ast::Borrowing;
use crate::ast::Expression;
use crate::ast::Span;
use crate::ast::Statement;
use crate::rules::check_args_spec;
use crate::rules::check_expression_spec;
use crate::rules::check_statement_spec;
use crate::rules::check_tuple_spec;
use crate::types::is_copy_spec;
use crate::types::is_integer_spec;
use crate::types::typ_eq_spec;
use crate::views::BaseTypV;
use crate::views::DiagnosticV;
use crate::views::FnKeyV;
use crate::views::FuncSigV;
use crate::views::TypV;

verus! {

/// Type equality is reflexive over the whole type grammar.
pub proof fn lemma_typ_eq_reflexive(t: TypV)
    ensures
        typ_eq_spec(t, t),
{
}

/// Type equality is symmetric over the whole type grammar.
pub proof fn lemma_typ_eq_symmetric(t1: TypV, t2: TypV)
    ensures
        typ_eq_spec(t1, t2) == typ_eq_spec(t2, t1),
{
}

/// Type equality never holds across differing borrowing modes.
pub proof fn lemma_typ_eq_needs_same_mode(t1: TypV, t2: TypV)
    ensures
        t1.0.0 != t2.0.0 ==> !typ_eq_spec(t1, t2),
{
}

/// Two sequential references to a Consumed variable of copy type both
/// succeed with the variable's type, neither emits anything, and the name
/// stays bound: the first reference leaves the context unchanged, so the
/// second sees the very same context.
pub proof fn lemma_copy_reference_keeps_binding(
    e1: (Expression, Span),
    e2: (Expression, Span),
    name: Seq<char>,
    fnc: Map<FnKeyV, FuncSigV>,
    ctx: Map<Seq<char>, TypV>,
)
    requires
        e1.0 is Named,
        e1.0->Named_0.arg is None,
        e1.0->Named_0.location@.len() == 1,
        e1.0->Named_0.location@[0].0@ == name,
        e2.0 is Named,
        e2.0->Named_0.arg is None,
        e2.0->Named_0.location@.len() == 1,
        e2.0->Named_0.location@[0].0@ == name,
        ctx.contains_key(name),
        ctx[name].0.0 == Borrowing::Consumed,
        is_copy_spec(ctx[name].1.0),
    ensures
        check_expression_spec(e1, fnc, ctx).res == Option::Some((ctx[name], ctx)),
        check_expression_spec(e1, fnc, ctx).emitted == Seq::<DiagnosticV>::empty(),
        check_expression_spec(e2, fnc, check_expression_spec(e1, fnc, ctx).res->Some_0.1).res
            == Option::Some((ctx[name], ctx)),
{
}

/// One reference to a Consumed variable of non-copy type succeeds and
/// removes the name from the context; a second, immediately following
/// reference fails with `UnknownIdentifier`.
pub proof fn lemma_noncopy_reference_consumes(
    e1: (Expression, Span),
    e2: (Expression, Span),
    name: Seq<char>,
    fnc: Map<FnKeyV, FuncSigV>,
    ctx: Map<Seq<char>, TypV>,
)
    requires
        e1.0 is Named,
        e1.0->Named_0.arg is None,
        e1.0->Named_0.location@.len() == 1,
        e1.0->Named_0.location@[0].0@ == name,
        e2.0 is Named,
        e2.0->Named_0.arg is None,
        e2.0->Named_0.location@.len() == 1,
        e2.0->Named_0.location@[0].0@ == name,
        ctx.contains_key(name),
        ctx[name].0.0 == Borrowing::Consumed,
        !is_copy_spec(ctx[name].1.0),
    ensures
        check_expression_spec(e1, fnc, ctx).res == Option::Some((ctx[name], ctx.remove(name))),
        check_expression_spec(e1, fnc, ctx).emitted == Seq::<DiagnosticV>::empty(),
        check_expression_spec(e2, fnc, ctx.remove(name)).res is None,
        check_expression_spec(e2, fnc, ctx.remove(name)).emitted == seq![
            DiagnosticV::UnknownIdentifier(e2.1, crate::views::path_view(e2.0->Named_0)),
        ],
{
}

/// A reference to a Borrowed variable never removes it from the context,
/// whether or not its type is copy.
pub proof fn lemma_borrowed_reference_keeps_binding(
    e: (Expression, Span),
    name: Seq<char>,
    fnc: Map<FnKeyV, FuncSigV>,
    ctx: Map<Seq<char>, TypV>,
)
    requires
        e.0 is Named,
        e.0->Named_0.arg is None,
        e.0->Named_0.location@.len() == 1,
        e.0->Named_0.location@[0].0@ == name,
        ctx.contains_key(name),
        ctx[name].0.0 == Borrowing::Borrowed,
    ensures
        check_expression_spec(e, fnc, ctx).res == Option::Some((ctx[name], ctx)),
        check_expression_spec(e, fnc, ctx).emitted == Seq::<DiagnosticV>::empty(),
{
}

/// A tuple literal whose element `j` evaluates to a Borrowed value fails,
/// the last diagnostic being `IllegalBorrowedInTuple` at that element.
pub proof fn lemma_borrowed_element_fails_tuple(
    args: Seq<(Expression, Span)>,
    j: int,
    fnc: Map<FnKeyV, FuncSigV>,
    ctx: Map<Seq<char>, TypV>,
)
    requires
        0 <= j < args.len(),
        check_expression_spec(args[j], fnc, ctx).res matches Option::Some(p) && p.0.0.0
            == Borrowing::Borrowed,
    ensures
        check_tuple_spec(args, j, fnc, ctx).res is None,
        check_tuple_spec(args, j, fnc, ctx).emitted.len() > 0,
        check_tuple_spec(args, j, fnc, ctx).emitted.last()
            == DiagnosticV::IllegalBorrowedInTuple(args[j].1),
{
}

/// A tuple literal fails exactly when checking its element list fails, with
/// the same diagnostics.
pub proof fn lemma_tuple_fails_with_elements(
    e: (Expression, Span),
    fnc: Map<FnKeyV, FuncSigV>,
    ctx: Map<Seq<char>, TypV>,
)
    requires
        e.0 is Tuple,
    ensures
        check_expression_spec(e, fnc, ctx).res is None <==> check_tuple_spec(
            e.0->Tuple_0@,
            0,
            fnc,
            ctx,
        ).res is None,
        check_expression_spec(e, fnc, ctx).emitted == check_tuple_spec(
            e.0->Tuple_0@,
            0,
            fnc,
            ctx,
        ).emitted,
{
}

/// Indexing: once the indexed expression has come out a `Sequence(cell)` and
/// the index expression has been checked, a Consumed integer-typed index
/// succeeds and yields `(Consumed, cell)`; a Borrowed index fails with
/// `BorrowedIndex`; a Consumed non-integer index fails with
/// `NonIntegerIndex` naming the found type.
pub proof fn lemma_sequence_indexing(
    e: (Expression, Span),
    fnc: Map<FnKeyV, FuncSigV>,
    ctx: Map<Seq<char>, TypV>,
    cell: (BaseTypV, Span),
    t1: TypV,
    ctx1: Map<Seq<char>, TypV>,
    t2: TypV,
    ctx2: Map<Seq<char>, TypV>,
)
    requires
        e.0 is ArrayIndex,
        check_expression_spec(*e.0->ArrayIndex_0, fnc, ctx).res == Option::Some((t1, ctx1)),
        t1.1.0 == BaseTypV::Sequence(Box::new(cell)),
        check_expression_spec(*e.0->ArrayIndex_1, fnc, ctx1).res == Option::Some((t2, ctx2)),
    ensures
        t2.0.0 == Borrowing::Consumed && is_integer_spec(t2.1.0) ==> check_expression_spec(
            e,
            fnc,
            ctx,
        ).res == Option::Some((((Borrowing::Consumed, t1.0.1), cell), ctx2)),
        t2.0.0 == Borrowing::Borrowed ==> check_expression_spec(e, fnc, ctx).res is None
            && check_expression_spec(e, fnc, ctx).emitted.last() == DiagnosticV::BorrowedIndex(
            (*e.0->ArrayIndex_1).1,
        ),
        t2.0.0 == Borrowing::Consumed && !is_integer_spec(t2.1.0) ==> check_expression_spec(
            e,
            fnc,
            ctx,
        ).res is None && check_expression_spec(e, fnc, ctx).emitted.last()
            == DiagnosticV::NonIntegerIndex((*e.0->ArrayIndex_1).1, t2),
{
}

/// A call whose argument `j` evaluates to a borrow mode different from the
/// declared parameter's fails with `BorrowModeMismatch` naming the expected
/// and found modes, regardless of whether the base types match.
pub proof fn lemma_borrow_mode_mismatch_fails_call(
    params: Seq<TypV>,
    args: Seq<(Expression, Span)>,
    j: int,
    fnc: Map<FnKeyV, FuncSigV>,
    ctx: Map<Seq<char>, TypV>,
    arg_t: TypV,
    ctx2: Map<Seq<char>, TypV>,
)
    requires
        0 <= j < params.len(),
        j < args.len(),
        check_expression_spec(args[j], fnc, ctx).res == Option::Some((arg_t, ctx2)),
        arg_t.0.0 != params[j].0.0,
    ensures
        check_args_spec(params, args, j, fnc, ctx).res is None,
        check_args_spec(params, args, j, fnc, ctx).emitted.len() > 0,
        check_args_spec(params, args, j, fnc, ctx).emitted.last()
            == DiagnosticV::BorrowModeMismatch(args[j].1, params[j].0.0, arg_t.0.0),
{
}

/// A let-binding of a plain variable, without a declared type, binds the
/// name to exactly the type the right-hand side came out with.
pub proof fn lemma_let_binds_inferred_type(
    s: (Statement, Span),
    fnc: Map<FnKeyV, FuncSigV>,
    ctx: Map<Seq<char>, TypV>,
    t: TypV,
    ctx2: Map<Seq<char>, TypV>,
)
    requires
        s.0->LetBinding_0.0 is IdentPat,
        s.0->LetBinding_1 is None,
        check_expression_spec(s.0->LetBinding_2, fnc, ctx).res == Option::Some((t, ctx2)),
    ensures
        check_statement_spec(s, fnc, ctx).res == Option::Some(
            (
                ((Borrowing::Consumed, s.1), (BaseTypV::Unit, s.1)),
                ctx2.insert(s.0->LetBinding_0.0->IdentPat_0@, t),
                Set::<Seq<char>>::empty(),
            ),
        ),
        check_statement_spec(s, fnc, ctx).emitted == check_expression_spec(
            s.0->LetBinding_2,
            fnc,
            ctx,
        ).emitted,
{
    let x = s.0->LetBinding_0.0->IdentPat_0@;
    assert(ctx2.union_prefer_right(Map::<Seq<char>, TypV>::empty().insert(x, t)) =~= ctx2.insert(
        x,
        t,
    ));
    assert(check_expression_spec(s.0->LetBinding_2, fnc, ctx).emitted + Seq::<
        DiagnosticV,
    >::empty() =~= check_expression_spec(s.0->LetBinding_2, fnc, ctx).emitted);
}

} // verus!
