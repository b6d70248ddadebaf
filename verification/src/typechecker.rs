//! The executable checker. Every function returns exactly what the typing
//! rules of `crate::rules` say: the proved contracts tie each result and each
//! reported diagnostic to the corresponding rule.

use vstd::prelude::*;
use crate::ast::BaseTyp;
use crate::ast::Borrowing;
use crate::ast::Diagnostic;
use crate::ast::Expression;
use crate::ast::Literal;
use crate::ast::Span;
use crate::ast::Typ;
use crate::context::clone_fn_key;
use crate::context::FnContext;
use crate::context::Reporter;
use crate::context::VarContext;
use crate::ast::FnKey;
use crate::ast::TypecheckingResult;
use crate::ast::Block;
use crate::ast::Item;
use crate::ast::Pattern;
use crate::ast::Program;
use crate::ast::Statement;
use crate::context::VarSet;
use crate::rules::arg_check_spec;
use crate::rules::check_block_spec;
use crate::rules::check_item_spec;
use crate::rules::check_pattern_args_spec;
use crate::rules::check_pattern_spec;
use crate::rules::check_program_spec;
use crate::rules::check_statement_spec;
use crate::rules::item_annotated;
use crate::rules::program_annotated;
use crate::rules::seed_context_spec;
use crate::types::clone_sig;
use crate::views::opt_typ_view;
use crate::rules::check_args_spec;
use crate::rules::check_expression_spec;
use crate::rules::check_tuple_spec;
use crate::rules::lit_base_spec;
use crate::rules::sig_params;
use crate::types::clone_base;
use crate::types::clone_path;
use crate::types::clone_typ;
use crate::types::equal_base;
use crate::types::equal_types;
use crate::types::is_copy;
use crate::types::is_integer;
use crate::views::base_typ_view;
use crate::views::diagnostic_view;
use crate::views::lemma_typ_list_view;
use crate::views::params_view;
use crate::views::sig_view;
use crate::views::typ_list_view;
use crate::views::typ_view;
use crate::views::DiagnosticV;

verus! {

/// Sequence concatenation is associative.
proof fn lemma_concat_assoc<A>(a: Seq<A>, b: Seq<A>, c: Seq<A>)
    ensures
        (a + b) + c == a + (b + c),
{
    assert((a + b) + c =~= a + (b + c));
}

/// Pushing onto a concatenation pushes onto its right part.
proof fn lemma_push_concat<A>(a: Seq<A>, b: Seq<A>, x: A)
    ensures
        (a + b).push(x) == a + b.push(x),
{
    assert((a + b).push(x) =~= a + b.push(x));
}

/// A push is a concatenation with a singleton.
proof fn lemma_push_is_concat<A>(a: Seq<A>, x: A)
    ensures
        a.push(x) == a + seq![x],
{
    assert(a.push(x) =~= a + seq![x]);
}

/// Duplicates a diagnostic; its view is kept.
fn clone_diag(d: &Diagnostic) -> (r: Diagnostic)
    ensures
        diagnostic_view(r) == diagnostic_view(*d),
{
    match d {
        Diagnostic::UnknownIdentifier(sp, p) => Diagnostic::UnknownIdentifier(*sp, clone_path(p)),
        Diagnostic::UnknownFunctionOrMethod(sp, k) => Diagnostic::UnknownFunctionOrMethod(
            *sp,
            clone_fn_key(k),
        ),
        Diagnostic::TypeMismatch(sp, expected, found) => Diagnostic::TypeMismatch(
            *sp,
            match expected {
                Option::Some(t) => Option::Some(clone_typ(t)),
                Option::None => Option::None,
            },
            clone_typ(found),
        ),
        Diagnostic::BorrowModeMismatch(sp, expected, found) => Diagnostic::BorrowModeMismatch(
            *sp,
            *expected,
            *found,
        ),
        Diagnostic::ArityMismatch(sp, expected, found) => Diagnostic::ArityMismatch(
            *sp,
            *expected,
            *found,
        ),
        Diagnostic::IllegalBorrowedInTuple(sp) => Diagnostic::IllegalBorrowedInTuple(*sp),
        Diagnostic::NonIntegerIndex(sp, t) => Diagnostic::NonIntegerIndex(*sp, clone_typ(t)),
        Diagnostic::BorrowedIndex(sp) => Diagnostic::BorrowedIndex(*sp),
        Diagnostic::NonSequenceIndexed(sp, t) => Diagnostic::NonSequenceIndexed(*sp, clone_typ(t)),
        Diagnostic::UnsupportedQualifiedCall(sp) => Diagnostic::UnsupportedQualifiedCall(*sp),
    }
}

/// Reports a diagnostic and fails with it.
fn fail<T>(rep: &mut Reporter, d: Diagnostic) -> (r: TypecheckingResult<T>)
    ensures
        final(rep)@ == old(rep)@.push(diagnostic_view(d)),
        r matches Result::Err(d2) && diagnostic_view(d2) == diagnostic_view(d),
{
    let d2 = clone_diag(&d);
    rep.report(d);
    Result::Err(d2)
}

/// The type of a literal at a source location.
fn lit_typ(l: &Literal, sp: Span) -> (r: Typ)
    ensures
        typ_view(r) == (((Borrowing::Consumed, sp), (lit_base_spec(*l), sp))),
{
    let base = match l {
        Literal::Bool(_) => BaseTyp::Bool,
        Literal::Int128(_) => BaseTyp::Int128,
        Literal::UInt128(_) => BaseTyp::UInt128,
        Literal::Int64(_) => BaseTyp::Int64,
        Literal::UInt64(_) => BaseTyp::UInt64,
        Literal::Int32(_) => BaseTyp::Int32,
        Literal::UInt32(_) => BaseTyp::UInt32,
        Literal::Int16(_) => BaseTyp::Int16,
        Literal::UInt16(_) => BaseTyp::UInt16,
        Literal::Int8(_) => BaseTyp::Int8,
        Literal::UInt8(_) => BaseTyp::UInt8,
        Literal::Usize(_) => BaseTyp::Usize,
        Literal::Isize(_) => BaseTyp::Isize,
    };
    ((Borrowing::Consumed, sp), (base, sp))
}

/// Holds one argument against its declared parameter: the borrow modes must
/// agree exactly, then the base types must be structurally equal.
fn check_arg_pair(rep: &mut Reporter, sig_t: &Typ, arg_t: &Typ, arg_span: Span) -> (r:
    TypecheckingResult<()>)
    ensures
        match arg_check_spec(typ_view(*sig_t), typ_view(*arg_t), arg_span) {
            Option::Some(d) => final(rep)@ == old(rep)@.push(d) && (r matches Result::Err(d2)
                && diagnostic_view(d2) == d),
            Option::None => final(rep)@ == old(rep)@ && r is Ok,
        },
{
    match (arg_t.0.0, sig_t.0.0) {
        (Borrowing::Consumed, Borrowing::Borrowed) => fail(
            rep,
            Diagnostic::BorrowModeMismatch(arg_span, Borrowing::Borrowed, Borrowing::Consumed),
        ),
        (Borrowing::Borrowed, Borrowing::Consumed) => fail(
            rep,
            Diagnostic::BorrowModeMismatch(arg_span, Borrowing::Consumed, Borrowing::Borrowed),
        ),
        _ => {
            if !equal_base(&arg_t.1.0, &sig_t.1.0) {
                fail(
                    rep,
                    Diagnostic::TypeMismatch(
                        arg_span,
                        Option::Some(clone_typ(sig_t)),
                        clone_typ(arg_t),
                    ),
                )
            } else {
                Result::Ok(())
            }
        },
    }
}

/// Computes the type of an expression and the variable context after its
/// evaluation, in strict left-to-right order; exactly what
/// `check_expression_spec` says is returned and reported.
pub fn typecheck_expression(
    rep: &mut Reporter,
    e: &(Expression, Span),
    fn_context: &FnContext,
    var_context: &VarContext,
) -> (r: TypecheckingResult<(Typ, VarContext)>)
    ensures
        ({
            let out = check_expression_spec(*e, fn_context@, var_context@);
            &&& final(rep)@ == old(rep)@ + out.emitted
            &&& (match r {
                Result::Ok(p) => out.res == Option::Some((typ_view(p.0), p.1@)),
                Result::Err(d) => out.res is None && out.emitted.len() > 0 && diagnostic_view(d)
                    == out.emitted.last(),
            })
        }),
    decreases e.0, 0int, 0int,
{
    let ghost out = check_expression_spec(*e, fn_context@, var_context@);
    let span = e.1;
    match &e.0 {
        Expression::Tuple(args) => {
            proof {
                assert(decreases_to!(e.0 => *args));
                assert(decreases_to!(*args => args@));
            }
            match check_tuple_elems(rep, args, 0, fn_context, var_context.duplicate()) {
                Result::Ok((elems, ctxf)) => {
                    let r = (
                        ((Borrowing::Consumed, span), (BaseTyp::Tuple(elems), span)),
                        ctxf,
                    );
                    Result::Ok(r)
                },
                Result::Err(d) => Result::Err(d),
            }
        },
        Expression::Named(path) => {
            if !(path.arg.is_none() && path.location.len() == 1) {
                let r = fail(rep, Diagnostic::UnknownIdentifier(span, clone_path(path)));
                proof {
                    lemma_push_is_concat(old(rep)@, out.emitted.last());
                }
                r
            } else {
                let x = &path.location[0].0;
                match var_context.get(x) {
                    Option::None => {
                        let r = fail(rep, Diagnostic::UnknownIdentifier(span, clone_path(path)));
                        proof {
                            lemma_push_is_concat(old(rep)@, out.emitted.last());
                        }
                        r
                    },
                    Option::Some(t) => {
                        let t2 = clone_typ(t);
                        proof {
                            assert(old(rep)@ + Seq::<DiagnosticV>::empty() =~= old(rep)@);
                        }
                        let moves = match t2.0.0 {
                            Borrowing::Consumed => !is_copy(&t2.1.0),
                            Borrowing::Borrowed => false,
                        };
                        if moves {
                            Result::Ok((t2, var_context.without(x)))
                        } else {
                            Result::Ok((t2, var_context.duplicate()))
                        }
                    },
                }
            }
        },
        Expression::Binary(_, e1, e2) => {
            let ghost out1 = check_expression_spec(**e1, fn_context@, var_context@);
            let (t1, ctx1) = match typecheck_expression(rep, e1, fn_context, var_context) {
                Result::Ok(p) => p,
                Result::Err(d) => {
                    return Result::Err(d);
                },
            };
            let ghost out2 = check_expression_spec(**e2, fn_context@, ctx1@);
            match typecheck_expression(rep, e2, fn_context, &ctx1) {
                Result::Err(d) => {
                    proof {
                        lemma_concat_assoc(old(rep)@, out1.emitted, out2.emitted);
                    }
                    Result::Err(d)
                },
                Result::Ok((t2, ctx2)) => {
                    if !equal_types(&t1, &t2) {
                        let r = fail(
                            rep,
                            Diagnostic::TypeMismatch(span, Option::Some(t1), t2),
                        );
                        proof {
                            lemma_concat_assoc(old(rep)@, out1.emitted, out2.emitted);
                            lemma_push_concat(old(rep)@, out1.emitted + out2.emitted,
                                out.emitted.last());
                        }
                        r
                    } else {
                        proof {
                            lemma_concat_assoc(old(rep)@, out1.emitted, out2.emitted);
                        }
                        Result::Ok((t1, ctx2))
                    }
                },
            }
        },
        Expression::Unary(_, e1) => typecheck_expression(rep, e1, fn_context, var_context),
        Expression::Lit(l) => {
            proof {
                assert(old(rep)@ + Seq::<DiagnosticV>::empty() =~= old(rep)@);
            }
            Result::Ok((lit_typ(l, span), var_context.duplicate()))
        },
        Expression::ArrayIndex(e1, e2) => {
            let ghost out1 = check_expression_spec(**e1, fn_context@, var_context@);
            let (t1, ctx1) = match typecheck_expression(rep, e1, fn_context, var_context) {
                Result::Ok(p) => p,
                Result::Err(d) => {
                    return Result::Err(d);
                },
            };
            let ghost out2 = check_expression_spec(**e2, fn_context@, ctx1@);
            let (t2, ctx2) = match typecheck_expression(rep, e2, fn_context, &ctx1) {
                Result::Ok(p) => p,
                Result::Err(d) => {
                    proof {
                        lemma_concat_assoc(old(rep)@, out1.emitted, out2.emitted);
                    }
                    return Result::Err(d);
                },
            };
            proof {
                lemma_concat_assoc(old(rep)@, out1.emitted, out2.emitted);
            }
            match &t1.1.0 {
                BaseTyp::Sequence(cell) => {
                    if let Borrowing::Borrowed = t2.0.0 {
                        let r = fail(rep, Diagnostic::BorrowedIndex(e2.1));
                        proof {
                            lemma_push_concat(old(rep)@, out1.emitted + out2.emitted,
                                out.emitted.last());
                        }
                        return r;
                    }
                    if is_integer(&t2.1.0) {
                        let cell_t = clone_base(&cell.0);
                        let cell_sp = cell.1;
                        Result::Ok((((Borrowing::Consumed, t1.0.1), (cell_t, cell_sp)), ctx2))
                    } else {
                        let r = fail(rep, Diagnostic::NonIntegerIndex(e2.1, t2));
                        proof {
                            lemma_push_concat(old(rep)@, out1.emitted + out2.emitted,
                                out.emitted.last());
                        }
                        r
                    }
                },
                _ => {
                    let r = fail(rep, Diagnostic::NonSequenceIndexed(e1.1, t1));
                    proof {
                        lemma_push_concat(old(rep)@, out1.emitted + out2.emitted,
                            out.emitted.last());
                    }
                    r
                },
            }
        },
        Expression::FuncCall(f, args) => {
            if !(f.0.arg.is_none() && f.0.location.len() == 1) {
                let r = fail(rep, Diagnostic::UnsupportedQualifiedCall(f.1));
                proof {
                    lemma_push_is_concat(old(rep)@, out.emitted.last());
                }
                return r;
            }
            let key = FnKey::Static(f.0.location[0].0.clone());
            let sig = match fn_context.get(&key) {
                Option::None => {
                    let r = fail(rep, Diagnostic::UnknownFunctionOrMethod(f.1, key));
                    proof {
                        lemma_push_is_concat(old(rep)@, out.emitted.last());
                    }
                    return r;
                },
                Option::Some(sig) => sig,
            };
            let ghost warn = if sig_view(*sig).args.len() != args@.len() {
                seq![
                    DiagnosticV::ArityMismatch(span, sig_view(*sig).args.len(), args@.len()),
                ]
            } else {
                Seq::<DiagnosticV>::empty()
            };
            if sig.args.len() != args.len() {
                rep.report(Diagnostic::ArityMismatch(span, sig.args.len(), args.len()));
                proof {
                    lemma_push_is_concat(old(rep)@, warn.last());
                }
            } else {
                proof {
                    assert(old(rep)@ + warn =~= old(rep)@);
                }
            }
            proof {
                assert(decreases_to!(e.0 => *args));
                assert(decreases_to!(*args => args@));
                assert(sig_params(sig_view(*sig)) =~= params_view(sig.args@));
            }
            let ghost argsout = check_args_spec(
                params_view(sig.args@),
                args@,
                0,
                fn_context@,
                var_context@,
            );
            match check_call_args(rep, &sig.args, args, 0, fn_context, var_context.duplicate()) {
                Result::Err(d) => {
                    proof {
                        lemma_concat_assoc(old(rep)@, warn, argsout.emitted);
                    }
                    Result::Err(d)
                },
                Result::Ok(ctxf) => {
                    proof {
                        lemma_concat_assoc(old(rep)@, warn, argsout.emitted);
                    }
                    Result::Ok((clone_typ(&sig.ret), ctxf))
                },
            }
        },
        Expression::MethodCall(sel, name, args) => {
            let ghost out0 = check_expression_spec(**sel, fn_context@, var_context@);
            let (sel_t, ctx1) = match typecheck_expression(rep, sel, fn_context, var_context) {
                Result::Ok(p) => p,
                Result::Err(d) => {
                    return Result::Err(d);
                },
            };
            let key = FnKey::Method(clone_base(&sel_t.1.0), name.0.clone());
            let sig = match fn_context.get(&key) {
                Option::None => {
                    let r = fail(rep, Diagnostic::UnknownFunctionOrMethod(name.1, key));
                    proof {
                        lemma_push_concat(old(rep)@, out0.emitted, out.emitted.last());
                    }
                    return r;
                },
                Option::Some(sig) => sig,
            };
            let ghost warn = if sig_view(*sig).args.len() != args@.len() + 1 {
                seq![
                    DiagnosticV::ArityMismatch(span, sig_view(*sig).args.len(), args@.len()),
                ]
            } else {
                Seq::<DiagnosticV>::empty()
            };
            let arity_bad = sig.args.len() == 0 || sig.args.len() - 1 != args.len();
            if arity_bad {
                rep.report(Diagnostic::ArityMismatch(span, sig.args.len(), args.len()));
                proof {
                    lemma_push_is_concat(old(rep)@ + out0.emitted, warn.last());
                    lemma_concat_assoc(old(rep)@, out0.emitted, warn);
                }
            } else {
                proof {
                    assert((old(rep)@ + out0.emitted) + warn =~= old(rep)@ + out0.emitted);
                    lemma_concat_assoc(old(rep)@, out0.emitted, warn);
                }
            }
            proof {
                assert(decreases_to!(e.0 => *args));
                assert(decreases_to!(*args => args@));
                assert(sig_params(sig_view(*sig)) =~= params_view(sig.args@));
            }
            let ghost argsout = check_args_spec(
                params_view(sig.args@),
                args@,
                0,
                fn_context@,
                ctx1@,
            );
            let ctx2 = match check_call_args(rep, &sig.args, args, 0, fn_context, ctx1) {
                Result::Err(d) => {
                    proof {
                        lemma_concat_assoc(old(rep)@, out0.emitted + warn, argsout.emitted);
                        lemma_concat_assoc(old(rep)@ + out0.emitted + warn, argsout.emitted,
                            Seq::<DiagnosticV>::empty());
                        assert((out0.emitted + warn) + argsout.emitted =~= out0.emitted + warn
                            + argsout.emitted);
                    }
                    return Result::Err(d);
                },
                Result::Ok(c) => c,
            };
            proof {
                assert((out0.emitted + warn) + argsout.emitted =~= out0.emitted + warn
                    + argsout.emitted);
                lemma_concat_assoc(old(rep)@, out0.emitted + warn, argsout.emitted);
            }
            if sig.args.len() > args.len() {
                // the receiver is checked again as the implicit final argument
                let ghost outr = check_expression_spec(**sel, fn_context@, ctx2@);
                let (arg_t, ctx3) = match typecheck_expression(rep, sel, fn_context, &ctx2) {
                    Result::Ok(p) => p,
                    Result::Err(d) => {
                        proof {
                            lemma_concat_assoc(old(rep)@, out0.emitted + warn + argsout.emitted,
                                outr.emitted);
                            assert((out0.emitted + warn + argsout.emitted) + outr.emitted
                                =~= out0.emitted + warn + argsout.emitted + outr.emitted);
                        }
                        return Result::Err(d);
                    },
                };
                match check_arg_pair(rep, &sig.args[args.len()].1, &arg_t, sel.1) {
                    Result::Err(d) => {
                        proof {
                            lemma_concat_assoc(old(rep)@, out0.emitted + warn + argsout.emitted,
                                outr.emitted);
                            assert((out0.emitted + warn + argsout.emitted) + outr.emitted
                                =~= out0.emitted + warn + argsout.emitted + outr.emitted);
                            lemma_push_concat(old(rep)@,
                                out0.emitted + warn + argsout.emitted + outr.emitted,
                                out.emitted.last());
                        }
                        Result::Err(d)
                    },
                    Result::Ok(()) => {
                        proof {
                            lemma_concat_assoc(old(rep)@, out0.emitted + warn + argsout.emitted,
                                outr.emitted);
                            assert((out0.emitted + warn + argsout.emitted) + outr.emitted
                                =~= out0.emitted + warn + argsout.emitted + outr.emitted);
                        }
                        Result::Ok((clone_typ(&sig.ret), ctx3))
                    },
                }
            } else {
                Result::Ok((clone_typ(&sig.ret), ctx2))
            }
        },
    }
}

/// Checks the elements of a tuple literal from position `j` on, threading
/// the context; every element must come out Consumed.
fn check_tuple_elems(
    rep: &mut Reporter,
    args: &Vec<(Expression, Span)>,
    j: usize,
    fn_context: &FnContext,
    var_context: VarContext,
) -> (r: TypecheckingResult<(Vec<(BaseTyp, Span)>, VarContext)>)
    requires
        j <= args@.len(),
    ensures
        ({
            let out = check_tuple_spec(args@, j as int, fn_context@, var_context@);
            &&& final(rep)@ == old(rep)@ + out.emitted
            &&& (match r {
                Result::Ok(p) => out.res == Option::Some((typ_list_view(p.0@), p.1@)),
                Result::Err(d) => out.res is None && out.emitted.len() > 0 && diagnostic_view(d)
                    == out.emitted.last(),
            })
        }),
    decreases args@, 1int, args@.len() - j,
{
    let ghost out = check_tuple_spec(args@, j as int, fn_context@, var_context@);
    if j >= args.len() {
        let elems: Vec<(BaseTyp, Span)> = Vec::new();
        proof {
            assert(old(rep)@ + Seq::<DiagnosticV>::empty() =~= old(rep)@);
            lemma_typ_list_view(elems@);
            assert(typ_list_view(elems@) =~= Seq::<(crate::views::BaseTypV, Span)>::empty());
        }
        return Result::Ok((elems, var_context));
    }
    proof {
        assert(decreases_to!(args@ => args@[j as int]));
    }
    let ghost out1 = check_expression_spec(args@[j as int], fn_context@, var_context@);
    let (t, ctx2) = match typecheck_expression(rep, &args[j], fn_context, &var_context) {
        Result::Ok(p) => p,
        Result::Err(d) => {
            return Result::Err(d);
        },
    };
    if let Borrowing::Borrowed = t.0.0 {
        let r = fail(rep, Diagnostic::IllegalBorrowedInTuple(args[j].1));
        proof {
            lemma_push_concat(old(rep)@, out1.emitted, out.emitted.last());
        }
        return r;
    }
    let ghost rest = check_tuple_spec(args@, j + 1 as int, fn_context@, ctx2@);
    match check_tuple_elems(rep, args, j + 1, fn_context, ctx2) {
        Result::Err(d) => {
            proof {
                lemma_concat_assoc(old(rep)@, out1.emitted, rest.emitted);
            }
            Result::Err(d)
        },
        Result::Ok((mut elems, ctxf)) => {
            proof {
                lemma_concat_assoc(old(rep)@, out1.emitted, rest.emitted);
                lemma_typ_list_view(elems@);
            }
            let ghost before = elems@;
            elems.insert(0, t.1);
            proof {
                lemma_typ_list_view(elems@);
                assert(typ_list_view(elems@) =~= seq![typ_view(t).1] + typ_list_view(before));
            }
            Result::Ok((elems, ctxf))
        },
    }
}

/// Checks call arguments against declared parameters pairwise from position
/// `j` on, over the zipped shorter list, threading the context.
fn check_call_args(
    rep: &mut Reporter,
    params: &Vec<((String, Span), Typ)>,
    args: &Vec<(Expression, Span)>,
    j: usize,
    fn_context: &FnContext,
    var_context: VarContext,
) -> (r: TypecheckingResult<VarContext>)
    ensures
        ({
            let out = check_args_spec(
                params_view(params@),
                args@,
                j as int,
                fn_context@,
                var_context@,
            );
            &&& final(rep)@ == old(rep)@ + out.emitted
            &&& (match r {
                Result::Ok(c) => out.res == Option::Some(c@),
                Result::Err(d) => out.res is None && out.emitted.len() > 0 && diagnostic_view(d)
                    == out.emitted.last(),
            })
        }),
    decreases args@, 1int, args@.len() - j,
{
    let ghost out = check_args_spec(
        params_view(params@),
        args@,
        j as int,
        fn_context@,
        var_context@,
    );
    let n = if params.len() <= args.len() {
        params.len()
    } else {
        args.len()
    };
    if j >= n {
        proof {
            assert(old(rep)@ + Seq::<DiagnosticV>::empty() =~= old(rep)@);
        }
        return Result::Ok(var_context);
    }
    proof {
        assert(decreases_to!(args@ => args@[j as int]));
    }
    let ghost out1 = check_expression_spec(args@[j as int], fn_context@, var_context@);
    let (arg_t, ctx2) = match typecheck_expression(rep, &args[j], fn_context, &var_context) {
        Result::Ok(p) => p,
        Result::Err(d) => {
            return Result::Err(d);
        },
    };
    match check_arg_pair(rep, &params[j].1, &arg_t, args[j].1) {
        Result::Err(d) => {
            proof {
                lemma_push_concat(old(rep)@, out1.emitted, out.emitted.last());
            }
            Result::Err(d)
        },
        Result::Ok(()) => {
            let ghost rest = check_args_spec(
                params_view(params@),
                args@,
                j + 1 as int,
                fn_context@,
                ctx2@,
            );
            match check_call_args(rep, params, args, j + 1, fn_context, ctx2) {
                Result::Err(d) => {
                    proof {
                        lemma_concat_assoc(old(rep)@, out1.emitted, rest.emitted);
                    }
                    Result::Err(d)
                },
                Result::Ok(ctxf) => {
                    proof {
                        lemma_concat_assoc(old(rep)@, out1.emitted, rest.emitted);
                    }
                    Result::Ok(ctxf)
                },
            }
        },
    }
}

/// Destructures a let-pattern against a type, yielding the bindings it
/// introduces; exactly what `check_pattern_spec` says is returned and
/// reported.
pub fn typecheck_pattern(rep: &mut Reporter, pat: &(Pattern, Span), typ: &Typ) -> (r:
    TypecheckingResult<VarContext>)
    ensures
        ({
            let out = check_pattern_spec(*pat, typ_view(*typ));
            &&& final(rep)@ == old(rep)@ + out.emitted
            &&& (match r {
                Result::Ok(c) => out.res == Option::Some(c@),
                Result::Err(d) => out.res is None && out.emitted.len() > 0 && diagnostic_view(d)
                    == out.emitted.last(),
            })
        }),
    decreases pat.0, 0int,
{
    let ghost out = check_pattern_spec(*pat, typ_view(*typ));
    match &pat.0 {
        Pattern::WildCard => {
            proof {
                assert(old(rep)@ + Seq::<DiagnosticV>::empty() =~= old(rep)@);
            }
            Result::Ok(VarContext::empty())
        },
        Pattern::IdentPat(x) => {
            proof {
                assert(old(rep)@ + Seq::<DiagnosticV>::empty() =~= old(rep)@);
            }
            Result::Ok(VarContext::empty().update(x, typ))
        },
        Pattern::Tuple(pats) => {
            match &typ.1.0 {
                BaseTyp::Tuple(telems) => {
                    let ghost warn = if pats@.len() != typ_list_view(telems@).len() {
                        seq![
                            DiagnosticV::ArityMismatch(
                                pat.1,
                                typ_list_view(telems@).len(),
                                pats@.len(),
                            ),
                        ]
                    } else {
                        Seq::<DiagnosticV>::empty()
                    };
                    proof {
                        lemma_typ_list_view(telems@);
                    }
                    if pats.len() != telems.len() {
                        rep.report(Diagnostic::ArityMismatch(pat.1, telems.len(), pats.len()));
                        proof {
                            lemma_push_is_concat(old(rep)@, warn.last());
                        }
                    } else {
                        proof {
                            assert(old(rep)@ + warn =~= old(rep)@);
                        }
                    }
                    proof {
                        assert(decreases_to!(pat.0 => *pats));
                        assert(decreases_to!(*pats => pats@));
                    }
                    let ghost sub = check_pattern_args_spec(pats@, typ_list_view(telems@), pat.1, 0);
                    match bind_tuple_pats(rep, pats, telems, pat.1, 0) {
                        Result::Err(d) => {
                            proof {
                                lemma_concat_assoc(old(rep)@, warn, sub.emitted);
                            }
                            Result::Err(d)
                        },
                        Result::Ok(binds) => {
                            proof {
                                lemma_concat_assoc(old(rep)@, warn, sub.emitted);
                            }
                            Result::Ok(binds)
                        },
                    }
                },
                _ => {
                    let r = fail(
                        rep,
                        Diagnostic::TypeMismatch(pat.1, Option::None, clone_typ(typ)),
                    );
                    proof {
                        lemma_push_is_concat(old(rep)@, out.emitted.last());
                    }
                    r
                },
            }
        },
    }
}

/// Binds the sub-patterns of a tuple pattern against the tuple type's
/// components pairwise from position `j` on, over the zipped shorter list;
/// later bindings overwrite earlier ones.
fn bind_tuple_pats(
    rep: &mut Reporter,
    pats: &Vec<(Pattern, Span)>,
    telems: &Vec<(BaseTyp, Span)>,
    pat_span: Span,
    j: usize,
) -> (r: TypecheckingResult<VarContext>)
    ensures
        ({
            let out = check_pattern_args_spec(pats@, typ_list_view(telems@), pat_span, j as int);
            &&& final(rep)@ == old(rep)@ + out.emitted
            &&& (match r {
                Result::Ok(c) => out.res == Option::Some(c@),
                Result::Err(d) => out.res is None && out.emitted.len() > 0 && diagnostic_view(d)
                    == out.emitted.last(),
            })
        }),
    decreases pats@, pats@.len() - j,
{
    let ghost tv = typ_list_view(telems@);
    let ghost out = check_pattern_args_spec(pats@, tv, pat_span, j as int);
    proof {
        lemma_typ_list_view(telems@);
    }
    let n = if pats.len() <= telems.len() {
        pats.len()
    } else {
        telems.len()
    };
    if j >= n {
        proof {
            assert(old(rep)@ + Seq::<DiagnosticV>::empty() =~= old(rep)@);
        }
        return Result::Ok(VarContext::empty());
    }
    proof {
        assert(decreases_to!(pats@ => pats@[j as int]));
    }
    let sub_t: Typ = (
        (Borrowing::Consumed, pat_span),
        (clone_base(&telems[j].0), telems[j].1),
    );
    let ghost subout = check_pattern_spec(pats@[j as int], typ_view(sub_t));
    let m = match typecheck_pattern(rep, &pats[j], &sub_t) {
        Result::Ok(m) => m,
        Result::Err(d) => {
            return Result::Err(d);
        },
    };
    let ghost rest = check_pattern_args_spec(pats@, tv, pat_span, j + 1 as int);
    match bind_tuple_pats(rep, pats, telems, pat_span, j + 1) {
        Result::Err(d) => {
            proof {
                lemma_concat_assoc(old(rep)@, subout.emitted, rest.emitted);
            }
            Result::Err(d)
        },
        Result::Ok(m2) => {
            proof {
                lemma_concat_assoc(old(rep)@, subout.emitted, rest.emitted);
            }
            Result::Ok(m.merged(&m2))
        },
    }
}

/// Checks one let-binding: the right-hand side first, then the optional
/// declared type against the inferred one, then the pattern; exactly what
/// `check_statement_spec` says is returned and reported.
pub fn typecheck_statement(
    rep: &mut Reporter,
    s: &(Statement, Span),
    fn_context: &FnContext,
    var_context: &VarContext,
) -> (r: TypecheckingResult<(Typ, VarContext, VarSet)>)
    ensures
        ({
            let out = check_statement_spec(*s, fn_context@, var_context@);
            &&& final(rep)@ == old(rep)@ + out.emitted
            &&& (match r {
                Result::Ok(p) => out.res == Option::Some((typ_view(p.0), p.1@, p.2@)),
                Result::Err(d) => out.res is None && out.emitted.len() > 0 && diagnostic_view(d)
                    == out.emitted.last(),
            })
        }),
{
    match &s.0 {
        Statement::LetBinding(pat, otyp, expr) => {
            let ghost out1 = check_expression_spec(*expr, fn_context@, var_context@);
            let (expr_t, ctx2) = match typecheck_expression(rep, expr, fn_context, var_context) {
                Result::Ok(p) => p,
                Result::Err(d) => {
                    return Result::Err(d);
                },
            };
            if let Option::Some(tt) = otyp {
                if !equal_types(&tt.0, &expr_t) {
                    let r = fail(
                        rep,
                        Diagnostic::TypeMismatch(pat.1, Option::Some(clone_typ(&tt.0)), expr_t),
                    );
                    proof {
                        lemma_push_concat(old(rep)@, out1.emitted,
                            check_statement_spec(*s, fn_context@, var_context@).emitted.last());
                    }
                    return r;
                }
            }
            let ghost out2 = check_pattern_spec(*pat, typ_view(expr_t));
            let binds = match typecheck_pattern(rep, pat, &expr_t) {
                Result::Ok(b) => b,
                Result::Err(d) => {
                    proof {
                        lemma_concat_assoc(old(rep)@, out1.emitted, out2.emitted);
                    }
                    return Result::Err(d);
                },
            };
            proof {
                lemma_concat_assoc(old(rep)@, out1.emitted, out2.emitted);
            }
            let result_typ: Typ = ((Borrowing::Consumed, s.1), (BaseTyp::Unit, s.1));
            Result::Ok((result_typ, ctx2.merged(&binds), VarSet::empty()))
        },
    }
}

/// Checks the statements of a block from position `j` on: every statement
/// but the last must type as consumed unit; the last one's type is the
/// block's result.
fn check_stmts(
    rep: &mut Reporter,
    stmts: &Vec<(Statement, Span)>,
    j: usize,
    fn_context: &FnContext,
    var_context: VarContext,
    mutated: VarSet,
) -> (r: TypecheckingResult<(Option<Typ>, VarSet)>)
    ensures
        ({
            let out = check_block_spec(stmts@, j as int, fn_context@, var_context@, mutated@);
            &&& final(rep)@ == old(rep)@ + out.emitted
            &&& (match r {
                Result::Ok(p) => out.res == Option::Some((opt_typ_view(p.0), p.1@)),
                Result::Err(d) => out.res is None && out.emitted.len() > 0 && diagnostic_view(d)
                    == out.emitted.last(),
            })
        }),
    decreases stmts@.len() - j,
{
    let ghost out = check_block_spec(stmts@, j as int, fn_context@, var_context@, mutated@);
    if j >= stmts.len() {
        proof {
            assert(old(rep)@ + Seq::<DiagnosticV>::empty() =~= old(rep)@);
        }
        return Result::Ok((Option::None, mutated));
    }
    let ghost out1 = check_statement_spec(stmts@[j as int], fn_context@, var_context@);
    let (t, ctx2, mv) = match typecheck_statement(rep, &stmts[j], fn_context, &var_context) {
        Result::Ok(p) => p,
        Result::Err(d) => {
            return Result::Err(d);
        },
    };
    let new_mutated = mutated.union(&mv);
    if j + 1 < stmts.len() {
        let is_unit = match (t.0.0, &t.1.0) {
            (Borrowing::Consumed, BaseTyp::Unit) => true,
            _ => false,
        };
        if !is_unit {
            let r = fail(
                rep,
                Diagnostic::TypeMismatch(
                    stmts[j].1,
                    Option::Some(
                        ((Borrowing::Consumed, stmts[j].1), (BaseTyp::Unit, stmts[j].1)),
                    ),
                    t,
                ),
            );
            proof {
                lemma_push_concat(old(rep)@, out1.emitted, out.emitted.last());
            }
            return r;
        }
        let ghost rest = check_block_spec(stmts@, j + 1 as int, fn_context@, ctx2@, new_mutated@);
        match check_stmts(rep, stmts, j + 1, fn_context, ctx2, new_mutated) {
            Result::Err(d) => {
                proof {
                    lemma_concat_assoc(old(rep)@, out1.emitted, rest.emitted);
                }
                Result::Err(d)
            },
            Result::Ok(p) => {
                proof {
                    lemma_concat_assoc(old(rep)@, out1.emitted, rest.emitted);
                }
                Result::Ok(p)
            },
        }
    } else {
        Result::Ok((Option::Some(t), new_mutated))
    }
}

/// Checks a block and annotates it with its result type and its set of
/// mutated variables. The block is the scope of the variables bound inside
/// it: no context flows out.
pub fn typecheck_block(
    rep: &mut Reporter,
    b: Block,
    fn_context: &FnContext,
    var_context: &VarContext,
) -> (r: TypecheckingResult<Block>)
    ensures
        ({
            let out = check_block_spec(b.stmts@, 0, fn_context@, var_context@, Set::empty());
            &&& final(rep)@ == old(rep)@ + out.emitted
            &&& (match r {
                Result::Ok(nb) => nb.stmts == b.stmts && (match out.res {
                    Option::Some(p) => opt_typ_view(nb.return_typ) == p.0 && (
                    match nb.mutated_vars {
                        Option::Some(vs) => vs@ == p.1,
                        Option::None => false,
                    }),
                    Option::None => false,
                }),
                Result::Err(d) => out.res is None && out.emitted.len() > 0 && diagnostic_view(d)
                    == out.emitted.last(),
            })
        }),
{
    match check_stmts(rep, &b.stmts, 0, fn_context, var_context.duplicate(), VarSet::empty()) {
        Result::Ok((rt, mv)) => Result::Ok(
            Block { stmts: b.stmts, mutated_vars: Option::Some(mv), return_typ: rt },
        ),
        Result::Err(d) => Result::Err(d),
    }
}

/// Checks one item. A function body is checked against a context seeded from
/// its declared parameters and the signature table as it existed before the
/// item; on success the signature is registered under the function's name.
pub fn typecheck_item(rep: &mut Reporter, i: Item, fn_context: &FnContext) -> (r:
    TypecheckingResult<(Item, FnContext)>)
    ensures
        ({
            let out = check_item_spec(i, fn_context@);
            &&& final(rep)@ == old(rep)@ + out.emitted
            &&& (match r {
                Result::Ok(p) => match out.res {
                    Option::Some(q) => item_annotated(i, p.0, q.0) && p.1@ == q.1,
                    Option::None => false,
                },
                Result::Err(d) => out.res is None && out.emitted.len() > 0 && diagnostic_view(d)
                    == out.emitted.last(),
            })
        }),
{
    match i {
        Item::FnDecl(f, sig, b) => {
            let mut ctx = VarContext::empty();
            let mut k: usize = 0;
            while k < sig.args.len()
                invariant
                    0 <= k <= sig.args@.len(),
                    ctx@ == seed_context_spec(sig.args@, k as int),
                decreases sig.args@.len() - k,
            {
                ctx = ctx.update(&sig.args[k].0.0, &sig.args[k].1);
                k = k + 1;
            }
            let (blk, b_span) = b;
            let checked = match typecheck_block(rep, blk, fn_context, &ctx) {
                Result::Ok(x) => x,
                Result::Err(d) => {
                    return Result::Err(d);
                },
            };
            let sig_copy = clone_sig(&sig);
            let new_fnc = fn_context.update(FnKey::Static(f.0.clone()), sig_copy);
            Result::Ok((Item::FnDecl(f, sig, (checked, b_span)), new_fnc))
        },
        Item::Use(p) => {
            proof {
                assert(old(rep)@ + Seq::<DiagnosticV>::empty() =~= old(rep)@);
            }
            Result::Ok((Item::Use(p), fn_context.duplicate()))
        },
    }
}

/// Checks the items of a program in order, threading one signature table and
/// stopping at the first failing item.
fn check_items(rep: &mut Reporter, items: Vec<(Item, Span)>, fn_context: FnContext) -> (r:
    TypecheckingResult<Program>)
    ensures
        ({
            let out = check_program_spec(items@, fn_context@);
            &&& final(rep)@ == old(rep)@ + out.emitted
            &&& (match r {
                Result::Ok(q) => match out.res {
                    Option::Some(anns) => program_annotated(items@, q@, anns),
                    Option::None => false,
                },
                Result::Err(d) => out.res is None && out.emitted.len() > 0 && diagnostic_view(d)
                    == out.emitted.last(),
            })
        }),
    decreases items@.len(),
{
    let ghost orig = items@;
    let ghost out = check_program_spec(items@, fn_context@);
    let mut items = items;
    if items.len() == 0 {
        proof {
            assert(old(rep)@ + Seq::<DiagnosticV>::empty() =~= old(rep)@);
            assert(program_annotated(orig, orig, Seq::<crate::rules::ItemAnnV>::empty()));
        }
        return Result::Ok(items);
    }
    let (i, sp) = items.remove(0);
    proof {
        assert(items@ =~= orig.drop_first());
    }
    let ghost iout = check_item_spec(orig[0].0, fn_context@);
    let (new_i, new_fnc) = match typecheck_item(rep, i, &fn_context) {
        Result::Ok(p) => p,
        Result::Err(d) => {
            return Result::Err(d);
        },
    };
    let ghost rest = check_program_spec(orig.drop_first(), new_fnc@);
    match check_items(rep, items, new_fnc) {
        Result::Err(d) => {
            proof {
                lemma_concat_assoc(old(rep)@, iout.emitted, rest.emitted);
            }
            Result::Err(d)
        },
        Result::Ok(mut done) => {
            proof {
                lemma_concat_assoc(old(rep)@, iout.emitted, rest.emitted);
            }
            let ghost tail = done@;
            done.insert(0, (new_i, sp));
            proof {
                let anns = out.res->Some_0;
                let rest_anns = rest.res->Some_0;
                assert(anns =~= seq![iout.res->Some_0.0] + rest_anns);
                assert forall|k: int| 0 <= k < orig.len() implies (#[trigger] done@[k]).1
                    == orig[k].1 && item_annotated(orig[k].0, done@[k].0, anns[k]) by {
                    if k > 0 {
                        assert(done@[k] == tail[k - 1]);
                        assert(orig.drop_first()[k - 1] == orig[k]);
                        assert(rest_anns[k - 1] == anns[k]);
                    }
                }
            }
            Result::Ok(done)
        },
    }
}

/// Checks a whole program, starting from an empty signature table: items are
/// processed strictly in order, each function seeing only the signatures of
/// the items before it, and the first failing item aborts the whole check.
/// On success the same program comes back with every block annotated.
pub fn typecheck_program(rep: &mut Reporter, p: Program) -> (r: TypecheckingResult<Program>)
    ensures
        ({
            let out = check_program_spec(p@, Map::empty());
            &&& final(rep)@ == old(rep)@ + out.emitted
            &&& (match r {
                Result::Ok(q) => match out.res {
                    Option::Some(anns) => program_annotated(p@, q@, anns),
                    Option::None => false,
                },
                Result::Err(d) => out.res is None && out.emitted.len() > 0 && diagnostic_view(d)
                    == out.emitted.last(),
            })
        }),
{
    check_items(rep, p, FnContext::empty())
}

/// Collects a list of partial results: all values if every one is a success,
/// and otherwise the first failure.
pub fn check_vec<T>(v: Vec<TypecheckingResult<T>>) -> (r: TypecheckingResult<Vec<T>>)
    ensures
        match r {
            Result::Ok(w) => w@.len() == v@.len() && (forall|i: int|
                0 <= i < v@.len() ==> (#[trigger] v@[i]) is Ok && w@[i] == v@[i]->Ok_0),
            Result::Err(d) => exists|i: int|
                0 <= i < v@.len() && (#[trigger] v@[i]) is Err && d == v@[i]->Err_0 && (forall|
                    k: int,
                |
                    0 <= k < i ==> (#[trigger] v@[k]) is Ok),
        },
{
    let ghost orig = v@;
    let mut rest = v;
    let total = rest.len();
    proof {
        assert(orig.len() == total as int);
    }
    let mut out: Vec<T> = Vec::new();
    let mut k: usize = 0;
    while rest.len() > 0
        invariant
            out@.len() == k,
            orig == v@,
            orig.len() <= usize::MAX,
            k + rest@.len() == orig.len(),
            rest@ == orig.subrange(k as int, orig.len() as int),
            forall|i: int| 0 <= i < k ==> (#[trigger] orig[i]) is Ok && out@[i] == orig[i]->Ok_0,
        decreases rest@.len(),
    {
        let ghost pre = rest@;
        let x = rest.remove(0);
        proof {
            assert(x == orig[k as int]);
            assert(rest@ =~= orig.subrange(k + 1 as int, orig.len() as int));
        }
        match x {
            Result::Ok(t) => {
                out.push(t);
                k = k + 1;
            },
            Result::Err(d) => {
                proof {
                    assert(0 <= k < orig.len() && (orig[k as int]) is Err && d == orig[
                        k as int
                    ]->Err_0);
                    assert(orig == v@);
                }
                return Result::Err(d);
            },
        }
    }
    Result::Ok(out)
}

} // verus!
