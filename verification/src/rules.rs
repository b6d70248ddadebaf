//! The typing rules, written as mathematical functions over views. Each rule
//! yields the diagnostics it emits, in order, and the result of the check;
//! a failing check's last emitted diagnostic is the fatal one. The executable
//! checker's contracts state that it returns exactly what these rules say.

use vstd::prelude::*;
use crate::ast::Borrowing;
use crate::ast::Expression;
use crate::ast::Item;
use crate::ast::Literal;
use crate::ast::Pattern;
use crate::ast::Span;
use crate::ast::Statement;
use crate::ast::Typ;
use crate::types::is_copy_spec;
use crate::types::is_integer_spec;
use crate::types::typ_eq_spec;
use crate::views::path_view;
use crate::views::sig_view;
use crate::views::strip_spans;
use crate::views::opt_typ_view;
use crate::views::typ_view;
use crate::views::BaseTypV;
use crate::views::DiagnosticV;
use crate::views::FnKeyV;
use crate::views::FuncSigV;
use crate::views::TypV;

verus! {

/// The base type of each literal kind.
pub open spec fn lit_base_spec(l: Literal) -> BaseTypV {
    match l {
        Literal::Bool(_) => BaseTypV::Bool,
        Literal::Int128(_) => BaseTypV::Int128,
        Literal::UInt128(_) => BaseTypV::UInt128,
        Literal::Int64(_) => BaseTypV::Int64,
        Literal::UInt64(_) => BaseTypV::UInt64,
        Literal::Int32(_) => BaseTypV::Int32,
        Literal::UInt32(_) => BaseTypV::UInt32,
        Literal::Int16(_) => BaseTypV::Int16,
        Literal::UInt16(_) => BaseTypV::UInt16,
        Literal::Int8(_) => BaseTypV::Int8,
        Literal::UInt8(_) => BaseTypV::UInt8,
        Literal::Usize(_) => BaseTypV::Usize,
        Literal::Isize(_) => BaseTypV::Isize,
    }
}

/// The parameter types of a signature, in order.
pub open spec fn sig_params(sig: FuncSigV) -> Seq<TypV> {
    Seq::new(sig.args.len(), |i: int| sig.args[i].1)
}

/// What one argument is held against its parameter: the borrow modes must
/// agree exactly, in either direction, and then the base types must be
/// structurally equal.
pub open spec fn arg_check_spec(sig_t: TypV, arg_t: TypV, arg_span: Span) -> Option<DiagnosticV> {
    if arg_t.0.0 == Borrowing::Consumed && sig_t.0.0 == Borrowing::Borrowed {
        Option::Some(
            DiagnosticV::BorrowModeMismatch(arg_span, Borrowing::Borrowed, Borrowing::Consumed),
        )
    } else if arg_t.0.0 == Borrowing::Borrowed && sig_t.0.0 == Borrowing::Consumed {
        Option::Some(
            DiagnosticV::BorrowModeMismatch(arg_span, Borrowing::Consumed, Borrowing::Borrowed),
        )
    } else if strip_spans(arg_t.1.0) != strip_spans(sig_t.1.0) {
        Option::Some(DiagnosticV::TypeMismatch(arg_span, Option::Some(sig_t), arg_t))
    } else {
        Option::None
    }
}

/// Outcome of checking an expression: the diagnostics emitted, and on
/// success the expression's type together with the context after evaluation.
pub struct ExprOut {
    pub emitted: Seq<DiagnosticV>,
    pub res: Option<(TypV, Map<Seq<char>, TypV>)>,
}

/// Outcome of checking the elements of a tuple literal from position `j` on:
/// their base types, and the context after evaluation.
pub struct TupleOut {
    pub emitted: Seq<DiagnosticV>,
    pub res: Option<(Seq<(BaseTypV, Span)>, Map<Seq<char>, TypV>)>,
}

/// Outcome of checking call arguments from position `j` on: the context
/// after evaluation.
pub struct ArgsOut {
    pub emitted: Seq<DiagnosticV>,
    pub res: Option<Map<Seq<char>, TypV>>,
}

/// What checking an expression yields, in strict left-to-right evaluation
/// order: evaluating a sub-expression may consume a variable, so every form
/// returns the context as it exists after evaluation.
pub open spec fn check_expression_spec(
    e: (Expression, Span),
    fnc: Map<FnKeyV, FuncSigV>,
    ctx: Map<Seq<char>, TypV>,
) -> ExprOut
    decreases e.0, 0int, 0int,
{
    let span = e.1;
    match e.0 {
        Expression::Tuple(args) => {
            proof {
                assert(decreases_to!(e.0 => args));
                assert(decreases_to!(args => args@));
            }
            let out = check_tuple_spec(args@, 0, fnc, ctx);
            match out.res {
                Option::Some((elems, ctx2)) => ExprOut {
                    emitted: out.emitted,
                    res: Option::Some(
                        (
                            (
                                (Borrowing::Consumed, span),
                                (BaseTypV::Tuple(elems), span),
                            ),
                            ctx2,
                        ),
                    ),
                },
                Option::None => ExprOut { emitted: out.emitted, res: Option::None },
            }
        },
        Expression::Named(path) => {
            if path.arg is Some || path.location@.len() != 1 {
                ExprOut {
                    emitted: seq![DiagnosticV::UnknownIdentifier(span, path_view(path))],
                    res: Option::None,
                }
            } else {
                let x = path.location@[0].0@;
                if !ctx.contains_key(x) {
                    ExprOut {
                        emitted: seq![DiagnosticV::UnknownIdentifier(span, path_view(path))],
                        res: Option::None,
                    }
                } else {
                    let t = ctx[x];
                    if t.0.0 == Borrowing::Consumed && !is_copy_spec(t.1.0) {
                        ExprOut { emitted: Seq::empty(), res: Option::Some((t, ctx.remove(x))) }
                    } else {
                        ExprOut { emitted: Seq::empty(), res: Option::Some((t, ctx)) }
                    }
                }
            }
        },
        Expression::Binary(_, e1, e2) => {
            let out1 = check_expression_spec(*e1, fnc, ctx);
            match out1.res {
                Option::None => out1,
                Option::Some((t1, ctx1)) => {
                    let out2 = check_expression_spec(*e2, fnc, ctx1);
                    match out2.res {
                        Option::None => ExprOut {
                            emitted: out1.emitted + out2.emitted,
                            res: Option::None,
                        },
                        Option::Some((t2, ctx2)) => {
                            if !typ_eq_spec(t1, t2) {
                                ExprOut {
                                    emitted: (out1.emitted + out2.emitted).push(
                                        DiagnosticV::TypeMismatch(span, Option::Some(t1), t2),
                                    ),
                                    res: Option::None,
                                }
                            } else {
                                ExprOut {
                                    emitted: out1.emitted + out2.emitted,
                                    res: Option::Some((t1, ctx2)),
                                }
                            }
                        },
                    }
                },
            }
        },
        Expression::Unary(_, e1) => check_expression_spec(*e1, fnc, ctx),
        Expression::Lit(l) => ExprOut {
            emitted: Seq::empty(),
            res: Option::Some(
                (((Borrowing::Consumed, span), (lit_base_spec(l), span)), ctx),
            ),
        },
        Expression::ArrayIndex(e1, e2) => {
            let out1 = check_expression_spec(*e1, fnc, ctx);
            match out1.res {
                Option::None => out1,
                Option::Some((t1, ctx1)) => {
                    let out2 = check_expression_spec(*e2, fnc, ctx1);
                    let emitted = out1.emitted + out2.emitted;
                    match out2.res {
                        Option::None => ExprOut { emitted, res: Option::None },
                        Option::Some((t2, ctx2)) => match t1.1.0 {
                            BaseTypV::Sequence(cell) => {
                                if t2.0.0 == Borrowing::Borrowed {
                                    ExprOut {
                                        emitted: emitted.push(DiagnosticV::BorrowedIndex((*e2).1)),
                                        res: Option::None,
                                    }
                                } else if is_integer_spec(t2.1.0) {
                                    ExprOut {
                                        emitted,
                                        res: Option::Some(
                                            (
                                                (
                                                    (Borrowing::Consumed, t1.0.1),
                                                    ((*cell).0, (*cell).1),
                                                ),
                                                ctx2,
                                            ),
                                        ),
                                    }
                                } else {
                                    ExprOut {
                                        emitted: emitted.push(
                                            DiagnosticV::NonIntegerIndex((*e2).1, t2),
                                        ),
                                        res: Option::None,
                                    }
                                }
                            },
                            _ => ExprOut {
                                emitted: emitted.push(
                                    DiagnosticV::NonSequenceIndexed((*e1).1, t1),
                                ),
                                res: Option::None,
                            },
                        },
                    }
                },
            }
        },
        Expression::FuncCall(f, args) => {
            if f.0.arg is Some || f.0.location@.len() != 1 {
                ExprOut {
                    emitted: seq![DiagnosticV::UnsupportedQualifiedCall(f.1)],
                    res: Option::None,
                }
            } else {
                let key = FnKeyV::Static(f.0.location@[0].0@);
                if !fnc.contains_key(key) {
                    ExprOut {
                        emitted: seq![DiagnosticV::UnknownFunctionOrMethod(f.1, key)],
                        res: Option::None,
                    }
                } else {
                    let sig = fnc[key];
                    let warn: Seq<DiagnosticV> = if sig.args.len() != args@.len() {
                        seq![DiagnosticV::ArityMismatch(span, sig.args.len(), args@.len())]
                    } else {
                        Seq::empty()
                    };
                    proof {
                        assert(decreases_to!(e.0 => args));
                        assert(decreases_to!(args => args@));
                    }
                    let out = check_args_spec(sig_params(sig), args@, 0, fnc, ctx);
                    match out.res {
                        Option::None => ExprOut { emitted: warn + out.emitted, res: Option::None },
                        Option::Some(ctxf) => ExprOut {
                            emitted: warn + out.emitted,
                            res: Option::Some((sig.ret, ctxf)),
                        },
                    }
                }
            }
        },
        Expression::MethodCall(sel, name, args) => {
            let out0 = check_expression_spec(*sel, fnc, ctx);
            match out0.res {
                Option::None => out0,
                Option::Some((sel_t, ctx1)) => {
                    let key = FnKeyV::Method(strip_spans(sel_t.1.0), name.0@);
                    if !fnc.contains_key(key) {
                        ExprOut {
                            emitted: out0.emitted.push(
                                DiagnosticV::UnknownFunctionOrMethod(
                                    name.1,
                                    FnKeyV::Method(sel_t.1.0, name.0@),
                                ),
                            ),
                            res: Option::None,
                        }
                    } else {
                        let sig = fnc[key];
                        let warn: Seq<DiagnosticV> = if sig.args.len() != args@.len() + 1 {
                            seq![DiagnosticV::ArityMismatch(span, sig.args.len(), args@.len())]
                        } else {
                            Seq::empty()
                        };
                        proof {
                            assert(decreases_to!(e.0 => args));
                            assert(decreases_to!(args => args@));
                        }
                        let out = check_args_spec(sig_params(sig), args@, 0, fnc, ctx1);
                        match out.res {
                            Option::None => ExprOut {
                                emitted: out0.emitted + warn + out.emitted,
                                res: Option::None,
                            },
                            Option::Some(ctx2) => {
                                if sig.args.len() > args@.len() {
                                    // the receiver is the implicit final argument
                                    let outr = check_expression_spec(*sel, fnc, ctx2);
                                    match outr.res {
                                        Option::None => ExprOut {
                                            emitted: out0.emitted + warn + out.emitted
                                                + outr.emitted,
                                            res: Option::None,
                                        },
                                        Option::Some((arg_t, ctx3)) => {
                                            match arg_check_spec(
                                                sig.args[args@.len() as int].1,
                                                arg_t,
                                                (*sel).1,
                                            ) {
                                                Option::Some(d) => ExprOut {
                                                    emitted: (out0.emitted + warn + out.emitted
                                                        + outr.emitted).push(d),
                                                    res: Option::None,
                                                },
                                                Option::None => ExprOut {
                                                    emitted: out0.emitted + warn + out.emitted
                                                        + outr.emitted,
                                                    res: Option::Some((sig.ret, ctx3)),
                                                },
                                            }
                                        },
                                    }
                                } else {
                                    ExprOut {
                                        emitted: out0.emitted + warn + out.emitted,
                                        res: Option::Some((sig.ret, ctx2)),
                                    }
                                }
                            },
                        }
                    }
                },
            }
        },
    }
}

/// Checks tuple elements from position `j` on, threading the context; every
/// element must come out Consumed.
pub open spec fn check_tuple_spec(
    args: Seq<(Expression, Span)>,
    j: int,
    fnc: Map<FnKeyV, FuncSigV>,
    ctx: Map<Seq<char>, TypV>,
) -> TupleOut
    decreases args, 1int, args.len() - j,
{
    if j < 0 || j >= args.len() {
        TupleOut { emitted: Seq::empty(), res: Option::Some((Seq::empty(), ctx)) }
    } else {
        proof {
            assert(decreases_to!(args => args[j]));
        }
        let out1 = check_expression_spec(args[j], fnc, ctx);
        match out1.res {
            Option::None => TupleOut { emitted: out1.emitted, res: Option::None },
            Option::Some((t, ctx2)) => {
                if t.0.0 == Borrowing::Borrowed {
                    TupleOut {
                        emitted: out1.emitted.push(DiagnosticV::IllegalBorrowedInTuple(args[j].1)),
                        res: Option::None,
                    }
                } else {
                    let rest = check_tuple_spec(args, j + 1, fnc, ctx2);
                    match rest.res {
                        Option::None => TupleOut {
                            emitted: out1.emitted + rest.emitted,
                            res: Option::None,
                        },
                        Option::Some((elems, ctxf)) => TupleOut {
                            emitted: out1.emitted + rest.emitted,
                            res: Option::Some((seq![t.1] + elems, ctxf)),
                        },
                    }
                }
            },
        }
    }
}

/// Checks arguments against declared parameters pairwise from position `j`
/// on, over the zipped shorter list, threading the context.
pub open spec fn check_args_spec(
    params: Seq<TypV>,
    args: Seq<(Expression, Span)>,
    j: int,
    fnc: Map<FnKeyV, FuncSigV>,
    ctx: Map<Seq<char>, TypV>,
) -> ArgsOut
    decreases args, 1int, args.len() - j,
{
    let n = if params.len() <= args.len() {
        params.len() as int
    } else {
        args.len() as int
    };
    if j < 0 || j >= n {
        ArgsOut { emitted: Seq::empty(), res: Option::Some(ctx) }
    } else {
        proof {
            assert(decreases_to!(args => args[j]));
        }
        let out1 = check_expression_spec(args[j], fnc, ctx);
        match out1.res {
            Option::None => ArgsOut { emitted: out1.emitted, res: Option::None },
            Option::Some((arg_t, ctx2)) => match arg_check_spec(params[j], arg_t, args[j].1) {
                Option::Some(d) => ArgsOut { emitted: out1.emitted.push(d), res: Option::None },
                Option::None => {
                    let rest = check_args_spec(params, args, j + 1, fnc, ctx2);
                    ArgsOut { emitted: out1.emitted + rest.emitted, res: rest.res }
                },
            },
        }
    }
}

/// Outcome of binding a pattern: the bindings it introduces.
pub struct PatOut {
    pub emitted: Seq<DiagnosticV>,
    pub res: Option<Map<Seq<char>, TypV>>,
}

/// What binding a pattern against a type yields. Binding never consults an
/// existing context; it only introduces bindings.
pub open spec fn check_pattern_spec(pat: (Pattern, Span), t: TypV) -> PatOut
    decreases pat.0, 0int,
{
    match pat.0 {
        Pattern::WildCard => PatOut {
            emitted: Seq::empty(),
            res: Option::Some(Map::empty()),
        },
        Pattern::IdentPat(x) => PatOut {
            emitted: Seq::empty(),
            res: Option::Some(Map::<Seq<char>, TypV>::empty().insert(x@, t)),
        },
        Pattern::Tuple(pats) => match t.1.0 {
            BaseTypV::Tuple(telems) => {
                let warn: Seq<DiagnosticV> = if pats@.len() != telems.len() {
                    seq![DiagnosticV::ArityMismatch(pat.1, telems.len(), pats@.len())]
                } else {
                    Seq::empty()
                };
                proof {
                    assert(decreases_to!(pat.0 => pats));
                    assert(decreases_to!(pats => pats@));
                }
                let out = check_pattern_args_spec(pats@, telems, pat.1, 0);
                PatOut { emitted: warn + out.emitted, res: out.res }
            },
            _ => PatOut {
                emitted: seq![DiagnosticV::TypeMismatch(pat.1, Option::None, t)],
                res: Option::None,
            },
        },
    }
}

/// Binds sub-patterns against tuple component types pairwise from position
/// `j` on, over the zipped shorter list; each component is bound Consumed,
/// and later bindings overwrite earlier ones.
pub open spec fn check_pattern_args_spec(
    pats: Seq<(Pattern, Span)>,
    telems: Seq<(BaseTypV, Span)>,
    pat_span: Span,
    j: int,
) -> PatOut
    decreases pats, pats.len() - j,
{
    let n = if pats.len() <= telems.len() {
        pats.len() as int
    } else {
        telems.len() as int
    };
    if j < 0 || j >= n {
        PatOut { emitted: Seq::empty(), res: Option::Some(Map::empty()) }
    } else {
        proof {
            assert(decreases_to!(pats => pats[j]));
        }
        let sub = check_pattern_spec(pats[j], ((Borrowing::Consumed, pat_span), telems[j]));
        match sub.res {
            Option::None => PatOut { emitted: sub.emitted, res: Option::None },
            Option::Some(m) => {
                let rest = check_pattern_args_spec(pats, telems, pat_span, j + 1);
                match rest.res {
                    Option::None => PatOut { emitted: sub.emitted + rest.emitted, res: Option::None },
                    Option::Some(m2) => PatOut {
                        emitted: sub.emitted + rest.emitted,
                        res: Option::Some(m.union_prefer_right(m2)),
                    },
                }
            },
        }
    }
}

/// Outcome of checking a statement: its type, the context after it, and the
/// variables it mutates.
pub struct StmtOut {
    pub emitted: Seq<DiagnosticV>,
    pub res: Option<(TypV, Map<Seq<char>, TypV>, Set<Seq<char>>)>,
}

/// What checking a let-binding yields: the right-hand side is checked first;
/// a declared type, if present, is held against the inferred type afterwards
/// and never drives checking; then the pattern binds against the inferred
/// type, its bindings shadowing prior ones. A statement's own type is always
/// unit, and no statement kind mutates anything yet.
pub open spec fn check_statement_spec(
    s: (Statement, Span),
    fnc: Map<FnKeyV, FuncSigV>,
    ctx: Map<Seq<char>, TypV>,
) -> StmtOut {
    match s.0 {
        Statement::LetBinding(pat, otyp, expr) => {
            let out1 = check_expression_spec(expr, fnc, ctx);
            match out1.res {
                Option::None => StmtOut { emitted: out1.emitted, res: Option::None },
                Option::Some((expr_t, ctx2)) => {
                    let ann_bad = match otyp {
                        Option::Some(tt) => !typ_eq_spec(typ_view(tt.0), expr_t),
                        Option::None => false,
                    };
                    if ann_bad {
                        StmtOut {
                            emitted: out1.emitted.push(
                                DiagnosticV::TypeMismatch(
                                    pat.1,
                                    Option::Some(typ_view(otyp->Some_0.0)),
                                    expr_t,
                                ),
                            ),
                            res: Option::None,
                        }
                    } else {
                        let out2 = check_pattern_spec(pat, expr_t);
                        match out2.res {
                            Option::None => StmtOut {
                                emitted: out1.emitted + out2.emitted,
                                res: Option::None,
                            },
                            Option::Some(binds) => StmtOut {
                                emitted: out1.emitted + out2.emitted,
                                res: Option::Some(
                                    (
                                        (
                                            (Borrowing::Consumed, s.1),
                                            (BaseTypV::Unit, s.1),
                                        ),
                                        ctx2.union_prefer_right(binds),
                                        Set::empty(),
                                    ),
                                ),
                            },
                        }
                    }
                },
            }
        },
    }
}

/// Outcome of checking a block: the type of its final statement, if any, and
/// the union of the mutated-variable sets of its statements.
pub struct BlockOut {
    pub emitted: Seq<DiagnosticV>,
    pub res: Option<(Option<TypV>, Set<Seq<char>>)>,
}

/// What checking the statements of a block from position `j` on yields: each
/// statement's output context feeds the next, every statement but the last
/// must type as consumed unit, and the final statement's type becomes the
/// block's result.
pub open spec fn check_block_spec(
    stmts: Seq<(Statement, Span)>,
    j: int,
    fnc: Map<FnKeyV, FuncSigV>,
    ctx: Map<Seq<char>, TypV>,
    mutated: Set<Seq<char>>,
) -> BlockOut
    decreases stmts.len() - j,
{
    if j < 0 || j >= stmts.len() {
        BlockOut { emitted: Seq::empty(), res: Option::Some((Option::None, mutated)) }
    } else {
        let out1 = check_statement_spec(stmts[j], fnc, ctx);
        match out1.res {
            Option::None => BlockOut { emitted: out1.emitted, res: Option::None },
            Option::Some((t, ctx2, mv)) => {
                if j + 1 < stmts.len() {
                    if !(t.0.0 == Borrowing::Consumed && t.1.0 == BaseTypV::Unit) {
                        BlockOut {
                            emitted: out1.emitted.push(
                                DiagnosticV::TypeMismatch(
                                    stmts[j].1,
                                    Option::Some(
                                        (
                                            (Borrowing::Consumed, stmts[j].1),
                                            (BaseTypV::Unit, stmts[j].1),
                                        ),
                                    ),
                                    t,
                                ),
                            ),
                            res: Option::None,
                        }
                    } else {
                        let rest = check_block_spec(stmts, j + 1, fnc, ctx2, mutated.union(mv));
                        BlockOut { emitted: out1.emitted + rest.emitted, res: rest.res }
                    }
                } else {
                    BlockOut {
                        emitted: out1.emitted,
                        res: Option::Some((Option::Some(t), mutated.union(mv))),
                    }
                }
            },
        }
    }
}

/// The context a function body starts from: its parameters, bound in order,
/// a later parameter shadowing an earlier one of the same name.
pub open spec fn seed_context_spec(args: Seq<((String, Span), Typ)>, n: int) -> Map<
    Seq<char>,
    TypV,
>
    decreases n,
{
    if n <= 0 {
        Map::empty()
    } else {
        seed_context_spec(args, n - 1).insert(args[n - 1].0.0@, typ_view(args[n - 1].1))
    }
}

/// The annotations checking gives one item: a function's block annotations,
/// or nothing for a use item.
pub enum ItemAnnV {
    FnAnn(Option<TypV>, Set<Seq<char>>),
    UseAnn,
}

/// Outcome of checking an item: its annotations and the signature table
/// afterwards.
pub struct ItemOut {
    pub emitted: Seq<DiagnosticV>,
    pub res: Option<(ItemAnnV, Map<FnKeyV, FuncSigV>)>,
}

/// What checking an item yields. A function body is checked against the
/// table as it existed before the function is added, so a function can call
/// neither itself nor any later-declared function; on success its signature
/// is registered under its name, silently overwriting any earlier entry.
/// Use items pass through unchanged.
pub open spec fn check_item_spec(i: Item, fnc: Map<FnKeyV, FuncSigV>) -> ItemOut {
    match i {
        Item::FnDecl(f, sig, b) => {
            let ctx0 = seed_context_spec(sig.args@, sig.args@.len() as int);
            let out = check_block_spec(b.0.stmts@, 0, fnc, ctx0, Set::empty());
            match out.res {
                Option::None => ItemOut { emitted: out.emitted, res: Option::None },
                Option::Some((rt, mv)) => ItemOut {
                    emitted: out.emitted,
                    res: Option::Some(
                        (
                            ItemAnnV::FnAnn(rt, mv),
                            fnc.insert(FnKeyV::Static(f.0@), sig_view(sig)),
                        ),
                    ),
                },
            }
        },
        Item::Use(_) => ItemOut {
            emitted: Seq::empty(),
            res: Option::Some((ItemAnnV::UseAnn, fnc)),
        },
    }
}

/// Outcome of checking a program: the annotations of each item, in order.
pub struct ProgOut {
    pub emitted: Seq<DiagnosticV>,
    pub res: Option<Seq<ItemAnnV>>,
}

/// What checking a program yields: items are processed strictly in order,
/// threading one signature table, and the first failing item aborts the
/// whole check.
pub open spec fn check_program_spec(p: Seq<(Item, Span)>, fnc: Map<FnKeyV, FuncSigV>) -> ProgOut
    decreases p.len(),
{
    if p.len() == 0 {
        ProgOut { emitted: Seq::empty(), res: Option::Some(Seq::empty()) }
    } else {
        let out = check_item_spec(p[0].0, fnc);
        match out.res {
            Option::None => ProgOut { emitted: out.emitted, res: Option::None },
            Option::Some((ann, fnc2)) => {
                let rest = check_program_spec(p.drop_first(), fnc2);
                match rest.res {
                    Option::None => ProgOut {
                        emitted: out.emitted + rest.emitted,
                        res: Option::None,
                    },
                    Option::Some(anns) => ProgOut {
                        emitted: out.emitted + rest.emitted,
                        res: Option::Some(seq![ann] + anns),
                    },
                }
            },
        }
    }
}

/// How a checked item relates to the one it came from: the same declaration,
/// with the function body's block annotated as the rules say.
pub open spec fn item_annotated(orig: Item, new: Item, ann: ItemAnnV) -> bool {
    match orig {
        Item::FnDecl(f1, sig1, b1) => match new {
            Item::FnDecl(f2, sig2, b2) => match ann {
                ItemAnnV::FnAnn(rt, mv) => f2 == f1 && sig2 == sig1 && b2.1 == b1.1
                    && b2.0.stmts == b1.0.stmts && opt_typ_view(b2.0.return_typ) == rt && (
                match b2.0.mutated_vars {
                    Option::Some(vs) => vs@ == mv,
                    Option::None => false,
                }),
                _ => false,
            },
            _ => false,
        },
        Item::Use(p1) => match new {
            Item::Use(p2) => p2 == p1 && ann is UseAnn,
            _ => false,
        },
    }
}

/// How a checked program relates to the one it came from: the same items in
/// the same places, each annotated as the rules say.
pub open spec fn program_annotated(
    p: Seq<(Item, Span)>,
    q: Seq<(Item, Span)>,
    anns: Seq<ItemAnnV>,
) -> bool {
    q.len() == p.len() && anns.len() == p.len() && forall|k: int|
        0 <= k < p.len() ==> (#[trigger] q[k]).1 == p[k].1 && item_annotated(p[k].0, q[k].0, anns[k])
}

} // verus!
