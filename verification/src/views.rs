//! Mathematical views of the syntax. Identifiers become character sequences
//! and vectors become sequences, so that contracts can speak of values rather
//! than of heap objects.

use vstd::prelude::*;
use crate::ast::Borrowing;
use crate::ast::BaseTyp;
use crate::ast::Diagnostic;
use crate::ast::FnKey;
use crate::ast::FuncSig;
use crate::ast::Span;
use crate::ast::Typ;
use crate::ast::TypePath;

verus! {

/// View of a qualified name.
pub struct TypePathV {
    pub location: Seq<(Seq<char>, Span)>,
    pub arg: Option<Box<BaseTypV>>,
}

/// View of a base type.
pub enum BaseTypV {
    Unit,
    Bool,
    UInt128,
    Int128,
    UInt64,
    Int64,
    UInt32,
    Int32,
    UInt16,
    Int16,
    UInt8,
    Int8,
    Usize,
    Isize,
    Sequence(Box<(BaseTypV, Span)>),
    Named(TypePathV),
    Tuple(Seq<(BaseTypV, Span)>),
}

/// View of a full type.
pub type TypV = ((Borrowing, Span), (BaseTypV, Span));

/// View of a callable's identity.
pub enum FnKeyV {
    Static(Seq<char>),
    Method(BaseTypV, Seq<char>),
}

/// View of a function signature.
pub struct FuncSigV {
    pub args: Seq<((Seq<char>, Span), TypV)>,
    pub ret: TypV,
}

/// View of a diagnostic.
pub enum DiagnosticV {
    UnknownIdentifier(Span, TypePathV),
    UnknownFunctionOrMethod(Span, FnKeyV),
    TypeMismatch(Span, Option<TypV>, TypV),
    BorrowModeMismatch(Span, Borrowing, Borrowing),
    ArityMismatch(Span, nat, nat),
    IllegalBorrowedInTuple(Span),
    NonIntegerIndex(Span, TypV),
    BorrowedIndex(Span),
    NonSequenceIndexed(Span, TypV),
    UnsupportedQualifiedCall(Span),
}

pub open spec fn path_view(p: TypePath) -> TypePathV
    decreases p, 0int, 0int,
{
    TypePathV {
        location: Seq::new(p.location@.len(), |i: int| (p.location@[i].0@, p.location@[i].1)),
        arg: match p.arg {
            Option::Some(b) => {
                proof {
                    assert(decreases_to!(p => p.arg));
                    assert(decreases_to!(p.arg => b));
                }
                Option::Some(Box::new(base_typ_view(*b)))
            },
            Option::None => Option::None,
        },
    }
}

pub open spec fn base_typ_view(t: BaseTyp) -> BaseTypV
    decreases t, 0int, 0int,
{
    match t {
        BaseTyp::Unit => BaseTypV::Unit,
        BaseTyp::Bool => BaseTypV::Bool,
        BaseTyp::UInt128 => BaseTypV::UInt128,
        BaseTyp::Int128 => BaseTypV::Int128,
        BaseTyp::UInt64 => BaseTypV::UInt64,
        BaseTyp::Int64 => BaseTypV::Int64,
        BaseTyp::UInt32 => BaseTypV::UInt32,
        BaseTyp::Int32 => BaseTypV::Int32,
        BaseTyp::UInt16 => BaseTypV::UInt16,
        BaseTyp::Int16 => BaseTypV::Int16,
        BaseTyp::UInt8 => BaseTypV::UInt8,
        BaseTyp::Int8 => BaseTypV::Int8,
        BaseTyp::Usize => BaseTypV::Usize,
        BaseTyp::Isize => BaseTypV::Isize,
        BaseTyp::Sequence(b) => BaseTypV::Sequence(Box::new((base_typ_view((*b).0), (*b).1))),
        BaseTyp::Named(p) => BaseTypV::Named(path_view(p)),
        BaseTyp::Tuple(ts) => {
            proof {
                assert(decreases_to!(t => ts));
                assert(decreases_to!(ts => ts@));
            }
            BaseTypV::Tuple(typ_list_view(ts@))
        },
    }
}

/// The base-type views of a list of spanned base types.
pub open spec fn typ_list_view(s: Seq<(BaseTyp, Span)>) -> Seq<(BaseTypV, Span)>
    decreases s, 1int, 0int,
{
    typ_list_view_rec(s, s.len() as int)
}

/// The views of the first `n` elements of a list of spanned base types.
pub open spec fn typ_list_view_rec(s: Seq<(BaseTyp, Span)>, n: int) -> Seq<(BaseTypV, Span)>
    decreases s, 0int, n,
{
    if n <= 0 || n > s.len() {
        Seq::empty()
    } else {
        proof {
            assert(decreases_to!(s => s[n - 1]));
        }
        typ_list_view_rec(s, n - 1).push((base_typ_view(s[n - 1].0), s[n - 1].1))
    }
}

/// What `typ_list_view` holds at each index.
pub proof fn lemma_typ_list_view_rec(s: Seq<(BaseTyp, Span)>, n: int)
    requires
        0 <= n <= s.len(),
    ensures
        typ_list_view_rec(s, n).len() == n,
        forall|i: int|
            0 <= i < n ==> typ_list_view_rec(s, n)[i] == (base_typ_view(s[i].0), s[i].1),
    decreases n,
{
    if n > 0 {
        lemma_typ_list_view_rec(s, n - 1);
    }
}

/// What `typ_list_view` holds at each index.
pub proof fn lemma_typ_list_view(s: Seq<(BaseTyp, Span)>)
    ensures
        typ_list_view(s).len() == s.len(),
        forall|i: int| 0 <= i < s.len() ==> typ_list_view(s)[i] == (base_typ_view(s[i].0), s[i].1),
{
    lemma_typ_list_view_rec(s, s.len() as int);
}

pub open spec fn typ_view(t: Typ) -> TypV {
    (t.0, (base_typ_view(t.1.0), t.1.1))
}

pub open spec fn opt_typ_view(t: Option<Typ>) -> Option<TypV> {
    match t {
        Option::Some(t0) => Option::Some(typ_view(t0)),
        Option::None => Option::None,
    }
}

/// The location every span is replaced with when locations are stripped.
pub open spec fn blank_span() -> Span {
    Span { lo: 0, hi: 0 }
}

/// Replaces every source location inside a base type with `blank_span()`.
/// Two base types are structurally equal exactly when their stripped forms
/// are equal.
pub open spec fn strip_spans(t: BaseTypV) -> BaseTypV
    decreases t, 0int, 0int,
{
    match t {
        BaseTypV::Sequence(b) => BaseTypV::Sequence(
            Box::new((strip_spans((*b).0), blank_span())),
        ),
        BaseTypV::Named(p) => BaseTypV::Named(
            TypePathV {
                location: Seq::new(p.location.len(), |i: int| (p.location[i].0, blank_span())),
                arg: match p.arg {
                    Option::Some(b) => {
                        proof {
                            assert(decreases_to!(t => p));
                            assert(decreases_to!(p => p.arg));
                            assert(decreases_to!(p.arg => b));
                        }
                        Option::Some(Box::new(strip_spans(*b)))
                    },
                    Option::None => Option::None,
                },
            },
        ),
        BaseTypV::Tuple(ts) => {
            proof {
                assert(decreases_to!(t => ts));
            }
            BaseTypV::Tuple(strip_list(ts))
        },
        _ => t,
    }
}

/// The stripped forms of a list of spanned base-type views.
pub open spec fn strip_list(s: Seq<(BaseTypV, Span)>) -> Seq<(BaseTypV, Span)>
    decreases s, 1int, 0int,
{
    strip_list_rec(s, s.len() as int)
}

/// The stripped forms of the first `n` elements.
pub open spec fn strip_list_rec(s: Seq<(BaseTypV, Span)>, n: int) -> Seq<(BaseTypV, Span)>
    decreases s, 0int, n,
{
    if n <= 0 || n > s.len() {
        Seq::empty()
    } else {
        proof {
            assert(decreases_to!(s => s[n - 1]));
        }
        strip_list_rec(s, n - 1).push((strip_spans(s[n - 1].0), blank_span()))
    }
}

/// What `strip_list` holds at each index.
pub proof fn lemma_strip_list_rec(s: Seq<(BaseTypV, Span)>, n: int)
    requires
        0 <= n <= s.len(),
    ensures
        strip_list_rec(s, n).len() == n,
        forall|i: int|
            0 <= i < n ==> strip_list_rec(s, n)[i] == (strip_spans(s[i].0), blank_span()),
    decreases n,
{
    if n > 0 {
        lemma_strip_list_rec(s, n - 1);
    }
}

/// What `strip_list` holds at each index.
pub proof fn lemma_strip_list(s: Seq<(BaseTypV, Span)>)
    ensures
        strip_list(s).len() == s.len(),
        forall|i: int| 0 <= i < s.len() ==> strip_list(s)[i] == (strip_spans(s[i].0), blank_span()),
{
    lemma_strip_list_rec(s, s.len() as int);
}

/// View of a callable's identity as a diagnostic reports it, locations kept.
pub open spec fn fn_key_view(k: FnKey) -> FnKeyV {
    match k {
        FnKey::Static(x) => FnKeyV::Static(x@),
        FnKey::Method(b, x) => FnKeyV::Method(base_typ_view(b), x@),
    }
}

/// View of a callable's identity as the signature table is keyed: locations
/// inside the receiver type are stripped, since method lookup goes by the
/// structure of the receiver's base type alone.
pub open spec fn fn_key_lookup_view(k: FnKey) -> FnKeyV {
    match k {
        FnKey::Static(x) => FnKeyV::Static(x@),
        FnKey::Method(b, x) => FnKeyV::Method(strip_spans(base_typ_view(b)), x@),
    }
}

pub open spec fn sig_view(s: FuncSig) -> FuncSigV {
    FuncSigV {
        args: Seq::new(
            s.args@.len(),
            |i: int| ((s.args@[i].0.0@, s.args@[i].0.1), typ_view(s.args@[i].1)),
        ),
        ret: typ_view(s.ret),
    }
}

/// The parameter types of a signature, in order.
pub open spec fn params_view(args: Seq<((String, Span), Typ)>) -> Seq<TypV> {
    Seq::new(args.len(), |i: int| typ_view(args[i].1))
}

pub open spec fn diagnostic_view(d: Diagnostic) -> DiagnosticV {
    match d {
        Diagnostic::UnknownIdentifier(sp, p) => DiagnosticV::UnknownIdentifier(sp, path_view(p)),
        Diagnostic::UnknownFunctionOrMethod(sp, k) => DiagnosticV::UnknownFunctionOrMethod(
            sp,
            fn_key_view(k),
        ),
        Diagnostic::TypeMismatch(sp, expected, found) => DiagnosticV::TypeMismatch(
            sp,
            opt_typ_view(expected),
            typ_view(found),
        ),
        Diagnostic::BorrowModeMismatch(sp, expected, found) => DiagnosticV::BorrowModeMismatch(
            sp,
            expected,
            found,
        ),
        Diagnostic::ArityMismatch(sp, expected, found) => DiagnosticV::ArityMismatch(
            sp,
            expected as nat,
            found as nat,
        ),
        Diagnostic::IllegalBorrowedInTuple(sp) => DiagnosticV::IllegalBorrowedInTuple(sp),
        Diagnostic::NonIntegerIndex(sp, t) => DiagnosticV::NonIntegerIndex(sp, typ_view(t)),
        Diagnostic::BorrowedIndex(sp) => DiagnosticV::BorrowedIndex(sp),
        Diagnostic::NonSequenceIndexed(sp, t) => DiagnosticV::NonSequenceIndexed(sp, typ_view(t)),
        Diagnostic::UnsupportedQualifiedCall(sp) => DiagnosticV::UnsupportedQualifiedCall(sp),
    }
}

pub open spec fn diagnostics_view(s: Seq<Diagnostic>) -> Seq<DiagnosticV> {
    Seq::new(s.len(), |i: int| diagnostic_view(s[i]))
}

} // verus!
