//! Type equality and the copy classification, together with
//! location-preserving duplication of type syntax.

use vstd::prelude::*;
use crate::ast::BaseTyp;
use crate::ast::Borrowing;
use crate::ast::FuncSig;
use crate::ast::Span;
use crate::ast::Typ;
use crate::ast::TypePath;
use crate::views::base_typ_view;
use crate::views::blank_span;
use crate::views::lemma_strip_list;
use crate::views::lemma_typ_list_view;
use crate::views::path_view;
use crate::views::sig_view;
use crate::views::strip_list;
use crate::views::strip_spans;
use crate::views::typ_list_view;
use crate::views::typ_view;
use crate::views::BaseTypV;
use crate::views::TypV;

verus! {

/// A type may be read without being consumed exactly when it is copy:
/// unit, booleans, the fixed-width integers, and tuples all of whose
/// components are copy. Sequences and named types are never copy.
pub open spec fn is_copy_spec(t: BaseTypV) -> bool
    decreases t, 0int,
{
    match t {
        BaseTypV::Sequence(_) => false,
        BaseTypV::Named(_) => false,
        BaseTypV::Tuple(ts) => {
            proof {
                assert(decreases_to!(t => ts));
            }
            all_copy_rec(ts, ts.len() as int)
        },
        _ => true,
    }
}

/// Whether the first `n` components of a tuple type are all copy.
pub open spec fn all_copy_rec(s: Seq<(BaseTypV, Span)>, n: int) -> bool
    decreases s, n,
{
    if n <= 0 || n > s.len() {
        true
    } else {
        proof {
            assert(decreases_to!(s => s[n - 1]));
        }
        all_copy_rec(s, n - 1) && is_copy_spec(s[n - 1].0)
    }
}

/// `all_copy_rec` says that every component before `n` is copy.
pub proof fn lemma_all_copy_rec(s: Seq<(BaseTypV, Span)>, n: int)
    requires
        0 <= n <= s.len(),
    ensures
        all_copy_rec(s, n) <==> (forall|i: int| 0 <= i < n ==> is_copy_spec(#[trigger] s[i].0)),
    decreases n,
{
    if n > 0 {
        lemma_all_copy_rec(s, n - 1);
    }
}

/// The integer base types, the only types a sequence may be indexed with.
pub open spec fn is_integer_spec(t: BaseTypV) -> bool {
    match t {
        BaseTypV::UInt128 => true,
        BaseTypV::Int128 => true,
        BaseTypV::UInt64 => true,
        BaseTypV::Int64 => true,
        BaseTypV::UInt32 => true,
        BaseTypV::Int32 => true,
        BaseTypV::UInt16 => true,
        BaseTypV::Int16 => true,
        BaseTypV::UInt8 => true,
        BaseTypV::Int8 => true,
        BaseTypV::Usize => true,
        BaseTypV::Isize => true,
        _ => false,
    }
}

/// Two full types are equal when their borrowing modes match and their base
/// types are structurally equal, that is, equal once every source location
/// is stripped. There is no widening or subtyping.
pub open spec fn typ_eq_spec(t1: TypV, t2: TypV) -> bool {
    t1.0.0 == t2.0.0 && strip_spans(t1.1.0) == strip_spans(t2.1.0)
}

/// Decides whether a base type is copy.
pub fn is_copy(t: &BaseTyp) -> (r: bool)
    ensures
        r == is_copy_spec(base_typ_view(*t)),
    decreases *t,
{
    match t {
        BaseTyp::Unit => true,
        BaseTyp::Bool => true,
        BaseTyp::UInt128 => true,
        BaseTyp::Int128 => true,
        BaseTyp::UInt64 => true,
        BaseTyp::Int64 => true,
        BaseTyp::UInt32 => true,
        BaseTyp::Int32 => true,
        BaseTyp::UInt16 => true,
        BaseTyp::Int16 => true,
        BaseTyp::UInt8 => true,
        BaseTyp::Int8 => true,
        BaseTyp::Usize => true,
        BaseTyp::Isize => true,
        BaseTyp::Sequence(_) => false,
        BaseTyp::Named(_) => false,
        BaseTyp::Tuple(ts) => {
            let ghost vs = typ_list_view(ts@);
            proof {
                lemma_typ_list_view(ts@);
            }
            let mut i: usize = 0;
            #[verifier::loop_isolation(false)]
            while i < ts.len()
                invariant
                    0 <= i <= ts@.len(),
                    vs == typ_list_view(ts@),
                    vs.len() == ts@.len(),
                    forall|j: int|
                        0 <= j < ts@.len() ==> #[trigger] vs[j] == (
                            base_typ_view(ts@[j].0),
                            ts@[j].1,
                        ),
                    forall|j: int| 0 <= j < i ==> is_copy_spec(#[trigger] vs[j].0),
                    base_typ_view(*t) == BaseTypV::Tuple(vs),
                decreases ts@.len() - i,
            {
                proof {
                    assert(decreases_to!(*t => *ts));
                    assert(decreases_to!(*ts => ts@));
                    assert(decreases_to!(ts@ => ts@[i as int]));
                }
                if !is_copy(&ts[i].0) {
                    proof {
                        assert(vs[i as int].0 == base_typ_view(ts@[i as int].0));
                        assert(!is_copy_spec(vs[i as int].0));
                        lemma_all_copy_rec(vs, vs.len() as int);
                        assert(!all_copy_rec(vs, vs.len() as int));
                        assert(!is_copy_spec(BaseTypV::Tuple(vs)));
                    }
                    return false;
                }
                i = i + 1;
            }
            proof {
                lemma_all_copy_rec(vs, vs.len() as int);
            }
            true
        },
    }
}

/// Decides structural equality of base types, ignoring source locations.
pub fn equal_base(t1: &BaseTyp, t2: &BaseTyp) -> (r: bool)
    ensures
        r == (strip_spans(base_typ_view(*t1)) == strip_spans(base_typ_view(*t2))),
    decreases *t1,
{
    match (t1, t2) {
        (BaseTyp::Unit, BaseTyp::Unit) => true,
        (BaseTyp::Bool, BaseTyp::Bool) => true,
        (BaseTyp::UInt128, BaseTyp::UInt128) => true,
        (BaseTyp::Int128, BaseTyp::Int128) => true,
        (BaseTyp::UInt64, BaseTyp::UInt64) => true,
        (BaseTyp::Int64, BaseTyp::Int64) => true,
        (BaseTyp::UInt32, BaseTyp::UInt32) => true,
        (BaseTyp::Int32, BaseTyp::Int32) => true,
        (BaseTyp::UInt16, BaseTyp::UInt16) => true,
        (BaseTyp::Int16, BaseTyp::Int16) => true,
        (BaseTyp::UInt8, BaseTyp::UInt8) => true,
        (BaseTyp::Int8, BaseTyp::Int8) => true,
        (BaseTyp::Usize, BaseTyp::Usize) => true,
        (BaseTyp::Isize, BaseTyp::Isize) => true,
        (BaseTyp::Sequence(b1), BaseTyp::Sequence(b2)) => equal_base(&b1.0, &b2.0),
        (BaseTyp::Named(p1), BaseTyp::Named(p2)) => equal_path(p1, p2),
        (BaseTyp::Tuple(ts1), BaseTyp::Tuple(ts2)) => {
            let ghost sv1 = strip_list(typ_list_view(ts1@));
            let ghost sv2 = strip_list(typ_list_view(ts2@));
            proof {
                lemma_typ_list_view(ts1@);
                lemma_typ_list_view(ts2@);
                lemma_strip_list(typ_list_view(ts1@));
                lemma_strip_list(typ_list_view(ts2@));
            }
            if ts1.len() != ts2.len() {
                return false;
            }
            let mut i: usize = 0;
            #[verifier::loop_isolation(false)]
            while i < ts1.len()
                invariant
                    0 <= i <= ts1@.len(),
                    ts1@.len() == ts2@.len(),
                    sv1 == strip_list(typ_list_view(ts1@)),
                    sv2 == strip_list(typ_list_view(ts2@)),
                    sv1.len() == ts1@.len(),
                    sv2.len() == ts2@.len(),
                    forall|j: int|
                        0 <= j < ts1@.len() ==> #[trigger] sv1[j] == (
                            strip_spans(base_typ_view(ts1@[j].0)),
                            blank_span(),
                        ),
                    forall|j: int|
                        0 <= j < ts2@.len() ==> #[trigger] sv2[j] == (
                            strip_spans(base_typ_view(ts2@[j].0)),
                            blank_span(),
                        ),
                    forall|j: int| 0 <= j < i ==> #[trigger] sv1[j] == sv2[j],
                    strip_spans(base_typ_view(*t1)) == BaseTypV::Tuple(sv1),
                    strip_spans(base_typ_view(*t2)) == BaseTypV::Tuple(sv2),
                decreases ts1@.len() - i,
            {
                proof {
                    assert(decreases_to!(*t1 => *ts1));
                    assert(decreases_to!(*ts1 => ts1@));
                    assert(decreases_to!(ts1@ => ts1@[i as int]));
                }
                if !equal_base(&ts1[i].0, &ts2[i].0) {
                    proof {
                        assert(sv1[i as int] != sv2[i as int]);
                        assert(sv1 != sv2);
                    }
                    return false;
                }
                i = i + 1;
            }
            proof {
                assert(sv1 =~= sv2);
            }
            true
        },
        _ => false,
    }
}

/// Decides equality of qualified names: component-wise equal paths whose
/// optional type arguments are both absent or structurally equal.
pub fn equal_path(p1: &TypePath, p2: &TypePath) -> (r: bool)
    ensures
        r == (strip_spans(BaseTypV::Named(path_view(*p1)))
            == strip_spans(BaseTypV::Named(path_view(*p2)))),
    decreases *p1,
{
    let ghost l1 = Seq::new(
        path_view(*p1).location.len(),
        |i: int| (path_view(*p1).location[i].0, blank_span()),
    );
    let ghost l2 = Seq::new(
        path_view(*p2).location.len(),
        |i: int| (path_view(*p2).location[i].0, blank_span()),
    );
    if p1.location.len() != p2.location.len() {
        return false;
    }
    let mut i: usize = 0;
    while i < p1.location.len()
        invariant
            0 <= i <= p1.location@.len(),
            p1.location@.len() == p2.location@.len(),
            l1 == Seq::new(
                path_view(*p1).location.len(),
                |k: int| (path_view(*p1).location[k].0, blank_span()),
            ),
            l2 == Seq::new(
                path_view(*p2).location.len(),
                |k: int| (path_view(*p2).location[k].0, blank_span()),
            ),
            forall|j: int| 0 <= j < i ==> #[trigger] l1[j] == l2[j],
        decreases p1.location@.len() - i,
    {
        if !(p1.location[i].0 == p2.location[i].0) {
            proof {
                assert(l1[i as int].0 != l2[i as int].0);
            }
            return false;
        }
        i = i + 1;
    }
    let args_equal = match (&p1.arg, &p2.arg) {
        (Option::None, Option::None) => true,
        (Option::Some(b1), Option::Some(b2)) => {
            proof {
                assert(decreases_to!(*p1 => p1.arg));
                assert(decreases_to!(p1.arg => *b1));
            }
            equal_base(b1, b2)
        },
        _ => false,
    };
    proof {
        if args_equal {
            assert(l1 =~= l2);
        }
    }
    args_equal
}

/// Decides equality of full types: both borrowing modes must match and the
/// base types must be structurally equal.
pub fn equal_types(t1: &Typ, t2: &Typ) -> (r: bool)
    ensures
        r == typ_eq_spec(typ_view(*t1), typ_view(*t2)),
{
    let modes_match = match (t1.0.0, t2.0.0) {
        (Borrowing::Consumed, Borrowing::Consumed) => true,
        (Borrowing::Borrowed, Borrowing::Borrowed) => true,
        _ => false,
    };
    modes_match && equal_base(&t1.1.0, &t2.1.0)
}

/// Decides whether a base type is one of the integer types.
pub fn is_integer(t: &BaseTyp) -> (r: bool)
    ensures
        r == is_integer_spec(base_typ_view(*t)),
{
    match t {
        BaseTyp::UInt128 => true,
        BaseTyp::Int128 => true,
        BaseTyp::UInt64 => true,
        BaseTyp::Int64 => true,
        BaseTyp::UInt32 => true,
        BaseTyp::Int32 => true,
        BaseTyp::UInt16 => true,
        BaseTyp::Int16 => true,
        BaseTyp::UInt8 => true,
        BaseTyp::Int8 => true,
        BaseTyp::Usize => true,
        BaseTyp::Isize => true,
        _ => false,
    }
}

/// Duplicates a base type, keeping every source location.
pub fn clone_base(t: &BaseTyp) -> (r: BaseTyp)
    ensures
        base_typ_view(r) == base_typ_view(*t),
    decreases *t,
{
    match t {
        BaseTyp::Unit => BaseTyp::Unit,
        BaseTyp::Bool => BaseTyp::Bool,
        BaseTyp::UInt128 => BaseTyp::UInt128,
        BaseTyp::Int128 => BaseTyp::Int128,
        BaseTyp::UInt64 => BaseTyp::UInt64,
        BaseTyp::Int64 => BaseTyp::Int64,
        BaseTyp::UInt32 => BaseTyp::UInt32,
        BaseTyp::Int32 => BaseTyp::Int32,
        BaseTyp::UInt16 => BaseTyp::UInt16,
        BaseTyp::Int16 => BaseTyp::Int16,
        BaseTyp::UInt8 => BaseTyp::UInt8,
        BaseTyp::Int8 => BaseTyp::Int8,
        BaseTyp::Usize => BaseTyp::Usize,
        BaseTyp::Isize => BaseTyp::Isize,
        BaseTyp::Sequence(b) => {
            let inner = clone_base(&b.0);
            BaseTyp::Sequence(Box::new((inner, b.1)))
        },
        BaseTyp::Named(p) => BaseTyp::Named(clone_path(p)),
        BaseTyp::Tuple(ts) => {
            let mut out: Vec<(BaseTyp, Span)> = Vec::new();
            let mut i: usize = 0;
            #[verifier::loop_isolation(false)]
            while i < ts.len()
                invariant
                    0 <= i <= ts@.len(),
                    out@.len() == i,
                    forall|j: int|
                        0 <= j < i ==> base_typ_view(#[trigger] out@[j].0)
                            == base_typ_view(ts@[j].0) && out@[j].1 == ts@[j].1,
                decreases ts@.len() - i,
            {
                proof {
                    assert(decreases_to!(*t => *ts));
                    assert(decreases_to!(*ts => ts@));
                    assert(decreases_to!(ts@ => ts@[i as int]));
                }
                let c = clone_base(&ts[i].0);
                out.push((c, ts[i].1));
                i = i + 1;
            }
            let r = BaseTyp::Tuple(out);
            proof {
                lemma_typ_list_view(ts@);
                lemma_typ_list_view(out@);
                assert(typ_list_view(out@) =~= typ_list_view(ts@));
            }
            r
        },
    }
}

/// Duplicates a qualified name, keeping every source location.
pub fn clone_path(p: &TypePath) -> (r: TypePath)
    ensures
        path_view(r) == path_view(*p),
    decreases *p,
{
    let mut location: Vec<(String, Span)> = Vec::new();
    let mut i: usize = 0;
    while i < p.location.len()
        invariant
            0 <= i <= p.location@.len(),
            location@.len() == i,
            forall|j: int| 0 <= j < i ==> #[trigger] location@[j] == p.location@[j],
        decreases p.location@.len() - i,
    {
        location.push((p.location[i].0.clone(), p.location[i].1));
        i = i + 1;
    }
    let arg = match &p.arg {
        Option::Some(b) => {
            proof {
                assert(decreases_to!(*p => p.arg));
                assert(decreases_to!(p.arg => *b));
            }
            Option::Some(Box::new(clone_base(b)))
        },
        Option::None => Option::None,
    };
    let r = TypePath { location, arg };
    proof {
        assert(path_view(r).location =~= path_view(*p).location);
    }
    r
}

/// Duplicates a full type, keeping every source location.
pub fn clone_typ(t: &Typ) -> (r: Typ)
    ensures
        typ_view(r) == typ_view(*t),
{
    (t.0, (clone_base(&t.1.0), t.1.1))
}

/// Duplicates a function signature, keeping every source location.
pub fn clone_sig(s: &FuncSig) -> (r: FuncSig)
    ensures
        sig_view(r) == sig_view(*s),
{
    let mut args: Vec<((String, Span), Typ)> = Vec::new();
    let mut i: usize = 0;
    while i < s.args.len()
        invariant
            0 <= i <= s.args@.len(),
            args@.len() == i,
            forall|j: int|
                0 <= j < i ==> (#[trigger] args@[j]).0.0@ == s.args@[j].0.0@
                    && args@[j].0.1 == s.args@[j].0.1
                    && typ_view(args@[j].1) == typ_view(s.args@[j].1),
        decreases s.args@.len() - i,
    {
        args.push(((s.args[i].0.0.clone(), s.args[i].0.1), clone_typ(&s.args[i].1)));
        i = i + 1;
    }
    let r = FuncSig { args, ret: clone_typ(&s.ret) };
    proof {
        assert(sig_view(r).args =~= sig_view(*s).args);
    }
    r
}

} // verus!
