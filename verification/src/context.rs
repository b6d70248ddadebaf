//! The checker's working state: the diagnostic reporter, sets of variable
//! names, the variable context and the signature table. The two tables are
//! persistent values: every operation returns a fresh table and leaves the
//! receiver untouched, so sibling branches of the syntax see independent,
//! non-interfering views of consumption.

use vstd::prelude::*;
use crate::ast::Diagnostic;
use crate::ast::FnKey;
use crate::ast::FuncSig;
use crate::ast::Ident;
use crate::ast::Typ;
use crate::types::clone_sig;
use crate::types::clone_typ;
use crate::types::equal_base;
use crate::views::diagnostic_view;
use crate::views::diagnostics_view;
use crate::views::fn_key_lookup_view;
use crate::views::sig_view;
use crate::views::typ_view;
use crate::views::DiagnosticV;
use crate::views::FnKeyV;
use crate::views::FuncSigV;
use crate::views::TypV;

verus! {

/// Accumulates span-tagged diagnostics, in the order they were reported.
#[derive(Debug)]
pub struct Reporter {
    pub log: Vec<Diagnostic>,
}

impl View for Reporter {
    type V = Seq<DiagnosticV>;

    open spec fn view(&self) -> Seq<DiagnosticV> {
        diagnostics_view(self.log@)
    }
}

impl Reporter {
    /// A reporter with an empty log.
    pub fn new() -> (r: Reporter)
        ensures
            r@ == Seq::<DiagnosticV>::empty(),
    {
        let r = Reporter { log: Vec::new() };
        proof {
            assert(r@ =~= Seq::<DiagnosticV>::empty());
        }
        r
    }

    /// Appends one diagnostic to the log.
    pub fn report(&mut self, d: Diagnostic)
        ensures
            final(self)@ == old(self)@.push(diagnostic_view(d)),
    {
        let ghost dv = diagnostic_view(d);
        self.log.push(d);
        proof {
            assert(self@ =~= old(self)@.push(dv));
        }
    }
}

/// The set of names a sequence of identifiers denotes.
pub open spec fn names_set(s: Seq<String>) -> Set<Seq<char>>
    decreases s.len(),
{
    if s.len() == 0 {
        Set::empty()
    } else {
        names_set(s.drop_last()).insert(s.last()@)
    }
}

/// A set of variable names, used for the mutated-variable annotation of a
/// checked block.
#[derive(Debug)]
pub struct VarSet {
    pub names: Vec<Ident>,
}

impl View for VarSet {
    type V = Set<Seq<char>>;

    open spec fn view(&self) -> Set<Seq<char>> {
        names_set(self.names@)
    }
}

impl VarSet {
    /// The empty set of names.
    pub fn empty() -> (r: VarSet)
        ensures
            r@ == Set::<Seq<char>>::empty(),
    {
        VarSet { names: Vec::new() }
    }

    /// The union of two sets of names.
    pub fn union(&self, other: &VarSet) -> (r: VarSet)
        ensures
            r@ == self@.union(other@),
    {
        let mut names: Vec<Ident> = Vec::new();
        let mut i: usize = 0;
        while i < self.names.len()
            invariant
                0 <= i <= self.names@.len(),
                names@.len() == i,
                forall|j: int| 0 <= j < i ==> #[trigger] names@[j] == self.names@[j],
            decreases self.names@.len() - i,
        {
            names.push(self.names[i].clone());
            i = i + 1;
        }
        proof {
            assert(names@ =~= self.names@);
        }
        let mut i: usize = 0;
        while i < other.names.len()
            invariant
                0 <= i <= other.names@.len(),
                names@ =~= self.names@ + other.names@.take(i as int),
            decreases other.names@.len() - i,
        {
            names.push(other.names[i].clone());
            proof {
                assert(names@ =~= self.names@ + other.names@.take(i + 1 as int));
            }
            i = i + 1;
        }
        proof {
            assert(other.names@.take(other.names@.len() as int) =~= other.names@);
            lemma_names_set_append(self.names@, other.names@);
        }
        VarSet { names }
    }
}

/// The names denoted by a concatenation are the union of the names denoted
/// by its parts.
proof fn lemma_names_set_append(s1: Seq<String>, s2: Seq<String>)
    ensures
        names_set(s1 + s2) == names_set(s1).union(names_set(s2)),
    decreases s2.len(),
{
    if s2.len() == 0 {
        assert(s1 + s2 =~= s1);
        assert(names_set(s1).union(names_set(s2)) =~= names_set(s1));
    } else {
        lemma_names_set_append(s1, s2.drop_last());
        assert((s1 + s2).drop_last() =~= s1 + s2.drop_last());
        assert((s1 + s2).last() == s2.last());
        assert(names_set(s1 + s2) == names_set(s1 + s2.drop_last()).insert(s2.last()@));
        assert(names_set(s1).union(names_set(s2.drop_last())).insert(s2.last()@)
            =~= names_set(s1).union(names_set(s2)));
    }
}

/// The finite map an association list of variable bindings denotes: later
/// entries shadow earlier ones.
pub open spec fn var_map(s: Seq<(String, Typ)>) -> Map<Seq<char>, TypV>
    decreases s.len(),
{
    if s.len() == 0 {
        Map::empty()
    } else {
        var_map(s.drop_last()).insert(s.last().0@, typ_view(s.last().1))
    }
}

/// The context a variable name resolves in: a persistent map from identifier
/// to type. A name is present exactly while it has not been linearly
/// consumed.
#[derive(Debug)]
pub struct VarContext {
    entries: Vec<(Ident, Typ)>,
}

impl View for VarContext {
    type V = Map<Seq<char>, TypV>;

    closed spec fn view(&self) -> Map<Seq<char>, TypV> {
        var_map(self.entries@)
    }
}

/// Two entry lists whose names and type views agree pointwise denote the
/// same map.
proof fn lemma_var_map_congruent(s1: Seq<(String, Typ)>, s2: Seq<(String, Typ)>)
    requires
        s1.len() == s2.len(),
        forall|i: int|
            0 <= i < s1.len() ==> (#[trigger] s1[i]).0@ == s2[i].0@ && typ_view(s1[i].1)
                == typ_view(s2[i].1),
    ensures
        var_map(s1) == var_map(s2),
    decreases s1.len(),
{
    if s1.len() > 0 {
        lemma_var_map_congruent(s1.drop_last(), s2.drop_last());
    }
}

/// If entry `i` has name `k` and no later entry does, the map holds entry
/// `i`'s type at `k`.
proof fn lemma_var_map_found(s: Seq<(String, Typ)>, i: int, k: Seq<char>)
    requires
        0 <= i < s.len(),
        s[i].0@ == k,
        forall|j: int| i < j < s.len() ==> (#[trigger] s[j]).0@ != k,
    ensures
        var_map(s).contains_key(k),
        var_map(s)[k] == typ_view(s[i].1),
    decreases s.len(),
{
    if i < s.len() - 1 {
        lemma_var_map_found(s.drop_last(), i, k);
    }
}

/// A name no entry carries is not in the map.
proof fn lemma_var_map_absent(s: Seq<(String, Typ)>, k: Seq<char>)
    requires
        forall|j: int| 0 <= j < s.len() ==> (#[trigger] s[j]).0@ != k,
    ensures
        !var_map(s).contains_key(k),
    decreases s.len(),
{
    if s.len() > 0 {
        lemma_var_map_absent(s.drop_last(), k);
    }
}

/// Concatenating entry lists unions their maps, the right side winning.
proof fn lemma_var_map_append(s1: Seq<(String, Typ)>, s2: Seq<(String, Typ)>)
    ensures
        var_map(s1 + s2) == var_map(s1).union_prefer_right(var_map(s2)),
    decreases s2.len(),
{
    if s2.len() == 0 {
        assert(s1 + s2 =~= s1);
        assert(var_map(s1).union_prefer_right(var_map(s2)) =~= var_map(s1));
    } else {
        lemma_var_map_append(s1, s2.drop_last());
        assert((s1 + s2).drop_last() =~= s1 + s2.drop_last());
        assert(var_map(s1).union_prefer_right(var_map(s2.drop_last())).insert(
            s2.last().0@,
            typ_view(s2.last().1),
        ) =~= var_map(s1).union_prefer_right(var_map(s2)));
    }
}

/// Duplicates an entry list; names are kept exactly and types keep their
/// views.
fn clone_var_entries(v: &Vec<(Ident, Typ)>) -> (r: Vec<(Ident, Typ)>)
    ensures
        r@.len() == v@.len(),
        forall|i: int|
            0 <= i < v@.len() ==> (#[trigger] r@[i]).0@ == v@[i].0@ && typ_view(r@[i].1)
                == typ_view(v@[i].1),
{
    let mut r: Vec<(Ident, Typ)> = Vec::new();
    let mut i: usize = 0;
    while i < v.len()
        invariant
            0 <= i <= v@.len(),
            r@.len() == i,
            forall|j: int|
                0 <= j < i ==> (#[trigger] r@[j]).0@ == v@[j].0@ && typ_view(r@[j].1)
                    == typ_view(v@[j].1),
        decreases v@.len() - i,
    {
        r.push((v[i].0.clone(), clone_typ(&v[i].1)));
        i = i + 1;
    }
    r
}

impl VarContext {
    /// The empty context.
    pub fn empty() -> (r: VarContext)
        ensures
            r@ == Map::<Seq<char>, TypV>::empty(),
    {
        VarContext { entries: Vec::new() }
    }

    /// A context denoting the same map as this one.
    pub fn duplicate(&self) -> (r: VarContext)
        ensures
            r@ == self@,
    {
        let entries = clone_var_entries(&self.entries);
        proof {
            lemma_var_map_congruent(entries@, self.entries@);
        }
        VarContext { entries }
    }

    /// The context with `x` bound to `t`, shadowing any earlier binding.
    pub fn update(&self, x: &Ident, t: &Typ) -> (r: VarContext)
        ensures
            r@ == self@.insert(x@, typ_view(*t)),
    {
        let mut entries = clone_var_entries(&self.entries);
        proof {
            lemma_var_map_congruent(entries@, self.entries@);
        }
        let ghost before = entries@;
        entries.push((x.clone(), clone_typ(t)));
        proof {
            assert(entries@.drop_last() =~= before);
        }
        VarContext { entries }
    }

    /// The type `x` is bound to, if any.
    pub fn get(&self, x: &Ident) -> (r: Option<&Typ>)
        ensures
            match r {
                Option::Some(t) => self@.contains_key(x@) && typ_view(*t) == self@[x@],
                Option::None => !self@.contains_key(x@),
            },
    {
        let mut i: usize = self.entries.len();
        while i > 0
            invariant
                0 <= i <= self.entries@.len(),
                forall|j: int|
                    i <= j < self.entries@.len() ==> (#[trigger] self.entries@[j]).0@ != x@,
            decreases i,
        {
            i = i - 1;
            if self.entries[i].0 == *x {
                proof {
                    lemma_var_map_found(self.entries@, i as int, x@);
                }
                return Option::Some(&self.entries[i].1);
            }
        }
        proof {
            lemma_var_map_absent(self.entries@, x@);
        }
        Option::None
    }

    /// The context with every binding of `x` removed.
    pub fn without(&self, x: &Ident) -> (r: VarContext)
        ensures
            r@ == self@.remove(x@),
    {
        let mut entries: Vec<(Ident, Typ)> = Vec::new();
        let mut i: usize = 0;
        while i < self.entries.len()
            invariant
                0 <= i <= self.entries@.len(),
                var_map(entries@) == var_map(self.entries@.take(i as int)).remove(x@),
            decreases self.entries@.len() - i,
        {
            let ghost prefix = self.entries@.take(i as int);
            proof {
                assert(self.entries@.take(i + 1 as int).drop_last() =~= prefix);
                assert(self.entries@.take(i + 1 as int).last() == self.entries@[i as int]);
            }
            if !(self.entries[i].0 == *x) {
                let ghost before = entries@;
                entries.push((self.entries[i].0.clone(), clone_typ(&self.entries[i].1)));
                proof {
                    assert(entries@.drop_last() =~= before);
                    assert(var_map(prefix).remove(x@).insert(
                        self.entries@[i as int].0@,
                        typ_view(self.entries@[i as int].1),
                    ) =~= var_map(self.entries@.take(i + 1 as int)).remove(x@));
                }
            } else {
                proof {
                    assert(var_map(self.entries@.take(i + 1 as int)).remove(x@) =~= var_map(
                        prefix,
                    ).remove(x@));
                }
            }
            i = i + 1;
        }
        proof {
            assert(self.entries@.take(self.entries@.len() as int) =~= self.entries@);
        }
        VarContext { entries }
    }

    /// The union of two contexts; where both bind a name, `newer` wins.
    pub fn merged(&self, newer: &VarContext) -> (r: VarContext)
        ensures
            r@ == self@.union_prefer_right(newer@),
    {
        let mut entries = clone_var_entries(&self.entries);
        proof {
            lemma_var_map_congruent(entries@, self.entries@);
        }
        let mut more = clone_var_entries(&newer.entries);
        proof {
            lemma_var_map_congruent(more@, newer.entries@);
        }
        let ghost left = entries@;
        let ghost right = more@;
        entries.append(&mut more);
        proof {
            assert(entries@ =~= left + right);
            lemma_var_map_append(left, right);
        }
        VarContext { entries }
    }
}

/// The finite map an association list of signatures denotes: later entries
/// shadow earlier ones, and keys compare with the locations inside receiver
/// types stripped.
pub open spec fn fn_map(s: Seq<(FnKey, FuncSig)>) -> Map<FnKeyV, FuncSigV>
    decreases s.len(),
{
    if s.len() == 0 {
        Map::empty()
    } else {
        fn_map(s.drop_last()).insert(fn_key_lookup_view(s.last().0), sig_view(s.last().1))
    }
}

/// The signature table: a persistent map from a callable's identity to its
/// declared signature.
#[derive(Debug)]
pub struct FnContext {
    entries: Vec<(FnKey, FuncSig)>,
}

impl View for FnContext {
    type V = Map<FnKeyV, FuncSigV>;

    closed spec fn view(&self) -> Map<FnKeyV, FuncSigV> {
        fn_map(self.entries@)
    }
}

/// Decides whether two callable identities are the same table key.
pub fn fn_key_matches(a: &FnKey, b: &FnKey) -> (r: bool)
    ensures
        r == (fn_key_lookup_view(*a) == fn_key_lookup_view(*b)),
{
    match (a, b) {
        (FnKey::Static(x), FnKey::Static(y)) => *x == *y,
        (FnKey::Method(t1, x), FnKey::Method(t2, y)) => {
            let bases = equal_base(t1, t2);
            let names = *x == *y;
            bases && names
        },
        _ => false,
    }
}

/// Duplicates a callable identity; its lookup key and its reported view are
/// both kept.
pub fn clone_fn_key(k: &FnKey) -> (r: FnKey)
    ensures
        fn_key_lookup_view(r) == fn_key_lookup_view(*k),
        crate::views::fn_key_view(r) == crate::views::fn_key_view(*k),
{
    match k {
        FnKey::Static(x) => FnKey::Static(x.clone()),
        FnKey::Method(t, x) => FnKey::Method(crate::types::clone_base(t), x.clone()),
    }
}

/// Two entry lists whose keys and signature views agree pointwise denote the
/// same table.
proof fn lemma_fn_map_congruent(s1: Seq<(FnKey, FuncSig)>, s2: Seq<(FnKey, FuncSig)>)
    requires
        s1.len() == s2.len(),
        forall|i: int|
            0 <= i < s1.len() ==> fn_key_lookup_view((#[trigger] s1[i]).0) == fn_key_lookup_view(
                s2[i].0,
            ) && sig_view(s1[i].1) == sig_view(s2[i].1),
    ensures
        fn_map(s1) == fn_map(s2),
    decreases s1.len(),
{
    if s1.len() > 0 {
        lemma_fn_map_congruent(s1.drop_last(), s2.drop_last());
    }
}

/// If entry `i` has key `k` and no later entry does, the table holds entry
/// `i`'s signature at `k`.
proof fn lemma_fn_map_found(s: Seq<(FnKey, FuncSig)>, i: int, k: FnKeyV)
    requires
        0 <= i < s.len(),
        fn_key_lookup_view(s[i].0) == k,
        forall|j: int| i < j < s.len() ==> fn_key_lookup_view((#[trigger] s[j]).0) != k,
    ensures
        fn_map(s).contains_key(k),
        fn_map(s)[k] == sig_view(s[i].1),
    decreases s.len(),
{
    if i < s.len() - 1 {
        lemma_fn_map_found(s.drop_last(), i, k);
    }
}

/// A key no entry carries is not in the table.
proof fn lemma_fn_map_absent(s: Seq<(FnKey, FuncSig)>, k: FnKeyV)
    requires
        forall|j: int| 0 <= j < s.len() ==> fn_key_lookup_view((#[trigger] s[j]).0) != k,
    ensures
        !fn_map(s).contains_key(k),
    decreases s.len(),
{
    if s.len() > 0 {
        lemma_fn_map_absent(s.drop_last(), k);
    }
}

/// Duplicates a signature entry list; keys and signature views are kept.
fn clone_fn_entries(v: &Vec<(FnKey, FuncSig)>) -> (r: Vec<(FnKey, FuncSig)>)
    ensures
        r@.len() == v@.len(),
        forall|i: int|
            0 <= i < v@.len() ==> fn_key_lookup_view((#[trigger] r@[i]).0) == fn_key_lookup_view(
                v@[i].0,
            ) && sig_view(r@[i].1) == sig_view(v@[i].1),
{
    let mut r: Vec<(FnKey, FuncSig)> = Vec::new();
    let mut i: usize = 0;
    while i < v.len()
        invariant
            0 <= i <= v@.len(),
            r@.len() == i,
            forall|j: int|
                0 <= j < i ==> fn_key_lookup_view((#[trigger] r@[j]).0) == fn_key_lookup_view(
                    v@[j].0,
                ) && sig_view(r@[j].1) == sig_view(v@[j].1),
        decreases v@.len() - i,
    {
        r.push((clone_fn_key(&v[i].0), clone_sig(&v[i].1)));
        i = i + 1;
    }
    r
}

impl FnContext {
    /// The empty table.
    pub fn empty() -> (r: FnContext)
        ensures
            r@ == Map::<FnKeyV, FuncSigV>::empty(),
    {
        FnContext { entries: Vec::new() }
    }

    /// A table denoting the same map as this one.
    pub fn duplicate(&self) -> (r: FnContext)
        ensures
            r@ == self@,
    {
        let entries = clone_fn_entries(&self.entries);
        proof {
            lemma_fn_map_congruent(entries@, self.entries@);
        }
        FnContext { entries }
    }

    /// The table with `sig` registered under `k`, silently overwriting any
    /// earlier entry with the same key.
    pub fn update(&self, k: FnKey, sig: FuncSig) -> (r: FnContext)
        ensures
            r@ == self@.insert(fn_key_lookup_view(k), sig_view(sig)),
    {
        let mut entries = clone_fn_entries(&self.entries);
        proof {
            lemma_fn_map_congruent(entries@, self.entries@);
        }
        let ghost before = entries@;
        entries.push((k, sig));
        proof {
            assert(entries@.drop_last() =~= before);
        }
        FnContext { entries }
    }

    /// The signature registered under `k`, if any.
    pub fn get(&self, k: &FnKey) -> (r: Option<&FuncSig>)
        ensures
            match r {
                Option::Some(sig) => self@.contains_key(fn_key_lookup_view(*k)) && sig_view(*sig)
                    == self@[fn_key_lookup_view(*k)],
                Option::None => !self@.contains_key(fn_key_lookup_view(*k)),
            },
    {
        let mut i: usize = self.entries.len();
        while i > 0
            invariant
                0 <= i <= self.entries@.len(),
                forall|j: int|
                    i <= j < self.entries@.len() ==> fn_key_lookup_view(
                        (#[trigger] self.entries@[j]).0,
                    ) != fn_key_lookup_view(*k),
            decreases i,
        {
            i = i - 1;
            if fn_key_matches(&self.entries[i].0, k) {
                proof {
                    lemma_fn_map_found(self.entries@, i as int, fn_key_lookup_view(*k));
                }
                return Option::Some(&self.entries[i].1);
            }
        }
        proof {
            lemma_fn_map_absent(self.entries@, fn_key_lookup_view(*k));
        }
        Option::None
    }
}

} // verus!
