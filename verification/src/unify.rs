use vstd::prelude::*;
use crate::effects::str_eq;
use crate::types::{Type, TypeV, RegionId, type_v, types_v, names_v, lemma_types_v, copy_names};
use crate::lexical::{sorted_strict, sorted_of, sorted_insert, lemma_sorted_of};
use crate::text::{starts_with, str_chars, string_of, sub_vec};

verus! {

/// The mathematical value of a substitution: what each generic parameter is
/// bound to, and what each effect row variable is bound to.
pub struct SubstV {
    pub bindings: Map<Seq<char>, TypeV>,
    pub effects: Map<Seq<char>, Seq<Seq<char>>>,
}

/// Why two types do not unify.
#[derive(Debug)]
pub enum UnifyError {
    /// A generic parameter was already inferred as a type the new argument is not compatible with.
    IncompatibleGeneric { name: String, inferred: Type, found: Type },
    /// The expected region outlives less than the region found.
    RegionMismatch { expected: RegionId, found: RegionId },
    /// A mutable pointer was expected and an immutable one found.
    MutablePointer,
    /// Two instantiated generic types differ in name or in number of arguments.
    CannotUnify { expected: Type, actual: Type },
    /// A mutable reference was expected and an immutable one found.
    MutableReference,
    /// Two function types differ in their number of parameters.
    ParamCountMismatch,
    /// An effect of the expected function type is missing from the actual one.
    MissingEffect { effect: String },
    /// The two types have different shapes.
    Mismatch { expected: Type, actual: Type },
}

/// The mathematical value of a unification error.
pub enum UnifyErrorV {
    IncompatibleGeneric { name: Seq<char>, inferred: TypeV, found: TypeV },
    RegionMismatch { expected: u32, found: u32 },
    MutablePointer,
    CannotUnify { expected: TypeV, actual: TypeV },
    MutableReference,
    ParamCountMismatch,
    MissingEffect { effect: Seq<char> },
    Mismatch { expected: TypeV, actual: TypeV },
}

impl View for UnifyError {
    type V = UnifyErrorV;

    open spec fn view(&self) -> UnifyErrorV {
        match self {
            UnifyError::IncompatibleGeneric { name, inferred, found } => UnifyErrorV::IncompatibleGeneric {
                name: name@,
                inferred: inferred@,
                found: found@,
            },
            UnifyError::RegionMismatch { expected, found } => UnifyErrorV::RegionMismatch {
                expected: expected.0,
                found: found.0,
            },
            UnifyError::MutablePointer => UnifyErrorV::MutablePointer,
            UnifyError::CannotUnify { expected, actual } => UnifyErrorV::CannotUnify {
                expected: expected@,
                actual: actual@,
            },
            UnifyError::MutableReference => UnifyErrorV::MutableReference,
            UnifyError::ParamCountMismatch => UnifyErrorV::ParamCountMismatch,
            UnifyError::MissingEffect { effect } => UnifyErrorV::MissingEffect { effect: effect@ },
            UnifyError::Mismatch { expected, actual } => UnifyErrorV::Mismatch {
                expected: expected@,
                actual: actual@,
            },
        }
    }
}

/// The message of an error whose text names no type or region: what the
/// checker reports for it. Errors that name types or regions are reported
/// through their fields.
pub open spec fn fixed_message_spec(e: UnifyErrorV) -> Option<Seq<char>> {
    match e {
        UnifyErrorV::MutablePointer => Some("Cannot unify mutable pointer with immutable pointer"@),
        UnifyErrorV::MutableReference => Some("Cannot unify mutable reference with immutable reference"@),
        UnifyErrorV::ParamCountMismatch => Some("Function parameter count mismatch"@),
        UnifyErrorV::MissingEffect { effect } => Some(
            "Effect '"@ + effect + "' missing in function type unification"@,
        ),
        _ => None,
    }
}

impl UnifyError {
    /// The message text of this error, where it names no type or region.
    pub fn fixed_message(&self) -> (r: Option<String>)
        ensures
            match r {
                Some(m) => fixed_message_spec(self@) == Some(m@),
                None => fixed_message_spec(self@) is None,
            },
    {
        match self {
            UnifyError::MutablePointer => Some("Cannot unify mutable pointer with immutable pointer".to_string()),
            UnifyError::MutableReference => Some("Cannot unify mutable reference with immutable reference".to_string()),
            UnifyError::ParamCountMismatch => Some("Function parameter count mismatch".to_string()),
            UnifyError::MissingEffect { effect } => {
                let mut out = str_chars("Effect '");
                crate::text::extend_chars(&mut out, str_chars(effect.as_str()).as_slice());
                crate::text::extend_lit(&mut out, "' missing in function type unification");
                Some(string_of(out.as_slice()))
            },
            _ => None,
        }
    }
}

/// The mathematical value of a unification outcome.
pub open spec fn outcome_v(r: Result<(), UnifyError>) -> Result<(), UnifyErrorV> {
    match r {
        Ok(()) => Ok(()),
        Err(e) => Err(e@),
    }
}

/// Two types are compatible when they are the same type.
pub open spec fn compatible(a: TypeV, b: TypeV) -> bool {
    a == b
}

/// An effect name that stands for a row of effects: `..name`, a single
/// upper-case ASCII letter, or a name starting with `?`.
pub open spec fn is_row_var(s: Seq<char>) -> bool {
    ||| starts_with(s, seq!['.', '.'])
    ||| (s.len() == 1 && ('A' as int) <= (s[0] as int) && (s[0] as int) <= ('Z' as int))
    ||| (s.len() > 0 && s[0] == '?')
}

/// The last row variable of an effect list, without its leading dots.
pub open spec fn last_row_var(effs: Seq<Seq<char>>) -> Option<Seq<char>>
    decreases effs.len(),
{
    if effs.len() == 0 {
        None
    } else if is_row_var(effs.last()) {
        Some(strip_dots(effs.last()))
    } else {
        last_row_var(effs.drop_last())
    }
}

/// The effects of a list that are not row variables.
pub open spec fn concrete(effs: Seq<Seq<char>>) -> Set<Seq<char>> {
    effs.to_set().filter(|x: Seq<char>| !is_row_var(x))
}

/// `..` followed by a name.
pub open spec fn dotted(s: Seq<char>) -> Seq<char> {
    seq!['.', '.'] + s
}

/// Unifies the effect lists of two function types: a row variable of the
/// expected type absorbs the effects only the actual type has (added to what
/// it was bound to); else a row variable of the actual type absorbs the
/// effects only the expected type has; else every effect of the expected type
/// must occur in the actual one, and the least missing one is reported.
pub open spec fn unify_effects(
    e1: Seq<Seq<char>>,
    e2: Seq<Seq<char>>,
    em: Map<Seq<char>, Seq<Seq<char>>>,
) -> Result<Map<Seq<char>, Seq<Seq<char>>>, Seq<char>> {
    let c1 = concrete(e1);
    let c2 = concrete(e2);
    match last_row_var(e1) {
        Some(rv1) => {
            let diff = c2.difference(c1);
            let val = if em.contains_key(rv1) {
                sorted_of(em[rv1].to_set().union(diff))
            } else {
                sorted_of(diff)
            };
            Ok(em.insert(rv1, val).insert(dotted(rv1), val))
        },
        None => match last_row_var(e2) {
            Some(rv2) => {
                let val = sorted_of(c1.difference(c2));
                Ok(em.insert(rv2, val).insert(dotted(rv2), val))
            },
            None => if c1.difference(c2) == Set::<Seq<char>>::empty() {
                Ok(em)
            } else {
                Err(sorted_of(c1.difference(c2))[0])
            },
        },
    }
}

/// Unification of `e` (expected) with `a` (actual) under `s`: the outcome
/// and the substitution afterwards.
pub open spec fn unify_spec(e: TypeV, a: TypeV, s: SubstV) -> (Result<(), UnifyErrorV>, SubstV)
    decreases e, a, 0nat,
{
    if e == a {
        (Ok(()), s)
    } else {
        match (e, a) {
            (TypeV::GenericParam(n), ty) => if s.bindings.contains_key(n) {
                if compatible(ty, s.bindings[n]) {
                    (Ok(()), s)
                } else {
                    (Err(UnifyErrorV::IncompatibleGeneric { name: n, inferred: s.bindings[n], found: ty }), s)
                }
            } else {
                (Ok(()), SubstV { bindings: s.bindings.insert(n, ty), effects: s.effects })
            },
            (TypeV::RegionBounded { inner: i1, region: r1 }, TypeV::RegionBounded { inner: i2, region: r2 }) => {
                if r1 < r2 {
                    (Err(UnifyErrorV::RegionMismatch { expected: r1, found: r2 }), s)
                } else {
                    unify_spec(*i1, *i2, s)
                }
            },
            (TypeV::RegionBounded { inner, region: _ }, other) => unify_spec(*inner, other, s),
            (other, TypeV::RegionBounded { inner, region: _ }) => unify_spec(other, *inner, s),
            (TypeV::Ptr { is_mut: m1, inner: i1 }, TypeV::Ptr { is_mut: m2, inner: i2 }) => {
                if m1 && !m2 {
                    (Err(UnifyErrorV::MutablePointer), s)
                } else if *i1 == TypeV::U8 || *i2 == TypeV::U8 {
                    (Ok(()), s)
                } else {
                    unify_spec(*i1, *i2, s)
                }
            },
            (TypeV::Instantiated { name: n1, args: a1 }, TypeV::Instantiated { name: n2, args: a2 }) => {
                if n1 != n2 || a1.len() != a2.len() {
                    (Err(UnifyErrorV::CannotUnify { expected: e, actual: a }), s)
                } else {
                    unify_seq(a1, a2, 0, s)
                }
            },
            (TypeV::Ref { is_mut: m1, inner: i1, region: _ }, TypeV::Ref { is_mut: m2, inner: i2, region: _ }) => {
                if m1 && !m2 {
                    (Err(UnifyErrorV::MutableReference), s)
                } else {
                    unify_spec(*i1, *i2, s)
                }
            },
            (TypeV::Fn { params: p1, ret: r1, effects: e1 }, TypeV::Fn { params: p2, ret: r2, effects: e2 }) => {
                if p1.len() != p2.len() {
                    (Err(UnifyErrorV::ParamCountMismatch), s)
                } else {
                    let (res, s1) = unify_seq(p1, p2, 0, s);
                    if res is Err {
                        (res, s1)
                    } else {
                        match unify_effects(e1, e2, s1.effects) {
                            Err(x) => (Err(UnifyErrorV::MissingEffect { effect: x }), s1),
                            Ok(em) => unify_spec(*r1, *r2, SubstV { bindings: s1.bindings, effects: em }),
                        }
                    }
                }
            },
            (other, TypeV::GenericParam(n)) => (Ok(()), SubstV { bindings: s.bindings.insert(n, other), effects: s.effects }),
            _ => (Err(UnifyErrorV::Mismatch { expected: e, actual: a }), s),
        }
    }
}

/// Pairwise unification of `v1[i..]` with `v2[i..]`, stopping at the first failure.
pub open spec fn unify_seq(v1: Seq<TypeV>, v2: Seq<TypeV>, i: nat, s: SubstV) -> (Result<(), UnifyErrorV>, SubstV)
    decreases v1, v2, v1.len() - i,
{
    if i >= v1.len() || i >= v2.len() {
        (Ok(()), s)
    } else {
        let (r, s1) = unify_spec(v1[i as int], v2[i as int], s);
        if r is Err {
            (r, s1)
        } else {
            unify_seq(v1, v2, i + 1, s1)
        }
    }
}

/// Type bindings of a list of entries; a later entry for a name replaces an
/// earlier one.
pub open spec fn bindings_map(v: Seq<(String, Type)>) -> Map<Seq<char>, TypeV>
    decreases v.len(),
{
    if v.len() == 0 {
        Map::empty()
    } else {
        bindings_map(v.drop_last()).insert(v.last().0@, v.last().1@)
    }
}

/// Effect bindings of a list of entries; a later entry for a name replaces an
/// earlier one.
pub open spec fn effects_map(v: Seq<(String, Vec<String>)>) -> Map<Seq<char>, Seq<Seq<char>>>
    decreases v.len(),
{
    if v.len() == 0 {
        Map::empty()
    } else {
        effects_map(v.drop_last()).insert(v.last().0@, names_v(v.last().1@))
    }
}

/// A substitution of generic parameters by types and of effect row variables
/// by effect lists.
#[derive(Debug)]
pub struct Subst {
    pub bindings: Vec<(String, Type)>,
    pub effect_bindings: Vec<(String, Vec<String>)>,
}

impl View for Subst {
    type V = SubstV;

    open spec fn view(&self) -> SubstV {
        SubstV { bindings: bindings_map(self.bindings@), effects: effects_map(self.effect_bindings@) }
    }
}

/// Strips every leading `..` from an effect name.
pub open spec fn strip_dots(s: Seq<char>) -> Seq<char>
    decreases s.len(),
{
    if s.len() >= 2 && s[0] == '.' && s[1] == '.' {
        strip_dots(s.skip(2))
    } else {
        s
    }
}

/// The effects that one effect name stands for under a substitution.
pub open spec fn effect_image(e: Seq<char>, em: Map<Seq<char>, Seq<Seq<char>>>) -> Set<Seq<char>> {
    if em.contains_key(strip_dots(e)) {
        em[strip_dots(e)].to_set()
    } else if em.contains_key(e) {
        em[e].to_set()
    } else {
        set![e]
    }
}

/// The effects a list of effect names stands for under a substitution.
pub open spec fn effects_image(effs: Seq<Seq<char>>, em: Map<Seq<char>, Seq<Seq<char>>>) -> Set<Seq<char>>
    decreases effs.len(),
{
    if effs.len() == 0 {
        Set::empty()
    } else {
        effects_image(effs.drop_last(), em).union(effect_image(effs.last(), em))
    }
}

/// A type with the substitution applied.
pub open spec fn subst_type(t: TypeV, s: SubstV) -> TypeV
    decreases t,
{
    match t {
        TypeV::GenericParam(n) => if s.bindings.contains_key(n) {
            s.bindings[n]
        } else {
            t
        },
        TypeV::Instantiated { name, args } => TypeV::Instantiated { name, args: subst_types(args, s) },
        TypeV::Ref { is_mut, inner, region } => TypeV::Ref {
            is_mut,
            inner: Box::new(subst_type(*inner, s)),
            region,
        },
        TypeV::Fn { params, ret, effects } => TypeV::Fn {
            params: subst_types(params, s),
            ret: Box::new(subst_type(*ret, s)),
            effects: sorted_of(effects_image(effects, s.effects)),
        },
        TypeV::RegionBounded { inner, region } => TypeV::RegionBounded {
            inner: Box::new(subst_type(*inner, s)),
            region,
        },
        TypeV::Ptr { is_mut, inner } => TypeV::Ptr { is_mut, inner: Box::new(subst_type(*inner, s)) },
        TypeV::Array { elem, len } => TypeV::Array { elem: Box::new(subst_type(*elem, s)), len },
        _ => t,
    }
}

/// A list of types with the substitution applied.
pub open spec fn subst_types(v: Seq<TypeV>, s: SubstV) -> Seq<TypeV>
    decreases v,
{
    if v.len() == 0 {
        Seq::empty()
    } else {
        subst_types(v.drop_last(), s).push(subst_type(v.last(), s))
    }
}

/// `subst_types` keeps the length and substitutes each element.
pub proof fn lemma_subst_types(v: Seq<TypeV>, s: SubstV)
    ensures
        subst_types(v, s).len() == v.len(),
        forall|i: int| 0 <= i < v.len() ==> #[trigger] subst_types(v, s)[i] == subst_type(v[i], s),
    decreases v.len(),
{
    if v.len() > 0 {
        lemma_subst_types(v.drop_last(), s);
    }
}

impl Subst {
    /// No name has two entries, among the bindings or among the effect
    /// bindings.
    pub open spec fn wf(&self) -> bool {
        &&& forall|i: int, j: int|
            0 <= i < j < self.bindings@.len() ==> #[trigger] self.bindings@[i].0@ != #[trigger] self.bindings@[j].0@
        &&& forall|i: int, j: int|
            0 <= i < j < self.effect_bindings@.len() ==> #[trigger] self.effect_bindings@[i].0@
                != #[trigger] self.effect_bindings@[j].0@
    }

    /// An empty substitution.
    pub fn new() -> (r: Self)
        ensures
            r@.bindings == Map::<Seq<char>, TypeV>::empty(),
            r@.effects == Map::<Seq<char>, Seq<Seq<char>>>::empty(),
            r.bindings@.len() == 0,
            r.effect_bindings@.len() == 0,
            r.wf(),
    {
        Subst { bindings: Vec::new(), effect_bindings: Vec::new() }
    }

    /// Binds `param` to `ty`, replacing an earlier binding in place.
    pub fn bind(&mut self, param: String, ty: Type)
        ensures
            final(self)@.bindings == old(self)@.bindings.insert(param@, ty@),
            final(self)@.effects == old(self)@.effects,
            final(self).effect_bindings@ == old(self).effect_bindings@,
            final(self).bindings@.len() == old(self).bindings@.len() + if old(self)@.bindings.contains_key(param@) {
                0int
            } else {
                1int
            },
            old(self).wf() ==> final(self).wf(),
    {
        let ghost old_b = self.bindings@;
        let ghost p = param@;
        let ghost t = ty@;
        let mut i: usize = self.bindings.len();
        while i > 0
            invariant
                i <= self.bindings@.len(),
                self.bindings@ == old_b,
                old_b == old(self).bindings@,
                self.effect_bindings@ == old(self).effect_bindings@,
                p == param@,
                forall|k: int| i <= k < old_b.len() ==> #[trigger] old_b[k].0@ != p,
            decreases i,
        {
            i = i - 1;
            let same = str_eq(self.bindings[i].0.as_str(), param.as_str());
            if same {
                assert(old_b[i as int].0@ == p);
                let ghost x = (param, ty);
                proof {
                    lemma_bindings_last(old_b, i as int, p);
                    lemma_bindings_update(old_b, i as int, x);
                }
                self.bindings.set(i, (param, ty));
                assert(self.bindings@ == old_b.update(i as int, x));
                return;
            }
        }
        proof {
            lemma_bindings_last(old_b, -1, p);
        }
        self.bindings.push((param, ty));
        assert(self.bindings@.drop_last() =~= old_b);
    }

    /// What `param` is bound to.
    pub fn get(&self, param: &str) -> (r: Option<&Type>)
        ensures
            match r {
                Some(t) => self@.bindings.contains_key(param@) && self@.bindings[param@] == t@,
                None => !self@.bindings.contains_key(param@),
            },
    {
        let mut i: usize = self.bindings.len();
        while i > 0
            invariant
                i <= self.bindings@.len(),
                forall|k: int| i <= k < self.bindings@.len() ==> #[trigger] self.bindings@[k].0@ != param@,
            decreases i,
        {
            i = i - 1;
            if str_eq(self.bindings[i].0.as_str(), param) {
                proof {
                    lemma_bindings_last(self.bindings@, i as int, param@);
                }
                return Some(&self.bindings[i].1);
            }
        }
        proof {
            lemma_bindings_last(self.bindings@, -1, param@);
        }
        None
    }

    /// What effect row variable `name` is bound to.
    pub fn get_effects(&self, name: &str) -> (r: Option<&Vec<String>>)
        ensures
            match r {
                Some(v) => self@.effects.contains_key(name@) && self@.effects[name@] == names_v(v@),
                None => !self@.effects.contains_key(name@),
            },
    {
        let mut i: usize = self.effect_bindings.len();
        while i > 0
            invariant
                i <= self.effect_bindings@.len(),
                forall|k: int| i <= k < self.effect_bindings@.len() ==> #[trigger] self.effect_bindings@[k].0@ != name@,
            decreases i,
        {
            i = i - 1;
            if str_eq(self.effect_bindings[i].0.as_str(), name) {
                proof {
                    lemma_effects_last(self.effect_bindings@, i as int, name@);
                }
                return Some(&self.effect_bindings[i].1);
            }
        }
        proof {
            lemma_effects_last(self.effect_bindings@, -1, name@);
        }
        None
    }

    /// Binds effect row variable `name` to `effects`, replacing an earlier
    /// binding in place.
    pub fn bind_effects(&mut self, name: String, effects: Vec<String>)
        ensures
            final(self)@.effects == old(self)@.effects.insert(name@, names_v(effects@)),
            final(self)@.bindings == old(self)@.bindings,
            final(self).bindings@ == old(self).bindings@,
            final(self).effect_bindings@.len() == old(self).effect_bindings@.len() + if old(self)@.effects.contains_key(
                name@,
            ) {
                0int
            } else {
                1int
            },
            old(self).wf() ==> final(self).wf(),
    {
        let ghost old_e = self.effect_bindings@;
        let ghost p = name@;
        let mut i: usize = self.effect_bindings.len();
        while i > 0
            invariant
                i <= self.effect_bindings@.len(),
                self.effect_bindings@ == old_e,
                old_e == old(self).effect_bindings@,
                self.bindings@ == old(self).bindings@,
                p == name@,
                forall|k: int| i <= k < old_e.len() ==> #[trigger] old_e[k].0@ != p,
            decreases i,
        {
            i = i - 1;
            let same = str_eq(self.effect_bindings[i].0.as_str(), name.as_str());
            if same {
                assert(old_e[i as int].0@ == p);
                let ghost x = (name, effects);
                proof {
                    lemma_effects_last(old_e, i as int, p);
                    lemma_effects_update(old_e, i as int, x);
                }
                self.effect_bindings.set(i, (name, effects));
                assert(self.effect_bindings@ == old_e.update(i as int, x));
                return;
            }
        }
        proof {
            lemma_effects_last(old_e, -1, p);
        }
        self.effect_bindings.push((name, effects));
        assert(self.effect_bindings@.drop_last() =~= old_e);
    }
}

/// In a substitution where no name has two entries, there is one entry per
/// bound name.
pub proof fn lemma_wf_entry_counts(s: &Subst)
    requires
        s.wf(),
    ensures
        s.bindings@.len() == s@.bindings.dom().len(),
        s.effect_bindings@.len() == s@.effects.dom().len(),
{
    lemma_bindings_count(s.bindings@);
    lemma_effects_count(s.effect_bindings@);
}

proof fn lemma_bindings_count(v: Seq<(String, Type)>)
    requires
        forall|i: int, j: int| 0 <= i < j < v.len() ==> #[trigger] v[i].0@ != #[trigger] v[j].0@,
    ensures
        bindings_map(v).dom().finite(),
        bindings_map(v).dom().len() == v.len(),
    decreases v.len(),
{
    if v.len() > 0 {
        let w = v.drop_last();
        assert forall|i: int, j: int| 0 <= i < j < w.len() implies #[trigger] w[i].0@ != #[trigger] w[j].0@ by {
            assert(v[i].0@ != v[j].0@);
        }
        lemma_bindings_count(w);
        assert forall|k: int| -1 < k < w.len() implies #[trigger] w[k].0@ != v.last().0@ by {
            assert(v[k].0@ != v[v.len() - 1].0@);
        }
        lemma_bindings_last(w, -1, v.last().0@);
    }
}

proof fn lemma_effects_count(v: Seq<(String, Vec<String>)>)
    requires
        forall|i: int, j: int| 0 <= i < j < v.len() ==> #[trigger] v[i].0@ != #[trigger] v[j].0@,
    ensures
        effects_map(v).dom().finite(),
        effects_map(v).dom().len() == v.len(),
    decreases v.len(),
{
    if v.len() > 0 {
        let w = v.drop_last();
        assert forall|i: int, j: int| 0 <= i < j < w.len() implies #[trigger] w[i].0@ != #[trigger] w[j].0@ by {
            assert(v[i].0@ != v[j].0@);
        }
        lemma_effects_count(w);
        assert forall|k: int| -1 < k < w.len() implies #[trigger] w[k].0@ != v.last().0@ by {
            assert(v[k].0@ != v[v.len() - 1].0@);
        }
        lemma_effects_last(w, -1, v.last().0@);
    }
}

/// Replacing the last entry for a name rebinds that name.
proof fn lemma_bindings_update(v: Seq<(String, Type)>, i: int, x: (String, Type))
    requires
        0 <= i < v.len(),
        v[i].0@ == x.0@,
        forall|k: int| i < k < v.len() ==> #[trigger] v[k].0@ != x.0@,
    ensures
        bindings_map(v.update(i, x)) == bindings_map(v).insert(x.0@, x.1@),
    decreases v.len(),
{
    let u = v.update(i, x);
    if i == v.len() - 1 {
        assert(u.drop_last() =~= v.drop_last());
        assert(bindings_map(u) =~= bindings_map(v).insert(x.0@, x.1@));
    } else {
        assert(u.drop_last() =~= v.drop_last().update(i, x));
        lemma_bindings_update(v.drop_last(), i, x);
        assert(bindings_map(u) =~= bindings_map(v).insert(x.0@, x.1@));
    }
}

/// Replacing the last entry for an effect row variable rebinds it.
proof fn lemma_effects_update(v: Seq<(String, Vec<String>)>, i: int, x: (String, Vec<String>))
    requires
        0 <= i < v.len(),
        v[i].0@ == x.0@,
        forall|k: int| i < k < v.len() ==> #[trigger] v[k].0@ != x.0@,
    ensures
        effects_map(v.update(i, x)) == effects_map(v).insert(x.0@, names_v(x.1@)),
    decreases v.len(),
{
    let u = v.update(i, x);
    if i == v.len() - 1 {
        assert(u.drop_last() =~= v.drop_last());
        assert(effects_map(u) =~= effects_map(v).insert(x.0@, names_v(x.1@)));
    } else {
        assert(u.drop_last() =~= v.drop_last().update(i, x));
        lemma_effects_update(v.drop_last(), i, x);
        assert(effects_map(u) =~= effects_map(v).insert(x.0@, names_v(x.1@)));
    }
}

impl Default for Subst {
    fn default() -> (r: Self)
        ensures
            r@.bindings == Map::<Seq<char>, TypeV>::empty(),
            r@.effects == Map::<Seq<char>, Seq<Seq<char>>>::empty(),
    {
        Subst::new()
    }
}


/// The effect name with every leading `..` removed.
pub fn strip_dots_exec(e: &str) -> (r: String)
    ensures
        r@ == strip_dots(e@),
{
    let c = str_chars(e);
    let mut k: usize = 0;
    assert(e@.skip(0) =~= e@);
    while c.len() - k >= 2 && c[k] == '.' && c[k + 1] == '.'
        invariant
            c@ == e@,
            k <= c@.len(),
            strip_dots(e@) == strip_dots(e@.skip(k as int)),
        decreases c@.len() - k,
    {
        assert(e@.skip(k as int).skip(2) =~= e@.skip(k + 2));
        k = k + 2;
    }
    let rest = sub_vec(c.as_slice(), k, c.len());
    assert(rest@ =~= e@.skip(k as int));
    string_of(rest.as_slice())
}

proof fn lemma_effects_image_step(effs: Seq<Seq<char>>, i: int, em: Map<Seq<char>, Seq<Seq<char>>>)
    requires
        0 <= i < effs.len(),
    ensures
        effects_image(effs.take(i + 1), em) == effects_image(effs.take(i), em).union(effect_image(effs[i], em)),
{
    assert(effs.take(i + 1).drop_last() =~= effs.take(i));
}

/// Inserts every name of `add` into the increasing list `acc`.
fn insert_all(acc: &mut Vec<String>, add: &Vec<String>)
    requires
        sorted_strict(names_v(old(acc)@)),
    ensures
        sorted_strict(names_v(final(acc)@)),
        names_v(final(acc)@).to_set() == names_v(old(acc)@).to_set().union(names_v(add@).to_set()),
{
    let ghost base = names_v(acc@).to_set();
    for j in 0..add.len()
        invariant
            sorted_strict(names_v(acc@)),
            names_v(acc@).to_set() == base.union(names_v(add@).take(j as int).to_set()),
    {
        sorted_insert(acc, add[j].as_str());
        assert(names_v(add@).take(j + 1) =~= names_v(add@).take(j as int).push(add@[j as int]@));
        proof {
            names_v(add@).take(j as int).lemma_push_to_set_commute(add@[j as int]@);
        }
        assert(names_v(acc@).to_set() =~= base.union(names_v(add@).take(j + 1).to_set()));
    }
    assert(names_v(add@).take(add@.len() as int) =~= names_v(add@));
}

/// The effect list of a function type after substitution: every row
/// variable replaced by what it is bound to, sorted, without repetition.
fn substitute_effects(effs: &Vec<String>, subst: &Subst) -> (r: Vec<String>)
    ensures
        names_v(r@) == sorted_of(effects_image(names_v(effs@), subst@.effects)),
{
    let ghost em = subst@.effects;
    let ghost ev = names_v(effs@);
    let mut acc: Vec<String> = Vec::new();
    assert(names_v(acc@).to_set() =~= Set::<Seq<char>>::empty());
    for i in 0..effs.len()
        invariant
            ev == names_v(effs@),
            em == subst@.effects,
            sorted_strict(names_v(acc@)),
            names_v(acc@).to_set() == effects_image(ev.take(i as int), em),
    {
        proof {
            assert(ev.take(0) =~= Seq::<Seq<char>>::empty());
            lemma_effects_image_step(ev, i as int, em);
        }
        let eff = &effs[i];
        let clean = strip_dots_exec(eff.as_str());
        match subst.get_effects(clean.as_str()) {
            Some(bound) => {
                insert_all(&mut acc, bound);
            },
            None => match subst.get_effects(eff.as_str()) {
                Some(bound) => {
                    insert_all(&mut acc, bound);
                },
                None => {
                    sorted_insert(&mut acc, eff.as_str());
                    assert(set![eff@] =~= Set::<Seq<char>>::empty().insert(eff@));
                },
            },
        }
        assert(names_v(acc@).to_set() =~= effects_image(ev.take(i + 1), em));
    }
    proof {
        assert(ev.take(effs@.len() as int) =~= ev);
        lemma_sorted_of(names_v(acc@));
    }
    acc
}

/// Whether an effect name is a row variable.
pub fn is_row_var_exec(e: &str) -> (r: bool)
    ensures
        r == is_row_var(e@),
{
    let c = str_chars(e);
    if c.len() >= 2 && c[0] == '.' && c[1] == '.' {
        assert(e@.subrange(0, 2) =~= seq!['.', '.']);
        return true;
    }
    assert(c@.len() >= 2 ==> e@.subrange(0, 2)[0] == e@[0] && e@.subrange(0, 2)[1] == e@[1]);
    if c.len() == 1 && 'A' <= c[0] && c[0] <= 'Z' {
        return true;
    }
    c.len() > 0 && c[0] == '?'
}

/// `..` followed by `e`.
fn dotted_exec(e: &str) -> (r: String)
    ensures
        r@ == dotted(e@),
{
    let mut c: Vec<char> = Vec::new();
    c.push('.');
    c.push('.');
    let rest = str_chars(e);
    for i in 0..rest.len()
        invariant
            c@ == seq!['.', '.'] + rest@.take(i as int),
    {
        c.push(rest[i]);
        assert(rest@.take(i + 1) =~= rest@.take(i as int).push(rest@[i as int]));
        assert(c@ =~= seq!['.', '.'] + rest@.take(i + 1));
    }
    assert(rest@.take(rest@.len() as int) =~= rest@);
    string_of(c.as_slice())
}

/// Whether `x` is one of the names of `v`.
fn has_name(v: &Vec<String>, x: &str) -> (r: bool)
    ensures
        r == names_v(v@).contains(x@),
{
    for i in 0..v.len()
        invariant
            forall|k: int| 0 <= k < i ==> #[trigger] v@[k]@ != x@,
    {
        if str_eq(v[i].as_str(), x) {
            assert(names_v(v@)[i as int] == x@);
            return true;
        }
    }
    assert forall|k: int| 0 <= k < names_v(v@).len() implies names_v(v@)[k] != x@ by {
        assert(names_v(v@)[k] == v@[k]@);
    }
    false
}

/// The last row variable (without its dots) and the sorted concrete effects of a list.
fn split_effects(effs: &Vec<String>) -> (r: (Option<String>, Vec<String>))
    ensures
        match r.0 {
            Some(x) => last_row_var(names_v(effs@)) == Some(x@),
            None => last_row_var(names_v(effs@)) is None,
        },
        sorted_strict(names_v(r.1@)),
        names_v(r.1@).to_set() == concrete(names_v(effs@)),
{
    let ghost ev = names_v(effs@);
    let mut row: Option<String> = None;
    let mut conc: Vec<String> = Vec::new();
    assert(ev.take(0) =~= Seq::<Seq<char>>::empty());
    assert(concrete(ev.take(0)) =~= Set::<Seq<char>>::empty());
    assert(names_v(conc@).to_set() =~= Set::<Seq<char>>::empty());
    for i in 0..effs.len()
        invariant
            ev == names_v(effs@),
            match row {
                Some(x) => last_row_var(ev.take(i as int)) == Some(x@),
                None => last_row_var(ev.take(i as int)) is None,
            },
            sorted_strict(names_v(conc@)),
            names_v(conc@).to_set() == concrete(ev.take(i as int)),
    {
        let ghost t1 = ev.take(i + 1);
        assert(t1.drop_last() =~= ev.take(i as int));
        assert(t1.last() == effs@[i as int]@);
        proof {
            ev.take(i as int).lemma_push_to_set_commute(effs@[i as int]@);
            assert(t1 =~= ev.take(i as int).push(effs@[i as int]@));
        }
        if is_row_var_exec(effs[i].as_str()) {
            row = Some(strip_dots_exec(effs[i].as_str()));
            assert(concrete(t1) =~= concrete(ev.take(i as int)));
        } else {
            sorted_insert(&mut conc, effs[i].as_str());
            assert(concrete(t1) =~= concrete(ev.take(i as int)).insert(effs@[i as int]@));
        }
    }
    assert(ev.take(effs@.len() as int) =~= ev);
    (row, conc)
}

/// The names of `a` that are not names of `b`, increasing.
fn names_minus(a: &Vec<String>, b: &Vec<String>) -> (r: Vec<String>)
    ensures
        sorted_strict(names_v(r@)),
        names_v(r@).to_set() == names_v(a@).to_set().difference(names_v(b@).to_set()),
{
    let ghost av = names_v(a@);
    let ghost bs = names_v(b@).to_set();
    let mut out: Vec<String> = Vec::new();
    assert(names_v(out@).to_set() =~= av.take(0).to_set().difference(bs));
    for i in 0..a.len()
        invariant
            av == names_v(a@),
            bs == names_v(b@).to_set(),
            sorted_strict(names_v(out@)),
            names_v(out@).to_set() == av.take(i as int).to_set().difference(bs),
    {
        proof {
            assert(av.take(i + 1) =~= av.take(i as int).push(a@[i as int]@));
            av.take(i as int).lemma_push_to_set_commute(a@[i as int]@);
        }
        if !has_name(b, a[i].as_str()) {
            sorted_insert(&mut out, a[i].as_str());
        }
        assert(names_v(out@).to_set() =~= av.take(i + 1).to_set().difference(bs));
    }
    assert(av.take(a@.len() as int) =~= av);
    out
}

/// Unifies the effect lists of two function types, updating the effect
/// bindings of `subst`; on failure, the least missing effect.
fn unify_effect_rows(e1: &Vec<String>, e2: &Vec<String>, subst: &mut Subst) -> (r: Result<(), String>)
    ensures
        final(subst)@.bindings == old(subst)@.bindings,
        old(subst).wf() ==> final(subst).wf(),
        match unify_effects(names_v(e1@), names_v(e2@), old(subst)@.effects) {
            Ok(em) => r is Ok && final(subst)@.effects == em,
            Err(x) => r matches Err(y) && y@ == x && final(subst)@.effects == old(subst)@.effects,
        },
{
    let (rv1, c1) = split_effects(e1);
    let (rv2, c2) = split_effects(e2);
    match rv1 {
        Some(rv1) => {
            let diff = names_minus(&c2, &c1);
            let val = match subst.get_effects(rv1.as_str()) {
                Some(existing) => {
                    let mut acc: Vec<String> = Vec::new();
                    assert(names_v(acc@).to_set() =~= Set::<Seq<char>>::empty());
                    insert_all(&mut acc, existing);
                    insert_all(&mut acc, &diff);
                    assert(names_v(acc@).to_set() =~= names_v(existing@).to_set().union(names_v(diff@).to_set()));
                    acc
                },
                None => diff,
            };
            proof {
                lemma_sorted_of(names_v(val@));
            }
            let dots = dotted_exec(rv1.as_str());
            subst.bind_effects(rv1, copy_names(&val));
            subst.bind_effects(dots, val);
            Ok(())
        },
        None => match rv2 {
            Some(rv2) => {
                let diff = names_minus(&c1, &c2);
                proof {
                    lemma_sorted_of(names_v(diff@));
                }
                let dots = dotted_exec(rv2.as_str());
                subst.bind_effects(rv2, copy_names(&diff));
                subst.bind_effects(dots, diff);
                Ok(())
            },
            None => {
                let missing = names_minus(&c1, &c2);
                proof {
                    lemma_sorted_of(names_v(missing@));
                }
                if missing.len() > 0 {
                    assert(names_v(missing@)[0] == missing@[0]@);
                    assert(names_v(missing@).to_set().contains(missing@[0]@));
                    Err(missing[0].clone())
                } else {
                    assert(names_v(missing@).to_set() =~= Set::<Seq<char>>::empty());
                    Ok(())
                }
            },
        },
    }
}

impl Type {
    /// Whether a type may stand where `other` was inferred: the two types
    /// are the same.
    pub fn is_compatible_with(&self, other: &Type) -> (r: bool)
        ensures
            r == compatible(self@, other@),
    {
        self.same_as(other)
    }
}

/// Whether a type is `u8`.
fn is_u8(t: &Type) -> (r: bool)
    ensures
        r == (t@ == TypeV::U8),
{
    match t {
        Type::U8 => true,
        _ => false,
    }
}

/// Unifies `expected[k]` with `actual[k]` for each position in turn,
/// stopping at the first failure.
fn unify_list(expected: &Vec<Type>, actual: &Vec<Type>, subst: &mut Subst) -> (r: Result<(), UnifyError>)
    requires
        expected@.len() == actual@.len(),
    ensures
        (outcome_v(r), final(subst)@) == unify_seq(types_v(expected@), types_v(actual@), 0, old(subst)@),
        old(subst).wf() ==> final(subst).wf(),
    decreases expected, actual,
{
    let ghost v1 = types_v(expected@);
    let ghost v2 = types_v(actual@);
    let ghost s0 = subst@;
    proof {
        lemma_types_v(expected@);
        lemma_types_v(actual@);
    }
    for i in 0..expected.len()
        invariant
            expected@.len() == actual@.len(),
            v1 == types_v(expected@),
            v2 == types_v(actual@),
            v1.len() == expected@.len(),
            v2.len() == actual@.len(),
            forall|k: int| 0 <= k < expected@.len() ==> #[trigger] v1[k] == type_v(expected@[k]),
            forall|k: int| 0 <= k < actual@.len() ==> #[trigger] v2[k] == type_v(actual@[k]),
            s0 == old(subst)@,
            unify_seq(v1, v2, 0, s0) == unify_seq(v1, v2, i as nat, subst@),
            old(subst).wf() ==> subst.wf(),
    {
        assert(decreases_to!(expected => expected@[i as int]));
        let ghost before = subst@;
        let r = unify(&expected[i], &actual[i], subst);
        assert(unify_spec(v1[i as int], v2[i as int], before) == (outcome_v(r), subst@));
        if r.is_err() {
            assert(unify_seq(v1, v2, i as nat, before) == (outcome_v(r), subst@));
            return r;
        }
    }
    Ok(())
}

/// Unifies the expected type with the actual one, recording in `subst`
/// what generic parameters and effect row variables are inferred as.
pub fn unify(expected: &Type, actual: &Type, subst: &mut Subst) -> (r: Result<(), UnifyError>)
    ensures
        (outcome_v(r), final(subst)@) == unify_spec(expected@, actual@, old(subst)@),
        old(subst).wf() ==> final(subst).wf(),
    decreases expected, actual,
{
    if expected.same_as(actual) {
        return Ok(());
    }
    match (expected, actual) {
        (Type::GenericParam(name), ty) => {
            match subst.get(name.as_str()) {
                Some(existing) => {
                    if !ty.is_compatible_with(existing) {
                        return Err(UnifyError::IncompatibleGeneric {
                            name: name.clone(),
                            inferred: existing.duplicate(),
                            found: ty.duplicate(),
                        });
                    }
                },
                None => {
                    subst.bind(name.clone(), ty.duplicate());
                },
            }
            Ok(())
        },
        (Type::RegionBounded { inner: i1, region: r1 }, Type::RegionBounded { inner: i2, region: r2 }) => {
            if r1.0 < r2.0 {
                return Err(UnifyError::RegionMismatch { expected: *r1, found: *r2 });
            }
            unify(i1, i2, subst)
        },
        (Type::RegionBounded { inner, region: _ }, other) => {
            unify(inner, other, subst)
        },
        (other, Type::RegionBounded { inner, region: _ }) => {
            unify(other, inner, subst)
        },
        (Type::Ptr { is_mut: m1, inner: i1 }, Type::Ptr { is_mut: m2, inner: i2 }) => {
            if *m1 && !*m2 {
                return Err(UnifyError::MutablePointer);
            }
            let u8_1 = is_u8(i1);
            let u8_2 = is_u8(i2);
            if u8_1 || u8_2 {
                Ok(())
            } else {
                unify(i1, i2, subst)
            }
        },
        (Type::Instantiated { name: n1, args: a1 }, Type::Instantiated { name: n2, args: a2 }) => {
            proof {
                lemma_types_v(a1@);
                lemma_types_v(a2@);
            }
            if !str_eq(n1.as_str(), n2.as_str()) || a1.len() != a2.len() {
                return Err(UnifyError::CannotUnify { expected: expected.duplicate(), actual: actual.duplicate() });
            }
            unify_list(a1, a2, subst)
        },
        (Type::Ref { is_mut: m1, inner: i1, region: _ }, Type::Ref { is_mut: m2, inner: i2, region: _ }) => {
            if *m1 && !*m2 {
                return Err(UnifyError::MutableReference);
            }
            unify(i1, i2, subst)
        },
        (Type::Fn { params: p1, return_type: r1, yields_effects: e1 }, Type::Fn { params: p2, return_type: r2, yields_effects: e2 }) => {
            proof {
                lemma_types_v(p1@);
                lemma_types_v(p2@);
            }
            if p1.len() != p2.len() {
                return Err(UnifyError::ParamCountMismatch);
            }
            let r = unify_list(p1, p2, subst);
            if r.is_err() {
                return r;
            }
            let ghost s1 = subst@;
            match unify_effect_rows(e1, e2, subst) {
                Err(eff) => {
                    return Err(UnifyError::MissingEffect { effect: eff });
                },
                Ok(()) => {},
            }
            assert(subst@ == SubstV { bindings: s1.bindings, effects: subst@.effects });
            unify(r1, r2, subst)
        },
        (other, Type::GenericParam(name)) => {
            subst.bind(name.clone(), other.duplicate());
            Ok(())
        },
        _ => {
            Err(UnifyError::Mismatch { expected: expected.duplicate(), actual: actual.duplicate() })
        },
    }
}

/// Applies `subst` to every type of a list.
pub fn substitute_all(v: &Vec<Type>, subst: &Subst) -> (r: Vec<Type>)
    ensures
        types_v(r@) == subst_types(types_v(v@), subst@),
    decreases v,
{
    let mut out: Vec<Type> = Vec::new();
    proof {
        lemma_types_v(v@);
        lemma_subst_types(types_v(v@), subst@);
    }
    for i in 0..v.len()
        invariant
            out@.len() == i,
            types_v(v@).len() == v@.len(),
            forall|k: int| 0 <= k < v@.len() ==> #[trigger] types_v(v@)[k] == type_v(v@[k]),
            forall|k: int| 0 <= k < i ==> #[trigger] type_v(out@[k]) == subst_type(type_v(v@[k]), subst@),
    {
        assert(decreases_to!(v => v@[i as int]));
        out.push(substitute(&v[i], subst));
    }
    proof {
        lemma_types_v(out@);
        lemma_subst_types(types_v(v@), subst@);
        assert(types_v(out@) =~= subst_types(types_v(v@), subst@));
    }
    out
}

/// Applies a substitution to a type: bound generic parameters are replaced,
/// and effect row variables of function types are expanded.
pub fn substitute(ty: &Type, subst: &Subst) -> (r: Type)
    ensures
        r@ == subst_type(ty@, subst@),
    decreases ty,
{
    match ty {
        Type::GenericParam(name) => match subst.get(name.as_str()) {
            Some(replacement) => replacement.duplicate(),
            None => ty.duplicate(),
        },
        Type::Instantiated { name, args } => {
            let new_args = substitute_all(args, subst);
            Type::Instantiated { name: name.clone(), args: new_args }
        },
        Type::Ref { is_mut, inner, region } => Type::Ref {
            is_mut: *is_mut,
            inner: Box::new(substitute(inner, subst)),
            region: *region,
        },
        Type::Fn { params, return_type, yields_effects } => {
            let new_params = substitute_all(params, subst);
            let new_ret = substitute(return_type, subst);
            let new_effects = substitute_effects(yields_effects, subst);
            Type::Fn { params: new_params, return_type: Box::new(new_ret), yields_effects: new_effects }
        },
        Type::RegionBounded { inner, region } => Type::RegionBounded {
            inner: Box::new(substitute(inner, subst)),
            region: *region,
        },
        Type::Ptr { is_mut, inner } => Type::Ptr {
            is_mut: *is_mut,
            inner: Box::new(substitute(inner, subst)),
        },
        Type::Array { elem, len } => Type::Array { elem: Box::new(substitute(elem, subst)), len: *len },
        _ => ty.duplicate(),
    }
}

/// Whether every function type inside `t` lists its effects in increasing
/// order without repeats, the form substitution writes them in.
pub open spec fn effects_sorted(t: TypeV) -> bool
    decreases t,
{
    match t {
        TypeV::Instantiated { args, .. } => forall|i: int| 0 <= i < args.len() ==> effects_sorted(#[trigger] args[i]),
        TypeV::Ref { inner, .. } => effects_sorted(*inner),
        TypeV::Fn { params, ret, effects } => sorted_strict(effects) && effects_sorted(*ret) && forall|i: int|
            0 <= i < params.len() ==> effects_sorted(#[trigger] params[i]),
        TypeV::RegionBounded { inner, .. } => effects_sorted(*inner),
        TypeV::Ptr { inner, .. } => effects_sorted(*inner),
        TypeV::Array { elem, .. } => effects_sorted(*elem),
        _ => true,
    }
}

proof fn lemma_effects_image_empty(effs: Seq<Seq<char>>, em: Map<Seq<char>, Seq<Seq<char>>>)
    requires
        em == Map::<Seq<char>, Seq<Seq<char>>>::empty(),
    ensures
        effects_image(effs, em) == effs.to_set(),
    decreases effs.len(),
{
    if effs.len() > 0 {
        lemma_effects_image_empty(effs.drop_last(), em);
        assert(effs.drop_last().push(effs.last()) =~= effs);
        effs.drop_last().lemma_push_to_set_commute(effs.last());
        assert(effects_image(effs, em) =~= effs.to_set());
    }
}

proof fn lemma_subst_types_ident(v: Seq<TypeV>, s: SubstV)
    requires
        forall|i: int| 0 <= i < v.len() ==> subst_type(#[trigger] v[i], s) == v[i],
    ensures
        subst_types(v, s) == v,
{
    lemma_subst_types(v, s);
    assert(subst_types(v, s) =~= v);
}

proof fn lemma_subst_empty(t: TypeV, s: SubstV)
    requires
        s.bindings == Map::<Seq<char>, TypeV>::empty(),
        s.effects == Map::<Seq<char>, Seq<Seq<char>>>::empty(),
        effects_sorted(t),
    ensures
        subst_type(t, s) == t,
    decreases t,
{
    match t {
        TypeV::Instantiated { name, args } => {
            assert forall|i: int| 0 <= i < args.len() implies subst_type(#[trigger] args[i], s) == args[i] by {
                lemma_subst_empty(args[i], s);
            }
            lemma_subst_types_ident(args, s);
        },
        TypeV::Ref { inner, .. } => {
            lemma_subst_empty(*inner, s);
        },
        TypeV::Fn { params, ret, effects } => {
            assert forall|i: int| 0 <= i < params.len() implies subst_type(#[trigger] params[i], s) == params[i] by {
                lemma_subst_empty(params[i], s);
            }
            lemma_subst_types_ident(params, s);
            lemma_subst_empty(*ret, s);
            lemma_effects_image_empty(effects, s.effects);
            lemma_sorted_of(effects);
        },
        TypeV::RegionBounded { inner, .. } => {
            lemma_subst_empty(*inner, s);
        },
        TypeV::Ptr { inner, .. } => {
            lemma_subst_empty(*inner, s);
        },
        TypeV::Array { elem, .. } => {
            lemma_subst_empty(*elem, s);
        },
        _ => {},
    }
}

/// Substituting under an empty substitution changes nothing in a type whose
/// function types list their effects in increasing order.
pub proof fn law_substitute_empty(t: TypeV, s: SubstV)
    requires
        s.bindings == Map::<Seq<char>, TypeV>::empty(),
        s.effects == Map::<Seq<char>, Seq<Seq<char>>>::empty(),
        effects_sorted(t),
    ensures
        subst_type(t, s) == t,
{
    lemma_subst_empty(t, s);
}

/// Unifying a type with itself succeeds and leaves the substitution unchanged.
pub proof fn law_unify_reflexive(t: TypeV, s: SubstV)
    ensures
        unify_spec(t, t, s) == (Ok::<(), UnifyErrorV>(()), s),
{
}

/// Unifying an unbound generic parameter with a type succeeds, and
/// substituting into the parameter afterwards gives that type.
pub proof fn law_unify_infers_generic(n: Seq<char>, ty: TypeV, s: SubstV)
    requires
        !s.bindings.contains_key(n),
    ensures
        unify_spec(TypeV::GenericParam(n), ty, s).0 is Ok,
        subst_type(TypeV::GenericParam(n), unify_spec(TypeV::GenericParam(n), ty, s).1) == ty,
{
}

/// Once a generic parameter has been inferred from a type, unifying it with
/// the same type again succeeds and changes nothing.
pub proof fn law_unify_generic_idempotent(n: Seq<char>, ty: TypeV, s: SubstV)
    requires
        !s.bindings.contains_key(n),
    ensures
        ({
            let s1 = unify_spec(TypeV::GenericParam(n), ty, s).1;
            unify_spec(TypeV::GenericParam(n), ty, s1) == (Ok::<(), UnifyErrorV>(()), s1)
        }),
{
}

proof fn lemma_bindings_last(v: Seq<(String, Type)>, i: int, p: Seq<char>)
    requires
        -1 <= i < v.len(),
        i >= 0 ==> v[i].0@ == p,
        forall|k: int| i < k < v.len() ==> #[trigger] v[k].0@ != p,
    ensures
        i >= 0 ==> bindings_map(v).contains_key(p) && bindings_map(v)[p] == v[i].1@,
        i < 0 ==> !bindings_map(v).contains_key(p),
    decreases v.len(),
{
    if v.len() > 0 && i < v.len() - 1 {
        lemma_bindings_last(v.drop_last(), i, p);
    }
}

proof fn lemma_effects_last(v: Seq<(String, Vec<String>)>, i: int, p: Seq<char>)
    requires
        -1 <= i < v.len(),
        i >= 0 ==> v[i].0@ == p,
        forall|k: int| i < k < v.len() ==> #[trigger] v[k].0@ != p,
    ensures
        i >= 0 ==> effects_map(v).contains_key(p) && effects_map(v)[p] == names_v(v[i].1@),
        i < 0 ==> !effects_map(v).contains_key(p),
    decreases v.len(),
{
    if v.len() > 0 && i < v.len() - 1 {
        lemma_effects_last(v.drop_last(), i, p);
    }
}

} // verus!

verus! {

/// A type built only from primitive, struct and enum types and instantiated
/// generic types over such types: nothing to infer in it.
pub open spec fn ground_type(t: TypeV) -> bool
    decreases t,
{
    match t {
        TypeV::Instantiated { args, .. } => forall|i: int| 0 <= i < args.len() ==> ground_type(#[trigger] args[i]),
        TypeV::Unit | TypeV::Bool | TypeV::U8 | TypeV::U16 | TypeV::U32 | TypeV::U64 | TypeV::I64 | TypeV::Usize
        | TypeV::Str | TypeV::Struct(_) | TypeV::Enum(_) => true,
        _ => false,
    }
}

/// A ground type that may also hold generic parameters.
pub open spec fn pattern_type(t: TypeV) -> bool
    decreases t,
{
    match t {
        TypeV::Instantiated { args, .. } => forall|i: int| 0 <= i < args.len() ==> pattern_type(#[trigger] args[i]),
        TypeV::GenericParam(_) => true,
        _ => ground_type(t),
    }
}

/// Whether the generic parameter `n` occurs in `t`.
pub open spec fn mentions(t: TypeV, n: Seq<char>) -> bool
    decreases t,
{
    match t {
        TypeV::GenericParam(m) => m == n,
        TypeV::Instantiated { args, .. } => exists|i: int| 0 <= i < args.len() && mentions(#[trigger] args[i], n),
        _ => false,
    }
}

/// Whether no generic parameter occurs twice in `t`.
pub open spec fn linear(t: TypeV) -> bool
    decreases t,
{
    match t {
        TypeV::Instantiated { args, .. } => (forall|i: int| 0 <= i < args.len() ==> linear(#[trigger] args[i]))
            && forall|i: int, j: int, n: Seq<char>|
            0 <= i < j < args.len() ==> !(#[trigger] mentions(args[i], n) && #[trigger] mentions(args[j], n)),
        _ => true,
    }
}

proof fn lemma_ground_subst(t: TypeV, s: SubstV)
    requires
        ground_type(t),
    ensures
        subst_type(t, s) == t,
    decreases t,
{
    match t {
        TypeV::Instantiated { args, .. } => {
            assert forall|i: int| 0 <= i < args.len() implies subst_type(#[trigger] args[i], s) == args[i] by {
                lemma_ground_subst(args[i], s);
            }
            lemma_subst_types(args, s);
            assert(subst_types(args, s) =~= args);
        },
        _ => {},
    }
}

/// Whether two substitutions bind `n` alike.
pub open spec fn agree_at(s1: SubstV, s2: SubstV, n: Seq<char>) -> bool {
    &&& s1.bindings.contains_key(n) == s2.bindings.contains_key(n)
    &&& s1.bindings.contains_key(n) ==> s1.bindings[n] == s2.bindings[n]
}

proof fn lemma_subst_local(t: TypeV, s1: SubstV, s2: SubstV)
    requires
        pattern_type(t),
        forall|n: Seq<char>| mentions(t, n) ==> #[trigger] agree_at(s1, s2, n),
    ensures
        subst_type(t, s1) == subst_type(t, s2),
    decreases t,
{
    match t {
        TypeV::Instantiated { args, .. } => {
            assert forall|i: int| 0 <= i < args.len() implies subst_type(#[trigger] args[i], s1) == subst_type(
                args[i],
                s2,
            ) by {
                assert forall|n: Seq<char>| mentions(args[i], n) implies #[trigger] agree_at(s1, s2, n) by {
                    assert(mentions(t, n));
                }
                lemma_subst_local(args[i], s1, s2);
            }
            lemma_subst_types(args, s1);
            lemma_subst_types(args, s2);
            assert(subst_types(args, s1) =~= subst_types(args, s2));
        },
        TypeV::GenericParam(n) => {
            assert(agree_at(s1, s2, n));
        },
        _ => {},
    }
}

proof fn lemma_unify_sound(e: TypeV, a: TypeV, s: SubstV)
    requires
        pattern_type(e),
        ground_type(a),
        linear(e),
        forall|n: Seq<char>| mentions(e, n) ==> !(#[trigger] s.bindings.contains_key(n)),
    ensures
        unify_spec(e, a, s).0 is Ok ==> subst_type(e, unify_spec(e, a, s).1) == a,
        forall|n: Seq<char>| !mentions(e, n) ==> #[trigger] agree_at(unify_spec(e, a, s).1, s, n),
    decreases e, 0nat,
{
    if e == a {
        lemma_ground_subst(a, s);
    } else {
        match (e, a) {
            (TypeV::GenericParam(n), ty) => {
                assert(mentions(e, n));
            },
            (TypeV::Instantiated { name: n1, args: a1 }, TypeV::Instantiated { name: n2, args: a2 }) => {
                if n1 != n2 || a1.len() != a2.len() {
                } else {
                    assert forall|k: int, n: Seq<char>| 0 <= k < a1.len() && #[trigger] mentions(a1[k], n)
                        implies !s.bindings.contains_key(n) by {
                        assert(mentions(e, n));
                    }
                    lemma_unify_seq_sound(a1, a2, 0, s);
                    let s1 = unify_seq(a1, a2, 0, s).1;
                    if unify_seq(a1, a2, 0, s).0 is Ok {
                        lemma_subst_types(a1, s1);
                        assert(subst_types(a1, s1) =~= a2);
                    }
                    assert forall|n: Seq<char>| !mentions(e, n) implies #[trigger] agree_at(s1, s, n) by {
                        assert forall|k: int| 0 <= k < a1.len() implies !#[trigger] mentions(a1[k], n) by {
                            if mentions(a1[k], n) {
                                assert(mentions(e, n));
                            }
                        }
                    }
                }
            },
            _ => {},
        }
    }
}

proof fn lemma_unify_seq_sound(a1: Seq<TypeV>, a2: Seq<TypeV>, i: nat, s: SubstV)
    requires
        a1.len() == a2.len(),
        forall|k: int| 0 <= k < a1.len() ==> pattern_type(#[trigger] a1[k]),
        forall|k: int| 0 <= k < a2.len() ==> ground_type(#[trigger] a2[k]),
        forall|k: int| 0 <= k < a1.len() ==> linear(#[trigger] a1[k]),
        forall|k: int, j: int, n: Seq<char>|
            0 <= k < j < a1.len() ==> !(#[trigger] mentions(a1[k], n) && #[trigger] mentions(a1[j], n)),
        forall|k: int, n: Seq<char>| i <= k < a1.len() && #[trigger] mentions(a1[k], n) ==> !s.bindings.contains_key(n),
    ensures
        unify_seq(a1, a2, i, s).0 is Ok ==> forall|k: int|
            i <= k < a1.len() ==> subst_type(#[trigger] a1[k], unify_seq(a1, a2, i, s).1) == a2[k],
        forall|n: Seq<char>| (forall|k: int| i <= k < a1.len() ==> !#[trigger] mentions(a1[k], n))
            ==> #[trigger] agree_at(unify_seq(a1, a2, i, s).1, s, n),
    decreases a1, a1.len() - i,
{
    if i < a1.len() {
        let e = a1[i as int];
        assert forall|n: Seq<char>| mentions(e, n) implies !(#[trigger] s.bindings.contains_key(n)) by {}
        lemma_unify_sound(e, a2[i as int], s);
        let (r, s_mid) = unify_spec(e, a2[i as int], s);
        if r is Ok {
            assert forall|k: int, n: Seq<char>| i + 1 <= k < a1.len() && #[trigger] mentions(a1[k], n)
                implies !s_mid.bindings.contains_key(n) by {
                assert(!mentions(e, n));
                assert(agree_at(s_mid, s, n));
            }
            lemma_unify_seq_sound(a1, a2, i + 1, s_mid);
            let s1 = unify_seq(a1, a2, i + 1, s_mid).1;
            assert(unify_seq(a1, a2, i, s).1 == s1);
            if unify_seq(a1, a2, i + 1, s_mid).0 is Ok {
                assert forall|n: Seq<char>| mentions(e, n) implies #[trigger] agree_at(s1, s_mid, n) by {
                    assert forall|k: int| i + 1 <= k < a1.len() implies !#[trigger] mentions(a1[k], n) by {
                        assert(mentions(a1[i as int], n));
                    }
                }
                lemma_subst_local(e, s1, s_mid);
            }
            assert forall|n: Seq<char>| (forall|k: int| i <= k < a1.len() ==> !#[trigger] mentions(a1[k], n))
                implies #[trigger] agree_at(s1, s, n) by {
                assert(!mentions(a1[i as int], n));
                assert(agree_at(s_mid, s, n));
                assert forall|k: int| i + 1 <= k < a1.len() implies !#[trigger] mentions(a1[k], n) by {}
                assert(agree_at(s1, s_mid, n));
            }
        }
    }
}

/// Unification of a type pattern, in which no generic parameter occurs twice,
/// with a type that has nothing to infer, starting from no bindings for the
/// pattern's parameters: when it succeeds, substituting the recorded
/// bindings into the pattern gives the other type, and no other binding
/// changes.
pub proof fn law_unify_sound(e: TypeV, a: TypeV, s: SubstV)
    requires
        pattern_type(e),
        ground_type(a),
        linear(e),
        forall|n: Seq<char>| mentions(e, n) ==> !(#[trigger] s.bindings.contains_key(n)),
    ensures
        unify_spec(e, a, s).0 is Ok ==> subst_type(e, unify_spec(e, a, s).1) == a,
        forall|n: Seq<char>| !mentions(e, n) ==> #[trigger] agree_at(unify_spec(e, a, s).1, s, n),
{
    lemma_unify_sound(e, a, s);
}


proof fn lemma_unify_complete(e: TypeV, a: TypeV, s: SubstV, w: SubstV)
    requires
        pattern_type(e),
        ground_type(a),
        linear(e),
        forall|n: Seq<char>| mentions(e, n) ==> !(#[trigger] s.bindings.contains_key(n)),
        subst_type(e, w) == a,
    ensures
        unify_spec(e, a, s).0 is Ok,
    decreases e, 0nat,
{
    if e != a {
        match (e, a) {
            (TypeV::GenericParam(n), ty) => {
                assert(mentions(e, n));
            },
            (TypeV::Instantiated { name: n1, args: a1 }, _) => {
                lemma_subst_types(a1, w);
                let a2 = a->Instantiated_args;
                assert forall|k: int, n: Seq<char>| 0 <= k < a1.len() && #[trigger] mentions(a1[k], n)
                    implies !s.bindings.contains_key(n) by {
                    assert(mentions(e, n));
                }
                lemma_unify_seq_complete(a1, a2, 0, s, w);
            },
            _ => {
                lemma_ground_subst(e, w);
            },
        }
    }
}

proof fn lemma_unify_seq_complete(a1: Seq<TypeV>, a2: Seq<TypeV>, i: nat, s: SubstV, w: SubstV)
    requires
        a1.len() == a2.len(),
        forall|k: int| 0 <= k < a1.len() ==> pattern_type(#[trigger] a1[k]),
        forall|k: int| 0 <= k < a2.len() ==> ground_type(#[trigger] a2[k]),
        forall|k: int| 0 <= k < a1.len() ==> linear(#[trigger] a1[k]),
        forall|k: int, j: int, n: Seq<char>|
            0 <= k < j < a1.len() ==> !(#[trigger] mentions(a1[k], n) && #[trigger] mentions(a1[j], n)),
        forall|k: int, n: Seq<char>| i <= k < a1.len() && #[trigger] mentions(a1[k], n) ==> !s.bindings.contains_key(n),
        forall|k: int| 0 <= k < a1.len() ==> subst_type(#[trigger] a1[k], w) == a2[k],
    ensures
        unify_seq(a1, a2, i, s).0 is Ok,
    decreases a1, a1.len() - i,
{
    if i < a1.len() {
        let e = a1[i as int];
        assert forall|n: Seq<char>| mentions(e, n) implies !(#[trigger] s.bindings.contains_key(n)) by {}
        lemma_unify_complete(e, a2[i as int], s, w);
        lemma_unify_sound(e, a2[i as int], s);
        let (r, s_mid) = unify_spec(e, a2[i as int], s);
        assert forall|k: int, n: Seq<char>| i + 1 <= k < a1.len() && #[trigger] mentions(a1[k], n)
            implies !s_mid.bindings.contains_key(n) by {
            assert(!mentions(e, n));
            assert(agree_at(s_mid, s, n));
        }
        lemma_unify_seq_complete(a1, a2, i + 1, s_mid, w);
    }
}

/// For a type pattern in which no generic parameter occurs twice, a type with
/// nothing to infer, and no bindings yet for the pattern's parameters,
/// unification succeeds exactly when some substitution turns the pattern
/// into the type.
pub proof fn law_unify_succeeds_iff_instance(e: TypeV, a: TypeV, s: SubstV)
    requires
        pattern_type(e),
        ground_type(a),
        linear(e),
        forall|n: Seq<char>| mentions(e, n) ==> !(#[trigger] s.bindings.contains_key(n)),
    ensures
        unify_spec(e, a, s).0 is Ok <==> exists|w: SubstV| subst_type(e, w) == a,
{
    lemma_unify_sound(e, a, s);
    if exists|w: SubstV| subst_type(e, w) == a {
        let w = choose|w: SubstV| subst_type(e, w) == a;
        lemma_unify_complete(e, a, s, w);
    }
    if unify_spec(e, a, s).0 is Ok {
        assert(subst_type(e, unify_spec(e, a, s).1) == a);
    }
}

/// A type with no parts: a scalar, a string, or a named struct or enum.
pub open spec fn plain_type(t: TypeV) -> bool {
    ||| t is Unit
    ||| t is Bool
    ||| t is U8
    ||| t is U16
    ||| t is U32
    ||| t is U64
    ||| t is I64
    ||| t is Usize
    ||| t is Str
    ||| t is Struct
    ||| t is Enum
}

/// Two plain types unify exactly when they are the same type.
pub proof fn law_unify_plain_types(x: TypeV, y: TypeV, s: SubstV)
    requires
        plain_type(x),
        plain_type(y),
    ensures
        unify_spec(x, y, s).0 is Ok <==> x == y,
{
}

proof fn lemma_unify_seq_same(v: Seq<TypeV>, i: nat, s: SubstV)
    ensures
        unify_seq(v, v, i, s) == (Ok::<(), UnifyErrorV>(()), s),
    decreases v.len() - i,
{
    if i < v.len() {
        assert(unify_spec(v[i as int], v[i as int], s) == (Ok::<(), UnifyErrorV>(()), s));
        lemma_unify_seq_same(v, i + 1, s);
    }
}

/// Unifying two function types unifies their results: with the same
/// parameters and effects, two function types whose results are plain types
/// unify exactly when the results are the same type.
pub proof fn law_unify_fn_results(ps: Seq<TypeV>, r1: TypeV, r2: TypeV, es: Seq<Seq<char>>, s: SubstV)
    requires
        plain_type(r1),
        plain_type(r2),
    ensures
        unify_spec(
            TypeV::Fn { params: ps, ret: Box::new(r1), effects: es },
            TypeV::Fn { params: ps, ret: Box::new(r2), effects: es },
            s,
        ).0 is Ok <==> r1 == r2,
{
    lemma_unify_seq_same(ps, 0, s);
    assert(concrete(es).difference(concrete(es)) =~= Set::<Seq<char>>::empty());
    let u = unify_effects(es, es, s.effects);
    assert(u is Ok);
    let s2 = SubstV { bindings: s.bindings, effects: u->Ok_0 };
    law_unify_plain_types(r1, r2, s2);
}

} // verus!
