use vstd::prelude::*;
use crate::effects::str_eq;

verus! {

/// A region (lifetime scope) identifier; larger ids are inner regions.
#[derive(Debug, Clone, Copy, PartialEq, Eq, Structural)]
pub struct RegionId(pub u32);

/// Types of the Tungsten type checker.
#[derive(Debug)]
pub enum Type {
    Unit,
    Bool,
    U8,
    U16,
    U32,
    U64,
    I64,
    Usize,
    String,
    Struct(String),
    Enum(String),
    GenericParam(String),
    Instantiated { name: String, args: Vec<Type> },
    Ref { is_mut: bool, inner: Box<Type>, region: RegionId },
    Ptr { is_mut: bool, inner: Box<Type> },
    Fn { params: Vec<Type>, return_type: Box<Type>, yields_effects: Vec<String> },
    RegionBounded { inner: Box<Type>, region: RegionId },
    Array { elem: Box<Type>, len: usize },
    /// An integer type restricted to `[min, max]`.
    Refined { base: Box<Type>, min: i64, max: i64 },
    /// A type restricted by a relational predicate (only its base is read here).
    Relational { base: Box<Type> },
}

/// The mathematical value of a type: names become character sequences and
/// lists become sequences.
pub enum TypeV {
    Unit,
    Bool,
    U8,
    U16,
    U32,
    U64,
    I64,
    Usize,
    Str,
    Struct(Seq<char>),
    Enum(Seq<char>),
    GenericParam(Seq<char>),
    Instantiated { name: Seq<char>, args: Seq<TypeV> },
    Ref { is_mut: bool, inner: Box<TypeV>, region: u32 },
    Ptr { is_mut: bool, inner: Box<TypeV> },
    Fn { params: Seq<TypeV>, ret: Box<TypeV>, effects: Seq<Seq<char>> },
    RegionBounded { inner: Box<TypeV>, region: u32 },
    Array { elem: Box<TypeV>, len: usize },
    Refined { base: Box<TypeV>, min: i64, max: i64 },
    Relational { base: Box<TypeV> },
}

/// The names held by a list of strings.
pub open spec fn names_v(v: Seq<String>) -> Seq<Seq<char>> {
    v.map_values(|s: String| s@)
}

/// The mathematical value of a type.
pub open spec fn type_v(t: Type) -> TypeV
    decreases t,
{
    match t {
        Type::Unit => TypeV::Unit,
        Type::Bool => TypeV::Bool,
        Type::U8 => TypeV::U8,
        Type::U16 => TypeV::U16,
        Type::U32 => TypeV::U32,
        Type::U64 => TypeV::U64,
        Type::I64 => TypeV::I64,
        Type::Usize => TypeV::Usize,
        Type::String => TypeV::Str,
        Type::Struct(n) => TypeV::Struct(n@),
        Type::Enum(n) => TypeV::Enum(n@),
        Type::GenericParam(n) => TypeV::GenericParam(n@),
        Type::Instantiated { name, args } => TypeV::Instantiated {
            name: name@,
            args: types_v(args@),
        },
        Type::Ref { is_mut, inner, region } => TypeV::Ref {
            is_mut,
            inner: Box::new(type_v(*inner)),
            region: region.0,
        },
        Type::Ptr { is_mut, inner } => TypeV::Ptr { is_mut, inner: Box::new(type_v(*inner)) },
        Type::Fn { params, return_type, yields_effects } => TypeV::Fn {
            params: types_v(params@),
            ret: Box::new(type_v(*return_type)),
            effects: names_v(yields_effects@),
        },
        Type::RegionBounded { inner, region } => TypeV::RegionBounded {
            inner: Box::new(type_v(*inner)),
            region: region.0,
        },
        Type::Array { elem, len } => TypeV::Array { elem: Box::new(type_v(*elem)), len },
        Type::Refined { base, min, max } => TypeV::Refined {
            base: Box::new(type_v(*base)),
            min,
            max,
        },
        Type::Relational { base } => TypeV::Relational { base: Box::new(type_v(*base)) },
    }
}

/// The mathematical values of a list of types.
pub open spec fn types_v(s: Seq<Type>) -> Seq<TypeV>
    decreases s,
{
    if s.len() == 0 {
        Seq::empty()
    } else {
        types_v(s.drop_last()).push(type_v(s.last()))
    }
}

impl View for Type {
    type V = TypeV;

    open spec fn view(&self) -> TypeV {
        type_v(*self)
    }
}

/// `types_v` keeps the length and views each element.
pub proof fn lemma_types_v(s: Seq<Type>)
    ensures
        types_v(s).len() == s.len(),
        forall|i: int| 0 <= i < s.len() ==> #[trigger] types_v(s)[i] == type_v(s[i]),
    decreases s.len(),
{
    if s.len() > 0 {
        lemma_types_v(s.drop_last());
    }
}


/// A copy of a list of strings with the same names.
pub fn copy_names(v: &Vec<String>) -> (r: Vec<String>)
    ensures
        names_v(r@) == names_v(v@),
{
    let mut out: Vec<String> = Vec::new();
    for i in 0..v.len()
        invariant
            out@.len() == i,
            forall|k: int| 0 <= k < i ==> #[trigger] out@[k]@ == v@[k]@,
    {
        out.push(v[i].clone());
    }
    assert(names_v(out@) =~= names_v(v@));
    out
}

/// Whether two lists of strings hold the same names in the same order.
pub fn names_eq(a: &Vec<String>, b: &Vec<String>) -> (r: bool)
    ensures
        r == (names_v(a@) == names_v(b@)),
{
    if a.len() != b.len() {
        assert(names_v(a@).len() != names_v(b@).len());
        return false;
    }
    for i in 0..a.len()
        invariant
            a@.len() == b@.len(),
            forall|k: int| 0 <= k < i ==> #[trigger] a@[k]@ == b@[k]@,
    {
        if !str_eq(a[i].as_str(), b[i].as_str()) {
            assert(names_v(a@)[i as int] != names_v(b@)[i as int]);
            return false;
        }
    }
    assert(names_v(a@) =~= names_v(b@));
    true
}

impl Type {
    /// A copy of this type with the same mathematical value.
    pub fn duplicate(&self) -> (r: Type)
        ensures
            r@ == self@,
        decreases self,
    {
        match self {
            Type::Unit => Type::Unit,
            Type::Bool => Type::Bool,
            Type::U8 => Type::U8,
            Type::U16 => Type::U16,
            Type::U32 => Type::U32,
            Type::U64 => Type::U64,
            Type::I64 => Type::I64,
            Type::Usize => Type::Usize,
            Type::String => Type::String,
            Type::Struct(n) => Type::Struct(n.clone()),
            Type::Enum(n) => Type::Enum(n.clone()),
            Type::GenericParam(n) => Type::GenericParam(n.clone()),
            Type::Instantiated { name, args } => {
                let new_args = duplicate_types(args);
                Type::Instantiated { name: name.clone(), args: new_args }
            },
            Type::Ref { is_mut, inner, region } => Type::Ref {
                is_mut: *is_mut,
                inner: Box::new(inner.duplicate()),
                region: *region,
            },
            Type::Ptr { is_mut, inner } => Type::Ptr {
                is_mut: *is_mut,
                inner: Box::new(inner.duplicate()),
            },
            Type::Fn { params, return_type, yields_effects } => {
                let new_params = duplicate_types(params);
                Type::Fn {
                    params: new_params,
                    return_type: Box::new(return_type.duplicate()),
                    yields_effects: copy_names(yields_effects),
                }
            },
            Type::RegionBounded { inner, region } => Type::RegionBounded {
                inner: Box::new(inner.duplicate()),
                region: *region,
            },
            Type::Array { elem, len } => Type::Array { elem: Box::new(elem.duplicate()), len: *len },
            Type::Refined { base, min, max } => Type::Refined {
                base: Box::new(base.duplicate()),
                min: *min,
                max: *max,
            },
            Type::Relational { base } => Type::Relational { base: Box::new(base.duplicate()) },
        }
    }

    /// Whether two types have the same mathematical value.
    pub fn same_as(&self, other: &Type) -> (r: bool)
        ensures
            r == (self@ == other@),
        decreases self,
    {
        match (self, other) {
            (Type::Unit, Type::Unit) => true,
            (Type::Bool, Type::Bool) => true,
            (Type::U8, Type::U8) => true,
            (Type::U16, Type::U16) => true,
            (Type::U32, Type::U32) => true,
            (Type::U64, Type::U64) => true,
            (Type::I64, Type::I64) => true,
            (Type::Usize, Type::Usize) => true,
            (Type::String, Type::String) => true,
            (Type::Struct(a), Type::Struct(b)) => str_eq(a.as_str(), b.as_str()),
            (Type::Enum(a), Type::Enum(b)) => str_eq(a.as_str(), b.as_str()),
            (Type::GenericParam(a), Type::GenericParam(b)) => str_eq(a.as_str(), b.as_str()),
            (Type::Instantiated { name: n1, args: a1 }, Type::Instantiated { name: n2, args: a2 }) => {
                if !str_eq(n1.as_str(), n2.as_str()) {
                    return false;
                }
                types_eq(a1, a2)
            },
            (Type::Ref { is_mut: m1, inner: i1, region: r1 }, Type::Ref { is_mut: m2, inner: i2, region: r2 }) => {
                *m1 == *m2 && r1.0 == r2.0 && i1.same_as(i2)
            },
            (Type::Ptr { is_mut: m1, inner: i1 }, Type::Ptr { is_mut: m2, inner: i2 }) => {
                *m1 == *m2 && i1.same_as(i2)
            },
            (Type::Fn { params: p1, return_type: r1, yields_effects: e1 }, Type::Fn { params: p2, return_type: r2, yields_effects: e2 }) => {
                if !types_eq(p1, p2) {
                    return false;
                }
                if !names_eq(e1, e2) {
                    return false;
                }
                r1.same_as(r2)
            },
            (Type::RegionBounded { inner: i1, region: r1 }, Type::RegionBounded { inner: i2, region: r2 }) => {
                r1.0 == r2.0 && i1.same_as(i2)
            },
            (Type::Array { elem: e1, len: l1 }, Type::Array { elem: e2, len: l2 }) => {
                *l1 == *l2 && e1.same_as(e2)
            },
            (Type::Refined { base: b1, min: lo1, max: hi1 }, Type::Refined { base: b2, min: lo2, max: hi2 }) => {
                *lo1 == *lo2 && *hi1 == *hi2 && b1.same_as(b2)
            },
            (Type::Relational { base: b1 }, Type::Relational { base: b2 }) => b1.same_as(b2),
            _ => false,
        }
    }
}

/// A copy of a list of types with the same mathematical values.
pub fn duplicate_types(v: &Vec<Type>) -> (r: Vec<Type>)
    ensures
        types_v(r@) == types_v(v@),
    decreases v,
{
    let mut out: Vec<Type> = Vec::new();
    for i in 0..v.len()
        invariant
            out@.len() == i,
            forall|k: int| 0 <= k < i ==> #[trigger] type_v(out@[k]) == type_v(v@[k]),
    {
        assert(decreases_to!(v => v@[i as int]));
        out.push(v[i].duplicate());
    }
    proof {
        lemma_types_v(out@);
        lemma_types_v(v@);
        assert(types_v(out@) =~= types_v(v@));
    }
    out
}

/// Whether two lists of types have the same mathematical values.
pub fn types_eq(a: &Vec<Type>, b: &Vec<Type>) -> (r: bool)
    ensures
        r == (types_v(a@) == types_v(b@)),
    decreases a,
{
    proof {
        lemma_types_v(a@);
        lemma_types_v(b@);
    }
    if a.len() != b.len() {
        return false;
    }
    for i in 0..a.len()
        invariant
            a@.len() == b@.len(),
            types_v(a@).len() == a@.len(),
            types_v(b@).len() == b@.len(),
            forall|k: int| 0 <= k < a@.len() ==> #[trigger] types_v(a@)[k] == type_v(a@[k]),
            forall|k: int| 0 <= k < b@.len() ==> #[trigger] types_v(b@)[k] == type_v(b@[k]),
            forall|k: int| 0 <= k < i ==> #[trigger] type_v(a@[k]) == type_v(b@[k]),
    {
        assert(decreases_to!(a => a@[i as int]));
        if !a[i].same_as(&b[i]) {
            assert(types_v(a@)[i as int] != types_v(b@)[i as int]);
            return false;
        }
    }
    assert(types_v(a@) =~= types_v(b@));
    true
}

} // verus!
