//! Scalar and aggregate IR types, constant payloads and identities.
use vstd::prelude::*;
use vstd::std_specs::cmp::PartialEqSpecImpl;

verus! {

broadcast use vstd::std_specs::vec::axiom_vec_index_decreases;

/// An IR type. Aggregates hold their element types; a pointer names its pointee.
#[derive(Debug)]
pub enum Type {
    Void,
    Bool,
    I1,
    I8,
    I16,
    I32,
    I64,
    I128,
    U1,
    U8,
    U16,
    U32,
    U64,
    U128,
    F16,
    F32,
    F64,
    Ptr(Box<Type>),
    Array(Box<Type>, u64),
    Struct(Vec<Type>),
    Tuple(Vec<Type>),
}

/// The mathematical value of a [`Type`]: the same tree, with sequences for field lists.
pub enum TypeModel {
    Void,
    Bool,
    I1,
    I8,
    I16,
    I32,
    I64,
    I128,
    U1,
    U8,
    U16,
    U32,
    U64,
    U128,
    F16,
    F32,
    F64,
    Ptr(Box<TypeModel>),
    Array(Box<TypeModel>, u64),
    Struct(Seq<TypeModel>),
    Tuple(Seq<TypeModel>),
}

/// The models of a list of types.
pub open spec fn types_model(v: Vec<Type>) -> Seq<TypeModel>
    decreases v,
{
    Seq::new(
        v.len() as nat,
        |i: int|
            if 0 <= i < v.len() {
                type_model(v@[i])
            } else {
                TypeModel::Void
            },
    )
}

pub open spec fn type_model(t: Type) -> TypeModel
    decreases t,
{
    match t {
        Type::Void => TypeModel::Void,
        Type::Bool => TypeModel::Bool,
        Type::I1 => TypeModel::I1,
        Type::I8 => TypeModel::I8,
        Type::I16 => TypeModel::I16,
        Type::I32 => TypeModel::I32,
        Type::I64 => TypeModel::I64,
        Type::I128 => TypeModel::I128,
        Type::U1 => TypeModel::U1,
        Type::U8 => TypeModel::U8,
        Type::U16 => TypeModel::U16,
        Type::U32 => TypeModel::U32,
        Type::U64 => TypeModel::U64,
        Type::U128 => TypeModel::U128,
        Type::F16 => TypeModel::F16,
        Type::F32 => TypeModel::F32,
        Type::F64 => TypeModel::F64,
        Type::Ptr(p) => TypeModel::Ptr(Box::new(type_model(*p))),
        Type::Array(e, n) => TypeModel::Array(Box::new(type_model(*e)), n),
        Type::Struct(fs) => TypeModel::Struct(
            Seq::new(
                fs.len() as nat,
                |i: int|
                    if 0 <= i < fs.len() {
                        type_model(fs@[i])
                    } else {
                        TypeModel::Void
                    },
            ),
        ),
        Type::Tuple(fs) => TypeModel::Tuple(
            Seq::new(
                fs.len() as nat,
                |i: int|
                    if 0 <= i < fs.len() {
                        type_model(fs@[i])
                    } else {
                        TypeModel::Void
                    },
            ),
        ),
    }
}

impl View for Type {
    type V = TypeModel;

    open spec fn view(&self) -> TypeModel {
        type_model(*self)
    }
}

/// Signed integer types, including the one-bit type.
pub open spec fn is_signed_model(t: TypeModel) -> bool {
    t is I1 || t is I8 || t is I16 || t is I32 || t is I64 || t is I128
}

/// Unsigned integer types, including the one-bit type.
pub open spec fn is_unsigned_model(t: TypeModel) -> bool {
    t is U1 || t is U8 || t is U16 || t is U32 || t is U64 || t is U128
}

pub open spec fn is_integer_model(t: TypeModel) -> bool {
    is_signed_model(t) || is_unsigned_model(t)
}

pub open spec fn is_float_model(t: TypeModel) -> bool {
    t is F16 || t is F32 || t is F64
}

/// A type and its model have the same constructor.
pub proof fn lemma_model_shape(t: Type)
    ensures
        (t is Void) == (t@ is Void),
        (t is Bool) == (t@ is Bool),
        (t is I1) == (t@ is I1),
        (t is I8) == (t@ is I8),
        (t is I16) == (t@ is I16),
        (t is I32) == (t@ is I32),
        (t is I64) == (t@ is I64),
        (t is I128) == (t@ is I128),
        (t is U1) == (t@ is U1),
        (t is U8) == (t@ is U8),
        (t is U16) == (t@ is U16),
        (t is U32) == (t@ is U32),
        (t is U64) == (t@ is U64),
        (t is U128) == (t@ is U128),
        (t is F16) == (t@ is F16),
        (t is F32) == (t@ is F32),
        (t is F64) == (t@ is F64),
        (t is Ptr) == (t@ is Ptr),
        (t is Array) == (t@ is Array),
        (t is Struct) == (t@ is Struct),
        (t is Tuple) == (t@ is Tuple),
{
}

/// Equality of two types, by their models.
pub fn types_equal(a: &Type, b: &Type) -> (r: bool)
    ensures
        r == (a@ == b@),
    decreases a,
{
    proof {
        lemma_model_shape(*a);
        lemma_model_shape(*b);
    }
    match (a, b) {
        (Type::Void, _) => { let r = matches!(b, Type::Void); assert(r == (a@ == b@)); r },
        (Type::Bool, _) => { let r = matches!(b, Type::Bool); assert(r == (a@ == b@)); r },
        (Type::I1, _) => { let r = matches!(b, Type::I1); assert(r == (a@ == b@)); r },
        (Type::I8, _) => { let r = matches!(b, Type::I8); assert(r == (a@ == b@)); r },
        (Type::I16, _) => { let r = matches!(b, Type::I16); assert(r == (a@ == b@)); r },
        (Type::I32, _) => { let r = matches!(b, Type::I32); assert(r == (a@ == b@)); r },
        (Type::I64, _) => { let r = matches!(b, Type::I64); assert(r == (a@ == b@)); r },
        (Type::I128, _) => { let r = matches!(b, Type::I128); assert(r == (a@ == b@)); r },
        (Type::U1, _) => { let r = matches!(b, Type::U1); assert(r == (a@ == b@)); r },
        (Type::U8, _) => { let r = matches!(b, Type::U8); assert(r == (a@ == b@)); r },
        (Type::U16, _) => { let r = matches!(b, Type::U16); assert(r == (a@ == b@)); r },
        (Type::U32, _) => { let r = matches!(b, Type::U32); assert(r == (a@ == b@)); r },
        (Type::U64, _) => { let r = matches!(b, Type::U64); assert(r == (a@ == b@)); r },
        (Type::U128, _) => { let r = matches!(b, Type::U128); assert(r == (a@ == b@)); r },
        (Type::F16, _) => { let r = matches!(b, Type::F16); assert(r == (a@ == b@)); r },
        (Type::F32, _) => { let r = matches!(b, Type::F32); assert(r == (a@ == b@)); r },
        (Type::F64, _) => { let r = matches!(b, Type::F64); assert(r == (a@ == b@)); r },
        (Type::Ptr(x), Type::Ptr(y)) => { let r = types_equal(x, y); assert(r == (a@ == b@)); r },
        (Type::Array(x, n), Type::Array(y, m)) => { let r = *n == *m && types_equal(x, y); assert(r == (a@ == b@)); r },
        (Type::Struct(xs), Type::Struct(ys)) => {
            let r = lists_equal(a, xs, ys);
            proof {
                assert(a@ == TypeModel::Struct(a@->Struct_0));
                assert(b@ == TypeModel::Struct(b@->Struct_0));
                assert(a@->Struct_0.len() == xs.len());
                assert(b@->Struct_0.len() == ys.len());
                assert(r ==> a@->Struct_0 =~= b@->Struct_0);
                if !r && xs.len() == ys.len() {
                    let j = choose|j: int| 0 <= j < xs.len() && xs@[j]@ != ys@[j]@;
                    assert(a@->Struct_0[j] != b@->Struct_0[j]);
                }
                assert(r == (a@ == b@));
            }
            r
        },
        (Type::Tuple(xs), Type::Tuple(ys)) => {
            let r = lists_equal(a, xs, ys);
            proof {
                assert(a@ == TypeModel::Tuple(a@->Tuple_0));
                assert(b@ == TypeModel::Tuple(b@->Tuple_0));
                assert(a@->Tuple_0.len() == xs.len());
                assert(b@->Tuple_0.len() == ys.len());
                assert(r ==> a@->Tuple_0 =~= b@->Tuple_0);
                if !r && xs.len() == ys.len() {
                    let j = choose|j: int| 0 <= j < xs.len() && xs@[j]@ != ys@[j]@;
                    assert(a@->Tuple_0[j] != b@->Tuple_0[j]);
                }
                assert(r == (a@ == b@));
            }
            r
        },
        _ => { assert(a@ != b@); false },
    }
}

/// Element-wise equality of the field lists of `parent` and another aggregate.
fn lists_equal(parent: &Type, xs: &Vec<Type>, ys: &Vec<Type>) -> (r: bool)
    requires
        *parent == Type::Struct(*xs) || *parent == Type::Tuple(*xs),
    ensures
        r == (xs.len() == ys.len() && forall|j: int| 0 <= j < xs.len() ==> xs@[j]@ == ys@[j]@),
    decreases parent, 0nat,
{
    if xs.len() != ys.len() {
        return false;
    }
    let mut i: usize = 0;
    while i < xs.len()
        invariant
            0 <= i <= xs.len(),
            xs.len() == ys.len(),
            *parent == Type::Struct(*xs) || *parent == Type::Tuple(*xs),
            forall|j: int| 0 <= j < i ==> xs@[j]@ == ys@[j]@,
        decreases xs.len() - i,
    {
        proof {
            if *parent == Type::Struct(*xs) {
                assert(decreases_to!(*parent => (*parent)->Struct_0));
            } else {
                assert(decreases_to!(*parent => (*parent)->Tuple_0));
            }
            assert(decreases_to!(*xs => xs[i as int]));
        }
        if !types_equal(&xs[i], &ys[i]) {
            return false;
        }
        i += 1;
    }
    true
}

impl PartialEq for Type {
    fn eq(&self, other: &Self) -> (r: bool) {
        types_equal(self, other)
    }
}

impl Eq for Type {

}

impl Clone for Type {
    fn clone(&self) -> (r: Self)
        ensures
            r@ == self@,
    {
        self.duplicate()
    }
}

impl PartialEqSpecImpl for Type {
    open spec fn obeys_eq_spec() -> bool {
        true
    }

    open spec fn eq_spec(&self, other: &Self) -> bool {
        self@ == other@
    }
}

impl Type {
    /// A pointer to `pointee`.
    pub fn ptr_to(pointee: Type) -> (r: Type)
        ensures
            r == Type::Ptr(Box::new(pointee)),
            r@ == TypeModel::Ptr(Box::new(pointee@)),
    {
        Type::Ptr(Box::new(pointee))
    }

    /// A copy with the same model.
    pub fn duplicate(&self) -> (r: Type)
        ensures
            r@ == self@,
        decreases self,
    {
        match self {
            Type::Ptr(x) => Type::Ptr(Box::new(x.duplicate())),
            Type::Array(x, n) => Type::Array(Box::new(x.duplicate()), *n),
            Type::Struct(xs) => {
                let ys = duplicate_list(self, xs);
                let r = Type::Struct(ys);
                assert(r@->Struct_0 =~= self@->Struct_0);
                r
            },
            Type::Tuple(xs) => {
                let ys = duplicate_list(self, xs);
                let r = Type::Tuple(ys);
                assert(r@->Tuple_0 =~= self@->Tuple_0);
                r
            },
            Type::Void => Type::Void,
            Type::Bool => Type::Bool,
            Type::I1 => Type::I1,
            Type::I8 => Type::I8,
            Type::I16 => Type::I16,
            Type::I32 => Type::I32,
            Type::I64 => Type::I64,
            Type::I128 => Type::I128,
            Type::U1 => Type::U1,
            Type::U8 => Type::U8,
            Type::U16 => Type::U16,
            Type::U32 => Type::U32,
            Type::U64 => Type::U64,
            Type::U128 => Type::U128,
            Type::F16 => Type::F16,
            Type::F32 => Type::F32,
            Type::F64 => Type::F64,
        }
    }
}

/// Copies of the field list of `parent`.
fn duplicate_list(parent: &Type, xs: &Vec<Type>) -> (r: Vec<Type>)
    requires
        *parent == Type::Struct(*xs) || *parent == Type::Tuple(*xs),
    ensures
        r.len() == xs.len(),
        forall|j: int| 0 <= j < xs.len() ==> r@[j]@ == xs@[j]@,
    decreases parent, 0nat,
{
    let mut out: Vec<Type> = Vec::new();
    let mut i: usize = 0;
    while i < xs.len()
        invariant
            0 <= i <= xs.len(),
            out.len() == i,
            *parent == Type::Struct(*xs) || *parent == Type::Tuple(*xs),
            forall|j: int| 0 <= j < i ==> out@[j]@ == xs@[j]@,
        decreases xs.len() - i,
    {
        proof {
            if *parent == Type::Struct(*xs) {
                assert(decreases_to!(*parent => (*parent)->Struct_0));
            } else {
                assert(decreases_to!(*parent => (*parent)->Tuple_0));
            }
            assert(decreases_to!(*xs => xs[i as int]));
        }
        let d = xs[i].duplicate();
        out.push(d);
        i += 1;
    }
    out
}

pub fn is_signed(ty: &Type) -> (r: bool)
    ensures
        r == is_signed_model(ty@),
{
    matches!(ty, Type::I1 | Type::I8 | Type::I16 | Type::I32 | Type::I64 | Type::I128)
}

pub fn is_unsigned(ty: &Type) -> (r: bool)
    ensures
        r == is_unsigned_model(ty@),
{
    matches!(ty, Type::U1 | Type::U8 | Type::U16 | Type::U32 | Type::U64 | Type::U128)
}

pub fn is_integer(ty: &Type) -> (r: bool)
    ensures
        r == is_integer_model(ty@),
{
    is_signed(ty) || is_unsigned(ty)
}

pub fn is_float(ty: &Type) -> (r: bool)
    ensures
        r == is_float_model(ty@),
{
    matches!(ty, Type::F16 | Type::F32 | Type::F64)
}

/// Exact IEEE storage bits. Equality compares storage, including NaN payloads.
#[derive(Clone, Copy, Debug, PartialEq, Eq, Structural)]
pub enum FloatBits {
    F16(u16),
    F32(u32),
    F64(u64),
}

/// A constant payload. Its category must match the type it is used with.
#[derive(Clone, Copy, Debug, PartialEq, Eq, Structural)]
pub enum ConstValue {
    Bool(bool),
    I(i128),
    U(u128),
    F(FloatBits),
}

/// An SSA value identity, local to a function.
#[derive(Clone, Copy, Debug, PartialEq, Eq, Hash, Structural)]
pub struct ValueId(pub u32);

/// A basic block identity, local to a function.
#[derive(Clone, Copy, Debug, PartialEq, Eq, Hash, Structural)]
pub struct BlockId(pub u32);

/// A module-level constant identity.
#[derive(Clone, Copy, Debug, PartialEq, Eq, Hash, Structural)]
pub struct GlobalId(pub u32);

} // verus!
