use vstd::prelude::*;

verus! {

pub type TypeId = usize;

/// The id of a type that was not assigned yet.
pub const NO_TYPE: TypeId = usize::MAX;

/// Get the id of invalid types (not assigned yet).
pub fn no_type() -> (r: TypeId)
    ensures
        r == NO_TYPE,
{
    NO_TYPE
}

/// The builtin types, in the order in which a type interner assigns them
/// their ids.
#[derive(Debug, Clone, Copy, PartialEq, Eq, Structural)]
pub enum PrimitiveType {
    Void,
    I8,
    I16,
    I32,
    I64,
    U8,
    U16,
    U32,
    U64,
    F32,
    F64,
    Bool,
    Byte,
    String,
}

pub const NUM_PRIMITIVES: usize = 14;

/// The position of a primitive in declaration order.
pub open spec fn prim_index(p: PrimitiveType) -> nat {
    match p {
        PrimitiveType::Void => 0,
        PrimitiveType::I8 => 1,
        PrimitiveType::I16 => 2,
        PrimitiveType::I32 => 3,
        PrimitiveType::I64 => 4,
        PrimitiveType::U8 => 5,
        PrimitiveType::U16 => 6,
        PrimitiveType::U32 => 7,
        PrimitiveType::U64 => 8,
        PrimitiveType::F32 => 9,
        PrimitiveType::F64 => 10,
        PrimitiveType::Bool => 11,
        PrimitiveType::Byte => 12,
        PrimitiveType::String => 13,
    }
}

/// The primitive at position `i` in declaration order.
pub open spec fn prim_at(i: int) -> PrimitiveType {
    if i == 0 { PrimitiveType::Void }
    else if i == 1 { PrimitiveType::I8 }
    else if i == 2 { PrimitiveType::I16 }
    else if i == 3 { PrimitiveType::I32 }
    else if i == 4 { PrimitiveType::I64 }
    else if i == 5 { PrimitiveType::U8 }
    else if i == 6 { PrimitiveType::U16 }
    else if i == 7 { PrimitiveType::U32 }
    else if i == 8 { PrimitiveType::U64 }
    else if i == 9 { PrimitiveType::F32 }
    else if i == 10 { PrimitiveType::F64 }
    else if i == 11 { PrimitiveType::Bool }
    else if i == 12 { PrimitiveType::Byte }
    else { PrimitiveType::String }
}

pub proof fn lemma_prim_index(p: PrimitiveType)
    ensures
        prim_index(p) < NUM_PRIMITIVES,
        prim_at(prim_index(p) as int) == p,
{
}

pub open spec fn spec_is_int(p: PrimitiveType) -> bool {
    p == PrimitiveType::I8 || p == PrimitiveType::I16 || p == PrimitiveType::I32 || p == PrimitiveType::I64
}

pub open spec fn spec_is_uint(p: PrimitiveType) -> bool {
    p == PrimitiveType::U8 || p == PrimitiveType::U16 || p == PrimitiveType::U32 || p == PrimitiveType::U64
}

pub open spec fn spec_is_float(p: PrimitiveType) -> bool {
    p == PrimitiveType::F32 || p == PrimitiveType::F64
}

/// The size of a value of the primitive, in bytes.
pub open spec fn spec_bytes(p: PrimitiveType) -> usize {
    match p {
        PrimitiveType::Void => 0,
        PrimitiveType::I8 | PrimitiveType::U8 | PrimitiveType::Bool | PrimitiveType::Byte => 1,
        PrimitiveType::I16 | PrimitiveType::U16 => 2,
        PrimitiveType::I32 | PrimitiveType::U32 | PrimitiveType::F32 => 4,
        PrimitiveType::I64 | PrimitiveType::U64 | PrimitiveType::F64 | PrimitiveType::String => 8,
    }
}

/// The name of the primitive, as written in Koi.
pub open spec fn prim_name(p: PrimitiveType) -> Seq<char> {
    match p {
        PrimitiveType::Void => "void"@,
        PrimitiveType::I8 => "i8"@,
        PrimitiveType::I16 => "i16"@,
        PrimitiveType::I32 => "i32"@,
        PrimitiveType::I64 => "i64"@,
        PrimitiveType::U8 => "u8"@,
        PrimitiveType::U16 => "u16"@,
        PrimitiveType::U32 => "u32"@,
        PrimitiveType::U64 => "u64"@,
        PrimitiveType::F32 => "f32"@,
        PrimitiveType::F64 => "f64"@,
        PrimitiveType::Bool => "bool"@,
        PrimitiveType::Byte => "byte"@,
        PrimitiveType::String => "string"@,
    }
}

impl PrimitiveType {
    pub fn is_int(&self) -> (r: bool)
        ensures
            r == spec_is_int(*self),
    {
        matches!(self, PrimitiveType::I8 | PrimitiveType::I16 | PrimitiveType::I32 | PrimitiveType::I64)
    }

    pub fn is_uint(&self) -> (r: bool)
        ensures
            r == spec_is_uint(*self),
    {
        matches!(self, PrimitiveType::U8 | PrimitiveType::U16 | PrimitiveType::U32 | PrimitiveType::U64)
    }

    pub fn is_float(&self) -> (r: bool)
        ensures
            r == spec_is_float(*self),
    {
        matches!(self, PrimitiveType::F32 | PrimitiveType::F64)
    }

    pub fn bytes(&self) -> (r: usize)
        ensures
            r == spec_bytes(*self),
    {
        match self {
            PrimitiveType::Void => 0,
            PrimitiveType::I8 | PrimitiveType::U8 | PrimitiveType::Bool | PrimitiveType::Byte => 1,
            PrimitiveType::I16 | PrimitiveType::U16 => 2,
            PrimitiveType::I32 | PrimitiveType::U32 | PrimitiveType::F32 => 4,
            PrimitiveType::I64 | PrimitiveType::U64 | PrimitiveType::F64 | PrimitiveType::String => 8,
        }
    }

    /// The name of the primitive, as written in Koi.
    pub fn name(&self) -> (r: &'static str)
        ensures
            r@ == prim_name(*self),
    {
        match self {
            PrimitiveType::Void => "void",
            PrimitiveType::I8 => "i8",
            PrimitiveType::I16 => "i16",
            PrimitiveType::I32 => "i32",
            PrimitiveType::I64 => "i64",
            PrimitiveType::U8 => "u8",
            PrimitiveType::U16 => "u16",
            PrimitiveType::U32 => "u32",
            PrimitiveType::U64 => "u64",
            PrimitiveType::F32 => "f32",
            PrimitiveType::F64 => "f64",
            PrimitiveType::Bool => "bool",
            PrimitiveType::Byte => "byte",
            PrimitiveType::String => "string",
        }
    }

    /// The position of the primitive in declaration order, which is also its
    /// type id in every type interner.
    pub fn index(&self) -> (r: usize)
        ensures
            r == prim_index(*self),
    {
        match self {
            PrimitiveType::Void => 0,
            PrimitiveType::I8 => 1,
            PrimitiveType::I16 => 2,
            PrimitiveType::I32 => 3,
            PrimitiveType::I64 => 4,
            PrimitiveType::U8 => 5,
            PrimitiveType::U16 => 6,
            PrimitiveType::U32 => 7,
            PrimitiveType::U64 => 8,
            PrimitiveType::F32 => 9,
            PrimitiveType::F64 => 10,
            PrimitiveType::Bool => 11,
            PrimitiveType::Byte => 12,
            PrimitiveType::String => 13,
        }
    }

    /// The primitive at position `i` in declaration order.
    pub fn from_index(i: usize) -> (r: PrimitiveType)
        requires
            i < NUM_PRIMITIVES,
        ensures
            r == prim_at(i as int),
            prim_index(r) == i,
    {
        match i {
            0 => PrimitiveType::Void,
            1 => PrimitiveType::I8,
            2 => PrimitiveType::I16,
            3 => PrimitiveType::I32,
            4 => PrimitiveType::I64,
            5 => PrimitiveType::U8,
            6 => PrimitiveType::U16,
            7 => PrimitiveType::U32,
            8 => PrimitiveType::U64,
            9 => PrimitiveType::F32,
            10 => PrimitiveType::F64,
            11 => PrimitiveType::Bool,
            12 => PrimitiveType::Byte,
            _ => PrimitiveType::String,
        }
    }
}

/// The type of a function: its parameter types and its return type.
#[derive(Debug)]
pub struct FunctionType {
    pub params: Vec<TypeId>,
    pub ret: TypeId,
}

impl FunctionType {
    pub fn clone(&self) -> (r: FunctionType)
        ensures
            r.params@ == self.params@,
            r.ret == self.ret,
    {
        FunctionType { params: self.params.clone(), ret: self.ret }
    }
}

/// What a type is.
#[derive(Debug)]
pub enum TypeKind {
    Primitive(PrimitiveType),
    Array(TypeId),
    Pointer(TypeId),
    /// Refers to another type definition.
    Alias(TypeId),
    /// A distinct nominal type with its name and underlying type.
    Unique(String, TypeId),
    Function(FunctionType),
}

/// Two kinds describe the same type.
pub open spec fn spec_kind_eq(a: TypeKind, b: TypeKind) -> bool {
    match (a, b) {
        (TypeKind::Primitive(x), TypeKind::Primitive(y)) => x == y,
        (TypeKind::Array(x), TypeKind::Array(y)) => x == y,
        (TypeKind::Pointer(x), TypeKind::Pointer(y)) => x == y,
        (TypeKind::Alias(x), TypeKind::Alias(y)) => x == y,
        (TypeKind::Unique(n, x), TypeKind::Unique(m, y)) => n@ == m@ && x == y,
        (TypeKind::Function(f), TypeKind::Function(g)) => f.params@ == g.params@ && f.ret == g.ret,
        _ => false,
    }
}

/// Every type id that the kind refers to is below `n`.
pub open spec fn kind_refs_below(k: TypeKind, n: int) -> bool {
    match k {
        TypeKind::Primitive(_) => true,
        TypeKind::Array(x) | TypeKind::Pointer(x) | TypeKind::Alias(x) => x < n,
        TypeKind::Unique(_, x) => x < n,
        TypeKind::Function(f) => f.ret < n && forall|i: int| 0 <= i < f.params@.len() ==> f.params@[i] < n,
    }
}

impl TypeKind {
    pub fn clone(&self) -> (r: TypeKind)
        ensures
            spec_kind_eq(r, *self),
            forall|n: int| kind_refs_below(*self, n) ==> kind_refs_below(r, n),
    {
        match self {
            TypeKind::Primitive(p) => TypeKind::Primitive(*p),
            TypeKind::Array(x) => TypeKind::Array(*x),
            TypeKind::Pointer(x) => TypeKind::Pointer(*x),
            TypeKind::Alias(x) => TypeKind::Alias(*x),
            TypeKind::Unique(n, x) => TypeKind::Unique(n.clone(), *x),
            TypeKind::Function(f) => TypeKind::Function(f.clone()),
        }
    }

    /// Do the two kinds describe the same type?
    pub fn equals(&self, other: &TypeKind) -> (r: bool)
        ensures
            r == spec_kind_eq(*self, *other),
    {
        match (self, other) {
            (TypeKind::Primitive(x), TypeKind::Primitive(y)) => *x == *y,
            (TypeKind::Array(x), TypeKind::Array(y)) => *x == *y,
            (TypeKind::Pointer(x), TypeKind::Pointer(y)) => *x == *y,
            (TypeKind::Alias(x), TypeKind::Alias(y)) => *x == *y,
            (TypeKind::Unique(n, x), TypeKind::Unique(m, y)) => *x == *y && crate::common::text::str_eq(n.as_str(), m.as_str()),
            (TypeKind::Function(f), TypeKind::Function(g)) => f.ret == g.ret && ids_equal(&f.params, &g.params),
            _ => false,
        }
    }
}

fn ids_equal(a: &Vec<TypeId>, b: &Vec<TypeId>) -> (r: bool)
    ensures
        r == (a@ == b@),
{
    if a.len() != b.len() {
        return false;
    }
    let mut i: usize = 0;
    while i < a.len()
        invariant
            a@.len() == b@.len(),
            i <= a@.len(),
            forall|j: int| 0 <= j < i ==> a@[j] == b@[j],
        decreases a@.len() - i,
    {
        if a[i] != b[i] {
            return false;
        }
        i = i + 1;
    }
    assert(a@ =~= b@);
    true
}

/// A type and its id.
#[derive(Debug)]
pub struct Type {
    pub kind: TypeKind,
    pub id: TypeId,
}

} // verus!
