use vstd::prelude::*;

use crate::common::text::{decimal, push_str, push_u64};

verus! {

/// The machine types of the intermediate representation. A function type
/// names its parameter and return types by their ids in the unit's interner.
#[derive(Debug)]
pub enum IRType {
    Primitive(Primitive),
    Function(Vec<IRTypeId>, IRTypeId),
}

/// Do the two types name the same type?
pub open spec fn ir_eq(a: IRType, b: IRType) -> bool {
    match (a, b) {
        (IRType::Primitive(x), IRType::Primitive(y)) => x == y,
        (IRType::Function(pa, ra), IRType::Function(pb, rb)) => pa@ == pb@ && ra == rb,
        _ => false,
    }
}

/// The ids a type refers to are all below `n`.
pub open spec fn ir_refs_below(t: IRType, n: int) -> bool {
    match t {
        IRType::Primitive(_) => true,
        IRType::Function(ps, r) => r < n && forall|i: int| 0 <= i < ps@.len() ==> #[trigger] ps@[i] < n,
    }
}

#[derive(Debug, Clone, Copy, PartialEq, Eq, Structural)]
pub enum Primitive {
    Void,
    F32,
    F64,
    U8,
    U16,
    U32,
    U64,
    I8,
    I16,
    I32,
    I64,
    String,
}

pub type IRTypeId = usize;

/// The size of a pointer, in bytes.
pub const PTR_SIZE: usize = 8;

/// The size of a value of the type, in bytes.
pub open spec fn ir_size(t: IRType) -> usize {
    match t {
        IRType::Primitive(p) => match p {
            Primitive::Void => 0,
            Primitive::U8 | Primitive::I8 => 1,
            Primitive::U16 | Primitive::I16 => 2,
            Primitive::F32 | Primitive::I32 | Primitive::U32 => 4,
            Primitive::F64 | Primitive::U64 | Primitive::I64 | Primitive::String => PTR_SIZE,
        },
        IRType::Function(_, _) => 8,
    }
}

/// The name of a primitive, in lower case.
pub open spec fn primitive_name(p: Primitive) -> Seq<char> {
    match p {
        Primitive::Void => "void"@,
        Primitive::F32 => "f32"@,
        Primitive::F64 => "f64"@,
        Primitive::U8 => "u8"@,
        Primitive::U16 => "u16"@,
        Primitive::U32 => "u32"@,
        Primitive::U64 => "u64"@,
        Primitive::I8 => "i8"@,
        Primitive::I16 => "i16"@,
        Primitive::I32 => "i32"@,
        Primitive::I64 => "i64"@,
        Primitive::String => "string"@,
    }
}

impl Primitive {
    pub fn name(&self) -> (r: &'static str)
        ensures
            r@ == primitive_name(*self),
    {
        match self {
            Primitive::Void => "void",
            Primitive::F32 => "f32",
            Primitive::F64 => "f64",
            Primitive::U8 => "u8",
            Primitive::U16 => "u16",
            Primitive::U32 => "u32",
            Primitive::U64 => "u64",
            Primitive::I8 => "i8",
            Primitive::I16 => "i16",
            Primitive::I32 => "i32",
            Primitive::I64 => "i64",
            Primitive::String => "string",
        }
    }
}

/// The written form of the type with id `id`: the primitive's name, or
/// `func(<params joined by ", ">)-><ret>`.
/// The first `n` lines of a dump of the types: id, arrow, written form.
pub open spec fn ir_dump_lines(types: Seq<IRType>, n: nat) -> Seq<char>
    decreases n,
{
    if n == 0 {
        Seq::empty()
    } else {
        ir_dump_lines(types, (n - 1) as nat) + decimal((n - 1) as nat) + " -> "@ + ir_text(types, n - 1) + "\n"@
    }
}

pub open spec fn ir_text(types: Seq<IRType>, id: int) -> Seq<char>
    decreases id, 1int,
{
    if 0 <= id < types.len() {
        match types[id] {
            IRType::Primitive(p) => primitive_name(p),
            IRType::Function(ps, r) => if ir_refs_below(types[id], id) {
                "func("@ + ir_list_text(types, ps@, ps@.len() as int, id) + ")->"@ + ir_text(types, r as int)
            } else {
                Seq::empty()
            },
        }
    } else {
        Seq::empty()
    }
}

pub open spec fn ir_list_text(types: Seq<IRType>, ps: Seq<IRTypeId>, n: int, bound: int) -> Seq<char>
    decreases bound, 0int, n,
{
    if n <= 0 || n > ps.len() {
        Seq::empty()
    } else if !(ps[n - 1] < bound) {
        Seq::empty()
    } else if n == 1 {
        ir_text(types, ps[0] as int)
    } else {
        ir_list_text(types, ps, n - 1, bound) + ", "@ + ir_text(types, ps[n - 1] as int)
    }
}

impl IRType {
    pub fn size(&self) -> (r: usize)
        ensures
            r == ir_size(*self),
    {
        match self {
            IRType::Primitive(p) => match p {
                Primitive::Void => 0,
                Primitive::U8 | Primitive::I8 => 1,
                Primitive::U16 | Primitive::I16 => 2,
                Primitive::F32 | Primitive::I32 | Primitive::U32 => 4,
                Primitive::F64 | Primitive::U64 | Primitive::I64 | Primitive::String => PTR_SIZE,
            },
            IRType::Function(_, _) => 8,
        }
    }

    /// Are the two types the same?
    pub fn same(&self, other: &IRType) -> (r: bool)
        ensures
            r == ir_eq(*self, *other),
    {
        match self {
            IRType::Primitive(a) => match other {
                IRType::Primitive(b) => *a == *b,
                _ => false,
            },
            IRType::Function(pa, ra) => match other {
                IRType::Primitive(_) => false,
                IRType::Function(pb, rb) => {
                if *ra != *rb || pa.len() != pb.len() {
                    return false;
                }
                let mut i: usize = 0;
                while i < pa.len()
                    invariant
                        *self == IRType::Function(*pa, *ra),
                        *other == IRType::Function(*pb, *rb),
                        *ra == *rb,
                        i <= pa@.len(),
                        pa@.len() == pb@.len(),
                        forall|j: int| 0 <= j < i ==> pa@[j] == pb@[j],
                    decreases pa@.len() - i,
                {
                    if pa[i] != pb[i] {
                        assert(pa@[i as int] != pb@[i as int]);
                        assert(pa@ != pb@);
                        return false;
                    }
                    i = i + 1;
                }
                assert(pa@ =~= pb@);
                true
            },
            },
        }
    }
}

/// The types of a unit, each stored once and known by its position.
pub struct IRTypeInterner {
    types: Vec<IRType>,
}

impl IRTypeInterner {
    pub closed spec fn view(&self) -> Seq<IRType> {
        self.types@
    }

    /// No type is stored twice, and a type refers only to types before it.
    pub closed spec fn wf(&self) -> bool {
        &&& forall|i: int, j: int| 0 <= i < j < self.types@.len() ==> !ir_eq(self.types@[i], self.types@[j])
        &&& forall|i: int| 0 <= i < self.types@.len() ==> ir_refs_below(#[trigger] self.types@[i], i)
    }

    /// Interning is canonical: no two ids of a well-formed interner name the
    /// same type.
    pub proof fn law_interning_is_canonical(&self, i: int, j: int)
        requires
            self.wf(),
            0 <= i < self@.len(),
            0 <= j < self@.len(),
            ir_eq(self@[i], self@[j]),
        ensures
            i == j,
    {
        if i < j {
            assert(!ir_eq(self.types@[i], self.types@[j]));
        } else if j < i {
            assert(!ir_eq(self.types@[j], self.types@[i]));
        }
    }

    pub fn new() -> (r: Self)
        ensures
            r.wf(),
            r@ == Seq::<IRType>::empty(),
    {
        IRTypeInterner { types: Vec::new() }
    }

    pub fn len(&self) -> (n: usize)
        ensures
            n == self@.len(),
    {
        self.types.len()
    }

    /// The id of `ty`: its position when stored, else the position at which
    /// it is added.
    pub fn get_or_intern(&mut self, ty: IRType) -> (id: IRTypeId)
        requires
            old(self).wf(),
            ir_refs_below(ty, old(self)@.len() as int),
        ensures
            final(self).wf(),
            id < final(self)@.len(),
            ir_eq(final(self)@[id as int], ty),
            old(self)@.is_prefix_of(final(self)@),
            final(self)@.len() <= old(self)@.len() + 1,
            (exists|j: int| 0 <= j < old(self)@.len() && #[trigger] ir_eq(old(self)@[j], ty)) ==> final(self)@
                == old(self)@ && id < old(self)@.len(),
            !(exists|j: int| 0 <= j < old(self)@.len() && #[trigger] ir_eq(old(self)@[j], ty)) ==> id
                == old(self)@.len() && final(self)@ == old(self)@.push(ty),
    {
        let mut i: usize = 0;
        while i < self.types.len()
            invariant
                self.wf(),
                self@ == old(self)@,
                i <= self@.len(),
                forall|j: int| 0 <= j < i ==> !ir_eq(self@[j], ty),
            decreases self@.len() - i,
        {
            if self.types[i].same(&ty) {
                assert(old(self)@.is_prefix_of(self@));
                return i;
            }
            i = i + 1;
        }
        let id = self.types.len();
        let ghost t = ty;
        self.types.push(ty);
        proof {
            assert forall|a: int, b: int| 0 <= a < b < self.types@.len() implies !ir_eq(self.types@[a], self.types@[b]) by {
                if b == id {
                    assert(self.types@[a] == old(self)@[a]);
                    assert(!ir_eq(old(self)@[a], t));
                    match (self.types@[a], t) {
                        (IRType::Function(pa, ra), IRType::Function(pb, rb)) => {},
                        _ => {},
                    }
                }
            }
            assert(old(self)@.is_prefix_of(self@));
            assert(ir_eq(t, t));
        }
        id
    }

    /// One line for each type: its id, an arrow and its written form.
    pub fn dump(&self) -> (s: String)
        requires
            self.wf(),
        ensures
            s@ == ir_dump_lines(self@, self@.len()),
    {
        let mut s = String::new();
        let mut i: usize = 0;
        while i < self.types.len()
            invariant
                self.wf(),
                i <= self@.len(),
                s@ == ir_dump_lines(self@, i as nat),
            decreases self.types@.len() - i,
        {
            push_u64(&mut s, i as u64);
            push_str(&mut s, " -> ");
            let t = self.type_to_string(i);
            push_str(&mut s, t.as_str());
            push_str(&mut s, "\n");
            assert(s@ =~= ir_dump_lines(self@, (i + 1) as nat));
            i = i + 1;
        }
        s
    }

    /// The written form of the type with id `id`.
    pub fn type_to_string(&self, id: IRTypeId) -> (r: String)
        requires
            self.wf(),
        ensures
            r@ == ir_text(self@, id as int),
        decreases id,
    {
        if id >= self.types.len() {
            return String::new();
        }
        match &self.types[id] {
            IRType::Primitive(p) => String::from_str(p.name()),
            IRType::Function(ps, ret) => {
                proof {
                    assert(ir_refs_below(self.types@[id as int], id as int));
                }
                assert(forall|j: int| 0 <= j < ps@.len() ==> #[trigger] ps@[j] < id);
                let mut s = String::from_str("func(");
                let mut i: usize = 0;
                while i < ps.len()
                    invariant
                        self.wf(),
                        id < self@.len(),
                        self@[id as int] == IRType::Function(*ps, *ret),
                        forall|j: int| 0 <= j < ps@.len() ==> #[trigger] ps@[j] < id,
                        i <= ps@.len(),
                        s@ == "func("@ + ir_list_text(self@, ps@, i as int, id as int),
                    decreases ps@.len() - i,
                {
                    assert(ps@[i as int] < id);
                    if i > 0 {
                        push_str(&mut s, ", ");
                    }
                    let t = self.type_to_string(ps[i]);
                    push_str(&mut s, t.as_str());
                    assert(s@ =~= "func("@ + ir_list_text(self@, ps@, i + 1, id as int));
                    i = i + 1;
                }
                push_str(&mut s, ")->");
                assert(ir_refs_below(self@[id as int], id as int));
                let r = self.type_to_string(*ret);
                push_str(&mut s, r.as_str());
                assert(s@ =~= ir_text(self@, id as int));
                s
            },
        }
    }

    pub fn sizeof(&self, id: IRTypeId) -> (r: usize)
        requires
            id < self@.len(),
        ensures
            r == ir_size(self@[id as int]),
    {
        self.types[id].size()
    }

    pub fn get(&self, id: IRTypeId) -> (r: &IRType)
        requires
            id < self@.len(),
        ensures
            *r == self@[id as int],
    {
        &self.types[id]
    }
}

} // verus!
