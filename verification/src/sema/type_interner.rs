use vstd::prelude::*;

use crate::common::text::{push_str, push_u64, push_u64_padded3, decimal, pad_right};
use crate::sema::types::{
    kind_refs_below, lemma_prim_index, prim_at, prim_index, prim_name, spec_is_float, spec_is_int,
    spec_is_uint, spec_kind_eq, FunctionType, PrimitiveType, Type, TypeId, TypeKind, NUM_PRIMITIVES,
};

verus! {

/// The type a chain of aliases ends in.
pub open spec fn spec_resolve(kinds: Seq<TypeKind>, id: int) -> int
    decreases id,
{
    if id < 0 || id >= kinds.len() {
        id
    } else {
        match kinds[id] {
            TypeKind::Alias(t) => if t < id { spec_resolve(kinds, t as int) } else { id },
            _ => id,
        }
    }
}

/// The type a chain of aliases and unique types ends in.
pub open spec fn spec_inner_kind(kinds: Seq<TypeKind>, id: int) -> int
    decreases id,
{
    if id < 0 || id >= kinds.len() {
        id
    } else {
        match kinds[id] {
            TypeKind::Alias(t) => if t < id { spec_inner_kind(kinds, t as int) } else { id },
            TypeKind::Unique(_, t) => if t < id { spec_inner_kind(kinds, t as int) } else { id },
            _ => id,
        }
    }
}

/// Removes one alias or unique wrapper, then every alias.
pub open spec fn spec_deep_resolve(kinds: Seq<TypeKind>, id: int) -> int {
    if id < 0 || id >= kinds.len() {
        id
    } else {
        match kinds[id] {
            TypeKind::Alias(t) => spec_resolve(kinds, t as int),
            TypeKind::Unique(_, t) => spec_resolve(kinds, t as int),
            _ => id,
        }
    }
}

/// The written form of a type: primitives by name, arrays as `[]T`,
/// pointers as `*T`, aliases as their target, unique types by name and
/// functions as `func (P, ...) R`.
pub open spec fn type_text(kinds: Seq<TypeKind>, id: int) -> Seq<char>
    decreases id + 1, 0int,
{
    if id < 0 || id >= kinds.len() {
        Seq::empty()
    } else {
        match kinds[id] {
            TypeKind::Primitive(p) => prim_name(p),
            TypeKind::Array(t) => if t < id { "[]"@ + type_text(kinds, t as int) } else { Seq::empty() },
            TypeKind::Pointer(t) => if t < id { "*"@ + type_text(kinds, t as int) } else { Seq::empty() },
            TypeKind::Alias(t) => if t < id { type_text(kinds, t as int) } else { Seq::empty() },
            TypeKind::Unique(name, _) => name@,
            TypeKind::Function(f) => "func ("@ + types_text(kinds, f.params@, id) + ") "@
                + if f.ret < id { type_text(kinds, f.ret as int) } else { Seq::empty() },
        }
    }
}

/// The written forms of the types `ids`, separated by `, `; ids at or
/// above `limit` are left empty.
pub open spec fn types_text(kinds: Seq<TypeKind>, ids: Seq<TypeId>, limit: int) -> Seq<char>
    decreases limit, ids.len(),
{
    if ids.len() == 0 {
        Seq::empty()
    } else {
        let last = if ids.last() < limit { type_text(kinds, ids.last() as int) } else { Seq::empty() };
        if ids.len() == 1 {
            last
        } else {
            types_text(kinds, ids.drop_last(), limit) + ", "@ + last
        }
    }
}

/// Stores every type once and gives each its id, which is its position.
/// The primitives come first, in declaration order.
/// Resolving aliases twice gives what resolving once gives.
pub proof fn law_resolve_idempotent(kinds: Seq<TypeKind>, id: int)
    ensures
        spec_resolve(kinds, spec_resolve(kinds, id)) == spec_resolve(kinds, id),
    decreases id,
{
    if 0 <= id < kinds.len() {
        if let TypeKind::Alias(t) = kinds[id] {
            if t < id {
                law_resolve_idempotent(kinds, t as int);
            }
        }
    }
}

/// Following aliases and unique types twice gives what following them once
/// gives.
pub proof fn law_inner_kind_idempotent(kinds: Seq<TypeKind>, id: int)
    ensures
        spec_inner_kind(kinds, spec_inner_kind(kinds, id)) == spec_inner_kind(kinds, id),
    decreases id,
{
    if 0 <= id < kinds.len() {
        match kinds[id] {
            TypeKind::Alias(t) => if t < id {
                law_inner_kind_idempotent(kinds, t as int);
            },
            TypeKind::Unique(_, t) => if t < id {
                law_inner_kind_idempotent(kinds, t as int);
            },
            _ => {},
        }
    }
}

/// Resolving never leaves the interner: a type id resolves to a type id.
pub proof fn law_resolve_in_range(kinds: Seq<TypeKind>, id: int)
    requires
        0 <= id < kinds.len(),
    ensures
        0 <= spec_resolve(kinds, id) <= id,
    decreases id,
{
    if let TypeKind::Alias(t) = kinds[id] {
        if t < id {
            law_resolve_in_range(kinds, t as int);
        }
    }
}

/// The types a type kind refers to directly, in order: the element or
/// target type, or the parameter types followed by the return type.
pub open spec fn kind_refs(k: TypeKind) -> Seq<TypeId> {
    match k {
        TypeKind::Primitive(_) => Seq::empty(),
        TypeKind::Array(x) | TypeKind::Pointer(x) | TypeKind::Alias(x) => seq![x],
        TypeKind::Unique(_, x) => seq![x],
        TypeKind::Function(f) => f.params@.push(f.ret),
    }
}

/// Whether `path` follows references: each of its types refers to the next.
pub open spec fn is_ref_path(kinds: Seq<TypeKind>, path: Seq<int>) -> bool {
    &&& path.len() >= 1
    &&& forall|i: int|
        0 <= i < path.len() - 1 ==> 0 <= #[trigger] path[i] < kinds.len() && kind_refs(kinds[path[i]]).contains(
            path[i + 1] as TypeId,
        )
}

/// Whether type `b` can be reached from type `a` by following references.
pub open spec fn reaches(kinds: Seq<TypeKind>, a: int, b: int) -> bool {
    exists|path: Seq<int>| #[trigger] is_ref_path(kinds, path) && path[0] == a && path.last() == b
}

/// A type reached from `a` reaches, in one more step, each type it refers to.
pub proof fn lemma_reaches_step(kinds: Seq<TypeKind>, a: int, b: int, c: int)
    requires
        reaches(kinds, a, b),
        0 <= b < kinds.len(),
        kind_refs(kinds[b]).contains(c as TypeId),
        c >= 0,
    ensures
        reaches(kinds, a, c),
{
    let path = choose|path: Seq<int>| #[trigger] is_ref_path(kinds, path) && path[0] == a && path.last() == b;
    let longer = path.push(c);
    assert forall|i: int| 0 <= i < longer.len() - 1 implies 0 <= #[trigger] longer[i] < kinds.len()
        && kind_refs(kinds[longer[i]]).contains(longer[i + 1] as TypeId) by {
        if i < path.len() - 1 {
            assert(longer[i] == path[i] && longer[i + 1] == path[i + 1]);
        } else {
            assert(longer[i] == b && longer[i + 1] == c);
        }
    }
    assert(is_ref_path(kinds, longer));
}

pub struct TypeInterner {
    types: Vec<Type>,
}

impl TypeInterner {
    /// The kind of each type, by id.
    pub closed spec fn kinds(&self) -> Seq<TypeKind> {
        self.types@.map_values(|t: Type| t.kind)
    }

    pub closed spec fn wf(&self) -> bool {
        &&& self.types@.len() >= NUM_PRIMITIVES
        &&& self.types@.len() < usize::MAX
        &&& forall|i: int| 0 <= i < self.types@.len() ==> (#[trigger] self.types@[i]).id == i
        &&& forall|i: int| 0 <= i < self.types@.len() ==> kind_refs_below(#[trigger] self.types@[i].kind, i)
        &&& forall|i: int, j: int| 0 <= i < j < self.types@.len() ==> !spec_kind_eq(self.types@[i].kind, self.types@[j].kind)
        &&& forall|i: int| 0 <= i < NUM_PRIMITIVES ==> (#[trigger] self.types@[i]).kind == TypeKind::Primitive(prim_at(i))
    }

    /// Interning is canonical: no two ids of a well-formed interner describe
    /// the same type, so interning a type that is present gives back its id.
    pub proof fn law_interning_is_canonical(&self, i: int, j: int)
        requires
            self.wf(),
            0 <= i < self.kinds().len(),
            0 <= j < self.kinds().len(),
            spec_kind_eq(self.kinds()[i], self.kinds()[j]),
        ensures
            i == j,
    {
        if i < j {
            assert(!spec_kind_eq(self.types@[i].kind, self.types@[j].kind));
        } else if j < i {
            assert(!spec_kind_eq(self.types@[j].kind, self.types@[i].kind));
            lemma_kind_eq_symmetric(self.kinds()[j], self.kinds()[i]);
        }
    }

    /// The laws of a well-formed interner, stated over `kinds()`.
    pub proof fn lemma_wf(&self)
        requires
            self.wf(),
        ensures
            self.kinds().len() >= NUM_PRIMITIVES,
            self.kinds().len() < usize::MAX,
            forall|i: int| 0 <= i < self.kinds().len() ==> kind_refs_below(#[trigger] self.kinds()[i], i),
            forall|i: int, j: int| 0 <= i < j < self.kinds().len() ==> !spec_kind_eq(self.kinds()[i], self.kinds()[j]),
            forall|i: int| 0 <= i < NUM_PRIMITIVES ==> #[trigger] self.kinds()[i] == TypeKind::Primitive(prim_at(i)),
    {
    }

    pub fn new() -> (r: Self)
        ensures
            r.wf(),
            r.kinds().len() == NUM_PRIMITIVES,
    {
        let mut types: Vec<Type> = Vec::new();
        let mut i: usize = 0;
        while i < NUM_PRIMITIVES
            invariant
                i <= NUM_PRIMITIVES,
                types@.len() == i,
                forall|j: int| 0 <= j < i ==> (#[trigger] types@[j]).id == j && types@[j].kind == TypeKind::Primitive(prim_at(j)),
            decreases NUM_PRIMITIVES - i,
        {
            let p = PrimitiveType::from_index(i);
            types.push(Type { kind: TypeKind::Primitive(p), id: i });
            i = i + 1;
        }
        let r = TypeInterner { types };
        assert forall|a: int, b: int| 0 <= a < b < r.types@.len() implies !spec_kind_eq(r.types@[a].kind, r.types@[b].kind) by {
            lemma_prim_at_injective(a, b);
        }
        r
    }

    /// The number of types.
    pub fn len(&self) -> (n: usize)
        ensures
            n == self.kinds().len(),
    {
        self.types.len()
    }

    /// The id of `kind`: its existing id when present, else a new one.
    pub fn get_or_intern(&mut self, kind: TypeKind) -> (id: TypeId)
        requires
            old(self).wf(),
            kind_refs_below(kind, old(self).kinds().len() as int),
            old(self).kinds().len() + 1 < usize::MAX,
        ensures
            final(self).wf(),
            id < final(self).kinds().len(),
            spec_kind_eq(final(self).kinds()[id as int], kind),
            old(self).kinds().is_prefix_of(final(self).kinds()),
            (exists|i: int| 0 <= i < old(self).kinds().len() && spec_kind_eq(old(self).kinds()[i], kind))
                ==> final(self).kinds() == old(self).kinds() && id < old(self).kinds().len(),
            !(exists|i: int| 0 <= i < old(self).kinds().len() && spec_kind_eq(old(self).kinds()[i], kind))
                ==> final(self).kinds() == old(self).kinds().push(kind) && id == old(self).kinds().len(),
    {
        let mut i: usize = 0;
        while i < self.types.len()
            invariant
                self.wf(),
                self == old(self),
                i <= self.types@.len(),
                forall|j: int| 0 <= j < i ==> !spec_kind_eq(self.types@[j].kind, kind),
            decreases self.types@.len() - i,
        {
            if self.types[i].kind.equals(&kind) {
                assert(self.kinds()[i as int] == self.types@[i as int].kind);
                return i;
            }
            i = i + 1;
        }
        proof {
            assert forall|j: int| 0 <= j < old(self).kinds().len() implies !spec_kind_eq(old(self).kinds()[j], kind) by {
                assert(old(self).kinds()[j] == self.types@[j].kind);
            }
        }
        self.intern(kind)
    }

    fn intern(&mut self, kind: TypeKind) -> (id: TypeId)
        requires
            old(self).wf(),
            kind_refs_below(kind, old(self).kinds().len() as int),
            old(self).kinds().len() + 1 < usize::MAX,
            forall|j: int| 0 <= j < old(self).kinds().len() ==> !spec_kind_eq(old(self).kinds()[j], kind),
        ensures
            final(self).wf(),
            id == old(self).kinds().len(),
            final(self).kinds() == old(self).kinds().push(kind),
    {
        let id = self.types.len();
        let ghost k = kind;
        self.types.push(Type { kind, id });
        proof {
            assert(self.kinds() =~= old(self).kinds().push(k));
            assert forall|a: int, b: int| 0 <= a < b < self.types@.len() implies !spec_kind_eq(self.types@[a].kind, self.types@[b].kind) by {
                if b == id {
                    assert(old(self).kinds()[a] == self.types@[a].kind);
                    lemma_kind_eq_symmetric(self.types@[a].kind, k);
                }
            }
        }
        id
    }

    /// The id of a primitive type: its position in declaration order.
    pub fn primitive(&self, kind: PrimitiveType) -> (id: TypeId)
        requires
            self.wf(),
        ensures
            id == prim_index(kind),
            id < self.kinds().len(),
            self.kinds()[id as int] == TypeKind::Primitive(kind),
    {
        proof {
            lemma_prim_index(kind);
            assert(self.types@[prim_index(kind) as int].kind == TypeKind::Primitive(kind));
        }
        kind.index()
    }

    /// The type of a primitive.
    pub fn primitive_type(&self, kind: PrimitiveType) -> (t: &Type)
        requires
            self.wf(),
        ensures
            t.id == prim_index(kind),
            t.kind == TypeKind::Primitive(kind),
    {
        let id = self.primitive(kind);
        self.lookup(id)
    }

    /// The type with the given id.
    pub fn lookup(&self, id: TypeId) -> (t: &Type)
        requires
            self.wf(),
            id < self.kinds().len(),
        ensures
            t.id == id,
            t.kind == self.kinds()[id as int],
    {
        &self.types[id]
    }

    /// The type with the given id, if there is one.
    pub fn get(&self, id: TypeId) -> (t: Option<&Type>)
        requires
            self.wf(),
        ensures
            t matches Some(t) ==> id < self.kinds().len() && t.id == id && t.kind == self.kinds()[id as int],
            t is None ==> id >= self.kinds().len(),
    {
        if id < self.types.len() {
            Some(&self.types[id])
        } else {
            None
        }
    }

    /// The function type with the given id, if it is one.
    pub fn try_function(&self, id: TypeId) -> (f: Option<&FunctionType>)
        requires
            self.wf(),
        ensures
            f matches Some(f) ==> id < self.kinds().len() && self.kinds()[id as int] == TypeKind::Function(*f),
            f is None ==> id >= self.kinds().len() || !(self.kinds()[id as int] is Function),
    {
        match self.get(id) {
            Some(t) => match &t.kind {
                TypeKind::Function(f) => Some(f),
                _ => None,
            },
            None => None,
        }
    }

    /// Follows aliases to the type they name. Unique types are kept.
    pub fn resolve(&self, id: TypeId) -> (r: TypeId)
        requires
            self.wf(),
            id < self.kinds().len(),
        ensures
            r == spec_resolve(self.kinds(), id as int),
            r < self.kinds().len(),
        decreases id,
    {
        match &self.lookup(id).kind {
            TypeKind::Alias(target) => self.resolve(*target),
            _ => id,
        }
    }

    /// Removes one alias or unique wrapper, then follows aliases.
    pub fn deep_resolve(&self, id: TypeId) -> (r: TypeId)
        requires
            self.wf(),
            id < self.kinds().len(),
        ensures
            r == spec_deep_resolve(self.kinds(), id as int),
            r < self.kinds().len(),
    {
        match &self.lookup(id).kind {
            TypeKind::Alias(target) => self.resolve(*target),
            TypeKind::Unique(_, target) => self.resolve(*target),
            _ => id,
        }
    }

    /// Follows aliases and unique types to the underlying type.
    pub fn inner_kind(&self, id: TypeId) -> (r: TypeId)
        requires
            self.wf(),
            id < self.kinds().len(),
        ensures
            r == spec_inner_kind(self.kinds(), id as int),
            r < self.kinds().len(),
            !(self.kinds()[r as int] is Alias) && !(self.kinds()[r as int] is Unique),
        decreases id,
    {
        match &self.lookup(id).kind {
            TypeKind::Alias(underlying) => self.inner_kind(*underlying),
            TypeKind::Unique(_, underlying) => self.inner_kind(*underlying),
            _ => id,
        }
    }

    /// Do the two types name the same type once aliases are followed?
    pub fn equivalent(&self, a: TypeId, b: TypeId) -> (r: bool)
        requires
            self.wf(),
            a < self.kinds().len(),
            b < self.kinds().len(),
        ensures
            r == (spec_resolve(self.kinds(), a as int) == spec_resolve(self.kinds(), b as int)),
    {
        self.resolve(a) == self.resolve(b)
    }

    /// Is the type one of the integer or float primitives?
    pub fn is_number(&self, id: TypeId) -> (r: bool)
        requires
            self.wf(),
        ensures
            r == (id < self.kinds().len() && (self.kinds()[id as int] matches TypeKind::Primitive(p)
                && (spec_is_int(p) || spec_is_uint(p) || spec_is_float(p)))),
    {
        proof {
            if id < self.kinds().len() {
                if let TypeKind::Primitive(p) = self.kinds()[id as int] {
                    if id >= NUM_PRIMITIVES {
                        lemma_prim_index(p);
                        assert(self.kinds()[prim_index(p) as int] == TypeKind::Primitive(p));
                        assert(spec_kind_eq(self.types@[prim_index(p) as int].kind, self.types@[id as int].kind));
                    }
                }
            }
        }
        id >= 1 && id <= 10
    }

    /// The id of `void`.
    pub fn void(&self) -> (id: TypeId)
        requires
            self.wf(),
        ensures
            id == prim_index(PrimitiveType::Void),
    {
        self.primitive(PrimitiveType::Void)
    }

    /// The type `void`.
    pub fn void_type(&self) -> (t: Type)
        requires
            self.wf(),
        ensures
            t.kind == TypeKind::Primitive(PrimitiveType::Void),
            t.id == prim_index(PrimitiveType::Void),
    {
        Type { kind: TypeKind::Primitive(PrimitiveType::Void), id: self.primitive(PrimitiveType::Void) }
    }

    /// The types a type refers to directly, and their own references in turn:
    /// every type reachable from `ty`, itself included, in increasing order.
    pub fn get_all_references(&self, ty: TypeId) -> (r: Vec<TypeId>)
        requires
            self.wf(),
            ty < self.kinds().len(),
        ensures
            r@.contains(ty),
            forall|i: int| 0 <= i < r@.len() ==> r@[i] < self.kinds().len(),
            forall|i: int, j: int| 0 <= i < j < r@.len() ==> r@[i] < r@[j],
            forall|i: int, k: int| 0 <= i < r@.len() && 0 <= k < kind_refs(self.kinds()[r@[i] as int]).len()
                ==> r@.contains(#[trigger] kind_refs(self.kinds()[r@[i] as int])[k]),
            forall|i: int| 0 <= i < r@.len() ==> reaches(self.kinds(), ty as int, #[trigger] r@[i] as int),
    {
        let n = self.types.len();
        let mut mark: Vec<bool> = Vec::new();
        let mut k: usize = 0;
        while k < n
            invariant
                k <= n,
                n == self.types@.len(),
                mark@.len() == k,
                forall|j: int| 0 <= j < k ==> !mark@[j],
            decreases n - k,
        {
            mark.push(false);
            k = k + 1;
        }
        mark.set(ty, true);
        assert(is_ref_path(self.kinds(), seq![ty as int]));
        assert(reaches(self.kinds(), ty as int, ty as int));
        let mut i: usize = ty + 1;
        while i > 0
            invariant
                self.wf(),
                n == self.types@.len(),
                n == self.kinds().len(),
                ty < n,
                i <= ty + 1,
                mark@.len() == n,
                mark@[ty as int],
                forall|j: int| 0 <= j < n && mark@[j] ==> j <= ty,
                forall|j: int| 0 <= j < n && #[trigger] mark@[j] ==> reaches(self.kinds(), ty as int, j),
                forall|j: int, m: int| i <= j < n && mark@[j] && 0 <= m < kind_refs(self.kinds()[j]).len()
                    ==> mark@[#[trigger] kind_refs(self.kinds()[j])[m] as int],
            decreases i,
        {
            let cur = i - 1;
            proof {
                self.lemma_wf();
            }
            if mark[cur] {
                let refs = self.refs_of(cur);
                let mut m: usize = 0;
                while m < refs.len()
                    invariant
                        self.wf(),
                        n == self.kinds().len(),
                        cur < n,
                        cur <= ty,
                        ty < n,
                        mark@.len() == n,
                        mark@[ty as int],
                        mark@[cur as int],
                        refs@ == kind_refs(self.kinds()[cur as int]),
                        forall|x: int| 0 <= x < refs@.len() ==> refs@[x] < cur,
                        forall|j: int| 0 <= j < n && mark@[j] ==> j <= ty,
                        forall|j: int| 0 <= j < n && #[trigger] mark@[j] ==> reaches(self.kinds(), ty as int, j),
                        forall|x: int| 0 <= x < m ==> mark@[refs@[x] as int],
                        forall|j: int, mm: int| cur < j < n && mark@[j] && 0 <= mm < kind_refs(self.kinds()[j]).len()
                            ==> mark@[#[trigger] kind_refs(self.kinds()[j])[mm] as int],
                    decreases refs@.len() - m,
                {
                    proof {
                        assert(kind_refs(self.kinds()[cur as int])[m as int] == refs@[m as int]);
                        assert(kind_refs(self.kinds()[cur as int]).contains(refs@[m as int]));
                        lemma_reaches_step(self.kinds(), ty as int, cur as int, refs@[m as int] as int);
                    }
                    mark.set(refs[m], true);
                    m = m + 1;
                }
            }
            i = cur;
        }
        let mut r: Vec<TypeId> = Vec::new();
        let mut j: usize = 0;
        while j < n
            invariant
                n == mark@.len(),
                j <= n,
                forall|x: int| 0 <= x < r@.len() ==> r@[x] < j && mark@[r@[x] as int],
                forall|x: int, y: int| 0 <= x < y < r@.len() ==> r@[x] < r@[y],
                forall|x: int| 0 <= x < j && mark@[x] ==> r@.contains(x as usize),
                forall|x: int| 0 <= x < n && #[trigger] mark@[x] ==> reaches(self.kinds(), ty as int, x),
            decreases n - j,
        {
            if mark[j] {
                let ghost before = r@;
                r.push(j);
                assert forall|x: int| 0 <= x < j + 1 && mark@[x] implies r@.contains(x as usize) by {
                    if x < j {
                        let w = choose|w: int| 0 <= w < before.len() && before[w] == x as usize;
                        assert(r@[w] == x as usize);
                    } else {
                        assert(r@[r@.len() - 1] == x as usize);
                    }
                }
            }
            j = j + 1;
        }
        proof {
            assert forall|a: int, k2: int| 0 <= a < r@.len() && 0 <= k2 < kind_refs(self.kinds()[r@[a] as int]).len()
                implies r@.contains(#[trigger] kind_refs(self.kinds()[r@[a] as int])[k2]) by {
                let x = r@[a] as int;
                assert(mark@[x]);
                assert(mark@[kind_refs(self.kinds()[x])[k2] as int]);
                self.lemma_refs_valid(x);
            }
        }
        r
    }

    proof fn lemma_refs_valid(&self, x: int)
        requires
            self.wf(),
            0 <= x < self.kinds().len(),
        ensures
            forall|k: int| 0 <= k < kind_refs(self.kinds()[x]).len() ==> kind_refs(self.kinds()[x])[k] < x,
    {
        self.lemma_wf();
        let kind = self.kinds()[x];
        assert(kind_refs_below(kind, x));
        match kind {
            TypeKind::Function(f) => {
                assert forall|k: int| 0 <= k < kind_refs(kind).len() implies kind_refs(kind)[k] < x by {
                    if k < f.params@.len() {
                        assert(kind_refs(kind)[k] == f.params@[k]);
                    }
                }
            },
            _ => {},
        }
    }

    /// The types the type `id` refers to directly.
    fn refs_of(&self, id: TypeId) -> (r: Vec<TypeId>)
        requires
            self.wf(),
            id < self.kinds().len(),
        ensures
            r@ == kind_refs(self.kinds()[id as int]),
            forall|x: int| 0 <= x < r@.len() ==> r@[x] < id,
    {
        proof {
            self.lemma_refs_valid(id as int);
        }
        let mut r: Vec<TypeId> = Vec::new();
        match &self.types[id].kind {
            TypeKind::Array(t) | TypeKind::Pointer(t) | TypeKind::Alias(t) => r.push(*t),
            TypeKind::Unique(_, t) => r.push(*t),
            TypeKind::Function(f) => {
                let mut i: usize = 0;
                while i < f.params.len()
                    invariant
                        i <= f.params@.len(),
                        r@ == f.params@.take(i as int),
                    decreases f.params@.len() - i,
                {
                    r.push(f.params[i]);
                    assert(r@ =~= f.params@.take(i + 1));
                    i = i + 1;
                }
                r.push(f.ret);
                assert(r@ =~= f.params@.push(f.ret));
            },
            TypeKind::Primitive(_) => {},
        }
        proof {
            assert(self.kinds()[id as int] == self.types@[id as int].kind);
            if r@.len() == 1 && !(self.kinds()[id as int] is Function) {
                assert(r@ =~= kind_refs(self.kinds()[id as int]));
            }
            if self.kinds()[id as int] is Primitive {
                assert(r@ =~= kind_refs(self.kinds()[id as int]));
            }
        }
        r
    }

    /// The written form of a type, for errors and logs.
    pub fn type_to_string(&self, id: TypeId) -> (s: String)
        requires
            self.wf(),
            id < self.kinds().len(),
        ensures
            s@ == type_text(self.kinds(), id as int),
        decreases id,
    {
        let mut s = String::new();
        match &self.lookup(id).kind {
            TypeKind::Primitive(p) => {
                push_str(&mut s, p.name());
            },
            TypeKind::Array(inner) => {
                push_str(&mut s, "[]");
                let t = self.type_to_string(*inner);
                push_str(&mut s, t.as_str());
            },
            TypeKind::Pointer(inner) => {
                push_str(&mut s, "*");
                let t = self.type_to_string(*inner);
                push_str(&mut s, t.as_str());
            },
            TypeKind::Alias(target) => {
                s = self.type_to_string(*target);
            },
            TypeKind::Unique(name, _) => {
                s = name.clone();
            },
            TypeKind::Function(f) => {
                push_str(&mut s, "func (");
                let params = self.types_to_string(&f.params, id);
                push_str(&mut s, params.as_str());
                push_str(&mut s, ") ");
                let r = self.type_to_string(f.ret);
                push_str(&mut s, r.as_str());
            },
        }
        assert(s@ =~= type_text(self.kinds(), id as int));
        s
    }

    /// The written forms of `ids`, separated by `, `.
    fn types_to_string(&self, ids: &Vec<TypeId>, limit: TypeId) -> (s: String)
        requires
            self.wf(),
            limit < self.kinds().len(),
            forall|i: int| 0 <= i < ids@.len() ==> ids@[i] < limit,
        ensures
            s@ == types_text(self.kinds(), ids@, limit as int),
        decreases limit, 0nat,
    {
        let mut s = String::new();
        let mut i: usize = 0;
        while i < ids.len()
            invariant
                self.wf(),
                limit < self.kinds().len(),
                forall|k: int| 0 <= k < ids@.len() ==> ids@[k] < limit,
                i <= ids@.len(),
                s@ == types_text(self.kinds(), ids@.take(i as int), limit as int),
            decreases ids@.len() - i,
        {
            if i > 0 {
                push_str(&mut s, ", ");
            }
            let t = self.type_to_string(ids[i]);
            push_str(&mut s, t.as_str());
            proof {
                let pre = ids@.take(i + 1);
                assert(pre.drop_last() =~= ids@.take(i as int));
                assert(pre.last() == ids@[i as int]);
                if i == 0 {
                    assert(types_text(self.kinds(), ids@.take(0), limit as int) =~= Seq::<char>::empty());
                }
            }
            i = i + 1;
            assert(s@ =~= types_text(self.kinds(), ids@.take(i as int), limit as int));
        }
        assert(ids@.take(ids@.len() as int) =~= ids@);
        s
    }

    /// The written form of a type that shows aliases, unique types, arrays
    /// and pointers by name.
    pub fn type_to_string_debug(&self, id: TypeId) -> (s: String)
        requires
            self.wf(),
            id < self.kinds().len(),
        ensures
            s@ == type_text_debug(self.kinds(), id as int),
    {
        let mut s = String::new();
        match &self.lookup(id).kind {
            TypeKind::Primitive(p) => {
                push_str(&mut s, p.name());
            },
            TypeKind::Array(inner) => {
                push_str(&mut s, "Array<");
                let t = self.type_to_string(*inner);
                push_str(&mut s, t.as_str());
                push_str(&mut s, ">");
            },
            TypeKind::Pointer(inner) => {
                push_str(&mut s, "Pointer<");
                let t = self.type_to_string(*inner);
                push_str(&mut s, t.as_str());
                push_str(&mut s, ">");
            },
            TypeKind::Alias(target) => {
                push_str(&mut s, "Alias(");
                let t = self.type_to_string(*target);
                push_str(&mut s, t.as_str());
                push_str(&mut s, ")");
            },
            TypeKind::Unique(name, target) => {
                push_str(&mut s, "Unique(");
                push_str(&mut s, name.as_str());
                push_str(&mut s, " ");
                let t = self.type_to_string(*target);
                push_str(&mut s, t.as_str());
                push_str(&mut s, ")");
            },
            TypeKind::Function(_) => {
                s = self.type_to_string(id);
            },
        }
        assert(s@ =~= type_text_debug(self.kinds(), id as int));
        s
    }

    /// Every type with its id, one per line.
    pub fn dump_context_string(&self) -> (s: String)
        requires
            self.wf(),
        ensures
            s@ == "| Types\n"@ + "|-------------------------------\n"@ + dump_lines(self.kinds(), self.kinds().len() as int),
    {
        let mut s = String::new();
        push_str(&mut s, "| Types\n");
        push_str(&mut s, "|-------------------------------\n");
        let ghost head = s@;
        let mut i: usize = 0;
        while i < self.types.len()
            invariant
                self.wf(),
                i <= self.kinds().len(),
                s@ == head + dump_lines(self.kinds(), i as int),
                head == "| Types\n"@ + "|-------------------------------\n"@,
            decreases self.kinds().len() - i,
        {
            push_str(&mut s, "| ");
            push_u64_padded3(&mut s, i as u64);
            let t = self.type_to_string_debug(i);
            push_str(&mut s, " ");
            push_str(&mut s, t.as_str());
            push_str(&mut s, "\n");
            i = i + 1;
            assert(s@ =~= head + dump_lines(self.kinds(), i as int));
        }
        s
    }
}

/// The debug form of a type.
pub open spec fn type_text_debug(kinds: Seq<TypeKind>, id: int) -> Seq<char> {
    if id < 0 || id >= kinds.len() {
        Seq::empty()
    } else {
        match kinds[id] {
            TypeKind::Primitive(p) => prim_name(p),
            TypeKind::Array(t) => "Array<"@ + type_text(kinds, t as int) + ">"@,
            TypeKind::Pointer(t) => "Pointer<"@ + type_text(kinds, t as int) + ">"@,
            TypeKind::Alias(t) => "Alias("@ + type_text(kinds, t as int) + ")"@,
            TypeKind::Unique(name, t) => "Unique("@ + name@ + " "@ + type_text(kinds, t as int) + ")"@,
            TypeKind::Function(_) => type_text(kinds, id),
        }
    }
}

/// One line `| <id> <debug form>` for each of the first `n` types, the id
/// left-aligned in three columns.
pub open spec fn dump_lines(kinds: Seq<TypeKind>, n: int) -> Seq<char>
    decreases n,
{
    if n <= 0 {
        Seq::empty()
    } else {
        dump_lines(kinds, n - 1) + "| "@ + pad_right(decimal((n - 1) as nat), 3) + " "@ + type_text_debug(kinds, n - 1) + "\n"@
    }
}

proof fn lemma_kind_eq_symmetric(a: TypeKind, b: TypeKind)
    ensures
        spec_kind_eq(a, b) == spec_kind_eq(b, a),
{
}

proof fn lemma_prim_at_injective(a: int, b: int)
    requires
        0 <= a < b < NUM_PRIMITIVES,
    ensures
        prim_at(a) != prim_at(b),
{
}

} // verus!
