use vstd::prelude::*;

use crate::common::names::NameMap;

verus! {

/// The binding of `name` in a stack of scopes: the one in the innermost
/// scope that binds it.
pub open spec fn scoped_lookup<T>(scopes: Seq<Map<Seq<char>, T>>, name: Seq<char>) -> Option<T>
    decreases scopes.len(),
{
    if scopes.len() == 0 {
        None
    } else if scopes.last().contains_key(name) {
        Some(scopes.last()[name])
    } else {
        scoped_lookup(scopes.drop_last(), name)
    }
}

/// A stack of scopes binding names to values. The base scope is never popped.
pub struct VarTable<T> {
    scopes: Vec<NameMap<T>>,
}

impl<T> VarTable<T> {
    /// The scopes, outermost first.
    pub closed spec fn view(&self) -> Seq<Map<Seq<char>, T>> {
        self.scopes@.map_values(|m: NameMap<T>| m@)
    }

    pub closed spec fn wf(&self) -> bool {
        &&& self.scopes@.len() >= 1
        &&& forall|i: int| 0 <= i < self.scopes@.len() ==> (#[trigger] self.scopes@[i]).wf()
    }

    /// A well-formed table has its base scope.
    pub proof fn lemma_depth(&self)
        requires
            self.wf(),
        ensures
            self@.len() >= 1,
    {
    }

    pub fn new() -> (r: Self)
        ensures
            r.wf(),
            r@ == seq![Map::<Seq<char>, T>::empty()],
    {
        let mut scopes = Vec::new();
        scopes.push(NameMap::new());
        let r = VarTable { scopes };
        assert(r@ =~= seq![Map::<Seq<char>, T>::empty()]);
        r
    }

    /// Opens a new innermost scope.
    pub fn push_scope(&mut self)
        requires
            old(self).wf(),
        ensures
            final(self).wf(),
            final(self)@ == old(self)@.push(Map::<Seq<char>, T>::empty()),
    {
        self.scopes.push(NameMap::new());
        assert(self@ =~= old(self)@.push(Map::<Seq<char>, T>::empty()));
    }

    /// Closes the innermost scope. The base scope cannot be closed.
    pub fn pop_scope(&mut self)
        requires
            old(self).wf(),
            old(self)@.len() > 1,
        ensures
            final(self).wf(),
            final(self)@ == old(self)@.drop_last(),
    {
        let _ = self.scopes.pop();
        assert(self@ =~= old(self)@.drop_last());
    }

    /// Binds `name` in the innermost scope. Fails, changing nothing, when the
    /// innermost scope binds it already.
    pub fn bind(&mut self, name: String, t: T) -> (r: bool)
        requires
            old(self).wf(),
        ensures
            final(self).wf(),
            r == !old(self)@.last().contains_key(name@),
            r ==> final(self)@ == old(self)@.update(
                old(self)@.len() - 1,
                old(self)@.last().insert(name@, t),
            ),
            !r ==> final(self)@ == old(self)@,
    {
        let n = self.scopes.len() - 1;
        assert(self.scopes@[n as int].wf());
        if self.scopes[n].get(name.as_str()).is_some() {
            return false;
        }
        let mut scope = self.scopes.pop().unwrap();
        let _ = scope.insert(name, t);
        self.scopes.push(scope);
        proof {
            assert(self@ =~= old(self)@.update(old(self)@.len() - 1, old(self)@.last().insert(name@, t)));
            assert forall|i: int| 0 <= i < self.scopes@.len() implies (#[trigger] self.scopes@[i]).wf() by {
                if i < n {
                    assert(self.scopes@[i] == old(self).scopes@[i]);
                }
            }
        }
        true
    }

    /// The value bound to `name` in the innermost scope that binds it.
    pub fn get(&self, name: &str) -> (r: Option<&T>)
        requires
            self.wf(),
        ensures
            r matches Some(v) ==> scoped_lookup(self@, name@) == Some(*v),
            r is None ==> scoped_lookup(self@, name@) is None,
    {
        let mut i = self.scopes.len();
        assert(self@.take(i as int) =~= self@);
        while i > 0
            invariant
                self.wf(),
                i <= self.scopes@.len(),
                scoped_lookup(self@, name@) == scoped_lookup(self@.take(i as int), name@),
            decreases i,
        {
            assert(self.scopes@[i - 1].wf());
            assert(self@.take(i as int).last() == self.scopes@[i - 1]@);
            match self.scopes[i - 1].get(name) {
                Some(v) => {
                    return Some(v);
                },
                None => {
                    assert(self@.take(i as int).drop_last() =~= self@.take(i - 1));
                    i = i - 1;
                },
            }
        }
        None
    }

    /// Drops every scope and starts again from one empty base scope.
    pub fn clear(&mut self)
        ensures
            final(self).wf(),
            final(self)@ == seq![Map::<Seq<char>, T>::empty()],
    {
        self.scopes.clear();
        self.scopes.push(NameMap::new());
        assert(self@ =~= seq![Map::<Seq<char>, T>::empty()]);
    }

    /// The number of open scopes, the base scope included.
    pub fn depth(&self) -> (n: usize)
        ensures
            n == self@.len(),
    {
        self.scopes.len()
    }
}

/// A binding made in a scope is found by a lookup until that scope is closed.
pub proof fn law_bind_then_lookup<T>(scopes: Seq<Map<Seq<char>, T>>, name: Seq<char>, t: T)
    requires
        scopes.len() >= 1,
    ensures
        scoped_lookup(scopes.update(scopes.len() - 1, scopes.last().insert(name, t)), name) == Some(t),
{
}

/// Opening a scope and closing it again changes no lookup.
pub proof fn law_push_pop_restores<T>(scopes: Seq<Map<Seq<char>, T>>, name: Seq<char>)
    ensures
        scoped_lookup(scopes.push(Map::<Seq<char>, T>::empty()).drop_last(), name) == scoped_lookup(scopes, name),
        scoped_lookup(scopes.push(Map::<Seq<char>, T>::empty()), name) == scoped_lookup(scopes, name),
{
    assert(scopes.push(Map::<Seq<char>, T>::empty()).drop_last() =~= scopes);
}

/// Binding a name in a scope opened on top of `scopes` leaves `scopes`
/// as they were: the outer scopes stay below the opened one.
pub proof fn law_bind_in_opened_scope<T>(scopes: Seq<Map<Seq<char>, T>>, inner: Map<Seq<char>, T>, name: Seq<char>, t: T)
    ensures
        ({
            let opened = scopes.push(inner);
            opened.update(opened.len() - 1, opened.last().insert(name, t)) == scopes.push(inner.insert(name, t))
        }),
{
    let opened = scopes.push(inner);
    assert(opened.update(opened.len() - 1, opened.last().insert(name, t)) =~= scopes.push(inner.insert(name, t)));
}

/// Closing a scope undoes every binding made in it: whatever the opened
/// scope holds, once it is closed every lookup is what it was before it was
/// opened.
pub proof fn law_pop_restores_lookups<T>(scopes: Seq<Map<Seq<char>, T>>, inner: Map<Seq<char>, T>, name: Seq<char>)
    ensures
        scopes.push(inner).drop_last() == scopes,
        scoped_lookup(scopes.push(inner).drop_last(), name) == scoped_lookup(scopes, name),
{
    assert(scopes.push(inner).drop_last() =~= scopes);
}

} // verus!
