use vstd::prelude::*;

use crate::common::names::NameMap;
use crate::ir::nodes::{ConstId, RValue};

verus! {

/// Numbers the variables and parameters of the function being lowered.
pub struct SymTracker {
    tbl: NameMap<ConstId>,
    params: NameMap<usize>,
    curid: usize,
    curparam: usize,
}

impl SymTracker {
    /// The constant id of each variable.
    pub closed spec fn consts(&self) -> Map<Seq<char>, ConstId> {
        self.tbl@
    }

    /// The position of each parameter.
    pub closed spec fn spec_params(&self) -> Map<Seq<char>, usize> {
        self.params@
    }

    /// The next constant id.
    pub closed spec fn next_id(&self) -> usize {
        self.curid
    }

    /// The next parameter position.
    pub closed spec fn next_param(&self) -> usize {
        self.curparam
    }

    pub closed spec fn wf(&self) -> bool {
        self.tbl.wf() && self.params.wf()
    }

    pub fn new() -> (r: Self)
        ensures
            r.wf(),
            r.consts() == Map::<Seq<char>, ConstId>::empty(),
            r.spec_params() == Map::<Seq<char>, usize>::empty(),
            r.next_id() == 0,
            r.next_param() == 0,
    {
        SymTracker { tbl: NameMap::new(), params: NameMap::new(), curid: 0, curparam: 0 }
    }

    /// Gives the variable `t` the next constant id and returns it.
    pub fn set(&mut self, t: String) -> (id: ConstId)
        requires
            old(self).wf(),
            old(self).next_id() < usize::MAX,
        ensures
            final(self).wf(),
            id == old(self).next_id(),
            final(self).next_id() == id + 1,
            final(self).consts() == old(self).consts().insert(t@, id),
            final(self).spec_params() == old(self).spec_params(),
            final(self).next_param() == old(self).next_param(),
    {
        let id = self.curid;
        let _ = self.tbl.insert(t, id);
        self.curid = self.curid + 1;
        id
    }

    /// Takes the next constant id, for a temporary value.
    pub fn next_const_id(&mut self) -> (id: ConstId)
        requires
            old(self).next_id() < usize::MAX,
        ensures
            id == old(self).next_id(),
            final(self).next_id() == id + 1,
            final(self).consts() == old(self).consts(),
            final(self).spec_params() == old(self).spec_params(),
            final(self).next_param() == old(self).next_param(),
            final(self).wf() == old(self).wf(),
    {
        let id = self.curid;
        self.curid = self.curid + 1;
        id
    }

    /// Gives the parameter `s` the next position.
    pub fn set_param(&mut self, s: String)
        requires
            old(self).wf(),
            old(self).next_param() < usize::MAX,
        ensures
            final(self).wf(),
            final(self).spec_params() == old(self).spec_params().insert(s@, old(self).next_param()),
            final(self).next_param() == old(self).next_param() + 1,
            final(self).consts() == old(self).consts(),
            final(self).next_id() == old(self).next_id(),
    {
        let _ = self.params.insert(s, self.curparam);
        self.curparam = self.curparam + 1;
    }

    /// The value a name stands for: its variable when there is one, else its
    /// parameter.
    pub fn get(&self, s: &str) -> (r: RValue)
        requires
            self.wf(),
            self.consts().contains_key(s@) || self.spec_params().contains_key(s@),
        ensures
            self.consts().contains_key(s@) ==> r == RValue::Const(self.consts()[s@]),
            !self.consts().contains_key(s@) ==> r == RValue::Param(self.spec_params()[s@]),
    {
        match self.tbl.get(s) {
            Some(v) => RValue::Const(*v),
            None => RValue::Param(*self.params.get(s).unwrap()),
        }
    }

    /// Forgets every name and starts numbering again from zero.
    pub fn new_function_context(&mut self)
        ensures
            final(self).wf(),
            final(self).consts() == Map::<Seq<char>, ConstId>::empty(),
            final(self).spec_params() == Map::<Seq<char>, usize>::empty(),
            final(self).next_id() == 0,
            final(self).next_param() == 0,
    {
        self.params.clear();
        self.tbl.clear();
        self.curid = 0;
        self.curparam = 0;
    }
}

} // verus!
