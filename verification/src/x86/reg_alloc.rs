use vstd::prelude::*;

use crate::ir::types::{IRType, Primitive};

verus! {

/// The integer argument registers, in order.
pub open spec fn int_reg_name(i: int) -> Seq<char> {
    if i == 0 {
        "rdi"@
    } else if i == 1 {
        "rsi"@
    } else if i == 2 {
        "rdx"@
    } else if i == 3 {
        "rcx"@
    } else if i == 4 {
        "r8"@
    } else {
        "r9"@
    }
}

/// The floating point argument registers, in order.
pub open spec fn float_reg_name(i: int) -> Seq<char> {
    if i == 0 {
        "xmm0"@
    } else if i == 1 {
        "xmm1"@
    } else if i == 2 {
        "xmm2"@
    } else if i == 3 {
        "xmm3"@
    } else if i == 4 {
        "xmm4"@
    } else if i == 5 {
        "xmm5"@
    } else if i == 6 {
        "xmm6"@
    } else {
        "xmm7"@
    }
}

pub const NUM_INT_REGS: usize = 6;

pub const NUM_FLOAT_REGS: usize = 8;

pub open spec fn spec_is_float(ty: IRType) -> bool {
    ty == IRType::Primitive(Primitive::F32) || ty == IRType::Primitive(Primitive::F64)
}

/// Integers, strings and everything but `void` and functions go in integer
/// registers.
pub open spec fn spec_is_intlike(ty: IRType) -> bool {
    match ty {
        IRType::Primitive(p) => !(p is Void) && !(p is F32) && !(p is F64),
        _ => false,
    }
}

fn int_reg(i: usize) -> (r: &'static str)
    requires
        i < NUM_INT_REGS,
    ensures
        r@ == int_reg_name(i as int),
{
    if i == 0 {
        "rdi"
    } else if i == 1 {
        "rsi"
    } else if i == 2 {
        "rdx"
    } else if i == 3 {
        "rcx"
    } else if i == 4 {
        "r8"
    } else {
        "r9"
    }
}

fn float_reg(i: usize) -> (r: &'static str)
    requires
        i < NUM_FLOAT_REGS,
    ensures
        r@ == float_reg_name(i as int),
{
    if i == 0 {
        "xmm0"
    } else if i == 1 {
        "xmm1"
    } else if i == 2 {
        "xmm2"
    } else if i == 3 {
        "xmm3"
    } else if i == 4 {
        "xmm4"
    } else if i == 5 {
        "xmm5"
    } else if i == 6 {
        "xmm6"
    } else {
        "xmm7"
    }
}

/// Hands out registers by name, for temporaries and for parameters, each
/// kind counted apart.
#[derive(Debug)]
pub struct RegAllocator {
    pub next_int: usize,
    pub next_float: usize,
    pub param_int: usize,
    pub param_float: usize,
}

impl RegAllocator {
    pub fn new() -> (r: Self)
        ensures
            r.next_int == 0 && r.next_float == 0 && r.param_int == 0 && r.param_float == 0,
    {
        RegAllocator { next_int: 0, next_float: 0, param_int: 0, param_float: 0 }
    }

    pub fn is_float(ty: &IRType) -> (r: bool)
        ensures
            r == spec_is_float(*ty),
    {
        match ty {
            IRType::Primitive(Primitive::F32) | IRType::Primitive(Primitive::F64) => true,
            _ => false,
        }
    }

    pub fn is_intlike(ty: &IRType) -> (r: bool)
        ensures
            r == spec_is_intlike(*ty),
    {
        match ty {
            IRType::Primitive(p) => match p {
                Primitive::Void | Primitive::F32 | Primitive::F64 => false,
                _ => true,
            },
            _ => false,
        }
    }

    /// The next free register for a temporary of the given type.
    pub fn next_reg(&mut self, ty: &IRType) -> (r: String)
        requires
            spec_is_float(*ty) ==> old(self).next_float < NUM_FLOAT_REGS,
            spec_is_intlike(*ty) ==> old(self).next_int < NUM_INT_REGS,
            spec_is_float(*ty) || spec_is_intlike(*ty),
        ensures
            spec_is_float(*ty) ==> r@ == float_reg_name(old(self).next_float as int) && final(self).next_float
                == old(self).next_float + 1 && final(self).next_int == old(self).next_int,
            spec_is_intlike(*ty) ==> r@ == int_reg_name(old(self).next_int as int) && final(self).next_int
                == old(self).next_int + 1 && final(self).next_float == old(self).next_float,
            final(self).param_int == old(self).param_int,
            final(self).param_float == old(self).param_float,
    {
        if Self::is_float(ty) {
            let reg = float_reg(self.next_float);
            self.next_float = self.next_float + 1;
            String::from_str(reg)
        } else {
            let reg = int_reg(self.next_int);
            self.next_int = self.next_int + 1;
            String::from_str(reg)
        }
    }

    /// The register a value of the given type is returned in.
    pub fn return_reg(&self, ty: &IRType) -> (r: String)
        ensures
            r@ == (if spec_is_float(*ty) { "xmm0"@ } else { "rax"@ }),
    {
        if Self::is_float(ty) {
            String::from_str("xmm0")
        } else {
            String::from_str("rax")
        }
    }

    /// The next free register for a parameter of the given type.
    pub fn next_param_reg(&mut self, ty: &IRType) -> (r: String)
        requires
            spec_is_float(*ty) ==> old(self).param_float < NUM_FLOAT_REGS,
            spec_is_intlike(*ty) ==> old(self).param_int < NUM_INT_REGS,
            spec_is_float(*ty) || spec_is_intlike(*ty),
        ensures
            spec_is_float(*ty) ==> r@ == float_reg_name(old(self).param_float as int) && final(self).param_float
                == old(self).param_float + 1 && final(self).param_int == old(self).param_int,
            spec_is_intlike(*ty) ==> r@ == int_reg_name(old(self).param_int as int) && final(self).param_int
                == old(self).param_int + 1 && final(self).param_float == old(self).param_float,
            final(self).next_int == old(self).next_int,
            final(self).next_float == old(self).next_float,
    {
        if Self::is_float(ty) {
            let reg = float_reg(self.param_float);
            self.param_float = self.param_float + 1;
            String::from_str(reg)
        } else {
            let reg = int_reg(self.param_int);
            self.param_int = self.param_int + 1;
            String::from_str(reg)
        }
    }

    /// Frees every register.
    pub fn reset(&mut self)
        ensures
            final(self).next_int == 0 && final(self).next_float == 0 && final(self).param_int == 0
                && final(self).param_float == 0,
    {
        self.next_int = 0;
        self.next_float = 0;
        self.param_int = 0;
        self.param_float = 0;
    }

    /// Frees the parameter registers.
    pub fn reset_params(&mut self)
        ensures
            final(self).param_int == 0 && final(self).param_float == 0,
            final(self).next_int == old(self).next_int && final(self).next_float == old(self).next_float,
    {
        self.param_int = 0;
        self.param_float = 0;
    }

    /// Frees the temporary registers.
    pub fn reset_temps(&mut self)
        ensures
            final(self).next_int == 0 && final(self).next_float == 0,
            final(self).param_int == old(self).param_int && final(self).param_float == old(self).param_float,
    {
        self.next_int = 0;
        self.next_float = 0;
    }
}

} // verus!
