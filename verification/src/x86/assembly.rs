use vstd::prelude::*;

use crate::common::text::{decimal, int_text, push_i64, push_str, push_u64};

verus! {

/// An assembly file in Intel syntax.
pub struct File {
    pub data_section: Vec<DataDecl>,
    pub rodata_section: Vec<RodataDecl>,
    pub text_section: Vec<TextDecl>,
}

pub enum DataDecl {
    String { label: String, content: String },
    NamedString { global: bool, name: String, content: String },
}

/// A read-only integer constant.
pub enum RodataDecl {
    Integer { global: bool, name: String, bytes: usize, value: i64 },
}

pub enum TextDecl {
    Extern(String),
    Function { global: bool, name: String, ins: Vec<Asm> },
}

pub enum Asm {
    Comment(String),
    Push(Src),
    Mov(Dest, Src),
    Lea(Dest, Src),
    Add(Dest, Src),
    Sub(Dest, Src),
    IMul(Dest, Src),
    IDiv(Src),
    Cqo,
    Cdq,
    Neg(Dest),
    Xor(Dest, Src),
    And(Dest, Src),
    Or(Dest, Src),
    Cmp(Src, Src),
    SetCc(Condition, Dest),
    Call(String),
    Leave,
    Ret,
    Jmp(String),
    Jz(String),
    Jnz(String),
    Label(String),
}

#[derive(Debug, Clone, Copy, PartialEq, Eq, Structural)]
pub enum Condition {
    E,
    Ne,
    G,
    Ge,
    L,
    Le,
}

#[derive(Debug, Clone, Copy, PartialEq, Eq, Structural)]
pub enum Size {
    Byte,
    Word,
    Dword,
    Qword,
}

#[derive(Debug)]
pub enum Src {
    Immediate(Immediate),
    Reg(Reg),
    StackOffset(StackOffset),
    Label(Label),
}

/// An immediate value. A float is kept as the text it was written with.
#[derive(Debug)]
pub enum Immediate {
    Int(i64),
    Uint(u64),
    Float(String),
}

#[derive(Debug, Clone, Copy, PartialEq, Eq, Structural)]
pub enum Dest {
    Reg(Reg),
    StackOffset(StackOffset),
}

#[derive(Debug, Clone, Copy, PartialEq, Eq, Structural)]
pub enum Reg {
    Rax,
    Eax,
    Ax,
    Al,
    Rcx,
    Ecx,
    Cx,
    Cl,
    Rdx,
    Edx,
    Ex,
    El,
    Rbx,
    Ebx,
    Bx,
    Bl,
    Rsi,
    Esi,
    Si,
    Sil,
    Rdi,
    Edi,
    Di,
    Dil,
    R8,
    R8d,
    R8w,
    R8b,
    R9,
    R9d,
    R9w,
    R9b,
    R10,
    R10d,
    R10w,
    R10b,
    R11,
    R11d,
    R11w,
    R11b,
    R12,
    R12d,
    R12w,
    R12b,
    R13,
    R13d,
    R13w,
    R13b,
    R14,
    R14d,
    R14w,
    R14b,
    R15,
    R15d,
    R15w,
    R15b,
    Rbp,
    Rsp,
    Xmm0,
    Xmm1,
    Xmm2,
    Xmm3,
    Xmm4,
    Xmm5,
    Xmm6,
    Xmm7,
}

#[derive(Debug, Clone, Copy, PartialEq, Eq, Structural)]
pub enum UnsignedReg {
    Rax,
    Rbp,
    Rsp,
    Rbx,
    Rdi,
    Rsi,
    Rdx,
    Rcx,
    R8,
    R9,
    R10,
    R11,
    R12,
    R13,
    R14,
    R15,
    Xmm0,
    Xmm1,
    Xmm2,
    Xmm3,
    Xmm4,
    Xmm5,
    Xmm6,
    Xmm7,
}

/// The full register a register of any width is part of.
pub open spec fn unsigned_of(r: Reg) -> UnsignedReg {
    match r {
        Reg::Rbx | Reg::Ebx | Reg::Bx | Reg::Bl => UnsignedReg::Rbx,
        Reg::Rax | Reg::Eax | Reg::Ax | Reg::Al => UnsignedReg::Rax,
        Reg::Rdi | Reg::Edi | Reg::Di | Reg::Dil => UnsignedReg::Rdi,
        Reg::Rsi | Reg::Esi | Reg::Si | Reg::Sil => UnsignedReg::Rsi,
        Reg::Rdx | Reg::Edx | Reg::Ex | Reg::El => UnsignedReg::Rdx,
        Reg::Rcx | Reg::Ecx | Reg::Cx | Reg::Cl => UnsignedReg::Rcx,
        Reg::R8 | Reg::R8d | Reg::R8w | Reg::R8b => UnsignedReg::R8,
        Reg::R9 | Reg::R9d | Reg::R9w | Reg::R9b => UnsignedReg::R9,
        Reg::R10 | Reg::R10d | Reg::R10w | Reg::R10b => UnsignedReg::R10,
        Reg::R11 | Reg::R11d | Reg::R11w | Reg::R11b => UnsignedReg::R11,
        Reg::R12 | Reg::R12d | Reg::R12w | Reg::R12b => UnsignedReg::R12,
        Reg::R13 | Reg::R13d | Reg::R13w | Reg::R13b => UnsignedReg::R13,
        Reg::R14 | Reg::R14d | Reg::R14w | Reg::R14b => UnsignedReg::R14,
        Reg::R15 | Reg::R15d | Reg::R15w | Reg::R15b => UnsignedReg::R15,
        Reg::Rbp => UnsignedReg::Rbp,
        Reg::Rsp => UnsignedReg::Rsp,
        Reg::Xmm0 => UnsignedReg::Xmm0,
        Reg::Xmm1 => UnsignedReg::Xmm1,
        Reg::Xmm2 => UnsignedReg::Xmm2,
        Reg::Xmm3 => UnsignedReg::Xmm3,
        Reg::Xmm4 => UnsignedReg::Xmm4,
        Reg::Xmm5 => UnsignedReg::Xmm5,
        Reg::Xmm6 => UnsignedReg::Xmm6,
        Reg::Xmm7 => UnsignedReg::Xmm7,
    }
}

impl From<Reg> for UnsignedReg {
    fn from(value: Reg) -> (r: Self) {
        match value {
            Reg::Rbx | Reg::Ebx | Reg::Bx | Reg::Bl => UnsignedReg::Rbx,
            Reg::Rax | Reg::Eax | Reg::Ax | Reg::Al => UnsignedReg::Rax,
            Reg::Rdi | Reg::Edi | Reg::Di | Reg::Dil => UnsignedReg::Rdi,
            Reg::Rsi | Reg::Esi | Reg::Si | Reg::Sil => UnsignedReg::Rsi,
            Reg::Rdx | Reg::Edx | Reg::Ex | Reg::El => UnsignedReg::Rdx,
            Reg::Rcx | Reg::Ecx | Reg::Cx | Reg::Cl => UnsignedReg::Rcx,
            Reg::R8 | Reg::R8d | Reg::R8w | Reg::R8b => UnsignedReg::R8,
            Reg::R9 | Reg::R9d | Reg::R9w | Reg::R9b => UnsignedReg::R9,
            Reg::R10 | Reg::R10d | Reg::R10w | Reg::R10b => UnsignedReg::R10,
            Reg::R11 | Reg::R11d | Reg::R11w | Reg::R11b => UnsignedReg::R11,
            Reg::R12 | Reg::R12d | Reg::R12w | Reg::R12b => UnsignedReg::R12,
            Reg::R13 | Reg::R13d | Reg::R13w | Reg::R13b => UnsignedReg::R13,
            Reg::R14 | Reg::R14d | Reg::R14w | Reg::R14b => UnsignedReg::R14,
            Reg::R15 | Reg::R15d | Reg::R15w | Reg::R15b => UnsignedReg::R15,
            Reg::Rbp => UnsignedReg::Rbp,
            Reg::Rsp => UnsignedReg::Rsp,
            Reg::Xmm0 => UnsignedReg::Xmm0,
            Reg::Xmm1 => UnsignedReg::Xmm1,
            Reg::Xmm2 => UnsignedReg::Xmm2,
            Reg::Xmm3 => UnsignedReg::Xmm3,
            Reg::Xmm4 => UnsignedReg::Xmm4,
            Reg::Xmm5 => UnsignedReg::Xmm5,
            Reg::Xmm6 => UnsignedReg::Xmm6,
            Reg::Xmm7 => UnsignedReg::Xmm7,
        }
    }
}

impl vstd::std_specs::convert::FromSpecImpl<Reg> for UnsignedReg {
    open spec fn obeys_from_spec() -> bool {
        true
    }

    open spec fn from_spec(v: Reg) -> UnsignedReg {
        unsigned_of(v)
    }
}

/// A slot of the stack frame: `offset` bytes below the frame pointer.
#[derive(Debug, Clone, Copy, PartialEq, Eq, Structural)]
pub struct StackOffset {
    pub offset: usize,
    pub size: Size,
}

#[derive(Debug)]
pub struct Label {
    pub name: String,
}

pub open spec fn is_xmm(r: UnsignedReg) -> bool {
    r is Xmm0 || r is Xmm1 || r is Xmm2 || r is Xmm3 || r is Xmm4 || r is Xmm5 || r is Xmm6 || r is Xmm7
}

/// The size of a register.
pub open spec fn spec_reg_size(r: Reg) -> Size {
    match r {
        Reg::Rax | Reg::Rbx | Reg::Rcx | Reg::Rdx | Reg::Rbp | Reg::Rsp | Reg::Rsi | Reg::Rdi | Reg::R8
        | Reg::R9 | Reg::R10 | Reg::R11 | Reg::R12 | Reg::R13 | Reg::R14 | Reg::R15 => Size::Qword,
        Reg::Eax | Reg::Ebx | Reg::Ecx | Reg::Edx | Reg::Esi | Reg::Edi | Reg::R8d | Reg::R9d | Reg::R10d
        | Reg::R11d | Reg::R12d | Reg::R13d | Reg::R14d | Reg::R15d => Size::Dword,
        Reg::Ax | Reg::Bx | Reg::Cx | Reg::Ex | Reg::Si | Reg::Di | Reg::R8w | Reg::R9w | Reg::R10w
        | Reg::R11w | Reg::R12w | Reg::R13w | Reg::R14w | Reg::R15w => Size::Word,
        Reg::Al | Reg::Bl | Reg::Cl | Reg::El | Reg::Sil | Reg::Dil | Reg::R8b | Reg::R9b | Reg::R10b
        | Reg::R11b | Reg::R12b | Reg::R13b | Reg::R14b | Reg::R15b => Size::Byte,
        _ => Size::Qword,
    }
}

/// The register of size `size` that is part of `u`.
pub open spec fn sized_reg(u: UnsignedReg, size: Size) -> Reg {
    match size {
        Size::Byte => match u {
            UnsignedReg::Rax => Reg::Al,
            UnsignedReg::Rbp => Reg::Bl,
            UnsignedReg::Rsp => Reg::Bl,
            UnsignedReg::Rbx => Reg::Bl,
            UnsignedReg::Rdi => Reg::Dil,
            UnsignedReg::Rsi => Reg::Sil,
            UnsignedReg::Rdx => Reg::El,
            UnsignedReg::Rcx => Reg::Cl,
            UnsignedReg::R8 => Reg::R8b,
            UnsignedReg::R9 => Reg::R9b,
            UnsignedReg::R10 => Reg::R10b,
            UnsignedReg::R11 => Reg::R11b,
            UnsignedReg::R12 => Reg::R12b,
            UnsignedReg::R13 => Reg::R13b,
            UnsignedReg::R14 => Reg::R14b,
            _ => Reg::R15b,
        },
        Size::Word => match u {
            UnsignedReg::Rax => Reg::Ax,
            UnsignedReg::Rbp => Reg::Bx,
            UnsignedReg::Rsp => Reg::Bx,
            UnsignedReg::Rbx => Reg::Bx,
            UnsignedReg::Rdi => Reg::Di,
            UnsignedReg::Rsi => Reg::Si,
            UnsignedReg::Rdx => Reg::Ex,
            UnsignedReg::Rcx => Reg::Cx,
            UnsignedReg::R8 => Reg::R8w,
            UnsignedReg::R9 => Reg::R9w,
            UnsignedReg::R10 => Reg::R10w,
            UnsignedReg::R11 => Reg::R11w,
            UnsignedReg::R12 => Reg::R12w,
            UnsignedReg::R13 => Reg::R13w,
            UnsignedReg::R14 => Reg::R14w,
            _ => Reg::R15w,
        },
        Size::Dword => match u {
            UnsignedReg::Rax => Reg::Eax,
            UnsignedReg::Rbp => Reg::Ebx,
            UnsignedReg::Rsp => Reg::Ebx,
            UnsignedReg::Rbx => Reg::Ebx,
            UnsignedReg::Rdi => Reg::Edi,
            UnsignedReg::Rsi => Reg::Esi,
            UnsignedReg::Rdx => Reg::Edx,
            UnsignedReg::Rcx => Reg::Ecx,
            UnsignedReg::R8 => Reg::R8d,
            UnsignedReg::R9 => Reg::R9d,
            UnsignedReg::R10 => Reg::R10d,
            UnsignedReg::R11 => Reg::R11d,
            UnsignedReg::R12 => Reg::R12d,
            UnsignedReg::R13 => Reg::R13d,
            UnsignedReg::R14 => Reg::R14d,
            _ => Reg::R15d,
        },
        Size::Qword => match u {
            UnsignedReg::Rax => Reg::Rax,
            UnsignedReg::Rbp => Reg::Rbp,
            UnsignedReg::Rsp => Reg::Rsp,
            UnsignedReg::Rbx => Reg::Rbx,
            UnsignedReg::Rdi => Reg::Rdi,
            UnsignedReg::Rsi => Reg::Rsi,
            UnsignedReg::Rdx => Reg::Rdx,
            UnsignedReg::Rcx => Reg::Rcx,
            UnsignedReg::R8 => Reg::R8,
            UnsignedReg::R9 => Reg::R9,
            UnsignedReg::R10 => Reg::R10,
            UnsignedReg::R11 => Reg::R11,
            UnsignedReg::R12 => Reg::R12,
            UnsignedReg::R13 => Reg::R13,
            UnsignedReg::R14 => Reg::R14,
            UnsignedReg::R15 => Reg::R15,
            UnsignedReg::Xmm0 => Reg::Xmm0,
            UnsignedReg::Xmm1 => Reg::Xmm1,
            UnsignedReg::Xmm2 => Reg::Xmm2,
            UnsignedReg::Xmm3 => Reg::Xmm3,
            UnsignedReg::Xmm4 => Reg::Xmm4,
            UnsignedReg::Xmm5 => Reg::Xmm5,
            UnsignedReg::Xmm6 => Reg::Xmm6,
            UnsignedReg::Xmm7 => Reg::Xmm7,
        },
    }
}

impl UnsignedReg {
    /// The register of the given size that is part of this one. The stack
    /// registers stand in for `rbx` below 64 bits; an XMM register has
    /// only its 64-bit form.
    pub fn to_sized(&self, size: Size) -> (r: Reg)
        requires
            size == Size::Qword || !is_xmm(*self),
        ensures
            r == sized_reg(*self, size),
            *self == UnsignedReg::Rax ==> r == match size {
                Size::Byte => Reg::Al,
                Size::Word => Reg::Ax,
                Size::Dword => Reg::Eax,
                Size::Qword => Reg::Rax,
            },
            *self == UnsignedReg::R10 ==> r == match size {
                Size::Byte => Reg::R10b,
                Size::Word => Reg::R10w,
                Size::Dword => Reg::R10d,
                Size::Qword => Reg::R10,
            },
            !(*self == UnsignedReg::Rbp || *self == UnsignedReg::Rsp) ==> spec_reg_size(r) == size,
    {
        match size {
            Size::Byte => match self {
                UnsignedReg::Rax => Reg::Al,
                UnsignedReg::Rbp => Reg::Bl,
                UnsignedReg::Rsp => Reg::Bl,
                UnsignedReg::Rbx => Reg::Bl,
                UnsignedReg::Rdi => Reg::Dil,
                UnsignedReg::Rsi => Reg::Sil,
                UnsignedReg::Rdx => Reg::El,
                UnsignedReg::Rcx => Reg::Cl,
                UnsignedReg::R8 => Reg::R8b,
                UnsignedReg::R9 => Reg::R9b,
                UnsignedReg::R10 => Reg::R10b,
                UnsignedReg::R11 => Reg::R11b,
                UnsignedReg::R12 => Reg::R12b,
                UnsignedReg::R13 => Reg::R13b,
                UnsignedReg::R14 => Reg::R14b,
                _ => Reg::R15b,
            },
            Size::Word => match self {
                UnsignedReg::Rax => Reg::Ax,
                UnsignedReg::Rbp => Reg::Bx,
                UnsignedReg::Rsp => Reg::Bx,
                UnsignedReg::Rbx => Reg::Bx,
                UnsignedReg::Rdi => Reg::Di,
                UnsignedReg::Rsi => Reg::Si,
                UnsignedReg::Rdx => Reg::Ex,
                UnsignedReg::Rcx => Reg::Cx,
                UnsignedReg::R8 => Reg::R8w,
                UnsignedReg::R9 => Reg::R9w,
                UnsignedReg::R10 => Reg::R10w,
                UnsignedReg::R11 => Reg::R11w,
                UnsignedReg::R12 => Reg::R12w,
                UnsignedReg::R13 => Reg::R13w,
                UnsignedReg::R14 => Reg::R14w,
                _ => Reg::R15w,
            },
            Size::Dword => match self {
                UnsignedReg::Rax => Reg::Eax,
                UnsignedReg::Rbp => Reg::Ebx,
                UnsignedReg::Rsp => Reg::Ebx,
                UnsignedReg::Rbx => Reg::Ebx,
                UnsignedReg::Rdi => Reg::Edi,
                UnsignedReg::Rsi => Reg::Esi,
                UnsignedReg::Rdx => Reg::Edx,
                UnsignedReg::Rcx => Reg::Ecx,
                UnsignedReg::R8 => Reg::R8d,
                UnsignedReg::R9 => Reg::R9d,
                UnsignedReg::R10 => Reg::R10d,
                UnsignedReg::R11 => Reg::R11d,
                UnsignedReg::R12 => Reg::R12d,
                UnsignedReg::R13 => Reg::R13d,
                UnsignedReg::R14 => Reg::R14d,
                _ => Reg::R15d,
            },
            Size::Qword => match self {
                UnsignedReg::Rax => Reg::Rax,
                UnsignedReg::Rbp => Reg::Rbp,
                UnsignedReg::Rsp => Reg::Rsp,
                UnsignedReg::Rbx => Reg::Rbx,
                UnsignedReg::Rdi => Reg::Rdi,
                UnsignedReg::Rsi => Reg::Rsi,
                UnsignedReg::Rdx => Reg::Rdx,
                UnsignedReg::Rcx => Reg::Rcx,
                UnsignedReg::R8 => Reg::R8,
                UnsignedReg::R9 => Reg::R9,
                UnsignedReg::R10 => Reg::R10,
                UnsignedReg::R11 => Reg::R11,
                UnsignedReg::R12 => Reg::R12,
                UnsignedReg::R13 => Reg::R13,
                UnsignedReg::R14 => Reg::R14,
                UnsignedReg::R15 => Reg::R15,
                UnsignedReg::Xmm0 => Reg::Xmm0,
                UnsignedReg::Xmm1 => Reg::Xmm1,
                UnsignedReg::Xmm2 => Reg::Xmm2,
                UnsignedReg::Xmm3 => Reg::Xmm3,
                UnsignedReg::Xmm4 => Reg::Xmm4,
                UnsignedReg::Xmm5 => Reg::Xmm5,
                UnsignedReg::Xmm6 => Reg::Xmm6,
                UnsignedReg::Xmm7 => Reg::Xmm7,
            },
        }
    }
}

impl Reg {
    /// The size of the register.
    pub fn size(&self) -> (r: Size)
        ensures
            r == spec_reg_size(*self),
    {
        match self {
            Reg::Rax | Reg::Rbx | Reg::Rcx | Reg::Rdx | Reg::Rbp | Reg::Rsp | Reg::Rsi | Reg::Rdi | Reg::R8
            | Reg::R9 | Reg::R10 | Reg::R11 | Reg::R12 | Reg::R13 | Reg::R14 | Reg::R15 => Size::Qword,
            Reg::Eax | Reg::Ebx | Reg::Ecx | Reg::Edx | Reg::Esi | Reg::Edi | Reg::R8d | Reg::R9d | Reg::R10d
            | Reg::R11d | Reg::R12d | Reg::R13d | Reg::R14d | Reg::R15d => Size::Dword,
            Reg::Ax | Reg::Bx | Reg::Cx | Reg::Ex | Reg::Si | Reg::Di | Reg::R8w | Reg::R9w | Reg::R10w
            | Reg::R11w | Reg::R12w | Reg::R13w | Reg::R14w | Reg::R15w => Size::Word,
            Reg::Al | Reg::Bl | Reg::Cl | Reg::El | Reg::Sil | Reg::Dil | Reg::R8b | Reg::R9b | Reg::R10b
            | Reg::R11b | Reg::R12b | Reg::R13b | Reg::R14b | Reg::R15b => Size::Byte,
            _ => Size::Qword,
        }
    }

    /// The register's name in lower case.
    pub fn name(&self) -> (r: &'static str)
        ensures
            r@ == reg_name(*self),
    {
        match self {
            Reg::Rax => "rax",
            Reg::Eax => "eax",
            Reg::Ax => "ax",
            Reg::Al => "al",
            Reg::Rcx => "rcx",
            Reg::Ecx => "ecx",
            Reg::Cx => "cx",
            Reg::Cl => "cl",
            Reg::Rdx => "rdx",
            Reg::Edx => "edx",
            Reg::Ex => "ex",
            Reg::El => "el",
            Reg::Rbx => "rbx",
            Reg::Ebx => "ebx",
            Reg::Bx => "bx",
            Reg::Bl => "bl",
            Reg::Rsi => "rsi",
            Reg::Esi => "esi",
            Reg::Si => "si",
            Reg::Sil => "sil",
            Reg::Rdi => "rdi",
            Reg::Edi => "edi",
            Reg::Di => "di",
            Reg::Dil => "dil",
            Reg::R8 => "r8",
            Reg::R8d => "r8d",
            Reg::R8w => "r8w",
            Reg::R8b => "r8b",
            Reg::R9 => "r9",
            Reg::R9d => "r9d",
            Reg::R9w => "r9w",
            Reg::R9b => "r9b",
            Reg::R10 => "r10",
            Reg::R10d => "r10d",
            Reg::R10w => "r10w",
            Reg::R10b => "r10b",
            Reg::R11 => "r11",
            Reg::R11d => "r11d",
            Reg::R11w => "r11w",
            Reg::R11b => "r11b",
            Reg::R12 => "r12",
            Reg::R12d => "r12d",
            Reg::R12w => "r12w",
            Reg::R12b => "r12b",
            Reg::R13 => "r13",
            Reg::R13d => "r13d",
            Reg::R13w => "r13w",
            Reg::R13b => "r13b",
            Reg::R14 => "r14",
            Reg::R14d => "r14d",
            Reg::R14w => "r14w",
            Reg::R14b => "r14b",
            Reg::R15 => "r15",
            Reg::R15d => "r15d",
            Reg::R15w => "r15w",
            Reg::R15b => "r15b",
            Reg::Rbp => "rbp",
            Reg::Rsp => "rsp",
            Reg::Xmm0 => "xmm0",
            Reg::Xmm1 => "xmm1",
            Reg::Xmm2 => "xmm2",
            Reg::Xmm3 => "xmm3",
            Reg::Xmm4 => "xmm4",
            Reg::Xmm5 => "xmm5",
            Reg::Xmm6 => "xmm6",
            Reg::Xmm7 => "xmm7",
        }
    }
}

/// The name of a register, in lower case.
pub open spec fn reg_name(r: Reg) -> Seq<char> {
    match r {
            Reg::Rax => "rax"@,
            Reg::Eax => "eax"@,
            Reg::Ax => "ax"@,
            Reg::Al => "al"@,
            Reg::Rcx => "rcx"@,
            Reg::Ecx => "ecx"@,
            Reg::Cx => "cx"@,
            Reg::Cl => "cl"@,
            Reg::Rdx => "rdx"@,
            Reg::Edx => "edx"@,
            Reg::Ex => "ex"@,
            Reg::El => "el"@,
            Reg::Rbx => "rbx"@,
            Reg::Ebx => "ebx"@,
            Reg::Bx => "bx"@,
            Reg::Bl => "bl"@,
            Reg::Rsi => "rsi"@,
            Reg::Esi => "esi"@,
            Reg::Si => "si"@,
            Reg::Sil => "sil"@,
            Reg::Rdi => "rdi"@,
            Reg::Edi => "edi"@,
            Reg::Di => "di"@,
            Reg::Dil => "dil"@,
            Reg::R8 => "r8"@,
            Reg::R8d => "r8d"@,
            Reg::R8w => "r8w"@,
            Reg::R8b => "r8b"@,
            Reg::R9 => "r9"@,
            Reg::R9d => "r9d"@,
            Reg::R9w => "r9w"@,
            Reg::R9b => "r9b"@,
            Reg::R10 => "r10"@,
            Reg::R10d => "r10d"@,
            Reg::R10w => "r10w"@,
            Reg::R10b => "r10b"@,
            Reg::R11 => "r11"@,
            Reg::R11d => "r11d"@,
            Reg::R11w => "r11w"@,
            Reg::R11b => "r11b"@,
            Reg::R12 => "r12"@,
            Reg::R12d => "r12d"@,
            Reg::R12w => "r12w"@,
            Reg::R12b => "r12b"@,
            Reg::R13 => "r13"@,
            Reg::R13d => "r13d"@,
            Reg::R13w => "r13w"@,
            Reg::R13b => "r13b"@,
            Reg::R14 => "r14"@,
            Reg::R14d => "r14d"@,
            Reg::R14w => "r14w"@,
            Reg::R14b => "r14b"@,
            Reg::R15 => "r15"@,
            Reg::R15d => "r15d"@,
            Reg::R15w => "r15w"@,
            Reg::R15b => "r15b"@,
            Reg::Rbp => "rbp"@,
            Reg::Rsp => "rsp"@,
            Reg::Xmm0 => "xmm0"@,
            Reg::Xmm1 => "xmm1"@,
            Reg::Xmm2 => "xmm2"@,
            Reg::Xmm3 => "xmm3"@,
            Reg::Xmm4 => "xmm4"@,
            Reg::Xmm5 => "xmm5"@,
            Reg::Xmm6 => "xmm6"@,
            Reg::Xmm7 => "xmm7"@,
    }
}

pub open spec fn size_text(s: Size) -> Seq<char> {
    match s {
        Size::Byte => "BYTE"@,
        Size::Word => "WORD"@,
        Size::Dword => "DWORD"@,
        Size::Qword => "QWORD"@,
    }
}

impl Size {
    pub fn name(&self) -> (r: &'static str)
        ensures
            r@ == size_text(*self),
    {
        match self {
            Size::Byte => "BYTE",
            Size::Word => "WORD",
            Size::Dword => "DWORD",
            Size::Qword => "QWORD",
        }
    }

    /// The size of a value of `bytes` bytes, if there is a register for it.
    pub fn of_bytes(bytes: usize) -> (r: Option<Size>)
        ensures
            r is Some <==> (bytes == 1 || bytes == 2 || bytes == 4 || bytes == 8),
            bytes == 1 ==> r == Some(Size::Byte),
            bytes == 2 ==> r == Some(Size::Word),
            bytes == 4 ==> r == Some(Size::Dword),
            bytes == 8 ==> r == Some(Size::Qword),
    {
        if bytes == 1 {
            Some(Size::Byte)
        } else if bytes == 2 {
            Some(Size::Word)
        } else if bytes == 4 {
            Some(Size::Dword)
        } else if bytes == 8 {
            Some(Size::Qword)
        } else {
            None
        }
    }
}

/// Whether `set<suffix>` sets its byte after `cmp a, b`, comparing signed
/// values: `e` when equal, `ne` when not, `g`/`ge` when `a` is greater
/// (or equal), `l`/`le` when it is less (or equal). Any other suffix never
/// sets it.
pub open spec fn setcc_holds(suffix: Seq<char>, a: int, b: int) -> bool {
    if suffix.len() == 1 {
        if suffix[0] == 'e' {
            a == b
        } else if suffix[0] == 'g' {
            a > b
        } else if suffix[0] == 'l' {
            a < b
        } else {
            false
        }
    } else if suffix.len() == 2 {
        if suffix[0] == 'n' && suffix[1] == 'e' {
            a != b
        } else if suffix[0] == 'g' && suffix[1] == 'e' {
            a >= b
        } else if suffix[0] == 'l' && suffix[1] == 'e' {
            a <= b
        } else {
            false
        }
    } else {
        false
    }
}

/// The registers of a machine, by the full register each width belongs
/// to, the operands of the last comparison, and the values of memory
/// operands.
pub type MachineState = (Map<UnsignedReg, int>, (int, int), spec_fn(Src) -> int);

/// The value an operand reads: a register's, an integer immediate's own,
/// or what memory holds.
pub open spec fn src_value(st: MachineState, s: Src) -> int {
    match s {
        Src::Reg(r) => st.0[unsigned_of(r)],
        Src::Immediate(Immediate::Int(k)) => k as int,
        Src::Immediate(Immediate::Uint(k)) => k as int,
        _ => (st.2)(s),
    }
}

/// The state after one instruction, on integer values: moves copy, `add`,
/// `sub` and `imul` compute into their destination, `idiv` leaves the
/// quotient (rounded toward zero) in the accumulator and the remainder in
/// `rdx`, `neg` negates, `xor` flips bits (of 64-bit values), `cmp`
/// records its operands, and `set<cc>` writes 1
/// or 0 by whether the condition holds on them. Only register destinations
/// are followed; other instructions change nothing followed here.
pub open spec fn step(st: MachineState, ins: Asm) -> MachineState {
    let (regs, flags, mem) = st;
    match ins {
        Asm::Mov(Dest::Reg(d), s) => (regs.insert(unsigned_of(d), src_value(st, s)), flags, mem),
        Asm::Add(Dest::Reg(d), s) => (regs.insert(unsigned_of(d), regs[unsigned_of(d)] + src_value(st, s)), flags, mem),
        Asm::Sub(Dest::Reg(d), s) => (regs.insert(unsigned_of(d), regs[unsigned_of(d)] - src_value(st, s)), flags, mem),
        Asm::IMul(Dest::Reg(d), s) => (regs.insert(unsigned_of(d), regs[unsigned_of(d)] * src_value(st, s)), flags, mem),
        Asm::IDiv(s) => (
            regs.insert(
                UnsignedReg::Rax,
                crate::common::arith::trunc_div(regs[UnsignedReg::Rax], src_value(st, s)),
            ).insert(UnsignedReg::Rdx, crate::common::arith::trunc_rem(regs[UnsignedReg::Rax], src_value(st, s))),
            flags,
            mem,
        ),
        Asm::Neg(Dest::Reg(d)) => (regs.insert(unsigned_of(d), -regs[unsigned_of(d)]), flags, mem),
        Asm::Xor(Dest::Reg(d), s) => (
            regs.insert(unsigned_of(d), (regs[unsigned_of(d)] as u64 ^ src_value(st, s) as u64) as int),
            flags,
            mem,
        ),
        Asm::Cmp(a, b) => (regs, (src_value(st, a), src_value(st, b)), mem),
        Asm::SetCc(c, Dest::Reg(d)) => (
            regs.insert(unsigned_of(d), crate::common::arith::truth(setcc_holds(cond_name(c), flags.0, flags.1))),
            flags,
            mem,
        ),
        _ => st,
    }
}

/// The state after running the instructions in order.
pub open spec fn run(st: MachineState, code: Seq<Asm>) -> MachineState
    decreases code.len(),
{
    if code.len() == 0 {
        st
    } else {
        run(step(st, code[0]), code.drop_first())
    }
}

/// The suffix of a condition, as in `sete`.
pub open spec fn cond_name(c: Condition) -> Seq<char> {
    match c {
        Condition::E => "e"@,
        Condition::Ne => "ne"@,
        Condition::G => "g"@,
        Condition::Ge => "ge"@,
        Condition::L => "l"@,
        Condition::Le => "le"@,
    }
}

impl Condition {
    pub fn name(&self) -> (r: &'static str)
        ensures
            r@ == cond_name(*self),
    {
        match self {
            Condition::E => "e",
            Condition::Ne => "ne",
            Condition::G => "g",
            Condition::Ge => "ge",
            Condition::L => "l",
            Condition::Le => "le",
        }
    }
}

/// The text of a stack slot: `<SIZE> PTR [rbp-<offset>]`.
pub open spec fn stack_offset_text(s: StackOffset) -> Seq<char> {
    size_text(s.size) + " PTR [rbp-"@ + decimal(s.offset as nat) + "]"@
}

impl StackOffset {
    pub fn push_text(&self, out: &mut String)
        ensures
            final(out)@ == old(out)@ + stack_offset_text(*self),
    {
        push_str(out, self.size.name());
        push_str(out, " PTR [rbp-");
        push_u64(out, self.offset as u64);
        push_str(out, "]");
        assert(out@ =~= old(out)@ + stack_offset_text(*self));
    }
}

/// The text of a place.
pub open spec fn dest_text(d: Dest) -> Seq<char> {
    match d {
        Dest::Reg(r) => reg_name(r),
        Dest::StackOffset(s) => stack_offset_text(s),
    }
}

/// The text of a source: a register, a slot, an address relative to the
/// instruction pointer, or a number as written.
pub open spec fn src_text(s: Src) -> Seq<char> {
    match s {
        Src::Reg(r) => reg_name(r),
        Src::StackOffset(o) => stack_offset_text(o),
        Src::Label(l) => "[rip + ."@ + l.name@ + "]"@,
        Src::Immediate(imm) => match imm {
            Immediate::Int(n) => int_text(n as int),
            Immediate::Uint(n) => decimal(n as nat),
            Immediate::Float(f) => f@,
        },
    }
}

/// `<op> <dest>, <src>`.
pub open spec fn dest_src_text(op: Seq<char>, d: Dest, s: Src) -> Seq<char> {
    op + " "@ + dest_text(d) + ", "@ + src_text(s)
}

/// The text of an instruction.
pub open spec fn asm_text(a: Asm) -> Seq<char> {
    match a {
        Asm::Comment(c) => "/* "@ + c@ + " */"@,
        Asm::Mov(d, s) => dest_src_text("mov"@, d, s),
        Asm::Lea(d, s) => dest_src_text("lea"@, d, s),
        Asm::Add(d, s) => dest_src_text("add"@, d, s),
        Asm::Sub(d, s) => dest_src_text("sub"@, d, s),
        Asm::IMul(d, s) => dest_src_text("imul"@, d, s),
        Asm::IDiv(s) => "idiv "@ + src_text(s),
        Asm::Cqo => "cqo"@,
        Asm::Cdq => "cdq"@,
        Asm::Neg(d) => "neg "@ + dest_text(d),
        Asm::Xor(d, s) => dest_src_text("xor"@, d, s),
        Asm::And(d, s) => dest_src_text("and"@, d, s),
        Asm::Or(d, s) => dest_src_text("or"@, d, s),
        Asm::Cmp(x, y) => "cmp "@ + src_text(x) + ", "@ + src_text(y),
        Asm::SetCc(c, d) => "set"@ + cond_name(c) + " "@ + dest_text(d),
        Asm::Push(x) => "push "@ + src_text(x),
        Asm::Leave => "leave"@,
        Asm::Ret => "ret"@,
        Asm::Call(l) => "call "@ + l@,
        Asm::Jmp(l) => "jmp "@ + l@,
        Asm::Jz(l) => "jz "@ + l@,
        Asm::Jnz(l) => "jnz "@ + l@,
        Asm::Label(l) => l@ + ":"@,
    }
}

/// The instructions of a function, one indented line each.
pub open spec fn asm_lines(ins: Seq<Asm>) -> Seq<char>
    decreases ins.len(),
{
    if ins.len() == 0 {
        Seq::empty()
    } else {
        asm_lines(ins.drop_last()) + "    "@ + asm_text(ins.last()) + "\n"@
    }
}

/// `.globl <name>` on a line of its own, for a global symbol.
pub open spec fn globl_text(global: bool, name: Seq<char>) -> Seq<char> {
    if global {
        ".globl "@ + name + "\n"@
    } else {
        Seq::empty()
    }
}

/// The directive of an integer of the given number of bytes.
pub open spec fn int_directive(bytes: usize) -> Seq<char> {
    if bytes == 1 {
        ".byte"@
    } else if bytes == 2 {
        ".short"@
    } else if bytes == 4 {
        ".long"@
    } else {
        ".quad"@
    }
}

pub open spec fn data_decl_text(d: DataDecl) -> Seq<char> {
    match d {
        DataDecl::String { label, content } => "."@ + label@ + ": .asciz \""@ + content@ + "\""@,
        DataDecl::NamedString { global, name, content } => globl_text(global, name@) + name@ + ": .asciz \""@
            + content@ + "\""@,
    }
}

pub open spec fn rodata_decl_text(d: RodataDecl) -> Seq<char> {
    match d {
        RodataDecl::Integer { global, name, bytes, value } => globl_text(global, name@) + name@ + ":\n    "@
            + int_directive(bytes) + " "@ + int_text(value as int),
    }
}

pub open spec fn text_decl_text(d: TextDecl) -> Seq<char> {
    match d {
        TextDecl::Function { global, name, ins } => globl_text(global, name@) + name@ + ":\n"@ + asm_lines(ins@),
        TextDecl::Extern(name) => ".extern "@ + name@,
    }
}

pub open spec fn data_lines(ds: Seq<DataDecl>) -> Seq<char>
    decreases ds.len(),
{
    if ds.len() == 0 {
        Seq::empty()
    } else {
        data_lines(ds.drop_last()) + data_decl_text(ds.last()) + "\n"@
    }
}

pub open spec fn rodata_lines(ds: Seq<RodataDecl>) -> Seq<char>
    decreases ds.len(),
{
    if ds.len() == 0 {
        Seq::empty()
    } else {
        rodata_lines(ds.drop_last()) + rodata_decl_text(ds.last()) + "\n"@
    }
}

pub open spec fn text_lines(ds: Seq<TextDecl>) -> Seq<char>
    decreases ds.len(),
{
    if ds.len() == 0 {
        Seq::empty()
    } else {
        text_lines(ds.drop_last()) + text_decl_text(ds.last()) + "\n"@
    }
}

/// The text of an assembly file: the data section, the read-only section
/// when there is anything in it, and the text section, each declaration
/// followed by a line break, then the note that the stack is not
/// executable.
pub open spec fn file_text(f: File) -> Seq<char> {
    ".intel_syntax noprefix\n"@ + ".section .data\n\n"@ + data_lines(f.data_section@) + (if f.rodata_section@.len()
        > 0 {
        ".section .rodata\n\n"@ + rodata_lines(f.rodata_section@)
    } else {
        Seq::empty()
    }) + ".section .text\n\n"@ + text_lines(f.text_section@) + ".section .note.GNU-stack,\"\",@progbits\n"@
}

impl Dest {
    pub fn push_text(&self, out: &mut String)
        ensures
            final(out)@ == old(out)@ + dest_text(*self),
    {
        match self {
            Dest::Reg(r) => push_str(out, r.name()),
            Dest::StackOffset(s) => s.push_text(out),
        }
    }

    /// The same place, read as a source.
    pub fn to_src(&self) -> (r: Src)
        ensures
            r == spec_to_src(*self),
    {
        match self {
            Dest::Reg(r) => Src::Reg(*r),
            Dest::StackOffset(s) => Src::StackOffset(*s),
        }
    }
}

/// A place read as a source.
pub open spec fn spec_to_src(d: Dest) -> Src {
    match d {
        Dest::Reg(r) => Src::Reg(r),
        Dest::StackOffset(s) => Src::StackOffset(s),
    }
}

impl Src {
    pub fn push_text(&self, out: &mut String)
        ensures
            final(out)@ == old(out)@ + src_text(*self),
    {
        let ghost start = out@;
        match self {
            Src::Reg(r) => push_str(out, r.name()),
            Src::StackOffset(s) => s.push_text(out),
            Src::Label(l) => {
                push_str(out, "[rip + .");
                push_str(out, l.name.as_str());
                push_str(out, "]");
                assert(out@ =~= start + src_text(*self));
            },
            Src::Immediate(imm) => match imm {
                Immediate::Int(n) => push_i64(out, *n),
                Immediate::Uint(n) => push_u64(out, *n),
                Immediate::Float(s) => push_str(out, s.as_str()),
            },
        }
    }
}

fn push_dest_src(out: &mut String, op: &str, d: &Dest, s: &Src)
    ensures
        final(out)@ == old(out)@ + dest_src_text(op@, *d, *s),
{
    push_str(out, op);
    push_str(out, " ");
    d.push_text(out);
    push_str(out, ", ");
    s.push_text(out);
    assert(out@ =~= old(out)@ + dest_src_text(op@, *d, *s));
}

impl Asm {
    /// Appends the instruction's text.
    #[verifier::rlimit(30)]
    pub fn push_text(&self, out: &mut String)
        ensures
            final(out)@ == old(out)@ + asm_text(*self),
    {
        let ghost start = out@;
        match self {
            Asm::Comment(c) => {
                push_str(out, "/* ");
                push_str(out, c.as_str());
                push_str(out, " */");
                assert(out@ =~= start + asm_text(*self));
            },
            Asm::Mov(d, s) => push_dest_src(out, "mov", d, s),
            Asm::Lea(d, s) => push_dest_src(out, "lea", d, s),
            Asm::Add(d, s) => push_dest_src(out, "add", d, s),
            Asm::Sub(d, s) => push_dest_src(out, "sub", d, s),
            Asm::IMul(d, s) => push_dest_src(out, "imul", d, s),
            Asm::IDiv(s) => {
                push_str(out, "idiv ");
                s.push_text(out);
                assert(out@ =~= start + asm_text(*self));
            },
            Asm::Cqo => push_str(out, "cqo"),
            Asm::Cdq => push_str(out, "cdq"),
            Asm::Neg(d) => {
                push_str(out, "neg ");
                d.push_text(out);
                assert(out@ =~= start + asm_text(*self));
            },
            Asm::Xor(d, s) => push_dest_src(out, "xor", d, s),
            Asm::And(d, s) => push_dest_src(out, "and", d, s),
            Asm::Or(d, s) => push_dest_src(out, "or", d, s),
            Asm::Cmp(a, b) => {
                push_str(out, "cmp ");
                a.push_text(out);
                push_str(out, ", ");
                b.push_text(out);
                assert(out@ =~= start + asm_text(*self));
            },
            Asm::SetCc(c, d) => {
                push_str(out, "set");
                push_str(out, c.name());
                push_str(out, " ");
                d.push_text(out);
                assert(out@ =~= start + asm_text(*self));
            },
            Asm::Push(s) => {
                push_str(out, "push ");
                s.push_text(out);
                assert(out@ =~= start + asm_text(*self));
            },
            Asm::Leave => push_str(out, "leave"),
            Asm::Ret => push_str(out, "ret"),
            Asm::Call(l) => {
                push_str(out, "call ");
                push_str(out, l.as_str());
                assert(out@ =~= start + asm_text(*self));
            },
            Asm::Jmp(l) => {
                push_str(out, "jmp ");
                push_str(out, l.as_str());
                assert(out@ =~= start + asm_text(*self));
            },
            Asm::Jz(l) => {
                push_str(out, "jz ");
                push_str(out, l.as_str());
                assert(out@ =~= start + asm_text(*self));
            },
            Asm::Jnz(l) => {
                push_str(out, "jnz ");
                push_str(out, l.as_str());
                assert(out@ =~= start + asm_text(*self));
            },
            Asm::Label(l) => {
                push_str(out, l.as_str());
                push_str(out, ":");
                assert(out@ =~= start + asm_text(*self));
            },
        }
    }
}

/// Appends `.globl <name>` on a line of its own when `global` holds.
fn push_globl(out: &mut String, global: bool, name: &str)
    ensures
        final(out)@ == old(out)@ + globl_text(global, name@),
{
    if global {
        push_str(out, ".globl ");
        push_str(out, name);
        push_str(out, "\n");
        assert(out@ =~= old(out)@ + globl_text(global, name@));
    } else {
        assert(out@ =~= old(out)@ + globl_text(global, name@));
    }
}

impl DataDecl {
    pub fn push_text(&self, out: &mut String)
        ensures
            final(out)@ == old(out)@ + data_decl_text(*self),
    {
        let ghost start = out@;
        match self {
            DataDecl::String { label, content } => {
                push_str(out, ".");
                push_str(out, label.as_str());
                push_str(out, ": .asciz \"");
                push_str(out, content.as_str());
                push_str(out, "\"");
            },
            DataDecl::NamedString { global, name, content } => {
                push_globl(out, *global, name.as_str());
                push_str(out, name.as_str());
                push_str(out, ": .asciz \"");
                push_str(out, content.as_str());
                push_str(out, "\"");
            },
        }
        assert(out@ =~= start + data_decl_text(*self));
    }
}

impl RodataDecl {
    pub fn push_text(&self, out: &mut String)
        ensures
            final(out)@ == old(out)@ + rodata_decl_text(*self),
    {
        let ghost start = out@;
        match self {
            RodataDecl::Integer { global, name, bytes, value } => {
                push_globl(out, *global, name.as_str());
                let directive = if *bytes == 1 {
                    ".byte"
                } else if *bytes == 2 {
                    ".short"
                } else if *bytes == 4 {
                    ".long"
                } else {
                    ".quad"
                };
                assert(directive@ == int_directive(*bytes));
                push_str(out, name.as_str());
                push_str(out, ":\n    ");
                push_str(out, directive);
                push_str(out, " ");
                push_i64(out, *value);
            },
        }
        assert(out@ =~= start + rodata_decl_text(*self));
    }
}

impl TextDecl {
    /// Appends the declaration: a function is its label, preceded by
    /// `.globl` when it is global, and one indented line per instruction.
    pub fn push_text(&self, out: &mut String)
        ensures
            final(out)@ == old(out)@ + text_decl_text(*self),
    {
        let ghost start = out@;
        match self {
            TextDecl::Function { global, name, ins } => {
                push_globl(out, *global, name.as_str());
                push_str(out, name.as_str());
                push_str(out, ":\n");
                let ghost head = out@;
                let mut i: usize = 0;
                while i < ins.len()
                    invariant
                        i <= ins@.len(),
                        out@ == head + asm_lines(ins@.take(i as int)),
                    decreases ins@.len() - i,
                {
                    push_str(out, "    ");
                    ins[i].push_text(out);
                    push_str(out, "\n");
                    proof {
                        let t = ins@.take(i + 1);
                        assert(t.drop_last() =~= ins@.take(i as int));
                        assert(t.last() == ins@[i as int]);
                        assert(out@ =~= head + asm_lines(t));
                    }
                    i = i + 1;
                }
                assert(ins@.take(ins@.len() as int) =~= ins@);
                assert(out@ =~= start + text_decl_text(*self));
            },
            TextDecl::Extern(name) => {
                push_str(out, ".extern ");
                push_str(out, name.as_str());
                assert(out@ =~= start + text_decl_text(*self));
            },
        }
    }
}

impl File {
    /// The assembly source.
    pub fn to_text(&self) -> (r: String)
        ensures
            r@ == file_text(*self),
    {
        let mut s = String::from_str(".intel_syntax noprefix\n");
        push_str(&mut s, ".section .data\n\n");
        let ghost head = s@;
        let mut i: usize = 0;
        while i < self.data_section.len()
            invariant
                i <= self.data_section@.len(),
                s@ == head + data_lines(self.data_section@.take(i as int)),
            decreases self.data_section@.len() - i,
        {
            self.data_section[i].push_text(&mut s);
            push_str(&mut s, "\n");
            proof {
                let t = self.data_section@.take(i + 1);
                assert(t.drop_last() =~= self.data_section@.take(i as int));
                assert(t.last() == self.data_section@[i as int]);
                assert(s@ =~= head + data_lines(t));
            }
            i = i + 1;
        }
        assert(self.data_section@.take(self.data_section@.len() as int) =~= self.data_section@);
        let ghost after_data = s@;
        if self.rodata_section.len() > 0 {
            push_str(&mut s, ".section .rodata\n\n");
            let ghost rohead = s@;
            let mut i: usize = 0;
            while i < self.rodata_section.len()
                invariant
                    i <= self.rodata_section@.len(),
                    s@ == rohead + rodata_lines(self.rodata_section@.take(i as int)),
                decreases self.rodata_section@.len() - i,
            {
                self.rodata_section[i].push_text(&mut s);
                push_str(&mut s, "\n");
                proof {
                    let t = self.rodata_section@.take(i + 1);
                    assert(t.drop_last() =~= self.rodata_section@.take(i as int));
                    assert(t.last() == self.rodata_section@[i as int]);
                    assert(s@ =~= rohead + rodata_lines(t));
                }
                i = i + 1;
            }
            assert(self.rodata_section@.take(self.rodata_section@.len() as int) =~= self.rodata_section@);
        }
        let ghost ro = if self.rodata_section@.len() > 0 {
            ".section .rodata\n\n"@ + rodata_lines(self.rodata_section@)
        } else {
            Seq::<char>::empty()
        };
        assert(s@ =~= after_data + ro);
        push_str(&mut s, ".section .text\n\n");
        let ghost thead = s@;
        let mut i: usize = 0;
        while i < self.text_section.len()
            invariant
                i <= self.text_section@.len(),
                s@ == thead + text_lines(self.text_section@.take(i as int)),
            decreases self.text_section@.len() - i,
        {
            self.text_section[i].push_text(&mut s);
            push_str(&mut s, "\n");
            proof {
                let t = self.text_section@.take(i + 1);
                assert(t.drop_last() =~= self.text_section@.take(i as int));
                assert(t.last() == self.text_section@[i as int]);
                assert(s@ =~= thead + text_lines(t));
            }
            i = i + 1;
        }
        assert(self.text_section@.take(self.text_section@.len() as int) =~= self.text_section@);
        push_str(&mut s, ".section .note.GNU-stack,\"\",@progbits\n");
        assert(s@ =~= file_text(*self));
        s
    }
}

} // verus!
