//! The operand and operation vocabulary shared by the decoder and the executor.
use vstd::prelude::*;

verus! {

/// The machine word: unsigned, 64 bits wide.
pub type UWord = u64;

/// The signed machine word.
pub type IWord = i64;

/// Width of the machine word in bytes.
pub const WORD_SIZE: u64 = 8;

/// The twelve primitive value types an operation can be typed with.
#[derive(Clone, Copy, Debug, PartialEq, Eq, Structural)]
pub enum OpType {
    U8,
    I8,
    U16,
    I16,
    U32,
    I32,
    U64,
    I64,
    Uw,
    Iw,
    F32,
    F64,
}

/// Size of a value of type `t`, in bytes.
pub open spec fn type_size(t: OpType) -> nat {
    match t {
        OpType::U8 | OpType::I8 => 1,
        OpType::U16 | OpType::I16 => 2,
        OpType::U32 | OpType::I32 | OpType::F32 => 4,
        _ => 8,
    }
}

pub open spec fn is_float(t: OpType) -> bool {
    t == OpType::F32 || t == OpType::F64
}

pub open spec fn is_signed(t: OpType) -> bool {
    match t {
        OpType::I8 | OpType::I16 | OpType::I32 | OpType::I64 | OpType::Iw => true,
        _ => false,
    }
}

impl OpType {
    /// Size of a value of this type, in bytes.
    pub fn size(&self) -> (r: UWord)
        ensures
            r == type_size(*self),
    {
        match self {
            OpType::U8 | OpType::I8 => 1,
            OpType::U16 | OpType::I16 => 2,
            OpType::U32 | OpType::I32 | OpType::F32 => 4,
            _ => 8,
        }
    }

    pub fn is_float(&self) -> (r: bool)
        ensures
            r == is_float(*self),
    {
        matches!(self, OpType::F32 | OpType::F64)
    }

    pub fn is_signed(&self) -> (r: bool)
        ensures
            r == is_signed(*self),
    {
        matches!(self, OpType::I8 | OpType::I16 | OpType::I32 | OpType::I64 | OpType::Iw)
    }
}


/// An operand: where a value is read from or written to.
#[derive(Clone, Copy, Debug, PartialEq, Eq, Structural)]
pub enum Operand {
    /// A byte offset into the current frame.
    Loc(UWord),
    /// A pointer stored at a byte offset of the current frame.
    Ind(UWord),
    /// A byte offset into the return-value slot of the current call.
    Ret(UWord),
    /// An immediate value.
    Val(UWord),
    /// The address of a byte offset of the current frame.
    Ref(UWord),
    /// An absolute address.
    Glb(UWord),
    /// No operand.
    Emp,
}

/// The payload of an operand with `off` added to it, wrapping at the word width.
pub open spec fn offset_operand(a: Operand, off: UWord) -> Operand {
    match a {
        Operand::Loc(u) => Operand::Loc(wrap_add(u, off)),
        Operand::Ind(u) => Operand::Ind(wrap_add(u, off)),
        Operand::Ret(u) => Operand::Ret(wrap_add(u, off)),
        Operand::Val(u) => Operand::Val(wrap_add(u, off)),
        Operand::Ref(u) => Operand::Ref(wrap_add(u, off)),
        Operand::Glb(u) => Operand::Glb(wrap_add(u, off)),
        Operand::Emp => Operand::Emp,
    }
}

/// Word addition modulo 2^64.
pub open spec fn wrap_add(a: UWord, b: UWord) -> UWord {
    ((a as int + b as int) % 0x1_0000_0000_0000_0000) as UWord
}

/// Adds two words modulo 2^64.
pub fn word_add(a: UWord, b: UWord) -> (r: UWord)
    ensures
        r == wrap_add(a, b),
{
    ((a as u128 + b as u128) % 0x1_0000_0000_0000_0000u128) as UWord
}

impl Operand {
    /// This operand with `off` added to its payload; `Emp` stays `Emp`.
    pub fn offset_by(self, off: UWord) -> (r: Operand)
        ensures
            r == offset_operand(self, off),
    {
        match self {
            Operand::Loc(u) => Operand::Loc(word_add(u, off)),
            Operand::Ind(u) => Operand::Ind(word_add(u, off)),
            Operand::Ret(u) => Operand::Ret(word_add(u, off)),
            Operand::Val(u) => Operand::Val(word_add(u, off)),
            Operand::Ref(u) => Operand::Ref(word_add(u, off)),
            Operand::Glb(u) => Operand::Glb(word_add(u, off)),
            Operand::Emp => Operand::Emp,
        }
    }
}

/// Which operands of a unary or binary operation carry a runtime offset.
#[derive(Clone, Copy, Debug, PartialEq, Eq, Structural)]
pub enum Variant {
    Plain,
    First,
    Second,
    Both,
}

/// A unary operation's operand, with an optional offset.
#[derive(Clone, Copy, Debug, PartialEq, Eq, Structural)]
pub enum UnOp {
    Plain { x: Operand },
    First { x: Operand, offset: Operand },
}

impl UnOp {
    pub fn new(x: Operand) -> (r: UnOp)
        ensures
            r == (UnOp::Plain { x }),
    {
        UnOp::Plain { x }
    }

    pub fn with_first(self, offset: Operand) -> (r: UnOp)
        ensures
            r == (UnOp::First { x: self.spec_x(), offset }),
    {
        UnOp::First { x: self.x(), offset }
    }

    pub open spec fn spec_x(self) -> Operand {
        match self {
            UnOp::Plain { x } => x,
            UnOp::First { x, .. } => x,
        }
    }

    /// The operand itself, before any offset.
    #[verifier::when_used_as_spec(spec_x)]
    pub fn x(self) -> (r: Operand)
        ensures
            r == self.spec_x(),
    {
        match self {
            UnOp::Plain { x } => x,
            UnOp::First { x, .. } => x,
        }
    }
}

/// A binary operation's operands, with an optional offset on either or both.
#[derive(Clone, Copy, Debug, PartialEq, Eq, Structural)]
pub enum BinOp {
    Plain { x: Operand, y: Operand },
    First { x: Operand, y: Operand, offset: Operand },
    Second { x: Operand, y: Operand, offset: Operand },
    Both { x: Operand, y: Operand, offset: Operand },
}

impl BinOp {
    pub fn new(x: Operand, y: Operand) -> (r: BinOp)
        ensures
            r == (BinOp::Plain { x, y }),
    {
        BinOp::Plain { x, y }
    }

    pub open spec fn spec_x(self) -> Operand {
        match self {
            BinOp::Plain { x, .. } => x,
            BinOp::First { x, .. } => x,
            BinOp::Second { x, .. } => x,
            BinOp::Both { x, .. } => x,
        }
    }

    pub open spec fn spec_y(self) -> Operand {
        match self {
            BinOp::Plain { y, .. } => y,
            BinOp::First { y, .. } => y,
            BinOp::Second { y, .. } => y,
            BinOp::Both { y, .. } => y,
        }
    }

    #[verifier::when_used_as_spec(spec_x)]
    pub fn x(self) -> (r: Operand)
        ensures
            r == self.spec_x(),
    {
        match self {
            BinOp::Plain { x, .. } => x,
            BinOp::First { x, .. } => x,
            BinOp::Second { x, .. } => x,
            BinOp::Both { x, .. } => x,
        }
    }

    #[verifier::when_used_as_spec(spec_y)]
    pub fn y(self) -> (r: Operand)
        ensures
            r == self.spec_y(),
    {
        match self {
            BinOp::Plain { y, .. } => y,
            BinOp::First { y, .. } => y,
            BinOp::Second { y, .. } => y,
            BinOp::Both { y, .. } => y,
        }
    }

    pub fn with_first(self, offset: Operand) -> (r: BinOp)
        ensures
            r == (BinOp::First { x: self.spec_x(), y: self.spec_y(), offset }),
    {
        BinOp::First { x: self.x(), y: self.y(), offset }
    }

    pub fn with_second(self, offset: Operand) -> (r: BinOp)
        ensures
            r == (BinOp::Second { x: self.spec_x(), y: self.spec_y(), offset }),
    {
        BinOp::Second { x: self.x(), y: self.y(), offset }
    }

    pub fn with_both(self, offset: Operand) -> (r: BinOp)
        ensures
            r == (BinOp::Both { x: self.spec_x(), y: self.spec_y(), offset }),
    {
        BinOp::Both { x: self.x(), y: self.y(), offset }
    }
}

/// One operation of a program.
#[derive(Clone, Copy, Debug, PartialEq, Eq, Structural)]
pub enum Op {
    Nop,
    End(Operand),
    Slp(Operand),
    Mov(BinOp, OpType),
    Cnv(Operand, Operand, OpType, OpType),
    Add(BinOp, OpType),
    Sub(BinOp, OpType),
    Mul(BinOp, OpType),
    Div(BinOp, OpType),
    Mod(BinOp, OpType),
    Shl(Operand, Operand, OpType),
    Shr(Operand, Operand, OpType),
    And(BinOp, OpType),
    Or(BinOp, OpType),
    Xor(BinOp, OpType),
    Not(UnOp, OpType),
    Neg(UnOp, OpType),
    Inc(UnOp, OpType),
    Dec(UnOp, OpType),
    Go(Operand),
    Ift(UnOp, OpType),
    Iff(UnOp, OpType),
    Ife(BinOp, OpType),
    Ifl(BinOp, OpType),
    Ifg(BinOp, OpType),
    Ine(BinOp, OpType),
    Inl(BinOp, OpType),
    Ing(BinOp, OpType),
    Ifa(BinOp, OpType),
    Ifo(BinOp, OpType),
    Ifx(BinOp, OpType),
    Ina(BinOp, OpType),
    Ino(BinOp, OpType),
    Inx(BinOp, OpType),
    App(Operand),
    Par(UnOp, OpType),
    Clf(Operand),
    Ret(UnOp, OpType),
    In(BinOp),
    Out(UnOp),
    Fls,
    Sfd(Operand),
    Gfd(Operand),
    Zer(Operand, Operand),
    Cmp(Operand, Operand, Operand),
    Cpy(Operand, Operand, Operand),
}

/// An operation that tests a condition and, when it fails, skips what it guards.
pub open spec fn is_conditional(op: Op) -> bool {
    match op {
        Op::Ift(..) | Op::Iff(..) | Op::Ife(..) | Op::Ifl(..) | Op::Ifg(..) | Op::Ine(..)
        | Op::Inl(..) | Op::Ing(..) | Op::Ifa(..) | Op::Ifo(..) | Op::Ifx(..) | Op::Ina(..)
        | Op::Ino(..) | Op::Inx(..) | Op::Cmp(..) => true,
        _ => false,
    }
}

impl Op {
    pub fn is_conditional(&self) -> (r: bool)
        ensures
            r == is_conditional(*self),
    {
        match self {
            Op::Ift(..) | Op::Iff(..) | Op::Ife(..) | Op::Ifl(..) | Op::Ifg(..) | Op::Ine(..)
            | Op::Inl(..) | Op::Ing(..) | Op::Ifa(..) | Op::Ifo(..) | Op::Ifx(..) | Op::Ina(..)
            | Op::Ino(..) | Op::Inx(..) | Op::Cmp(..) => true,
            _ => false,
        }
    }
}

} // verus!
