//! Reconstruction of operations from their wire format.
//!
//! An operation is an opcode byte, then for most opcodes a meta byte (type
//! tag in bits 0-3, a second type tag in bits 4-7 for `CNV`, the offset
//! variant in bits 6-7 otherwise), then its operands. An operand byte with
//! bit 7 clear is a `Loc` of its low seven bits; with bit 7 set, bits 4-6
//! give the operand kind and bits 0-1 the number of little-endian value
//! bytes that follow, minus one.
use vstd::prelude::*;
use crate::ops::{BinOp, Op, OpType, Operand, UWord, UnOp, Variant};
use crate::memory::{le_value, lemma_pow256_bound, pow256};

verus! {

pub const NOP: u8 = 0;
pub const END: u8 = 1;
pub const SLP: u8 = 2;
pub const SET: u8 = 3;
pub const CNV: u8 = 4;
pub const ADD: u8 = 5;
pub const SUB: u8 = 6;
pub const MUL: u8 = 7;
pub const DIV: u8 = 8;
pub const MOD: u8 = 9;
pub const SHL: u8 = 10;
pub const SHR: u8 = 11;
pub const AND: u8 = 12;
pub const OR: u8 = 13;
pub const XOR: u8 = 14;
pub const NOT: u8 = 15;
pub const NEG: u8 = 16;
pub const INC: u8 = 17;
pub const DEC: u8 = 18;
pub const GO: u8 = 19;
pub const IFT: u8 = 20;
pub const IFF: u8 = 21;
pub const IFE: u8 = 22;
pub const IFL: u8 = 23;
pub const IFG: u8 = 24;
pub const INE: u8 = 25;
pub const INL: u8 = 26;
pub const ING: u8 = 27;
pub const IFA: u8 = 28;
pub const IFO: u8 = 29;
pub const IFX: u8 = 30;
pub const INA: u8 = 31;
pub const INO: u8 = 32;
pub const INX: u8 = 33;
pub const APP: u8 = 34;
pub const PAR: u8 = 35;
pub const CLF: u8 = 36;
pub const RET: u8 = 37;
pub const IN: u8 = 38;
pub const OUT: u8 = 39;
pub const FLS: u8 = 40;
pub const SFD: u8 = 41;
pub const GFD: u8 = 42;
pub const ZER: u8 = 43;
pub const CMP: u8 = 44;
pub const CPY: u8 = 45;

/// A field of the wire format that holds no defined value.
#[derive(Clone, Copy, Debug, PartialEq, Eq, Structural)]
pub enum UndefinedOperation {
    /// A type tag above the last type.
    OpType(u8),
    /// An operand kind above the last kind.
    OperandKind(u8),
}

#[derive(Clone, Copy, Debug, PartialEq, Eq, Structural)]
pub enum DecodeError {
    UnexpectedEnd,
    UnknownOpCode,
    UndefinedOperation(UndefinedOperation),
    IncorrectVariant,
}

/// What a parser returns, and the position where it stopped.
pub type Parsed<T> = (Result<T, DecodeError>, int);

/// The type with tag `tag`.
pub open spec fn type_of_tag(tag: u8) -> Option<OpType> {
    if tag == 0 {
        Some(OpType::U8)
    } else if tag == 1 {
        Some(OpType::I8)
    } else if tag == 2 {
        Some(OpType::U16)
    } else if tag == 3 {
        Some(OpType::I16)
    } else if tag == 4 {
        Some(OpType::U32)
    } else if tag == 5 {
        Some(OpType::I32)
    } else if tag == 6 {
        Some(OpType::U64)
    } else if tag == 7 {
        Some(OpType::I64)
    } else if tag == 8 {
        Some(OpType::Uw)
    } else if tag == 9 {
        Some(OpType::Iw)
    } else if tag == 10 {
        Some(OpType::F64)
    } else if tag == 11 {
        Some(OpType::F32)
    } else {
        None
    }
}

pub open spec fn variant_of_bits(bits: u8) -> Variant {
    if bits == 0 {
        Variant::Plain
    } else if bits == 1 {
        Variant::First
    } else if bits == 2 {
        Variant::Second
    } else {
        Variant::Both
    }
}

/// The operand of kind `kind` with payload `v`.
pub open spec fn operand_of_kind(kind: u8, v: UWord) -> Option<Operand> {
    if kind == 0 {
        Some(Operand::Loc(v))
    } else if kind == 1 {
        Some(Operand::Ind(v))
    } else if kind == 2 {
        Some(Operand::Ret(v))
    } else if kind == 3 {
        Some(Operand::Val(v))
    } else if kind == 4 {
        Some(Operand::Ref(v))
    } else if kind == 5 {
        Some(Operand::Glb(v))
    } else if kind == 6 {
        Some(Operand::Emp)
    } else {
        None
    }
}

pub open spec fn take_byte(s: Seq<u8>, i: int) -> Parsed<u8> {
    if 0 <= i < s.len() {
        (Ok(s[i]), i + 1)
    } else {
        (Err(DecodeError::UnexpectedEnd), s.len() as int)
    }
}

/// The little-endian number in the `n` bytes at `i`.
pub open spec fn take_le(s: Seq<u8>, i: int, n: int) -> Parsed<UWord> {
    if 0 <= i && i + n <= s.len() {
        (Ok(le_value(s.subrange(i, i + n)) as UWord), i + n)
    } else {
        (Err(DecodeError::UnexpectedEnd), s.len() as int)
    }
}

pub open spec fn parse_operand(s: Seq<u8>, i: int) -> Parsed<Operand> {
    match take_byte(s, i) {
        (Err(e), j) => (Err(e), j),
        (Ok(meta), j) => if meta < 0x80 {
            (Ok(Operand::Loc(meta as UWord)), j)
        } else {
            match take_le(s, j, (meta % 4) + 1) {
                (Err(e), k) => (Err(e), k),
                (Ok(v), k) => match operand_of_kind((meta / 16) % 8, v) {
                    None => (Err(DecodeError::UndefinedOperation(UndefinedOperation::OperandKind((meta / 16) % 8))), k),
                    Some(o) => (Ok(o), k),
                },
            }
        },
    }
}

/// A meta byte read for its primary type tag and its variant.
pub open spec fn parse_type_variant(s: Seq<u8>, i: int) -> Parsed<(OpType, Variant)> {
    match take_byte(s, i) {
        (Err(e), j) => (Err(e), j),
        (Ok(meta), j) => match type_of_tag(meta % 16) {
            None => (Err(DecodeError::UndefinedOperation(UndefinedOperation::OpType(meta % 16))), j),
            Some(t) => (Ok((t, variant_of_bits(meta / 64))), j),
        },
    }
}

/// A meta byte read for its primary type tag alone.
pub open spec fn parse_type(s: Seq<u8>, i: int) -> Parsed<OpType> {
    match parse_type_variant(s, i) {
        (Err(e), j) => (Err(e), j),
        (Ok((t, _)), j) => (Ok(t), j),
    }
}

/// A meta byte read for two type tags, in its low and high halves.
pub open spec fn parse_type_pair(s: Seq<u8>, i: int) -> Parsed<(OpType, OpType)> {
    match take_byte(s, i) {
        (Err(e), j) => (Err(e), j),
        (Ok(meta), j) => match type_of_tag(meta % 16) {
            None => (Err(DecodeError::UndefinedOperation(UndefinedOperation::OpType(meta % 16))), j),
            Some(t) => match type_of_tag(meta / 16) {
                None => (Err(DecodeError::UndefinedOperation(UndefinedOperation::OpType(meta / 16))), j),
                Some(u) => (Ok((t, u)), j),
            },
        },
    }
}

pub open spec fn parse_un(s: Seq<u8>, i: int, var: Variant) -> Parsed<UnOp> {
    match parse_operand(s, i) {
        (Err(e), j) => (Err(e), j),
        (Ok(x), j) => match var {
            Variant::Plain => (Ok(UnOp::Plain { x }), j),
            Variant::First => match parse_operand(s, j) {
                (Err(e), k) => (Err(e), k),
                (Ok(offset), k) => (Ok(UnOp::First { x, offset }), k),
            },
            _ => (Err(DecodeError::IncorrectVariant), j),
        },
    }
}

pub open spec fn parse_bin(s: Seq<u8>, i: int, var: Variant) -> Parsed<BinOp> {
    match parse_operand(s, i) {
        (Err(e), j) => (Err(e), j),
        (Ok(x), j) => match parse_operand(s, j) {
            (Err(e), k) => (Err(e), k),
            (Ok(y), k) => match var {
                Variant::Plain => (Ok(BinOp::Plain { x, y }), k),
                _ => match parse_operand(s, k) {
                    (Err(e), l) => (Err(e), l),
                    (Ok(offset), l) => (Ok(
                        match var {
                            Variant::First => BinOp::First { x, y, offset },
                            Variant::Second => BinOp::Second { x, y, offset },
                            _ => BinOp::Both { x, y, offset },
                        },
                    ), l),
                },
            },
        },
    }
}

/// A meta byte and the unary operand it describes.
pub open spec fn parse_un_typed(s: Seq<u8>, i: int) -> Parsed<(UnOp, OpType)> {
    match parse_type_variant(s, i) {
        (Err(e), j) => (Err(e), j),
        (Ok((t, var)), j) => match parse_un(s, j, var) {
            (Err(e), k) => (Err(e), k),
            (Ok(un), k) => (Ok((un, t)), k),
        },
    }
}

/// A meta byte and the binary operands it describes.
pub open spec fn parse_bin_typed(s: Seq<u8>, i: int) -> Parsed<(BinOp, OpType)> {
    match parse_type_variant(s, i) {
        (Err(e), j) => (Err(e), j),
        (Ok((t, var)), j) => match parse_bin(s, j, var) {
            (Err(e), k) => (Err(e), k),
            (Ok(bin), k) => (Ok((bin, t)), k),
        },
    }
}

/// Two plain operands.
pub open spec fn parse_pair(s: Seq<u8>, i: int) -> Parsed<(Operand, Operand)> {
    match parse_operand(s, i) {
        (Err(e), j) => (Err(e), j),
        (Ok(x), j) => match parse_operand(s, j) {
            (Err(e), k) => (Err(e), k),
            (Ok(y), k) => (Ok((x, y)), k),
        },
    }
}

/// Three plain operands.
pub open spec fn parse_triple(s: Seq<u8>, i: int) -> Parsed<(Operand, Operand, Operand)> {
    match parse_pair(s, i) {
        (Err(e), j) => (Err(e), j),
        (Ok((x, y)), j) => match parse_operand(s, j) {
            (Err(e), k) => (Err(e), k),
            (Ok(z), k) => (Ok((x, y, z)), k),
        },
    }
}

/// Opcodes followed by a single operand.
pub open spec fn one_operand_op(code: u8, x: Operand) -> Option<Op> {
    if code == END {
        Some(Op::End(x))
    } else if code == SLP {
        Some(Op::Slp(x))
    } else if code == GO {
        Some(Op::Go(x))
    } else if code == APP {
        Some(Op::App(x))
    } else if code == CLF {
        Some(Op::Clf(x))
    } else if code == SFD {
        Some(Op::Sfd(x))
    } else if code == GFD {
        Some(Op::Gfd(x))
    } else {
        None
    }
}

/// Opcodes followed by a meta byte and binary operands.
pub open spec fn binary_op(code: u8, bin: BinOp, t: OpType) -> Option<Op> {
    if code == SET {
        Some(Op::Mov(bin, t))
    } else if code == ADD {
        Some(Op::Add(bin, t))
    } else if code == SUB {
        Some(Op::Sub(bin, t))
    } else if code == MUL {
        Some(Op::Mul(bin, t))
    } else if code == DIV {
        Some(Op::Div(bin, t))
    } else if code == MOD {
        Some(Op::Mod(bin, t))
    } else if code == AND {
        Some(Op::And(bin, t))
    } else if code == OR {
        Some(Op::Or(bin, t))
    } else if code == XOR {
        Some(Op::Xor(bin, t))
    } else if code == IFE {
        Some(Op::Ife(bin, t))
    } else if code == IFL {
        Some(Op::Ifl(bin, t))
    } else if code == IFG {
        Some(Op::Ifg(bin, t))
    } else if code == INE {
        Some(Op::Ine(bin, t))
    } else if code == INL {
        Some(Op::Inl(bin, t))
    } else if code == ING {
        Some(Op::Ing(bin, t))
    } else if code == IFA {
        Some(Op::Ifa(bin, t))
    } else if code == IFO {
        Some(Op::Ifo(bin, t))
    } else if code == IFX {
        Some(Op::Ifx(bin, t))
    } else if code == INA {
        Some(Op::Ina(bin, t))
    } else if code == INO {
        Some(Op::Ino(bin, t))
    } else if code == INX {
        Some(Op::Inx(bin, t))
    } else {
        None
    }
}

/// Opcodes followed by a meta byte and a unary operand.
pub open spec fn unary_op(code: u8, un: UnOp, t: OpType) -> Option<Op> {
    if code == NOT {
        Some(Op::Not(un, t))
    } else if code == NEG {
        Some(Op::Neg(un, t))
    } else if code == INC {
        Some(Op::Inc(un, t))
    } else if code == DEC {
        Some(Op::Dec(un, t))
    } else if code == IFT {
        Some(Op::Ift(un, t))
    } else if code == IFF {
        Some(Op::Iff(un, t))
    } else if code == PAR {
        Some(Op::Par(un, t))
    } else if code == RET {
        Some(Op::Ret(un, t))
    } else if code == OUT {
        Some(Op::Out(un))
    } else {
        None
    }
}

pub open spec fn is_one_operand_code(code: u8) -> bool {
    code == END || code == SLP || code == GO || code == APP || code == CLF || code == SFD || code == GFD
}

pub open spec fn is_binary_code(code: u8) -> bool {
    code == SET || (ADD <= code <= MOD) || (AND <= code <= XOR) || (IFE <= code <= INX)
}

pub open spec fn is_unary_code(code: u8) -> bool {
    (NOT <= code <= DEC) || code == IFT || code == IFF || code == PAR || code == RET || code == OUT
}

/// The operation encoded at position `i`.
#[verifier::opaque]
pub open spec fn parse_op(s: Seq<u8>, i: int) -> Parsed<Op> {
    match take_byte(s, i) {
        (Err(e), j) => (Err(e), j),
        (Ok(code), j) => if code == NOP {
            (Ok(Op::Nop), j)
        } else if code == FLS {
            (Ok(Op::Fls), j)
        } else if is_one_operand_code(code) {
            match parse_operand(s, j) {
                (Err(e), k) => (Err(e), k),
                (Ok(x), k) => (Ok(one_operand_op(code, x).unwrap()), k),
            }
        } else if is_binary_code(code) {
            match parse_bin_typed(s, j) {
                (Err(e), k) => (Err(e), k),
                (Ok((bin, t)), k) => (Ok(binary_op(code, bin, t).unwrap()), k),
            }
        } else if is_unary_code(code) {
            match parse_un_typed(s, j) {
                (Err(e), k) => (Err(e), k),
                (Ok((un, t)), k) => (Ok(unary_op(code, un, t).unwrap()), k),
            }
        } else if code == IN {
            match parse_bin_typed(s, j) {
                (Err(e), k) => (Err(e), k),
                (Ok((bin, _)), k) => (Ok(Op::In(bin)), k),
            }
        } else if code == SHL || code == SHR {
            match parse_type(s, j) {
                (Err(e), k) => (Err(e), k),
                (Ok(t), k) => match parse_pair(s, k) {
                    (Err(e), l) => (Err(e), l),
                    (Ok((x, y)), l) => (Ok(if code == SHL { Op::Shl(x, y, t) } else { Op::Shr(x, y, t) }), l),
                },
            }
        } else if code == CNV {
            match parse_type_pair(s, j) {
                (Err(e), k) => (Err(e), k),
                (Ok((t, u)), k) => match parse_pair(s, k) {
                    (Err(e), l) => (Err(e), l),
                    (Ok((x, y)), l) => (Ok(Op::Cnv(x, y, t, u)), l),
                },
            }
        } else if code == ZER {
            match parse_pair(s, j) {
                (Err(e), k) => (Err(e), k),
                (Ok((x, y)), k) => (Ok(Op::Zer(x, y)), k),
            }
        } else if code == CMP || code == CPY {
            match parse_triple(s, j) {
                (Err(e), k) => (Err(e), k),
                (Ok((x, y, z)), k) => (Ok(if code == CMP { Op::Cmp(x, y, z) } else { Op::Cpy(x, y, z) }), k),
            }
        } else {
            (Err(DecodeError::UnknownOpCode), j)
        },
    }
}

/// Bytes to decode, and how far decoding has gone.
pub struct ByteReader {
    bytes: Vec<u8>,
    pos: usize,
}

impl ByteReader {
    pub closed spec fn bytes(&self) -> Seq<u8> {
        self.bytes@
    }

    pub closed spec fn pos(&self) -> int {
        self.pos as int
    }

    pub closed spec fn wf(&self) -> bool {
        self.pos <= self.bytes@.len()
    }

    pub fn new(bytes: Vec<u8>) -> (r: ByteReader)
        ensures
            r.wf(),
            r.bytes() == bytes@,
            r.pos() == 0,
    {
        ByteReader { bytes, pos: 0 }
    }

    /// Whether every byte has been consumed.
    pub fn is_empty(&self) -> (r: bool)
        requires
            self.wf(),
        ensures
            r == (self.pos() == self.bytes().len()),
    {
        self.pos == self.bytes.len()
    }

    /// Number of bytes consumed.
    pub fn position(&self) -> (r: usize)
        ensures
            r == self.pos(),
    {
        self.pos
    }

    fn read_u8(&mut self) -> (r: Result<u8, DecodeError>)
        requires
            old(self).wf(),
        ensures
            final(self).wf(),
            final(self).bytes() == old(self).bytes(),
            (r, final(self).pos()) == take_byte(old(self).bytes(), old(self).pos()),
    {
        if self.pos < self.bytes.len() {
            let b = self.bytes[self.pos];
            self.pos = self.pos + 1;
            Ok(b)
        } else {
            Err(DecodeError::UnexpectedEnd)
        }
    }

    /// Reads an `n`-byte little-endian number.
    fn read_le(&mut self, n: usize) -> (r: Result<UWord, DecodeError>)
        requires
            old(self).wf(),
            1 <= n <= 4,
        ensures
            final(self).wf(),
            final(self).bytes() == old(self).bytes(),
            (r, final(self).pos()) == take_le(old(self).bytes(), old(self).pos(), n as int),
    {
        if n > self.bytes.len() - self.pos {
            self.pos = self.bytes.len();
            return Err(DecodeError::UnexpectedEnd);
        }
        let start = self.pos;
        let ghost s = self.bytes@.subrange(start as int, start + n);
        let mut i = n;
        let mut v: u64 = 0;
        proof {
            assert(s.subrange(n as int, n as int) =~= Seq::<u8>::empty());
        }
        while i > 0
            invariant
                0 <= i <= n <= 4,
                start + n <= self.bytes.len(),
                self.pos == start,
                s == self.bytes@.subrange(start as int, start + n),
                v == le_value(s.subrange(i as int, n as int)),
                v < pow256((n - i) as nat),
            decreases i,
        {
            i = i - 1;
            let b = self.bytes[start + i];
            proof {
                let tail = s.subrange(i as int, n as int);
                assert(tail.drop_first() =~= s.subrange(i + 1, n as int));
                assert(tail[0] == b);
                lemma_pow256_bound((n - i) as nat);
                assert(pow256((n - i) as nat) == 256 * pow256((n - i - 1) as nat));
                assert(v * 256 + b < pow256((n - i) as nat)) by (nonlinear_arith)
                    requires
                        v < pow256((n - i - 1) as nat),
                        b < 256,
                        pow256((n - i) as nat) == 256 * pow256((n - i - 1) as nat),
                ;
            }
            v = v * 256 + b as u64;
        }
        proof {
            assert(s.subrange(0, n as int) =~= s);
        }
        self.pos = start + n;
        Ok(v)
    }
}

fn type_from_tag(tag: u8) -> (r: Option<OpType>)
    ensures
        r == type_of_tag(tag),
{
    match tag {
        0 => Some(OpType::U8),
        1 => Some(OpType::I8),
        2 => Some(OpType::U16),
        3 => Some(OpType::I16),
        4 => Some(OpType::U32),
        5 => Some(OpType::I32),
        6 => Some(OpType::U64),
        7 => Some(OpType::I64),
        8 => Some(OpType::Uw),
        9 => Some(OpType::Iw),
        10 => Some(OpType::F64),
        11 => Some(OpType::F32),
        _ => None,
    }
}

fn variant_from_bits(bits: u8) -> (r: Variant)
    ensures
        r == variant_of_bits(bits),
{
    match bits {
        0 => Variant::Plain,
        1 => Variant::First,
        2 => Variant::Second,
        _ => Variant::Both,
    }
}

fn operand_from_kind(kind: u8, v: UWord) -> (r: Option<Operand>)
    ensures
        r == operand_of_kind(kind, v),
{
    match kind {
        0 => Some(Operand::Loc(v)),
        1 => Some(Operand::Ind(v)),
        2 => Some(Operand::Ret(v)),
        3 => Some(Operand::Val(v)),
        4 => Some(Operand::Ref(v)),
        5 => Some(Operand::Glb(v)),
        6 => Some(Operand::Emp),
        _ => None,
    }
}

impl ByteReader {
    fn decode_operand(&mut self) -> (r: Result<Operand, DecodeError>)
        requires
            old(self).wf(),
        ensures
            final(self).wf(),
            final(self).bytes() == old(self).bytes(),
            (r, final(self).pos()) == parse_operand(old(self).bytes(), old(self).pos()),
    {
        let meta = self.read_u8()?;
        if meta < 0x80 {
            return Ok(Operand::Loc(meta as UWord));
        }
        let v = self.read_le((meta % 4) as usize + 1)?;
        let kind = (meta / 16) % 8;
        match operand_from_kind(kind, v) {
            None => Err(DecodeError::UndefinedOperation(UndefinedOperation::OperandKind(kind))),
            Some(o) => Ok(o),
        }
    }

    fn decode_type_variant(&mut self) -> (r: Result<(OpType, Variant), DecodeError>)
        requires
            old(self).wf(),
        ensures
            final(self).wf(),
            final(self).bytes() == old(self).bytes(),
            (r, final(self).pos()) == parse_type_variant(old(self).bytes(), old(self).pos()),
    {
        let meta = self.read_u8()?;
        match type_from_tag(meta % 16) {
            None => Err(DecodeError::UndefinedOperation(UndefinedOperation::OpType(meta % 16))),
            Some(t) => Ok((t, variant_from_bits(meta / 64))),
        }
    }

    fn decode_type(&mut self) -> (r: Result<OpType, DecodeError>)
        requires
            old(self).wf(),
        ensures
            final(self).wf(),
            final(self).bytes() == old(self).bytes(),
            (r, final(self).pos()) == parse_type(old(self).bytes(), old(self).pos()),
    {
        let (t, _) = self.decode_type_variant()?;
        Ok(t)
    }

    fn decode_type_pair(&mut self) -> (r: Result<(OpType, OpType), DecodeError>)
        requires
            old(self).wf(),
        ensures
            final(self).wf(),
            final(self).bytes() == old(self).bytes(),
            (r, final(self).pos()) == parse_type_pair(old(self).bytes(), old(self).pos()),
    {
        let meta = self.read_u8()?;
        match type_from_tag(meta % 16) {
            None => Err(DecodeError::UndefinedOperation(UndefinedOperation::OpType(meta % 16))),
            Some(t) => match type_from_tag(meta / 16) {
                None => Err(DecodeError::UndefinedOperation(UndefinedOperation::OpType(meta / 16))),
                Some(u) => Ok((t, u)),
            },
        }
    }

    fn decode_un(&mut self, var: Variant) -> (r: Result<UnOp, DecodeError>)
        requires
            old(self).wf(),
        ensures
            final(self).wf(),
            final(self).bytes() == old(self).bytes(),
            (r, final(self).pos()) == parse_un(old(self).bytes(), old(self).pos(), var),
    {
        let x = self.decode_operand()?;
        match var {
            Variant::Plain => Ok(UnOp::Plain { x }),
            Variant::First => {
                let offset = self.decode_operand()?;
                Ok(UnOp::First { x, offset })
            },
            _ => Err(DecodeError::IncorrectVariant),
        }
    }

    fn decode_bin(&mut self, var: Variant) -> (r: Result<BinOp, DecodeError>)
        requires
            old(self).wf(),
        ensures
            final(self).wf(),
            final(self).bytes() == old(self).bytes(),
            (r, final(self).pos()) == parse_bin(old(self).bytes(), old(self).pos(), var),
    {
        let x = self.decode_operand()?;
        let y = self.decode_operand()?;
        match var {
            Variant::Plain => Ok(BinOp::Plain { x, y }),
            Variant::First => {
                let offset = self.decode_operand()?;
                Ok(BinOp::First { x, y, offset })
            },
            Variant::Second => {
                let offset = self.decode_operand()?;
                Ok(BinOp::Second { x, y, offset })
            },
            Variant::Both => {
                let offset = self.decode_operand()?;
                Ok(BinOp::Both { x, y, offset })
            },
        }
    }

    fn decode_un_typed(&mut self) -> (r: Result<(UnOp, OpType), DecodeError>)
        requires
            old(self).wf(),
        ensures
            final(self).wf(),
            final(self).bytes() == old(self).bytes(),
            (r, final(self).pos()) == parse_un_typed(old(self).bytes(), old(self).pos()),
    {
        let (t, var) = self.decode_type_variant()?;
        let un = self.decode_un(var)?;
        Ok((un, t))
    }

    fn decode_bin_typed(&mut self) -> (r: Result<(BinOp, OpType), DecodeError>)
        requires
            old(self).wf(),
        ensures
            final(self).wf(),
            final(self).bytes() == old(self).bytes(),
            (r, final(self).pos()) == parse_bin_typed(old(self).bytes(), old(self).pos()),
    {
        let (t, var) = self.decode_type_variant()?;
        let bin = self.decode_bin(var)?;
        Ok((bin, t))
    }

    fn decode_pair(&mut self) -> (r: Result<(Operand, Operand), DecodeError>)
        requires
            old(self).wf(),
        ensures
            final(self).wf(),
            final(self).bytes() == old(self).bytes(),
            (r, final(self).pos()) == parse_pair(old(self).bytes(), old(self).pos()),
    {
        let x = self.decode_operand()?;
        let y = self.decode_operand()?;
        Ok((x, y))
    }

    fn decode_triple(&mut self) -> (r: Result<(Operand, Operand, Operand), DecodeError>)
        requires
            old(self).wf(),
        ensures
            final(self).wf(),
            final(self).bytes() == old(self).bytes(),
            (r, final(self).pos()) == parse_triple(old(self).bytes(), old(self).pos()),
    {
        let (x, y) = self.decode_pair()?;
        let z = self.decode_operand()?;
        Ok((x, y, z))
    }
}

fn one_operand_from_code(code: u8, x: Operand) -> (r: Op)
    requires
        is_one_operand_code(code),
    ensures
        Some(r) == one_operand_op(code, x),
{
    if code == END {
        Op::End(x)
    } else if code == SLP {
        Op::Slp(x)
    } else if code == GO {
        Op::Go(x)
    } else if code == APP {
        Op::App(x)
    } else if code == CLF {
        Op::Clf(x)
    } else if code == SFD {
        Op::Sfd(x)
    } else {
        Op::Gfd(x)
    }
}

fn binary_from_code(code: u8, bin: BinOp, t: OpType) -> (r: Op)
    requires
        is_binary_code(code),
    ensures
        Some(r) == binary_op(code, bin, t),
{
    if code == SET {
        Op::Mov(bin, t)
    } else if code == ADD {
        Op::Add(bin, t)
    } else if code == SUB {
        Op::Sub(bin, t)
    } else if code == MUL {
        Op::Mul(bin, t)
    } else if code == DIV {
        Op::Div(bin, t)
    } else if code == MOD {
        Op::Mod(bin, t)
    } else if code == AND {
        Op::And(bin, t)
    } else if code == OR {
        Op::Or(bin, t)
    } else if code == XOR {
        Op::Xor(bin, t)
    } else if code == IFE {
        Op::Ife(bin, t)
    } else if code == IFL {
        Op::Ifl(bin, t)
    } else if code == IFG {
        Op::Ifg(bin, t)
    } else if code == INE {
        Op::Ine(bin, t)
    } else if code == INL {
        Op::Inl(bin, t)
    } else if code == ING {
        Op::Ing(bin, t)
    } else if code == IFA {
        Op::Ifa(bin, t)
    } else if code == IFO {
        Op::Ifo(bin, t)
    } else if code == IFX {
        Op::Ifx(bin, t)
    } else if code == INA {
        Op::Ina(bin, t)
    } else if code == INO {
        Op::Ino(bin, t)
    } else {
        Op::Inx(bin, t)
    }
}

fn unary_from_code(code: u8, un: UnOp, t: OpType) -> (r: Op)
    requires
        is_unary_code(code),
    ensures
        Some(r) == unary_op(code, un, t),
{
    if code == NOT {
        Op::Not(un, t)
    } else if code == NEG {
        Op::Neg(un, t)
    } else if code == INC {
        Op::Inc(un, t)
    } else if code == DEC {
        Op::Dec(un, t)
    } else if code == IFT {
        Op::Ift(un, t)
    } else if code == IFF {
        Op::Iff(un, t)
    } else if code == PAR {
        Op::Par(un, t)
    } else if code == RET {
        Op::Ret(un, t)
    } else {
        Op::Out(un)
    }
}

/// Decodes the operation at the reader's position and moves past it.
pub fn decode_op(bytes: &mut ByteReader) -> (r: Result<Op, DecodeError>)
    requires
        old(bytes).wf(),
    ensures
        final(bytes).wf(),
        final(bytes).bytes() == old(bytes).bytes(),
        (r, final(bytes).pos()) == parse_op(old(bytes).bytes(), old(bytes).pos()),
{
    proof {
        reveal(parse_op);
    }
    let code = bytes.read_u8()?;
    if code == NOP {
        Ok(Op::Nop)
    } else if code == FLS {
        Ok(Op::Fls)
    } else if code == END || code == SLP || code == GO || code == APP || code == CLF || code == SFD
        || code == GFD {
        let x = bytes.decode_operand()?;
        Ok(one_operand_from_code(code, x))
    } else if code == SET || (ADD <= code && code <= MOD) || (AND <= code && code <= XOR) || (IFE
        <= code && code <= INX) {
        let (bin, t) = bytes.decode_bin_typed()?;
        Ok(binary_from_code(code, bin, t))
    } else if (NOT <= code && code <= DEC) || code == IFT || code == IFF || code == PAR || code == RET
        || code == OUT {
        let (un, t) = bytes.decode_un_typed()?;
        Ok(unary_from_code(code, un, t))
    } else if code == IN {
        let (bin, _) = bytes.decode_bin_typed()?;
        Ok(Op::In(bin))
    } else if code == SHL || code == SHR {
        let t = bytes.decode_type()?;
        let (x, y) = bytes.decode_pair()?;
        Ok(
            if code == SHL {
                Op::Shl(x, y, t)
            } else {
                Op::Shr(x, y, t)
            },
        )
    } else if code == CNV {
        let (t, u) = bytes.decode_type_pair()?;
        let (x, y) = bytes.decode_pair()?;
        Ok(Op::Cnv(x, y, t, u))
    } else if code == ZER {
        let (x, y) = bytes.decode_pair()?;
        Ok(Op::Zer(x, y))
    } else if code == CMP || code == CPY {
        let (x, y, z) = bytes.decode_triple()?;
        Ok(
            if code == CMP {
                Op::Cmp(x, y, z)
            } else {
                Op::Cpy(x, y, z)
            },
        )
    } else {
        Err(DecodeError::UnknownOpCode)
    }
}

} // verus!
