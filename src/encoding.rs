//! The canonical wire encoding of operations, and the proof that the decoder
//! reads back every operation so encoded.
use vstd::prelude::*;
use crate::ops::{BinOp, Op, OpType, Operand, UWord, UnOp, Variant};
use crate::memory::le_value;
use crate::decoder::{
    ADD, AND, APP, CLF, CMP, CNV, CPY, DEC, DIV, END, FLS, GFD, GO, IFA, IFE, IFF, IFG, IFL, IFO,
    IFT, IFX, IN, INA, INC, INE, ING, INL, INO, INX, MOD, MUL, NEG, NOP, NOT, OR, OUT, PAR, RET,
    SET, SFD, SHL, SHR, SLP, SUB, XOR, ZER, DecodeError, parse_bin, parse_bin_typed, parse_op,
    parse_operand, parse_pair, parse_triple, parse_type, parse_type_variant, parse_un,
    parse_un_typed, take_byte,
};

verus! {

pub open spec fn tag_of_type(t: OpType) -> u8 {
    match t {
        OpType::U8 => 0,
        OpType::I8 => 1,
        OpType::U16 => 2,
        OpType::I16 => 3,
        OpType::U32 => 4,
        OpType::I32 => 5,
        OpType::U64 => 6,
        OpType::I64 => 7,
        OpType::Uw => 8,
        OpType::Iw => 9,
        OpType::F64 => 10,
        OpType::F32 => 11,
    }
}

pub open spec fn kind_of(o: Operand) -> u8 {
    match o {
        Operand::Loc(_) => 0,
        Operand::Ind(_) => 1,
        Operand::Ret(_) => 2,
        Operand::Val(_) => 3,
        Operand::Ref(_) => 4,
        Operand::Glb(_) => 5,
        Operand::Emp => 6,
    }
}

pub open spec fn payload(o: Operand) -> UWord {
    match o {
        Operand::Loc(u) | Operand::Ind(u) | Operand::Ret(u) | Operand::Val(u) | Operand::Ref(u)
        | Operand::Glb(u) => u,
        Operand::Emp => 0,
    }
}

/// The operand's payload fits the four value bytes of the wire format.
pub open spec fn operand_fits(o: Operand) -> bool {
    payload(o) < 0x1_0000_0000
}

/// An operand in long form with four value bytes.
pub open spec fn encode_operand(o: Operand) -> Seq<u8> {
    let u = payload(o);
    seq![
        (0x83 + 16 * kind_of(o)) as u8,
        (u & 0xFF) as u8,
        ((u >> 8) & 0xFF) as u8,
        ((u >> 16) & 0xFF) as u8,
        ((u >> 24) & 0xFF) as u8,
    ]
}

pub open spec fn variant_bits(v: Variant) -> u8 {
    match v {
        Variant::Plain => 0,
        Variant::First => 1,
        Variant::Second => 2,
        Variant::Both => 3,
    }
}

pub open spec fn un_variant(un: UnOp) -> Variant {
    match un {
        UnOp::Plain { .. } => Variant::Plain,
        UnOp::First { .. } => Variant::First,
    }
}

pub open spec fn bin_variant(bin: BinOp) -> Variant {
    match bin {
        BinOp::Plain { .. } => Variant::Plain,
        BinOp::First { .. } => Variant::First,
        BinOp::Second { .. } => Variant::Second,
        BinOp::Both { .. } => Variant::Both,
    }
}

pub open spec fn meta_byte(t: OpType, v: Variant) -> u8 {
    (tag_of_type(t) + 64 * variant_bits(v)) as u8
}

pub open spec fn encode_un(un: UnOp) -> Seq<u8> {
    match un {
        UnOp::Plain { x } => encode_operand(x),
        UnOp::First { x, offset } => encode_operand(x) + encode_operand(offset),
    }
}

pub open spec fn encode_bin(bin: BinOp) -> Seq<u8> {
    match bin {
        BinOp::Plain { x, y } => encode_operand(x) + encode_operand(y),
        BinOp::First { x, y, offset } | BinOp::Second { x, y, offset } | BinOp::Both {
            x,
            y,
            offset,
        } => encode_operand(x) + encode_operand(y) + encode_operand(offset),
    }
}

pub open spec fn encode_un_typed(un: UnOp, t: OpType) -> Seq<u8> {
    seq![meta_byte(t, un_variant(un))] + encode_un(un)
}

pub open spec fn encode_bin_typed(bin: BinOp, t: OpType) -> Seq<u8> {
    seq![meta_byte(t, bin_variant(bin))] + encode_bin(bin)
}

pub open spec fn un_fits(un: UnOp) -> bool {
    match un {
        UnOp::Plain { x } => operand_fits(x),
        UnOp::First { x, offset } => operand_fits(x) && operand_fits(offset),
    }
}

pub open spec fn bin_fits(bin: BinOp) -> bool {
    match bin {
        BinOp::Plain { x, y } => operand_fits(x) && operand_fits(y),
        BinOp::First { x, y, offset } | BinOp::Second { x, y, offset } | BinOp::Both {
            x,
            y,
            offset,
        } => operand_fits(x) && operand_fits(y) && operand_fits(offset),
    }
}

/// The operation's operands all fit the wire format.
pub open spec fn well_formed(op: Op) -> bool {
    match op {
        Op::Nop | Op::Fls => true,
        Op::End(x) | Op::Slp(x) | Op::Go(x) | Op::App(x) | Op::Clf(x) | Op::Sfd(x) | Op::Gfd(x) => operand_fits(x),
        Op::Mov(b, _) | Op::Add(b, _) | Op::Sub(b, _) | Op::Mul(b, _) | Op::Div(b, _) | Op::Mod(b, _)
        | Op::And(b, _) | Op::Or(b, _) | Op::Xor(b, _) | Op::Ife(b, _) | Op::Ifl(b, _) | Op::Ifg(b, _)
        | Op::Ine(b, _) | Op::Inl(b, _) | Op::Ing(b, _) | Op::Ifa(b, _) | Op::Ifo(b, _) | Op::Ifx(b, _)
        | Op::Ina(b, _) | Op::Ino(b, _) | Op::Inx(b, _) | Op::In(b) => bin_fits(b),
        Op::Not(u, _) | Op::Neg(u, _) | Op::Inc(u, _) | Op::Dec(u, _) | Op::Ift(u, _) | Op::Iff(u, _)
        | Op::Par(u, _) | Op::Ret(u, _) | Op::Out(u) => un_fits(u),
        Op::Shl(x, y, _) | Op::Shr(x, y, _) | Op::Cnv(x, y, _, _) | Op::Zer(x, y) => operand_fits(x)
            && operand_fits(y),
        Op::Cmp(x, y, z) | Op::Cpy(x, y, z) => operand_fits(x) && operand_fits(y) && operand_fits(z),
    }
}

/// The canonical encoding of an operation: operands in long form, `In` and
/// `Out` with type tag zero.
#[verifier::opaque]
pub open spec fn encode_op(op: Op) -> Seq<u8> {
    match op {
        Op::Nop => seq![NOP],
        Op::Fls => seq![FLS],
        Op::End(x) => seq![END] + encode_operand(x),
        Op::Slp(x) => seq![SLP] + encode_operand(x),
        Op::Go(x) => seq![GO] + encode_operand(x),
        Op::App(x) => seq![APP] + encode_operand(x),
        Op::Clf(x) => seq![CLF] + encode_operand(x),
        Op::Sfd(x) => seq![SFD] + encode_operand(x),
        Op::Gfd(x) => seq![GFD] + encode_operand(x),
        Op::Mov(b, t) => seq![SET] + encode_bin_typed(b, t),
        Op::Add(b, t) => seq![ADD] + encode_bin_typed(b, t),
        Op::Sub(b, t) => seq![SUB] + encode_bin_typed(b, t),
        Op::Mul(b, t) => seq![MUL] + encode_bin_typed(b, t),
        Op::Div(b, t) => seq![DIV] + encode_bin_typed(b, t),
        Op::Mod(b, t) => seq![MOD] + encode_bin_typed(b, t),
        Op::And(b, t) => seq![AND] + encode_bin_typed(b, t),
        Op::Or(b, t) => seq![OR] + encode_bin_typed(b, t),
        Op::Xor(b, t) => seq![XOR] + encode_bin_typed(b, t),
        Op::Ife(b, t) => seq![IFE] + encode_bin_typed(b, t),
        Op::Ifl(b, t) => seq![IFL] + encode_bin_typed(b, t),
        Op::Ifg(b, t) => seq![IFG] + encode_bin_typed(b, t),
        Op::Ine(b, t) => seq![INE] + encode_bin_typed(b, t),
        Op::Inl(b, t) => seq![INL] + encode_bin_typed(b, t),
        Op::Ing(b, t) => seq![ING] + encode_bin_typed(b, t),
        Op::Ifa(b, t) => seq![IFA] + encode_bin_typed(b, t),
        Op::Ifo(b, t) => seq![IFO] + encode_bin_typed(b, t),
        Op::Ifx(b, t) => seq![IFX] + encode_bin_typed(b, t),
        Op::Ina(b, t) => seq![INA] + encode_bin_typed(b, t),
        Op::Ino(b, t) => seq![INO] + encode_bin_typed(b, t),
        Op::Inx(b, t) => seq![INX] + encode_bin_typed(b, t),
        Op::In(b) => seq![IN] + encode_bin_typed(b, OpType::U8),
        Op::Not(u, t) => seq![NOT] + encode_un_typed(u, t),
        Op::Neg(u, t) => seq![NEG] + encode_un_typed(u, t),
        Op::Inc(u, t) => seq![INC] + encode_un_typed(u, t),
        Op::Dec(u, t) => seq![DEC] + encode_un_typed(u, t),
        Op::Ift(u, t) => seq![IFT] + encode_un_typed(u, t),
        Op::Iff(u, t) => seq![IFF] + encode_un_typed(u, t),
        Op::Par(u, t) => seq![PAR] + encode_un_typed(u, t),
        Op::Ret(u, t) => seq![RET] + encode_un_typed(u, t),
        Op::Out(u) => seq![OUT] + encode_un_typed(u, OpType::U8),
        Op::Shl(x, y, t) => seq![SHL, tag_of_type(t)] + encode_operand(x) + encode_operand(y),
        Op::Shr(x, y, t) => seq![SHR, tag_of_type(t)] + encode_operand(x) + encode_operand(y),
        Op::Cnv(x, y, t, u) => seq![CNV, (tag_of_type(t) + 16 * tag_of_type(u)) as u8]
            + encode_operand(x) + encode_operand(y),
        Op::Zer(x, y) => seq![ZER] + encode_operand(x) + encode_operand(y),
        Op::Cmp(x, y, z) => seq![CMP] + encode_operand(x) + encode_operand(y) + encode_operand(z),
        Op::Cpy(x, y, z) => seq![CPY] + encode_operand(x) + encode_operand(y) + encode_operand(z),
    }
}

/// `s` holds `e` at position `i`.
pub open spec fn holds_at(s: Seq<u8>, i: int, e: Seq<u8>) -> bool {
    0 <= i && i + e.len() <= s.len() && s.subrange(i, i + e.len()) == e
}

proof fn lemma_holds_split(s: Seq<u8>, i: int, a: Seq<u8>, b: Seq<u8>)
    requires
        holds_at(s, i, a + b),
    ensures
        holds_at(s, i, a),
        holds_at(s, i + a.len(), b),
{
    let w = s.subrange(i, i + (a + b).len());
    assert(w == a + b);
    assert(s.subrange(i, i + a.len()) =~= w.subrange(0, a.len() as int));
    assert((a + b).subrange(0, a.len() as int) =~= a);
    assert(s.subrange(i + a.len(), i + a.len() + b.len()) =~= w.subrange(
        a.len() as int,
        (a.len() + b.len()) as int,
    ));
    assert((a + b).subrange(a.len() as int, (a.len() + b.len()) as int) =~= b);
}

proof fn lemma_four_bytes(u: u64)
    requires
        u < 0x1_0000_0000,
    ensures
        ((u & 0xFF) as u8) as int + 256 * ((((u >> 8) & 0xFF) as u8) as int + 256 * (((((u >> 16)
            & 0xFF) as u8) as int) + 256 * ((((u >> 24) & 0xFF) as u8) as int))) == u,
{
    assert((u & 0xFF) < 256 && ((u >> 8) & 0xFF) < 256 && ((u >> 16) & 0xFF) < 256 && ((u >> 24)
        & 0xFF) < 256) by (bit_vector);
    assert((u & 0xFF) + 256 * (((u >> 8) & 0xFF) + 256 * (((u >> 16) & 0xFF) + 256 * ((u >> 24)
        & 0xFF))) == u) by (bit_vector)
        requires
            u < 0x1_0000_0000,
    ;
}

proof fn lemma_parse_operand(s: Seq<u8>, i: int, o: Operand)
    requires
        operand_fits(o),
        holds_at(s, i, encode_operand(o)),
    ensures
        parse_operand(s, i) == (Ok::<Operand, DecodeError>(o), i + 5),
{
    let e = encode_operand(o);
    assert(s[i] == e[0]);
    let v = s.subrange(i + 1, i + 5);
    assert(v =~= e.subrange(1, 5));
    reveal_with_fuel(le_value, 5);
    lemma_four_bytes(payload(o));
    assert(v.drop_first().drop_first().drop_first().drop_first().len() == 0);
    assert(le_value(v) == payload(o));
}

proof fn lemma_parse_meta(s: Seq<u8>, i: int, t: OpType, v: Variant)
    requires
        holds_at(s, i, seq![meta_byte(t, v)]),
    ensures
        parse_type_variant(s, i) == (Ok::<(OpType, Variant), DecodeError>((t, v)), i + 1),
        parse_type(s, i) == (Ok::<OpType, DecodeError>(t), i + 1),
{
    assert(s[i] == seq![meta_byte(t, v)][0]);
}

proof fn lemma_parse_un(s: Seq<u8>, i: int, un: UnOp)
    requires
        un_fits(un),
        holds_at(s, i, encode_un(un)),
    ensures
        parse_un(s, i, un_variant(un)) == (Ok::<UnOp, DecodeError>(un), i + encode_un(un).len()),
{
    match un {
        UnOp::Plain { x } => {
            lemma_parse_operand(s, i, x);
        },
        UnOp::First { x, offset } => {
            lemma_holds_split(s, i, encode_operand(x), encode_operand(offset));
            lemma_parse_operand(s, i, x);
            lemma_parse_operand(s, i + 5, offset);
        },
    }
}

proof fn lemma_parse_bin(s: Seq<u8>, i: int, bin: BinOp)
    requires
        bin_fits(bin),
        holds_at(s, i, encode_bin(bin)),
    ensures
        parse_bin(s, i, bin_variant(bin)) == (Ok::<BinOp, DecodeError>(bin), i + encode_bin(bin).len()),
{
    match bin {
        BinOp::Plain { x, y } => {
            lemma_holds_split(s, i, encode_operand(x), encode_operand(y));
            lemma_parse_operand(s, i, x);
            lemma_parse_operand(s, i + 5, y);
        },
        BinOp::First { x, y, offset } | BinOp::Second { x, y, offset } | BinOp::Both {
            x,
            y,
            offset,
        } => {
            lemma_holds_split(s, i, encode_operand(x) + encode_operand(y), encode_operand(offset));
            lemma_holds_split(s, i, encode_operand(x), encode_operand(y));
            lemma_parse_operand(s, i, x);
            lemma_parse_operand(s, i + 5, y);
            lemma_parse_operand(s, i + 10, offset);
        },
    }
}

proof fn lemma_parse_un_typed(s: Seq<u8>, i: int, un: UnOp, t: OpType)
    requires
        un_fits(un),
        holds_at(s, i, encode_un_typed(un, t)),
    ensures
        parse_un_typed(s, i) == (Ok::<(UnOp, OpType), DecodeError>((un, t)), i + encode_un_typed(un, t).len()),
{
    lemma_holds_split(s, i, seq![meta_byte(t, un_variant(un))], encode_un(un));
    lemma_parse_meta(s, i, t, un_variant(un));
    lemma_parse_un(s, i + 1, un);
}

proof fn lemma_parse_bin_typed(s: Seq<u8>, i: int, bin: BinOp, t: OpType)
    requires
        bin_fits(bin),
        holds_at(s, i, encode_bin_typed(bin, t)),
    ensures
        parse_bin_typed(s, i) == (Ok::<(BinOp, OpType), DecodeError>((bin, t)), i + encode_bin_typed(bin, t).len()),
{
    lemma_holds_split(s, i, seq![meta_byte(t, bin_variant(bin))], encode_bin(bin));
    lemma_parse_meta(s, i, t, bin_variant(bin));
    lemma_parse_bin(s, i + 1, bin);
}

proof fn lemma_parse_pair(s: Seq<u8>, i: int, x: Operand, y: Operand)
    requires
        operand_fits(x),
        operand_fits(y),
        holds_at(s, i, encode_operand(x) + encode_operand(y)),
    ensures
        parse_pair(s, i) == (Ok::<(Operand, Operand), DecodeError>((x, y)), i + 10),
{
    lemma_holds_split(s, i, encode_operand(x), encode_operand(y));
    lemma_parse_operand(s, i, x);
    lemma_parse_operand(s, i + 5, y);
}

proof fn lemma_parse_triple(s: Seq<u8>, i: int, x: Operand, y: Operand, z: Operand)
    requires
        operand_fits(x),
        operand_fits(y),
        operand_fits(z),
        holds_at(s, i, encode_operand(x) + encode_operand(y) + encode_operand(z)),
    ensures
        parse_triple(s, i) == (Ok::<(Operand, Operand, Operand), DecodeError>((x, y, z)), i + 15),
{
    lemma_holds_split(s, i, encode_operand(x) + encode_operand(y), encode_operand(z));
    lemma_parse_pair(s, i, x, y);
    lemma_parse_operand(s, i + 10, z);
}

proof fn lemma_code_then(s: Seq<u8>, e: Seq<u8>, tail: Seq<u8>)
    requires
        e == seq![e[0]] + tail,
        holds_at(s, 0, e),
    ensures
        holds_at(s, 1, tail),
        take_byte(s, 0) == (Ok::<u8, DecodeError>(e[0]), 1int),
{
    lemma_holds_split(s, 0, seq![e[0]], tail);
    assert(s[0] == s.subrange(0, e.len() as int)[0]);
}

proof fn lemma_round_trip_one(code: u8, x: Operand, rest: Seq<u8>)
    requires
        operand_fits(x),
        code == END || code == SLP || code == GO || code == APP || code == CLF || code == SFD || code == GFD,
    ensures
        parse_op(seq![code] + encode_operand(x) + rest, 0) == (Ok::<Op, DecodeError>(
            crate::decoder::one_operand_op(code, x).unwrap()), 6int),
{
    reveal(parse_op);
    let e = seq![code] + encode_operand(x);
    let s = e + rest;
    assert(s.subrange(0, e.len() as int) =~= e);
    lemma_code_then(s, e, encode_operand(x));
    lemma_parse_operand(s, 1, x);
}

proof fn lemma_round_trip_binary(code: u8, b: BinOp, t: OpType, rest: Seq<u8>)
    requires
        bin_fits(b),
        crate::decoder::is_binary_code(code) || code == IN,
    ensures
        parse_op(seq![code] + encode_bin_typed(b, t) + rest, 0) == (Ok::<Op, DecodeError>(
            if code == IN { Op::In(b) } else { crate::decoder::binary_op(code, b, t).unwrap() }),
            (1 + encode_bin_typed(b, t).len()) as int),
{
    reveal(parse_op);
    let e = seq![code] + encode_bin_typed(b, t);
    let s = e + rest;
    assert(s.subrange(0, e.len() as int) =~= e);
    lemma_code_then(s, e, encode_bin_typed(b, t));
    lemma_parse_bin_typed(s, 1, b, t);
}

proof fn lemma_round_trip_unary(code: u8, u: UnOp, t: OpType, rest: Seq<u8>)
    requires
        un_fits(u),
        crate::decoder::is_unary_code(code),
    ensures
        parse_op(seq![code] + encode_un_typed(u, t) + rest, 0) == (Ok::<Op, DecodeError>(
            crate::decoder::unary_op(code, u, t).unwrap()), (1 + encode_un_typed(u, t).len()) as int),
{
    reveal(parse_op);
    let e = seq![code] + encode_un_typed(u, t);
    let s = e + rest;
    assert(s.subrange(0, e.len() as int) =~= e);
    lemma_code_then(s, e, encode_un_typed(u, t));
    lemma_parse_un_typed(s, 1, u, t);
}

proof fn lemma_round_trip_plain(code: u8, rest: Seq<u8>)
    requires
        code == NOP || code == FLS,
    ensures
        parse_op(seq![code] + rest, 0) == (Ok::<Op, DecodeError>(if code == NOP { Op::Nop } else { Op::Fls }), 1int),
{
    reveal(parse_op);
    assert((seq![code] + rest)[0] == code);
}

proof fn lemma_round_trip_shift(code: u8, x: Operand, y: Operand, t: OpType, rest: Seq<u8>)
    requires
        operand_fits(x),
        operand_fits(y),
        code == SHL || code == SHR,
    ensures
        parse_op(seq![code, tag_of_type(t)] + encode_operand(x) + encode_operand(y) + rest, 0) == (Ok::<
            Op,
            DecodeError,
        >(if code == SHL { Op::Shl(x, y, t) } else { Op::Shr(x, y, t) }), 12int),
{
    reveal(parse_op);
    let e = seq![code, tag_of_type(t)] + encode_operand(x) + encode_operand(y);
    let s = e + rest;
    assert(s.subrange(0, e.len() as int) =~= e);
    let tail = seq![tag_of_type(t)] + (encode_operand(x) + encode_operand(y));
    assert(e =~= seq![e[0]] + tail);
    lemma_code_then(s, e, tail);
    lemma_holds_split(s, 1, seq![tag_of_type(t)], encode_operand(x) + encode_operand(y));
    assert(tag_of_type(t) == meta_byte(t, Variant::Plain));
    lemma_parse_meta(s, 1, t, Variant::Plain);
    lemma_parse_pair(s, 2, x, y);
}

proof fn lemma_round_trip_cnv(x: Operand, y: Operand, t: OpType, u: OpType, rest: Seq<u8>)
    requires
        operand_fits(x),
        operand_fits(y),
    ensures
        parse_op(seq![CNV, (tag_of_type(t) + 16 * tag_of_type(u)) as u8] + encode_operand(x)
            + encode_operand(y) + rest, 0) == (Ok::<Op, DecodeError>(Op::Cnv(x, y, t, u)), 12int),
{
    reveal(parse_op);
    let m = (tag_of_type(t) + 16 * tag_of_type(u)) as u8;
    let e = seq![CNV, m] + encode_operand(x) + encode_operand(y);
    let s = e + rest;
    assert(s.subrange(0, e.len() as int) =~= e);
    let tail = seq![m] + (encode_operand(x) + encode_operand(y));
    assert(e =~= seq![e[0]] + tail);
    lemma_code_then(s, e, tail);
    lemma_holds_split(s, 1, seq![m], encode_operand(x) + encode_operand(y));
    assert(s[1] == seq![m][0]);
    lemma_parse_pair(s, 2, x, y);
}

proof fn lemma_round_trip_zer(x: Operand, y: Operand, rest: Seq<u8>)
    requires
        operand_fits(x),
        operand_fits(y),
    ensures
        parse_op(seq![ZER] + encode_operand(x) + encode_operand(y) + rest, 0) == (Ok::<Op, DecodeError>(
            Op::Zer(x, y)), 11int),
{
    reveal(parse_op);
    let e = seq![ZER] + encode_operand(x) + encode_operand(y);
    let s = e + rest;
    assert(s.subrange(0, e.len() as int) =~= e);
    let tail = encode_operand(x) + encode_operand(y);
    assert(e =~= seq![e[0]] + tail);
    lemma_code_then(s, e, tail);
    lemma_parse_pair(s, 1, x, y);
}

proof fn lemma_round_trip_triple(code: u8, x: Operand, y: Operand, z: Operand, rest: Seq<u8>)
    requires
        operand_fits(x),
        operand_fits(y),
        operand_fits(z),
        code == CMP || code == CPY,
    ensures
        parse_op(seq![code] + encode_operand(x) + encode_operand(y) + encode_operand(z) + rest, 0) == (Ok::<
            Op,
            DecodeError,
        >(if code == CMP { Op::Cmp(x, y, z) } else { Op::Cpy(x, y, z) }), 16int),
{
    reveal(parse_op);
    let e = seq![code] + encode_operand(x) + encode_operand(y) + encode_operand(z);
    let s = e + rest;
    assert(s.subrange(0, e.len() as int) =~= e);
    let tail = encode_operand(x) + encode_operand(y) + encode_operand(z);
    assert(e =~= seq![e[0]] + tail);
    lemma_code_then(s, e, tail);
    lemma_parse_triple(s, 1, x, y, z);
}

proof fn lemma_encoded_binary(op: Op, rest: Seq<u8>)
    requires
        well_formed(op),
        op matches Op::Mov(..) || op matches Op::Add(..) || op matches Op::Sub(..) || op matches Op::Mul(..)
            || op matches Op::Div(..) || op matches Op::Mod(..) || op matches Op::And(..) || op matches Op::Or(..)
            || op matches Op::Xor(..) || op matches Op::In(..),
    ensures
        parse_op(encode_op(op) + rest, 0) == (Ok::<Op, DecodeError>(op), encode_op(op).len() as int),
{
    reveal(encode_op);
    match op {
        Op::Mov(b, t) => lemma_round_trip_binary(SET, b, t, rest),
        Op::Add(b, t) => lemma_round_trip_binary(ADD, b, t, rest),
        Op::Sub(b, t) => lemma_round_trip_binary(SUB, b, t, rest),
        Op::Mul(b, t) => lemma_round_trip_binary(MUL, b, t, rest),
        Op::Div(b, t) => lemma_round_trip_binary(DIV, b, t, rest),
        Op::Mod(b, t) => lemma_round_trip_binary(MOD, b, t, rest),
        Op::And(b, t) => lemma_round_trip_binary(AND, b, t, rest),
        Op::Or(b, t) => lemma_round_trip_binary(OR, b, t, rest),
        Op::Xor(b, t) => lemma_round_trip_binary(XOR, b, t, rest),
        Op::In(b) => lemma_round_trip_binary(IN, b, OpType::U8, rest),
        _ => {},
    }
}

proof fn lemma_encoded_test(op: Op, rest: Seq<u8>)
    requires
        well_formed(op),
        op matches Op::Ife(..) || op matches Op::Ifl(..) || op matches Op::Ifg(..) || op matches Op::Ine(..)
            || op matches Op::Inl(..) || op matches Op::Ing(..) || op matches Op::Ifa(..) || op matches Op::Ifo(..)
            || op matches Op::Ifx(..) || op matches Op::Ina(..) || op matches Op::Ino(..) || op matches Op::Inx(..),
    ensures
        parse_op(encode_op(op) + rest, 0) == (Ok::<Op, DecodeError>(op), encode_op(op).len() as int),
{
    reveal(encode_op);
    match op {
        Op::Ife(b, t) => lemma_round_trip_binary(IFE, b, t, rest),
        Op::Ifl(b, t) => lemma_round_trip_binary(IFL, b, t, rest),
        Op::Ifg(b, t) => lemma_round_trip_binary(IFG, b, t, rest),
        Op::Ine(b, t) => lemma_round_trip_binary(INE, b, t, rest),
        Op::Inl(b, t) => lemma_round_trip_binary(INL, b, t, rest),
        Op::Ing(b, t) => lemma_round_trip_binary(ING, b, t, rest),
        Op::Ifa(b, t) => lemma_round_trip_binary(IFA, b, t, rest),
        Op::Ifo(b, t) => lemma_round_trip_binary(IFO, b, t, rest),
        Op::Ifx(b, t) => lemma_round_trip_binary(IFX, b, t, rest),
        Op::Ina(b, t) => lemma_round_trip_binary(INA, b, t, rest),
        Op::Ino(b, t) => lemma_round_trip_binary(INO, b, t, rest),
        Op::Inx(b, t) => lemma_round_trip_binary(INX, b, t, rest),
        _ => {},
    }
}

proof fn lemma_encoded_unary(op: Op, rest: Seq<u8>)
    requires
        well_formed(op),
        op matches Op::Not(..) || op matches Op::Neg(..) || op matches Op::Inc(..) || op matches Op::Dec(..)
            || op matches Op::Ift(..) || op matches Op::Iff(..) || op matches Op::Par(..) || op matches Op::Ret(..)
            || op matches Op::Out(..),
    ensures
        parse_op(encode_op(op) + rest, 0) == (Ok::<Op, DecodeError>(op), encode_op(op).len() as int),
{
    reveal(encode_op);
    match op {
        Op::Not(u, t) => lemma_round_trip_unary(NOT, u, t, rest),
        Op::Neg(u, t) => lemma_round_trip_unary(NEG, u, t, rest),
        Op::Inc(u, t) => lemma_round_trip_unary(INC, u, t, rest),
        Op::Dec(u, t) => lemma_round_trip_unary(DEC, u, t, rest),
        Op::Ift(u, t) => lemma_round_trip_unary(IFT, u, t, rest),
        Op::Iff(u, t) => lemma_round_trip_unary(IFF, u, t, rest),
        Op::Par(u, t) => lemma_round_trip_unary(PAR, u, t, rest),
        Op::Ret(u, t) => lemma_round_trip_unary(RET, u, t, rest),
        Op::Out(u) => lemma_round_trip_unary(OUT, u, OpType::U8, rest),
        _ => {},
    }
}

/// Decoding the canonical encoding of a well-formed operation gives the
/// operation back and consumes exactly its encoding, whatever follows it.
pub proof fn lemma_decode_encoded(op: Op, rest: Seq<u8>)
    requires
        well_formed(op),
    ensures
        parse_op(encode_op(op) + rest, 0) == (Ok::<Op, DecodeError>(op), encode_op(op).len() as int),
{
    if op matches Op::Mov(..) || op matches Op::Add(..) || op matches Op::Sub(..) || op matches Op::Mul(..)
        || op matches Op::Div(..) || op matches Op::Mod(..) || op matches Op::And(..) || op matches Op::Or(..)
        || op matches Op::Xor(..) || op matches Op::In(..) {
        lemma_encoded_binary(op, rest);
    } else if op matches Op::Ife(..) || op matches Op::Ifl(..) || op matches Op::Ifg(..) || op matches Op::Ine(..)
        || op matches Op::Inl(..) || op matches Op::Ing(..) || op matches Op::Ifa(..) || op matches Op::Ifo(..)
        || op matches Op::Ifx(..) || op matches Op::Ina(..) || op matches Op::Ino(..) || op matches Op::Inx(..) {
        lemma_encoded_test(op, rest);
    } else if op matches Op::Not(..) || op matches Op::Neg(..) || op matches Op::Inc(..) || op matches Op::Dec(..)
        || op matches Op::Ift(..) || op matches Op::Iff(..) || op matches Op::Par(..) || op matches Op::Ret(..)
        || op matches Op::Out(..) {
        lemma_encoded_unary(op, rest);
    } else {
        lemma_encoded_rest(op, rest);
    }
}

proof fn lemma_encoded_rest(op: Op, rest: Seq<u8>)
    requires
        well_formed(op),
        !(op matches Op::Mov(..) || op matches Op::Add(..) || op matches Op::Sub(..) || op matches Op::Mul(..)
            || op matches Op::Div(..) || op matches Op::Mod(..) || op matches Op::And(..) || op matches Op::Or(..)
            || op matches Op::Xor(..) || op matches Op::In(..) || op matches Op::Ife(..) || op matches Op::Ifl(..)
            || op matches Op::Ifg(..) || op matches Op::Ine(..) || op matches Op::Inl(..) || op matches Op::Ing(..)
            || op matches Op::Ifa(..) || op matches Op::Ifo(..) || op matches Op::Ifx(..) || op matches Op::Ina(..)
            || op matches Op::Ino(..) || op matches Op::Inx(..) || op matches Op::Not(..) || op matches Op::Neg(..)
            || op matches Op::Inc(..) || op matches Op::Dec(..) || op matches Op::Ift(..) || op matches Op::Iff(..)
            || op matches Op::Par(..) || op matches Op::Ret(..) || op matches Op::Out(..)),
    ensures
        parse_op(encode_op(op) + rest, 0) == (Ok::<Op, DecodeError>(op), encode_op(op).len() as int),
{
    reveal(encode_op);
    match op {
        Op::Nop => lemma_round_trip_plain(NOP, rest),
        Op::Fls => lemma_round_trip_plain(FLS, rest),
        Op::End(x) => lemma_round_trip_one(END, x, rest),
        Op::Slp(x) => lemma_round_trip_one(SLP, x, rest),
        Op::Go(x) => lemma_round_trip_one(GO, x, rest),
        Op::App(x) => lemma_round_trip_one(APP, x, rest),
        Op::Clf(x) => lemma_round_trip_one(CLF, x, rest),
        Op::Sfd(x) => lemma_round_trip_one(SFD, x, rest),
        Op::Gfd(x) => lemma_round_trip_one(GFD, x, rest),
        Op::Shl(x, y, t) => lemma_round_trip_shift(SHL, x, y, t, rest),
        Op::Shr(x, y, t) => lemma_round_trip_shift(SHR, x, y, t, rest),
        Op::Cnv(x, y, t, u) => lemma_round_trip_cnv(x, y, t, u, rest),
        Op::Zer(x, y) => lemma_round_trip_zer(x, y, rest),
        Op::Cmp(x, y, z) => lemma_round_trip_triple(CMP, x, y, z, rest),
        Op::Cpy(x, y, z) => lemma_round_trip_triple(CPY, x, y, z, rest),
        _ => {},
    }
}

} // verus!
