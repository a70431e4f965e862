use nalvm::decoder::{
    decode_op, ByteReader, DecodeError, UndefinedOperation, ADD, APP, CNV, CPY, DIV, FLS, IFA,
    IFE, IN, INC, MOD, OUT, PAR, RET, SET, SHL,
};
use nalvm::ops::{BinOp, Op, OpType, Operand, UnOp};

fn reader(code: &[u8]) -> ByteReader {
    ByteReader::new(code.to_vec())
}

#[test]
fn decode_unexpected_end() {
    let code = [
        // inc
        INC,
    ];

    let mut code = reader(&code);
    let actual = decode_op(&mut code);

    assert!(matches!(actual, Err(DecodeError::UnexpectedEnd)));
    assert!(code.is_empty());
}

#[test]
fn decode_unknown_op_code() {
    let code = [
        // ? u16 loc(12) ref(8)
        0xFF_u8,
        0b0100_0010,
        12,
        0b1100_0000,
        8,
    ];

    let mut code = reader(&code);
    let actual = decode_op(&mut code);

    assert!(matches!(actual, Err(DecodeError::UnknownOpCode)));
}

#[test]
fn decode_incorrect_variant() {
    let code = [
        // inc u16 loc(12){loc(0)} ref(8)
        INC,
        0b1000_0010,
        12,
        0b1100_0000,
        8,
        0,
    ];

    let mut code = reader(&code);
    let actual = decode_op(&mut code);

    assert!(matches!(actual, Err(DecodeError::IncorrectVariant)));
}

#[test]
fn decode_un_short() {
    let code = [
        // inc i16 loc(16)
        INC,
        0b0000_0011,
        16,
    ];

    let expected = Op::Inc(UnOp::new(Operand::Loc(16)), OpType::I16);

    let mut code = reader(&code);
    let actual = decode_op(&mut code).unwrap();

    assert_eq!(actual, expected);
    assert!(code.is_empty());
}

#[test]
fn decode_un_long() {
    let code = [
        // inc i16 ind(16)
        INC,
        0b0000_0011,
        0b1001_0000,
        16,
    ];

    let expected = Op::Inc(UnOp::new(Operand::Ind(16)), OpType::I16);

    let mut code = reader(&code);
    let actual = decode_op(&mut code).unwrap();

    assert_eq!(actual, expected);
    assert!(code.is_empty());
}

#[test]
fn decode_un_first_offset() {
    let code = [
        // inc i16 ind(16){ref(1)}
        INC,
        0b0100_0011,
        0b1001_0000,
        16,
        0b1100_0000,
        1,
    ];

    let expected = Op::Inc(
        UnOp::new(Operand::Ind(16)).with_first(Operand::Ref(1)),
        OpType::I16,
    );

    let mut code = reader(&code);
    let actual = decode_op(&mut code).unwrap();

    assert_eq!(actual, expected);
    assert!(code.is_empty());
}

#[test]
fn decode_bin_short() {
    let code = [
        // set i16 loc(8) loc(16)
        SET,
        0b0000_0011,
        8,
        16,
    ];

    let expected = Op::Mov(BinOp::new(Operand::Loc(8), Operand::Loc(16)), OpType::I16);

    let mut code = reader(&code);
    let actual = decode_op(&mut code).unwrap();

    assert_eq!(actual, expected);
    assert!(code.is_empty());
}

#[test]
fn decode_bin_long() {
    let code = [
        // add u32 loc(8) ind(16)
        ADD,
        0b0000_0100,
        0b1000_0001,
        8,
        0,
        0b1001_0000,
        16,
    ];

    let expected = Op::Add(BinOp::new(Operand::Loc(8), Operand::Ind(16)), OpType::U32);

    let mut code = reader(&code);
    let actual = decode_op(&mut code).unwrap();

    assert_eq!(actual, expected);
    assert!(code.is_empty());
}

#[test]
fn decode_bin_first_offset() {
    let code = [
        // set u32 ret(8){val(5)} ref(16)
        SET,
        0b0100_0100,
        0b1010_0000,
        8,
        0b1100_0000,
        16,
        0b1011_0000,
        5,
    ];

    let expected = Op::Mov(
        BinOp::new(Operand::Ret(8), Operand::Ref(16)).with_first(Operand::Val(5)),
        OpType::U32,
    );

    let mut code = reader(&code);
    let actual = decode_op(&mut code).unwrap();

    assert_eq!(actual, expected);
    assert!(code.is_empty());
}

#[test]
fn decode_bin_second_offset() {
    let code = [
        // div u32 ret(8) ref(16){val(5)}
        DIV,
        0b1000_0100,
        0b1010_0000,
        8,
        0b1100_0000,
        16,
        0b1011_0000,
        5,
    ];

    let expected = Op::Div(
        BinOp::new(Operand::Ret(8), Operand::Ref(16)).with_second(Operand::Val(5)),
        OpType::U32,
    );

    let mut code = reader(&code);
    let actual = decode_op(&mut code).unwrap();

    assert_eq!(actual, expected);
    assert!(code.is_empty());
}

#[test]
fn decode_bin_both_offset() {
    let code = [
        // mod u32 ret(8){val(5)} ref(16){val(5)}
        MOD,
        0b1100_0100,
        0b1010_0000,
        8,
        0b1100_0000,
        16,
        0b1011_0000,
        5,
    ];

    let expected = Op::Mod(
        BinOp::new(Operand::Ret(8), Operand::Ref(16)).with_both(Operand::Val(5)),
        OpType::U32,
    );

    let mut code = reader(&code);
    let actual = decode_op(&mut code).unwrap();

    assert_eq!(actual, expected);
    assert!(code.is_empty());
}

#[test]
fn decode_cnv() {
    let code = [
        // cnv u8 u16 loc(12) loc(9)
        CNV,
        0b0010_0000,
        12,
        9,
    ];

    let expected = Op::Cnv(Operand::Loc(12), Operand::Loc(9), OpType::U8, OpType::U16);

    let mut code = reader(&code);
    let actual = decode_op(&mut code).unwrap();

    assert_eq!(actual, expected);
    assert!(code.is_empty());
}

#[test]
fn decode_shl() {
    let code = [
        // shl u32 loc(12) loc(9)
        SHL,
        0b0000_0100,
        12,
        9,
    ];

    let expected = Op::Shl(Operand::Loc(12), Operand::Loc(9), OpType::U32);

    let mut code = reader(&code);
    let actual = decode_op(&mut code).unwrap();

    assert_eq!(actual, expected);
    assert!(code.is_empty());
}

#[test]
fn decode_ife() {
    let code = [
        // ife u16 loc(12){ref(4)} ref(8)
        IFE,
        0b0100_0010,
        12,
        0b1100_0000,
        8,
        0b1100_0011,
        4,
        0,
        0,
        0,
    ];

    let expected = Op::Ife(
        BinOp::new(Operand::Loc(12), Operand::Ref(8)).with_first(Operand::Ref(4)),
        OpType::U16,
    );

    let mut code = reader(&code);
    let actual = decode_op(&mut code).unwrap();

    assert_eq!(actual, expected);
    assert!(code.is_empty());
}

#[test]
fn decode_ifa() {
    let code = [
        // ifa u32 loc(12) ref(8)
        IFA,
        0b0000_0100,
        12,
        0b1100_0000,
        8,
    ];

    let expected = Op::Ifa(BinOp::new(Operand::Loc(12), Operand::Ref(8)), OpType::U32);

    let mut code = reader(&code);
    let actual = decode_op(&mut code).unwrap();

    assert_eq!(actual, expected);
    assert!(code.is_empty());
}

#[test]
fn decode_app() {
    let code = [
        // app ref(8)
        APP,
        0b1100_0000,
        8,
    ];

    let expected = Op::App(Operand::Ref(8));

    let mut code = reader(&code);
    let actual = decode_op(&mut code).unwrap();

    assert_eq!(actual, expected);
    assert!(code.is_empty());
}

#[test]
fn decode_par() {
    let code = [
        // par f32 ref(8){val(6)}
        PAR,
        0b0101_1011,
        0b1100_0000,
        8,
        0b1011_0000,
        6,
    ];

    let expected = Op::Par(
        UnOp::new(Operand::Ref(8)).with_first(Operand::Val(6)),
        OpType::F32,
    );

    let mut code = reader(&code);
    let actual = decode_op(&mut code).unwrap();

    assert_eq!(actual, expected);
    assert!(code.is_empty());
}

#[test]
fn decode_ret() {
    let code = [
        // ret u8 loc(16)
        RET,
        0b0000_0000,
        16,
    ];

    let expected = Op::Ret(UnOp::new(Operand::Loc(16)), OpType::U8);

    let mut code = reader(&code);
    let actual = decode_op(&mut code).unwrap();

    assert_eq!(actual, expected);
    assert!(code.is_empty());
}

#[test]
fn decode_in() {
    let code = [
        // in loc(0){loc(1)} loc(2){loc(1)}
        IN,
        0b1100_0000,
        0,
        2,
        1,
    ];

    let expected =
        Op::In(BinOp::new(Operand::Loc(0), Operand::Loc(2)).with_both(Operand::Loc(1)));

    let mut code = reader(&code);
    let actual = decode_op(&mut code).unwrap();

    assert_eq!(actual, expected);
    assert!(code.is_empty());
}

#[test]
fn decode_out() {
    let code = [
        // out loc(0){loc(1)}
        OUT,
        0b0100_0000,
        0,
        1,
    ];

    let expected = Op::Out(UnOp::new(Operand::Loc(0)).with_first(Operand::Loc(1)));

    let mut code = reader(&code);
    let actual = decode_op(&mut code).unwrap();

    assert_eq!(actual, expected);
    assert!(code.is_empty());
}

#[test]
fn decode_fls() {
    let code = [
        // fls
        FLS,
    ];

    let expected = Op::Fls;

    let mut code = reader(&code);
    let actual = decode_op(&mut code).unwrap();

    assert_eq!(actual, expected);
    assert!(code.is_empty());
}

#[test]
fn decode_cpy() {
    let code = [
        // cpy loc(0) loc(1) val(12)
        CPY,
        0,
        1,
        0b1011_0000,
        12,
    ];

    let expected = Op::Cpy(Operand::Loc(0), Operand::Loc(1), Operand::Val(12));

    let mut code = reader(&code);
    let actual = decode_op(&mut code).unwrap();

    assert_eq!(actual, expected);
    assert!(code.is_empty());
}

#[test]
fn decode_undefined_type_tag() {
    let mut code = reader(&[INC, 0b0000_1100, 16]);
    assert_eq!(
        decode_op(&mut code),
        Err(DecodeError::UndefinedOperation(UndefinedOperation::OpType(12)))
    );
    assert_eq!(code.position(), 2);
}

#[test]
fn decode_undefined_operand_kind() {
    let mut code = reader(&[APP, 0b1111_0000, 1]);
    assert_eq!(
        decode_op(&mut code),
        Err(DecodeError::UndefinedOperation(UndefinedOperation::OperandKind(7)))
    );
}

#[test]
fn decode_long_operand_is_little_endian() {
    let mut code = reader(&[APP, 0b1011_0011, 0x78, 0x56, 0x34, 0x12]);
    assert_eq!(decode_op(&mut code), Ok(Op::App(Operand::Val(0x1234_5678))));
    assert!(code.is_empty());
}

#[test]
fn decode_short_value_bytes_end_early() {
    let mut code = reader(&[APP, 0b1011_0011, 0x78]);
    assert_eq!(decode_op(&mut code), Err(DecodeError::UnexpectedEnd));
    assert!(code.is_empty());
}

#[test]
fn decode_empty_operand_and_glb() {
    let mut code = reader(&[CPY, 0b1110_0000, 0, 0b1101_0000, 7, 3]);
    assert_eq!(
        decode_op(&mut code),
        Ok(Op::Cpy(Operand::Emp, Operand::Glb(7), Operand::Loc(3)))
    );
}

#[test]
fn decode_sequence_of_operations() {
    let mut code = reader(&[FLS, INC, 0b0000_0011, 16, 0]);
    assert_eq!(decode_op(&mut code), Ok(Op::Fls));
    assert_eq!(
        decode_op(&mut code),
        Ok(Op::Inc(UnOp::new(Operand::Loc(16)), OpType::I16))
    );
    assert_eq!(decode_op(&mut code), Ok(Op::Nop));
    assert_eq!(decode_op(&mut code), Err(DecodeError::UnexpectedEnd));
}

#[test]
fn decode_canonical_long_form() {
    let mut code = reader(&[
        SET,
        0b1100_0101,
        0x83,
        1,
        0,
        0,
        0,
        0xB3,
        0x2A,
        0,
        0,
        0,
        0x93,
        4,
        0,
        0,
        0,
    ]);
    assert_eq!(
        decode_op(&mut code),
        Ok(Op::Mov(
            BinOp::new(Operand::Loc(1), Operand::Val(42)).with_both(Operand::Ind(4)),
            OpType::I32
        ))
    );
    assert!(code.is_empty());
}
