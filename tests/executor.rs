use nalvm::executor::Executor;
use nalvm::files::Stream;
use nalvm::machine::{Executed, ExecutionError, ExecutionSuccess, Function};
use nalvm::memory::MemoryError;
use nalvm::ops::{BinOp, Op, OpType, Operand, UWord, UnOp};

const CONTINUE: Executed = Ok(ExecutionSuccess::Continue);

fn get_i32(exe: &Executor, o: Operand) -> Result<i32, ExecutionError> {
    exe.get_val(o, OpType::I32).map(|b| b as u32 as i32)
}

fn get_u32(exe: &Executor, o: Operand) -> Result<u32, ExecutionError> {
    exe.get_val(o, OpType::U32).map(|b| b as u32)
}

fn get_u8(exe: &Executor, o: Operand) -> Result<u8, ExecutionError> {
    exe.get_val(o, OpType::U8).map(|b| b as u8)
}

fn get_u16(exe: &Executor, o: Operand) -> Result<u16, ExecutionError> {
    exe.get_val(o, OpType::U16).map(|b| b as u16)
}

fn run(exe: &mut Executor) -> Executed {
    let mut executed = CONTINUE;
    while let Ok(ExecutionSuccess::Continue) = executed {
        executed = exe.execute();
    }
    executed
}

#[test]
fn executor_set_get_val() {
    let functions = vec![Function {
        frame_size: 8,
        program: vec![Op::Nop],
    }];

    let mut exe = Executor::new(functions);
    exe.call(0, 0).unwrap();
    exe.call(0, 0).unwrap();

    assert_eq!(exe.set_val(Operand::Loc(0), OpType::I32, 8), Ok(()));
    assert_eq!(exe.get_val(Operand::Loc(0), OpType::Uw), Ok(8));

    assert_eq!(exe.set_val(Operand::Glb(0), OpType::I32, 8), Ok(()));
    assert_eq!(exe.get_val(Operand::Glb(0), OpType::Uw), Ok(8));

    let null_deref_err = ExecutionError::NullPointerDereference;
    assert_eq!(exe.set_val(Operand::Ind(0), OpType::I32, 8), Err(null_deref_err));
    assert_eq!(exe.get_val(Operand::Ind(0), OpType::Uw), Err(null_deref_err));

    assert_eq!(exe.set_val(Operand::Ret(0), OpType::I32, 3), Ok(()));
    assert_eq!(exe.get_val(Operand::Ret(0), OpType::Uw), Ok(3));

    assert_eq!(
        exe.set_val(Operand::Val(7), OpType::I32, 0),
        Err(ExecutionError::IncorrectOperation(Op::Nop)),
    );
    assert_eq!(exe.get_val(Operand::Val(8), OpType::Uw), Ok(8));

    assert_eq!(
        exe.set_val(Operand::Ref(0), OpType::I32, 0),
        Err(ExecutionError::IncorrectOperation(Op::Nop)),
    );
    assert_eq!(exe.get_val(Operand::Ref(0), OpType::Uw), Ok(8));

    assert_eq!(
        exe.set_val(Operand::Emp, OpType::I32, 0),
        Err(ExecutionError::IncorrectOperation(Op::Nop)),
    );
    assert_eq!(
        exe.get_val(Operand::Emp, OpType::Uw),
        Err(ExecutionError::IncorrectOperation(Op::Nop)),
    );
}

#[test]
fn executor_set() {
    let float = 0.123_f32.to_bits() as UWord;

    let functions = vec![Function {
        frame_size: 4,
        program: vec![
            Op::Mov(BinOp::new(Operand::Loc(0), Operand::Val(12)), OpType::I32),
            Op::Mov(BinOp::new(Operand::Val(0), Operand::Val(12)), OpType::I32),
            Op::Mov(BinOp::new(Operand::Emp, Operand::Val(12)), OpType::I32),
            Op::Mov(BinOp::new(Operand::Loc(1), Operand::Val(32)), OpType::I8),
            Op::Mov(BinOp::new(Operand::Loc(0), Operand::Val(float)), OpType::F32),
            Op::Mov(BinOp::new(Operand::Glb(0), Operand::Val(float)), OpType::F32),
        ],
    }];

    let mut exe = Executor::new(functions);
    exe.call(0, 0).unwrap();

    assert_eq!(exe.execute(), CONTINUE);
    assert_eq!(get_i32(&exe, Operand::Loc(0)), Ok(12));

    assert_eq!(
        exe.execute(),
        Err(ExecutionError::IncorrectOperation(Op::Mov(
            BinOp::new(Operand::Val(0), Operand::Val(12)),
            OpType::I32
        )))
    );
    // Move manually after incorrect operation
    exe.set_program_counter(exe.program_counter() + 1);

    assert_eq!(
        exe.execute(),
        Err(ExecutionError::IncorrectOperation(Op::Mov(
            BinOp::new(Operand::Emp, Operand::Val(12)),
            OpType::I32
        )))
    );
    // Move manually after incorrect operation
    exe.set_program_counter(exe.program_counter() + 1);

    assert_eq!(exe.execute(), CONTINUE);
    assert_eq!(exe.get_val(Operand::Loc(1), OpType::I8).map(|b| b as u8 as i8), Ok(32));

    let get_f32 = |exe: &Executor| exe.get_val(Operand::Loc(0), OpType::F32).map(|b| f32::from_bits(b as u32));

    assert_eq!(exe.execute(), CONTINUE);
    assert_eq!(get_f32(&exe), Ok(0.123));

    assert_eq!(exe.execute(), CONTINUE);
    assert_eq!(get_f32(&exe), Ok(0.123));
}

#[test]
fn executor_cnv() {
    let functions = vec![Function {
        frame_size: 8,
        program: vec![
            Op::Mov(BinOp::new(Operand::Loc(0), Operand::Val(2)), OpType::I64),
            Op::Cnv(Operand::Loc(0), Operand::Loc(0), OpType::I64, OpType::U8),
        ],
    }];

    let mut exe = Executor::new(functions);
    exe.call(0, 0).unwrap();

    assert_eq!(exe.execute(), CONTINUE);
    assert_eq!(exe.execute(), CONTINUE);
    assert_eq!(get_u8(&exe, Operand::Loc(0)), Ok(2));
}

#[test]
fn executor_shl() {
    let functions = vec![Function {
        frame_size: 8,
        program: vec![
            Op::Mov(BinOp::new(Operand::Loc(0), Operand::Val(2)), OpType::U32),
            Op::Shl(Operand::Loc(0), Operand::Val(1), OpType::U32),
        ],
    }];

    let mut exe = Executor::new(functions);
    exe.call(0, 0).unwrap();

    assert_eq!(exe.execute(), CONTINUE);
    assert_eq!(exe.execute(), CONTINUE);
    assert_eq!(get_u32(&exe, Operand::Loc(0)), Ok(4));
}

#[test]
fn executor_shr() {
    let functions = vec![Function {
        frame_size: 9,
        program: vec![
            Op::Mov(BinOp::new(Operand::Loc(0), Operand::Val(2)), OpType::U32),
            Op::Mov(BinOp::new(Operand::Loc(8), Operand::Val(1)), OpType::U8),
            Op::Shr(Operand::Loc(0), Operand::Loc(8), OpType::U32),
        ],
    }];

    let mut exe = Executor::new(functions);
    exe.call(0, 0).unwrap();

    assert_eq!(exe.execute(), CONTINUE);
    assert_eq!(exe.execute(), CONTINUE);
    assert_eq!(exe.execute(), CONTINUE);
    assert_eq!(get_u32(&exe, Operand::Loc(0)), Ok(1));
}

#[test]
fn executor_add() {
    let functions = vec![Function {
        frame_size: 4,
        program: vec![
            Op::Add(BinOp::new(Operand::Loc(0), Operand::Val(12)), OpType::I32),
            Op::Add(BinOp::new(Operand::Loc(0), Operand::Val(u32::MAX as UWord)), OpType::I32),
            Op::Mov(BinOp::new(Operand::Loc(0), Operand::Val(1)), OpType::I32),
            Op::Add(BinOp::new(Operand::Loc(0), Operand::Val(i32::MAX as UWord)), OpType::I32),
        ],
    }];

    let mut exe = Executor::new(functions);
    exe.call(0, 0).unwrap();

    assert_eq!(exe.execute(), CONTINUE);
    assert_eq!(get_i32(&exe, Operand::Loc(0)), Ok(12));

    assert_eq!(exe.execute(), CONTINUE);
    assert_eq!(get_i32(&exe, Operand::Loc(0)), Ok(11));

    assert_eq!(exe.execute(), CONTINUE);
    assert_eq!(get_i32(&exe, Operand::Loc(0)), Ok(1));

    assert_eq!(exe.execute(), CONTINUE);
    assert_eq!(get_i32(&exe, Operand::Loc(0)), Ok(i32::MIN));
}

#[test]
fn executor_mul() {
    let functions = vec![Function {
        frame_size: 8,
        program: vec![
            Op::Mov(BinOp::new(Operand::Loc(0), Operand::Val(8)), OpType::I32),
            Op::Mov(BinOp::new(Operand::Loc(4), Operand::Val(5)), OpType::I32),
            Op::Mul(BinOp::new(Operand::Loc(0), Operand::Val(2)), OpType::I32),
            Op::Mul(BinOp::new(Operand::Loc(4), Operand::Val(2)), OpType::I32),
        ],
    }];

    let mut exe = Executor::new(functions);
    exe.call(0, 0).unwrap();

    assert_eq!(exe.execute(), CONTINUE);
    assert_eq!(exe.execute(), CONTINUE);
    assert_eq!(exe.execute(), CONTINUE);
    assert_eq!(get_i32(&exe, Operand::Loc(0)), Ok(16));
    assert_eq!(exe.execute(), CONTINUE);
    assert_eq!(get_i32(&exe, Operand::Loc(4)), Ok(10));
}

#[test]
fn executor_div() {
    let functions = vec![Function {
        frame_size: 8,
        program: vec![
            Op::Mov(BinOp::new(Operand::Loc(0), Operand::Val(8)), OpType::I32),
            Op::Mov(BinOp::new(Operand::Loc(4), Operand::Val(5)), OpType::I32),
            Op::Div(BinOp::new(Operand::Loc(0), Operand::Val(2)), OpType::I32),
            Op::Div(BinOp::new(Operand::Loc(4), Operand::Val(2)), OpType::I32),
            Op::Div(BinOp::new(Operand::Loc(0), Operand::Val(0)), OpType::I32),
        ],
    }];

    let mut exe = Executor::new(functions);
    exe.call(0, 0).unwrap();

    assert_eq!(exe.execute(), CONTINUE);
    assert_eq!(exe.execute(), CONTINUE);
    assert_eq!(exe.execute(), CONTINUE);
    assert_eq!(get_i32(&exe, Operand::Loc(0)), Ok(4));
    assert_eq!(exe.execute(), CONTINUE);
    assert_eq!(get_i32(&exe, Operand::Loc(4)), Ok(2));
    assert_eq!(exe.execute(), Err(ExecutionError::DivisionByZero));
    assert_eq!(get_i32(&exe, Operand::Loc(0)), Ok(4));
    assert_eq!(exe.program_counter(), 4);
}

#[test]
fn executor_go() {
    let functions = vec![Function {
        frame_size: 4,
        program: vec![
            Op::Inc(UnOp::new(Operand::Loc(0)), OpType::U32),
            Op::Go(Operand::Val(0)),
        ],
    }];

    let mut exe = Executor::new(functions);
    exe.call(0, 0).unwrap();

    assert_eq!(exe.execute(), CONTINUE);
    assert_eq!(get_u32(&exe, Operand::Loc(0)), Ok(1));
    assert_eq!(exe.execute(), CONTINUE);
    assert_eq!(exe.execute(), CONTINUE);
    assert_eq!(get_u32(&exe, Operand::Loc(0)), Ok(2));
    assert_eq!(exe.execute(), CONTINUE);
    assert_eq!(exe.execute(), CONTINUE);
    assert_eq!(get_u32(&exe, Operand::Loc(0)), Ok(3));
}

#[test]
fn executor_ift() {
    let functions = vec![Function {
        frame_size: 1,
        program: vec![
            Op::Mov(BinOp::new(Operand::Loc(0), Operand::Val(1)), OpType::U8),
            Op::Ift(UnOp::new(Operand::Loc(0)), OpType::U8),
            Op::Mov(BinOp::new(Operand::Loc(0), Operand::Val(2)), OpType::U8),
        ],
    }];

    let mut exe = Executor::new(functions);
    exe.call(0, 0).unwrap();

    assert_eq!(exe.execute(), CONTINUE);
    assert_eq!(get_u8(&exe, Operand::Loc(0)), Ok(1));
    assert_eq!(exe.execute(), CONTINUE);
    assert_eq!(exe.execute(), CONTINUE);
    assert_eq!(get_u8(&exe, Operand::Loc(0)), Ok(2));
}

#[test]
fn executor_iff() {
    let functions = vec![Function {
        frame_size: 1,
        program: vec![
            Op::Mov(BinOp::new(Operand::Loc(0), Operand::Val(1)), OpType::U8),
            Op::Iff(UnOp::new(Operand::Loc(0)), OpType::U8),
            Op::Mov(BinOp::new(Operand::Loc(0), Operand::Val(2)), OpType::U8),
        ],
    }];

    let mut exe = Executor::new(functions);
    exe.call(0, 0).unwrap();

    assert_eq!(exe.execute(), CONTINUE);
    assert_eq!(get_u8(&exe, Operand::Loc(0)), Ok(1));
    assert_eq!(exe.execute(), CONTINUE);
    assert_eq!(get_u8(&exe, Operand::Loc(0)), Ok(1));
    assert_eq!(exe.execute(), Err(ExecutionError::EndOfProgram));
}

#[test]
fn executor_ife() {
    let functions = vec![Function {
        frame_size: 8,
        program: vec![
            Op::Mov(BinOp::new(Operand::Loc(0), Operand::Val(32)), OpType::U32),
            Op::Mov(BinOp::new(Operand::Loc(4), Operand::Val(32)), OpType::U32),
            Op::Ife(BinOp::new(Operand::Loc(0), Operand::Loc(4)), OpType::U32),
            Op::Mov(BinOp::new(Operand::Loc(0), Operand::Val(1)), OpType::U32),
        ],
    }];

    let mut exe = Executor::new(functions);
    exe.call(0, 0).unwrap();

    assert_eq!(exe.execute(), CONTINUE);
    assert_eq!(exe.execute(), CONTINUE);
    assert_eq!(get_u32(&exe, Operand::Loc(0)), Ok(32));
    assert_eq!(get_u32(&exe, Operand::Loc(4)), Ok(32));
    assert_eq!(exe.execute(), CONTINUE);
    assert_eq!(exe.execute(), CONTINUE);
    assert_eq!(get_u32(&exe, Operand::Loc(0)), Ok(1));
}

#[test]
fn executor_ifa() {
    let functions = vec![Function {
        frame_size: 8,
        program: vec![
            Op::Mov(BinOp::new(Operand::Loc(0), Operand::Val(32)), OpType::U32),
            Op::Mov(BinOp::new(Operand::Loc(4), Operand::Val(2)), OpType::U32),
            Op::Ifa(BinOp::new(Operand::Loc(0), Operand::Loc(4)), OpType::U32),
            Op::Mov(BinOp::new(Operand::Loc(0), Operand::Val(1)), OpType::U32),
        ],
    }];

    let mut exe = Executor::new(functions);
    exe.call(0, 0).unwrap();

    assert_eq!(exe.execute(), CONTINUE);
    assert_eq!(exe.execute(), CONTINUE);
    assert_eq!(get_u32(&exe, Operand::Loc(0)), Ok(32));
    assert_eq!(get_u32(&exe, Operand::Loc(4)), Ok(2));
    assert_eq!(exe.execute(), CONTINUE);
    assert_eq!(exe.execute(), Err(ExecutionError::EndOfProgram));
}

#[test]
fn executor_ina() {
    let functions = vec![Function {
        frame_size: 8,
        program: vec![
            Op::Mov(BinOp::new(Operand::Loc(0), Operand::Val(32)), OpType::U32),
            Op::Mov(BinOp::new(Operand::Loc(4), Operand::Val(2)), OpType::U32),
            Op::Ina(BinOp::new(Operand::Loc(0), Operand::Loc(4)), OpType::U32),
            Op::Mov(BinOp::new(Operand::Loc(0), Operand::Val(1)), OpType::U32),
        ],
    }];

    let mut exe = Executor::new(functions);
    exe.call(0, 0).unwrap();

    assert_eq!(exe.execute(), CONTINUE);
    assert_eq!(exe.execute(), CONTINUE);
    assert_eq!(get_u32(&exe, Operand::Loc(0)), Ok(32));
    assert_eq!(get_u32(&exe, Operand::Loc(4)), Ok(2));
    assert_eq!(exe.execute(), CONTINUE);
    assert_eq!(exe.execute(), CONTINUE);
    assert_eq!(get_u32(&exe, Operand::Loc(0)), Ok(1));
}

#[test]
fn executor_call_fn() {
    let functions = vec![
        Function {
            frame_size: 4,
            program: vec![
                Op::App(Operand::Val(1)),
                Op::Par(UnOp::new(Operand::Val(2)), OpType::I32),
                Op::Clf(Operand::Val(0)),
                Op::Ret(UnOp::new(Operand::Emp), OpType::U8),
            ],
        },
        Function {
            frame_size: 8,
            program: vec![
                Op::Mov(BinOp::new(Operand::Loc(4), Operand::Val(3)), OpType::I32),
                Op::Add(BinOp::new(Operand::Ret(0), Operand::Loc(0)), OpType::I32),
                Op::Add(BinOp::new(Operand::Ret(0), Operand::Loc(4)), OpType::I32),
                Op::Ret(UnOp::new(Operand::Emp), OpType::U8),
            ],
        },
    ];

    let mut exe = Executor::new(functions);
    exe.call(0, 0).unwrap();

    assert_eq!(exe.execute(), CONTINUE);
    assert_eq!(exe.execute(), CONTINUE);
    assert_eq!(exe.execute(), CONTINUE);
    assert_eq!(exe.call_depth(), 2);

    assert_eq!(exe.execute(), CONTINUE);
    assert_eq!(exe.execute(), CONTINUE);
    assert_eq!(exe.execute(), CONTINUE);
    assert_eq!(exe.execute(), CONTINUE);
    assert_eq!(exe.call_depth(), 1);

    assert_eq!(get_i32(&exe, Operand::Loc(0)), Ok(5));

    assert_eq!(exe.execute(), CONTINUE);
    assert_eq!(exe.call_depth(), 0);
}

#[test]
fn executor_glb() {
    let functions = vec![
        Function {
            frame_size: 0,
            program: vec![
                Op::Mov(BinOp::new(Operand::Glb(2), Operand::Val(12)), OpType::U16),
                Op::App(Operand::Val(1)),
                Op::Par(UnOp::new(Operand::Val(6)), OpType::U16),
                Op::Clf(Operand::Val(0)),
                Op::Ret(UnOp::new(Operand::Emp), OpType::U8),
            ],
        },
        Function {
            frame_size: 2,
            program: vec![
                Op::Inc(UnOp::new(Operand::Loc(0)), OpType::U16),
                Op::Mov(BinOp::new(Operand::Glb(0), Operand::Loc(0)), OpType::U16),
                Op::Ret(UnOp::new(Operand::Emp), OpType::U8),
            ],
        },
    ];

    let mut exe = Executor::new(functions);
    exe.expand_stack(8).unwrap();
    exe.call(0, 0).unwrap();

    assert_eq!(exe.execute(), CONTINUE);
    assert_eq!(exe.execute(), CONTINUE);
    assert_eq!(exe.execute(), CONTINUE);
    assert_eq!(exe.execute(), CONTINUE);
    assert_eq!(exe.call_depth(), 2);
    assert_eq!(get_u16(&exe, Operand::Glb(2)), Ok(12));

    assert_eq!(exe.execute(), CONTINUE);
    assert_eq!(exe.execute(), CONTINUE);
    assert_eq!(exe.execute(), CONTINUE);
    assert_eq!(exe.call_depth(), 1);
    assert_eq!(get_u16(&exe, Operand::Glb(0)), Ok(7));

    assert_eq!(exe.execute(), CONTINUE);
    assert_eq!(exe.call_depth(), 0);
    assert_eq!(exe.stack_len(), 8);
}

#[test]
fn executor_gcd() {
    let functions = vec![
        Function {
            frame_size: 12,
            program: vec![
                // u32 result
                // u32 x
                // u32 y
                // set x 234
                Op::Mov(BinOp::new(Operand::Loc(4), Operand::Val(234)), OpType::U32),
                // set y 533
                Op::Mov(BinOp::new(Operand::Loc(8), Operand::Val(533)), OpType::U32),
                // app gcd
                Op::App(Operand::Val(1)),
                // par x
                Op::Par(UnOp::new(Operand::Loc(4)), OpType::U32),
                // par y
                Op::Par(UnOp::new(Operand::Loc(8)), OpType::U32),
                // clf result
                Op::Clf(Operand::Val(0)),
                // end
                Op::End(Operand::Val(0)),
            ],
        },
        Function {
            // fn gcd
            frame_size: 12,
            program: vec![
                // u32 a
                // u32 b
                // u32 c
                // loop:
                // set c a
                Op::Mov(BinOp::new(Operand::Loc(8), Operand::Loc(0)), OpType::U32),
                // mod c b
                Op::Mod(BinOp::new(Operand::Loc(8), Operand::Loc(4)), OpType::U32),
                // set a b
                Op::Mov(BinOp::new(Operand::Loc(0), Operand::Loc(4)), OpType::U32),
                // set b c
                Op::Mov(BinOp::new(Operand::Loc(4), Operand::Loc(8)), OpType::U32),
                // ift b
                Op::Ift(UnOp::new(Operand::Loc(4)), OpType::U32),
                // go loop
                Op::Go(Operand::Val(0)),
                // ret a
                Op::Ret(UnOp::new(Operand::Loc(0)), OpType::U32),
            ],
        },
    ];

    let mut exe = Executor::new(functions);
    exe.call(0, 0).unwrap();

    let executed = run(&mut exe);

    assert_eq!(executed, Ok(ExecutionSuccess::End(0)));
    assert_eq!(get_u32(&exe, Operand::Loc(0)), Ok(13));
}

#[test]
fn executor_hello() {
    let functions = vec![Function {
        frame_size: 6 + std::mem::size_of::<UWord>() as UWord,
        program: vec![
            // u8[6] hello // "Hello!"
            Op::Mov(BinOp::new(Operand::Loc(0), Operand::Val('H' as UWord)), OpType::U8),
            Op::Mov(BinOp::new(Operand::Loc(1), Operand::Val('e' as UWord)), OpType::U8),
            Op::Mov(BinOp::new(Operand::Loc(2), Operand::Val('l' as UWord)), OpType::U8),
            Op::Mov(BinOp::new(Operand::Loc(3), Operand::Val('l' as UWord)), OpType::U8),
            Op::Mov(BinOp::new(Operand::Loc(4), Operand::Val('o' as UWord)), OpType::U8),
            Op::Mov(BinOp::new(Operand::Loc(5), Operand::Val('!' as UWord)), OpType::U8),
            //
            // uw i
            // set i 0
            Op::Mov(BinOp::new(Operand::Loc(6), Operand::Val(0)), OpType::Uw),
            // loop:
            // out hello{i}
            Op::Out(UnOp::new(Operand::Loc(0)).with_first(Operand::Loc(6))),
            // inc i
            Op::Inc(UnOp::new(Operand::Loc(6)), OpType::Uw),
            // ifl i 6
            Op::Ifl(BinOp::new(Operand::Loc(6), Operand::Val(6)), OpType::Uw),
            // go loop
            Op::Go(Operand::Val(7)),
            // end
            Op::End(Operand::Val(0)),
        ],
    }];

    let mut exe = Executor::new(functions);

    assert_eq!(exe.open_file(Stream::new()), Ok(0));
    exe.set_current_file(0).unwrap();
    exe.call(0, 0).unwrap();

    let executed = run(&mut exe);

    assert_eq!(executed, Ok(ExecutionSuccess::End(0)));
    let file = exe.close_file(0).unwrap();

    let hello = String::from_utf8_lossy(file.output());
    assert_eq!(hello, "Hello!");
}

#[test]
fn executor_mul_from_in() {
    let functions = vec![Function {
        frame_size: 3 + std::mem::size_of::<UWord>() as UWord,
        program: vec![
            // u8 a
            // u8 b
            // u8 eof
            // uw res
            // in a
            Op::In(BinOp::new(Operand::Loc(0), Operand::Emp)),
            // in b eof
            Op::In(BinOp::new(Operand::Loc(1), Operand::Loc(2))),
            // set res a
            Op::Mov(BinOp::new(Operand::Loc(3), Operand::Loc(0)), OpType::U8),
            // mul res b
            Op::Mul(BinOp::new(Operand::Loc(3), Operand::Loc(1)), OpType::U8),
            // end
            Op::End(Operand::Loc(3)),
        ],
    }];

    let mut exe = Executor::new(functions);

    assert_eq!(exe.open_file(Stream::from_input(vec![3, 4])), Ok(0));
    exe.set_current_file(0).unwrap();
    exe.call(0, 0).unwrap();

    let executed = run(&mut exe);

    assert_eq!(executed, Ok(ExecutionSuccess::End(3 * 4)));
    assert_eq!(get_u8(&exe, Operand::Loc(2)), Ok(1));
}

#[test]
fn executor_zer() {
    let functions = vec![Function {
        frame_size: 16,
        program: vec![
            Op::Mov(BinOp::new(Operand::Loc(0), Operand::Val(0xFF)), OpType::U8),
            Op::Mov(BinOp::new(Operand::Loc(8), Operand::Val(0xFF)), OpType::U8),
            Op::Mov(BinOp::new(Operand::Loc(15), Operand::Val(0xFF)), OpType::U8),
            Op::Zer(Operand::Val(0), Operand::Val(16)),
        ],
    }];

    let mut exe = Executor::new(functions);
    exe.call(0, 0).unwrap();

    assert_eq!(exe.execute(), CONTINUE);
    assert_eq!(exe.execute(), CONTINUE);
    assert_eq!(exe.execute(), CONTINUE);
    assert_eq!(exe.execute(), CONTINUE);
    assert_eq!(exe.get_val(Operand::Loc(0), OpType::U64), Ok(0));
    assert_eq!(exe.get_val(Operand::Loc(8), OpType::U64), Ok(0));
}

#[test]
fn executor_cmp() {
    let functions = vec![Function {
        frame_size: 5,
        program: vec![
            Op::Mov(BinOp::new(Operand::Loc(0), Operand::Val(0xFF)), OpType::U8),
            Op::Mov(BinOp::new(Operand::Loc(1), Operand::Val(0xFF)), OpType::U8),
            Op::Mov(BinOp::new(Operand::Loc(2), Operand::Val(0x02)), OpType::U8),
            Op::Cmp(Operand::Val(0), Operand::Val(1), Operand::Val(1)),
            Op::Mov(BinOp::new(Operand::Loc(3), Operand::Val(1)), OpType::U8),
            Op::Cmp(Operand::Val(0), Operand::Val(2), Operand::Val(1)),
            Op::Mov(BinOp::new(Operand::Loc(4), Operand::Val(1)), OpType::U8),
            Op::End(Operand::Val(0)),
        ],
    }];

    let mut exe = Executor::new(functions);
    exe.call(0, 0).unwrap();

    let executed = run(&mut exe);

    assert_eq!(executed, Ok(ExecutionSuccess::End(0)));
    assert_eq!(get_u8(&exe, Operand::Loc(3)), Ok(1));
    assert_eq!(get_u8(&exe, Operand::Loc(4)), Ok(0));
}

#[test]
fn executor_cpy() {
    let functions = vec![Function {
        frame_size: 8,
        program: vec![
            Op::Mov(BinOp::new(Operand::Loc(0), Operand::Val(0x10EF)), OpType::U32),
            Op::Cpy(Operand::Val(4), Operand::Val(0), Operand::Val(4)),
        ],
    }];

    let mut exe = Executor::new(functions);
    exe.call(0, 0).unwrap();

    assert_eq!(exe.execute(), CONTINUE);
    assert_eq!(exe.execute(), CONTINUE);

    assert_eq!(get_u32(&exe, Operand::Loc(0)), Ok(0x10EF));
    assert_eq!(get_u32(&exe, Operand::Loc(4)), Ok(0x10EF));
}

fn single(frame_size: UWord, program: Vec<Op>) -> Executor {
    let mut exe = Executor::new(vec![Function { frame_size, program }]);
    exe.call(0, 0).unwrap();
    exe
}

#[test]
fn app_with_function_count_is_unknown() {
    let mut exe = single(4, vec![Op::App(Operand::Val(1))]);
    assert_eq!(exe.execute(), Err(ExecutionError::UnknownFunction(1)));
    assert_eq!(exe.call_depth(), 1);
    assert_eq!(exe.program_counter(), 0);
    assert_eq!(Executor::new(vec![]).call(0, 0), Err(ExecutionError::UnknownFunction(0)));
}

#[test]
fn null_pointer_in_operation_writes_nothing() {
    let mut exe = single(
        8,
        vec![
            Op::Mov(BinOp::new(Operand::Loc(0), Operand::Val(9)), OpType::U32),
            Op::Add(BinOp::new(Operand::Loc(0), Operand::Ind(0)), OpType::U32),
            Op::Mov(BinOp::new(Operand::Ind(0), Operand::Val(1)), OpType::U32),
        ],
    );
    assert_eq!(exe.execute(), CONTINUE);
    assert_eq!(exe.execute(), Err(ExecutionError::NullPointerDereference));
    assert_eq!(get_u32(&exe, Operand::Loc(0)), Ok(9));
    exe.set_program_counter(2);
    assert_eq!(exe.execute(), Err(ExecutionError::NullPointerDereference));
    assert_eq!(exe.program_counter(), 2);
}

#[test]
fn indirect_operand_follows_pointer() {
    let mut exe = single(
        16,
        vec![
            Op::Mov(BinOp::new(Operand::Loc(8), Operand::Val(4)), OpType::Uw),
            Op::Mov(BinOp::new(Operand::Ind(8), Operand::Val(77)), OpType::U16),
        ],
    );
    assert_eq!(exe.execute(), CONTINUE);
    assert_eq!(exe.execute(), CONTINUE);
    assert_eq!(get_u16(&exe, Operand::Loc(4)), Ok(77));
}

#[test]
fn conditional_chain_skips_guarded_operation() {
    let mut exe = single(
        2,
        vec![
            Op::Ift(UnOp::new(Operand::Loc(0)), OpType::U8),
            Op::Ift(UnOp::new(Operand::Val(1)), OpType::U8),
            Op::Iff(UnOp::new(Operand::Val(0)), OpType::U8),
            Op::Mov(BinOp::new(Operand::Loc(1), Operand::Val(5)), OpType::U8),
            Op::Mov(BinOp::new(Operand::Loc(0), Operand::Val(6)), OpType::U8),
        ],
    );
    assert_eq!(exe.execute(), CONTINUE);
    assert_eq!(exe.program_counter(), 4);
    assert_eq!(exe.execute(), CONTINUE);
    assert_eq!(get_u8(&exe, Operand::Loc(1)), Ok(0));
    assert_eq!(get_u8(&exe, Operand::Loc(0)), Ok(6));
}

#[test]
fn failed_condition_at_end_is_end_of_program() {
    let mut exe = single(1, vec![Op::Nop, Op::Iff(UnOp::new(Operand::Val(1)), OpType::U8)]);
    assert_eq!(exe.execute(), CONTINUE);
    assert_eq!(exe.execute(), Err(ExecutionError::EndOfProgram));
    assert_eq!(exe.program_counter(), 1);
}

#[test]
fn call_and_return_restore_stack() {
    let functions = vec![
        Function {
            frame_size: 8,
            program: vec![
                Op::App(Operand::Val(1)),
                Op::Clf(Operand::Ref(0)),
                Op::End(Operand::Loc(0)),
            ],
        },
        Function {
            frame_size: 6,
            program: vec![Op::Ret(UnOp::new(Operand::Val(41)), OpType::U32)],
        },
    ];
    let mut exe = Executor::new(functions);
    exe.call(0, 0).unwrap();
    assert_eq!(exe.stack_len(), 8);
    assert_eq!(exe.execute(), CONTINUE);
    assert_eq!(exe.stack_len(), 14);
    assert_eq!(exe.call_depth(), 2);
    assert_eq!(exe.execute(), CONTINUE);
    assert_eq!(exe.execute(), CONTINUE);
    assert_eq!(exe.stack_len(), 8);
    assert_eq!(exe.execute(), Ok(ExecutionSuccess::End(41)));
}

#[test]
fn signed_arithmetic_wraps() {
    let mut exe = single(
        8,
        vec![
            Op::Mov(BinOp::new(Operand::Loc(0), Operand::Val(0x80)), OpType::I8),
            Op::Div(BinOp::new(Operand::Loc(0), Operand::Val(0xFF)), OpType::I8),
            Op::Mov(BinOp::new(Operand::Loc(1), Operand::Val(0xF9)), OpType::I8),
            Op::Mod(BinOp::new(Operand::Loc(1), Operand::Val(3)), OpType::I8),
            Op::Mov(BinOp::new(Operand::Loc(2), Operand::Val(0xF9)), OpType::I8),
            Op::Div(BinOp::new(Operand::Loc(2), Operand::Val(2)), OpType::I8),
            Op::Neg(UnOp::new(Operand::Loc(3)), OpType::I8),
            Op::Dec(UnOp::new(Operand::Loc(4)), OpType::U8),
        ],
    );
    for _ in 0..8 {
        assert_eq!(exe.execute(), CONTINUE);
    }
    let get_i8 = |exe: &Executor, o| exe.get_val(o, OpType::I8).map(|b| b as u8 as i8);
    assert_eq!(get_i8(&exe, Operand::Loc(0)), Ok(i8::MIN));
    assert_eq!(get_i8(&exe, Operand::Loc(1)), Ok(-1));
    assert_eq!(get_i8(&exe, Operand::Loc(2)), Ok(-3));
    assert_eq!(get_i8(&exe, Operand::Loc(3)), Ok(0));
    assert_eq!(get_u8(&exe, Operand::Loc(4)), Ok(255));
}

#[test]
fn shifts_use_width_and_sign() {
    let mut exe = single(
        8,
        vec![
            Op::Mov(BinOp::new(Operand::Loc(0), Operand::Val(0xF0)), OpType::I8),
            Op::Shr(Operand::Loc(0), Operand::Val(2), OpType::I8),
            Op::Mov(BinOp::new(Operand::Loc(1), Operand::Val(0xF0)), OpType::U8),
            Op::Shr(Operand::Loc(1), Operand::Val(2), OpType::U8),
            Op::Mov(BinOp::new(Operand::Loc(2), Operand::Val(1)), OpType::U8),
            Op::Shl(Operand::Loc(2), Operand::Val(9), OpType::U8),
        ],
    );
    for _ in 0..6 {
        assert_eq!(exe.execute(), CONTINUE);
    }
    assert_eq!(get_u8(&exe, Operand::Loc(0)), Ok(0xFC));
    assert_eq!(get_u8(&exe, Operand::Loc(1)), Ok(0x3C));
    assert_eq!(get_u8(&exe, Operand::Loc(2)), Ok(2));
}

#[test]
fn conversion_sign_extends_and_truncates() {
    let mut exe = single(
        16,
        vec![
            Op::Mov(BinOp::new(Operand::Loc(0), Operand::Val(0xFE)), OpType::I8),
            Op::Cnv(Operand::Loc(8), Operand::Loc(0), OpType::I8, OpType::I64),
            Op::Mov(BinOp::new(Operand::Loc(4), Operand::Val(0x1234)), OpType::U16),
            Op::Cnv(Operand::Loc(6), Operand::Loc(4), OpType::U16, OpType::U8),
        ],
    );
    for _ in 0..4 {
        assert_eq!(exe.execute(), CONTINUE);
    }
    assert_eq!(exe.get_val(Operand::Loc(8), OpType::I64), Ok(u64::MAX - 1));
    assert_eq!(get_u8(&exe, Operand::Loc(6)), Ok(0x34));
}

#[test]
fn float_arithmetic_is_left_to_the_embedder() {
    let op = Op::Add(BinOp::new(Operand::Loc(0), Operand::Loc(4)), OpType::F32);
    let mut exe = single(8, vec![op]);
    assert_eq!(exe.execute(), Err(ExecutionError::FloatingPoint(op)));
    assert_eq!(exe.program_counter(), 0);
    let bad = Op::Shl(Operand::Loc(0), Operand::Val(1), OpType::F64);
    let mut exe = single(8, vec![bad]);
    assert_eq!(exe.execute(), Err(ExecutionError::IncorrectOperation(bad)));
}

#[test]
fn file_errors_are_reported() {
    let mut exe = single(2, vec![Op::Out(UnOp::new(Operand::Loc(0))), Op::Sfd(Operand::Val(3))]);
    assert_eq!(
        exe.execute(),
        Err(ExecutionError::FilesError(nalvm::files::FilesError::NoCurrentFile))
    );
    exe.set_program_counter(1);
    assert_eq!(
        exe.execute(),
        Err(ExecutionError::FilesError(nalvm::files::FilesError::UnknownHandle(3)))
    );
}

#[test]
fn input_at_end_writes_zero_and_clears_flag() {
    let mut exe = single(2, vec![
        Op::Mov(BinOp::new(Operand::Loc(0), Operand::Val(9)), OpType::U8),
        Op::Mov(BinOp::new(Operand::Loc(1), Operand::Val(9)), OpType::U8),
        Op::In(BinOp::new(Operand::Loc(0), Operand::Loc(1))),
        Op::Gfd(Operand::Glb(8)),
    ]);
    assert_eq!(exe.open_file(Stream::new()), Ok(0));
    assert_eq!(exe.open_file(Stream::new()), Ok(1));
    exe.set_current_file(1).unwrap();
    for _ in 0..3 {
        assert_eq!(exe.execute(), CONTINUE);
    }
    assert_eq!(get_u8(&exe, Operand::Loc(0)), Ok(0));
    assert_eq!(get_u8(&exe, Operand::Loc(1)), Ok(0));
    assert_eq!(
        exe.execute(),
        Err(ExecutionError::MemoryError(MemoryError::OutOfBounds(8)))
    );
}

#[test]
fn stack_overflow_on_call() {
    let mut exe = Executor::from_limits(vec![Function { frame_size: 10, program: vec![Op::Nop] }], 16, 0);
    exe.call(0, 0).unwrap();
    assert_eq!(exe.call(0, 0), Err(ExecutionError::MemoryError(MemoryError::StackOverflow)));
    assert_eq!(exe.call_depth(), 1);
}

#[test]
fn global_region_lies_above_the_stack() {
    let mut exe = Executor::from_limits(vec![Function { frame_size: 4, program: vec![
        Op::Mov(BinOp::new(Operand::Glb(16), Operand::Val(0xABCD)), OpType::U16),
        Op::Mov(BinOp::new(Operand::Glb(8), Operand::Val(1)), OpType::U8),
    ] }], 16, 8);
    exe.call(0, 0).unwrap();
    assert_eq!(exe.execute(), CONTINUE);
    assert_eq!(get_u16(&exe, Operand::Glb(16)), Ok(0xABCD));
    assert_eq!(
        exe.execute(),
        Err(ExecutionError::MemoryError(MemoryError::OutOfBounds(8)))
    );
}

#[test]
fn sleep_and_end_keep_program_counter() {
    let mut exe = single(1, vec![Op::Slp(Operand::Val(5)), Op::End(Operand::Val(1))]);
    assert_eq!(exe.execute(), Ok(ExecutionSuccess::Sleep(5)));
    assert_eq!(exe.program_counter(), 0);
    exe.set_program_counter(1);
    assert_eq!(exe.execute(), Ok(ExecutionSuccess::End(1)));
    assert_eq!(exe.program_counter(), 1);
}

#[test]
fn return_during_preparation_drops_prepared_call() {
    let functions = vec![
        Function {
            frame_size: 4,
            program: vec![
                Op::App(Operand::Val(1)),
                Op::Ret(UnOp::new(Operand::Emp), OpType::U8),
            ],
        },
        Function { frame_size: 3, program: vec![Op::Nop] },
    ];
    let mut exe = Executor::new(functions);
    exe.call(0, 0).unwrap();
    assert_eq!(exe.execute(), CONTINUE);
    assert_eq!(exe.call_depth(), 2);
    assert_eq!(exe.stack_len(), 7);
    assert_eq!(exe.execute(), CONTINUE);
    assert_eq!(exe.call_depth(), 1);
    assert_eq!(exe.stack_len(), 4);
    assert_eq!(exe.program_counter(), 0);
    assert_eq!(exe.current_op(), Ok(Op::App(Operand::Val(1))));
}
