use oslcap::compiler::ast::{CompileError, Expr, Op, Stmt};
use oslcap::compiler::codegen::generate;
use oslcap::compiler::ir::{lower_ast, make_temp, IRFunction, IRInst, IRProgram};
use oslcap::compiler::lexer::{lex, Token};
use oslcap::compiler::parser::parse;
use oslcap::compiler::regalloc::allocate_registers;
use oslcap::cpu::CPU;
use oslcap::host::{handle_syscall, HostAction};
use oslcap::loader::{encode_osl_bin, load_osl_bin};
use oslcap::mem::Memory;
use oslcap::trap::Trap;

fn compile(src: &str) -> Result<Vec<u16>, CompileError> {
    let toks = lex(src)?;
    let prog = parse(&toks)?;
    let ir = lower_ast(&prog)?;
    generate(&ir)
}

const PROGRAM: &str = "fn main() -> int {\n  let x = 3\n  let y = x * 4 - 5\n  return y\n}\n";

#[test]
fn lexes_the_language() {
    let toks = lex("fn f() -> int { let a_1 = 10 / 2 }\n").unwrap();
    let got: Vec<String> = toks.iter().map(|t| format!("{:?}", t)).collect();
    let want: Vec<String> = vec![
        Token::Fn,
        Token::Ident("f".to_string()),
        Token::LParen,
        Token::RParen,
        Token::Arrow,
        Token::Ident("int".to_string()),
        Token::LBrace,
        Token::Let,
        Token::Ident("a_1".to_string()),
        Token::Equals,
        Token::Number(10),
        Token::Slash,
        Token::Number(2),
        Token::RBrace,
        Token::Newline,
    ]
    .iter()
    .map(|t| format!("{:?}", t))
    .collect();
    assert_eq!(got, want);
}

#[test]
fn lexer_errors_and_unicode() {
    assert_eq!(lex("let x = 3 $").unwrap_err(), CompileError::UnexpectedChar { position: 10 });
    assert_eq!(lex("99999999999999999999").unwrap_err(), CompileError::BadNumber { position: 0 });
    assert_eq!(lex("1\u{b2}").unwrap_err(), CompileError::BadNumber { position: 0 });
    let toks = lex("m\u{e4}in - x").unwrap();
    assert_eq!(format!("{:?}", toks[0]), format!("{:?}", Token::Ident("m\u{e4}in".to_string())));
    assert_eq!(format!("{:?}", toks[1]), format!("{:?}", Token::Minus));
}

#[test]
fn parses_left_to_right_without_precedence() {
    let prog = parse(&lex(PROGRAM).unwrap()).unwrap();
    assert_eq!(prog.functions.len(), 1);
    let f = &prog.functions[0];
    assert_eq!(f.name, "main");
    assert_eq!(f.ret_type, "int");
    assert_eq!(f.body.len(), 3);
    match &f.body[1] {
        Stmt::Let(name, Expr::BinOp(l, Op::Sub, r)) => {
            assert_eq!(name, "y");
            assert!(matches!(**l, Expr::BinOp(_, Op::Mul, _)));
            assert!(matches!(**r, Expr::Num(5)));
        }
        other => panic!("unexpected {:?}", other),
    }
}

#[test]
fn parse_errors() {
    let err = parse(&lex("fn main() -> int { return }").unwrap()).unwrap_err();
    assert_eq!(err, CompileError::UnexpectedToken { position: 8 });
    let err = parse(&lex("fn main() -> int { return 1").unwrap()).unwrap_err();
    assert_eq!(err, CompileError::UnexpectedToken { position: 9 });
    let err = parse(&lex("let x = 1").unwrap()).unwrap_err();
    assert_eq!(err, CompileError::UnexpectedToken { position: 0 });
    let err = parse(&lex("fn main( -> int {}").unwrap()).unwrap_err();
    assert_eq!(err, CompileError::UnexpectedToken { position: 3 });
}

#[test]
fn lowers_to_three_address_code() {
    let prog = parse(&lex(PROGRAM).unwrap()).unwrap();
    let ir = lower_ast(&prog).unwrap();
    assert_eq!(ir.functions[0].name, "main");
    let got: Vec<String> = ir.functions[0].instrs.iter().map(|i| format!("{:?}", i)).collect();
    let s = |x: &str| x.to_string();
    let want: Vec<String> = vec![
        IRInst::LoadImm(s("t0"), 3),
        IRInst::LoadImm(s("t1"), 4),
        IRInst::Mul(s("t2"), s("t0"), s("t1")),
        IRInst::LoadImm(s("t3"), 5),
        IRInst::Sub(s("t4"), s("t2"), s("t3")),
        IRInst::Ret(s("t4")),
    ]
    .iter()
    .map(|i| format!("{:?}", i))
    .collect();
    assert_eq!(got, want);
    let prog = parse(&lex("fn f() -> int { return z }").unwrap()).unwrap();
    assert_eq!(lower_ast(&prog).unwrap_err(), CompileError::UndefinedVariable);
}

#[test]
fn temporaries_are_named_in_decimal() {
    assert_eq!(make_temp(0), "t0");
    assert_eq!(make_temp(9), "t9");
    assert_eq!(make_temp(10), "t10");
    assert_eq!(make_temp(4072), "t4072");
}

#[test]
fn registers_assigned_in_order_of_definition() {
    let s = |x: &str| x.to_string();
    let instrs = vec![
        IRInst::LoadImm(s("a"), 1),
        IRInst::LoadImm(s("b"), 2),
        IRInst::Add(s("a"), s("a"), s("b")),
        IRInst::Ret(s("a")),
    ];
    let alloc = allocate_registers(&instrs).unwrap();
    assert_eq!(alloc, vec![(s("a"), 2), (s("b"), 3)]);
    let many: Vec<IRInst> = (0..14).map(|k| IRInst::LoadImm(format!("t{}", k), 0)).collect();
    assert!(allocate_registers(&many).is_none());
    assert_eq!(allocate_registers(&many[..13]).unwrap().last().unwrap().1, 14);
}

#[test]
fn generates_expected_words() {
    assert_eq!(
        compile(PROGRAM).unwrap(),
        vec![0x1203, 0x1304, 0x4423, 0x1505, 0x3645, 0x1160, 0xC000]
    );
}

#[test]
fn codegen_errors() {
    assert_eq!(compile("fn f() -> int { return 9 }").unwrap_err(), CompileError::ImmediateOutOfRange);
    assert!(compile("fn f() -> int { return 1+1+1+1+1+1+1 }").is_ok());
    assert_eq!(
        compile("fn f() -> int { return 1+1+1+1+1+1+1+1 }").unwrap_err(),
        CompileError::TooManyTemporaries
    );
}

#[test]
fn compiled_program_runs() {
    let words = compile(PROGRAM).unwrap();
    let mut cpu = CPU::new();
    let mut mem = Memory::new(0x4000);
    load_osl_bin(&mut cpu, &mut mem, &encode_osl_bin(&words, 0x1000, 0x2000)).unwrap();
    for _ in 0..100 {
        if let Some(Trap::Syscall(n)) = cpu.trap.take() {
            match handle_syscall(&mut cpu, &mem, n) {
                HostAction::Exit(code) => {
                    assert_eq!(code, 7);
                    return;
                }
                other => panic!("unexpected {:?}", other),
            }
        }
        assert!(cpu.trap.is_none());
        cpu.step(&mut mem);
    }
    panic!("program did not exit");
}

#[test]
fn operand_without_register_is_rejected() {
    let prog = IRProgram {
        functions: vec![IRFunction {
            name: "f".to_string(),
            instrs: vec![IRInst::LoadImm("a".to_string(), 1), IRInst::Ret("b".to_string())],
        }],
    };
    assert_eq!(generate(&prog).unwrap_err(), CompileError::Unallocated);
    let ok = IRProgram {
        functions: vec![IRFunction {
            name: "f".to_string(),
            instrs: vec![IRInst::LoadImm("a".to_string(), -8), IRInst::Ret("a".to_string())],
        }],
    };
    assert_eq!(generate(&ok).unwrap(), vec![0x1208, 0x1120, 0xC000]);
}

#[test]
fn syntax_trees_and_tokens_clone() {
    let prog = parse(&lex(PROGRAM).unwrap()).unwrap();
    let copy = prog.clone();
    assert_eq!(format!("{:?}", copy), format!("{:?}", prog));
    let ir = lower_ast(&prog).unwrap();
    assert_eq!(format!("{:?}", ir.clone()), format!("{:?}", ir));
    assert_eq!(lex("return 3*4").unwrap(), vec![Token::Return, Token::Number(3), Token::Star, Token::Number(4)]);
}
