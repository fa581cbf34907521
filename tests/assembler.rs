use oslcap::assembler::emitter::emit;
use oslcap::assembler::lexer::{lex, Tok};
use oslcap::assembler::opcodes::{cap_index, opcode, reg_index};
use oslcap::assembler::parser::{parse, Arg, AsmError, Inst};

fn assemble(src: &str) -> Result<Vec<u16>, AsmError> {
    let toks = lex(src).unwrap();
    let items = parse(&toks)?;
    emit(&items)
}

fn ident(s: &str) -> Tok {
    Tok::Ident(s.to_string())
}

#[test]
fn lexer_splits_words_and_punctuation() {
    let toks = lex("loop: add r1, r1, -3 ; comment, ignored\n  jmp r0,0x1F\n7").unwrap();
    let got: Vec<String> = toks.iter().map(|t| format!("{:?}", t)).collect();
    let want: Vec<String> = vec![
        ident("loop"),
        Tok::Colon,
        ident("add"),
        ident("r1"),
        Tok::Comma,
        ident("r1"),
        Tok::Comma,
        Tok::Number(-3),
        Tok::Newline,
        ident("jmp"),
        ident("r0"),
        Tok::Comma,
        Tok::Number(31),
        Tok::Newline,
        Tok::Number(7),
    ]
    .iter()
    .map(|t| format!("{:?}", t))
    .collect();
    assert_eq!(got, want);
}

#[test]
fn lexer_number_forms() {
    let toks = lex("+12 0XfF 0xZZ 99999999999999999999 -0x10").unwrap();
    let got: Vec<String> = toks.iter().map(|t| format!("{:?}", t)).collect();
    assert_eq!(
        got,
        vec![
            format!("{:?}", Tok::Number(12)),
            format!("{:?}", Tok::Number(255)),
            format!("{:?}", ident("0xZZ")),
            format!("{:?}", ident("99999999999999999999")),
            format!("{:?}", ident("-0x10")),
        ]
    );
}

#[test]
fn lexer_empty_source() {
    assert!(lex("").unwrap().is_empty());
    assert_eq!(lex(";only a comment").unwrap().len(), 0);
}

#[test]
fn parser_builds_labels_and_operations() {
    let items = parse(&lex("start:\n  addi r1, c2, 5\n  jmp r0, start\n").unwrap()).unwrap();
    assert_eq!(items.len(), 3);
    match &items[0] {
        Inst::Label(s) => assert_eq!(s, "start"),
        other => panic!("unexpected {:?}", other),
    }
    match &items[1] {
        Inst::Op(name, args) => {
            assert_eq!(name, "addi");
            assert_eq!(args.len(), 3);
            assert!(matches!(&args[0], Arg::Reg(r) if r == "r1"));
            assert!(matches!(&args[1], Arg::Cap(c) if c == "c2"));
            assert!(matches!(&args[2], Arg::Imm(5)));
        }
        other => panic!("unexpected {:?}", other),
    }
    match &items[2] {
        Inst::Op(_, args) => assert!(matches!(&args[1], Arg::Label(l) if l == "start")),
        other => panic!("unexpected {:?}", other),
    }
}

#[test]
fn parser_rejects_stray_tokens() {
    assert_eq!(parse(&lex(", add").unwrap()).unwrap_err(), AsmError::UnexpectedToken { position: 0 });
    assert_eq!(parse(&lex("add r1 : r2").unwrap()).unwrap_err(), AsmError::UnexpectedToken { position: 2 });
}

#[test]
fn opcode_table() {
    let names = [
        "add", "addi", "div", "sub", "mul", "ld", "st", "br", "brz", "jmp", "call", "ret",
        "syscall", "cap.null", "cap.copy", "cap.offset",
    ];
    for (i, n) in names.iter().enumerate() {
        assert_eq!(opcode(n), Some(i as u8));
    }
    assert_eq!(opcode("nop"), None);
    assert_eq!(opcode("ADD"), None);
}

#[test]
fn register_and_capability_tokens() {
    assert_eq!(reg_index("r0"), Some(0));
    assert_eq!(reg_index("r15"), Some(15));
    assert_eq!(reg_index("r16"), None);
    assert_eq!(reg_index("r"), None);
    assert_eq!(reg_index("r+3"), Some(3));
    assert_eq!(reg_index("x1"), None);
    assert_eq!(cap_index("c7"), Some(7));
    assert_eq!(cap_index("c8"), None);
    assert_eq!(cap_index("c-1"), None);
}

#[test]
fn encodes_each_form() {
    let words = assemble(
        "add r1, r2, r3\naddi r1, r2, -1\nst r4, r5, 2\nsyscall r2\nret\ncap.offset c3, c2, 7\nbr r1, r2, 3\nbrz r4, -2\ncall r0, 1\njmp r6\n",
    )
    .unwrap();
    assert_eq!(
        words,
        vec![0x0123, 0x112F, 0x6452, 0xC020, 0xB000, 0xF327, 0x7213, 0x804E, 0xA001, 0x9060]
    );
}

#[test]
fn label_offsets_resolve_both_ways() {
    let words = assemble("top: brz r1, end\nadd r0, r0, r0\nend: jmp r0, top\n").unwrap();
    assert_eq!(words, vec![0x8011, 0x0000, 0x900D]);
}

#[test]
fn out_of_range_branch_is_rejected() {
    let mut src = String::from("brz r1, target\n");
    for _ in 0..8 {
        src.push_str("add r0, r0, r0\n");
    }
    src.push_str("target: syscall r0\n");
    assert_eq!(assemble(&src), Err(AsmError::OutOfRange { index: 0 }));
    let near = src.replacen("add r0, r0, r0\n", "", 1);
    assert!(assemble(&near).is_ok());
}

#[test]
fn assembler_errors() {
    assert_eq!(assemble("nop r1\n"), Err(AsmError::UnknownInstruction { index: 0 }));
    assert_eq!(assemble("a:\nret\na:\n"), Err(AsmError::DuplicateLabel { index: 2 }));
    assert_eq!(assemble("jmp r0, nowhere\n"), Err(AsmError::UndefinedLabel { index: 0 }));
    assert_eq!(assemble("addi r1, r1, 8\n"), Err(AsmError::OutOfRange { index: 0 }));
    assert_eq!(assemble("jmp r0, -9\n"), Err(AsmError::OutOfRange { index: 0 }));
    assert_eq!(assemble("syscall\n"), Err(AsmError::BadOperand { index: 0 }));
    assert_eq!(assemble("br r1, 3\n"), Err(AsmError::BadOperand { index: 0 }));
    assert_eq!(assemble("x:\nsyscall 5\n"), Err(AsmError::BadOperand { index: 1 }));
    let items = vec![Inst::Op("add".to_string(), vec![Arg::Reg("r99".to_string())])];
    assert_eq!(emit(&items), Err(AsmError::InvalidRegister { index: 0 }));
}

#[test]
fn register_slots_take_only_registers() {
    assert_eq!(assemble("add r1, 100, r2\n"), Err(AsmError::BadOperand { index: 0 }));
    assert_eq!(assemble("add r1, r99, r2\n"), Err(AsmError::BadOperand { index: 0 }));
    assert_eq!(assemble("L:\nadd L, r1, r2\n"), Err(AsmError::BadOperand { index: 1 }));
    assert_eq!(assemble("add r1, r2, 100\n"), Err(AsmError::OutOfRange { index: 0 }));
    assert_eq!(assemble("cap.null c9\n"), Err(AsmError::BadOperand { index: 0 }));
}

#[test]
fn extra_operands_are_rejected() {
    assert_eq!(assemble("syscall r0, r99\n"), Err(AsmError::BadOperand { index: 0 }));
    assert_eq!(assemble("ret 5\n"), Err(AsmError::BadOperand { index: 0 }));
    assert_eq!(assemble("add r1, r2, r3, r4\n"), Err(AsmError::BadOperand { index: 0 }));
    assert_eq!(assemble("L: jmp r0, L, x\n"), Err(AsmError::BadOperand { index: 1 }));
    assert_eq!(assemble("brz r1, 1, 2\n"), Err(AsmError::BadOperand { index: 0 }));
    assert_eq!(assemble("br r1, r2, 1, 2\n"), Err(AsmError::BadOperand { index: 0 }));
    assert_eq!(assemble("cap.null c3\ncap.copy c4, c3\n").unwrap(), vec![0xD300, 0xE430]);
}
