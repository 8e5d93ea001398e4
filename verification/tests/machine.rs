use hammer::ast::AstBuilder;
use hammer::compiler::Compiler;
use hammer::errors::BytecodeError;
use hammer::errors::InterpretationError;
use hammer::instruction::Instruction;
use hammer::lexer::Lexer;
use hammer::vm::VM;

fn build(src: &str) -> Vec<u8> {
    let mut lexer = Lexer::new(String::from("test.hmr"), String::from(src));
    lexer.lex().unwrap();
    let mut builder = AstBuilder::new(lexer.tokens().clone());
    builder.parse().unwrap();
    let ast = builder.ast();
    assert!(ast.well_formed());
    let mut compiler = Compiler::new(String::from("test.hmrc")).unwrap();
    compiler.compile(ast.tree, ast.variables).unwrap()
}

fn run_vm(vm: &mut VM) -> Result<(), InterpretationError> {
    vm.start();
    while vm.is_running() {
        vm.run_one_instr()?;
    }
    Ok(())
}

fn pool_record(x: f64) -> Vec<u8> {
    let mut rec = vec![0x00, 0x08];
    rec.extend_from_slice(&x.to_bits().to_le_bytes());
    rec
}

fn image(instrs: &[u8], pool: &[f64]) -> Vec<u8> {
    let mut bytes = instrs.to_vec();
    bytes.push(0xff);
    for x in pool {
        bytes.extend_from_slice(&pool_record(*x));
    }
    bytes
}

#[test]
fn decode_table_matches_the_committed_opcodes() {
    assert_eq!(Instruction::try_from(0x00), Ok(Instruction::Nop));
    assert_eq!(Instruction::try_from(0x01), Ok(Instruction::Push));
    assert_eq!(Instruction::try_from(0x02), Ok(Instruction::Add));
    assert_eq!(Instruction::try_from(0x05), Ok(Instruction::Div));
    assert_eq!(Instruction::try_from(0x07), Ok(Instruction::Jmp));
    assert_eq!(Instruction::try_from(0x10), Ok(Instruction::Jback));
    assert_eq!(Instruction::try_from(0x12), Ok(Instruction::Liv));
    assert_eq!(Instruction::try_from(0x13), Ok(Instruction::Lfv));
    assert_eq!(Instruction::try_from(0xfe), Ok(Instruction::Dbg));
    assert_eq!(Instruction::try_from(0xff), Ok(Instruction::Hlt));
    // the byte between `le` and `jump-if-false` is unassigned
    assert_eq!(
        Instruction::try_from(0x0e),
        Err(InterpretationError::OpcodeError)
    );
    assert_eq!(
        Instruction::try_from(0x20),
        Err(InterpretationError::OpcodeError)
    );
}

#[test]
fn one_plus_three_with_debug_print_yields_four() {
    // push 1.0, push 3.0, add, debug-print, halt
    let bytes = image(
        &[0x01, 0x00, 0x00, 0x01, 0x01, 0x00, 0x02, 0xfe],
        &[1.0, 3.0],
    );
    let mut vm = VM::new(bytes).unwrap();
    run_vm(&mut vm).unwrap();
    assert_eq!(vm.output().as_slice(), &[4.0f64.to_bits()]);
}

#[test]
fn compiled_program_prints_eleven() {
    let bytes = build("let x = 10; x = x + 1; println(x);");
    let mut vm = VM::new(bytes).unwrap();
    run_vm(&mut vm).unwrap();
    assert_eq!(vm.output().as_slice(), &[11.0f64.to_bits()]);
}

#[test]
fn division_by_zero_fails_at_the_div_instruction() {
    let bytes = build("5 / 0;");
    let mut vm = VM::new(bytes).unwrap();
    let err = run_vm(&mut vm).unwrap_err();
    assert_eq!(err, InterpretationError::ZeroDivisionError);
    assert!(vm.output().is_empty());
}

#[test]
fn arithmetic_matches_the_host_doubles() {
    let cases: &[(&str, f64)] = &[
        ("5 - 3;", 5.0 - 3.0),
        ("6 * 7;", 6.0 * 7.0),
        ("1 / 2;", 1.0 / 2.0),
        ("0.1 + 0.2;", 0.1 + 0.2),
        ("-5;", -5.0),
        ("abs(0 - 2.5);", 2.5),
    ];
    for (src, expected) in cases {
        let mut bytes = build(src);
        // splice a debug-print in front of the end-of-program marker
        let halt_at = bytes.iter().position(|b| *b == 0xff).unwrap();
        bytes.insert(halt_at, 0xfe);
        let mut vm = VM::new(bytes).unwrap();
        run_vm(&mut vm).unwrap();
        assert_eq!(vm.output().as_slice(), &[expected.to_bits()], "{}", src);
    }
}

#[test]
fn bad_constant_index_fails_at_execution() {
    let bytes = image(&[0x01, 0x05, 0x00], &[]);
    let mut vm = VM::new(bytes).unwrap();
    let err = run_vm(&mut vm).unwrap_err();
    assert_eq!(err, InterpretationError::BadConstsIndexError);
}

#[test]
fn backward_jump_past_the_start_is_an_integrity_error() {
    let bytes = image(&[0x10, 0x05, 0x00], &[]);
    let mut vm = VM::new(bytes).unwrap();
    let err = run_vm(&mut vm).unwrap_err();
    assert_eq!(err, InterpretationError::InvalidJump);
}

#[test]
fn backward_jump_within_bounds_retargets_the_counter() {
    // push 1.0; jump forward past a debug-print; jump back onto it; the
    // print runs once and a final forward jump reaches the halt
    let bytes = image(
        &[
            0x01, 0x00, 0x00, // push 1.0
            0x07, 0x07, 0x00, // jmp to 10
            0xfe, // debug-print (entered from behind)
            0x07, 0x06, 0x00, // jmp to 13, the halt
            0x10, 0x04, 0x00, // jump-back to 6
        ],
        &[1.0],
    );
    let mut vm = VM::new(bytes).unwrap();
    run_vm(&mut vm).unwrap();
    assert_eq!(vm.output().as_slice(), &[1.0f64.to_bits()]);
}

#[test]
fn nop_advances_the_counter() {
    let bytes = image(&[0x00, 0x00], &[]);
    let mut vm = VM::new(bytes).unwrap();
    run_vm(&mut vm).unwrap();
}

#[test]
fn store_outside_the_slot_array_is_an_integrity_error() {
    // push 1.0, store slot 5 while no slot exists yet
    let bytes = image(&[0x01, 0x00, 0x00, 0x12, 0x05, 0x00, 0x00, 0x00], &[1.0]);
    let mut vm = VM::new(bytes).unwrap();
    let err = run_vm(&mut vm).unwrap_err();
    assert_eq!(err, InterpretationError::InvalidSlotIndex);
}

#[test]
fn load_outside_the_slot_array_is_an_integrity_error() {
    let bytes = image(&[0x13, 0x00, 0x00, 0x00, 0x00], &[]);
    let mut vm = VM::new(bytes).unwrap();
    let err = run_vm(&mut vm).unwrap_err();
    assert_eq!(err, InterpretationError::InvalidSlotIndex);
}

#[test]
fn store_overwrites_an_existing_slot() {
    // store 1.0 into slot 0, store 2.0 over it, load it, print
    let bytes = image(
        &[
            0x01, 0x00, 0x00, // push 1.0
            0x12, 0x00, 0x00, 0x00, 0x00, // store slot 0 (append)
            0x01, 0x01, 0x00, // push 2.0
            0x12, 0x00, 0x00, 0x00, 0x00, // store slot 0 (overwrite)
            0x13, 0x00, 0x00, 0x00, 0x00, // load slot 0
            0xfe, // debug-print
        ],
        &[1.0, 2.0],
    );
    let mut vm = VM::new(bytes).unwrap();
    run_vm(&mut vm).unwrap();
    assert_eq!(vm.output().as_slice(), &[2.0f64.to_bits()]);
}

#[test]
fn pop_on_empty_stack_fails() {
    let bytes = image(&[0x02], &[]);
    let mut vm = VM::new(bytes).unwrap();
    let err = run_vm(&mut vm).unwrap_err();
    assert_eq!(err, InterpretationError::EmptyStackError);
}

#[test]
fn unknown_builtin_id_fails() {
    let bytes = image(&[0x11, 0x07, 0x00], &[]);
    let mut vm = VM::new(bytes).unwrap();
    let err = run_vm(&mut vm).unwrap_err();
    assert_eq!(err, InterpretationError::UnknownBuiltin);
}

#[test]
fn truncated_operand_read_fails() {
    let mut vm = VM::new(vec![0xff]).unwrap();
    vm.load_program(vec![0x01, 0x00]);
    let err = run_vm(&mut vm).unwrap_err();
    assert_eq!(err, InterpretationError::UnexpectedEndError);
}

#[test]
fn comparisons_push_one_or_zero() {
    // 1.0 < 2.0: push 1.0, push 2.0, lt, print
    let bytes = image(&[0x01, 0x00, 0x00, 0x01, 0x01, 0x00, 0x0b, 0xfe], &[1.0, 2.0]);
    let mut vm = VM::new(bytes).unwrap();
    run_vm(&mut vm).unwrap();
    assert_eq!(vm.output().as_slice(), &[1.0f64.to_bits()]);

    // 1.0 > 2.0 is false
    let bytes = image(&[0x01, 0x00, 0x00, 0x01, 0x01, 0x00, 0x0a, 0xfe], &[1.0, 2.0]);
    let mut vm = VM::new(bytes).unwrap();
    run_vm(&mut vm).unwrap();
    assert_eq!(vm.output().as_slice(), &[0.0f64.to_bits()]);

    // 2.0 >= 2.0 holds, 2.0 <= 1.9 does not
    let bytes = image(&[0x01, 0x00, 0x00, 0x01, 0x00, 0x00, 0x0c, 0xfe], &[2.0]);
    let mut vm = VM::new(bytes).unwrap();
    run_vm(&mut vm).unwrap();
    assert_eq!(vm.output().as_slice(), &[1.0f64.to_bits()]);
}

#[test]
fn nan_compares_unequal_to_itself() {
    let nan = f64::NAN;
    // eq: NaN == NaN is false
    let bytes = image(&[0x01, 0x00, 0x00, 0x01, 0x01, 0x00, 0x08, 0xfe], &[nan, nan]);
    let mut vm = VM::new(bytes).unwrap();
    run_vm(&mut vm).unwrap();
    assert_eq!(vm.output().as_slice(), &[0.0f64.to_bits()]);

    // neq: NaN != NaN is true
    let bytes = image(&[0x01, 0x00, 0x00, 0x01, 0x01, 0x00, 0x09, 0xfe], &[nan, nan]);
    let mut vm = VM::new(bytes).unwrap();
    run_vm(&mut vm).unwrap();
    assert_eq!(vm.output().as_slice(), &[1.0f64.to_bits()]);
}

#[test]
fn jump_if_false_takes_the_offset_on_zero() {
    // push 0.0, jf +4 (to the halt), a debug-print in between is skipped
    let bytes = image(&[0x01, 0x00, 0x00, 0x0f, 0x04, 0x00, 0xfe], &[0.0]);
    let mut vm = VM::new(bytes).unwrap();
    run_vm(&mut vm).unwrap();
    assert!(vm.output().is_empty());
}

#[test]
fn forward_jump_skips_bytes() {
    // jmp +4 lands on the halt, skipping a debug-print
    let bytes = image(&[0x07, 0x04, 0x00, 0xfe], &[]);
    let mut vm = VM::new(bytes).unwrap();
    run_vm(&mut vm).unwrap();
    assert!(vm.output().is_empty());
}

#[test]
fn loading_a_truncated_pool_record_fails() {
    let err = VM::new(vec![0xff, 0x00]).unwrap_err();
    assert_eq!(err, BytecodeError::UnexpectedEof);
}

#[test]
fn loading_a_pool_value_of_the_wrong_width_fails() {
    let err = VM::new(vec![0xff, 0x00, 0x04, 0x01, 0x02, 0x03, 0x04]).unwrap_err();
    assert_eq!(err, BytecodeError::IncorrectRep);
}

#[test]
fn loaded_pool_matches_the_compiled_literals() {
    let bytes = build("1 + 3; 5 / 0; 5 + 5;");
    let mut vm = VM::new(bytes).unwrap();
    vm.start();
    // the pool holds every literal in source order, duplicates included:
    // push const 4 must find 5.0
    vm.load_program(vec![0x01, 0x04, 0x00, 0xfe, 0xff]);
    while vm.is_running() {
        vm.run_one_instr().unwrap();
    }
    assert_eq!(vm.output().as_slice(), &[5.0f64.to_bits()]);
}

#[test]
fn unpopped_expression_results_accumulate_on_the_stack() {
    // a bare expression statement leaves its value behind: two statements
    // leave two values, and a trailing debug-print sees the later one
    let mut bytes = build("1 + 3; 2 * 3;");
    let halt_at = bytes.iter().position(|b| *b == 0xff).unwrap();
    bytes.insert(halt_at, 0xfe);
    bytes.insert(halt_at + 1, 0xfe);
    let mut vm = VM::new(bytes).unwrap();
    run_vm(&mut vm).unwrap();
    assert_eq!(
        vm.output().as_slice(),
        &[6.0f64.to_bits(), 4.0f64.to_bits()]
    );
}
