use agar::data::Data;
use agar::dec::Dec;
use agar::instruction::Instruction;
use agar::interp::{ExitStatus, Interpreter, RuntimeError, StepResult};
use agar::program::Program;

fn dec(s: &str) -> Dec {
    Dec::parse_chars(&s.chars().collect()).unwrap()
}

fn run(ops: Vec<Instruction>) -> (ExitStatus, Vec<Data>, Vec<u8>) {
    let mut vm = Interpreter::new();
    let mut buffer = Vec::new();
    vm.load_program(Program { ops });
    let status = vm.run(&mut buffer);
    (status, vm.stack().clone(), buffer)
}

#[test]
fn promotion_compares_across_variants() {
    assert_eq!(Data::Int(40), Data::Float(dec("40.0")));
    assert_eq!(Data::Float(dec("40.0")), Data::Int(40));
    assert_ne!(Data::Int(60), Data::Float(dec("50.0")));
    assert!(Data::Int(60) > Data::Float(dec("50.0")));
    assert!(Data::Float(dec("50.0")) < Data::Int(60));
    assert!(Data::Int(5) == Data::Float(dec("5.00")));
}

#[test]
fn decimal_equality_ignores_trailing_zeros() {
    assert_eq!(Data::Float(dec("1.50")), Data::Float(dec("1.5")));
    assert!(Data::Float(dec("4.1")) < Data::Float(dec("4.11")));
}

#[test]
fn arithmetic_is_type_homogeneous() {
    let x = Data::Int(1);
    let y = Data::Float(dec("2.0"));
    assert_eq!(x.add(&y), None);
    assert_eq!(y.add(&x), None);
    assert_eq!(x.sub(&y), None);
    assert_eq!(y.sub(&x), None);
    assert_eq!(x.mul(&y), None);
    assert_eq!(y.mul(&x), None);
    assert_eq!(x.add(&Data::Int(2)), Some(Data::Int(3)));
    assert_eq!(y.mul(&Data::Float(dec("3.0"))), Some(Data::Float(dec("6.0"))));
}

#[test]
fn integer_arithmetic_wraps() {
    let (status, stack, out) = run(vec![
        Instruction::pushi(i64::MAX),
        Instruction::pushi(1),
        Instruction::add(),
        Instruction::print(),
    ]);
    assert_eq!(status, ExitStatus::Success);
    assert_eq!(stack, vec![]);
    assert_eq!(out, b"-9223372036854775808");
}

#[test]
fn decimal_addition_is_exact() {
    let (status, _, out) = run(vec![
        Instruction::pushf(dec("0.1")),
        Instruction::pushf(dec("0.2")),
        Instruction::add(),
        Instruction::print(),
    ]);
    assert_eq!(status, ExitStatus::Success);
    assert_eq!(out, b"0.3");
}

#[test]
fn decimal_display_keeps_scale() {
    let (status, _, out) = run(vec![
        Instruction::pushf(dec("40.0")),
        Instruction::print(),
        Instruction::pushf(dec("0.05")),
        Instruction::print(),
        Instruction::pushf(dec("-1.1")),
        Instruction::print(),
        Instruction::pushi(-7),
        Instruction::print(),
    ]);
    assert_eq!(status, ExitStatus::Success);
    assert_eq!(out, b"40.00.05-1.1-7");
}

#[test]
fn not_peeks_and_pushes_a_flag() {
    let (status, stack, _) = run(vec![Instruction::pushi(0), Instruction::not()]);
    assert_eq!(status, ExitStatus::Success);
    assert_eq!(stack, vec![Data::Int(0), Data::Int(1)]);

    let (status, stack, _) = run(vec![
        Instruction::pushf(dec("0.00")),
        Instruction::not(),
        Instruction::not(),
    ]);
    assert_eq!(status, ExitStatus::Success);
    assert_eq!(
        stack,
        vec![Data::Float(dec("0.00")), Data::Int(1), Data::Int(0)]
    );
}

#[test]
fn not_on_empty_stack_fails() {
    let (status, stack, _) = run(vec![Instruction::not()]);
    assert_eq!(status, ExitStatus::Error(RuntimeError::NotEnoughArgs));
    assert_eq!(stack, vec![]);
}

#[test]
fn dup_on_empty_stack_fails() {
    let (status, _, _) = run(vec![Instruction::dup()]);
    assert_eq!(status, ExitStatus::Error(RuntimeError::NotEnoughArgs));
}

#[test]
fn cjump_on_empty_stack_fails() {
    let (status, _, _) = run(vec![Instruction::cjump(0)]);
    assert_eq!(status, ExitStatus::Error(RuntimeError::NotEnoughArgs));
}

#[test]
fn cjump_on_decimal_fails() {
    let (status, _, _) = run(vec![
        Instruction::pushf(dec("1.0")),
        Instruction::cjump(0),
    ]);
    assert_eq!(status, ExitStatus::Error(RuntimeError::InvalidValue));
}

#[test]
fn print_char_rejects_surrogates() {
    let (status, stack, out) = run(vec![
        Instruction::pushi(0xD800),
        Instruction::printch(),
    ]);
    assert_eq!(status, ExitStatus::Error(RuntimeError::InvalidValue));
    assert_eq!(stack, vec![]);
    assert_eq!(out, b"");
}

#[test]
fn print_char_writes_multibyte_utf8() {
    let (status, _, out) = run(vec![
        Instruction::pushi(0x20AC),
        Instruction::printch(),
    ]);
    assert_eq!(status, ExitStatus::Success);
    assert_eq!(out, "\u{20AC}".as_bytes());
}

#[test]
fn panic_writes_its_diagnostic() {
    let (status, _, out) = run(vec![Instruction::panic()]);
    assert_eq!(status, ExitStatus::Panic);
    assert_eq!(out, b"Oops...\nError occurs: Panic from code\n");
}

#[test]
fn type_error_discards_both_operands() {
    let (status, stack, _) = run(vec![
        Instruction::pushi(7),
        Instruction::pushi(34),
        Instruction::pushf(dec("35.5")),
        Instruction::add(),
    ]);
    assert_eq!(status, ExitStatus::Error(RuntimeError::IncompatibleType));
    assert_eq!(stack, vec![Data::Int(7)]);
}

#[test]
fn parsed_decimals_round_trip_through_text() {
    for text in ["0", "0.0", "12.34", "-12.34", "0.001", "-0.5", "1000000"] {
        let d = dec(text);
        let (status, _, out) = run(vec![Instruction::pushf(d), Instruction::print()]);
        assert_eq!(status, ExitStatus::Success);
        assert_eq!(out, text.as_bytes());
    }
}

#[test]
fn goto_moves_the_instruction_pointer() {
    let mut vm = Interpreter::new();
    vm.load_program(Program {
        ops: vec![Instruction::panic(), Instruction::pushi(9)],
    });
    vm.goto(1);
    let mut buffer = Vec::new();
    let status = vm.run(&mut buffer);
    assert_eq!(status, ExitStatus::Success);
    assert_eq!(*vm.stack(), vec![Data::Int(9)]);
}

#[test]
fn get_returns_instructions_in_range() {
    let program = Program {
        ops: vec![Instruction::nop(), Instruction::pushi(1)],
    };
    assert_eq!(program.get(1), Some(&Instruction::pushi(1)));
    assert_eq!(program.get(2), None);
}

#[test]
fn step_runs_one_instruction_at_a_time() {
    let mut vm = Interpreter::new();
    vm.load_program(Program {
        ops: vec![Instruction::pushi(5), Instruction::exit()],
    });
    let mut buffer = Vec::new();
    assert_eq!(vm.step(&mut buffer), StepResult::Running);
    assert_eq!(*vm.stack(), vec![Data::Int(5)]);
    assert_eq!(vm.ip, 1);
    assert_eq!(vm.step(&mut buffer), StepResult::Exit);
    assert_eq!(*vm.stack(), vec![Data::Int(5)]);
}

#[test]
fn print_char_rejects_out_of_range_integers() {
    // 2^32 + 65: truncating to 32 bits would print "A"; the scalar-value
    // check applies to the whole integer, so this must fail.
    let (status, stack, out) = run(vec![
        Instruction::pushi(4294967361),
        Instruction::printch(),
    ]);
    assert_eq!(status, ExitStatus::Error(RuntimeError::InvalidValue));
    assert_eq!(stack, vec![]);
    assert_eq!(out, b"");

    let (status, _, out) = run(vec![
        Instruction::pushi(-1),
        Instruction::printch(),
    ]);
    assert_eq!(status, ExitStatus::Error(RuntimeError::InvalidValue));
    assert_eq!(out, b"");

    let (status, _, _) = run(vec![
        Instruction::pushi(0x110000),
        Instruction::printch(),
    ]);
    assert_eq!(status, ExitStatus::Error(RuntimeError::InvalidValue));
}
