use bf_interpreter::interpreter::Interpreter;
use bf_interpreter::interpreter::DEFAULT_CELLS;
use bf_interpreter::machine::Fault;
use bf_interpreter::parser::Parser;
use bf_interpreter::Instruction;

const SAMPLE: &str = "+++++++++[>++++++++>+++++++++++>+++++<<<-]>.>++.+++++++..+++.>-------------.<<+++++++++++++++.>.+++.------.--------.>+..";

fn parse(source: &str) -> Vec<Instruction> {
    Parser::new().parse(source.chars().collect())
}

fn text(interpreter: &Interpreter) -> String {
    interpreter.output().iter().collect()
}

// The sample writes no comma: its fourth cell goes from 45 straight to 32,
// and its last two symbols write the exclamation mark twice.
#[test]
fn sample_program_writes_its_greeting() {
    let instructions = parse(SAMPLE);
    let mut interpreter = Interpreter::new();
    assert_eq!(interpreter.eval(&instructions), Ok(()));
    assert_eq!(text(&interpreter), "Hello World!!");
    assert_eq!(interpreter.output().len(), 13);
    assert_eq!(interpreter.memory(), &vec![0, 87, 100, 33, 0, 0, 0, 0, 0, 0]);
    assert_eq!(interpreter.pointer(), 3);
}

#[test]
fn sample_program_runs_on_the_large_tape_too() {
    let instructions = parse(SAMPLE);
    let mut interpreter = Interpreter::with_tape(100);
    assert_eq!(interpreter.eval(&instructions), Ok(()));
    assert_eq!(text(&interpreter), "Hello World!!");
}

#[test]
fn hello_world_with_its_comma() {
    let program = "+++++++++[>++++++++>+++++++++++>+++++<<<-]>.>++.+++++++..+++.>-.------------.<<+++++++++++++++.>.+++.------.--------.>+.";
    let mut interpreter = Interpreter::new();
    assert_eq!(interpreter.eval(&parse(program)), Ok(()));
    assert_eq!(text(&interpreter), "Hello, World!");
}

#[test]
fn new_interpreter_is_blank() {
    let interpreter = Interpreter::new();
    assert_eq!(DEFAULT_CELLS, 10);
    assert_eq!(interpreter.memory(), &vec![0; 10]);
    assert_eq!(interpreter.pointer(), 0);
    assert_eq!(interpreter.output(), &Vec::<char>::new());
    assert_eq!(interpreter.steps(), u64::MAX);
    let large = Interpreter::with_tape(100);
    assert_eq!(large.memory(), &vec![0; 100]);
    assert_eq!(large.pointer(), 0);
}

#[test]
fn empty_program_has_no_effect() {
    let instructions = parse("");
    assert!(instructions.is_empty());
    let mut interpreter = Interpreter::new();
    assert_eq!(interpreter.eval(&instructions), Ok(()));
    assert_eq!(interpreter.memory(), &vec![0; 10]);
    assert_eq!(interpreter.pointer(), 0);
    assert!(interpreter.output().is_empty());
    assert_eq!(interpreter.steps(), u64::MAX);
}

#[test]
fn moving_left_of_the_first_cell_faults() {
    for cells in [10usize, 100] {
        let mut interpreter = Interpreter::with_tape(cells);
        assert_eq!(interpreter.eval(&parse("<")), Err(Fault::OutOfRangeAccess));
        assert_eq!(interpreter.pointer(), 0);
        let mut back = Interpreter::with_tape(cells);
        assert_eq!(back.eval(&parse(">><<<+")), Err(Fault::OutOfRangeAccess));
        assert_eq!(back.pointer(), 0);
        assert_eq!(back.memory(), &vec![0; cells]);
    }
}

#[test]
fn moving_right_of_the_last_cell_faults() {
    for cells in [10usize, 100] {
        let to_last = ">".repeat(cells - 1);
        let mut interpreter = Interpreter::with_tape(cells);
        assert_eq!(interpreter.eval(&parse(&to_last)), Ok(()));
        assert_eq!(interpreter.pointer(), cells - 1);
        assert_eq!(interpreter.eval(&parse(">")), Err(Fault::OutOfRangeAccess));
        assert_eq!(interpreter.pointer(), cells - 1);
        let past = ">".repeat(cells);
        let mut second = Interpreter::with_tape(cells);
        assert_eq!(second.eval(&parse(&past)), Err(Fault::OutOfRangeAccess));
        assert_eq!(second.pointer(), cells - 1);
    }
}

#[test]
fn cursor_methods_report_the_edges() {
    let mut interpreter = Interpreter::with_tape(2);
    assert_eq!(interpreter.prev(), Err(Fault::OutOfRangeAccess));
    assert_eq!(interpreter.next(), Ok(()));
    assert_eq!(interpreter.pointer(), 1);
    assert_eq!(interpreter.next(), Err(Fault::OutOfRangeAccess));
    assert_eq!(interpreter.pointer(), 1);
    assert_eq!(interpreter.prev(), Ok(()));
    assert_eq!(interpreter.pointer(), 0);
    let mut single = Interpreter::with_tape(1);
    assert_eq!(single.next(), Err(Fault::OutOfRangeAccess));
    assert_eq!(single.prev(), Err(Fault::OutOfRangeAccess));
}

#[test]
fn increment_and_decrement_change_the_current_cell() {
    let mut interpreter = Interpreter::new();
    interpreter.increment();
    interpreter.increment();
    assert_eq!(interpreter.next(), Ok(()));
    interpreter.decrement();
    assert_eq!(interpreter.memory()[0], 2);
    assert_eq!(interpreter.memory()[1], -1);
    assert_eq!(interpreter.steps(), u64::MAX);
}

#[test]
fn loop_on_a_zero_cell_never_runs_its_body() {
    let mut interpreter = Interpreter::new();
    assert_eq!(interpreter.eval(&parse("[+>+.<]")), Ok(()));
    assert_eq!(interpreter.memory(), &vec![0; 10]);
    assert_eq!(interpreter.pointer(), 0);
    assert!(interpreter.output().is_empty());
    assert_eq!(interpreter.steps(), u64::MAX - 1);
}

#[test]
fn loop_runs_its_body_once_for_each_count() {
    let mut interpreter = Interpreter::new();
    assert_eq!(interpreter.eval(&parse("+++[>+<-]")), Ok(()));
    assert_eq!(interpreter.memory()[0], 0);
    assert_eq!(interpreter.memory()[1], 3);
    // three leaves, four tests, three passes of four leaves
    assert_eq!(interpreter.steps(), u64::MAX - 19);
}

#[test]
fn nested_loops_multiply() {
    let mut interpreter = Interpreter::new();
    assert_eq!(interpreter.eval(&parse("+++[>++++[>+<-]<-]")), Ok(()));
    assert_eq!(interpreter.memory()[0], 0);
    assert_eq!(interpreter.memory()[1], 0);
    assert_eq!(interpreter.memory()[2], 12);
}

#[test]
fn run_loop_is_a_while_loop() {
    let mut interpreter = Interpreter::new();
    interpreter.increment();
    interpreter.increment();
    assert_eq!(interpreter.run_loop(&parse("->+<")), Ok(()));
    assert_eq!(interpreter.memory()[0], 0);
    assert_eq!(interpreter.memory()[1], 2);
    assert_eq!(interpreter.steps(), u64::MAX - 11);
}

#[test]
fn step_budget_ends_an_endless_loop() {
    let mut interpreter = Interpreter::new().with_steps(100);
    assert_eq!(interpreter.eval(&parse("+[]")), Err(Fault::StepLimit));
    assert_eq!(interpreter.steps(), 0);
    assert_eq!(interpreter.memory()[0], 1);
    let mut busy = Interpreter::new().with_steps(8);
    assert_eq!(busy.eval(&parse("+[>+<]")), Err(Fault::StepLimit));
    assert_eq!(busy.steps(), 0);
    assert_eq!(busy.memory()[1], 2);
    assert_eq!(busy.pointer(), 1);
}

#[test]
fn step_budget_counts_leaves_and_tests() {
    let mut exact = Interpreter::new().with_steps(3);
    assert_eq!(exact.eval(&parse("+-+")), Ok(()));
    assert_eq!(exact.steps(), 0);
    let mut short = Interpreter::new().with_steps(2);
    assert_eq!(short.eval(&parse("+-+")), Err(Fault::StepLimit));
    assert_eq!(short.memory()[0], 0);
    let mut none = Interpreter::new().with_steps(0);
    assert_eq!(none.eval(&parse("")), Ok(()));
    assert_eq!(none.eval(&parse("[]")), Err(Fault::StepLimit));
    assert_eq!(none.eval(&parse("+")), Err(Fault::StepLimit));
    assert_eq!(none.memory()[0], 0);
}

#[test]
fn writing_a_negative_cell_faults() {
    let mut interpreter = Interpreter::new();
    assert_eq!(interpreter.eval(&parse("-.")), Err(Fault::InvalidCodePoint));
    assert!(interpreter.output().is_empty());
    assert_eq!(interpreter.memory()[0], -1);
}

#[test]
fn writing_a_surrogate_faults() {
    // 0xD800 = 216 * 256
    let program = format!("{}[>{}<-]>", "+".repeat(216), "+".repeat(256));
    let mut interpreter = Interpreter::new();
    assert_eq!(interpreter.eval(&parse(&program)), Ok(()));
    assert_eq!(interpreter.memory()[1], 0xD800);
    assert_eq!(interpreter.print(), Err(Fault::InvalidCodePoint));
    interpreter.decrement();
    assert_eq!(interpreter.print(), Ok(()));
    assert_eq!(interpreter.output(), &vec!['\u{D7FF}']);
}

#[test]
fn writing_past_the_last_code_point_faults() {
    // 0x110000 = 1088 * 1024
    let program = format!("{}[>{}<-]>", "+".repeat(1088), "+".repeat(1024));
    let mut interpreter = Interpreter::new();
    assert_eq!(interpreter.eval(&parse(&program)), Ok(()));
    assert_eq!(interpreter.memory()[1], 0x110000);
    assert_eq!(interpreter.print(), Err(Fault::InvalidCodePoint));
    interpreter.decrement();
    assert_eq!(interpreter.print(), Ok(()));
    assert_eq!(interpreter.output(), &vec!['\u{10FFFF}']);
}

#[test]
fn writing_zero_gives_the_null_character() {
    let mut interpreter = Interpreter::new();
    assert_eq!(interpreter.eval(&parse(".")), Ok(()));
    assert_eq!(interpreter.output(), &vec!['\0']);
}

#[test]
fn reading_takes_the_input_in_order() {
    let mut interpreter = Interpreter::new().with_input(vec!['a', 'é', '\u{1F600}']);
    assert_eq!(interpreter.eval(&parse(",>,>,")), Ok(()));
    assert_eq!(interpreter.memory()[0], 97);
    assert_eq!(interpreter.memory()[1], 233);
    assert_eq!(interpreter.memory()[2], 0x1F600);
    assert_eq!(interpreter.eval(&parse("<<.>.>.")), Ok(()));
    assert_eq!(text(&interpreter), "aé\u{1F600}");
}

#[test]
fn reading_past_the_input_faults() {
    let mut interpreter = Interpreter::new().with_input(vec!['x']);
    assert_eq!(interpreter.eval(&parse(",+>,+")), Err(Fault::ExhaustedInput));
    assert_eq!(interpreter.memory()[0], 121);
    assert_eq!(interpreter.memory()[1], 0);
    assert_eq!(interpreter.pointer(), 1);
    let mut empty = Interpreter::new();
    assert_eq!(empty.read(), Err(Fault::ExhaustedInput));
    assert_eq!(empty.eval(&parse(",")), Err(Fault::ExhaustedInput));
}

#[test]
fn echo_until_the_input_ends() {
    let mut interpreter = Interpreter::new().with_input("hi!".chars().collect());
    assert_eq!(interpreter.eval(&parse("+[,.]")), Err(Fault::ExhaustedInput));
    assert_eq!(text(&interpreter), "hi!");
}

#[test]
fn undefined_instruction_ends_its_sequence() {
    let program = vec![Instruction::INC, Instruction::UNDEFINED, Instruction::INC];
    let mut interpreter = Interpreter::new();
    assert_eq!(interpreter.eval(&program), Ok(()));
    assert_eq!(interpreter.memory()[0], 1);
    assert_eq!(interpreter.steps(), u64::MAX - 1);
    let nested = vec![
        Instruction::INC,
        Instruction::INC,
        Instruction::BLOCK(vec![
            Instruction::DEC,
            Instruction::UNDEFINED,
            Instruction::INC,
        ]),
        Instruction::NEXT,
    ];
    let mut second = Interpreter::new();
    assert_eq!(second.eval(&nested), Ok(()));
    assert_eq!(second.memory()[0], 0);
    assert_eq!(second.pointer(), 1);
}

#[test]
fn a_fault_inside_a_loop_ends_the_run() {
    let mut interpreter = Interpreter::new();
    assert_eq!(
        interpreter.eval(&parse("++[-<+]>+")),
        Err(Fault::OutOfRangeAccess)
    );
    assert_eq!(interpreter.memory()[0], 1);
    assert_eq!(interpreter.memory()[1], 0);
    assert_eq!(interpreter.pointer(), 0);
}

#[test]
fn cells_wrap_at_the_ends_of_their_range() {
    let mut interpreter = Interpreter::with_memory(vec![i32::MAX, i32::MIN]);
    interpreter.increment();
    assert_eq!(interpreter.memory()[0], i32::MIN);
    interpreter.decrement();
    assert_eq!(interpreter.memory()[0], i32::MAX);
    assert_eq!(interpreter.eval(&parse("+>-")), Ok(()));
    assert_eq!(interpreter.memory(), &vec![i32::MIN, i32::MAX]);
}

#[test]
fn with_memory_keeps_the_cells() {
    let mut interpreter = Interpreter::with_memory(vec![3, 0, -7]);
    assert_eq!(interpreter.memory(), &vec![3, 0, -7]);
    assert_eq!(interpreter.pointer(), 0);
    assert_eq!(interpreter.steps(), u64::MAX);
    assert!(interpreter.output().is_empty());
    assert_eq!(interpreter.eval(&parse("[->+<]>>+")), Ok(()));
    assert_eq!(interpreter.memory(), &vec![0, 3, -6]);
}

#[test]
fn apply_carries_out_leaves_only() {
    let mut interpreter = Interpreter::with_memory(vec![65, 0]).with_input(vec!['z']);
    assert_eq!(interpreter.apply(&Instruction::OUT), Ok(()));
    assert_eq!(interpreter.apply(&Instruction::INC), Ok(()));
    assert_eq!(interpreter.apply(&Instruction::NEXT), Ok(()));
    assert_eq!(interpreter.apply(&Instruction::IN), Ok(()));
    assert_eq!(interpreter.apply(&Instruction::DEC), Ok(()));
    assert_eq!(interpreter.apply(&Instruction::NEXT), Err(Fault::OutOfRangeAccess));
    assert_eq!(interpreter.apply(&Instruction::IN), Err(Fault::ExhaustedInput));
    assert_eq!(interpreter.apply(&Instruction::UNDEFINED), Ok(()));
    assert_eq!(
        interpreter.apply(&Instruction::BLOCK(vec![Instruction::DEC])),
        Ok(())
    );
    assert_eq!(interpreter.apply(&Instruction::PREV), Ok(()));
    assert_eq!(interpreter.apply(&Instruction::PREV), Err(Fault::OutOfRangeAccess));
    assert_eq!(interpreter.memory(), &vec![66, 121]);
    assert_eq!(interpreter.output(), &vec!['A']);
    assert_eq!(interpreter.steps(), u64::MAX);
}
