//! The interpreter: a tape, a cursor, buffered input and output, and a budget
//! of steps, driven by an instruction tree.

use vstd::prelude::*;
use crate::instruction::Instruction;
use crate::instruction::Node;
use crate::instruction::lemma_block_view;
use crate::machine::Fault;
use crate::machine::Machine;
use crate::machine::Outcome;
use crate::machine::blank;
use crate::machine::is_scalar_value;
use crate::machine::run_loop;
use crate::machine::run_op;
use crate::machine::run_seq;
use crate::machine::lemma_run_op_spends;
use crate::machine::lemma_run_seq_spends;

verus! {

/// `char::from_u32` gives the character with the code `i` if `i` is a Unicode
/// scalar value, and nothing otherwise.
pub assume_specification[ char::from_u32 ](i: u32) -> (c: Option<char>)
    ensures
        c == if is_scalar_value(i as int) {
            Some(i as char)
        } else {
            None
        },
;

/// The code of a character, as a cell value.
fn code_of(c: char) -> (code: i32)
    ensures
        code == c as i32,
        is_scalar_value(code as int),
{
    let code: u32 = c as u32;
    code as i32
}

/// The number of cells of the tape that `Interpreter::new` makes.
pub const DEFAULT_CELLS: usize = 10;

/// A tape of cells with a cursor on one of them, the input that programs
/// read, the output that they write, and the steps that they may still take.
pub struct Interpreter {
    memory: Vec<i32>,
    pointer: usize,
    input: Vec<char>,
    consumed: usize,
    output: Vec<char>,
    steps: u64,
}

impl View for Interpreter {
    type V = Machine;

    closed spec fn view(&self) -> Machine {
        Machine {
            tape: self.memory@,
            cursor: self.pointer as int,
            input: if self.consumed <= self.input.len() {
                self.input@.skip(self.consumed as int)
            } else {
                Seq::empty()
            },
            output: self.output@,
            steps: self.steps as nat,
        }
    }
}

impl Interpreter {
    /// An interpreter over ten cells, all zero, with the cursor on the first,
    /// no input, no output yet, and the largest budget of steps.
    pub fn new() -> (interpreter: Self)
        ensures
            interpreter@.valid(),
            interpreter@ == Machine::fresh(blank(DEFAULT_CELLS as nat)),
    {
        Interpreter::with_tape(DEFAULT_CELLS)
    }

    /// An interpreter like a new one, over `cells` cells.
    pub fn with_tape(cells: usize) -> (interpreter: Self)
        requires
            cells > 0,
        ensures
            interpreter@.valid(),
            interpreter@ == Machine::fresh(blank(cells as nat)),
    {
        let memory: Vec<i32> = vec![0; cells];
        assert(memory@ =~= blank(cells as nat));
        Interpreter::with_memory(memory)
    }

    /// An interpreter like a new one, over the cells of `memory` as they are.
    pub fn with_memory(memory: Vec<i32>) -> (interpreter: Self)
        requires
            memory.len() > 0,
        ensures
            interpreter@.valid(),
            interpreter@ == Machine::fresh(memory@),
    {
        let interpreter = Interpreter {
            memory,
            pointer: 0,
            input: Vec::new(),
            consumed: 0,
            output: Vec::new(),
            steps: u64::MAX,
        };
        assert(interpreter@.input =~= Seq::empty());
        interpreter
    }

    /// This interpreter with `input` as the input that has not been read.
    pub fn with_input(self, input: Vec<char>) -> (interpreter: Self)
        ensures
            interpreter@ == (Machine { input: input@, ..self@ }),
    {
        let interpreter = Interpreter {
            memory: self.memory,
            pointer: self.pointer,
            input,
            consumed: 0,
            output: self.output,
            steps: self.steps,
        };
        assert(interpreter@.input =~= input@);
        interpreter
    }

    /// This interpreter with a budget of `steps` steps.
    pub fn with_steps(self, steps: u64) -> (interpreter: Self)
        ensures
            interpreter@ == (Machine { steps: steps as nat, ..self@ }),
    {
        Interpreter {
            memory: self.memory,
            pointer: self.pointer,
            input: self.input,
            consumed: self.consumed,
            output: self.output,
            steps,
        }
    }

    /// The cells of the tape.
    pub fn memory(&self) -> (cells: &Vec<i32>)
        ensures
            cells@ == self@.tape,
    {
        &self.memory
    }

    /// The index of the current cell.
    pub fn pointer(&self) -> (cursor: usize)
        ensures
            cursor == self@.cursor,
    {
        self.pointer
    }

    /// The output written so far.
    pub fn output(&self) -> (written: &Vec<char>)
        ensures
            written@ == self@.output,
    {
        &self.output
    }

    /// The steps that may still be taken.
    pub fn steps(&self) -> (left: u64)
        ensures
            left == self@.steps,
    {
        self.steps
    }

    /// Runs `instructions` in order. An `UNDEFINED` instruction ends the
    /// sequence; a fault ends the run and is returned, with the interpreter as
    /// the faulting instruction found it, but for the step spent on it.
    pub fn eval(&mut self, instructions: &Vec<Instruction>) -> (result: Result<(), Fault>)
        requires
            old(self)@.valid(),
        ensures
            final(self)@.valid(),
            (Outcome { machine: final(self)@, result }) == run_seq(
                old(self)@,
                instructions.deep_view(),
            ),
        decreases old(self)@.steps, 1int,
    {
        let ghost program = instructions.deep_view();
        let mut current: usize = 0;
        assert(program.skip(0) =~= program);
        while current < instructions.len()
            invariant
                self@.valid(),
                current <= instructions.len(),
                program == instructions.deep_view(),
                self@.steps <= old(self)@.steps,
                run_seq(old(self)@, program) == run_seq(self@, program.skip(current as int)),
            decreases instructions.len() - current,
        {
            let ghost before = self@;
            let ghost rest = program.skip(current as int);
            assert(rest.skip(1) =~= program.skip(current + 1));
            proof {
                lemma_run_op_spends(before, rest[0]);
            }
            let step = match &instructions[current] {
                Instruction::UNDEFINED => {
                    return Ok(());
                },
                Instruction::BLOCK(body) => {
                    proof {
                        lemma_block_view(*body);
                    }
                    self.run_loop(body)
                },
                leaf => {
                    if self.steps == 0 {
                        return Err(Fault::StepLimit);
                    }
                    self.steps = self.steps - 1;
                    self.apply(leaf)
                },
            };
            match step {
                Ok(()) => {},
                Err(fault) => {
                    return Err(fault);
                },
            }
            current = current + 1;
        }
        Ok(())
    }

    /// Carries out one leaf instruction. A block or an undefined instruction
    /// has no effect here: `eval` runs the one and stops at the other.
    pub fn apply(&mut self, instruction: &Instruction) -> (result: Result<(), Fault>)
        requires
            old(self)@.valid(),
        ensures
            final(self)@.valid(),
            (Outcome { machine: final(self)@, result }) == old(self)@.apply(
                instruction.deep_view(),
            ),
    {
        match instruction {
            Instruction::INC => {
                self.increment();
                Ok(())
            },
            Instruction::DEC => {
                self.decrement();
                Ok(())
            },
            Instruction::NEXT => self.next(),
            Instruction::PREV => self.prev(),
            Instruction::OUT => self.print(),
            Instruction::IN => self.read(),
            Instruction::BLOCK(_) | Instruction::UNDEFINED => Ok(()),
        }
    }

    /// Runs a block with the body `instructions`: while the current cell is
    /// not zero, evaluates the body.
    pub fn run_loop(&mut self, instructions: &Vec<Instruction>) -> (result: Result<(), Fault>)
        requires
            old(self)@.valid(),
        ensures
            final(self)@.valid(),
            (Outcome { machine: final(self)@, result }) == run_loop(
                old(self)@,
                instructions.deep_view(),
            ),
        decreases old(self)@.steps, 0int,
    {
        loop
            invariant
                self@.valid(),
                self@.steps <= old(self)@.steps,
                run_loop(old(self)@, instructions.deep_view()) == run_loop(
                    self@,
                    instructions.deep_view(),
                ),
            decreases self@.steps,
        {
            let ghost before = self@;
            if self.steps == 0 {
                return Err(Fault::StepLimit);
            }
            self.steps = self.steps - 1;
            let value = self.memory[self.pointer];
            if value == 0 {
                return Ok(());
            }
            proof {
                lemma_run_seq_spends(before.spend(), instructions.deep_view());
            }
            match self.eval(instructions) {
                Ok(()) => {},
                Err(fault) => {
                    return Err(fault);
                },
            }
        }
    }

    /// Adds one to the current cell, wrapping at the largest value.
    pub fn increment(&mut self)
        requires
            old(self)@.valid(),
        ensures
            final(self)@.valid(),
            final(self)@.go() == old(self)@.apply(Node::Inc),
    {
        let value = self.memory[self.pointer];
        self.memory.set(self.pointer, value.wrapping_add(1));
    }

    /// Takes one from the current cell, wrapping at the smallest value.
    pub fn decrement(&mut self)
        requires
            old(self)@.valid(),
        ensures
            final(self)@.valid(),
            final(self)@.go() == old(self)@.apply(Node::Dec),
    {
        let value = self.memory[self.pointer];
        self.memory.set(self.pointer, value.wrapping_sub(1));
    }

    /// Moves the cursor one cell to the right, unless it stands on the last.
    pub fn next(&mut self) -> (result: Result<(), Fault>)
        requires
            old(self)@.valid(),
        ensures
            final(self)@.valid(),
            (Outcome { machine: final(self)@, result }) == old(self)@.apply(Node::Next),
    {
        let last = self.memory.len() - 1;
        if self.pointer < last {
            self.pointer = self.pointer + 1;
            Ok(())
        } else {
            Err(Fault::OutOfRangeAccess)
        }
    }

    /// Moves the cursor one cell to the left, unless it stands on the first.
    pub fn prev(&mut self) -> (result: Result<(), Fault>)
        requires
            old(self)@.valid(),
        ensures
            final(self)@.valid(),
            (Outcome { machine: final(self)@, result }) == old(self)@.apply(Node::Prev),
    {
        if self.pointer > 0 {
            self.pointer = self.pointer - 1;
            Ok(())
        } else {
            Err(Fault::OutOfRangeAccess)
        }
    }

    /// Writes the current cell to the output as the character with that code.
    pub fn print(&mut self) -> (result: Result<(), Fault>)
        requires
            old(self)@.valid(),
        ensures
            final(self)@.valid(),
            (Outcome { machine: final(self)@, result }) == old(self)@.apply(Node::Out),
    {
        let value = self.memory[self.pointer];
        if value < 0 {
            return Err(Fault::InvalidCodePoint);
        }
        match char::from_u32(value as u32) {
            Some(c) => {
                self.output.push(c);
                Ok(())
            },
            None => Err(Fault::InvalidCodePoint),
        }
    }

    /// Reads the next character of the input into the current cell.
    pub fn read(&mut self) -> (result: Result<(), Fault>)
        requires
            old(self)@.valid(),
        ensures
            final(self)@.valid(),
            (Outcome { machine: final(self)@, result }) == old(self)@.apply(Node::In),
    {
        if self.consumed < self.input.len() {
            let c = self.input[self.consumed];
            self.memory.set(self.pointer, code_of(c));
            self.consumed = self.consumed + 1;
            assert(self@.input =~= old(self)@.input.skip(1));
            Ok(())
        } else {
            Err(Fault::ExhaustedInput)
        }
    }
}

} // verus!
