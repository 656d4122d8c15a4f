//! The meaning of a program: a mathematical machine and the effect of each
//! instruction on it.
//!
//! A machine is a tape with a cursor, the input that has not been read, the
//! output written so far and a budget of steps. One step is spent on every
//! leaf instruction that is dispatched and on every test of a loop's
//! condition, so every run ends: with the program done, with a fault, or with
//! the budget used up.

use vstd::prelude::*;
use crate::instruction::Node;

verus! {

/// Why a run stopped before the end of the program.
#[derive(Debug, Clone, Copy, PartialEq, Eq, Structural)]
pub enum Fault {
    /// The cursor was asked to leave the tape, at either end.
    OutOfRangeAccess,
    /// The cell to be written out holds no Unicode scalar value.
    InvalidCodePoint,
    /// A cell was to be read from input that had run out.
    ExhaustedInput,
    /// A step was due and the budget was spent.
    StepLimit,
}

/// The state of a run.
pub struct Machine {
    /// The cells.
    pub tape: Seq<i32>,
    /// The index of the current cell.
    pub cursor: int,
    /// The input that has not been read yet.
    pub input: Seq<char>,
    /// The output written so far.
    pub output: Seq<char>,
    /// The steps that may still be taken.
    pub steps: nat,
}

/// A machine after some of a program has run, and whether the run may go on.
pub struct Outcome {
    /// The machine as the run left it.
    pub machine: Machine,
    /// `Ok` if the run may go on, the fault that ended it otherwise.
    pub result: Result<(), Fault>,
}

/// A tape of `cells` cells, all zero.
pub open spec fn blank(cells: nat) -> Seq<i32> {
    Seq::new(cells, |i: int| 0i32)
}

/// Whether `v` is the code of a character: a code point that is no surrogate.
pub open spec fn is_scalar_value(v: int) -> bool {
    0 <= v <= 0xD7FF || 0xE000 <= v <= 0x10FFFF
}

/// The cell value after `v`, wrapping from the largest to the smallest.
pub open spec fn succ(v: i32) -> i32 {
    if v == i32::MAX {
        i32::MIN
    } else {
        (v + 1) as i32
    }
}

/// The cell value before `v`, wrapping from the smallest to the largest.
pub open spec fn pred(v: i32) -> i32 {
    if v == i32::MIN {
        i32::MAX
    } else {
        (v - 1) as i32
    }
}

impl Machine {
    /// The machine before anything has run: the cells of `tape`, the cursor
    /// on the first, no input, no output, the largest budget.
    pub open spec fn fresh(tape: Seq<i32>) -> Machine {
        Machine {
            tape,
            cursor: 0,
            input: Seq::empty(),
            output: Seq::empty(),
            steps: u64::MAX as nat,
        }
    }

    /// The cursor stands on a cell of the tape.
    pub open spec fn valid(self) -> bool {
        0 <= self.cursor < self.tape.len()
    }

    /// The value of the current cell.
    pub open spec fn cell(self) -> i32 {
        self.tape[self.cursor]
    }

    /// This machine with `v` in the current cell.
    pub open spec fn with_cell(self, v: i32) -> Machine {
        Machine { tape: self.tape.update(self.cursor, v), ..self }
    }

    /// This machine with one step less in its budget.
    pub open spec fn spend(self) -> Machine {
        Machine { steps: (self.steps - 1) as nat, ..self }
    }

    /// This machine with `extra` steps more in its budget.
    pub open spec fn grant(self, extra: nat) -> Machine {
        Machine { steps: self.steps + extra, ..self }
    }

    /// This machine, free to go on.
    pub open spec fn go(self) -> Outcome {
        Outcome { machine: self, result: Ok(()) }
    }

    /// This machine, stopped by `fault`.
    pub open spec fn stop(self, fault: Fault) -> Outcome {
        Outcome { machine: self, result: Err(fault) }
    }

    /// The effect of one leaf instruction. A fault leaves the machine as it
    /// was. A block has no effect of its own here (see `run_loop`), nor has an
    /// undefined instruction.
    pub open spec fn apply(self, op: Node) -> Outcome {
        match op {
            Node::Next => if self.cursor + 1 < self.tape.len() {
                Machine { cursor: self.cursor + 1, ..self }.go()
            } else {
                self.stop(Fault::OutOfRangeAccess)
            },
            Node::Prev => if self.cursor > 0 {
                Machine { cursor: self.cursor - 1, ..self }.go()
            } else {
                self.stop(Fault::OutOfRangeAccess)
            },
            Node::Inc => self.with_cell(succ(self.cell())).go(),
            Node::Dec => self.with_cell(pred(self.cell())).go(),
            Node::Out => if is_scalar_value(self.cell() as int) {
                Machine { output: self.output.push(self.cell() as char), ..self }.go()
            } else {
                self.stop(Fault::InvalidCodePoint)
            },
            Node::In => if self.input.len() > 0 {
                Machine { input: self.input.skip(1), ..self }.with_cell(self.input[0] as i32).go()
            } else {
                self.stop(Fault::ExhaustedInput)
            },
            Node::Block(_) => self.go(),
            Node::Undefined => self.go(),
        }
    }
}

/// Runs `program` from its first instruction. An undefined instruction ends
/// the sequence it stands in: what follows it there is not dispatched. A
/// fault ends the run.
///
/// The test on the steps is what shows that this definition ends; it never
/// fails (`lemma_run_op_spends`).
pub open spec fn run_seq(machine: Machine, program: Seq<Node>) -> Outcome
    decreases machine.steps, 2int, program.len(),
{
    if program.len() == 0 || program[0] is Undefined {
        machine.go()
    } else {
        let first = run_op(machine, program[0]);
        if first.result is Ok && first.machine.steps < machine.steps {
            run_seq(first.machine, program.skip(1))
        } else {
            first
        }
    }
}

/// Dispatches one instruction other than an undefined one: a block runs as
/// a loop, a leaf takes a step and has its effect.
pub open spec fn run_op(machine: Machine, op: Node) -> Outcome
    decreases machine.steps, 1int, 0nat,
{
    match op {
        Node::Block(body) => run_loop(machine, body),
        _ => if machine.steps == 0 {
            machine.stop(Fault::StepLimit)
        } else {
            machine.spend().apply(op)
        },
    }
}

/// Runs a block: tests the current cell, and while the test finds it other
/// than zero, runs `body` and tests again. Each test takes a step.
///
/// As in `run_seq`, the test on the steps after a pass never fails
/// (`lemma_run_seq_spends`).
pub open spec fn run_loop(machine: Machine, body: Seq<Node>) -> Outcome
    decreases machine.steps, 0int, 0nat,
{
    if machine.steps == 0 {
        machine.stop(Fault::StepLimit)
    } else if machine.cell() == 0 {
        machine.spend().go()
    } else {
        let pass = run_seq(machine.spend(), body);
        if pass.result is Ok && pass.machine.steps < machine.steps {
            run_loop(pass.machine, body)
        } else {
            pass
        }
    }
}

/// The machine after `count` passes of a loop over `body`, each begun by a
/// test of the loop's condition that is paid for and not looked at: the first
/// fault ends the passes.
pub open spec fn passes(machine: Machine, body: Seq<Node>, count: nat) -> Outcome
    decreases count,
{
    if count == 0 {
        machine.go()
    } else {
        let first = run_seq(machine.spend(), body);
        if first.result is Ok {
            passes(first.machine, body, (count - 1) as nat)
        } else {
            first
        }
    }
}

/// Whether a loop over `body` that starts on `machine` finds, at its test
/// after `count` passes, the budget not spent and the current cell other
/// than zero.
pub open spec fn goes_on_after(machine: Machine, body: Seq<Node>, count: nat) -> bool {
    let reached = passes(machine, body, count);
    reached.result is Ok && reached.machine.steps > 0 && reached.machine.cell() != 0
}

/// Whether a loop over `body` that starts on `machine` finds, at its test
/// after `count` passes, the budget not spent and the current cell zero.
pub open spec fn ends_after(machine: Machine, body: Seq<Node>, count: nat) -> bool {
    let reached = passes(machine, body, count);
    reached.result is Ok && reached.machine.steps > 0 && reached.machine.cell() == 0
}

/// A loop whose test first finds zero after `count` passes runs its body
/// exactly `count` times: it leaves the machine as those passes left it, less
/// the step of the last test.
pub proof fn lemma_loop_runs_body_exactly(machine: Machine, body: Seq<Node>, count: nat)
    requires
        forall|j: nat| j < count ==> goes_on_after(machine, body, j),
        ends_after(machine, body, count),
    ensures
        run_loop(machine, body) == passes(machine, body, count).machine.spend().go(),
    decreases count,
{
    if count == 0 {
    } else {
        assert(goes_on_after(machine, body, 0));
        let first = run_seq(machine.spend(), body);
        lemma_run_seq_spends(machine.spend(), body);
        assert forall|j: nat| j < count - 1 implies goes_on_after(first.machine, body, j) by {
            assert(goes_on_after(machine, body, j + 1));
        }
        lemma_loop_runs_body_exactly(first.machine, body, (count - 1) as nat);
    }
}

/// A loop that starts on a zero cell never runs its body: it only pays for
/// its one test.
pub proof fn lemma_loop_skips_body_on_zero(machine: Machine, body: Seq<Node>)
    requires
        machine.steps > 0,
        machine.cell() == 0,
    ensures
        run_loop(machine, body) == machine.spend().go(),
        run_op(machine, Node::Block(body)) == machine.spend().go(),
        run_loop(machine, body) == passes(machine, body, 0).machine.spend().go(),
{
}

/// Running a sequence never adds to the budget.
pub proof fn lemma_run_seq_spends(machine: Machine, program: Seq<Node>)
    ensures
        run_seq(machine, program).machine.steps <= machine.steps,
    decreases machine.steps, 2int, program.len(),
{
    if program.len() > 0 && !(program[0] is Undefined) {
        lemma_run_op_spends(machine, program[0]);
        let first = run_op(machine, program[0]);
        if first.result is Ok {
            lemma_run_seq_spends(first.machine, program.skip(1));
        }
    }
}

/// Dispatching an instruction never adds to the budget, and takes at least
/// one step from it where the run may go on.
pub proof fn lemma_run_op_spends(machine: Machine, op: Node)
    ensures
        run_op(machine, op).machine.steps <= machine.steps,
        run_op(machine, op).result is Ok ==> run_op(machine, op).machine.steps < machine.steps,
    decreases machine.steps, 1int, 0nat,
{
    match op {
        Node::Block(body) => {
            lemma_run_loop_spends(machine, body);
        },
        _ => {},
    }
}

/// The same for a block: every test of its condition takes a step.
pub proof fn lemma_run_loop_spends(machine: Machine, body: Seq<Node>)
    ensures
        run_loop(machine, body).machine.steps <= machine.steps,
        run_loop(machine, body).result is Ok ==> run_loop(machine, body).machine.steps
            < machine.steps,
    decreases machine.steps, 0int, 0nat,
{
    if machine.steps > 0 && machine.cell() != 0 {
        lemma_run_seq_spends(machine.spend(), body);
        let pass = run_seq(machine.spend(), body);
        if pass.result is Ok {
            lemma_run_loop_spends(pass.machine, body);
        }
    }
}

/// Whatever runs, the cursor stays on the tape and the tape keeps its
/// length.
pub proof fn lemma_run_seq_stays_valid(machine: Machine, program: Seq<Node>)
    requires
        machine.valid(),
    ensures
        run_seq(machine, program).machine.valid(),
        run_seq(machine, program).machine.tape.len() == machine.tape.len(),
    decreases machine.steps, 2int, program.len(),
{
    if program.len() > 0 && !(program[0] is Undefined) {
        lemma_run_op_stays_valid(machine, program[0]);
        let first = run_op(machine, program[0]);
        if first.result is Ok && first.machine.steps < machine.steps {
            lemma_run_seq_stays_valid(first.machine, program.skip(1));
        }
    }
}

/// The same for one instruction.
pub proof fn lemma_run_op_stays_valid(machine: Machine, op: Node)
    requires
        machine.valid(),
    ensures
        run_op(machine, op).machine.valid(),
        run_op(machine, op).machine.tape.len() == machine.tape.len(),
    decreases machine.steps, 1int, 0nat,
{
    match op {
        Node::Block(body) => {
            lemma_run_loop_stays_valid(machine, body);
        },
        _ => {},
    }
}

/// The same for a block.
pub proof fn lemma_run_loop_stays_valid(machine: Machine, body: Seq<Node>)
    requires
        machine.valid(),
    ensures
        run_loop(machine, body).machine.valid(),
        run_loop(machine, body).machine.tape.len() == machine.tape.len(),
    decreases machine.steps, 0int, 0nat,
{
    if machine.steps > 0 && machine.cell() != 0 {
        lemma_run_seq_stays_valid(machine.spend(), body);
        let pass = run_seq(machine.spend(), body);
        if pass.result is Ok && pass.machine.steps < machine.steps {
            lemma_run_loop_stays_valid(pass.machine, body);
        }
    }
}

/// This outcome with `extra` steps more in its machine's budget.
pub open spec fn granted(outcome: Outcome, extra: nat) -> Outcome {
    Outcome { machine: outcome.machine.grant(extra), result: outcome.result }
}

/// The budget only watches: a run that does not stop for want of steps goes
/// the same way on any larger budget, and keeps what was added.
pub proof fn lemma_run_seq_on_more_steps(machine: Machine, program: Seq<Node>, extra: nat)
    requires
        run_seq(machine, program).result != Err::<(), Fault>(Fault::StepLimit),
    ensures
        run_seq(machine.grant(extra), program) == granted(run_seq(machine, program), extra),
    decreases machine.steps, 2int, program.len(),
{
    if program.len() == 0 || program[0] is Undefined {
    } else {
        let first = run_op(machine, program[0]);
        lemma_run_op_spends(machine, program[0]);
        lemma_run_op_on_more_steps(machine, program[0], extra);
        if first.result is Ok {
            lemma_run_seq_on_more_steps(first.machine, program.skip(1), extra);
        }
    }
}

/// The same for one instruction.
pub proof fn lemma_run_op_on_more_steps(machine: Machine, op: Node, extra: nat)
    requires
        run_op(machine, op).result != Err::<(), Fault>(Fault::StepLimit),
    ensures
        run_op(machine.grant(extra), op) == granted(run_op(machine, op), extra),
    decreases machine.steps, 1int, 0nat,
{
    match op {
        Node::Block(body) => {
            lemma_run_loop_on_more_steps(machine, body, extra);
        },
        _ => {
        },
    }
}

/// The same for a block.
pub proof fn lemma_run_loop_on_more_steps(machine: Machine, body: Seq<Node>, extra: nat)
    requires
        run_loop(machine, body).result != Err::<(), Fault>(Fault::StepLimit),
    ensures
        run_loop(machine.grant(extra), body) == granted(run_loop(machine, body), extra),
    decreases machine.steps, 0int, 0nat,
{
    if machine.steps > 0 {
        if machine.cell() != 0 {
            let pass = run_seq(machine.spend(), body);
            lemma_run_seq_spends(machine.spend(), body);
            lemma_run_seq_on_more_steps(machine.spend(), body, extra);
            if pass.result is Ok {
                lemma_run_loop_on_more_steps(pass.machine, body, extra);
            }
        }
    }
}

} // verus!
