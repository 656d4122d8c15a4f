//! A textual snapshot of a run, for diagnostics: the instructions of a
//! sequence with a caret under the current one, then the tape with an arrow
//! under the current cell. Nothing here changes the interpreter.

use vstd::prelude::*;
use vstd::string::StringExecFns;
use crate::instruction::Instruction;
use crate::instruction::Node;
use crate::interpreter::Interpreter;

verus! {

/// The decimal digit for `d`.
pub open spec fn digit(d: int) -> char {
    if d == 0 {
        '0'
    } else if d == 1 {
        '1'
    } else if d == 2 {
        '2'
    } else if d == 3 {
        '3'
    } else if d == 4 {
        '4'
    } else if d == 5 {
        '5'
    } else if d == 6 {
        '6'
    } else if d == 7 {
        '7'
    } else if d == 8 {
        '8'
    } else {
        '9'
    }
}

/// The decimal digits of `n`, without leading zeros.
pub open spec fn digits(n: nat) -> Seq<char>
    decreases n,
{
    if n < 10 {
        seq![digit(n as int)]
    } else {
        digits(n / 10).push(digit(n as int % 10))
    }
}

/// A cell value in decimal, at least two characters wide: a single digit
/// gets a zero in front, a negative value its sign.
pub open spec fn cell_text(v: int) -> Seq<char> {
    if v < 0 {
        seq!['-'] + digits((-v) as nat)
    } else if v < 10 {
        seq!['0'] + digits(v as nat)
    } else {
        digits(v as nat)
    }
}

/// The line of cells: each cell as a bar and its value.
pub open spec fn cells_line(tape: Seq<i32>) -> Seq<char>
    decreases tape.len(),
{
    if tape.len() == 0 {
        Seq::empty()
    } else {
        cells_line(tape.drop_last()) + seq!['|'] + cell_text(tape.last() as int)
    }
}

/// The line under `cells` cells: three characters for each, an arrow in the
/// middle of those under the cell at `cursor`.
pub open spec fn arrow_line(cells: nat, cursor: int) -> Seq<char>
    decreases cells,
{
    if cells == 0 {
        Seq::empty()
    } else {
        arrow_line((cells - 1) as nat, cursor) + if cursor == cells - 1 {
            seq![' ', '\u{2191}', ' ']
        } else {
            seq![' ', ' ', ' ']
        }
    }
}

/// The two lines that show a tape and its cursor.
pub open spec fn dump_text(tape: Seq<i32>, cursor: int) -> Seq<char> {
    cells_line(tape) + seq!['\n'] + arrow_line(tape.len(), cursor) + seq!['\n']
}

/// The labels of a sequence of instructions, one after the other.
pub open spec fn labels_line(tree: Seq<Node>) -> Seq<char>
    decreases tree.len(),
{
    if tree.len() == 0 {
        Seq::empty()
    } else {
        labels_line(tree.drop_last()) + tree.last().label()
    }
}

/// The line under `count` instructions: one character for each, a caret for
/// the instruction at `current`.
pub open spec fn caret_line(count: nat, current: int) -> Seq<char>
    decreases count,
{
    if count == 0 {
        Seq::empty()
    } else {
        caret_line((count - 1) as nat, current).push(
            if current == count - 1 {
                '^'
            } else {
                ' '
            },
        )
    }
}

/// The whole snapshot: the labels, the caret, the tape, the arrow.
pub open spec fn display_text(tree: Seq<Node>, current: int, tape: Seq<i32>, cursor: int) -> Seq<
    char,
> {
    labels_line(tree) + seq!['\n'] + caret_line(tree.len(), current) + seq!['\n'] + dump_text(
        tape,
        cursor,
    )
}

/// The text of one decimal digit.
fn digit_str(d: u32) -> (text: &'static str)
    requires
        d < 10,
    ensures
        text@ == seq![digit(d as int)],
{
    proof {
        reveal_strlit("0");
        reveal_strlit("1");
        reveal_strlit("2");
        reveal_strlit("3");
        reveal_strlit("4");
        reveal_strlit("5");
        reveal_strlit("6");
        reveal_strlit("7");
        reveal_strlit("8");
        reveal_strlit("9");
    }
    let text = match d {
        0 => "0",
        1 => "1",
        2 => "2",
        3 => "3",
        4 => "4",
        5 => "5",
        6 => "6",
        7 => "7",
        8 => "8",
        _ => "9",
    };
    text
}

/// Appends the decimal digits of `n` to `out`.
fn append_digits(out: &mut String, n: u32)
    ensures
        final(out)@ == old(out)@ + digits(n as nat),
    decreases n,
{
    if n >= 10 {
        append_digits(out, n / 10);
    }
    out.append(digit_str(n % 10));
}

/// Appends a cell value to `out`.
fn append_cell(out: &mut String, v: i32)
    ensures
        final(out)@ == old(out)@ + cell_text(v as int),
{
    proof {
        reveal_strlit("-");
        reveal_strlit("0");
    }
    if v < 0 {
        out.append("-");
        let magnitude: i64 = -(v as i64);
        append_digits(out, magnitude as u32);
    } else {
        if v < 10 {
            out.append("0");
        }
        append_digits(out, v as u32);
    }
}

impl Interpreter {
    /// The tape and the cursor as text.
    pub fn dump(&self) -> (text: String)
        ensures
            text@ == dump_text(self@.tape, self@.cursor),
    {
        proof {
            reveal_strlit("\n");
        }
        let memory = self.memory();
        let pointer = self.pointer();
        let mut text = String::new();
        let mut i: usize = 0;
        while i < memory.len()
            invariant
                i <= memory.len(),
                text@ == cells_line(memory@.take(i as int)),
            decreases memory.len() - i,
        {
            proof {
                reveal_strlit("|");
            }
            text.append("|");
            append_cell(&mut text, memory[i]);
            assert(memory@.take(i + 1).drop_last() =~= memory@.take(i as int));
            i = i + 1;
        }
        assert(memory@.take(i as int) =~= memory@);
        text.append("\n");
        let ghost first = text@;
        let mut j: usize = 0;
        while j < memory.len()
            invariant
                j <= memory.len(),
                text@ == first + arrow_line(j as nat, pointer as int),
            decreases memory.len() - j,
        {
            proof {
                reveal_strlit(" \u{2191} ");
                reveal_strlit("   ");
            }
            if j == pointer {
                text.append(" \u{2191} ");
            } else {
                text.append("   ");
            }
            j = j + 1;
        }
        text.append("\n");
        text
    }

    /// The labels of `instructions` with a caret under the one at `current`,
    /// then the tape and the cursor.
    pub fn display_instructions(&self, instructions: &Vec<Instruction>, current: usize) -> (text:
        String)
        ensures
            text@ == display_text(
                instructions.deep_view(),
                current as int,
                self@.tape,
                self@.cursor,
            ),
    {
        proof {
            reveal_strlit("\n");
        }
        let ghost tree = instructions.deep_view();
        let mut inst = String::new();
        let mut caret = String::new();
        let mut i: usize = 0;
        while i < instructions.len()
            invariant
                i <= instructions.len(),
                tree == instructions.deep_view(),
                inst@ == labels_line(tree.take(i as int)),
                caret@ == caret_line(i as nat, current as int),
            decreases instructions.len() - i,
        {
            proof {
                reveal_strlit("^");
                reveal_strlit(" ");
            }
            inst.append(instructions[i].as_str());
            if i == current {
                caret.append("^");
            } else {
                caret.append(" ");
            }
            assert(tree.take(i + 1).drop_last() =~= tree.take(i as int));
            i = i + 1;
        }
        assert(tree.take(i as int) =~= tree);
        let dump = self.dump();
        inst.append("\n");
        inst.append(caret.as_str());
        inst.append("\n");
        inst.append(dump.as_str());
        inst
    }
}

} // verus!
