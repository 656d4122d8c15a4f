//! The parser: from a flat sequence of symbols to a nested instruction tree.
//!
//! Parsing never fails. A `[` without its `]` takes the rest of the input as
//! its body, and a `]` that closes nothing ends the program where it stands.

use vstd::prelude::*;
use crate::instruction::Instruction;
use crate::instruction::Node;
use crate::instruction::all_defined;
use crate::instruction::is_leaf_symbol;
use crate::instruction::lemma_block_view;
use crate::instruction::symbols_of;
use crate::printer::lemma_symbols_well_bracketed;
use crate::printer::well_bracketed;

verus! {

/// What the parser does with a symbol that is neither one of the six leaf
/// symbols nor a bracket.
#[derive(Debug, Clone, Copy, PartialEq, Eq, Structural)]
pub enum Unknown {
    /// The symbol is a comment: nothing stands for it in the tree.
    Skip,
    /// An `UNDEFINED` instruction stands for it in the tree.
    Mark,
}

/// The index just past the `]` that closes the sequence in which `pos` stands
/// `depth` blocks deep, or the length of `symbols` if no such `]` follows.
pub open spec fn close_of(symbols: Seq<char>, pos: int, depth: nat) -> int
    decreases symbols.len() - pos,
{
    if pos < 0 || pos >= symbols.len() {
        symbols.len() as int
    } else if symbols[pos] == '[' {
        close_of(symbols, pos + 1, depth + 1)
    } else if symbols[pos] == ']' {
        if depth == 0 {
            pos + 1
        } else {
            close_of(symbols, pos + 1, (depth - 1) as nat)
        }
    } else {
        close_of(symbols, pos + 1, depth)
    }
}

/// The index just past the end of the sequence that starts at `pos`: past its
/// closing `]`, or the length of `symbols` if the sequence runs to the end.
pub open spec fn end_of(symbols: Seq<char>, pos: int) -> int {
    close_of(symbols, pos, 0)
}

/// What stands in the tree for a symbol that is not a bracket.
pub open spec fn leaf_of(unknown: Unknown, c: char) -> Seq<Node> {
    if is_leaf_symbol(c) {
        seq![Node::of_symbol(c)]
    } else if unknown == Unknown::Mark {
        seq![Node::Undefined]
    } else {
        Seq::empty()
    }
}

/// The instruction sequence that starts at `pos` and runs to its closing `]`
/// or to the end of `symbols`. The body of a block is the sequence that
/// starts just past its `[`; the block's successor starts just past the end
/// of that body.
pub open spec fn sequence_at(unknown: Unknown, symbols: Seq<char>, pos: int) -> Seq<Node>
    decreases symbols.len() - pos,
{
    if pos < 0 || pos >= symbols.len() || symbols[pos] == ']' {
        Seq::empty()
    } else if symbols[pos] == '[' {
        proof {
            lemma_close_of_bounds(symbols, pos + 1, 0);
        }
        seq![Node::Block(sequence_at(unknown, symbols, pos + 1))] + sequence_at(
            unknown,
            symbols,
            end_of(symbols, pos + 1),
        )
    } else {
        leaf_of(unknown, symbols[pos]) + sequence_at(unknown, symbols, pos + 1)
    }
}

/// The tree of a whole program.
pub open spec fn parse_of(unknown: Unknown, symbols: Seq<char>) -> Seq<Node> {
    sequence_at(unknown, symbols, 0)
}

/// A closing index lies between the position it was asked from and the end.
pub proof fn lemma_close_of_bounds(symbols: Seq<char>, pos: int, depth: nat)
    requires
        0 <= pos <= symbols.len(),
    ensures
        pos <= close_of(symbols, pos, depth) <= symbols.len(),
        pos < symbols.len() ==> pos < close_of(symbols, pos, depth),
    decreases symbols.len() - pos,
{
    if pos < symbols.len() {
        if symbols[pos] == '[' {
            lemma_close_of_bounds(symbols, pos + 1, depth + 1);
        } else if symbols[pos] == ']' {
            if depth > 0 {
                lemma_close_of_bounds(symbols, pos + 1, (depth - 1) as nat);
            }
        } else {
            lemma_close_of_bounds(symbols, pos + 1, depth);
        }
    }
}

/// Closing `outer + 1 + inner` levels is closing `inner` levels first and
/// then `outer` more from where that ended.
pub proof fn lemma_close_of_split(symbols: Seq<char>, pos: int, inner: nat, outer: nat)
    requires
        0 <= pos <= symbols.len(),
    ensures
        close_of(symbols, pos, inner + 1 + outer) == close_of(
            symbols,
            close_of(symbols, pos, inner),
            outer,
        ),
    decreases symbols.len() - pos,
{
    if pos < symbols.len() {
        if symbols[pos] == '[' {
            lemma_close_of_split(symbols, pos + 1, inner + 1, outer);
        } else if symbols[pos] == ']' {
            if inner > 0 {
                lemma_close_of_split(symbols, pos + 1, (inner - 1) as nat, outer);
            }
        } else {
            lemma_close_of_split(symbols, pos + 1, inner, outer);
        }
    }
}

/// A parser that skips unknown symbols leaves no undefined instruction in
/// the tree.
pub proof fn lemma_skip_leaves_defined(symbols: Seq<char>, pos: int)
    ensures
        all_defined(sequence_at(Unknown::Skip, symbols, pos)),
    decreases symbols.len() - pos,
{
    if pos < 0 || pos >= symbols.len() || symbols[pos] == ']' {
    } else if symbols[pos] == '[' {
        lemma_close_of_bounds(symbols, pos + 1, 0);
        let body = sequence_at(Unknown::Skip, symbols, pos + 1);
        let rest = sequence_at(Unknown::Skip, symbols, end_of(symbols, pos + 1));
        lemma_skip_leaves_defined(symbols, pos + 1);
        lemma_skip_leaves_defined(symbols, end_of(symbols, pos + 1));
        assert((seq![Node::Block(body)] + rest).skip(1) =~= rest);
    } else {
        let rest = sequence_at(Unknown::Skip, symbols, pos + 1);
        lemma_skip_leaves_defined(symbols, pos + 1);
        if is_leaf_symbol(symbols[pos]) {
            assert((seq![Node::of_symbol(symbols[pos])] + rest).skip(1) =~= rest);
        } else {
        }
    }
}

/// The parser. It holds nothing but its policy for unknown symbols.
pub struct Parser {
    pub unknown: Unknown,
}

impl Parser {
    /// A parser that skips unknown symbols.
    pub fn new() -> (parser: Self)
        ensures
            parser.unknown == Unknown::Skip,
    {
        Parser { unknown: Unknown::Skip }
    }

    /// Parses a whole program. Every input has a tree.
    pub fn parse(&self, tokens: Vec<char>) -> (instructions: Vec<Instruction>)
        ensures
            instructions.deep_view() == parse_of(self.unknown, tokens@),
            self.unknown == Unknown::Skip ==> all_defined(instructions.deep_view()),
            well_bracketed(symbols_of(instructions.deep_view())),
    {
        proof {
            lemma_skip_leaves_defined(tokens@, 0);
            lemma_symbols_well_bracketed(parse_of(self.unknown, tokens@));
        }
        let (instructions, _) = self.inst(&tokens, 0);
        instructions
    }

    /// Parses the sequence that starts at `start`, and returns it with the
    /// index at which its caller goes on.
    fn inst(&self, tokens: &Vec<char>, start: usize) -> (parsed: (Vec<Instruction>, usize))
        requires
            start <= tokens.len(),
        ensures
            parsed.0.deep_view() == sequence_at(self.unknown, tokens@, start as int),
            parsed.1 == end_of(tokens@, start as int),
        decreases tokens.len() - start,
    {
        let mut instructions: Vec<Instruction> = Vec::new();
        let mut pos: usize = start;
        while pos < tokens.len()
            invariant
                start <= pos <= tokens.len(),
                sequence_at(self.unknown, tokens@, start as int) == instructions.deep_view()
                    + sequence_at(self.unknown, tokens@, pos as int),
                end_of(tokens@, start as int) == end_of(tokens@, pos as int),
            decreases tokens.len() - pos,
        {
            let c = tokens[pos];
            let ghost at = pos as int;
            let ghost before = instructions.deep_view();
            match c {
                '>' | '<' | '+' | '-' | '.' | ',' => {
                    instructions.push(Instruction::from(c));
                    pos = pos + 1;
                },
                '[' => {
                    let (inner, after) = self.inst(tokens, pos + 1);
                    proof {
                        lemma_block_view(inner);
                        lemma_close_of_bounds(tokens@, pos + 1, 0);
                        lemma_close_of_split(tokens@, pos + 1, 0, 0);
                    }
                    instructions.push(Instruction::BLOCK(inner));
                    pos = after;
                },
                ']' => {
                    return (instructions, pos + 1);
                },
                _ => {
                    match self.unknown {
                        Unknown::Skip => {},
                        Unknown::Mark => {
                            instructions.push(Instruction::UNDEFINED);
                        },
                    }
                    pos = pos + 1;
                },
            }
            assert(instructions.deep_view() =~= before + if c == '[' {
                seq![Node::Block(sequence_at(self.unknown, tokens@, at + 1))]
            } else {
                leaf_of(self.unknown, c)
            });
        }
        (instructions, pos)
    }
}

} // verus!
