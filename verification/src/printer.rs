//! Writing a tree back as symbols, and the proof that what is written is
//! well bracketed.

use vstd::prelude::*;
use crate::instruction::Instruction;
use crate::instruction::Node;
use crate::instruction::lemma_block_view;
use crate::instruction::symbols_of;

verus! {

/// The symbol form of `instructions`: each leaf as its symbol, each block as
/// its body between brackets, each undefined instruction as `*`.
pub fn to_symbols(instructions: &Vec<Instruction>) -> (symbols: Vec<char>)
    ensures
        symbols@ == symbols_of(instructions.deep_view()),
{
    let mut symbols: Vec<char> = Vec::new();
    write_symbols(instructions, &mut symbols);
    symbols
}

/// Appends the symbol form of `instructions` to `out`.
fn write_symbols(instructions: &Vec<Instruction>, out: &mut Vec<char>)
    ensures
        final(out)@ == old(out)@ + symbols_of(instructions.deep_view()),
    decreases instructions,
{
    let ghost tree = instructions.deep_view();
    let mut i: usize = 0;
    assert(tree.skip(0) =~= tree);
    while i < instructions.len()
        invariant
            i <= instructions.len(),
            tree == instructions.deep_view(),
            old(out)@ + symbols_of(tree) == out@ + symbols_of(tree.skip(i as int)),
        decreases instructions.len() - i,
    {
        let ghost before = out@;
        let ghost rest = tree.skip(i as int);
        assert(rest.skip(1) =~= tree.skip(i + 1));
        match &instructions[i] {
            Instruction::BLOCK(body) => {
                proof {
                    lemma_block_view(*body);
                }
                out.push('[');
                write_symbols(body, out);
                out.push(']');
            },
            Instruction::NEXT => out.push('>'),
            Instruction::PREV => out.push('<'),
            Instruction::INC => out.push('+'),
            Instruction::DEC => out.push('-'),
            Instruction::OUT => out.push('.'),
            Instruction::IN => out.push(','),
            Instruction::UNDEFINED => out.push('*'),
        }
        assert(out@ =~= before + rest[0].symbols());
        i = i + 1;
    }
}

/// The nesting depth at the end of `symbols`: its `[` less its `]`.
pub open spec fn depth_of(symbols: Seq<char>) -> int
    decreases symbols.len(),
{
    if symbols.len() == 0 {
        0
    } else {
        depth_of(symbols.drop_last()) + if symbols.last() == '[' {
            1int
        } else if symbols.last() == ']' {
            -1int
        } else {
            0int
        }
    }
}

/// Whether every `[` of `symbols` has its `]` and every `]` its `[`: the
/// depth is never negative on the way, and zero at the end.
pub open spec fn well_bracketed(symbols: Seq<char>) -> bool {
    &&& depth_of(symbols) == 0
    &&& forall|n: int| 0 <= n <= symbols.len() ==> depth_of(#[trigger] symbols.take(n)) >= 0
}

/// The depth of a single symbol.
pub proof fn lemma_depth_of_one(c: char)
    ensures
        depth_of(seq![c]) == if c == '[' {
            1int
        } else if c == ']' {
            -1int
        } else {
            0int
        },
{
    reveal_with_fuel(depth_of, 2);
}

/// The depth at the end of two texts in a row is the sum of their depths.
pub proof fn lemma_depth_of_concat(a: Seq<char>, b: Seq<char>)
    ensures
        depth_of(a + b) == depth_of(a) + depth_of(b),
    decreases b.len(),
{
    if b.len() == 0 {
    } else {
        assert((a + b).drop_last() =~= a + b.drop_last());
        lemma_depth_of_concat(a, b.drop_last());
    }
}

/// Two well-bracketed texts in a row are well bracketed.
pub proof fn lemma_well_bracketed_concat(a: Seq<char>, b: Seq<char>)
    requires
        well_bracketed(a),
        well_bracketed(b),
    ensures
        well_bracketed(a + b),
{
    lemma_depth_of_concat(a, b);
    assert forall|n: int| 0 <= n <= (a + b).len() implies depth_of(#[trigger] (a + b).take(n))
        >= 0 by {
        if n <= a.len() {
            assert((a + b).take(n) =~= a.take(n));
        } else {
            assert((a + b).take(n) =~= a + b.take(n - a.len()));
            lemma_depth_of_concat(a, b.take(n - a.len()));
        }
    }
}

/// A well-bracketed text between brackets is well bracketed.
pub proof fn lemma_well_bracketed_block(inner: Seq<char>)
    requires
        well_bracketed(inner),
    ensures
        well_bracketed(seq!['['] + inner + seq![']']),
{
    let open = seq!['['];
    let close = seq![']'];
    let whole = open + inner + close;
    lemma_depth_of_one('[');
    lemma_depth_of_one(']');
    lemma_depth_of_concat(open, inner);
    lemma_depth_of_concat(open + inner, close);
    assert forall|n: int| 0 <= n <= whole.len() implies depth_of(#[trigger] whole.take(n))
        >= 0 by {
        if 0 < n <= 1 + inner.len() {
            assert(whole.take(n) =~= open + inner.take(n - 1));
            lemma_depth_of_concat(open, inner.take(n - 1));
        } else if n > 1 + inner.len() {
            assert(whole.take(n) =~= whole);
        }
    }
}

/// The symbol form of every tree is well bracketed, and so is that of every
/// instruction: a tree has no block left open and closes none that it did
/// not open.
pub proof fn lemma_symbols_well_bracketed(tree: Seq<Node>)
    ensures
        well_bracketed(symbols_of(tree)),
    decreases tree,
{
    if tree.len() == 0 {
    } else {
        let first = tree[0].symbols();
        match tree[0] {
            Node::Block(body) => {
                lemma_symbols_well_bracketed(body);
                lemma_well_bracketed_block(symbols_of(body));
            },
            _ => {
                lemma_depth_of_one(first[0]);
                assert forall|n: int| 0 <= n <= first.len() implies depth_of(
                    #[trigger] first.take(n),
                ) >= 0 by {
                    if n > 0 {
                        assert(first.take(n) =~= first);
                    }
                }
            },
        }
        lemma_symbols_well_bracketed(tree.skip(1));
        lemma_well_bracketed_concat(first, symbols_of(tree.skip(1)));
    }
}

} // verus!
