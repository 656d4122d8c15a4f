//! The parser reads back what the printer wrote.

use vstd::prelude::*;
use crate::instruction::Node;
use crate::instruction::all_defined;
use crate::instruction::symbols_of;
use crate::parser::Unknown;
use crate::parser::end_of;
use crate::parser::leaf_of;
use crate::parser::lemma_close_of_split;
use crate::parser::lemma_skip_leaves_defined;
use crate::parser::parse_of;
use crate::parser::sequence_at;

verus! {

/// `tree` without its undefined instructions, at every depth.
pub open spec fn defined_part(tree: Seq<Node>) -> Seq<Node>
    decreases tree,
{
    if tree.len() == 0 {
        Seq::empty()
    } else {
        match tree[0] {
            Node::Undefined => defined_part(tree.skip(1)),
            Node::Block(body) => seq![Node::Block(defined_part(body))] + defined_part(
                tree.skip(1),
            ),
            leaf => seq![leaf] + defined_part(tree.skip(1)),
        }
    }
}

/// What a parser with the policy `unknown` keeps of `tree` when it reads the
/// tree's symbol form: all of it if it marks unknown symbols, and the defined
/// part if it skips them, since `*` is an unknown symbol.
pub open spec fn kept(unknown: Unknown, tree: Seq<Node>) -> Seq<Node> {
    if unknown == Unknown::Mark {
        tree
    } else {
        defined_part(tree)
    }
}

/// Where the symbol form of `tree` stands in `symbols` at `pos`, followed by a
/// `]` or by the end, the sequence read at `pos` is what the parser keeps of
/// `tree`, and it ends just past that `]` or at the end.
pub proof fn lemma_sequence_at_symbols(
    unknown: Unknown,
    symbols: Seq<char>,
    pos: int,
    tree: Seq<Node>,
)
    requires
        0 <= pos,
        pos + symbols_of(tree).len() <= symbols.len(),
        symbols.subrange(pos, pos + symbols_of(tree).len()) == symbols_of(tree),
        pos + symbols_of(tree).len() == symbols.len() || symbols[pos + symbols_of(tree).len()]
            == ']',
    ensures
        sequence_at(unknown, symbols, pos) == kept(unknown, tree),
        end_of(symbols, pos) == if pos + symbols_of(tree).len() == symbols.len() {
            symbols.len() as int
        } else {
            pos + symbols_of(tree).len() + 1
        },
    decreases tree,
{
    let written = symbols_of(tree);
    if tree.len() > 0 {
        let head = tree[0];
        let tail = tree.skip(1);
        let first = head.symbols();
        let next = pos + first.len();
        assert forall|i: int| 0 <= i < written.len() implies symbols[pos + i] == written[i] by {
            assert(symbols.subrange(pos, pos + written.len())[i] == written[i]);
        }
        assert(symbols.subrange(next, next + symbols_of(tail).len()) =~= symbols_of(tail)) by {
            assert forall|i: int| 0 <= i < symbols_of(tail).len() implies symbols[next + i]
                == symbols_of(tail)[i] by {
                assert(symbols[pos + (first.len() + i)] == written[first.len() + i]);
            }
        }
        lemma_sequence_at_symbols(unknown, symbols, next, tail);
        assert(symbols[pos] == written[0]);
        match head {
            Node::Block(body) => {
                let inner = symbols_of(body);
                assert(symbols.subrange(pos + 1, pos + 1 + inner.len()) =~= inner) by {
                    assert forall|i: int| 0 <= i < inner.len() implies symbols[pos + 1 + i]
                        == inner[i] by {
                        assert(symbols[pos + (1 + i)] == written[1 + i]);
                    }
                }
                let close = 1 + inner.len() as int;
                assert(symbols[pos + close] == written[close]);
                lemma_sequence_at_symbols(unknown, symbols, pos + 1, body);
                lemma_close_of_split(symbols, pos + 1, 0, 0);
            },
            _ => {
                assert(leaf_of(unknown, symbols[pos]) + kept(unknown, tail) =~= kept(
                    unknown,
                    tree,
                ));
            },
        }
    }
}

/// A tree without undefined instructions is its own defined part.
pub proof fn lemma_defined_part_of_defined(tree: Seq<Node>)
    requires
        all_defined(tree),
    ensures
        defined_part(tree) == tree,
    decreases tree,
{
    if tree.len() > 0 {
        lemma_defined_part_of_defined(tree.skip(1));
        match tree[0] {
            Node::Block(body) => {
                lemma_defined_part_of_defined(body);
            },
            _ => {},
        }
    } else {
    }
}

/// Reading back the symbol form of a tree gives what the parser keeps of the
/// tree: the tree itself if the parser marks unknown symbols, the tree
/// without its undefined instructions if it skips them.
pub proof fn lemma_parse_inverts_symbols(unknown: Unknown, tree: Seq<Node>)
    ensures
        parse_of(unknown, symbols_of(tree)) == kept(unknown, tree),
{
    let written = symbols_of(tree);
    assert(written.subrange(0, written.len() as int) =~= written);
    lemma_sequence_at_symbols(unknown, written, 0, tree);
}

/// Writing down what the parser read and reading it again gives the same
/// tree, whatever the symbols and the policy.
pub proof fn lemma_reparse_is_identity(unknown: Unknown, symbols: Seq<char>)
    ensures
        parse_of(unknown, symbols_of(parse_of(unknown, symbols))) == parse_of(unknown, symbols),
{
    let tree = parse_of(unknown, symbols);
    lemma_parse_inverts_symbols(unknown, tree);
    if unknown == Unknown::Skip {
        lemma_skip_leaves_defined(symbols, 0);
        lemma_defined_part_of_defined(tree);
    }
}

} // verus!
