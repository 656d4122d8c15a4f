//! The instruction tree, its mathematical model, and the two ways of writing
//! it down: the short label of a single instruction and the full symbol form
//! of a tree.

use vstd::prelude::*;
use vstd::std_specs::convert::FromSpecImpl;
use vstd::string::StringExecFns;

verus! {

/// Mathematical model of one instruction: the same tree, with the body of a
/// block held as a sequence.
pub enum Node {
    Undefined,
    Next,
    Prev,
    Inc,
    Dec,
    In,
    Out,
    Block(Seq<Node>),
}

/// One instruction of a parsed program. A `BLOCK` owns its body.
#[allow(non_camel_case_types)]
#[derive(Debug, PartialEq, Eq)]
pub enum Instruction {
    UNDEFINED,
    NEXT,
    PREV,
    INC,
    DEC,
    IN,
    OUT,
    BLOCK(Vec<Instruction>),
}

impl DeepView for Instruction {
    type V = Node;

    open spec fn deep_view(&self) -> Node
        decreases self,
    {
        match self {
            Instruction::UNDEFINED => Node::Undefined,
            Instruction::NEXT => Node::Next,
            Instruction::PREV => Node::Prev,
            Instruction::INC => Node::Inc,
            Instruction::DEC => Node::Dec,
            Instruction::IN => Node::In,
            Instruction::OUT => Node::Out,
            Instruction::BLOCK(body) => Node::Block(
                Seq::new(
                    body.len() as nat,
                    |i: int|
                        if 0 <= i < body.len() {
                            body[i].deep_view()
                        } else {
                            Node::Undefined
                        },
                ),
            ),
        }
    }
}

/// The model of a block is the block of its body's model.
pub proof fn lemma_block_view(body: Vec<Instruction>)
    ensures
        Instruction::BLOCK(body).deep_view() == Node::Block(body.deep_view()),
{
    assert(Instruction::BLOCK(body).deep_view()->Block_0 =~= body.deep_view());
}

/// Whether `c` is one of the six symbols that stand for a leaf instruction.
pub open spec fn is_leaf_symbol(c: char) -> bool {
    c == '>' || c == '<' || c == '+' || c == '-' || c == '.' || c == ','
}

impl Node {
    /// The instruction that a single symbol stands for. The brackets are not
    /// instructions by themselves, so they are `Undefined` like any other
    /// symbol outside the six.
    pub open spec fn of_symbol(c: char) -> Node {
        if c == '>' {
            Node::Next
        } else if c == '<' {
            Node::Prev
        } else if c == '+' {
            Node::Inc
        } else if c == '-' {
            Node::Dec
        } else if c == '.' {
            Node::Out
        } else if c == ',' {
            Node::In
        } else {
            Node::Undefined
        }
    }

    /// The short label of one instruction: its symbol, `[...]` for a block
    /// whatever its body, `*` for an undefined instruction.
    pub open spec fn label(self) -> Seq<char> {
        match self {
            Node::Next => seq!['>'],
            Node::Prev => seq!['<'],
            Node::Inc => seq!['+'],
            Node::Dec => seq!['-'],
            Node::Out => seq!['.'],
            Node::In => seq![','],
            Node::Block(_) => seq!['[', '.', '.', '.', ']'],
            Node::Undefined => seq!['*'],
        }
    }

    /// The symbol form of one instruction: a block is its body between
    /// brackets, an undefined instruction is `*`.
    pub open spec fn symbols(self) -> Seq<char>
        decreases self, 0int,
    {
        match self {
            Node::Next => seq!['>'],
            Node::Prev => seq!['<'],
            Node::Inc => seq!['+'],
            Node::Dec => seq!['-'],
            Node::Out => seq!['.'],
            Node::In => seq![','],
            Node::Block(body) => seq!['['] + symbols_of(body) + seq![']'],
            Node::Undefined => seq!['*'],
        }
    }
}

/// The symbol form of a tree: the symbol forms of its instructions, in order.
pub open spec fn symbols_of(tree: Seq<Node>) -> Seq<char>
    decreases tree, 1int,
{
    if tree.len() == 0 {
        Seq::empty()
    } else {
        tree[0].symbols() + symbols_of(tree.skip(1))
    }
}

/// Whether `tree` holds no undefined instruction, at any depth.
pub open spec fn all_defined(tree: Seq<Node>) -> bool
    decreases tree,
{
    tree.len() == 0 || {
        &&& tree[0] !is Undefined
        &&& tree[0] matches Node::Block(body) ==> all_defined(body)
        &&& all_defined(tree.skip(1))
    }
}

impl From<char> for Instruction {
    fn from(c: char) -> (instruction: Instruction) {
        match c {
            '>' => Instruction::NEXT,
            '<' => Instruction::PREV,
            '+' => Instruction::INC,
            '-' => Instruction::DEC,
            '.' => Instruction::OUT,
            ',' => Instruction::IN,
            _ => Instruction::UNDEFINED,
        }
    }
}

impl FromSpecImpl<char> for Instruction {
    open spec fn obeys_from_spec() -> bool {
        true
    }

    open spec fn from_spec(c: char) -> Instruction {
        if c == '>' {
            Instruction::NEXT
        } else if c == '<' {
            Instruction::PREV
        } else if c == '+' {
            Instruction::INC
        } else if c == '-' {
            Instruction::DEC
        } else if c == '.' {
            Instruction::OUT
        } else if c == ',' {
            Instruction::IN
        } else {
            Instruction::UNDEFINED
        }
    }
}

impl Instruction {
    /// The short label of this instruction.
    pub fn as_str(&self) -> (label: &'static str)
        ensures
            label@ == self.deep_view().label(),
    {
        proof {
            reveal_strlit(">");
            reveal_strlit("<");
            reveal_strlit("+");
            reveal_strlit("-");
            reveal_strlit(".");
            reveal_strlit(",");
            reveal_strlit("[...]");
            reveal_strlit("*");
        }
        match self {
            Instruction::NEXT => ">",
            Instruction::PREV => "<",
            Instruction::INC => "+",
            Instruction::DEC => "-",
            Instruction::OUT => ".",
            Instruction::IN => ",",
            Instruction::BLOCK(_) => "[...]",
            Instruction::UNDEFINED => "*",
        }
    }

    /// The short label of this instruction, as an owned string.
    pub fn to_string(&self) -> (label: String)
        ensures
            label@ == self.deep_view().label(),
    {
        String::from_str(self.as_str())
    }
}

} // verus!
