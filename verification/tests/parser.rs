use bf_interpreter::parser::Parser;
use bf_interpreter::parser::Unknown;
use bf_interpreter::printer::to_symbols;
use bf_interpreter::Instruction;

fn parse(source: &str) -> Vec<Instruction> {
    Parser::new().parse(source.chars().collect())
}

fn parse_marking(source: &str) -> Vec<Instruction> {
    Parser { unknown: Unknown::Mark }.parse(source.chars().collect())
}

fn written(instructions: &Vec<Instruction>) -> String {
    to_symbols(instructions).into_iter().collect()
}

#[test]
fn empty_program_parses_to_nothing() {
    assert_eq!(parse(""), vec![]);
    assert_eq!(parse_marking(""), vec![]);
}

#[test]
fn each_leaf_symbol_has_its_instruction() {
    assert_eq!(
        parse("><+-.,"),
        vec![
            Instruction::NEXT,
            Instruction::PREV,
            Instruction::INC,
            Instruction::DEC,
            Instruction::OUT,
            Instruction::IN,
        ]
    );
}

#[test]
fn from_char_maps_symbols() {
    assert_eq!(Instruction::from('>'), Instruction::NEXT);
    assert_eq!(Instruction::from('<'), Instruction::PREV);
    assert_eq!(Instruction::from('+'), Instruction::INC);
    assert_eq!(Instruction::from('-'), Instruction::DEC);
    assert_eq!(Instruction::from('.'), Instruction::OUT);
    assert_eq!(Instruction::from(','), Instruction::IN);
    assert_eq!(Instruction::from('['), Instruction::UNDEFINED);
    assert_eq!(Instruction::from(']'), Instruction::UNDEFINED);
    assert_eq!(Instruction::from('x'), Instruction::UNDEFINED);
}

#[test]
fn labels_of_instructions() {
    assert_eq!(Instruction::NEXT.as_str(), ">");
    assert_eq!(Instruction::PREV.as_str(), "<");
    assert_eq!(Instruction::INC.as_str(), "+");
    assert_eq!(Instruction::DEC.as_str(), "-");
    assert_eq!(Instruction::OUT.as_str(), ".");
    assert_eq!(Instruction::IN.as_str(), ",");
    assert_eq!(Instruction::UNDEFINED.as_str(), "*");
    assert_eq!(Instruction::BLOCK(vec![]).as_str(), "[...]");
    assert_eq!(Instruction::BLOCK(vec![Instruction::INC]).as_str(), "[...]");
    assert_eq!(Instruction::BLOCK(vec![Instruction::INC]).to_string(), "[...]");
    assert_eq!(Instruction::DEC.to_string(), "-");
}

#[test]
fn brackets_nest() {
    assert_eq!(
        parse("+[>[-]<]."),
        vec![
            Instruction::INC,
            Instruction::BLOCK(vec![
                Instruction::NEXT,
                Instruction::BLOCK(vec![Instruction::DEC]),
                Instruction::PREV,
            ]),
            Instruction::OUT,
        ]
    );
}

#[test]
fn empty_block_parses() {
    assert_eq!(parse("[]"), vec![Instruction::BLOCK(vec![])]);
    assert_eq!(
        parse("[][]"),
        vec![Instruction::BLOCK(vec![]), Instruction::BLOCK(vec![])]
    );
}

#[test]
fn unmatched_open_takes_the_rest_as_body() {
    assert_eq!(
        parse("+[-."),
        vec![
            Instruction::INC,
            Instruction::BLOCK(vec![Instruction::DEC, Instruction::OUT]),
        ]
    );
    assert_eq!(
        parse("[[+"),
        vec![Instruction::BLOCK(vec![Instruction::BLOCK(vec![
            Instruction::INC
        ])])]
    );
    assert_eq!(parse("["), vec![Instruction::BLOCK(vec![])]);
}

#[test]
fn unmatched_close_ends_the_program() {
    assert_eq!(parse("+]-"), vec![Instruction::INC]);
    assert_eq!(parse("]"), vec![]);
    assert_eq!(
        parse("[+]-]>"),
        vec![Instruction::BLOCK(vec![Instruction::INC]), Instruction::DEC]
    );
}

#[test]
fn unknown_symbols_are_skipped_by_default() {
    assert_eq!(
        parse("a+ b[c-\n]d"),
        vec![
            Instruction::INC,
            Instruction::BLOCK(vec![Instruction::DEC]),
        ]
    );
    assert_eq!(parse("hello world"), vec![]);
}

#[test]
fn unknown_symbols_can_be_marked() {
    assert_eq!(
        parse_marking("a+[c-]"),
        vec![
            Instruction::UNDEFINED,
            Instruction::INC,
            Instruction::BLOCK(vec![Instruction::UNDEFINED, Instruction::DEC]),
        ]
    );
}

#[test]
fn new_parser_skips() {
    assert_eq!(Parser::new().unknown, Unknown::Skip);
}

#[test]
fn symbols_of_a_tree() {
    let tree = vec![
        Instruction::INC,
        Instruction::BLOCK(vec![
            Instruction::NEXT,
            Instruction::BLOCK(vec![]),
            Instruction::UNDEFINED,
            Instruction::IN,
        ]),
        Instruction::OUT,
        Instruction::PREV,
        Instruction::DEC,
    ];
    assert_eq!(written(&tree), "+[>[]*,].<-");
    assert_eq!(written(&vec![]), "");
}

#[test]
fn parsing_the_symbols_of_a_tree_gives_the_tree() {
    let tree = vec![
        Instruction::INC,
        Instruction::BLOCK(vec![
            Instruction::NEXT,
            Instruction::BLOCK(vec![Instruction::DEC, Instruction::BLOCK(vec![])]),
            Instruction::IN,
        ]),
        Instruction::OUT,
    ];
    assert_eq!(Parser::new().parse(to_symbols(&tree)), tree);
    assert_eq!(
        Parser { unknown: Unknown::Mark }.parse(to_symbols(&tree)),
        tree
    );
}

#[test]
fn undefined_instructions_survive_only_a_marking_parser() {
    let tree = vec![
        Instruction::UNDEFINED,
        Instruction::BLOCK(vec![Instruction::UNDEFINED, Instruction::INC]),
    ];
    assert_eq!(
        Parser { unknown: Unknown::Mark }.parse(to_symbols(&tree)),
        tree
    );
    assert_eq!(
        Parser::new().parse(to_symbols(&tree)),
        vec![Instruction::BLOCK(vec![Instruction::INC])]
    );
}

#[test]
fn reparsing_what_was_parsed_changes_nothing() {
    for source in ["+[-.", "a[b]c]d", "[[[", "]]]", "+[>++[>+<-]<-]>>."] {
        let tree = parse(source);
        assert_eq!(Parser::new().parse(to_symbols(&tree)), tree);
        let marked = parse_marking(source);
        assert_eq!(
            Parser { unknown: Unknown::Mark }.parse(to_symbols(&marked)),
            marked
        );
    }
}
