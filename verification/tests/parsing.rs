use the_1337_lang::Expression;
use the_1337_lang::Lexer;
use the_1337_lang::Node;
use the_1337_lang::NodeInfo;
use the_1337_lang::Parser;
use the_1337_lang::Statement;
use the_1337_lang::Type;
use the_1337_lang::TokenInfo;

fn scan(src: &str) -> Vec<TokenInfo> {
    let mut lexer = Lexer::new(src.to_string());
    let mut tokens = Vec::new();
    while let Some(info) = lexer.tokenize() {
        tokens.push(info);
    }
    tokens
}

fn parse_all(src: &str) -> Vec<NodeInfo> {
    let mut parser = Parser::new(scan(src));
    let mut nodes = Vec::new();
    while let Some(node) = parser.parse() {
        nodes.push(node);
    }
    nodes
}

#[test]
fn parses_an_extern_declaration() {
    let nodes = parse_all("extern foo: i32;");
    assert_eq!(nodes.len(), 1);
    assert_eq!(
        nodes[0].node,
        Node::Statement(Statement::Extern {
            identifier: "foo".to_string(),
            declared_type: Type::Common("i32".to_string()),
        })
    );
    assert_eq!(nodes[0].start_index, 0);
    assert_eq!(nodes[0].end_index, 5);
    assert_eq!(nodes[0].message, "");
}

#[test]
fn parses_an_identifier_led_declaration() {
    let nodes = parse_all("x: i8;");
    assert_eq!(nodes.len(), 1);
    assert_eq!(
        nodes[0].node,
        Node::Expression(Expression::Declare {
            identifier: "x".to_string(),
            declared_type: Type::Common("i8".to_string()),
        })
    );
}

#[test]
fn parses_a_pointer_type() {
    let nodes = parse_all("extern p: **i32;");
    assert_eq!(
        nodes[0].node,
        Node::Statement(Statement::Extern {
            identifier: "p".to_string(),
            declared_type: Type::Pointer(Box::new(Type::Pointer(Box::new(Type::Common(
                "i32".to_string()
            ))))),
        })
    );
}

#[test]
fn parses_a_function_type() {
    let nodes = parse_all("extern f: (a: i32 b: i8) i32;");
    let expected = Type::Function {
        params: vec![
            the_1337_lang::FunctionParam {
                name: "a".to_string(),
                declared_type: Type::Common("i32".to_string()),
            },
            the_1337_lang::FunctionParam {
                name: "b".to_string(),
                declared_type: Type::Common("i8".to_string()),
            },
        ],
        return_type: Some(Box::new(Type::Common("i32".to_string()))),
    };
    assert_eq!(
        nodes[0].node,
        Node::Statement(Statement::Extern {
            identifier: "f".to_string(),
            declared_type: expected,
        })
    );
}

#[test]
fn parses_an_empty_parameter_list() {
    let nodes = parse_all("extern f: () i8;");
    let expected = Type::Function {
        params: vec![],
        return_type: Some(Box::new(Type::Common("i8".to_string()))),
    };
    assert_eq!(
        nodes[0].node,
        Node::Statement(Statement::Extern {
            identifier: "f".to_string(),
            declared_type: expected,
        })
    );
}

#[test]
fn empty_input_parses_to_nothing() {
    assert_eq!(parse_all("").len(), 0);
}

#[test]
fn resynchronizes_just_past_the_first_semicolon() {
    // four tokens: the keyword, the name, `(`, `;`
    let tokens = scan("extern x (;");
    assert_eq!(tokens.len(), 4);
    let mut parser = Parser::new(tokens);
    let first = parser.parse().expect("one node expected");
    assert_eq!(first.node, Node::Invalid);
    assert_eq!(first.start_index, 0);
    assert_eq!(first.end_index, 4);
    assert!(!first.message.is_empty());
    assert!(first.message.contains("Colon"));
    assert!(parser.parse().is_none());
}

#[test]
fn missing_colon_is_reported_at_the_found_token() {
    let nodes = parse_all("extern foo i32;");
    assert_eq!(nodes.len(), 1);
    assert_eq!(nodes[0].node, Node::Invalid);
    assert!(nodes[0].message.contains("expected Colon"));
    assert!(nodes[0].message.contains("found Identifier"));
    // the unexpected `i32` token starts at line 1, column 12
    assert!(nodes[0].message.contains("line 1, column 12"));
}

#[test]
fn recovery_bounds_the_cascade_to_one_diagnostic_per_statement() {
    let nodes = parse_all("extern a: i32; extern b i8; extern c: i8;");
    assert_eq!(nodes.len(), 3);
    assert!(matches!(nodes[0].node, Node::Statement(_)));
    assert_eq!(nodes[1].node, Node::Invalid);
    assert!(matches!(nodes[2].node, Node::Statement(_)));
    assert_eq!(nodes[2].message, "");
}

#[test]
fn invalid_root_token_is_recovered() {
    let nodes = parse_all("42; x: i8;");
    assert_eq!(nodes.len(), 2);
    assert_eq!(nodes[0].node, Node::Invalid);
    assert!(!nodes[0].message.is_empty());
    assert!(matches!(nodes[1].node, Node::Expression(_)));
}

#[test]
fn truncated_declaration_is_invalid() {
    let nodes = parse_all("extern foo:");
    assert_eq!(nodes.len(), 1);
    assert_eq!(nodes[0].node, Node::Invalid);
    assert!(!nodes[0].message.is_empty());
}

#[test]
fn tokens_are_kept_for_index_resolution() {
    let tokens = scan("extern foo: i32;");
    let parser = Parser::new(tokens);
    assert_eq!(parser.tokens().len(), 5);
    assert_eq!(parser.tokens()[1].token, the_1337_lang::Token::Identifier("foo".to_string()));
}
