use the_1337_lang::Lexer;
use the_1337_lang::Node;
use the_1337_lang::Parser;
use the_1337_lang::SemanticAnalyzer;
use the_1337_lang::SemanticType;
use the_1337_lang::Statement;
use the_1337_lang::Token;
use the_1337_lang::Type;

#[test]
fn extern_declaration_end_to_end() {
    let source = "extern foo: i32;";

    // the scanner emits exactly the expected tokens
    let mut lexer = Lexer::new(source.to_string());
    let mut tokens = Vec::new();
    while let Some(info) = lexer.tokenize() {
        tokens.push(info);
    }
    let kinds: Vec<Token> = tokens.iter().map(|info| info.token.clone()).collect();
    assert_eq!(
        kinds,
        vec![
            Token::KwExtern,
            Token::Identifier("foo".to_string()),
            Token::Colon,
            Token::Identifier("i32".to_string()),
            Token::SemiColon,
        ]
    );

    // the parser yields one extern statement
    let mut parser = Parser::new(tokens);
    let mut nodes = Vec::new();
    while let Some(node) = parser.parse() {
        nodes.push(node);
    }
    assert_eq!(nodes.len(), 1);
    assert_eq!(
        nodes[0].node,
        Node::Statement(Statement::Extern {
            identifier: "foo".to_string(),
            declared_type: Type::Common("i32".to_string()),
        })
    );

    // the resolver binds foo in the global scope and defines no functions
    let program = SemanticAnalyzer::new(&nodes).analyze().expect("analysis should pass");
    assert_eq!(program.defined_functions.len(), 0);
    assert_eq!(program.scopes.len(), 1);
    let symbol = program.scopes[0].get("foo").expect("foo should be bound");
    assert_eq!(symbol.sem_type, SemanticType::Int32);
}

#[test]
fn malformed_extern_end_to_end() {
    let source = "extern foo i32;";

    let mut lexer = Lexer::new(source.to_string());
    let mut tokens = Vec::new();
    while let Some(info) = lexer.tokenize() {
        tokens.push(info);
    }

    let mut parser = Parser::new(tokens);
    let mut nodes = Vec::new();
    while let Some(node) = parser.parse() {
        nodes.push(node);
    }
    assert_eq!(nodes.len(), 1);
    assert_eq!(nodes[0].node, Node::Invalid);
    assert!(nodes[0].message.contains("expected Colon"));

    let result = SemanticAnalyzer::new(&nodes).analyze();
    let message = result.err().expect("analysis should fail on the invalid node");
    assert!(message.contains("unknown node"));
}
