use the_1337_lang::CodeBlock;
use the_1337_lang::FunctionParam;
use the_1337_lang::Lexer;
use the_1337_lang::Node;
use the_1337_lang::NodeInfo;
use the_1337_lang::Parser;
use the_1337_lang::SemanticAnalyzer;
use the_1337_lang::SemanticType;
use the_1337_lang::Statement;
use the_1337_lang::Type;

fn parse_all(src: &str) -> Vec<NodeInfo> {
    let mut lexer = Lexer::new(src.to_string());
    let mut tokens = Vec::new();
    while let Some(info) = lexer.tokenize() {
        tokens.push(info);
    }
    let mut parser = Parser::new(tokens);
    let mut nodes = Vec::new();
    while let Some(node) = parser.parse() {
        nodes.push(node);
    }
    nodes
}

fn common(name: &str) -> Type {
    Type::Common(name.to_string())
}

#[test]
fn resolves_a_nested_pointer_deterministically() {
    let ty = || Type::Pointer(Box::new(Type::Pointer(Box::new(common("i32")))));
    let first = SemanticType::try_from(ty());
    let second = SemanticType::try_from(ty());
    let expected = SemanticType::Pointer(Box::new(SemanticType::Pointer(Box::new(
        SemanticType::Int32,
    ))));
    assert_eq!(first, Ok(expected));
    assert_eq!(first, second);
}

#[test]
fn resolves_builtin_names() {
    assert_eq!(SemanticType::try_from(common("i8")), Ok(SemanticType::Int8));
    assert_eq!(SemanticType::try_from(common("i32")), Ok(SemanticType::Int32));
}

#[test]
fn unknown_name_always_fails_the_same_way() {
    let first = SemanticType::try_from(common("unknown"));
    let second = SemanticType::try_from(common("unknown"));
    assert_eq!(first, Err("type 'unknown' does not exist".to_string()));
    assert_eq!(first, second);
}

#[test]
fn resolves_a_function_type() {
    let ty = Type::Function {
        params: vec![FunctionParam { name: "a".to_string(), declared_type: common("i8") }],
        return_type: Some(Box::new(common("i32"))),
    };
    let expected = SemanticType::Function {
        params: vec![the_1337_lang::SemanticFunctionParam {
            name: "a".to_string(),
            declared_type: SemanticType::Int8,
        }],
        return_type: Some(Box::new(SemanticType::Int32)),
    };
    assert_eq!(SemanticType::try_from(ty), Ok(expected));
}

#[test]
fn function_type_fails_on_an_unresolvable_parameter() {
    let ty = Type::Function {
        params: vec![FunctionParam { name: "a".to_string(), declared_type: common("bogus") }],
        return_type: Some(Box::new(common("i32"))),
    };
    assert_eq!(
        SemanticType::try_from(ty),
        Err("type 'bogus' does not exist".to_string())
    );
}

#[test]
fn analyzes_an_extern_into_the_global_scope() {
    let nodes = parse_all("extern foo: i32;");
    let program = SemanticAnalyzer::new(&nodes).analyze().expect("analysis should pass");
    assert_eq!(program.defined_functions.len(), 0);
    assert_eq!(program.scopes.len(), 1);
    let symbol = program.scopes[0].get("foo").expect("foo should be bound");
    assert_eq!(symbol.name, "foo");
    assert_eq!(symbol.sem_type, SemanticType::Int32);
    assert!(program.scopes[0].get("bar").is_none());
}

#[test]
fn a_repeated_extern_keeps_the_later_declaration() {
    let nodes = parse_all("extern a: i8; extern a: i32;");
    let program = SemanticAnalyzer::new(&nodes).analyze().expect("analysis should pass");
    let symbol = program.scopes[0].get("a").expect("a should be bound");
    assert_eq!(symbol.sem_type, SemanticType::Int32);
}

#[test]
fn an_unknown_extern_type_fails_the_pass() {
    let nodes = parse_all("extern x: i64;");
    let result = SemanticAnalyzer::new(&nodes).analyze();
    assert_eq!(result.err(), Some("type 'i64' does not exist".to_string()));
}

#[test]
fn an_invalid_node_is_a_hard_stop() {
    let nodes = parse_all("extern foo i32;");
    assert_eq!(nodes.len(), 1);
    assert_eq!(nodes[0].node, Node::Invalid);
    let result = SemanticAnalyzer::new(&nodes).analyze();
    let message = result.err().expect("analysis should fail");
    assert!(message.contains("unknown node"));
}

#[test]
fn an_empty_program_analyzes_to_an_empty_scope() {
    let nodes = parse_all("");
    let program = SemanticAnalyzer::new(&nodes).analyze().expect("analysis should pass");
    assert_eq!(program.defined_functions.len(), 0);
    assert_eq!(program.scopes.len(), 1);
}

fn definition_node(params: Vec<FunctionParam>, return_type: Option<Type>) -> NodeInfo {
    NodeInfo {
        node: Node::Statement(Statement::FunctionDefinition {
            identifier: "f".to_string(),
            params,
            return_type,
            code: CodeBlock { nodes: vec![] },
        }),
        start_index: 0,
        end_index: 0,
        message: "".to_string(),
    }
}

#[test]
fn a_function_definition_is_appended_with_its_parameter_scope() {
    let nodes = vec![definition_node(
        vec![
            FunctionParam { name: "a".to_string(), declared_type: common("i32") },
            FunctionParam { name: "b".to_string(), declared_type: common("i8") },
        ],
        Some(common("i32")),
    )];
    let program = SemanticAnalyzer::new(&nodes).analyze().expect("analysis should pass");
    assert_eq!(program.defined_functions.len(), 1);
    let def = &program.defined_functions[0];
    assert_eq!(def.name, "f");
    assert_eq!(def.params.len(), 2);
    assert_eq!(def.params[0].name, "a");
    assert_eq!(def.params[0].declared_type, SemanticType::Int32);
    assert_eq!(def.return_type, Some(SemanticType::Int32));
    let a = def.code.locals.get("a").expect("parameter a should be in scope");
    assert_eq!(a.sem_type, SemanticType::Int32);
    let b = def.code.locals.get("b").expect("parameter b should be in scope");
    assert_eq!(b.sem_type, SemanticType::Int8);
    assert_eq!(def.code.nodes.len(), 0);
    // the function's parameters never leak into the global scope
    assert!(program.scopes[0].get("a").is_none());
}

#[test]
fn a_later_parameter_shadows_an_earlier_one_of_the_same_name() {
    let nodes = vec![definition_node(
        vec![
            FunctionParam { name: "a".to_string(), declared_type: common("i32") },
            FunctionParam { name: "a".to_string(), declared_type: common("i8") },
        ],
        None,
    )];
    let program = SemanticAnalyzer::new(&nodes).analyze().expect("analysis should pass");
    let def = &program.defined_functions[0];
    let a = def.code.locals.get("a").expect("a should be in scope");
    assert_eq!(a.sem_type, SemanticType::Int8);
}

#[test]
fn an_unresolvable_return_type_is_dropped() {
    let nodes = vec![definition_node(vec![], Some(common("bogus")))];
    let program = SemanticAnalyzer::new(&nodes).analyze().expect("analysis should pass");
    assert_eq!(program.defined_functions[0].return_type, None);
}

#[test]
fn an_unresolvable_parameter_fails_the_pass() {
    let nodes = vec![definition_node(
        vec![FunctionParam { name: "a".to_string(), declared_type: common("bogus") }],
        None,
    )];
    let result = SemanticAnalyzer::new(&nodes).analyze();
    assert_eq!(result.err(), Some("type 'bogus' does not exist".to_string()));
}
