//! Front end of a small statically-typed language: lexical scanning,
//! recursive-descent parsing with per-statement error recovery, and a
//! semantic pass that resolves syntactic types and builds scoped symbol
//! tables. Each stage carries contracts over a mathematical model of the
//! source text and token stream.

pub mod lexer;
pub mod parser;
pub mod semantic;
pub mod syntax;
pub mod token;

pub use lexer::Lexer;
pub use lexer::LexerView;
pub use parser::Parser;
pub use parser::ParserView;
pub use parser::SpecParse;
pub use semantic::AnalyzeFault;
pub use semantic::Program;
pub use semantic::ProgramView;
pub use semantic::Scope;
pub use semantic::SemanticAnalyzer;
pub use semantic::SemanticCodeBlock;
pub use semantic::SemanticCodeBlockView;
pub use semantic::SemanticExpression;
pub use semantic::SemanticExpressionView;
pub use semantic::SemanticFunctionDefinition;
pub use semantic::SemanticFunctionDefinitionView;
pub use semantic::SemanticFunctionParam;
pub use semantic::SemanticFunctionParamView;
pub use semantic::SemanticNode;
pub use semantic::SemanticNodeView;
pub use semantic::SemanticType;
pub use semantic::SemanticTypeView;
pub use semantic::Symbol;
pub use semantic::SymbolView;
pub use syntax::CodeBlock;
pub use syntax::CodeBlockView;
pub use syntax::Expression;
pub use syntax::ExpressionView;
pub use syntax::FunctionDefinition;
pub use syntax::FunctionParam;
pub use syntax::FunctionParamView;
pub use syntax::Node;
pub use syntax::NodeInfo;
pub use syntax::NodeInfoView;
pub use syntax::NodeView;
pub use syntax::Statement;
pub use syntax::StatementView;
pub use syntax::Type;
pub use syntax::TypeView;
pub use token::NumberFormat;
pub use token::Position;
pub use token::SpecToken;
pub use token::Token;
pub use token::TokenInfo;
