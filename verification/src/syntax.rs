//! The abstract grammar: syntactic types, statements, expressions and
//! declarations, together with their mathematical views.

use vstd::prelude::*;

verus! {

/// One `name: Type` pair in a function type or definition.
#[derive(Debug, PartialEq, Eq)]
pub struct FunctionParam {
    pub name: String,
    pub declared_type: Type,
}

/// A syntactic type: a nominal reference, one level of indirection, or a
/// function shape. A missing return type means "no declared return
/// value", not "unknown".
#[derive(Debug, PartialEq, Eq)]
pub enum Type {
    Common(String),
    Pointer(Box<Type>),
    Function { params: Vec<FunctionParam>, return_type: Option<Box<Type>> },
}

/// A named function definition.
#[derive(Debug, PartialEq, Eq)]
pub struct FunctionDefinition {
    pub identifier: Option<String>,
    pub params: Vec<FunctionParam>,
    pub return_type: Option<Type>,
    pub code: CodeBlock,
}

/// A top-level statement.
#[derive(Debug, PartialEq, Eq)]
pub enum Statement {
    Extern { identifier: String, declared_type: Type },
    Return { value: Expression },
    FunctionDefinition {
        identifier: String,
        params: Vec<FunctionParam>,
        return_type: Option<Type>,
        code: CodeBlock,
    },
}

/// An ordered run of parsed nodes forming a block.
#[derive(Debug, PartialEq, Eq)]
pub struct CodeBlock {
    pub nodes: Vec<NodeInfo>,
}

/// An expression-shaped construct.
#[derive(Debug, PartialEq, Eq)]
pub enum Expression {
    Identifier(String),
    AnonymousFunctionDefinition {
        params: Vec<FunctionParam>,
        return_type: Option<Type>,
        code: CodeBlock,
    },
    Declare { identifier: String, declared_type: Type },
    DeclareAndAssign { identifier: String, value: Box<Expression> },
    FunctionCall { identifier: String, params: Vec<Expression> },
    CodeBlock(CodeBlock),
}

/// A parsed top-level construct. `Invalid` is a first-class
/// recoverable-error marker, not a crash.
#[derive(Debug, PartialEq, Eq)]
pub enum Node {
    Invalid,
    Statement(Statement),
    Expression(Expression),
}

/// A node with its token-sequence offsets and a diagnostic message, empty
/// exactly when the node parsed successfully.
#[derive(Debug, PartialEq, Eq)]
pub struct NodeInfo {
    pub node: Node,
    pub start_index: usize,
    pub end_index: usize,
    pub message: String,
}

/// Mathematical view of `FunctionParam`.
pub struct FunctionParamView {
    pub name: Seq<char>,
    pub declared_type: TypeView,
}

/// Mathematical view of `Type`.
pub enum TypeView {
    Common(Seq<char>),
    Pointer(Box<TypeView>),
    Function { params: Seq<FunctionParamView>, return_type: Option<Box<TypeView>> },
}

/// Mathematical view of `Statement`.
pub enum StatementView {
    Extern { identifier: Seq<char>, declared_type: TypeView },
    Return { value: ExpressionView },
    FunctionDefinition {
        identifier: Seq<char>,
        params: Seq<FunctionParamView>,
        return_type: Option<TypeView>,
        code: CodeBlockView,
    },
}

/// Mathematical view of `CodeBlock`.
pub struct CodeBlockView {
    pub nodes: Seq<NodeInfoView>,
}

/// Mathematical view of `Expression`.
pub enum ExpressionView {
    Identifier(Seq<char>),
    AnonymousFunctionDefinition {
        params: Seq<FunctionParamView>,
        return_type: Option<TypeView>,
        code: CodeBlockView,
    },
    Declare { identifier: Seq<char>, declared_type: TypeView },
    DeclareAndAssign { identifier: Seq<char>, value: Box<ExpressionView> },
    FunctionCall { identifier: Seq<char>, params: Seq<ExpressionView> },
    CodeBlock(CodeBlockView),
}

/// Mathematical view of `Node`.
pub enum NodeView {
    Invalid,
    Statement(StatementView),
    Expression(ExpressionView),
}

/// Mathematical view of `NodeInfo`.
pub struct NodeInfoView {
    pub node: NodeView,
    pub start_index: int,
    pub end_index: int,
    pub message: Seq<char>,
}

/// View of a parameter list, element by element.
pub open spec fn spec_params_view(ps: Seq<FunctionParam>) -> Seq<FunctionParamView>
    decreases ps,
{
    if ps.len() == 0 {
        Seq::empty()
    } else {
        seq![ps[0]@] + spec_params_view(ps.subrange(1, ps.len() as int))
    }
}

/// View of an expression list, element by element.
pub open spec fn spec_exprs_view(es: Seq<Expression>) -> Seq<ExpressionView>
    decreases es,
{
    if es.len() == 0 {
        Seq::empty()
    } else {
        seq![es[0]@] + spec_exprs_view(es.subrange(1, es.len() as int))
    }
}

/// View of a node list, element by element.
pub open spec fn spec_nodes_view(ns: Seq<NodeInfo>) -> Seq<NodeInfoView>
    decreases ns,
{
    if ns.len() == 0 {
        Seq::empty()
    } else {
        seq![ns[0]@] + spec_nodes_view(ns.subrange(1, ns.len() as int))
    }
}

impl View for FunctionParam {
    type V = FunctionParamView;

    open spec fn view(&self) -> FunctionParamView
        decreases self,
    {
        FunctionParamView { name: self.name@, declared_type: self.declared_type@ }
    }
}

impl View for Type {
    type V = TypeView;

    open spec fn view(&self) -> TypeView
        decreases self,
    {
        match self {
            Type::Common(name) => TypeView::Common(name@),
            Type::Pointer(inner) => TypeView::Pointer(Box::new((**inner)@)),
            Type::Function { params, return_type } => TypeView::Function {
                params: spec_params_view(params@),
                return_type: match return_type {
                    Some(t) => Some(Box::new((**t)@)),
                    None => None,
                },
            },
        }
    }
}

impl View for Statement {
    type V = StatementView;

    open spec fn view(&self) -> StatementView
        decreases self,
    {
        match self {
            Statement::Extern { identifier, declared_type } => StatementView::Extern {
                identifier: identifier@,
                declared_type: declared_type@,
            },
            Statement::Return { value } => StatementView::Return { value: value@ },
            Statement::FunctionDefinition { identifier, params, return_type, code } => {
                StatementView::FunctionDefinition {
                    identifier: identifier@,
                    params: spec_params_view(params@),
                    return_type: match return_type {
                        Some(t) => Some(t@),
                        None => None,
                    },
                    code: code@,
                }
            },
        }
    }
}

impl View for CodeBlock {
    type V = CodeBlockView;

    open spec fn view(&self) -> CodeBlockView
        decreases self,
    {
        CodeBlockView { nodes: spec_nodes_view(self.nodes@) }
    }
}

impl View for Expression {
    type V = ExpressionView;

    open spec fn view(&self) -> ExpressionView
        decreases self,
    {
        match self {
            Expression::Identifier(name) => ExpressionView::Identifier(name@),
            Expression::AnonymousFunctionDefinition { params, return_type, code } => {
                ExpressionView::AnonymousFunctionDefinition {
                    params: spec_params_view(params@),
                    return_type: match return_type {
                        Some(t) => Some(t@),
                        None => None,
                    },
                    code: code@,
                }
            },
            Expression::Declare { identifier, declared_type } => ExpressionView::Declare {
                identifier: identifier@,
                declared_type: declared_type@,
            },
            Expression::DeclareAndAssign { identifier, value } => {
                ExpressionView::DeclareAndAssign {
                    identifier: identifier@,
                    value: Box::new((**value)@),
                }
            },
            Expression::FunctionCall { identifier, params } => ExpressionView::FunctionCall {
                identifier: identifier@,
                params: spec_exprs_view(params@),
            },
            Expression::CodeBlock(code) => ExpressionView::CodeBlock(code@),
        }
    }
}

impl View for Node {
    type V = NodeView;

    open spec fn view(&self) -> NodeView
        decreases self,
    {
        match self {
            Node::Invalid => NodeView::Invalid,
            Node::Statement(s) => NodeView::Statement(s@),
            Node::Expression(e) => NodeView::Expression(e@),
        }
    }
}

impl View for NodeInfo {
    type V = NodeInfoView;

    open spec fn view(&self) -> NodeInfoView
        decreases self,
    {
        NodeInfoView {
            node: self.node@,
            start_index: self.start_index as int,
            end_index: self.end_index as int,
            message: self.message@,
        }
    }
}


/// `spec_nodes_view` maps a node sequence element by element.
pub proof fn lemma_nodes_view_index(ns: Seq<NodeInfo>)
    ensures
        spec_nodes_view(ns).len() == ns.len(),
        forall|k: int| 0 <= k < ns.len() ==> spec_nodes_view(ns)[k] == ns[k]@,
    decreases ns.len(),
{
    if ns.len() > 0 {
        let tail = ns.subrange(1, ns.len() as int);
        lemma_nodes_view_index(tail);
        assert(spec_nodes_view(ns) == seq![ns[0]@] + spec_nodes_view(tail));
        assert forall|k: int| 0 <= k < ns.len() implies spec_nodes_view(ns)[k] == ns[k]@ by {
            if k > 0 {
                assert(spec_nodes_view(tail)[k - 1] == tail[k - 1]@);
                assert(tail[k - 1] == ns[k]);
            }
        }
    }
}

} // verus!
