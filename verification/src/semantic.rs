//! The semantic pass: resolves syntactic types to a closed semantic type
//! system and populates scoped symbol tables. Resolution is specified by
//! `spec_resolve_type`, a pure mapping from type views to semantic type
//! views, so resolving the same type always yields the same result.

use vstd::prelude::*;
use vstd::string::StrSliceExecFns;
use vstd::string::StringExecFns;

use crate::syntax::Expression;
use crate::syntax::ExpressionView;
use crate::syntax::FunctionParam;
use crate::syntax::FunctionParamView;
use crate::syntax::Node;
use crate::syntax::NodeInfo;
use crate::syntax::NodeInfoView;
use crate::syntax::NodeView;
use crate::syntax::Statement;
use crate::syntax::StatementView;
use crate::syntax::TypeView;
use crate::syntax::Type;

verus! {

/// A resolved type: the closed vocabulary the language knows.
#[derive(Debug, PartialEq, Eq)]
pub enum SemanticType {
    Int8,
    Int32,
    Pointer(Box<SemanticType>),
    Function { params: Vec<SemanticFunctionParam>, return_type: Option<Box<SemanticType>> },
}

/// One resolved `name: type` pair of a function type or definition.
#[derive(Debug, PartialEq, Eq)]
pub struct SemanticFunctionParam {
    pub name: String,
    pub declared_type: SemanticType,
}

/// A named value with its resolved type, owned by exactly one scope.
#[derive(Debug)]
pub struct Symbol {
    pub name: String,
    pub sem_type: SemanticType,
}

/// Mathematical view of `SemanticType`.
pub enum SemanticTypeView {
    Int8,
    Int32,
    Pointer(Box<SemanticTypeView>),
    Function { params: Seq<SemanticFunctionParamView>, return_type: Option<Box<SemanticTypeView>> },
}

/// Mathematical view of `SemanticFunctionParam`.
pub struct SemanticFunctionParamView {
    pub name: Seq<char>,
    pub declared_type: SemanticTypeView,
}

/// Mathematical view of `Symbol`.
pub struct SymbolView {
    pub name: Seq<char>,
    pub sem_type: SemanticTypeView,
}

/// View of a resolved parameter list, element by element.
pub open spec fn spec_sem_params_view(ps: Seq<SemanticFunctionParam>) -> Seq<
    SemanticFunctionParamView,
>
    decreases ps,
{
    if ps.len() == 0 {
        Seq::empty()
    } else {
        seq![ps[0]@] + spec_sem_params_view(ps.subrange(1, ps.len() as int))
    }
}

impl View for SemanticFunctionParam {
    type V = SemanticFunctionParamView;

    open spec fn view(&self) -> SemanticFunctionParamView
        decreases self,
    {
        SemanticFunctionParamView { name: self.name@, declared_type: self.declared_type@ }
    }
}

impl View for SemanticType {
    type V = SemanticTypeView;

    open spec fn view(&self) -> SemanticTypeView
        decreases self,
    {
        match self {
            SemanticType::Int8 => SemanticTypeView::Int8,
            SemanticType::Int32 => SemanticTypeView::Int32,
            SemanticType::Pointer(inner) => SemanticTypeView::Pointer(Box::new((**inner)@)),
            SemanticType::Function { params, return_type } => SemanticTypeView::Function {
                params: spec_sem_params_view(params@),
                return_type: match return_type {
                    Some(t) => Some(Box::new((**t)@)),
                    None => None,
                },
            },
        }
    }
}

impl View for Symbol {
    type V = SymbolView;

    open spec fn view(&self) -> SymbolView {
        SymbolView { name: self.name@, sem_type: self.sem_type@ }
    }
}

/// `spec_sem_params_view` maps a parameter sequence element by element.
pub proof fn lemma_sem_params_view_index(ps: Seq<SemanticFunctionParam>)
    ensures
        spec_sem_params_view(ps).len() == ps.len(),
        forall|k: int| 0 <= k < ps.len() ==> spec_sem_params_view(ps)[k] == ps[k]@,
    decreases ps.len(),
{
    if ps.len() > 0 {
        let tail = ps.subrange(1, ps.len() as int);
        lemma_sem_params_view_index(tail);
        assert(spec_sem_params_view(ps) == seq![ps[0]@] + spec_sem_params_view(tail));
        assert forall|k: int| 0 <= k < ps.len() implies spec_sem_params_view(ps)[k] == ps[k]@ by {
            if k > 0 {
                assert(spec_sem_params_view(tail)[k - 1] == tail[k - 1]@);
                assert(tail[k - 1] == ps[k]);
            }
        }
    }
}

/// The built-in nominal type table: `i8` and `i32`.
pub open spec fn spec_builtin_type(name: Seq<char>) -> Option<SemanticTypeView> {
    if name == seq!['i', '8'] {
        Some(SemanticTypeView::Int8)
    } else if name == seq!['i', '3', '2'] {
        Some(SemanticTypeView::Int32)
    } else {
        None
    }
}

/// Resolution of a syntactic type: a pure mapping into the semantic type
/// system. An unknown nominal name fails, carrying that name; pointers
/// propagate the inner failure. For a function type the declared return
/// type is resolved first and the parameters after it, left to right,
/// failing fast on the first unresolvable parameter.
pub open spec fn spec_resolve_type(t: TypeView) -> Result<SemanticTypeView, Seq<char>>
    decreases t,
{
    match t {
        TypeView::Common(name) => match spec_builtin_type(name) {
            Some(s) => Ok(s),
            None => Err(name),
        },
        TypeView::Pointer(inner) => match spec_resolve_type(*inner) {
            Ok(s) => Ok(SemanticTypeView::Pointer(Box::new(s))),
            Err(e) => Err(e),
        },
        TypeView::Function { params, return_type } => {
            match return_type {
                Some(rt) => match spec_resolve_type(*rt) {
                    Ok(s) => match spec_resolve_params(params) {
                        Ok(ps) => Ok(
                            SemanticTypeView::Function {
                                params: ps,
                                return_type: Some(Box::new(s)),
                            },
                        ),
                        Err(e) => Err(e),
                    },
                    Err(e) => Err(e),
                },
                None => match spec_resolve_params(params) {
                    Ok(ps) => Ok(SemanticTypeView::Function { params: ps, return_type: None }),
                    Err(e) => Err(e),
                },
            }
        },
    }
}

/// Resolution of a parameter list, left to right, failing fast.
pub open spec fn spec_resolve_params(ps: Seq<FunctionParamView>) -> Result<
    Seq<SemanticFunctionParamView>,
    Seq<char>,
>
    decreases ps,
{
    if ps.len() == 0 {
        Ok(Seq::empty())
    } else {
        match spec_resolve_type(ps[0].declared_type) {
            Ok(s) => match spec_resolve_params(ps.subrange(1, ps.len() as int)) {
                Ok(rest) => Ok(
                    seq![SemanticFunctionParamView { name: ps[0].name, declared_type: s }] + rest,
                ),
                Err(e) => Err(e),
            },
            Err(e) => Err(e),
        }
    }
}

/// The diagnostic for a nominal type the table does not know.
pub open spec fn spec_unknown_type_message(name: Seq<char>) -> Seq<char> {
    "type '"@ + name + "' does not exist"@
}

/// Looks a nominal type name up in the built-in table.
fn builtin_lookup(name: &String) -> (r: Option<SemanticType>)
    ensures
        match r {
            Some(s) => spec_builtin_type(name@) == Some(s@),
            None => spec_builtin_type(name@) is None,
        },
{
    let s = name.as_str();
    let n = s.unicode_len();
    if n == 2 && s.get_char(0) == 'i' && s.get_char(1) == '8' {
        proof {
            assert(name@ =~= seq!['i', '8']);
        }
        return Some(SemanticType::Int8);
    }
    if n == 3 && s.get_char(0) == 'i' && s.get_char(1) == '3' && s.get_char(2) == '2' {
        proof {
            assert(name@ =~= seq!['i', '3', '2']);
        }
        return Some(SemanticType::Int32);
    }
    proof {
        assert(name@ != seq!['i', '8'] && name@ != seq!['i', '3', '2']) by {
            if name@ == seq!['i', '8'] || name@ == seq!['i', '3', '2'] {
                assert(name@.len() == 2 || name@.len() == 3);
            }
        }
    }
    None
}

impl SemanticType {
    /// Resolves a syntactic type, yielding exactly what
    /// `spec_resolve_type` maps its view to; the error message names the
    /// unknown type.
    pub fn try_from(value: Type) -> (r: Result<SemanticType, String>)
        ensures
            match r {
                Ok(s) => spec_resolve_type(value@) == Ok::<SemanticTypeView, Seq<char>>(s@),
                Err(m) => {
                    &&& spec_resolve_type(value@) matches Err(name)
                    &&& m@ == spec_unknown_type_message(spec_resolve_type(value@)->Err_0)
                    &&& m@.len() > 0
                },
            },
    {
        Self::resolve(&value)
    }

    /// The recursive worker behind `try_from`, over a borrowed type.
    fn resolve(t: &Type) -> (r: Result<SemanticType, String>)
        ensures
            match r {
                Ok(s) => spec_resolve_type(t@) == Ok::<SemanticTypeView, Seq<char>>(s@),
                Err(m) => {
                    &&& spec_resolve_type(t@) matches Err(name)
                    &&& m@ == spec_unknown_type_message(spec_resolve_type(t@)->Err_0)
                    &&& m@.len() > 0
                },
            },
        decreases t,
    {
        match t {
            Type::Common(name) => match builtin_lookup(name) {
                Some(s) => Ok(s),
                None => {
                    proof {
                        reveal_strlit("type '");
                    }
                    let mut m = String::from_str("type '");
                    m.append(name.as_str());
                    m.append("' does not exist");
                    Err(m)
                },
            },
            Type::Pointer(inner) => match Self::resolve(&**inner) {
                Ok(s) => Ok(SemanticType::Pointer(Box::new(s))),
                Err(m) => Err(m),
            },
            Type::Function { params, return_type } => {
                let sem_ret: Option<Box<SemanticType>> = match return_type {
                    Some(rt) => match Self::resolve(&**rt) {
                        Ok(s) => Some(Box::new(s)),
                        Err(m) => {
                            return Err(m);
                        },
                    },
                    None => None,
                };
                let sem_params = match Self::resolve_params(params) {
                    Ok(ps) => ps,
                    Err(m) => {
                        return Err(m);
                    },
                };
                Ok(SemanticType::Function { params: sem_params, return_type: sem_ret })
            },
        }
    }

    /// Resolves every parameter of a function type, left to right.
    fn resolve_params(params: &Vec<crate::syntax::FunctionParam>) -> (r: Result<
        Vec<SemanticFunctionParam>,
        String,
    >)
        ensures
            match r {
                Ok(ps) => spec_resolve_params(crate::syntax::spec_params_view(params@)) == Ok::<
                    Seq<SemanticFunctionParamView>,
                    Seq<char>,
                >(spec_sem_params_view(ps@)),
                Err(m) => {
                    &&& spec_resolve_params(crate::syntax::spec_params_view(params@)) matches Err(
                        name,
                    )
                    &&& m@ == spec_unknown_type_message(
                        spec_resolve_params(crate::syntax::spec_params_view(params@))->Err_0,
                    )
                    &&& m@.len() > 0
                },
            },
        decreases params,
    {
        let ghost pv = crate::syntax::spec_params_view(params@);
        proof {
            crate::parser::lemma_params_view_index(params@);
        }
        let mut out: Vec<SemanticFunctionParam> = Vec::new();
        let mut k: usize = 0;
        proof {
            assert(pv.subrange(0, pv.len() as int) =~= pv);
            assert(spec_sem_params_view(out@) =~= Seq::<SemanticFunctionParamView>::empty());
            let start = spec_resolve_params(pv);
            if start is Ok {
                assert(spec_sem_params_view(out@) + start->Ok_0 =~= start->Ok_0);
            }
        }
        while k < params.len()
            invariant
                k <= params.len(),
                pv == crate::syntax::spec_params_view(params@),
                pv.len() == params@.len(),
                forall|j: int| 0 <= j < params@.len() ==> pv[j] == params@[j]@,
                out@.len() == k,
                spec_resolve_params(pv.subrange(k as int, pv.len() as int)) matches Ok(rest)
                    ==> spec_resolve_params(pv) == Ok::<Seq<SemanticFunctionParamView>, Seq<char>>(
                    spec_sem_params_view(out@) + rest,
                ),
                spec_resolve_params(pv.subrange(k as int, pv.len() as int)) matches Err(e)
                    ==> spec_resolve_params(pv) == Err::<Seq<SemanticFunctionParamView>, Seq<char>>(
                    e,
                ),
            decreases params@.len() - k,
        {
            let ghost suffix = pv.subrange(k as int, pv.len() as int);
            proof {
                assert(suffix[0] == pv[k as int]);
                assert(suffix.subrange(1, suffix.len() as int) =~= pv.subrange(
                    k as int + 1,
                    pv.len() as int,
                ));
            }
            let st = match Self::resolve(&params[k].declared_type) {
                Ok(s) => s,
                Err(m) => {
                    return Err(m);
                },
            };
            let ghost out_pre = out@;
            out.push(SemanticFunctionParam { name: params[k].name.clone(), declared_type: st });
            k = k + 1;
            proof {
                lemma_sem_params_view_index(out@);
                lemma_sem_params_view_index(out_pre);
                assert(spec_sem_params_view(out@) =~= spec_sem_params_view(out_pre) + seq![
                    SemanticFunctionParamView { name: pv[k - 1].name, declared_type: st@ },
                ]);
                let after = spec_resolve_params(pv.subrange(k as int, pv.len() as int));
                if after is Ok {
                    let rest = after->Ok_0;
                    assert(spec_sem_params_view(out_pre) + (seq![
                        SemanticFunctionParamView { name: pv[k - 1].name, declared_type: st@ },
                    ] + rest) =~= spec_sem_params_view(out@) + rest);
                }
            }
        }
        proof {
            assert(pv.subrange(pv.len() as int, pv.len() as int) =~= Seq::<
                FunctionParamView,
            >::empty());
            assert(spec_sem_params_view(out@) + Seq::<SemanticFunctionParamView>::empty()
                =~= spec_sem_params_view(out@));
        }
        Ok(out)
    }
}


/// A string comparison by characters.
fn str_eq(a: &str, b: &str) -> (r: bool)
    ensures
        r == (a@ == b@),
{
    let n = a.unicode_len();
    if n != b.unicode_len() {
        proof {
            if a@ == b@ {
                assert(a@.len() == b@.len());
            }
        }
        return false;
    }
    let mut i: usize = 0;
    while i < n
        invariant
            n == a@.len(),
            n == b@.len(),
            i <= n,
            forall|k: int| 0 <= k < i ==> a@[k] == b@[k],
        decreases n - i,
    {
        if a.get_char(i) != b.get_char(i) {
            return false;
        }
        i = i + 1;
    }
    proof {
        assert(a@ =~= b@);
    }
    true
}

/// The symbol table of one lexical region, mapping each name to the
/// symbol most recently bound to it: a later binding of the same name
/// shadows the earlier one, so a repeated declaration wins.
#[derive(Debug)]
pub struct Scope {
    symbols: Vec<Symbol>,
}

/// The mapping a run of bindings denotes: each binding overrides what an
/// earlier one said of the same name.
pub open spec fn spec_scope_map(ss: Seq<Symbol>) -> Map<Seq<char>, SymbolView>
    decreases ss.len(),
{
    if ss.len() == 0 {
        Map::empty()
    } else {
        spec_scope_map(ss.drop_last()).insert(ss.last().name@, ss.last()@)
    }
}

impl View for Scope {
    type V = Map<Seq<char>, SymbolView>;

    closed spec fn view(&self) -> Map<Seq<char>, SymbolView> {
        spec_scope_map(self.symbols@)
    }
}

impl Scope {
    /// An empty scope.
    pub fn new() -> (r: Self)
        ensures
            r@ == Map::<Seq<char>, SymbolView>::empty(),
    {
        Scope { symbols: Vec::new() }
    }

    /// Binds a symbol, overwriting any earlier binding of the same name.
    pub fn insert(&mut self, symbol: Symbol)
        ensures
            final(self)@ == old(self)@.insert(symbol.name@, symbol@),
    {
        let ghost pre = self.symbols@;
        self.symbols.push(symbol);
        proof {
            assert(self.symbols@.drop_last() =~= pre);
        }
    }

    /// The symbol bound to a name, if any.
    pub fn get(&self, name: &str) -> (r: Option<&Symbol>)
        ensures
            match r {
                Some(sym) => self@.contains_key(name@) && sym@ == self@[name@],
                None => !self@.contains_key(name@),
            },
    {
        let ghost ss = self.symbols@;
        let mut i: usize = self.symbols.len();
        proof {
            assert(ss.subrange(0, ss.len() as int) =~= ss);
        }
        while i > 0
            invariant
                ss == self.symbols@,
                i <= ss.len(),
                spec_scope_map(ss).contains_key(name@) == spec_scope_map(
                    ss.subrange(0, i as int),
                ).contains_key(name@),
                spec_scope_map(ss).contains_key(name@) ==> spec_scope_map(ss)[name@]
                    == spec_scope_map(ss.subrange(0, i as int))[name@],
            decreases i,
        {
            i = i - 1;
            let ghost prefix = ss.subrange(0, i as int + 1);
            proof {
                assert(prefix.drop_last() =~= ss.subrange(0, i as int));
                assert(prefix.last() == ss[i as int]);
            }
            if str_eq(self.symbols[i].name.as_str(), name) {
                return Some(&self.symbols[i]);
            }
        }
        proof {
            assert(ss.subrange(0, 0) =~= Seq::<Symbol>::empty());
        }
        None
    }
}

/// A resolved function definition: its parameters, optional return type,
/// and the scope its body would see.
#[derive(Debug)]
pub struct SemanticFunctionDefinition {
    pub name: String,
    pub params: Vec<SemanticFunctionParam>,
    pub return_type: Option<SemanticType>,
    pub code: SemanticCodeBlock,
}

/// A block with the local symbols it binds. Body nodes are kept out of
/// semantic checking at this stage.
#[derive(Debug)]
pub struct SemanticCodeBlock {
    pub locals: Scope,
    pub nodes: Vec<SemanticNode>,
}

/// An expression together with the syntactic type it evaluates to.
#[derive(Debug)]
pub struct SemanticExpression {
    pub eval_type: Type,
    pub expr: Expression,
}

/// A semantically processed node.
#[derive(Debug)]
pub enum SemanticNode {
    Statement(Statement),
    Expression(SemanticExpression),
    SemanticCodeBlock(SemanticCodeBlock),
}

/// The result of the whole pass: the resolved functions and the scope
/// stack, whose first entry is the global scope.
#[derive(Debug)]
pub struct Program {
    pub defined_functions: Vec<SemanticFunctionDefinition>,
    pub scopes: Vec<Scope>,
}

/// Mathematical view of `SemanticFunctionDefinition`.
pub struct SemanticFunctionDefinitionView {
    pub name: Seq<char>,
    pub params: Seq<SemanticFunctionParamView>,
    pub return_type: Option<SemanticTypeView>,
    pub code: SemanticCodeBlockView,
}

/// Mathematical view of `SemanticCodeBlock`.
pub struct SemanticCodeBlockView {
    pub locals: Map<Seq<char>, SymbolView>,
    pub nodes: Seq<SemanticNodeView>,
}

/// Mathematical view of `SemanticExpression`.
pub struct SemanticExpressionView {
    pub eval_type: TypeView,
    pub expr: ExpressionView,
}

/// Mathematical view of `SemanticNode`.
pub enum SemanticNodeView {
    Statement(StatementView),
    Expression(SemanticExpressionView),
    SemanticCodeBlock(SemanticCodeBlockView),
}

/// Mathematical view of `Program`.
pub struct ProgramView {
    pub defined_functions: Seq<SemanticFunctionDefinitionView>,
    pub scopes: Seq<Map<Seq<char>, SymbolView>>,
}

/// View of a semantic node list, element by element.
pub open spec fn spec_sem_nodes_view(ns: Seq<SemanticNode>) -> Seq<SemanticNodeView>
    decreases ns,
{
    if ns.len() == 0 {
        Seq::empty()
    } else {
        seq![ns[0]@] + spec_sem_nodes_view(ns.subrange(1, ns.len() as int))
    }
}

impl View for SemanticCodeBlock {
    type V = SemanticCodeBlockView;

    open spec fn view(&self) -> SemanticCodeBlockView
        decreases self,
    {
        SemanticCodeBlockView { locals: self.locals@, nodes: spec_sem_nodes_view(self.nodes@) }
    }
}

impl View for SemanticNode {
    type V = SemanticNodeView;

    open spec fn view(&self) -> SemanticNodeView
        decreases self,
    {
        match self {
            SemanticNode::Statement(st) => SemanticNodeView::Statement(st@),
            SemanticNode::Expression(e) => SemanticNodeView::Expression(e@),
            SemanticNode::SemanticCodeBlock(b) => SemanticNodeView::SemanticCodeBlock(b@),
        }
    }
}

impl View for SemanticExpression {
    type V = SemanticExpressionView;

    open spec fn view(&self) -> SemanticExpressionView {
        SemanticExpressionView { eval_type: self.eval_type@, expr: self.expr@ }
    }
}

impl View for SemanticFunctionDefinition {
    type V = SemanticFunctionDefinitionView;

    open spec fn view(&self) -> SemanticFunctionDefinitionView {
        SemanticFunctionDefinitionView {
            name: self.name@,
            params: spec_sem_params_view(self.params@),
            return_type: match &self.return_type {
                Some(t) => Some(t@),
                None => None,
            },
            code: self.code@,
        }
    }
}

/// View of a function-definition list, element by element.
pub open spec fn spec_sem_defs_view(ds: Seq<SemanticFunctionDefinition>) -> Seq<
    SemanticFunctionDefinitionView,
> {
    ds.map_values(|d: SemanticFunctionDefinition| d@)
}

/// View of a scope stack, scope by scope.
pub open spec fn spec_scopes_view(ss: Seq<Scope>) -> Seq<Map<Seq<char>, SymbolView>> {
    ss.map_values(|sc: Scope| sc@)
}

impl View for Program {
    type V = ProgramView;

    open spec fn view(&self) -> ProgramView {
        ProgramView {
            defined_functions: spec_sem_defs_view(self.defined_functions@),
            scopes: spec_scopes_view(self.scopes@),
        }
    }
}

/// Why a semantic pass stops: a nominal type the table does not know, a
/// node kind the pass does not yet support, or a missing scope.
pub enum AnalyzeFault {
    UnknownType(Seq<char>),
    UnsupportedNode,
    NoScope,
}

/// The program every analysis starts from: one empty global scope and no
/// functions.
pub open spec fn spec_initial_program() -> ProgramView {
    ProgramView {
        defined_functions: Seq::empty(),
        scopes: seq![Map::<Seq<char>, SymbolView>::empty()],
    }
}

/// The scope a function body would see: one symbol per parameter, a
/// later parameter of the same name shadowing the earlier one.
pub open spec fn spec_param_scope(ps: Seq<SemanticFunctionParamView>) -> Map<Seq<char>, SymbolView>
    decreases ps.len(),
{
    if ps.len() == 0 {
        Map::empty()
    } else {
        spec_param_scope(ps.drop_last()).insert(
            ps.last().name,
            SymbolView { name: ps.last().name, sem_type: ps.last().declared_type },
        )
    }
}

/// An external declaration binds its resolved symbol in the innermost
/// scope, a repeated name overwriting the earlier binding.
pub open spec fn spec_analyze_extern(
    prog: ProgramView,
    identifier: Seq<char>,
    declared_type: TypeView,
) -> Result<ProgramView, AnalyzeFault> {
    match spec_resolve_type(declared_type) {
        Ok(st) => {
            if prog.scopes.len() == 0 {
                Err(AnalyzeFault::NoScope)
            } else {
                Ok(
                    ProgramView {
                        defined_functions: prog.defined_functions,
                        scopes: prog.scopes.update(
                            prog.scopes.len() - 1,
                            prog.scopes.last().insert(
                                identifier,
                                SymbolView { name: identifier, sem_type: st },
                            ),
                        ),
                    },
                )
            }
        },
        Err(name) => Err(AnalyzeFault::UnknownType(name)),
    }
}

/// A function definition resolves its optional return type (an
/// unresolvable one is dropped to "no declared return value"), resolves
/// every parameter fail-fast, seeds a fresh scope with the parameters,
/// and appends the resolved definition to the program.
pub open spec fn spec_analyze_function_definition(
    prog: ProgramView,
    identifier: Seq<char>,
    params: Seq<FunctionParamView>,
    return_type: Option<TypeView>,
) -> Result<ProgramView, AnalyzeFault> {
    let ret = match return_type {
        Some(rt) => match spec_resolve_type(rt) {
            Ok(s) => Some(s),
            Err(e) => None,
        },
        None => None,
    };
    match spec_resolve_params(params) {
        Ok(ps) => Ok(
            ProgramView {
                scopes: prog.scopes,
                defined_functions: prog.defined_functions.push(
                    SemanticFunctionDefinitionView {
                        name: identifier,
                        params: ps,
                        return_type: ret,
                        code: SemanticCodeBlockView {
                            locals: spec_param_scope(ps),
                            nodes: Seq::empty(),
                        },
                    },
                ),
            },
        ),
        Err(name) => Err(AnalyzeFault::UnknownType(name)),
    }
}

/// What one top-level node does to the program: externs and function
/// definitions are understood; every other node stops the pass.
pub open spec fn spec_analyze_node(prog: ProgramView, node: NodeView) -> Result<
    ProgramView,
    AnalyzeFault,
> {
    match node {
        NodeView::Statement(StatementView::Extern { identifier, declared_type }) => {
            spec_analyze_extern(prog, identifier, declared_type)
        },
        NodeView::Statement(
            StatementView::FunctionDefinition { identifier, params, return_type, code },
        ) => spec_analyze_function_definition(prog, identifier, params, return_type),
        _ => Err(AnalyzeFault::UnsupportedNode),
    }
}

/// The whole pass: nodes in order, stopping at the first fault.
pub open spec fn spec_analyze(prog: ProgramView, nodes: Seq<NodeInfoView>) -> Result<
    ProgramView,
    AnalyzeFault,
>
    decreases nodes.len(),
{
    if nodes.len() == 0 {
        Ok(prog)
    } else {
        match spec_analyze_node(prog, nodes[0].node) {
            Ok(p) => spec_analyze(p, nodes.subrange(1, nodes.len() as int)),
            Err(f) => Err(f),
        }
    }
}

/// The diagnostic for a missing scope.
fn no_scope_message() -> (m: String)
    ensures
        m@.len() > 0,
{
    proof {
        reveal_strlit("no scope available");
    }
    String::from_str("no scope available")
}

/// A short name for each node variant, for diagnostics.
fn node_kind_name(n: &Node) -> (r: &'static str) {
    match n {
        Node::Invalid => "Invalid",
        Node::Statement(_) => "Statement",
        Node::Expression(_) => "Expression",
    }
}

/// The diagnostic for a node kind the pass does not support.
fn unknown_node_message(n: &Node) -> (m: String)
    ensures
        m@.len() > 0,
{
    proof {
        reveal_strlit("unknown node: ");
    }
    let mut m = String::from_str("unknown node: ");
    m.append(node_kind_name(n));
    m
}

/// Walks parsed top-level declarations once, resolving types and filling
/// scopes; any construct it does not understand stops the whole pass.
pub struct SemanticAnalyzer<'a> {
    program: Program,
    nodes: &'a Vec<NodeInfo>,
}

impl<'a> SemanticAnalyzer<'a> {
    /// The program built so far, as its mathematical view.
    pub closed spec fn spec_program(self) -> ProgramView {
        self.program@
    }

    /// The nodes this analyzer walks, as their mathematical views.
    pub closed spec fn spec_nodes(self) -> Seq<NodeInfoView> {
        crate::syntax::spec_nodes_view(self.nodes@)
    }

    /// An analyzer over the given nodes, with one empty global scope.
    pub fn new(nodes: &'a Vec<NodeInfo>) -> (r: Self)
        ensures
            r.spec_program() == spec_initial_program(),
            r.spec_nodes() == crate::syntax::spec_nodes_view(nodes@),
    {
        let mut scopes: Vec<Scope> = Vec::new();
        scopes.push(Scope::new());
        let program = Program { scopes, defined_functions: Vec::new() };
        proof {
            assert(spec_scopes_view(program.scopes@) =~= seq![
                Map::<Seq<char>, SymbolView>::empty(),
            ]);
            assert(spec_sem_defs_view(program.defined_functions@) =~= Seq::<
                SemanticFunctionDefinitionView,
            >::empty());
        }
        Self { program, nodes }
    }

    /// Resolves an external declaration and binds it in the innermost
    /// scope, as `spec_analyze_extern` says.
    fn analyze_extern(&mut self, identifier: &String, declared_type: &Type) -> (r: Result<
        (),
        String,
    >)
        ensures
            final(self).spec_nodes() == old(self).spec_nodes(),
            match r {
                Ok(u) => spec_analyze_extern(old(self).spec_program(), identifier@, declared_type@)
                    == Ok::<ProgramView, AnalyzeFault>(final(self).spec_program()),
                Err(m) => spec_analyze_extern(
                    old(self).spec_program(),
                    identifier@,
                    declared_type@,
                ) is Err && m@.len() > 0,
            },
    {
        let sem_type = match SemanticType::resolve(declared_type) {
            Ok(s) => s,
            Err(m) => {
                return Err(m);
            },
        };
        if self.program.scopes.len() == 0 {
            return Err(no_scope_message());
        }
        let ghost scopes_pre = self.program.scopes@;
        let mut scope = match self.program.scopes.pop() {
            Some(sc) => sc,
            None => {
                return Err(no_scope_message());
            },
        };
        scope.insert(Symbol { name: identifier.clone(), sem_type });
        self.program.scopes.push(scope);
        proof {
            let n = scopes_pre.len() as int;
            assert(self.program.scopes@ =~= scopes_pre.drop_last().push(self.program.scopes@[n
                - 1]));
            assert(spec_scopes_view(self.program.scopes@) =~= spec_scopes_view(scopes_pre).update(
                n - 1,
                spec_scopes_view(scopes_pre).last().insert(
                    identifier@,
                    SymbolView { name: identifier@, sem_type: sem_type@ },
                ),
            ));
        }
        Ok(())
    }

    /// Resolves a function definition and appends it to the program, as
    /// `spec_analyze_function_definition` says. A parameter name bound
    /// twice keeps its later binding, like a repeated declaration.
    fn analyze_function_definition(
        &mut self,
        identifier: &String,
        params: &Vec<FunctionParam>,
        return_type: &Option<Type>,
    ) -> (r: Result<(), String>)
        ensures
            final(self).spec_nodes() == old(self).spec_nodes(),
            match r {
                Ok(u) => spec_analyze_function_definition(
                    old(self).spec_program(),
                    identifier@,
                    crate::syntax::spec_params_view(params@),
                    match return_type {
                        Some(t) => Some(t@),
                        None => None::<TypeView>,
                    },
                ) == Ok::<ProgramView, AnalyzeFault>(final(self).spec_program()),
                Err(m) => spec_analyze_function_definition(
                    old(self).spec_program(),
                    identifier@,
                    crate::syntax::spec_params_view(params@),
                    match return_type {
                        Some(t) => Some(t@),
                        None => None::<TypeView>,
                    },
                ) is Err && m@.len() > 0,
            },
    {
        let ghost pv = crate::syntax::spec_params_view(params@);
        let sem_ret: Option<SemanticType> = match return_type {
            Some(rt) => match SemanticType::resolve(rt) {
                Ok(s) => Some(s),
                Err(_) => None,
            },
            None => None,
        };
        let sem_params = match SemanticType::resolve_params(params) {
            Ok(ps) => ps,
            Err(m) => {
                return Err(m);
            },
        };
        let ghost full = spec_resolve_params(pv)->Ok_0;
        // seed the function's scope with its parameters, in order
        let mut scope = Scope::new();
        let mut k: usize = 0;
        proof {
            lemma_sem_params_view_index(sem_params@);
            crate::parser::lemma_params_view_index(params@);
            lemma_resolve_params_index(pv);
            assert(full.subrange(0, 0) =~= Seq::<SemanticFunctionParamView>::empty());
        }
        while k < sem_params.len()
            invariant
                k <= sem_params@.len(),
                pv == crate::syntax::spec_params_view(params@),
                pv.len() == params@.len(),
                forall|j: int| 0 <= j < params@.len() ==> pv[j] == params@[j]@,
                spec_resolve_params(pv) is Ok,
                full == spec_resolve_params(pv)->Ok_0,
                spec_sem_params_view(sem_params@) == full,
                full.len() == sem_params@.len(),
                sem_params@.len() == params@.len(),
                forall|j: int| 0 <= j < sem_params@.len() ==> full[j] == sem_params@[j]@,
                scope@ == spec_param_scope(full.subrange(0, k as int)),
            decreases sem_params@.len() - k,
        {
            let ghost prefix = full.subrange(0, k as int + 1);
            proof {
                lemma_resolve_params_index(pv);
                assert(prefix.drop_last() =~= full.subrange(0, k as int));
                assert(prefix.last() == full[k as int]);
            }
            let st = match SemanticType::resolve(&params[k].declared_type) {
                Ok(s) => s,
                Err(m) => {
                    return Err(m);
                },
            };
            scope.insert(Symbol { name: params[k].name.clone(), sem_type: st });
            k = k + 1;
        }
        proof {
            assert(full.subrange(0, full.len() as int) =~= full);
        }
        let def = SemanticFunctionDefinition {
            name: identifier.clone(),
            params: sem_params,
            return_type: sem_ret,
            code: SemanticCodeBlock { locals: scope, nodes: Vec::new() },
        };
        let ghost defs_pre = self.program.defined_functions@;
        self.program.defined_functions.push(def);
        proof {
            assert(spec_sem_nodes_view(Seq::<SemanticNode>::empty()) =~= Seq::<
                SemanticNodeView,
            >::empty());
            assert(spec_sem_defs_view(self.program.defined_functions@) =~= spec_sem_defs_view(
                defs_pre,
            ).push(self.program.defined_functions@.last()@));
        }
        Ok(())
    }

    /// Applies one node to the program, as `spec_analyze_node` says: a
    /// node the pass does not support is a hard stop, not a recoverable
    /// error.
    fn analyze_node(&mut self, node: &NodeInfo) -> (r: Result<(), String>)
        ensures
            final(self).spec_nodes() == old(self).spec_nodes(),
            match r {
                Ok(u) => spec_analyze_node(old(self).spec_program(), node@.node) == Ok::<
                    ProgramView,
                    AnalyzeFault,
                >(final(self).spec_program()),
                Err(m) => spec_analyze_node(old(self).spec_program(), node@.node) is Err
                    && m@.len() > 0,
            },
    {
        match &node.node {
            Node::Statement(Statement::Extern { identifier, declared_type }) => {
                self.analyze_extern(identifier, declared_type)
            },
            Node::Statement(
                Statement::FunctionDefinition { identifier, params, return_type, code: _ },
            ) => self.analyze_function_definition(identifier, params, return_type),
            _ => Err(unknown_node_message(&node.node)),
        }
    }

    /// Runs the pass over every node in order. The first node the pass
    /// cannot handle fails the whole analysis: no partial program comes
    /// back.
    pub fn analyze(self) -> (r: Result<Program, String>)
        ensures
            match r {
                Ok(p) => spec_analyze(self.spec_program(), self.spec_nodes()) == Ok::<
                    ProgramView,
                    AnalyzeFault,
                >(p@),
                Err(m) => spec_analyze(self.spec_program(), self.spec_nodes()) is Err && m@.len()
                    > 0,
            },
    {
        let ghost nv = self.spec_nodes();
        let ghost prog0 = self.spec_program();
        let nodes_ref = self.nodes;
        let mut st = self;
        let mut k: usize = 0;
        proof {
            crate::syntax::lemma_nodes_view_index(nodes_ref@);
            assert(nv.subrange(0, nv.len() as int) =~= nv);
        }
        while k < nodes_ref.len()
            invariant
                k <= nodes_ref@.len(),
                prog0 == self.spec_program(),
                nv == self.spec_nodes(),
                nv.len() == nodes_ref@.len(),
                forall|j: int| 0 <= j < nv.len() ==> nv[j] == nodes_ref@[j]@,
                st.spec_nodes() == nv,
                spec_analyze(prog0, nv) == spec_analyze(
                    st.spec_program(),
                    nv.subrange(k as int, nv.len() as int),
                ),
            decreases nodes_ref@.len() - k,
        {
            let ghost suffix = nv.subrange(k as int, nv.len() as int);
            proof {
                assert(suffix[0] == nv[k as int]);
                assert(suffix.subrange(1, suffix.len() as int) =~= nv.subrange(
                    k as int + 1,
                    nv.len() as int,
                ));
            }
            let node = &nodes_ref[k];
            match st.analyze_node(node) {
                Ok(u) => {},
                Err(m) => {
                    return Err(m);
                },
            }
            k = k + 1;
        }
        proof {
            assert(nv.subrange(nv.len() as int, nv.len() as int) =~= Seq::<NodeInfoView>::empty());
        }
        Ok(st.program)
    }
}

/// A resolvable parameter list resolves element by element: each
/// parameter keeps its name and carries its own resolved type.
pub proof fn lemma_resolve_params_index(ps: Seq<FunctionParamView>)
    requires
        spec_resolve_params(ps) is Ok,
    ensures
        spec_resolve_params(ps)->Ok_0.len() == ps.len(),
        forall|k: int| #![auto] 0 <= k < ps.len() ==> spec_resolve_type(ps[k].declared_type) is Ok
            && spec_resolve_params(ps)->Ok_0[k] == (SemanticFunctionParamView {
            name: ps[k].name,
            declared_type: spec_resolve_type(ps[k].declared_type)->Ok_0,
        }),
    decreases ps.len(),
{
    if ps.len() > 0 {
        let tail = ps.subrange(1, ps.len() as int);
        lemma_resolve_params_index(tail);
        assert forall|k: int| 0 <= k < ps.len() implies spec_resolve_type(
            ps[k].declared_type,
        ) is Ok && spec_resolve_params(ps)->Ok_0[k] == (SemanticFunctionParamView {
            name: ps[k].name,
            declared_type: spec_resolve_type(ps[k].declared_type)->Ok_0,
        }) by {
            if k > 0 {
                assert(tail[k - 1] == ps[k]);
                assert(spec_resolve_params(tail)->Ok_0[k - 1] == (SemanticFunctionParamView {
                    name: tail[k - 1].name,
                    declared_type: spec_resolve_type(tail[k - 1].declared_type)->Ok_0,
                }));
            }
        }
    }
}

} // verus!
