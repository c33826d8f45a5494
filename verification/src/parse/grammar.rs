//! The mathematical model of the grammar: view types for the syntax tree
//! and a specification-level parser over token sequences.
//!
//! The token stream is a stack whose top is its last element, so the next
//! token in source order is `t.last()`.  Each `sp_parse_*` function returns
//! the outcome of one grammar rule together with the stack it leaves
//! behind; the executable parsers are proved to return exactly these
//! outcomes.

use vstd::prelude::*;
use crate::lexer::TokenKind;
use crate::lexer::TokenV;
use crate::parse::Expression;
use crate::parse::ParseErrV;
use crate::parse::ParseError;
use crate::parse::block::Block;
use crate::parse::definition::Definition;
use crate::parse::function_call::FunctionCall;
use crate::parse::if_expr::IfExpr;
use crate::parse::lambda::Lambda;
use crate::parse::module::Module;
use crate::parse::number::sp_parse_i32;
use crate::parse::parse_err_v;

verus! {

/// View of `Expression`: text as character sequences, lists as sequences.
pub enum ExprV {
    Definition(DefinitionV),
    Number(i32),
    Block(BlockV),
    Lambda(LambdaV),
    IfExpr(IfExprV),
    Identifier(Seq<char>),
    FunctionCall(FunctionCallV),
    StringLiteral(Seq<char>),
}

pub struct DefinitionV {
    pub identifier: Seq<char>,
    pub expression: Box<ExprV>,
}

pub struct BlockV {
    pub expressions: Seq<ExprV>,
}

pub struct LambdaV {
    pub args: Seq<Seq<char>>,
    pub expression: Box<ExprV>,
}

pub struct IfExprV {
    pub condition: Box<ExprV>,
    pub then_expression: Box<ExprV>,
    pub else_expression: Option<Box<ExprV>>,
}

pub struct FunctionCallV {
    pub name: Seq<char>,
    pub args: Seq<ExprV>,
}

pub struct ModuleV {
    pub expressions: Seq<ExprV>,
}

pub open spec fn expr_v(e: Expression) -> ExprV
    decreases e,
{
    match e {
        Expression::Definition(d) => ExprV::Definition(def_v(d)),
        Expression::Number(n) => ExprV::Number(n),
        Expression::Block(b) => ExprV::Block(block_v(b)),
        Expression::Lambda(l) => ExprV::Lambda(lambda_v(l)),
        Expression::IfExpr(f) => ExprV::IfExpr(if_expr_v(f)),
        Expression::Identifier(s) => ExprV::Identifier(s@),
        Expression::FunctionCall(c) => ExprV::FunctionCall(call_v(c)),
        Expression::StringLiteral(s) => ExprV::StringLiteral(s@),
    }
}

pub open spec fn exprs_v(es: Seq<Expression>) -> Seq<ExprV>
    decreases es,
{
    if es.len() == 0 {
        Seq::empty()
    } else {
        seq![expr_v(es[0])] + exprs_v(es.subrange(1, es.len() as int))
    }
}

/// `exprs_v` maps `expr_v` over the sequence, element by element.
pub proof fn lemma_exprs_v(es: Seq<Expression>)
    ensures
        exprs_v(es).len() == es.len(),
        forall|i: int| 0 <= i < es.len() ==> exprs_v(es)[i] == expr_v(es[i]),
    decreases es.len(),
{
    if es.len() > 0 {
        lemma_exprs_v(es.subrange(1, es.len() as int));
    }
}

pub proof fn lemma_exprs_v_push(es: Seq<Expression>, e: Expression)
    ensures
        exprs_v(es.push(e)) == exprs_v(es).push(expr_v(e)),
{
    lemma_exprs_v(es);
    lemma_exprs_v(es.push(e));
    assert(exprs_v(es.push(e)) =~= exprs_v(es).push(expr_v(e)));
}

/// The texts of a sequence of strings.
pub open spec fn strs_v(ss: Seq<String>) -> Seq<Seq<char>> {
    Seq::new(ss.len(), |i: int| ss[i]@)
}

pub open spec fn def_v(d: Definition) -> DefinitionV
    decreases d,
{
    DefinitionV { identifier: d.identifier@, expression: Box::new(expr_v(*d.expression)) }
}

pub open spec fn block_v(b: Block) -> BlockV
    decreases b,
{
    BlockV { expressions: exprs_v(b.expressions@) }
}

pub open spec fn lambda_v(l: Lambda) -> LambdaV
    decreases l,
{
    LambdaV { args: strs_v(l.args@), expression: Box::new(expr_v(*l.expression)) }
}

pub open spec fn if_expr_v(f: IfExpr) -> IfExprV
    decreases f,
{
    IfExprV {
        condition: Box::new(expr_v(*f.condition)),
        then_expression: Box::new(expr_v(*f.then_expression)),
        else_expression: match f.else_expression {
            Some(e) => Some(Box::new(expr_v(*e))),
            None => None,
        },
    }
}

pub open spec fn call_v(c: FunctionCall) -> FunctionCallV
    decreases c,
{
    FunctionCallV { name: c.name@, args: exprs_v(c.args@) }
}

pub open spec fn module_v(m: Module) -> ModuleV {
    ModuleV { expressions: exprs_v(m.expressions@) }
}

// ---- views of parse results ----

pub open spec fn expr_res_v(r: Result<Expression, ParseError>) -> Result<ExprV, ParseErrV> {
    match r {
        Ok(e) => Ok(expr_v(e)),
        Err(e) => Err(parse_err_v(e)),
    }
}

pub open spec fn def_res_v(r: Result<Definition, ParseError>) -> Result<DefinitionV, ParseErrV> {
    match r {
        Ok(d) => Ok(def_v(d)),
        Err(e) => Err(parse_err_v(e)),
    }
}

pub open spec fn block_res_v(r: Result<Block, ParseError>) -> Result<BlockV, ParseErrV> {
    match r {
        Ok(b) => Ok(block_v(b)),
        Err(e) => Err(parse_err_v(e)),
    }
}

pub open spec fn lambda_res_v(r: Result<Lambda, ParseError>) -> Result<LambdaV, ParseErrV> {
    match r {
        Ok(l) => Ok(lambda_v(l)),
        Err(e) => Err(parse_err_v(e)),
    }
}

pub open spec fn if_expr_res_v(r: Result<IfExpr, ParseError>) -> Result<IfExprV, ParseErrV> {
    match r {
        Ok(f) => Ok(if_expr_v(f)),
        Err(e) => Err(parse_err_v(e)),
    }
}

pub open spec fn call_res_v(r: Result<FunctionCall, ParseError>) -> Result<
    FunctionCallV,
    ParseErrV,
> {
    match r {
        Ok(c) => Ok(call_v(c)),
        Err(e) => Err(parse_err_v(e)),
    }
}

pub open spec fn module_res_v(r: Result<Module, ParseError>) -> Result<ModuleV, ParseErrV> {
    match r {
        Ok(m) => Ok(module_v(m)),
        Err(e) => Err(parse_err_v(e)),
    }
}

// ---- token predicates and error construction ----

pub open spec fn is_op(t: TokenV, v: Seq<char>) -> bool {
    t.kind == TokenKind::Operator && t.value == v
}

pub open spec fn is_sym(t: TokenV, v: Seq<char>) -> bool {
    t.kind == TokenKind::Symbol && t.value == v
}

pub open spec fn perr(message: Seq<char>, line: nat, column: nat) -> ParseErrV {
    ParseErrV { message, line, column }
}

/// The error returned where the parser finds a state its rules never
/// produce; it also fills the arms of the specification that the shrinking
/// of the stack makes unreachable.
pub open spec fn internal_err() -> ParseErrV {
    perr("Unknown Parser Error"@, 0, 0)
}

// ---- the specification-level parser ----
//
// The functions are mutually recursive; the measure is the stack length
// with a constant rank breaking ties between functions that examine the
// same stack.  Where a rule continues on the stack a sub-rule left behind,
// the definition guards on the stack having shrunk; the guards are always
// true on the paths the rules actually reach, because a successful
// expression parse consumes at least one token.

/// Dispatch on the top of the stack: number and string literals, blocks,
/// lambdas, definitions, conditionals, identifiers and calls.  A symbol
/// that is neither `let` nor `if` is a call when the token under it is the
/// operator `(`, and a bare identifier otherwise.
pub open spec fn sp_parse_expression(t: Seq<TokenV>) -> (Result<ExprV, ParseErrV>, Seq<TokenV>)
    decreases t.len(), 3int,
{
    if t.len() == 0 {
        (Err(internal_err()), t)
    } else {
        let tok = t.last();
        match tok.kind {
            TokenKind::Number => match sp_parse_i32(tok.value) {
                Some(n) => (Ok(ExprV::Number(n)), t.drop_last()),
                None => (Err(perr("Expected number"@, tok.line, tok.column)), t.drop_last()),
            },
            TokenKind::Operator => if tok.value == "{"@ {
                match sp_parse_block(t) {
                    (Ok(b), rem) => (Ok(ExprV::Block(b)), rem),
                    (Err(e), rem) => (Err(e), rem),
                }
            } else if tok.value == "("@ {
                match sp_parse_lambda(t) {
                    (Ok(l), rem) => (Ok(ExprV::Lambda(l)), rem),
                    (Err(e), rem) => (Err(e), rem),
                }
            } else {
                (Err(perr("Unknown Operator"@, tok.line, tok.column)), t)
            },
            TokenKind::Symbol => if tok.value == "let"@ {
                match sp_parse_definition(t) {
                    (Ok(d), rem) => (Ok(ExprV::Definition(d)), rem),
                    (Err(e), rem) => (Err(e), rem),
                }
            } else if tok.value == "if"@ {
                match sp_parse_if_expr(t) {
                    (Ok(f), rem) => (Ok(ExprV::IfExpr(f)), rem),
                    (Err(e), rem) => (Err(e), rem),
                }
            } else if t.len() < 2 {
                (Ok(ExprV::Identifier(tok.value)), t.drop_last())
            } else if is_op(t[t.len() - 2], "("@) {
                match sp_parse_function_call(t) {
                    (Ok(c), rem) => (Ok(ExprV::FunctionCall(c)), rem),
                    (Err(e), rem) => (Err(e), rem),
                }
            } else {
                (Ok(ExprV::Identifier(tok.value)), t.drop_last())
            },
            TokenKind::StringLiteral => (Ok(ExprV::StringLiteral(tok.value)), t.drop_last()),
            TokenKind::NewLine => (Err(perr("Unknown Token"@, tok.line, tok.column)), t),
        }
    }
}

/// `'let' identifier '=' expression`.
pub open spec fn sp_parse_definition(t: Seq<TokenV>) -> (Result<DefinitionV, ParseErrV>, Seq<
    TokenV,
>)
    decreases t.len(), 2int,
{
    if t.len() == 0 {
        (Err(perr("Expected 'let' keyword"@, 0, 0)), t)
    } else if !is_sym(t.last(), "let"@) {
        (Err(perr("Expected 'let' keyword"@, t.last().line, t.last().column)), t)
    } else {
        let t1 = t.drop_last();
        if t1.len() == 0 {
            (Err(perr("Expected identifier"@, 0, 0)), t1)
        } else {
            let id = t1.last();
            let t2 = t1.drop_last();
            if id.kind != TokenKind::Symbol {
                (Err(perr("Expected identifier"@, id.line, id.column)), t2)
            } else if t2.len() == 0 {
                (Err(perr("Expected '='"@, 0, 0)), t2)
            } else if !is_op(t2.last(), "="@) {
                (Err(perr("Expected '='"@, t2.last().line, t2.last().column)), t2)
            } else {
                let t3 = t2.drop_last();
                match sp_parse_expression(t3) {
                    (Ok(e), rem) => (
                        Ok(DefinitionV { identifier: id.value, expression: Box::new(e) }),
                        rem,
                    ),
                    (Err(pe), rem) => (Err(pe), rem),
                }
            }
        }
    }
}

/// `'{' expression* '}'`.
pub open spec fn sp_parse_block(t: Seq<TokenV>) -> (Result<BlockV, ParseErrV>, Seq<TokenV>)
    decreases t.len(), 2int,
{
    if t.len() == 0 {
        (Err(perr("Expected '{'"@, 0, 0)), t)
    } else if !is_op(t.last(), "{"@) {
        (Err(perr("Expected '{'"@, t.last().line, t.last().column)), t)
    } else {
        match sp_block_items(t.drop_last()) {
            (Ok(es), rem) => (Ok(BlockV { expressions: es }), rem),
            (Err(e), rem) => (Err(e), rem),
        }
    }
}

/// The expressions of a block body up to and including the closing `}`.
pub open spec fn sp_block_items(t: Seq<TokenV>) -> (Result<Seq<ExprV>, ParseErrV>, Seq<TokenV>)
    decreases t.len(), 4int,
{
    if t.len() == 0 {
        (Err(perr("Expected '}'"@, 0, 0)), t)
    } else if is_op(t.last(), "}"@) {
        (Ok(Seq::empty()), t.drop_last())
    } else {
        match sp_parse_expression(t) {
            (Ok(e), rem) => if rem.len() < t.len() {
                match sp_block_items(rem) {
                    (Ok(es), rem2) => (Ok(seq![e] + es), rem2),
                    (Err(pe), rem2) => (Err(pe), rem2),
                }
            } else {
                (Err(internal_err()), rem)
            },
            (Err(pe), rem) => (Err(pe), rem),
        }
    }
}

/// `'(' identifier* ')' '=>' expression`.
pub open spec fn sp_parse_lambda(t: Seq<TokenV>) -> (Result<LambdaV, ParseErrV>, Seq<TokenV>)
    decreases t.len(), 2int,
{
    if t.len() == 0 {
        (Err(perr("Expected token but found none"@, 0, 0)), t)
    } else {
        let p = t.last();
        let t1 = t.drop_last();
        if !is_op(p, "("@) {
            (Err(perr("Expected '('"@, p.line, p.column)), t1)
        } else {
            match sp_lambda_args(t1) {
                (Ok(args), rem) => if rem.len() == 0 {
                    (Err(perr("Expected '=>'"@, 0, 0)), rem)
                } else {
                    let a = rem.last();
                    let rem1 = rem.drop_last();
                    if !is_op(a, "=>"@) {
                        (Err(perr("Expected '=>'"@, a.line, a.column)), rem1)
                    } else if rem1.len() < t.len() {
                        match sp_parse_expression(rem1) {
                            (Ok(e), rem2) => (
                                Ok(LambdaV { args, expression: Box::new(e) }),
                                rem2,
                            ),
                            (Err(pe), rem2) => (Err(pe), rem2),
                        }
                    } else {
                        (Err(internal_err()), rem1)
                    }
                },
                (Err(e), rem) => (Err(e), rem),
            }
        }
    }
}

/// The parameter names of a lambda up to and including the closing `)`.
pub open spec fn sp_lambda_args(t: Seq<TokenV>) -> (Result<Seq<Seq<char>>, ParseErrV>, Seq<TokenV>)
    decreases t.len(),
{
    if t.len() == 0 {
        (Err(perr("Expected ')'"@, 0, 0)), t)
    } else if is_op(t.last(), ")"@) {
        (Ok(Seq::empty()), t.drop_last())
    } else {
        let k = t.last();
        let t1 = t.drop_last();
        if k.kind != TokenKind::Symbol {
            (Err(perr("Expected identifier"@, k.line, k.column)), t1)
        } else {
            match sp_lambda_args(t1) {
                (Ok(args), rem) => (Ok(seq![k.value] + args), rem),
                (Err(e), rem) => (Err(e), rem),
            }
        }
    }
}

/// `'if' expression expression ('else' expression)?`.
pub open spec fn sp_parse_if_expr(t: Seq<TokenV>) -> (Result<IfExprV, ParseErrV>, Seq<TokenV>)
    decreases t.len(), 2int,
{
    if t.len() == 0 {
        (Err(perr("Expected 'if'"@, 0, 0)), t)
    } else if !is_sym(t.last(), "if"@) {
        (Err(perr("Expected 'if'"@, t.last().line, t.last().column)), t)
    } else {
        match sp_parse_expression(t.drop_last()) {
            (Err(e), rem) => (Err(e), rem),
            (Ok(cond), rem) => if rem.len() < t.len() {
                match sp_parse_expression(rem) {
                    (Err(e), rem2) => (Err(e), rem2),
                    (Ok(th), rem2) => if rem2.len() > 0 && is_sym(rem2.last(), "else"@) {
                        let rem3 = rem2.drop_last();
                        if rem3.len() < t.len() {
                            match sp_parse_expression(rem3) {
                                (Ok(el), rem4) => (
                                    Ok(IfExprV {
                                        condition: Box::new(cond),
                                        then_expression: Box::new(th),
                                        else_expression: Some(Box::new(el)),
                                    }),
                                    rem4,
                                ),
                                (Err(pe), rem4) => (Err(pe), rem4),
                            }
                        } else {
                            (Err(internal_err()), rem3)
                        }
                    } else {
                        (
                            Ok(IfExprV {
                                condition: Box::new(cond),
                                then_expression: Box::new(th),
                                else_expression: None,
                            }),
                            rem2,
                        )
                    },
                }
            } else {
                (Err(internal_err()), rem)
            },
        }
    }
}

/// `identifier '(' (expression (',' expression)*)? ')'`.
pub open spec fn sp_parse_function_call(t: Seq<TokenV>) -> (Result<FunctionCallV, ParseErrV>, Seq<
    TokenV,
>)
    decreases t.len(), 2int,
{
    if t.len() == 0 {
        (Err(perr("Expected identifier"@, 0, 0)), t)
    } else {
        let nm = t.last();
        let t1 = t.drop_last();
        if nm.kind != TokenKind::Symbol {
            (Err(perr("Expected identifier"@, nm.line, nm.column)), t1)
        } else if t1.len() == 0 {
            (Err(perr("Expected '('"@, 0, 0)), t1)
        } else {
            let p = t1.last();
            let t2 = t1.drop_last();
            if !is_op(p, "("@) {
                (Err(perr("Expected '('"@, p.line, p.column)), t2)
            } else if t2.len() == 0 {
                (Err(perr("Expected ')'"@, 0, 0)), t2)
            } else if is_op(t2.last(), ")"@) {
                (Ok(FunctionCallV { name: nm.value, args: Seq::empty() }), t2.drop_last())
            } else if is_op(t2.last(), ","@) {
                (
                    Err(perr("Expected expression"@, t2.last().line, t2.last().column)),
                    t2,
                )
            } else {
                match sp_parse_expression(t2) {
                    (Err(e), rem) => (Err(e), rem),
                    (Ok(a0), rem) => if rem.len() < t.len() {
                        match sp_call_args(rem) {
                            (Ok(more), rem2) => (
                                Ok(FunctionCallV { name: nm.value, args: seq![a0] + more }),
                                rem2,
                            ),
                            (Err(e), rem2) => (Err(e), rem2),
                        }
                    } else {
                        (Err(internal_err()), rem)
                    },
                }
            }
        }
    }
}

/// The arguments of a call after the first, each preceded by `,`, up to and
/// including the closing `)`.
pub open spec fn sp_call_args(t: Seq<TokenV>) -> (Result<Seq<ExprV>, ParseErrV>, Seq<TokenV>)
    decreases t.len(), 4int,
{
    if t.len() == 0 {
        (Err(perr("Expected ')'"@, 0, 0)), t)
    } else if is_op(t.last(), ")"@) {
        (Ok(Seq::empty()), t.drop_last())
    } else {
        let k = t.last();
        let t1 = t.drop_last();
        if !is_op(k, ","@) {
            (Err(perr("Expected ','"@, k.line, k.column)), t1)
        } else {
            match sp_parse_expression(t1) {
                (Err(e), rem) => (Err(e), rem),
                (Ok(a), rem) => if rem.len() < t.len() {
                    match sp_call_args(rem) {
                        (Ok(more), rem2) => (Ok(seq![a] + more), rem2),
                        (Err(e), rem2) => (Err(e), rem2),
                    }
                } else {
                    (Err(internal_err()), rem)
                },
            }
        }
    }
}

/// The top-level expressions of a whole unit, read until the stack is
/// exhausted.
pub open spec fn sp_module_items(t: Seq<TokenV>) -> (Result<Seq<ExprV>, ParseErrV>, Seq<TokenV>)
    decreases t.len(), 4int,
{
    if t.len() == 0 {
        (Ok(Seq::empty()), t)
    } else {
        match sp_parse_expression(t) {
            (Err(e), rem) => (Err(e), rem),
            (Ok(e), rem) => if rem.len() < t.len() {
                match sp_module_items(rem) {
                    (Ok(es), rem2) => (Ok(seq![e] + es), rem2),
                    (Err(pe), rem2) => (Err(pe), rem2),
                }
            } else {
                (Err(internal_err()), rem)
            },
        }
    }
}

/// `expression+`: a whole unit, where producing no expression at all is an
/// error.
pub open spec fn sp_parse_module(t: Seq<TokenV>) -> (Result<ModuleV, ParseErrV>, Seq<TokenV>)
    decreases t.len(), 5int,
{
    match sp_module_items(t) {
        (Err(e), rem) => (Err(e), rem),
        (Ok(es), rem) => if es.len() == 0 {
            (Err(perr("Expected expression"@, 0, 0)), rem)
        } else {
            (Ok(ModuleV { expressions: es }), rem)
        },
    }
}

/// Parsing is a pure function of the token contents: equal token stacks
/// parse to equal outcomes, so re-parsing the same token list always
/// yields an identical syntax tree.
pub proof fn lemma_parse_deterministic(t1: Seq<TokenV>, t2: Seq<TokenV>)
    requires
        t1 == t2,
    ensures
        sp_parse_module(t1) == sp_parse_module(t2),
{
}

} // verus!
