//! The conditional rule: `'if' expression expression ('else' expression)?`.

use vstd::prelude::*;
use crate::lexer::Token;
use crate::lexer::toks_v;
use crate::parse::Expression;
use crate::parse::ParseError;
use crate::parse::grammar::if_expr_res_v;
use crate::parse::grammar::sp_parse_if_expr;
use crate::parse::token_is_sym;

verus! {

/// A conditional with an optional else branch.
#[derive(Debug, PartialEq)]
pub struct IfExpr {
    pub condition: Box<Expression>,
    pub then_expression: Box<Expression>,
    pub else_expression: Option<Box<Expression>>,
}

impl IfExpr {
    pub fn new(
        condition: Expression,
        then_expression: Expression,
        else_expression: Option<Expression>,
    ) -> (f: IfExpr)
        ensures
            *f.condition == condition,
            *f.then_expression == then_expression,
            (match (f.else_expression, else_expression) {
                (Some(b), Some(e)) => *b == e,
                (None, None) => true,
                _ => false,
            }),
    {
        let boxed_else = match else_expression {
            Some(e) => Some(Box::new(e)),
            None => None,
        };
        IfExpr {
            condition: Box::new(condition),
            then_expression: Box::new(then_expression),
            else_expression: boxed_else,
        }
    }

    /// Parses `'if' expression expression ('else' expression)?` from the
    /// stack top; the outcome and the remaining stack are exactly those of
    /// `sp_parse_if_expr`.
    pub fn parse(tokens: &mut Vec<Token>) -> (result: Result<IfExpr, ParseError>)
        ensures
            sp_parse_if_expr(toks_v(old(tokens)@)) == (
                if_expr_res_v(result),
                toks_v(final(tokens)@),
            ),
            final(tokens)@.len() <= old(tokens)@.len(),
            result is Ok ==> final(tokens)@.len() < old(tokens)@.len(),
        decreases tokens@.len(), 2int,
    {
        let ghost t0 = toks_v(tokens@);
        if tokens.len() == 0 {
            return Err(ParseError::new("Expected 'if'", 0, 0));
        }
        if !token_is_sym(&tokens[tokens.len() - 1], "if") {
            let line = tokens[tokens.len() - 1].line;
            let column = tokens[tokens.len() - 1].column;
            return Err(ParseError::new("Expected 'if'", line, column));
        }
        tokens.pop();
        proof {
            assert(toks_v(tokens@) =~= t0.drop_last());
        }
        let condition = match Expression::parse(tokens) {
            Ok(e) => e,
            Err(e) => {
                return Err(e);
            },
        };
        let then_expression = match Expression::parse(tokens) {
            Ok(e) => e,
            Err(e) => {
                return Err(e);
            },
        };
        let has_else = tokens.len() > 0 && token_is_sym(&tokens[tokens.len() - 1], "else");
        let else_expression = if has_else {
            let ghost rem2 = toks_v(tokens@);
            tokens.pop();
            proof {
                assert(toks_v(tokens@) =~= rem2.drop_last());
            }
            match Expression::parse(tokens) {
                Ok(e) => Some(e),
                Err(e) => {
                    return Err(e);
                },
            }
        } else {
            None
        };
        Ok(IfExpr::new(condition, then_expression, else_expression))
    }
}

} // verus!
