//! The call rule: `identifier '(' (expression (',' expression)*)? ')'`.

use vstd::prelude::*;
use crate::lexer::Token;
use crate::lexer::TokenKind;
use crate::lexer::toks_v;
use crate::parse::Expression;
use crate::parse::ParseErrV;
use crate::parse::ParseError;
use crate::parse::grammar::ExprV;
use crate::parse::grammar::FunctionCallV;
use crate::parse::grammar::call_res_v;
use crate::parse::grammar::expr_v;
use crate::parse::grammar::exprs_v;
use crate::parse::grammar::lemma_exprs_v_push;
use crate::parse::grammar::sp_call_args;
use crate::parse::grammar::sp_parse_function_call;
use crate::parse::token_is_op;

verus! {

/// A call of a named function with its argument expressions in order.
#[derive(Debug, PartialEq)]
pub struct FunctionCall {
    pub name: String,
    pub args: Vec<Expression>,
}

impl FunctionCall {
    pub fn new(name: String, args: Vec<Expression>) -> (c: FunctionCall)
        ensures
            c.name == name,
            c.args == args,
    {
        FunctionCall { name, args }
    }

    /// Parses `identifier '(' (expression (',' expression)*)? ')'` from the
    /// stack top; the outcome and the remaining stack are exactly those of
    /// `sp_parse_function_call`.
    pub fn parse(tokens: &mut Vec<Token>) -> (result: Result<FunctionCall, ParseError>)
        ensures
            sp_parse_function_call(toks_v(old(tokens)@)) == (
                call_res_v(result),
                toks_v(final(tokens)@),
            ),
            final(tokens)@.len() <= old(tokens)@.len(),
            result is Ok ==> final(tokens)@.len() < old(tokens)@.len(),
        decreases tokens@.len(), 2int,
    {
        let ghost t0 = toks_v(tokens@);
        if tokens.len() == 0 {
            return Err(ParseError::new("Expected identifier", 0, 0));
        }
        let nm = tokens.pop().unwrap();
        proof {
            assert(toks_v(tokens@) =~= t0.drop_last());
        }
        if nm.kind != TokenKind::Symbol {
            return Err(ParseError::new("Expected identifier", nm.line, nm.column));
        }
        if tokens.len() == 0 {
            return Err(ParseError::new("Expected '('", 0, 0));
        }
        let ghost t1v = toks_v(tokens@);
        let p = tokens.pop().unwrap();
        proof {
            assert(toks_v(tokens@) =~= t1v.drop_last());
        }
        if !token_is_op(&p, "(") {
            return Err(ParseError::new("Expected '('", p.line, p.column));
        }
        if tokens.len() == 0 {
            return Err(ParseError::new("Expected ')'", 0, 0));
        }
        let ghost t2v = toks_v(tokens@);
        if token_is_op(&tokens[tokens.len() - 1], ")") {
            tokens.pop();
            proof {
                assert(toks_v(tokens@) =~= t2v.drop_last());
                assert(exprs_v(Seq::<Expression>::empty()) =~= Seq::<ExprV>::empty());
            }
            return Ok(FunctionCall::new(nm.value, Vec::new()));
        }
        if token_is_op(&tokens[tokens.len() - 1], ",") {
            let line = tokens[tokens.len() - 1].line;
            let column = tokens[tokens.len() - 1].column;
            return Err(ParseError::new("Expected expression", line, column));
        }
        let first = match Expression::parse(tokens) {
            Ok(e) => e,
            Err(e) => {
                return Err(e);
            },
        };
        let mut args: Vec<Expression> = Vec::new();
        args.push(first);
        proof {
            crate::parse::grammar::lemma_exprs_v(args@);
            assert(exprs_v(args@) =~= seq![expr_v(first)]);
            match sp_call_args(toks_v(tokens@)) {
                (Ok(more), rem) => {
                    assert(seq![expr_v(first)] + more =~= exprs_v(args@) + more);
                },
                (Err(e), rem) => {},
            }
        }
        loop
            invariant_except_break
                t0 == toks_v(old(tokens)@),
                tokens@.len() < t0.len(),
                match sp_call_args(toks_v(tokens@)) {
                    (Ok(more), rem) => sp_parse_function_call(t0) == (
                        Ok::<FunctionCallV, ParseErrV>(FunctionCallV {
                            name: nm.value@,
                            args: exprs_v(args@) + more,
                        }),
                        rem,
                    ),
                    (Err(e), rem) => sp_parse_function_call(t0) == (
                        Err::<FunctionCallV, ParseErrV>(e),
                        rem,
                    ),
                },
            ensures
                tokens@.len() < t0.len(),
                sp_parse_function_call(t0) == (
                    Ok::<FunctionCallV, ParseErrV>(FunctionCallV {
                        name: nm.value@,
                        args: exprs_v(args@),
                    }),
                    toks_v(tokens@),
                ),
            decreases tokens@.len(),
        {
            if tokens.len() == 0 {
                return Err(ParseError::new("Expected ')'", 0, 0));
            }
            let ghost cur = toks_v(tokens@);
            if token_is_op(&tokens[tokens.len() - 1], ")") {
                tokens.pop();
                proof {
                    assert(toks_v(tokens@) =~= cur.drop_last());
                    assert(exprs_v(args@) + Seq::<ExprV>::empty() =~= exprs_v(args@));
                }
                break;
            }
            let k = tokens.pop().unwrap();
            proof {
                assert(toks_v(tokens@) =~= cur.drop_last());
            }
            if !token_is_op(&k, ",") {
                return Err(ParseError::new("Expected ','", k.line, k.column));
            }
            let a = match Expression::parse(tokens) {
                Ok(e) => e,
                Err(e) => {
                    return Err(e);
                },
            };
            let ghost before = args@;
            args.push(a);
            proof {
                lemma_exprs_v_push(before, a);
                match sp_call_args(toks_v(tokens@)) {
                    (Ok(more), rem) => {
                        assert(exprs_v(before) + (seq![expr_v(a)] + more) =~= exprs_v(args@)
                            + more);
                    },
                    (Err(e), rem) => {},
                }
            }
        }
        Ok(FunctionCall::new(nm.value, args))
    }
}

} // verus!
