//! The lambda rule: `'(' identifier* ')' '=>' expression`.

use vstd::prelude::*;
use crate::lexer::Token;
use crate::lexer::TokenKind;
use crate::lexer::toks_v;
use crate::parse::Expression;
use crate::parse::ParseErrV;
use crate::parse::ParseError;
use crate::parse::grammar::lambda_res_v;
use crate::parse::grammar::sp_lambda_args;
use crate::parse::grammar::sp_parse_lambda;
use crate::parse::grammar::strs_v;
use crate::parse::token_is_op;

verus! {

/// An anonymous function: parameter names in declaration order and a body.
#[derive(Debug, PartialEq)]
pub struct Lambda {
    pub args: Vec<String>,
    pub expression: Box<Expression>,
}

impl Lambda {
    pub fn new(args: Vec<String>, expression: Box<Expression>) -> (l: Lambda)
        ensures
            l.args == args,
            l.expression == expression,
    {
        Lambda { args, expression }
    }

    /// Parses `'(' identifier* ')' '=>' expression` from the stack top;
    /// the outcome and the remaining stack are exactly those of
    /// `sp_parse_lambda`.
    pub fn parse(tokens: &mut Vec<Token>) -> (result: Result<Lambda, ParseError>)
        ensures
            sp_parse_lambda(toks_v(old(tokens)@)) == (lambda_res_v(result), toks_v(final(tokens)@)),
            final(tokens)@.len() <= old(tokens)@.len(),
            result is Ok ==> final(tokens)@.len() < old(tokens)@.len(),
        decreases tokens@.len(), 2int,
    {
        let ghost t0 = toks_v(tokens@);
        if tokens.len() == 0 {
            return Err(ParseError::new("Expected token but found none", 0, 0));
        }
        let p = tokens.pop().unwrap();
        proof {
            assert(toks_v(tokens@) =~= t0.drop_last());
        }
        if !token_is_op(&p, "(") {
            return Err(ParseError::new("Expected '('", p.line, p.column));
        }
        let ghost t1 = toks_v(tokens@);
        let mut args: Vec<String> = Vec::new();
        proof {
            match sp_lambda_args(t1) {
                (Ok(vs), rem) => {
                    assert(strs_v(args@) + vs =~= vs);
                },
                (Err(e), rem) => {},
            }
        }
        loop
            invariant_except_break
                t0 == toks_v(old(tokens)@),
                t0.len() > 0,
                crate::parse::grammar::is_op(t0.last(), "("@),
                t1 == t0.drop_last(),
                tokens@.len() <= t1.len(),
                match sp_lambda_args(toks_v(tokens@)) {
                    (Ok(vs), rem) => sp_lambda_args(t1) == (
                        Ok::<Seq<Seq<char>>, ParseErrV>(strs_v(args@) + vs),
                        rem,
                    ),
                    (Err(e), rem) => sp_lambda_args(t1) == (
                        Err::<Seq<Seq<char>>, ParseErrV>(e),
                        rem,
                    ),
                },
            ensures
                tokens@.len() <= t1.len(),
                sp_lambda_args(t1) == (
                    Ok::<Seq<Seq<char>>, ParseErrV>(strs_v(args@)),
                    toks_v(tokens@),
                ),
            decreases tokens@.len(),
        {
            if tokens.len() == 0 {
                return Err(ParseError::new("Expected ')'", 0, 0));
            }
            let ghost cur = toks_v(tokens@);
            if token_is_op(&tokens[tokens.len() - 1], ")") {
                tokens.pop();
                proof {
                    assert(toks_v(tokens@) =~= cur.drop_last());
                    assert(strs_v(args@) + Seq::<Seq<char>>::empty() =~= strs_v(args@));
                }
                break;
            }
            let k = tokens.pop().unwrap();
            proof {
                assert(toks_v(tokens@) =~= cur.drop_last());
            }
            if k.kind != TokenKind::Symbol {
                return Err(ParseError::new("Expected identifier", k.line, k.column));
            }
            let ghost before = args@;
            args.push(k.value);
            proof {
                assert(strs_v(args@) =~= strs_v(before).push(k.value@));
                match sp_lambda_args(toks_v(tokens@)) {
                    (Ok(vs), rem) => {
                        assert(strs_v(before) + (seq![k.value@] + vs) =~= strs_v(args@) + vs);
                    },
                    (Err(e), rem) => {},
                }
            }
        }
        if tokens.len() == 0 {
            return Err(ParseError::new("Expected '=>'", 0, 0));
        }
        let ghost rem0 = toks_v(tokens@);
        let a = tokens.pop().unwrap();
        proof {
            assert(toks_v(tokens@) =~= rem0.drop_last());
        }
        if !token_is_op(&a, "=>") {
            return Err(ParseError::new("Expected '=>'", a.line, a.column));
        }
        let expression = match Expression::parse(tokens) {
            Ok(e) => e,
            Err(e) => {
                return Err(e);
            },
        };
        Ok(Lambda::new(args, Box::new(expression)))
    }
}

} // verus!
