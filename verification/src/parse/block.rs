//! The block rule: `'{' expression* '}'`.

use vstd::prelude::*;
use crate::lexer::Token;
use crate::lexer::toks_v;
use crate::parse::Expression;
use crate::parse::ParseError;
use crate::parse::ParseErrV;
use crate::parse::grammar::ExprV;
use crate::parse::grammar::block_res_v;
use crate::parse::grammar::expr_v;
use crate::parse::grammar::exprs_v;
use crate::parse::grammar::lemma_exprs_v_push;
use crate::parse::grammar::sp_block_items;
use crate::parse::grammar::sp_parse_block;
use crate::parse::token_is_op;

verus! {

/// A braced sequence of zero or more expressions.
#[derive(Debug, PartialEq)]
pub struct Block {
    pub expressions: Vec<Expression>,
}

impl Block {
    pub fn new(expressions: Vec<Expression>) -> (b: Block)
        ensures
            b.expressions == expressions,
    {
        Block { expressions }
    }

    /// Parses `'{' expression* '}'` from the stack top; the outcome and
    /// the remaining stack are exactly those of `sp_parse_block`.
    pub fn parse(tokens: &mut Vec<Token>) -> (result: Result<Block, ParseError>)
        ensures
            sp_parse_block(toks_v(old(tokens)@)) == (block_res_v(result), toks_v(final(tokens)@)),
            final(tokens)@.len() <= old(tokens)@.len(),
            result is Ok ==> final(tokens)@.len() < old(tokens)@.len(),
        decreases tokens@.len(), 2int,
    {
        let ghost t0 = toks_v(tokens@);
        if tokens.len() == 0 {
            return Err(ParseError::new("Expected '{'", 0, 0));
        }
        if !token_is_op(&tokens[tokens.len() - 1], "{") {
            let line = tokens[tokens.len() - 1].line;
            let column = tokens[tokens.len() - 1].column;
            return Err(ParseError::new("Expected '{'", line, column));
        }
        tokens.pop();
        proof {
            assert(toks_v(tokens@) =~= t0.drop_last());
        }
        let ghost t1 = toks_v(tokens@);
        let mut expressions: Vec<Expression> = Vec::new();
        proof {
            match sp_block_items(t1) {
                (Ok(es), rem) => {
                    assert(exprs_v(expressions@) + es =~= es);
                },
                (Err(e), rem) => {},
            }
        }
        loop
            invariant_except_break
                t0 == toks_v(old(tokens)@),
                t0.len() > 0,
                crate::parse::grammar::is_op(t0.last(), "{"@),
                t1 == t0.drop_last(),
                tokens@.len() <= t1.len(),
                match sp_block_items(toks_v(tokens@)) {
                    (Ok(es), rem) => sp_block_items(t1) == (
                        Ok::<Seq<ExprV>, ParseErrV>(exprs_v(expressions@) + es),
                        rem,
                    ),
                    (Err(e), rem) => sp_block_items(t1) == (Err::<Seq<ExprV>, ParseErrV>(e), rem),
                },
            ensures
                tokens@.len() <= t1.len(),
                sp_block_items(t1) == (
                    Ok::<Seq<ExprV>, ParseErrV>(exprs_v(expressions@)),
                    toks_v(tokens@),
                ),
            decreases tokens@.len(),
        {
            if tokens.len() == 0 {
                return Err(ParseError::new("Expected '}'", 0, 0));
            }
            let ghost cur = toks_v(tokens@);
            if token_is_op(&tokens[tokens.len() - 1], "}") {
                tokens.pop();
                proof {
                    assert(toks_v(tokens@) =~= cur.drop_last());
                    assert(exprs_v(expressions@) + Seq::<ExprV>::empty() =~= exprs_v(
                        expressions@,
                    ));
                }
                break;
            }
            let e = match Expression::parse(tokens) {
                Ok(e) => e,
                Err(err) => {
                    return Err(err);
                },
            };
            let ghost ev = expr_v(e);
            let ghost before = expressions@;
            expressions.push(e);
            proof {
                lemma_exprs_v_push(before, e);
                match sp_block_items(toks_v(tokens@)) {
                    (Ok(es), rem) => {
                        assert(exprs_v(before) + (seq![ev] + es) =~= exprs_v(expressions@) + es);
                    },
                    (Err(err2), rem) => {},
                }
            }
        }
        Ok(Block::new(expressions))
    }
}

} // verus!
