//! The root rule: one or more top-level expressions.

use vstd::prelude::*;
use crate::lexer::Token;
use crate::lexer::toks_v;
use crate::parse::Expression;
use crate::parse::ParseErrV;
use crate::parse::ParseError;
use crate::parse::grammar::ExprV;
use crate::parse::grammar::expr_v;
use crate::parse::grammar::exprs_v;
use crate::parse::grammar::lemma_exprs_v_push;
use crate::parse::grammar::module_res_v;
use crate::parse::grammar::sp_module_items;
use crate::parse::grammar::sp_parse_module;

verus! {

/// A whole parsed unit of source: its top-level expressions in order.
#[derive(Debug, PartialEq)]
pub struct Module {
    pub expressions: Vec<Expression>,
}

impl Module {
    pub fn new(expressions: Vec<Expression>) -> (m: Module)
        ensures
            m.expressions == expressions,
    {
        Module { expressions }
    }

    /// Parses top-level expressions until the stack is exhausted; a unit
    /// that yields no expression at all is an error.  The outcome is
    /// exactly that of `sp_parse_module`.
    pub fn parse(tokens: &mut Vec<Token>) -> (result: Result<Module, ParseError>)
        ensures
            sp_parse_module(toks_v(old(tokens)@)) == (module_res_v(result), toks_v(final(tokens)@)),
        decreases tokens@.len(), 5int,
    {
        let ghost t0 = toks_v(tokens@);
        let mut expressions: Vec<Expression> = Vec::new();
        proof {
            match sp_module_items(t0) {
                (Ok(es), rem) => {
                    assert(exprs_v(expressions@) + es =~= es);
                },
                (Err(e), rem) => {},
            }
        }
        loop
            invariant_except_break
                t0 == toks_v(old(tokens)@),
                tokens@.len() <= t0.len(),
                match sp_module_items(toks_v(tokens@)) {
                    (Ok(es), rem) => sp_module_items(t0) == (
                        Ok::<Seq<ExprV>, ParseErrV>(exprs_v(expressions@) + es),
                        rem,
                    ),
                    (Err(e), rem) => sp_module_items(t0) == (Err::<Seq<ExprV>, ParseErrV>(e), rem),
                },
            ensures
                sp_module_items(t0) == (
                    Ok::<Seq<ExprV>, ParseErrV>(exprs_v(expressions@)),
                    toks_v(tokens@),
                ),
            decreases tokens@.len(),
        {
            if tokens.len() == 0 {
                proof {
                    assert(exprs_v(expressions@) + Seq::<ExprV>::empty() =~= exprs_v(
                        expressions@,
                    ));
                }
                break;
            }
            let e = match Expression::parse(tokens) {
                Ok(e) => e,
                Err(err) => {
                    return Err(err);
                },
            };
            let ghost before = expressions@;
            expressions.push(e);
            proof {
                lemma_exprs_v_push(before, e);
                match sp_module_items(toks_v(tokens@)) {
                    (Ok(es), rem) => {
                        assert(exprs_v(before) + (seq![expr_v(e)] + es) =~= exprs_v(expressions@)
                            + es);
                    },
                    (Err(err2), rem) => {},
                }
            }
        }
        if expressions.len() == 0 {
            return Err(ParseError::new("Expected expression", 0, 0));
        }
        Ok(Module::new(expressions))
    }
}

} // verus!
