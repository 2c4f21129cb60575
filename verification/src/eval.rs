//! Evaluation of the expressions of the command language.

use vstd::prelude::*;

use crate::command::grammar::{EvalExpr, ExprView};
use crate::module::Module;
use crate::name_resolution::{name_address, resolve_name_to_address};
use crate::process::Process;

verus! {

/// What an expression is evaluated against.
pub struct EvalContext<'a> {
    pub process: &'a Process,
}

/// The value of `expr` in a process with these modules. A number is its own
/// value. A sum is the sum of its two sides modulo 2^64, the left side first:
/// where the left side fails, its failure is the result. A symbol is the
/// address that its name resolves to.
pub open spec fn value_of(expr: ExprView, modules: Seq<Module>) -> Result<u64, Seq<char>>
    decreases expr,
{
    match expr {
        ExprView::Number(value) => Ok(value),
        ExprView::Add(left, right) => match value_of(*left, modules) {
            Ok(a) => match value_of(*right, modules) {
                Ok(b) => Ok(a.wrapping_add(b)),
                Err(message) => Err(message),
            },
            Err(message) => Err(message),
        },
        ExprView::Symbol(name) => name_address(modules, name),
    }
}

/// Evaluates `expr`. Sums wrap around at 2^64. A symbol that does not
/// resolve gives the resolver's message.
pub fn evaluate_expression(expr: EvalExpr, context: &EvalContext) -> (value: Result<u64, String>)
    ensures
        match value {
            Ok(number) => value_of(expr@, context.process.modules()) == Ok::<u64, Seq<char>>(number),
            Err(message) => value_of(expr@, context.process.modules()) == Err::<u64, Seq<char>>(
                message@,
            ),
        },
    decreases expr,
{
    match expr {
        EvalExpr::Number(x) => Ok(x),
        EvalExpr::Add(x, _, y) => {
            let left = evaluate_expression(*x, context)?;
            let right = evaluate_expression(*y, context)?;
            Ok(left.wrapping_add(right))
        },
        EvalExpr::Symbol(symbol) => resolve_name_to_address(symbol.as_str(), context.process),
    }
}

} // verus!
