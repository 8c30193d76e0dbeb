//! The helpers that ask whether a reference is bound at all, the logic
//! helpers, and the registry with every helper in it.

use crate::binder::{bound_keywords, bound_required, keyword_value};
use crate::fault::{ErrorView, HelperError};
use crate::ops::{result_view, HelperOp};
use crate::registry::{
    add_helpers, call_op, with_helpers, Entry, HelperCall, HelperCallView, Registry,
};
use crate::sprig::{
    add_date_helpers, add_math_helpers, add_str_helpers, date_family, math_family, str_family,
};
use crate::value::{is_truthy, Value, ValueView};
use vstd::prelude::*;

verus! {

/// The error of a call that does not give exactly one positional argument.
pub open spec fn one_argument_error(call: HelperCallView) -> Result<ValueView, ErrorView> {
    Err(ErrorView::Arity { helper: call.name, required: 1 })
}

/// What `isdef` gives: whether its one argument is bound to a value.
pub open spec fn defined_outcome(call: HelperCallView) -> Result<ValueView, ErrorView> {
    if call.params.len() != 1 {
        one_argument_error(call)
    } else {
        Ok(ValueView::Bool(call.params[0] is Some))
    }
}

/// What `isundef` gives: whether its one argument has no binding.
pub open spec fn undefined_outcome(call: HelperCallView) -> Result<ValueView, ErrorView> {
    if call.params.len() != 1 {
        one_argument_error(call)
    } else {
        Ok(ValueView::Bool(call.params[0] is None))
    }
}

/// The flag that the option `includeZeros` of a call carries: its value when
/// it is given as a boolean, and false otherwise.
pub open spec fn include_zeros(call: HelperCallView) -> bool {
    match keyword_value(call.hash, "includeZeros"@) {
        Some(ValueView::Bool(flag)) => flag,
        _ => false,
    }
}

/// What `isdef_pass` gives: false for an argument without a binding, and the
/// truth of the value otherwise. The option `includeZeros` makes zero count
/// as true.
pub open spec fn defined_truthy_outcome(call: HelperCallView) -> Result<ValueView, ErrorView> {
    if call.params.len() != 1 {
        one_argument_error(call)
    } else {
        Ok(
            ValueView::Bool(
                match call.params[0] {
                    None => false,
                    Some(v) => is_truthy(v, include_zeros(call)),
                },
            ),
        )
    }
}

/// The helper `isdef`.
#[derive(Clone, Copy, Debug)]
pub struct IsDefined;

/// The helper `isundef`.
#[derive(Clone, Copy, Debug)]
pub struct IsUndefined;

/// The helper `isdef_pass`.
#[derive(Clone, Copy, Debug)]
pub struct IsDefinedPass;

impl IsDefined {
    /// Answers whether the one argument of the call is bound to a value. A
    /// binding to `Null` or `false` is a binding.
    pub fn call_inner(&self, h: &HelperCall) -> (r: Result<Value, HelperError>)
        ensures
            result_view(r) == defined_outcome(h@),
    {
        proof {
            reveal_with_fuel(bound_required, 2);
        }
        call_op(HelperOp::IsDefined, h)
    }
}

impl IsUndefined {
    /// Answers whether the one argument of the call has no binding.
    pub fn call_inner(&self, h: &HelperCall) -> (r: Result<Value, HelperError>)
        ensures
            result_view(r) == undefined_outcome(h@),
    {
        proof {
            reveal_with_fuel(bound_required, 2);
        }
        call_op(HelperOp::IsUndefined, h)
    }
}

impl IsDefinedPass {
    /// Answers false for an argument without a binding, and otherwise with
    /// the truth of its value.
    pub fn call_inner(&self, h: &HelperCall) -> (r: Result<Value, HelperError>)
        ensures
            result_view(r) == defined_truthy_outcome(h@),
    {
        proof {
            reveal_with_fuel(bound_required, 2);
            reveal_with_fuel(bound_keywords, 2);
        }
        call_op(HelperOp::IsDefinedPass, h)
    }
}

/// The logic helpers and those that ask for a binding.
pub open spec fn logic_family() -> Seq<HelperOp> {
    seq![
        HelperOp::Or,
        HelperOp::And,
        HelperOp::Not,
        HelperOp::Xor,
        HelperOp::IsDefined,
        HelperOp::IsDefinedPass,
        HelperOp::IsUndefined,
    ]
}

/// Registers the logic helpers `or`, `and`, `not` and `xor`, and `isdef`,
/// `isdef_pass` and `isundef`.
pub fn add_logic_helpers(x: &mut Registry)
    ensures
        final(x)@ == with_helpers(old(x)@, logic_family()),
{
    let ops = vec![
        HelperOp::Or,
        HelperOp::And,
        HelperOp::Not,
        HelperOp::Xor,
        HelperOp::IsDefined,
        HelperOp::IsDefinedPass,
        HelperOp::IsUndefined,
    ];
    assert(ops@ =~= logic_family());
    add_helpers(x, &ops);
}

/// What the registry with every helper holds.
pub open spec fn all_helpers() -> Map<Seq<char>, Entry> {
    with_helpers(
        with_helpers(
            with_helpers(with_helpers(Map::empty(), math_family()), str_family()),
            date_family(),
        ),
        logic_family(),
    )
}

/// Builds the registry with every helper: the math, string and date
/// helpers, then the logic helpers.
pub fn build_registry() -> (r: Registry)
    ensures
        r@ == all_helpers(),
{
    let mut registry = Registry::new();
    add_math_helpers(&mut registry);
    add_str_helpers(&mut registry);
    add_date_helpers(&mut registry);
    add_logic_helpers(&mut registry);
    registry
}

} // verus!
