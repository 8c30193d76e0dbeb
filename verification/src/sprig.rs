//! The math, string and date helpers as families that are registered
//! together.

use crate::ops::HelperOp;
use crate::registry::{add_helpers, with_helpers, Registry};
use vstd::prelude::*;

verus! {

/// The math helpers.
pub open spec fn math_family() -> Seq<HelperOp> {
    seq![
        HelperOp::Add,
        HelperOp::Sub,
        HelperOp::Mul,
        HelperOp::Div,
        HelperOp::Mod,
        HelperOp::Max,
        HelperOp::Min,
        HelperOp::RandInt,
    ]
}

/// The string helpers.
pub open spec fn str_family() -> Seq<HelperOp> {
    seq![
        HelperOp::Upper,
        HelperOp::Lower,
        HelperOp::Trunc,
        HelperOp::Abbrev,
        HelperOp::Plural,
        HelperOp::Trim,
        HelperOp::Join,
        HelperOp::Split,
        HelperOp::Splitn,
        HelperOp::SortAlpha,
        HelperOp::TrimSuffix,
        HelperOp::TrimPrefix,
        HelperOp::TrimAll,
    ]
}

/// The date helpers.
pub open spec fn date_family() -> Seq<HelperOp> {
    seq![HelperOp::DateFormat, HelperOp::Now]
}

/// Registers the math helpers: `add`, `sub`, `mul`, `div`, `mod`, `max`,
/// `min` and `rand_int`.
pub fn add_math_helpers(x: &mut Registry)
    ensures
        final(x)@ == with_helpers(old(x)@, math_family()),
{
    let ops = vec![
        HelperOp::Add,
        HelperOp::Sub,
        HelperOp::Mul,
        HelperOp::Div,
        HelperOp::Mod,
        HelperOp::Max,
        HelperOp::Min,
        HelperOp::RandInt,
    ];
    assert(ops@ =~= math_family());
    add_helpers(x, &ops);
}

/// Registers the string helpers: `upper`, `lower`, `trunc`, `abbrev`,
/// `plural`, `trim`, `join`, `split`, `splitn`, `sort_alpha`, `trim_suffix`,
/// `trim_prefix` and `trim_all`.
pub fn add_str_helpers(x: &mut Registry)
    ensures
        final(x)@ == with_helpers(old(x)@, str_family()),
{
    let ops = vec![
        HelperOp::Upper,
        HelperOp::Lower,
        HelperOp::Trunc,
        HelperOp::Abbrev,
        HelperOp::Plural,
        HelperOp::Trim,
        HelperOp::Join,
        HelperOp::Split,
        HelperOp::Splitn,
        HelperOp::SortAlpha,
        HelperOp::TrimSuffix,
        HelperOp::TrimPrefix,
        HelperOp::TrimAll,
    ];
    assert(ops@ =~= str_family());
    add_helpers(x, &ops);
}

/// Registers the date helpers: `date_format` and `now`.
pub fn add_date_helpers(x: &mut Registry)
    ensures
        final(x)@ == with_helpers(old(x)@, date_family()),
{
    let ops = vec![HelperOp::DateFormat, HelperOp::Now];
    assert(ops@ =~= date_family());
    add_helpers(x, &ops);
}

} // verus!
