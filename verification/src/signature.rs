//! The parameters that each operation is declared with when it is registered
//! as it stands: the names of its operands and options, and its own name.

use crate::binder::{HelperSpec, HelperSpecView, Keyword, KeywordView, Param, ParamView};
use crate::ops::{accepts, keyword_types, operand_types, operands, options, HelperOp};
use crate::value::{Value, ValueView};
use vstd::prelude::*;

verus! {

/// The name under which an operation is registered as a helper.
pub open spec fn op_name(op: HelperOp) -> Seq<char> {
    match op {
        HelperOp::And => "and"@,
        HelperOp::Or => "or"@,
        HelperOp::Not => "not"@,
        HelperOp::Xor => "xor"@,
        HelperOp::IsDefined => "isdef"@,
        HelperOp::IsUndefined => "isundef"@,
        HelperOp::IsDefinedPass => "isdef_pass"@,
        HelperOp::Add => "add"@,
        HelperOp::Sub => "sub"@,
        HelperOp::Mul => "mul"@,
        HelperOp::Div => "div"@,
        HelperOp::Mod => "mod"@,
        HelperOp::Max => "max"@,
        HelperOp::Min => "min"@,
        HelperOp::RandInt => "rand_int"@,
        HelperOp::Upper => "upper"@,
        HelperOp::Lower => "lower"@,
        HelperOp::Trunc => "trunc"@,
        HelperOp::Abbrev => "abbrev"@,
        HelperOp::Trim => "trim"@,
        HelperOp::Plural => "plural"@,
        HelperOp::Join => "join"@,
        HelperOp::Split => "split"@,
        HelperOp::Splitn => "splitn"@,
        HelperOp::SortAlpha => "sort_alpha"@,
        HelperOp::TrimSuffix => "trim_suffix"@,
        HelperOp::TrimPrefix => "trim_prefix"@,
        HelperOp::TrimAll => "trim_all"@,
        HelperOp::DateFormat => "date_format"@,
        HelperOp::Now => "now"@,
    }
}

/// Gives the name under which an operation is registered as a helper.
pub fn name_of(op: HelperOp) -> (r: &'static str)
    ensures
        r@ == op_name(op),
{
    match op {
        HelperOp::And => "and",
        HelperOp::Or => "or",
        HelperOp::Not => "not",
        HelperOp::Xor => "xor",
        HelperOp::IsDefined => "isdef",
        HelperOp::IsUndefined => "isundef",
        HelperOp::IsDefinedPass => "isdef_pass",
        HelperOp::Add => "add",
        HelperOp::Sub => "sub",
        HelperOp::Mul => "mul",
        HelperOp::Div => "div",
        HelperOp::Mod => "mod",
        HelperOp::Max => "max",
        HelperOp::Min => "min",
        HelperOp::RandInt => "rand_int",
        HelperOp::Upper => "upper",
        HelperOp::Lower => "lower",
        HelperOp::Trunc => "trunc",
        HelperOp::Abbrev => "abbrev",
        HelperOp::Trim => "trim",
        HelperOp::Plural => "plural",
        HelperOp::Join => "join",
        HelperOp::Split => "split",
        HelperOp::Splitn => "splitn",
        HelperOp::SortAlpha => "sort_alpha",
        HelperOp::TrimSuffix => "trim_suffix",
        HelperOp::TrimPrefix => "trim_prefix",
        HelperOp::TrimAll => "trim_all",
        HelperOp::DateFormat => "date_format",
        HelperOp::Now => "now",
    }
}

/// The names of the operands of an operation, in order.
pub open spec fn operand_names(op: HelperOp) -> Seq<Seq<char>> {
    match op {
        HelperOp::And
        | HelperOp::Or
        | HelperOp::Xor
        | HelperOp::Add
        | HelperOp::Sub
        | HelperOp::Mul
        | HelperOp::Div
        | HelperOp::Mod
        | HelperOp::Max
        | HelperOp::Min => seq!["a"@, "b"@],
        HelperOp::Not
        | HelperOp::IsDefined
        | HelperOp::IsUndefined
        | HelperOp::IsDefinedPass => seq!["a"@],
        HelperOp::RandInt => Seq::empty(),
        HelperOp::Upper | HelperOp::Lower | HelperOp::Trim => seq!["s"@],
        HelperOp::Trunc | HelperOp::Abbrev => seq!["l"@, "s"@],
        HelperOp::Plural => seq!["count"@, "sing"@, "plur"@],
        HelperOp::Join => seq!["delimiter"@, "elements"@],
        HelperOp::Split => seq!["delimiter"@, "input"@],
        HelperOp::Splitn => seq!["delimiter"@, "count"@, "input"@],
        HelperOp::SortAlpha => seq!["input"@],
        HelperOp::TrimSuffix => seq!["suffix"@, "input"@],
        HelperOp::TrimPrefix => seq!["prefix"@, "input"@],
        HelperOp::TrimAll => seq!["substr"@, "input"@],
        HelperOp::DateFormat => seq!["format_string"@, "date"@],
        HelperOp::Now => seq!["format_string"@],
    }
}

/// The names of the keyword options of an operation, in order.
pub open spec fn keyword_names(op: HelperOp) -> Seq<Seq<char>> {
    match op {
        HelperOp::Or => seq!["include_zero"@],
        HelperOp::IsDefinedPass => seq!["includeZeros"@],
        _ => Seq::empty(),
    }
}

/// The views of a list of string literals.
pub open spec fn literal_views(names: Seq<&'static str>) -> Seq<Seq<char>> {
    Seq::new(names.len(), |i: int| names[i]@)
}

/// Gives the names of the operands of an operation.
pub fn names_of(op: HelperOp) -> (r: Vec<&'static str>)
    ensures
        literal_views(r@) == operand_names(op),
{
    let r = match op {
        HelperOp::And
        | HelperOp::Or
        | HelperOp::Xor
        | HelperOp::Add
        | HelperOp::Sub
        | HelperOp::Mul
        | HelperOp::Div
        | HelperOp::Mod
        | HelperOp::Max
        | HelperOp::Min => vec!["a", "b"],
        HelperOp::Not
        | HelperOp::IsDefined
        | HelperOp::IsUndefined
        | HelperOp::IsDefinedPass => vec!["a"],
        HelperOp::RandInt => Vec::new(),
        HelperOp::Upper | HelperOp::Lower | HelperOp::Trim => vec!["s"],
        HelperOp::Trunc | HelperOp::Abbrev => vec!["l", "s"],
        HelperOp::Plural => vec!["count", "sing", "plur"],
        HelperOp::Join => vec!["delimiter", "elements"],
        HelperOp::Split => vec!["delimiter", "input"],
        HelperOp::Splitn => vec!["delimiter", "count", "input"],
        HelperOp::SortAlpha => vec!["input"],
        HelperOp::TrimSuffix => vec!["suffix", "input"],
        HelperOp::TrimPrefix => vec!["prefix", "input"],
        HelperOp::TrimAll => vec!["substr", "input"],
        HelperOp::DateFormat => vec!["format_string", "date"],
        HelperOp::Now => vec!["format_string"],
    };
    assert(literal_views(r@) =~= operand_names(op));
    r
}

/// Gives the names of the keyword options of an operation.
pub fn option_names_of(op: HelperOp) -> (r: Vec<&'static str>)
    ensures
        literal_views(r@) == keyword_names(op),
{
    let r = match op {
        HelperOp::Or => vec!["include_zero"],
        HelperOp::IsDefinedPass => vec!["includeZeros"],
        _ => Vec::new(),
    };
    assert(literal_views(r@) =~= keyword_names(op));
    r
}

/// The parameters that an operation is declared with under a helper name:
/// its operands as required parameters, its options as keyword parameters
/// that default to false, and no further positional arguments.
pub open spec fn signature_of(op: HelperOp, name: Seq<char>) -> HelperSpecView {
    HelperSpecView {
        name,
        required: Seq::new(
            operand_types(op).len(),
            |i: int| ParamView { name: operand_names(op)[i], ty: operand_types(op)[i] },
        ),
        keywords: Seq::new(
            keyword_types(op).len(),
            |i: int|
                KeywordView {
                    name: keyword_names(op)[i],
                    ty: keyword_types(op)[i],
                    default: ValueView::Bool(false),
                },
        ),
        variadic: false,
    }
}

/// Every operation has a name for each of its operands and options.
pub proof fn names_match_types(op: HelperOp)
    ensures
        operand_names(op).len() == operand_types(op).len(),
        keyword_names(op).len() == keyword_types(op).len(),
{
}

/// The parameters that an operation is declared with are parameters that it
/// accepts.
pub proof fn signature_is_accepted(op: HelperOp, name: Seq<char>)
    ensures
        accepts(op, signature_of(op, name)),
{
}

/// Builds the parameters that an operation is declared with under `name`.
pub fn signature(op: HelperOp, name: &str) -> (r: HelperSpec)
    ensures
        r@ == signature_of(op, name@),
{
    let types = operands(op);
    let names = names_of(op);
    proof {
        names_match_types(op);
    }
    let mut required: Vec<Param> = Vec::new();
    let mut i: usize = 0;
    while i < types.len()
        invariant
            i <= types@.len(),
            types@ == operand_types(op),
            literal_views(names@) == operand_names(op),
            names@.len() == types@.len(),
            required@.len() == i,
            forall|k: int|
                0 <= k < i ==> required@[k]@ == (ParamView {
                    name: operand_names(op)[k],
                    ty: operand_types(op)[k],
                }),
        decreases types.len() - i,
    {
        assert(literal_views(names@)[i as int] == names@[i as int]@);
        required.push(Param { name: String::from_str(names[i]), ty: types[i] });
        i += 1;
    }
    let option_types = options(op);
    let option_names = option_names_of(op);
    let mut keywords: Vec<Keyword> = Vec::new();
    let mut j: usize = 0;
    while j < option_types.len()
        invariant
            j <= option_types@.len(),
            option_types@ == keyword_types(op),
            literal_views(option_names@) == keyword_names(op),
            option_names@.len() == option_types@.len(),
            keywords@.len() == j,
            forall|k: int|
                0 <= k < j ==> keywords@[k]@ == (KeywordView {
                    name: keyword_names(op)[k],
                    ty: keyword_types(op)[k],
                    default: ValueView::Bool(false),
                }),
        decreases option_types.len() - j,
    {
        assert(literal_views(option_names@)[j as int] == option_names@[j as int]@);
        keywords.push(
            Keyword {
                name: String::from_str(option_names[j]),
                ty: option_types[j],
                default: Value::Bool(false),
            },
        );
        j += 1;
    }
    let r = HelperSpec { name: String::from_str(name), required, keywords, variadic: false };
    proof {
        assert(r@.required =~= signature_of(op, name@).required);
        assert(r@.keywords =~= signature_of(op, name@).keywords);
    }
    r
}

} // verus!
