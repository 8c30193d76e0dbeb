//! The helpers as data: each operation with the types of its operands, what
//! it gives for bound arguments, and the code that computes it.

use crate::binder::{
    all_text, answers, has_type, text_items, Bound, BoundArguments, BoundArgumentsView,
    BoundView, HelperSpecView, ParamType,
};
use crate::date::{date_format, now, parsed_timestamp, rendered, text_outcome, Timestamp};
use crate::fault::{ErrorView, Fault, HelperError};
use crate::math::{
    add_int, div_int, divided, max_int, min_int, mod_int, mul_int, outcome, quotient,
    random_number, remainder, sub_int, within_domain,
};
use crate::text::{
    abbrev, abbreviated, join, joined, lowercased, plural, sort_alpha, sorted, split,
    split_pieces, splitn, splitn_pieces, texts, to_lower, to_upper, trim, trim_all, trim_prefix,
    trim_suffix, trimmed, trunc, truncated, uppercased, without_prefix, without_suffix,
};
use crate::value::{
    content_of_containers, is_truthy, truthy, values_view, Number, Value, ValueView,
};
use vstd::prelude::*;

verus! {

/// The operations that a helper name can stand for.
#[derive(Clone, Copy, Debug, PartialEq, Eq, Structural)]
pub enum HelperOp {
    And,
    Or,
    Not,
    Xor,
    IsDefined,
    IsUndefined,
    IsDefinedPass,
    Add,
    Sub,
    Mul,
    Div,
    Mod,
    Max,
    Min,
    RandInt,
    Upper,
    Lower,
    Trunc,
    Abbrev,
    Trim,
    Plural,
    Join,
    Split,
    Splitn,
    SortAlpha,
    TrimSuffix,
    TrimPrefix,
    TrimAll,
    DateFormat,
    Now,
}

/// The types of the operands that an operation works on, in order.
pub open spec fn operand_types(op: HelperOp) -> Seq<ParamType> {
    match op {
        HelperOp::And | HelperOp::Xor => seq![ParamType::Generic, ParamType::Generic],
        HelperOp::Or => seq![ParamType::AcceptsMissing, ParamType::AcceptsMissing],
        HelperOp::Not => seq![ParamType::Generic],
        HelperOp::IsDefined | HelperOp::IsUndefined | HelperOp::IsDefinedPass => seq![
            ParamType::AcceptsMissing,
        ],
        HelperOp::Add
        | HelperOp::Sub
        | HelperOp::Mul
        | HelperOp::Div
        | HelperOp::Mod
        | HelperOp::Max
        | HelperOp::Min => seq![ParamType::Integer, ParamType::Integer],
        HelperOp::RandInt => Seq::empty(),
        HelperOp::Upper | HelperOp::Lower | HelperOp::Trim | HelperOp::Now => seq![
            ParamType::Text,
        ],
        HelperOp::Trunc | HelperOp::Abbrev => seq![ParamType::Count, ParamType::Text],
        HelperOp::Plural => seq![ParamType::Count, ParamType::Text, ParamType::Text],
        HelperOp::Join => seq![ParamType::Text, ParamType::TextList],
        HelperOp::Split
        | HelperOp::TrimSuffix
        | HelperOp::TrimPrefix
        | HelperOp::TrimAll
        | HelperOp::DateFormat => seq![ParamType::Text, ParamType::Text],
        HelperOp::Splitn => seq![ParamType::Text, ParamType::Count, ParamType::Text],
        HelperOp::SortAlpha => seq![ParamType::TextList],
    }
}

/// The types of the keyword options that an operation reads, in order.
pub open spec fn keyword_types(op: HelperOp) -> Seq<ParamType> {
    match op {
        HelperOp::Or => seq![ParamType::Boolean],
        HelperOp::IsDefinedPass => seq![ParamType::Generic],
        _ => Seq::empty(),
    }
}

/// Computes the types of the operands of an operation.
pub fn operands(op: HelperOp) -> (r: Vec<ParamType>)
    ensures
        r@ == operand_types(op),
{
    let r = match op {
        HelperOp::And | HelperOp::Xor => vec![ParamType::Generic, ParamType::Generic],
        HelperOp::Or => vec![ParamType::AcceptsMissing, ParamType::AcceptsMissing],
        HelperOp::Not => vec![ParamType::Generic],
        HelperOp::IsDefined | HelperOp::IsUndefined | HelperOp::IsDefinedPass => vec![
            ParamType::AcceptsMissing,
        ],
        HelperOp::Add
        | HelperOp::Sub
        | HelperOp::Mul
        | HelperOp::Div
        | HelperOp::Mod
        | HelperOp::Max
        | HelperOp::Min => vec![ParamType::Integer, ParamType::Integer],
        HelperOp::RandInt => Vec::new(),
        HelperOp::Upper | HelperOp::Lower | HelperOp::Trim | HelperOp::Now => vec![
            ParamType::Text,
        ],
        HelperOp::Trunc | HelperOp::Abbrev => vec![ParamType::Count, ParamType::Text],
        HelperOp::Plural => vec![ParamType::Count, ParamType::Text, ParamType::Text],
        HelperOp::Join => vec![ParamType::Text, ParamType::TextList],
        HelperOp::Split
        | HelperOp::TrimSuffix
        | HelperOp::TrimPrefix
        | HelperOp::TrimAll
        | HelperOp::DateFormat => vec![ParamType::Text, ParamType::Text],
        HelperOp::Splitn => vec![ParamType::Text, ParamType::Count, ParamType::Text],
        HelperOp::SortAlpha => vec![ParamType::TextList],
    };
    assert(r@ =~= operand_types(op));
    r
}

/// Computes the types of the keyword options of an operation.
pub fn options(op: HelperOp) -> (r: Vec<ParamType>)
    ensures
        r@ == keyword_types(op),
{
    let r = match op {
        HelperOp::Or => vec![ParamType::Boolean],
        HelperOp::IsDefinedPass => vec![ParamType::Generic],
        _ => Vec::new(),
    };
    assert(r@ =~= keyword_types(op));
    r
}

/// Whether declared parameters give an operation what it works on: the
/// required parameters have the types of its operands, and the keyword
/// parameters those of its options. Their names are free.
pub open spec fn accepts(op: HelperOp, spec: HelperSpecView) -> bool {
    &&& spec.required.len() == operand_types(op).len()
    &&& forall|i: int|
        0 <= i < spec.required.len() ==> (#[trigger] spec.required[i]).ty == operand_types(op)[i]
    &&& spec.keywords.len() == keyword_types(op).len()
    &&& forall|i: int|
        0 <= i < spec.keywords.len() ==> (#[trigger] spec.keywords[i]).ty == keyword_types(op)[i]
}

/// Whether bound arguments are what an operation works on.
pub open spec fn shaped(b: BoundArgumentsView, op: HelperOp) -> bool {
    &&& b.required.len() == operand_types(op).len()
    &&& forall|i: int|
        0 <= i < b.required.len() ==> has_type(#[trigger] b.required[i], operand_types(op)[i])
    &&& b.keywords.len() == keyword_types(op).len()
    &&& forall|i: int|
        0 <= i < b.keywords.len() ==> has_type(
            (#[trigger] b.keywords[i]).1,
            keyword_types(op)[i],
        )
}

/// Arguments bound to parameters that an operation accepts are what the
/// operation works on.
pub proof fn accepted_arguments_are_shaped(
    op: HelperOp,
    spec: HelperSpecView,
    b: BoundArgumentsView,
)
    requires
        accepts(op, spec),
        answers(b, spec),
    ensures
        shaped(b, op),
{
    assert forall|i: int| 0 <= i < b.required.len() implies has_type(
        #[trigger] b.required[i],
        operand_types(op)[i],
    ) by {
        assert(spec.required[i].ty == operand_types(op)[i]);
    }
    assert forall|i: int| 0 <= i < b.keywords.len() implies has_type(
        (#[trigger] b.keywords[i]).1,
        keyword_types(op)[i],
    ) by {
        assert(spec.keywords[i].ty == keyword_types(op)[i]);
    }
}

/// Exclusive or of two truth values: one of them holds, and not both.
pub open spec fn xor_of(a: bool, b: bool) -> bool {
    (a || b) && !(a && b)
}

/// The truth of an operand of a logic helper: that of its value, and false
/// for an absent one.
pub open spec fn truth(b: BoundView, include_zero: bool) -> bool {
    match b {
        BoundView::Any(v) => is_truthy(v, include_zero),
        _ => false,
    }
}

/// The flag that an option carries when it is read leniently: its value when
/// it is a boolean, and false for anything else.
pub open spec fn lenient_flag(b: BoundView) -> bool {
    match b {
        BoundView::Any(ValueView::Bool(f)) => f,
        _ => false,
    }
}

/// An integer result as a value, and a fault as the error of the helper.
pub open spec fn integer_result(helper: Seq<char>, r: Result<int, Fault>) -> Result<
    ValueView,
    ErrorView,
> {
    match r {
        Ok(v) => Ok(ValueView::Number(Number::Integer(v as i128))),
        Err(fault) => Err(ErrorView::Runtime { helper, fault }),
    }
}

/// A text result as a value, and a fault as the error of the helper.
pub open spec fn text_result(helper: Seq<char>, r: Result<Seq<char>, Fault>) -> Result<
    ValueView,
    ErrorView,
> {
    match r {
        Ok(text) => Ok(ValueView::Text(text)),
        Err(fault) => Err(ErrorView::Runtime { helper, fault }),
    }
}

/// Strings as values.
pub open spec fn text_values(s: Seq<Seq<char>>) -> Seq<ValueView> {
    Seq::new(s.len(), |i: int| ValueView::Text(s[i]))
}

/// What an operation gives for bound arguments, for the operations whose
/// result the arguments determine. The helper's name goes into its errors.
pub open spec fn applied(op: HelperOp, helper: Seq<char>, b: BoundArgumentsView) -> Result<
    ValueView,
    ErrorView,
> {
    let r = b.required;
    let k = b.keywords;
    match op {
        HelperOp::And => Ok(ValueView::Bool(truth(r[0], false) && truth(r[1], false))),
        HelperOp::Or => Ok(
            ValueView::Bool(truth(r[0], k[0].1->Flag_0) || truth(r[1], k[0].1->Flag_0)),
        ),
        HelperOp::Not => Ok(ValueView::Bool(!truth(r[0], false))),
        HelperOp::Xor => Ok(ValueView::Bool(xor_of(truth(r[0], false), truth(r[1], false)))),
        HelperOp::IsDefined => Ok(ValueView::Bool(!(r[0] is Absent))),
        HelperOp::IsUndefined => Ok(ValueView::Bool(r[0] is Absent)),
        HelperOp::IsDefinedPass => Ok(ValueView::Bool(truth(r[0], lenient_flag(k[0].1)))),
        HelperOp::Add => integer_result(
            helper,
            within_domain(r[0]->Integer_0 + r[1]->Integer_0),
        ),
        HelperOp::Sub => integer_result(
            helper,
            within_domain(r[0]->Integer_0 - r[1]->Integer_0),
        ),
        HelperOp::Mul => integer_result(
            helper,
            within_domain(r[0]->Integer_0 * r[1]->Integer_0),
        ),
        HelperOp::Div => integer_result(
            helper,
            divided(
                r[1]->Integer_0 as int,
                quotient(r[0]->Integer_0 as int, r[1]->Integer_0 as int),
            ),
        ),
        HelperOp::Mod => integer_result(
            helper,
            divided(
                r[1]->Integer_0 as int,
                remainder(r[0]->Integer_0 as int, r[1]->Integer_0 as int),
            ),
        ),
        HelperOp::Max => Ok(
            ValueView::Number(
                Number::Integer(
                    if r[0]->Integer_0 > r[1]->Integer_0 {
                        r[0]->Integer_0 as i128
                    } else {
                        r[1]->Integer_0 as i128
                    },
                ),
            ),
        ),
        HelperOp::Min => Ok(
            ValueView::Number(
                Number::Integer(
                    if r[0]->Integer_0 < r[1]->Integer_0 {
                        r[0]->Integer_0 as i128
                    } else {
                        r[1]->Integer_0 as i128
                    },
                ),
            ),
        ),
        HelperOp::Upper => Ok(ValueView::Text(uppercased(r[0]->Text_0))),
        HelperOp::Lower => Ok(ValueView::Text(lowercased(r[0]->Text_0))),
        HelperOp::Trunc => Ok(ValueView::Text(truncated(r[1]->Text_0, r[0]->Count_0 as nat))),
        HelperOp::Abbrev => Ok(ValueView::Text(abbreviated(r[1]->Text_0, r[0]->Count_0 as nat))),
        HelperOp::Trim => Ok(ValueView::Text(trimmed(r[0]->Text_0))),
        HelperOp::Plural => Ok(
            ValueView::Text(
                if r[0]->Count_0 == 1 {
                    r[1]->Text_0
                } else {
                    r[2]->Text_0
                },
            ),
        ),
        HelperOp::Join => Ok(ValueView::Text(joined(r[1]->TextList_0, r[0]->Text_0))),
        HelperOp::Split => Ok(
            ValueView::List(text_values(split_pieces(r[1]->Text_0, r[0]->Text_0))),
        ),
        HelperOp::Splitn => Ok(
            ValueView::List(
                text_values(splitn_pieces(r[2]->Text_0, r[0]->Text_0, r[1]->Count_0 as nat)),
            ),
        ),
        HelperOp::TrimSuffix => Ok(ValueView::Text(without_suffix(r[1]->Text_0, r[0]->Text_0))),
        HelperOp::TrimPrefix => Ok(ValueView::Text(without_prefix(r[1]->Text_0, r[0]->Text_0))),
        HelperOp::TrimAll => Ok(
            ValueView::Text(
                without_prefix(without_suffix(r[1]->Text_0, r[0]->Text_0), r[0]->Text_0),
            ),
        ),
        HelperOp::DateFormat => text_result(
            helper,
            rendered(parsed_timestamp(r[1]->Text_0), r[0]->Text_0),
        ),
        // The three below are not functions of the arguments; see `may_give`.
        HelperOp::SortAlpha | HelperOp::RandInt | HelperOp::Now => Ok(ValueView::Null),
    }
}

/// Whether `out` is a result that an operation may give for bound arguments.
/// A sort gives the strings in lexical order; a random integer is any integer
/// that is not negative and fits a length; the current time is what the
/// format gives for some instant; every other operation gives one result.
pub open spec fn may_give(
    op: HelperOp,
    helper: Seq<char>,
    b: BoundArgumentsView,
    out: Result<ValueView, ErrorView>,
) -> bool {
    match op {
        HelperOp::SortAlpha => out matches Ok(ValueView::List(items)) && all_text(items)
            && sorted(text_items(items)) && text_items(items).to_multiset()
            == b.required[0]->TextList_0.to_multiset(),
        HelperOp::RandInt => out matches Ok(ValueView::Number(Number::Integer(n))) && 0 <= n
            <= usize::MAX,
        HelperOp::Now => exists|moment: Timestamp|
            out == text_result(helper, rendered(Some(moment), b.required[0]->Text_0)),
        _ => out == applied(op, helper, b),
    }
}

/// The view of a helper's result.
pub open spec fn result_view(r: Result<Value, HelperError>) -> Result<ValueView, ErrorView> {
    match r {
        Ok(v) => Ok(v@),
        Err(e) => Err(e@),
    }
}

/// An integer result as a value, and a fault as the error of the helper.
pub fn integer_value(r: Result<i64, Fault>, helper: &str) -> (out: Result<Value, HelperError>)
    ensures
        result_view(out) == integer_result(helper@, outcome(r)),
{
    match r {
        Ok(v) => Ok(Value::Number(Number::Integer(v as i128))),
        Err(fault) => Err(HelperError::Runtime { helper: String::from_str(helper), fault }),
    }
}

/// A text result as a value, and a fault as the error of the helper.
pub fn text_value(r: Result<String, Fault>, helper: &str) -> (out: Result<Value, HelperError>)
    ensures
        result_view(out) == text_result(helper@, text_outcome(r)),
{
    match r {
        Ok(text) => Ok(Value::Text(text)),
        Err(fault) => Err(HelperError::Runtime { helper: String::from_str(helper), fault }),
    }
}

/// A list of strings as a value.
pub fn list_value(items: &Vec<String>) -> (out: Value)
    ensures
        out@ == ValueView::List(text_values(texts(items@))),
{
    let mut values: Vec<Value> = Vec::new();
    let mut i: usize = 0;
    while i < items.len()
        invariant
            i <= items.len(),
            values@.len() == i,
            forall|k: int| 0 <= k < i ==> values@[k]@ == ValueView::Text(items@[k]@),
        decreases items.len() - i,
    {
        values.push(Value::Text(items[i].clone()));
        i += 1;
    }
    let out = Value::List(values);
    proof {
        content_of_containers(out);
        assert(values_view(values@) =~= text_values(texts(items@)));
    }
    out
}

fn flag_of(b: &Bound) -> (r: bool)
    requires
        b@ is Flag,
    ensures
        r == b@->Flag_0,
{
    match b {
        Bound::Flag(f) => *f,
        _ => vstd::pervasive::unreached(),
    }
}

fn integer_of(b: &Bound) -> (r: i64)
    requires
        b@ is Integer,
    ensures
        r == b@->Integer_0,
{
    match b {
        Bound::Integer(i) => *i,
        _ => vstd::pervasive::unreached(),
    }
}

fn count_of(b: &Bound) -> (r: usize)
    requires
        b@ is Count,
    ensures
        r == b@->Count_0,
{
    match b {
        Bound::Count(c) => *c,
        _ => vstd::pervasive::unreached(),
    }
}

fn text_of<'a>(b: &'a Bound) -> (r: &'a str)
    requires
        b@ is Text,
    ensures
        r@ == b@->Text_0,
{
    match b {
        Bound::Text(s) => s.as_str(),
        _ => vstd::pervasive::unreached(),
    }
}

fn list_of<'a>(b: &'a Bound) -> (r: &'a Vec<String>)
    requires
        b@ is TextList,
    ensures
        texts(r@) == b@->TextList_0,
{
    match b {
        Bound::TextList(l) => l,
        _ => vstd::pervasive::unreached(),
    }
}

/// The truth of an operand: that of its value, and false for an absent one.
pub fn truth_of(b: &Bound, include_zero: bool) -> (r: bool)
    ensures
        r == truth(b@, include_zero),
{
    match b {
        Bound::Any(v) => truthy(v, include_zero),
        _ => false,
    }
}

/// Reads a flag leniently: the value of a boolean, and false for anything
/// else.
pub fn lenient(b: &Bound) -> (r: bool)
    ensures
        r == lenient_flag(b@),
{
    match b {
        Bound::Any(Value::Bool(f)) => *f,
        _ => false,
    }
}

/// Runs an operation on bound arguments. `helper` is the name that errors
/// carry.
pub fn apply(op: HelperOp, helper: &str, bound: &BoundArguments) -> (r: Result<
    Value,
    HelperError,
>)
    requires
        shaped(bound@, op),
    ensures
        may_give(op, helper@, bound@, result_view(r)),
{
    let args = &bound.required;
    let named = &bound.keywords;
    proof {
        assert forall|i: int| 0 <= i < args@.len() implies args@[i]@ == bound@.required[i]
            && has_type(args@[i]@, operand_types(op)[i]) by {
            assert(has_type(bound@.required[i], operand_types(op)[i]));
        }
        assert forall|i: int| 0 <= i < named@.len() implies named@[i].1@ == bound@.keywords[i].1
            && has_type(named@[i].1@, keyword_types(op)[i]) by {
            assert(has_type(bound@.keywords[i].1, keyword_types(op)[i]));
        }
    }
    match op {
        HelperOp::And => Ok(Value::Bool(truth_of(&args[0], false) && truth_of(&args[1], false))),
        HelperOp::Or => {
            let include_zero = flag_of(&named[0].1);
            Ok(
                Value::Bool(
                    truth_of(&args[0], include_zero) || truth_of(&args[1], include_zero),
                ),
            )
        },
        HelperOp::Not => Ok(Value::Bool(!truth_of(&args[0], false))),
        HelperOp::Xor => {
            let a = truth_of(&args[0], false);
            let b = truth_of(&args[1], false);
            Ok(Value::Bool((a || b) && !(a && b)))
        },
        HelperOp::IsDefined => match &args[0] {
            Bound::Absent => Ok(Value::Bool(false)),
            _ => Ok(Value::Bool(true)),
        },
        HelperOp::IsUndefined => match &args[0] {
            Bound::Absent => Ok(Value::Bool(true)),
            _ => Ok(Value::Bool(false)),
        },
        HelperOp::IsDefinedPass => {
            let include_zero = lenient(&named[0].1);
            Ok(Value::Bool(truth_of(&args[0], include_zero)))
        },
        HelperOp::Add => integer_value(
            add_int(integer_of(&args[0]), integer_of(&args[1])),
            helper,
        ),
        HelperOp::Sub => integer_value(
            sub_int(integer_of(&args[0]), integer_of(&args[1])),
            helper,
        ),
        HelperOp::Mul => integer_value(
            mul_int(integer_of(&args[0]), integer_of(&args[1])),
            helper,
        ),
        HelperOp::Div => integer_value(
            div_int(integer_of(&args[0]), integer_of(&args[1])),
            helper,
        ),
        HelperOp::Mod => integer_value(
            mod_int(integer_of(&args[0]), integer_of(&args[1])),
            helper,
        ),
        HelperOp::Max => Ok(
            Value::Number(
                Number::Integer(max_int(integer_of(&args[0]), integer_of(&args[1])) as i128),
            ),
        ),
        HelperOp::Min => Ok(
            Value::Number(
                Number::Integer(min_int(integer_of(&args[0]), integer_of(&args[1])) as i128),
            ),
        ),
        HelperOp::RandInt => Ok(Value::Number(Number::Integer(random_number() as i128))),
        HelperOp::Upper => Ok(Value::Text(to_upper(text_of(&args[0])))),
        HelperOp::Lower => Ok(Value::Text(to_lower(text_of(&args[0])))),
        HelperOp::Trunc => Ok(Value::Text(trunc(count_of(&args[0]), text_of(&args[1])))),
        HelperOp::Abbrev => Ok(Value::Text(abbrev(count_of(&args[0]), text_of(&args[1])))),
        HelperOp::Trim => Ok(Value::Text(trim(text_of(&args[0])))),
        HelperOp::Plural => Ok(
            Value::Text(plural(count_of(&args[0]), text_of(&args[1]), text_of(&args[2]))),
        ),
        HelperOp::Join => Ok(Value::Text(join(text_of(&args[0]), list_of(&args[1])))),
        HelperOp::Split => Ok(list_value(&split(text_of(&args[0]), text_of(&args[1])))),
        HelperOp::Splitn => Ok(
            list_value(&splitn(text_of(&args[0]), count_of(&args[1]), text_of(&args[2]))),
        ),
        HelperOp::SortAlpha => {
            let ordered = sort_alpha(list_of(&args[0]));
            let out = list_value(&ordered);
            proof {
                let items = text_values(texts(ordered@));
                assert(text_items(items) =~= texts(ordered@));
            }
            Ok(out)
        },
        HelperOp::TrimSuffix => Ok(Value::Text(trim_suffix(text_of(&args[0]), text_of(&args[1])))),
        HelperOp::TrimPrefix => Ok(Value::Text(trim_prefix(text_of(&args[0]), text_of(&args[1])))),
        HelperOp::TrimAll => Ok(Value::Text(trim_all(text_of(&args[0]), text_of(&args[1])))),
        HelperOp::DateFormat => text_value(
            date_format(text_of(&args[0]), text_of(&args[1])),
            helper,
        ),
        HelperOp::Now => text_value(now(text_of(&args[0])), helper),
    }
}

/// Bound arguments that hold the given values as present operands of any
/// type, and the given flag as the one option.
pub open spec fn operands_with_flag(values: Seq<ValueView>, flag: bool) -> BoundArgumentsView {
    BoundArgumentsView {
        required: Seq::new(values.len(), |i: int| BoundView::Any(values[i])),
        rest: Seq::empty(),
        keywords: seq![(Seq::<char>::empty(), BoundView::Flag(flag))],
    }
}

/// The logic helpers follow the truth tables: on two booleans `and` is their
/// conjunction, `or` their disjunction and `xor` true when exactly one of
/// them holds, and `not` inverts a boolean. The option of `or` does not touch
/// booleans.
pub proof fn logic_truth_tables(helper: Seq<char>, a: bool, b: bool, include_zero: bool)
    ensures
        applied(
            HelperOp::And,
            helper,
            operands_with_flag(seq![ValueView::Bool(a), ValueView::Bool(b)], include_zero),
        ) == Ok::<ValueView, ErrorView>(ValueView::Bool(a && b)),
        applied(
            HelperOp::Or,
            helper,
            operands_with_flag(seq![ValueView::Bool(a), ValueView::Bool(b)], include_zero),
        ) == Ok::<ValueView, ErrorView>(ValueView::Bool(a || b)),
        applied(
            HelperOp::Xor,
            helper,
            operands_with_flag(seq![ValueView::Bool(a), ValueView::Bool(b)], include_zero),
        ) == Ok::<ValueView, ErrorView>(ValueView::Bool(a != b)),
        applied(
            HelperOp::Not,
            helper,
            operands_with_flag(seq![ValueView::Bool(a)], include_zero),
        ) == Ok::<ValueView, ErrorView>(ValueView::Bool(!a)),
{
}

/// On operands of any kind the logic helpers work on their truth: `and`,
/// `not` and `xor` read a number as true when it is not zero, and `or` reads
/// it as its option says.
pub proof fn logic_on_truth(helper: Seq<char>, x: ValueView, y: ValueView, include_zero: bool)
    ensures
        applied(HelperOp::And, helper, operands_with_flag(seq![x, y], include_zero)) == Ok::<
            ValueView,
            ErrorView,
        >(ValueView::Bool(is_truthy(x, false) && is_truthy(y, false))),
        applied(HelperOp::Or, helper, operands_with_flag(seq![x, y], include_zero)) == Ok::<
            ValueView,
            ErrorView,
        >(ValueView::Bool(is_truthy(x, include_zero) || is_truthy(y, include_zero))),
        applied(HelperOp::Xor, helper, operands_with_flag(seq![x, y], include_zero)) == Ok::<
            ValueView,
            ErrorView,
        >(ValueView::Bool(is_truthy(x, false) != is_truthy(y, false))),
        applied(HelperOp::Not, helper, operands_with_flag(seq![x], include_zero)) == Ok::<
            ValueView,
            ErrorView,
        >(ValueView::Bool(!is_truthy(x, false))),
{
}

/// Bound arguments that hold two integers.
pub open spec fn two_integers(a: i64, b: i64) -> BoundArgumentsView {
    BoundArgumentsView {
        required: seq![BoundView::Integer(a), BoundView::Integer(b)],
        rest: Seq::empty(),
        keywords: Seq::empty(),
    }
}

/// A division or a remainder by zero is an error that names the helper and
/// the fault, whatever the first operand is.
pub proof fn division_by_zero_is_reported(helper: Seq<char>, a: i64)
    ensures
        applied(HelperOp::Div, helper, two_integers(a, 0)) == Err::<ValueView, ErrorView>(
            ErrorView::Runtime { helper, fault: Fault::DivisionByZero },
        ),
        applied(HelperOp::Mod, helper, two_integers(a, 0)) == Err::<ValueView, ErrorView>(
            ErrorView::Runtime { helper, fault: Fault::DivisionByZero },
        ),
{
}

} // verus!
