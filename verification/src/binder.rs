//! The argument binder: it matches the arguments of a call against the
//! declared parameters of a helper, checks their number, and converts each
//! value to its declared type.

use crate::fault::{ErrorView, HelperError};
use crate::text::{same_text, texts};
use crate::value::{
    content_of_containers, entries_view, lookups_view, values_view, Lookup, Number, Value,
    ValueView,
};
use vstd::prelude::*;

verus! {

/// The declared type of a parameter.
#[derive(Clone, Copy, Debug, PartialEq, Eq, Structural)]
pub enum ParamType {
    /// A boolean.
    Boolean,
    /// An integer of the 64-bit signed domain.
    Integer,
    /// An integer that is not negative and fits a length.
    Count,
    /// Any number, integer or real.
    Real,
    /// A string.
    Text,
    /// A list whose items are all strings.
    TextList,
    /// Any present value, as it is.
    Generic,
    /// Any value as it is, or none: absence is handed to the helper.
    AcceptsMissing,
}

/// A required positional parameter.
#[derive(Clone, Debug, PartialEq, Eq)]
pub struct Param {
    pub name: String,
    pub ty: ParamType,
}

/// An optional named parameter with the value it takes when the call does
/// not give one.
#[derive(Clone, Debug, PartialEq, Eq)]
pub struct Keyword {
    pub name: String,
    pub ty: ParamType,
    pub default: Value,
}

/// The declared parameters of a helper.
#[derive(Clone, Debug, PartialEq, Eq)]
pub struct HelperSpec {
    pub name: String,
    pub required: Vec<Param>,
    pub keywords: Vec<Keyword>,
    /// Whether the call may give more positional arguments than are required.
    pub variadic: bool,
}

/// The mathematical content of a [`Param`].
pub struct ParamView {
    pub name: Seq<char>,
    pub ty: ParamType,
}

/// The mathematical content of a [`Keyword`].
pub struct KeywordView {
    pub name: Seq<char>,
    pub ty: ParamType,
    pub default: ValueView,
}

/// The mathematical content of a [`HelperSpec`].
pub struct HelperSpecView {
    pub name: Seq<char>,
    pub required: Seq<ParamView>,
    pub keywords: Seq<KeywordView>,
    pub variadic: bool,
}

impl View for Param {
    type V = ParamView;

    open spec fn view(&self) -> ParamView {
        ParamView { name: self.name@, ty: self.ty }
    }
}

impl View for Keyword {
    type V = KeywordView;

    open spec fn view(&self) -> KeywordView {
        KeywordView { name: self.name@, ty: self.ty, default: self.default@ }
    }
}

impl View for HelperSpec {
    type V = HelperSpecView;

    open spec fn view(&self) -> HelperSpecView {
        HelperSpecView {
            name: self.name@,
            required: Seq::new(self.required@.len(), |i: int| self.required@[i]@),
            keywords: Seq::new(self.keywords@.len(), |i: int| self.keywords@[i]@),
            variadic: self.variadic,
        }
    }
}

/// An argument after conversion to its declared type.
#[derive(Clone, Debug, PartialEq, Eq)]
pub enum Bound {
    /// No value: the argument was absent and its parameter accepts that.
    Absent,
    Flag(bool),
    Integer(i64),
    Count(usize),
    Real(Number),
    Text(String),
    TextList(Vec<String>),
    Any(Value),
}

/// The mathematical content of a [`Bound`].
pub enum BoundView {
    Absent,
    Flag(bool),
    Integer(i64),
    Count(usize),
    Real(Number),
    Text(Seq<char>),
    TextList(Seq<Seq<char>>),
    Any(ValueView),
}

impl View for Bound {
    type V = BoundView;

    open spec fn view(&self) -> BoundView {
        match self {
            Bound::Absent => BoundView::Absent,
            Bound::Flag(b) => BoundView::Flag(*b),
            Bound::Integer(i) => BoundView::Integer(*i),
            Bound::Count(c) => BoundView::Count(*c),
            Bound::Real(n) => BoundView::Real(*n),
            Bound::Text(s) => BoundView::Text(s@),
            Bound::TextList(l) => BoundView::TextList(texts(l@)),
            Bound::Any(v) => BoundView::Any(v@),
        }
    }
}

/// The arguments of one call, bound to the parameters of the helper: the
/// required ones in declared order, the positional arguments beyond them, and
/// each keyword parameter under its name.
#[derive(Clone, Debug, PartialEq, Eq)]
pub struct BoundArguments {
    pub required: Vec<Bound>,
    pub rest: Vec<Lookup>,
    pub keywords: Vec<(String, Bound)>,
}

/// The mathematical content of [`BoundArguments`].
pub struct BoundArgumentsView {
    pub required: Seq<BoundView>,
    pub rest: Seq<Option<ValueView>>,
    pub keywords: Seq<(Seq<char>, BoundView)>,
}

/// The views of a list of converted arguments.
pub open spec fn bounds_view(v: Seq<Bound>) -> Seq<BoundView> {
    Seq::new(v.len(), |i: int| v[i]@)
}

/// The views of a list of named converted arguments.
pub open spec fn named_bounds_view(v: Seq<(String, Bound)>) -> Seq<(Seq<char>, BoundView)> {
    Seq::new(v.len(), |i: int| (v[i].0@, v[i].1@))
}

impl View for BoundArguments {
    type V = BoundArgumentsView;

    open spec fn view(&self) -> BoundArgumentsView {
        BoundArgumentsView {
            required: bounds_view(self.required@),
            rest: lookups_view(self.rest@),
            keywords: named_bounds_view(self.keywords@),
        }
    }
}

/// Whether every item of a list is a string.
pub open spec fn all_text(items: Seq<ValueView>) -> bool {
    forall|i: int| 0 <= i < items.len() ==> items[i] is Text
}

/// The strings of a list of string values.
pub open spec fn text_items(items: Seq<ValueView>) -> Seq<Seq<char>> {
    Seq::new(items.len(), |i: int| items[i]->Text_0)
}

/// The conversion of a present value to a declared type: the converted
/// argument, or nothing when the value is of another kind or out of range.
pub open spec fn coerced(v: ValueView, ty: ParamType) -> Option<BoundView> {
    match ty {
        ParamType::Boolean => match v {
            ValueView::Bool(b) => Some(BoundView::Flag(b)),
            _ => None,
        },
        ParamType::Integer => match v {
            ValueView::Number(Number::Integer(i)) => if i64::MIN <= i <= i64::MAX {
                Some(BoundView::Integer(i as i64))
            } else {
                None
            },
            _ => None,
        },
        ParamType::Count => match v {
            ValueView::Number(Number::Integer(i)) => if 0 <= i <= usize::MAX {
                Some(BoundView::Count(i as usize))
            } else {
                None
            },
            _ => None,
        },
        ParamType::Real => match v {
            ValueView::Number(n) => Some(BoundView::Real(n)),
            _ => None,
        },
        ParamType::Text => match v {
            ValueView::Text(s) => Some(BoundView::Text(s)),
            _ => None,
        },
        ParamType::TextList => match v {
            ValueView::List(items) => if all_text(items) {
                Some(BoundView::TextList(text_items(items)))
            } else {
                None
            },
            _ => None,
        },
        ParamType::Generic => Some(BoundView::Any(v)),
        ParamType::AcceptsMissing => Some(BoundView::Any(v)),
    }
}

/// The view of an optional converted argument.
pub open spec fn bound_option_view(b: Option<Bound>) -> Option<BoundView> {
    match b {
        Some(x) => Some(x@),
        None => None,
    }
}

/// Copies the strings of a list; nothing when an item is not a string.
fn text_list(items: &Vec<Value>) -> (r: Option<Vec<String>>)
    ensures
        match r {
            Some(l) => all_text(values_view(items@)) && texts(l@) == text_items(
                values_view(items@),
            ),
            None => !all_text(values_view(items@)),
        },
{
    let ghost views = values_view(items@);
    let mut out: Vec<String> = Vec::new();
    let mut i: usize = 0;
    while i < items.len()
        invariant
            i <= items.len(),
            views == values_view(items@),
            out@.len() == i,
            forall|k: int| 0 <= k < i ==> views[k] is Text && out@[k]@ == views[k]->Text_0,
        decreases items.len() - i,
    {
        assert(views[i as int] == items[i as int]@);
        match &items[i] {
            Value::Text(s) => out.push(s.clone()),
            _ => {
                return None;
            },
        }
        i += 1;
    }
    assert(texts(out@) =~= text_items(views));
    Some(out)
}

/// Converts a present value to the declared type.
pub fn coerce(v: &Value, ty: ParamType) -> (r: Option<Bound>)
    ensures
        bound_option_view(r) == coerced(v@, ty),
{
    match ty {
        ParamType::Boolean => match v {
            Value::Bool(b) => Some(Bound::Flag(*b)),
            _ => None,
        },
        ParamType::Integer => match v {
            Value::Number(Number::Integer(i)) => if i64::MIN as i128 <= *i && *i
                <= i64::MAX as i128 {
                Some(Bound::Integer(*i as i64))
            } else {
                None
            },
            _ => None,
        },
        ParamType::Count => match v {
            Value::Number(Number::Integer(i)) => if 0 <= *i && *i <= usize::MAX as i128 {
                Some(Bound::Count(*i as usize))
            } else {
                None
            },
            _ => None,
        },
        ParamType::Real => match v {
            Value::Number(n) => Some(Bound::Real(*n)),
            _ => None,
        },
        ParamType::Text => match v {
            Value::Text(s) => Some(Bound::Text(s.clone())),
            _ => None,
        },
        ParamType::TextList => match v {
            Value::List(items) => {
                proof {
                    content_of_containers(*v);
                }
                match text_list(items) {
                    Some(l) => Some(Bound::TextList(l)),
                    None => None,
                }
            },
            _ => None,
        },
        ParamType::Generic => Some(Bound::Any(v.duplicate())),
        ParamType::AcceptsMissing => Some(Bound::Any(v.duplicate())),
    }
}

/// Whether a call with `given` positional arguments has the right number of
/// them: exactly the required ones, or at least those where more are allowed.
pub open spec fn arity_ok(spec: HelperSpecView, given: nat) -> bool {
    if spec.variadic {
        given >= spec.required.len()
    } else {
        given == spec.required.len()
    }
}

/// The value given under `name` in the keyword arguments of a call: that of
/// the first entry with this name.
pub open spec fn keyword_value(given: Seq<(Seq<char>, ValueView)>, name: Seq<char>) -> Option<
    ValueView,
>
    decreases given.len(),
{
    if given.len() == 0 {
        None
    } else if given.first().0 == name {
        Some(given.first().1)
    } else {
        keyword_value(given.drop_first(), name)
    }
}

/// The binding of one required parameter. An absent argument is an error
/// unless the parameter accepts absence; a present one is converted to the
/// declared type.
pub open spec fn bound_positional(
    helper: Seq<char>,
    param: ParamView,
    actual: Option<ValueView>,
) -> Result<BoundView, ErrorView> {
    match actual {
        None => if param.ty == ParamType::AcceptsMissing {
            Ok(BoundView::Absent)
        } else {
            Err(ErrorView::MissingParameter { helper, param: param.name })
        },
        Some(v) => match coerced(v, param.ty) {
            Some(b) => Ok(b),
            None => Err(ErrorView::TypeMismatch { helper, param: param.name, expected: param.ty }),
        },
    }
}

/// The binding of one keyword parameter: the value that the call gives under
/// its name, or else its default, converted to the declared type.
pub open spec fn bound_keyword(
    helper: Seq<char>,
    keyword: KeywordView,
    given: Seq<(Seq<char>, ValueView)>,
) -> Result<BoundView, ErrorView> {
    let v = match keyword_value(given, keyword.name) {
        Some(v) => v,
        None => keyword.default,
    };
    match coerced(v, keyword.ty) {
        Some(b) => Ok(b),
        None => Err(
            ErrorView::TypeMismatch { helper, param: keyword.name, expected: keyword.ty },
        ),
    }
}

/// The binding of the first `upto` required parameters, in declared order:
/// the first error ends it.
pub open spec fn bound_required(
    spec: HelperSpecView,
    positional: Seq<Option<ValueView>>,
    upto: nat,
) -> Result<Seq<BoundView>, ErrorView>
    decreases upto,
{
    if upto == 0 {
        Ok(Seq::empty())
    } else {
        match bound_required(spec, positional, (upto - 1) as nat) {
            Err(e) => Err(e),
            Ok(done) => match bound_positional(
                spec.name,
                spec.required[upto - 1],
                positional[upto - 1],
            ) {
                Ok(b) => Ok(done.push(b)),
                Err(e) => Err(e),
            },
        }
    }
}

/// The binding of the first `upto` keyword parameters, in declared order:
/// the first error ends it.
pub open spec fn bound_keywords(
    spec: HelperSpecView,
    given: Seq<(Seq<char>, ValueView)>,
    upto: nat,
) -> Result<Seq<(Seq<char>, BoundView)>, ErrorView>
    decreases upto,
{
    if upto == 0 {
        Ok(Seq::empty())
    } else {
        match bound_keywords(spec, given, (upto - 1) as nat) {
            Err(e) => Err(e),
            Ok(done) => match bound_keyword(spec.name, spec.keywords[upto - 1], given) {
                Ok(b) => Ok(done.push((spec.keywords[upto - 1].name, b))),
                Err(e) => Err(e),
            },
        }
    }
}

/// The binding of a call. The number of positional arguments is checked
/// first, then the required parameters are bound in declared order, then the
/// keyword parameters; the first error is the result.
pub open spec fn bind_outcome(
    spec: HelperSpecView,
    positional: Seq<Option<ValueView>>,
    keyword: Seq<(Seq<char>, ValueView)>,
) -> Result<BoundArgumentsView, ErrorView> {
    if !arity_ok(spec, positional.len()) {
        Err(ErrorView::Arity { helper: spec.name, required: spec.required.len() })
    } else {
        match bound_required(spec, positional, spec.required.len()) {
            Err(e) => Err(e),
            Ok(required) => match bound_keywords(spec, keyword, spec.keywords.len()) {
                Err(e) => Err(e),
                Ok(keywords) => Ok(
                    BoundArgumentsView {
                        required,
                        rest: positional.skip(spec.required.len() as int),
                        keywords,
                    },
                ),
            },
        }
    }
}

/// An error among the first parameters is the error of the whole list.
proof fn bound_required_error(
    spec: HelperSpecView,
    positional: Seq<Option<ValueView>>,
    at: nat,
    upto: nat,
)
    requires
        at <= upto,
        bound_required(spec, positional, at) is Err,
    ensures
        bound_required(spec, positional, upto) == bound_required(spec, positional, at),
    decreases upto,
{
    if at < upto {
        bound_required_error(spec, positional, at, (upto - 1) as nat);
    }
}

/// An error among the first keyword parameters is the error of the whole
/// list.
proof fn bound_keywords_error(
    spec: HelperSpecView,
    given: Seq<(Seq<char>, ValueView)>,
    at: nat,
    upto: nat,
)
    requires
        at <= upto,
        bound_keywords(spec, given, at) is Err,
    ensures
        bound_keywords(spec, given, upto) == bound_keywords(spec, given, at),
    decreases upto,
{
    if at < upto {
        bound_keywords_error(spec, given, at, (upto - 1) as nat);
    }
}

/// The view of the binding of one parameter.
pub open spec fn bound_result_view(r: Result<Bound, HelperError>) -> Result<BoundView, ErrorView> {
    match r {
        Ok(b) => Ok(b@),
        Err(e) => Err(e@),
    }
}

/// The view of the binding of a call.
pub open spec fn bind_result_view(r: Result<BoundArguments, HelperError>) -> Result<
    BoundArgumentsView,
    ErrorView,
> {
    match r {
        Ok(b) => Ok(b@),
        Err(e) => Err(e@),
    }
}

/// Finds the value that a call gives under `name`.
pub fn keyword_lookup<'a>(given: &'a Vec<(String, Value)>, name: &str) -> (r: Option<&'a Value>)
    ensures
        match r {
            Some(v) => keyword_value(entries_view(given@), name@) == Some(v@),
            None => keyword_value(entries_view(given@), name@) is None,
        },
{
    let ghost all = entries_view(given@);
    let mut i: usize = 0;
    proof {
        assert(all.skip(0) =~= all);
    }
    while i < given.len()
        invariant
            i <= given.len(),
            all == entries_view(given@),
            keyword_value(all, name@) == keyword_value(all.skip(i as int), name@),
        decreases given.len() - i,
    {
        proof {
            assert(all.skip(i as int).first() == all[i as int]);
            assert(all.skip(i as int).drop_first() =~= all.skip(i + 1));
        }
        if same_text(given[i].0.as_str(), name) {
            return Some(&given[i].1);
        }
        i += 1;
    }
    None
}

/// Binds one required parameter to the argument at its position.
pub fn bind_positional(helper: &str, param: &Param, actual: &Lookup) -> (r: Result<
    Bound,
    HelperError,
>)
    ensures
        bound_result_view(r) == bound_positional(helper@, param@, actual@),
{
    match actual {
        Lookup::Absent => match param.ty {
            ParamType::AcceptsMissing => Ok(Bound::Absent),
            _ => Err(
                HelperError::MissingParameter {
                    helper: String::from_str(helper),
                    param: param.name.clone(),
                },
            ),
        },
        Lookup::Present(v) => match coerce(v, param.ty) {
            Some(b) => Ok(b),
            None => Err(
                HelperError::TypeMismatch {
                    helper: String::from_str(helper),
                    param: param.name.clone(),
                    expected: param.ty,
                },
            ),
        },
    }
}

/// Binds one keyword parameter to the value that the call gives under its
/// name, or to its default.
pub fn bind_keyword(helper: &str, keyword: &Keyword, given: &Vec<(String, Value)>) -> (r: Result<
    Bound,
    HelperError,
>)
    ensures
        bound_result_view(r) == bound_keyword(helper@, keyword@, entries_view(given@)),
{
    let v = match keyword_lookup(given, keyword.name.as_str()) {
        Some(v) => v,
        None => &keyword.default,
    };
    match coerce(v, keyword.ty) {
        Some(b) => Ok(b),
        None => Err(
            HelperError::TypeMismatch {
                helper: String::from_str(helper),
                param: keyword.name.clone(),
                expected: keyword.ty,
            },
        ),
    }
}

/// Binds the arguments of a call to the declared parameters of a helper.
pub fn bind(spec: &HelperSpec, positional: &Vec<Lookup>, keyword: &Vec<(String, Value)>) -> (r:
    Result<BoundArguments, HelperError>)
    ensures
        bind_result_view(r) == bind_outcome(
            spec@,
            lookups_view(positional@),
            entries_view(keyword@),
        ),
{
    let ghost actuals = lookups_view(positional@);
    let ghost given = entries_view(keyword@);
    let needed = spec.required.len();
    if positional.len() < needed || (!spec.variadic && positional.len() != needed) {
        return Err(HelperError::Arity { helper: spec.name.clone(), required: needed });
    }
    let mut required: Vec<Bound> = Vec::new();
    let mut i: usize = 0;
    proof {
        assert(bounds_view(required@) =~= Seq::<BoundView>::empty());
    }
    while i < needed
        invariant
            i <= needed,
            needed == spec.required@.len(),
            needed <= positional@.len(),
            actuals == lookups_view(positional@),
            arity_ok(spec@, actuals.len()),
            bound_required(spec@, actuals, i as nat) == Ok::<Seq<BoundView>, ErrorView>(
                bounds_view(required@),
            ),
        decreases needed - i,
    {
        let ghost done = bounds_view(required@);
        assert(spec@.required[i as int] == spec.required@[i as int]@);
        assert(actuals[i as int] == positional@[i as int]@);
        match bind_positional(spec.name.as_str(), &spec.required[i], &positional[i]) {
            Ok(b) => {
                required.push(b);
                proof {
                    assert(bounds_view(required@) =~= done.push(b@));
                }
            },
            Err(e) => {
                proof {
                    assert(bound_required(spec@, actuals, (i + 1) as nat) == Err::<
                        Seq<BoundView>,
                        ErrorView,
                    >(e@));
                    bound_required_error(spec@, actuals, (i + 1) as nat, needed as nat);
                }
                return Err(e);
            },
        }
        i += 1;
    }
    let named = spec.keywords.len();
    let mut keywords: Vec<(String, Bound)> = Vec::new();
    let mut j: usize = 0;
    proof {
        assert(named_bounds_view(keywords@) =~= Seq::<(Seq<char>, BoundView)>::empty());
    }
    while j < named
        invariant
            j <= named,
            named == spec.keywords@.len(),
            given == entries_view(keyword@),
            actuals == lookups_view(positional@),
            arity_ok(spec@, actuals.len()),
            bound_required(spec@, actuals, spec@.required.len()) is Ok,
            bound_keywords(spec@, given, j as nat) == Ok::<
                Seq<(Seq<char>, BoundView)>,
                ErrorView,
            >(named_bounds_view(keywords@)),
        decreases named - j,
    {
        let ghost done = named_bounds_view(keywords@);
        assert(spec@.keywords[j as int] == spec.keywords@[j as int]@);
        match bind_keyword(spec.name.as_str(), &spec.keywords[j], keyword) {
            Ok(b) => {
                keywords.push((spec.keywords[j].name.clone(), b));
                proof {
                    assert(named_bounds_view(keywords@) =~= done.push(
                        (spec.keywords@[j as int].name@, b@),
                    ));
                }
            },
            Err(e) => {
                proof {
                    assert(bound_keywords(spec@, given, (j + 1) as nat) == Err::<
                        Seq<(Seq<char>, BoundView)>,
                        ErrorView,
                    >(e@));
                    bound_keywords_error(spec@, given, (j + 1) as nat, named as nat);
                }
                return Err(e);
            },
        }
        j += 1;
    }
    let mut rest: Vec<Lookup> = Vec::new();
    let mut k: usize = needed;
    while k < positional.len()
        invariant
            needed <= k <= positional@.len(),
            rest@.len() == k - needed,
            forall|n: int| 0 <= n < rest@.len() ==> rest@[n]@ == positional@[needed + n]@,
        decreases positional.len() - k,
    {
        rest.push(positional[k].duplicate());
        k += 1;
    }
    proof {
        assert(lookups_view(rest@) =~= actuals.skip(needed as int));
    }
    Ok(BoundArguments { required, rest, keywords })
}

/// Whether a converted argument is of the kind that a declared type gives.
pub open spec fn has_type(b: BoundView, ty: ParamType) -> bool {
    match ty {
        ParamType::Boolean => b is Flag,
        ParamType::Integer => b is Integer,
        ParamType::Count => b is Count,
        ParamType::Real => b is Real,
        ParamType::Text => b is Text,
        ParamType::TextList => b is TextList,
        ParamType::Generic => b is Any,
        ParamType::AcceptsMissing => b is Any || b is Absent,
    }
}

/// Whether bound arguments answer the declared parameters one for one: as
/// many required values, each of its declared type, and each keyword
/// parameter under its name with a value of its declared type.
pub open spec fn answers(b: BoundArgumentsView, spec: HelperSpecView) -> bool {
    &&& b.required.len() == spec.required.len()
    &&& forall|i: int|
        0 <= i < b.required.len() ==> has_type(#[trigger] b.required[i], spec.required[i].ty)
    &&& b.keywords.len() == spec.keywords.len()
    &&& forall|i: int|
        0 <= i < b.keywords.len() ==> (#[trigger] b.keywords[i]).0 == spec.keywords[i].name
            && has_type(b.keywords[i].1, spec.keywords[i].ty)
}

proof fn bound_required_typed(
    spec: HelperSpecView,
    positional: Seq<Option<ValueView>>,
    upto: nat,
)
    ensures
        bound_required(spec, positional, upto) matches Ok(done) ==> done.len() == upto && forall|
            i: int,
        |
            0 <= i < upto ==> has_type(#[trigger] done[i], spec.required[i].ty),
    decreases upto,
{
    if upto > 0 {
        bound_required_typed(spec, positional, (upto - 1) as nat);
    }
}

proof fn bound_keywords_typed(
    spec: HelperSpecView,
    given: Seq<(Seq<char>, ValueView)>,
    upto: nat,
)
    ensures
        bound_keywords(spec, given, upto) matches Ok(done) ==> done.len() == upto && forall|
            i: int,
        |
            0 <= i < upto ==> (#[trigger] done[i]).0 == spec.keywords[i].name && has_type(
                done[i].1,
                spec.keywords[i].ty,
            ),
    decreases upto,
{
    if upto > 0 {
        bound_keywords_typed(spec, given, (upto - 1) as nat);
    }
}

/// Whatever the call, arguments that were bound answer the declared
/// parameters, and the positional arguments beyond the required ones are
/// kept as they were given.
pub proof fn bound_arguments_answer(
    spec: HelperSpecView,
    positional: Seq<Option<ValueView>>,
    keyword: Seq<(Seq<char>, ValueView)>,
)
    ensures
        bind_outcome(spec, positional, keyword) matches Ok(b) ==> answers(b, spec) && b.rest
            == positional.skip(spec.required.len() as int),
{
    bound_required_typed(spec, positional, spec.required.len());
    bound_keywords_typed(spec, keyword, spec.keywords.len());
}

/// A call with the wrong number of positional arguments is an arity error
/// that names the helper and the number it declares, whatever the arguments
/// are.
pub proof fn wrong_count_is_arity_error(
    spec: HelperSpecView,
    positional: Seq<Option<ValueView>>,
    keyword: Seq<(Seq<char>, ValueView)>,
)
    requires
        !arity_ok(spec, positional.len()),
    ensures
        bind_outcome(spec, positional, keyword) == Err::<BoundArgumentsView, ErrorView>(
            ErrorView::Arity { helper: spec.name, required: spec.required.len() },
        ),
{
}

/// The first required parameter that cannot be bound decides the result of
/// the call: its error, which names the helper and the parameter, is the
/// error of the binding, whatever the parameters after it are given.
pub proof fn first_fault_is_reported(
    spec: HelperSpecView,
    positional: Seq<Option<ValueView>>,
    keyword: Seq<(Seq<char>, ValueView)>,
    at: int,
)
    requires
        arity_ok(spec, positional.len()),
        0 <= at < spec.required.len(),
        forall|j: int|
            0 <= j < at ==> bound_positional(spec.name, spec.required[j], positional[j]) is Ok,
        bound_positional(spec.name, spec.required[at], positional[at]) is Err,
    ensures
        bind_outcome(spec, positional, keyword) == Err::<BoundArgumentsView, ErrorView>(
            bound_positional(spec.name, spec.required[at], positional[at])->Err_0,
        ),
{
    required_bound_so_far(spec, positional, at as nat);
    bound_required_error(spec, positional, (at + 1) as nat, spec.required.len());
}

proof fn required_bound_so_far(
    spec: HelperSpecView,
    positional: Seq<Option<ValueView>>,
    upto: nat,
)
    requires
        forall|j: int|
            0 <= j < upto ==> bound_positional(spec.name, spec.required[j], positional[j]) is Ok,
    ensures
        bound_required(spec, positional, upto) is Ok,
    decreases upto,
{
    if upto > 0 {
        required_bound_so_far(spec, positional, (upto - 1) as nat);
    }
}

/// The value bound under `name`: that of the first keyword parameter with
/// this name.
pub open spec fn named_bound(keywords: Seq<(Seq<char>, BoundView)>, name: Seq<char>) -> Option<
    BoundView,
>
    decreases keywords.len(),
{
    if keywords.len() == 0 {
        None
    } else if keywords.first().0 == name {
        Some(keywords.first().1)
    } else {
        named_bound(keywords.drop_first(), name)
    }
}

impl BoundArguments {
    /// The value of the keyword parameter `name`, if the helper declares one.
    pub fn keyword(&self, name: &str) -> (r: Option<&Bound>)
        ensures
            bound_option_view(
                match r {
                    Some(b) => Some(*b),
                    None => None,
                },
            ) == named_bound(self@.keywords, name@),
    {
        let ghost all = self@.keywords;
        let mut i: usize = 0;
        proof {
            assert(all.skip(0) =~= all);
        }
        while i < self.keywords.len()
            invariant
                i <= self.keywords@.len(),
                all == self@.keywords,
                named_bound(all, name@) == named_bound(all.skip(i as int), name@),
            decreases self.keywords.len() - i,
        {
            proof {
                assert(all.skip(i as int).first() == all[i as int]);
                assert(all.skip(i as int).drop_first() =~= all.skip(i + 1));
            }
            if same_text(self.keywords[i].0.as_str(), name) {
                return Some(&self.keywords[i].1);
            }
            i += 1;
        }
        None
    }
}

} // verus!
