use hbs_helpers::binder::{
    bind, bind_keyword, bind_positional, coerce, keyword_lookup, Bound, BoundArguments, HelperSpec,
    Keyword, Param, ParamType,
};
use hbs_helpers::fault::HelperError;
use hbs_helpers::value::{Lookup, Number, Value};

fn text(s: &str) -> Value {
    Value::Text(s.to_string())
}

fn num(i: i128) -> Value {
    Value::Number(Number::Integer(i))
}

fn param(name: &str, ty: ParamType) -> Param {
    Param { name: name.to_string(), ty }
}

fn spec(name: &str, required: Vec<Param>, keywords: Vec<Keyword>, variadic: bool) -> HelperSpec {
    HelperSpec { name: name.to_string(), required, keywords, variadic }
}

fn present(values: Vec<Value>) -> Vec<Lookup> {
    values.into_iter().map(Lookup::Present).collect()
}

#[test]
fn coerce_boolean_takes_only_booleans() {
    assert_eq!(coerce(&Value::Bool(true), ParamType::Boolean), Some(Bound::Flag(true)));
    assert_eq!(coerce(&Value::Bool(false), ParamType::Boolean), Some(Bound::Flag(false)));
    assert_eq!(coerce(&num(1), ParamType::Boolean), None);
    assert_eq!(coerce(&text("true"), ParamType::Boolean), None);
    assert_eq!(coerce(&Value::Null, ParamType::Boolean), None);
}

#[test]
fn coerce_integer_takes_integers_of_the_domain() {
    assert_eq!(coerce(&num(10), ParamType::Integer), Some(Bound::Integer(10)));
    assert_eq!(coerce(&num(-10), ParamType::Integer), Some(Bound::Integer(-10)));
    assert_eq!(coerce(&num(i128::from(i64::MAX)), ParamType::Integer), Some(Bound::Integer(i64::MAX)));
    assert_eq!(coerce(&num(i128::from(i64::MIN)), ParamType::Integer), Some(Bound::Integer(i64::MIN)));
    assert_eq!(coerce(&num(i128::from(i64::MAX) + 1), ParamType::Integer), None);
    assert_eq!(coerce(&num(i128::from(i64::MIN) - 1), ParamType::Integer), None);
    assert_eq!(coerce(&Value::Number(Number::Real(1.0f64.to_bits())), ParamType::Integer), None);
    assert_eq!(coerce(&text("10"), ParamType::Integer), None);
    assert_eq!(coerce(&Value::Null, ParamType::Integer), None);
}

#[test]
fn coerce_count_takes_integers_that_are_not_negative() {
    assert_eq!(coerce(&num(0), ParamType::Count), Some(Bound::Count(0)));
    assert_eq!(coerce(&num(42), ParamType::Count), Some(Bound::Count(42)));
    assert_eq!(coerce(&num(usize::MAX as i128), ParamType::Count), Some(Bound::Count(usize::MAX)));
    assert_eq!(coerce(&num(usize::MAX as i128 + 1), ParamType::Count), None);
    assert_eq!(coerce(&num(-1), ParamType::Count), None);
    assert_eq!(coerce(&text("1"), ParamType::Count), None);
}

#[test]
fn coerce_real_takes_any_number() {
    let half = Number::Real(0.5f64.to_bits());
    assert_eq!(coerce(&Value::Number(half), ParamType::Real), Some(Bound::Real(half)));
    assert_eq!(coerce(&num(3), ParamType::Real), Some(Bound::Real(Number::Integer(3))));
    assert_eq!(coerce(&text("0.5"), ParamType::Real), None);
    assert_eq!(coerce(&Value::Bool(true), ParamType::Real), None);
}

#[test]
fn coerce_text_takes_only_strings() {
    assert_eq!(coerce(&text("a"), ParamType::Text), Some(Bound::Text("a".to_string())));
    assert_eq!(coerce(&text(""), ParamType::Text), Some(Bound::Text(String::new())));
    assert_eq!(coerce(&num(1), ParamType::Text), None);
    assert_eq!(coerce(&Value::List(vec![text("a")]), ParamType::Text), None);
}

#[test]
fn coerce_text_list_takes_lists_of_strings() {
    assert_eq!(
        coerce(&Value::List(vec![text("a"), text("b")]), ParamType::TextList),
        Some(Bound::TextList(vec!["a".to_string(), "b".to_string()]))
    );
    assert_eq!(coerce(&Value::List(vec![]), ParamType::TextList), Some(Bound::TextList(vec![])));
    assert_eq!(coerce(&Value::List(vec![text("a"), num(1)]), ParamType::TextList), None);
    assert_eq!(coerce(&text("a"), ParamType::TextList), None);
}

#[test]
fn coerce_generic_keeps_the_value() {
    for v in [Value::Null, Value::Bool(false), num(0), text("x"), Value::List(vec![Value::Null])] {
        assert_eq!(coerce(&v, ParamType::Generic), Some(Bound::Any(v.clone())));
        assert_eq!(coerce(&v, ParamType::AcceptsMissing), Some(Bound::Any(v.clone())));
    }
}

#[test]
fn bind_positional_reports_an_absent_argument() {
    let p = param("a", ParamType::Integer);
    assert_eq!(
        bind_positional("add", &p, &Lookup::Absent),
        Err(HelperError::MissingParameter { helper: "add".to_string(), param: "a".to_string() })
    );
    let g = param("x", ParamType::Generic);
    assert_eq!(
        bind_positional("not", &g, &Lookup::Absent),
        Err(HelperError::MissingParameter { helper: "not".to_string(), param: "x".to_string() })
    );
}

#[test]
fn bind_positional_hands_absence_to_a_parameter_that_accepts_it() {
    let p = param("a", ParamType::AcceptsMissing);
    assert_eq!(bind_positional("isdef", &p, &Lookup::Absent), Ok(Bound::Absent));
    assert_eq!(
        bind_positional("isdef", &p, &Lookup::Present(Value::Null)),
        Ok(Bound::Any(Value::Null))
    );
}

#[test]
fn bind_positional_reports_a_value_of_the_wrong_type() {
    let p = param("b", ParamType::Integer);
    assert_eq!(
        bind_positional("add", &p, &Lookup::Present(text("20"))),
        Err(HelperError::TypeMismatch {
            helper: "add".to_string(),
            param: "b".to_string(),
            expected: ParamType::Integer,
        })
    );
}

#[test]
fn keyword_lookup_finds_the_first_entry() {
    let given = vec![
        ("a".to_string(), num(1)),
        ("b".to_string(), num(2)),
        ("a".to_string(), num(3)),
    ];
    assert_eq!(keyword_lookup(&given, "a"), Some(&num(1)));
    assert_eq!(keyword_lookup(&given, "b"), Some(&num(2)));
    assert_eq!(keyword_lookup(&given, "c"), None);
    assert_eq!(keyword_lookup(&vec![], "a"), None);
}

#[test]
fn bind_keyword_takes_the_default_when_the_call_gives_none() {
    let k = Keyword { name: "include_zero".to_string(), ty: ParamType::Boolean, default: Value::Bool(false) };
    assert_eq!(bind_keyword("or", &k, &vec![]), Ok(Bound::Flag(false)));
    assert_eq!(
        bind_keyword("or", &k, &vec![("other".to_string(), Value::Bool(true))]),
        Ok(Bound::Flag(false))
    );
    assert_eq!(
        bind_keyword("or", &k, &vec![("include_zero".to_string(), Value::Bool(true))]),
        Ok(Bound::Flag(true))
    );
}

#[test]
fn bind_keyword_reports_a_value_of_the_wrong_type() {
    let k = Keyword { name: "include_zero".to_string(), ty: ParamType::Boolean, default: Value::Bool(false) };
    assert_eq!(
        bind_keyword("or", &k, &vec![("include_zero".to_string(), num(1))]),
        Err(HelperError::TypeMismatch {
            helper: "or".to_string(),
            param: "include_zero".to_string(),
            expected: ParamType::Boolean,
        })
    );
    let bad_default = Keyword { name: "n".to_string(), ty: ParamType::Integer, default: text("x") };
    assert_eq!(
        bind_keyword("h", &bad_default, &vec![]),
        Err(HelperError::TypeMismatch {
            helper: "h".to_string(),
            param: "n".to_string(),
            expected: ParamType::Integer,
        })
    );
}

#[test]
fn bind_gives_the_arguments_in_declared_order() {
    let s = spec(
        "splitn",
        vec![
            param("delimiter", ParamType::Text),
            param("count", ParamType::Count),
            param("input", ParamType::Text),
        ],
        vec![Keyword { name: "flag".to_string(), ty: ParamType::Boolean, default: Value::Bool(true) }],
        false,
    );
    let r = bind(&s, &present(vec![text(","), num(2), text("a,b,c")]), &vec![]);
    assert_eq!(
        r,
        Ok(BoundArguments {
            required: vec![
                Bound::Text(",".to_string()),
                Bound::Count(2),
                Bound::Text("a,b,c".to_string()),
            ],
            rest: vec![],
            keywords: vec![("flag".to_string(), Bound::Flag(true))],
        })
    );
}

#[test]
fn bind_checks_the_number_of_arguments_first() {
    let s = spec("add", vec![param("a", ParamType::Integer), param("b", ParamType::Integer)], vec![], false);
    let arity = Err(HelperError::Arity { helper: "add".to_string(), required: 2 });
    assert_eq!(bind(&s, &vec![], &vec![]), arity);
    assert_eq!(bind(&s, &present(vec![num(1)]), &vec![]), arity);
    assert_eq!(bind(&s, &present(vec![num(1), num(2), num(3)]), &vec![]), arity);
    assert_eq!(bind(&s, &present(vec![text("x"), text("y"), text("z")]), &vec![]), arity);
    assert_eq!(bind(&s, &vec![Lookup::Absent], &vec![]), arity);
}

#[test]
fn bind_reports_the_first_parameter_at_fault() {
    let s = spec("add", vec![param("a", ParamType::Integer), param("b", ParamType::Integer)], vec![], false);
    assert_eq!(
        bind(&s, &vec![Lookup::Absent, Lookup::Present(text("x"))], &vec![]),
        Err(HelperError::MissingParameter { helper: "add".to_string(), param: "a".to_string() })
    );
    assert_eq!(
        bind(&s, &vec![Lookup::Present(text("x")), Lookup::Absent], &vec![]),
        Err(HelperError::TypeMismatch {
            helper: "add".to_string(),
            param: "a".to_string(),
            expected: ParamType::Integer,
        })
    );
    assert_eq!(
        bind(&s, &vec![Lookup::Present(num(1)), Lookup::Absent], &vec![]),
        Err(HelperError::MissingParameter { helper: "add".to_string(), param: "b".to_string() })
    );
}

#[test]
fn bind_reports_required_parameters_before_keywords() {
    let s = spec(
        "or",
        vec![param("a", ParamType::Generic)],
        vec![Keyword { name: "include_zero".to_string(), ty: ParamType::Boolean, default: Value::Bool(false) }],
        false,
    );
    assert_eq!(
        bind(&s, &vec![Lookup::Absent], &vec![("include_zero".to_string(), num(1))]),
        Err(HelperError::MissingParameter { helper: "or".to_string(), param: "a".to_string() })
    );
    assert_eq!(
        bind(&s, &present(vec![num(0)]), &vec![("include_zero".to_string(), num(1))]),
        Err(HelperError::TypeMismatch {
            helper: "or".to_string(),
            param: "include_zero".to_string(),
            expected: ParamType::Boolean,
        })
    );
}

#[test]
fn bind_keeps_further_arguments_of_a_variadic_helper() {
    let s = spec("list", vec![param("first", ParamType::Text)], vec![], true);
    assert_eq!(
        bind(&s, &vec![], &vec![]),
        Err(HelperError::Arity { helper: "list".to_string(), required: 1 })
    );
    assert_eq!(
        bind(&s, &present(vec![text("a")]), &vec![]),
        Ok(BoundArguments { required: vec![Bound::Text("a".to_string())], rest: vec![], keywords: vec![] })
    );
    assert_eq!(
        bind(&s, &vec![Lookup::Present(text("a")), Lookup::Absent, Lookup::Present(num(3))], &vec![]),
        Ok(BoundArguments {
            required: vec![Bound::Text("a".to_string())],
            rest: vec![Lookup::Absent, Lookup::Present(num(3))],
            keywords: vec![],
        })
    );
}

#[test]
fn bind_ignores_keywords_that_are_not_declared() {
    let s = spec("not", vec![param("a", ParamType::Generic)], vec![], false);
    assert_eq!(
        bind(&s, &present(vec![Value::Null]), &vec![("extra".to_string(), num(1))]),
        Ok(BoundArguments { required: vec![Bound::Any(Value::Null)], rest: vec![], keywords: vec![] })
    );
}

#[test]
fn bound_keywords_are_found_by_name() {
    let s = spec(
        "h",
        vec![],
        vec![
            Keyword { name: "flag".to_string(), ty: ParamType::Boolean, default: Value::Bool(true) },
            Keyword { name: "n".to_string(), ty: ParamType::Integer, default: num(7) },
        ],
        false,
    );
    let bound = bind(&s, &vec![], &vec![("n".to_string(), num(9))]).unwrap();
    assert_eq!(bound.keyword("flag"), Some(&Bound::Flag(true)));
    assert_eq!(bound.keyword("n"), Some(&Bound::Integer(9)));
    assert_eq!(bound.keyword("other"), None);
}
