use hbs_helpers::binder::{HelperSpec, Keyword, Param, ParamType};
use hbs_helpers::customhelper::{
    add_logic_helpers, build_registry, IsDefined, IsDefinedPass, IsUndefined,
};
use hbs_helpers::fault::{Fault, HelperError};
use hbs_helpers::ops::{HelperOp};
use hbs_helpers::registry::{call_op, evaluate_helper, fits, HelperCall, Registry};
use hbs_helpers::signature::{name_of, signature};
use hbs_helpers::sprig::{add_date_helpers, add_math_helpers, add_str_helpers};
use hbs_helpers::value::{Lookup, Number, Value};

fn text(s: &str) -> Value {
    Value::Text(s.to_string())
}

fn num(i: i128) -> Value {
    Value::Number(Number::Integer(i))
}

fn texts(items: &[&str]) -> Value {
    Value::List(items.iter().map(|s| text(s)).collect())
}

fn call(name: &str, params: Vec<Value>) -> HelperCall {
    HelperCall {
        name: name.to_string(),
        params: params.into_iter().map(Lookup::Present).collect(),
        hash: vec![],
    }
}

fn call_with(name: &str, params: Vec<Lookup>, hash: Vec<(&str, Value)>) -> HelperCall {
    HelperCall {
        name: name.to_string(),
        params,
        hash: hash.into_iter().map(|(k, v)| (k.to_string(), v)).collect(),
    }
}

fn run(name: &str, params: Vec<Value>) -> Result<Value, HelperError> {
    evaluate_helper(&build_registry(), &call(name, params))
}

fn arity(helper: &str, required: usize) -> Result<Value, HelperError> {
    Err(HelperError::Arity { helper: helper.to_string(), required })
}

fn missing(helper: &str, param: &str) -> Result<Value, HelperError> {
    Err(HelperError::MissingParameter { helper: helper.to_string(), param: param.to_string() })
}

fn mismatch(helper: &str, param: &str, expected: ParamType) -> Result<Value, HelperError> {
    Err(HelperError::TypeMismatch { helper: helper.to_string(), param: param.to_string(), expected })
}

fn fault(helper: &str, fault: Fault) -> Result<Value, HelperError> {
    Err(HelperError::Runtime { helper: helper.to_string(), fault })
}

#[test]
fn a_new_registry_knows_no_helper() {
    let r = Registry::new();
    assert!(r.lookup("add").is_none());
    assert!(r.names().is_empty());
    assert_eq!(
        evaluate_helper(&r, &call("add", vec![num(1), num(2)])),
        Err(HelperError::UnknownHelper { name: "add".to_string() })
    );
}

#[test]
fn register_then_lookup() {
    let mut r = Registry::new();
    r.register("plus".to_string(), signature(HelperOp::Add, "plus"), HelperOp::Add);
    let e = r.lookup("plus").unwrap();
    assert_eq!(e.name, "plus");
    assert_eq!(e.op, HelperOp::Add);
    assert_eq!(e.spec, signature(HelperOp::Add, "plus"));
    assert!(r.lookup("add").is_none());
    assert_eq!(r.names(), vec!["plus".to_string()]);
    assert_eq!(evaluate_helper(&r, &call("plus", vec![num(1), num(2)])), Ok(num(3)));
}

#[test]
fn registering_a_name_again_replaces_the_helper() {
    let mut r = Registry::new();
    r.register("op".to_string(), signature(HelperOp::Add, "op"), HelperOp::Add);
    r.register("other".to_string(), signature(HelperOp::Sub, "other"), HelperOp::Sub);
    assert_eq!(evaluate_helper(&r, &call("op", vec![num(6), num(3)])), Ok(num(9)));
    r.register("op".to_string(), signature(HelperOp::Mul, "op"), HelperOp::Mul);
    assert_eq!(r.lookup("op").unwrap().op, HelperOp::Mul);
    assert_eq!(evaluate_helper(&r, &call("op", vec![num(6), num(3)])), Ok(num(18)));
    assert_eq!(evaluate_helper(&r, &call("other", vec![num(6), num(3)])), Ok(num(3)));
    assert_eq!(r.names(), vec!["op".to_string(), "other".to_string()]);
}

#[test]
fn a_registration_that_does_not_suit_its_operation_is_reported() {
    let mut r = Registry::new();
    r.register("add".to_string(), signature(HelperOp::Upper, "add"), HelperOp::Add);
    assert_eq!(
        evaluate_helper(&r, &call("add", vec![num(1), num(2)])),
        Err(HelperError::Signature { helper: "add".to_string() })
    );
}

#[test]
fn declared_names_and_defaults_are_the_hosts() {
    let spec = HelperSpec {
        name: "either".to_string(),
        required: vec![
            Param { name: "left".to_string(), ty: ParamType::AcceptsMissing },
            Param { name: "right".to_string(), ty: ParamType::AcceptsMissing },
        ],
        keywords: vec![Keyword {
            name: "zero".to_string(),
            ty: ParamType::Boolean,
            default: Value::Bool(true),
        }],
        variadic: false,
    };
    assert!(fits(HelperOp::Or, &spec));
    let mut r = Registry::new();
    r.register("either".to_string(), spec, HelperOp::Or);
    assert_eq!(evaluate_helper(&r, &call("either", vec![num(0), num(0)])), Ok(Value::Bool(true)));
    assert_eq!(
        evaluate_helper(
            &r,
            &call_with(
                "either",
                vec![Lookup::Present(num(0)), Lookup::Present(num(0))],
                vec![("zero", Value::Bool(false))]
            )
        ),
        Ok(Value::Bool(false))
    );
}

#[test]
fn fits_compares_the_types() {
    for op in [HelperOp::Add, HelperOp::Or, HelperOp::Splitn, HelperOp::RandInt, HelperOp::IsDefinedPass] {
        assert!(fits(op, &signature(op, name_of(op))));
    }
    assert!(!fits(HelperOp::Add, &signature(HelperOp::Or, "add")));
    assert!(!fits(HelperOp::Add, &signature(HelperOp::Not, "add")));
    assert!(!fits(HelperOp::Trunc, &signature(HelperOp::Split, "trunc")));
    assert!(!fits(HelperOp::And, &signature(HelperOp::Or, "and")));
}

#[test]
fn the_families_register_their_helpers() {
    let mut r = Registry::new();
    add_math_helpers(&mut r);
    assert_eq!(r.names(), vec!["add", "sub", "mul", "div", "mod", "max", "min", "rand_int"]);
    let mut r = Registry::new();
    add_str_helpers(&mut r);
    assert_eq!(
        r.names(),
        vec![
            "upper", "lower", "trunc", "abbrev", "plural", "trim", "join", "split", "splitn",
            "sort_alpha", "trim_suffix", "trim_prefix", "trim_all"
        ]
    );
    let mut r = Registry::new();
    add_date_helpers(&mut r);
    assert_eq!(r.names(), vec!["date_format", "now"]);
    let mut r = Registry::new();
    add_logic_helpers(&mut r);
    assert_eq!(r.names(), vec!["or", "and", "not", "xor", "isdef", "isdef_pass", "isundef"]);
    assert_eq!(build_registry().names().len(), 30);
}

#[test]
fn every_helper_is_registered_with_its_own_signature() {
    let registry = build_registry();
    for name in registry.names() {
        let e = registry.lookup(&name).unwrap();
        assert_eq!(name_of(e.op), name);
        assert_eq!(e.spec, signature(e.op, &name));
        assert!(fits(e.op, &e.spec));
    }
}

#[test]
fn logic_truth_tables() {
    for a in [false, true] {
        for b in [false, true] {
            let args = || vec![Value::Bool(a), Value::Bool(b)];
            assert_eq!(run("and", args()), Ok(Value::Bool(a && b)));
            assert_eq!(run("or", args()), Ok(Value::Bool(a || b)));
            assert_eq!(run("xor", args()), Ok(Value::Bool(a != b)));
        }
        assert_eq!(run("not", vec![Value::Bool(a)]), Ok(Value::Bool(!a)));
    }
}

#[test]
fn logic_helpers_read_operands_by_their_truth() {
    assert_eq!(run("and", vec![text("x"), num(1)]), Ok(Value::Bool(true)));
    assert_eq!(run("and", vec![text("x"), num(0)]), Ok(Value::Bool(false)));
    assert_eq!(run("and", vec![text(""), num(1)]), Ok(Value::Bool(false)));
    assert_eq!(run("or", vec![Value::Null, texts(&[])]), Ok(Value::Bool(false)));
    assert_eq!(run("or", vec![Value::Null, texts(&["a"])]), Ok(Value::Bool(true)));
    assert_eq!(run("not", vec![Value::Null]), Ok(Value::Bool(true)));
    assert_eq!(run("not", vec![text("a")]), Ok(Value::Bool(false)));
    assert_eq!(run("xor", vec![num(5), Value::Null]), Ok(Value::Bool(true)));
    assert_eq!(run("xor", vec![num(5), text("a")]), Ok(Value::Bool(false)));
}

#[test]
fn or_includes_zero_on_request() {
    let registry = build_registry();
    let zeros = || vec![Lookup::Present(num(0)), Lookup::Present(num(0))];
    assert_eq!(
        evaluate_helper(&registry, &call_with("or", zeros(), vec![])),
        Ok(Value::Bool(false))
    );
    assert_eq!(
        evaluate_helper(&registry, &call_with("or", zeros(), vec![("include_zero", Value::Bool(true))])),
        Ok(Value::Bool(true))
    );
    assert_eq!(
        evaluate_helper(&registry, &call_with("or", zeros(), vec![("include_zero", num(1))])),
        mismatch("or", "include_zero", ParamType::Boolean)
    );
}

#[test]
fn or_reads_an_absent_operand_as_false() {
    let registry = build_registry();
    assert_eq!(
        evaluate_helper(
            &registry,
            &call_with("or", vec![Lookup::Present(Value::Bool(true)), Lookup::Absent], vec![])
        ),
        Ok(Value::Bool(true))
    );
    assert_eq!(
        evaluate_helper(&registry, &call_with("or", vec![Lookup::Absent, Lookup::Absent], vec![])),
        Ok(Value::Bool(false))
    );
}

#[test]
fn logic_helpers_report_binding_errors() {
    let registry = build_registry();
    assert_eq!(run("and", vec![Value::Bool(true)]), arity("and", 2));
    assert_eq!(run("not", vec![]), arity("not", 1));
    assert_eq!(run("or", vec![Value::Bool(true)]), arity("or", 2));
    assert_eq!(
        evaluate_helper(
            &registry,
            &call_with("and", vec![Lookup::Present(Value::Bool(true)), Lookup::Absent], vec![])
        ),
        missing("and", "b")
    );
    assert_eq!(
        evaluate_helper(&registry, &call_with("xor", vec![Lookup::Absent, Lookup::Absent], vec![])),
        missing("xor", "a")
    );
}

#[test]
fn math_helpers_compute() {
    assert_eq!(run("add", vec![num(10), num(20)]), Ok(num(30)));
    assert_eq!(run("sub", vec![num(10), num(20)]), Ok(num(-10)));
    assert_eq!(run("mul", vec![num(10), num(20)]), Ok(num(200)));
    assert_eq!(run("div", vec![num(20), num(6)]), Ok(num(3)));
    assert_eq!(run("div", vec![num(-20), num(6)]), Ok(num(-3)));
    assert_eq!(run("mod", vec![num(20), num(6)]), Ok(num(2)));
    assert_eq!(run("mod", vec![num(-20), num(6)]), Ok(num(-2)));
    assert_eq!(run("max", vec![num(10), num(20)]), Ok(num(20)));
    assert_eq!(run("min", vec![num(10), num(20)]), Ok(num(10)));
}

#[test]
fn division_by_zero_is_reported() {
    assert_eq!(run("div", vec![num(1), num(0)]), fault("div", Fault::DivisionByZero));
    assert_eq!(run("mod", vec![num(1), num(0)]), fault("mod", Fault::DivisionByZero));
    assert_eq!(run("div", vec![num(0), num(0)]), fault("div", Fault::DivisionByZero));
}

#[test]
fn overflow_is_reported() {
    let max = num(i128::from(i64::MAX));
    let min = num(i128::from(i64::MIN));
    assert_eq!(run("add", vec![max.clone(), num(1)]), fault("add", Fault::Overflow));
    assert_eq!(run("sub", vec![min.clone(), num(1)]), fault("sub", Fault::Overflow));
    assert_eq!(run("mul", vec![max, num(2)]), fault("mul", Fault::Overflow));
    assert_eq!(run("div", vec![min, num(-1)]), fault("div", Fault::Overflow));
}

#[test]
fn math_helpers_report_binding_errors() {
    let registry = build_registry();
    assert_eq!(run("add", vec![num(1)]), arity("add", 2));
    assert_eq!(run("add", vec![num(1), num(2), num(3)]), arity("add", 2));
    assert_eq!(run("rand_int", vec![num(1)]), arity("rand_int", 0));
    assert_eq!(run("add", vec![num(1), text("2")]), mismatch("add", "b", ParamType::Integer));
    assert_eq!(
        run("div", vec![Value::Number(Number::Real(1.5f64.to_bits())), num(2)]),
        mismatch("div", "a", ParamType::Integer)
    );
    assert_eq!(
        evaluate_helper(&registry, &call_with("add", vec![Lookup::Present(num(1)), Lookup::Absent], vec![])),
        missing("add", "b")
    );
}

#[test]
fn rand_int_gives_an_integer_that_is_not_negative() {
    let mut seen = vec![];
    for _ in 0..8 {
        match run("rand_int", vec![]) {
            Ok(Value::Number(Number::Integer(n))) => {
                assert!(n >= 0);
                assert!(n <= usize::MAX as i128);
                seen.push(n);
            }
            other => panic!("not an integer: {:?}", other),
        }
    }
    assert!(seen.iter().any(|n| *n != seen[0]));
}

#[test]
fn string_helpers_compute() {
    assert_eq!(run("upper", vec![text("héllo")]), Ok(text("HÉLLO")));
    assert_eq!(run("lower", vec![text("HÉLLO")]), Ok(text("héllo")));
    assert_eq!(run("upper", vec![text("straße")]), Ok(text("STRASSE")));
    assert_eq!(run("trunc", vec![num(3), text("hello")]), Ok(text("hel")));
    assert_eq!(run("abbrev", vec![num(3), text("hello")]), Ok(text("hel")));
    assert_eq!(run("abbrev", vec![num(8), text("hello")]), Ok(text("hello")));
    assert_eq!(run("abbrev", vec![num(5), text("helloworld")]), Ok(text("he...")));
    assert_eq!(run("trim", vec![text("  a b  ")]), Ok(text("a b")));
    assert_eq!(run("plural", vec![num(1), text("cat"), text("cats")]), Ok(text("cat")));
    assert_eq!(run("plural", vec![num(3), text("cat"), text("cats")]), Ok(text("cats")));
    assert_eq!(run("join", vec![text("-"), texts(&["a", "b", "c"])]), Ok(text("a-b-c")));
    assert_eq!(run("split", vec![text("-"), text("a-b-c")]), Ok(texts(&["a", "b", "c"])));
    assert_eq!(run("splitn", vec![text("-"), num(2), text("a-b-c")]), Ok(texts(&["a", "b-c"])));
    assert_eq!(run("sort_alpha", vec![texts(&["c", "a", "b"])]), Ok(texts(&["a", "b", "c"])));
    assert_eq!(run("trim_suffix", vec![text(".rs"), text("main.rs")]), Ok(text("main")));
    assert_eq!(run("trim_prefix", vec![text("un"), text("undo")]), Ok(text("do")));
    assert_eq!(run("trim_all", vec![text("*"), text("*bold*")]), Ok(text("bold")));
}

#[test]
fn string_helpers_report_binding_errors() {
    let registry = build_registry();
    assert_eq!(run("upper", vec![]), arity("upper", 1));
    assert_eq!(run("trunc", vec![num(3)]), arity("trunc", 2));
    assert_eq!(run("upper", vec![num(3)]), mismatch("upper", "s", ParamType::Text));
    assert_eq!(run("trunc", vec![num(-1), text("a")]), mismatch("trunc", "l", ParamType::Count));
    assert_eq!(run("trunc", vec![text("3"), text("a")]), mismatch("trunc", "l", ParamType::Count));
    assert_eq!(
        run("join", vec![text(","), Value::List(vec![text("a"), num(1)])]),
        mismatch("join", "elements", ParamType::TextList)
    );
    assert_eq!(run("sort_alpha", vec![text("abc")]), mismatch("sort_alpha", "input", ParamType::TextList));
    assert_eq!(
        evaluate_helper(&registry, &call_with("split", vec![Lookup::Present(text(",")), Lookup::Absent], vec![])),
        missing("split", "input")
    );
    assert_eq!(
        evaluate_helper(&registry, &call_with("lower", vec![Lookup::Absent], vec![])),
        missing("lower", "s")
    );
}

#[test]
fn date_helpers_compute() {
    assert_eq!(
        run("date_format", vec![text("%Y/%m/%d"), text("2020-02-29T10:00:00+00:00")]),
        Ok(text("2020/02/29"))
    );
    match run("now", vec![text("%Y")]) {
        Ok(Value::Text(year)) => assert_eq!(year.len(), 4),
        other => panic!("not a text: {:?}", other),
    }
}

#[test]
fn date_helpers_report_errors() {
    let registry = build_registry();
    assert_eq!(run("date_format", vec![text("%Y")]), arity("date_format", 2));
    assert_eq!(run("now", vec![]), arity("now", 1));
    assert_eq!(
        run("date_format", vec![text("%Y"), num(2020)]),
        mismatch("date_format", "date", ParamType::Text)
    );
    assert_eq!(run("now", vec![num(1)]), mismatch("now", "format_string", ParamType::Text));
    assert_eq!(
        evaluate_helper(&registry, &call_with("date_format", vec![Lookup::Absent, Lookup::Absent], vec![])),
        missing("date_format", "format_string")
    );
    assert_eq!(
        run("date_format", vec![text("%Y"), text("no date")]),
        fault("date_format", Fault::InvalidTimestamp)
    );
    assert_eq!(
        run("date_format", vec![text("%Q"), text("2020-02-29T10:00:00Z")]),
        fault("date_format", Fault::InvalidFormat)
    );
    assert_eq!(run("now", vec![text("%Q")]), fault("now", Fault::InvalidFormat));
}

#[test]
fn isdef_tells_a_binding_from_none() {
    let absent = call_with("isdef", vec![Lookup::Absent], vec![]);
    assert_eq!(IsDefined.call_inner(&absent), Ok(Value::Bool(false)));
    assert_eq!(IsUndefined.call_inner(&absent), Ok(Value::Bool(true)));
    for v in [Value::Null, Value::Bool(false), num(0), text("")] {
        let bound = call("isdef", vec![v]);
        assert_eq!(IsDefined.call_inner(&bound), Ok(Value::Bool(true)));
        assert_eq!(IsUndefined.call_inner(&bound), Ok(Value::Bool(false)));
    }
}

#[test]
fn isdef_takes_exactly_one_argument() {
    assert_eq!(IsDefined.call_inner(&call("isdef", vec![])), arity("isdef", 1));
    assert_eq!(IsDefined.call_inner(&call("isdef", vec![num(1), num(2)])), arity("isdef", 1));
    assert_eq!(IsUndefined.call_inner(&call("isundef", vec![])), arity("isundef", 1));
    assert_eq!(
        IsUndefined.call_inner(&call_with("isundef", vec![Lookup::Absent, Lookup::Absent], vec![])),
        arity("isundef", 1)
    );
    assert_eq!(IsDefinedPass.call_inner(&call("isdef_pass", vec![])), arity("isdef_pass", 1));
    assert_eq!(IsDefined.call_inner(&call("renamed", vec![])), arity("renamed", 1));
}

#[test]
fn isdef_pass_is_false_for_absence_and_truth_otherwise() {
    let one = |l: Lookup, hash: Vec<(&str, Value)>| IsDefinedPass.call_inner(&call_with("isdef_pass", vec![l], hash));
    assert_eq!(one(Lookup::Absent, vec![]), Ok(Value::Bool(false)));
    assert_eq!(one(Lookup::Absent, vec![("includeZeros", Value::Bool(true))]), Ok(Value::Bool(false)));
    assert_eq!(one(Lookup::Present(Value::Null), vec![]), Ok(Value::Bool(false)));
    assert_eq!(one(Lookup::Present(text("a")), vec![]), Ok(Value::Bool(true)));
    assert_eq!(one(Lookup::Present(num(0)), vec![]), Ok(Value::Bool(false)));
    assert_eq!(one(Lookup::Present(num(0)), vec![("includeZeros", Value::Bool(true))]), Ok(Value::Bool(true)));
    assert_eq!(one(Lookup::Present(num(0)), vec![("includeZeros", Value::Bool(false))]), Ok(Value::Bool(false)));
    assert_eq!(one(Lookup::Present(num(0)), vec![("includeZeros", text("yes"))]), Ok(Value::Bool(false)));
    assert_eq!(one(Lookup::Present(num(0)), vec![("include_zero", Value::Bool(true))]), Ok(Value::Bool(false)));
}

#[test]
fn the_registry_runs_the_existence_helpers() {
    let registry = build_registry();
    let absent = |name: &str| call_with(name, vec![Lookup::Absent], vec![]);
    assert_eq!(evaluate_helper(&registry, &absent("isdef")), Ok(Value::Bool(false)));
    assert_eq!(evaluate_helper(&registry, &absent("isundef")), Ok(Value::Bool(true)));
    assert_eq!(evaluate_helper(&registry, &absent("isdef_pass")), Ok(Value::Bool(false)));
    assert_eq!(run("isdef", vec![Value::Null]), Ok(Value::Bool(true)));
    assert_eq!(run("isdef", vec![]), arity("isdef", 1));
}

#[test]
fn call_op_binds_with_the_signature_of_the_operation() {
    assert_eq!(call_op(HelperOp::Add, &call("sum", vec![num(2), num(3)])), Ok(num(5)));
    assert_eq!(call_op(HelperOp::Add, &call("sum", vec![num(2)])), arity("sum", 2));
    assert_eq!(
        call_op(HelperOp::Div, &call("ratio", vec![num(2), num(0)])),
        fault("ratio", Fault::DivisionByZero)
    );
}
