use dyon_core::ast::{Call, Expression};
use dyon_core::dispatch::{Expect, Flow, HostAnswer, HostRequest, Step};
use dyon_core::intrinsics::{standard, ArgConstraint, MathFn, Op};
use dyon_core::number::number_of_count;
use dyon_core::render::Piece;
use dyon_core::runtime::{Runtime, RuntimeError};
use dyon_core::variable::{Function, Module, Variable};

fn num(x: f64) -> Variable {
    Variable::Number(x.to_bits())
}

fn text(s: &str) -> Variable {
    Variable::Text(s.to_string())
}

fn lit(v: Variable) -> Expression {
    Expression::Variable(v)
}

fn call(name: &str, args: Vec<Expression>) -> Call {
    Call { name: name.to_string(), args }
}

fn as_text(v: &Variable) -> String {
    match v {
        Variable::Text(t) => t.clone(),
        other => panic!("expected text, found {:?}", other),
    }
}

fn as_number(v: &Variable) -> f64 {
    match v {
        Variable::Number(b) => f64::from_bits(*b),
        other => panic!("expected number, found {:?}", other),
    }
}

fn eval(rt: &mut Runtime, c: Call) -> (Expect, Flow) {
    rt.call_standard(c).expect("evaluation failed")
}

#[test]
fn standard_catalog_descriptors() {
    let table = standard();
    assert_eq!(table.len(), 29);
    let find = |n: &str| table.iter().find(|(k, _)| k == n).map(|(_, d)| d.clone()).unwrap();
    let push = find("push");
    assert_eq!(push.arg_constraints, vec![ArgConstraint::Default, ArgConstraint::Arg(0)]);
    assert!(!push.returns);
    let clone = find("clone");
    assert_eq!(clone.arg_constraints, vec![ArgConstraint::Default]);
    assert!(clone.returns);
    assert!(find("random").arg_constraints.is_empty());
    assert_eq!(find("call").arg_constraints.len(), 3);
    assert!(!find("println").returns);
    let mut names: Vec<&String> = table.iter().map(|(k, _)| k).collect();
    names.sort();
    names.dedup();
    assert_eq!(names.len(), 29);
}

#[test]
fn lookup_by_name() {
    assert_eq!(Op::lookup(&"sqrt".to_string()), Some(Op::Math(MathFn::Sqrt)));
    assert_eq!(Op::lookup(&"to_string".to_string()), Some(Op::ToText));
    assert_eq!(Op::lookup(&"nope".to_string()), None);
    assert_eq!(Op::Push.name(), "push");
}

#[test]
fn count_numbers_are_exact() {
    for n in [0u64, 1, 2, 3, 5, 7, 8, 1000, 123456789, (1u64 << 53) - 1] {
        assert_eq!(number_of_count(n), (n as f64).to_bits(), "count {}", n);
    }
}

#[test]
fn len_of_empty_and_three() {
    let mut rt = Runtime::new();
    let r = eval(&mut rt, call("len", vec![lit(Variable::Array(vec![]))]));
    assert_eq!(r, (Expect::Something, Flow::Continue));
    assert_eq!(as_number(rt.stack.last().unwrap()), 0.0);
    let r = eval(&mut rt, call("len", vec![lit(Variable::Array(vec![num(1.0), num(2.0), num(3.0)]))]));
    assert_eq!(r, (Expect::Something, Flow::Continue));
    assert_eq!(as_number(rt.stack.last().unwrap()), 3.0);
    assert_eq!(rt.stack.len(), 2);
}

#[test]
fn len_through_reference_and_of_scalar() {
    let mut rt = Runtime::new();
    rt.stack.push(Variable::Array(vec![num(1.0), num(2.0)]));
    eval(&mut rt, call("len", vec![lit(Variable::Reference(0))]));
    assert_eq!(as_number(&rt.stack[1]), 2.0);
    let r = rt.call_standard(call("len", vec![lit(num(4.0))]));
    assert!(matches!(r, Err(RuntimeError::ExpectedArray)));
}

#[test]
fn push_through_alias_is_seen_by_other_alias() {
    let mut rt = Runtime::new();
    rt.stack.push(Variable::Array(vec![num(1.0), num(2.0)]));
    rt.stack.push(Variable::Reference(0));
    let r = eval(&mut rt, call("push", vec![lit(Variable::Reference(0)), lit(num(3.0))]));
    assert_eq!(r, (Expect::Nothing, Flow::Continue));
    assert_eq!(rt.stack.len(), 2);
    let seen = rt.resolve(&rt.stack[1]);
    match seen {
        Variable::Array(a) => {
            let xs: Vec<f64> = a.iter().map(as_number).collect();
            assert_eq!(xs, vec![1.0, 2.0, 3.0]);
        }
        other => panic!("expected array, found {:?}", other),
    }
}

#[test]
fn push_needs_reference_to_array() {
    let mut rt = Runtime::new();
    let r = rt.call_standard(call("push", vec![lit(Variable::Array(vec![])), lit(num(1.0))]));
    assert!(matches!(r, Err(RuntimeError::ExpectedReferenceToArray)));
    let mut rt = Runtime::new();
    rt.stack.push(num(1.0));
    let r = rt.call_standard(call("push", vec![lit(Variable::Reference(0)), lit(num(1.0))]));
    assert!(matches!(r, Err(RuntimeError::ExpectedReferenceToArray)));
}

#[test]
fn push_rejects_alias_to_younger_slot() {
    let mut rt = Runtime::new();
    rt.stack.push(Variable::Array(vec![]));
    rt.stack.push(num(9.0));
    let r = rt.call_standard(call("push", vec![lit(Variable::Reference(0)), lit(Variable::Reference(1))]));
    assert!(matches!(r, Err(RuntimeError::DanglingReference)));
}

#[test]
fn clone_is_independent_of_original() {
    let mut rt = Runtime::new();
    rt.stack.push(Variable::Object(vec![("a".to_string(), Variable::Array(vec![num(1.0)]))]));
    rt.stack.push(num(5.0));
    rt.stack.push(Variable::Array(vec![Variable::Reference(1), Variable::Reference(0)]));
    let r = eval(&mut rt, call("clone", vec![lit(Variable::Reference(2))]));
    assert_eq!(r, (Expect::Something, Flow::Continue));
    rt.set_field(&Variable::Reference(0), &"a".to_string(), text("changed")).unwrap();
    let copy = rt.stack.last().unwrap();
    match copy {
        Variable::Array(items) => {
            assert_eq!(items.len(), 2);
            assert_eq!(as_number(&items[0]), 5.0);
            match &items[1] {
                Variable::Object(o) => {
                    assert_eq!(o[0].0, "a");
                    assert!(matches!(&o[0].1, Variable::Array(x) if x.len() == 1));
                }
                other => panic!("expected object, found {:?}", other),
            }
        }
        other => panic!("expected array, found {:?}", other),
    }
    let orig = rt.field(&Variable::Reference(0), &"a".to_string()).unwrap();
    assert_eq!(as_text(&orig), "changed");
}

#[test]
fn clone_of_unsafe_reference_fails() {
    let mut rt = Runtime::new();
    let r = rt.call_standard(call("clone", vec![lit(Variable::Array(vec![Variable::UnsafeReference(7)]))]));
    assert!(matches!(r, Err(RuntimeError::UnclonableReference)));
}

#[test]
fn typeof_names() {
    let mut rt = Runtime::new();
    let values = vec![
        num(1.0),
        Variable::Bool(true),
        text("a"),
        Variable::Object(vec![]),
        Variable::Array(vec![]),
    ];
    let mut names = Vec::new();
    for v in values {
        eval(&mut rt, call("typeof", vec![lit(v)]));
        names.push(as_text(&rt.stack.pop().unwrap()));
    }
    assert_eq!(names, vec!["number", "boolean", "string", "object", "array"]);
    eval(&mut rt, call("typeof", vec![Expression::Call(call("typeof", vec![lit(num(1.0))]))]));
    eval(&mut rt, call("typeof", vec![lit(text("x"))]));
    assert_eq!(as_text(&rt.stack[0]), as_text(&rt.stack[1]));
    assert_eq!(rt.stack.len(), 2);
}

#[test]
fn to_string_of_text_and_number() {
    let mut rt = Runtime::new();
    eval(&mut rt, call("to_string", vec![lit(text("abc"))]));
    assert_eq!(as_text(&rt.stack[0]), "abc");
    rt.stack.push(num(42.0));
    let step = rt.dispatch(Op::ToText, 0).unwrap();
    let bits = match step {
        Step::Host(HostRequest::FormatNumber(b)) => b,
        other => panic!("unexpected step {:?}", other),
    };
    assert_eq!(bits, 42f64.to_bits());
    let formatted = format!("{}", f64::from_bits(bits));
    let e = rt.complete(HostAnswer::Value(Variable::Text(formatted))).unwrap();
    assert_eq!(e, Expect::Something);
    assert_eq!(as_text(&rt.stack[1]), "42");
    assert!(rt.call_stack.is_empty());
    let r = rt.call_standard(call("to_string", vec![lit(Variable::Bool(true))]));
    assert!(matches!(r, Err(RuntimeError::NotConvertible)));
}

#[test]
fn trim_right_strips_trailing_whitespace() {
    let mut rt = Runtime::new();
    eval(&mut rt, call("trim_right", vec![lit(text("  ab c \t\n"))]));
    assert_eq!(as_text(&rt.stack[0]), "  ab c");
    let r = rt.call_standard(call("trim_right", vec![lit(num(1.0))]));
    assert!(matches!(r, Err(RuntimeError::ExpectedText)));
}

fn module_with_f() -> Module {
    Module { functions: vec![Function { name: "f".to_string(), params: 2 }] }
}

#[test]
fn call_missing_function() {
    let mut rt = Runtime::new();
    rt.modules.push(module_with_f());
    rt.stack.push(Variable::ForeignObject(0));
    rt.stack.push(text("missing_fn"));
    rt.stack.push(Variable::Array(vec![]));
    let r = rt.prepare_call();
    assert!(matches!(r, Err(RuntimeError::FunctionNotFound(ref n)) if n == "missing_fn"));
}

#[test]
fn call_arity_mismatch() {
    let mut rt = Runtime::new();
    rt.modules.push(module_with_f());
    rt.stack.push(Variable::ForeignObject(0));
    rt.stack.push(text("f"));
    rt.stack.push(Variable::Array(vec![num(1.0)]));
    let r = rt.prepare_call();
    assert!(matches!(r, Err(RuntimeError::ArityMismatch { expected: 2, found: 1 })));
}

#[test]
fn call_ready_through_dispatch() {
    let mut rt = Runtime::new();
    rt.modules.push(module_with_f());
    rt.stack.push(Variable::ForeignObject(0));
    rt.stack.push(Variable::Reference(0));
    rt.stack.push(text("f"));
    rt.stack.push(Variable::Array(vec![num(1.0), text("x")]));
    match rt.dispatch(Op::CallFn, 0).unwrap() {
        Step::Host(HostRequest::Call(c)) => {
            assert_eq!(c.module, 0);
            assert_eq!(c.fn_name, "f");
            assert_eq!(c.args.len(), 2);
        }
        other => panic!("unexpected step {:?}", other),
    }
    assert_eq!(rt.stack.len(), 1);
    assert_eq!(rt.complete(HostAnswer::Nothing).unwrap(), Expect::Nothing);
}

#[test]
fn call_needs_module() {
    let mut rt = Runtime::new();
    rt.stack.push(num(1.0));
    rt.stack.push(text("f"));
    rt.stack.push(Variable::Array(vec![]));
    assert!(matches!(rt.prepare_call(), Err(RuntimeError::ExpectedForeignObject)));
}

#[test]
fn load_registers_module() {
    let mut rt = Runtime::new();
    rt.stack.push(text("fn f(a, b) {}"));
    match rt.dispatch(Op::Load, 0).unwrap() {
        Step::Host(HostRequest::Load(src)) => assert_eq!(src, "fn f(a, b) {}"),
        other => panic!("unexpected step {:?}", other),
    }
    assert_eq!(rt.complete(HostAnswer::Module(module_with_f())).unwrap(), Expect::Something);
    assert!(matches!(rt.stack[0], Variable::ForeignObject(0)));
    assert_eq!(rt.modules.len(), 1);
}

#[test]
fn load_source_imports_merges_namespaces() {
    let mut rt = Runtime::new();
    rt.modules.push(module_with_f());
    rt.modules.push(Module { functions: vec![Function { name: "g".to_string(), params: 0 }] });
    rt.stack.push(Variable::ForeignObject(1));
    rt.stack.push(text("src"));
    rt.stack.push(Variable::Array(vec![Variable::ForeignObject(0), Variable::Reference(0)]));
    match rt.dispatch(Op::LoadSourceImports, 0).unwrap() {
        Step::Host(HostRequest::LoadImports { source, namespace }) => {
            assert_eq!(source, "src");
            let names: Vec<&str> = namespace.functions.iter().map(|f| f.name.as_str()).collect();
            assert_eq!(names, vec!["f", "g"]);
        }
        other => panic!("unexpected step {:?}", other),
    }
}

#[test]
fn nested_calls_leave_only_results() {
    let mut rt = Runtime::new();
    rt.stack.push(Variable::Array(vec![]));
    let inner = call("len", vec![lit(Variable::Array(vec![num(1.0)]))]);
    let outer = call("push", vec![lit(Variable::Reference(0)), Expression::Call(inner)]);
    assert_eq!(eval(&mut rt, outer), (Expect::Nothing, Flow::Continue));
    assert_eq!(rt.stack.len(), 1);
    let deep = call(
        "typeof",
        vec![Expression::Call(call("to_string", vec![Expression::Call(call("trim_right", vec![lit(text("a "))]))]))],
    );
    assert_eq!(eval(&mut rt, deep), (Expect::Something, Flow::Continue));
    assert_eq!(rt.stack.len(), 2);
    assert!(rt.call_stack.is_empty());
    match &rt.stack[0] {
        Variable::Array(a) => assert_eq!(as_number(&a[0]), 1.0),
        other => panic!("expected array, found {:?}", other),
    }
}

#[test]
fn return_in_argument_stops_the_call() {
    let mut rt = Runtime::new();
    let c = call("len", vec![Expression::Return(Box::new(lit(num(1.0))))]);
    assert_eq!(eval(&mut rt, c), (Expect::Something, Flow::Return));
    assert_eq!(rt.stack.len(), 1);
}

#[test]
fn unknown_operation_and_host_operation() {
    let mut rt = Runtime::new();
    let r = rt.call_standard(call("frobnicate", vec![]));
    assert!(matches!(r, Err(RuntimeError::UnknownFunction(ref n)) if n == "frobnicate"));
    let r = rt.call_standard(call("sqrt", vec![lit(num(4.0))]));
    assert!(matches!(r, Err(RuntimeError::HostOperation(ref n)) if n == "sqrt"));
    let r = rt.call_standard(call("len", vec![]));
    assert!(matches!(r, Err(RuntimeError::ArityMismatch { expected: 1, found: 0 })));
}

#[test]
fn math_request_carries_the_number() {
    let mut rt = Runtime::new();
    rt.stack.push(num(2.5));
    match rt.dispatch(Op::Math(MathFn::Round), 0).unwrap() {
        Step::Host(HostRequest::Math(MathFn::Round, b)) => {
            let x = f64::from_bits(b).round();
            assert_eq!(x, 3.0);
            rt.complete(HostAnswer::Value(num(x))).unwrap();
        }
        other => panic!("unexpected step {:?}", other),
    }
    assert_eq!(as_number(&rt.stack[0]), 3.0);
    rt.stack.push(text("no"));
    assert!(matches!(rt.dispatch(Op::Math(MathFn::Sqrt), 0), Err(RuntimeError::ExpectedNumber)));
}

#[test]
fn println_renders_display_form() {
    let mut rt = Runtime::new();
    rt.stack.push(Variable::Object(vec![
        ("title".to_string(), text("x")),
        ("n".to_string(), Variable::Array(vec![num(1.0), Variable::Bool(false)])),
    ]));
    rt.stack.push(Variable::Reference(0));
    match rt.dispatch(Op::Println, 0).unwrap() {
        Step::Host(HostRequest::Print { pieces, newline }) => {
            assert!(newline);
            let s: String = pieces
                .iter()
                .map(|p| match p {
                    Piece::Text(t) => t.clone(),
                    Piece::Number(b) => format!("{}", f64::from_bits(*b)),
                })
                .collect();
            assert_eq!(s, "{title: x, n: [1, false]}");
        }
        other => panic!("unexpected step {:?}", other),
    }
    assert_eq!(rt.complete(HostAnswer::Nothing).unwrap(), Expect::Nothing);
    rt.stack.push(Variable::Return);
    assert!(matches!(rt.dispatch(Op::Print, 0), Err(RuntimeError::NotPrintable)));
}

#[test]
fn complete_checks_frame() {
    let mut rt = Runtime::new();
    assert!(matches!(rt.complete(HostAnswer::Nothing), Err(RuntimeError::FrameMismatch)));
    match rt.dispatch(Op::Random, 0).unwrap() {
        Step::Host(HostRequest::Random) => {}
        other => panic!("unexpected step {:?}", other),
    }
    assert!(matches!(rt.complete(HostAnswer::Nothing), Err(RuntimeError::FrameMismatch)));
    assert_eq!(rt.complete(HostAnswer::Value(num(0.5))).unwrap(), Expect::Something);
}

#[test]
fn empty_stack_is_reported() {
    let mut rt = Runtime::new();
    assert!(matches!(rt.dispatch(Op::Len, 0), Err(RuntimeError::NoValueOnStack)));
}

#[test]
fn record_title_mutated_through_alias() {
    let mut rt = Runtime::new();
    rt.stack.push(Variable::Object(vec![("title".to_string(), text("(no title)"))]));
    let window = Variable::Reference(0);
    let key = "title".to_string();
    assert_eq!(as_text(&rt.field(&window, &key).unwrap()), "(no title)");
    rt.set_field(&window, &key, text("hello world!")).unwrap();
    assert_eq!(as_text(&rt.field(&window, &key).unwrap()), "hello world!");
    assert!(matches!(rt.field(&window, &"other".to_string()), Err(RuntimeError::NoSuchField(_))));
    assert!(matches!(rt.set_field(&text("x"), &key, num(1.0)), Err(RuntimeError::ExpectedObject)));
}

#[test]
fn bindings_shadow_and_frames_drop_them() {
    let mut rt = Runtime::new();
    rt.stack.push(num(1.0));
    rt.stack.push(num(2.0));
    rt.bind("x".to_string(), 0);
    rt.push_fn("f".to_string(), 2, rt.local_stack.len());
    rt.bind("x".to_string(), 1);
    rt.bind("y".to_string(), 1);
    assert_eq!(rt.local(&"x".to_string()), Some(1));
    assert_eq!(rt.local(&"z".to_string()), None);
    assert!(matches!(rt.pop_fn(&"g".to_string()), Err(RuntimeError::FrameMismatch)));
    rt.pop_fn(&"f".to_string()).unwrap();
    assert_eq!(rt.local(&"x".to_string()), Some(0));
    assert_eq!(rt.local(&"y".to_string()), None);
    assert!(rt.call_stack.is_empty());
}

#[test]
fn reference_chains_resolve() {
    let mut rt = Runtime::new();
    rt.stack.push(text("end"));
    rt.stack.push(Variable::Reference(0));
    rt.stack.push(Variable::Reference(1));
    assert_eq!(as_text(rt.resolve(&Variable::Reference(2))), "end");
    assert_eq!(as_text(rt.resolve_at(1)), "end");
    let c = rt.deep_clone(&Variable::Array(vec![Variable::Reference(2)]), 3).unwrap();
    match c {
        Variable::Array(a) => assert_eq!(as_text(&a[0]), "end"),
        other => panic!("expected array, found {:?}", other),
    }
}

#[test]
fn objects_with_repeated_keys_are_refused() {
    let dup = || Variable::Object(vec![("a".to_string(), num(1.0)), ("a".to_string(), num(2.0))]);
    let mut rt = Runtime::new();
    let r = rt.call_standard(call("typeof", vec![lit(dup())]));
    assert!(matches!(r, Err(RuntimeError::DuplicateKey)));
    rt.stack.push(Variable::Object(vec![("a".to_string(), num(1.0))]));
    let r = rt.set_field(&Variable::Reference(0), &"a".to_string(), Variable::Array(vec![dup()]));
    assert!(matches!(r, Err(RuntimeError::DuplicateKey)));
    match rt.dispatch(Op::Random, 0).unwrap() {
        Step::Host(HostRequest::Random) => {}
        other => panic!("unexpected step {:?}", other),
    }
    assert!(matches!(rt.complete(HostAnswer::Value(dup())), Err(RuntimeError::DuplicateKey)));
}
