use rlisp::environment::Environment;
use rlisp::error::RLError;
use rlisp::eval::{bind_params, evaluate, Natives, NoNatives};
use rlisp::sexpr::SExpr;
use rlisp::value::{Form, Intrinsic, Value};
use rlisp::{eval_all, init_core};

/// Host operators for the tests: `+` over numbers, `sideeffect`, which
/// records its argument and returns it, and `f`, which returns the empty list.
struct TestHost {
    log: Vec<f64>,
}

impl Natives for TestHost {
    fn call(&mut self, name: &String, _env: &mut Environment, args: Vec<Value>) -> Result<Value, RLError> {
        match name.as_str() {
            "+" => {
                let mut sum = 0.0f64;
                for a in &args {
                    match a {
                        Value::Num(bits) => sum += f64::from_bits(*bits),
                        other => return Err(RLError::NotANumber(other.copy())),
                    }
                }
                Ok(Value::Num(sum.to_bits()))
            }
            "sideeffect" => {
                if let Some(Value::Num(bits)) = args.first() {
                    self.log.push(f64::from_bits(*bits));
                }
                Ok(args.into_iter().next().unwrap_or(Value::nil()))
            }
            "f" => Ok(Value::nil()),
            _ => Err(RLError::Host(format!("no operator {}", name))),
        }
    }
}

fn host() -> TestHost {
    TestHost { log: vec![] }
}

fn env() -> Environment {
    let mut env = Environment::new();
    init_core(&mut env);
    env.define_intrinsic("+", Intrinsic::Native("+".to_string()));
    env.define_intrinsic("sideeffect", Intrinsic::Native("sideeffect".to_string()));
    env.define_intrinsic("f", Intrinsic::Native("f".to_string()));
    env
}

fn num(x: f64) -> SExpr {
    SExpr::Num(x.to_bits())
}

fn id(s: &str) -> SExpr {
    SExpr::Ident(s.to_string(), false)
}

fn var(s: &str) -> SExpr {
    SExpr::Ident(s.to_string(), true)
}

fn list(items: Vec<SExpr>) -> SExpr {
    SExpr::List(items)
}

fn run(e: &SExpr, env: &mut Environment, h: &mut TestHost) -> Result<Value, RLError> {
    e.eval(env, h)
}

fn as_num(v: &Value) -> f64 {
    match v {
        Value::Num(bits) => f64::from_bits(*bits),
        other => panic!("not a number: {:?}", other),
    }
}

fn nums(v: &Value) -> Vec<f64> {
    match v {
        Value::List(items) => items.iter().map(as_num).collect(),
        other => panic!("not a list: {:?}", other),
    }
}

#[test]
fn scope_balance_after_success_and_failure() {
    let mut env = env();
    let mut h = host();
    let before = env.scope_count();
    // (define g (lambda (a) (car a))) then (g 5), which fails inside the body.
    let def = list(vec![id("define"), id("g"), list(vec![id("lambda"), list(vec![id("a")]), list(vec![id("car"), id("a")])])]);
    assert!(run(&def, &mut env, &mut h).is_ok());
    let bad = list(vec![id("g"), num(5.0)]);
    assert!(matches!(run(&bad, &mut env, &mut h), Err(RLError::ListExpected(_))));
    assert_eq!(env.scope_count(), before);
    // A failing let and a failing cond leave no scope behind either.
    let bad_let = list(vec![id("let"), list(vec![list(vec![id("a"), id("nothing")])]), id("a")]);
    assert!(matches!(run(&bad_let, &mut env, &mut h), Err(RLError::Unbound(_))));
    let bad_cond = list(vec![id("cond"), list(vec![num(1.0), num(2.0)])]);
    assert!(matches!(run(&bad_cond, &mut env, &mut h), Err(RLError::BoolExpected(_))));
    assert_eq!(env.scope_count(), before);
    // A wrong number of arguments leaves no scope behind.
    let short = list(vec![id("g")]);
    assert!(matches!(run(&short, &mut env, &mut h), Err(RLError::ArityExact(1, 0))));
    assert_eq!(env.scope_count(), before);
}

#[test]
fn arity_exactness_of_two_parameters() {
    let mut env = env();
    let mut h = host();
    let def = list(vec![id("define"), id("two"), list(vec![id("lambda"), list(vec![id("a"), id("b")]), id("b")])]);
    run(&def, &mut env, &mut h).unwrap();
    let one = list(vec![id("two"), num(1.0)]);
    assert!(matches!(run(&one, &mut env, &mut h), Err(RLError::ArityExact(2, 1))));
    let three = list(vec![id("two"), num(1.0), num(2.0), num(3.0)]);
    assert!(matches!(run(&three, &mut env, &mut h), Err(RLError::ArityExact(2, 3))));
    let two = list(vec![id("two"), num(1.0), num(2.0)]);
    assert_eq!(as_num(&run(&two, &mut env, &mut h).unwrap()), 2.0);
}

#[test]
fn variadic_binding() {
    let params = vec!["a".to_string(), "b".to_string(), "rest".to_string()];
    let n = |x: f64| Value::Num(x.to_bits());
    let scope = bind_params(&params, &vec![n(1.0), n(2.0), n(3.0), n(4.0)], true).ok().unwrap();
    assert_eq!(as_num(&scope.lookup(&"a".to_string()).unwrap()), 1.0);
    assert_eq!(as_num(&scope.lookup(&"b".to_string()).unwrap()), 2.0);
    assert_eq!(nums(&scope.lookup(&"rest".to_string()).unwrap()), vec![3.0, 4.0]);
    let scope = bind_params(&params, &vec![n(1.0), n(2.0)], true).ok().unwrap();
    assert_eq!(nums(&scope.lookup(&"rest".to_string()).unwrap()), Vec::<f64>::new());
    assert!(matches!(bind_params(&params, &vec![n(1.0)], true), Err(RLError::ArityAtLeast(2, 1))));

    // The same through evaluation: ((lambda (a b rest...) rest) 1 2 3 4)
    let mut env = env();
    let mut h = host();
    let lam = list(vec![id("lambda"), list(vec![id("a"), id("b"), var("rest")]), id("rest")]);
    let call = list(vec![lam.copy(), num(1.0), num(2.0), num(3.0), num(4.0)]);
    assert_eq!(nums(&run(&call, &mut env, &mut h).unwrap()), vec![3.0, 4.0]);
    let call = list(vec![lam.copy(), num(1.0)]);
    assert!(matches!(run(&call, &mut env, &mut h), Err(RLError::ArityAtLeast(2, 1))));
}

#[test]
fn super_scope_resolution() {
    let mut env = env();
    let mut h = host();
    env.define("x".to_string(), Value::Num(1.0f64.to_bits()));
    env.enter_scope();
    env.define("x".to_string(), Value::Num(2.0f64.to_bits()));
    env.enter_scope();
    env.define("x".to_string(), Value::Num(3.0f64.to_bits()));
    assert_eq!(as_num(&run(&id("#super:x"), &mut env, &mut h).unwrap()), 2.0);
    assert_eq!(as_num(&run(&id("x"), &mut env, &mut h).unwrap()), 3.0);
    match run(&id("#super:nothing"), &mut env, &mut h) {
        Err(RLError::Unbound(name)) => assert_eq!(name, "nothing"),
        other => panic!("{:?}", other),
    }
    env.exit_scope();
    env.exit_scope();
    // With one scope open, the super lookup goes to the base scope, which is empty.
    assert!(matches!(run(&id("#super:x"), &mut env, &mut h), Err(RLError::Unbound(_))));
}

#[test]
fn struct_round_trip() {
    let mut env = env();
    let mut h = host();
    let def = list(vec![id("define-struct"), id("Point"), list(vec![id("x"), id("y")])]);
    assert!(matches!(run(&def, &mut env, &mut h), Ok(Value::List(ref v)) if v.is_empty()));
    let make = list(vec![id("define"), id("it"), list(vec![id("make-Point"), num(3.0), num(4.0)])]);
    run(&make, &mut env, &mut h).unwrap();
    let x = run(&list(vec![id("Point-x"), id("it")]), &mut env, &mut h).unwrap();
    assert_eq!(as_num(&x), 3.0);
    let y = run(&list(vec![id("Point-y"), id("it")]), &mut env, &mut h).unwrap();
    assert_eq!(as_num(&y), 4.0);
    let p = run(&list(vec![id("Point?"), id("it")]), &mut env, &mut h).unwrap();
    assert!(matches!(p, Value::Bool(true)));
    let q = run(&list(vec![id("Point?"), num(5.0)]), &mut env, &mut h).unwrap();
    assert!(matches!(q, Value::Bool(false)));
    // The constructor checks the number of fields.
    let bad = list(vec![id("make-Point"), num(3.0)]);
    assert!(matches!(run(&bad, &mut env, &mut h), Err(RLError::ArityExact(2, 1))));
    // The instance's expression form.
    let it = run(&id("it"), &mut env, &mut h).unwrap();
    match it.to_sexpr() {
        Ok(SExpr::List(items)) => {
            assert_eq!(items.len(), 3);
            assert!(matches!(&items[0], SExpr::Ident(s, false) if s == "make-Point"));
        }
        other => panic!("{:?}", other),
    }
}

#[test]
fn sequential_let() {
    let mut env = env();
    let mut h = host();
    // (let ((a 1) (b (+ a 1))) b)
    let e = list(vec![
        id("let"),
        list(vec![list(vec![id("a"), num(1.0)]), list(vec![id("b"), list(vec![id("+"), id("a"), num(1.0)])])]),
        id("b"),
    ]);
    assert_eq!(as_num(&run(&e, &mut env, &mut h).unwrap()), 2.0);
}

#[test]
fn left_to_right_side_effects() {
    let mut env = env();
    let mut h = host();
    let e = list(vec![id("f"), list(vec![id("sideeffect"), num(1.0)]), list(vec![id("sideeffect"), num(2.0)])]);
    run(&e, &mut env, &mut h).unwrap();
    assert_eq!(h.log, vec![1.0, 2.0]);
}

#[test]
fn atoms_and_quotes() {
    let mut env = env();
    let mut h = host();
    assert_eq!(as_num(&run(&num(7.5), &mut env, &mut h).unwrap()), 7.5);
    assert!(matches!(run(&SExpr::Bool(true), &mut env, &mut h), Ok(Value::Bool(true))));
    assert!(matches!(run(&SExpr::Str("hi".to_string()), &mut env, &mut h), Ok(Value::Str(ref s)) if s == "hi"));
    assert!(matches!(run(&SExpr::Nil, &mut env, &mut h), Ok(Value::List(ref v)) if v.is_empty()));
    assert!(matches!(run(&list(vec![]), &mut env, &mut h), Ok(Value::List(ref v)) if v.is_empty()));
    let q = SExpr::Quote(Box::new(list(vec![id("a"), num(1.0)])));
    match run(&q, &mut env, &mut h).unwrap() {
        Value::List(items) => {
            assert!(matches!(&items[0], Value::Symbol(s, false) if s == "a"));
            assert_eq!(as_num(&items[1]), 1.0);
        }
        other => panic!("{:?}", other),
    }
}

#[test]
fn errors_of_evaluation() {
    let mut env = env();
    let mut h = host();
    match run(&id("nowhere"), &mut env, &mut h) {
        Err(RLError::Unbound(s)) => assert_eq!(s, "nowhere"),
        other => panic!("{:?}", other),
    }
    let e = list(vec![num(5.0), num(1.0)]);
    assert!(matches!(run(&e, &mut env, &mut h), Err(RLError::NotAFunction(Value::Num(_)))));
    let e = list(vec![id("if"), num(1.0), num(2.0), num(3.0)]);
    assert!(matches!(run(&e, &mut env, &mut h), Err(RLError::NotABool(_))));
    let e = list(vec![id("if"), SExpr::Bool(true), num(2.0)]);
    assert!(matches!(run(&e, &mut env, &mut h), Err(RLError::ArityExact(3, 2))));
    let e = list(vec![id("define"), id("if"), num(1.0)]);
    assert!(matches!(run(&e, &mut env, &mut h), Err(RLError::ReservedWord(ref s)) if s == "if"));
    let e = list(vec![id("define"), id("x")]);
    assert!(matches!(run(&e, &mut env, &mut h), Err(RLError::ArityAtLeast(2, 1))));
    let e = list(vec![id("define"), list(vec![]), num(1.0)]);
    assert!(matches!(run(&e, &mut env, &mut h), Err(RLError::EmptyDefinition)));
    let e = list(vec![id("define"), num(1.0), num(1.0)]);
    assert!(matches!(run(&e, &mut env, &mut h), Err(RLError::NotAnIdentifier(_))));
    let e = list(vec![id("lambda"), list(vec![var("a"), id("b")]), id("a")]);
    assert!(matches!(run(&e, &mut env, &mut h), Err(RLError::VariadicNotLast)));
    let e = list(vec![id("lambda"), id("a"), id("a")]);
    assert!(matches!(run(&e, &mut env, &mut h), Err(RLError::NotAList(_))));
    let e = list(vec![id("let"), list(vec![]), num(1.0), num(2.0)]);
    assert!(matches!(run(&e, &mut env, &mut h), Err(RLError::ArityExact(2, 3))));
    let e = list(vec![id("define-struct"), id("P"), list(vec![num(1.0)])]);
    assert!(matches!(run(&e, &mut env, &mut h), Err(RLError::NotAnIdentifier(_))));
}

#[test]
fn define_function_and_cond() {
    let mut env = env();
    let mut h = host();
    // (define (pick a b) a b) keeps the last body expression, through begin.
    let e = list(vec![id("define"), list(vec![id("pick"), id("a"), id("b")]), id("a"), id("b")]);
    run(&e, &mut env, &mut h).unwrap();
    let call = list(vec![id("pick"), num(1.0), num(2.0)]);
    assert_eq!(as_num(&run(&call, &mut env, &mut h).unwrap()), 2.0);
    // (cond (#f 1) (else 2))
    let e = list(vec![id("cond"), list(vec![SExpr::Bool(false), num(1.0)]), list(vec![id("else"), num(2.0)])]);
    assert_eq!(as_num(&run(&e, &mut env, &mut h).unwrap()), 2.0);
    // (cond (#f 1)) gives the empty list.
    let e = list(vec![id("cond"), list(vec![SExpr::Bool(false), num(1.0)])]);
    assert!(matches!(run(&e, &mut env, &mut h), Ok(Value::List(ref v)) if v.is_empty()));
    // Closures see the caller's bindings: (define (get-y) y) (let ((y 9)) (get-y))
    let e = list(vec![id("define"), list(vec![id("get-y")]), id("y")]);
    run(&e, &mut env, &mut h).unwrap();
    let e = list(vec![id("let"), list(vec![list(vec![id("y"), num(9.0)])]), list(vec![id("get-y")])]);
    assert_eq!(as_num(&run(&e, &mut env, &mut h).unwrap()), 9.0);
}

#[test]
fn list_and_logic_intrinsics() {
    let mut env = env();
    let mut h = host();
    let q = |items: Vec<SExpr>| SExpr::Quote(Box::new(list(items)));
    let e = list(vec![id("cons"), num(1.0), q(vec![num(2.0), num(3.0)])]);
    assert_eq!(nums(&run(&e, &mut env, &mut h).unwrap()), vec![1.0, 2.0, 3.0]);
    let e = list(vec![id("car"), q(vec![num(2.0), num(3.0)])]);
    assert_eq!(as_num(&run(&e, &mut env, &mut h).unwrap()), 2.0);
    let e = list(vec![id("cdr"), q(vec![num(2.0), num(3.0)])]);
    assert_eq!(nums(&run(&e, &mut env, &mut h).unwrap()), vec![3.0]);
    let e = list(vec![id("car"), q(vec![])]);
    assert!(matches!(run(&e, &mut env, &mut h), Err(RLError::EmptyList)));
    let e = list(vec![id("append"), num(4.0), q(vec![num(2.0), num(3.0)])]);
    assert_eq!(nums(&run(&e, &mut env, &mut h).unwrap()), vec![2.0, 3.0, 4.0]);
    let e = list(vec![id("or"), SExpr::Bool(false), SExpr::Bool(true), num(1.0)]);
    assert!(matches!(run(&e, &mut env, &mut h), Ok(Value::Bool(true))));
    let e = list(vec![id("and"), SExpr::Bool(true), num(1.0)]);
    assert!(matches!(run(&e, &mut env, &mut h), Err(RLError::BoolExpected(_))));
    let e = list(vec![id("not"), SExpr::Bool(true)]);
    assert!(matches!(run(&e, &mut env, &mut h), Ok(Value::Bool(false))));
    let e = list(vec![id("begin"), num(1.0), num(2.0)]);
    assert_eq!(as_num(&run(&e, &mut env, &mut h).unwrap()), 2.0);
    let e = list(vec![id("num?"), num(1.0)]);
    assert!(matches!(run(&e, &mut env, &mut h), Ok(Value::Bool(true))));
    let e = list(vec![id("bool?"), num(1.0)]);
    assert!(matches!(run(&e, &mut env, &mut h), Ok(Value::Bool(false))));
    let e = list(vec![id("lambda?"), id("car")]);
    assert!(matches!(run(&e, &mut env, &mut h), Ok(Value::Bool(true))));
    // (apply + '(1 2)) and (eval '(+ 1 2))
    let e = list(vec![id("apply"), id("+"), q(vec![num(1.0), num(2.0)])]);
    assert_eq!(as_num(&run(&e, &mut env, &mut h).unwrap()), 3.0);
    let e = list(vec![id("eval"), q(vec![id("+"), num(1.0), num(2.0)])]);
    assert_eq!(as_num(&run(&e, &mut env, &mut h).unwrap()), 3.0);
    let e = list(vec![id("eval"), id("car")]);
    assert!(matches!(run(&e, &mut env, &mut h), Err(RLError::NotQuotable(_))));
}

#[test]
fn equality_of_values() {
    let n = |x: f64| Value::Num(x.to_bits());
    assert!(n(1.0).equals(&n(1.0)));
    assert!(n(0.0).equals(&n(-0.0)));
    assert!(!n(f64::NAN).equals(&n(f64::NAN)));
    assert!(Value::List(vec![n(1.0), Value::Str("a".to_string())]).equals(&Value::List(vec![n(1.0), Value::Str("a".to_string())])));
    assert!(!Value::List(vec![n(1.0)]).equals(&Value::List(vec![n(1.0), n(2.0)])));
    assert!(!Value::Symbol("a".to_string(), false).equals(&Value::Symbol("a".to_string(), true)));
    let f = Value::Intrinsic(Intrinsic::Car);
    assert!(!f.equals(&f.copy()));
    let s1 = Value::Struct("P".to_string(), vec![n(1.0)]);
    let s2 = Value::Struct("Q".to_string(), vec![n(1.0)]);
    assert!(s1.equals(&s1.copy()));
    assert!(!s1.equals(&s2));
    let m = Value::Macro(Form::If);
    assert!(!m.equals(&m.copy()));
}

#[test]
fn depth_limit_and_sequences() {
    let mut env = env();
    let mut h = host();
    // (define (spin) (spin)) (spin) runs out of depth instead of the stack.
    let def = list(vec![id("define"), list(vec![id("spin")]), list(vec![id("spin")])]);
    run(&def, &mut env, &mut h).unwrap();
    let before = env.scope_count();
    let r = evaluate(&list(vec![id("spin")]), &mut env, &mut h, 60);
    assert!(matches!(r, Err(RLError::DepthExceeded)));
    assert_eq!(env.scope_count(), before);
    let results = eval_all(&vec![id("nothing"), num(1.0), list(vec![id("car"), SExpr::Nil])], &mut env, &mut h);
    assert_eq!(results.len(), 3);
    assert!(matches!(results[2], Err(RLError::EmptyList)));
    assert!(matches!(results[0], Err(RLError::Unbound(_))));
    assert_eq!(as_num(results[1].as_ref().unwrap()), 1.0);
    assert_eq!(env.scope_count(), before);
}

#[test]
fn core_language_without_host_operators() {
    let mut env = Environment::new();
    init_core(&mut env);
    let mut h = NoNatives;
    // (let ((xs '(1 2))) (car (cdr xs)))
    let e = list(vec![
        id("let"),
        list(vec![list(vec![id("xs"), SExpr::Quote(Box::new(list(vec![num(1.0), num(2.0)])))])]),
        list(vec![id("car"), list(vec![id("cdr"), id("xs")])]),
    ]);
    assert_eq!(as_num(&e.eval(&mut env, &mut h).unwrap()), 2.0);
    // An operator that no one provides.
    env.define_intrinsic("+", Intrinsic::Native("+".to_string()));
    let e = list(vec![id("+"), num(1.0)]);
    assert!(matches!(e.eval(&mut env, &mut h), Err(RLError::Unbound(ref s)) if s == "+"));
}

#[test]
fn scope_accessors() {
    let mut env = Environment::new();
    assert!(matches!(rlisp::value::empty(), Value::List(ref v) if v.is_empty()));
    env.define("x".to_string(), Value::Bool(true));
    assert!(matches!(env.cur_scope().lookup(&"x".to_string()), Some(Value::Bool(true))));
    // With one scope open, the scope below it is the empty base scope.
    assert!(env.prev_scope().lookup(&"x".to_string()).is_none());
    env.enter_scope();
    env.define("x".to_string(), Value::Bool(false));
    assert!(matches!(env.cur_scope().lookup(&"x".to_string()), Some(Value::Bool(false))));
    assert!(matches!(env.prev_scope().lookup(&"x".to_string()), Some(Value::Bool(true))));
    assert!(matches!(env.get("x"), Some(Value::Bool(false))));
    assert!(matches!(env.get_super("x"), Some(Value::Bool(true))));
    env.exit_scope();
    assert_eq!(env.scope_count(), 1);
    env.add_struct("P".to_string(), vec!["a".to_string()]);
    assert_eq!(env.get_struct(&"P".to_string()).unwrap(), vec!["a".to_string()]);
    assert!(env.get_struct(&"Q".to_string()).is_none());
}

#[test]
fn closures_convert_to_lambda_expressions() {
    let f = Value::Func(vec!["a".to_string(), "rest".to_string()], id("a"), true);
    match f.to_sexpr() {
        Ok(SExpr::List(items)) => {
            assert_eq!(items.len(), 3);
            assert!(matches!(&items[0], SExpr::Ident(s, false) if s == "lambda"));
            match &items[1] {
                SExpr::List(ps) => {
                    assert!(matches!(&ps[0], SExpr::Ident(s, false) if s == "a"));
                    assert!(matches!(&ps[1], SExpr::Ident(s, true) if s == "rest"));
                }
                other => panic!("{:?}", other),
            }
            assert!(matches!(&items[2], SExpr::Ident(s, false) if s == "a"));
        }
        other => panic!("{:?}", other),
    }
    // Evaluating the quoted form of a closure through eval gives a closure back.
    let mut env = env();
    let mut h = host();
    let e = list(vec![id("eval"), SExpr::Quote(Box::new(list(vec![id("lambda"), list(vec![id("x")]), id("x")])))]);
    let g = run(&e, &mut env, &mut h).unwrap();
    assert!(matches!(g, Value::Func(_, _, false)));
    // Plain data round-trips through its expression form.
    let data = Value::List(vec![Value::Num(1.0f64.to_bits()), Value::Symbol("s".to_string(), false)]);
    let expr = data.to_sexpr().unwrap();
    assert!(Value::from_sexpr(&expr).equals(&data));
    assert!(matches!(Value::List(vec![Value::Intrinsic(Intrinsic::Car)]).to_sexpr(), Err(RLError::NotQuotable(_))));
}

#[test]
fn define_struct_errors() {
    let mut env = env();
    let mut h = host();
    let e = list(vec![id("define-struct"), id("P"), list(vec![])]);
    assert!(matches!(run(&e, &mut env, &mut h), Err(RLError::ArityExact(1, 0))));
    let e = list(vec![id("define-struct"), num(1.0), list(vec![id("x")])]);
    assert!(matches!(run(&e, &mut env, &mut h), Err(RLError::NotAnIdentifier(SExpr::Num(_)))));
    let e = list(vec![id("define-struct"), id("P"), num(1.0)]);
    assert!(matches!(run(&e, &mut env, &mut h), Err(RLError::NotAList(SExpr::Num(_)))));
    // A hyphenated field name is found by name in the registry.
    let e = list(vec![id("define-struct"), id("P"), list(vec![id("first-name")])]);
    run(&e, &mut env, &mut h).unwrap();
    let e = list(vec![id("define"), id("it"), list(vec![id("make-P"), num(7.0)])]);
    run(&e, &mut env, &mut h).unwrap();
    let e = list(vec![id("P-first-name"), id("it")]);
    assert_eq!(as_num(&run(&e, &mut env, &mut h).unwrap()), 7.0);
    let e = list(vec![id("define-struct"), id("P"), list(vec![id("x"), num(2.0)])]);
    assert!(matches!(run(&e, &mut env, &mut h), Err(RLError::NotAnIdentifier(SExpr::Num(_)))));
    let e = list(vec![id("let"), list(vec![list(vec![num(1.0), num(2.0)])]), num(1.0)]);
    assert!(matches!(run(&e, &mut env, &mut h), Err(RLError::NotAnIdentifier(SExpr::Num(_)))));
    let e = list(vec![id("cond"), list(vec![num(1.0)])]);
    assert!(matches!(run(&e, &mut env, &mut h), Err(RLError::ArityExact(2, 1))));
}
