use rlisp::color::{boolean, carrot, err, number, prompt, string};
use rlisp::environment::FieldIndex;
use rlisp::error::{arity_at_least, arity_at_most, arity_exact, reserved_word, unbound, RLError};
use rlisp::intrinsics::exit_argument;
use rlisp::utils::option;
use rlisp::value::Value;

#[test]
fn colours_wrap_text_in_escape_codes() {
    assert_eq!(err("x"), "\x1b[31mx\x1b[0m");
    assert_eq!(number("1"), "\x1b[33m1\x1b[0m");
    assert_eq!(boolean("true"), "\x1b[33mtrue\x1b[0m");
    assert_eq!(string("s"), "\x1b[32ms\x1b[0m");
    assert_eq!(prompt("p"), "\x1b[1;38;5;157mp\x1b[0m");
    assert_eq!(carrot(">"), "\x1b[1;38;5;251m>\x1b[0m");
}

#[test]
fn error_constructors() {
    assert!(matches!(arity_at_least(2, 1), RLError::ArityAtLeast(2, 1)));
    assert!(matches!(arity_at_most(1, 3), RLError::ArityAtMost(1, 3)));
    assert!(matches!(arity_exact(2, 3), RLError::ArityExact(2, 3)));
    assert!(matches!(unbound("x"), RLError::Unbound(ref s) if s == "x"));
    assert!(matches!(reserved_word("let"), RLError::ReservedWord(ref s) if s == "let"));
}

#[test]
fn field_index_and_option() {
    let fields = vec!["x".to_string(), "y".to_string(), "x".to_string()];
    assert_eq!(fields.index(&"y".to_string()), Some(1));
    assert_eq!(fields.index(&"x".to_string()), Some(0));
    assert_eq!(fields.index(&"z".to_string()), None);
    assert_eq!(option(true, 3), Some(3));
    assert_eq!(option(false, 3), None);
}

fn message(e: &RLError) -> String {
    rlisp::render::render_error(e)
        .into_iter()
        .map(|p| match p {
            rlisp::render::Piece::Text(t) => t,
            rlisp::render::Piece::Num(bits, _) => f64::from_bits(bits).to_string(),
        })
        .collect()
}

#[test]
fn error_messages() {
    assert_eq!(message(&arity_exact(2, 13)), "Expected 2 arg(s), found 13.");
    assert_eq!(message(&arity_at_least(2, 1)), "Expected at least 2 arg(s), found 1.");
    assert_eq!(message(&arity_at_most(1, 0)), "Expected at most 1 arg(s), found 0.");
    assert_eq!(message(&unbound("x")), "Variable x is unbound.");
    assert_eq!(message(&reserved_word("let")), "\"let\" is a reserved word.");
    assert_eq!(message(&RLError::DepthExceeded), "Evaluation nested too deeply.");
    let e = RLError::NotAFunction(Value::Num(5.0f64.to_bits()));
    assert_eq!(message(&e), "5 is not a function.");
    assert_eq!(rlisp::render::decimal_text(1234567), "1234567");
}

#[test]
fn exit_arguments_and_concatenation() {
    assert!(matches!(exit_argument(&vec![]), Ok(None)));
    let three = 3.0f64.to_bits();
    assert!(matches!(exit_argument(&vec![Value::Num(three)]), Ok(Some(b)) if b == three));
    assert!(matches!(exit_argument(&vec![Value::Bool(true)]), Err(RLError::NotANumber(_))));
    assert!(matches!(
        exit_argument(&vec![Value::Bool(true), Value::Bool(false)]),
        Err(RLError::ArityAtMost(1, 2))
    ));
    let pieces = rlisp::render::render_concat(&vec![Value::Symbol("a".to_string(), false), Value::Symbol("b".to_string(), false)]);
    assert_eq!(pieces.len(), 2);
}
