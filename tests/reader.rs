use rlisp::interpolate::{split_str, StrSection};
use rlisp::parser::{identifier, NumberReader, ParseError, Parser};
use rlisp::sexpr::SExpr;
use rlisp::render::{render_expr, render_value, Piece};
use rlisp::utils::{fib, fib_checked};
use rlisp::value::Value;

struct Floats;

impl NumberReader for Floats {
    fn read_number(&self, token: &String) -> Option<u64> {
        token.parse::<f64>().ok().map(f64::to_bits)
    }
}

fn parser(text: &str) -> Parser {
    Parser::new(text.chars().collect())
}

fn num_of(e: &SExpr) -> f64 {
    match e {
        SExpr::Num(bits) => f64::from_bits(*bits),
        other => panic!("{:?}", other),
    }
}

#[test]
fn reads_lists_atoms_and_comments() {
    let mut p = parser("(define (f x...) [1 2.5]) ; a comment\n 'a \"s\\n\\\"q\" #t false");
    match p.parse(&Floats).unwrap() {
        SExpr::List(items) => {
            assert_eq!(items.len(), 3);
            assert!(matches!(&items[0], SExpr::Ident(s, false) if s == "define"));
            match &items[1] {
                SExpr::List(sig) => {
                    assert!(matches!(&sig[0], SExpr::Ident(s, false) if s == "f"));
                    assert!(matches!(&sig[1], SExpr::Ident(s, true) if s == "x"));
                }
                other => panic!("{:?}", other),
            }
            match &items[2] {
                SExpr::List(xs) => {
                    assert_eq!(num_of(&xs[0]), 1.0);
                    assert_eq!(num_of(&xs[1]), 2.5);
                }
                other => panic!("{:?}", other),
            }
        }
        other => panic!("{:?}", other),
    }
    match p.parse(&Floats).unwrap() {
        SExpr::Quote(inner) => assert!(matches!(*inner, SExpr::Ident(ref s, false) if s == "a")),
        other => panic!("{:?}", other),
    }
    assert!(matches!(p.parse(&Floats).unwrap(), SExpr::Str(ref s) if s == "s\n\"q"));
    assert!(matches!(p.parse(&Floats).unwrap(), SExpr::Bool(true)));
    assert!(matches!(p.parse(&Floats).unwrap(), SExpr::Bool(false)));
    assert!(matches!(p.parse(&Floats), Err(ParseError::Eof)));
}

#[test]
fn reader_errors() {
    assert!(matches!(parser("(1 2").parse(&Floats), Err(ParseError::UnclosedList)));
    assert!(matches!(parser("\"abc").parse(&Floats), Err(ParseError::UnclosedString)));
    assert!(matches!(parser("\"a\\qb\"").parse(&Floats), Err(ParseError::UnknownEscape('q'))));
    assert!(matches!(parser(")").parse(&Floats), Err(ParseError::NoAtom)));
    assert!(matches!(parser("...").parse(&Floats), Err(ParseError::EmptyIdentifier)));
    assert!(matches!(parser("a,b").parse(&Floats), Err(ParseError::InvalidIdentifier(ref s)) if s == "a,b"));
    assert!(matches!(identifier("rest...".to_string()), Ok(SExpr::Ident(ref s, true)) if s == "rest"));
    let all = parser("1 2 (3)").parse_all(&Floats).unwrap();
    assert_eq!(all.len(), 3);
    assert!(parser("1 (").parse_all(&Floats).is_err());
    assert_eq!(parser("  ; only a comment").parse_all(&Floats).unwrap().len(), 0);
}

#[test]
fn interpolation_sections() {
    let secs = split_str("a #{x} b #{(f 1)}").unwrap();
    assert_eq!(secs.len(), 4);
    assert!(matches!(&secs[0], StrSection::Str(s) if s == "a "));
    assert!(matches!(&secs[1], StrSection::Expr(s) if s == "x"));
    assert!(matches!(&secs[2], StrSection::Str(s) if s == " b "));
    assert!(matches!(&secs[3], StrSection::Expr(s) if s == "(f 1)"));
    let plain = split_str("no braces {here}").unwrap();
    assert_eq!(plain.len(), 1);
    assert!(matches!(&plain[0], StrSection::Str(s) if s == "no braces {here}"));
    assert!(split_str("open #{x").is_err());
    assert!(split_str("a#{x").is_err());
    assert!(split_str("a#{x}b#{y").is_err());
    match split_str("a#{x") {
        Err(rlisp::error::RLError::Host(m)) => assert_eq!(m, "Unclosed expression while interpolating string."),
        other => panic!("{:?}", other.is_ok()),
    }
    let nested = split_str("#{a#{b}").unwrap();
    assert_eq!(nested.len(), 3);
    assert!(matches!(&nested[1], StrSection::Str(s) if s == "a"));
    assert!(matches!(&nested[2], StrSection::Expr(s) if s == "b"));
    let secs = split_str("a#{x}b").unwrap();
    assert_eq!(secs.len(), 3);
    assert!(matches!(&secs[2], StrSection::Str(s) if s == "b"));
    assert_eq!(split_str("").unwrap().len(), 0);
}

#[test]
fn fibonacci_numbers() {
    assert_eq!(fib(0), 0);
    assert_eq!(fib(1), 1);
    assert_eq!(fib(10), 55);
    assert_eq!(fib_checked(20), Some(6765));
    assert_eq!(fib_checked(93), Some(12200160415121876738));
    assert_eq!(fib_checked(94), None);
}

#[test]
fn rendering_of_values_and_expressions() {
    let one = 1.0f64.to_bits();
    let v = Value::List(vec![Value::Num(one), Value::Str("a".to_string()), Value::Symbol("r".to_string(), true)]);
    let pieces = render_value(&v);
    assert_eq!(pieces.len(), 7);
    assert!(matches!(&pieces[0], Piece::Text(t) if t == "("));
    assert!(matches!(&pieces[1], Piece::Num(b, true) if *b == one));
    assert!(matches!(&pieces[2], Piece::Text(t) if t == " "));
    assert!(matches!(&pieces[3], Piece::Text(t) if t == "\x1b[32m\"a\"\x1b[0m"));
    assert!(matches!(&pieces[5], Piece::Text(t) if t == "r..."));
    assert!(matches!(&pieces[6], Piece::Text(t) if t == ")"));
    assert_eq!(render_value(&Value::nil()).len(), 0);
    let s = Value::Struct("P".to_string(), vec![Value::Bool(true)]);
    let texts: Vec<String> = render_value(&s)
        .into_iter()
        .map(|p| match p {
            Piece::Text(t) => t,
            Piece::Num(..) => panic!("no number here"),
        })
        .collect();
    assert_eq!(texts.concat(), "(make-P \x1b[33mtrue\x1b[0m)");
    let f = Value::Func(vec!["a".to_string(), "b".to_string()], SExpr::Ident("b".to_string(), false), true);
    let texts: Vec<String> = render_value(&f)
        .into_iter()
        .map(|p| match p {
            Piece::Text(t) => t,
            Piece::Num(..) => panic!("no number here"),
        })
        .collect();
    assert_eq!(texts.concat(), "(lambda (a b...) b)");
    let e = SExpr::Quote(Box::new(SExpr::List(vec![SExpr::Ident("x".to_string(), false), SExpr::Nil])));
    let texts: Vec<String> = render_expr(&e)
        .into_iter()
        .map(|p| match p {
            Piece::Text(t) => t,
            Piece::Num(..) => panic!("no number here"),
        })
        .collect();
    assert_eq!(texts.concat(), "'(x '())");
}
