use vstd::prelude::*;
use crate::color::{ColorCode, boolean, decimal, painted, string};
use crate::error::RLError;
use crate::sexpr::{ExprView, SExpr, exprs_view};
use crate::value::{Value, ValueView, names_view, values_view};

verus! {

/// A piece of rendered text: literal text, or a number that the caller
/// writes out (painted in the number colour when `painted` is set).
#[derive(Debug)]
pub enum Piece {
    Text(String),
    Num(u64, bool),
}

pub enum PieceView {
    Text(Seq<char>),
    Num(u64, bool),
}

pub open spec fn piece_view(p: Piece) -> PieceView {
    match p {
        Piece::Text(s) => PieceView::Text(s@),
        Piece::Num(n, c) => PieceView::Num(n, c),
    }
}

pub open spec fn pieces_view(ps: Seq<Piece>) -> Seq<PieceView> {
    Seq::new(ps.len(), |i: int| piece_view(ps[i]))
}

pub open spec fn text(s: Seq<char>) -> Seq<PieceView> {
    seq![PieceView::Text(s)]
}

/// `"s"`
pub open spec fn quoted_text(s: Seq<char>) -> Seq<char> {
    seq!['"'] + s + seq!['"']
}

/// A name, with `...` after it when it is variadic.
pub open spec fn marked_name(s: Seq<char>, variadic: bool) -> Seq<char> {
    if variadic {
        s + seq!['.', '.', '.']
    } else {
        s
    }
}

/// Names separated by single spaces.
pub open spec fn spaced(names: Seq<Seq<char>>) -> Seq<char>
    decreases names.len(),
{
    if names.len() == 0 {
        Seq::empty()
    } else if names.len() == 1 {
        names[0]
    } else {
        spaced(names.drop_last()) + seq![' '] + names.last()
    }
}

/// An expression in source syntax: lists in parentheses with their elements
/// separated by spaces, strings in quotes, `'e` for a quotation and `'()`
/// for nil.
pub open spec fn expr_pieces(e: ExprView) -> Seq<PieceView>
    decreases e,
{
    match e {
        ExprView::Str(s) => text(quoted_text(s)),
        ExprView::Num(n) => seq![PieceView::Num(n, false)],
        ExprView::Bool(b) => text(if b { seq!['t', 'r', 'u', 'e'] } else { seq!['f', 'a', 'l', 's', 'e'] }),
        ExprView::Ident(s, v) => text(marked_name(s, v)),
        ExprView::List(items) => text(seq!['(']) + exprs_pieces(items) + text(seq![')']),
        ExprView::Quote(inner) => text(seq!['\'']) + expr_pieces(*inner),
        ExprView::Nil => text(seq!['\'', '(', ')']),
    }
}

/// Expressions separated by single spaces.
pub open spec fn exprs_pieces(items: Seq<ExprView>) -> Seq<PieceView>
    decreases items,
{
    if items.len() == 0 {
        Seq::empty()
    } else if items.len() == 1 {
        expr_pieces(items[0])
    } else {
        exprs_pieces(items.drop_last()) + text(seq![' ']) + expr_pieces(items.last())
    }
}

/// A value as the REPL shows it: numbers painted, strings quoted and green,
/// booleans yellow, a non-empty list in parentheses and the empty list as
/// nothing, a closure as its `lambda` expression, and a struct instance as
/// the call of its constructor.
pub open spec fn value_pieces(v: ValueView) -> Seq<PieceView>
    decreases v,
{
    match v {
        ValueView::Num(n) => seq![PieceView::Num(n, true)],
        ValueView::Bool(b) => text(
            painted(
                ColorCode::Yellow,
                false,
                if b { seq!['t', 'r', 'u', 'e'] } else { seq!['f', 'a', 'l', 's', 'e'] },
            ),
        ),
        ValueView::Str(s) => text(painted(ColorCode::Green, false, quoted_text(s))),
        ValueView::Symbol(s, va) => text(marked_name(s, va)),
        ValueView::List(items) => if items.len() == 0 {
            Seq::empty()
        } else {
            text(seq!['(']) + values_pieces(items) + text(seq![')'])
        },
        ValueView::Func(params, body, va) => text(
            seq!['(', 'l', 'a', 'm', 'b', 'd', 'a', ' ', '('] + spaced(params) + (if va && params.len()
                > 0 {
                seq!['.', '.', '.']
            } else {
                Seq::empty()
            }) + seq![')', ' '],
        ) + expr_pieces(body) + text(seq![')']),
        ValueView::Intrinsic(_) => text(seq!['<', 'f', 'u', 'n', 'c', 't', 'i', 'o', 'n', '>']),
        ValueView::Macro(_) => text(seq!['<', 'p', 'r', 'o', 'c', 'e', 'd', 'u', 'r', 'e', '>']),
        ValueView::Struct(name, fields) => text(seq!['(', 'm', 'a', 'k', 'e', '-'] + name)
            + fields_pieces(fields) + text(seq![')']),
    }
}

/// Values separated by single spaces.
pub open spec fn values_pieces(items: Seq<ValueView>) -> Seq<PieceView>
    decreases items,
{
    if items.len() == 0 {
        Seq::empty()
    } else if items.len() == 1 {
        value_pieces(items[0])
    } else {
        values_pieces(items.drop_last()) + text(seq![' ']) + value_pieces(items.last())
    }
}

/// Each value preceded by a space.
pub open spec fn fields_pieces(items: Seq<ValueView>) -> Seq<PieceView>
    decreases items,
{
    if items.len() == 0 {
        Seq::empty()
    } else {
        fields_pieces(items.drop_last()) + text(seq![' ']) + value_pieces(items.last())
    }
}

/// Appends a text piece.
fn push_text(out: &mut Vec<Piece>, s: String)
    ensures
        pieces_view(final(out)@) == pieces_view(old(out)@) + text(s@),
{
    let ghost t = s@;
    out.push(Piece::Text(s));
    assert(pieces_view(out@) =~= pieces_view(old(out)@) + text(t));
}

/// Appends pieces.
fn push_all(out: &mut Vec<Piece>, more: Vec<Piece>)
    ensures
        pieces_view(final(out)@) == pieces_view(old(out)@) + pieces_view(more@),
{
    let ghost m = pieces_view(more@);
    let mut more = more;
    let mut i: usize = 0;
    let n = more.len();
    let mut rev: Vec<Piece> = Vec::new();
    while more.len() > 0
        invariant
            n == m.len(),
            more@.len() + rev@.len() == n,
            forall|j: int| 0 <= j < more@.len() ==> piece_view(#[trigger] more@[j]) == m[j],
            forall|j: int| 0 <= j < rev@.len() ==> piece_view(#[trigger] rev@[j]) == m[n - 1 - j],
        decreases more@.len(),
    {
        let p = more.pop().unwrap();
        rev.push(p);
    }
    while rev.len() > 0
        invariant
            n == m.len(),
            rev@.len() <= n,
            forall|j: int| 0 <= j < rev@.len() ==> piece_view(#[trigger] rev@[j]) == m[n - 1 - j],
            pieces_view(out@) == pieces_view(old(out)@) + m.subrange(0, n - rev@.len()),
        decreases rev@.len(),
    {
        let ghost before = pieces_view(out@);
        let k = rev.len();
        let p = rev.pop().unwrap();
        out.push(p);
        assert(pieces_view(out@) =~= before.push(m[n - k]));
        assert(m.subrange(0, n - rev@.len()) =~= m.subrange(0, n - k).push(m[n - k]));
    }
    assert(m.subrange(0, n as int) =~= m);
}

/// A string made of the characters of a literal.
fn lit(s: &str) -> (r: String)
    ensures
        r@ == s@,
{
    String::from_str(s)
}

/// `"s"`
fn quote_text(s: &String) -> (r: String)
    ensures
        r@ == quoted_text(s@),
{
    let mut r = lit("\"");
    proof {
        reveal_strlit("\"");
    }
    r.append(s.as_str());
    r.append("\"");
    assert(r@ =~= quoted_text(s@));
    r
}

/// A name with `...` after it when it is variadic.
fn mark_name(s: &String, variadic: bool) -> (r: String)
    ensures
        r@ == marked_name(s@, variadic),
{
    let mut r = s.clone();
    if variadic {
        proof {
            reveal_strlit("...");
        }
        r.append("...");
        assert(r@ =~= marked_name(s@, variadic));
    }
    r
}

/// "true" or "false".
fn bool_text(b: bool) -> (r: String)
    ensures
        r@ == (if b { seq!['t', 'r', 'u', 'e'] } else { seq!['f', 'a', 'l', 's', 'e'] }),
{
    proof {
        reveal_strlit("true");
        reveal_strlit("false");
    }
    let r = if b { lit("true") } else { lit("false") };
    assert(r@ =~= (if b { seq!['t', 'r', 'u', 'e'] } else { seq!['f', 'a', 'l', 's', 'e'] }));
    r
}

/// The pieces of an expression in source syntax.
pub fn render_expr(e: &SExpr) -> (r: Vec<Piece>)
    ensures
        pieces_view(r@) == expr_pieces(e@),
    decreases e,
{
    let mut out: Vec<Piece> = Vec::new();
    assert(pieces_view(out@) =~= Seq::<PieceView>::empty());
    match e {
        SExpr::Str(s) => push_text(&mut out, quote_text(s)),
        SExpr::Num(n) => {
            out.push(Piece::Num(*n, false));
            assert(pieces_view(out@) =~= expr_pieces(e@));
        },
        SExpr::Bool(b) => push_text(&mut out, bool_text(*b)),
        SExpr::Ident(s, v) => push_text(&mut out, mark_name(s, *v)),
        SExpr::List(items) => {
            proof {
                reveal_strlit("(");
                reveal_strlit(")");
            }
            assert("("@ =~= seq!['(']);
            assert(")"@ =~= seq![')']);
            push_text(&mut out, lit("("));
            push_all(&mut out, render_exprs(items));
            push_text(&mut out, lit(")"));
            assert(e@ == ExprView::List(exprs_view(items@)));
        },
        SExpr::Quote(inner) => {
            proof {
                reveal_strlit("'");
            }
            assert("'"@ =~= seq!['\'']);
            push_text(&mut out, lit("'"));
            push_all(&mut out, render_expr(inner));
        },
        SExpr::Nil => {
            proof {
                reveal_strlit("'()");
            }
            assert("'()"@ =~= seq!['\'', '(', ')']);
            push_text(&mut out, lit("'()"));
        },
    }
    assert(pieces_view(out@) =~= expr_pieces(e@));
    out
}

/// The pieces of expressions separated by single spaces.
pub fn render_exprs(items: &Vec<SExpr>) -> (r: Vec<Piece>)
    ensures
        pieces_view(r@) == exprs_pieces(exprs_view(items@)),
    decreases items,
{
    let ghost xs = exprs_view(items@);
    let mut out: Vec<Piece> = Vec::new();
    let mut i: usize = 0;
    assert(pieces_view(out@) =~= exprs_pieces(xs.subrange(0, 0)));
    while i < items.len()
        invariant
            i <= items@.len(),
            xs == exprs_view(items@),
            pieces_view(out@) == exprs_pieces(xs.subrange(0, i as int)),
        decreases items@.len() - i,
    {
        proof {
            vstd::std_specs::vec::axiom_vec_index_decreases(*items, i as int);
            reveal_strlit(" ");
        }
        let ghost sub = xs.subrange(0, i + 1);
        assert(sub.drop_last() =~= xs.subrange(0, i as int));
        assert(sub.last() == items@[i as int]@);
        assert(" "@ =~= seq![' ']);
        if i > 0 {
            push_text(&mut out, lit(" "));
        }
        push_all(&mut out, render_expr(&items[i]));
        if i == 0 {
            assert(pieces_view(out@) =~= exprs_pieces(sub));
        } else {
            assert(exprs_pieces(sub) == exprs_pieces(sub.drop_last()) + text(seq![' ']) + expr_pieces(sub.last()));
        }
        i = i + 1;
    }
    assert(xs.subrange(0, i as int) =~= xs);
    out
}

/// Names separated by single spaces.
fn join_names(names: &Vec<String>) -> (r: String)
    ensures
        r@ == spaced(names_view(names@)),
{
    let ghost ns = names_view(names@);
    let mut out = String::new();
    let mut i: usize = 0;
    proof {
        reveal_strlit(" ");
    }
    assert(out@ =~= spaced(ns.subrange(0, 0)));
    while i < names.len()
        invariant
            i <= names@.len(),
            ns == names_view(names@),
            " "@ == seq![' '],
            out@ == spaced(ns.subrange(0, i as int)),
        decreases names@.len() - i,
    {
        let ghost sub = ns.subrange(0, i + 1);
        assert(sub.drop_last() =~= ns.subrange(0, i as int));
        if i > 0 {
            out.append(" ");
        }
        out.append(names[i].as_str());
        if i == 0 {
            assert(out@ =~= spaced(sub));
        } else {
            assert(out@ =~= spaced(sub));
        }
        i = i + 1;
    }
    assert(ns.subrange(0, i as int) =~= ns);
    out
}

/// The pieces of a value as the REPL shows it.
pub fn render_value(v: &Value) -> (r: Vec<Piece>)
    ensures
        pieces_view(r@) == value_pieces(v@),
    decreases v,
{
    let mut out: Vec<Piece> = Vec::new();
    assert(pieces_view(out@) =~= Seq::<PieceView>::empty());
    match v {
        Value::Num(n) => {
            out.push(Piece::Num(*n, true));
            assert(pieces_view(out@) =~= value_pieces(v@));
        },
        Value::Bool(b) => {
            let t = bool_text(*b);
            push_text(&mut out, boolean(t.as_str()));
        },
        Value::Str(s) => {
            let t = quote_text(s);
            push_text(&mut out, string(t.as_str()));
        },
        Value::Symbol(s, va) => push_text(&mut out, mark_name(s, *va)),
        Value::List(items) => {
            if items.len() > 0 {
                proof {
                    reveal_strlit("(");
                    reveal_strlit(")");
                }
                assert("("@ =~= seq!['(']);
                assert(")"@ =~= seq![')']);
                push_text(&mut out, lit("("));
                push_all(&mut out, render_values(items));
                push_text(&mut out, lit(")"));
            }
            assert(v@ == ValueView::List(values_view(items@)));
        },
        Value::Func(params, body, va) => {
            proof {
                reveal_strlit("(lambda (");
                reveal_strlit("...");
                reveal_strlit(") ");
                reveal_strlit(")");
            }
            let mut head = lit("(lambda (");
            head.append(join_names(params).as_str());
            if *va && params.len() > 0 {
                head.append("...");
            }
            head.append(") ");
            assert(head@ =~= seq!['(', 'l', 'a', 'm', 'b', 'd', 'a', ' ', '('] + spaced(
                names_view(params@),
            ) + (if *va && names_view(params@).len() > 0 {
                seq!['.', '.', '.']
            } else {
                Seq::empty()
            }) + seq![')', ' ']);
            push_text(&mut out, head);
            push_all(&mut out, render_expr(body));
            assert(")"@ =~= seq![')']);
            push_text(&mut out, lit(")"));
        },
        Value::Intrinsic(_) => {
            proof {
                reveal_strlit("<function>");
            }
            assert("<function>"@ =~= seq!['<', 'f', 'u', 'n', 'c', 't', 'i', 'o', 'n', '>']);
            push_text(&mut out, lit("<function>"));
        },
        Value::Macro(_) => {
            proof {
                reveal_strlit("<procedure>");
            }
            assert("<procedure>"@ =~= seq!['<', 'p', 'r', 'o', 'c', 'e', 'd', 'u', 'r', 'e', '>']);
            push_text(&mut out, lit("<procedure>"));
        },
        Value::Struct(name, fields) => {
            proof {
                reveal_strlit("(make-");
                reveal_strlit(")");
            }
            let mut head = lit("(make-");
            head.append(name.as_str());
            assert(head@ =~= seq!['(', 'm', 'a', 'k', 'e', '-'] + name@);
            push_text(&mut out, head);
            push_all(&mut out, render_fields(fields));
            assert(")"@ =~= seq![')']);
            push_text(&mut out, lit(")"));
            assert(v@ == ValueView::Struct(name@, values_view(fields@)));
        },
    }
    assert(pieces_view(out@) =~= value_pieces(v@));
    out
}

/// The pieces of values separated by single spaces.
pub fn render_values(items: &Vec<Value>) -> (r: Vec<Piece>)
    ensures
        pieces_view(r@) == values_pieces(values_view(items@)),
    decreases items,
{
    let ghost xs = values_view(items@);
    let mut out: Vec<Piece> = Vec::new();
    let mut i: usize = 0;
    assert(pieces_view(out@) =~= values_pieces(xs.subrange(0, 0)));
    while i < items.len()
        invariant
            i <= items@.len(),
            xs == values_view(items@),
            pieces_view(out@) == values_pieces(xs.subrange(0, i as int)),
        decreases items@.len() - i,
    {
        proof {
            vstd::std_specs::vec::axiom_vec_index_decreases(*items, i as int);
            reveal_strlit(" ");
        }
        let ghost sub = xs.subrange(0, i + 1);
        assert(sub.drop_last() =~= xs.subrange(0, i as int));
        assert(sub.last() == items@[i as int]@);
        assert(" "@ =~= seq![' ']);
        if i > 0 {
            push_text(&mut out, lit(" "));
        }
        push_all(&mut out, render_value(&items[i]));
        if i == 0 {
            assert(pieces_view(out@) =~= values_pieces(sub));
        } else {
            assert(values_pieces(sub) == values_pieces(sub.drop_last()) + text(seq![' ']) + value_pieces(sub.last()));
        }
        i = i + 1;
    }
    assert(xs.subrange(0, i as int) =~= xs);
    out
}

/// The pieces of values, each preceded by a space.
pub fn render_fields(items: &Vec<Value>) -> (r: Vec<Piece>)
    ensures
        pieces_view(r@) == fields_pieces(values_view(items@)),
    decreases items,
{
    let ghost xs = values_view(items@);
    let mut out: Vec<Piece> = Vec::new();
    let mut i: usize = 0;
    assert(pieces_view(out@) =~= fields_pieces(xs.subrange(0, 0)));
    while i < items.len()
        invariant
            i <= items@.len(),
            xs == values_view(items@),
            pieces_view(out@) == fields_pieces(xs.subrange(0, i as int)),
        decreases items@.len() - i,
    {
        proof {
            vstd::std_specs::vec::axiom_vec_index_decreases(*items, i as int);
            reveal_strlit(" ");
        }
        let ghost sub = xs.subrange(0, i + 1);
        assert(sub.drop_last() =~= xs.subrange(0, i as int));
        assert(sub.last() == items@[i as int]@);
        assert(" "@ =~= seq![' ']);
        push_text(&mut out, lit(" "));
        push_all(&mut out, render_value(&items[i]));
        i = i + 1;
    }
    assert(xs.subrange(0, i as int) =~= xs);
    out
}

/// The values one after the other, with nothing between them.
pub open spec fn concat_pieces(items: Seq<ValueView>) -> Seq<PieceView>
    decreases items.len(),
{
    if items.len() == 0 {
        Seq::empty()
    } else {
        concat_pieces(items.drop_last()) + value_pieces(items.last())
    }
}

/// The pieces of values written one after the other, as `concat`, `print`
/// and `println` write them.
pub fn render_concat(items: &Vec<Value>) -> (r: Vec<Piece>)
    ensures
        pieces_view(r@) == concat_pieces(values_view(items@)),
{
    let ghost xs = values_view(items@);
    let mut out: Vec<Piece> = Vec::new();
    let mut i: usize = 0;
    assert(pieces_view(out@) =~= concat_pieces(xs.subrange(0, 0)));
    while i < items.len()
        invariant
            i <= items@.len(),
            xs == values_view(items@),
            pieces_view(out@) == concat_pieces(xs.subrange(0, i as int)),
        decreases items@.len() - i,
    {
        let ghost sub = xs.subrange(0, i + 1);
        assert(sub.drop_last() =~= xs.subrange(0, i as int));
        assert(sub.last() == items@[i as int]@);
        push_all(&mut out, render_value(&items[i]));
        i = i + 1;
    }
    assert(xs.subrange(0, i as int) =~= xs);
    out
}

/// The decimal text of `n`.
pub fn decimal_text(n: usize) -> (r: String)
    ensures
        r@ == decimal(n as nat),
    decreases n,
{
    if n < 10 {
        digit_text(n)
    } else {
        let mut r = decimal_text(n / 10);
        let d = digit_text(n % 10);
        r.append(d.as_str());
        r
    }
}

fn digit_text(d: usize) -> (r: String)
    requires
        d < 10,
    ensures
        r@ == seq![crate::color::digit(d as nat)],
{
    proof {
        reveal_strlit("0");
        reveal_strlit("1");
        reveal_strlit("2");
        reveal_strlit("3");
        reveal_strlit("4");
        reveal_strlit("5");
        reveal_strlit("6");
        reveal_strlit("7");
        reveal_strlit("8");
        reveal_strlit("9");
    }
    let r = match d {
        0 => lit("0"),
        1 => lit("1"),
        2 => lit("2"),
        3 => lit("3"),
        4 => lit("4"),
        5 => lit("5"),
        6 => lit("6"),
        7 => lit("7"),
        8 => lit("8"),
        _ => lit("9"),
    };
    assert(r@ =~= seq![crate::color::digit(d as nat)]);
    r
}

/// `Expected {a} arg(s), found {b}.` with `kind` ("", "at least ", "at most ")
/// after "Expected ".
pub open spec fn arity_text(kind: Seq<char>, a: nat, b: nat) -> Seq<char> {
    "Expected "@ + kind + decimal(a) + " arg(s), found "@ + decimal(b) + "."@
}

/// The message of an error.
pub open spec fn error_pieces(e: RLError) -> Seq<PieceView> {
    match e {
        RLError::Unbound(s) => text("Variable "@ + s@ + " is unbound."@),
        RLError::NotAFunction(v) => value_pieces(v@) + text(" is not a function."@),
        RLError::NotANumber(v) => value_pieces(v@) + text(" is not a number."@),
        RLError::NotAnIdentifier(x) => expr_pieces(x@) + text(" is not an identifier."@),
        RLError::NotAList(x) => expr_pieces(x@) + text(" is not a list."@),
        RLError::NotABool(x) => expr_pieces(x@) + text(" is not a bool."@),
        RLError::ListExpected(v) => value_pieces(v@) + text(" is not a list."@),
        RLError::BoolExpected(v) => value_pieces(v@) + text(" is not a bool."@),
        RLError::StructExpected(v) => value_pieces(v@) + text(" is not a struct."@),
        RLError::ArityExact(a, b) => text(arity_text(Seq::empty(), a as nat, b as nat)),
        RLError::ArityAtLeast(a, b) => text(arity_text("at least "@, a as nat, b as nat)),
        RLError::ArityAtMost(a, b) => text(arity_text("at most "@, a as nat, b as nat)),
        RLError::ReservedWord(s) => text("\""@ + s@ + "\" is a reserved word."@),
        RLError::VariadicNotLast => text("Only the final parameter of a function may be variadic."@),
        RLError::EmptyDefinition => text("Cannot redefine empty list."@),
        RLError::EmptyList => text("Cannot take apart an empty list."@),
        RLError::NotQuotable(v) => value_pieces(v@) + text(" has no expression form."@),
        RLError::UnknownStruct(s) => text(s@ + " is not a struct type."@),
        RLError::BadApplication(f, a) => text("Contract not satisfied: "@) + value_pieces(f@) + text(" "@)
            + value_pieces(a@) + text("."@),
        RLError::DepthExceeded => text("Evaluation nested too deeply."@),
        RLError::Host(s) => text(s@),
    }
}

fn text_of(parts: &Vec<&str>) -> (r: String)
    ensures
        r@ == concat_views(parts@),
{
    let mut r = String::new();
    let mut i: usize = 0;
    while i < parts.len()
        invariant
            i <= parts@.len(),
            r@ == concat_views(parts@.subrange(0, i as int)),
        decreases parts@.len() - i,
    {
        let ghost sub = parts@.subrange(0, i + 1);
        assert(sub.drop_last() =~= parts@.subrange(0, i as int));
        r.append(parts[i]);
        i = i + 1;
    }
    assert(parts@.subrange(0, i as int) =~= parts@);
    r
}

/// The characters of string slices, one after the other.
pub open spec fn concat_views(parts: Seq<&str>) -> Seq<char>
    decreases parts.len(),
{
    if parts.len() == 0 {
        Seq::empty()
    } else {
        concat_views(parts.drop_last()) + parts.last()@
    }
}

/// `Expected {a} arg(s), found {b}.`
fn arity_message(kind: &str, a: usize, b: usize) -> (r: String)
    ensures
        r@ == arity_text(kind@, a as nat, b as nat),
{
    let sa = decimal_text(a);
    let sb = decimal_text(b);
    let parts: Vec<&str> = vec!["Expected ", kind, sa.as_str(), " arg(s), found ", sb.as_str(), "."];
    let r = text_of(&parts);
    assert(r@ =~= arity_text(kind@, a as nat, b as nat)) by {
        reveal_with_fuel(concat_views, 7);
    }
    r
}

/// Pieces followed by a text.
fn then_text(mut pieces: Vec<Piece>, t: &str) -> (r: Vec<Piece>)
    ensures
        pieces_view(r@) == pieces_view(pieces@) + text(t@),
{
    push_text(&mut pieces, lit(t));
    pieces
}

/// The message of an error, as pieces.
pub fn render_error(e: &RLError) -> (r: Vec<Piece>)
    ensures
        pieces_view(r@) == error_pieces(*e),
{
    let mut out: Vec<Piece> = Vec::new();
    assert(pieces_view(out@) =~= Seq::<PieceView>::empty());
    match e {
        RLError::Unbound(s) => {
            let parts: Vec<&str> = vec!["Variable ", s.as_str(), " is unbound."];
            let t = text_of(&parts);
            assert(t@ =~= "Variable "@ + s@ + " is unbound."@) by {
                reveal_with_fuel(concat_views, 4);
            }
            push_text(&mut out, t);
            out
        },
        RLError::NotAFunction(v) => then_text(render_value(v), " is not a function."),
        RLError::NotANumber(v) => then_text(render_value(v), " is not a number."),
        RLError::NotAnIdentifier(x) => then_text(render_expr(x), " is not an identifier."),
        RLError::NotAList(x) => then_text(render_expr(x), " is not a list."),
        RLError::NotABool(x) => then_text(render_expr(x), " is not a bool."),
        RLError::ListExpected(v) => then_text(render_value(v), " is not a list."),
        RLError::BoolExpected(v) => then_text(render_value(v), " is not a bool."),
        RLError::StructExpected(v) => then_text(render_value(v), " is not a struct."),
        RLError::ArityExact(a, b) => {
            proof {
                reveal_strlit("");
            }
            assert(""@ =~= Seq::<char>::empty());
            push_text(&mut out, arity_message("", *a, *b));
            out
        },
        RLError::ArityAtLeast(a, b) => {
            push_text(&mut out, arity_message("at least ", *a, *b));
            out
        },
        RLError::ArityAtMost(a, b) => {
            push_text(&mut out, arity_message("at most ", *a, *b));
            out
        },
        RLError::ReservedWord(s) => {
            let parts: Vec<&str> = vec!["\"", s.as_str(), "\" is a reserved word."];
            let t = text_of(&parts);
            assert(t@ =~= "\""@ + s@ + "\" is a reserved word."@) by {
                reveal_with_fuel(concat_views, 4);
            }
            push_text(&mut out, t);
            out
        },
        RLError::VariadicNotLast => then_text(out, "Only the final parameter of a function may be variadic."),
        RLError::EmptyDefinition => then_text(out, "Cannot redefine empty list."),
        RLError::EmptyList => then_text(out, "Cannot take apart an empty list."),
        RLError::NotQuotable(v) => then_text(render_value(v), " has no expression form."),
        RLError::UnknownStruct(s) => {
            let mut t = s.clone();
            t.append(" is not a struct type.");
            push_text(&mut out, t);
            out
        },
        RLError::BadApplication(f, a) => {
            let out = then_text(out, "Contract not satisfied: ");
            let mut out = out;
            push_all(&mut out, render_value(f));
            let mut out = then_text(out, " ");
            push_all(&mut out, render_value(a));
            then_text(out, ".")
        },
        RLError::DepthExceeded => then_text(out, "Evaluation nested too deeply."),
        RLError::Host(s) => {
            push_text(&mut out, s.clone());
            out
        },
    }
}

} // verus!
