use vstd::prelude::*;

verus! {

/// The mathematical model of a symbolic expression.
pub enum ExprView {
    Str(Seq<char>),
    Num(u64),
    Bool(bool),
    Ident(Seq<char>, bool),
    List(Seq<ExprView>),
    Quote(Box<ExprView>),
    Nil,
}

/// A symbolic expression, as a reader hands it to the evaluator.
#[derive(Debug)]
pub enum SExpr {
    Str(String),
    /// A number literal, held as the bit pattern of an IEEE-754 binary64 value.
    Num(u64),
    Bool(bool),
    /// An identifier, and whether it carries the variadic marker (`rest...`).
    Ident(String, bool),
    List(Vec<SExpr>),
    Quote(Box<SExpr>),
    Nil,
}

/// The model of an expression.
pub open spec fn expr_view(e: SExpr) -> ExprView
    decreases e,
{
    match e {
        SExpr::Str(s) => ExprView::Str(s@),
        SExpr::Num(n) => ExprView::Num(n),
        SExpr::Bool(b) => ExprView::Bool(b),
        SExpr::Ident(s, v) => ExprView::Ident(s@, v),
        SExpr::List(items) => ExprView::List(exprs_view(items@)),
        SExpr::Quote(inner) => ExprView::Quote(Box::new(expr_view(*inner))),
        SExpr::Nil => ExprView::Nil,
    }
}

/// The models of a sequence of expressions.
pub open spec fn exprs_view(items: Seq<SExpr>) -> Seq<ExprView>
    decreases items,
{
    Seq::new(
        items.len(),
        |i: int|
            if 0 <= i < items.len() {
                expr_view(items[i])
            } else {
                ExprView::Nil
            },
    )
}

impl View for SExpr {
    type V = ExprView;

    open spec fn view(&self) -> ExprView {
        expr_view(*self)
    }
}

impl SExpr {
    /// An independent copy of the expression.
    pub fn copy(&self) -> (r: SExpr)
        ensures
            r@ == self@,
        decreases self,
    {
        match self {
            SExpr::Str(s) => {
                let c = s.clone();
                SExpr::Str(c)
            },
            SExpr::Num(n) => SExpr::Num(*n),
            SExpr::Bool(b) => SExpr::Bool(*b),
            SExpr::Ident(s, v) => SExpr::Ident(s.clone(), *v),
            SExpr::List(items) => SExpr::List(copy_exprs(items)),
            SExpr::Quote(inner) => {
                let c = inner.copy();
                SExpr::Quote(Box::new(c))
            },
            SExpr::Nil => SExpr::Nil,
        }
    }
}

/// Copies each expression of `items`, in order.
pub fn copy_exprs(items: &Vec<SExpr>) -> (r: Vec<SExpr>)
    ensures
        exprs_view(r@) == exprs_view(items@),
    decreases items,
{
    let mut out: Vec<SExpr> = Vec::new();
    let mut i: usize = 0;
    while i < items.len()
        invariant
            i <= items.len(),
            out@.len() == i,
            forall|j: int| 0 <= j < i ==> out@[j]@ == items@[j]@,
        decreases items.len() - i,
    {
        proof {
            vstd::std_specs::vec::axiom_vec_index_decreases(*items, i as int);
        }
        let c = items[i].copy();
        out.push(c);
        i = i + 1;
    }
    assert(exprs_view(out@) =~= exprs_view(items@));
    out
}

} // verus!
