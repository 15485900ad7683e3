use vstd::prelude::*;
use crate::error::RLError;
use crate::sexpr::{ExprView, SExpr, exprs_view};

verus! {

/// A special form: an operator that receives its operands unevaluated.
///
/// The forms generated by `define-struct` carry the struct's type name (and,
/// for an accessor, the field name) and query the struct registry each time
/// they run.
#[derive(Debug)]
pub enum Form {
    Define,
    Lambda,
    If,
    Cond,
    Let,
    DefineStruct,
    /// `Name?`
    StructPredicate(String),
    /// `Name-field`
    StructAccessor(String, String),
    /// `make-Name`
    StructConstructor(String),
}

/// A native operator: its operands are evaluated, left to right, before it runs.
#[derive(Debug)]
pub enum Intrinsic {
    /// `begin`: the last argument, or the empty list.
    Begin,
    /// `cons`: prepends a value to a list.
    Cons,
    /// `car`: the first element of a list.
    Car,
    /// `cdr`: a list without its first element.
    Cdr,
    /// `append`: a list with a value added at its end.
    Append,
    /// `or` over booleans.
    Or,
    /// `and` over booleans.
    And,
    /// `not` of a boolean.
    Not,
    /// `eq?`: structural equality.
    IsEq,
    /// `num?`
    IsNum,
    /// `bool?`
    IsBool,
    /// `str?`
    IsStr,
    /// `symbol?`
    IsSymbol,
    /// `cons?`: whether the value is a list.
    IsCons,
    /// `lambda?`: whether the value is a closure or an intrinsic.
    IsLambda,
    /// `apply`: applies a function to a list of arguments.
    Apply,
    /// `eval`: evaluates a quoted value.
    Eval,
    /// An operator that the host program provides, called by name.
    Native(String),
}

/// A runtime value.
#[derive(Debug)]
pub enum Value {
    /// A number, held as the bit pattern of an IEEE-754 binary64 value.
    Num(u64),
    Bool(bool),
    Str(String),
    /// A quoted identifier and its variadic marker.
    Symbol(String, bool),
    List(Vec<Value>),
    /// A closure: parameter names, body, and whether the last parameter is variadic.
    Func(Vec<String>, SExpr, bool),
    Intrinsic(Intrinsic),
    Macro(Form),
    /// A struct instance: its type name and its field values in declared order.
    Struct(String, Vec<Value>),
}

pub enum FormView {
    Define,
    Lambda,
    If,
    Cond,
    Let,
    DefineStruct,
    StructPredicate(Seq<char>),
    StructAccessor(Seq<char>, Seq<char>),
    StructConstructor(Seq<char>),
}

pub enum IntrinsicView {
    Begin,
    Cons,
    Car,
    Cdr,
    Append,
    Or,
    And,
    Not,
    IsEq,
    IsNum,
    IsBool,
    IsStr,
    IsSymbol,
    IsCons,
    IsLambda,
    Apply,
    Eval,
    Native(Seq<char>),
}

/// The mathematical model of a value.
pub enum ValueView {
    Num(u64),
    Bool(bool),
    Str(Seq<char>),
    Symbol(Seq<char>, bool),
    List(Seq<ValueView>),
    Func(Seq<Seq<char>>, ExprView, bool),
    Intrinsic(IntrinsicView),
    Macro(FormView),
    Struct(Seq<char>, Seq<ValueView>),
}

pub open spec fn form_view(f: Form) -> FormView {
    match f {
        Form::Define => FormView::Define,
        Form::Lambda => FormView::Lambda,
        Form::If => FormView::If,
        Form::Cond => FormView::Cond,
        Form::Let => FormView::Let,
        Form::DefineStruct => FormView::DefineStruct,
        Form::StructPredicate(n) => FormView::StructPredicate(n@),
        Form::StructAccessor(n, f) => FormView::StructAccessor(n@, f@),
        Form::StructConstructor(n) => FormView::StructConstructor(n@),
    }
}

pub open spec fn intrinsic_view(i: Intrinsic) -> IntrinsicView {
    match i {
        Intrinsic::Begin => IntrinsicView::Begin,
        Intrinsic::Cons => IntrinsicView::Cons,
        Intrinsic::Car => IntrinsicView::Car,
        Intrinsic::Cdr => IntrinsicView::Cdr,
        Intrinsic::Append => IntrinsicView::Append,
        Intrinsic::Or => IntrinsicView::Or,
        Intrinsic::And => IntrinsicView::And,
        Intrinsic::Not => IntrinsicView::Not,
        Intrinsic::IsEq => IntrinsicView::IsEq,
        Intrinsic::IsNum => IntrinsicView::IsNum,
        Intrinsic::IsBool => IntrinsicView::IsBool,
        Intrinsic::IsStr => IntrinsicView::IsStr,
        Intrinsic::IsSymbol => IntrinsicView::IsSymbol,
        Intrinsic::IsCons => IntrinsicView::IsCons,
        Intrinsic::IsLambda => IntrinsicView::IsLambda,
        Intrinsic::Apply => IntrinsicView::Apply,
        Intrinsic::Eval => IntrinsicView::Eval,
        Intrinsic::Native(n) => IntrinsicView::Native(n@),
    }
}

/// The names of a sequence of strings.
pub open spec fn names_view(names: Seq<String>) -> Seq<Seq<char>> {
    Seq::new(names.len(), |i: int| names[i]@)
}

/// The model of a value.
pub open spec fn value_view(v: Value) -> ValueView
    decreases v,
{
    match v {
        Value::Num(n) => ValueView::Num(n),
        Value::Bool(b) => ValueView::Bool(b),
        Value::Str(s) => ValueView::Str(s@),
        Value::Symbol(s, va) => ValueView::Symbol(s@, va),
        Value::List(items) => ValueView::List(values_view(items@)),
        Value::Func(params, body, va) => ValueView::Func(names_view(params@), body@, va),
        Value::Intrinsic(i) => ValueView::Intrinsic(intrinsic_view(i)),
        Value::Macro(f) => ValueView::Macro(form_view(f)),
        Value::Struct(n, fields) => ValueView::Struct(n@, values_view(fields@)),
    }
}

/// The models of a sequence of values.
pub open spec fn values_view(items: Seq<Value>) -> Seq<ValueView>
    decreases items,
{
    Seq::new(
        items.len(),
        |i: int|
            if 0 <= i < items.len() {
                value_view(items[i])
            } else {
                ValueView::Bool(false)
            },
    )
}

impl View for Value {
    type V = ValueView;

    open spec fn view(&self) -> ValueView {
        value_view(*self)
    }
}

/// The empty list, which also stands for "no value".
pub open spec fn nil_view() -> ValueView {
    ValueView::List(Seq::empty())
}

/// The value that a quoted expression denotes: atoms map to atoms,
/// identifiers to symbols, lists element-wise, and nil to the empty list.
pub open spec fn quoted(e: ExprView) -> ValueView
    decreases e,
{
    match e {
        ExprView::Str(s) => ValueView::Str(s),
        ExprView::Num(n) => ValueView::Num(n),
        ExprView::Bool(b) => ValueView::Bool(b),
        ExprView::Ident(s, va) => ValueView::Symbol(s, va),
        ExprView::List(items) => ValueView::List(quoted_all(items)),
        ExprView::Quote(inner) => quoted(*inner),
        ExprView::Nil => nil_view(),
    }
}

pub open spec fn quoted_all(items: Seq<ExprView>) -> Seq<ValueView>
    decreases items,
{
    Seq::new(
        items.len(),
        |i: int|
            if 0 <= i < items.len() {
                quoted(items[i])
            } else {
                ValueView::Bool(false)
            },
    )
}

/// The expression form of a value: symbols become identifiers, lists stay
/// lists, and a struct instance becomes `(make-Name field ...)`.
pub open spec fn unquoted(v: ValueView) -> ExprView
    decreases v,
{
    match v {
        ValueView::Num(n) => ExprView::Num(n),
        ValueView::Bool(b) => ExprView::Bool(b),
        ValueView::Str(s) => ExprView::Str(s),
        ValueView::Symbol(s, va) => ExprView::Ident(s, va),
        ValueView::List(xs) => ExprView::List(unquoted_all(xs)),
        ValueView::Struct(n, xs) => ExprView::List(
            seq![ExprView::Ident("make-"@ + n, false)] + unquoted_all(xs),
        ),
        ValueView::Func(params, body, va) => ExprView::List(
            seq![
                ExprView::Ident("lambda"@, false),
                ExprView::List(lambda_params(params, va)),
                body,
            ],
        ),
        _ => ExprView::Nil,
    }
}

/// The parameter list of a closure as identifiers, the last one carrying
/// the variadic marker when the closure is variadic.
pub open spec fn lambda_params(params: Seq<Seq<char>>, variadic: bool) -> Seq<ExprView> {
    Seq::new(params.len(), |i: int| ExprView::Ident(params[i], variadic && i == params.len() - 1))
}

/// Whether the value has an expression form: it holds no intrinsic and no
/// special form.
pub open spec fn quotable(v: ValueView) -> bool
    decreases v,
{
    match v {
        ValueView::List(xs) => all_quotable(xs),
        ValueView::Struct(_, xs) => all_quotable(xs),
        ValueView::Intrinsic(_) => false,
        ValueView::Macro(_) => false,
        _ => true,
    }
}

pub open spec fn all_quotable(xs: Seq<ValueView>) -> bool
    decreases xs,
{
    if xs.len() == 0 {
        true
    } else {
        all_quotable(xs.drop_last()) && quotable(xs.last())
    }
}

/// Once a prefix holds a value without an expression form, the whole does.
pub proof fn lemma_all_quotable_prefix(xs: Seq<ValueView>, k: int)
    requires
        0 <= k <= xs.len(),
        !all_quotable(xs.subrange(0, k)),
    ensures
        !all_quotable(xs),
    decreases xs.len() - k,
{
    if k < xs.len() {
        assert(xs.subrange(0, k + 1).drop_last() =~= xs.subrange(0, k));
        lemma_all_quotable_prefix(xs, k + 1);
    } else {
        assert(xs.subrange(0, k) =~= xs);
    }
}

/// Plain data: numbers, booleans, strings, symbols and lists of plain data.
pub open spec fn plain(v: ValueView) -> bool
    decreases v,
{
    match v {
        ValueView::List(xs) => all_plain(xs),
        ValueView::Num(_) => true,
        ValueView::Bool(_) => true,
        ValueView::Str(_) => true,
        ValueView::Symbol(..) => true,
        _ => false,
    }
}

pub open spec fn all_plain(xs: Seq<ValueView>) -> bool
    decreases xs,
{
    if xs.len() == 0 {
        true
    } else {
        all_plain(xs.drop_last()) && plain(xs.last())
    }
}

proof fn lemma_all_plain_index(xs: Seq<ValueView>, i: int)
    requires
        all_plain(xs),
        0 <= i < xs.len(),
    ensures
        plain(xs[i]),
    decreases xs.len(),
{
    if i < xs.len() - 1 {
        lemma_all_plain_index(xs.drop_last(), i);
    }
}

/// Quoting the expression form of plain data gives the data back.
pub proof fn law_quote_round_trip(v: ValueView)
    requires
        plain(v),
    ensures
        quoted(unquoted(v)) == v,
    decreases v,
{
    if let ValueView::List(xs) = v {
        assert forall|i: int| 0 <= i < xs.len() implies quoted(#[trigger] unquoted_all(xs)[i]) == xs[i] by {
            lemma_all_plain_index(xs, i);
            law_quote_round_trip(xs[i]);
        }
        assert(quoted_all(unquoted_all(xs)) =~= xs);
    }
}

pub open spec fn unquoted_all(xs: Seq<ValueView>) -> Seq<ExprView>
    decreases xs,
{
    Seq::new(
        xs.len(),
        |i: int|
            if 0 <= i < xs.len() {
                unquoted(xs[i])
            } else {
                ExprView::Nil
            },
    )
}

/// Whether the bits are those of a NaN.
pub open spec fn is_nan_bits(b: u64) -> bool {
    (b >> 52u64) & 0x7ffu64 == 0x7ffu64 && b & 0xf_ffff_ffff_ffffu64 != 0
}

/// Whether the bits are those of a positive or a negative zero.
pub open spec fn is_zero_bits(b: u64) -> bool {
    b & 0x7fff_ffff_ffff_ffffu64 == 0
}

/// IEEE-754 equality of two binary64 values given by their bits: a NaN equals
/// nothing, and the two zeros are equal.
pub open spec fn num_eq(a: u64, b: u64) -> bool {
    !is_nan_bits(a) && !is_nan_bits(b) && (a == b || (is_zero_bits(a) && is_zero_bits(b)))
}

/// Structural equality of values: same variant and equal parts. Closures,
/// intrinsics and special forms equal nothing.
pub open spec fn value_eq(a: ValueView, b: ValueView) -> bool
    decreases a,
{
    match (a, b) {
        (ValueView::Num(x), ValueView::Num(y)) => num_eq(x, y),
        (ValueView::Bool(x), ValueView::Bool(y)) => x == y,
        (ValueView::Str(x), ValueView::Str(y)) => x == y,
        (ValueView::Symbol(x, xv), ValueView::Symbol(y, yv)) => x == y && xv == yv,
        (ValueView::List(xs), ValueView::List(ys)) => values_eq(xs, ys),
        (ValueView::Struct(x, xs), ValueView::Struct(y, ys)) => x == y && values_eq(xs, ys),
        _ => false,
    }
}

/// Element-wise equality of two sequences of values.
pub open spec fn values_eq(xs: Seq<ValueView>, ys: Seq<ValueView>) -> bool
    decreases xs,
{
    xs.len() == ys.len() && forall|i: int|
        #![trigger xs[i]]
        0 <= i < xs.len() ==> value_eq(xs[i], ys[i])
}

/// The bits of a NaN, tested as IEEE-754 defines it.
pub fn is_nan(b: u64) -> (r: bool)
    ensures
        r == is_nan_bits(b),
{
    (b >> 52u64) & 0x7ffu64 == 0x7ffu64 && b & 0xf_ffff_ffff_ffffu64 != 0
}

/// IEEE-754 equality of two numbers given by their bits.
pub fn numbers_equal(a: u64, b: u64) -> (r: bool)
    ensures
        r == num_eq(a, b),
{
    !is_nan(a) && !is_nan(b) && (a == b || (a & 0x7fff_ffff_ffff_ffffu64 == 0 && b
        & 0x7fff_ffff_ffff_ffffu64 == 0))
}

/// The empty list.
pub fn empty() -> (r: Value)
    ensures
        r@ == nil_view(),
{
    Value::nil()
}

impl Form {
    pub fn copy(&self) -> (r: Form)
        ensures
            form_view(r) == form_view(*self),
    {
        match self {
            Form::Define => Form::Define,
            Form::Lambda => Form::Lambda,
            Form::If => Form::If,
            Form::Cond => Form::Cond,
            Form::Let => Form::Let,
            Form::DefineStruct => Form::DefineStruct,
            Form::StructPredicate(n) => Form::StructPredicate(n.clone()),
            Form::StructAccessor(n, f) => Form::StructAccessor(n.clone(), f.clone()),
            Form::StructConstructor(n) => Form::StructConstructor(n.clone()),
        }
    }
}

impl Intrinsic {
    pub fn copy(&self) -> (r: Intrinsic)
        ensures
            intrinsic_view(r) == intrinsic_view(*self),
    {
        match self {
            Intrinsic::Begin => Intrinsic::Begin,
            Intrinsic::Cons => Intrinsic::Cons,
            Intrinsic::Car => Intrinsic::Car,
            Intrinsic::Cdr => Intrinsic::Cdr,
            Intrinsic::Append => Intrinsic::Append,
            Intrinsic::Or => Intrinsic::Or,
            Intrinsic::And => Intrinsic::And,
            Intrinsic::Not => Intrinsic::Not,
            Intrinsic::IsEq => Intrinsic::IsEq,
            Intrinsic::IsNum => Intrinsic::IsNum,
            Intrinsic::IsBool => Intrinsic::IsBool,
            Intrinsic::IsStr => Intrinsic::IsStr,
            Intrinsic::IsSymbol => Intrinsic::IsSymbol,
            Intrinsic::IsCons => Intrinsic::IsCons,
            Intrinsic::IsLambda => Intrinsic::IsLambda,
            Intrinsic::Apply => Intrinsic::Apply,
            Intrinsic::Eval => Intrinsic::Eval,
            Intrinsic::Native(n) => Intrinsic::Native(n.clone()),
        }
    }
}

/// Copies a list of names.
pub fn copy_names(names: &Vec<String>) -> (r: Vec<String>)
    ensures
        names_view(r@) == names_view(names@),
{
    let mut out: Vec<String> = Vec::new();
    let mut i: usize = 0;
    while i < names.len()
        invariant
            i <= names.len(),
            out@.len() == i,
            forall|j: int| 0 <= j < i ==> out@[j]@ == names@[j]@,
        decreases names.len() - i,
    {
        out.push(names[i].clone());
        i = i + 1;
    }
    assert(names_view(out@) =~= names_view(names@));
    out
}

impl Value {
    /// The empty list.
    pub fn nil() -> (r: Value)
        ensures
            r@ == nil_view(),
    {
        let r = Value::List(Vec::new());
        assert(values_view(Seq::<Value>::empty()) =~= Seq::<ValueView>::empty());
        r
    }

    /// An independent copy of the value.
    pub fn copy(&self) -> (r: Value)
        ensures
            r@ == self@,
        decreases self,
    {
        match self {
            Value::Num(n) => Value::Num(*n),
            Value::Bool(b) => Value::Bool(*b),
            Value::Str(s) => Value::Str(s.clone()),
            Value::Symbol(s, v) => Value::Symbol(s.clone(), *v),
            Value::List(items) => Value::List(copy_values(items)),
            Value::Func(params, body, v) => Value::Func(copy_names(params), body.copy(), *v),
            Value::Intrinsic(i) => Value::Intrinsic(i.copy()),
            Value::Macro(f) => Value::Macro(f.copy()),
            Value::Struct(n, fields) => Value::Struct(n.clone(), copy_values(fields)),
        }
    }

    /// The value that the quoted expression `e` denotes. This never fails.
    pub fn from_sexpr(e: &SExpr) -> (r: Value)
        ensures
            r@ == quoted(e@),
        decreases e,
    {
        match e {
            SExpr::Num(n) => Value::Num(*n),
            SExpr::Bool(b) => Value::Bool(*b),
            SExpr::Str(s) => Value::Str(s.clone()),
            SExpr::Ident(s, v) => Value::Symbol(s.clone(), *v),
            SExpr::List(items) => Value::List(from_sexprs(items)),
            SExpr::Quote(inner) => Value::from_sexpr(inner),
            SExpr::Nil => Value::nil(),
        }
    }

    /// The expression form of the value, or `NotQuotable` for a closure, an
    /// intrinsic or a special form, wherever it stands in the value.
    pub fn to_sexpr(&self) -> (r: Result<SExpr, RLError>)
        ensures
            r is Ok <==> quotable(self@),
            r matches Ok(e) ==> e@ == unquoted(self@),
            r matches Err(e) ==> e is NotQuotable,
        decreases self,
    {
        match self {
            Value::Num(n) => Ok(SExpr::Num(*n)),
            Value::Bool(b) => Ok(SExpr::Bool(*b)),
            Value::Str(s) => Ok(SExpr::Str(s.clone())),
            Value::Symbol(s, v) => Ok(SExpr::Ident(s.clone(), *v)),
            Value::List(items) => match to_sexprs(items) {
                Ok(es) => Ok(SExpr::List(es)),
                Err(e) => Err(e),
            },
            Value::Struct(name, fields) => match to_sexprs(fields) {
                Ok(es) => Ok(struct_sexpr(name, &es)),
                Err(e) => Err(e),
            },
            Value::Func(params, body, variadic) => Ok(lambda_sexpr(params, body, *variadic)),
            _ => Err(RLError::NotQuotable(self.copy())),
        }
    }

    /// Structural equality: same variant and equal parts, with numbers
    /// compared as IEEE-754 values. Closures, intrinsics and special forms
    /// are equal to nothing, not even to themselves.
    pub fn equals(&self, other: &Value) -> (r: bool)
        ensures
            r == value_eq(self@, other@),
        decreases self,
    {
        match (self, other) {
            (Value::Num(a), Value::Num(b)) => {
                numbers_equal(*a, *b)
            },
            (Value::Bool(a), Value::Bool(b)) => {
                *a == *b
            },
            (Value::Str(a), Value::Str(b)) => {
                a.eq(b)
            },
            (Value::Symbol(a, av), Value::Symbol(b, bv)) => {
                a.eq(b) && *av == *bv
            },
            (Value::List(a), Value::List(b)) => {
                proof {
                    assert(decreases_to!(*self => *a));
                }
                lists_equal(a, b)
            },
            (Value::Struct(a, af), Value::Struct(b, bf)) => {
                proof {
                    assert(decreases_to!(*self => *af));
                }
                a.eq(b) && lists_equal(af, bf)
            },
            _ => {
                assert(!value_eq(self@, other@));
                false
            },
        }
    }
}

/// The values that the quoted expressions `items` denote, in order.
pub fn from_sexprs(items: &Vec<SExpr>) -> (r: Vec<Value>)
    ensures
        values_view(r@) == quoted_all(exprs_view(items@)),
    decreases items,
{
    let mut out: Vec<Value> = Vec::new();
    let mut i: usize = 0;
    while i < items.len()
        invariant
            i <= items.len(),
            out@.len() == i,
            forall|j: int| 0 <= j < i ==> out@[j]@ == quoted(items@[j]@),
        decreases items.len() - i,
    {
        proof {
            vstd::std_specs::vec::axiom_vec_index_decreases(*items, i as int);
        }
        out.push(Value::from_sexpr(&items[i]));
        i = i + 1;
    }
    assert(values_view(out@) =~= quoted_all(exprs_view(items@)));
    out
}

/// `(lambda (p ...) body)`, the expression form of a closure, with `...` on
/// a variadic last parameter.
pub fn lambda_sexpr(params: &Vec<String>, body: &SExpr, variadic: bool) -> (r: SExpr)
    ensures
        r@ == ExprView::List(
            seq![
                ExprView::Ident("lambda"@, false),
                ExprView::List(lambda_params(names_view(params@), variadic)),
                body@,
            ],
        ),
{
    let n = params.len();
    let ghost ps = names_view(params@);
    let mut ids: Vec<SExpr> = Vec::new();
    let mut i: usize = 0;
    while i < n
        invariant
            i <= n == params@.len(),
            ps == names_view(params@),
            ids@.len() == i,
            forall|j: int| 0 <= j < i ==> #[trigger] ids@[j]@ == lambda_params(ps, variadic)[j],
        decreases n - i,
    {
        let ghost before = ids@;
        ids.push(SExpr::Ident(params[i].clone(), variadic && i == n - 1));
        assert(ids@[i as int]@ == lambda_params(ps, variadic)[i as int]);
        assert(forall|j: int| 0 <= j < i ==> ids@[j] == before[j]);
        i = i + 1;
    }
    assert forall|j: int| 0 <= j < n implies #[trigger] exprs_view(ids@)[j] == lambda_params(ps, variadic)[j] by {
        assert(exprs_view(ids@)[j] == ids@[j]@);
    }
    assert(exprs_view(ids@) =~= lambda_params(ps, variadic));
    let mut out: Vec<SExpr> = Vec::new();
    out.push(SExpr::Ident(String::from_str("lambda"), false));
    out.push(SExpr::List(ids));
    out.push(body.copy());
    let ghost want = seq![
        ExprView::Ident("lambda"@, false),
        ExprView::List(lambda_params(ps, variadic)),
        body@,
    ];
    assert(exprs_view(out@) =~= want);
    SExpr::List(out)
}

/// `(make-Name field ...)`, the expression form of an instance of `Name`.
pub fn struct_sexpr(name: &String, es: &Vec<SExpr>) -> (r: SExpr)
    ensures
        r@ == ExprView::List(seq![ExprView::Ident("make-"@ + name@, false)] + exprs_view(es@)),
{
    let mut head = String::from_str("make-");
    head.append(name.as_str());
    let mut out: Vec<SExpr> = Vec::new();
    out.push(SExpr::Ident(head, false));
    let mut i: usize = 0;
    let ghost ev = exprs_view(es@);
    let ghost hv = ExprView::Ident("make-"@ + name@, false);
    while i < es.len()
        invariant
            i <= es@.len(),
            ev == exprs_view(es@),
            out@.len() == i + 1,
            out@[0]@ == hv,
            forall|j: int| 0 <= j < i ==> out@[j + 1]@ == ev[j],
        decreases es@.len() - i,
    {
        out.push(es[i].copy());
        i = i + 1;
    }
    assert(exprs_view(out@) =~= seq![hv] + ev);
    SExpr::List(out)
}

/// The expression forms of `items`, in order, or the failure of the first
/// that has none.
pub fn to_sexprs(items: &Vec<Value>) -> (r: Result<Vec<SExpr>, RLError>)
    ensures
        r is Ok <==> all_quotable(values_view(items@)),
        r matches Ok(es) ==> exprs_view(es@) == unquoted_all(values_view(items@)),
        r matches Err(e) ==> e is NotQuotable,
    decreases items,
{
    let ghost xs = values_view(items@);
    let mut out: Vec<SExpr> = Vec::new();
    let mut i: usize = 0;
    assert(xs.subrange(0, 0) =~= Seq::<ValueView>::empty());
    while i < items.len()
        invariant
            i <= items@.len(),
            xs == values_view(items@),
            out@.len() == i,
            forall|j: int| 0 <= j < i ==> out@[j]@ == unquoted(items@[j]@),
            all_quotable(xs.subrange(0, i as int)),
        decreases items@.len() - i,
    {
        proof {
            vstd::std_specs::vec::axiom_vec_index_decreases(*items, i as int);
        }
        let ghost sub = xs.subrange(0, i + 1);
        assert(sub.drop_last() =~= xs.subrange(0, i as int));
        assert(sub.last() == items@[i as int]@);
        match items[i].to_sexpr() {
            Ok(e) => out.push(e),
            Err(err) => {
                proof {
                    lemma_all_quotable_prefix(xs, i + 1);
                }
                return Err(err);
            },
        }
        i = i + 1;
    }
    assert(xs.subrange(0, i as int) =~= xs);
    assert(exprs_view(out@) =~= unquoted_all(values_view(items@)));
    Ok(out)
}

/// Copies each value of `items`, in order.
pub fn copy_values(items: &Vec<Value>) -> (r: Vec<Value>)
    ensures
        values_view(r@) == values_view(items@),
    decreases items,
{
    let mut out: Vec<Value> = Vec::new();
    let mut i: usize = 0;
    while i < items.len()
        invariant
            i <= items.len(),
            out@.len() == i,
            forall|j: int| 0 <= j < i ==> out@[j]@ == items@[j]@,
        decreases items.len() - i,
    {
        proof {
            vstd::std_specs::vec::axiom_vec_index_decreases(*items, i as int);
        }
        let c = items[i].copy();
        out.push(c);
        i = i + 1;
    }
    assert(values_view(out@) =~= values_view(items@));
    out
}

/// Element-wise equality of two lists of values.
pub fn lists_equal(a: &Vec<Value>, b: &Vec<Value>) -> (r: bool)
    ensures
        r == values_eq(values_view(a@), values_view(b@)),
    decreases a,
{
    if a.len() != b.len() {
        assert(values_view(a@).len() != values_view(b@).len());
        return false;
    }
    let mut i: usize = 0;
    while i < a.len()
        invariant
            i <= a.len(),
            a.len() == b.len(),
            forall|j: int|
                0 <= j < i ==> value_eq(values_view(a@)[j], values_view(b@)[j]),
        decreases a.len() - i,
    {
        proof {
            vstd::std_specs::vec::axiom_vec_index_decreases(*a, i as int);
        }
        if !a[i].equals(&b[i]) {
            assert(!value_eq(values_view(a@)[i as int], values_view(b@)[i as int]));
            return false;
        }
        i = i + 1;
    }
    assert(values_view(a@).len() == values_view(b@).len());
    true
}

} // verus!
