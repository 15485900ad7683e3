use vstd::prelude::*;
use crate::environment::{Environment, FieldIndex, first_index};
use crate::error::{RLError, arity_exact, not_a_bool, not_a_list, not_an_identifier, reserved_word};
use crate::model::{St, args_loop, bind, cond_loop, define_rewrite, evals, forms, let_loop, pop, push, state_of, step_args, step_result, step_state};
use crate::eval::{atom_values, head_outcome, Natives, atom_outcome, atom_value, evaluate, is_atom, lemma_atom_value};
use crate::structs::{define_struct_post, accessor_post, constructor_post, define_struct_form, predicate_post, struct_accessor, struct_constructor, struct_predicate};
use crate::sexpr::{ExprView, SExpr, copy_exprs, exprs_view};
use crate::value::{Form, FormView, Value, ValueView, form_view, names_view, nil_view, values_view};

verus! {

/// The words that `define` refuses to bind.
pub open spec fn is_reserved(name: Seq<char>) -> bool {
    ||| name == "define"@
    ||| name == "define-struct"@
    ||| name == "begin"@
    ||| name == "cond"@
    ||| name == "else"@
    ||| name == "if"@
    ||| name == "let"@
}

/// Whether `name` is a reserved word.
pub fn reserved(name: &String) -> (r: bool)
    ensures
        r == is_reserved(name@),
{
    name.eq(&String::from_str("define")) || name.eq(&String::from_str("define-struct"))
        || name.eq(&String::from_str("begin")) || name.eq(&String::from_str("cond"))
        || name.eq(&String::from_str("else")) || name.eq(&String::from_str("if"))
        || name.eq(&String::from_str("let"))
}

/// The name of the predicate that `define-struct` generates: `Name?`.
pub open spec fn predicate_name(name: Seq<char>) -> Seq<char> {
    name + "?"@
}

/// The name of the accessor that `define-struct` generates: `Name-field`.
pub open spec fn accessor_name(name: Seq<char>, field: Seq<char>) -> Seq<char> {
    name + "-"@ + field
}

/// The name of the constructor that `define-struct` generates: `make-Name`.
pub open spec fn constructor_name(name: Seq<char>) -> Seq<char> {
    "make-"@ + name
}

/// Whether every parameter is an identifier and only the last may be variadic.
pub open spec fn params_ok(ps: Seq<ExprView>) -> bool {
    forall|i: int|
        0 <= i < ps.len() ==> (#[trigger] ps[i] matches ExprView::Ident(_, v) && (v ==> i
            == ps.len() - 1))
}

/// The parameter at `i` is an identifier, variadic only if it is the last.
pub open spec fn param_ok(ps: Seq<ExprView>, i: int) -> bool {
    ps[i] matches ExprView::Ident(_, v) && (v ==> i == ps.len() - 1)
}

/// The error of the first parameter that is not acceptable: a misplaced
/// variadic marker, or the expression that is not an identifier.
pub open spec fn bad_param_error(ps: Seq<ExprView>, r: Result<Value, RLError>) -> bool {
    exists|i: int|
        0 <= i < ps.len() && !param_ok(ps, i) && (forall|j: int| 0 <= j < i ==> #[trigger] param_ok(ps, j))
            && (ps[i] is Ident ==> r == Err::<Value, RLError>(RLError::VariadicNotLast)) && (!(
        ps[i] is Ident) ==> (r matches Err(RLError::NotAnIdentifier(x)) && x@ == ps[i]))
}

/// The names of identifier parameters.
pub open spec fn param_names(ps: Seq<ExprView>) -> Seq<Seq<char>> {
    Seq::new(
        ps.len(),
        |i: int|
            match ps[i] {
                ExprView::Ident(s, _) => s,
                _ => Seq::empty(),
            },
    )
}

/// Whether the last parameter carries the variadic marker.
pub open spec fn last_variadic(ps: Seq<ExprView>) -> bool {
    ps.len() > 0 && ps.last() matches ExprView::Ident(_, true)
}

/// Whether the value is an instance of the struct type `name`.
pub open spec fn spec_is_instance(v: ValueView, name: Seq<char>) -> bool {
    v matches ValueView::Struct(n, _) && n == name
}

/// The value of the field `field` of the struct instance `v`, whose type
/// declares the fields `fields`.
pub open spec fn spec_field(v: ValueView, fields: Seq<Seq<char>>, field: Seq<char>) -> Option<
    ValueView,
> {
    match v {
        ValueView::Struct(_, vals) => match first_index(fields, field) {
            Some(i) => if i < vals.len() {
                Some(vals[i])
            } else {
                None
            },
            None => None,
        },
        _ => None,
    }
}

/// A `cond` clause whose test and value need no application when it is
/// well-formed; a malformed clause is allowed too.
pub open spec fn atomic_clause(c: ExprView) -> bool {
    c matches ExprView::List(pair) ==> (pair.len() == 2 ==> is_atom(pair[0]) && is_atom(pair[1]))
}

/// The frames that `cond` evaluates its tests in: a new scope where `else`
/// is true.
pub open spec fn cond_frames(frames: Seq<Map<Seq<char>, ValueView>>) -> Seq<Map<Seq<char>, ValueView>> {
    frames.push(Map::empty().insert("else"@, ValueView::Bool(true)))
}

/// Why `cond` or `let` stops on a clause or a binding.
pub enum Failure {
    /// The clause or binding is not a list.
    NotAList(ExprView),
    /// The clause or binding has this many elements, not two.
    Arity(nat),
    /// A test's value is not a boolean.
    NotBool(ValueView),
    /// A binding's name is not an identifier.
    NotAnIdentifier(ExprView),
    /// An identifier that nothing binds.
    Unresolved,
}

/// The error that `r` carries for a failure.
pub open spec fn fails_with(f: Failure, r: Result<Value, RLError>) -> bool {
    match f {
        Failure::NotAList(e) => r matches Err(RLError::NotAList(x)) && x@ == e,
        Failure::Arity(n) => r == Err::<Value, RLError>(RLError::ArityExact(2, n as usize)),
        Failure::NotBool(v) => r matches Err(RLError::BoolExpected(x)) && x@ == v,
        Failure::NotAnIdentifier(e) => r matches Err(RLError::NotAnIdentifier(x)) && x@ == e,
        Failure::Unresolved => r matches Err(RLError::Unbound(_)),
    }
}

/// The value expression of the first clause whose test is true (`None` when
/// every test is false), or the failure of the first clause that stops `cond`.
pub open spec fn cond_choice(cs: Seq<ExprView>, inner: Seq<Map<Seq<char>, ValueView>>) -> Result<
    Option<ExprView>,
    Failure,
>
    decreases cs.len(),
{
    if cs.len() == 0 {
        Ok(None)
    } else {
        match cs[0] {
            ExprView::List(pair) => if pair.len() == 2 {
                match atom_value(pair[0], inner) {
                    Some(ValueView::Bool(true)) => Ok(Some(pair[1])),
                    Some(ValueView::Bool(false)) => cond_choice(cs.subrange(1, cs.len() as int), inner),
                    Some(v) => Err(Failure::NotBool(v)),
                    None => Err(Failure::Unresolved),
                }
            } else {
                Err(Failure::Arity(pair.len()))
            },
            _ => Err(Failure::NotAList(cs[0])),
        }
    }
}

/// A `let` binding `(name value)` whose value needs no application.
pub open spec fn atomic_binding(b: ExprView) -> bool {
    b matches ExprView::List(pair) ==> (pair.len() == 2 ==> (pair[0] is Ident ==> is_atom(pair[1])))
}

/// The scope that `let` builds from the bindings `bs` above `frames`: each
/// value is resolved with the bindings made before it in view, then bound.
/// A malformed binding or an unresolved value stops it with a failure.
pub open spec fn let_scope(bs: Seq<ExprView>, frames: Seq<Map<Seq<char>, ValueView>>) -> Result<
    Map<Seq<char>, ValueView>,
    Failure,
>
    decreases bs.len(),
{
    if bs.len() == 0 {
        Ok(Map::empty())
    } else {
        match let_scope(bs.drop_last(), frames) {
            Err(f) => Err(f),
            Ok(m) => match bs.last() {
                ExprView::List(pair) => if pair.len() == 2 {
                    match pair[0] {
                        ExprView::Ident(name, _) => match atom_value(pair[1], frames.push(m)) {
                            Some(v) => Ok(m.insert(name, v)),
                            None => Err(Failure::Unresolved),
                        },
                        _ => Err(Failure::NotAnIdentifier(pair[0])),
                    }
                } else {
                    Err(Failure::Arity(pair.len()))
                },
                _ => Err(Failure::NotAList(bs.last())),
            },
        }
    }
}

/// Once a prefix of the bindings fails, all of them fail in the same way.
pub proof fn lemma_let_scope_prefix(bs: Seq<ExprView>, k: int, frames: Seq<Map<Seq<char>, ValueView>>)
    requires
        0 <= k <= bs.len(),
        let_scope(bs.subrange(0, k), frames) is Err,
    ensures
        let_scope(bs, frames) == let_scope(bs.subrange(0, k), frames),
    decreases bs.len() - k,
{
    if k < bs.len() {
        let next = bs.subrange(0, k + 1);
        assert(next.drop_last() =~= bs.subrange(0, k));
        lemma_let_scope_prefix(bs, k + 1, frames);
    } else {
        assert(bs.subrange(0, k) =~= bs);
    }
}

/// What `(define name value)` gives when `value` needs no application: the
/// innermost frame binds `name` to its value.
pub open spec fn define_post(
    exprs: Seq<ExprView>,
    fuel: u64,
    before: Seq<Map<Seq<char>, ValueView>>,
    after: Seq<Map<Seq<char>, ValueView>>,
    r: Result<Value, RLError>,
) -> bool {
    exprs.len() == 3 && fuel > 0 && is_atom(exprs[2]) ==> (exprs[1] matches ExprView::Ident(name, _) ==> (
    !is_reserved(name) ==> match atom_value(exprs[2], before) {
        Some(v) => (r matches Ok(x) && x@ == nil_view()) && after == before.update(
            before.len() - 1,
            before.last().insert(name, v),
        ),
        None => r is Err && after == before,
    }))
}

/// The instance that the application `items` builds when its head resolves
/// to a struct constructor of a registered type and its operands, one per
/// field, need no application; `None` otherwise.
pub open spec fn constructed(
    items: Seq<ExprView>,
    frames: Seq<Map<Seq<char>, ValueView>>,
    reg: Map<Seq<char>, Seq<Seq<char>>>,
) -> Option<ValueView> {
    if items.len() > 0 && is_atom(items[0]) && (forall|i: int|
        1 <= i < items.len() ==> #[trigger] is_atom(items[i])) {
        match atom_value(items[0], frames) {
            Some(ValueView::Macro(FormView::StructConstructor(sn))) => if reg.contains_key(sn)
                && items.len() - 1 == reg[sn].len() {
                match atom_values(items.subrange(1, items.len() as int), frames) {
                    Some(vs) => Some(ValueView::Struct(sn, vs)),
                    None => None,
                }
            } else {
                None
            },
            _ => None,
        }
    } else {
        None
    }
}

/// What `(define name (make-Name value ...))` gives when the constructor's
/// operands need no application: `name` is bound to the new instance.
pub open spec fn define_constructed_post(
    exprs: Seq<ExprView>,
    fuel: u64,
    before: Seq<Map<Seq<char>, ValueView>>,
    after: Seq<Map<Seq<char>, ValueView>>,
    reg: Map<Seq<char>, Seq<Seq<char>>>,
    r: Result<Value, RLError>,
) -> bool {
    exprs.len() == 3 && fuel >= 3 ==> (exprs[1] matches ExprView::Ident(name, _) ==> (!is_reserved(name)
        ==> (exprs[2] matches ExprView::List(items) ==> (constructed(items, before, reg) matches Some(
        v,
    ) ==> (r matches Ok(x) && x@ == nil_view()) && after == before.update(
        before.len() - 1,
        before.last().insert(name, v),
    )))))
}

/// What `lambda` gives for the expressions `exprs` of its application.
pub open spec fn lambda_post(exprs: Seq<ExprView>, r: Result<Value, RLError>) -> bool {
    &&& exprs.len() != 3 ==> r == Err::<Value, RLError>(RLError::ArityExact(2, (exprs.len() - 1) as usize))
    &&& exprs.len() == 3 ==> match exprs[1] {
        ExprView::List(ps) => if params_ok(ps) {
            r matches Ok(v) && v@ == ValueView::Func(param_names(ps), exprs[2], last_variadic(ps))
        } else {
            bad_param_error(ps, r)
        },
        _ => r matches Err(RLError::NotAList(e)) && e@ == exprs[1],
    }
}

/// What `if` gives when its test needs no application.
pub open spec fn if_post(
    exprs: Seq<ExprView>,
    fuel: u64,
    before: Seq<Map<Seq<char>, ValueView>>,
    after: Seq<Map<Seq<char>, ValueView>>,
    r: Result<Value, RLError>,
) -> bool {
    &&& exprs.len() != 4 ==> r == Err::<Value, RLError>(RLError::ArityExact(3, (exprs.len() - 1) as usize))
        && after == before
    &&& exprs.len() == 4 && fuel > 0 && is_atom(exprs[1]) ==> match atom_value(exprs[1], before) {
        Some(ValueView::Bool(b)) => is_atom(if b {
            exprs[2]
        } else {
            exprs[3]
        }) ==> after == before && atom_outcome(if b {
            exprs[2]
        } else {
            exprs[3]
        }, before, r),
        Some(_) => r matches Err(RLError::NotABool(x)) && x@ == exprs[1],
        None => r is Err,
    }
}

/// What `cond` gives when its clauses need no application.
pub open spec fn cond_post(
    exprs: Seq<ExprView>,
    fuel: u64,
    before: Seq<Map<Seq<char>, ValueView>>,
    after: Seq<Map<Seq<char>, ValueView>>,
    r: Result<Value, RLError>,
) -> bool {
    fuel > 0 && (forall|i: int| 1 <= i < exprs.len() ==> #[trigger] atomic_clause(exprs[i])) ==> match cond_choice(
        exprs.subrange(1, exprs.len() as int),
        cond_frames(before),
    ) {
        Ok(Some(e)) => after == before && atom_outcome(e, before, r),
        Ok(None) => (r matches Ok(v) && v@ == nil_view()) && after == before,
        Err(f) => fails_with(f, r),
    }
}

/// What `let` gives when its values and body need no application.
pub open spec fn let_post(
    exprs: Seq<ExprView>,
    fuel: u64,
    before: Seq<Map<Seq<char>, ValueView>>,
    after: Seq<Map<Seq<char>, ValueView>>,
    r: Result<Value, RLError>,
) -> bool {
    &&& exprs.len() != 3 ==> r == Err::<Value, RLError>(RLError::ArityExact(2, (exprs.len() - 1) as usize))
        && after == before
    &&& exprs.len() == 3 && fuel > 0 ==> (exprs[1] matches ExprView::List(bs) ==> ((forall|i: int|
        0 <= i < bs.len() ==> #[trigger] atomic_binding(bs[i])) && is_atom(exprs[2]) ==> match let_scope(
        bs,
        before,
    ) {
        Ok(m) => after == before && atom_outcome(exprs[2], before.push(m), r),
        Err(f) => fails_with(f, r),
    }))
}

/// What a special form guarantees of its application `exprs`.
pub open spec fn form_post(
    form: FormView,
    exprs: Seq<ExprView>,
    fuel: u64,
    before: Seq<Map<Seq<char>, ValueView>>,
    after: Seq<Map<Seq<char>, ValueView>>,
    reg: Map<Seq<char>, Seq<Seq<char>>>,
    reg_after: Map<Seq<char>, Seq<Seq<char>>>,
    r: Result<Value, RLError>,
) -> bool {
    match form {
        FormView::DefineStruct => define_struct_post(exprs, before, after, reg, reg_after, r),
        FormView::Define => define_post(exprs, fuel, before, after, r) && define_constructed_post(
            exprs,
            fuel,
            before,
            after,
            reg,
            r,
        ),
        FormView::Lambda => lambda_post(exprs, r) && after == before,
        FormView::If => if_post(exprs, fuel, before, after, r),
        FormView::Cond => cond_post(exprs, fuel, before, after, r),
        FormView::Let => let_post(exprs, fuel, before, after, r),
        FormView::StructPredicate(name) => predicate_post(name, exprs, fuel, before, after, r),
        FormView::StructAccessor(name, field) => accessor_post(name, field, exprs, fuel, before, after, reg, r),
        FormView::StructConstructor(name) => constructor_post(name, exprs, fuel, before, after, reg, r),
        _ => true,
    }
}

/// Runs a special form on the unevaluated expressions of its application,
/// `items[0]` being the form's own head.
pub fn apply_form<H: Natives>(
    form: &Form,
    items: &Vec<SExpr>,
    env: &mut Environment,
    host: &mut H,
    fuel: u64,
) -> (r: Result<Value, RLError>)
    requires
        old(env).wf(),
        items@.len() >= 1,
    ensures
        final(env).wf(),
        final(env).depth() == old(env).depth(),
        form_post(
            form_view(*form),
            exprs_view(items@),
            fuel,
            old(env).frames(),
            final(env).frames(),
            old(env).registry(),
            final(env).registry(),
            r,
        ),
        forms(form_view(*form), exprs_view(items@), fuel as nat, state_of(*old(env)), state_of(*final(env)), r),
    decreases fuel, 2int,
{
    let ghost xs = exprs_view(items@);
    assert(forall|k: int| 0 <= k < items@.len() ==> #[trigger] xs[k] == items@[k]@);
    match form {
        Form::Define => define_form(items, env, host, fuel),
        Form::Lambda => lambda_form(items),
        Form::If => if_form(items, env, host, fuel),
        Form::Cond => {
            let r = cond_form(items, env, host, fuel);
            proof {
                if fuel > 0 && (forall|i: int| 1 <= i < xs.len() ==> #[trigger] atomic_clause(xs[i])) {
                    assert forall|i: int| 1 <= i < items@.len() implies #[trigger] atomic_clause(items@[i]@) by {
                        assert(xs[i] == items@[i]@);
                    }
                }
            }
            r
        },
        Form::Let => let_form(items, env, host, fuel),
        Form::DefineStruct => define_struct_form(items, env),
        Form::StructPredicate(name) => struct_predicate(name, items, env, host, fuel),
        Form::StructAccessor(name, field) => struct_accessor(name, field, items, env, host, fuel),
        Form::StructConstructor(name) => struct_constructor(name, items, env, host, fuel),
    }
}

/// `(define name value)` binds `name` in the innermost scope to the value of
/// `value`; `(define (name param ...) body ...)` is rewritten to
/// `(define name (lambda (param ...) body))`, with several body expressions
/// wrapped in `(begin ...)`, and evaluated.
pub fn define_form<H: Natives>(
    exprs: &Vec<SExpr>,
    env: &mut Environment,
    host: &mut H,
    fuel: u64,
) -> (r: Result<Value, RLError>)
    requires
        old(env).wf(),
        exprs@.len() >= 1,
    ensures
        final(env).wf(),
        final(env).depth() == old(env).depth(),
        exprs@.len() <= 2 ==> r == Err::<Value, RLError>(
            RLError::ArityAtLeast(2, (exprs@.len() - 1) as usize),
        ) && *final(env) == *old(env),
        exprs@.len() > 2 ==> match exprs@[1]@ {
            ExprView::Ident(name, _) => {
                &&& exprs@.len() != 3 ==> r == Err::<Value, RLError>(
                    RLError::ArityExact(2, (exprs@.len() - 1) as usize),
                ) && *final(env) == *old(env)
                &&& exprs@.len() == 3 && is_reserved(name) ==> (r matches Err(
                    RLError::ReservedWord(s),
                ) && s@ == name) && *final(env) == *old(env)
                &&& exprs@.len() == 3 && !is_reserved(name) && r is Ok ==> (r matches Ok(v)
                    && v@ == nil_view()) && final(env).frames().last().contains_key(name)
            },
            ExprView::List(sig) => sig.len() == 0 ==> r == Err::<Value, RLError>(
                RLError::EmptyDefinition,
            ) && *final(env) == *old(env),
            _ => (r matches Err(RLError::NotAnIdentifier(e)) && e@ == exprs@[1]@) && *final(env)
                == *old(env),
        },
        define_post(exprs_view(exprs@), fuel, old(env).frames(), final(env).frames(), r),
        define_constructed_post(
            exprs_view(exprs@),
            fuel,
            old(env).frames(),
            final(env).frames(),
            old(env).registry(),
            r,
        ),
        forms(FormView::Define, exprs_view(exprs@), fuel as nat, state_of(*old(env)), state_of(*final(env)), r),
    decreases fuel, 1int,
{
    let len = exprs.len();
    if len <= 2 {
        return Err(RLError::ArityAtLeast(2, len - 1));
    }
    match &exprs[1] {
        SExpr::Ident(name, _) => {
            if len != 3 {
                return Err(arity_exact(2, len - 1));
            }
            if reserved(name) {
                let err = reserved_word(name.as_str());
                assert(err matches RLError::ReservedWord(s) && s@ == name@);
                return Err(err);
            }
            let r = evaluate(&exprs[2], env, host, fuel);
            proof {
                if fuel > 0 && is_atom(exprs@[2]@) {
                    lemma_atom_value(exprs@[2]@, old(env).frames(), r);
                }
                if fuel >= 3 {
                    if let ExprView::List(items) = exprs@[2]@ {
                        if constructed(items, old(env).frames(), old(env).registry()) is Some {
                            assert(head_outcome(
                                items,
                                (fuel - 1) as u64,
                                old(env).frames(),
                                env.frames(),
                                old(env).registry(),
                                env.registry(),
                                r,
                            ));
                        }
                    }
                }
            }
            let ghost sv = state_of(*env);
            proof {
                assert(exprs_view(exprs@)[1] == exprs@[1]@);
                assert(exprs_view(exprs@)[2] == exprs@[2]@);
                assert(step_state(sv) && step_result(r));
            }
            match r {
                Ok(v) => {
                    proof {
                        env.lemma_frames_len();
                    }
                    let ghost vv = v@;
                    env.define(name.clone(), v);
                    assert(env.frames().last().contains_key(name@));
                    assert(state_of(*env) == bind(sv, name@, vv));
                    Ok(Value::nil())
                },
                Err(err) => Err(err),
            }
        },
        SExpr::List(sig) => {
            if sig.len() == 0 {
                assert(exprs_view(sig@) =~= Seq::<ExprView>::empty());
                return Err(RLError::EmptyDefinition);
            }
            assert(exprs_view(sig@).len() > 0);
            let ghost xs = exprs_view(exprs@);
            let ghost sv = exprs_view(sig@);
            assert(xs[1] == exprs@[1]@);
            let fname = sig[0].copy();
            assert(fname@ == sv[0]);
            let mut params: Vec<SExpr> = Vec::new();
            let mut i: usize = 1;
            while i < sig.len()
                invariant
                    1 <= i <= sig@.len(),
                    sv == exprs_view(sig@),
                    params@.len() == i - 1,
                    forall|k: int| 0 <= k < params@.len() ==> #[trigger] params@[k]@ == sv[k + 1],
                decreases sig@.len() - i,
            {
                assert(sv[i as int] == sig@[i as int]@);
                params.push(sig[i].copy());
                i = i + 1;
            }
            assert forall|k: int| 0 <= k < params@.len() implies #[trigger] exprs_view(params@)[k] == sv.subrange(1, sv.len() as int)[k] by {
                assert(exprs_view(params@)[k] == params@[k]@);
            }
            assert(exprs_view(params@) =~= sv.subrange(1, sv.len() as int));
            let body = if len > 3 {
                let mut stmts: Vec<SExpr> = Vec::new();
                stmts.push(SExpr::Ident(String::from_str("begin"), false));
                let mut j: usize = 2;
                while j < len
                    invariant
                        2 <= j <= len == exprs@.len(),
                        xs == exprs_view(exprs@),
                        stmts@.len() == j - 1,
                        stmts@[0]@ == ExprView::Ident("begin"@, false),
                        forall|k: int| 1 <= k < stmts@.len() ==> #[trigger] stmts@[k]@ == xs[k + 1],
                    decreases len - j,
                {
                    assert(xs[j as int] == exprs@[j as int]@);
                    stmts.push(exprs[j].copy());
                    j = j + 1;
                }
                let ghost want = seq![ExprView::Ident("begin"@, false)] + xs.subrange(2, xs.len() as int);
                assert forall|k: int| 0 <= k < stmts@.len() implies #[trigger] exprs_view(stmts@)[k] == want[k] by {
                    assert(exprs_view(stmts@)[k] == stmts@[k]@);
                }
                assert(exprs_view(stmts@) =~= seq![ExprView::Ident("begin"@, false)] + xs.subrange(2, xs.len() as int));
                SExpr::List(stmts)
            } else {
                assert(xs[2] == exprs@[2]@);
                exprs[2].copy()
            };
            let ghost bv = body@;
            assert(bv == (if xs.len() > 3 {
                ExprView::List(seq![ExprView::Ident("begin"@, false)] + xs.subrange(2, xs.len() as int))
            } else {
                xs[2]
            }));
            let mut lambda: Vec<SExpr> = Vec::new();
            lambda.push(SExpr::Ident(String::from_str("lambda"), false));
            lambda.push(SExpr::List(params));
            lambda.push(body);
            let mut def: Vec<SExpr> = Vec::new();
            def.push(SExpr::Ident(String::from_str("define"), false));
            def.push(fname);
            def.push(SExpr::List(lambda));
            let d = SExpr::List(def);
            proof {
                let lv = seq![
                    ExprView::Ident("lambda"@, false),
                    ExprView::List(sv.subrange(1, sv.len() as int)),
                    bv,
                ];
                assert(exprs_view(d->List_0@[2]->List_0@) =~= lv);
                assert(exprs_view(d->List_0@) =~= seq![
                    ExprView::Ident("define"@, false),
                    sv[0],
                    ExprView::List(lv),
                ]);
                assert(d@ == define_rewrite(xs, sv));
            }
            evaluate(&d, env, host, fuel)
        },
        _ => Err(not_an_identifier(&exprs[1])),
    }
}

/// `(lambda (param ...) body)`: a closure over the parameter names and the
/// unevaluated body. Only the last parameter may carry the variadic marker.
pub fn lambda_form(exprs: &Vec<SExpr>) -> (r: Result<Value, RLError>)
    requires
        exprs@.len() >= 1,
    ensures
        exprs@.len() != 3 ==> r == Err::<Value, RLError>(
            RLError::ArityExact(2, (exprs@.len() - 1) as usize),
        ),
        exprs@.len() == 3 ==> match exprs@[1]@ {
            ExprView::List(ps) => if params_ok(ps) {
                r matches Ok(v) && v@ == ValueView::Func(
                    param_names(ps),
                    exprs@[2]@,
                    last_variadic(ps),
                )
            } else {
                bad_param_error(ps, r)
            },
            _ => r matches Err(RLError::NotAList(e)) && e@ == exprs@[1]@,
        },
{
    let len = exprs.len();
    if len != 3 {
        return Err(arity_exact(2, len - 1));
    }
    match &exprs[1] {
        SExpr::List(params) => {
            let ghost ps = exprs_view(params@);
            let n = params.len();
            let mut names: Vec<String> = Vec::new();
            let mut i: usize = 0;
            while i < n
                invariant
                    n == params@.len() == ps.len(),
                    ps == exprs_view(params@),
                    len == exprs@.len() == 3,
                    exprs@[1]@ == ExprView::List(ps),
                    i <= n,
                    names@.len() == i,
                    forall|j: int| 0 <= j < i ==> names@[j]@ == param_names(ps)[j],
                    forall|j: int|
                        0 <= j < i ==> (#[trigger] ps[j] matches ExprView::Ident(_, v) && (v ==> j
                            == ps.len() - 1)),
                decreases n - i,
            {
                assert(ps[i as int] == params@[i as int]@);
                match &params[i] {
                    SExpr::Ident(s, variadic) => {
                        if *variadic && i != n - 1 {
                            assert(!params_ok(ps));
                            assert(!param_ok(ps, i as int));
                            assert(forall|j: int| 0 <= j < i ==> #[trigger] param_ok(ps, j));
                            return Err(RLError::VariadicNotLast);
                        }
                        names.push(s.clone());
                    },
                    _ => {
                        assert(!params_ok(ps));
                        assert(!param_ok(ps, i as int));
                        assert(forall|j: int| 0 <= j < i ==> #[trigger] param_ok(ps, j));
                        return Err(not_an_identifier(&params[i]));
                    },
                }
                i = i + 1;
            }
            let variadic = if n > 0 {
                match &params[n - 1] {
                    SExpr::Ident(_, v) => *v,
                    _ => false,
                }
            } else {
                false
            };
            assert(names_view(names@) =~= param_names(ps));
            Ok(Value::Func(names, exprs[2].copy(), variadic))
        },
        _ => Err(not_a_list(&exprs[1])),
    }
}

/// `(if test then else)`: evaluates `test`, which must give a boolean, then
/// only the branch that it selects.
pub fn if_form<H: Natives>(exprs: &Vec<SExpr>, env: &mut Environment, host: &mut H, fuel: u64) -> (r:
    Result<Value, RLError>)
    requires
        old(env).wf(),
        exprs@.len() >= 1,
    ensures
        final(env).wf(),
        final(env).depth() == old(env).depth(),
        exprs@.len() != 4 ==> r == Err::<Value, RLError>(
            RLError::ArityExact(3, (exprs@.len() - 1) as usize),
        ) && *final(env) == *old(env),
        exprs@.len() == 4 && fuel > 0 && is_atom(exprs@[1]@) ==> match atom_value(
            exprs@[1]@,
            old(env).frames(),
        ) {
            Some(ValueView::Bool(b)) => is_atom(if b {
                exprs@[2]@
            } else {
                exprs@[3]@
            }) ==> *final(env) == *old(env) && atom_outcome(
                if b {
                    exprs@[2]@
                } else {
                    exprs@[3]@
                },
                old(env).frames(),
                r,
            ),
            Some(_) => r matches Err(RLError::NotABool(x)) && x@ == exprs@[1]@,
            None => r is Err,
        },
        forms(FormView::If, exprs_view(exprs@), fuel as nat, state_of(*old(env)), state_of(*final(env)), r),
    decreases fuel, 1int,
{
    let len = exprs.len();
    if len != 4 {
        return Err(arity_exact(3, len - 1));
    }
    let r = evaluate(&exprs[1], env, host, fuel);
    proof {
        if fuel > 0 && is_atom(exprs@[1]@) {
            lemma_atom_value(exprs@[1]@, old(env).frames(), r);
        }
        assert(exprs_view(exprs@)[1] == exprs@[1]@);
        assert(exprs_view(exprs@)[2] == exprs@[2]@);
        assert(exprs_view(exprs@)[3] == exprs@[3]@);
        assert(step_state(state_of(*env)) && step_result(r));
    }
    match r {
        Ok(Value::Bool(b)) => {
            if b {
                evaluate(&exprs[2], env, host, fuel)
            } else {
                evaluate(&exprs[3], env, host, fuel)
            }
        },
        Ok(_) => Err(not_a_bool(&exprs[1])),
        Err(err) => Err(err),
    }
}

/// `(cond (test value) ...)`: in a new scope where `else` is true, evaluates
/// the tests in order; the first that is true closes the scope and gives the
/// value of its expression. With no true test the result is the empty list.
/// The scope is closed on every path.
pub fn cond_form<H: Natives>(
    exprs: &Vec<SExpr>,
    env: &mut Environment,
    host: &mut H,
    fuel: u64,
) -> (r: Result<Value, RLError>)
    requires
        old(env).wf(),
        exprs@.len() >= 1,
    ensures
        final(env).wf(),
        final(env).depth() == old(env).depth(),
        exprs@.len() == 1 ==> (r matches Ok(v) && v@ == nil_view()) && final(env).frames()
            == old(env).frames(),
        fuel > 0 && (forall|i: int| 1 <= i < exprs@.len() ==> #[trigger] atomic_clause(exprs@[i]@))
            ==> match cond_choice(
            exprs_view(exprs@).subrange(1, exprs@.len() as int),
            cond_frames(old(env).frames()),
        ) {
            Ok(Some(e)) => final(env).frames() == old(env).frames() && atom_outcome(
                e,
                old(env).frames(),
                r,
            ),
            Ok(None) => (r matches Ok(v) && v@ == nil_view()) && final(env).frames()
                == old(env).frames(),
            Err(f) => fails_with(f, r),
        },
        forms(FormView::Cond, exprs_view(exprs@), fuel as nat, state_of(*old(env)), state_of(*final(env)), r),
    decreases fuel, 1int,
{
    proof {
        env.lemma_wf_depth();
        env.lemma_frames_len();
        reveal_strlit("else");
    }
    let ghost d = env.depth();
    let ghost fr = env.frames();
    let ghost cs = exprs_view(exprs@).subrange(1, exprs@.len() as int);
    let ghost atomic = fuel > 0 && (forall|i: int| 1 <= i < exprs@.len() ==> #[trigger] atomic_clause(exprs@[i]@));
    let ghost s0 = state_of(*env);
    env.enter_scope();
    env.define(String::from_str("else"), Value::Bool(true));
    let ghost inner = env.frames();
    let ghost si = push(s0, Map::empty().insert("else"@, ValueView::Bool(true)));
    assert(state_of(*env).frames =~= si.frames);
    assert(state_of(*env) == si);
    assert(inner =~= cond_frames(fr));
    assert(inner.drop_last() =~= fr);
    assert(cs.subrange(0, cs.len() as int) =~= cs);
    let mut i: usize = 1;
    while i < exprs.len()
        invariant
            1 <= i <= exprs@.len(),
            env.wf(),
            env.depth() == d + 1,
            d >= 1,
            d == old(env).depth(),
            fr == old(env).frames(),
            inner == cond_frames(fr),
            inner.drop_last() == fr,
            i == 1 ==> env.frames() == inner,
            cs == exprs_view(exprs@).subrange(1, exprs@.len() as int),
            atomic == (fuel > 0 && (forall|i: int| 1 <= i < exprs@.len() ==> #[trigger] atomic_clause(exprs@[i]@))),
            atomic ==> env.frames() == inner && cond_choice(cs, inner) == cond_choice(
                cs.subrange(i - 1, cs.len() as int),
                inner,
            ),
            si == push(state_of(*old(env)), Map::empty().insert("else"@, ValueView::Bool(true))),
            state_of(*env).frames.len() == d + 2,
            forall|s1: St, r: Result<Value, RLError>|
                #[trigger] cond_loop(cs.subrange(i - 1, cs.len() as int), fuel as nat, state_of(*env), s1, r)
                    ==> cond_loop(cs, fuel as nat, si, s1, r),
        decreases exprs@.len() - i,
    {
        let ghost rest = cs.subrange(i - 1, cs.len() as int);
        let ghost st = state_of(*env);
        proof {
            env.lemma_frames_len();
        }
        assert(rest.len() > 0 && rest[0] == exprs@[i as int]@);
        assert(rest.subrange(1, rest.len() as int) =~= cs.subrange(i as int, cs.len() as int));
        match &exprs[i] {
            SExpr::List(clause) => {
                assert(exprs_view(clause@).len() == clause@.len());
                if clause.len() != 2 {
                    env.exit_scope();
                    assert(state_of(*env) == pop(st));
                    assert(cond_loop(rest, fuel as nat, st, state_of(*env), Err::<Value, RLError>(RLError::ArityExact(2, clause.len()))));
                    return Err(arity_exact(2, clause.len()));
                }
                assert(exprs_view(clause@)[0] == clause@[0]@);
                assert(exprs_view(clause@)[1] == clause@[1]@);
                let ghost before = env.frames();
                let t = evaluate(&clause[0], env, host, fuel);
                let ghost st2 = state_of(*env);
                proof {
                    if atomic {
                        assert(atomic_clause(exprs@[i as int]@));
                        lemma_atom_value(clause@[0]@, before, t);
                    }
                    assert(step_state(st2) && step_result(t));
                    env.lemma_frames_len();
                }
                match t {
                    Ok(Value::Bool(b)) => {
                        if b {
                            env.exit_scope();
                            assert(state_of(*env) == pop(st2));
                            let ghost sp = state_of(*env);
                            let r = evaluate(&clause[1], env, host, fuel);
                            assert(cond_loop(rest, fuel as nat, st, state_of(*env), r));
                            return r;
                        } else {
                            proof {
                                let next = cs.subrange(i as int, cs.len() as int);
                                assert forall|s1: St, r: Result<Value, RLError>|
                                    #[trigger] cond_loop(next, fuel as nat, st2, s1, r)
                                    implies cond_loop(cs, fuel as nat, si, s1, r) by {
                                    assert(cond_loop(rest, fuel as nat, st, s1, r));
                                }
                            }
                        }
                    },
                    Ok(v) => {
                        env.exit_scope();
                        assert(state_of(*env) == pop(st2));
                        let e = RLError::BoolExpected(v);
                        assert(cond_loop(rest, fuel as nat, st, state_of(*env), Err::<Value, RLError>(e)));
                        return Err(e);
                    },
                    Err(err) => {
                        env.exit_scope();
                        assert(state_of(*env) == pop(st2));
                        assert(cond_loop(rest, fuel as nat, st, state_of(*env), Err::<Value, RLError>(err)));
                        return Err(err);
                    },
                }
            },
            _ => {
                env.exit_scope();
                assert(state_of(*env) == pop(st));
                let e = not_a_list(&exprs[i]);
                assert(cond_loop(rest, fuel as nat, st, state_of(*env), Err::<Value, RLError>(e)));
                return Err(e);
            },
        }
        i = i + 1;
    }
    assert(cs.subrange(i - 1, cs.len() as int) =~= Seq::<ExprView>::empty());
    let ghost stf = state_of(*env);
    proof {
        env.lemma_frames_len();
    }
    env.exit_scope();
    assert(state_of(*env) == pop(stf));
    let r = Value::nil();
    assert(cond_loop(cs.subrange(i - 1, cs.len() as int), fuel as nat, stf, state_of(*env), Ok::<Value, RLError>(r)));
    Ok(r)
}

/// `(let ((name value) ...) body)`: in a new scope, evaluates each `value`
/// in order and binds it, so that later bindings see earlier ones, then
/// evaluates `body` there. The scope is closed on every path.
pub fn let_form<H: Natives>(exprs: &Vec<SExpr>, env: &mut Environment, host: &mut H, fuel: u64) -> (r:
    Result<Value, RLError>)
    requires
        old(env).wf(),
        exprs@.len() >= 1,
    ensures
        final(env).wf(),
        final(env).depth() == old(env).depth(),
        exprs@.len() != 3 ==> r == Err::<Value, RLError>(
            RLError::ArityExact(2, (exprs@.len() - 1) as usize),
        ) && *final(env) == *old(env),
        exprs@.len() == 3 && !(exprs@[1]@ is List) ==> (r matches Err(RLError::NotAList(e))
            && e@ == exprs@[1]@) && *final(env) == *old(env),
        exprs@.len() == 3 && fuel > 0 ==> (exprs@[1]@ matches ExprView::List(bs) ==> ((forall|i: int|
            0 <= i < bs.len() ==> #[trigger] atomic_binding(bs[i])) && is_atom(exprs@[2]@) ==> match let_scope(
            bs,
            old(env).frames(),
        ) {
            Ok(m) => final(env).frames() == old(env).frames() && atom_outcome(
                exprs@[2]@,
                old(env).frames().push(m),
                r,
            ),
            Err(f) => fails_with(f, r),
        })),
        forms(FormView::Let, exprs_view(exprs@), fuel as nat, state_of(*old(env)), state_of(*final(env)), r),
    decreases fuel, 1int,
{
    let len = exprs.len();
    if len != 3 {
        return Err(arity_exact(2, len - 1));
    }
    match &exprs[1] {
        SExpr::List(bindings) => {
            proof {
                env.lemma_wf_depth();
                env.lemma_frames_len();
            }
            let ghost d = env.depth();
            let ghost fr = env.frames();
            let ghost bs = exprs_view(bindings@);
            let ghost atomic = fuel > 0 && (forall|i: int| 0 <= i < bs.len() ==> #[trigger] atomic_binding(bs[i]))
                && is_atom(exprs@[2]@);
            assert(bs.subrange(0, 0) =~= Seq::<ExprView>::empty());
            let ghost s0 = state_of(*env);
            let ghost body = exprs@[2]@;
            assert(exprs_view(exprs@)[1] == exprs@[1]@);
            assert(exprs_view(exprs@)[2] == exprs@[2]@);
            env.enter_scope();
            let ghost si = push(s0, Map::empty());
            assert(state_of(*env).frames =~= si.frames);
            assert(bs.subrange(0, bs.len() as int) =~= bs);
            let mut i: usize = 0;
            while i < bindings.len()
                invariant
                    i <= bindings@.len(),
                    len == exprs@.len() == 3,
                    exprs@[1]@ == ExprView::List(bs),
                    bs == exprs_view(bindings@),
                    env.wf(),
                    env.depth() == d + 1,
                    d >= 1,
                    d == old(env).depth(),
                    fr == old(env).frames(),
                    atomic == (fuel > 0 && (forall|i: int| 0 <= i < bs.len() ==> #[trigger] atomic_binding(bs[i]))
                        && is_atom(exprs@[2]@)),
                    atomic ==> (let_scope(bs.subrange(0, i as int), fr) matches Ok(m) && env.frames()
                        == fr.push(m)),
                    si == push(state_of(*old(env)), Map::empty()),
                    body == exprs@[2]@,
                    state_of(*env).frames.len() == d + 2,
                    forall|s1: St, r: Result<Value, RLError>|
                        #[trigger] let_loop(bs.subrange(i as int, bs.len() as int), body, fuel as nat, state_of(*env), s1, r)
                            ==> let_loop(bs, body, fuel as nat, si, s1, r),
                decreases bindings@.len() - i,
            {
                let ghost rest = bs.subrange(i as int, bs.len() as int);
                let ghost st = state_of(*env);
                assert(rest[0] == bindings@[i as int]@);
                assert(rest.subrange(1, rest.len() as int) =~= bs.subrange(i + 1, bs.len() as int));
                proof {
                    env.lemma_frames_len();
                }
                let ghost pre = bs.subrange(0, i as int);
                let ghost next = bs.subrange(0, i + 1);
                assert(next.drop_last() =~= pre);
                assert(next.last() == bindings@[i as int]@);
                match &bindings[i] {
                    SExpr::List(binding) => {
                        assert(exprs_view(binding@).len() == binding@.len());
                        if binding.len() != 2 {
                            proof {
                                if atomic {
                                    lemma_let_scope_prefix(bs, i + 1, fr);
                                }
                            }
                            env.exit_scope();
                            assert(state_of(*env) == pop(st));
                            assert(let_loop(rest, body, fuel as nat, st, state_of(*env), Err::<Value, RLError>(RLError::ArityExact(2, binding.len()))));
                            return Err(arity_exact(2, binding.len()));
                        }
                        assert(exprs_view(binding@)[0] == binding@[0]@);
                        assert(exprs_view(binding@)[1] == binding@[1]@);
                        match &binding[0] {
                            SExpr::Ident(name, _) => {
                                let ghost before = env.frames();
                                proof {
                                    env.lemma_frames_len();
                                }
                                let rv = evaluate(&binding[1], env, host, fuel);
                                let ghost sv = state_of(*env);
                                proof {
                                    assert(step_state(sv) && step_result(rv));
                                    env.lemma_frames_len();
                                }
                                match rv {
                                    Ok(v) => {
                                        proof {
                                            if atomic {
                                                assert(atomic_binding(bs[i as int]));
                                                lemma_atom_value(binding@[1]@, before, Ok::<Value, RLError>(v));
                                            }
                                        }
                                        let ghost vv = v@;
                                        env.define(name.clone(), v);
                                        proof {
                                            if atomic {
                                                let m = let_scope(pre, fr)->Ok_0;
                                                assert(env.frames() =~= fr.push(m.insert(name@, vv)));
                                            }
                                            assert(state_of(*env) == bind(sv, name@, vv));
                                            let next = bs.subrange(i + 1, bs.len() as int);
                                            assert forall|s1: St, r: Result<Value, RLError>|
                                                #[trigger] let_loop(next, body, fuel as nat, state_of(*env), s1, r)
                                                implies let_loop(bs, body, fuel as nat, si, s1, r) by {
                                                assert(let_loop(rest, body, fuel as nat, st, s1, r));
                                            }
                                        }
                                    },
                                    Err(err) => {
                                        proof {
                                            if atomic {
                                                assert(atomic_binding(bs[i as int]));
                                                lemma_atom_value(binding@[1]@, before, Err::<Value, RLError>(err));
                                                lemma_let_scope_prefix(bs, i + 1, fr);
                                            }
                                        }
                                        env.exit_scope();
                                        assert(state_of(*env) == pop(sv));
                                        assert(let_loop(rest, body, fuel as nat, st, state_of(*env), Err::<Value, RLError>(err)));
                                        return Err(err);
                                    },
                                }
                            },
                            _ => {
                                proof {
                                    if atomic {
                                        lemma_let_scope_prefix(bs, i + 1, fr);
                                    }
                                }
                                env.exit_scope();
                                assert(state_of(*env) == pop(st));
                                let e = not_an_identifier(&binding[0]);
                                assert(let_loop(rest, body, fuel as nat, st, state_of(*env), Err::<Value, RLError>(e)));
                                return Err(e);
                            },
                        }
                    },
                    _ => {
                        proof {
                            if atomic {
                                lemma_let_scope_prefix(bs, i + 1, fr);
                            }
                        }
                        env.exit_scope();
                        assert(state_of(*env) == pop(st));
                        let e = not_a_list(&bindings[i]);
                        assert(let_loop(rest, body, fuel as nat, st, state_of(*env), Err::<Value, RLError>(e)));
                        return Err(e);
                    },
                }
                i = i + 1;
            }
            assert(bs.subrange(0, i as int) =~= bs);
            let ghost inner = env.frames();
            let ghost stf = state_of(*env);
            let r = evaluate(&exprs[2], env, host, fuel);
            let ghost sb = state_of(*env);
            proof {
                env.lemma_frames_len();
            }
            env.exit_scope();
            assert(state_of(*env) == pop(sb));
            assert(step_state(sb));
            assert(bs.subrange(i as int, bs.len() as int).len() == 0);
            assert(let_loop(bs.subrange(i as int, bs.len() as int), body, fuel as nat, stf, state_of(*env), r));
            proof {
                if atomic {
                    assert(inner.drop_last() =~= fr);
                }
            }
            r
        },
        _ => Err(not_a_list(&exprs[1])),
    }
}

} // verus!
