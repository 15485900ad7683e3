//! A relational model of evaluation: `evals(e, fuel, s0, s1, r)` holds when
//! evaluating `e` with nesting budget `fuel` in state `s0` may end in state
//! `s1` with outcome `r`. It is deterministic except where a host operator
//! runs, of which it knows only that it keeps the number of scopes.
use vstd::prelude::*;
use crate::environment::Environment;
use crate::error::RLError;
use crate::eval::{atom_outcome, is_atom, spec_bind};
use crate::forms::{is_reserved, lambda_post, spec_field, spec_is_instance};
use crate::intrinsics::intrinsic_post;
use crate::sexpr::ExprView;
use crate::structs::define_struct_post;
use crate::value::{FormView, IntrinsicView, Value, ValueView, nil_view, quotable, unquoted, values_view};

verus! {

/// What evaluation can see and change: the frames and the struct registry.
pub struct St {
    pub frames: Seq<Map<Seq<char>, ValueView>>,
    pub reg: Map<Seq<char>, Seq<Seq<char>>>,
}

/// The state of an environment.
pub open spec fn state_of(env: Environment) -> St {
    St { frames: env.frames(), reg: env.registry() }
}

/// The models of evaluated operands.
pub open spec fn args_view(ra: Result<Vec<Value>, RLError>) -> Result<Seq<ValueView>, RLError> {
    match ra {
        Ok(a) => Ok(values_view(a@)),
        Err(x) => Err(x),
    }
}

/// Names a state as a witness of an intermediate step.
pub open spec fn step_state(s: St) -> bool {
    true
}

/// Names an outcome as a witness of an intermediate step.
pub open spec fn step_result(r: Result<Value, RLError>) -> bool {
    true
}

/// Names the outcome of evaluating operands as a witness.
pub open spec fn step_args(r: Result<Seq<ValueView>, RLError>) -> bool {
    true
}

/// The state with `m` pushed as a new innermost scope.
pub open spec fn push(s: St, m: Map<Seq<char>, ValueView>) -> St {
    St { frames: s.frames.push(m), reg: s.reg }
}

/// The state with its innermost scope popped.
pub open spec fn pop(s: St) -> St {
    St { frames: s.frames.drop_last(), reg: s.reg }
}

/// The state with `name` bound to `v` in the innermost scope.
pub open spec fn bind(s: St, name: Seq<char>, v: ValueView) -> St {
    St {
        frames: s.frames.update(s.frames.len() - 1, s.frames.last().insert(name, v)),
        reg: s.reg,
    }
}

/// `(define name (lambda (param ...) body))`, the rewriting of
/// `(define (name param ...) body ...)`; several body expressions are
/// wrapped in `(begin ...)`.
pub open spec fn define_rewrite(exprs: Seq<ExprView>, sig: Seq<ExprView>) -> ExprView {
    ExprView::List(
        seq![
            ExprView::Ident("define"@, false),
            sig[0],
            ExprView::List(
                seq![
                    ExprView::Ident("lambda"@, false),
                    ExprView::List(sig.subrange(1, sig.len() as int)),
                    if exprs.len() > 3 {
                        ExprView::List(
                            seq![ExprView::Ident("begin"@, false)] + exprs.subrange(2, exprs.len() as int),
                        )
                    } else {
                        exprs[2]
                    },
                ],
            ),
        ],
    )
}

/// Evaluation of an expression: an atom gives its value; an application
/// evaluates its head, then applies what the head gave.
pub open spec fn evals(e: ExprView, fuel: nat, s0: St, s1: St, r: Result<Value, RLError>) -> bool
    decreases fuel, 0nat, 0nat,
{
    if fuel == 0 {
        r == Err::<Value, RLError>(RLError::DepthExceeded) && s1 == s0
    } else if is_atom(e) {
        s1 == s0 && atom_outcome(e, s0.frames, r)
    } else {
        match e {
            ExprView::List(items) => exists|sh: St, rh: Result<Value, RLError>|
                #![trigger step_state(sh), step_result(rh)]
                evals(items[0], (fuel - 1) as nat, s0, sh, rh) && match rh {
                    Err(x) => r == Err::<Value, RLError>(x) && s1 == sh,
                    Ok(h) => applies(h@, items, (fuel - 1) as nat, sh, s1, r),
                },
            _ => false,
        }
    }
}

/// Evaluation of the operands `xs` from left to right after the values
/// `acc`; the first failure stops it and is its outcome.
pub open spec fn args_loop(
    xs: Seq<ExprView>,
    fuel: nat,
    s0: St,
    acc: Seq<ValueView>,
    s1: St,
    ra: Result<Seq<ValueView>, RLError>,
) -> bool
    decreases fuel, 1nat, xs.len(),
{
    if xs.len() == 0 {
        ra == Ok::<Seq<ValueView>, RLError>(acc) && s1 == s0
    } else {
        exists|sv: St, rv: Result<Value, RLError>|
            #![trigger step_state(sv), step_result(rv)]
            evals(xs[0], fuel, s0, sv, rv) && match rv {
                Err(x) => ra == Err::<Seq<ValueView>, RLError>(x) && s1 == sv,
                Ok(v) => args_loop(xs.subrange(1, xs.len() as int), fuel, sv, acc.push(v@), s1, ra),
            }
    }
}

/// A closure call: the parameters bound in a new scope, the body evaluated
/// there, the scope closed again.
pub open spec fn calls(
    params: Seq<Seq<char>>,
    body: ExprView,
    variadic: bool,
    vs: Seq<ValueView>,
    fuel: nat,
    s0: St,
    s1: St,
    r: Result<Value, RLError>,
) -> bool
    decreases fuel, 1nat, 0nat,
{
    match spec_bind(params, vs, variadic) {
        Err(x) => r == Err::<Value, RLError>(x) && s1 == s0,
        Ok(m) => exists|sb: St| #[trigger] step_state(sb) && evals(body, fuel, push(s0, m), sb, r) && s1 == pop(sb),
    }
}

/// The application `items` whose head evaluated to `h`: a closure or an
/// intrinsic gets its operands' values, a special form the unevaluated list.
pub open spec fn applies(
    h: ValueView,
    items: Seq<ExprView>,
    fuel: nat,
    s0: St,
    s1: St,
    r: Result<Value, RLError>,
) -> bool
    decreases fuel, 3nat, 0nat,
{
    match h {
        ValueView::Func(params, body, variadic) => exists|sa: St, ra: Result<Seq<ValueView>, RLError>|
            #![trigger step_state(sa), step_args(ra)]
            args_loop(items.subrange(1, items.len() as int), fuel, s0, Seq::empty(), sa, ra) && match ra {
                Err(x) => r == Err::<Value, RLError>(x) && s1 == sa,
                Ok(vs) => calls(params, body, variadic, vs, fuel, sa, s1, r),
            },
        ValueView::Intrinsic(op) => exists|sa: St, ra: Result<Seq<ValueView>, RLError>|
            #![trigger step_state(sa), step_args(ra)]
            args_loop(items.subrange(1, items.len() as int), fuel, s0, Seq::empty(), sa, ra) && match ra {
                Err(x) => r == Err::<Value, RLError>(x) && s1 == sa,
                Ok(vs) => runs(op, vs, fuel, sa, s1, r),
            },
        ValueView::Macro(f) => forms(f, items, fuel, s0, s1, r),
        _ => (r matches Err(RLError::NotAFunction(x)) && x@ == h) && s1 == s0,
    }
}

/// An intrinsic run on the argument values `vs`.
pub open spec fn runs(
    op: IntrinsicView,
    vs: Seq<ValueView>,
    fuel: nat,
    s0: St,
    s1: St,
    r: Result<Value, RLError>,
) -> bool
    decreases fuel, 2nat, 0nat,
{
    match op {
        IntrinsicView::Native(_) => s1.frames.len() == s0.frames.len(),
        IntrinsicView::Eval => if vs.len() != 1 {
            r == Err::<Value, RLError>(RLError::ArityExact(1, vs.len() as usize)) && s1 == s0
        } else if !quotable(vs[0]) {
            r matches Err(RLError::NotQuotable(_)) && s1 == s0
        } else {
            evals(unquoted(vs[0]), fuel, s0, s1, r)
        },
        IntrinsicView::Apply => if vs.len() != 2 {
            r == Err::<Value, RLError>(RLError::ArityExact(2, vs.len() as usize)) && s1 == s0
        } else {
            match (vs[0], vs[1]) {
                (ValueView::Func(params, body, variadic), ValueView::List(xs)) => calls(
                    params,
                    body,
                    variadic,
                    xs,
                    fuel,
                    s0,
                    s1,
                    r,
                ),
                (ValueView::Intrinsic(op2), ValueView::List(xs)) => if fuel == 0 {
                    r == Err::<Value, RLError>(RLError::DepthExceeded) && s1 == s0
                } else {
                    runs(op2, xs, (fuel - 1) as nat, s0, s1, r)
                },
                _ => (r matches Err(RLError::BadApplication(f, a)) && f@ == vs[0] && a@ == vs[1])
                    && s1 == s0,
            }
        },
        _ => intrinsic_post(op, vs, r) && s1 == s0,
    }
}

/// A special form run on the unevaluated application `exprs`.
pub open spec fn forms(
    f: FormView,
    exprs: Seq<ExprView>,
    fuel: nat,
    s0: St,
    s1: St,
    r: Result<Value, RLError>,
) -> bool
    decreases fuel, 2nat, 0nat,
{
    match f {
        FormView::Lambda => lambda_post(exprs, r) && s1 == s0,
        FormView::DefineStruct => define_struct_post(exprs, s0.frames, s1.frames, s0.reg, s1.reg, r),
        FormView::Define => if exprs.len() <= 2 {
            r == Err::<Value, RLError>(RLError::ArityAtLeast(2, (exprs.len() - 1) as usize)) && s1 == s0
        } else {
            match exprs[1] {
                ExprView::Ident(name, _) => if exprs.len() != 3 {
                    r == Err::<Value, RLError>(RLError::ArityExact(2, (exprs.len() - 1) as usize))
                        && s1 == s0
                } else if is_reserved(name) {
                    (r matches Err(RLError::ReservedWord(x)) && x@ == name) && s1 == s0
                } else {
                    exists|sv: St, rv: Result<Value, RLError>|
                        #![trigger step_state(sv), step_result(rv)]
                        evals(exprs[2], fuel, s0, sv, rv) && match rv {
                            Err(x) => r == Err::<Value, RLError>(x) && s1 == sv,
                            Ok(v) => (r matches Ok(u) && u@ == nil_view()) && s1 == bind(sv, name, v@),
                        }
                },
                ExprView::List(sig) => if sig.len() == 0 {
                    r == Err::<Value, RLError>(RLError::EmptyDefinition) && s1 == s0
                } else {
                    evals(define_rewrite(exprs, sig), fuel, s0, s1, r)
                },
                _ => (r matches Err(RLError::NotAnIdentifier(x)) && x@ == exprs[1]) && s1 == s0,
            }
        },
        FormView::If => if exprs.len() != 4 {
            r == Err::<Value, RLError>(RLError::ArityExact(3, (exprs.len() - 1) as usize)) && s1 == s0
        } else {
            exists|st: St, rt: Result<Value, RLError>|
                #![trigger step_state(st), step_result(rt)]
                evals(exprs[1], fuel, s0, st, rt) && match rt {
                    Err(x) => r == Err::<Value, RLError>(x) && s1 == st,
                    Ok(t) => match t@ {
                        ValueView::Bool(b) => evals(if b { exprs[2] } else { exprs[3] }, fuel, st, s1, r),
                        _ => (r matches Err(RLError::NotABool(x)) && x@ == exprs[1]) && s1 == st,
                    },
                }
        },
        FormView::Cond => cond_loop(
            exprs.subrange(1, exprs.len() as int),
            fuel,
            push(s0, Map::empty().insert("else"@, ValueView::Bool(true))),
            s1,
            r,
        ),
        FormView::Let => if exprs.len() != 3 {
            r == Err::<Value, RLError>(RLError::ArityExact(2, (exprs.len() - 1) as usize)) && s1 == s0
        } else {
            match exprs[1] {
                ExprView::List(bs) => let_loop(bs, exprs[2], fuel, push(s0, Map::empty()), s1, r),
                _ => (r matches Err(RLError::NotAList(x)) && x@ == exprs[1]) && s1 == s0,
            }
        },
        FormView::StructPredicate(name) => if exprs.len() != 2 {
            r == Err::<Value, RLError>(RLError::ArityExact(1, (exprs.len() - 1) as usize)) && s1 == s0
        } else {
            exists|rv: Result<Value, RLError>|
                #[trigger] step_result(rv) && evals(exprs[1], fuel, s0, s1, rv) && match rv {
                    Err(x) => r == Err::<Value, RLError>(x),
                    Ok(v) => r matches Ok(b) && b@ == ValueView::Bool(spec_is_instance(v@, name)),
                }
        },
        FormView::StructAccessor(name, field) => if exprs.len() != 2 {
            r == Err::<Value, RLError>(RLError::ArityExact(1, (exprs.len() - 1) as usize)) && s1 == s0
        } else {
            exists|rv: Result<Value, RLError>|
                #[trigger] step_result(rv) && evals(exprs[1], fuel, s0, s1, rv) && match rv {
                    Err(x) => r == Err::<Value, RLError>(x),
                    Ok(v) => if s1.reg.contains_key(name) {
                        match spec_field(v@, s1.reg[name], field) {
                            Some(y) => r matches Ok(z) && z@ == y,
                            None => r is Err,
                        }
                    } else {
                        r matches Err(RLError::UnknownStruct(n)) && n@ == name
                    },
                }
        },
        FormView::StructConstructor(name) => if !s0.reg.contains_key(name) {
            (r matches Err(RLError::UnknownStruct(n)) && n@ == name) && s1 == s0
        } else if exprs.len() - 1 != s0.reg[name].len() {
            r == Err::<Value, RLError>(
                RLError::ArityExact(s0.reg[name].len() as usize, (exprs.len() - 1) as usize),
            ) && s1 == s0
        } else {
            exists|ra: Result<Seq<ValueView>, RLError>|
                #[trigger] step_args(ra) && args_loop(
                    exprs.subrange(1, exprs.len() as int),
                    fuel,
                    s0,
                    Seq::empty(),
                    s1,
                    ra,
                ) && match ra {
                    Err(x) => r == Err::<Value, RLError>(x),
                    Ok(vs) => r matches Ok(v) && v@ == ValueView::Struct(name, vs),
                }
        },
    }
}

/// `cond`'s clauses `cs` run in the state `s`, whose innermost scope is the
/// one `cond` opened; it is closed before a chosen value is evaluated.
pub open spec fn cond_loop(cs: Seq<ExprView>, fuel: nat, s: St, s1: St, r: Result<Value, RLError>) -> bool
    decreases fuel, 1nat, cs.len(),
{
    if cs.len() == 0 {
        (r matches Ok(v) && v@ == nil_view()) && s1 == pop(s)
    } else {
        match cs[0] {
            ExprView::List(pair) => if pair.len() != 2 {
                r == Err::<Value, RLError>(RLError::ArityExact(2, pair.len() as usize)) && s1 == pop(s)
            } else {
                exists|st: St, rt: Result<Value, RLError>|
                    #![trigger step_state(st), step_result(rt)]
                    evals(pair[0], fuel, s, st, rt) && match rt {
                        Err(x) => r == Err::<Value, RLError>(x) && s1 == pop(st),
                        Ok(t) => match t@ {
                            ValueView::Bool(true) => evals(pair[1], fuel, pop(st), s1, r),
                            ValueView::Bool(false) => cond_loop(cs.subrange(1, cs.len() as int), fuel, st, s1, r),
                            _ => (r matches Err(RLError::BoolExpected(x)) && x@ == t@) && s1 == pop(st),
                        },
                    }
            },
            _ => (r matches Err(RLError::NotAList(x)) && x@ == cs[0]) && s1 == pop(s),
        }
    }
}

/// `let`'s bindings `bs` run in the state `s`, whose innermost scope is the
/// one `let` opened: each value is evaluated and bound in turn, then `body`
/// is evaluated and the scope closed.
pub open spec fn let_loop(
    bs: Seq<ExprView>,
    body: ExprView,
    fuel: nat,
    s: St,
    s1: St,
    r: Result<Value, RLError>,
) -> bool
    decreases fuel, 1nat, bs.len(),
{
    if bs.len() == 0 {
        exists|sb: St| #[trigger] step_state(sb) && evals(body, fuel, s, sb, r) && s1 == pop(sb)
    } else {
        match bs[0] {
            ExprView::List(pair) => if pair.len() != 2 {
                r == Err::<Value, RLError>(RLError::ArityExact(2, pair.len() as usize)) && s1 == pop(s)
            } else {
                match pair[0] {
                    ExprView::Ident(name, _) => exists|sv: St, rv: Result<Value, RLError>|
                        #![trigger step_state(sv), step_result(rv)]
                        evals(pair[1], fuel, s, sv, rv) && match rv {
                            Err(x) => r == Err::<Value, RLError>(x) && s1 == pop(sv),
                            Ok(v) => let_loop(bs.subrange(1, bs.len() as int), body, fuel, bind(sv, name, v@), s1, r),
                        },
                    _ => (r matches Err(RLError::NotAnIdentifier(x)) && x@ == pair[0]) && s1 == pop(s),
                }
            },
            _ => (r matches Err(RLError::NotAList(x)) && x@ == bs[0]) && s1 == pop(s),
        }
    }
}

/// Evaluation of `es` one after another, each from the state the previous
/// one left, going on after failures; `rs` are the outcomes in order.
pub open spec fn evals_seq(
    es: Seq<ExprView>,
    fuel: nat,
    s0: St,
    s1: St,
    rs: Seq<Result<Value, RLError>>,
) -> bool
    decreases es.len(),
{
    if es.len() == 0 {
        rs.len() == 0 && s1 == s0
    } else {
        rs.len() == es.len() && exists|sv: St|
            #[trigger] step_state(sv) && evals(es[0], fuel, s0, sv, rs[0]) && evals_seq(
                es.subrange(1, es.len() as int),
                fuel,
                sv,
                s1,
                rs.subrange(1, rs.len() as int),
            )
    }
}

} // verus!
