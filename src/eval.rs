use vstd::prelude::*;
use crate::environment::{Environment, Scope, assoc, resolve, opt_view};
use crate::error::{RLError, not_a_function, unbound};
use crate::forms::{apply_form, form_post};
use crate::model::{St, applies, args_loop, args_view, calls, evals, pop, push, state_of, step_args, step_result, step_state};
use crate::intrinsics::{call_intrinsic, intrinsic_post, is_pure};
use crate::sexpr::{ExprView, SExpr, exprs_view};
use crate::value::{Value, ValueView, names_view, nil_view, quoted, values_view};

verus! {

/// The nesting budget that `SExpr::eval` starts with. It is large enough
/// that in practice only the host's stack limits how deep evaluation goes.
pub const MAX_DEPTH: u64 = 0xffff_ffff_ffff_ffff;

/// The operators that a host program adds to the language, called by name.
///
/// An operator may read and change the environment, but leaves as many
/// scopes open as it found.
pub trait Natives {
    fn call(&mut self, name: &String, env: &mut Environment, args: Vec<Value>) -> (r: Result<
        Value,
        RLError,
    >)
        requires
            old(env).wf(),
        ensures
            final(env).wf(),
            final(env).depth() == old(env).depth(),
    ;
}

/// A host that adds no operators: the language is then the special forms
/// and the intrinsics of the library alone.
pub struct NoNatives;

impl Natives for NoNatives {
    fn call(&mut self, name: &String, env: &mut Environment, args: Vec<Value>) -> (r: Result<
        Value,
        RLError,
    >) {
        Err(RLError::Unbound(name.clone()))
    }
}

/// The prefix that sends an identifier's lookup past the innermost scope.
pub open spec fn super_prefix() -> Seq<char> {
    seq!['#', 's', 'u', 'p', 'e', 'r', ':']
}

pub open spec fn has_super_prefix(name: Seq<char>) -> bool {
    name.len() >= 7 && name.subrange(0, 7) == super_prefix()
}

/// The identifier without its super-scope prefix.
pub open spec fn bare_name(name: Seq<char>) -> Seq<char> {
    if has_super_prefix(name) {
        name.subrange(7, name.len() as int)
    } else {
        name
    }
}

/// What an identifier resolves to in `frames`: a prefixed identifier is
/// looked up from the second-innermost frame down, any other from the
/// innermost frame down.
pub open spec fn lookup_ident(frames: Seq<Map<Seq<char>, ValueView>>, name: Seq<char>) -> Option<
    ValueView,
> {
    if has_super_prefix(name) {
        resolve(frames, frames.len() - 1, bare_name(name))
    } else {
        resolve(frames, frames.len() as int, name)
    }
}

/// The outcome of evaluating an expression that needs no application:
/// literals, identifiers, quotations, nil and the empty list.
pub open spec fn atom_outcome(
    e: ExprView,
    frames: Seq<Map<Seq<char>, ValueView>>,
    r: Result<Value, RLError>,
) -> bool {
    match e {
        ExprView::Num(n) => r matches Ok(v) && v@ == ValueView::Num(n),
        ExprView::Bool(b) => r matches Ok(v) && v@ == ValueView::Bool(b),
        ExprView::Str(s) => r matches Ok(v) && v@ == ValueView::Str(s),
        ExprView::Ident(name, _) => match lookup_ident(frames, name) {
            Some(x) => r matches Ok(v) && v@ == x,
            None => r matches Err(RLError::Unbound(s)) && s@ == bare_name(name),
        },
        ExprView::Quote(inner) => r matches Ok(v) && v@ == quoted(*inner),
        ExprView::Nil => r matches Ok(v) && v@ == nil_view(),
        ExprView::List(items) => items.len() == 0 && (r matches Ok(v) && v@ == nil_view()),
    }
}

/// The value of an expression that needs no application, or `None` for an
/// identifier that nothing binds.
pub open spec fn atom_value(e: ExprView, frames: Seq<Map<Seq<char>, ValueView>>) -> Option<ValueView> {
    match e {
        ExprView::Num(n) => Some(ValueView::Num(n)),
        ExprView::Bool(b) => Some(ValueView::Bool(b)),
        ExprView::Str(s) => Some(ValueView::Str(s)),
        ExprView::Ident(name, _) => lookup_ident(frames, name),
        ExprView::Quote(inner) => Some(quoted(*inner)),
        ExprView::Nil => Some(nil_view()),
        ExprView::List(_) => Some(nil_view()),
    }
}

/// What the outcome of such an expression says of its value.
pub proof fn lemma_atom_value(e: ExprView, frames: Seq<Map<Seq<char>, ValueView>>, r: Result<Value, RLError>)
    requires
        is_atom(e),
        atom_outcome(e, frames, r),
    ensures
        r is Ok <==> atom_value(e, frames) is Some,
        r matches Ok(v) ==> atom_value(e, frames) == Some(v@),
{
}

pub open spec fn is_atom(e: ExprView) -> bool {
    !(e matches ExprView::List(items) && items.len() > 0)
}

/// The values of expressions that need no application, or `None` when one
/// of them is an unbound identifier.
pub open spec fn atom_values(items: Seq<ExprView>, frames: Seq<Map<Seq<char>, ValueView>>) -> Option<
    Seq<ValueView>,
>
    decreases items.len(),
{
    if items.len() == 0 {
        Some(Seq::empty())
    } else {
        match (atom_values(items.drop_last(), frames), atom_value(items.last(), frames)) {
            (Some(vs), Some(v)) => Some(vs.push(v)),
            _ => None,
        }
    }
}

/// Once a prefix has an unbound identifier, the whole sequence has.
pub proof fn lemma_atom_values_prefix(items: Seq<ExprView>, k: int, frames: Seq<Map<Seq<char>, ValueView>>)
    requires
        0 <= k <= items.len(),
        atom_values(items.subrange(0, k), frames) is None,
    ensures
        atom_values(items, frames) is None,
    decreases items.len() - k,
{
    if k < items.len() {
        assert(items.subrange(0, k + 1).drop_last() =~= items.subrange(0, k));
        lemma_atom_values_prefix(items, k + 1, frames);
    } else {
        assert(items.subrange(0, k) =~= items);
    }
}

/// What applying a closure to operands that need no application gives: the
/// arity error of the binding, or the body's outcome in a new scope of the
/// parameters when the body needs no application either.
pub open spec fn closure_outcome(
    params: Seq<Seq<char>>,
    body: ExprView,
    variadic: bool,
    operands: Seq<ExprView>,
    fuel: u64,
    before: Seq<Map<Seq<char>, ValueView>>,
    after: Seq<Map<Seq<char>, ValueView>>,
    r: Result<Value, RLError>,
) -> bool {
    (forall|i: int| 0 <= i < operands.len() ==> #[trigger] is_atom(operands[i])) ==> match atom_values(
        operands,
        before,
    ) {
        None => r is Err,
        Some(vs) => match spec_bind(params, vs, variadic) {
            Err(err) => r == Err::<Value, RLError>(err) && after == before,
            Ok(m) => fuel > 0 && is_atom(body) ==> after == before && atom_outcome(body, before.push(m), r),
        },
    }
}

/// What an application whose head needs no application gives: an unbound
/// head fails, a special form keeps its own guarantees, and a head that is
/// not a closure, an intrinsic or a special form is not a function.
pub open spec fn head_outcome(
    items: Seq<ExprView>,
    fuel: u64,
    before: Seq<Map<Seq<char>, ValueView>>,
    after: Seq<Map<Seq<char>, ValueView>>,
    reg: Map<Seq<char>, Seq<Seq<char>>>,
    reg_after: Map<Seq<char>, Seq<Seq<char>>>,
    r: Result<Value, RLError>,
) -> bool {
    match atom_value(items[0], before) {
        None => r is Err,
        Some(ValueView::Macro(f)) => form_post(f, items, fuel, before, after, reg, reg_after, r),
        Some(ValueView::Func(params, body, variadic)) => closure_outcome(
            params,
            body,
            variadic,
            items.subrange(1, items.len() as int),
            fuel,
            before,
            after,
            r,
        ),
        Some(ValueView::Intrinsic(op)) => (forall|i: int|
            1 <= i < items.len() ==> #[trigger] is_atom(items[i])) ==> match atom_values(
            items.subrange(1, items.len() as int),
            before,
        ) {
            None => r is Err,
            Some(vs) => intrinsic_post(op, vs, r) && (is_pure(op) ==> after == before),
        },
        Some(v) => (r matches Err(RLError::NotAFunction(x)) && x@ == v) && after == before,
    }
}

/// The bindings of a closure application, or the arity error it fails with.
///
/// Without the variadic marker, the arguments must match the parameters in
/// number. With it, the last parameter takes a list of every argument past
/// the others, and the others must all be given. A parameter list that is
/// empty is never variadic.
pub open spec fn spec_bind(params: Seq<Seq<char>>, args: Seq<ValueView>, variadic: bool) -> Result<
    Map<Seq<char>, ValueView>,
    RLError,
> {
    if !variadic || params.len() == 0 {
        if params.len() != args.len() {
            Err(RLError::ArityExact(params.len() as usize, args.len() as usize))
        } else {
            Ok(assoc(params, args))
        }
    } else if args.len() < params.len() - 1 {
        Err(RLError::ArityAtLeast((params.len() - 1) as usize, args.len() as usize))
    } else {
        Ok(
            assoc(
                params,
                args.subrange(0, params.len() - 1).push(
                    ValueView::List(args.subrange(params.len() - 1, args.len() as int)),
                ),
            ),
        )
    }
}

/// The character at position `i` of the super-scope prefix.
fn super_prefix_char(i: usize) -> (c: char)
    requires
        i < 7,
    ensures
        c == super_prefix()[i as int],
{
    match i {
        0 => '#',
        1 => 's',
        2 => 'u',
        3 => 'p',
        4 => 'e',
        5 => 'r',
        _ => ':',
    }
}

/// Whether `name` starts with the super-scope prefix.
pub fn is_super_ident(name: &String) -> (r: bool)
    ensures
        r == has_super_prefix(name@),
{
    let s = name.as_str();
    let n = s.unicode_len();
    if n < 7 {
        return false;
    }
    let mut i: usize = 0;
    while i < 7
        invariant
            i <= 7 <= n,
            n == name@.len(),
            s@ == name@,
            forall|j: int| 0 <= j < i ==> name@[j] == super_prefix()[j],
        decreases 7 - i,
    {
        if s.get_char(i) != super_prefix_char(i) {
            assert(name@.subrange(0, 7)[i as int] != super_prefix()[i as int]);
            return false;
        }
        i = i + 1;
    }
    assert(name@.subrange(0, 7) =~= super_prefix());
    true
}

/// The innermost-first lookup of an identifier, honouring the super-scope prefix.
pub fn eval_ident(name: &String, env: &Environment) -> (r: Result<Value, RLError>)
    requires
        env.wf(),
    ensures
        atom_outcome(ExprView::Ident(name@, false), env.frames(), r),
{
    proof {
        env.lemma_frames_len();
    }
    if is_super_ident(name) {
        let n = name.as_str().unicode_len();
        let bare = name.as_str().substring_char(7, n);
        match env.get_super(bare) {
            Some(v) => Ok(v),
            None => Err(unbound(bare)),
        }
    } else {
        match env.get(name.as_str()) {
            Some(v) => Ok(v),
            None => Err(unbound(name.as_str())),
        }
    }
}

/// Binds a closure's parameters to the arguments of an application.
pub fn bind_params(params: &Vec<String>, args: &Vec<Value>, variadic: bool) -> (r: Result<
    Scope,
    RLError,
>)
    ensures
        match spec_bind(names_view(params@), values_view(args@), variadic) {
            Ok(m) => r matches Ok(s) && s.wf() && s.view() == m,
            Err(e) => r == Err::<Scope, RLError>(e),
        },
{
    let ghost ps = names_view(params@);
    let ghost vs = values_view(args@);
    let n = params.len();
    let fixed: usize;
    if !variadic || n == 0 {
        if n != args.len() {
            return Err(RLError::ArityExact(n, args.len()));
        }
        fixed = n;
    } else {
        if args.len() < n - 1 {
            return Err(RLError::ArityAtLeast(n - 1, args.len()));
        }
        fixed = n - 1;
    }
    let mut scope = Scope::new();
    let mut i: usize = 0;
    while i < fixed
        invariant
            fixed <= n == params@.len(),
            fixed <= args@.len(),
            ps == names_view(params@),
            vs == values_view(args@),
            i <= fixed,
            scope.wf(),
            scope.view() == assoc(ps.subrange(0, i as int), vs.subrange(0, i as int)),
        decreases fixed - i,
    {
        proof {
            crate::environment::lemma_assoc_push(
                ps.subrange(0, i as int),
                vs.subrange(0, i as int),
                ps[i as int],
                vs[i as int],
            );
            assert(ps.subrange(0, i + 1) =~= ps.subrange(0, i as int).push(ps[i as int]));
            assert(vs.subrange(0, i + 1) =~= vs.subrange(0, i as int).push(vs[i as int]));
        }
        scope.insert(params[i].clone(), args[i].copy());
        i = i + 1;
    }
    if fixed < n {
        let mut rest: Vec<Value> = Vec::new();
        let mut j: usize = fixed;
        while j < args.len()
            invariant
                fixed <= j <= args@.len(),
                vs == values_view(args@),
                rest@.len() == j - fixed,
                forall|k: int| 0 <= k < rest@.len() ==> rest@[k]@ == vs[fixed + k],
            decreases args@.len() - j,
        {
            rest.push(args[j].copy());
            j = j + 1;
        }
        let ghost restv = ValueView::List(vs.subrange(fixed as int, vs.len() as int));
        assert(values_view(rest@) =~= vs.subrange(fixed as int, vs.len() as int));
        proof {
            crate::environment::lemma_assoc_push(
                ps.subrange(0, fixed as int),
                vs.subrange(0, fixed as int),
                ps[fixed as int],
                restv,
            );
            assert(ps.subrange(0, fixed as int).push(ps[fixed as int]) =~= ps);
        }
        scope.insert(params[fixed].clone(), Value::List(rest));
    } else {
        assert(ps.subrange(0, i as int) =~= ps);
        assert(vs.subrange(0, i as int) =~= vs);
    }
    Ok(scope)
}

/// Evaluates `e` in `env`, with the operators of `host`, nesting at most
/// `fuel` evaluations deep.
///
/// Whatever the outcome, as many scopes are open afterwards as before.
pub fn evaluate<H: Natives>(e: &SExpr, env: &mut Environment, host: &mut H, fuel: u64) -> (r:
    Result<Value, RLError>)
    requires
        old(env).wf(),
    ensures
        final(env).wf(),
        final(env).depth() == old(env).depth(),
        fuel == 0 ==> r == Err::<Value, RLError>(RLError::DepthExceeded),
        fuel > 0 && is_atom(e@) ==> *final(env) == *old(env) && atom_outcome(
            e@,
            old(env).frames(),
            r,
        ),
        fuel >= 2 ==> (e@ matches ExprView::List(items) ==> (items.len() > 0 && is_atom(items[0])
            ==> head_outcome(
            items,
            (fuel - 1) as u64,
            old(env).frames(),
            final(env).frames(),
            old(env).registry(),
            final(env).registry(),
            r,
        ))),
        evals(e@, fuel as nat, state_of(*old(env)), state_of(*final(env)), r),
    decreases fuel, 0int,
{
    if fuel == 0 {
        return Err(RLError::DepthExceeded);
    }
    match e {
        SExpr::Num(n) => Ok(Value::Num(*n)),
        SExpr::Bool(b) => Ok(Value::Bool(*b)),
        SExpr::Str(s) => Ok(Value::Str(s.clone())),
        SExpr::Ident(name, _) => eval_ident(name, env),
        SExpr::Quote(inner) => Ok(Value::from_sexpr(inner)),
        SExpr::Nil => Ok(Value::nil()),
        SExpr::List(items) => {
            if items.len() == 0 {
                assert(exprs_view(items@) =~= Seq::<ExprView>::empty());
                return Ok(Value::nil());
            }
            assert(exprs_view(items@).len() > 0);
            assert(exprs_view(items@)[0] == items@[0]@);
            let ghost before = env.frames();
            let ghost s0 = state_of(*env);
            let ghost iv = exprs_view(items@);
            let ghost fm: nat = (fuel - 1) as nat;
            assert(e@ == ExprView::List(iv));
            assert(!is_atom(e@));
            let h = evaluate(&items[0], env, host, fuel - 1);
            let ghost sh = state_of(*env);
            proof {
                if fuel >= 2 && is_atom(items@[0]@) {
                    lemma_atom_value(items@[0]@, before, h);
                }
                assert(evals(iv[0], fm, s0, sh, h));
                assert(step_state(sh) && step_result(h));
            }
            let head = match h {
                Ok(v) => v,
                Err(err) => {
                    assert(evals(e@, fuel as nat, s0, sh, Err::<Value, RLError>(err)));
                    return Err(err);
                },
            };
            let ghost hv = head@;
            match head {
                Value::Func(..) => {
                    proof {
                        let ops = exprs_view(items@).subrange(1, items@.len() as int);
                        if forall|i: int| 0 <= i < ops.len() ==> #[trigger] is_atom(ops[i]) {
                            assert forall|i: int| 1 <= i < items@.len() implies #[trigger] is_atom(
                                items@[i]@,
                            ) by {
                                assert(ops[i - 1] == items@[i]@);
                            }
                        }
                    }
                    let ra = eval_args(items, env, host, fuel - 1);
                    let ghost sa = state_of(*env);
                    proof {
                        assert(step_state(sa) && step_args(args_view(ra)));
                    }
                    match ra {
                        Ok(args) => {
                            let r = eval_func(&head, &args, env, host, fuel - 1);
                            assert(applies(hv, iv, fm, sh, state_of(*env), r));
                            r
                        },
                        Err(err) => {
                            assert(applies(hv, iv, fm, sh, state_of(*env), Err::<Value, RLError>(err)));
                            Err(err)
                        },
                    }
                },
                Value::Intrinsic(op) => {
                    proof {
                        let ops = exprs_view(items@).subrange(1, items@.len() as int);
                        let xs = exprs_view(items@);
                        if forall|i: int| 1 <= i < xs.len() ==> #[trigger] is_atom(xs[i]) {
                            assert forall|i: int| 1 <= i < items@.len() implies #[trigger] is_atom(
                                items@[i]@,
                            ) by {
                                assert(xs[i] == items@[i]@);
                            }
                        }
                    }
                    let ra = eval_args(items, env, host, fuel - 1);
                    let ghost sa = state_of(*env);
                    proof {
                        assert(step_state(sa) && step_args(args_view(ra)));
                    }
                    match ra {
                        Ok(args) => {
                            let ghost av = values_view(args@);
                            let r = call_intrinsic(&op, args, env, host, fuel - 1);
                            assert(applies(hv, iv, fm, sh, state_of(*env), r));
                            r
                        },
                        Err(err) => {
                            assert(applies(hv, iv, fm, sh, state_of(*env), Err::<Value, RLError>(err)));
                            Err(err)
                        },
                    }
                },
                Value::Macro(form) => {
                    let r = apply_form(&form, items, env, host, fuel - 1);
                    assert(applies(hv, iv, fm, sh, state_of(*env), r));
                    r
                },
                _ => {
                    let r = Err(not_a_function(&head));
                    assert(applies(hv, iv, fm, sh, state_of(*env), r));
                    r
                },
            }
        },
    }
}

/// Evaluates the operands `items[1..]` of an application, left to right,
/// stopping at the first failure.
pub fn eval_args<H: Natives>(items: &Vec<SExpr>, env: &mut Environment, host: &mut H, fuel: u64) -> (r:
    Result<Vec<Value>, RLError>)
    requires
        old(env).wf(),
        items@.len() >= 1,
    ensures
        final(env).wf(),
        final(env).depth() == old(env).depth(),
        r matches Ok(args) ==> args@.len() == items@.len() - 1,
        fuel > 0 && (forall|i: int| 1 <= i < items@.len() ==> #[trigger] is_atom(items@[i]@)) ==> {
            &&& *final(env) == *old(env)
            &&& match atom_values(exprs_view(items@).subrange(1, items@.len() as int), old(env).frames()) {
                Some(vs) => r matches Ok(args) && values_view(args@) == vs,
                None => r is Err,
            }
        },
        args_loop(
            exprs_view(items@).subrange(1, items@.len() as int),
            fuel as nat,
            state_of(*old(env)),
            Seq::empty(),
            state_of(*final(env)),
            args_view(r),
        ),
    decreases fuel, 1int,
{
    let ghost xs = exprs_view(items@).subrange(1, items@.len() as int);
    let ghost fr = env.frames();
    let ghost s0 = state_of(*env);
    let ghost atomic = fuel > 0 && (forall|i: int| 1 <= i < items@.len() ==> #[trigger] is_atom(items@[i]@));
    let mut args: Vec<Value> = Vec::new();
    let mut i: usize = 1;
    assert(xs.subrange(0, 0) =~= Seq::<ExprView>::empty());
    assert(values_view(args@) =~= Seq::<ValueView>::empty());
    assert(xs.subrange(0, xs.len() as int) =~= xs);
    while i < items.len()
        invariant
            1 <= i <= items@.len(),
            args@.len() == i - 1,
            env.wf(),
            env.depth() == old(env).depth(),
            xs == exprs_view(items@).subrange(1, items@.len() as int),
            fr == old(env).frames(),
            atomic == (fuel > 0 && (forall|i: int| 1 <= i < items@.len() ==> #[trigger] is_atom(items@[i]@))),
            atomic ==> *env == *old(env) && atom_values(xs.subrange(0, i - 1), fr) == Some(
                values_view(args@),
            ),
            s0 == state_of(*old(env)),
            forall|s1: St, ra: Result<Seq<ValueView>, RLError>|
                #[trigger] args_loop(xs.subrange(i - 1, xs.len() as int), fuel as nat, state_of(*env), values_view(args@), s1, ra)
                    ==> args_loop(xs, fuel as nat, s0, Seq::empty(), s1, ra),
        decreases items@.len() - i,
    {
        let ghost sub = xs.subrange(0, i as int);
        let ghost rest = xs.subrange(i - 1, xs.len() as int);
        let ghost st = state_of(*env);
        assert(rest.len() > 0);
        assert(rest[0] == items@[i as int]@);
        assert(sub.drop_last() =~= xs.subrange(0, i - 1));
        assert(sub.last() == items@[i as int]@);
        let ghost before_args = values_view(args@);
        let r = evaluate(&items[i], env, host, fuel);
        proof {
            if atomic {
                assert(is_atom(items@[i as int]@));
                lemma_atom_value(items@[i as int]@, fr, r);
            }
        }
        let ghost st2 = state_of(*env);
        proof {
            assert(evals(rest[0], fuel as nat, st, st2, r));
            assert(step_state(st2) && step_result(r));
        }
        match r {
            Ok(v) => {
                let ghost vv = v@;
                args.push(v);
                assert(values_view(args@) =~= before_args.push(vv));
                proof {
                    let next = xs.subrange(i as int, xs.len() as int);
                    assert(rest.subrange(1, rest.len() as int) =~= next);
                    assert forall|s1: St, ra: Result<Seq<ValueView>, RLError>|
                        #[trigger] args_loop(next, fuel as nat, st2, values_view(args@), s1, ra)
                        implies args_loop(xs, fuel as nat, s0, Seq::empty(), s1, ra) by {
                        assert(args_loop(rest, fuel as nat, st, before_args, s1, ra));
                    }
                }
            },
            Err(err) => {
                proof {
                    if atomic {
                        lemma_atom_values_prefix(xs, i as int, fr);
                    }
                    assert(args_loop(rest, fuel as nat, st, before_args, st2, Err::<Seq<ValueView>, RLError>(err)));
                }
                return Err(err);
            },
        }
        i = i + 1;
    }
    assert(xs.subrange(0, i - 1) =~= xs);
    proof {
        let rest = xs.subrange(i - 1, xs.len() as int);
        assert(rest.len() == 0);
        assert(args_loop(rest, fuel as nat, state_of(*env), values_view(args@), state_of(*env), Ok::<Seq<ValueView>, RLError>(values_view(args@))));
    }
    Ok(args)
}

/// Applies a closure to evaluated arguments: binds its parameters in a new
/// scope, evaluates its body there, and closes that scope again whether the
/// body succeeded or failed.
pub fn eval_func<H: Natives>(
    func: &Value,
    args: &Vec<Value>,
    env: &mut Environment,
    host: &mut H,
    fuel: u64,
) -> (r: Result<Value, RLError>)
    requires
        old(env).wf(),
    ensures
        final(env).wf(),
        final(env).depth() == old(env).depth(),
        match func@ {
            ValueView::Func(params, body, variadic) => match spec_bind(
                params,
                values_view(args@),
                variadic,
            ) {
                Err(err) => r == Err::<Value, RLError>(err) && *final(env) == *old(env),
                Ok(m) => fuel > 0 && is_atom(body) ==> final(env).frames() == old(env).frames()
                    && atom_outcome(body, old(env).frames().push(m), r),
            },
            _ => r matches Err(RLError::NotAFunction(v)) && v@ == func@,
        },
        func@ matches ValueView::Func(params, body, variadic) ==> calls(
            params,
            body,
            variadic,
            values_view(args@),
            fuel as nat,
            state_of(*old(env)),
            state_of(*final(env)),
            r,
        ),
    decreases fuel, 1int,
{
    match func {
        Value::Func(params, body, variadic) => {
            match bind_params(params, args, *variadic) {
                Ok(scope) => {
                    proof {
                        env.lemma_wf_depth();
                    }
                    let ghost m = scope.view();
                    env.push_scope(scope);
                    let ghost pushed = env.frames();
                    assert(state_of(*env) == push(state_of(*old(env)), m));
                    let r = evaluate(body, env, host, fuel);
                    let ghost sb = state_of(*env);
                    env.exit_scope();
                    assert(state_of(*env) == pop(sb));
                    assert(step_state(sb));
                    proof {
                        if fuel > 0 && is_atom(body@) {
                            assert(pushed.drop_last() =~= old(env).frames());
                        }
                    }
                    r
                },
                Err(err) => Err(err),
            }
        },
        _ => Err(not_a_function(func)),
    }
}

impl SExpr {
    /// Evaluates the expression in `env`, with the operators of `host`.
    pub fn eval<H: Natives>(&self, env: &mut Environment, host: &mut H) -> (r: Result<
        Value,
        RLError,
    >)
        requires
            old(env).wf(),
        ensures
            final(env).wf(),
            final(env).depth() == old(env).depth(),
            is_atom(self@) ==> *final(env) == *old(env) && atom_outcome(
                self@,
                old(env).frames(),
                r,
            ),
            self@ matches ExprView::List(items) ==> (items.len() > 0 && is_atom(items[0])
                ==> head_outcome(
                items,
                (MAX_DEPTH - 1) as u64,
                old(env).frames(),
                final(env).frames(),
                old(env).registry(),
                final(env).registry(),
                r,
            )),
            evals(self@, MAX_DEPTH as nat, state_of(*old(env)), state_of(*final(env)), r),
    {
        evaluate(self, env, host, MAX_DEPTH)
    }
}

} // verus!
