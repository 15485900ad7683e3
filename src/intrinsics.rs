use vstd::prelude::*;
use crate::environment::Environment;
use crate::error::{RLError, arity_exact};
use crate::model::{calls, evals, runs, state_of};
use crate::eval::{Natives, eval_func, evaluate, spec_bind};
use crate::value::{quotable, Intrinsic, IntrinsicView, Value, ValueView, intrinsic_view, nil_view, value_eq, values_view, copy_values};

verus! {

/// `(begin a ... z)`: the last argument, or the empty list when there is none.
pub fn begin(args: &Vec<Value>) -> (r: Value)
    ensures
        args@.len() == 0 ==> r@ == nil_view(),
        args@.len() > 0 ==> r@ == args@.last()@,
        intrinsic_post(IntrinsicView::Begin, values_view(args@), Ok::<Value, RLError>(r)),
{
    assert(forall|k: int| 0 <= k < args@.len() ==> #[trigger] values_view(args@)[k] == args@[k]@);
    if args.len() == 0 {
        Value::nil()
    } else {
        args[args.len() - 1].copy()
    }
}

/// `(cons x xs)`: the list `xs` with `x` in front.
pub fn cons(args: &Vec<Value>) -> (r: Result<Value, RLError>)
    ensures
        args@.len() != 2 ==> r == Err::<Value, RLError>(RLError::ArityExact(2, args@.len() as usize)),
        args@.len() == 2 ==> match args@[1]@ {
            ValueView::List(xs) => r matches Ok(v) && v@ == ValueView::List(seq![args@[0]@] + xs),
            _ => r matches Err(RLError::ListExpected(x)) && x@ == args@[1]@,
        },
        intrinsic_post(IntrinsicView::Cons, values_view(args@), r),
{
    assert(forall|k: int| 0 <= k < args@.len() ==> #[trigger] values_view(args@)[k] == args@[k]@);
    if args.len() != 2 {
        return Err(arity_exact(2, args.len()));
    }
    match &args[1] {
        Value::List(vals) => {
            let mut out: Vec<Value> = Vec::new();
            out.push(args[0].copy());
            let rest = copy_values(vals);
            let mut i: usize = 0;
            while i < rest.len()
                invariant
                    i <= rest@.len(),
                    out@.len() == i + 1,
                    out@[0]@ == args@[0]@,
                    forall|j: int| 0 <= j < i ==> out@[j + 1]@ == values_view(rest@)[j],
                decreases rest@.len() - i,
            {
                out.push(rest[i].copy());
                i = i + 1;
            }
            assert(values_view(out@) =~= seq![args@[0]@] + values_view(vals@));
            Ok(Value::List(out))
        },
        other => Err(RLError::ListExpected(other.copy())),
    }
}

/// `(car xs)`: the first element of a non-empty list.
pub fn car(args: &Vec<Value>) -> (r: Result<Value, RLError>)
    ensures
        args@.len() != 1 ==> r == Err::<Value, RLError>(RLError::ArityExact(1, args@.len() as usize)),
        args@.len() == 1 ==> match args@[0]@ {
            ValueView::List(xs) => if xs.len() == 0 {
                r == Err::<Value, RLError>(RLError::EmptyList)
            } else {
                r matches Ok(v) && v@ == xs[0]
            },
            _ => r matches Err(RLError::ListExpected(x)) && x@ == args@[0]@,
        },
        intrinsic_post(IntrinsicView::Car, values_view(args@), r),
{
    assert(forall|k: int| 0 <= k < args@.len() ==> #[trigger] values_view(args@)[k] == args@[k]@);
    if args.len() != 1 {
        return Err(arity_exact(1, args.len()));
    }
    match &args[0] {
        Value::List(vals) => {
            if vals.len() == 0 {
                Err(RLError::EmptyList)
            } else {
                Ok(vals[0].copy())
            }
        },
        other => Err(RLError::ListExpected(other.copy())),
    }
}

/// `(cdr xs)`: a non-empty list without its first element.
pub fn cdr(args: &Vec<Value>) -> (r: Result<Value, RLError>)
    ensures
        args@.len() != 1 ==> r == Err::<Value, RLError>(RLError::ArityExact(1, args@.len() as usize)),
        args@.len() == 1 ==> match args@[0]@ {
            ValueView::List(xs) => if xs.len() == 0 {
                r == Err::<Value, RLError>(RLError::EmptyList)
            } else {
                r matches Ok(v) && v@ == ValueView::List(xs.subrange(1, xs.len() as int))
            },
            _ => r matches Err(RLError::ListExpected(x)) && x@ == args@[0]@,
        },
        intrinsic_post(IntrinsicView::Cdr, values_view(args@), r),
{
    assert(forall|k: int| 0 <= k < args@.len() ==> #[trigger] values_view(args@)[k] == args@[k]@);
    if args.len() != 1 {
        return Err(arity_exact(1, args.len()));
    }
    match &args[0] {
        Value::List(vals) => {
            if vals.len() == 0 {
                return Err(RLError::EmptyList);
            }
            let mut out: Vec<Value> = Vec::new();
            let mut i: usize = 1;
            while i < vals.len()
                invariant
                    1 <= i <= vals@.len(),
                    out@.len() == i - 1,
                    forall|j: int| 0 <= j < i - 1 ==> out@[j]@ == values_view(vals@)[j + 1],
                decreases vals@.len() - i,
            {
                out.push(vals[i].copy());
                i = i + 1;
            }
            assert(values_view(out@) =~= values_view(vals@).subrange(1, vals@.len() as int));
            Ok(Value::List(out))
        },
        other => Err(RLError::ListExpected(other.copy())),
    }
}

/// `(append x xs)`: the list `xs` with `x` added at its end.
pub fn append(args: &Vec<Value>) -> (r: Result<Value, RLError>)
    ensures
        args@.len() != 2 ==> r == Err::<Value, RLError>(RLError::ArityExact(2, args@.len() as usize)),
        args@.len() == 2 ==> match args@[1]@ {
            ValueView::List(xs) => r matches Ok(v) && v@ == ValueView::List(xs.push(args@[0]@)),
            _ => r matches Err(RLError::ListExpected(x)) && x@ == args@[1]@,
        },
        intrinsic_post(IntrinsicView::Append, values_view(args@), r),
{
    assert(forall|k: int| 0 <= k < args@.len() ==> #[trigger] values_view(args@)[k] == args@[k]@);
    if args.len() != 2 {
        return Err(arity_exact(2, args.len()));
    }
    match &args[1] {
        Value::List(vals) => {
            let mut out = copy_values(vals);
            let ghost before = values_view(out@);
            out.push(args[0].copy());
            assert(values_view(out@) =~= before.push(args@[0]@));
            Ok(Value::List(out))
        },
        other => Err(RLError::ListExpected(other.copy())),
    }
}

/// Whether every value before position `k` is the boolean `b`.
pub open spec fn all_bool_before(args: Seq<Value>, k: int, b: bool) -> bool {
    forall|j: int| 0 <= j < k ==> #[trigger] args[j]@ == ValueView::Bool(b)
}

/// `(or b ...)`: true at the first true argument, false when all are false.
/// A non-boolean argument reached before any true one is an error.
pub fn or(args: &Vec<Value>) -> (r: Result<Value, RLError>)
    ensures
        all_bool_before(args@, args@.len() as int, false) ==> (r matches Ok(v) && v@ == ValueView::Bool(false)),
        forall|k: int|
            0 <= k < args@.len() && all_bool_before(args@, k, false) ==> (#[trigger] args@[k]@ == ValueView::Bool(true)
                ==> (r matches Ok(v) && v@ == ValueView::Bool(true))) && (!(args@[k]@ is Bool)
                ==> (r matches Err(RLError::BoolExpected(x)) && x@ == args@[k]@)),
        short_circuit_post(values_view(args@), true, r),
{
    let ghost vs = values_view(args@);
    assert(forall|k: int| 0 <= k < args@.len() ==> #[trigger] vs[k] == args@[k]@);
    let mut i: usize = 0;
    while i < args.len()
        invariant
            i <= args@.len(),
            all_bool_before(args@, i as int, false),
            vs == values_view(args@),
            bools_before(vs, i as int, false),
        decreases args@.len() - i,
    {
        match &args[i] {
            Value::Bool(b) => {
                if *b {
                    assert(vs[i as int] == ValueView::Bool(true));
                    return Ok(Value::Bool(true));
                }
            },
            other => {
                assert(!(vs[i as int] is Bool));
                return Err(RLError::BoolExpected(other.copy()));
            },
        }
        i = i + 1;
    }
    Ok(Value::Bool(false))
}

/// `(and b ...)`: false at the first false argument, true when all are true.
/// A non-boolean argument reached before any false one is an error.
pub fn and(args: &Vec<Value>) -> (r: Result<Value, RLError>)
    ensures
        all_bool_before(args@, args@.len() as int, true) ==> (r matches Ok(v) && v@ == ValueView::Bool(true)),
        forall|k: int|
            0 <= k < args@.len() && all_bool_before(args@, k, true) ==> (#[trigger] args@[k]@ == ValueView::Bool(false)
                ==> (r matches Ok(v) && v@ == ValueView::Bool(false))) && (!(args@[k]@ is Bool)
                ==> (r matches Err(RLError::BoolExpected(x)) && x@ == args@[k]@)),
        short_circuit_post(values_view(args@), false, r),
{
    let ghost vs = values_view(args@);
    assert(forall|k: int| 0 <= k < args@.len() ==> #[trigger] vs[k] == args@[k]@);
    let mut i: usize = 0;
    while i < args.len()
        invariant
            i <= args@.len(),
            all_bool_before(args@, i as int, true),
            vs == values_view(args@),
            bools_before(vs, i as int, true),
        decreases args@.len() - i,
    {
        match &args[i] {
            Value::Bool(b) => {
                if !*b {
                    assert(vs[i as int] == ValueView::Bool(false));
                    return Ok(Value::Bool(false));
                }
            },
            other => {
                assert(!(vs[i as int] is Bool));
                return Err(RLError::BoolExpected(other.copy()));
            },
        }
        i = i + 1;
    }
    Ok(Value::Bool(true))
}

/// `(not b)`: the negation of a boolean.
pub fn not(args: &Vec<Value>) -> (r: Result<Value, RLError>)
    ensures
        args@.len() != 1 ==> r == Err::<Value, RLError>(RLError::ArityExact(1, args@.len() as usize)),
        args@.len() == 1 ==> match args@[0]@ {
            ValueView::Bool(b) => r matches Ok(v) && v@ == ValueView::Bool(!b),
            _ => r matches Err(RLError::BoolExpected(x)) && x@ == args@[0]@,
        },
        intrinsic_post(IntrinsicView::Not, values_view(args@), r),
{
    assert(forall|k: int| 0 <= k < args@.len() ==> #[trigger] values_view(args@)[k] == args@[k]@);
    if args.len() != 1 {
        return Err(arity_exact(1, args.len()));
    }
    match &args[0] {
        Value::Bool(b) => Ok(Value::Bool(!*b)),
        other => Err(RLError::BoolExpected(other.copy())),
    }
}

/// `(eq? a b)`: structural equality of two values.
pub fn is_eq(args: &Vec<Value>) -> (r: Result<Value, RLError>)
    ensures
        args@.len() != 2 ==> r == Err::<Value, RLError>(RLError::ArityExact(2, args@.len() as usize)),
        args@.len() == 2 ==> (r matches Ok(v) && v@ == ValueView::Bool(value_eq(args@[0]@, args@[1]@))),
        intrinsic_post(IntrinsicView::IsEq, values_view(args@), r),
{
    assert(forall|k: int| 0 <= k < args@.len() ==> #[trigger] values_view(args@)[k] == args@[k]@);
    if args.len() != 2 {
        return Err(arity_exact(2, args.len()));
    }
    Ok(Value::Bool(args[0].equals(&args[1])))
}

/// Whether a value belongs to the kind that a type-test intrinsic tests for.
pub open spec fn of_kind(op: Intrinsic, v: ValueView) -> bool {
    match op {
        Intrinsic::IsNum => v is Num,
        Intrinsic::IsBool => v is Bool,
        Intrinsic::IsStr => v is Str,
        Intrinsic::IsSymbol => v is Symbol,
        Intrinsic::IsCons => v is List,
        _ => v is Func || v is Intrinsic,
    }
}

/// `(num? x)`, `(bool? x)`, `(str? x)`, `(symbol? x)`, `(cons? x)` and
/// `(lambda? x)`: whether the argument is of the kind tested.
pub fn kind_test(op: &Intrinsic, args: &Vec<Value>) -> (r: Result<Value, RLError>)
    ensures
        args@.len() != 1 ==> r == Err::<Value, RLError>(RLError::ArityExact(1, args@.len() as usize)),
        args@.len() == 1 ==> (r matches Ok(v) && v@ == ValueView::Bool(of_kind(*op, args@[0]@))),
{
    if args.len() != 1 {
        return Err(arity_exact(1, args.len()));
    }
    let v = &args[0];
    let b = match op {
        Intrinsic::IsNum => matches!(v, Value::Num(_)),
        Intrinsic::IsBool => matches!(v, Value::Bool(_)),
        Intrinsic::IsStr => matches!(v, Value::Str(_)),
        Intrinsic::IsSymbol => matches!(v, Value::Symbol(..)),
        Intrinsic::IsCons => matches!(v, Value::List(_)),
        _ => matches!(v, Value::Func(..)) || matches!(v, Value::Intrinsic(_)),
    };
    Ok(Value::Bool(b))
}

/// The arguments of `exit`: none means code 0 (`Ok(None)`), one number is
/// the code, given back as its bits for the caller to truncate; anything else
/// is an error and no exit.
pub fn exit_argument(args: &Vec<Value>) -> (r: Result<Option<u64>, RLError>)
    ensures
        args@.len() == 0 ==> r == Ok::<Option<u64>, RLError>(None),
        args@.len() == 1 ==> match args@[0]@ {
            ValueView::Num(n) => r == Ok::<Option<u64>, RLError>(Some(n)),
            _ => r matches Err(RLError::NotANumber(x)) && x@ == args@[0]@,
        },
        args@.len() > 1 ==> r == Err::<Option<u64>, RLError>(
            RLError::ArityAtMost(1, args@.len() as usize),
        ),
{
    if args.len() == 0 {
        Ok(None)
    } else if args.len() == 1 {
        match &args[0] {
            Value::Num(n) => Ok(Some(*n)),
            other => Err(crate::error::not_a_number(other)),
        }
    } else {
        Err(crate::error::arity_at_most(1, args.len()))
    }
}

/// Whether a value belongs to the kind that a type-test intrinsic tests for.
pub open spec fn of_kind_view(op: IntrinsicView, v: ValueView) -> bool {
    match op {
        IntrinsicView::IsNum => v is Num,
        IntrinsicView::IsBool => v is Bool,
        IntrinsicView::IsStr => v is Str,
        IntrinsicView::IsSymbol => v is Symbol,
        IntrinsicView::IsCons => v is List,
        _ => v is Func || v is Intrinsic,
    }
}

/// Whether every value before position `k` is the boolean `b`.
pub open spec fn bools_before(vs: Seq<ValueView>, k: int, b: bool) -> bool {
    forall|j: int| 0 <= j < k ==> #[trigger] vs[j] == ValueView::Bool(b)
}

/// `or` and `and`: `stop` at the first argument equal to it, `!stop` when
/// every argument is `!stop`, and an error at a non-boolean reached first.
pub open spec fn short_circuit_post(vs: Seq<ValueView>, stop: bool, r: Result<Value, RLError>) -> bool {
    &&& bools_before(vs, vs.len() as int, !stop) ==> (r matches Ok(v) && v@ == ValueView::Bool(!stop))
    &&& forall|k: int|
        0 <= k < vs.len() && bools_before(vs, k, !stop) ==> (#[trigger] vs[k] == ValueView::Bool(stop)
            ==> (r matches Ok(v) && v@ == ValueView::Bool(stop))) && (!(vs[k] is Bool) ==> (r matches Err(
            RLError::BoolExpected(x),
        ) && x@ == vs[k]))
}

/// What `apply` gives for the argument values `vs`, as far as it does not
/// depend on running a body: the arity of `apply` itself, the binding error
/// of a closure, and a bad pair of arguments.
pub open spec fn apply_post(vs: Seq<ValueView>, r: Result<Value, RLError>) -> bool {
    &&& vs.len() != 2 ==> r == Err::<Value, RLError>(RLError::ArityExact(2, vs.len() as usize))
    &&& vs.len() == 2 ==> match (vs[0], vs[1]) {
        (ValueView::Func(params, _, variadic), ValueView::List(xs)) => match spec_bind(
            params,
            xs,
            variadic,
        ) {
            Err(err) => r == Err::<Value, RLError>(err),
            Ok(_) => true,
        },
        (ValueView::Intrinsic(_), ValueView::List(_)) => true,
        _ => r matches Err(RLError::BadApplication(f, a)) && f@ == vs[0] && a@ == vs[1],
    }
}

/// What `eval` gives for the argument values `vs`, as far as it does not
/// depend on the evaluation: its arity, and a value without an expression form.
pub open spec fn eval_post(vs: Seq<ValueView>, r: Result<Value, RLError>) -> bool {
    &&& vs.len() != 1 ==> r == Err::<Value, RLError>(RLError::ArityExact(1, vs.len() as usize))
    &&& vs.len() == 1 && !quotable(vs[0]) ==> r matches Err(RLError::NotQuotable(_))
}

/// Whether the intrinsic works on its arguments alone, leaving the
/// environment untouched.
pub open spec fn is_pure(op: IntrinsicView) -> bool {
    !(op is Apply || op is Eval || op is Native)
}

/// What an intrinsic of the library gives for the argument values `vs`.
pub open spec fn intrinsic_post(op: IntrinsicView, vs: Seq<ValueView>, r: Result<Value, RLError>) -> bool {
    match op {
        IntrinsicView::Begin => r matches Ok(v) && v@ == (if vs.len() == 0 {
            nil_view()
        } else {
            vs.last()
        }),
        IntrinsicView::Cons => {
            &&& vs.len() != 2 ==> r == Err::<Value, RLError>(RLError::ArityExact(2, vs.len() as usize))
            &&& vs.len() == 2 ==> match vs[1] {
                ValueView::List(xs) => r matches Ok(v) && v@ == ValueView::List(seq![vs[0]] + xs),
                _ => r matches Err(RLError::ListExpected(x)) && x@ == vs[1],
            }
        },
        IntrinsicView::Car => {
            &&& vs.len() != 1 ==> r == Err::<Value, RLError>(RLError::ArityExact(1, vs.len() as usize))
            &&& vs.len() == 1 ==> match vs[0] {
                ValueView::List(xs) => if xs.len() == 0 {
                    r == Err::<Value, RLError>(RLError::EmptyList)
                } else {
                    r matches Ok(v) && v@ == xs[0]
                },
                _ => r matches Err(RLError::ListExpected(x)) && x@ == vs[0],
            }
        },
        IntrinsicView::Cdr => {
            &&& vs.len() != 1 ==> r == Err::<Value, RLError>(RLError::ArityExact(1, vs.len() as usize))
            &&& vs.len() == 1 ==> match vs[0] {
                ValueView::List(xs) => if xs.len() == 0 {
                    r == Err::<Value, RLError>(RLError::EmptyList)
                } else {
                    r matches Ok(v) && v@ == ValueView::List(xs.subrange(1, xs.len() as int))
                },
                _ => r matches Err(RLError::ListExpected(x)) && x@ == vs[0],
            }
        },
        IntrinsicView::Append => {
            &&& vs.len() != 2 ==> r == Err::<Value, RLError>(RLError::ArityExact(2, vs.len() as usize))
            &&& vs.len() == 2 ==> match vs[1] {
                ValueView::List(xs) => r matches Ok(v) && v@ == ValueView::List(xs.push(vs[0])),
                _ => r matches Err(RLError::ListExpected(x)) && x@ == vs[1],
            }
        },
        IntrinsicView::Or => short_circuit_post(vs, true, r),
        IntrinsicView::And => short_circuit_post(vs, false, r),
        IntrinsicView::Not => {
            &&& vs.len() != 1 ==> r == Err::<Value, RLError>(RLError::ArityExact(1, vs.len() as usize))
            &&& vs.len() == 1 ==> match vs[0] {
                ValueView::Bool(b) => r matches Ok(v) && v@ == ValueView::Bool(!b),
                _ => r matches Err(RLError::BoolExpected(x)) && x@ == vs[0],
            }
        },
        IntrinsicView::IsEq => {
            &&& vs.len() != 2 ==> r == Err::<Value, RLError>(RLError::ArityExact(2, vs.len() as usize))
            &&& vs.len() == 2 ==> (r matches Ok(v) && v@ == ValueView::Bool(value_eq(vs[0], vs[1])))
        },
        IntrinsicView::Apply => apply_post(vs, r),
        IntrinsicView::Eval => eval_post(vs, r),
        IntrinsicView::Native(_) => true,
        _ => {
            &&& vs.len() != 1 ==> r == Err::<Value, RLError>(RLError::ArityExact(1, vs.len() as usize))
            &&& vs.len() == 1 ==> (r matches Ok(v) && v@ == ValueView::Bool(of_kind_view(op, vs[0])))
        },
    }
}

/// Runs an intrinsic on its evaluated arguments.
pub fn call_intrinsic<H: Natives>(
    op: &Intrinsic,
    args: Vec<Value>,
    env: &mut Environment,
    host: &mut H,
    fuel: u64,
) -> (r: Result<Value, RLError>)
    requires
        old(env).wf(),
    ensures
        final(env).wf(),
        final(env).depth() == old(env).depth(),
        intrinsic_post(intrinsic_view(*op), values_view(args@), r),
        is_pure(intrinsic_view(*op)) ==> *final(env) == *old(env),
        runs(intrinsic_view(*op), values_view(args@), fuel as nat, state_of(*old(env)), state_of(*final(env)), r),
    decreases fuel, 3int,
{
    match op {
        Intrinsic::Begin => Ok(begin(&args)),
        Intrinsic::Cons => cons(&args),
        Intrinsic::Car => car(&args),
        Intrinsic::Cdr => cdr(&args),
        Intrinsic::Append => append(&args),
        Intrinsic::Or => or(&args),
        Intrinsic::And => and(&args),
        Intrinsic::Not => not(&args),
        Intrinsic::IsEq => is_eq(&args),
        Intrinsic::IsNum | Intrinsic::IsBool | Intrinsic::IsStr | Intrinsic::IsSymbol
        | Intrinsic::IsCons | Intrinsic::IsLambda => {
            assert(forall|k: int| 0 <= k < args@.len() ==> #[trigger] values_view(args@)[k] == args@[k]@);
            kind_test(op, &args)
        },
        Intrinsic::Apply => apply(&args, env, host, fuel),
        Intrinsic::Eval => {
            assert(forall|k: int| 0 <= k < args@.len() ==> #[trigger] values_view(args@)[k] == args@[k]@);
            if args.len() != 1 {
                return Err(arity_exact(1, args.len()));
            }
            match args[0].to_sexpr() {
                Ok(e) => evaluate(&e, env, host, fuel),
                Err(err) => Err(err),
            }
        },
        Intrinsic::Native(name) => {
            proof {
                env.lemma_frames_len();
            }
            let r = host.call(name, env, args);
            proof {
                env.lemma_frames_len();
            }
            r
        },
    }
}

/// `(apply f (x ...))`: applies a closure or an intrinsic to the elements of
/// a list, as if they were its evaluated arguments.
pub fn apply<H: Natives>(args: &Vec<Value>, env: &mut Environment, host: &mut H, fuel: u64) -> (r:
    Result<Value, RLError>)
    requires
        old(env).wf(),
    ensures
        final(env).wf(),
        final(env).depth() == old(env).depth(),
        args@.len() != 2 ==> r == Err::<Value, RLError>(RLError::ArityExact(2, args@.len() as usize)),
        apply_post(values_view(args@), r),
        args@.len() == 2 && !((args@[0]@ is Func || args@[0]@ is Intrinsic) && args@[1]@ is List)
            ==> *final(env) == *old(env),
        runs(IntrinsicView::Apply, values_view(args@), fuel as nat, state_of(*old(env)), state_of(*final(env)), r),
    decreases fuel, 2int,
{
    assert(forall|k: int| 0 <= k < args@.len() ==> #[trigger] values_view(args@)[k] == args@[k]@);
    if args.len() != 2 {
        return Err(arity_exact(2, args.len()));
    }
    match (&args[0], &args[1]) {
        (Value::Func(..), Value::List(list)) => {
            assert(args@[1]@ == ValueView::List(values_view(list@)));
            eval_func(&args[0], list, env, host, fuel)
        },
        (Value::Intrinsic(op), Value::List(list)) => {
            if fuel == 0 {
                return Err(RLError::DepthExceeded);
            }
            call_intrinsic(op, copy_values(list), env, host, fuel - 1)
        },
        _ => Err(RLError::BadApplication(args[0].copy(), args[1].copy())),
    }
}

} // verus!
