use vstd::prelude::*;
use crate::environment::Environment;
use crate::error::RLError;
use crate::eval::{Natives, MAX_DEPTH, atom_outcome, evaluate, is_atom};
use crate::model::{St, evals_seq, state_of, step_state};
use crate::sexpr::exprs_view;
use crate::sexpr::SExpr;
use crate::value::{Form, FormView, Intrinsic, IntrinsicView, Value, ValueView, form_view, intrinsic_view};

verus! {

impl Environment {
    /// Binds `name` to the intrinsic `op` in the innermost scope.
    pub fn define_intrinsic(&mut self, name: &str, op: Intrinsic)
        requires
            old(self).wf(),
        ensures
            final(self).wf(),
            final(self).depth() == old(self).depth(),
            final(self).registry() == old(self).registry(),
            final(self).frames() == old(self).frames().update(
                old(self).frames().len() - 1,
                old(self).frames().last().insert(name@, ValueView::Intrinsic(intrinsic_view(op))),
            ),
    {
        self.define(String::from_str(name), Value::Intrinsic(op));
    }

    /// Binds `name` to the special form `form` in the innermost scope.
    pub fn define_macro(&mut self, name: &str, form: Form)
        requires
            old(self).wf(),
        ensures
            final(self).wf(),
            final(self).depth() == old(self).depth(),
            final(self).registry() == old(self).registry(),
            final(self).frames() == old(self).frames().update(
                old(self).frames().len() - 1,
                old(self).frames().last().insert(name@, ValueView::Macro(form_view(form))),
            ),
    {
        self.define(String::from_str(name), Value::Macro(form));
    }
}

/// The innermost scope after `init_core`: `top` with every intrinsic of the
/// library and then every special form bound, in that order.
pub open spec fn core_scope(top: Map<Seq<char>, ValueView>) -> Map<Seq<char>, ValueView> {
    top.insert("begin"@, ValueView::Intrinsic(IntrinsicView::Begin))
        .insert("cons"@, ValueView::Intrinsic(IntrinsicView::Cons))
        .insert("car"@, ValueView::Intrinsic(IntrinsicView::Car))
        .insert("cdr"@, ValueView::Intrinsic(IntrinsicView::Cdr))
        .insert("append"@, ValueView::Intrinsic(IntrinsicView::Append))
        .insert("or"@, ValueView::Intrinsic(IntrinsicView::Or))
        .insert("and"@, ValueView::Intrinsic(IntrinsicView::And))
        .insert("not"@, ValueView::Intrinsic(IntrinsicView::Not))
        .insert("eq?"@, ValueView::Intrinsic(IntrinsicView::IsEq))
        .insert("num?"@, ValueView::Intrinsic(IntrinsicView::IsNum))
        .insert("bool?"@, ValueView::Intrinsic(IntrinsicView::IsBool))
        .insert("str?"@, ValueView::Intrinsic(IntrinsicView::IsStr))
        .insert("symbol?"@, ValueView::Intrinsic(IntrinsicView::IsSymbol))
        .insert("cons?"@, ValueView::Intrinsic(IntrinsicView::IsCons))
        .insert("lambda?"@, ValueView::Intrinsic(IntrinsicView::IsLambda))
        .insert("apply"@, ValueView::Intrinsic(IntrinsicView::Apply))
        .insert("eval"@, ValueView::Intrinsic(IntrinsicView::Eval))
        .insert("define"@, ValueView::Macro(FormView::Define))
        .insert("lambda"@, ValueView::Macro(FormView::Lambda))
        .insert("if"@, ValueView::Macro(FormView::If))
        .insert("cond"@, ValueView::Macro(FormView::Cond))
        .insert("let"@, ValueView::Macro(FormView::Let))
        .insert("define-struct"@, ValueView::Macro(FormView::DefineStruct))
}

/// Binds, in the innermost scope, the special forms `define`, `lambda`,
/// `if`, `cond`, `let` and `define-struct`, and the intrinsics that the
/// library implements: `begin`, `cons`, `car`, `cdr`, `append`, `or`, `and`,
/// `not`, `eq?`, `num?`, `bool?`, `str?`, `symbol?`, `cons?`, `lambda?`,
/// `apply` and `eval`.
pub fn init_core(env: &mut Environment)
    requires
        old(env).wf(),
    ensures
        final(env).wf(),
        final(env).depth() == old(env).depth(),
        final(env).registry() == old(env).registry(),
        final(env).frames().drop_last() == old(env).frames().drop_last(),
        final(env).frames().last() == core_scope(old(env).frames().last()),
        final(env).frames().last().contains_key("define"@),
        final(env).frames().last().contains_key("lambda"@),
        final(env).frames().last().contains_key("if"@),
        final(env).frames().last().contains_key("cond"@),
        final(env).frames().last().contains_key("let"@),
        final(env).frames().last().contains_key("define-struct"@),
        final(env).frames().last()["define"@] == ValueView::Macro(FormView::Define),
        final(env).frames().last()["lambda"@] == ValueView::Macro(FormView::Lambda),
        final(env).frames().last()["if"@] == ValueView::Macro(FormView::If),
        final(env).frames().last()["cond"@] == ValueView::Macro(FormView::Cond),
        final(env).frames().last()["let"@] == ValueView::Macro(FormView::Let),
        final(env).frames().last()["define-struct"@] == ValueView::Macro(FormView::DefineStruct),
{
    proof {
        env.lemma_frames_len();
    }
    let ghost below = env.frames().drop_last();
    let ghost top = env.frames().last();
    env.define_intrinsic("begin", Intrinsic::Begin);
    env.define_intrinsic("cons", Intrinsic::Cons);
    env.define_intrinsic("car", Intrinsic::Car);
    env.define_intrinsic("cdr", Intrinsic::Cdr);
    env.define_intrinsic("append", Intrinsic::Append);
    env.define_intrinsic("or", Intrinsic::Or);
    env.define_intrinsic("and", Intrinsic::And);
    env.define_intrinsic("not", Intrinsic::Not);
    env.define_intrinsic("eq?", Intrinsic::IsEq);
    env.define_intrinsic("num?", Intrinsic::IsNum);
    env.define_intrinsic("bool?", Intrinsic::IsBool);
    env.define_intrinsic("str?", Intrinsic::IsStr);
    env.define_intrinsic("symbol?", Intrinsic::IsSymbol);
    env.define_intrinsic("cons?", Intrinsic::IsCons);
    env.define_intrinsic("lambda?", Intrinsic::IsLambda);
    env.define_intrinsic("apply", Intrinsic::Apply);
    env.define_intrinsic("eval", Intrinsic::Eval);
    assert(env.frames().drop_last() =~= below);
    env.define_macro("define", Form::Define);
    env.define_macro("lambda", Form::Lambda);
    env.define_macro("if", Form::If);
    env.define_macro("cond", Form::Cond);
    env.define_macro("let", Form::Let);
    env.define_macro("define-struct", Form::DefineStruct);
    assert(env.frames().drop_last() =~= below);
    proof {
        reveal_strlit("define");
        reveal_strlit("lambda");
        reveal_strlit("if");
        reveal_strlit("cond");
        reveal_strlit("let");
        reveal_strlit("define-struct");
        assert("define"@.len() == 6 && "define"@[0] == 'd');
        assert("lambda"@.len() == 6 && "lambda"@[0] == 'l');
        assert("if"@.len() == 2 && "if"@[0] == 'i');
        assert("cond"@.len() == 4 && "cond"@[0] == 'c');
        assert("let"@.len() == 3 && "let"@[0] == 'l');
        assert("define-struct"@.len() == 13 && "define-struct"@[0] == 'd');
    }
}

/// Evaluates `exprs` one after another, each in the environment that the
/// previous one left, going on after a failure as a REPL or a loader does.
/// The results come back in order; as many scopes are open afterwards as
/// before.
pub fn eval_all<H: Natives>(exprs: &Vec<SExpr>, env: &mut Environment, host: &mut H) -> (r: Vec<
    Result<Value, RLError>,
>)
    requires
        old(env).wf(),
    ensures
        final(env).wf(),
        final(env).depth() == old(env).depth(),
        r@.len() == exprs@.len(),
        (forall|i: int| 0 <= i < exprs@.len() ==> #[trigger] is_atom(exprs@[i]@)) ==> *final(env)
            == *old(env) && forall|i: int|
            0 <= i < exprs@.len() ==> atom_outcome(exprs@[i]@, old(env).frames(), #[trigger] r@[i]),
        evals_seq(exprs_view(exprs@), MAX_DEPTH as nat, state_of(*old(env)), state_of(*final(env)), r@),
{
    let ghost es = exprs_view(exprs@);
    let ghost s0 = state_of(*env);
    assert(es.subrange(0, es.len() as int) =~= es);
    let mut out: Vec<Result<Value, RLError>> = Vec::new();
    let mut i: usize = 0;
    while i < exprs.len()
        invariant
            i <= exprs@.len(),
            out@.len() == i,
            env.wf(),
            env.depth() == old(env).depth(),
            (forall|i: int| 0 <= i < exprs@.len() ==> #[trigger] is_atom(exprs@[i]@)) ==> *env
                == *old(env) && forall|j: int|
                0 <= j < i ==> atom_outcome(exprs@[j]@, old(env).frames(), #[trigger] out@[j]),
            es == exprs_view(exprs@),
            s0 == state_of(*old(env)),
            forall|s1: St, rs: Seq<Result<Value, RLError>>|
                #[trigger] evals_seq(es.subrange(i as int, es.len() as int), MAX_DEPTH as nat, state_of(*env), s1, rs)
                    ==> evals_seq(es, MAX_DEPTH as nat, s0, s1, out@ + rs),
        decreases exprs@.len() - i,
    {
        let ghost before = out@;
        let ghost st = state_of(*env);
        let ghost rest = es.subrange(i as int, es.len() as int);
        assert(rest[0] == exprs@[i as int]@);
        let r = evaluate(&exprs[i], env, host, MAX_DEPTH);
        let ghost st2 = state_of(*env);
        assert(step_state(st2));
        out.push(r);
        assert(forall|j: int| 0 <= j < i ==> out@[j] == before[j]);
        proof {
            let next = es.subrange(i + 1, es.len() as int);
            assert(rest.subrange(1, rest.len() as int) =~= next);
            assert forall|s1: St, rs: Seq<Result<Value, RLError>>|
                #[trigger] evals_seq(next, MAX_DEPTH as nat, st2, s1, rs)
                implies evals_seq(es, MAX_DEPTH as nat, s0, s1, out@ + rs) by {
                let rs2 = seq![r] + rs;
                assert(rs2.subrange(1, rs2.len() as int) =~= rs);
                assert(rs2[0] == r);
                assert(evals_seq(rest, MAX_DEPTH as nat, st, s1, rs2));
                assert(before + rs2 =~= out@ + rs);
            }
        }
        i = i + 1;
    }
    proof {
        let rest = es.subrange(i as int, es.len() as int);
        assert(rest.len() == 0);
        assert(evals_seq(rest, MAX_DEPTH as nat, state_of(*env), state_of(*env), Seq::empty()));
        assert(out@ + Seq::<Result<Value, RLError>>::empty() =~= out@);
    }
    out
}

} // verus!
