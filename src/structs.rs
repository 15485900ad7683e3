use vstd::prelude::*;
use crate::environment::{Environment, FieldIndex, first_index};
use crate::error::{RLError, arity_exact, not_a_list, not_an_identifier};
use crate::model::{St, args_loop, args_view, evals, forms, state_of, step_args, step_result, step_state};
use crate::eval::{Natives, atom_value, atom_values, evaluate, is_atom, lemma_atom_value, lemma_atom_values_prefix};
use crate::forms::{param_names, accessor_name, constructor_name, predicate_name, spec_field, spec_is_instance};
use crate::sexpr::{ExprView, SExpr, exprs_view};
use crate::value::{Form, FormView, Value, ValueView, names_view, nil_view, values_view};

verus! {

/// `Name?`
pub fn make_predicate_name(name: &String) -> (r: String)
    ensures
        r@ == predicate_name(name@),
{
    let mut r = name.clone();
    r.append("?");
    r
}

/// `Name-field`
pub fn make_accessor_name(name: &String, field: &String) -> (r: String)
    ensures
        r@ == accessor_name(name@, field@),
{
    let mut r = name.clone();
    r.append("-");
    r.append(field.as_str());
    r
}

/// `make-Name`
pub fn make_constructor_name(name: &String) -> (r: String)
    ensures
        r@ == constructor_name(name@),
{
    let mut r = String::from_str("make-");
    r.append(name.as_str());
    r
}

/// Whether `v` is an instance of the struct type `name`.
pub fn is_instance(v: &Value, name: &String) -> (r: bool)
    ensures
        r == spec_is_instance(v@, name@),
{
    match v {
        Value::Struct(n, _) => n.eq(name),
        _ => false,
    }
}

/// The field `field` of the struct instance `v`, whose type declares the
/// fields `fields`.
pub fn get_field(v: &Value, fields: &Vec<String>, field: &String) -> (r: Result<Value, RLError>)
    ensures
        match spec_field(v@, names_view(fields@), field@) {
            Some(x) => r matches Ok(y) && y@ == x,
            None => r is Err,
        },
{
    match v {
        Value::Struct(_, vals) => {
            match fields.index(field) {
                Some(i) => {
                    proof {
                        lemma_first_index(names_view(fields@), field@, i as int);
                    }
                    if i < vals.len() {
                        Ok(vals[i].copy())
                    } else {
                        Err(RLError::StructExpected(v.copy()))
                    }
                },
                None => {
                    assert(!(exists|i: int|
                        0 <= i < names_view(fields@).len() && names_view(fields@)[i] == field@));
                    Err(RLError::Unbound(field.clone()))
                },
            }
        },
        _ => Err(RLError::StructExpected(v.copy())),
    }
}

/// The first position of `key` is the one position before which it does not occur.
pub proof fn lemma_first_index(fields: Seq<Seq<char>>, key: Seq<char>, i: int)
    requires
        0 <= i < fields.len(),
        fields[i] == key,
        forall|j: int| 0 <= j < i ==> fields[j] != key,
    ensures
        first_index(fields, key) == Some(i),
{
    let k = choose|k: int|
        0 <= k < fields.len() && fields[k] == key && forall|j: int| 0 <= j < k ==> fields[j] != key;
    assert(0 <= i < fields.len() && fields[i] == key && forall|j: int|
        0 <= j < i ==> fields[j] != key);
    assert(k == i);
}

/// The names of a list of identifiers.
pub fn identifiers(vals: &Vec<SExpr>) -> (r: Result<Vec<String>, RLError>)
    ensures
        r is Ok <==> all_idents(exprs_view(vals@)),
        r matches Ok(f) ==> names_view(f@) == param_names(exprs_view(vals@)),
        r matches Err(e) ==> (e matches RLError::NotAnIdentifier(x) && exists|i: int|
            0 <= i < vals@.len() && x@ == exprs_view(vals@)[i] && !(exprs_view(vals@)[i] is Ident)
                && forall|j: int| 0 <= j < i ==> #[trigger] exprs_view(vals@)[j] is Ident),
{
    let ghost fs = exprs_view(vals@);
    let mut fields: Vec<String> = Vec::new();
    let mut i: usize = 0;
    while i < vals.len()
        invariant
            i <= vals@.len(),
            fs == exprs_view(vals@),
            fields@.len() == i,
            forall|j: int| 0 <= j < i ==> fields@[j]@ == param_names(fs)[j],
            forall|j: int| 0 <= j < i ==> #[trigger] fs[j] is Ident,
        decreases vals@.len() - i,
    {
        assert(fs[i as int] == vals@[i as int]@);
        match &vals[i] {
            SExpr::Ident(f, _) => fields.push(f.clone()),
            _ => {
                let e = not_an_identifier(&vals[i]);
                assert(!all_idents(fs));
                return Err(e);
            },
        }
        i = i + 1;
    }
    assert(names_view(fields@) =~= param_names(fs));
    Ok(fields)
}

/// Whether every expression is an identifier.
pub open spec fn all_idents(fs: Seq<ExprView>) -> bool {
    forall|i: int| 0 <= i < fs.len() ==> #[trigger] fs[i] is Ident
}

/// `m` with an accessor of the struct type `name` bound for each field, in order.
pub open spec fn with_accessors(
    m: Map<Seq<char>, ValueView>,
    name: Seq<char>,
    fields: Seq<Seq<char>>,
) -> Map<Seq<char>, ValueView>
    decreases fields.len(),
{
    if fields.len() == 0 {
        m
    } else {
        with_accessors(m, name, fields.drop_last()).insert(
            accessor_name(name, fields.last()),
            ValueView::Macro(FormView::StructAccessor(name, fields.last())),
        )
    }
}

/// The innermost scope after `define-struct`: `top` with the predicate, the
/// accessors and the constructor bound, in that order.
pub open spec fn struct_scope(
    top: Map<Seq<char>, ValueView>,
    name: Seq<char>,
    fields: Seq<Seq<char>>,
) -> Map<Seq<char>, ValueView> {
    with_accessors(
        top.insert(predicate_name(name), ValueView::Macro(FormView::StructPredicate(name))),
        name,
        fields,
    ).insert(constructor_name(name), ValueView::Macro(FormView::StructConstructor(name)))
}

/// Whether `define-struct` accepts the operands `exprs`: a name, then a
/// non-empty list of field identifiers.
pub open spec fn struct_definition_ok(exprs: Seq<ExprView>) -> bool {
    exprs.len() == 3 && exprs[1] is Ident && (exprs[2] matches ExprView::List(fs) && fs.len() > 0
        && all_idents(fs))
}

/// What `define-struct` guarantees of its application `exprs`: it succeeds
/// exactly on a well-formed definition, registers the type and binds its
/// operators in the innermost scope, and changes nothing when it fails.
pub open spec fn define_struct_post(
    exprs: Seq<ExprView>,
    before: Seq<Map<Seq<char>, ValueView>>,
    after: Seq<Map<Seq<char>, ValueView>>,
    reg: Map<Seq<char>, Seq<Seq<char>>>,
    reg_after: Map<Seq<char>, Seq<Seq<char>>>,
    r: Result<Value, RLError>,
) -> bool {
    &&& (r is Ok <==> struct_definition_ok(exprs))
    &&& r is Err ==> after == before && reg_after == reg
    &&& r is Ok ==> (r matches Ok(v) && v@ == nil_view()) && (exprs[1] matches ExprView::Ident(
        name,
        _,
    ) && exprs[2] matches ExprView::List(fs) && reg_after == reg.insert(name, param_names(fs))
        && after == before.update(before.len() - 1, struct_scope(before.last(), name, param_names(fs))))
}

/// `(define-struct Name (field ...))`: registers the type, then binds in the
/// innermost scope the predicate `Name?`, an accessor `Name-field` for each
/// field, and the constructor `make-Name`.
pub fn define_struct_form(exprs: &Vec<SExpr>, env: &mut Environment) -> (r: Result<Value, RLError>)
    requires
        old(env).wf(),
        exprs@.len() >= 1,
    ensures
        final(env).wf(),
        define_struct_post(
            exprs_view(exprs@),
            old(env).frames(),
            final(env).frames(),
            old(env).registry(),
            final(env).registry(),
            r,
        ),
        final(env).depth() == old(env).depth(),
        exprs@.len() != 3 ==> r == Err::<Value, RLError>(
            RLError::ArityExact(2, (exprs@.len() - 1) as usize),
        ) && *final(env) == *old(env),
        r is Err ==> *final(env) == *old(env),
        r is Ok <==> struct_definition_ok(exprs_view(exprs@)),
        r is Ok ==> (r matches Ok(v) && v@ == nil_view()),
        exprs@.len() == 3 && !(exprs@[2]@ is List) ==> (r matches Err(RLError::NotAList(e)) && e@
            == exprs@[2]@),
        exprs@.len() == 3 && exprs@[2]@ is List && !(exprs@[1]@ is Ident) ==> (r matches Err(
            RLError::NotAnIdentifier(e),
        ) && e@ == exprs@[1]@),
        exprs@.len() == 3 && exprs@[1]@ is Ident ==> (exprs@[2]@ matches ExprView::List(fs) ==> (
        fs.len() == 0 ==> r == Err::<Value, RLError>(RLError::ArityExact(1, 0)))),
        exprs@.len() == 3 && exprs@[1]@ is Ident ==> (exprs@[2]@ matches ExprView::List(fs) ==> (
        fs.len() > 0 && !all_idents(fs) ==> (r matches Err(RLError::NotAnIdentifier(x)) && exists|
            i: int,
        |
            0 <= i < fs.len() && x@ == fs[i] && !(fs[i] is Ident) && forall|j: int|
                0 <= j < i ==> #[trigger] fs[j] is Ident))),
        r is Ok ==> (exprs@[1]@ matches ExprView::Ident(name, _) && exprs@[2]@ matches ExprView::List(
            fs,
        ) && final(env).frames() == old(env).frames().update(
            old(env).frames().len() - 1,
            struct_scope(old(env).frames().last(), name, param_names(fs)),
        )),
        r is Ok ==> (exprs@[1]@ matches ExprView::Ident(name, _) && exprs@[2]@ matches ExprView::List(
            fs,
        ) && {
            let fields = param_names(fs);
            let top = final(env).frames().last();
            &&& final(env).registry() == old(env).registry().insert(name, fields)
            &&& final(env).frames().drop_last() == old(env).frames().drop_last()
            &&& top[predicate_name(name)] == ValueView::Macro(FormView::StructPredicate(name))
            &&& top[constructor_name(name)] == ValueView::Macro(
                FormView::StructConstructor(name),
            )
            &&& forall|i: int|
                0 <= i < fields.len() && accessor_name(name, fields[i]) != constructor_name(name)
                    ==> top[accessor_name(name, #[trigger] fields[i])] == ValueView::Macro(
                    FormView::StructAccessor(name, fields[i]),
                )
        }),
{
    let len = exprs.len();
    if len != 3 {
        return Err(arity_exact(2, len - 1));
    }
    assert(exprs_view(exprs@)[1] == exprs@[1]@);
    assert(exprs_view(exprs@)[2] == exprs@[2]@);
    match (&exprs[1], &exprs[2]) {
        (SExpr::Ident(name, _), SExpr::List(vals)) => {
            let ghost fs = exprs_view(vals@);
            let ghost fnames = param_names(fs);
            if vals.len() < 1 {
                return Err(arity_exact(1, vals.len()));
            }
            let fields = match identifiers(vals) {
                Ok(f) => f,
                Err(err) => return Err(err),
            };
            assert(names_view(fields@) =~= fnames);
            proof {
                env.lemma_frames_len();
            }
            env.add_struct(name.clone(), crate::value::copy_names(&fields));
            let ghost below = env.frames().drop_last();
            let ghost top0 = old(env).frames().last();
            let pred = make_predicate_name(name);
            env.define(pred, Value::Macro(Form::StructPredicate(name.clone())));
            let ghost top1 = top0.insert(
                predicate_name(name@),
                ValueView::Macro(FormView::StructPredicate(name@)),
            );
            assert(fnames.subrange(0, 0) =~= Seq::<Seq<char>>::empty());
            let mut k: usize = 0;
            while k < fields.len()
                invariant
                    k <= fields@.len(),
                    names_view(fields@) == fnames,
                    fnames.len() == fields@.len(),
                    env.wf(),
                    env.depth() == old(env).depth(),
                    env.registry() == old(env).registry().insert(name@, fnames),
                    env.frames().drop_last() == below,
                    below == old(env).frames().drop_last(),
                    env.frames().len() == old(env).frames().len(),
                    env.frames().last()[predicate_name(name@)] == ValueView::Macro(
                        FormView::StructPredicate(name@),
                    ),
                    forall|j: int|
                        0 <= j < k ==> env.frames().last()[accessor_name(name@, #[trigger] fnames[j])]
                            == ValueView::Macro(FormView::StructAccessor(name@, fnames[j])),
                    top1 == old(env).frames().last().insert(
                        predicate_name(name@),
                        ValueView::Macro(FormView::StructPredicate(name@)),
                    ),
                    env.frames().last() == with_accessors(top1, name@, fnames.subrange(0, k as int)),
                decreases fields@.len() - k,
            {
                let acc = make_accessor_name(name, &fields[k]);
                proof {
                    lemma_accessor_names(name@, fnames, k as int);
                    env.lemma_frames_len();
                }
                let ghost before = env.frames();
                let ghost v = ValueView::Macro(FormView::StructAccessor(name@, fnames[k as int]));
                assert(fields@[k as int]@ == fnames[k as int]);
                env.define(acc, Value::Macro(Form::StructAccessor(name.clone(), fields[k].clone())));
                assert(env.frames().last() == before.last().insert(accessor_name(name@, fnames[k as int]), v));
                assert(fnames.subrange(0, k + 1).drop_last() =~= fnames.subrange(0, k as int));
                assert(env.frames().drop_last() =~= below);
                assert forall|j: int|
                    0 <= j < k + 1 implies env.frames().last()[accessor_name(name@, #[trigger] fnames[j])]
                        == ValueView::Macro(FormView::StructAccessor(name@, fnames[j])) by {
                    if j < k && fnames[j] != fnames[k as int] {
                        assert(accessor_name(name@, fnames[j]) != accessor_name(name@, fnames[k as int]));
                    }
                }
                k = k + 1;
            }
            let make = make_constructor_name(name);
            assert(fnames.subrange(0, k as int) =~= fnames);
            let ghost bf = env.frames();
            assert(bf.last() == with_accessors(top1, name@, fnames));
            proof {
                env.lemma_frames_len();
            }
            env.define(make, Value::Macro(Form::StructConstructor(name.clone())));
            assert(env.frames().drop_last() =~= below);
            assert(env.frames().last() == struct_scope(old(env).frames().last(), name@, fnames));
            assert(env.frames().len() == old(env).frames().len());
            assert forall|j: int| 0 <= j < env.frames().len() - 1 implies env.frames()[j] == old(env).frames()[j] by {
                assert(env.frames().drop_last()[j] == env.frames()[j]);
                assert(old(env).frames().drop_last()[j] == old(env).frames()[j]);
            }
            assert(env.frames() =~= old(env).frames().update(
                old(env).frames().len() - 1,
                struct_scope(old(env).frames().last(), name@, fnames),
            ));
            proof {
                lemma_predicate_not_constructor(name@);
            }
            Ok(Value::nil())
        },
        (_, SExpr::List(_)) => Err(not_an_identifier(&exprs[1])),
        _ => Err(not_a_list(&exprs[2])),
    }
}

/// An accessor's name differs from the predicate's name, and from the
/// accessor names of other fields.
pub proof fn lemma_accessor_names(name: Seq<char>, fields: Seq<Seq<char>>, k: int)
    requires
        0 <= k < fields.len(),
    ensures
        accessor_name(name, fields[k]) != predicate_name(name),
        forall|j: int|
            0 <= j < fields.len() && fields[j] != fields[k] ==> accessor_name(name, fields[j])
                != accessor_name(name, fields[k]),
{
    reveal_strlit("-");
    reveal_strlit("?");
    let a = accessor_name(name, fields[k]);
    assert(a[name.len() as int] == '-');
    assert(predicate_name(name).len() > name.len() ==> predicate_name(name)[name.len() as int]
        == '?');
    assert forall|j: int| 0 <= j < fields.len() && fields[j] != fields[k] implies accessor_name(
        name,
        fields[j],
    ) != accessor_name(name, fields[k]) by {
        let b = accessor_name(name, fields[j]);
        if b == a {
            assert(b.subrange(name.len() + 1int, b.len() as int) =~= fields[j]);
            assert(a.subrange(name.len() + 1int, a.len() as int) =~= fields[k]);
        }
    }
}

/// The constructor's name differs from the predicate's name.
pub proof fn lemma_predicate_not_constructor(name: Seq<char>)
    ensures
        predicate_name(name) != constructor_name(name),
{
    reveal_strlit("?");
    reveal_strlit("make-");
    assert(predicate_name(name).len() != constructor_name(name).len());
}

/// What `Name?` gives for an operand that needs no application.
pub open spec fn predicate_post(
    name: Seq<char>,
    exprs: Seq<ExprView>,
    fuel: u64,
    before: Seq<Map<Seq<char>, ValueView>>,
    after: Seq<Map<Seq<char>, ValueView>>,
    r: Result<Value, RLError>,
) -> bool {
    &&& exprs.len() != 2 ==> r == Err::<Value, RLError>(RLError::ArityExact(1, (exprs.len() - 1) as usize))
        && after == before
    &&& exprs.len() == 2 && fuel > 0 && is_atom(exprs[1]) ==> after == before && match atom_value(
        exprs[1],
        before,
    ) {
        Some(v) => r matches Ok(x) && x@ == ValueView::Bool(spec_is_instance(v, name)),
        None => r is Err,
    }
}

/// What `Name-field` gives for an operand that needs no application, with
/// the struct registry `reg`.
pub open spec fn accessor_post(
    name: Seq<char>,
    field: Seq<char>,
    exprs: Seq<ExprView>,
    fuel: u64,
    before: Seq<Map<Seq<char>, ValueView>>,
    after: Seq<Map<Seq<char>, ValueView>>,
    reg: Map<Seq<char>, Seq<Seq<char>>>,
    r: Result<Value, RLError>,
) -> bool {
    &&& exprs.len() != 2 ==> r == Err::<Value, RLError>(RLError::ArityExact(1, (exprs.len() - 1) as usize))
        && after == before
    &&& exprs.len() == 2 && fuel > 0 && is_atom(exprs[1]) ==> after == before && match atom_value(
        exprs[1],
        before,
    ) {
        Some(v) => if reg.contains_key(name) {
            match spec_field(v, reg[name], field) {
                Some(x) => r matches Ok(y) && y@ == x,
                None => r is Err,
            }
        } else {
            r is Err
        },
        None => r is Err,
    }
}

/// What `make-Name` gives for operands that need no application, with the
/// struct registry `reg`.
pub open spec fn constructor_post(
    name: Seq<char>,
    exprs: Seq<ExprView>,
    fuel: u64,
    before: Seq<Map<Seq<char>, ValueView>>,
    after: Seq<Map<Seq<char>, ValueView>>,
    reg: Map<Seq<char>, Seq<Seq<char>>>,
    r: Result<Value, RLError>,
) -> bool {
    &&& !reg.contains_key(name) ==> (r matches Err(RLError::UnknownStruct(n)) && n@ == name) && after
        == before
    &&& reg.contains_key(name) && exprs.len() - 1 != reg[name].len() ==> r == Err::<Value, RLError>(
        RLError::ArityExact(reg[name].len() as usize, (exprs.len() - 1) as usize),
    ) && after == before
    &&& reg.contains_key(name) && exprs.len() - 1 == reg[name].len() && fuel > 0 && (forall|i: int|
        1 <= i < exprs.len() ==> #[trigger] is_atom(exprs[i])) ==> after == before && match atom_values(
        exprs.subrange(1, exprs.len() as int),
        before,
    ) {
        Some(vs) => r matches Ok(v) && v@ == ValueView::Struct(name, vs),
        None => r is Err,
    }
}

/// `(Name? value)`: whether the value of `value` is an instance of `Name`.
pub fn struct_predicate<H: Natives>(
    name: &String,
    exprs: &Vec<SExpr>,
    env: &mut Environment,
    host: &mut H,
    fuel: u64,
) -> (r: Result<Value, RLError>)
    requires
        old(env).wf(),
        exprs@.len() >= 1,
    ensures
        final(env).wf(),
        final(env).depth() == old(env).depth(),
        exprs@.len() != 2 ==> r == Err::<Value, RLError>(
            RLError::ArityExact(1, (exprs@.len() - 1) as usize),
        ) && *final(env) == *old(env),
        r matches Ok(v) ==> v@ is Bool,
        predicate_post(name@, exprs_view(exprs@), fuel, old(env).frames(), final(env).frames(), r),
        forms(FormView::StructPredicate(name@), exprs_view(exprs@), fuel as nat, state_of(*old(env)), state_of(*final(env)), r),
    decreases fuel, 1int,
{
    let len = exprs.len();
    if len != 2 {
        return Err(arity_exact(1, len - 1));
    }
    assert(exprs_view(exprs@)[1] == exprs@[1]@);
    let r = evaluate(&exprs[1], env, host, fuel);
    assert(step_result(r));
    proof {
        if fuel > 0 && is_atom(exprs@[1]@) {
            lemma_atom_value(exprs@[1]@, old(env).frames(), r);
        }
    }
    match r {
        Ok(v) => Ok(Value::Bool(is_instance(&v, name))),
        Err(err) => Err(err),
    }
}

/// `(Name-field value)`: the field `field` of the instance that `value`
/// evaluates to, at the position that the registry gives the field in `Name`.
pub fn struct_accessor<H: Natives>(
    name: &String,
    field: &String,
    exprs: &Vec<SExpr>,
    env: &mut Environment,
    host: &mut H,
    fuel: u64,
) -> (r: Result<Value, RLError>)
    requires
        old(env).wf(),
        exprs@.len() >= 1,
    ensures
        final(env).wf(),
        final(env).depth() == old(env).depth(),
        exprs@.len() != 2 ==> r == Err::<Value, RLError>(
            RLError::ArityExact(1, (exprs@.len() - 1) as usize),
        ) && *final(env) == *old(env),
        accessor_post(
            name@,
            field@,
            exprs_view(exprs@),
            fuel,
            old(env).frames(),
            final(env).frames(),
            old(env).registry(),
            r,
        ),
        forms(FormView::StructAccessor(name@, field@), exprs_view(exprs@), fuel as nat, state_of(*old(env)), state_of(*final(env)), r),
    decreases fuel, 1int,
{
    let len = exprs.len();
    if len != 2 {
        return Err(arity_exact(1, len - 1));
    }
    assert(exprs_view(exprs@)[1] == exprs@[1]@);
    let r = evaluate(&exprs[1], env, host, fuel);
    assert(step_result(r));
    proof {
        if fuel > 0 && is_atom(exprs@[1]@) {
            lemma_atom_value(exprs@[1]@, old(env).frames(), r);
        }
    }
    match r {
        Ok(v) => match env.get_struct(name) {
            Some(fields) => get_field(&v, &fields, field),
            None => Err(RLError::UnknownStruct(name.clone())),
        },
        Err(err) => Err(err),
    }
}

/// `(make-Name value ...)`: an instance of `Name` whose fields are the values
/// of the operands, evaluated left to right; there must be one per declared field.
pub fn struct_constructor<H: Natives>(
    name: &String,
    exprs: &Vec<SExpr>,
    env: &mut Environment,
    host: &mut H,
    fuel: u64,
) -> (r: Result<Value, RLError>)
    requires
        old(env).wf(),
        exprs@.len() >= 1,
    ensures
        final(env).wf(),
        final(env).depth() == old(env).depth(),
        !old(env).registry().contains_key(name@) ==> (r matches Err(RLError::UnknownStruct(n))
            && n@ == name@) && *final(env) == *old(env),
        old(env).registry().contains_key(name@) && exprs@.len() - 1 != old(env).registry()[name@].len()
            ==> r == Err::<Value, RLError>(
            RLError::ArityExact(
                old(env).registry()[name@].len() as usize,
                (exprs@.len() - 1) as usize,
            ),
        ) && *final(env) == *old(env),
        r matches Ok(v) ==> (v@ matches ValueView::Struct(n, vals) && n == name@ && vals.len()
            == exprs@.len() - 1),
        constructor_post(
            name@,
            exprs_view(exprs@),
            fuel,
            old(env).frames(),
            final(env).frames(),
            old(env).registry(),
            r,
        ),
        forms(FormView::StructConstructor(name@), exprs_view(exprs@), fuel as nat, state_of(*old(env)), state_of(*final(env)), r),
    decreases fuel, 1int,
{
    let fields = match env.get_struct(name) {
        Some(f) => f,
        None => return Err(RLError::UnknownStruct(name.clone())),
    };
    let count = exprs.len() - 1;
    assert(names_view(fields@).len() == fields@.len());
    if count != fields.len() {
        return Err(arity_exact(fields.len(), count));
    }
    let ghost xs = exprs_view(exprs@);
    let ghost ops = xs.subrange(1, exprs@.len() as int);
    let ghost fr = env.frames();
    let ghost atomic = fuel > 0 && (forall|i: int| 1 <= i < xs.len() ==> #[trigger] is_atom(xs[i]));
    let mut values: Vec<Value> = Vec::new();
    let mut i: usize = 1;
    assert(ops.subrange(0, 0) =~= Seq::<ExprView>::empty());
    assert(values_view(values@) =~= Seq::<ValueView>::empty());
    assert(ops.subrange(0, ops.len() as int) =~= ops);
    let ghost s0 = state_of(*env);
    while i < exprs.len()
        invariant
            1 <= i <= exprs@.len(),
            exprs@.len() - 1 == old(env).registry()[name@].len(),
            old(env).registry().contains_key(name@),
            values@.len() == i - 1,
            env.wf(),
            env.depth() == old(env).depth(),
            xs == exprs_view(exprs@),
            ops == xs.subrange(1, exprs@.len() as int),
            fr == old(env).frames(),
            atomic == (fuel > 0 && (forall|i: int| 1 <= i < xs.len() ==> #[trigger] is_atom(xs[i]))),
            atomic ==> *env == *old(env) && atom_values(ops.subrange(0, i - 1), fr) == Some(
                values_view(values@),
            ),
            s0 == state_of(*old(env)),
            forall|s1: St, ra: Result<Seq<ValueView>, RLError>|
                #[trigger] args_loop(ops.subrange(i - 1, ops.len() as int), fuel as nat, state_of(*env), values_view(values@), s1, ra)
                    ==> args_loop(ops, fuel as nat, s0, Seq::empty(), s1, ra),
        decreases exprs@.len() - i,
    {
        let ghost sub = ops.subrange(0, i as int);
        let ghost rest = ops.subrange(i - 1, ops.len() as int);
        let ghost st = state_of(*env);
        assert(rest.len() > 0);
        assert(rest[0] == exprs@[i as int]@);
        assert(sub.drop_last() =~= ops.subrange(0, i - 1));
        assert(sub.last() == exprs@[i as int]@);
        let ghost before_vals = values_view(values@);
        let r = evaluate(&exprs[i], env, host, fuel);
        let ghost st2 = state_of(*env);
        proof {
            if atomic {
                assert(is_atom(xs[i as int]));
                lemma_atom_value(exprs@[i as int]@, fr, r);
            }
            assert(step_state(st2) && step_result(r));
        }
        match r {
            Ok(v) => {
                let ghost vv = v@;
                values.push(v);
                assert(values_view(values@) =~= before_vals.push(vv));
                proof {
                    let next = ops.subrange(i as int, ops.len() as int);
                    assert(rest.subrange(1, rest.len() as int) =~= next);
                    assert forall|s1: St, ra: Result<Seq<ValueView>, RLError>|
                        #[trigger] args_loop(next, fuel as nat, st2, values_view(values@), s1, ra)
                        implies args_loop(ops, fuel as nat, s0, Seq::empty(), s1, ra) by {
                        assert(args_loop(rest, fuel as nat, st, before_vals, s1, ra));
                    }
                }
            },
            Err(err) => {
                proof {
                    if atomic {
                        lemma_atom_values_prefix(ops, i as int, fr);
                    }
                    assert(args_loop(rest, fuel as nat, st, before_vals, st2, Err::<Seq<ValueView>, RLError>(err)));
                    assert(step_args(Err::<Seq<ValueView>, RLError>(err)));
                }
                return Err(err);
            },
        }
        i = i + 1;
    }
    assert(ops.subrange(0, i - 1) =~= ops);
    proof {
        let rest = ops.subrange(i - 1, ops.len() as int);
        assert(rest.len() == 0);
        assert(args_loop(rest, fuel as nat, state_of(*env), values_view(values@), state_of(*env), Ok::<Seq<ValueView>, RLError>(values_view(values@))));
        assert(step_args(Ok::<Seq<ValueView>, RLError>(values_view(values@))));
    }
    Ok(Value::Struct(name.clone(), values))
}

/// After the accessors are bound, each field's accessor name holds its
/// accessor, and a key that no accessor has keeps its value.
pub proof fn lemma_with_accessors(
    m: Map<Seq<char>, ValueView>,
    name: Seq<char>,
    fields: Seq<Seq<char>>,
    i: int,
    k: Seq<char>,
)
    requires
        0 <= i < fields.len(),
    ensures
        with_accessors(m, name, fields).contains_key(accessor_name(name, fields[i])),
        with_accessors(m, name, fields)[accessor_name(name, fields[i])] == ValueView::Macro(
            FormView::StructAccessor(name, fields[i]),
        ),
        (forall|j: int| 0 <= j < fields.len() ==> accessor_name(name, #[trigger] fields[j]) != k)
            ==> with_accessors(m, name, fields).contains_key(k) == m.contains_key(k)
            && with_accessors(m, name, fields)[k] == m[k],
    decreases fields.len(),
{
    let last = fields.len() - 1;
    lemma_accessor_names(name, fields, last);
    if i < last {
        lemma_with_accessors(m, name, fields.drop_last(), i, k);
        if fields[i] != fields[last] {
            assert(accessor_name(name, fields[i]) != accessor_name(name, fields[last]));
        }
    } else if fields.len() > 1 {
        lemma_with_accessors(m, name, fields.drop_last(), 0, k);
    }
    if fields.len() == 1 {
        assert(fields.drop_last().len() == 0);
    }
}

} // verus!
