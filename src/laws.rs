//! Properties that relate several parts of the engine.
use vstd::prelude::*;
use crate::environment::{lemma_assoc_last, resolve};
use crate::error::RLError;
use crate::eval::{bare_name, has_super_prefix, lookup_ident, spec_bind, super_prefix};
use crate::eval::{atom_value, is_atom};
use crate::forms::{accessor_name, constructor_name, let_scope, predicate_name, spec_field, spec_is_instance};
use crate::structs::{lemma_accessor_names, lemma_predicate_not_constructor, lemma_with_accessors, struct_scope};
use crate::value::FormView;
use crate::sexpr::ExprView;
use crate::value::ValueView;

verus! {

/// A closure of two parameters without the variadic marker binds exactly
/// two arguments; any other number fails with an exact-arity error that
/// expects two and reports the number found.
pub proof fn law_arity_exact(params: Seq<Seq<char>>, args: Seq<ValueView>)
    requires
        params.len() == 2,
        args.len() <= usize::MAX,
    ensures
        args.len() == 2 ==> spec_bind(params, args, false) is Ok,
        args.len() != 2 ==> spec_bind(params, args, false) == Err::<
            Map<Seq<char>, ValueView>,
            RLError,
        >(RLError::ArityExact(2, args.len() as usize)),
{
}

/// A closure with parameters `(a b rest...)` binds `a` and `b` to the first
/// two arguments and `rest` to the list of all the others, empty when there
/// are none; with fewer than two arguments it fails with an at-least-arity
/// error that expects two.
pub proof fn law_variadic_binding(params: Seq<Seq<char>>, args: Seq<ValueView>)
    requires
        params.len() == 3,
        params[0] != params[1] && params[0] != params[2] && params[1] != params[2],
        args.len() <= usize::MAX,
    ensures
        args.len() < 2 ==> spec_bind(params, args, true) == Err::<
            Map<Seq<char>, ValueView>,
            RLError,
        >(RLError::ArityAtLeast(2, args.len() as usize)),
        args.len() >= 2 ==> (spec_bind(params, args, true) matches Ok(m) && m.contains_key(params[0])
            && m[params[0]] == args[0] && m.contains_key(params[1]) && m[params[1]] == args[1]
            && m.contains_key(params[2]) && m[params[2]] == ValueView::List(
            args.subrange(2, args.len() as int),
        )),
{
    if args.len() >= 2 {
        let vals = args.subrange(0, 2).push(ValueView::List(args.subrange(2, args.len() as int)));
        lemma_assoc_last(params, vals, 0);
        lemma_assoc_last(params, vals, 1);
        lemma_assoc_last(params, vals, 2);
    }
}

/// With the innermost two frames both binding `x`, the super-prefixed
/// identifier resolves to the binding of the second-innermost frame, and the
/// plain identifier to that of the innermost.
pub proof fn law_super_scope(frames: Seq<Map<Seq<char>, ValueView>>, x: Seq<char>)
    requires
        frames.len() >= 2,
        frames[frames.len() - 1].contains_key(x),
        frames[frames.len() - 2].contains_key(x),
    ensures
        lookup_ident(frames, super_prefix() + x) == Some(frames[frames.len() - 2][x]),
        !has_super_prefix(x) ==> lookup_ident(frames, x) == Some(frames[frames.len() - 1][x]),
{
    let name = super_prefix() + x;
    assert(name.subrange(0, 7) =~= super_prefix());
    assert(name.subrange(7, name.len() as int) =~= x);
    assert(bare_name(name) == x);
}

/// An instance built from values for each declared field gives back, through
/// the field's accessor, the value given for it, and is an instance of its
/// own type; a number is an instance of no type.
pub proof fn law_struct_fields(
    name: Seq<char>,
    fields: Seq<Seq<char>>,
    vals: Seq<ValueView>,
    i: int,
    n: u64,
)
    requires
        vals.len() == fields.len(),
        0 <= i < fields.len(),
        forall|j: int| 0 <= j < i ==> fields[j] != fields[i],
    ensures
        spec_field(ValueView::Struct(name, vals), fields, fields[i]) == Some(vals[i]),
        spec_is_instance(ValueView::Struct(name, vals), name),
        !spec_is_instance(ValueView::Num(n), name),
{
    crate::structs::lemma_first_index(fields, fields[i], i);
}

/// `let` binds in order, each binding seeing the ones before it: in
/// `(let ((a v) (b a)) ...)`, `b` is bound to the value of `v`, as `a` is.
pub proof fn law_sequential_let(
    frames: Seq<Map<Seq<char>, ValueView>>,
    a: Seq<char>,
    b: Seq<char>,
    v: ExprView,
)
    requires
        a != b,
        !has_super_prefix(a),
        is_atom(v),
        atom_value(v, frames.push(Map::empty())) is Some,
    ensures
        let_scope(
            seq![
                ExprView::List(seq![ExprView::Ident(a, false), v]),
                ExprView::List(seq![ExprView::Ident(b, false), ExprView::Ident(a, false)]),
            ],
            frames,
        ) matches Ok(m) && m.contains_key(a) && m.contains_key(b) && m[a] == atom_value(
            v,
            frames.push(Map::empty()),
        )->Some_0 && m[b] == m[a],
{
    let first = ExprView::List(seq![ExprView::Ident(a, false), v]);
    let second = ExprView::List(seq![ExprView::Ident(b, false), ExprView::Ident(a, false)]);
    let bs = seq![first, second];
    let x = atom_value(v, frames.push(Map::empty()))->Some_0;
    assert(bs.drop_last() =~= seq![first]);
    assert(seq![first].drop_last() =~= Seq::<ExprView>::empty());
    let m1 = Map::<Seq<char>, ValueView>::empty().insert(a, x);
    assert(let_scope(Seq::<ExprView>::empty(), frames) == Ok::<Map<Seq<char>, ValueView>, crate::forms::Failure>(Map::<Seq<char>, ValueView>::empty()));
    assert(seq![ExprView::Ident(a, false), v][1] == v);
    assert(let_scope(seq![first], frames) == Ok::<Map<Seq<char>, ValueView>, crate::forms::Failure>(m1));
    let fr = frames.push(m1);
    assert(fr[fr.len() - 1] == m1);
    assert(resolve(fr, fr.len() as int, a) == Some(x));
}

/// After `(define-struct Name (field ...))` succeeds, the innermost frame
/// resolves `make-Name`, `Name?` and each `Name-field` to their operators and
/// the registry holds the fields; an instance built from one value per field
/// gives back through a field's accessor the value given for it, the
/// predicate recognises it, and rejects a number.
pub proof fn law_struct_round_trip(
    frames: Seq<Map<Seq<char>, ValueView>>,
    reg: Map<Seq<char>, Seq<Seq<char>>>,
    name: Seq<char>,
    fields: Seq<Seq<char>>,
    vals: Seq<ValueView>,
    i: int,
    n: u64,
)
    requires
        frames.len() >= 1,
        vals.len() == fields.len(),
        0 <= i < fields.len(),
        forall|j: int| 0 <= j < i ==> fields[j] != fields[i],
        accessor_name(name, fields[i]) != constructor_name(name),
    ensures
        ({
            let f2 = frames.update(frames.len() - 1, struct_scope(frames.last(), name, fields));
            let reg2 = reg.insert(name, fields);
            &&& resolve(f2, f2.len() as int, constructor_name(name)) == Some(
                ValueView::Macro(FormView::StructConstructor(name)),
            )
            &&& resolve(f2, f2.len() as int, predicate_name(name)) == Some(
                ValueView::Macro(FormView::StructPredicate(name)),
            )
            &&& resolve(f2, f2.len() as int, accessor_name(name, fields[i])) == Some(
                ValueView::Macro(FormView::StructAccessor(name, fields[i])),
            )
            &&& reg2.contains_key(name) && reg2[name].len() == vals.len()
            &&& spec_field(ValueView::Struct(name, vals), reg2[name], fields[i]) == Some(vals[i])
            &&& spec_is_instance(ValueView::Struct(name, vals), name)
            &&& !spec_is_instance(ValueView::Num(n), name)
        }),
{
    let top1 = frames.last().insert(predicate_name(name), ValueView::Macro(FormView::StructPredicate(name)));
    let f2 = frames.update(frames.len() - 1, struct_scope(frames.last(), name, fields));
    lemma_predicate_not_constructor(name);
    lemma_with_accessors(top1, name, fields, i, predicate_name(name));
    assert forall|j: int| 0 <= j < fields.len() implies accessor_name(name, #[trigger] fields[j])
        != predicate_name(name) by {
        lemma_accessor_names(name, fields, j);
    }
    assert(f2[f2.len() - 1] == struct_scope(frames.last(), name, fields));
    crate::structs::lemma_first_index(fields, fields[i], i);
}

} // verus!
