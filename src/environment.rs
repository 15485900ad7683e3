use vstd::prelude::*;
use crate::value::{Value, ValueView, names_view, value_view, copy_names};

verus! {

/// The map that an association list denotes: a later entry for a key
/// overrides an earlier one.
pub open spec fn assoc<V>(keys: Seq<Seq<char>>, vals: Seq<V>) -> Map<Seq<char>, V>
    decreases keys.len(),
{
    if keys.len() == 0 || vals.len() == 0 {
        Map::empty()
    } else {
        assoc(keys.drop_last(), vals.drop_last()).insert(keys.last(), vals.last())
    }
}

pub proof fn lemma_assoc_push<V>(keys: Seq<Seq<char>>, vals: Seq<V>, k: Seq<char>, v: V)
    requires
        keys.len() == vals.len(),
    ensures
        assoc(keys.push(k), vals.push(v)) == assoc(keys, vals).insert(k, v),
{
    assert(keys.push(k).drop_last() =~= keys);
    assert(vals.push(v).drop_last() =~= vals);
}

/// The entry at `i` is the last one for its key, so it is what the map holds.
pub proof fn lemma_assoc_last<V>(keys: Seq<Seq<char>>, vals: Seq<V>, i: int)
    requires
        keys.len() == vals.len(),
        0 <= i < keys.len(),
        forall|j: int| i < j < keys.len() ==> keys[j] != keys[i],
    ensures
        assoc(keys, vals).contains_key(keys[i]),
        assoc(keys, vals)[keys[i]] == vals[i],
    decreases keys.len(),
{
    if i < keys.len() - 1 {
        lemma_assoc_last(keys.drop_last(), vals.drop_last(), i);
    }
}

/// No entry has the key, so the map does not hold it.
pub proof fn lemma_assoc_absent<V>(keys: Seq<Seq<char>>, vals: Seq<V>, k: Seq<char>)
    requires
        keys.len() == vals.len(),
        forall|j: int| 0 <= j < keys.len() ==> keys[j] != k,
    ensures
        !assoc(keys, vals).contains_key(k),
    decreases keys.len(),
{
    if keys.len() > 0 {
        lemma_assoc_absent(keys.drop_last(), vals.drop_last(), k);
    }
}

/// The models of a sequence of values.
pub open spec fn value_views(vals: Seq<Value>) -> Seq<ValueView> {
    Seq::new(vals.len(), |i: int| vals[i]@)
}

/// One frame of bindings from names to values.
pub struct Scope {
    names: Vec<String>,
    values: Vec<Value>,
}

impl Scope {
    pub closed spec fn wf(&self) -> bool {
        self.names@.len() == self.values@.len()
    }

    /// The bindings of the scope.
    pub closed spec fn view(&self) -> Map<Seq<char>, ValueView> {
        assoc(names_view(self.names@), value_views(self.values@))
    }

    pub fn new() -> (r: Scope)
        ensures
            r.wf(),
            r.view() == Map::<Seq<char>, ValueView>::empty(),
    {
        Scope { names: Vec::new(), values: Vec::new() }
    }

    /// Binds `key` to `value`, replacing any earlier binding of `key`.
    pub fn insert(&mut self, key: String, value: Value)
        requires
            old(self).wf(),
        ensures
            final(self).wf(),
            final(self).view() == old(self).view().insert(key@, value@),
    {
        let ghost k = key@;
        let ghost v = value@;
        proof {
            lemma_assoc_push(names_view(self.names@), value_views(self.values@), k, v);
        }
        self.names.push(key);
        self.values.push(value);
        assert(names_view(self.names@) =~= names_view(old(self).names@).push(k));
        assert(value_views(self.values@) =~= value_views(old(self).values@).push(v));
    }

    /// A copy of the value bound to `key`, if any.
    pub fn lookup(&self, key: &String) -> (r: Option<Value>)
        requires
            self.wf(),
        ensures
            r is None <==> !self.view().contains_key(key@),
            r matches Some(v) ==> v@ == self.view()[key@],
    {
        let mut i: usize = self.names.len();
        while i > 0
            invariant
                i <= self.names@.len(),
                self.wf(),
                forall|j: int| i <= j < self.names@.len() ==> self.names@[j]@ != key@,
            decreases i,
        {
            if self.names[i - 1].eq(key) {
                proof {
                    lemma_assoc_last(
                        names_view(self.names@),
                        value_views(self.values@),
                        i - 1,
                    );
                }
                return Some(self.values[i - 1].copy());
            }
            i = i - 1;
        }
        proof {
            lemma_assoc_absent(names_view(self.names@), value_views(self.values@), key@);
        }
        None
    }
}

/// The model of an optional value.
pub open spec fn opt_view(o: Option<Value>) -> Option<ValueView> {
    match o {
        Some(v) => Some(v@),
        None => None,
    }
}

/// Searches the frames below index `n`, innermost first.
pub open spec fn resolve(frames: Seq<Map<Seq<char>, ValueView>>, n: int, key: Seq<char>) -> Option<
    ValueView,
>
    decreases n,
{
    if n <= 0 {
        None
    } else if frames[n - 1].contains_key(key) {
        Some(frames[n - 1][key])
    } else {
        resolve(frames, n - 1, key)
    }
}

/// Finds the position of a field name in a struct's declared field list.
pub trait FieldIndex {
    fn index(&self, key: &String) -> (r: Option<usize>);
}

/// The first position of `key` in `fields`, if it occurs.
pub open spec fn first_index(fields: Seq<Seq<char>>, key: Seq<char>) -> Option<int> {
    if exists|i: int| 0 <= i < fields.len() && fields[i] == key {
        Some(choose|i: int| 0 <= i < fields.len() && fields[i] == key && forall|j: int|
            0 <= j < i ==> fields[j] != key)
    } else {
        None
    }
}

impl FieldIndex for Vec<String> {
    fn index(&self, key: &String) -> (r: Option<usize>)
        ensures
            r is None <==> !(exists|i: int| 0 <= i < self@.len() && self@[i]@ == key@),
            r matches Some(i) ==> i < self@.len() && self@[i as int]@ == key@ && forall|j: int|
                0 <= j < i ==> self@[j]@ != key@,
    {
        let mut i: usize = 0;
        while i < self.len()
            invariant
                i <= self@.len(),
                forall|j: int| 0 <= j < i ==> self@[j]@ != key@,
            decreases self@.len() - i,
        {
            if self[i].eq(key) {
                return Some(i);
            }
            i = i + 1;
        }
        None
    }
}

/// The registry of struct types: type name to declared field names.
pub struct Structs {
    names: Vec<String>,
    fields: Vec<Vec<String>>,
}

pub open spec fn fields_views(fields: Seq<Vec<String>>) -> Seq<Seq<Seq<char>>> {
    Seq::new(fields.len(), |i: int| names_view(fields[i]@))
}

impl Structs {
    pub closed spec fn wf(&self) -> bool {
        self.names@.len() == self.fields@.len()
    }

    pub closed spec fn view(&self) -> Map<Seq<char>, Seq<Seq<char>>> {
        assoc(names_view(self.names@), fields_views(self.fields@))
    }
}

/// The evaluation environment: a base scope, a stack of scopes above it
/// (innermost last, never empty), and the struct registry.
pub struct Environment {
    base: Scope,
    stack: Vec<Scope>,
    structs: Structs,
}

impl Environment {
    pub closed spec fn wf(&self) -> bool {
        &&& self.stack@.len() >= 1
        &&& self.base.wf()
        &&& forall|i: int| 0 <= i < self.stack@.len() ==> #[trigger] self.stack@[i].wf()
        &&& self.structs.wf()
    }

    /// The frames, from the base scope up to the innermost scope.
    pub closed spec fn frames(&self) -> Seq<Map<Seq<char>, ValueView>> {
        seq![self.base.view()] + Seq::new(self.stack@.len(), |i: int| self.stack@[i].view())
    }

    /// The number of scopes above the base scope.
    pub closed spec fn depth(&self) -> nat {
        self.stack@.len()
    }

    /// The struct registry.
    pub closed spec fn registry(&self) -> Map<Seq<char>, Seq<Seq<char>>> {
        self.structs.view()
    }

    pub proof fn lemma_frames_len(&self)
        ensures
            self.frames().len() == self.depth() + 1,
    {
    }

    /// A well-formed environment has a scope open above the base.
    pub proof fn lemma_wf_depth(&self)
        requires
            self.wf(),
        ensures
            self.depth() >= 1,
    {
    }

    /// An environment with an empty base scope, one empty scope above it and
    /// no struct types.
    pub fn new() -> (r: Environment)
        ensures
            r.wf(),
            r.depth() == 1,
            r.frames() == seq![Map::<Seq<char>, ValueView>::empty(), Map::empty()],
            r.registry() == Map::<Seq<char>, Seq<Seq<char>>>::empty(),
    {
        let mut stack: Vec<Scope> = Vec::new();
        stack.push(Scope::new());
        let r = Environment {
            base: Scope::new(),
            stack,
            structs: Structs { names: Vec::new(), fields: Vec::new() },
        };
        assert(r.frames() =~= seq![Map::<Seq<char>, ValueView>::empty(), Map::empty()]);
        r
    }

    /// Registers the struct type `name` with the field names `fields`.
    pub fn add_struct(&mut self, name: String, fields: Vec<String>)
        requires
            old(self).wf(),
        ensures
            final(self).wf(),
            final(self).frames() == old(self).frames(),
            final(self).depth() == old(self).depth(),
            final(self).registry() == old(self).registry().insert(name@, names_view(fields@)),
    {
        let ghost k = name@;
        let ghost f = names_view(fields@);
        proof {
            lemma_assoc_push(names_view(self.structs.names@), fields_views(self.structs.fields@), k, f);
        }
        self.structs.names.push(name);
        self.structs.fields.push(fields);
        assert(names_view(self.structs.names@) =~= names_view(old(self).structs.names@).push(k));
        assert(fields_views(self.structs.fields@) =~= fields_views(old(self).structs.fields@).push(f));
        assert(self.frames() =~= old(self).frames());
    }

    /// The declared field names of the struct type `name`, if it is registered.
    pub fn get_struct(&self, name: &String) -> (r: Option<Vec<String>>)
        requires
            self.wf(),
        ensures
            r is None <==> !self.registry().contains_key(name@),
            r matches Some(f) ==> names_view(f@) == self.registry()[name@],
    {
        let ghost keys = names_view(self.structs.names@);
        let ghost vals = fields_views(self.structs.fields@);
        let mut i: usize = self.structs.names.len();
        while i > 0
            invariant
                i <= self.structs.names@.len(),
                self.wf(),
                keys == names_view(self.structs.names@),
                vals == fields_views(self.structs.fields@),
                forall|j: int| i <= j < self.structs.names@.len() ==> self.structs.names@[j]@ != name@,
            decreases i,
        {
            if self.structs.names[i - 1].eq(name) {
                proof {
                    lemma_assoc_last(keys, vals, i - 1);
                }
                return Some(copy_names(&self.structs.fields[i - 1]));
            }
            i = i - 1;
        }
        proof {
            lemma_assoc_absent(keys, vals, name@);
        }
        None
    }

    /// The innermost scope.
    pub fn cur_scope(&self) -> (r: &Scope)
        requires
            self.wf(),
        ensures
            r.wf(),
            r.view() == self.frames().last(),
    {
        &self.stack[self.stack.len() - 1]
    }

    /// The scope just below the innermost one: the base scope when only one
    /// scope is open.
    pub fn prev_scope(&self) -> (r: &Scope)
        requires
            self.wf(),
        ensures
            r.wf(),
            r.view() == self.frames()[self.frames().len() - 2],
    {
        let len = self.stack.len();
        if len > 1 {
            &self.stack[len - 2]
        } else {
            &self.base
        }
    }

    /// The struct registry.
    pub fn structs(&self) -> (r: &Structs)
        ensures
            r.view() == self.registry(),
    {
        &self.structs
    }

    /// The number of scopes open above the base scope.
    pub fn scope_count(&self) -> (r: usize)
        ensures
            r == self.depth(),
    {
        self.stack.len()
    }

    /// Pushes an empty scope.
    pub fn enter_scope(&mut self)
        requires
            old(self).wf(),
        ensures
            final(self).wf(),
            final(self).depth() == old(self).depth() + 1,
            final(self).frames() == old(self).frames().push(Map::empty()),
            final(self).registry() == old(self).registry(),
    {
        self.stack.push(Scope::new());
        assert(self.frames() =~= old(self).frames().push(Map::empty()));
    }

    /// Pushes `scope`, with its bindings, as the innermost scope.
    pub fn push_scope(&mut self, scope: Scope)
        requires
            old(self).wf(),
            scope.wf(),
        ensures
            final(self).wf(),
            final(self).depth() == old(self).depth() + 1,
            final(self).frames() == old(self).frames().push(scope.view()),
            final(self).registry() == old(self).registry(),
    {
        let ghost m = scope.view();
        self.stack.push(scope);
        assert(self.frames() =~= old(self).frames().push(m));
    }

    /// Pops the innermost scope. The scope just above the base is never popped.
    pub fn exit_scope(&mut self)
        requires
            old(self).wf(),
            old(self).depth() > 1,
        ensures
            final(self).wf(),
            final(self).depth() == old(self).depth() - 1,
            final(self).frames() == old(self).frames().drop_last(),
            final(self).registry() == old(self).registry(),
    {
        let _ = self.stack.pop();
        assert(self.frames() =~= old(self).frames().drop_last());
    }

    /// Binds `key` to `value` in the innermost scope.
    pub fn define(&mut self, key: String, value: Value)
        requires
            old(self).wf(),
        ensures
            final(self).wf(),
            final(self).depth() == old(self).depth(),
            final(self).frames() == old(self).frames().update(
                old(self).frames().len() - 1,
                old(self).frames().last().insert(key@, value@),
            ),
            final(self).registry() == old(self).registry(),
    {
        let ghost k = key@;
        let ghost v = value@;
        let mut top = self.stack.pop().unwrap();
        top.insert(key, value);
        self.stack.push(top);
        assert(self.frames() =~= old(self).frames().update(
            old(self).frames().len() - 1,
            old(self).frames().last().insert(k, v),
        ));
    }

    /// A copy of the value bound to `key` in the innermost scope that binds
    /// it, searching down to the base scope.
    pub fn get(&self, key: &str) -> (r: Option<Value>)
        requires
            self.wf(),
        ensures
            opt_view(r) == resolve(self.frames(), self.frames().len() as int, key@),
    {
        let k = String::from_str(key);
        self.find_below(&k, self.stack.len())
    }

    /// Like `get`, but skipping the innermost scope: the search starts one
    /// scope below it, which is the base scope when only one scope is open.
    pub fn get_super(&self, key: &str) -> (r: Option<Value>)
        requires
            self.wf(),
        ensures
            opt_view(r) == resolve(self.frames(), self.frames().len() - 1, key@),
    {
        let k = String::from_str(key);
        self.find_below(&k, self.stack.len() - 1)
    }

    /// Searches the frames below index `n + 1`: the scopes `stack[..n]`,
    /// innermost first, then the base scope.
    fn find_below(&self, key: &String, n: usize) -> (r: Option<Value>)
        requires
            self.wf(),
            n <= self.stack@.len(),
        ensures
            opt_view(r) == resolve(self.frames(), n + 1, key@),
    {
        let ghost fr = self.frames();
        let mut i: usize = n;
        while i > 0
            invariant
                i <= n <= self.stack@.len(),
                self.wf(),
                fr == self.frames(),
                resolve(fr, n + 1, key@) == resolve(fr, i + 1, key@),
            decreases i,
        {
            assert(fr[i as int] == self.stack@[i - 1].view());
            let found = self.stack[i - 1].lookup(key);
            if found.is_some() {
                return found;
            }
            i = i - 1;
        }
        assert(fr[0] == self.base.view());
        assert(resolve(fr, 0, key@) is None);
        self.base.lookup(key)
    }
}

} // verus!
