//! The runtime value model shared by the tree-walking evaluator and the
//! virtual machine, together with its mathematical model `ObjV`, the lexical
//! environment, and the value-level helpers for hashes.

use crate::parser::ast::Block;
use crate::text::int_text;
use crate::text::int_to_text;
use crate::parser::ast::Ident;
use crate::parser::ast::Params;
use crate::parser::ast::StmtV;
use crate::parser::ast::block_view;
use crate::parser::ast::clone_block;
use crate::parser::ast::clone_params;
use crate::parser::ast::ident_view;
use crate::parser::ast::param_views;
use vstd::prelude::*;

verus! {

broadcast use vstd::seq::group_seq_axioms, vstd::std_specs::vec::group_vec_axioms;

/// A native function reachable by name from any scope.
#[derive(Clone, Copy, Debug, PartialEq, Eq, Structural)]
pub enum Builtin {
    Len,
    First,
    Last,
    Rest,
    Push,
    Puts,
}

/// A runtime value. Arrays, hashes and closures are plain values: growing an
/// array produces a new value, so aliasing never leaks mutation.
#[derive(Debug, PartialEq)]
pub enum Object {
    Integer(i64),
    Ret(Box<Object>),
    Boolean(bool),
    Str(String),
    Null,
    Error(String),
    Closure(Params, Block, Environment),
    Builtin(Builtin),
    Array(Vec<Object>),
    Hash(Vec<(Object, Object)>),
}

/// One lexical scope: a mapping from identifiers to values. A later binding
/// of the same name shadows the earlier one.
#[derive(Debug, PartialEq)]
pub struct Environment {
    pub bindings: Vec<(Ident, Object)>,
}

/// The model of an environment: name/value pairs in binding order.
pub type EnvV = Seq<(Seq<char>, ObjV)>;

/// The model of a runtime value.
#[verifier::ext_equal]
pub enum ObjV {
    Integer(i64),
    Ret(Box<ObjV>),
    Boolean(bool),
    Str(Seq<char>),
    Null,
    Error(Seq<char>),
    Closure(Seq<Seq<char>>, Seq<StmtV>, EnvV),
    Builtin(Builtin),
    Array(Seq<ObjV>),
    Hash(Seq<(ObjV, ObjV)>),
}

/// The model of a runtime value.
pub open spec fn obj_view(o: Object) -> ObjV
    decreases o, 0int,
{
    match o {
        Object::Integer(x) => ObjV::Integer(x),
        Object::Ret(b) => ObjV::Ret(Box::new(obj_view(*b))),
        Object::Boolean(b) => ObjV::Boolean(b),
        Object::Str(s) => ObjV::Str(s@),
        Object::Null => ObjV::Null,
        Object::Error(s) => ObjV::Error(s@),
        Object::Closure(ps, b, env) => ObjV::Closure(
            param_views(ps@),
            block_view(b@),
            bindings_view(env.bindings@),
        ),
        Object::Builtin(k) => ObjV::Builtin(k),
        Object::Array(es) => ObjV::Array(objs_view(es@)),
        Object::Hash(ps) => ObjV::Hash(obj_pairs_view(ps@)),
    }
}

/// The models of a list of values.
pub open spec fn objs_view(os: Seq<Object>) -> Seq<ObjV>
    decreases os, 1int,
{
    if os.len() == 0 {
        Seq::empty()
    } else {
        objs_view(os.drop_last()).push(obj_view(os.last()))
    }
}

/// The models of a list of key/value pairs.
pub open spec fn obj_pairs_view(ps: Seq<(Object, Object)>) -> Seq<(ObjV, ObjV)>
    decreases ps, 1int,
{
    if ps.len() == 0 {
        Seq::empty()
    } else {
        obj_pairs_view(ps.drop_last()).push(
            (obj_view(ps.last().0), obj_view(ps.last().1)),
        )
    }
}

/// The models of an environment's bindings.
pub open spec fn bindings_view(bs: Seq<(Ident, Object)>) -> EnvV
    decreases bs, 1int,
{
    if bs.len() == 0 {
        Seq::empty()
    } else {
        bindings_view(bs.drop_last()).push(
            (ident_view(bs.last().0), obj_view(bs.last().1)),
        )
    }
}

impl DeepView for Object {
    type V = ObjV;

    open spec fn deep_view(&self) -> ObjV {
        obj_view(*self)
    }
}

impl DeepView for Environment {
    type V = EnvV;

    open spec fn deep_view(&self) -> EnvV {
        bindings_view(self.bindings@)
    }
}

pub broadcast proof fn lemma_objs_view_len(os: Seq<Object>)
    ensures
        #[trigger] objs_view(os).len() == os.len(),
    decreases os.len(),
{
    if os.len() > 0 {
        lemma_objs_view_len(os.drop_last());
    }
}

pub broadcast proof fn lemma_objs_view_index(os: Seq<Object>, i: int)
    requires
        0 <= i < os.len(),
    ensures
        #[trigger] objs_view(os)[i] == obj_view(os[i]),
    decreases os.len(),
{
    lemma_objs_view_len(os.drop_last());
    if i < os.len() - 1 {
        lemma_objs_view_index(os.drop_last(), i);
    }
}

pub broadcast proof fn lemma_obj_pairs_view_len(ps: Seq<(Object, Object)>)
    ensures
        #[trigger] obj_pairs_view(ps).len() == ps.len(),
    decreases ps.len(),
{
    if ps.len() > 0 {
        lemma_obj_pairs_view_len(ps.drop_last());
    }
}

pub broadcast proof fn lemma_obj_pairs_view_index(ps: Seq<(Object, Object)>, i: int)
    requires
        0 <= i < ps.len(),
    ensures
        #[trigger] obj_pairs_view(ps)[i] == (obj_view(ps[i].0), obj_view(ps[i].1)),
    decreases ps.len(),
{
    lemma_obj_pairs_view_len(ps.drop_last());
    if i < ps.len() - 1 {
        lemma_obj_pairs_view_index(ps.drop_last(), i);
    }
}

pub broadcast proof fn lemma_bindings_view_len(bs: Seq<(Ident, Object)>)
    ensures
        #[trigger] bindings_view(bs).len() == bs.len(),
    decreases bs.len(),
{
    if bs.len() > 0 {
        lemma_bindings_view_len(bs.drop_last());
    }
}

pub broadcast proof fn lemma_bindings_view_index(bs: Seq<(Ident, Object)>, i: int)
    requires
        0 <= i < bs.len(),
    ensures
        #[trigger] bindings_view(bs)[i] == (ident_view(bs[i].0), obj_view(bs[i].1)),
    decreases bs.len(),
{
    lemma_bindings_view_len(bs.drop_last());
    if i < bs.len() - 1 {
        lemma_bindings_view_index(bs.drop_last(), i);
    }
}

/// The broadcast group tying the value-list models to their elements.
pub broadcast group group_object_views {
    lemma_objs_view_len,
    lemma_objs_view_index,
    lemma_obj_pairs_view_len,
    lemma_obj_pairs_view_index,
    lemma_bindings_view_len,
    lemma_bindings_view_index,
}

/// The size of a value model: at least one, and strictly larger than the
/// sizes of its parts.
pub open spec fn obj_size(o: ObjV) -> nat
    decreases o, 0int,
{
    match o {
        ObjV::Ret(b) => 1 + obj_size(*b),
        ObjV::Closure(_, _, env) => 1 + env_size(env, 0),
        ObjV::Array(es) => 1 + objs_size(es, 0),
        ObjV::Hash(ps) => 1 + obj_pairs_size(ps, 0),
        _ => 1,
    }
}

/// The summed size of the values of `os` from position `i` on.
pub open spec fn objs_size(os: Seq<ObjV>, i: int) -> nat
    decreases os, os.len() - i,
{
    if 0 <= i < os.len() {
        obj_size(os[i]) + objs_size(os, i + 1)
    } else {
        0
    }
}

/// The summed size of the pairs of `ps` from position `i` on.
pub open spec fn obj_pairs_size(ps: Seq<(ObjV, ObjV)>, i: int) -> nat
    decreases ps, ps.len() - i,
{
    if 0 <= i < ps.len() {
        obj_size(ps[i].0) + obj_size(ps[i].1) + obj_pairs_size(ps, i + 1)
    } else {
        0
    }
}

/// The summed size of the bound values of `env` from position `i` on.
pub open spec fn env_size(env: EnvV, i: int) -> nat
    decreases env, env.len() - i,
{
    if 0 <= i < env.len() {
        obj_size(env[i].1) + env_size(env, i + 1)
    } else {
        0
    }
}

pub proof fn lemma_objs_size_at(os: Seq<ObjV>, j: int, i: int)
    requires
        0 <= j <= i < os.len(),
    ensures
        obj_size(os[i]) <= objs_size(os, j),
    decreases i - j,
{
    if j < i {
        lemma_objs_size_at(os, j + 1, i);
    }
}

pub proof fn lemma_obj_pairs_size_at(ps: Seq<(ObjV, ObjV)>, j: int, i: int)
    requires
        0 <= j <= i < ps.len(),
    ensures
        obj_size(ps[i].0) <= obj_pairs_size(ps, j),
        obj_size(ps[i].1) <= obj_pairs_size(ps, j),
    decreases i - j,
{
    if j < i {
        lemma_obj_pairs_size_at(ps, j + 1, i);
    }
}

pub proof fn lemma_env_size_at(env: EnvV, j: int, i: int)
    requires
        0 <= j <= i < env.len(),
    ensures
        obj_size(env[i].1) <= env_size(env, j),
    decreases i - j,
{
    if j < i {
        lemma_env_size_at(env, j + 1, i);
    }
}

impl Clone for Object {
    /// Cloning preserves the value's model.
    #[verifier::rlimit(50)]
    fn clone(&self) -> (res: Self)
        ensures
            res.deep_view() == self.deep_view(),
        decreases obj_size(self.deep_view()), 3int,
    {
        match self {
            Object::Integer(x) => Object::Integer(*x),
            Object::Ret(b) => Object::Ret(Box::new((&**b).clone())),
            Object::Boolean(b) => Object::Boolean(*b),
            Object::Str(s) => Object::Str(s.clone()),
            Object::Null => Object::Null,
            Object::Error(s) => Object::Error(s.clone()),
            Object::Closure(ps, b, env) => Object::Closure(
                clone_params(ps),
                clone_block(b),
                env.clone(),
            ),
            Object::Builtin(k) => Object::Builtin(*k),
            Object::Array(es) => Object::Array(clone_objects(es)),
            Object::Hash(ps) => Object::Hash(clone_obj_pairs(ps)),
        }
    }
}

impl Clone for Environment {
    /// Cloning preserves the environment's model; this is how a closure
    /// snapshots the scope visible at its definition.
    fn clone(&self) -> (res: Self)
        ensures
            res.deep_view() == self.deep_view(),
        decreases env_size(self.deep_view(), 0), 4int,
    {
        let mut out: Vec<(Ident, Object)> = Vec::new();
        let mut i: usize = 0;
        while i < self.bindings.len()
            invariant
                i <= self.bindings@.len(),
                out@.len() == i,
                forall|j: int|
                    0 <= j < i ==> #[trigger] out@[j].0.deep_view()
                        == self.bindings@[j].0.deep_view() && out@[j].1.deep_view()
                        == self.bindings@[j].1.deep_view(),
            decreases self.bindings@.len() - i,
        {
            proof {
                broadcast use group_object_views;

                lemma_env_size_at(bindings_view(self.bindings@), 0, i as int);
            }
            let name = self.bindings[i].0.clone();
            let value = self.bindings[i].1.clone();
            out.push((name, value));
            i = i + 1;
        }
        proof {
            lemma_bindings_view_len(out@);
            lemma_bindings_view_len(self.bindings@);
            assert forall|j: int| 0 <= j < out@.len() implies bindings_view(out@)[j]
                == bindings_view(self.bindings@)[j] by {
                lemma_bindings_view_index(out@, j);
                lemma_bindings_view_index(self.bindings@, j);
                assert(out@[j].0.deep_view() == self.bindings@[j].0.deep_view());
                assert(out@[j].1.deep_view() == self.bindings@[j].1.deep_view());
            }
            assert(bindings_view(out@) =~= bindings_view(self.bindings@));
        }
        Environment { bindings: out }
    }
}

/// Copies a list of values, preserving its model.
pub fn clone_objects(os: &Vec<Object>) -> (res: Vec<Object>)
    ensures
        res.deep_view() == os.deep_view(),
        objs_view(res@) == objs_view(os@),
    decreases objs_size(objs_view(os@), 0), 4int,
{
    let mut out: Vec<Object> = Vec::new();
    let mut i: usize = 0;
    while i < os.len()
        invariant
            i <= os@.len(),
            out@.len() == i,
            forall|j: int| 0 <= j < i ==> #[trigger] out@[j].deep_view() == os@[j].deep_view(),
        decreases os@.len() - i,
    {
        proof {
            broadcast use group_object_views;

            lemma_objs_size_at(objs_view(os@), 0, i as int);
        }
        out.push(os[i].clone());
        i = i + 1;
    }
    proof {
        lemma_objs_view_len(out@);
        lemma_objs_view_len(os@);
        assert forall|j: int| 0 <= j < out@.len() implies objs_view(out@)[j] == objs_view(
            os@,
        )[j] by {
            lemma_objs_view_index(out@, j);
            lemma_objs_view_index(os@, j);
            assert(out@[j].deep_view() == os@[j].deep_view());
        }
        assert(objs_view(out@) =~= objs_view(os@));
        assert(out.deep_view() =~= os.deep_view());
    }
    out
}

/// Copies a list of key/value pairs, preserving its model.
pub fn clone_obj_pairs(ps: &Vec<(Object, Object)>) -> (res: Vec<(Object, Object)>)
    ensures
        obj_pairs_view(res@) == obj_pairs_view(ps@),
    decreases obj_pairs_size(obj_pairs_view(ps@), 0), 4int,
{
    let mut out: Vec<(Object, Object)> = Vec::new();
    let mut i: usize = 0;
    while i < ps.len()
        invariant
            i <= ps@.len(),
            out@.len() == i,
            forall|j: int|
                0 <= j < i ==> #[trigger] out@[j].0.deep_view() == ps@[j].0.deep_view()
                    && out@[j].1.deep_view() == ps@[j].1.deep_view(),
        decreases ps@.len() - i,
    {
        proof {
            broadcast use group_object_views;

            lemma_obj_pairs_size_at(obj_pairs_view(ps@), 0, i as int);
        }
        let k = ps[i].0.clone();
        let v = ps[i].1.clone();
        out.push((k, v));
        i = i + 1;
    }
    proof {
        lemma_obj_pairs_view_len(out@);
        lemma_obj_pairs_view_len(ps@);
        assert forall|j: int| 0 <= j < out@.len() implies obj_pairs_view(out@)[j]
            == obj_pairs_view(ps@)[j] by {
            lemma_obj_pairs_view_index(out@, j);
            lemma_obj_pairs_view_index(ps@, j);
            assert(out@[j].0.deep_view() == ps@[j].0.deep_view());
            assert(out@[j].1.deep_view() == ps@[j].1.deep_view());
        }
        assert(obj_pairs_view(out@) =~= obj_pairs_view(ps@));
    }
    out
}

/// Whether a value may serve as a hash key: only integers, booleans and
/// strings are hashable.
pub open spec fn is_hashable(o: ObjV) -> bool {
    match o {
        ObjV::Integer(_) => true,
        ObjV::Boolean(_) => true,
        ObjV::Str(_) => true,
        _ => false,
    }
}

/// Equality of hash keys: defined over the hashable values, false whenever
/// either side is not hashable.
pub open spec fn key_eq(a: ObjV, b: ObjV) -> bool {
    match (a, b) {
        (ObjV::Integer(x), ObjV::Integer(y)) => x == y,
        (ObjV::Boolean(x), ObjV::Boolean(y)) => x == y,
        (ObjV::Str(x), ObjV::Str(y)) => x == y,
        _ => false,
    }
}

/// The value stored under the first key equal to `k`, if any.
pub open spec fn hash_get_v(ps: Seq<(ObjV, ObjV)>, k: ObjV) -> Option<ObjV>
    decreases ps.len(),
{
    if ps.len() == 0 {
        None
    } else if key_eq(ps.first().0, k) {
        Some(ps.first().1)
    } else {
        hash_get_v(ps.drop_first(), k)
    }
}

/// The pair list after binding `k` to `v`: an existing entry with an equal
/// key is overwritten in place, otherwise the pair is appended.
pub open spec fn hash_insert_v(ps: Seq<(ObjV, ObjV)>, k: ObjV, v: ObjV) -> Seq<(ObjV, ObjV)>
    decreases ps.len(),
{
    if ps.len() == 0 {
        seq![(k, v)]
    } else if key_eq(ps.first().0, k) {
        seq![(k, v)] + ps.drop_first()
    } else {
        seq![ps.first()] + hash_insert_v(ps.drop_first(), k, v)
    }
}

impl Object {
    /// Whether this value may serve as a hash key.
    pub fn hashable(&self) -> (r: bool)
        ensures
            r == is_hashable(self.deep_view()),
    {
        match self {
            Object::Integer(_) => true,
            Object::Boolean(_) => true,
            Object::Str(_) => true,
            _ => false,
        }
    }

    /// Whether this value equals `other` as a hash key.
    pub fn key_equals(&self, other: &Object) -> (r: bool)
        ensures
            r == key_eq(self.deep_view(), other.deep_view()),
    {
        match (self, other) {
            (Object::Integer(x), Object::Integer(y)) => *x == *y,
            (Object::Boolean(x), Object::Boolean(y)) => *x == *y,
            (Object::Str(x), Object::Str(y)) => *x == *y,
            _ => false,
        }
    }
}

/// Looks up `k` among the pairs of a hash value, returning the value stored
/// under the first equal key.
pub fn hash_get<'a>(ps: &'a Vec<(Object, Object)>, k: &Object) -> (r: Option<&'a Object>)
    ensures
        match r {
            Some(o) => hash_get_v(obj_pairs_view(ps@), k.deep_view()) == Some(o.deep_view()),
            None => hash_get_v(obj_pairs_view(ps@), k.deep_view()) is None,
        },
{
    let ghost psv = obj_pairs_view(ps@);
    proof {
        broadcast use group_object_views;

        assert(psv.subrange(0, psv.len() as int) =~= psv);
    }
    let mut i: usize = 0;
    while i < ps.len()
        invariant
            i <= ps@.len(),
            psv == obj_pairs_view(ps@),
            psv.len() == ps@.len(),
            hash_get_v(psv, k.deep_view()) == hash_get_v(
                psv.subrange(i as int, psv.len() as int),
                k.deep_view(),
            ),
        decreases ps@.len() - i,
    {
        let hit = ps[i].0.key_equals(k);
        proof {
            broadcast use group_object_views;

            let tail = psv.subrange(i as int, psv.len() as int);
            assert(psv[i as int] == (ps@[i as int].0.deep_view(), ps@[i as int].1.deep_view()));
            assert(tail.first() == psv[i as int]);
            assert(tail.drop_first() =~= psv.subrange(i + 1, psv.len() as int));
        }
        if hit {
            return Some(&ps[i].1);
        }
        i = i + 1;
    }
    proof {
        assert(psv.subrange(i as int, psv.len() as int).len() == 0);
    }
    None
}

/// Binds `k` to `v` among the pairs of a hash value, overwriting the first
/// entry with an equal key or appending a new one.
pub fn hash_insert(ps: &mut Vec<(Object, Object)>, k: Object, v: Object)
    ensures
        obj_pairs_view(final(ps)@) == hash_insert_v(
            obj_pairs_view(old(ps)@),
            k.deep_view(),
            v.deep_view(),
        ),
{
    let ghost psv = obj_pairs_view(ps@);
    proof {
        broadcast use group_object_views;

        assert(psv.subrange(0, psv.len() as int) =~= psv);
        assert(psv.subrange(0, 0) + hash_insert_v(psv, k.deep_view(), v.deep_view())
            =~= hash_insert_v(psv, k.deep_view(), v.deep_view()));
    }
    let mut i: usize = 0;
    while i < ps.len()
        invariant
            i <= ps@.len(),
            psv == obj_pairs_view(ps@),
            psv.len() == ps@.len(),
            obj_pairs_view(ps@) == psv,
            ps@.len() == old(ps)@.len(),
            psv == obj_pairs_view(old(ps)@),
            hash_insert_v(psv, k.deep_view(), v.deep_view()) == psv.subrange(0, i as int)
                + hash_insert_v(
                psv.subrange(i as int, psv.len() as int),
                k.deep_view(),
                v.deep_view(),
            ),
        decreases ps@.len() - i,
    {
        let hit = ps[i].0.key_equals(&k);
        proof {
            broadcast use group_object_views;

            let tail = psv.subrange(i as int, psv.len() as int);
            assert(psv[i as int] == (ps@[i as int].0.deep_view(), ps@[i as int].1.deep_view()));
            assert(tail.first() == psv[i as int]);
            assert(tail.drop_first() =~= psv.subrange(i + 1, psv.len() as int));
        }
        if hit {
            let ghost kv = k.deep_view();
            let ghost vv = v.deep_view();
            ps.set(i, (k, v));
            proof {
                broadcast use group_object_views;

                let tail = psv.subrange(i as int, psv.len() as int);
                assert(hash_insert_v(tail, kv, vv) == seq![(kv, vv)] + tail.drop_first());
                lemma_obj_pairs_view_len(ps@);
                assert forall|j: int| 0 <= j < ps@.len() implies obj_pairs_view(ps@)[j]
                    == (psv.subrange(0, i as int) + (seq![(kv, vv)] + psv.subrange(
                    i + 1,
                    psv.len() as int,
                )))[j] by {
                    lemma_obj_pairs_view_index(ps@, j);
                }
                assert(obj_pairs_view(ps@) =~= psv.subrange(0, i as int) + (seq![(kv, vv)]
                    + psv.subrange(i + 1, psv.len() as int)));
                assert(psv.subrange(0, i as int) + (seq![(kv, vv)] + psv.subrange(
                    i + 1,
                    psv.len() as int,
                )) =~= psv.subrange(0, i as int) + hash_insert_v(tail, kv, vv));
            }
            return ;
        }
        i = i + 1;
        proof {
            assert(psv.subrange(0, i - 1).push(psv[i - 1]) =~= psv.subrange(0, i as int));
            assert(psv.subrange(0, i - 1) + (seq![psv[i - 1]] + hash_insert_v(
                psv.subrange(i as int, psv.len() as int),
                k.deep_view(),
                v.deep_view(),
            )) =~= psv.subrange(0, i as int) + hash_insert_v(
                psv.subrange(i as int, psv.len() as int),
                k.deep_view(),
                v.deep_view(),
            ));
        }
    }
    let ghost kv = k.deep_view();
    let ghost vv = v.deep_view();
    ps.push((k, v));
    proof {
        broadcast use group_object_views;

        assert(psv.subrange(i as int, psv.len() as int).len() == 0);
        lemma_obj_pairs_view_len(ps@);
        assert forall|j: int| 0 <= j < ps@.len() implies obj_pairs_view(ps@)[j] == (psv.subrange(
            0,
            i as int,
        ) + seq![(kv, vv)])[j] by {
            lemma_obj_pairs_view_index(ps@, j);
        }
        assert(obj_pairs_view(ps@) =~= psv.subrange(0, i as int) + seq![(kv, vv)]);
    }
}

/// The value bound to `name`, where a later binding shadows an earlier one.
pub open spec fn env_lookup(env: EnvV, name: Seq<char>) -> Option<ObjV>
    decreases env.len(),
{
    if env.len() == 0 {
        None
    } else if env.last().0 == name {
        Some(env.last().1)
    } else {
        env_lookup(env.drop_last(), name)
    }
}

impl Environment {
    /// A scope with no bindings.
    pub fn new() -> (e: Environment)
        ensures
            e.deep_view() == Seq::<(Seq<char>, ObjV)>::empty(),
    {
        Environment { bindings: Vec::new() }
    }

    /// Binds `name` to `value`; the new binding shadows any earlier one of
    /// the same name.
    pub fn insert(&mut self, name: Ident, value: Object)
        ensures
            final(self).deep_view() == old(self).deep_view().push(
                (name.deep_view(), value.deep_view()),
            ),
    {
        self.bindings.push((name, value));
        proof {
            assert(self.bindings@.drop_last() =~= old(self).bindings@);
            assert(self.bindings@.last() == (name, value));
        }
    }

    /// The value bound to `name`, if any.
    pub fn get(&self, name: &Ident) -> (r: Option<&Object>)
        ensures
            match r {
                Some(o) => env_lookup(self.deep_view(), name.deep_view()) == Some(o.deep_view()),
                None => env_lookup(self.deep_view(), name.deep_view()) is None,
            },
    {
        let ghost envv = bindings_view(self.bindings@);
        proof {
            broadcast use group_object_views;

            assert(envv.subrange(0, envv.len() as int) =~= envv);
        }
        let mut i: usize = self.bindings.len();
        while i > 0
            invariant
                i <= self.bindings@.len(),
                envv == bindings_view(self.bindings@),
                envv.len() == self.bindings@.len(),
                env_lookup(envv, name.deep_view()) == env_lookup(
                    envv.subrange(0, i as int),
                    name.deep_view(),
                ),
            decreases i,
        {
            i = i - 1;
            let hit = ident_eq(&self.bindings[i].0, name);
            proof {
                broadcast use group_object_views;

                let head = envv.subrange(0, i + 1);
                assert(envv[i as int] == (
                    self.bindings@[i as int].0.deep_view(),
                    self.bindings@[i as int].1.deep_view(),
                ));
                assert(head.last() == envv[i as int]);
                assert(head.drop_last() =~= envv.subrange(0, i as int));
            }
            if hit {
                return Some(&self.bindings[i].1);
            }
        }
        proof {
            assert(envv.subrange(0, 0).len() == 0);
        }
        None
    }
}

/// Whether two identifiers carry the same name.
pub fn ident_eq(a: &Ident, b: &Ident) -> (r: bool)
    ensures
        r == (a.deep_view() == b.deep_view()),
{
    a.0 == b.0
}

/// The display text of a value: integers and booleans as their literal text,
/// strings raw, arrays in brackets with comma-space separators, hashes in
/// braces with colon-separated pairs, errors with a leading marker, the null
/// value as `null`. Closures and native functions display as fixed words.
pub open spec fn obj_display(o: ObjV) -> Seq<char>
    decreases obj_size(o), 0int,
{
    match o {
        ObjV::Integer(x) => int_text(x as int),
        ObjV::Boolean(b) => if b {
            "true"@
        } else {
            "false"@
        },
        ObjV::Null => "null"@,
        ObjV::Str(s) => s,
        ObjV::Error(m) => "ERROR "@ + m,
        ObjV::Ret(b) => obj_display(*b),
        ObjV::Builtin(_) => "builtin"@,
        ObjV::Closure(_, _, _) => "closure"@,
        ObjV::Array(es) => "["@ + items_text(es, 0) + "]"@,
        ObjV::Hash(ps) => "{"@ + pair_items_text(ps, 0) + "}"@,
    }
}

/// The display text of the array elements from position `i` on, separated by
/// comma and space.
pub open spec fn items_text(es: Seq<ObjV>, i: int) -> Seq<char>
    decreases objs_size(es, i), 1int,
{
    if 0 <= i < es.len() {
        if i == es.len() - 1 {
            obj_display(es[i])
        } else {
            obj_display(es[i]) + ", "@ + items_text(es, i + 1)
        }
    } else {
        Seq::empty()
    }
}

/// The display text of the hash entries from position `i` on: each key and
/// value separated by colon and space, entries separated by comma and space.
pub open spec fn pair_items_text(ps: Seq<(ObjV, ObjV)>, i: int) -> Seq<char>
    decreases obj_pairs_size(ps, i), 1int,
{
    if 0 <= i < ps.len() {
        if i == ps.len() - 1 {
            obj_display(ps[i].0) + ": "@ + obj_display(ps[i].1)
        } else {
            obj_display(ps[i].0) + ": "@ + obj_display(ps[i].1) + ", "@ + pair_items_text(
                ps,
                i + 1,
            )
        }
    } else {
        Seq::empty()
    }
}

impl Object {
    /// Builds the display text of this value.
    pub fn display_text(&self) -> (s: String)
        ensures
            s@ == obj_display(self.deep_view()),
        decreases obj_size(self.deep_view()), 0int,
    {
        match self {
            Object::Integer(x) => int_to_text(*x),
            Object::Boolean(b) => {
                if *b {
                    String::from_str("true")
                } else {
                    String::from_str("false")
                }
            },
            Object::Null => String::from_str("null"),
            Object::Str(s) => s.clone(),
            Object::Error(m) => {
                let mut s = String::from_str("ERROR ");
                s.append(m.as_str());
                s
            },
            Object::Ret(b) => (&**b).display_text(),
            Object::Builtin(_) => String::from_str("builtin"),
            Object::Closure(_, _, _) => String::from_str("closure"),
            Object::Array(es) => {
                let mut s = String::from_str("[");
                let items = display_items(es, 0);
                s.append(items.as_str());
                s.append("]");
                s
            },
            Object::Hash(ps) => {
                let mut s = String::from_str("{");
                let items = display_pair_items(ps, 0);
                s.append(items.as_str());
                s.append("}");
                s
            },
        }
    }
}

/// Builds the display text of the array elements from position `i` on.
fn display_items(es: &Vec<Object>, i: usize) -> (s: String)
    ensures
        s@ == items_text(objs_view(es@), i as int),
    decreases objs_size(objs_view(es@), i as int), 1int,
{
    broadcast use group_object_views;

    if i < es.len() {
        proof {
            lemma_objs_size_at(objs_view(es@), i as int, i as int);
        }
        let mut s = es[i].display_text();
        if i + 1 < es.len() {
            s.append(", ");
            let rest = display_items(es, i + 1);
            s.append(rest.as_str());
        }
        s
    } else {
        String::new()
    }
}

/// Builds the display text of the hash entries from position `i` on.
fn display_pair_items(ps: &Vec<(Object, Object)>, i: usize) -> (s: String)
    ensures
        s@ == pair_items_text(obj_pairs_view(ps@), i as int),
    decreases obj_pairs_size(obj_pairs_view(ps@), i as int), 1int,
{
    broadcast use group_object_views;

    if i < ps.len() {
        proof {
            lemma_obj_pairs_size_at(obj_pairs_view(ps@), i as int, i as int);
        }
        let mut s = ps[i].0.display_text();
        s.append(": ");
        let value = ps[i].1.display_text();
        s.append(value.as_str());
        if i + 1 < ps.len() {
            s.append(", ");
            let rest = display_pair_items(ps, i + 1);
            s.append(rest.as_str());
        }
        s
    } else {
        String::new()
    }
}

} // verus!
