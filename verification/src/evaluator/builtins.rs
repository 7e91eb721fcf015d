//! The built-in functions reachable by name from any scope. Each one's
//! behaviour is pinned down by a specification function over value models.
//! Faulty arguments yield error values, never aborts.

use super::object::Builtin;
use super::object::Object;
use super::object::ObjV;
use super::object::clone_objects;
use super::object::group_object_views;
use super::object::lemma_objs_view_index;
use super::object::lemma_objs_view_len;
use super::object::obj_view;
use super::object::objs_view;
use std::io::Write;
use vstd::prelude::*;

verus! {

broadcast use vstd::seq::group_seq_axioms, vstd::std_specs::vec::group_vec_axioms;

/// What `len` returns: the element count of a string or array argument.
pub open spec fn len_v(args: Seq<ObjV>) -> ObjV {
    if args.len() != 1 {
        ObjV::Error("wrong number of arguments"@)
    } else {
        match args[0] {
            ObjV::Str(s) => if s.len() <= i64::MAX {
                ObjV::Integer(s.len() as i64)
            } else {
                ObjV::Error("length exceeds integer range"@)
            },
            ObjV::Array(es) => if es.len() <= i64::MAX {
                ObjV::Integer(es.len() as i64)
            } else {
                ObjV::Error("length exceeds integer range"@)
            },
            _ => ObjV::Error("argument to len not supported"@),
        }
    }
}

/// What `first` returns: the first element of a non-empty array argument.
pub open spec fn first_v(args: Seq<ObjV>) -> ObjV {
    if args.len() != 1 {
        ObjV::Error("wrong number of arguments"@)
    } else {
        match args[0] {
            ObjV::Array(es) => if es.len() > 0 {
                es[0]
            } else {
                ObjV::Error("array is empty"@)
            },
            _ => ObjV::Error("argument to first not supported"@),
        }
    }
}

/// What `last` returns: the last element of a non-empty array argument.
pub open spec fn last_v(args: Seq<ObjV>) -> ObjV {
    if args.len() != 1 {
        ObjV::Error("wrong number of arguments"@)
    } else {
        match args[0] {
            ObjV::Array(es) => if es.len() > 0 {
                es.last()
            } else {
                ObjV::Error("array is empty"@)
            },
            _ => ObjV::Error("argument to last not supported"@),
        }
    }
}

/// What `rest` returns: a new array holding all but the first element of a
/// non-empty array argument.
pub open spec fn rest_v(args: Seq<ObjV>) -> ObjV {
    if args.len() != 1 {
        ObjV::Error("wrong number of arguments"@)
    } else {
        match args[0] {
            ObjV::Array(es) => if es.len() > 0 {
                ObjV::Array(es.drop_first())
            } else {
                ObjV::Error("array is empty"@)
            },
            _ => ObjV::Error("argument to rest not supported"@),
        }
    }
}

/// What `push` returns: a new array extending an array argument by one
/// appended element.
pub open spec fn push_v(args: Seq<ObjV>) -> ObjV {
    if args.len() != 2 {
        ObjV::Error("wrong number of arguments"@)
    } else {
        match args[0] {
            ObjV::Array(es) => ObjV::Array(es.push(args[1])),
            _ => ObjV::Error("argument to push not supported"@),
        }
    }
}

/// What a built-in call returns. `puts` writes its arguments as a side
/// effect and always returns the null value.
pub open spec fn builtin_apply(k: Builtin, args: Seq<ObjV>) -> ObjV {
    match k {
        Builtin::Len => len_v(args),
        Builtin::First => first_v(args),
        Builtin::Last => last_v(args),
        Builtin::Rest => rest_v(args),
        Builtin::Push => push_v(args),
        Builtin::Puts => ObjV::Null,
    }
}

/// The length of a string or array, as an integer value.
pub fn len(args: Vec<Object>) -> (r: Object)
    ensures
        r.deep_view() == len_v(args.deep_view()),
{
    proof {
        broadcast use group_object_views;

        assert(args.deep_view() =~= objs_view(args@));
    }
    if args.len() != 1 {
        return Object::Error("wrong number of arguments".to_owned());
    }
    proof {
        lemma_objs_view_index(args@, 0);
    }
    match &args[0] {
        Object::Str(x) => {
            let n = x.as_str().unicode_len();
            if n as u64 <= i64::MAX as u64 {
                Object::Integer(n as i64)
            } else {
                Object::Error("length exceeds integer range".to_owned())
            }
        },
        Object::Array(x) => {
            proof {
                lemma_objs_view_len(x@);
            }
            let n = x.len();
            if n as u64 <= i64::MAX as u64 {
                Object::Integer(n as i64)
            } else {
                Object::Error("length exceeds integer range".to_owned())
            }
        },
        _ => Object::Error("argument to len not supported".to_owned()),
    }
}

/// The first element of a non-empty array.
pub fn first(args: Vec<Object>) -> (r: Object)
    ensures
        r.deep_view() == first_v(args.deep_view()),
{
    broadcast use group_object_views;

    proof {
        assert(args.deep_view() =~= objs_view(args@));
    }
    if args.len() != 1 {
        return Object::Error("wrong number of arguments".to_owned());
    }
    proof {
        lemma_objs_view_index(args@, 0);
    }
    match &args[0] {
        Object::Array(x) => {
            proof {
                lemma_objs_view_len(x@);
            }
            if x.len() > 0 {
                proof {
                    lemma_objs_view_index(x@, 0);
                }
                x[0].clone()
            } else {
                Object::Error("array is empty".to_owned())
            }
        },
        _ => Object::Error("argument to first not supported".to_owned()),
    }
}

/// The last element of a non-empty array.
pub fn last(args: Vec<Object>) -> (r: Object)
    ensures
        r.deep_view() == last_v(args.deep_view()),
{
    broadcast use group_object_views;

    proof {
        assert(args.deep_view() =~= objs_view(args@));
    }
    if args.len() != 1 {
        return Object::Error("wrong number of arguments".to_owned());
    }
    proof {
        lemma_objs_view_index(args@, 0);
    }
    match &args[0] {
        Object::Array(x) => {
            proof {
                lemma_objs_view_len(x@);
            }
            if x.len() > 0 {
                proof {
                    lemma_objs_view_index(x@, x@.len() - 1);
                }
                x[x.len() - 1].clone()
            } else {
                Object::Error("array is empty".to_owned())
            }
        },
        _ => Object::Error("argument to last not supported".to_owned()),
    }
}

/// A new array holding all but the first element of a non-empty array.
pub fn rest(args: Vec<Object>) -> (r: Object)
    ensures
        r.deep_view() == rest_v(args.deep_view()),
{
    broadcast use group_object_views;

    proof {
        assert(args.deep_view() =~= objs_view(args@));
    }
    if args.len() != 1 {
        return Object::Error("wrong number of arguments".to_owned());
    }
    match &args[0] {
        Object::Array(x) => {
            if x.len() > 0 {
                let mut out: Vec<Object> = Vec::new();
                let mut i: usize = 1;
                while i < x.len()
                    invariant
                        1 <= i <= x@.len(),
                        out@.len() == i - 1,
                        forall|j: int|
                            0 <= j < i - 1 ==> #[trigger] out@[j].deep_view() == x@[j
                                + 1].deep_view(),
                    decreases x@.len() - i,
                {
                    out.push(x[i].clone());
                    i = i + 1;
                }
                proof {
                    broadcast use group_object_views;

                    assert forall|j: int| 0 <= j < out@.len() implies objs_view(out@)[j]
                        == objs_view(x@).drop_first()[j] by {
                        lemma_objs_view_index(out@, j);
                        lemma_objs_view_index(x@, j + 1);
                        assert(out@[j].deep_view() == x@[j + 1].deep_view());
                    }
                    assert(objs_view(out@) =~= objs_view(x@).drop_first());
                }
                Object::Array(out)
            } else {
                Object::Error("array is empty".to_owned())
            }
        },
        _ => Object::Error("argument to rest not supported".to_owned()),
    }
}

/// A new array extending an array by one appended element.
pub fn push(args: Vec<Object>) -> (r: Object)
    ensures
        r.deep_view() == push_v(args.deep_view()),
{
    broadcast use group_object_views;

    proof {
        assert(args.deep_view() =~= objs_view(args@));
    }
    if args.len() != 2 {
        return Object::Error("wrong number of arguments".to_owned());
    }
    match &args[0] {
        Object::Array(x) => {
            let mut result = clone_objects(x);
            let ghost pre = result@;
            result.push(args[1].clone());
            proof {
                assert(result@.drop_last() =~= pre);
                assert(objs_view(result@) == objs_view(pre).push(result@.last().deep_view()));
                assert(objs_view(result@) == objs_view(x@).push(args@[1].deep_view()));
            }
            Object::Array(result)
        },
        _ => Object::Error("argument to push not supported".to_owned()),
    }
}

/// Relies on `writeln!` over `std::io::stdout`: writes one line of text to
/// the standard output channel.
#[verifier::external_body]
fn print_line(s: &String) {
    let mut out = std::io::stdout();
    let _ = writeln!(out, "{}", s);
}

/// Writes each argument's display-formatted text, one per line, to standard
/// output, and returns the null value.
pub fn puts(args: Vec<Object>) -> (r: Object)
    ensures
        r.deep_view() == ObjV::Null,
{
    let mut i: usize = 0;
    while i < args.len()
        decreases args@.len() - i,
    {
        let text = args[i].display_text();
        print_line(&text);
        i = i + 1;
    }
    Object::Null
}

/// Runs the built-in function `k` on `args`.
pub(crate) fn apply_builtin(k: Builtin, args: Vec<Object>) -> (r: Object)
    ensures
        r.deep_view() == builtin_apply(k, args.deep_view()),
{
    match k {
        Builtin::Len => len(args),
        Builtin::First => first(args),
        Builtin::Last => last(args),
        Builtin::Rest => rest(args),
        Builtin::Push => push(args),
        Builtin::Puts => puts(args),
    }
}

} // verus!
