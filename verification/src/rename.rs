//! Canonical re-naming: after simplification the surviving parameters are
//! renamed to a fresh consecutive sequence of identifiers (`a`, `b`, `c`,
//! ...) in order of first occurrence, so the parameter set of a candidate is
//! always a prefix of the fresh-name sequence. Renaming preserves the shape
//! of the tree exactly and never increases the number of distinct
//! parameters.

use vstd::prelude::*;
use vstd::set_lib::lemma_len_subset;
use crate::expr::{
    Expr,
    size,
    pnames,
    wf_expr,
    valid_name,
    param_names,
    first_names,
    lemma_pnames_finite,
};
use crate::generate::{letter_of, MAX_PARAM_NAMES};

verus! {

broadcast use vstd::set::group_set_axioms;

/// The first index of `name` in `names`, if any.
pub open spec fn name_index(names: Seq<u8>, name: u8) -> Option<int>
    decreases names.len(),
{
    if names.len() == 0 {
        None
    } else if names[0] == name {
        Some(0)
    } else {
        match name_index(names.drop_first(), name) {
            Some(i) => Some(i + 1),
            None => None,
        }
    }
}

/// Rename every parameter whose name stands in `names` to the fresh letter
/// of its index there; other parameters stay.
pub open spec fn rename_spec(e: Expr, names: Seq<u8>) -> Expr
    decreases e,
{
    match e {
        Expr::Par { name } => match name_index(names, name) {
            Some(i) => Expr::Par { name: letter_of(i) },
            None => e,
        },
        Expr::Unary { op, arg } => Expr::Unary { op, arg: Box::new(rename_spec(*arg, names)) },
        Expr::Binary { op, lhs, rhs } => Expr::Binary {
            op,
            lhs: Box::new(rename_spec(*lhs, names)),
            rhs: Box::new(rename_spec(*rhs, names)),
        },
        _ => e,
    }
}

proof fn lemma_name_index_some(names: Seq<u8>, name: u8)
    ensures
        name_index(names, name) matches Some(i) ==> 0 <= i < names.len() && names[i] == name,
    decreases names.len(),
{
    if names.len() > 0 && names[0] != name {
        lemma_name_index_some(names.drop_first(), name);
    }
}

proof fn lemma_name_index_first(names: Seq<u8>, name: u8, i: int)
    requires
        0 <= i < names.len(),
        names[i] == name,
        forall|k: int| 0 <= k < i ==> names[k] != name,
    ensures
        name_index(names, name) == Some(i),
    decreases names.len(),
{
    if i != 0 {
        assert(names[0] != name);
        let rest = names.drop_first();
        assert(rest[i - 1] == names[i]);
        assert forall|k: int| 0 <= k < i - 1 implies rest[k] != name by {
            assert(rest[k] == names[k + 1]);
        };
        lemma_name_index_first(rest, name, i - 1);
    }
}

proof fn lemma_name_index_none(names: Seq<u8>, name: u8)
    requires
        forall|k: int| 0 <= k < names.len() ==> names[k] != name,
    ensures
        name_index(names, name) is None,
    decreases names.len(),
{
    if names.len() > 0 {
        let rest = names.drop_first();
        assert forall|k: int| 0 <= k < rest.len() implies rest[k] != name by {
            assert(rest[k] == names[k + 1]);
        };
        lemma_name_index_none(rest, name);
    }
}

proof fn lemma_name_index_contains(names: Seq<u8>, name: u8)
    requires
        names.contains(name),
    ensures
        name_index(names, name) is Some,
    decreases names.len(),
{
    if names[0] != name {
        let i = choose|i: int| 0 <= i < names.len() && names[i] == name;
        let rest = names.drop_first();
        assert(rest[i - 1] == names[i]);
        assert(rest.contains(name));
        lemma_name_index_contains(rest, name);
    }
}

/// What renaming guarantees: the tree's shape is kept exactly, the result is
/// well-formed, and its parameters are drawn from the first `names.len()`
/// fresh letters.
proof fn lemma_rename_props(e: Expr, names: Seq<u8>)
    requires
        wf_expr(e),
        names.len() <= MAX_PARAM_NAMES,
        pnames(e).subset_of(names.to_set()),
    ensures
        wf_expr(rename_spec(e, names)),
        size(rename_spec(e, names)) == size(e),
        pnames(rename_spec(e, names)).subset_of(
            Seq::new(names.len(), |i: int| letter_of(i)).to_set(),
        ),
    decreases e,
{
    let mapped = Seq::new(names.len(), |i: int| letter_of(i));
    match e {
        Expr::Par { name } => {
            assert(names.to_set().contains(name));
            lemma_name_index_contains(names, name);
            lemma_name_index_some(names, name);
            match name_index(names, name) {
                Some(i) => {
                    assert(mapped[i] == letter_of(i));
                    assert(mapped.contains(letter_of(i)));
                    assert(valid_name(letter_of(i)));
                    assert(pnames(rename_spec(e, names)) =~= Set::empty().insert(letter_of(i)));
                }
                None => {
                    assert(false);
                }
            }
        }
        Expr::Unary { op, arg } => {
            lemma_rename_props(*arg, names);
        }
        Expr::Binary { op, lhs, rhs } => {
            assert(pnames(*lhs).subset_of(names.to_set()));
            assert(pnames(*rhs).subset_of(names.to_set()));
            lemma_rename_props(*lhs, names);
            lemma_rename_props(*rhs, names);
        }
        _ => {}
    }
}

/// The first index of `name`, executable form.
fn find_index(names: &Vec<u8>, name: u8) -> (r: Option<usize>)
    ensures
        match r {
            Some(i) => name_index(names@, name) == Some(i as int),
            None => name_index(names@, name) is None,
        },
{
    let mut i: usize = 0;
    while i < names.len()
        invariant
            i <= names@.len(),
            forall|k: int| 0 <= k < i ==> names@[k] != name,
        decreases names@.len() - i,
    {
        if names[i] == name {
            proof {
                lemma_name_index_first(names@, name, i as int);
            }
            return Some(i);
        }
        i += 1;
    }
    proof {
        lemma_name_index_none(names@, name);
    }
    None
}

/// Renaming, executable form.
fn rename_exec(e: &Expr, names: &Vec<u8>) -> (r: Expr)
    requires
        names@.len() <= MAX_PARAM_NAMES,
    ensures
        r == rename_spec(*e, names@),
    decreases *e,
{
    match e {
        Expr::Par { name } => {
            match find_index(names, *name) {
                Some(i) => {
                    proof {
                        lemma_name_index_some(names@, *name);
                    }
                    let fresh = if i <= 22 {
                        97 + (i as u8)
                    } else {
                        98 + (i as u8)
                    };
                    proof {
                        assert(fresh == letter_of(i as int));
                    }
                    Expr::Par { name: fresh }
                }
                None => Expr::Par { name: *name },
            }
        }
        Expr::Unary { op, arg } => Expr::Unary {
            op: *op,
            arg: Box::new(rename_exec(&**arg, names)),
        },
        Expr::Binary { op, lhs, rhs } => Expr::Binary {
            op: *op,
            lhs: Box::new(rename_exec(&**lhs, names)),
            rhs: Box::new(rename_exec(&**rhs, names)),
        },
        Expr::Const { raw } => Expr::Const { raw: *raw },
        Expr::X => Expr::X,
    }
}

/// Rename the parameters of the tree to the fresh consecutive letters
/// `a`, `b`, `c`, ... in order of first occurrence: the result is exactly
/// `rename_spec(e, first_names(e))`. The shape of the tree is kept exactly
/// and the number of distinct parameters never grows.
pub fn canonicalize(e: &Expr) -> (r: Expr)
    requires
        wf_expr(*e),
        pnames(*e).len() <= MAX_PARAM_NAMES,
    ensures
        r == rename_spec(*e, first_names(*e)),
        wf_expr(r),
        size(r) == size(*e),
        pnames(r).finite(),
        pnames(r).len() <= pnames(*e).len(),
{
    let names = param_names(e);
    proof {
        lemma_pnames_finite(*e);
        assert(names@.len() <= MAX_PARAM_NAMES);
        assert(pnames(*e).subset_of(names@.to_set()));
        lemma_rename_props(*e, names@);
        let mapped = Seq::new(names@.len(), |i: int| letter_of(i));
        mapped.lemma_cardinality_of_set();
        lemma_len_subset(pnames(rename_spec(*e, names@)), mapped.to_set());
    }
    rename_exec(e, &names)
}

} // verus!
