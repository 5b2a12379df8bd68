//! A verified virtual machine for a small line-oriented assembly language.
//!
//! The language has three registers (`rax`, `rbx`, `rcx`), a fixed-size
//! stack of typed values, one level of pointer indirection, and label-based
//! call/jump control flow.  The crate parses program text into commands,
//! checks statically that every call/jump target reaches its terminator,
//! and executes programs instruction by instruction.

use vstd::prelude::*;

pub mod address;
pub mod assignment;
pub mod command;
pub mod destination;
pub mod interpreter;
pub mod jump;
pub mod memory;
pub mod register;
pub mod program_error;
pub mod text;

verus! {

/// The element-wise view of a `Result` whose sides both have views.
pub open spec fn res_view<T: View, E: View>(r: Result<T, E>) -> Result<T::V, E::V> {
    match r {
        Ok(t) => Ok(t@),
        Err(e) => Err(e@),
    }
}

/// Pushing onto a vector appends to its element-wise view.
pub proof fn lemma_deep_view_push<T: DeepView>(pre: Vec<T>, post: Vec<T>, x: T)
    requires
        post@ == pre@.push(x),
    ensures
        post.deep_view() =~= pre.deep_view().push(x.deep_view()),
{
    assert forall|i: int| 0 <= i < post.deep_view().len() implies post.deep_view()[i]
        == pre.deep_view().push(x.deep_view())[i] by {
        assert(post.deep_view()[i] == post@[i].deep_view());
        if i < pre@.len() {
            assert(pre.deep_view()[i] == pre@[i].deep_view());
        }
    }
}

/// Popping from a vector drops the last element of its element-wise view.
pub proof fn lemma_deep_view_drop_last<T: DeepView>(pre: Vec<T>, post: Vec<T>)
    requires
        pre@.len() > 0,
        post@ == pre@.drop_last(),
    ensures
        post.deep_view() =~= pre.deep_view().drop_last(),
        pre.deep_view().len() > 0,
{
    assert forall|i: int| 0 <= i < post.deep_view().len() implies post.deep_view()[i]
        == pre.deep_view().drop_last()[i] by {
        assert(post.deep_view()[i] == post@[i].deep_view());
        assert(pre.deep_view()[i] == pre@[i].deep_view());
    }
}

} // verus!
