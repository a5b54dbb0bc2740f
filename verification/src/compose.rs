//! Composition of pipeline stages as plain functions.
//!
//! The query pipeline chains stages whose output feeds the next stage's input;
//! these helpers apply one stage, or two in sequence, and carry each stage's
//! contract through the chain.

use vstd::prelude::*;

verus! {

/// Applies one stage to a value.
pub fn apply<A, B, F: FnOnce(A) -> B>(x: A, f: F) -> (r: B)
    requires
        f.requires((x,)),
    ensures
        f.ensures((x,), r),
{
    f(x)
}

/// Applies two stages in sequence: the result of `f` feeds `g`.
pub fn compose<A, B, C, F: FnOnce(A) -> B, G: FnOnce(B) -> C>(x: A, f: F, g: G) -> (r: C)
    requires
        f.requires((x,)),
        forall|y: B| f.ensures((x,), y) ==> g.requires((y,)),
    ensures
        exists|y: B| f.ensures((x,), y) && g.ensures((y,), r),
{
    let y = f(x);
    g(y)
}

} // verus!
