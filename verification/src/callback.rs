//! Shared handles to caller-supplied closures.
//!
//! Closures are opaque to the verifier: a handle can be stored, shared and
//! run, and nothing is stated of what running it does.
use vstd::prelude::*;
use std::rc::Rc;

verus! {

/// A shared handle to a caller-supplied `Fn()` closure.
#[verifier::external_body]
pub struct Callback {
    inner: Rc<dyn Fn()>,
}

/// Moves a closure behind a shared `Rc` handle (`Rc::new`).
#[verifier::external_body]
pub fn callback_from<F: Fn() + 'static>(f: F) -> Callback {
    Callback { inner: Rc::new(f) }
}

/// Shares the handle (`Rc::clone`): the result designates the same closure.
#[verifier::external_body]
fn share_callback(c: &Callback) -> (r: Callback)
    ensures
        r == *c,
{
    Callback { inner: Rc::clone(&c.inner) }
}

impl Clone for Callback {
    fn clone(&self) -> (r: Self)
        ensures
            r == *self,
    {
        share_callback(self)
    }
}

/// Runs the closure once; nothing is stated of its effect.
#[verifier::external_body]
pub fn run_callback(c: &Callback) {
    (c.inner)()
}

} // verus!
