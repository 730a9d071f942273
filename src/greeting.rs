//! The greeting shown by the front end.
use vstd::prelude::*;
use crate::text::push_str;

verus! {

pub const GREETING_START: &'static str = "Hello, ";

pub const GREETING_END: &'static str = "! You've been greeted from Rust!";

/// Greets `name`.
pub fn greet(name: &str) -> (r: String)
    ensures
        r@ == GREETING_START@ + name@ + GREETING_END@,
{
    let mut out = String::new();
    push_str(&mut out, GREETING_START);
    push_str(&mut out, name);
    push_str(&mut out, GREETING_END);
    assert(out@ =~= GREETING_START@ + name@ + GREETING_END@);
    out
}

} // verus!
