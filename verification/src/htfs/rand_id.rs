//! Short random identifiers that tell connections apart in logs.

use crate::text::{hex_lower, push_hex, push_str};
use vstd::prelude::*;

verus! {

/// A random 32-bit identifier. The randomness comes from the caller's
/// generator; this type only carries and renders it.
#[derive(Clone, Copy, Debug, PartialEq, Eq, Structural)]
pub struct RandID(pub u32);

impl RandID {
    pub fn new(value: u32) -> (id: RandID)
        ensures
            id.0 == value,
    {
        RandID(value)
    }

    pub open spec fn spec_label(&self) -> Seq<char> {
        "["@ + hex_lower(self.0 as nat) + "]"@
    }

    /// How the identifier is shown: lower-case hexadecimal in brackets.
    pub fn label(&self) -> (label: String)
        ensures
            label@ == self.spec_label(),
    {
        let mut s = String::new();
        push_str(&mut s, "[");
        push_hex(&mut s, self.0 as u64);
        push_str(&mut s, "]");
        s
    }
}

} // verus!
