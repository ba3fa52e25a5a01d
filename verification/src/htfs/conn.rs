//! A connection: a sequential reader tagged with an identifier and the
//! offset it will read next.

use super::rand_id::RandID;
use crate::text::{decimal, push_decimal, push_str};
use vstd::prelude::*;

verus! {

pub struct Conn<R> {
    pub id: RandID,
    pub inner: R,
    pub offset: u64,
}

impl<R> Conn<R> {
    pub fn new(inner: R, offset: u64, id: RandID) -> (conn: Conn<R>)
        ensures
            conn.inner == inner,
            conn.offset == offset,
            conn.id == id,
    {
        Conn { id, inner, offset }
    }

    /// Accounts for the outcome of a read through this connection: a read
    /// of `n` bytes moves the offset forward by `n`, a failed read leaves it.
    pub fn record_read<E>(&mut self, res: &Result<usize, E>)
        requires
            *res matches Ok(n) ==> old(self).offset + n <= u64::MAX,
        ensures
            final(self).id == old(self).id,
            final(self).inner == old(self).inner,
            final(self).offset == match *res {
                Ok(n) => (old(self).offset + n) as u64,
                Err(_) => old(self).offset,
            },
    {
        match res {
            Ok(n) => {
                self.offset = self.offset + *n as u64;
            },
            Err(_) => {},
        }
    }

    pub open spec fn spec_label(&self) -> Seq<char> {
        "Conn("@ + self.id.spec_label() + " @ "@ + decimal(self.offset as nat) + ")"@
    }

    /// How the connection is shown in logs.
    pub fn label(&self) -> (label: String)
        ensures
            label@ == self.spec_label(),
    {
        let mut s = String::new();
        push_str(&mut s, "Conn(");
        let id = self.id.label();
        push_str(&mut s, id.as_str());
        push_str(&mut s, " @ ");
        push_decimal(&mut s, self.offset);
        push_str(&mut s, ")");
        s
    }
}

} // verus!
