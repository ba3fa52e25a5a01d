//! Status codes and connection handles of the butler library.

use vstd::prelude::*;

verus! {

/// A status code returned by butler: zero is success.
#[derive(Clone, Copy, Debug, PartialEq, Eq, Structural)]
pub struct Status(pub i32);

impl Default for Status {
    fn default() -> (s: Self)
        ensures
            s.0 == 0,
    {
        Status(0)
    }
}

/// Errors of butler calls.
#[derive(Debug, PartialEq, Eq, Structural)]
pub enum Error {
    /// butler reported a failure status.
    Status(Status),
    /// The connection was used after being closed.
    UseOfClosedConnection,
}

impl Status {
    pub open spec fn spec_success(self) -> bool {
        self.0 == 0
    }

    /// Returns true if this status code indicates success.
    pub fn success(self) -> (b: bool)
        ensures
            b == self.spec_success(),
            b == (self.0 == 0),
    {
        self.0 == 0
    }

    /// `value` on success, otherwise the status as an error.
    pub fn check<T>(self, value: T) -> (res: Result<T, Error>)
        ensures
            self.spec_success() ==> res == Ok::<T, Error>(value),
            !self.spec_success() ==> res == Err::<T, Error>(Error::Status(self)),
            self.0 == 0 ==> res == Ok::<T, Error>(value),
            self.0 != 0 ==> res == Err::<T, Error>(Error::Status(self)),
    {
        if self.success() {
            Ok(value)
        } else {
            Err(Error::Status(self))
        }
    }
}

/// A butler connection, known by its identifier until it is closed.
#[derive(Debug)]
pub struct Conn {
    id: Option<i64>,
}

impl Conn {
    /// The identifier while the connection is open.
    pub closed spec fn spec_id(&self) -> Option<i64> {
        self.id
    }

    /// An open connection with the identifier butler assigned.
    pub fn from_id(id: i64) -> (conn: Conn)
        ensures
            conn.spec_id() == Some(id),
    {
        Conn { id: Some(id) }
    }

    pub open spec fn spec_id_result(&self) -> Result<i64, Error> {
        match self.spec_id() {
            Some(id) => Ok(id),
            None => Err(Error::UseOfClosedConnection),
        }
    }

    /// The identifier to send or receive on; a closed connection is refused.
    pub fn id(&self) -> (res: Result<i64, Error>)
        ensures
            res == self.spec_id_result(),
    {
        match self.id {
            Some(id) => Ok(id),
            None => Err(Error::UseOfClosedConnection),
        }
    }

    /// Marks the connection closed and gives the identifier butler must
    /// close, if it was still open.
    pub fn take_id(&mut self) -> (id: Option<i64>)
        ensures
            id == old(self).spec_id(),
            final(self).spec_id() is None,
    {
        let id = self.id;
        self.id = None;
        id
    }
}

/// The outcome of closing: the status butler returned for the close, or,
/// when the connection was already closed, success.
pub open spec fn spec_close_outcome(status: Option<Status>) -> Result<(), Error> {
    match status {
        Some(s) => if s.spec_success() {
            Ok(())
        } else {
            Err(Error::Status(s))
        },
        None => Ok(()),
    }
}

pub fn close_outcome(status: Option<Status>) -> (res: Result<(), Error>)
    ensures
        res == spec_close_outcome(status),
        match status {
            Some(s) => if s.0 != 0 {
                res == Err::<(), Error>(Error::Status(s))
            } else {
                res == Ok::<(), Error>(())
            },
            None => res == Ok::<(), Error>(()),
        },
{
    let status = match status {
        Some(s) => s,
        None => Status::default(),
    };
    status.check(())
}

/// Only the zero status is success: every other code is a failure, which
/// `check` reports as that status and a close reports as its error.
pub proof fn lemma_only_zero_is_success(s: Status)
    ensures
        s.spec_success() <==> s.0 == 0,
        s.0 != 0 ==> spec_close_outcome(Some(s)) == Err::<(), Error>(Error::Status(s)),
        s.0 == 0 ==> spec_close_outcome(Some(s)) == Ok::<(), Error>(()),
{
}

/// Once closed, a connection refuses to send or receive, and closing it
/// again hands butler nothing to close and succeeds.
pub proof fn lemma_closed_connection(conn: Conn)
    requires
        conn.spec_id() is None,
    ensures
        conn.spec_id_result() == Err::<i64, Error>(Error::UseOfClosedConnection),
        spec_close_outcome(None) == Ok::<(), Error>(()),
{
}

} // verus!
