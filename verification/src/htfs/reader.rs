//! Sequential reading of a shared resource through a pool of open
//! connections.
//!
//! Each read looks in the pool for a connection that stands exactly at the
//! reader's offset and takes it; only when none does is a new ranged request
//! made. After the read the connection goes back to the pool, standing where
//! the read left it, ready for the next read.

use super::conn::Conn;
use std::sync::Arc;
use vstd::prelude::*;

verus! {

/// `i` is the first position in `conns` whose connection stands at `offset`.
pub open spec fn is_first_conn_at<R>(conns: Seq<Conn<R>>, offset: u64, i: int) -> bool {
    &&& 0 <= i < conns.len()
    &&& conns[i].offset == offset
    &&& forall|j: int| 0 <= j < i ==> #[trigger] conns[j].offset != offset
}

/// Some connection in `conns` stands at `offset`.
pub open spec fn has_conn_at<R>(conns: Seq<Conn<R>>, offset: u64) -> bool {
    exists|i: int| 0 <= i < conns.len() && #[trigger] conns[i].offset == offset
}

/// Where a reader or connection at `offset` stands after a read with outcome
/// `res`: `n` bytes further on after reading `n` bytes, unmoved after a
/// failed read.
pub open spec fn offset_after<E>(offset: u64, res: Result<usize, E>) -> u64 {
    match res {
        Ok(n) => (offset + n) as u64,
        Err(_) => offset,
    }
}

/// The open connections to a resource that are not in use.
pub struct Connections<R> {
    conns: Vec<Conn<R>>,
}

impl<R> Connections<R> {
    pub closed spec fn pool(&self) -> Seq<Conn<R>> {
        self.conns@
    }

    pub fn new() -> (c: Connections<R>)
        ensures
            c.pool() == Seq::<Conn<R>>::empty(),
    {
        Connections { conns: Vec::new() }
    }

    pub fn len(&self) -> (n: usize)
        ensures
            n == self.pool().len(),
    {
        self.conns.len()
    }

    /// Takes out the first connection standing at `offset`, if any.
    pub fn take_at(&mut self, offset: u64) -> (conn: Option<Conn<R>>)
        ensures
            conn is Some <==> has_conn_at(old(self).pool(), offset),
            conn is None ==> final(self).pool() == old(self).pool(),
            conn is Some ==> exists|i: int|
                {
                    &&& is_first_conn_at(old(self).pool(), offset, i)
                    &&& conn->0 == old(self).pool()[i]
                    &&& final(self).pool() == old(self).pool().remove(i)
                },
    {
        let len = self.conns.len();
        let mut i: usize = 0;
        while i < len
            invariant
                *self == *old(self),
                len == self.conns@.len(),
                i <= len,
                forall|j: int| 0 <= j < i ==> #[trigger] self.conns@[j].offset != offset,
            decreases len - i,
        {
            if self.conns[i].offset == offset {
                let ghost before = self.conns@;
                let found = self.conns.remove(i);
                assert(is_first_conn_at(before, offset, i as int));
                assert(before == old(self).pool());
                assert(found == before[i as int]);
                assert(self.conns@ == before.remove(i as int));
                return Some(found);
            }
            i = i + 1;
        }
        assert forall|k: int| 0 <= k < self.conns@.len() implies #[trigger] self.conns@[k].offset
            != offset by {}
        None
    }

    /// Puts a connection back, at the end of the pool.
    pub fn put(&mut self, conn: Conn<R>)
        ensures
            final(self).pool() == old(self).pool().push(conn),
    {
        self.conns.push(conn);
    }
}

/// A connection put back after a read is found by the next read that
/// starts where that one stopped: the pool then holds a connection at its
/// offset, and only connections put back earlier can come before it.
pub proof fn lemma_put_back_conn_is_found<R>(pool: Seq<Conn<R>>, conn: Conn<R>)
    ensures
        has_conn_at(pool.push(conn), conn.offset),
        !has_conn_at(pool, conn.offset) ==> is_first_conn_at(
            pool.push(conn),
            conn.offset,
            pool.len() as int,
        ),
{
    let after = pool.push(conn);
    assert(after[pool.len() as int] == conn);
    if !has_conn_at(pool, conn.offset) {
        assert forall|j: int| 0 <= j < pool.len() implies #[trigger] after[j].offset != conn.offset by {
            assert(after[j] == pool[j]);
        }
    }
}

/// The state of one sequential reader: the shared resource, the offset it
/// will read next, and the buffer it reads into.
pub struct ReaderInner<F> {
    pub file: Arc<F>,
    pub offset: u64,
    pub buf: Vec<u8>,
}

impl<F> ReaderInner<F> {
    /// Readies the buffer for a read of `n` bytes: exactly `n` zero bytes.
    pub fn prepare(&mut self, n: usize)
        ensures
            final(self).file == old(self).file,
            final(self).offset == old(self).offset,
            final(self).buf@ == Seq::new(n as nat, |i: int| 0u8),
    {
        self.buf.clear();
        self.buf.reserve(n);
        let mut i: usize = 0;
        while i < n
            invariant
                i <= n,
                self.file == old(self).file,
                self.offset == old(self).offset,
                self.buf@ == Seq::new(i as nat, |k: int| 0u8),
            decreases n - i,
        {
            self.buf.push(0);
            i = i + 1;
        }
    }

    /// Accounts for the outcome of a read: `n` bytes read move the offset
    /// forward by `n`; a failed read leaves it.
    pub fn record_read<E>(&mut self, res: &Result<usize, E>)
        requires
            *res matches Ok(n) ==> old(self).offset + n <= u64::MAX,
        ensures
            final(self).file == old(self).file,
            final(self).buf == old(self).buf,
            final(self).offset == match *res {
                Ok(n) => (old(self).offset + n) as u64,
                Err(_) => old(self).offset,
            },
    {
        match res {
            Ok(n) => {
                self.offset = self.offset + *n as u64;
            },
            Err(_) => {},
        }
    }
}

impl<F> ReaderInner<F> {
    /// Starts a read of `n` bytes: readies the buffer and takes out of
    /// `conns` the first connection standing at the reader's offset. `None`
    /// means that a new connection has to be opened at that offset.
    pub fn start_read<R>(&mut self, n: usize, conns: &mut Connections<R>) -> (conn: Option<Conn<R>>)
        ensures
            final(self).file == old(self).file,
            final(self).offset == old(self).offset,
            final(self).buf@ == Seq::new(n as nat, |i: int| 0u8),
            conn is Some <==> has_conn_at(old(conns).pool(), old(self).offset),
            conn is None ==> final(conns).pool() == old(conns).pool(),
            conn is Some ==> exists|i: int|
                {
                    &&& is_first_conn_at(old(conns).pool(), old(self).offset, i)
                    &&& conn->0 == old(conns).pool()[i]
                    &&& final(conns).pool() == old(conns).pool().remove(i)
                },
    {
        self.prepare(n);
        conns.take_at(self.offset)
    }

    /// Ends a read made through `conn` with outcome `res`: the connection
    /// and the reader both move on by the bytes read, and the connection
    /// goes back to the end of `conns`.
    pub fn end_read<R, E>(&mut self, conns: &mut Connections<R>, conn: Conn<R>, res: &Result<usize, E>)
        requires
            *res matches Ok(n) ==> old(self).offset + n <= u64::MAX && conn.offset + n <= u64::MAX,
        ensures
            final(self).file == old(self).file,
            final(self).buf == old(self).buf,
            final(self).offset == offset_after(old(self).offset, *res),
            final(conns).pool() == old(conns).pool().push(
                Conn { id: conn.id, inner: conn.inner, offset: offset_after(conn.offset, *res) },
            ),
    {
        let mut conn = conn;
        conn.record_read(res);
        conns.put(conn);
        self.record_read(res);
    }
}

/// A reader that keeps reading is served by the connection it read
/// through: after a read through a connection that stood at the reader's
/// offset, whatever its outcome, the pool holds a connection at the offset
/// the reader stands at now.
pub proof fn lemma_next_read_finds_its_connection<R, E>(
    pool: Seq<Conn<R>>,
    conn: Conn<R>,
    reader_offset: u64,
    res: Result<usize, E>,
)
    requires
        conn.offset == reader_offset,
    ensures
        has_conn_at(
            pool.push(Conn { id: conn.id, inner: conn.inner, offset: offset_after(conn.offset, res) }),
            offset_after(reader_offset, res),
        ),
{
    let moved = Conn { id: conn.id, inner: conn.inner, offset: offset_after(conn.offset, res) };
    lemma_put_back_conn_is_found(pool, moved);
}

enum ReaderState<F> {
    Idle(ReaderInner<F>),
    Reading,
}

/// A sequential reader of a shared resource. Each read lends out its inner
/// state to the runtime and takes it back when the read completes.
pub struct Reader2<F> {
    state: ReaderState<F>,
}

impl<F> Reader2<F> {
    pub closed spec fn is_idle(&self) -> bool {
        self.state is Idle
    }

    /// The inner state, while no read is in flight.
    pub closed spec fn spec_inner(&self) -> ReaderInner<F> {
        match self.state {
            ReaderState::Idle(inner) => inner,
            ReaderState::Reading => arbitrary(),
        }
    }

    /// A reader of `file` starting at `offset`, with an empty buffer.
    pub fn new(file: Arc<F>, offset: u64) -> (reader: Reader2<F>)
        ensures
            reader.is_idle(),
            reader.spec_inner().file == file,
            reader.spec_inner().offset == offset,
            reader.spec_inner().buf@ == Seq::<u8>::empty(),
    {
        Reader2 { state: ReaderState::Idle(ReaderInner { file, offset, buf: Vec::new() }) }
    }

    /// Starts a read by lending out the inner state; `None` while a read is
    /// already in flight.
    pub fn begin_read(&mut self) -> (inner: Option<ReaderInner<F>>)
        ensures
            !final(self).is_idle(),
            old(self).is_idle() ==> inner == Some(old(self).spec_inner()),
            !old(self).is_idle() ==> inner is None,
    {
        let mut state = ReaderState::Reading;
        std::mem::swap(&mut self.state, &mut state);
        match state {
            ReaderState::Idle(inner) => Some(inner),
            ReaderState::Reading => None,
        }
    }

    /// Completes the read in flight: takes the inner state back and, when
    /// `n` bytes were read, copies the first `n` bytes of its buffer into
    /// `out`. The read's outcome is handed back as is.
    pub fn finish_read<E>(
        &mut self,
        inner: ReaderInner<F>,
        res: Result<usize, E>,
        out: &mut [u8],
    ) -> (ret: Result<usize, E>)
        requires
            res matches Ok(n) ==> n <= inner.buf@.len() && n <= old(out)@.len(),
        ensures
            final(self).is_idle(),
            final(self).spec_inner() == inner,
            ret == res,
            match res {
                Ok(n) => {
                    &&& final(out)@.len() == old(out)@.len()
                    &&& final(out)@.subrange(0, n as int) == inner.buf@.subrange(0, n as int)
                    &&& final(out)@.subrange(n as int, old(out)@.len() as int) == old(
                        out,
                    )@.subrange(n as int, old(out)@.len() as int)
                },
                Err(_) => final(out)@ == old(out)@,
            },
    {
        match &res {
            Ok(n) => {
                let n = *n;
                let mut i: usize = 0;
                while i < n
                    invariant
                        i <= n,
                        n <= inner.buf@.len(),
                        n <= old(out)@.len(),
                        out@.len() == old(out)@.len(),
                        forall|j: int| 0 <= j < i ==> out@[j] == inner.buf@[j],
                        forall|j: int| n <= j < out@.len() ==> out@[j] == old(out)@[j],
                    decreases n - i,
                {
                    out[i] = inner.buf[i];
                    i = i + 1;
                }
                assert(out@.subrange(0, n as int) =~= inner.buf@.subrange(0, n as int));
                assert(out@.subrange(n as int, out@.len() as int) =~= old(out)@.subrange(
                    n as int,
                    old(out)@.len() as int,
                ));
            },
            Err(_) => {},
        }
        self.state = ReaderState::Idle(inner);
        res
    }
}

} // verus!
