//! `ReadAtWrapper`: random access on top of a source that can only open
//! sequential readers at a given offset.
//!
//! Opening a reader is expensive (for an HTTP resource it is a new ranged
//! request), so readers ("heads") are kept in a small pool once a read is
//! done. A later read that starts exactly where a pooled head stands takes
//! that head instead of opening a new one. Returned heads go to the back of
//! the pool and, once the pool reaches `max_heads`, the front one is dropped:
//! a cache with least-recently-used eviction.

use super::ReadAt;
use std::collections::VecDeque;
use std::sync::Arc;
use vstd::prelude::*;

verus! {

/// A source that can open a sequential reader starting at any offset.
///
/// Opening is asynchronous and is performed by the runtime; this trait names
/// the kind of reader it opens.
pub trait GetReaderAt {
    type Reader;
}

/// A sequential reader together with the offset it will read next.
pub struct Head<R> {
    pub offset: u64,
    pub reader: R,
}

impl<R> Head<R> {
    pub fn new(offset: u64, reader: R) -> (head: Head<R>)
        ensures
            head.offset == offset,
            head.reader == reader,
    {
        Head { offset, reader }
    }

    /// Records that `n` more bytes were read through this head.
    pub fn advance(&mut self, n: usize)
        requires
            old(self).offset + n <= u64::MAX,
        ensures
            final(self).offset == old(self).offset + n,
            final(self).reader == old(self).reader,
    {
        self.offset = self.offset + n as u64;
    }
}

/// Pool size used by `ReadAtWrapper::new`.
pub const DEFAULT_MAX_HEADS: usize = 2;

/// Some head in `pool` stands at `offset`.
pub open spec fn holds_offset<R>(pool: Seq<Head<R>>, offset: u64) -> bool {
    exists|i: int| 0 <= i < pool.len() && #[trigger] pool[i].offset == offset
}

/// `i` is the first position in `pool` whose head stands at `offset`.
pub open spec fn is_first_at<R>(pool: Seq<Head<R>>, offset: u64, i: int) -> bool {
    &&& 0 <= i < pool.len()
    &&& pool[i].offset == offset
    &&& forall|j: int| 0 <= j < i ==> #[trigger] pool[j].offset != offset
}

/// The pool after `head` is given back: appended at the back, and the front
/// (least recently returned) head dropped once the pool reaches `max_heads`.
pub open spec fn after_return<R>(pool: Seq<Head<R>>, max_heads: nat, head: Head<R>) -> Seq<Head<R>> {
    let pushed = pool.push(head);
    if pushed.len() >= max_heads {
        pushed.drop_first()
    } else {
        pushed
    }
}

/// Random access built from a `GetReaderAt` source and a pool of heads.
pub struct ReadAtWrapper<Source: GetReaderAt> {
    heads: VecDeque<Head<Source::Reader>>,
    source: Arc<Source>,
    size: u64,
    max_heads: usize,
}

impl<Source: GetReaderAt> ReadAtWrapper<Source> {
    /// The pooled heads, front (oldest) first.
    pub closed spec fn pool(&self) -> Seq<Head<Source::Reader>> {
        self.heads@
    }

    /// How many heads the pool may reach before its oldest is dropped.
    pub closed spec fn spec_max_heads(&self) -> nat {
        self.max_heads as nat
    }

    pub closed spec fn spec_source(&self) -> Arc<Source> {
        self.source
    }

    pub closed spec fn spec_size_of(&self) -> u64 {
        self.size
    }

    /// The pool never holds `max_heads` heads between operations.
    pub closed spec fn inv(&self) -> bool {
        &&& 1 <= self.max_heads
        &&& self.heads@.len() < self.max_heads
    }

    /// A wrapper over `source` of the given `size`, whose pool starts with
    /// `initial_head` if one is given (a reader already open at an offset).
    pub fn new(
        source: Arc<Source>,
        size: u64,
        initial_head: Option<(u64, Source::Reader)>,
    ) -> (wrapper: Self)
        ensures
            wrapper.inv(),
            wrapper.spec_source() == source,
            wrapper.spec_size_of() == size,
            wrapper.spec_size() == size,
            wrapper.spec_max_heads() == DEFAULT_MAX_HEADS,
            wrapper.pool() == match initial_head {
                Some((offset, reader)) => seq![Head { offset, reader }],
                None => Seq::<Head<Source::Reader>>::empty(),
            },
    {
        let mut heads: VecDeque<Head<Source::Reader>> = VecDeque::new();
        match initial_head {
            Some((offset, reader)) => {
                heads.push_back(Head { offset, reader });
            },
            None => {},
        }
        ReadAtWrapper { heads, source, size, max_heads: DEFAULT_MAX_HEADS }
    }

    /// The source new heads are opened from.
    pub fn source(&self) -> (source: &Arc<Source>)
        ensures
            *source == self.spec_source(),
    {
        &self.source
    }

    pub fn max_heads(&self) -> (max_heads: usize)
        ensures
            max_heads == self.spec_max_heads(),
    {
        self.max_heads
    }

    /// Takes out of the pool the first head that stands at `offset`, if any.
    /// `None` means a new head must be opened at `offset`.
    pub fn borrow_head(&mut self, offset: u64) -> (head: Option<Head<Source::Reader>>)
        requires
            old(self).inv(),
        ensures
            final(self).inv(),
            final(self).spec_source() == old(self).spec_source(),
            final(self).spec_size_of() == old(self).spec_size_of(),
            final(self).spec_max_heads() == old(self).spec_max_heads(),
            head is Some <==> holds_offset(old(self).pool(), offset),
            head is None ==> final(self).pool() == old(self).pool(),
            head is Some ==> exists|i: int|
                {
                    &&& is_first_at(old(self).pool(), offset, i)
                    &&& head->0 == old(self).pool()[i]
                    &&& final(self).pool() == old(self).pool().remove(i)
                },
    {
        let len = self.heads.len();
        let mut i: usize = 0;
        while i < len
            invariant
                *self == *old(self),
                old(self).inv(),
                len == self.heads@.len(),
                i <= len,
                forall|j: int| 0 <= j < i ==> #[trigger] self.heads@[j].offset != offset,
            decreases len - i,
        {
            if self.heads[i].offset == offset {
                let ghost before = self.heads@;
                let found = self.heads.remove(i);
                assert(is_first_at(before, offset, i as int));
                return found;
            }
            i = i + 1;
        }
        assert forall|k: int| 0 <= k < self.heads@.len() implies #[trigger] self.heads@[k].offset
            != offset by {}
        None
    }

    /// Gives a head back to the pool after a successful read.
    pub fn return_head(&mut self, head: Head<Source::Reader>)
        requires
            old(self).inv(),
        ensures
            final(self).inv(),
            final(self).spec_source() == old(self).spec_source(),
            final(self).spec_size_of() == old(self).spec_size_of(),
            final(self).spec_max_heads() == old(self).spec_max_heads(),
            final(self).pool() == after_return(
                old(self).pool(),
                old(self).spec_max_heads(),
                head,
            ),
    {
        self.heads.push_back(head);
        if self.heads.len() >= self.max_heads {
            self.heads.pop_front();
        }
    }
}

impl<Source: GetReaderAt> ReadAt for ReadAtWrapper<Source> {
    closed spec fn spec_size(&self) -> u64 {
        self.size
    }

    fn size(&self) -> (size: u64) {
        self.size
    }
}

/// After a head is returned to a pool of at least two heads, a read at the
/// head's offset finds a pooled head there: a read that continues where the
/// previous one stopped reuses an open reader.
pub proof fn lemma_returned_offset_is_pooled<R>(pool: Seq<Head<R>>, max_heads: nat, head: Head<R>)
    requires
        2 <= max_heads,
        pool.len() < max_heads,
    ensures
        holds_offset(after_return(pool, max_heads, head), head.offset),
        after_return(pool, max_heads, head).last() == head,
        after_return(pool, max_heads, head).len() < max_heads,
{
    let after = after_return(pool, max_heads, head);
    assert(after[after.len() - 1] == head);
}

/// With the default pool size, the returned head is the only pooled head,
/// so the next read at its offset takes exactly that head back.
pub proof fn lemma_default_pool_keeps_last_head<R>(pool: Seq<Head<R>>, head: Head<R>)
    requires
        pool.len() < DEFAULT_MAX_HEADS,
    ensures
        after_return(pool, DEFAULT_MAX_HEADS as nat, head) == seq![head],
        is_first_at(after_return(pool, DEFAULT_MAX_HEADS as nat, head), head.offset, 0),
{
    let after = after_return(pool, DEFAULT_MAX_HEADS as nat, head);
    assert(after =~= seq![head]);
}

/// With the default pool size, a read finds a pooled head only where the
/// last read stopped: a read that continues there reuses that head, and a
/// read anywhere else (such as repeating the last read, which moved the head
/// forward) opens a new one.
pub proof fn lemma_default_pool_serves_only_last_offset<R>(pool: Seq<Head<R>>, head: Head<R>, offset: u64)
    requires
        pool.len() < DEFAULT_MAX_HEADS,
    ensures
        holds_offset(after_return(pool, DEFAULT_MAX_HEADS as nat, head), offset) <==> offset
            == head.offset,
{
    lemma_default_pool_keeps_last_head(pool, head);
    let after = after_return(pool, DEFAULT_MAX_HEADS as nat, head);
    if offset == head.offset {
        assert(after[0].offset == offset);
    }
}

/// The first matching position is unique, so the head `borrow_head` takes
/// is determined by the pool and the offset.
pub proof fn lemma_first_at_unique<R>(pool: Seq<Head<R>>, offset: u64, i: int, k: int)
    requires
        is_first_at(pool, offset, i),
        is_first_at(pool, offset, k),
    ensures
        i == k,
{
    if i < k {
        assert(pool[i].offset != offset);
    } else if k < i {
        assert(pool[k].offset != offset);
    }
}

} // verus!
