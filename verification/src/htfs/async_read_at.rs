//! Random access over sources that open sequential readers, and a reader
//! confined to one section of such a source.

use crate::text::{decimal, push_decimal, push_str};
use vstd::prelude::*;

verus! {

/// Random access to a sized resource. Reads are asynchronous and driven by
/// the runtime; the size is stated here.
pub trait AsyncReadAt {
    spec fn spec_size(&self) -> u64;

    fn size(&self) -> (size: u64)
        ensures
            size == self.spec_size(),
    ;
}

/// A sized source that opens a sequential reader at any offset (the opening
/// itself is asynchronous and performed by the runtime).
pub trait GetReaderAt {
    type Reader;

    spec fn spec_size(&self) -> u64;

    fn size(&self) -> (size: u64)
        ensures
            size == self.spec_size(),
    ;
}

/// Conversion into random access.
pub trait IntoAsyncReadAt {
    type Out: AsyncReadAt;

    fn into_async_read_at(self) -> Self::Out;
}

/// Random access over a `GetReaderAt` source: every read opens a reader at
/// the requested offset.
pub struct Wrapper<R> {
    inner: R,
}

impl<R> Wrapper<R> {
    pub closed spec fn spec_inner(&self) -> R {
        self.inner
    }

    pub fn inner(&self) -> (inner: &R)
        ensures
            *inner == self.spec_inner(),
    {
        &self.inner
    }
}

impl<T: GetReaderAt> IntoAsyncReadAt for T {
    type Out = Wrapper<T>;

    fn into_async_read_at(self) -> (out: Wrapper<T>)
        ensures
            out.spec_inner() == self,
            AsyncReadAt::spec_size(&out) == GetReaderAt::spec_size(&self),
    {
        Wrapper { inner: self }
    }
}

impl<R: GetReaderAt> AsyncReadAt for Wrapper<R> {
    closed spec fn spec_size(&self) -> u64 {
        self.inner.spec_size()
    }

    fn size(&self) -> (size: u64) {
        self.inner.size()
    }
}

/// Why a section could not be carved out of a resource.
#[derive(Clone, Debug, PartialEq, Eq, Structural)]
pub enum AsyncSectionReaderError {
    OffsetTooLarge { passed: u64, max: u64 },
    LenTooLarge { passed: u64, max: u64 },
}

impl AsyncSectionReaderError {
    pub open spec fn spec_message(&self) -> Seq<char> {
        match *self {
            AsyncSectionReaderError::OffsetTooLarge { passed, max } => "offset too large: passed "@
                + decimal(passed as nat) + ", but maximum is "@ + decimal(max as nat),
            AsyncSectionReaderError::LenTooLarge { passed, max } => "length too large: passed "@
                + decimal(passed as nat) + ", but maximum is "@ + decimal(max as nat),
        }
    }

    /// The human-readable description of the error.
    pub fn message(&self) -> (msg: String)
        ensures
            msg@ == self.spec_message(),
    {
        let mut s = String::new();
        match self {
            AsyncSectionReaderError::OffsetTooLarge { passed, max } => {
                push_str(&mut s, "offset too large: passed ");
                push_decimal(&mut s, *passed);
                push_str(&mut s, ", but maximum is ");
                push_decimal(&mut s, *max);
            },
            AsyncSectionReaderError::LenTooLarge { passed, max } => {
                push_str(&mut s, "length too large: passed ");
                push_decimal(&mut s, *passed);
                push_str(&mut s, ", but maximum is ");
                push_decimal(&mut s, *max);
            },
        }
        s
    }
}

/// Size of the buffer a section reader reads through.
pub const SECTION_BUFFER_SIZE: usize = 1024;

enum SectionState<R> {
    /// No read in flight: the source and the read buffer are at hand.
    Idle(R, Vec<u8>),
    /// The source and buffer are lent to a read of at most `read_size` bytes;
    /// `lent` is the source that was lent out.
    Reading { read_size: usize, lent: Ghost<R> },
}

/// What a section reader hands out to perform one read: the source, the
/// read buffer, the absolute offset to read at and how many bytes to ask for.
pub struct ReadRequest<R> {
    pub inner: R,
    pub buf: Vec<u8>,
    pub offset: u64,
    pub read_size: usize,
}

/// Reads the section `[offset, offset + len)` of a random-access source,
/// sequentially.
pub struct AsyncSectionReader<R> {
    offset: u64,
    len: u64,
    state: SectionState<R>,
}

impl<R: AsyncReadAt> AsyncSectionReader<R> {
    /// The next absolute offset to read.
    pub closed spec fn spec_offset(&self) -> u64 {
        self.offset
    }

    /// How many bytes of the section remain.
    pub closed spec fn spec_len(&self) -> u64 {
        self.len
    }

    /// Where the section ends.
    pub open spec fn end(&self) -> int {
        self.spec_offset() + self.spec_len()
    }

    /// No read is in flight.
    pub closed spec fn is_idle(&self) -> bool {
        self.state is Idle
    }

    /// The source: at hand while no read is in flight, lent out otherwise.
    pub closed spec fn spec_source(&self) -> R {
        match self.state {
            SectionState::Idle(r, _) => r,
            SectionState::Reading { lent, .. } => lent@,
        }
    }

    /// The read buffer, while no read is in flight.
    pub closed spec fn spec_buf(&self) -> Seq<u8> {
        match self.state {
            SectionState::Idle(_, b) => b@,
            SectionState::Reading { .. } => Seq::empty(),
        }
    }

    /// The bound on the read in flight.
    pub closed spec fn spec_read_size(&self) -> nat {
        match self.state {
            SectionState::Idle(..) => 0,
            SectionState::Reading { read_size, .. } => read_size as nat,
        }
    }

    pub closed spec fn inv(&self) -> bool {
        &&& self.offset + self.len <= u64::MAX
        &&& match self.state {
            SectionState::Idle(..) => true,
            SectionState::Reading { read_size, .. } => read_size <= self.len,
        }
    }

    /// A reader of `len` bytes of `inner` starting at `offset`, refused when
    /// the section does not lie within `inner`.
    pub fn new(inner: R, offset: u64, len: u64) -> (res: Result<Self, AsyncSectionReaderError>)
        ensures
            offset > inner.spec_size() ==> res == Err::<Self, _>(
                AsyncSectionReaderError::OffsetTooLarge { passed: offset, max: inner.spec_size() },
            ),
            offset <= inner.spec_size() && len > inner.spec_size() - offset ==> res == Err::<
                Self,
                _,
            >(
                AsyncSectionReaderError::LenTooLarge {
                    passed: len,
                    max: (inner.spec_size() - offset) as u64,
                },
            ),
            offset <= inner.spec_size() && len <= inner.spec_size() - offset ==> (res matches Ok(
                r,
            ) && {
                &&& r.inv()
                &&& r.is_idle()
                &&& r.spec_offset() == offset
                &&& r.spec_len() == len
                &&& r.spec_source() == inner
                &&& r.end() <= inner.spec_size()
                &&& r.spec_buf() == Seq::new(SECTION_BUFFER_SIZE as nat, |i: int| 0u8)
            }),
    {
        let size = inner.size();
        if offset > size {
            return Err(AsyncSectionReaderError::OffsetTooLarge { passed: offset, max: size });
        }
        let maxlen = size - offset;
        if len > maxlen {
            return Err(AsyncSectionReaderError::LenTooLarge { passed: len, max: maxlen });
        }
        let buf = vec![0u8; SECTION_BUFFER_SIZE];
        Ok(AsyncSectionReader { state: SectionState::Idle(inner, buf), offset, len })
    }

    /// Gives back the source: the one the reader was made with, whatever reads
    /// came since. Only possible while no read is in flight.
    pub fn into_inner(self) -> (inner: R)
        requires
            self.is_idle(),
        ensures
            inner == self.spec_source(),
    {
        match self.state {
            SectionState::Idle(r, _buf) => r,
            SectionState::Reading { .. } => {
                proof {
                    assert(false);
                }
                unreached()
            },
        }
    }

    /// Starts a read: lends out the source and buffer together with where to
    /// read and how much (the rest of the section, at most a buffer's
    /// worth). Returns `None` while a read is already in flight.
    pub fn begin_read(&mut self) -> (req: Option<ReadRequest<R>>)
        requires
            old(self).inv(),
        ensures
            final(self).inv(),
            final(self).spec_offset() == old(self).spec_offset(),
            final(self).spec_len() == old(self).spec_len(),
            final(self).spec_source() == old(self).spec_source(),
            !final(self).is_idle(),
            !old(self).is_idle() ==> req is None && final(self).spec_read_size() == old(
                self,
            ).spec_read_size(),
            old(self).is_idle() ==> (req matches Some(q) && {
                &&& q.inner == old(self).spec_source()
                &&& q.buf@ == old(self).spec_buf()
                &&& q.offset == old(self).spec_offset()
                &&& q.read_size as int == if (old(self).spec_len() as usize) < q.buf@.len() {
                    (old(self).spec_len() as usize) as int
                } else {
                    q.buf@.len() as int
                }
                &&& q.read_size <= q.buf@.len()
                &&& q.offset + q.read_size <= old(self).end()
                &&& final(self).spec_read_size() == q.read_size
            }),
    {
        let ghost source = self.spec_source();
        let mut state = SectionState::Reading { read_size: 0, lent: Ghost(source) };
        std::mem::swap(&mut self.state, &mut state);
        match state {
            SectionState::Idle(inner, buf) => {
                let len_usize = self.len as usize;
                let read_size = if len_usize < buf.len() {
                    len_usize
                } else {
                    buf.len()
                };
                let len = self.len;
                assert(len_usize as u64 <= len) by (bit_vector)
                    requires
                        len_usize == len as usize,
                ;
                self.state = SectionState::Reading { read_size, lent: Ghost(inner) };
                Some(ReadRequest { inner, buf, offset: self.offset, read_size })
            },
            SectionState::Reading { read_size, lent } => {
                self.state = SectionState::Reading { read_size, lent };
                None
            },
        }
    }

    /// Completes the read in flight: takes back the source and buffer and,
    /// when `n` bytes were read, copies them into `out` and moves the
    /// section forward by `n`. The read's outcome is handed back as is.
    pub fn finish_read<E>(
        &mut self,
        inner: R,
        buf: Vec<u8>,
        res: Result<usize, E>,
        out: &mut [u8],
    ) -> (ret: Result<usize, E>)
        requires
            old(self).inv(),
            !old(self).is_idle(),
            inner == old(self).spec_source(),
            res matches Ok(n) ==> n <= old(self).spec_read_size() && n <= buf@.len() && n <= old(
                out,
            )@.len(),
        ensures
            final(self).inv(),
            final(self).is_idle(),
            final(self).spec_source() == old(self).spec_source(),
            final(self).spec_buf() == buf@,
            ret == res,
            final(self).end() == old(self).end(),
            match res {
                Ok(n) => {
                    &&& final(self).spec_offset() == old(self).spec_offset() + n
                    &&& final(self).spec_len() == old(self).spec_len() - n
                    &&& final(out)@.len() == old(out)@.len()
                    &&& final(out)@.subrange(0, n as int) == buf@.subrange(0, n as int)
                    &&& final(out)@.subrange(n as int, old(out)@.len() as int) == old(
                        out,
                    )@.subrange(n as int, old(out)@.len() as int)
                },
                Err(_) => {
                    &&& final(self).spec_offset() == old(self).spec_offset()
                    &&& final(self).spec_len() == old(self).spec_len()
                    &&& final(out)@ == old(out)@
                },
            },
    {
        match &res {
            Ok(n) => {
                let n = *n;
                let mut i: usize = 0;
                while i < n
                    invariant
                        i <= n,
                        n <= buf@.len(),
                        n <= old(out)@.len(),
                        out@.len() == old(out)@.len(),
                        forall|j: int| 0 <= j < i ==> out@[j] == buf@[j],
                        forall|j: int| n <= j < out@.len() ==> out@[j] == old(out)@[j],
                    decreases n - i,
                {
                    out[i] = buf[i];
                    i = i + 1;
                }
                assert(out@.subrange(0, n as int) =~= buf@.subrange(0, n as int));
                assert(out@.subrange(n as int, out@.len() as int) =~= old(out)@.subrange(
                    n as int,
                    old(out)@.len() as int,
                ));
                self.offset = self.offset + n as u64;
                self.len = self.len - n as u64;
            },
            Err(_) => {},
        }
        self.state = SectionState::Idle(inner, buf);
        res
    }
}

/// How many bytes a sequence of completed reads took, in all.
pub open spec fn reads_total(reads: Seq<nat>) -> nat
    decreases reads.len(),
{
    if reads.len() == 0 {
        0
    } else {
        reads_total(reads.drop_last()) + reads.last()
    }
}

/// Where a section reader at `offset` with `len` bytes left stands after the
/// given completed reads: each read of `n` bytes moves the offset forward by
/// `n` and takes `n` from what is left, as `finish_read` does.
pub open spec fn section_after(offset: int, len: int, reads: Seq<nat>) -> (int, int)
    decreases reads.len(),
{
    if reads.len() == 0 {
        (offset, len)
    } else {
        let prev = section_after(offset, len, reads.drop_last());
        (prev.0 + reads.last(), prev.1 - reads.last())
    }
}

proof fn lemma_section_after_total(offset: int, len: int, reads: Seq<nat>)
    ensures
        section_after(offset, len, reads) == (offset + reads_total(reads), len - reads_total(reads)),
    decreases reads.len(),
{
    if reads.len() > 0 {
        lemma_section_after_total(offset, len, reads.drop_last());
    }
}

/// Reads of a section follow one another in order. When every read takes no
/// more than what is left of the section (`finish_read` accepts no more than
/// `begin_read` asked for, which is at most what is left), then read `i`
/// starts where the reads before it stopped and lies within the section,
/// the reads together take at most the section's length, the section's end
/// never moves, and a read once nothing is left is empty.
pub proof fn lemma_section_reads_in_order(offset: int, len: int, reads: Seq<nat>)
    requires
        0 <= len,
        forall|i: int|
            0 <= i < reads.len() ==> reads[i] <= #[trigger] section_after(offset, len, reads.take(i)).1,
    ensures
        section_after(offset, len, reads) == (offset + reads_total(reads), len - reads_total(reads)),
        reads_total(reads) <= len,
        section_after(offset, len, reads).0 + section_after(offset, len, reads).1 == offset + len,
        forall|i: int|
            0 <= i < reads.len() ==> {
                &&& #[trigger] section_after(offset, len, reads.take(i)).0 == offset + reads_total(
                    reads.take(i),
                )
                &&& offset <= section_after(offset, len, reads.take(i)).0
                &&& section_after(offset, len, reads.take(i)).0 + reads[i] <= offset + len
                &&& section_after(offset, len, reads.take(i)).1 == 0 ==> reads[i] == 0
            },
{
    lemma_section_after_total(offset, len, reads);
    assert forall|i: int| 0 <= i < reads.len() implies {
        &&& #[trigger] section_after(offset, len, reads.take(i)).0 == offset + reads_total(
            reads.take(i),
        )
        &&& offset <= section_after(offset, len, reads.take(i)).0
        &&& section_after(offset, len, reads.take(i)).0 + reads[i] <= offset + len
        &&& section_after(offset, len, reads.take(i)).1 == 0 ==> reads[i] == 0
    } by {
        lemma_section_after_total(offset, len, reads.take(i));
        assert(reads[i] <= section_after(offset, len, reads.take(i)).1);
    }
    if reads.len() > 0 {
        let k = reads.len() - 1;
        lemma_section_after_total(offset, len, reads.take(k));
        assert(reads.take(k) =~= reads.drop_last());
        assert(reads[k] <= section_after(offset, len, reads.take(k)).1);
    }
}

} // verus!
