//! Random access to HTTP resources through ranged requests: sizing a
//! resource from its response, the range requested for a read, and the
//! readers and connections that serve reads.

pub mod async_read_at;
pub mod conn;
pub mod rand_id;
pub mod reader;

use crate::text::{decimal, parse_u64, parse_u64_spec, push_decimal, push_str};
use vstd::prelude::*;

verus! {

/// Errors in opening or reading an HTTP resource.
#[derive(Debug, PartialEq, Eq, Structural)]
pub enum Error {
    ZeroLength,
    ReadAfterEnd { resource_end: u64, requested: u64 },
}

impl Error {
    pub open spec fn spec_message(&self) -> Seq<char> {
        match *self {
            Error::ZeroLength => "zero-length resource: the content-length header was not present or zero"@,
            Error::ReadAfterEnd { resource_end, requested } => "trying to get reader at "@
                + decimal(requested as nat) + " but resource ends at "@ + decimal(
                resource_end as nat,
            ),
        }
    }

    /// The human-readable description of the error.
    pub fn message(&self) -> (msg: String)
        ensures
            msg@ == self.spec_message(),
    {
        let mut s = String::new();
        match self {
            Error::ZeroLength => {
                push_str(
                    &mut s,
                    "zero-length resource: the content-length header was not present or zero",
                );
            },
            Error::ReadAfterEnd { resource_end, requested } => {
                push_str(&mut s, "trying to get reader at ");
                push_decimal(&mut s, *requested);
                push_str(&mut s, " but resource ends at ");
                push_decimal(&mut s, *resource_end);
            },
        }
        s
    }
}

/// The size a `content-length` header value announces, or nothing when the
/// header is absent or not a decimal `u64`.
pub open spec fn announced_size(content_length: Option<Seq<char>>) -> Option<u64> {
    match content_length {
        Some(h) => parse_u64_spec(h),
        None => None,
    }
}

/// The size of a resource from the `content-length` header of its first
/// response (the header's text, when it has one). A missing, unreadable or
/// zero length is refused.
pub fn resource_size(content_length: Option<&str>) -> (res: Result<u64, Error>)
    ensures
        res == match announced_size(
            match content_length {
                Some(h) => Some(h@),
                None => None,
            },
        ) {
            Some(size) => if size == 0 {
                Err(Error::ZeroLength)
            } else {
                Ok(size)
            },
            None => Err(Error::ZeroLength),
        },
{
    let mut size: u64 = 0;
    match content_length {
        Some(header) => match parse_u64(header) {
            Some(parsed) => {
                size = parsed;
            },
            None => {},
        },
        None => {},
    }
    if size == 0 {
        Err(Error::ZeroLength)
    } else {
        Ok(size)
    }
}

/// A reader may be opened at any offset up to and including the end of the
/// resource; past the end is refused.
pub fn check_reader_offset(size: u64, offset: u64) -> (res: Result<(), Error>)
    ensures
        offset <= size ==> res == Ok::<(), Error>(()),
        offset > size ==> res == Err::<(), Error>(
            Error::ReadAfterEnd { resource_end: size, requested: offset },
        ),
{
    if offset > size {
        Err(Error::ReadAfterEnd { resource_end: size, requested: offset })
    } else {
        Ok(())
    }
}

/// The value of the `range` header that asks for a resource from `offset`
/// to its end.
pub open spec fn spec_range_header(offset: u64) -> Seq<char> {
    "bytes="@ + decimal(offset as nat) + "-"@
}

/// The range header asks for the resource from the requested offset on:
/// after `bytes=` come the digits of the offset, which read back as the
/// offset itself, and a closing `-` leaves the range open to the end.
pub proof fn lemma_range_header_names_offset(offset: u64)
    ensures
        spec_range_header(offset).len() >= 8,
        spec_range_header(offset).take(6) == "bytes="@,
        spec_range_header(offset).last() == '-',
        parse_u64_spec(spec_range_header(offset).subrange(6, spec_range_header(offset).len() - 1))
            == Some(offset),
{
    reveal_strlit("bytes=");
    reveal_strlit("-");
    crate::text::lemma_decimal_parses_back(offset);
    crate::text::lemma_decimal_digits(offset as nat);
    let h = spec_range_header(offset);
    let d = decimal(offset as nat);
    assert(h.take(6) =~= "bytes="@);
    assert(h.subrange(6, h.len() - 1) =~= d);
}

pub fn range_header(offset: u64) -> (header: String)
    ensures
        header@ == spec_range_header(offset),
        header@.len() >= 8,
        header@.take(6) == "bytes="@,
        header@.last() == '-',
        parse_u64_spec(header@.subrange(6, header@.len() - 1)) == Some(offset),
{
    proof {
        lemma_range_header_names_offset(offset);
    }
    let mut s = String::new();
    push_str(&mut s, "bytes=");
    push_decimal(&mut s, offset);
    push_str(&mut s, "-");
    s
}

} // verus!
