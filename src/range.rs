use vstd::prelude::*;

use crate::error::{s3_error, ErrorCode, Result};

verus! {

/// A byte range of a GET request.
#[derive(Copy, Clone, Debug, PartialEq, Eq, Structural)]
pub enum ByteRange {
    /// `bytes=first-last`, or `bytes=first-` when `last` is absent; inclusive.
    Int { first: u64, last: Option<u64> },
    /// `bytes=-length`: the last `length` bytes.
    Suffix { length: u64 },
}

/// The half-open span `[start, end)` that `range` selects from `size` bytes,
/// or `None` when it cannot be satisfied.
pub open spec fn range_span(range: Option<ByteRange>, size: nat) -> Option<(nat, nat)> {
    match range {
        None => Some((0, size)),
        Some(ByteRange::Int { first, last }) => if first == 0 && size == 0 && last is None {
            Some((0, 0))
        } else if first >= size {
            None
        } else {
            match last {
                None => Some((first as nat, size)),
                Some(l) => {
                    let l2: nat = if l >= size {
                        (size - 1) as nat
                    } else {
                        l as nat
                    };
                    if first > l2 {
                        None
                    } else {
                        Some((first as nat, l2 + 1))
                    }
                },
            }
        },
        Some(ByteRange::Suffix { length }) => if length >= size {
            Some((0, size))
        } else {
            Some(((size - length) as nat, size))
        },
    }
}

/// The span `[start, end)` of `size` bytes that `range` selects; the S3
/// range error when it selects none.
pub fn resolve_range(range: Option<ByteRange>, size: u64) -> (r: Result<(u64, u64)>)
    ensures
        match range_span(range, size as nat) {
            None => r matches Err(e) && e.is(ErrorCode::InvalidRange),
            Some((s, e)) => r matches Ok((a, b)) && a == s && b == e,
        },
        r matches Ok((a, b)) ==> a <= b <= size,
{
    match range {
        None => Ok((0, size)),
        Some(ByteRange::Int { first, last }) => {
            if first == 0 && size == 0 && last.is_none() {
                Ok((0, 0))
            } else if first >= size {
                Err(s3_error(ErrorCode::InvalidRange))
            } else {
                match last {
                    None => Ok((first, size)),
                    Some(l) => {
                        let l2 = if l >= size {
                            size - 1
                        } else {
                            l
                        };
                        if first > l2 {
                            Err(s3_error(ErrorCode::InvalidRange))
                        } else {
                            Ok((first, l2 + 1))
                        }
                    },
                }
            }
        },
        Some(ByteRange::Suffix { length }) => {
            if length >= size {
                Ok((0, size))
            } else {
                Ok((size - length, size))
            }
        },
    }
}

/// The bytes of `value` in `[start, end)`.
pub fn copy_span(value: &[u8], start: usize, end: usize) -> (r: Vec<u8>)
    requires
        start <= end <= value@.len(),
    ensures
        r@ == value@.subrange(start as int, end as int),
{
    let mut out: Vec<u8> = Vec::with_capacity(end - start);
    let mut i = start;
    while i < end
        invariant
            start <= i <= end,
            end <= value@.len(),
            out@ == value@.subrange(start as int, i as int),
        decreases end - i,
    {
        out.push(value[i]);
        assert(value@.subrange(start as int, i + 1) =~= value@.subrange(start as int, i as int).push(
            value@[i as int],
        ));
        i = i + 1;
    }
    out
}

/// A range of `bytes=-0` selects nothing, `bytes=0-` selects everything, and a
/// first position past the end cannot be satisfied.
pub proof fn lemma_range_boundaries(size: nat, first: u64)
    ensures
        range_span(Some(ByteRange::Suffix { length: 0 }), size) == Some((size, size)),
        range_span(Some(ByteRange::Int { first: 0, last: None }), size) == Some((0nat, size)),
        first >= size && first > 0 ==> range_span(
            Some(ByteRange::Int { first, last: None }),
            size,
        ) is None,
{
}

} // verus!
