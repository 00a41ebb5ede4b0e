//! How the result of a decoder is stated.
//!
//! A decoder of a stream either fails with a [`DecodeError`], or yields a
//! value and the stream after it. The contracts of the executable decoders
//! say which of the two their mathematical counterpart prescribes.

use crate::cursor::CursorView;
use crate::error::DecodeError;
use vstd::prelude::*;

verus! {

/// What a decoder of a stream yields: a value and the stream after it.
pub type Decoded<T> = Result<(T, CursorView), DecodeError>;

/// `outcome` is the success that yields `value` and leaves the stream at
/// `rest`.
pub open spec fn yields<T>(outcome: Decoded<T>, value: T, rest: CursorView) -> bool {
    outcome == Ok::<(T, CursorView), DecodeError>((value, rest))
}

/// `outcome` is the success with the result `value`.
pub open spec fn gives<T>(outcome: Result<T, DecodeError>, value: T) -> bool {
    outcome == Ok::<T, DecodeError>(value)
}

/// `outcome` is the failure `e`.
pub open spec fn fails<T>(outcome: Result<T, DecodeError>, e: DecodeError) -> bool {
    outcome == Err::<T, DecodeError>(e)
}

/// Two outcomes that differ at most in what their streams hold outside their
/// windows: the same failure, or the same value and streams that agree.
pub open spec fn alike<T>(first: Decoded<T>, second: Decoded<T>) -> bool {
    match (first, second) {
        (Ok((a, rest_a)), Ok((b, rest_b))) => a == b && rest_a.agrees(rest_b),
        (Err(a), Err(b)) => a == b,
        _ => false,
    }
}

/// The views of the elements of a sequence, in order.
pub open spec fn views<T: View>(s: Seq<T>) -> Seq<T::V> {
    Seq::new(s.len(), |i: int| s[i]@)
}

} // verus!
