use vstd::prelude::*;

use crate::error::Error;
use crate::list::MbedtlsBox;

verus! {

/// Status with which the description routine reports that the buffer it was
/// handed is too small.
pub const BUFFER_TOO_SMALL: i32 = -0x2980;

/// Capacity of the first buffer handed to the description routine.
pub const INITIAL_CAPACITY: usize = 2048;

/// A buffer this large or larger is never grown again.
pub const CAPACITY_LIMIT: usize = 0x8000_0000;

/// What to do after the description routine wrote into a buffer of some capacity.
#[derive(Debug, Clone, Copy, PartialEq, Eq, Structural)]
pub enum RenderStep {
    /// The text fit: keep this many bytes of the buffer.
    Done(usize),
    /// Call the routine again with a buffer of this capacity.
    Grow(usize),
    /// Give up with this error.
    Fail(Error),
}

/// Decides the next step of describing a record, from the capacity of the
/// buffer just handed to the description routine and the status it gave.
/// A non-negative status is the length written; a too-small buffer is
/// doubled until it reaches the limit; anything else fails.
pub fn render_step(capacity: usize, status: i32) -> (r: RenderStep)
    ensures
        0 <= status <= capacity ==> r == RenderStep::Done(status as usize),
        status >= 0 && status > capacity ==> r == RenderStep::Fail(Error::FormatFailed(status)),
        status == BUFFER_TOO_SMALL && capacity == 0 ==> r == RenderStep::Grow(INITIAL_CAPACITY),
        status == BUFFER_TOO_SMALL && 0 < capacity < CAPACITY_LIMIT ==> r == RenderStep::Grow(
            (2 * capacity) as usize,
        ),
        status == BUFFER_TOO_SMALL && capacity >= CAPACITY_LIMIT ==> r == RenderStep::Fail(
            Error::FormatFailed(status),
        ),
        status < 0 && status != BUFFER_TOO_SMALL ==> r == RenderStep::Fail(
            Error::FormatFailed(status),
        ),
{
    if status >= 0 {
        if status as usize <= capacity {
            RenderStep::Done(status as usize)
        } else {
            RenderStep::Fail(Error::FormatFailed(status))
        }
    } else if status == BUFFER_TOO_SMALL && capacity < CAPACITY_LIMIT {
        if capacity == 0 {
            RenderStep::Grow(INITIAL_CAPACITY)
        } else {
            RenderStep::Grow(2 * capacity)
        }
    } else {
        RenderStep::Fail(Error::FormatFailed(status))
    }
}

/// Settles a decode into a freshly initialised record: a non-negative
/// status hands the record back; a negative one releases it and is reported.
pub fn parse_outcome<T>(crl: MbedtlsBox<T>, status: i32) -> (r: Result<MbedtlsBox<T>, Error>)
    ensures
        status >= 0 ==> r == Ok::<MbedtlsBox<T>, Error>(crl),
        status < 0 ==> r == Err::<MbedtlsBox<T>, Error>(Error::ParseFailed(status)),
{
    if status < 0 {
        Err(Error::ParseFailed(status))
    } else {
        Ok(crl)
    }
}

} // verus!
