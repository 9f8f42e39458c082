//! The server-streaming Clock service.

use vstd::prelude::*;

use crate::error::ErrorCode;
use crate::error::RpcError;
use crate::text::decimal;
use crate::text::push_decimal;

verus! {

/// The largest number of ticks one request may ask for.
pub const MAX_TICKS: u32 = 1024;

/// One message of the tick stream.
#[derive(Clone, Copy, Debug, PartialEq, Eq, Structural)]
pub struct TickResponse {
    pub sequence: u32,
}

/// The message of the error for a request of `count` ticks above the limit.
pub open spec fn too_many_ticks_message(count: u32) -> Seq<char> {
    "count "@ + decimal(count as nat) + " exceeds maximum of "@ + decimal(MAX_TICKS as nat)
}

/// The Clock service.
pub struct Clock;

impl Clock {
    /// The messages of the tick stream for a request of `count` ticks:
    /// sequence numbers `0, 1, ..., count - 1`. A count above
    /// [`MAX_TICKS`] is refused as an invalid argument.
    pub fn tick(&self, count: u32) -> (r: Result<Vec<TickResponse>, RpcError>)
        ensures
            count > MAX_TICKS <==> r is Err,
            r matches Err(e) ==> e.code == ErrorCode::InvalidArgument && e.message@
                == too_many_ticks_message(count),
            r matches Ok(ticks) ==> ticks@.len() == count && forall|i: int|
                0 <= i < count ==> (#[trigger] ticks@[i]).sequence == i,
    {
        if count > MAX_TICKS {
            let mut message = String::from_str("count ");
            push_decimal(&mut message, count as u64);
            message.append(" exceeds maximum of ");
            push_decimal(&mut message, MAX_TICKS as u64);
            return Err(RpcError { code: ErrorCode::InvalidArgument, message });
        }
        let mut ticks: Vec<TickResponse> = Vec::new();
        let mut i: u32 = 0;
        while i < count
            invariant
                i <= count,
                ticks@.len() == i,
                forall|j: int| 0 <= j < i ==> (#[trigger] ticks@[j]).sequence == j,
            decreases count - i,
        {
            ticks.push(TickResponse { sequence: i });
            i = i + 1;
        }
        Ok(ticks)
    }
}

} // verus!
