//! What the answer of the webhook means.

use vstd::prelude::*;

verus! {

/// How a delivery ended, judged by the status code of the answer.
#[derive(Debug, Clone, Copy, PartialEq, Eq, Structural)]
pub enum Delivery {
    /// The webhook took the message.
    Accepted,
    /// The webhook answered with a status outside the 2xx range; status and
    /// body of the answer are to be reported.
    Rejected,
}

/// `status` is a success status: one from 200 to 299.
pub open spec fn is_success_status(status: u16) -> bool {
    200 <= status < 300
}

/// Judges a delivery by the status code of the answer.
pub fn classify_status(status: u16) -> (delivery: Delivery)
    ensures
        delivery == if is_success_status(status) {
            Delivery::Accepted
        } else {
            Delivery::Rejected
        },
{
    if 200 <= status && status < 300 {
        Delivery::Accepted
    } else {
        Delivery::Rejected
    }
}

} // verus!
