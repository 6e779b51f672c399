//! What to make of the answer to a post to a chat channel.

use vstd::prelude::*;
use vstd::string::*;

verus! {

/// What became of a post.
#[derive(Clone, Copy, Debug, PartialEq, Eq, Structural)]
pub enum Delivery {
    /// The channel took the post.
    Accepted,
    /// The channel answered with another status than 200. A rejected post is
    /// reported and the job goes on.
    Rejected { status: u16 },
}

/// Reads the status of the channel's answer: 200 and nothing else accepts.
pub fn delivery(status: u16) -> (r: Delivery)
    ensures
        status == 200 ==> r == Delivery::Accepted,
        status != 200 ==> r == (Delivery::Rejected { status }),
{
    if status == 200 {
        Delivery::Accepted
    } else {
        Delivery::Rejected { status }
    }
}

/// The line that reports a rejected post: the channel's address, the status
/// as the client words it, and the body of the answer.
pub fn rejection_notice(url: &str, status: &str, body: &str) -> (r: String)
    ensures
        r@ == "posting to slack webhook ("@ + url@ + ") failed, status: "@ + status@
            + " | resp: "@ + body@,
{
    let mut line: String = "posting to slack webhook (".to_owned();
    line.append(url);
    line.append(") failed, status: ");
    line.append(status);
    line.append(" | resp: ");
    line.append(body);
    line
}

/// The line that reports a post that could not be sent at all: the channel's
/// address and the cause as the client words it. Such a post is reported and
/// the job goes on, as for a rejected one.
pub fn unsent_notice(url: &str, cause: &str) -> (r: String)
    ensures
        r@ == "posting to slack webhook ("@ + url@ + ") failed: "@ + cause@,
{
    let mut line: String = "posting to slack webhook (".to_owned();
    line.append(url);
    line.append(") failed: ");
    line.append(cause);
    line
}

} // verus!
