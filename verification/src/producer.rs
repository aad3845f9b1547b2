//! The decision of a publishing client on nsqd's answer.
use vstd::prelude::*;
use vstd::string::StringExecFns;

verus! {

/// Why a publication failed.
#[derive(Clone, Copy, Debug, PartialEq, Eq, Structural)]
pub enum PublishError {
    /// nsqd answered something other than `OK`.
    ExpectedOk,
}

pub open spec fn ok_chars() -> Seq<char> {
    seq!['O', 'K']
}

/// Accepts nsqd's answer to a publication exactly when it is `OK`.
pub fn check_publish_reply(reply: String) -> (r: Result<String, PublishError>)
    ensures
        r is Ok <==> reply@ == ok_chars(),
        r matches Ok(s) ==> s@ == reply@,
        r matches Err(e) ==> e == PublishError::ExpectedOk,
{
    proof {
        reveal_strlit("OK");
    }
    let ok = String::from_str("OK");
    assert(ok@ =~= ok_chars());
    if reply != ok {
        Err(PublishError::ExpectedOk)
    } else {
        Ok(reply)
    }
}

} // verus!
