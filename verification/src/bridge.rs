//! The Discord bridge's reply rule.

use vstd::prelude::*;

verus! {

/// The message the bridge answers with.
pub open spec fn bridge_reply() -> Seq<char> {
    "this is where a message would usually go"@
}

/// What the bridge answers to a guild message with `content`: a fixed reply
/// to exactly `deez`, nothing otherwise.
pub fn reply_to(content: &str) -> (r: Option<String>)
    ensures
        r matches Some(text) ==> text@ == bridge_reply(),
        (r is Some) == (content@ == "deez"@),
{
    let trigger = String::from_str("deez");
    if content.to_owned() == trigger {
        Some(String::from_str("this is where a message would usually go"))
    } else {
        None
    }
}

} // verus!
