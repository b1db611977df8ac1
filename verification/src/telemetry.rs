//! Telemetry: the body of the webhook alerts sent to Slack or Discord.

use vstd::prelude::*;
use vstd::string::StringExecFns;

verus! {

/// The JSON body of a critical alert:
/// `{"content": "**[OPS FATAL] <title>**\n<description>"}`, the line break
/// written as the JSON escape `\n`. Title and description are inserted as
/// they are.
pub open spec fn alert_payload_text(title: Seq<char>, description: Seq<char>) -> Seq<char> {
    "{\"content\": \"**[OPS FATAL] "@ + title + "**\\n"@ + description + "\"}"@
}

/// The JSON body of a critical alert.
pub fn alert_payload(title: &str, description: &str) -> (r: String)
    ensures
        r@ == alert_payload_text(title@, description@),
{
    let mut s = "{\"content\": \"**[OPS FATAL] ".to_owned();
    s.append(title);
    s.append("**\\n");
    s.append(description);
    s.append("\"}");
    s
}

} // verus!
