//! The lines that are written to the log.

use crate::model::ReactionContext;
use crate::text::{decimal, push_decimal};
use vstd::prelude::*;

verus! {

/// The log line for a reaction that could not be handled: the channel, the
/// handler that failed, and the failure as the caller rendered it.
pub open spec fn reaction_error_text(channel_id: u64, command: Seq<char>, why: Seq<char>) -> Seq<
    char,
> {
    "channel:"@ + decimal(channel_id as nat) + " command:"@ + command
        + "\nerror processing reaction\n"@ + why
}

/// Renders the log line for a reaction that could not be handled.
pub fn reaction_error(context: &ReactionContext, why: &str, command: String) -> (line: String)
    ensures
        line@ == reaction_error_text(context.reaction.channel_id, command@, why@),
{
    let mut line = String::from_str("channel:");
    push_decimal(&mut line, context.reaction.channel_id);
    line.append(" command:");
    line.append(command.as_str());
    line.append("\nerror processing reaction\n");
    line.append(why);
    assert(line@ =~= reaction_error_text(context.reaction.channel_id, command@, why@));
    line
}

} // verus!
