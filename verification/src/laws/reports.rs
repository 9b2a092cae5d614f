//! What a hook's report does.
use vstd::prelude::*;

use crate::agent_status;
use crate::command::{CommandView, TmuxCommand};
use crate::text;

verus! {

/// The words that can be reported are `working`, `waiting`, `attention` and `clear`; the answer to
/// any other word quotes it.
pub proof fn law_reportable_words(word: Seq<char>)
    ensures
        agent_status::reportable(word) <==> word == "working"@ || word == "waiting"@ || word
            == "attention"@ || word == "clear"@,
        agent_status::unknown_word(word) == "unknown agent status "@ + text::debug_text(word)
            + "; expected working, waiting, attention, or clear"@,
{
    crate::laws::states::law_status_words(word);
}

/// A report sets the status option of the pane to the word, and then the other option to the time
/// in decimal notation, or to nothing where the time is not known.
pub proof fn law_report_sets_both_options(status: Seq<char>, pane: Seq<char>, now: Option<u64>)
    requires
        pane.len() > 0,
        status != "clear"@,
    ensures
        agent_status::report(status, Some(pane), now) == seq![
            CommandView::SetPaneOption { pane, option: "@agent_status"@, value: status },
            CommandView::SetPaneOption {
                pane,
                option: "@agent_status_since"@,
                value: match now {
                    Some(secs) => text::decimal(secs as nat),
                    None => Seq::empty(),
                },
            },
        ],
{
}

/// A report that clears unsets both options of the pane.
pub proof fn law_clearing_unsets_both_options(pane: Seq<char>, now: Option<u64>)
    requires
        pane.len() > 0,
    ensures
        agent_status::report("clear"@, Some(pane), now) == seq![
            CommandView::ClearPaneOption { pane, option: "@agent_status"@ },
            CommandView::ClearPaneOption { pane, option: "@agent_status_since"@ },
        ],
{
}

/// Without a pane there is nothing to record.
pub proof fn law_no_pane_no_report(status: Seq<char>, now: Option<u64>)
    ensures
        agent_status::report(status, None, now).len() == 0,
        agent_status::report(status, Some(Seq::empty()), now).len() == 0,
{
}

/// Commands are seen one by one.
pub proof fn law_commands_are_seen_one_by_one(commands: Seq<TmuxCommand>)
    ensures
        agent_status::command_views(commands) == Seq::new(
            commands.len(),
            |i: int| commands[i]@,
        ),
{
    assert(agent_status::command_views(commands) =~= Seq::new(
        commands.len(),
        |i: int| commands[i]@,
    ));
}

} // verus!
