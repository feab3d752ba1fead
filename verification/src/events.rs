//! The events a session's forwarding task emits, each on a channel named
//! after the session.

use vstd::prelude::*;
use vstd::string::StringExecFns;

verus! {

/// Something the external consumer is told about one session.
#[derive(Debug, PartialEq, Eq)]
pub enum Event {
    /// The process wrote `text`.
    Output { name: String, text: String },
    /// The stream of the process has ended. Carries nothing.
    Closed { name: String },
}

/// The mathematical content of an [`Event`].
pub enum EventView {
    Output { name: Seq<char>, text: Seq<char> },
    Closed { name: Seq<char> },
}

impl View for Event {
    type V = EventView;

    open spec fn view(&self) -> EventView {
        match self {
            Event::Output { name, text } => EventView::Output { name: name@, text: text@ },
            Event::Closed { name } => EventView::Closed { name: name@ },
        }
    }
}

impl EventView {
    /// The channel the event is emitted on.
    pub open spec fn name(self) -> Seq<char> {
        match self {
            EventView::Output { name, .. } => name,
            EventView::Closed { name } => name,
        }
    }
}

/// The channel of a session's output events.
pub open spec fn spec_output_event_name(session_id: Seq<char>) -> Seq<char> {
    "terminal-output-"@ + session_id
}

/// The channel of a session's closed event.
pub open spec fn spec_closed_event_name(session_id: Seq<char>) -> Seq<char> {
    "terminal-closed-"@ + session_id
}

/// Builds the name of the channel of a session's output events.
pub fn output_event_name(session_id: &str) -> (name: String)
    ensures
        name@ == spec_output_event_name(session_id@),
{
    let mut name = String::from_str("terminal-output-");
    name.append(session_id);
    name
}

/// Builds the name of the channel of a session's closed event.
pub fn closed_event_name(session_id: &str) -> (name: String)
    ensures
        name@ == spec_closed_event_name(session_id@),
{
    let mut name = String::from_str("terminal-closed-");
    name.append(session_id);
    name
}

/// Two sessions never share a channel: the names of the output channels of
/// different identifiers differ, and so do those of their closed channels.
pub proof fn lemma_event_names_identify_session(a: Seq<char>, b: Seq<char>)
    ensures
        spec_output_event_name(a) == spec_output_event_name(b) <==> a == b,
        spec_closed_event_name(a) == spec_closed_event_name(b) <==> a == b,
{
    let output = "terminal-output-"@;
    let closed = "terminal-closed-"@;
    if spec_output_event_name(a) == spec_output_event_name(b) {
        assert((output + a).subrange(output.len() as int, (output + a).len() as int) =~= a);
        assert((output + b).subrange(output.len() as int, (output + b).len() as int) =~= b);
    }
    if spec_closed_event_name(a) == spec_closed_event_name(b) {
        assert((closed + a).subrange(closed.len() as int, (closed + a).len() as int) =~= a);
        assert((closed + b).subrange(closed.len() as int, (closed + b).len() as int) =~= b);
    }
}

/// No output channel is the closed channel of any session.
pub proof fn lemma_output_never_closed_name(a: Seq<char>, b: Seq<char>)
    ensures
        spec_output_event_name(a) != spec_closed_event_name(b),
{
    reveal_strlit("terminal-output-");
    reveal_strlit("terminal-closed-");
    assert(spec_output_event_name(a)[9] == 'o');
    assert(spec_closed_event_name(b)[9] == 'c');
}

} // verus!
