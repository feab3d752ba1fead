//! The output-forwarding task of one session, as a state machine. The host
//! reads from the controlling side of the pseudo-terminal and emits the
//! events; the machine decides what is emitted and when the task ends.

use vstd::prelude::*;
use vstd::utf8::{decode_utf8, valid_utf8};
use crate::events::{
    closed_event_name, output_event_name, spec_closed_event_name, spec_output_event_name, Event,
    EventView,
};
use crate::text::{decode_lossy, lossy_decoded};

verus! {

/// The most bytes the host reads at once.
pub const CHUNK_SIZE: usize = 4096;

/// Where the task stands.
#[derive(Clone, Copy, Debug, PartialEq, Eq, Structural)]
pub enum ForwardState {
    /// Waiting for the next read.
    Reading,
    /// The stream has ended; the task is over.
    Terminated,
}

/// What one read from the pseudo-terminal gave.
#[derive(Debug, PartialEq, Eq)]
pub enum ReadOutcome {
    /// The bytes that were read. None at all means the end of the stream.
    Data(Vec<u8>),
    /// The read failed.
    Failed,
}

/// The mathematical content of a [`ReadOutcome`].
pub enum ReadOutcomeView {
    Data(Seq<u8>),
    Failed,
}

impl View for ReadOutcome {
    type V = ReadOutcomeView;

    open spec fn view(&self) -> ReadOutcomeView {
        match self {
            ReadOutcome::Data(bytes) => ReadOutcomeView::Data(bytes@),
            ReadOutcome::Failed => ReadOutcomeView::Failed,
        }
    }
}

impl ReadOutcomeView {
    /// Whether the read ends the stream: it gave no bytes, or it failed.
    pub open spec fn ends_stream(self) -> bool {
        match self {
            ReadOutcomeView::Data(bytes) => bytes.len() == 0,
            ReadOutcomeView::Failed => true,
        }
    }
}

/// The forwarding task of the session `session_id`.
pub struct Forwarder {
    session_id: String,
    state: ForwardState,
}

/// The mathematical content of a [`Forwarder`].
pub struct ForwarderView {
    pub session_id: Seq<char>,
    pub state: ForwardState,
}

impl ForwarderView {
    /// The task of a session at its start.
    pub open spec fn start(session_id: Seq<char>) -> ForwarderView {
        ForwarderView { session_id, state: ForwardState::Reading }
    }

    /// The event that a read gives rise to: the text of the bytes while the
    /// task is reading, the closed event when the read ends the stream, and
    /// nothing once the task is over.
    pub open spec fn emitted(self, outcome: ReadOutcomeView) -> Option<EventView> {
        match self.state {
            ForwardState::Terminated => None,
            ForwardState::Reading => match outcome {
                ReadOutcomeView::Data(bytes) if bytes.len() > 0 => Some(
                    EventView::Output {
                        name: spec_output_event_name(self.session_id),
                        text: lossy_decoded(bytes),
                    },
                ),
                _ => Some(EventView::Closed { name: spec_closed_event_name(self.session_id) }),
            },
        }
    }

    /// The task after a read.
    pub open spec fn after(self, outcome: ReadOutcomeView) -> ForwarderView {
        if self.state == ForwardState::Reading && outcome.ends_stream() {
            ForwarderView { state: ForwardState::Terminated, ..self }
        } else {
            self
        }
    }

    /// The task after a series of reads.
    pub open spec fn after_all(self, outcomes: Seq<ReadOutcomeView>) -> ForwarderView
        decreases outcomes.len(),
    {
        if outcomes.len() == 0 {
            self
        } else {
            self.after_all(outcomes.drop_last()).after(outcomes.last())
        }
    }

    /// The events of a series of reads, in the order in which they are
    /// emitted.
    pub open spec fn events(self, outcomes: Seq<ReadOutcomeView>) -> Seq<EventView>
        decreases outcomes.len(),
    {
        if outcomes.len() == 0 {
            Seq::empty()
        } else {
            let earlier = self.events(outcomes.drop_last());
            match self.after_all(outcomes.drop_last()).emitted(outcomes.last()) {
                Some(event) => earlier.push(event),
                None => earlier,
            }
        }
    }

    /// How many bytes the host is to read next; nothing once the task is
    /// over.
    pub open spec fn next_read(self) -> Option<usize> {
        match self.state {
            ForwardState::Reading => Some(CHUNK_SIZE),
            ForwardState::Terminated => None,
        }
    }
}

impl View for Forwarder {
    type V = ForwarderView;

    closed spec fn view(&self) -> ForwarderView {
        ForwarderView { session_id: self.session_id@, state: self.state }
    }
}

impl Forwarder {
    /// The task of the session `session_id`, about to read for the first
    /// time.
    pub fn new(session_id: &str) -> (forwarder: Forwarder)
        ensures
            forwarder@ == ForwarderView::start(session_id@),
    {
        Forwarder { session_id: session_id.to_owned(), state: ForwardState::Reading }
    }

    /// Where the task stands.
    pub fn state(&self) -> (state: ForwardState)
        ensures
            state == self@.state,
    {
        self.state
    }

    /// How many bytes the host is to read next: a chunk of 4096 while the
    /// task is reading, nothing once it is over.
    pub fn next_read(&self) -> (size: Option<usize>)
        ensures
            size == self@.next_read(),
    {
        match self.state {
            ForwardState::Reading => Some(CHUNK_SIZE),
            ForwardState::Terminated => None,
        }
    }

    /// Takes the result of a read and returns the event to emit. Bytes are
    /// forwarded as text at once, and bytes that are valid UTF-8 are
    /// forwarded unchanged; a read that gives no bytes or fails emits the
    /// closed event and ends the task, after which nothing is emitted.
    pub fn step(&mut self, outcome: ReadOutcome) -> (event: Option<Event>)
        ensures
            final(self)@ == old(self)@.after(outcome@),
            match event {
                Some(emitted) => old(self)@.emitted(outcome@) == Some(emitted@),
                None => old(self)@.emitted(outcome@) is None,
            },
            match outcome@ {
                ReadOutcomeView::Data(bytes) => old(self)@.state == ForwardState::Reading
                    && bytes.len() > 0 && valid_utf8(bytes) ==> event is Some && event->0@ == (
                EventView::Output {
                    name: spec_output_event_name(old(self)@.session_id),
                    text: decode_utf8(bytes),
                }),
                ReadOutcomeView::Failed => true,
            },
    {
        match self.state {
            ForwardState::Terminated => None,
            ForwardState::Reading => {
                match outcome {
                    ReadOutcome::Data(bytes) => {
                        if bytes.len() > 0 {
                            let text = decode_lossy(bytes.as_slice());
                            let name = output_event_name(self.session_id.as_str());
                            Some(Event::Output { name, text })
                        } else {
                            self.state = ForwardState::Terminated;
                            Some(Event::Closed { name: closed_event_name(self.session_id.as_str()) })
                        }
                    },
                    ReadOutcome::Failed => {
                        self.state = ForwardState::Terminated;
                        Some(Event::Closed { name: closed_event_name(self.session_id.as_str()) })
                    },
                }
            },
        }
    }
}

/// Once the task is over it stays over and emits nothing, whatever is read.
pub proof fn lemma_terminated_is_silent(task: ForwarderView, outcomes: Seq<ReadOutcomeView>)
    requires
        task.state == ForwardState::Terminated,
    ensures
        task.after_all(outcomes) == task,
        task.events(outcomes) == Seq::<EventView>::empty(),
    decreases outcomes.len(),
{
    if outcomes.len() > 0 {
        lemma_terminated_is_silent(task, outcomes.drop_last());
    }
}

/// While every read gives bytes, every read is forwarded: one output event
/// for each, in the order of the reads, on the session's own channel, and no
/// closed event.
pub proof fn lemma_data_is_forwarded_in_order(task: ForwarderView, outcomes: Seq<ReadOutcomeView>)
    requires
        task.state == ForwardState::Reading,
        forall|i: int| 0 <= i < outcomes.len() ==> !(#[trigger] outcomes[i]).ends_stream(),
    ensures
        task.after_all(outcomes) == task,
        task.events(outcomes).len() == outcomes.len(),
        forall|i: int|
            0 <= i < outcomes.len() ==> #[trigger] task.events(outcomes)[i] == (EventView::Output {
                name: spec_output_event_name(task.session_id),
                text: lossy_decoded(outcomes[i]->Data_0),
            }),
    decreases outcomes.len(),
{
    if outcomes.len() > 0 {
        let before = outcomes.drop_last();
        lemma_data_is_forwarded_in_order(task, before);
        assert(!outcomes[outcomes.len() - 1].ends_stream());
        assert forall|i: int| 0 <= i < outcomes.len() implies #[trigger] task.events(outcomes)[i]
            == (EventView::Output {
            name: spec_output_event_name(task.session_id),
            text: lossy_decoded(outcomes[i]->Data_0),
        }) by {
            if i < before.len() {
                assert(task.events(before)[i] == task.events(outcomes)[i]);
                assert(before[i] == outcomes[i]);
            }
        }
    }
}

/// When the stream ends, the closed event is emitted exactly once and it is
/// the last event: if read `k` is the first that gives no bytes or fails,
/// the events are the output of the `k` reads before it, followed by the one
/// closed event, whatever is read afterwards.
pub proof fn lemma_closed_once_and_last(
    task: ForwarderView,
    outcomes: Seq<ReadOutcomeView>,
    k: int,
)
    requires
        task.state == ForwardState::Reading,
        0 <= k < outcomes.len(),
        outcomes[k].ends_stream(),
        forall|i: int| 0 <= i < k ==> !(#[trigger] outcomes[i]).ends_stream(),
    ensures
        task.after_all(outcomes).state == ForwardState::Terminated,
        task.events(outcomes).len() == k + 1,
        task.events(outcomes)[k] == (EventView::Closed {
            name: spec_closed_event_name(task.session_id),
        }),
        forall|i: int|
            0 <= i < k ==> #[trigger] task.events(outcomes)[i] == (EventView::Output {
                name: spec_output_event_name(task.session_id),
                text: lossy_decoded(outcomes[i]->Data_0),
            }),
    decreases outcomes.len(),
{
    let before = outcomes.drop_last();
    assert forall|i: int| 0 <= i < k implies !(#[trigger] before[i]).ends_stream() by {
        assert(before[i] == outcomes[i]);
    }
    if k == outcomes.len() - 1 {
        lemma_data_is_forwarded_in_order(task, before);
    } else {
        assert(before[k] == outcomes[k]);
        lemma_closed_once_and_last(task, before, k);
    }
    assert forall|i: int| 0 <= i < k implies #[trigger] task.events(outcomes)[i]
        == (EventView::Output {
        name: spec_output_event_name(task.session_id),
        text: lossy_decoded(outcomes[i]->Data_0),
    }) by {
        assert(task.events(before)[i] == task.events(outcomes)[i]);
        assert(before[i] == outcomes[i]);
    }
}

/// Every event of a task is on a channel of its own session.
pub proof fn lemma_events_are_scoped(task: ForwarderView, outcome: ReadOutcomeView)
    ensures
        match task.emitted(outcome) {
            Some(EventView::Output { name, .. }) => name == spec_output_event_name(task.session_id),
            Some(EventView::Closed { name }) => name == spec_closed_event_name(task.session_id),
            None => true,
        },
{
}

} // verus!
